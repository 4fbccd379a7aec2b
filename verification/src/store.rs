//! The two-tier module store.
//!
//! Tier one holds the raw blobs of one release, tier two the decoded module
//! each blob stands for, at the same index. The store is built once, by
//! recording each blob together with its decoded form, and is read-only
//! afterwards; a caller that wants a process-wide cache wraps one store in a
//! compute-once cell of its own.

use vstd::prelude::*;

verus! {

/// A store of one release's modules, in two positionally aligned tiers:
/// tier one keeps each module's serialized bytes, tier two the decoded
/// module the decoder produced for exactly those bytes.
///
/// The decoded form `M` is whatever type the caller's decoder yields; this
/// crate never looks inside it, it only keeps it aligned with its blob.
pub struct ModuleStore<M> {
    blobs: Vec<Vec<u8>>,
    modules: Vec<M>,
}

impl<M> ModuleStore<M> {
    /// Tier one: the raw byte sequences, one per module, in release order.
    pub closed spec fn blobs_view(self) -> Seq<Seq<u8>> {
        self.blobs.deep_view()
    }

    /// Tier two: the decoded modules, index `i` decoded from blob `i`.
    pub closed spec fn modules_view(self) -> Seq<M> {
        self.modules@
    }

    #[verifier::type_invariant]
    spec fn tiers_aligned(self) -> bool {
        self.blobs@.len() == self.modules@.len()
    }

    /// An empty store, both tiers empty.
    pub fn new() -> (s: Self)
        ensures
            s.blobs_view() == Seq::<Seq<u8>>::empty(),
            s.modules_view() == Seq::<M>::empty(),
    {
        let s = ModuleStore { blobs: Vec::new(), modules: Vec::new() };
        proof {
            assert(s.blobs.deep_view() =~= Seq::<Seq<u8>>::empty());
        }
        s
    }

    /// Append one module: its blob to tier one and its decoded form to tier
    /// two, so the tiers grow in step and stay aligned.
    pub fn record(&mut self, blob: Vec<u8>, module: M)
        ensures
            final(self).blobs_view() == old(self).blobs_view().push(blob@),
            final(self).modules_view() == old(self).modules_view().push(module),
    {
        proof {
            use_type_invariant(&*self);
        }
        let mut taken = ModuleStore { blobs: Vec::new(), modules: Vec::new() };
        std::mem::swap(&mut taken, self);
        let ModuleStore { mut blobs, mut modules } = taken;
        blobs.push(blob);
        modules.push(module);
        *self = ModuleStore { blobs, modules };
        proof {
            assert(self.blobs.deep_view() =~~= old(self).blobs.deep_view().push(blob@));
        }
    }

    /// Tier two, whole: the decoded modules of the release, in order.
    /// There are exactly as many of them as there are blobs in tier one.
    pub fn current_modules(&self) -> (r: &Vec<M>)
        ensures
            r@ == self.modules_view(),
            r@.len() == self.blobs_view().len(),
    {
        proof {
            use_type_invariant(self);
        }
        &self.modules
    }

    /// Tier one, whole: the raw module blobs of the release, in order.
    /// There are exactly as many of them as there are modules in tier two.
    pub fn current_module_blobs(&self) -> (r: &Vec<Vec<u8>>)
        ensures
            r.deep_view() == self.blobs_view(),
            r@.len() == self.modules_view().len(),
    {
        proof {
            use_type_invariant(self);
        }
        &self.blobs
    }
}

} // verus!
