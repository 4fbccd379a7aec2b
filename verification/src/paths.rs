//! Telling compiled-module files apart from other files by their path.
//!
//! A path names a compiled-module file exactly when its final
//! '/'-separated component carries the compiled-module extension `.mv`
//! with a nonempty stem in front of it. Paths are treated as byte strings,
//! as the operating system hands them out.

use vstd::prelude::*;

verus! {

/// The path separator byte, '/'.
pub const SEPARATOR: u8 = 47;

/// The extension dot byte, '.'.
pub const DOT: u8 = 46;

/// The first byte of the compiled-module extension, 'm'.
pub const EXT_M: u8 = 109;

/// The second byte of the compiled-module extension, 'v'.
pub const EXT_V: u8 = 118;

/// The final '/'-separated component of a path: the name of the file the
/// path points at. Empty when the path is empty or ends in a separator.
pub open spec fn final_component(path: Seq<u8>) -> Seq<u8>
    decreases path.len(),
{
    if path.len() == 0 {
        path
    } else if path.last() == SEPARATOR {
        Seq::empty()
    } else {
        final_component(path.drop_last()).push(path.last())
    }
}

/// Whether a file name marks a compiled module: it ends in `.mv` and the
/// stem before the dot is nonempty, so the bare name `.mv` does not count.
pub open spec fn is_module_file_name(name: Seq<u8>) -> bool {
    &&& name.len() >= 4
    &&& name.subrange(name.len() - 3, name.len() as int) == seq![DOT, EXT_M, EXT_V]
}

/// Whether a path names a compiled-module file.
pub open spec fn is_module_path(path: Seq<u8>) -> bool {
    is_module_file_name(final_component(path))
}

/// The final component is a separator-free suffix of the path, preceded by a
/// separator whenever anything of the path comes before it.
proof fn lemma_final_component_structure(path: Seq<u8>)
    ensures
        final_component(path).len() <= path.len(),
        final_component(path) == path.subrange(
            path.len() - final_component(path).len(),
            path.len() as int,
        ),
        forall|i: int|
            path.len() - final_component(path).len() <= i < path.len() ==> path[i] != SEPARATOR,
        final_component(path).len() < path.len() ==> path[path.len() - final_component(path).len()
            - 1] == SEPARATOR,
    decreases path.len(),
{
    if path.len() == 0 {
        assert(final_component(path) =~= path.subrange(0, 0));
    } else if path.last() == SEPARATOR {
        assert(final_component(path) =~= path.subrange(path.len() as int, path.len() as int));
    } else {
        let prefix = path.drop_last();
        lemma_final_component_structure(prefix);
        let fc = final_component(path);
        let start = path.len() - fc.len();
        assert(prefix =~= path.subrange(0, path.len() - 1));
        assert(fc =~= path.subrange(start, path.len() as int));
        assert forall|i: int| start <= i < path.len() implies path[i] != SEPARATOR by {
            if i < path.len() - 1 {
                assert(path[i] == prefix[i]);
            }
        }
        if fc.len() < path.len() {
            assert(final_component(prefix).len() < prefix.len());
            assert(path[start - 1] == prefix[start - 1]);
        }
    }
}

/// The path-level reading of the file-name rule: a path names a compiled
/// module exactly when it ends in `.mv` and the byte in front of that
/// extension exists and is no separator.
proof fn lemma_module_path_bytes(path: Seq<u8>)
    ensures
        is_module_path(path) <==> (path.len() >= 4 && path[path.len() - 4] != SEPARATOR
            && path[path.len() - 3] == DOT && path[path.len() - 2] == EXT_M && path[path.len()
            - 1] == EXT_V),
{
    lemma_final_component_structure(path);
    let fc = final_component(path);
    let start = path.len() - fc.len();
    if path.len() >= 4 && path[path.len() - 4] != SEPARATOR && path[path.len() - 3] == DOT
        && path[path.len() - 2] == EXT_M && path[path.len() - 1] == EXT_V {
        if fc.len() < 4 {
            assert(start - 1 >= path.len() - 4);
            assert(path[start - 1] != SEPARATOR);
            assert(false);
        }
        assert(fc.subrange(fc.len() - 3, fc.len() as int) =~= seq![DOT, EXT_M, EXT_V]);
        assert(is_module_file_name(fc));
    } else {
        if is_module_file_name(fc) {
            assert(path[path.len() - 3] == fc[fc.len() - 3]);
            assert(path[path.len() - 2] == fc[fc.len() - 2]);
            assert(path[path.len() - 1] == fc[fc.len() - 1]);
            assert(path[path.len() - 4] == fc[fc.len() - 4]);
            assert(false);
        }
    }
}

/// Whether `path` names a compiled-module file, decided from its bytes.
pub fn has_module_extension(path: &Vec<u8>) -> (r: bool)
    ensures
        r == is_module_path(path@),
{
    proof {
        lemma_module_path_bytes(path@);
    }
    let n = path.len();
    n >= 4 && path[n - 4] != SEPARATOR && path[n - 3] == DOT && path[n - 2] == EXT_M && path[n
        - 1] == EXT_V
}

/// The compiled-module paths among `paths`, in their given order.
pub open spec fn module_paths_of(paths: Seq<Seq<u8>>) -> Seq<Seq<u8>> {
    paths.filter(|p: Seq<u8>| is_module_path(p))
}

/// Keep, in order, exactly the paths that name compiled-module files.
pub fn filter_module_paths(paths: &Vec<Vec<u8>>) -> (r: Vec<Vec<u8>>)
    ensures
        r.deep_view() == module_paths_of(paths.deep_view()),
{
    let mut r: Vec<Vec<u8>> = Vec::new();
    let n: usize = paths.len();
    for i in 0..n
        invariant
            n == paths.len(),
            r.deep_view() == module_paths_of(paths.deep_view().subrange(0, i as int)),
    {
        let keep = has_module_extension(&paths[i]);
        proof {
            assert(paths[i as int].deep_view() =~= paths[i as int]@);
        }
        if keep {
            r.push(paths[i].clone());
        }
        proof {
            let pred = |p: Seq<u8>| is_module_path(p);
            let dv = paths.deep_view();
            let before = dv.subrange(0, i as int);
            let one = seq![dv[i as int]];
            assert(dv.subrange(0, i + 1) =~= before + one);
            Seq::<Seq<u8>>::filter_distributes_over_add(before, one, pred);
            reveal_with_fuel(Seq::filter, 2);
            assert(one.drop_last() =~= Seq::<Seq<u8>>::empty());
            if pred(dv[i as int]) {
                assert(one.filter(pred) =~= one);
            } else {
                assert(one.filter(pred) =~= Seq::<Seq<u8>>::empty());
            }
            assert(r.deep_view() =~= module_paths_of(dv.subrange(0, i + 1)));
        }
    }
    proof {
        assert(paths.deep_view().subrange(0, paths.len() as int) =~= paths.deep_view());
    }
    r
}

} // verus!
