//! Paths as byte strings: their components, their file names and joining.

use vstd::prelude::*;
use vstd::slice::slice_to_vec;

use crate::text::{same_bytes, split, split_bytes, views};

verus! {

pub const SEPARATOR: u8 = 0x2f;

/// The current directory, `.`.
pub open spec fn current_dir() -> Seq<u8> {
    seq![0x2eu8]
}

/// The parent directory, `..`.
pub open spec fn parent_dir() -> Seq<u8> {
    seq![0x2eu8, 0x2eu8]
}

/// The root directory, `/`.
pub open spec fn root_dir() -> Seq<u8> {
    seq![SEPARATOR]
}

/// Those of the parts between separators that are components of a path: neither the
/// empty ones nor, beyond the first part, the current directory.
pub open spec fn kept_parts(parts: Seq<Seq<u8>>) -> Seq<Seq<u8>>
    decreases parts.len(),
{
    if parts.len() == 0 {
        seq![]
    } else {
        let before = kept_parts(parts.drop_last());
        let part = parts.last();
        if part.len() == 0 || (part == current_dir() && parts.len() > 1) {
            before
        } else {
            before.push(part)
        }
    }
}

/// The components of a path, with the root directory as the first of an absolute
/// one. Two paths with the same components are the same path: repeated and trailing
/// separators do not count.
pub open spec fn components(path: Seq<u8>) -> Seq<Seq<u8>> {
    let parts = kept_parts(split(path, SEPARATOR));
    if path.len() > 0 && path[0] == SEPARATOR {
        seq![root_dir()] + parts
    } else {
        parts
    }
}

/// Whether a component names an entry of a directory.
pub open spec fn is_name(component: Seq<u8>) -> bool {
    &&& component.len() > 0
    &&& !component.contains(SEPARATOR)
    &&& component != current_dir()
    &&& component != parent_dir()
}

/// The last component of a path, where it names an entry of a directory.
pub open spec fn file_name(path: Seq<u8>) -> Option<Seq<u8>> {
    let parts = components(path);
    if parts.len() > 0 && is_name(parts.last()) {
        Some(parts.last())
    } else {
        None
    }
}

/// The path of an entry of a directory.
pub open spec fn join(directory: Seq<u8>, name: Seq<u8>) -> Seq<u8> {
    if directory.len() == 0 || directory.last() == SEPARATOR {
        directory + name
    } else {
        directory.push(SEPARATOR) + name
    }
}

/// The components of a path.
pub fn path_components(path: &[u8]) -> (parts: Vec<Vec<u8>>)
    ensures
        views(parts@) == components(path@),
{
    let pieces = split_bytes(path, SEPARATOR);
    let mut parts: Vec<Vec<u8>> = Vec::new();
    let ghost all = views(pieces@);
    let ghost mut root: Seq<Seq<u8>> = seq![];
    if path.len() > 0 && path[0] == SEPARATOR {
        let mut start: Vec<u8> = Vec::new();
        start.push(SEPARATOR);
        parts.push(start);
        proof {
            root = seq![root_dir()];
            assert(start@ =~= root_dir());
        }
    }
    assert(views(parts@) =~= root + kept_parts(all.take(0)));
    for i in 0..pieces.len()
        invariant
            all == views(pieces@),
            views(parts@) == root + kept_parts(all.take(i as int)),
    {
        let piece = &pieces[i];
        proof {
            assert(all.take(i + 1).drop_last() =~= all.take(i as int));
            assert(all.take(i + 1).last() == piece@);
            if piece@.len() == 1 && piece@[0] == 0x2e {
                assert(piece@ =~= current_dir());
            }
        }
        let dropped = piece.len() == 0 || (piece.len() == 1 && piece[0] == 0x2e && i > 0);
        if !dropped {
            let ghost before = parts@;
            parts.push(slice_to_vec(piece.as_slice()));
            assert(views(parts@) =~= views(before).push(piece@));
            assert(views(parts@) =~= root + kept_parts(all.take(i + 1)));
        }
    }
    assert(all.take(pieces@.len() as int) =~= all);
    assert(all == split(path@, SEPARATOR));
    assert(views(parts@) =~= components(path@));
    parts
}

fn is_entry_name(component: &Vec<u8>) -> (name: bool)
    ensures
        name == is_name(component@),
{
    let n: usize = component.len();
    for i in 0..n
        invariant
            n == component@.len(),
            forall|j: int| 0 <= j < i ==> component@[j] != SEPARATOR,
    {
        if component[i] == SEPARATOR {
            return false;
        }
    }
    let current: bool = n == 1 && component[0] == 0x2e;
    let parent: bool = n == 2 && component[0] == 0x2e && component[1] == 0x2e;
    proof {
        if current {
            assert(component@ =~= current_dir());
        }
        if parent {
            assert(component@ =~= parent_dir());
        }
    }
    n > 0 && !current && !parent
}

/// The last component of a path, where it names an entry of a directory.
pub fn path_file_name(path: &[u8]) -> (name: Option<Vec<u8>>)
    ensures
        match name {
            Some(name) => file_name(path@) == Some(name@),
            None => file_name(path@) is None,
        },
{
    let mut parts = path_components(path);
    let ghost all = parts@;
    match parts.pop() {
        Some(last) => {
            assert(views(all).last() == last@);
            if is_entry_name(&last) {
                Some(last)
            } else {
                None
            }
        },
        None => None,
    }
}

/// The path of an entry of a directory.
pub fn path_join(directory: &[u8], name: &[u8]) -> (path: Vec<u8>)
    ensures
        path@ == join(directory@, name@),
{
    let mut path: Vec<u8> = slice_to_vec(directory);
    if directory.len() > 0 && directory[directory.len() - 1] != SEPARATOR {
        path.push(SEPARATOR);
    }
    path.extend_from_slice(name);
    path
}

/// Whether two lists of components are the same.
pub fn same_components(a: &Vec<Vec<u8>>, b: &Vec<Vec<u8>>) -> (same: bool)
    ensures
        same == (views(a@) == views(b@)),
{
    if a.len() != b.len() {
        assert(views(a@).len() != views(b@).len());
        return false;
    }
    for i in 0..a.len()
        invariant
            a@.len() == b@.len(),
            forall|j: int| 0 <= j < i ==> a@[j]@ == b@[j]@,
    {
        if !same_bytes(a[i].as_slice(), b[i].as_slice()) {
            assert(views(a@)[i as int] != views(b@)[i as int]);
            return false;
        }
    }
    assert(views(a@) =~= views(b@));
    true
}

/// Bytes without a separator extend the last part.
proof fn lemma_split_extend(path: Seq<u8>, name: Seq<u8>)
    requires
        !name.contains(SEPARATOR),
    ensures
        split(path + name, SEPARATOR) == split(path, SEPARATOR).drop_last().push(
            split(path, SEPARATOR).last() + name,
        ),
    decreases name.len(),
{
    let before = split(path, SEPARATOR);
    crate::text::lemma_split_not_empty(path, SEPARATOR);
    if name.len() == 0 {
        assert(path + name =~= path);
        assert(before.last() + name =~= before.last());
        assert(before =~= before.drop_last().push(before.last()));
    } else {
        assert((path + name).drop_last() =~= path + name.drop_last());
        assert(name.contains(name.last()));
        assert forall|i: int| 0 <= i < name.drop_last().len() implies name.drop_last()[i]
            != SEPARATOR by {
            assert(name.contains(name[i]));
        }
        lemma_split_extend(path, name.drop_last());
        let parts = split(path + name.drop_last(), SEPARATOR);
        assert(parts.drop_last() =~= before.drop_last());
        assert(parts.last().push(name.last()) =~= before.last() + name);
    }
}

/// Joining a name to a directory appends it to the components of the directory.
pub proof fn law_join_appends_the_name(directory: Seq<u8>, name: Seq<u8>)
    requires
        is_name(name),
    ensures
        components(join(directory, name)) == components(directory).push(name),
        file_name(join(directory, name)) == Some(name),
{
    let parts = split(directory, SEPARATOR);
    crate::text::lemma_split_not_empty(directory, SEPARATOR);
    assert(name.contains(name[0]));
    let joined = join(directory, name);
    if directory.len() == 0 || directory.last() == SEPARATOR {
        lemma_split_extend(directory, name);
        assert(parts.last() =~= seq![]);
        assert(parts.last() + name =~= name);
        assert(split(joined, SEPARATOR).drop_last() =~= parts.drop_last());
        assert(split(joined, SEPARATOR).last() =~= name);
        assert(kept_parts(split(joined, SEPARATOR)) == kept_parts(parts).push(name));
    } else {
        let closed = directory.push(SEPARATOR);
        assert(closed.drop_last() =~= directory);
        assert(split(closed, SEPARATOR) == parts.push(seq![]));
        lemma_split_extend(closed, name);
        assert(parts.push(seq![]).drop_last() =~= parts);
        assert(Seq::<u8>::empty() + name =~= name);
        assert(split(joined, SEPARATOR) =~= parts.push(name));
        assert(split(joined, SEPARATOR).drop_last() =~= parts);
        assert(kept_parts(split(joined, SEPARATOR)) == kept_parts(parts).push(name));
    }
    assert(components(joined) =~= components(directory).push(name));
}

} // verus!
