//! Key paths: where a path splits into its parent and its last segment.

use vstd::prelude::*;
use crate::error::{ErrorView, RegistryError};

verus! {

/// The character that separates the segments of a key path.
pub const SEPARATOR: char = '\\';

/// The index of the last separator in `path`, or -1 when it holds none.
pub open spec fn last_separator(path: Seq<char>) -> int
    decreases path.len(),
{
    if path.len() == 0 {
        -1
    } else if path.last() == SEPARATOR {
        path.len() - 1
    } else {
        last_separator(path.drop_last())
    }
}

/// `last_separator` is the greatest index that holds a separator.
pub proof fn lemma_last_separator(path: Seq<char>)
    ensures
        -1 <= last_separator(path) < path.len(),
        last_separator(path) >= 0 ==> path[last_separator(path)] == SEPARATOR,
        forall|j: int| last_separator(path) < j < path.len() ==> path[j] != SEPARATOR,
    decreases path.len(),
{
    if path.len() > 0 && path.last() != SEPARATOR {
        let shorter = path.drop_last();
        lemma_last_separator(shorter);
        assert forall|j: int| last_separator(path) < j < path.len() implies path[j]
            != SEPARATOR by {
            if j < shorter.len() {
                assert(shorter[j] == path[j]);
            }
        }
    }
}

/// A key path has a parent when it holds a separator.
pub open spec fn has_parent(path: Seq<char>) -> bool {
    last_separator(path) >= 0
}

/// What stands before the last separator of `path`.
pub open spec fn parent_path(path: Seq<char>) -> Seq<char> {
    path.take(last_separator(path))
}

/// What stands after the last separator of `path`; the whole path when it
/// holds none.
pub open spec fn leaf_name(path: Seq<char>) -> Seq<char> {
    path.skip(last_separator(path) + 1)
}

/// The path of the key called `name` directly under `parent`.
pub open spec fn child_path(parent: Seq<char>, name: Seq<char>) -> Seq<char> {
    parent.push(SEPARATOR) + name
}

/// A name can be that of one key when it holds no separator.
pub open spec fn is_key_name(name: Seq<char>) -> bool {
    forall|i: int| 0 <= i < name.len() ==> name[i] != SEPARATOR
}

/// The first segment of `path`: the ancestor that has no parent.
pub open spec fn root_of(path: Seq<char>) -> Seq<char>
    decreases path.len(),
{
    if has_parent(path) {
        proof {
            lemma_last_separator(path);
        }
        root_of(parent_path(path))
    } else {
        path
    }
}

/// `base` with the keys called `names` below it, each under the one before.
pub open spec fn descend(base: Seq<char>, names: Seq<Seq<char>>) -> Seq<char>
    decreases names.len(),
{
    if names.len() == 0 {
        base
    } else {
        child_path(descend(base, names.drop_last()), names.last())
    }
}

/// A path with a parent is its parent's child under its last segment, and
/// that segment is a key name.
pub proof fn lemma_split_joins(path: Seq<char>)
    requires
        has_parent(path),
    ensures
        child_path(parent_path(path), leaf_name(path)) == path,
        is_key_name(leaf_name(path)),
        parent_path(path).len() < path.len(),
{
    lemma_last_separator(path);
    assert(child_path(parent_path(path), leaf_name(path)) =~= path);
}

/// The child of `parent` under a key name splits back into the two.
pub proof fn lemma_join_splits(parent: Seq<char>, name: Seq<char>)
    requires
        is_key_name(name),
    ensures
        last_separator(child_path(parent, name)) == parent.len(),
        has_parent(child_path(parent, name)),
        parent_path(child_path(parent, name)) == parent,
        leaf_name(child_path(parent, name)) == name,
    decreases name.len(),
{
    let child = child_path(parent, name);
    if name.len() == 0 {
        assert(child.len() == parent.len() + 1);
        assert(child.last() == child[parent.len() as int]);
        assert(child.last() == SEPARATOR);
    } else {
        let shorter = name.drop_last();
        assert(child.last() == name.last());
        assert(name.last() == name[name.len() - 1]);
        assert(child.drop_last() =~= child_path(parent, shorter));
        assert forall|i: int| 0 <= i < shorter.len() implies shorter[i] != SEPARATOR by {
            assert(shorter[i] == name[i]);
        }
        lemma_join_splits(parent, shorter);
        assert(name.last() != SEPARATOR);
        assert(last_separator(child) == last_separator(child.drop_last()));
    }
    assert(last_separator(child) == parent.len());
    assert(parent_path(child) =~= parent);
    assert(leaf_name(child) =~= name);
}

/// Finds the last separator of `path`.
pub fn find_last_separator(path: &str) -> (r: Option<usize>)
    ensures
        match r {
            Some(i) => i == last_separator(path@),
            None => last_separator(path@) == -1,
        },
{
    let mut found: Option<usize> = None;
    let mut i: usize = 0;
    let length: usize = path.unicode_len();
    for c in it: path.chars()
        invariant
            i == it.index(),
            length == path@.len(),
            it.seq() == path@,
            match found {
                Some(k) => k == last_separator(path@.take(i as int)),
                None => last_separator(path@.take(i as int)) == -1,
            },
    {
        assert(path@.take(i + 1).drop_last() =~= path@.take(i as int));
        if c == SEPARATOR {
            found = Some(i);
        }
        i += 1;
    }
    assert(path@.take(i as int) =~= path@);
    found
}

/// Splits a key path at its last separator into the parent's path and the
/// last segment. A path without a separator has no parent and is rejected.
pub fn split_key_path(key_path: &str) -> (r: Result<(&str, &str), RegistryError>)
    ensures
        r is Ok <==> has_parent(key_path@),
        r matches Ok(parts) ==> parts.0@ == parent_path(key_path@) && parts.1@ == leaf_name(
            key_path@,
        ),
        r matches Err(e) ==> e@ == ErrorView::InvalidKeyPath(key_path@),
{
    match find_last_separator(key_path) {
        Some(index) => {
            proof {
                lemma_last_separator(key_path@);
            }
            let length: usize = key_path.unicode_len();
            let parent = key_path.substring_char(0, index);
            let name = key_path.substring_char(index + 1, length);
            Ok((parent, name))
        },
        None => Err(RegistryError::InvalidKeyPath(key_path.to_owned())),
    }
}

/// The path of the parent of `key_path`: what stands before its last
/// separator. A path without a separator has no parent and is rejected.
pub fn get_parent_key_path(key_path: &str) -> (r: Result<&str, RegistryError>)
    ensures
        r is Ok <==> has_parent(key_path@),
        r matches Ok(parent) ==> parent@ == parent_path(key_path@),
        r matches Err(e) ==> e@ == ErrorView::InvalidKeyPath(key_path@),
{
    match split_key_path(key_path) {
        Ok(parts) => Ok(parts.0),
        Err(e) => Err(e),
    }
}

} // verus!
