//! Finding or creating the key at a path, and removing one.

use vstd::prelude::*;
use crate::error::{fatal_store_error, ErrorView, RegistryError, StoreError};
use crate::path::{child_path, descend, has_parent, is_key_name, lemma_join_splits,
    lemma_last_separator, lemma_split_joins, parent_path, root_of, split_key_path};
use crate::store::{is_ancestor_or_self, lemma_creation_order, KeyStore, StoreModel};

verus! {

/// The texts of a list of names, in order.
pub open spec fn names_view(names: Seq<&str>) -> Seq<Seq<char>> {
    Seq::new(names.len(), |i: int| names[i]@)
}

/// Whether every name in `names` can be that of one key.
pub open spec fn all_key_names(names: Seq<Seq<char>>) -> bool {
    forall|i: int| 0 <= i < names.len() ==> is_key_name(#[trigger] names[i])
}

/// Descending by `first` and then by `rest` is descending by `rest` from the
/// child under `first`.
pub proof fn lemma_descend_from_child(base: Seq<char>, first: Seq<char>, rest: Seq<Seq<char>>)
    ensures
        descend(base, seq![first] + rest) == descend(child_path(base, first), rest),
    decreases rest.len(),
{
    let all = seq![first] + rest;
    if rest.len() == 0 {
        assert(all.drop_last() =~= Seq::<Seq<char>>::empty());
        assert(descend(base, all.drop_last()) == base);
    } else {
        assert(all.drop_last() =~= seq![first] + rest.drop_last());
        assert(all.last() == rest.last());
        lemma_descend_from_child(base, first, rest.drop_last());
    }
}

/// The key reached after the first `count` of `names` is the key reached
/// after all of them, or lies above it.
pub proof fn lemma_descent_passes_ancestors(base: Seq<char>, names: Seq<Seq<char>>, count: int)
    requires
        all_key_names(names),
        0 <= count <= names.len(),
    ensures
        is_ancestor_or_self(descend(base, names.take(count)), descend(base, names)),
    decreases names.len(),
{
    if count == names.len() {
        assert(names.take(count) =~= names);
    } else {
        let shorter = names.drop_last();
        assert(is_key_name(names[names.len() - 1]));
        lemma_join_splits(descend(base, shorter), names.last());
        assert(shorter.take(count) =~= names.take(count));
        assert forall|i: int| 0 <= i < shorter.len() implies is_key_name(
            #[trigger] shorter[i],
        ) by {
            assert(shorter[i] == names[i]);
        }
        lemma_descent_passes_ancestors(base, shorter, count);
    }
}

/// The first segment of a path is the path or lies above it, and creating
/// the keys down to it changes nothing.
pub proof fn lemma_root_is_ancestor(model: StoreModel, path: Seq<char>)
    ensures
        is_ancestor_or_self(root_of(path), path),
        model.ensure_key(root_of(path)) == model,
        !has_parent(root_of(path)),
    decreases path.len(),
{
    if has_parent(path) {
        lemma_last_separator(path);
        lemma_root_is_ancestor(model, parent_path(path));
    }
}

/// A store that did not change is a store in which the creation of keys
/// stopped before the first one.
pub proof fn lemma_unchanged_is_part_way(model: StoreModel, path: Seq<char>)
    ensures
        model.is_part_way_to(model, path),
{
    lemma_root_is_ancestor(model, path);
    assert(is_ancestor_or_self(root_of(path), path) && model == model.ensure_key(root_of(path)));
}

/// Finds the deepest key above `key_path` that exists, and the names of the
/// keys that lead from it down to `key_path`, outermost first. `key_path`
/// itself is not looked at. Fails with `InvalidKeyPath` when no key above
/// `key_path` exists.
pub fn get_valid_parent_key_and_subkeys<'a, S: KeyStore>(store: &S, key_path: &'a str) -> (r:
    Result<(S::Key, Vec<&'a str>), RegistryError>)
    ensures
        r matches Ok(found) ==> {
            let base = S::key_path(&found.0);
            let names = names_view(found.1@);
            &&& names.len() >= 1
            &&& all_key_names(names)
            &&& store@.has_key(base)
            &&& descend(base, names) == key_path@
            &&& forall|k: int|
                1 <= k < names.len() ==> !store@.has_key(#[trigger] descend(base, names.take(k)))
            &&& has_parent(key_path@)
            &&& store@.resolvable(parent_path(key_path@))
        },
        r matches Err(e) ==> match e@ {
            ErrorView::InvalidKeyPath(p) => p == root_of(key_path@) && !(has_parent(key_path@)
                && store@.resolvable(parent_path(key_path@))),
            ErrorView::Store(_) => !store.reliable(),
            _ => false,
        },
        store.reliable() ==> (r is Ok <==> has_parent(key_path@) && store@.resolvable(
            parent_path(key_path@),
        )),
{
    let (parent, leaf) = match split_key_path(key_path) {
        Ok(parts) => parts,
        Err(e) => {
            return Err(e);
        },
    };
    let mut subkeys: Vec<&'a str> = Vec::new();
    subkeys.push(leaf);
    let mut current: &'a str = parent;
    proof {
        lemma_split_joins(key_path@);
        lemma_last_separator(key_path@);
        assert(names_view(subkeys@) =~= seq![leaf@]);
        assert(names_view(subkeys@).drop_last() =~= Seq::<Seq<char>>::empty());
        assert(names_view(subkeys@).last() == leaf@);
        assert(descend(parent@, Seq::<Seq<char>>::empty()) == parent@);
    }
    loop
        invariant
            has_parent(key_path@),
            names_view(subkeys@).len() >= 1,
            all_key_names(names_view(subkeys@)),
            descend(current@, names_view(subkeys@)) == key_path@,
            forall|k: int|
                1 <= k < subkeys@.len() ==> !store@.has_key(
                    #[trigger] descend(current@, names_view(subkeys@).take(k)),
                ),
            root_of(current@) == root_of(key_path@),
            store@.resolvable(current@) == store@.resolvable(parent_path(key_path@)),
        decreases current@.len(),
    {
        match store.open(current) {
            Ok(key) => {
                return Ok((key, subkeys));
            },
            Err(StoreError::NotFound) => {
                match split_key_path(current) {
                    Ok(parts) => {
                        proof {
                            let names = names_view(subkeys@);
                            let longer = seq![parts.1@] + names;
                            lemma_split_joins(current@);
                            lemma_descend_from_child(parts.0@, parts.1@, names);
                            assert forall|k: int| 1 <= k < longer.len() implies !store@.has_key(
                                #[trigger] descend(parts.0@, longer.take(k)),
                            ) by {
                                assert(longer.take(k) =~= seq![parts.1@] + names.take(k - 1));
                                lemma_descend_from_child(parts.0@, parts.1@, names.take(k - 1));
                                if k == 1 {
                                    assert(names.take(0) =~= Seq::<Seq<char>>::empty());
                                }
                            }
                            assert forall|i: int| 0 <= i < longer.len() implies is_key_name(
                                #[trigger] longer[i],
                            ) by {
                                if i > 0 {
                                    assert(longer[i] == names[i - 1]);
                                }
                            }
                        }
                        let ghost names_before = names_view(subkeys@);
                        subkeys.insert(0, parts.1);
                        current = parts.0;
                        proof {
                            assert(names_view(subkeys@) =~= seq![parts.1@] + names_before);
                        }
                    },
                    Err(e) => {
                        return Err(e);
                    },
                }
            },
            Err(StoreError::Failed(message)) => {
                return Err(RegistryError::Store(message));
            },
        }
    }
}

/// Opens the key at `key_path`. Where it does not exist, the keys that are
/// missing on the way down to it are created below the deepest key that
/// exists, each one after its parent, and the last one is returned.
///
/// Fails with `InvalidKeyPath` when neither `key_path` nor a key above it
/// exists. When the store fails, the keys created until then stay.
pub fn open_or_create_key<S: KeyStore>(store: &mut S, key_path: &str) -> (r: Result<
    S::Key,
    RegistryError,
>)
    ensures
        final(store).reliable() == old(store).reliable(),
        r matches Ok(key) ==> {
            &&& S::key_path(&key) == key_path@
            &&& old(store)@.resolvable(key_path@)
            &&& final(store)@ == old(store)@.ensure_key(key_path@)
            &&& final(store)@.has_key(key_path@)
            &&& final(store)@.created == old(store)@.created + old(store)@.missing_keys(
                key_path@,
            )
        },
        r matches Err(e) ==> match e@ {
            ErrorView::InvalidKeyPath(p) => p == root_of(key_path@) && !old(store)@.resolvable(
                key_path@,
            ) && final(store)@ == old(store)@,
            ErrorView::Store(_) => !old(store).reliable() && final(store)@.is_part_way_to(
                old(store)@,
                key_path@,
            ),
            _ => false,
        },
        old(store).reliable() ==> (r is Ok <==> old(store)@.resolvable(key_path@)),
{
    let ghost before = store@;
    proof {
        if before.resolvable(key_path@) {
            lemma_creation_order(before, key_path@);
        }
    }
    match store.open(key_path) {
        Ok(key) => {
            return Ok(key);
        },
        Err(StoreError::NotFound) => {},
        Err(StoreError::Failed(message)) => {
            proof {
                lemma_unchanged_is_part_way(before, key_path@);
            }
            return Err(RegistryError::Store(message));
        },
    }
    let (parent_key, subkeys) = match get_valid_parent_key_and_subkeys(store, key_path) {
        Ok(found) => found,
        Err(e) => {
            proof {
                lemma_unchanged_is_part_way(before, key_path@);
            }
            return Err(e);
        },
    };
    let ghost base = S::key_path(&parent_key);
    let ghost names = names_view(subkeys@);
    let mut current_key = parent_key;
    let mut i: usize = 0;
    proof {
        assert(names.take(0) =~= Seq::<Seq<char>>::empty());
        assert(names.take(names.len() as int) =~= names);
    }
    while i < subkeys.len()
        invariant
            i <= subkeys.len(),
            names == names_view(subkeys@),
            all_key_names(names),
            descend(base, names) == key_path@,
            forall|k: int|
                1 <= k <= names.len() ==> !before.has_key(
                    #[trigger] descend(base, names.take(k)),
                ),
            S::key_path(&current_key) == descend(base, names.take(i as int)),
            store@ == before.ensure_key(descend(base, names.take(i as int))),
            store@.has_key(S::key_path(&current_key)),
            store.reliable() == old(store).reliable(),
            before == old(store)@,
        decreases subkeys.len() - i,
    {
        let ghost here = descend(base, names.take(i as int));
        let ghost next = descend(base, names.take(i + 1));
        proof {
            assert(names.take(i + 1).drop_last() =~= names.take(i as int));
            assert(names.take(i + 1).last() == names[i as int]);
            assert(next == child_path(here, names[i as int]));
            assert(is_key_name(names[i as int]));
            lemma_join_splits(here, names[i as int]);
            assert(!before.has_key(next));
            assert(before.ensure_key(next) == before.ensure_key(here).create_key(next));
        }
        match store.create_subkey(&current_key, subkeys[i]) {
            Ok(key) => {
                current_key = key;
            },
            Err(e) => {
                proof {
                    lemma_descent_passes_ancestors(base, names, i as int);
                    assert(is_ancestor_or_self(here, key_path@) && store@ == before.ensure_key(
                        here,
                    ));
                }
                return Err(fatal_store_error(e));
            },
        }
        i += 1;
    }
    proof {
        assert(names.take(i as int) =~= names);
        lemma_last_separator(key_path@);
    }
    Ok(current_key)
}

/// Deletes the key at `key_path` with everything below it. A key that does
/// not exist is left alone, and that is a success.
pub fn remove_key<S: KeyStore>(store: &mut S, key_path: &str) -> (r: Result<(), RegistryError>)
    ensures
        final(store).reliable() == old(store).reliable(),
        r is Ok ==> final(store)@ == old(store)@.remove_key(key_path@),
        r matches Err(e) ==> e@ is Store && !old(store).reliable() && final(store)@ == old(
            store,
        )@,
        old(store).reliable() ==> r is Ok,
{
    match store.open(key_path) {
        Ok(key) => match store.delete_subtree(&key) {
            Ok(()) => Ok(()),
            Err(StoreError::NotFound) => Ok(()),
            Err(StoreError::Failed(message)) => Err(RegistryError::Store(message)),
        },
        Err(StoreError::NotFound) => Ok(()),
        Err(StoreError::Failed(message)) => Err(RegistryError::Store(message)),
    }
}

} // verus!
