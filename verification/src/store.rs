//! The key store: what the library asks of a registry, and the mathematical
//! model in which its contracts are stated.

use vstd::prelude::*;
use crate::config::{strings_view, ValueDataView};
use crate::error::StoreError;
use crate::path::{child_path, has_parent, is_key_name, lemma_last_separator, parent_path,
    SEPARATOR};

verus! {

/// The data of a value as a store holds it.
#[derive(Debug)]
pub enum StoreValueData {
    /// The value exists and has no data.
    NoData,
    String(String),
    ExpandString(String),
    Binary(Vec<u8>),
    DWord(u32),
    MultiString(Vec<String>),
    QWord(u64),
    /// Data of a kind that a document cannot express.
    Unsupported,
}

/// The mathematical content of a [`StoreValueData`].
pub enum StoreDataView {
    NoData,
    Data(ValueDataView),
    Unsupported,
}

impl View for StoreValueData {
    type V = StoreDataView;

    open spec fn view(&self) -> StoreDataView {
        match self {
            StoreValueData::NoData => StoreDataView::NoData,
            StoreValueData::String(s) => StoreDataView::Data(ValueDataView::String(s@)),
            StoreValueData::ExpandString(s) => StoreDataView::Data(
                ValueDataView::ExpandString(s@),
            ),
            StoreValueData::Binary(b) => StoreDataView::Data(ValueDataView::Binary(b@)),
            StoreValueData::DWord(n) => StoreDataView::Data(ValueDataView::DWord(*n)),
            StoreValueData::MultiString(v) => StoreDataView::Data(
                ValueDataView::MultiString(strings_view(v@)),
            ),
            StoreValueData::QWord(n) => StoreDataView::Data(ValueDataView::QWord(*n)),
            StoreValueData::Unsupported => StoreDataView::Unsupported,
        }
    }
}

/// A value as a store reports it: the key it lies under, its name and its
/// data.
#[derive(Debug)]
pub struct RegistryValue {
    pub key_path: String,
    pub name: String,
    pub data: StoreValueData,
}

/// Whether `path` is `root` or lies below it.
pub open spec fn is_within(path: Seq<char>, root: Seq<char>) -> bool {
    path == root || (path.len() > root.len() && path.take(root.len() as int) == root
        && path[root.len() as int] == SEPARATOR)
}

/// Whether `ancestor` is `path` or one of the keys above it.
pub open spec fn is_ancestor_or_self(ancestor: Seq<char>, path: Seq<char>) -> bool
    decreases path.len(),
{
    ancestor == path || (has_parent(path) && {
        proof {
            lemma_last_separator(path);
        }
        is_ancestor_or_self(ancestor, parent_path(path))
    })
}

/// What a store holds: the keys that exist, the values under them, and the
/// keys that were created in it, in the order of their creation.
pub struct StoreModel {
    pub keys: Set<Seq<char>>,
    pub values: Map<(Seq<char>, Seq<char>), StoreDataView>,
    pub created: Seq<Seq<char>>,
}

impl StoreModel {
    /// The model's invariant: every value lies under a key that exists.
    pub open spec fn wf(self) -> bool {
        forall|key: Seq<char>, name: Seq<char>|
            self.values.dom().contains((key, name)) ==> self.keys.contains(key)
    }

    /// Whether the key `path` exists.
    pub open spec fn has_key(self, path: Seq<char>) -> bool {
        self.keys.contains(path)
    }

    /// Whether the key `key` exists and holds a value called `name`.
    pub open spec fn has_value(self, key: Seq<char>, name: Seq<char>) -> bool {
        self.keys.contains(key) && self.values.dom().contains((key, name))
    }

    /// The data of the value `name` under `key`.
    pub open spec fn value(self, key: Seq<char>, name: Seq<char>) -> StoreDataView {
        self.values[(key, name)]
    }

    /// The store after the key `path` was asked for: created, and recorded as
    /// created, unless it existed.
    pub open spec fn create_key(self, path: Seq<char>) -> StoreModel {
        if self.keys.contains(path) {
            self
        } else {
            StoreModel {
                keys: self.keys.insert(path),
                values: self.values,
                created: self.created.push(path),
            }
        }
    }

    /// The store without the key `root`, the keys below it and all their
    /// values.
    pub open spec fn delete_tree(self, root: Seq<char>) -> StoreModel {
        StoreModel {
            keys: Set::new(|k: Seq<char>| self.keys.contains(k) && !is_within(k, root)),
            values: self.values.remove_keys(
                Set::new(|kn: (Seq<char>, Seq<char>)| is_within(kn.0, root)),
            ),
            created: self.created,
        }
    }

    /// The store after `remove_key`: without the subtree at `path` if that
    /// key existed, unchanged if it did not.
    pub open spec fn remove_key(self, path: Seq<char>) -> StoreModel {
        if self.keys.contains(path) {
            self.delete_tree(path)
        } else {
            self
        }
    }

    /// The store with the value `name` under `key` holding `data`.
    pub open spec fn put_value(self, key: Seq<char>, name: Seq<char>, data: StoreDataView)
        -> StoreModel {
        StoreModel { values: self.values.insert((key, name), data), ..self }
    }

    /// The store without the value `name` under `key`.
    pub open spec fn remove_value(self, key: Seq<char>, name: Seq<char>) -> StoreModel {
        StoreModel { values: self.values.remove((key, name)), ..self }
    }

    /// Whether `path` or one of the keys above it exists.
    pub open spec fn resolvable(self, path: Seq<char>) -> bool
        decreases path.len(),
    {
        self.keys.contains(path) || (has_parent(path) && {
            proof {
                lemma_last_separator(path);
            }
            self.resolvable(parent_path(path))
        })
    }

    /// The store after every missing key on the way down to `path` was
    /// created, each one after its parent.
    pub open spec fn ensure_key(self, path: Seq<char>) -> StoreModel
        decreases path.len(),
    {
        if self.keys.contains(path) || !has_parent(path) {
            self
        } else {
            proof {
                lemma_last_separator(path);
            }
            self.ensure_key(parent_path(path)).create_key(path)
        }
    }

    /// The keys that `ensure_key` creates for `path`, shallowest first.
    pub open spec fn missing_keys(self, path: Seq<char>) -> Seq<Seq<char>>
        decreases path.len(),
    {
        if self.keys.contains(path) || !has_parent(path) {
            Seq::empty()
        } else {
            proof {
                lemma_last_separator(path);
            }
            self.missing_keys(parent_path(path)).push(path)
        }
    }

    /// Whether `self` is what `before` becomes when the creation of the keys
    /// on the way down to `path` stops at `path` or at a key above it.
    pub open spec fn is_part_way_to(self, before: StoreModel, path: Seq<char>) -> bool {
        exists|reached: Seq<char>|
            is_ancestor_or_self(reached, path) && self == #[trigger] before.ensure_key(reached)
    }
}

/// Each change that a store can make keeps the model's invariant; a value
/// must be written under a key that exists.
pub proof fn lemma_changes_keep_wf(
    model: StoreModel,
    key: Seq<char>,
    name: Seq<char>,
    data: StoreDataView,
)
    requires
        model.wf(),
    ensures
        model.create_key(key).wf(),
        model.delete_tree(key).wf(),
        model.remove_value(key, name).wf(),
        model.has_key(key) ==> model.put_value(key, name, data).wf(),
{
    let deleted = model.delete_tree(key);
    assert forall|k: Seq<char>, n: Seq<char>| deleted.values.dom().contains((k, n)) implies
        deleted.keys.contains(k) by {
        assert(model.values.dom().contains((k, n)));
    }
    let removed = model.remove_value(key, name);
    assert forall|k: Seq<char>, n: Seq<char>| removed.values.dom().contains((k, n)) implies
        removed.keys.contains(k) by {
        assert(model.values.dom().contains((k, n)));
    }
    if model.has_key(key) {
        let written = model.put_value(key, name, data);
        assert forall|k: Seq<char>, n: Seq<char>| written.values.dom().contains((k, n)) implies
            written.keys.contains(k) by {
            if (k, n) != (key, name) {
                assert(model.values.dom().contains((k, n)));
            }
        }
    }
}

/// A key above a path, or the path itself, is no longer than the path.
pub proof fn lemma_ancestor_is_no_longer(ancestor: Seq<char>, path: Seq<char>)
    requires
        is_ancestor_or_self(ancestor, path),
    ensures
        ancestor.len() <= path.len(),
    decreases path.len(),
{
    if ancestor != path {
        lemma_last_separator(path);
        lemma_ancestor_is_no_longer(ancestor, parent_path(path));
    }
}

/// Creating the keys on the way down to a path that can be resolved makes
/// the key exist, and leaves alone the values and every key that existed.
pub proof fn lemma_ensure_key_creates(model: StoreModel, path: Seq<char>)
    requires
        model.resolvable(path),
    ensures
        model.ensure_key(path).has_key(path),
        model.ensure_key(path).values == model.values,
        forall|k: Seq<char>| model.has_key(k) ==> model.ensure_key(path).has_key(k),
    decreases path.len(),
{
    if !model.has_key(path) {
        lemma_last_separator(path);
        lemma_ensure_key_creates(model, parent_path(path));
    }
}

/// Path creation order: the keys that are created for a path are exactly
/// the missing ones, the last of them is the path itself, the first lies
/// directly under a key that exists, and each of the others is created
/// directly after, and directly under, the one before it. Nothing else in
/// the store changes.
pub proof fn lemma_creation_order(model: StoreModel, path: Seq<char>)
    requires
        model.resolvable(path),
    ensures
        ({
            let after = model.ensure_key(path);
            let missing = model.missing_keys(path);
            &&& after.created == model.created + missing
            &&& after.values == model.values
            &&& forall|k: Seq<char>| after.has_key(k) <==> model.has_key(k) || missing.contains(k)
            &&& forall|i: int|
                0 <= i < missing.len() ==> !model.has_key(#[trigger] missing[i])
                    && is_ancestor_or_self(missing[i], path)
            &&& forall|i: int|
                0 < i < missing.len() ==> parent_path(#[trigger] missing[i]) == missing[i - 1]
            &&& missing.len() > 0 ==> missing.last() == path && model.has_key(
                parent_path(missing[0]),
            )
            &&& missing.len() == 0 <==> model.has_key(path)
        }),
    decreases path.len(),
{
    let after = model.ensure_key(path);
    let missing = model.missing_keys(path);
    if model.has_key(path) {
        assert(model.created + missing =~= model.created);
    } else {
        lemma_last_separator(path);
        let parent = parent_path(path);
        let above = model.missing_keys(parent);
        let middle = model.ensure_key(parent);
        lemma_creation_order(model, parent);
        assert(missing == above.push(path));
        assert(!middle.has_key(path)) by {
            if above.contains(path) {
                let i = choose|i: int| 0 <= i < above.len() && above[i] == path;
                lemma_ancestor_is_no_longer(above[i], parent);
            }
        }
        assert(after == middle.create_key(path));
        assert(after.created =~= model.created + missing);
        assert forall|k: Seq<char>| after.has_key(k) <==> model.has_key(k) || missing.contains(
            k,
        ) by {
            if above.contains(k) {
                let i = choose|i: int| 0 <= i < above.len() && above[i] == k;
                assert(missing[i] == k);
            }
            if missing.contains(k) && k != path {
                let i = choose|i: int| 0 <= i < missing.len() && missing[i] == k;
                assert(above[i] == k);
            }
            if k == path {
                assert(missing[missing.len() - 1] == path);
            }
        }
        assert forall|i: int| 0 <= i < missing.len() implies !model.has_key(
            #[trigger] missing[i],
        ) && is_ancestor_or_self(missing[i], path) by {
            if i < above.len() {
                assert(missing[i] == above[i]);
            }
        }
        assert forall|i: int| 0 < i < missing.len() implies parent_path(#[trigger] missing[i])
            == missing[i - 1] by {
            if i < above.len() {
                assert(missing[i] == above[i]);
                assert(missing[i - 1] == above[i - 1]);
            } else {
                assert(missing[i - 1] == above[i - 1]);
                assert(above.last() == parent);
            }
        }
        if above.len() > 0 {
            assert(missing[0] == above[0]);
        }
    }
}

/// The capability that the library needs of a registry: to open, create and
/// delete keys, and to read, write and delete the values under a key.
///
/// Every operation either succeeds, reports that what it names does not
/// exist, or reports another failure; an operation that fails leaves the
/// store as it was.
pub trait KeyStore {
    /// A handle on one key.
    type Key;

    /// What the store holds. A store that does not say what it holds is
    /// taken to hold something that nothing is known of.
    open spec fn view(&self) -> StoreModel {
        arbitrary()
    }

    /// The path of the key that `key` stands for.
    open spec fn key_path(key: &Self::Key) -> Seq<char> {
        arbitrary()
    }

    /// Whether the store fails only where what is asked of it cannot be done
    /// on what it holds. A store that does not say so is not relied on.
    open spec fn reliable(&self) -> bool {
        false
    }

    /// Opens the key at `path`.
    fn open(&self, path: &str) -> (r: Result<Self::Key, StoreError>)
        ensures
            r matches Ok(key) ==> self@.has_key(path@) && Self::key_path(&key) == path@,
            r matches Err(e) ==> (e is NotFound ==> !self@.has_key(path@)),
            self.reliable() ==> !(r matches Err(e) && e is Failed),
    ;

    /// Creates the key called `name` directly under `parent`, or opens it if
    /// it exists.
    fn create_subkey(&mut self, parent: &Self::Key, name: &str) -> (r: Result<
        Self::Key,
        StoreError,
    >)
        ensures
            final(self).reliable() == old(self).reliable(),
            r matches Ok(key) ==> {
                &&& old(self)@.has_key(Self::key_path(parent))
                &&& is_key_name(name@)
                &&& Self::key_path(&key) == child_path(Self::key_path(parent), name@)
                &&& final(self)@ == old(self)@.create_key(
                    child_path(Self::key_path(parent), name@),
                )
            },
            r matches Err(e) ==> e is Failed && final(self)@ == old(self)@,
            old(self).reliable() && old(self)@.has_key(Self::key_path(parent)) && is_key_name(
                name@,
            ) ==> r is Ok,
    ;

    /// Deletes `key`, the keys below it and all their values.
    fn delete_subtree(&mut self, key: &Self::Key) -> (r: Result<(), StoreError>)
        ensures
            final(self).reliable() == old(self).reliable(),
            r is Ok ==> old(self)@.has_key(Self::key_path(key)) && final(self)@ == old(
                self,
            )@.delete_tree(Self::key_path(key)),
            r matches Err(e) ==> final(self)@ == old(self)@ && (e is NotFound ==> !old(
                self,
            )@.has_key(Self::key_path(key))),
            old(self).reliable() ==> !(r matches Err(e) && e is Failed),
    ;

    /// Reads the value called `name` under `key`.
    fn get_value(&self, key: &Self::Key, name: &str) -> (r: Result<RegistryValue, StoreError>)
        ensures
            r matches Ok(value) ==> {
                &&& self@.has_value(Self::key_path(key), name@)
                &&& value.key_path@ == Self::key_path(key)
                &&& value.name@ == name@
                &&& value.data@ == self@.value(Self::key_path(key), name@)
            },
            r matches Err(e) ==> (e is NotFound ==> !self@.has_value(
                Self::key_path(key),
                name@,
            )),
            self.reliable() ==> !(r matches Err(e) && e is Failed),
    ;

    /// Writes `data` to the value called `name` under `key`, creating the
    /// value or replacing what it held.
    fn set_value(&mut self, key: &Self::Key, name: &str, data: &StoreValueData) -> (r: Result<
        (),
        StoreError,
    >)
        ensures
            final(self).reliable() == old(self).reliable(),
            r is Ok ==> old(self)@.has_key(Self::key_path(key)) && final(self)@ == old(
                self,
            )@.put_value(Self::key_path(key), name@, data@),
            r matches Err(e) ==> e is Failed && final(self)@ == old(self)@,
            old(self).reliable() && old(self)@.has_key(Self::key_path(key)) ==> r is Ok,
    ;

    /// Deletes the value called `name` under `key`.
    fn delete_value(&mut self, key: &Self::Key, name: &str) -> (r: Result<(), StoreError>)
        ensures
            final(self).reliable() == old(self).reliable(),
            r is Ok ==> old(self)@.has_value(Self::key_path(key), name@) && final(self)@ == old(
                self,
            )@.remove_value(Self::key_path(key), name@),
            r matches Err(e) ==> final(self)@ == old(self)@ && (e is NotFound ==> !old(
                self,
            )@.has_value(Self::key_path(key), name@)),
            old(self).reliable() ==> !(r matches Err(e) && e is Failed),
    ;
}

} // verus!
