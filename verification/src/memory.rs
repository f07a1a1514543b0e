//! A key store that lives in memory.

use vstd::prelude::*;
use crate::config::{clone_strings, strings_view};
use crate::error::StoreError;
use crate::path::{child_path, find_last_separator, lemma_last_separator, SEPARATOR};
use crate::store::{is_within, KeyStore, RegistryValue, StoreDataView, StoreModel,
    StoreValueData};

verus! {

impl Clone for StoreValueData {
    fn clone(&self) -> (r: Self)
        ensures
            r@ == self@,
    {
        match self {
            StoreValueData::NoData => StoreValueData::NoData,
            StoreValueData::String(s) => StoreValueData::String(s.clone()),
            StoreValueData::ExpandString(s) => StoreValueData::ExpandString(s.clone()),
            StoreValueData::Binary(b) => StoreValueData::Binary(b.clone()),
            StoreValueData::DWord(n) => StoreValueData::DWord(*n),
            StoreValueData::MultiString(v) => StoreValueData::MultiString(clone_strings(v)),
            StoreValueData::QWord(n) => StoreValueData::QWord(*n),
            StoreValueData::Unsupported => StoreValueData::Unsupported,
        }
    }
}

impl Clone for RegistryValue {
    fn clone(&self) -> (r: Self)
        ensures
            r.key_path@ == self.key_path@,
            r.name@ == self.name@,
            r.data@ == self.data@,
    {
        RegistryValue {
            key_path: self.key_path.clone(),
            name: self.name.clone(),
            data: self.data.clone(),
        }
    }
}

/// The set of the texts of `paths`.
pub open spec fn key_set(paths: Seq<String>) -> Set<Seq<char>>
    decreases paths.len(),
{
    if paths.len() == 0 {
        Set::empty()
    } else {
        key_set(paths.drop_last()).insert(paths.last()@)
    }
}

/// The values that a list of entries stands for: each entry gives the data
/// of one value, and a later entry replaces an earlier one for the same
/// value.
pub open spec fn value_map(entries: Seq<RegistryValue>) -> Map<
    (Seq<char>, Seq<char>),
    StoreDataView,
>
    decreases entries.len(),
{
    if entries.len() == 0 {
        Map::empty()
    } else {
        value_map(entries.drop_last()).insert(
            (entries.last().key_path@, entries.last().name@),
            entries.last().data@,
        )
    }
}

/// The characters of `text`.
pub fn text_chars(text: &str) -> (r: Vec<char>)
    ensures
        r@ == text@,
{
    let mut chars: Vec<char> = Vec::new();
    for c in it: text.chars()
        invariant
            it.seq() == text@,
            chars@ == text@.take(it.index() as int),
    {
        chars.push(c);
        assert(text@.take(it.index() + 1) =~= text@.take(it.index() as int).push(c));
    }
    assert(text@.take(text@.len() as int) =~= text@);
    chars
}

/// Tells whether `path` is `root` or lies below it.
pub fn path_is_within(path: &Vec<char>, root: &Vec<char>) -> (r: bool)
    ensures
        r == is_within(path@, root@),
{
    if path.len() < root.len() {
        return false;
    }
    let mut i: usize = 0;
    while i < root.len()
        invariant
            i <= root.len() <= path.len(),
            forall|j: int| 0 <= j < i ==> path@[j] == root@[j],
        decreases root.len() - i,
    {
        if path[i] != root[i] {
            assert(path@.take(root@.len() as int)[i as int] != root@[i as int]);
            return false;
        }
        i += 1;
    }
    assert(path@.take(root@.len() as int) =~= root@);
    if path.len() == root.len() {
        assert(path@.take(root@.len() as int) =~= path@);
        true
    } else {
        path[root.len()] == SEPARATOR
    }
}

/// A handle on one key of a [`MemoryStore`].
#[derive(Debug)]
pub struct MemoryKey {
    path: String,
}

impl MemoryKey {
    /// The path of the key that the handle stands for.
    pub closed spec fn path_view(&self) -> Seq<char> {
        self.path@
    }

    /// The path of the key that the handle stands for.
    pub fn path(&self) -> (r: &str)
        ensures
            r@ == self.path_view(),
    {
        self.path.as_str()
    }
}

/// A key store that keeps its keys and values in memory. It never fails
/// where what is asked of it can be done.
#[derive(Debug)]
pub struct MemoryStore {
    keys: Vec<String>,
    values: Vec<RegistryValue>,
    created: Vec<String>,
}

impl MemoryStore {
    /// What the store holds.
    pub closed spec fn model(&self) -> StoreModel {
        StoreModel {
            keys: key_set(self.keys@),
            values: value_map(self.values@),
            created: strings_view(self.created@),
        }
    }

    /// A store without keys.
    pub fn new() -> (r: Self)
        ensures
            r.model().keys == Set::<Seq<char>>::empty(),
            r.model().values == Map::<(Seq<char>, Seq<char>), StoreDataView>::empty(),
            r.model().created == Seq::<Seq<char>>::empty(),
    {
        let store = MemoryStore { keys: Vec::new(), values: Vec::new(), created: Vec::new() };
        assert(strings_view(store.created@) =~= Seq::<Seq<char>>::empty());
        store
    }

    /// Puts the key `path` into the store as it is, whether or not a key
    /// above it exists, and without recording it as created.
    pub fn add_key(&mut self, path: &str)
        ensures
            final(self).model() == (StoreModel {
                keys: old(self).model().keys.insert(path@),
                ..old(self).model()
            }),
    {
        self.keys.push(path.to_owned());
        assert(self.keys@.drop_last() =~= old(self).keys@);
    }

    /// Tells whether the key `path` exists.
    pub fn has_key(&self, path: &str) -> (r: bool)
        ensures
            r == self.model().has_key(path@),
    {
        let wanted = path.to_owned();
        let mut i: usize = 0;
        while i < self.keys.len()
            invariant
                i <= self.keys.len(),
                wanted@ == path@,
                !key_set(self.keys@.take(i as int)).contains(path@),
            decreases self.keys.len() - i,
        {
            if self.keys[i] == wanted {
                proof {
                    lemma_key_set_holds(self.keys@, i as int);
                }
                return true;
            }
            assert(self.keys@.take(i + 1).drop_last() =~= self.keys@.take(i as int));
            i += 1;
        }
        assert(self.keys@.take(i as int) =~= self.keys@);
        false
    }

    /// The data of the value `name` under the key `key_path`, if the key
    /// exists and holds such a value.
    pub fn value(&self, key_path: &str, name: &str) -> (r: Option<StoreValueData>)
        ensures
            r is Some <==> self.model().has_value(key_path@, name@),
            r matches Some(data) ==> data@ == self.model().value(key_path@, name@),
    {
        if !self.has_key(key_path) {
            return None;
        }
        let wanted_key = key_path.to_owned();
        let wanted_name = name.to_owned();
        let ghost all = value_map(self.values@);
        let ghost wanted = (key_path@, name@);
        let mut i: usize = self.values.len();
        assert(self.values@.take(i as int) =~= self.values@);
        while i > 0
            invariant
                i <= self.values.len(),
                wanted_key@ == key_path@,
                wanted_name@ == name@,
                wanted == (key_path@, name@),
                self.model().has_key(key_path@),
                all == value_map(self.values@),
                all.dom().contains(wanted) == value_map(self.values@.take(i as int)).dom().contains(
                    wanted,
                ),
                all.dom().contains(wanted) ==> all[wanted] == value_map(
                    self.values@.take(i as int),
                )[wanted],
            decreases i,
        {
            i -= 1;
            assert(self.values@.take(i + 1).drop_last() =~= self.values@.take(i as int));
            assert(self.values@.take(i + 1).last() == self.values@[i as int]);
            if self.values[i].key_path == wanted_key && self.values[i].name == wanted_name {
                assert((self.values@[i as int].key_path@, self.values@[i as int].name@) == wanted);
                assert(value_map(self.values@.take(i + 1)).dom().contains(wanted));
                assert(value_map(self.values@.take(i + 1))[wanted] == self.values@[i as int].data@);
                return Some(self.values[i].data.clone());
            }
        }
        None
    }

    /// The keys that were created in the store, in the order of their
    /// creation.
    pub fn created_keys(&self) -> (r: Vec<String>)
        ensures
            strings_view(r@) == self.model().created,
    {
        clone_strings(&self.created)
    }
}

/// Every path in a list is in the set of its texts.
pub proof fn lemma_key_set_holds(paths: Seq<String>, index: int)
    requires
        0 <= index < paths.len(),
    ensures
        key_set(paths).contains(paths[index]@),
    decreases paths.len(),
{
    if index < paths.len() - 1 {
        lemma_key_set_holds(paths.drop_last(), index);
    }
}

impl KeyStore for MemoryStore {
    type Key = MemoryKey;

    open spec fn view(&self) -> StoreModel {
        self.model()
    }

    open spec fn key_path(key: &MemoryKey) -> Seq<char> {
        key.path_view()
    }

    open spec fn reliable(&self) -> bool {
        true
    }

    fn open(&self, path: &str) -> (r: Result<MemoryKey, StoreError>) {
        if self.has_key(path) {
            Ok(MemoryKey { path: path.to_owned() })
        } else {
            Err(StoreError::NotFound)
        }
    }

    fn create_subkey(&mut self, parent: &MemoryKey, name: &str) -> (r: Result<
        MemoryKey,
        StoreError,
    >) {
        if !self.has_key(parent.path()) {
            return Err(StoreError::Failed("the parent key does not exist".to_owned()));
        }
        if find_last_separator(name).is_some() {
            proof {
                lemma_last_separator(name@);
            }
            return Err(StoreError::Failed("the name of a key holds a separator".to_owned()));
        }
        proof {
            lemma_last_separator(name@);
            reveal_strlit("\\");
        }
        let mut child = parent.path.clone();
        child.append("\\");
        child.append(name);
        assert(child@ =~= child_path(parent.path@, name@));
        if !self.has_key(child.as_str()) {
            self.keys.push(child.clone());
            self.created.push(child.clone());
            assert(self.keys@.drop_last() =~= old(self).keys@);
            assert(strings_view(self.created@) =~= strings_view(old(self).created@).push(
                child@,
            ));
        }
        Ok(MemoryKey { path: child })
    }

    fn delete_subtree(&mut self, key: &MemoryKey) -> (r: Result<(), StoreError>) {
        if !self.has_key(key.path()) {
            return Err(StoreError::NotFound);
        }
        let root = text_chars(key.path());
        let ghost before = self.model();
        let mut kept_keys: Vec<String> = Vec::new();
        let mut i: usize = 0;
        while i < self.keys.len()
            invariant
                i <= self.keys.len(),
                root@ == key.path@,
                key_set(kept_keys@) == Set::new(
                    |k: Seq<char>|
                        key_set(self.keys@.take(i as int)).contains(k) && !is_within(k, root@),
                ),
            decreases self.keys.len() - i,
        {
            assert(self.keys@.take(i + 1).drop_last() =~= self.keys@.take(i as int));
            assert(self.keys@.take(i + 1).last() == self.keys@[i as int]);
            let path = text_chars(self.keys[i].as_str());
            if !path_is_within(&path, &root) {
                let ghost kept_before = kept_keys@;
                kept_keys.push(self.keys[i].clone());
                assert(kept_keys@.drop_last() =~= kept_before);
            }
            i += 1;
            assert(key_set(kept_keys@) =~= Set::new(
                |k: Seq<char>|
                    key_set(self.keys@.take(i as int)).contains(k) && !is_within(k, root@),
            ));
        }
        assert(self.keys@.take(i as int) =~= self.keys@);
        let mut kept_values: Vec<RegistryValue> = Vec::new();
        let mut j: usize = 0;
        while j < self.values.len()
            invariant
                j <= self.values.len(),
                root@ == key.path@,
                value_map(kept_values@) == value_map(self.values@.take(j as int)).remove_keys(
                    Set::new(|kn: (Seq<char>, Seq<char>)| is_within(kn.0, root@)),
                ),
            decreases self.values.len() - j,
        {
            assert(self.values@.take(j + 1).drop_last() =~= self.values@.take(j as int));
            assert(self.values@.take(j + 1).last() == self.values@[j as int]);
            let path = text_chars(self.values[j].key_path.as_str());
            if !path_is_within(&path, &root) {
                let ghost kept_before = kept_values@;
                kept_values.push(self.values[j].clone());
                assert(kept_values@.drop_last() =~= kept_before);
            }
            j += 1;
            assert(value_map(kept_values@) =~= value_map(self.values@.take(j as int)).remove_keys(
                Set::new(|kn: (Seq<char>, Seq<char>)| is_within(kn.0, root@)),
            ));
        }
        assert(self.values@.take(j as int) =~= self.values@);
        self.keys = kept_keys;
        self.values = kept_values;
        Ok(())
    }

    fn get_value(&self, key: &MemoryKey, name: &str) -> (r: Result<RegistryValue, StoreError>) {
        match self.value(key.path(), name) {
            Some(data) => Ok(
                RegistryValue { key_path: key.path.clone(), name: name.to_owned(), data },
            ),
            None => Err(StoreError::NotFound),
        }
    }

    fn set_value(&mut self, key: &MemoryKey, name: &str, data: &StoreValueData) -> (r: Result<
        (),
        StoreError,
    >) {
        if !self.has_key(key.path()) {
            return Err(StoreError::Failed("the key does not exist".to_owned()));
        }
        self.values.push(
            RegistryValue { key_path: key.path.clone(), name: name.to_owned(), data: data.clone() },
        );
        assert(self.values@.drop_last() =~= old(self).values@);
        Ok(())
    }

    fn delete_value(&mut self, key: &MemoryKey, name: &str) -> (r: Result<(), StoreError>) {
        if self.value(key.path(), name).is_none() {
            return Err(StoreError::NotFound);
        }
        let wanted_name = name.to_owned();
        let ghost wanted = (key.path@, name@);
        let mut kept_values: Vec<RegistryValue> = Vec::new();
        let mut j: usize = 0;
        while j < self.values.len()
            invariant
                j <= self.values.len(),
                wanted_name@ == name@,
                wanted == (key.path@, name@),
                value_map(kept_values@) == value_map(self.values@.take(j as int)).remove(wanted),
            decreases self.values.len() - j,
        {
            assert(self.values@.take(j + 1).drop_last() =~= self.values@.take(j as int));
            assert(self.values@.take(j + 1).last() == self.values@[j as int]);
            if !(self.values[j].key_path == key.path && self.values[j].name == wanted_name) {
                let ghost kept_before = kept_values@;
                kept_values.push(self.values[j].clone());
                assert(kept_values@.drop_last() =~= kept_before);
            }
            j += 1;
            assert(value_map(kept_values@) =~= value_map(self.values@.take(j as int)).remove(
                wanted,
            ));
        }
        assert(self.values@.take(j as int) =~= self.values@);
        self.values = kept_values;
        Ok(())
    }
}

} // verus!
