//! The desired-state document and its validation.

use vstd::prelude::*;
use vstd::std_specs::cmp::PartialEqSpecImpl;
use crate::error::{ErrorView, RegistryError};

verus! {

/// Whether the key or value that a document names should exist.
#[derive(Debug, Clone, Copy, PartialEq, Eq, Hash, Structural)]
pub enum EnsureKind {
    Present,
    Absent,
}

/// The data of a registry value, in the kinds that a document can express.
#[derive(Debug, Hash)]
pub enum RegistryValueData {
    String(String),
    ExpandString(String),
    Binary(Vec<u8>),
    DWord(u32),
    MultiString(Vec<String>),
    QWord(u64),
}

/// The mathematical content of a [`RegistryValueData`].
pub enum ValueDataView {
    String(Seq<char>),
    ExpandString(Seq<char>),
    Binary(Seq<u8>),
    DWord(u32),
    MultiString(Seq<Seq<char>>),
    QWord(u64),
}

/// The texts that a sequence of strings holds, in order.
pub open spec fn strings_view(strings: Seq<String>) -> Seq<Seq<char>> {
    Seq::new(strings.len(), |i: int| strings[i]@)
}

/// The text of an optional string.
pub open spec fn optional_text(text: Option<String>) -> Option<Seq<char>> {
    match text {
        Some(t) => Some(t@),
        None => None,
    }
}

/// The content of optional value data.
pub open spec fn optional_data(data: Option<RegistryValueData>) -> Option<ValueDataView> {
    match data {
        Some(d) => Some(d@),
        None => None,
    }
}

impl View for RegistryValueData {
    type V = ValueDataView;

    open spec fn view(&self) -> ValueDataView {
        match self {
            RegistryValueData::String(s) => ValueDataView::String(s@),
            RegistryValueData::ExpandString(s) => ValueDataView::ExpandString(s@),
            RegistryValueData::Binary(b) => ValueDataView::Binary(b@),
            RegistryValueData::DWord(n) => ValueDataView::DWord(*n),
            RegistryValueData::MultiString(v) => ValueDataView::MultiString(strings_view(v@)),
            RegistryValueData::QWord(n) => ValueDataView::QWord(*n),
        }
    }
}

/// Copies a list of strings.
pub fn clone_strings(strings: &Vec<String>) -> (r: Vec<String>)
    ensures
        strings_view(r@) == strings_view(strings@),
{
    let copy = strings.clone();
    assert(strings_view(copy@) =~= strings_view(strings@));
    copy
}

/// Tells whether two lists of strings hold the same texts in the same order.
pub fn strings_equal(a: &Vec<String>, b: &Vec<String>) -> (r: bool)
    ensures
        r == (strings_view(a@) == strings_view(b@)),
{
    if a.len() != b.len() {
        assert(strings_view(a@).len() != strings_view(b@).len());
        return false;
    }
    let mut i: usize = 0;
    while i < a.len()
        invariant
            a.len() == b.len(),
            i <= a.len(),
            forall|j: int| 0 <= j < i ==> a@[j]@ == b@[j]@,
        decreases a.len() - i,
    {
        if a[i] != b[i] {
            assert(strings_view(a@)[i as int] != strings_view(b@)[i as int]);
            return false;
        }
        i += 1;
    }
    assert(strings_view(a@) =~= strings_view(b@));
    true
}

/// Copies an optional string.
pub fn clone_optional_text(text: &Option<String>) -> (r: Option<String>)
    ensures
        optional_text(r) == optional_text(*text),
{
    match text {
        Some(t) => Some(t.clone()),
        None => None,
    }
}

impl Clone for RegistryValueData {
    fn clone(&self) -> (r: Self)
        ensures
            r@ == self@,
    {
        match self {
            RegistryValueData::String(s) => RegistryValueData::String(s.clone()),
            RegistryValueData::ExpandString(s) => RegistryValueData::ExpandString(s.clone()),
            RegistryValueData::Binary(b) => RegistryValueData::Binary(b.clone()),
            RegistryValueData::DWord(n) => RegistryValueData::DWord(*n),
            RegistryValueData::MultiString(v) => RegistryValueData::MultiString(clone_strings(v)),
            RegistryValueData::QWord(n) => RegistryValueData::QWord(*n),
        }
    }
}

impl PartialEq for RegistryValueData {
    fn eq(&self, other: &Self) -> (r: bool) {
        let same = match self {
            RegistryValueData::String(a) => match other {
                RegistryValueData::String(b) => *a == *b,
                _ => false,
            },
            RegistryValueData::ExpandString(a) => match other {
                RegistryValueData::ExpandString(b) => *a == *b,
                _ => false,
            },
            RegistryValueData::Binary(a) => match other {
                RegistryValueData::Binary(b) => {
                    let same_bytes = *a == *b;
                    assert(same_bytes == (a@ =~= b@));
                    same_bytes
                },
                _ => false,
            },
            RegistryValueData::DWord(a) => match other {
                RegistryValueData::DWord(b) => *a == *b,
                _ => false,
            },
            RegistryValueData::MultiString(a) => match other {
                RegistryValueData::MultiString(b) => strings_equal(a, b),
                _ => false,
            },
            RegistryValueData::QWord(a) => match other {
                RegistryValueData::QWord(b) => *a == *b,
                _ => false,
            },
        };
        assert(same == (self@ == other@));
        same
    }
}

impl PartialEqSpecImpl for RegistryValueData {
    open spec fn obeys_eq_spec() -> bool {
        true
    }

    open spec fn eq_spec(&self, other: &Self) -> bool {
        self@ == other@
    }
}

impl Eq for RegistryValueData {

}

/// Copies optional value data.
pub fn clone_optional_data(data: &Option<RegistryValueData>) -> (r: Option<RegistryValueData>)
    ensures
        optional_data(r) == optional_data(*data),
{
    match data {
        Some(d) => Some(d.clone()),
        None => None,
    }
}

/// A desired-state document: one key, optionally one value under it, and
/// whether that target should exist. The same type carries what an operation
/// reports back.
#[derive(Debug, Hash)]
pub struct RegistryConfig {
    /// The path of the key, its segments separated by `\`.
    pub key_path: String,
    /// The name of the value under the key; `None` when the document is about
    /// the key itself. The empty name is the key's unnamed value.
    pub value_name: Option<String>,
    /// The data of the value; only with a value name.
    pub value_data: Option<RegistryValueData>,
    /// Whether the target should exist; `Present` when left out.
    pub ensure: Option<EnsureKind>,
    /// Reserved for overwrite semantics; carried, never read.
    pub clobber: Option<bool>,
    /// Only meaningful in what is reported back.
    pub in_desired_state: Option<bool>,
}

/// The mathematical content of a [`RegistryConfig`].
pub struct ConfigView {
    pub key_path: Seq<char>,
    pub value_name: Option<Seq<char>>,
    pub value_data: Option<ValueDataView>,
    pub ensure: Option<EnsureKind>,
    pub clobber: Option<bool>,
    pub in_desired_state: Option<bool>,
}

impl ConfigView {
    /// A document that names the key `key_path` and nothing else.
    pub open spec fn key_only(key_path: Seq<char>) -> ConfigView {
        ConfigView {
            key_path,
            value_name: None,
            value_data: None,
            ensure: None,
            clobber: None,
            in_desired_state: None,
        }
    }

    /// The existence that the document asks for: `Present` unless it says
    /// `Absent`.
    pub open spec fn wants(self) -> EnsureKind {
        match self.ensure {
            Some(kind) => kind,
            None => EnsureKind::Present,
        }
    }

    /// The document's invariant: value data comes only with a value name.
    pub open spec fn valid(self) -> bool {
        self.value_data is Some ==> self.value_name is Some
    }

    /// The document with the default applied to a missing `ensure`.
    pub open spec fn with_default_ensure(self) -> ConfigView {
        ConfigView { ensure: Some(self.wants()), ..self }
    }
}

impl View for RegistryConfig {
    type V = ConfigView;

    open spec fn view(&self) -> ConfigView {
        ConfigView {
            key_path: self.key_path@,
            value_name: optional_text(self.value_name),
            value_data: optional_data(self.value_data),
            ensure: self.ensure,
            clobber: self.clobber,
            in_desired_state: self.in_desired_state,
        }
    }
}

impl Default for RegistryConfig {
    /// The empty document: an empty key path and no other field.
    fn default() -> (r: Self)
        ensures
            r@ == ConfigView::key_only(Seq::empty()),
    {
        RegistryConfig {
            key_path: String::new(),
            value_name: None,
            value_data: None,
            ensure: None,
            clobber: None,
            in_desired_state: None,
        }
    }
}

impl Clone for RegistryConfig {
    fn clone(&self) -> (r: Self)
        ensures
            r@ == self@,
    {
        RegistryConfig {
            key_path: self.key_path.clone(),
            value_name: clone_optional_text(&self.value_name),
            value_data: clone_optional_data(&self.value_data),
            ensure: self.ensure,
            clobber: self.clobber,
            in_desired_state: self.in_desired_state,
        }
    }
}

impl PartialEq for RegistryConfig {
    fn eq(&self, other: &Self) -> (r: bool) {
        let same_name = match &self.value_name {
            Some(a) => match &other.value_name {
                Some(b) => *a == *b,
                None => false,
            },
            None => other.value_name.is_none(),
        };
        let same_data = match &self.value_data {
            Some(a) => match &other.value_data {
                Some(b) => a.eq(b),
                None => false,
            },
            None => other.value_data.is_none(),
        };
        let same = self.key_path == other.key_path && same_name && same_data && self.ensure
            == other.ensure && self.clobber == other.clobber && self.in_desired_state
            == other.in_desired_state;
        assert(same == (self@ == other@));
        same
    }
}

impl PartialEqSpecImpl for RegistryConfig {
    open spec fn obeys_eq_spec() -> bool {
        true
    }

    open spec fn eq_spec(&self, other: &Self) -> bool {
        self@ == other@
    }
}

impl Eq for RegistryConfig {

}

impl RegistryConfig {
    /// A document that names the key `key_path` and nothing else.
    pub fn for_key(key_path: &str) -> (r: Self)
        ensures
            r@ == ConfigView::key_only(key_path@),
    {
        RegistryConfig {
            key_path: key_path.to_owned(),
            value_name: None,
            value_data: None,
            ensure: None,
            clobber: None,
            in_desired_state: None,
        }
    }

    /// The existence that the document asks for: `Present` unless it says
    /// `Absent`.
    pub fn wants(&self) -> (r: EnsureKind)
        ensures
            r == self@.wants(),
    {
        match self.ensure {
            Some(kind) => kind,
            None => EnsureKind::Present,
        }
    }
}

/// Checks the document's invariant: value data without a value name is
/// rejected, every other document is accepted.
pub fn validate_config(config: &RegistryConfig) -> (r: Result<(), RegistryError>)
    ensures
        r is Ok <==> config@.valid(),
        r is Err ==> r->Err_0@ == ErrorView::ValueDataWithoutName,
{
    if config.value_data.is_some() && config.value_name.is_none() {
        Err(RegistryError::ValueDataWithoutName)
    } else {
        Ok(())
    }
}

/// Fills in `Present` where the document leaves `ensure` out, and changes
/// nothing else.
pub fn apply_default_ensure(config: &mut RegistryConfig)
    ensures
        final(config)@ == old(config)@.with_default_ensure(),
{
    if config.ensure.is_none() {
        config.ensure = Some(EnsureKind::Present);
    }
}

} // verus!
