//! Deciding whether what a store holds is what a document asks for.

use vstd::prelude::*;
use crate::config::{clone_strings, ConfigView, EnsureKind, RegistryConfig, RegistryValueData};
use crate::error::{ErrorView, RegistryError};
use crate::store::{RegistryValue, StoreDataView, StoreValueData};

verus! {

/// Whether the existence of a key is the one asked for: `Present` is met by
/// a key that exists, `Absent` by one that does not.
pub open spec fn key_in_desired_state(wanted: EnsureKind, key_exists: bool) -> bool {
    match wanted {
        EnsureKind::Present => key_exists,
        EnsureKind::Absent => !key_exists,
    }
}

/// Whether a value that exists, with the name and data that the store
/// reports, is the value that `config` describes. The names must be equal.
/// Where the document gives data, the store's data must be the same in kind
/// and content; where it gives none, any data will do, but a value without
/// data will not.
pub open spec fn values_equal(config: ConfigView, name: Seq<char>, data: StoreDataView) -> bool {
    &&& config.value_name == Some(name)
    &&& match config.value_data {
        Some(wanted) => data == StoreDataView::Data(wanted),
        None => !(data is NoData),
    }
}

/// Whether the value that was observed, if one was, is what `config` asks
/// for: for `Absent`, that none was found; for `Present`, that one was found
/// and equals the one described.
pub open spec fn value_in_desired_state(
    config: ConfigView,
    observed: Option<(Seq<char>, StoreDataView)>,
) -> bool {
    match config.wants() {
        EnsureKind::Absent => observed is None,
        EnsureKind::Present => observed matches Some(value) && values_equal(
            config,
            value.0,
            value.1,
        ),
    }
}

/// The name and data of a value that may have been observed.
pub open spec fn observed_view(observed: Option<&RegistryValue>) -> Option<
    (Seq<char>, StoreDataView),
> {
    match observed {
        Some(value) => Some((value.name@, value.data@)),
        None => None,
    }
}

/// Tells whether a key's existence is the one asked for.
pub fn key_matches(ensure: EnsureKind, key_exists: bool) -> (r: bool)
    ensures
        r == key_in_desired_state(ensure, key_exists),
{
    match ensure {
        EnsureKind::Present => key_exists,
        EnsureKind::Absent => !key_exists,
    }
}

/// Turns data that a store holds into the data of a document. Only the six
/// kinds that a document can express are accepted: a value without data and
/// data of any other kind are rejected.
pub fn convert_store_data(reg_data: &StoreValueData) -> (r: Result<
    RegistryValueData,
    RegistryError,
>)
    ensures
        r is Ok <==> reg_data@ is Data,
        r matches Ok(data) ==> reg_data@ == StoreDataView::Data(data@),
        r matches Err(e) ==> e@ == ErrorView::UnsupportedValueKind,
{
    match reg_data {
        StoreValueData::String(data) => Ok(RegistryValueData::String(data.clone())),
        StoreValueData::MultiString(data) => Ok(
            RegistryValueData::MultiString(clone_strings(data)),
        ),
        StoreValueData::Binary(data) => Ok(RegistryValueData::Binary(data.clone())),
        StoreValueData::DWord(data) => Ok(RegistryValueData::DWord(*data)),
        StoreValueData::QWord(data) => Ok(RegistryValueData::QWord(*data)),
        StoreValueData::ExpandString(data) => Ok(RegistryValueData::ExpandString(data.clone())),
        _ => Err(RegistryError::UnsupportedValueKind),
    }
}

/// Turns the data of a document into data that a store can hold, of the same
/// kind and content.
pub fn convert_config_data(reg_data: &RegistryValueData) -> (r: StoreValueData)
    ensures
        r@ == StoreDataView::Data(reg_data@),
{
    match reg_data {
        RegistryValueData::String(data) => StoreValueData::String(data.clone()),
        RegistryValueData::MultiString(data) => StoreValueData::MultiString(clone_strings(data)),
        RegistryValueData::Binary(data) => StoreValueData::Binary(data.clone()),
        RegistryValueData::DWord(data) => StoreValueData::DWord(*data),
        RegistryValueData::QWord(data) => StoreValueData::QWord(*data),
        RegistryValueData::ExpandString(data) => StoreValueData::ExpandString(data.clone()),
    }
}

/// Tells whether a value that the store reported is the value that `config`
/// describes.
pub fn reg_values_are_eq(config: &RegistryConfig, reg_value: &RegistryValue) -> (r: bool)
    ensures
        r == values_equal(config@, reg_value.name@, reg_value.data@),
{
    let same_name = match &config.value_name {
        Some(name) => *name == reg_value.name,
        None => false,
    };
    let data_accepted = match &config.value_data {
        Some(wanted) => match convert_store_data(&reg_value.data) {
            Ok(held) => held.eq(wanted),
            Err(_) => false,
        },
        None => match &reg_value.data {
            StoreValueData::NoData => false,
            _ => true,
        },
    };
    same_name && data_accepted
}

/// Tells whether the value that was observed, if one was, is what `config`
/// asks for.
pub fn value_matches(config: &RegistryConfig, observed: Option<&RegistryValue>) -> (r: bool)
    ensures
        r == value_in_desired_state(config@, observed_view(observed)),
{
    match config.wants() {
        EnsureKind::Absent => observed.is_none(),
        EnsureKind::Present => match observed {
            Some(value) => reg_values_are_eq(config, value),
            None => false,
        },
    }
}

} // verus!
