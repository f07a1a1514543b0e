//! The three operations on a desired-state document: reading the current
//! state, testing it against the document, and changing it to match.

use vstd::prelude::*;
use crate::compare::{convert_config_data, convert_store_data, key_in_desired_state, key_matches,
    value_in_desired_state, value_matches};
use crate::config::{optional_data, ConfigView, EnsureKind, RegistryConfig, RegistryValueData,
    ValueDataView};
use crate::error::{fatal_store_error, ErrorView, RegistryError, StoreError};
use crate::path::root_of;
use crate::resolver::{lemma_unchanged_is_part_way, open_or_create_key, remove_key};
use crate::store::{is_ancestor_or_self, KeyStore, StoreDataView, StoreModel, StoreValueData};

verus! {

/// The content of what an operation that reports a document and a state
/// returned.
pub open spec fn report_view(r: Result<(RegistryConfig, bool), RegistryError>) -> Result<
    (ConfigView, bool),
    ErrorView,
> {
    match r {
        Ok(report) => Ok((report.0@, report.1)),
        Err(e) => Err(e@),
    }
}

/// The content of what an operation that reports a document returned.
pub open spec fn document_view(r: Result<RegistryConfig, RegistryError>) -> Result<
    ConfigView,
    ErrorView,
> {
    match r {
        Ok(document) => Ok(document@),
        Err(e) => Err(e@),
    }
}

/// The data of a document that stands for data held by a store: the data
/// itself where a document can express it, none otherwise.
pub open spec fn document_data(data: StoreDataView) -> Option<ValueDataView> {
    match data {
        StoreDataView::Data(d) => Some(d),
        _ => None,
    }
}

/// The document that reports the value `name` under `key_path` as the store
/// holds it.
pub open spec fn value_document(key_path: Seq<char>, name: Seq<char>, data: StoreDataView)
    -> ConfigView {
    ConfigView {
        value_name: Some(name),
        value_data: document_data(data),
        ..ConfigView::key_only(key_path)
    }
}

/// What reading the current state gives on a store that does not fail. The
/// key must exist, and so must the value if the document names one; data of
/// a kind that a document cannot express is an error.
pub open spec fn get_outcome(model: StoreModel, config: ConfigView) -> Result<
    ConfigView,
    ErrorView,
> {
    if !model.has_key(config.key_path) {
        Err(ErrorView::NotFound)
    } else {
        match config.value_name {
            None => Ok(ConfigView::key_only(config.key_path)),
            Some(name) => if !model.has_value(config.key_path, name) {
                Err(ErrorView::NotFound)
            } else if model.value(config.key_path, name) is Unsupported {
                Err(ErrorView::UnsupportedValueKind)
            } else {
                Ok(value_document(config.key_path, name, model.value(config.key_path, name)))
            },
        }
    }
}

/// What testing a document that names no value gives: whether the key's
/// existence is the one asked for, and a document whose key path is empty
/// unless the key exists and should not.
pub open spec fn test_key_outcome(model: StoreModel, config: ConfigView) -> (ConfigView, bool) {
    let exists = model.has_key(config.key_path);
    (
        ConfigView::key_only(
            if config.wants() is Absent && exists {
                config.key_path
            } else {
                Seq::empty()
            },
        ),
        key_in_desired_state(config.wants(), exists),
    )
}

/// What testing a document that names the value `name` gives on a store that
/// does not fail. A key that does not exist is a mismatch, reported with an
/// empty key path. A value that does not exist is reported with the key path
/// alone. A value that exists is reported with its name and data, and data
/// of a kind that a document cannot express is an error.
pub open spec fn test_value_outcome(model: StoreModel, config: ConfigView, name: Seq<char>)
    -> Result<(ConfigView, bool), ErrorView> {
    if !model.has_key(config.key_path) {
        Ok((ConfigView::key_only(Seq::empty()), false))
    } else if !model.has_value(config.key_path, name) {
        Ok((ConfigView::key_only(config.key_path), value_in_desired_state(config, None)))
    } else {
        let data = model.value(config.key_path, name);
        if data is Unsupported {
            Err(ErrorView::UnsupportedValueKind)
        } else {
            Ok(
                (
                    value_document(config.key_path, name, data),
                    value_in_desired_state(config, Some((name, data))),
                ),
            )
        }
    }
}

/// What testing a document gives on a store that does not fail.
pub open spec fn test_outcome(model: StoreModel, config: ConfigView) -> Result<
    (ConfigView, bool),
    ErrorView,
> {
    match config.value_name {
        None => Ok(test_key_outcome(model, config)),
        Some(name) => test_value_outcome(model, config, name),
    }
}

/// Whether applying the document needs the key to exist afterwards: always,
/// but where the key itself is to be absent.
pub open spec fn set_needs_key(config: ConfigView) -> bool {
    !(config.value_name is None && config.wants() is Absent)
}

/// The document that applying `config` reports: the key path, the value name
/// if there is one, and the data if it was asked to be present.
pub open spec fn set_output(config: ConfigView) -> ConfigView {
    ConfigView {
        value_name: config.value_name,
        value_data: if config.value_name is Some && config.wants() is Present {
            config.value_data
        } else {
            None
        },
        ..ConfigView::key_only(config.key_path)
    }
}

/// What applying a document gives on a store that does not fail: the
/// document of `set_output`, always in the desired state, unless a key is
/// needed and neither it nor a key above it exists.
pub open spec fn set_outcome(model: StoreModel, config: ConfigView) -> Result<
    (ConfigView, bool),
    ErrorView,
> {
    if set_needs_key(config) && !model.resolvable(config.key_path) {
        Err(ErrorView::InvalidKeyPath(root_of(config.key_path)))
    } else {
        Ok((set_output(config), true))
    }
}

/// The store after the value part of a document was applied under a key
/// that exists. `Present` with data writes the data; `Present` without data
/// creates the value without data unless it exists; `Absent` deletes the
/// value if it exists.
pub open spec fn set_value_effect(model: StoreModel, config: ConfigView, name: Seq<char>)
    -> StoreModel {
    let key = config.key_path;
    match config.wants() {
        EnsureKind::Present => match config.value_data {
            Some(data) => model.put_value(key, name, StoreDataView::Data(data)),
            None => if model.has_value(key, name) {
                model
            } else {
                model.put_value(key, name, StoreDataView::NoData)
            },
        },
        EnsureKind::Absent => if model.has_value(key, name) {
            model.remove_value(key, name)
        } else {
            model
        },
    }
}

/// The store after a document was applied without failure. A document
/// without a value name creates the key with the keys missing above it, or
/// deletes the key with all below it. A document with a value name creates
/// the key if it is missing, whatever it asks for the value, and then applies
/// the value part.
pub open spec fn set_effect(model: StoreModel, config: ConfigView) -> StoreModel {
    if set_needs_key(config) && !model.resolvable(config.key_path) {
        model
    } else {
        match config.value_name {
            None => match config.wants() {
                EnsureKind::Present => model.ensure_key(config.key_path),
                EnsureKind::Absent => model.remove_key(config.key_path),
            },
            Some(name) => set_value_effect(model.ensure_key(config.key_path), config, name),
        }
    }
}

/// Turns the data that a store holds for a value into the data of the
/// document that reports it. A value without data gives a document without
/// data; data of a kind that a document cannot express is rejected.
pub fn observed_data(data: &StoreValueData) -> (r: Result<
    Option<RegistryValueData>,
    RegistryError,
>)
    ensures
        r is Ok <==> !(data@ is Unsupported),
        r matches Ok(held) ==> optional_data(held) == document_data(data@),
        r matches Err(e) ==> e@ == ErrorView::UnsupportedValueKind,
{
    match data {
        StoreValueData::NoData => Ok(None),
        _ => match convert_store_data(data) {
            Ok(held) => Ok(Some(held)),
            Err(e) => Err(e),
        },
    }
}

/// Reads the current state of what `config` names. The key must exist, and
/// so must the value if `config` names one. The result names the key and,
/// for a value, carries its name and data as the store holds them.
pub fn config_get<S: KeyStore>(store: &S, config: &RegistryConfig) -> (r: Result<
    RegistryConfig,
    RegistryError,
>)
    ensures
        store.reliable() ==> document_view(r) == get_outcome(store@, config@),
        r matches Err(e) && e@ is Store ==> !store.reliable(),
        !(r matches Err(e) && e@ is Store) ==> document_view(r) == get_outcome(store@, config@),
{
    let reg_key = match store.open(config.key_path.as_str()) {
        Ok(reg_key) => reg_key,
        Err(err) => {
            return Err(fatal_store_error(err));
        },
    };
    let mut reg_result = RegistryConfig::for_key(config.key_path.as_str());
    match &config.value_name {
        Some(value_name) => {
            let reg_value = match store.get_value(&reg_key, value_name.as_str()) {
                Ok(reg_value) => reg_value,
                Err(err) => {
                    return Err(fatal_store_error(err));
                },
            };
            let data = match observed_data(&reg_value.data) {
                Ok(data) => data,
                Err(e) => {
                    return Err(e);
                },
            };
            reg_result.value_name = Some(reg_value.name);
            reg_result.value_data = data;
        },
        None => {},
    }
    Ok(reg_result)
}

/// Tests a document that names no value: whether the key exists or not, as
/// the document asks. Nothing in the store changes.
pub fn test_key<S: KeyStore>(store: &S, config: &RegistryConfig) -> (r: Result<
    (RegistryConfig, bool),
    RegistryError,
>)
    ensures
        store.reliable() ==> report_view(r) == Ok::<(ConfigView, bool), ErrorView>(
            test_key_outcome(store@, config@),
        ),
        r matches Err(e) ==> e@ is Store && !store.reliable(),
        r is Ok ==> report_view(r) == Ok::<(ConfigView, bool), ErrorView>(
            test_key_outcome(store@, config@),
        ),
{
    let mut reg_result: RegistryConfig = Default::default();
    let key_exists = match store.open(config.key_path.as_str()) {
        Ok(_) => true,
        Err(StoreError::NotFound) => false,
        Err(StoreError::Failed(message)) => {
            return Err(RegistryError::Store(message));
        },
    };
    let wanted = config.wants();
    let in_desired_state = key_matches(wanted, key_exists);
    match wanted {
        EnsureKind::Present => {},
        EnsureKind::Absent => {
            if key_exists {
                reg_result.key_path = config.key_path.clone();
            }
        },
    }
    Ok((reg_result, in_desired_state))
}

/// Tests a document that names a value: whether the value exists with the
/// name and data described, or does not exist, as the document asks. Nothing
/// in the store changes.
pub fn test_value<S: KeyStore>(store: &S, config: &RegistryConfig) -> (r: Result<
    (RegistryConfig, bool),
    RegistryError,
>)
    requires
        config.value_name is Some,
    ensures
        store.reliable() ==> report_view(r) == test_value_outcome(
            store@,
            config@,
            config@.value_name->0,
        ),
        r matches Err(e) && e@ is Store ==> !store.reliable(),
        !(r matches Err(e) && e@ is Store) ==> report_view(r) == test_value_outcome(
            store@,
            config@,
            config@.value_name->0,
        ),
{
    let mut reg_result: RegistryConfig = Default::default();
    let reg_key = match store.open(config.key_path.as_str()) {
        Ok(key) => key,
        Err(StoreError::NotFound) => {
            return Ok((reg_result, false));
        },
        Err(StoreError::Failed(message)) => {
            return Err(RegistryError::Store(message));
        },
    };
    reg_result.key_path = config.key_path.clone();
    let value_name = config.value_name.as_ref().unwrap();
    match store.get_value(&reg_key, value_name.as_str()) {
        Ok(value) => {
            let data = match observed_data(&value.data) {
                Ok(data) => data,
                Err(e) => {
                    return Err(e);
                },
            };
            let in_desired_state = value_matches(config, Some(&value));
            reg_result.value_name = Some(value.name);
            reg_result.value_data = data;
            Ok((reg_result, in_desired_state))
        },
        Err(StoreError::NotFound) => {
            let in_desired_state = value_matches(config, None);
            Ok((reg_result, in_desired_state))
        },
        Err(StoreError::Failed(message)) => Err(RegistryError::Store(message)),
    }
}

/// Tests whether the store is in the state that `config` describes, and
/// reports what was found. Nothing in the store changes.
pub fn config_test<S: KeyStore>(store: &S, config: &RegistryConfig) -> (r: Result<
    (RegistryConfig, bool),
    RegistryError,
>)
    ensures
        store.reliable() ==> report_view(r) == test_outcome(store@, config@),
        r matches Err(e) && e@ is Store ==> !store.reliable(),
        !(r matches Err(e) && e@ is Store) ==> report_view(r) == test_outcome(store@, config@),
{
    if config.value_name.is_none() {
        test_key(store, config)
    } else {
        test_value(store, config)
    }
}

/// Changes the store to what `config` describes, and reports the document
/// that was applied, which is then in the desired state. The store is not
/// read again after the change.
///
/// When the store fails on the way, the keys created until then stay, and
/// nothing else has changed.
pub fn config_set<S: KeyStore>(store: &mut S, config: &RegistryConfig) -> (r: Result<
    (RegistryConfig, bool),
    RegistryError,
>)
    ensures
        final(store).reliable() == old(store).reliable(),
        old(store).reliable() ==> report_view(r) == set_outcome(old(store)@, config@),
        r is Ok ==> report_view(r) == set_outcome(old(store)@, config@) && final(store)@
            == set_effect(old(store)@, config@),
        r matches Err(e) ==> match e@ {
            ErrorView::InvalidKeyPath(_) => report_view(r) == set_outcome(old(store)@, config@)
                && final(store)@ == old(store)@,
            ErrorView::Store(_) => !old(store).reliable() && final(store)@.is_part_way_to(
                old(store)@,
                config@.key_path,
            ),
            _ => false,
        },
{
    let mut reg_result = RegistryConfig::for_key(config.key_path.as_str());
    let in_desired_state = true;
    let ghost before = store@;
    match &config.value_name {
        None => {
            match config.wants() {
                EnsureKind::Present => {
                    match open_or_create_key(store, config.key_path.as_str()) {
                        Ok(_) => {},
                        Err(e) => {
                            return Err(e);
                        },
                    }
                },
                EnsureKind::Absent => {
                    match remove_key(store, config.key_path.as_str()) {
                        Ok(()) => {},
                        Err(e) => {
                            proof {
                                lemma_unchanged_is_part_way(before, config@.key_path);
                            }
                            return Err(e);
                        },
                    }
                },
            }
        },
        Some(value_name) => {
            reg_result.value_name = Some(value_name.clone());
            let reg_key = match open_or_create_key(store, config.key_path.as_str()) {
                Ok(reg_key) => reg_key,
                Err(e) => {
                    return Err(e);
                },
            };
            proof {
                assert(is_ancestor_or_self(config@.key_path, config@.key_path) && store@
                    == before.ensure_key(config@.key_path));
            }
            match config.wants() {
                EnsureKind::Present => {
                    match &config.value_data {
                        Some(value_data) => {
                            reg_result.value_data = Some(value_data.clone());
                            match store.set_value(
                                &reg_key,
                                value_name.as_str(),
                                &convert_config_data(value_data),
                            ) {
                                Ok(()) => {},
                                Err(err) => {
                                    return Err(fatal_store_error(err));
                                },
                            }
                        },
                        None => {
                            match store.get_value(&reg_key, value_name.as_str()) {
                                Ok(_) => {},
                                Err(StoreError::NotFound) => {
                                    match store.set_value(
                                        &reg_key,
                                        value_name.as_str(),
                                        &StoreValueData::NoData,
                                    ) {
                                        Ok(()) => {},
                                        Err(err) => {
                                            return Err(fatal_store_error(err));
                                        },
                                    }
                                },
                                Err(StoreError::Failed(message)) => {
                                    return Err(RegistryError::Store(message));
                                },
                            }
                        },
                    }
                },
                EnsureKind::Absent => {
                    match store.delete_value(&reg_key, value_name.as_str()) {
                        Ok(()) => {},
                        Err(StoreError::NotFound) => {},
                        Err(StoreError::Failed(message)) => {
                            return Err(RegistryError::Store(message));
                        },
                    }
                },
            }
        },
    }
    Ok((reg_result, in_desired_state))
}

} // verus!
