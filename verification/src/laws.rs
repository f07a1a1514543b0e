//! What holds of the operations taken together, on a store that does not
//! fail.

use vstd::prelude::*;
use crate::config::{ConfigView, EnsureKind};
use crate::engine::{get_outcome, set_effect, set_needs_key, set_outcome, set_output,
    set_value_effect, test_outcome, value_document};
use crate::error::ErrorView;
use crate::store::{lemma_ensure_key_creates, StoreDataView, StoreModel};

verus! {

/// Idempotence: applying a document a second time gives the same result as
/// the first time, an error included, and leaves the store as the first
/// application left it.
pub proof fn lemma_set_is_idempotent(model: StoreModel, config: ConfigView)
    ensures
        set_outcome(set_effect(model, config), config) == set_outcome(model, config),
        set_effect(set_effect(model, config), config) == set_effect(model, config),
{
    let path = config.key_path;
    let once = set_effect(model, config);
    if set_needs_key(config) && !model.resolvable(path) {
    } else {
        match config.value_name {
            None => {
                match config.wants() {
                    EnsureKind::Present => {
                        lemma_ensure_key_creates(model, path);
                    },
                    EnsureKind::Absent => {
                        assert(!model.remove_key(path).has_key(path));
                    },
                }
            },
            Some(name) => {
                let keyed = model.ensure_key(path);
                lemma_ensure_key_creates(model, path);
                assert(once == set_value_effect(keyed, config, name));
                assert(once.has_key(path));
                assert(once.ensure_key(path) == once);
                match config.wants() {
                    EnsureKind::Present => match config.value_data {
                        Some(data) => {
                            assert(once.values.insert((path, name), StoreDataView::Data(data))
                                =~= once.values);
                        },
                        None => {
                            assert(once.has_value(path, name));
                        },
                    },
                    EnsureKind::Absent => {
                        assert(!once.has_value(path, name));
                    },
                }
            },
        }
    }
}

/// Round trip: after a document that asks for a value to be present with
/// given data was applied, testing the same document finds the store in the
/// desired state and reports the value with that data, and reading the
/// current state returns that data.
pub proof fn lemma_set_then_test_and_get(model: StoreModel, config: ConfigView)
    requires
        config.value_name is Some,
        config.value_data is Some,
        config.wants() is Present,
        set_outcome(model, config) is Ok,
    ensures
        ({
            let after = set_effect(model, config);
            let reported = value_document(
                config.key_path,
                config.value_name->0,
                StoreDataView::Data(config.value_data->0),
            );
            &&& test_outcome(after, config) == Ok::<(ConfigView, bool), ErrorView>(
                (reported, true),
            )
            &&& get_outcome(after, config) == Ok::<ConfigView, ErrorView>(reported)
            &&& reported.value_data == config.value_data
            &&& reported == set_output(config)
        }),
{
    lemma_ensure_key_creates(model, config.key_path);
}

/// Absence idempotence: a document that asks for a key or a value to be
/// absent is applied with success when that key or value does not exist, and
/// then nothing is deleted. For a key, the store stays as it was; for a
/// value, nothing changes but that the key is created if it was missing.
pub proof fn lemma_set_absent_on_absent(model: StoreModel, config: ConfigView)
    requires
        model.wf(),
        config.wants() is Absent,
        match config.value_name {
            None => !model.has_key(config.key_path),
            Some(name) => model.resolvable(config.key_path) && !model.has_value(
                config.key_path,
                name,
            ),
        },
    ensures
        set_outcome(model, config) == Ok::<(ConfigView, bool), ErrorView>(
            (set_output(config), true),
        ),
        config.value_name is None ==> set_effect(model, config) == model,
        config.value_name is Some ==> set_effect(model, config) == model.ensure_key(
            config.key_path,
        ),
        model.has_key(config.key_path) ==> set_effect(model, config) == model,
{
    if config.value_name is Some {
        lemma_ensure_key_creates(model, config.key_path);
    }
}

/// Presence idempotence: a document that asks for a key that exists to be
/// present is applied with success, and the store stays as it was.
pub proof fn lemma_set_present_on_present(model: StoreModel, config: ConfigView)
    requires
        config.value_name is None,
        config.wants() is Present,
        model.has_key(config.key_path),
    ensures
        set_outcome(model, config) == Ok::<(ConfigView, bool), ErrorView>(
            (set_output(config), true),
        ),
        set_effect(model, config) == model,
{
}

/// Applying a document keeps the store's invariant: every value still lies
/// under a key that exists.
pub proof fn lemma_set_keeps_wf(model: StoreModel, config: ConfigView)
    requires
        model.wf(),
    ensures
        set_effect(model, config).wf(),
{
    let path = config.key_path;
    let after = set_effect(model, config);
    if !(set_needs_key(config) && !model.resolvable(path)) {
        if set_needs_key(config) {
            let keyed = model.ensure_key(path);
            lemma_ensure_key_creates(model, path);
            assert(keyed.wf()) by {
                assert forall|key: Seq<char>, name: Seq<char>|
                    keyed.values.dom().contains((key, name)) implies keyed.keys.contains(key) by {
                    assert(model.has_key(key));
                }
            }
            assert(after.keys == keyed.keys);
            assert forall|key: Seq<char>, name: Seq<char>|
                after.values.dom().contains((key, name)) implies after.keys.contains(key) by {
                if (key, name) != (path, config.value_name->0) {
                    assert(keyed.values.dom().contains((key, name)));
                }
            }
        } else {
            assert forall|key: Seq<char>, name: Seq<char>|
                after.values.dom().contains((key, name)) implies after.keys.contains(key) by {
                assert(model.values.dom().contains((key, name)));
            }
        }
    }
}

/// Testing a document whose key does not exist, and which names no value,
/// finds `Present` unmet and reports an empty key path.
pub proof fn lemma_test_of_missing_key(model: StoreModel, config: ConfigView)
    requires
        config.value_name is None,
        config.wants() is Present,
        !model.has_key(config.key_path),
    ensures
        test_outcome(model, config) == Ok::<(ConfigView, bool), ErrorView>(
            (ConfigView::key_only(Seq::empty()), false),
        ),
{
}

} // verus!
