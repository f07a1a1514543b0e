//! What a program around the library decides: which input an operation
//! takes, how a document is run, and the exit code that reports the result.

use vstd::prelude::*;
use crate::config::{apply_default_ensure, validate_config, ConfigView, RegistryConfig};
use crate::engine::{config_get, config_set, config_test, get_outcome, report_view, set_effect,
    set_outcome, test_outcome};
use crate::error::{ErrorView, RegistryError};
use crate::resolver::lemma_unchanged_is_part_way;
use crate::store::{KeyStore, StoreModel};

verus! {

/// The operation succeeded and, where it applies, the store is in the
/// desired state.
pub const EXIT_SUCCESS: i32 = 0;

/// The program was used wrongly: a document was needed and none was given.
pub const EXIT_INVALID_PARAMETER: i32 = 1;

/// The input cannot be used: it is malformed, it breaks the document's
/// invariant, or it was given where none is taken.
pub const EXIT_INVALID_INPUT: i32 = 2;

/// The store failed, or what was to be read is not there.
pub const EXIT_REGISTRY_ERROR: i32 = 3;

/// The operation succeeded and the store is not in the desired state.
pub const EXIT_NOT_IN_DESIRED_STATE: i32 = 4;

/// The result could not be written out.
pub const EXIT_JSON_SERIALIZATION_FAILED: i32 = 5;

/// What can be done with a desired-state document.
#[derive(Debug, Clone, Copy, PartialEq, Eq, Structural)]
pub enum ConfigOperation {
    /// Read the current state.
    GetState,
    /// Change the store to the desired state.
    SetState,
    /// Compare the current state with the desired state.
    TestState,
}

/// Checks that a document was given exactly where one is taken: the
/// operations on documents need one, and nothing else accepts one. The error
/// is the exit code to stop with.
pub fn check_input(takes_document: bool, document_given: bool) -> (r: Result<(), i32>)
    ensures
        r is Ok <==> takes_document == document_given,
        takes_document && !document_given ==> r == Err::<(), i32>(EXIT_INVALID_PARAMETER),
        !takes_document && document_given ==> r == Err::<(), i32>(EXIT_INVALID_INPUT),
{
    if takes_document {
        if document_given {
            Ok(())
        } else {
            Err(EXIT_INVALID_PARAMETER)
        }
    } else {
        if document_given {
            Err(EXIT_INVALID_INPUT)
        } else {
            Ok(())
        }
    }
}

/// What running `operation` on a document gives on a store that does not
/// fail. A document that breaks the invariant is rejected. Otherwise the
/// default is applied to `ensure` and the operation is carried out; reading
/// the current state always counts as being in the desired state.
pub open spec fn run_outcome(model: StoreModel, operation: ConfigOperation, config: ConfigView)
    -> Result<(ConfigView, bool), ErrorView> {
    if !config.valid() {
        Err(ErrorView::ValueDataWithoutName)
    } else {
        match operation {
            ConfigOperation::GetState => match get_outcome(model, config.with_default_ensure()) {
                Ok(document) => Ok((document, true)),
                Err(e) => Err(e),
            },
            ConfigOperation::SetState => set_outcome(model, config.with_default_ensure()),
            ConfigOperation::TestState => test_outcome(model, config.with_default_ensure()),
        }
    }
}

/// The store after `operation` was run on a document without failure: only
/// applying a valid document changes it.
pub open spec fn run_effect(model: StoreModel, operation: ConfigOperation, config: ConfigView)
    -> StoreModel {
    if config.valid() && operation == ConfigOperation::SetState {
        set_effect(model, config.with_default_ensure())
    } else {
        model
    }
}

/// Validates a document, applies the default to its `ensure`, and carries
/// out `operation` on it.
///
/// Only applying a document changes the store. When the store fails while a
/// document is applied, the keys created until then stay.
pub fn run_config<S: KeyStore>(store: &mut S, operation: ConfigOperation, config: RegistryConfig)
    -> (r: Result<(RegistryConfig, bool), RegistryError>)
    ensures
        final(store).reliable() == old(store).reliable(),
        old(store).reliable() ==> report_view(r) == run_outcome(old(store)@, operation, config@),
        !(r matches Err(e) && e@ is Store) ==> report_view(r) == run_outcome(
            old(store)@,
            operation,
            config@,
        ),
        r matches Err(e) && e@ is Store ==> !old(store).reliable(),
        r is Ok ==> final(store)@ == run_effect(old(store)@, operation, config@),
        r is Err ==> final(store)@.is_part_way_to(old(store)@, config@.key_path),
        operation != ConfigOperation::SetState ==> final(store)@ == old(store)@,
{
    let mut config = config;
    proof {
        lemma_unchanged_is_part_way(store@, config@.key_path);
    }
    match validate_config(&config) {
        Ok(()) => {},
        Err(e) => {
            return Err(e);
        },
    }
    apply_default_ensure(&mut config);
    match operation {
        ConfigOperation::GetState => match config_get(store, &config) {
            Ok(document) => Ok((document, true)),
            Err(e) => Err(e),
        },
        ConfigOperation::SetState => config_set(store, &config),
        ConfigOperation::TestState => config_test(store, &config),
    }
}

/// The exit code that reports the result of an operation: success, "not in
/// the desired state" for a result that says so, "invalid input" where the
/// document or its key path was refused, and "registry error" for everything
/// that went wrong at the store.
pub open spec fn exit_code_of(result: Result<(ConfigView, bool), ErrorView>) -> i32 {
    match result {
        Ok(report) => if report.1 {
            EXIT_SUCCESS
        } else {
            EXIT_NOT_IN_DESIRED_STATE
        },
        Err(ErrorView::ValueDataWithoutName) => EXIT_INVALID_INPUT,
        Err(ErrorView::InvalidKeyPath(_)) => EXIT_INVALID_INPUT,
        Err(ErrorView::NotFound) => EXIT_REGISTRY_ERROR,
        Err(ErrorView::UnsupportedValueKind) => EXIT_REGISTRY_ERROR,
        Err(ErrorView::Store(_)) => EXIT_REGISTRY_ERROR,
    }
}

/// The exit code that reports the result of an operation.
pub fn exit_code(result: &Result<(RegistryConfig, bool), RegistryError>) -> (r: i32)
    ensures
        r == exit_code_of(report_view(*result)),
{
    match result {
        Ok(report) => if report.1 {
            EXIT_SUCCESS
        } else {
            EXIT_NOT_IN_DESIRED_STATE
        },
        Err(RegistryError::ValueDataWithoutName) => EXIT_INVALID_INPUT,
        Err(RegistryError::InvalidKeyPath(_)) => EXIT_INVALID_INPUT,
        Err(RegistryError::NotFound) => EXIT_REGISTRY_ERROR,
        Err(RegistryError::UnsupportedValueKind) => EXIT_REGISTRY_ERROR,
        Err(RegistryError::Store(_)) => EXIT_REGISTRY_ERROR,
    }
}

} // verus!
