//! What holds of the observations of OAuth store resolution, of errors and of
//! configuration writes.

use vstd::prelude::*;
use crate::config_write::{self, MergeStrategy};
use crate::decimal;
use crate::resolution_state::{
    self, AuthKeyringBackendKind, OAuthCredentialsStoreMode, ObservedStore,
    ResolvedOAuthCredentialStore, StoreResolution, StoreResolutionChange, StoreResolutionReason,
};
use crate::rpc_error;

verus! {

/// A change is reported exactly where the same credential was observed before, both
/// times `Auto` was configured with the same keyring, and the store is another one. It
/// names the store before and the store now.
pub proof fn drift_under_auto_is_reported(
    resolutions: Map<Seq<char>, StoreResolution>,
    store_key: Seq<char>,
    current: StoreResolution,
)
    ensures
        ({
            let outcome = resolution_state::recorded(resolutions, store_key, current);
            let known = resolutions.dom().contains(store_key);
            let before = resolutions[store_key];
            &&& outcome.change is Some <==> known && before.store_mode
                == OAuthCredentialsStoreMode::Auto && current.store_mode
                == OAuthCredentialsStoreMode::Auto && before.keyring_backend
                == current.keyring_backend && before.resolved_store != current.resolved_store
            &&& outcome.change matches Some(change) ==> change.previous == before.resolved_store
                && change.current == current.resolved_store
            &&& outcome.must_write <==> !(known && before == current)
        }),
{
}

/// The file is observed as the file, and either keyring as the keyring.
pub proof fn both_keyrings_are_the_keyring(backend: AuthKeyringBackendKind)
    ensures
        resolution_state::observed(ResolvedOAuthCredentialStore::File) == ObservedStore::File,
        resolution_state::observed(ResolvedOAuthCredentialStore::Keyring(backend))
            == ObservedStore::Keyring,
        resolution_state::store_text(ObservedStore::File) == "file"@,
        resolution_state::store_text(ObservedStore::Keyring) == "keyring"@,
{
}

/// A change is counted under the store before, the store now and the reason.
pub proof fn changes_are_tagged(change: StoreResolutionChange, reason: StoreResolutionReason)
    ensures
        ({
            let tags = resolution_state::change_tags(change, reason);
            &&& tags.len() == 3
            &&& tags[0].name == "previous_store"@
            &&& tags[0].value == (if change.previous == ObservedStore::File {
                "file"@
            } else {
                "keyring"@
            })
            &&& tags[1].name == "resolved_store"@
            &&& tags[1].value == (if change.current == ObservedStore::File {
                "file"@
            } else {
                "keyring"@
            })
            &&& tags[2].name == "reason"@
            &&& tags[2].value == resolution_state::reason_text(reason)
        }),
        resolution_state::changed_metric() == "codex.mcp.oauth.store_resolution_changed"@,
{
}

/// A failure is told with its text, whether or not there was a change. A change is
/// told with its tags. Where there is neither, nothing is told.
pub proof fn changes_and_failures_are_told(
    change: Option<StoreResolutionChange>,
    error: Option<Seq<char>>,
    reason: StoreResolutionReason,
)
    ensures
        ({
            let report = resolution_state::report_of(change, error, reason);
            &&& report is None <==> change is None && error is None
            &&& report matches Some(told) ==> told.reason == resolution_state::reason_text(reason)
            &&& error is Some ==> (report matches Some(told) && told.error == error && told.change
                is None && told.tags.len() == 0 && told.message
                == "failed to update MCP OAuth store resolution diagnostics"@)
            &&& error is None && change is Some ==> (report matches Some(told) && told.error is None
                && told.change == change && told.tags == resolution_state::change_tags(
                change->Some_0,
                reason,
            ) && told.message
                == "MCP OAuth Auto storage resolved differently than its previous use"@)
        }),
{
}

/// Every reason has a text of its own.
pub proof fn reasons_have_their_texts()
    ensures
        resolution_state::reason_text(StoreResolutionReason::AutoLoadFromKeyring)
            == "auto_load_keyring"@,
        resolution_state::reason_text(StoreResolutionReason::AutoLoadFromFileAfterMissingKeyring)
            == "auto_load_file_keyring_missing"@,
        resolution_state::reason_text(StoreResolutionReason::AutoLoadFromFileAfterKeyringError)
            == "auto_load_file_keyring_error"@,
        resolution_state::reason_text(StoreResolutionReason::AutoSaveToKeyring)
            == "auto_save_keyring"@,
        resolution_state::reason_text(StoreResolutionReason::AutoSaveToFileAfterKeyringError)
            == "auto_save_file_keyring_error"@,
        resolution_state::reason_text(StoreResolutionReason::ConfiguredLoad) == "configured_load"@,
        resolution_state::reason_text(StoreResolutionReason::ConfiguredSave) == "configured_save"@,
{
}

/// A version that is not understood is told by its number.
pub proof fn unsupported_versions_are_told(version: u32)
    ensures
        resolution_state::unsupported_text(version)
            == "unsupported MCP OAuth store resolution state version "@ + decimal::numeral(
            version as nat,
        ),
        resolution_state::RESOLUTION_STATE_VERSION == 1,
{
}

/// The write of a model provider replaces the value of one key in the user's own
/// file, under the version that is expected.
pub proof fn provider_writes_replace_one_value(
    provider: Seq<char>,
    expected_version: Option<Seq<char>>,
)
    ensures
        ({
            let write = config_write::provider_write(provider, expected_version);
            &&& write.key_path == "model_provider"@
            &&& write.value == provider
            &&& write.merge_strategy == MergeStrategy::Replace
            &&& write.file_path is None
            &&& write.expected_version == expected_version
        }),
{
}

/// Errors of requests tell what went wrong and why.
pub proof fn request_errors_tell_the_reason(reason: Seq<char>)
    ensures
        rpc_error::invalid_thread_id_error(reason).kind is InvalidRequest,
        rpc_error::invalid_thread_id_error(reason).message == "invalid thread id: "@ + reason,
        rpc_error::thread_not_found_error(reason).kind is InvalidRequest,
        rpc_error::thread_not_found_error(reason).message == "thread not found: "@ + reason,
        rpc_error::config_reload_error(reason).kind is Internal,
        rpc_error::config_reload_error(reason).message == "failed to reload config: "@ + reason,
{
}

}
