//! Best-effort diagnostics for changes in MCP OAuth store resolution.
//!
//! This token-free state is observational, never authoritative. OAuth still
//! resolves from config and available credentials; failure to read, lock or write
//! the state must not affect credential selection or an OAuth operation. The last
//! observation intentionally survives logout so a later login can report that
//! `Auto` selected a different store.

use vstd::prelude::*;
use vstd::string::*;
use crate::decimal;
use crate::metrics::{self, MetricTag, TagModel};
use crate::text_map::TextMap;

verus! {

pub const RESOLUTION_STATE_VERSION: u32 = 1;

/// Which store the configuration asks for.
#[derive(Clone, Copy, Debug, PartialEq, Eq, Structural)]
pub enum OAuthCredentialsStoreMode {
    Auto,
    File,
    Keyring,
}

/// Which keyring the configuration asks for.
#[derive(Clone, Copy, Debug, PartialEq, Eq, Structural)]
pub enum AuthKeyringBackendKind {
    Direct,
    Secrets,
}

/// The store that holds the credentials.
#[derive(Clone, Copy, Debug, PartialEq, Eq, Structural)]
pub enum ResolvedOAuthCredentialStore {
    File,
    Keyring(AuthKeyringBackendKind),
}

/// How the store came to be resolved.
#[derive(Clone, Copy, Debug, PartialEq, Eq, Structural)]
pub enum StoreResolutionReason {
    AutoLoadFromKeyring,
    AutoLoadFromFileAfterMissingKeyring,
    AutoLoadFromFileAfterKeyringError,
    AutoSaveToKeyring,
    AutoSaveToFileAfterKeyringError,
    ConfiguredLoad,
    ConfiguredSave,
}

pub open spec fn reason_text(reason: StoreResolutionReason) -> Seq<char> {
    match reason {
        StoreResolutionReason::AutoLoadFromKeyring => "auto_load_keyring"@,
        StoreResolutionReason::AutoLoadFromFileAfterMissingKeyring => {
            "auto_load_file_keyring_missing"@
        },
        StoreResolutionReason::AutoLoadFromFileAfterKeyringError => {
            "auto_load_file_keyring_error"@
        },
        StoreResolutionReason::AutoSaveToKeyring => "auto_save_keyring"@,
        StoreResolutionReason::AutoSaveToFileAfterKeyringError => "auto_save_file_keyring_error"@,
        StoreResolutionReason::ConfiguredLoad => "configured_load"@,
        StoreResolutionReason::ConfiguredSave => "configured_save"@,
    }
}

impl StoreResolutionReason {
    pub fn as_str(self) -> (name: &'static str)
        ensures
            name@ == reason_text(self),
    {
        match self {
            StoreResolutionReason::AutoLoadFromKeyring => "auto_load_keyring",
            StoreResolutionReason::AutoLoadFromFileAfterMissingKeyring => {
                "auto_load_file_keyring_missing"
            },
            StoreResolutionReason::AutoLoadFromFileAfterKeyringError => {
                "auto_load_file_keyring_error"
            },
            StoreResolutionReason::AutoSaveToKeyring => "auto_save_keyring",
            StoreResolutionReason::AutoSaveToFileAfterKeyringError => {
                "auto_save_file_keyring_error"
            },
            StoreResolutionReason::ConfiguredLoad => "configured_load",
            StoreResolutionReason::ConfiguredSave => "configured_save",
        }
    }
}

/// A store, as the diagnostics tell it.
#[derive(Clone, Copy, Debug, PartialEq, Eq, Structural)]
pub enum ObservedStore {
    File,
    Keyring,
}

pub open spec fn store_text(store: ObservedStore) -> Seq<char> {
    match store {
        ObservedStore::File => "file"@,
        ObservedStore::Keyring => "keyring"@,
    }
}

impl ObservedStore {
    pub fn as_str(self) -> (name: &'static str)
        ensures
            name@ == store_text(self),
    {
        match self {
            ObservedStore::File => "file",
            ObservedStore::Keyring => "keyring",
        }
    }
}

/// The diagnostics tell the two keyrings not apart.
pub open spec fn observed(store: ResolvedOAuthCredentialStore) -> ObservedStore {
    match store {
        ResolvedOAuthCredentialStore::File => ObservedStore::File,
        ResolvedOAuthCredentialStore::Keyring(_) => ObservedStore::Keyring,
    }
}

impl From<ResolvedOAuthCredentialStore> for ObservedStore {
    fn from(store: ResolvedOAuthCredentialStore) -> (result: Self) {
        match store {
            ResolvedOAuthCredentialStore::File => ObservedStore::File,
            ResolvedOAuthCredentialStore::Keyring(_) => ObservedStore::Keyring,
        }
    }
}

impl vstd::std_specs::convert::FromSpecImpl<ResolvedOAuthCredentialStore> for ObservedStore {
    open spec fn obeys_from_spec() -> bool {
        true
    }

    open spec fn from_spec(store: ResolvedOAuthCredentialStore) -> ObservedStore {
        observed(store)
    }
}

/// One observation: what was configured, and which store that resolved to.
#[derive(Clone, Copy, Debug, PartialEq, Eq, Structural)]
pub struct StoreResolution {
    pub store_mode: OAuthCredentialsStoreMode,
    pub keyring_backend: AuthKeyringBackendKind,
    pub resolved_store: ObservedStore,
}

impl DeepView for StoreResolution {
    type V = StoreResolution;

    open spec fn deep_view(&self) -> StoreResolution {
        *self
    }
}

/// The last observation for every credential.
#[derive(Debug, PartialEq, Eq)]
pub struct ResolutionState {
    pub version: u32,
    pub resolutions: TextMap<StoreResolution>,
}

pub struct ResolutionModel {
    pub version: u32,
    pub resolutions: Map<Seq<char>, StoreResolution>,
}

impl DeepView for ResolutionState {
    type V = ResolutionModel;

    open spec fn deep_view(&self) -> ResolutionModel {
        ResolutionModel { version: self.version, resolutions: self.resolutions.deep_view() }
    }
}

/// The version of a state that tells none.
pub fn resolution_state_version() -> (version: u32)
    ensures
        version == RESOLUTION_STATE_VERSION,
{
    RESOLUTION_STATE_VERSION
}

impl Default for ResolutionState {
    fn default() -> (state: Self)
        ensures
            state.deep_view() == (ResolutionModel {
                version: RESOLUTION_STATE_VERSION,
                resolutions: Map::empty(),
            }),
    {
        ResolutionState { version: RESOLUTION_STATE_VERSION, resolutions: TextMap::new() }
    }
}

impl ResolutionState {
    /// The state that a file holds. Parts that the file leaves out are those of a
    /// new state.
    pub fn from_parts(
        version: Option<u32>,
        resolutions: Option<TextMap<StoreResolution>>,
    ) -> (state: Self)
        ensures
            state.deep_view() == (ResolutionModel {
                version: match version {
                    Some(number) => number,
                    None => RESOLUTION_STATE_VERSION,
                },
                resolutions: match resolutions.deep_view() {
                    Some(map) => map,
                    None => Map::empty(),
                },
            }),
    {
        ResolutionState {
            version: match version {
                Some(number) => number,
                None => resolution_state_version(),
            },
            resolutions: match resolutions {
                Some(map) => map,
                None => TextMap::new(),
            },
        }
    }
}

/// `Auto` resolved differently than at its previous use.
#[derive(Clone, Copy, Debug, PartialEq, Eq, Structural)]
pub struct StoreResolutionChange {
    pub previous: ObservedStore,
    pub current: ObservedStore,
}

/// The name of the counter of changes.
pub open spec fn changed_metric() -> Seq<char> {
    "codex.mcp.oauth.store_resolution_changed"@
}

/// The name of the counter of changes.
pub fn changed_metric_name() -> (name: &'static str)
    ensures
        name@ == changed_metric(),
{
    "codex.mcp.oauth.store_resolution_changed"
}

pub open spec fn change_tags(
    change: StoreResolutionChange,
    reason: StoreResolutionReason,
) -> Seq<TagModel> {
    seq![
        metrics::tag_of("previous_store"@, store_text(change.previous)),
        metrics::tag_of("resolved_store"@, store_text(change.current)),
        metrics::tag_of("reason"@, reason_text(reason)),
    ]
}

impl StoreResolutionChange {
    /// The tags that the change is counted under.
    pub fn metric_tags(&self, reason: StoreResolutionReason) -> (tags: Vec<MetricTag>)
        ensures
            tags.deep_view() == change_tags(*self, reason),
    {
        let mut tags: Vec<MetricTag> = Vec::new();
        tags.push(metrics::tag("previous_store", self.previous.as_str()));
        tags.push(metrics::tag("resolved_store", self.current.as_str()));
        tags.push(metrics::tag("reason", reason.as_str()));
        assert(tags.deep_view() =~= change_tags(*self, reason));
        tags
    }
}

/// The state was written by a version that this one does not understand.
#[derive(Clone, Copy, Debug, PartialEq, Eq, Structural)]
pub struct UnsupportedVersion {
    pub version: u32,
}

pub open spec fn unsupported_text(version: u32) -> Seq<char> {
    "unsupported MCP OAuth store resolution state version "@ + decimal::numeral(version as nat)
}

impl UnsupportedVersion {
    pub fn message(&self) -> (text: String)
        ensures
            text@ == unsupported_text(self.version),
    {
        let mut text = "unsupported MCP OAuth store resolution state version ".to_string();
        let number = decimal::to_numeral(self.version as usize);
        text.append(number.as_str());
        text
    }
}

/// What has to be done after a resolution was recorded: whether the state has to
/// be written, and the change to report.
#[derive(Clone, Copy, Debug, PartialEq, Eq, Structural)]
pub struct RecordedResolution {
    pub must_write: bool,
    pub change: Option<StoreResolutionChange>,
}

/// The observation before, where there is one.
pub open spec fn last_observation(
    resolutions: Map<Seq<char>, StoreResolution>,
    store_key: Seq<char>,
) -> Option<StoreResolution> {
    if resolutions.dom().contains(store_key) {
        Some(resolutions[store_key])
    } else {
        None
    }
}

/// The change to report. Explicit modes and keyring-backend changes are
/// intentional authority changes, so they reset the comparison baseline. Only
/// repeated `Auto` resolution under one backend indicates the availability drift
/// that is reported.
pub open spec fn reported_change(
    previous: Option<StoreResolution>,
    current: StoreResolution,
) -> Option<StoreResolutionChange> {
    match previous {
        Some(before) => if before.store_mode is Auto && current.store_mode is Auto
            && before.keyring_backend == current.keyring_backend && before.resolved_store
            != current.resolved_store {
            Some(
                StoreResolutionChange {
                    previous: before.resolved_store,
                    current: current.resolved_store,
                },
            )
        } else {
            None
        },
        None => None,
    }
}

/// What has to be done after `current` was recorded.
pub open spec fn recorded(
    resolutions: Map<Seq<char>, StoreResolution>,
    store_key: Seq<char>,
    current: StoreResolution,
) -> RecordedResolution {
    let previous = last_observation(resolutions, store_key);
    RecordedResolution {
        must_write: previous != Some(current),
        change: reported_change(previous, current),
    }
}

impl ResolutionState {
    /// Refuses a state of another version.
    pub fn check_version(&self) -> (result: Result<(), UnsupportedVersion>)
        ensures
            result is Ok <==> self.version == RESOLUTION_STATE_VERSION,
            result matches Err(error) ==> error.version == self.version,
    {
        if self.version == RESOLUTION_STATE_VERSION {
            Ok(())
        } else {
            Err(UnsupportedVersion { version: self.version })
        }
    }
}

/// Records which store the credential `store_key` resolved to.
pub fn record_store_resolution_in(
    state: &mut ResolutionState,
    store_key: &str,
    store_mode: OAuthCredentialsStoreMode,
    keyring_backend: AuthKeyringBackendKind,
    resolved_store: ResolvedOAuthCredentialStore,
) -> (result: Result<RecordedResolution, UnsupportedVersion>)
    ensures
        ({
            let current = StoreResolution {
                store_mode,
                keyring_backend,
                resolved_store: observed(resolved_store),
            };
            let before = old(state).deep_view();
            &&& result is Err <==> before.version != RESOLUTION_STATE_VERSION
            &&& result matches Err(error) ==> error.version == before.version
                && final(state).deep_view() == before
            &&& result matches Ok(outcome) ==> outcome == recorded(
                before.resolutions,
                store_key@,
                current,
            ) && final(state).deep_view() == (ResolutionModel {
                resolutions: before.resolutions.insert(store_key@, current),
                ..before
            })
        }),
{
    let ghost before = state.deep_view();
    match state.check_version() {
        Ok(()) => {},
        Err(error) => {
            return Err(error);
        },
    }
    let current = StoreResolution {
        store_mode,
        keyring_backend,
        resolved_store: ObservedStore::from(resolved_store),
    };
    let previous: Option<StoreResolution> = match state.resolutions.get(store_key) {
        Some(found) => Some(*found),
        None => None,
    };
    match previous {
        Some(found) => {
            if found == current {
                assert(before.resolutions.insert(store_key@, current) =~= before.resolutions);
                return Ok(RecordedResolution { must_write: false, change: None });
            }
        },
        None => {},
    }
    state.resolutions.insert(store_key.to_string(), current);
    let change = match previous {
        Some(found) => if found.store_mode == OAuthCredentialsStoreMode::Auto
            && current.store_mode == OAuthCredentialsStoreMode::Auto && found.keyring_backend
            == current.keyring_backend && found.resolved_store != current.resolved_store {
            Some(
                StoreResolutionChange {
                    previous: found.resolved_store,
                    current: current.resolved_store,
                },
            )
        } else {
            None
        },
        None => None,
    };
    Ok(RecordedResolution { must_write: true, change })
}

/// What is told of a recorded resolution: a message, how the store came to be
/// resolved, and either the two stores and the tags of the counter, or what went
/// wrong.
#[derive(Debug, PartialEq, Eq)]
pub struct StoreResolutionReport {
    pub message: &'static str,
    pub reason: &'static str,
    pub change: Option<StoreResolutionChange>,
    pub tags: Vec<MetricTag>,
    pub error: Option<String>,
}

pub struct ReportModel {
    pub message: Seq<char>,
    pub reason: Seq<char>,
    pub change: Option<StoreResolutionChange>,
    pub tags: Seq<TagModel>,
    pub error: Option<Seq<char>>,
}

impl DeepView for StoreResolutionReport {
    type V = ReportModel;

    open spec fn deep_view(&self) -> ReportModel {
        ReportModel {
            message: self.message@,
            reason: self.reason@,
            change: self.change,
            tags: self.tags.deep_view(),
            error: self.error.deep_view(),
        }
    }
}

/// A change and a failure are told, anything else is not.
pub open spec fn report_of(
    change: Option<StoreResolutionChange>,
    error: Option<Seq<char>>,
    reason: StoreResolutionReason,
) -> Option<ReportModel> {
    match (error, change) {
        (Some(text), _) => Some(
            ReportModel {
                message: "failed to update MCP OAuth store resolution diagnostics"@,
                reason: reason_text(reason),
                change: None,
                tags: Seq::empty(),
                error: Some(text),
            },
        ),
        (None, Some(found)) => Some(
            ReportModel {
                message: "MCP OAuth Auto storage resolved differently than its previous use"@,
                reason: reason_text(reason),
                change: Some(found),
                tags: change_tags(found, reason),
                error: None,
            },
        ),
        (None, None) => None,
    }
}

/// What is told of a recorded resolution. `result` is the change, or the text of
/// what went wrong.
pub fn store_resolution_report(
    result: Result<Option<StoreResolutionChange>, String>,
    reason: StoreResolutionReason,
) -> (report: Option<StoreResolutionReport>)
    ensures
        report.deep_view() == (match result {
            Ok(change) => report_of(change, None, reason),
            Err(error) => report_of(None, Some(error@), reason),
        }),
{
    match result {
        Ok(Some(change)) => Some(
            StoreResolutionReport {
                message: "MCP OAuth Auto storage resolved differently than its previous use",
                reason: reason.as_str(),
                change: Some(change),
                tags: change.metric_tags(reason),
                error: None,
            },
        ),
        Ok(None) => None,
        Err(error) => {
            let tags: Vec<MetricTag> = Vec::new();
            assert(tags.deep_view() =~= Seq::<TagModel>::empty());
            Some(
                StoreResolutionReport {
                    message: "failed to update MCP OAuth store resolution diagnostics",
                    reason: reason.as_str(),
                    change: None,
                    tags,
                    error: Some(error),
                },
            )
        },
    }
}

/// Recording the same resolution again writes nothing and reports nothing.
pub proof fn repeated_resolutions_are_quiet(
    resolutions: Map<Seq<char>, StoreResolution>,
    store_key: Seq<char>,
    current: StoreResolution,
)
    ensures
        recorded(resolutions.insert(store_key, current), store_key, current) == (
        RecordedResolution { must_write: false, change: None }),
{
}

/// A change is reported only where the state is written, and it names two
/// different stores.
pub proof fn reported_changes_are_changes(
    resolutions: Map<Seq<char>, StoreResolution>,
    store_key: Seq<char>,
    current: StoreResolution,
)
    ensures
        recorded(resolutions, store_key, current).change matches Some(change)
            ==> change.previous != change.current && recorded(
            resolutions,
            store_key,
            current,
        ).must_write,
{
}

/// Nothing is reported right after the configuration changed, whichever store it
/// resolved to: the comparison begins anew.
pub proof fn configuration_changes_reset_the_comparison(
    resolutions: Map<Seq<char>, StoreResolution>,
    store_key: Seq<char>,
    before: StoreResolution,
    after: StoreResolution,
)
    requires
        before.store_mode != after.store_mode || before.keyring_backend != after.keyring_backend
            || !(after.store_mode is Auto),
    ensures
        recorded(resolutions.insert(store_key, before), store_key, after).change is None,
{
}

/// Credentials do not affect each other's observations.
pub proof fn credentials_are_observed_apart(
    resolutions: Map<Seq<char>, StoreResolution>,
    store_key: Seq<char>,
    other_key: Seq<char>,
    other: StoreResolution,
    current: StoreResolution,
)
    requires
        store_key != other_key,
    ensures
        recorded(resolutions.insert(other_key, other), store_key, current) == recorded(
            resolutions,
            store_key,
            current,
        ),
{
}

}
