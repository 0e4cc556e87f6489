use codex_connector_core::resolution_state::{
    changed_metric_name, record_store_resolution_in, resolution_state_version,
    store_resolution_report,
    AuthKeyringBackendKind, OAuthCredentialsStoreMode, ObservedStore, RecordedResolution,
    ResolutionState, ResolvedOAuthCredentialStore, StoreResolution, StoreResolutionChange,
    StoreResolutionReason, UnsupportedVersion, RESOLUTION_STATE_VERSION,
};
use codex_connector_core::text_map::TextMap;

const STORE_KEY: &str = "test-server|https://example.test/mcp";

fn change(
    state: &mut ResolutionState,
    mode: OAuthCredentialsStoreMode,
    backend: AuthKeyringBackendKind,
    store: ResolvedOAuthCredentialStore,
) -> Option<StoreResolutionChange> {
    record_store_resolution_in(state, STORE_KEY, mode, backend, store)
        .expect("supported version")
        .change
}

#[test]
fn auto_resolution_change_is_reported_and_persisted() {
    let mut state = ResolutionState::default();

    assert_eq!(
        change(
            &mut state,
            OAuthCredentialsStoreMode::Auto,
            AuthKeyringBackendKind::Direct,
            ResolvedOAuthCredentialStore::Keyring(AuthKeyringBackendKind::Direct),
        ),
        None
    );
    assert_eq!(
        change(
            &mut state,
            OAuthCredentialsStoreMode::Auto,
            AuthKeyringBackendKind::Direct,
            ResolvedOAuthCredentialStore::File,
        ),
        Some(StoreResolutionChange {
            previous: ObservedStore::Keyring,
            current: ObservedStore::File,
        })
    );

    let mut resolutions = TextMap::new();
    resolutions.insert(
        STORE_KEY.to_string(),
        StoreResolution {
            store_mode: OAuthCredentialsStoreMode::Auto,
            keyring_backend: AuthKeyringBackendKind::Direct,
            resolved_store: ObservedStore::File,
        },
    );
    assert_eq!(state, ResolutionState { version: RESOLUTION_STATE_VERSION, resolutions });
}

#[test]
fn intentional_configuration_changes_reset_the_auto_comparison() {
    let mut state = ResolutionState::default();

    assert_eq!(
        change(
            &mut state,
            OAuthCredentialsStoreMode::Auto,
            AuthKeyringBackendKind::Direct,
            ResolvedOAuthCredentialStore::Keyring(AuthKeyringBackendKind::Direct),
        ),
        None
    );
    assert_eq!(
        change(
            &mut state,
            OAuthCredentialsStoreMode::File,
            AuthKeyringBackendKind::Direct,
            ResolvedOAuthCredentialStore::File,
        ),
        None
    );
    assert_eq!(
        change(
            &mut state,
            OAuthCredentialsStoreMode::Auto,
            AuthKeyringBackendKind::Direct,
            ResolvedOAuthCredentialStore::File,
        ),
        None
    );
    assert_eq!(
        change(
            &mut state,
            OAuthCredentialsStoreMode::Auto,
            AuthKeyringBackendKind::Secrets,
            ResolvedOAuthCredentialStore::Keyring(AuthKeyringBackendKind::Secrets),
        ),
        None
    );
    assert_eq!(
        change(
            &mut state,
            OAuthCredentialsStoreMode::Auto,
            AuthKeyringBackendKind::Secrets,
            ResolvedOAuthCredentialStore::File,
        ),
        Some(StoreResolutionChange {
            previous: ObservedStore::Keyring,
            current: ObservedStore::File,
        })
    );
}

#[test]
fn a_repeated_resolution_is_not_written() {
    let mut state = ResolutionState::default();
    let mut record = || {
        record_store_resolution_in(
            &mut state,
            "key",
            OAuthCredentialsStoreMode::Keyring,
            AuthKeyringBackendKind::Direct,
            ResolvedOAuthCredentialStore::Keyring(AuthKeyringBackendKind::Direct),
        )
    };
    assert_eq!(record(), Ok(RecordedResolution { must_write: true, change: None }));
    assert_eq!(record(), Ok(RecordedResolution { must_write: false, change: None }));
}

#[test]
fn credentials_are_compared_apart() {
    let mut state = ResolutionState::default();
    let auto = OAuthCredentialsStoreMode::Auto;
    let direct = AuthKeyringBackendKind::Direct;
    let keyring = ResolvedOAuthCredentialStore::Keyring(direct);
    let file = ResolvedOAuthCredentialStore::File;
    record_store_resolution_in(&mut state, "a", auto, direct, keyring).expect("supported");
    let other = record_store_resolution_in(&mut state, "b", auto, direct, file).expect("supported");
    assert_eq!(other.change, None);
    assert_eq!(state.resolutions.len(), 2);
}

#[test]
fn other_versions_are_refused() {
    let mut state = ResolutionState { version: 7, resolutions: TextMap::new() };
    let refused = record_store_resolution_in(
        &mut state,
        "key",
        OAuthCredentialsStoreMode::Auto,
        AuthKeyringBackendKind::Direct,
        ResolvedOAuthCredentialStore::File,
    );
    assert_eq!(refused, Err(UnsupportedVersion { version: 7 }));
    assert_eq!(state.resolutions.len(), 0);
    assert_eq!(
        UnsupportedVersion { version: 7 }.message(),
        "unsupported MCP OAuth store resolution state version 7"
    );
    assert!(ResolutionState::default().check_version().is_ok());
    assert_eq!(resolution_state_version(), 1);
}

#[test]
fn changes_are_counted_under_their_tags() {
    let change = StoreResolutionChange {
        previous: ObservedStore::Keyring,
        current: ObservedStore::File,
    };
    let tags = change.metric_tags(StoreResolutionReason::AutoLoadFromFileAfterKeyringError);
    let pairs: Vec<(&str, &str)> = tags.iter().map(|tag| (tag.name, tag.value)).collect();
    assert_eq!(
        pairs,
        vec![
            ("previous_store", "keyring"),
            ("resolved_store", "file"),
            ("reason", "auto_load_file_keyring_error"),
        ]
    );
    assert_eq!(changed_metric_name(), "codex.mcp.oauth.store_resolution_changed");
    let reasons = [
        (StoreResolutionReason::AutoLoadFromKeyring, "auto_load_keyring"),
        (
            StoreResolutionReason::AutoLoadFromFileAfterMissingKeyring,
            "auto_load_file_keyring_missing",
        ),
        (StoreResolutionReason::AutoSaveToKeyring, "auto_save_keyring"),
        (StoreResolutionReason::AutoSaveToFileAfterKeyringError, "auto_save_file_keyring_error"),
        (StoreResolutionReason::ConfiguredLoad, "configured_load"),
        (StoreResolutionReason::ConfiguredSave, "configured_save"),
    ];
    for (reason, name) in reasons {
        assert_eq!(reason.as_str(), name);
    }
}

#[test]
fn changes_and_failures_are_told() {
    let change = StoreResolutionChange {
        previous: ObservedStore::File,
        current: ObservedStore::Keyring,
    };
    let reason = StoreResolutionReason::AutoSaveToKeyring;
    let told = store_resolution_report(Ok(Some(change)), reason).expect("a report");
    assert_eq!(told.message, "MCP OAuth Auto storage resolved differently than its previous use");
    assert_eq!(told.reason, "auto_save_keyring");
    assert_eq!(told.tags.len(), 3);
    assert_eq!(told.error, None);
    assert_eq!(store_resolution_report(Ok(None), reason), None);
    let failed = store_resolution_report(Err("locked".to_string()), reason).expect("a report");
    assert_eq!(failed.message, "failed to update MCP OAuth store resolution diagnostics");
    assert_eq!(failed.error, Some("locked".to_string()));
    assert!(failed.tags.is_empty());
}

#[test]
fn left_out_parts_are_those_of_a_new_state() {
    assert_eq!(ResolutionState::from_parts(None, None), ResolutionState::default());
    assert_eq!(ResolutionState::from_parts(Some(3), None).version, 3);
}
