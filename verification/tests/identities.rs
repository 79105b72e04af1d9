use hyprland_identity::address::parse_address;
use hyprland_identity::capture::{resolve_capture_address, resolve_from_clients};
use hyprland_identity::identity::{live_identities, WindowIdentity};
use hyprland_identity::records::{ActiveWindow, Client, Monitor, Window, Workspace};
use hyprland_identity::refusal::{Query, Refusal};
use hyprland_identity::registry::TrustedWindowIdentities;
use hyprland_identity::windows::{
    active_workspaces, list_windows, matching_window, window_for_address, window_for_app_id,
    window_for_pid, window_for_title, windows_from_clients,
};
use std::collections::HashSet;

fn client(address: &str, pid: i64, title: &str, class: &str) -> Client {
    Client {
        address: address.to_owned(),
        mapped: true,
        hidden: false,
        pid,
        title: title.to_owned(),
        class: class.to_owned(),
        initial_class: class.to_owned(),
        at: [10, 20],
        size: [800, 600],
        workspace: Workspace { id: 1 },
        initial_title: title.to_owned(),
        stable_id: format!("stable-{address}"),
    }
}

fn identity(address: u64, stable_id: &str) -> WindowIdentity {
    WindowIdentity {
        address,
        stable_id: stable_id.to_owned(),
        pid: 42,
        initial_class: "fixture".to_owned(),
        initial_title: "Target".to_owned(),
    }
}

fn shows(id: i64) -> Monitor {
    Monitor {
        active_workspace: Workspace { id },
        x: 0,
        y: 0,
        width: 1920,
        height: 1080,
        scaled: Some((1920, 1080)),
        transform: 0,
    }
}

#[test]
fn parses_full_hyprland_pointer_address() {
    assert_eq!(parse_address("0x55b5cd9af330"), Some(0x55b5cd9af330));
    assert_eq!(parse_address("invalid"), None);
}

#[test]
fn address_prefixes_signs_and_limits() {
    assert_eq!(parse_address("1111"), Some(0x1111));
    assert_eq!(parse_address("0x0x1F"), Some(0x1f));
    assert_eq!(parse_address("0x+aB"), Some(0xab));
    assert_eq!(parse_address("+0xab"), None);
    assert_eq!(parse_address("0x-1"), None);
    assert_eq!(parse_address("0x"), None);
    assert_eq!(parse_address("0x+"), None);
    assert_eq!(parse_address(""), None);
    assert_eq!(parse_address(" 12"), None);
    assert_eq!(parse_address("0X12"), None);
    assert_eq!(parse_address("0xffffffffffffffff"), Some(u64::MAX));
    assert_eq!(parse_address("0x10000000000000000"), None);
    assert_eq!(parse_address("0x000000000000000000001"), Some(1));
}

#[test]
fn addresses_survive_being_written_and_read() {
    for address in [0u64, 9, 10, 15, 16, 0x55b5cd9af330, u64::MAX] {
        assert_eq!(parse_address(&format!("{address:x}")), Some(address));
        assert_eq!(parse_address(&format!("0x{address:x}")), Some(address));
    }
}

#[test]
fn identity_requires_pid_title_and_app_id() {
    let clients = [
        client("0x1111", 42, "Target", "fixture"),
        client("0x2222", 43, "Target", "fixture"),
        client("0x3333", 42, "Other", "fixture"),
    ];
    assert_eq!(
        resolve_from_clients(&clients, 0xff00, 42, "Target", "fixture").unwrap(),
        0x1111
    );
}

#[test]
fn ambiguous_pid_owned_siblings_fail_closed() {
    let clients = [
        client("0x1111", 42, "Target", "fixture"),
        client("0x2222", 42, "Target", "fixture"),
    ];
    let error = resolve_from_clients(&clients, 0xff00, 42, "Target", "fixture")
        .expect_err("duplicate identities must not be guessed");
    assert!(error.message().contains("ambiguous"));
}

#[test]
fn exact_hyprland_address_wins_within_verified_pid() {
    let clients = [
        client("0x1111", 42, "First", "fixture"),
        client("0x2222", 42, "Second", "fixture"),
    ];
    assert_eq!(
        resolve_from_clients(&clients, 0x2222, 42, "stale", "stale").unwrap(),
        0x2222
    );
}

#[test]
fn compositor_metadata_preserves_geometry_and_workspace_visibility() {
    let mut visible = client("0x1111", 42, "Target", "fixture");
    visible.at = [-20, 30];
    visible.size = [940, 780];
    visible.workspace.id = 7;
    let mut hidden = client("0x2222", 43, "Hidden", "fixture");
    hidden.workspace.id = 8;

    let windows = windows_from_clients(&[visible, hidden], &HashSet::from([7]));
    assert_eq!(
        windows[0],
        Window {
            address: 0x1111,
            pid: 42,
            title: "Target".to_owned(),
            app_id: "fixture".to_owned(),
            x: -20,
            y: 30,
            width: 940,
            height: 780,
            workspace: 7,
            visible: true,
        }
    );
    assert!(!windows[1].visible);
}

#[test]
fn accessibility_matching_uses_pid_then_unique_title() {
    let windows = windows_from_clients(
        &[
            client("0x1111", 42, "Main", "fixture"),
            client("0x2222", 42, "Child", "fixture"),
            client("0x3333", 43, "Main", "fixture"),
        ],
        &HashSet::from([1]),
    );
    assert_eq!(
        matching_window(&windows, 42, "Main", "fixture").map(|window| window.address),
        Some(0x1111)
    );
    assert!(matching_window(&windows, 42, "Unknown", "fixture").is_none());
    assert!(matching_window(&windows, 44, "Main", "fixture").is_none());
}

#[test]
fn matching_falls_back_to_app_id_and_to_the_only_window() {
    let windows = windows_from_clients(
        &[
            client("0x1111", 42, "Main", "editor"),
            client("0x2222", 42, "Main", "viewer"),
            client("0x3333", 43, "Sole", "viewer"),
        ],
        &HashSet::new(),
    );
    let found = |pid: u32, title: &str, app_id: &str| {
        matching_window(&windows, pid, title, app_id).map(|window| window.address)
    };
    assert_eq!(found(42, "Main", "viewer"), Some(0x2222));
    assert_eq!(found(42, "", "editor"), Some(0x1111));
    assert_eq!(found(42, "", ""), None);
    assert_eq!(found(42, "Main", "none"), None);
    assert_eq!(found(43, "Unknown", "unknown"), Some(0x3333));
}

#[test]
fn malformed_process_or_size_metadata_fails_closed() {
    let mut invalid_pid = client("0x1111", -1, "Bad", "fixture");
    invalid_pid.size = [800, 600];
    let mut invalid_size = client("0x2222", 42, "Target", "fixture");
    invalid_size.size = [-1, 600];

    let windows = windows_from_clients(&[invalid_pid, invalid_size], &HashSet::from([1]));
    assert_eq!(windows.len(), 1);
    assert_eq!(windows[0].width, 0);
}

#[test]
fn unmapped_unaddressed_and_hidden_clients() {
    let mut unmapped = client("0x1", 42, "a", "b");
    unmapped.mapped = false;
    let unaddressed = client("nowhere", 42, "a", "b");
    let no_process = client("0x2", 0, "a", "b");
    let large_process = client("0x3", 4_294_967_296, "a", "b");
    let mut hidden = client("0x4", 4_294_967_295, "a", "b");
    hidden.hidden = true;
    let windows = windows_from_clients(
        &[unmapped, unaddressed, no_process, large_process, hidden],
        &HashSet::from([1]),
    );
    assert_eq!(windows.len(), 1);
    assert_eq!(windows[0].pid, u32::MAX);
    assert!(!windows[0].visible);
}

#[test]
fn shown_workspaces_leave_out_zero() {
    let ids = active_workspaces(&[shows(3), shows(0), shows(-99), shows(3)]);
    assert_eq!(ids, HashSet::from([3, -99]));
}

#[test]
fn identities_come_from_clients_and_active_windows() {
    let mut classless = client("0x1111", 42, "Target", "fixture");
    classless.initial_class = String::new();
    classless.mapped = false;
    let live = live_identities(&[classless, client("0x2222", 0, "a", "b"), client("?", 1, "a", "b")]);
    assert_eq!(live.len(), 1);
    assert_eq!(live[0].initial_class, "fixture");

    let active = ActiveWindow {
        address: "0x1111".to_owned(),
        pid: Some(42),
        class: "fixture".to_owned(),
        initial_class: String::new(),
        initial_title: "Target".to_owned(),
        stable_id: "stable-0x1111".to_owned(),
    };
    assert!(active.identity().unwrap().same(&live[0]));
    assert!(ActiveWindow { pid: Some(0), ..active_like(&active) }.identity().is_none());
    assert!(ActiveWindow { pid: None, ..active_like(&active) }.identity().is_none());
    assert!(ActiveWindow { address: String::new(), ..active_like(&active) }.identity().is_none());
}

fn active_like(active: &ActiveWindow) -> ActiveWindow {
    ActiveWindow {
        address: active.address.clone(),
        pid: active.pid,
        class: active.class.clone(),
        initial_class: active.initial_class.clone(),
        initial_title: active.initial_title.clone(),
        stable_id: active.stable_id.clone(),
    }
}

#[test]
fn trusted_identity_registry_trusts_initial_snapshot() {
    let mut registry = TrustedWindowIdentities::default();
    registry.observe_snapshot(&[identity(0x1111, "first")]);
    assert_eq!(registry.trusted(0x1111, 42).unwrap().stable_id, "first");
}

#[test]
fn trusted_identity_registry_guards_reuse_across_disappearance() {
    let mut registry = TrustedWindowIdentities::default();
    registry.observe_snapshot(&[identity(0x1111, "first")]);
    registry.observe_snapshot(&[]);
    let error = registry
        .trusted(0x1111, 42)
        .expect_err("an absent address must remain unavailable");
    assert!(error.message().contains("not currently live"));

    registry.observe_snapshot(&[identity(0x1111, "replacement")]);
    let error = registry
        .trusted(0x1111, 42)
        .expect_err("the first replacement after absence must remain untrusted");
    assert!(error
        .message()
        .contains("pending identity rebind confirmation"));

    registry.observe_snapshot(&[identity(0x1111, "replacement")]);
    assert_eq!(
        registry.trusted(0x1111, 42).unwrap().stable_id,
        "replacement"
    );
}

#[test]
fn trusted_identity_registry_recovers_same_identity_after_omission() {
    let mut registry = TrustedWindowIdentities::default();
    registry.observe_snapshot(&[identity(0x1111, "first")]);
    registry.observe_snapshot(&[]);
    registry.observe_snapshot(&[identity(0x1111, "first")]);

    assert_eq!(registry.trusted(0x1111, 42).unwrap().stable_id, "first");
}

#[test]
fn trusted_identity_registry_recovers_after_confirmed_rebind() {
    let mut registry = TrustedWindowIdentities::default();
    registry.observe_snapshot(&[identity(0x1111, "first")]);

    registry.observe_snapshot(&[identity(0x1111, "replacement")]);
    let error = registry
        .trusted(0x1111, 42)
        .expect_err("the first recycled-address observation must remain untrusted");
    assert!(error
        .message()
        .contains("pending identity rebind confirmation"));

    registry.observe_snapshot(&[identity(0x1111, "replacement")]);
    assert_eq!(
        registry.trusted(0x1111, 42).unwrap().stable_id,
        "replacement"
    );
}

#[test]
fn trusted_identity_registry_restarts_grace_after_repeated_reuse() {
    let mut registry = TrustedWindowIdentities::default();
    registry.observe_snapshot(&[identity(0x1111, "first")]);
    registry.observe_snapshot(&[identity(0x1111, "second")]);
    registry.observe_snapshot(&[identity(0x1111, "third")]);

    let error = registry
        .trusted(0x1111, 42)
        .expect_err("a different identity must restart pending confirmation");
    assert!(error
        .message()
        .contains("pending identity rebind confirmation"));

    registry.observe_snapshot(&[identity(0x1111, "third")]);
    assert_eq!(registry.trusted(0x1111, 42).unwrap().stable_id, "third");

    registry.observe_snapshot(&[identity(0x1111, "fourth")]);
    assert!(registry.trusted(0x1111, 42).is_err());
}

#[test]
fn registry_refusals_name_their_reason() {
    let mut registry = TrustedWindowIdentities::default();
    assert_eq!(
        registry.trusted(0x1111, 42).unwrap_err().message(),
        "foreground_unavailable: unknown Hyprland window address 0x1111; call list_windows first"
    );
    registry.observe_snapshot(&[identity(0x1111, "first")]);
    assert_eq!(
        registry.trusted(0x1111, 7).unwrap_err().message(),
        "foreground_unavailable: Hyprland window 0x1111 belongs to pid 42, not pid 7"
    );
    registry.observe_snapshot(&[identity(0x1111, "first"), identity(0x1111, "second")]);
    assert_eq!(
        registry.trusted(0x1111, 42).unwrap_err().message(),
        "foreground_unavailable: Hyprland reported conflicting identities for address 0x1111"
    );
}

#[test]
fn conflicts_are_forgotten_when_the_address_leaves() {
    let mut registry = TrustedWindowIdentities::default();
    registry.observe_snapshot(&[
        identity(0x1111, "first"),
        identity(0x1111, "second"),
        identity(0x1111, "first"),
        identity(0x2222, "other"),
        identity(0x2222, "other"),
    ]);
    assert_eq!(
        registry.trusted(0x1111, 42).unwrap_err(),
        Refusal::ConflictingIdentities { address: 0x1111 }
    );
    assert_eq!(registry.trusted(0x2222, 42).unwrap().stable_id, "other");

    registry.observe_snapshot(&[]);
    assert_eq!(
        registry.trusted(0x1111, 42).unwrap_err(),
        Refusal::UnknownAddress { address: 0x1111 }
    );
    registry.observe_snapshot(&[identity(0x1111, "third")]);
    assert_eq!(registry.trusted(0x1111, 42).unwrap().stable_id, "third");
}

#[test]
fn a_window_after_a_conflict_waits_for_confirmation() {
    let mut registry = TrustedWindowIdentities::default();
    registry.observe_snapshot(&[identity(0x1111, "first"), identity(0x1111, "second")]);
    registry.observe_snapshot(&[identity(0x1111, "first")]);
    assert_eq!(
        registry.trusted(0x1111, 42).unwrap_err(),
        Refusal::PendingRebind { address: 0x1111 }
    );
    registry.observe_snapshot(&[identity(0x1111, "first")]);
    assert!(registry.trusted(0x1111, 42).is_ok());
    registry.observe_snapshot(&[identity(0x1111, "first")]);
    assert!(registry.trusted(0x1111, 42).is_ok());
}

#[test]
fn a_long_absence_does_not_loosen_the_guard() {
    let mut registry = TrustedWindowIdentities::default();
    registry.observe_snapshot(&[identity(0x1111, "first")]);
    for _ in 0..3 {
        registry.observe_snapshot(&[]);
    }
    registry.observe_snapshot(&[identity(0x1111, "second")]);
    registry.observe_snapshot(&[]);
    registry.observe_snapshot(&[identity(0x1111, "third")]);
    assert_eq!(
        registry.trusted(0x1111, 42).unwrap_err(),
        Refusal::PendingRebind { address: 0x1111 }
    );
}

#[test]
fn listing_registers_windows_and_passes_failures_on() {
    let mut registry = TrustedWindowIdentities::default();
    let clients = || {
        vec![
            client("0x1111", 42, "Main", "editor"),
            client("0x2222", 42, "Child", "editor"),
            client("0x3333", 43, "Other", "viewer"),
        ]
    };
    assert_eq!(
        list_windows(false, Ok(vec![shows(1)]), Ok(clients()), &mut registry).unwrap_err(),
        Refusal::NotHyprlandSession
    );
    assert_eq!(
        list_windows(
            true,
            Err(Refusal::QueryFailed(Query::Monitors)),
            Err(Refusal::QueryNotLaunched(Query::Clients)),
            &mut registry
        )
        .unwrap_err()
        .message(),
        "hyprctl -j monitors failed"
    );
    assert_eq!(
        list_windows(
            true,
            Ok(vec![]),
            Err(Refusal::QueryNotParsed(Query::Clients)),
            &mut registry
        )
        .unwrap_err()
        .message(),
        "parse hyprctl clients JSON"
    );
    assert_eq!(
        registry.trusted(0x1111, 42).unwrap_err(),
        Refusal::UnknownAddress { address: 0x1111 }
    );

    let windows = list_windows(true, Ok(vec![shows(1)]), Ok(clients()), &mut registry).unwrap();
    assert_eq!(windows.len(), 3);
    assert!(windows.iter().all(|window| window.visible));
    assert!(registry.trusted(0x1111, 42).is_ok());
    assert!(registry.trusted(0x3333, 43).is_ok());
}

#[test]
fn single_windows_are_found_by_each_key() {
    let mut registry = TrustedWindowIdentities::default();
    let clients = || {
        Ok(vec![
            client("0x1111", 42, "Main", "editor"),
            client("0x2222", 42, "Child", "editor"),
            client("0x3333", 43, "Other", "viewer"),
            client("0x3333", 44, "Twin", ""),
        ])
    };
    let monitors = || Ok(vec![shows(1)]);
    let key = |window: Option<Window>| window.map(|window| (window.address, window.pid));

    let found = window_for_address(true, monitors(), clients(), &mut registry, 0x3333);
    assert_eq!(key(found), Some((0x3333, 43)));
    assert_eq!(
        registry.trusted(0x3333, 43).unwrap_err(),
        Refusal::ConflictingIdentities { address: 0x3333 }
    );
    assert!(window_for_address(true, monitors(), clients(), &mut registry, 0x4444).is_none());
    assert!(window_for_address(false, monitors(), clients(), &mut registry, 0x1111).is_none());

    let found = window_for_pid(true, monitors(), clients(), &mut registry, 43);
    assert_eq!(key(found), Some((0x3333, 43)));
    assert!(window_for_pid(true, monitors(), clients(), &mut registry, 42).is_none());

    let found = window_for_title(true, monitors(), clients(), &mut registry, "Child");
    assert_eq!(key(found), Some((0x2222, 42)));
    assert!(window_for_title(true, monitors(), clients(), &mut registry, "").is_none());

    let found = window_for_app_id(true, monitors(), clients(), &mut registry, "viewer");
    assert_eq!(key(found), Some((0x3333, 43)));
    assert!(window_for_app_id(true, monitors(), clients(), &mut registry, "editor").is_none());
    assert!(window_for_app_id(true, monitors(), clients(), &mut registry, "").is_none());
}

#[test]
fn capture_rules_and_refusals() {
    let clients = || {
        let mut hidden = client("0x4444", 42, "Hidden", "fixture");
        hidden.hidden = true;
        vec![
            client("0x1111", 42, "First", "fixture"),
            client("0x2222", 42, "Second", "other"),
            client("0x3333", 43, "Third", "fixture"),
            hidden,
        ]
    };
    let resolve = |id: u64, title: &str, app_id: &str| {
        resolve_capture_address(true, Ok(clients()), id, Some(42), title, app_id)
    };
    assert_eq!(resolve(0, "First", ""), Ok(0x1111));
    assert_eq!(resolve(0, "", "other"), Ok(0x2222));
    assert_eq!(resolve(0, "", "fixture"), Ok(0x1111));
    assert_eq!(
        resolve(0, "First", "other").unwrap_err().message(),
        "no mapped Hyprland client owned by PID 42 matched title/app-id"
    );
    assert_eq!(resolve(0x3333, "", ""), Err(Refusal::NoCaptureMatch { pid: 42 }));
    assert_eq!(resolve(0x4444, "Hidden", ""), Err(Refusal::NoCaptureMatch { pid: 42 }));
    assert_eq!(
        resolve_capture_address(false, Ok(clients()), 0x1111, None, "", ""),
        Err(Refusal::NotHyprlandSession)
    );
    assert_eq!(
        resolve_capture_address(true, Ok(clients()), 0x1111, None, "", "")
            .unwrap_err()
            .message(),
        "Hyprland capture requires a verified target PID"
    );
    assert_eq!(
        resolve_capture_address(true, Err(Refusal::QueryFailed(Query::Clients)), 1, Some(1), "", ""),
        Err(Refusal::QueryFailed(Query::Clients))
    );
    let twins = [
        client("0x1", 42, "Target", "fixture"),
        client("0x2", 42, "Target", "fixture"),
        client("0x3", 42, "Target", "fixture"),
    ];
    assert_eq!(
        resolve_from_clients(&twins, 0xff00, 42, "Target", "fixture").unwrap_err().message(),
        "Hyprland capture identity is ambiguous: 3 PID-owned clients matched title/app-id"
    );
}

#[test]
fn a_pending_window_is_trusted_when_it_comes_back() {
    let mut registry = TrustedWindowIdentities::default();
    registry.observe_snapshot(&[identity(0x1111, "first")]);
    registry.observe_snapshot(&[identity(0x1111, "second")]);
    registry.observe_snapshot(&[]);
    registry.observe_snapshot(&[]);
    registry.observe_snapshot(&[identity(0x1111, "second")]);
    assert_eq!(registry.trusted(0x1111, 42).unwrap().stable_id, "second");
}

#[test]
fn a_conflict_in_between_does_not_loosen_the_guard() {
    let mut registry = TrustedWindowIdentities::default();
    registry.observe_snapshot(&[identity(0x1111, "first")]);
    registry.observe_snapshot(&[identity(0x1111, "first"), identity(0x1111, "second")]);
    registry.observe_snapshot(&[identity(0x1111, "second")]);
    registry.observe_snapshot(&[]);
    registry.observe_snapshot(&[identity(0x1111, "third")]);
    assert_eq!(
        registry.trusted(0x1111, 42).unwrap_err(),
        Refusal::PendingRebind { address: 0x1111 }
    );
}

#[test]
fn siblings_are_not_guessed_between() {
    let windows = windows_from_clients(
        &[
            client("0x1", 42, "Other", "one"),
            client("0x2", 42, "Main", "two"),
            client("0x3", 42, "Main", "two"),
        ],
        &HashSet::new(),
    );
    assert!(matching_window(&windows, 42, "Main", "two").is_none());
    assert!(matching_window(&windows, 42, "Main", "none").is_none());
    assert_eq!(
        matching_window(&windows, 42, "Main", "one").map(|window| window.address),
        Some(0x1)
    );
}
