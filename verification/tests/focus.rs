use hyprland_identity::command::{
    accepted, check_query, command_detail, command_error, cursor_moved, hyprctl_binary, is_session,
    legacy_focus_arguments, lua_focus_arguments, move_cursor, query_arguments, CommandReply,
};
use hyprland_identity::focus::{
    begin_temporary_focus, check_target_visible, focus_identity, focus_restore_decision,
    live_with_target, target_client, target_identity, verified_prior_identity,
    wait_for_focused_identity, FocusLease, FocusRestoreDecision,
};
use hyprland_identity::identity::WindowIdentity;
use hyprland_identity::outcome::{describe_quoted_identity, FocusFailure, Outcome};
use hyprland_identity::records::{ActiveWindow, Client, Monitor, Workspace};
use hyprland_identity::refusal::{Query, Refusal};
use hyprland_identity::registry::TrustedWindowIdentities;
use hyprland_identity::transaction::{with_focused_window, Action, Event, FocusTransaction};

fn identity(address: u64, stable_id: &str) -> WindowIdentity {
    WindowIdentity {
        address,
        stable_id: stable_id.to_owned(),
        pid: 42,
        initial_class: "fixture".to_owned(),
        initial_title: "Target".to_owned(),
    }
}

fn client(address: u64, stable_id: &str) -> Client {
    Client {
        address: format!("0x{address:x}"),
        mapped: true,
        hidden: false,
        pid: 42,
        title: "Now".to_owned(),
        class: "now".to_owned(),
        initial_class: "fixture".to_owned(),
        at: [0, 0],
        size: [800, 600],
        workspace: Workspace { id: 1 },
        initial_title: "Target".to_owned(),
        stable_id: stable_id.to_owned(),
    }
}

fn active(address: u64, stable_id: &str) -> ActiveWindow {
    ActiveWindow {
        address: format!("0x{address:x}"),
        pid: Some(42),
        class: "now".to_owned(),
        initial_class: "fixture".to_owned(),
        initial_title: "Target".to_owned(),
        stable_id: stable_id.to_owned(),
    }
}

fn nothing_active() -> ActiveWindow {
    ActiveWindow {
        address: String::new(),
        pid: None,
        class: String::new(),
        initial_class: String::new(),
        initial_title: String::new(),
        stable_id: String::new(),
    }
}

fn shows(id: i64) -> Monitor {
    Monitor {
        active_workspace: Workspace { id },
        x: 0,
        y: 0,
        width: 1,
        height: 1,
        scaled: Some((1, 1)),
        transform: 0,
    }
}

fn reply(success: bool, stdout: &str, stderr: &str) -> CommandReply {
    CommandReply {
        success,
        stdout: stdout.as_bytes().to_vec(),
        stderr: stderr.as_bytes().to_vec(),
        status: "exit status: 1".to_owned(),
    }
}

#[test]
fn temporary_focus_restore_skips_user_focus_takeover() {
    let target = identity(0x1111, "target");
    let prior = identity(0x2222, "prior");
    let user_target = identity(0x3333, "user");
    let lease = FocusLease {
        target,
        prior: Some(prior.clone()),
    };
    assert_eq!(
        focus_restore_decision(&lease, Some(&user_target), &[prior, user_target.clone()]),
        FocusRestoreDecision::ActiveFocusChanged
    );
}

#[test]
fn temporary_focus_restore_refuses_reused_prior_address() {
    let target = identity(0x1111, "target");
    let prior = identity(0x2222, "prior");
    let replacement = identity(0x2222, "replacement");
    let lease = FocusLease {
        target: target.clone(),
        prior: Some(prior),
    };
    assert_eq!(
        focus_restore_decision(&lease, Some(&target), &[target.clone(), replacement]),
        FocusRestoreDecision::PriorWindowUnavailable
    );
}

#[test]
fn temporary_focus_restore_requires_target_to_still_own_focus() {
    let target = identity(0x1111, "target");
    let prior = identity(0x2222, "prior");
    let lease = FocusLease {
        target: target.clone(),
        prior: Some(prior.clone()),
    };
    assert_eq!(
        focus_restore_decision(&lease, Some(&target), &[target.clone(), prior.clone()]),
        FocusRestoreDecision::Restore(prior)
    );
}

#[test]
fn restore_without_a_prior_window_or_an_active_one() {
    let target = identity(0x1111, "target");
    let lease = FocusLease { target: target.clone(), prior: None };
    assert_eq!(
        focus_restore_decision(&lease, Some(&target), &[]),
        FocusRestoreDecision::NoPriorFocus
    );
    assert_eq!(
        focus_restore_decision(&lease, None, &[]),
        FocusRestoreDecision::ActiveFocusChanged
    );
    let held = FocusLease { target: target.clone(), prior: Some(identity(0x2222, "prior")) };
    assert_eq!(
        focus_restore_decision(&held, Some(&target), &[]),
        FocusRestoreDecision::PriorWindowUnavailable
    );
    // Another window listed first at the address stands in the way.
    assert_eq!(
        focus_restore_decision(
            &held,
            Some(&target),
            &[identity(0x2222, "other"), identity(0x2222, "prior")]
        ),
        FocusRestoreDecision::PriorWindowUnavailable
    );
}

#[test]
fn prior_windows_are_live_and_not_the_target() {
    let target = identity(0x1111, "target");
    let prior = identity(0x2222, "prior");
    let live = [target.clone(), prior.clone()];
    assert_eq!(
        verified_prior_identity(Some(prior.clone()), &target, &live),
        Some(prior.clone())
    );
    assert_eq!(verified_prior_identity(Some(target.clone()), &target, &live), None);
    assert_eq!(verified_prior_identity(None, &target, &live), None);
    assert_eq!(verified_prior_identity(Some(prior), &target, &[]), None);
}

#[test]
fn leases_need_a_verifiable_active_window() {
    let target = identity(0x1111, "target");
    let live = [target.clone(), identity(0x2222, "prior")];
    let begin = |window: &ActiveWindow| begin_temporary_focus(target.clone(), &live, window);
    assert_eq!(begin(&active(0x2222, "prior")).unwrap().prior, Some(identity(0x2222, "prior")));
    assert_eq!(begin(&active(0x1111, "target")).unwrap().prior, None);
    assert_eq!(begin(&nothing_active()).unwrap().prior, None);
    let blank = ActiveWindow { address: " \t\u{3000}".to_owned(), ..nothing_active() };
    assert_eq!(begin(&blank).unwrap().prior, None);
    let nameless = ActiveWindow { pid: None, ..active(0x2222, "prior") };
    assert_eq!(
        begin(&nameless).unwrap_err().message(),
        "foreground_unavailable: Hyprland active window had no verifiable identity"
    );
    assert_eq!(
        begin(&active(0x3333, "stranger")).unwrap_err().message(),
        "foreground_unavailable: Hyprland active window identity was not live"
    );
}

#[test]
fn waiting_for_the_focus() {
    let target = identity(0x1111, "target");
    let failed = || Err(Refusal::QueryFailed(Query::ActiveWindow));
    assert_eq!(wait_for_focused_identity(&target, &Ok(active(0x1111, "target")), 9999), Ok(true));
    assert_eq!(wait_for_focused_identity(&target, &Ok(active(0x2222, "prior")), 499), Ok(false));
    assert_eq!(wait_for_focused_identity(&target, &Ok(nothing_active()), 0), Ok(false));
    assert_eq!(wait_for_focused_identity(&target, &failed(), 499), Ok(false));
    assert_eq!(
        wait_for_focused_identity(&target, &failed(), 500).unwrap_err().message(),
        "Hyprland did not focus window 0x1111 within 500ms"
    );
    assert_eq!(
        wait_for_focused_identity(&target, &Ok(active(0x1111, "other")), 0)
            .unwrap_err()
            .message(),
        "Hyprland address 0x1111 was reused by a different window while focusing"
    );
}

#[test]
fn sessions_are_recognised() {
    assert!(is_session(true, Some("Hyprland")));
    assert!(is_session(true, Some("wlroots:HYPRLAND:x")));
    assert!(!is_session(true, Some("hypr land")));
    assert!(!is_session(true, Some("hyprlan")));
    assert!(!is_session(true, None));
    assert!(!is_session(false, Some("hyprland")));
}

#[test]
fn command_lines() {
    assert_eq!(hyprctl_binary(true), "/usr/bin/hyprctl");
    assert_eq!(hyprctl_binary(false), "hyprctl");
    assert_eq!(query_arguments(Query::ActiveWindow), ["-j", "activewindow"]);
    assert_eq!(query_arguments(Query::Clients), ["-j", "clients"]);
    assert_eq!(query_arguments(Query::Monitors), ["-j", "monitors"]);
    assert_eq!(
        move_cursor(true, -2147483648, 1080).unwrap(),
        ["dispatch", "movecursor", "-2147483648", "1080"]
    );
    assert_eq!(move_cursor(true, 0, -7).unwrap(), ["dispatch", "movecursor", "0", "-7"]);
    assert_eq!(move_cursor(false, 0, 0), Err(Refusal::NotHyprlandSession));
    assert_eq!(
        lua_focus_arguments(0x55b5cd9af330),
        ["dispatch", "hl.dsp.focus({ window = \"address:0x55b5cd9af330\" })"]
    );
    assert_eq!(
        legacy_focus_arguments(0xa0),
        ["dispatch", "focuswindow", "address:0xa0"]
    );
}

#[test]
fn replies() {
    assert!(accepted(&reply(true, "ok\n", "")));
    assert!(!accepted(&reply(false, "ok", "")));
    assert!(!accepted(&reply(true, "o", "")));
    assert!(!accepted(&reply(true, "no ok", "")));
    assert_eq!(cursor_moved(Some(&reply(true, "ok", ""))), Ok(()));
    assert_eq!(
        cursor_moved(Some(&reply(true, "invalid", ""))).unwrap_err().message(),
        "hyprctl dispatch movecursor failed"
    );
    assert_eq!(
        cursor_moved(None).unwrap_err().message(),
        "launch hyprctl dispatch movecursor"
    );
    assert_eq!(check_query(Query::Clients, Some(&reply(true, "[]", ""))), Ok(()));
    assert_eq!(
        check_query(Query::Clients, Some(&reply(true, "", ""))).unwrap_err().message(),
        "hyprctl -j clients failed"
    );
    assert_eq!(
        check_query(Query::Monitors, Some(&reply(false, "[]", ""))),
        Err(Refusal::QueryFailed(Query::Monitors))
    );
    assert_eq!(
        check_query(Query::Clients, None).unwrap_err().message(),
        "launch hyprctl -j clients"
    );
}

#[test]
fn failed_commands_are_described() {
    assert_eq!(command_error(&reply(false, "out", "  err \n")), "err");
    assert_eq!(command_error(&reply(false, "\u{a0}out put\n", " \n")), "out put");
    assert_eq!(command_error(&reply(false, " ", "")), "exit status exit status: 1");
    let mut broken = reply(false, "", "");
    broken.stderr = vec![b'a', 0xff, b'b'];
    assert_eq!(command_error(&broken), "a\u{fffd}b");
    broken.stderr = "  \u{e9}t\u{e9}\n".as_bytes().to_vec();
    broken.stdout = vec![0xff];
    assert_eq!(command_error(&broken), "\u{e9}t\u{e9}");
    assert_eq!(command_detail("", "", "signal: 9"), "exit status signal: 9");
}

#[test]
fn outcomes_are_described() {
    let cause = || FocusFailure::Refused(Refusal::StaleFocus { address: 0x1111 });
    assert_eq!(Outcome::Value.message(), None);
    assert_eq!(Outcome::BodyFailed.message(), None);
    assert_eq!(
        Outcome::Failed(cause()).message().unwrap(),
        "refusing to focus stale or reused Hyprland address 0x1111"
    );
    let quoted = WindowIdentity { stable_id: "a\"b\\c".to_owned(), ..identity(0x10, "") };
    let decision = FocusRestoreDecision::Restore(quoted);
    let expected =
        format!("guarded rollback after failed Hyprland focus completed with {decision:?}");
    assert_eq!(
        expected,
        "guarded rollback after failed Hyprland focus completed with Restore(WindowIdentity { \
         address: 16, stable_id: \"a\\\"b\\\\c\", pid: 42, initial_class: \"fixture\", \
         initial_title: \"Target\" })"
    );
    assert_eq!(Outcome::RolledBack { cause: cause(), decision }.message().unwrap(), expected);
    for decision in [
        FocusRestoreDecision::NoPriorFocus,
        FocusRestoreDecision::ActiveFocusChanged,
        FocusRestoreDecision::PriorWindowUnavailable,
    ] {
        let expected =
            format!("guarded rollback after failed Hyprland focus completed with {decision:?}");
        assert_eq!(Outcome::RolledBack { cause: cause(), decision }.message().unwrap(), expected);
    }
    assert_eq!(
        Outcome::RollbackFailed {
            cause: cause(),
            rollback: FocusFailure::Refused(Refusal::QueryFailed(Query::Clients)),
        }
        .message()
        .unwrap(),
        "guarded rollback after failed Hyprland focus also failed: hyprctl -j clients failed"
    );
    assert_eq!(
        Outcome::BodyAndRestoreFailed {
            restore: FocusFailure::DispatchFailed { lua: "x".to_owned(), legacy: "y".to_owned() },
        }
        .message()
        .unwrap(),
        "the prior Hyprland focus also could not be restored: Hyprland focus dispatch failed \
         (Lua: x; legacy: y)"
    );
    assert_eq!(
        describe_quoted_identity(1, "s", 2, "c", "t"),
        "WindowIdentity { address: 1, stable_id: s, pid: 2, initial_class: c, initial_title: t }"
    );
}

/// A compositor with a focus that dispatches move, and scripted faults.
struct Desk {
    clients: Vec<(u64, String)>,
    focus: Option<usize>,
    lua: bool,
    legacy: bool,
    stuck: bool,
    takeover: Option<usize>,
    body_ok: bool,
    bodies: usize,
    dispatches: Vec<Vec<String>>,
    fail_reads_after_body: bool,
}

impl Desk {
    fn new() -> Desk {
        Desk {
            clients: vec![(0x1111, "target".to_owned()), (0x2222, "prior".to_owned())],
            focus: Some(1),
            lua: true,
            legacy: true,
            stuck: false,
            takeover: None,
            body_ok: true,
            bodies: 0,
            dispatches: vec![],
            fail_reads_after_body: false,
        }
    }

    fn active(&self) -> ActiveWindow {
        match self.focus {
            Some(i) => active(self.clients[i].0, &self.clients[i].1),
            None => nothing_active(),
        }
    }

    fn clients(&self) -> Vec<Client> {
        self.clients.iter().map(|(address, id)| client(*address, id)).collect()
    }

    fn run(&mut self, registry: &TrustedWindowIdentities) -> Outcome {
        let (mut transaction, mut action): (FocusTransaction, Action) =
            with_focused_window(registry, 42, 0x1111);
        let mut waited: u64 = 0;
        for _ in 0..200 {
            let event = match action {
                Action::Read(Query::Clients) => Event::Clients(Ok(self.clients())),
                Action::Read(Query::Monitors) => Event::Monitors(Ok(vec![shows(1)])),
                Action::Read(Query::ActiveWindow) => {
                    if self.fail_reads_after_body && self.bodies > 0 {
                        Event::Active(Err(Refusal::QueryFailed(Query::ActiveWindow)))
                    } else {
                        Event::Active(Ok(self.active()))
                    }
                }
                Action::Poll { pause_millis } => {
                    waited += pause_millis;
                    Event::Polled { active: Ok(self.active()), waited_millis: waited }
                }
                Action::Dispatch(arguments) => {
                    waited = 0;
                    let taken = if arguments.len() == 2 { self.lua } else { self.legacy };
                    if taken && !self.stuck {
                        let to = self
                            .clients
                            .iter()
                            .position(|(address, _)| arguments.last().unwrap().contains(&format!("0x{address:x}")));
                        self.focus = to;
                    }
                    self.dispatches.push(arguments);
                    Event::Dispatched(Some(if taken { reply(true, "ok", "") } else { reply(true, "", "unknown") }))
                }
                Action::RunBody => {
                    self.bodies += 1;
                    if self.takeover.is_some() {
                        self.focus = self.takeover;
                    }
                    Event::BodyDone { ok: self.body_ok }
                }
                Action::Finish(outcome) => return outcome,
            };
            assert!(transaction.is_answered_by(&event));
            (transaction, action) = transaction.step(event);
        }
        panic!("the transaction did not end");
    }
}

fn trusting() -> TrustedWindowIdentities {
    let mut registry = TrustedWindowIdentities::default();
    registry.observe_snapshot(&[identity(0x1111, "target"), identity(0x2222, "prior")]);
    registry
}

#[test]
fn a_transaction_gives_the_focus_back() {
    let mut desk = Desk::new();
    assert_eq!(desk.run(&trusting()), Outcome::Value);
    assert_eq!(desk.bodies, 1);
    assert_eq!(desk.focus, Some(1));
    assert_eq!(desk.dispatches, [lua_focus_arguments(0x1111), lua_focus_arguments(0x2222)]);

    let mut failing = Desk { body_ok: false, ..Desk::new() };
    assert_eq!(failing.run(&trusting()), Outcome::BodyFailed);
    assert_eq!(failing.focus, Some(1));
}

#[test]
fn a_transaction_falls_back_to_the_legacy_dispatch() {
    let mut desk = Desk { lua: false, ..Desk::new() };
    assert_eq!(desk.run(&trusting()), Outcome::Value);
    assert_eq!(desk.dispatches[1], legacy_focus_arguments(0x1111));
    assert_eq!(desk.focus, Some(1));
}

#[test]
fn a_user_takeover_is_not_overwritten() {
    let mut desk = Desk { takeover: Some(2), ..Desk::new() };
    desk.clients.push((0x3333, "user".to_owned()));
    assert_eq!(desk.run(&trusting()), Outcome::Value);
    assert_eq!(desk.focus, Some(2));
    assert_eq!(desk.dispatches.len(), 1);
}

#[test]
fn a_refused_dispatch_is_rolled_back() {
    let mut desk = Desk { lua: false, legacy: false, ..Desk::new() };
    assert_eq!(
        desk.run(&trusting()),
        Outcome::RolledBack {
            cause: FocusFailure::DispatchFailed {
                lua: "unknown".to_owned(),
                legacy: "unknown".to_owned(),
            },
            decision: FocusRestoreDecision::ActiveFocusChanged,
        }
    );
    assert_eq!(desk.bodies, 0);
}

#[test]
fn a_focus_that_never_arrives_times_out() {
    let mut desk = Desk { stuck: true, ..Desk::new() };
    assert_eq!(
        desk.run(&trusting()),
        Outcome::RolledBack {
            cause: FocusFailure::Refused(Refusal::FocusTimedOut { address: 0x1111 }),
            decision: FocusRestoreDecision::ActiveFocusChanged,
        }
    );
    assert_eq!(desk.bodies, 0);
}

#[test]
fn a_failed_restore_is_reported() {
    let restore = || FocusFailure::Refused(Refusal::QueryFailed(Query::ActiveWindow));
    let mut desk = Desk { fail_reads_after_body: true, ..Desk::new() };
    assert_eq!(desk.run(&trusting()), Outcome::Failed(restore()));
    let mut both = Desk { fail_reads_after_body: true, body_ok: false, ..Desk::new() };
    assert_eq!(both.run(&trusting()), Outcome::BodyAndRestoreFailed { restore: restore() });
}

#[test]
fn transactions_refuse_bad_targets() {
    let refusal = |outcome: Outcome| match outcome {
        Outcome::Failed(failure) => failure.message(),
        other => panic!("unexpected outcome {other:?}"),
    };
    assert_eq!(
        refusal(Desk::new().run(&TrustedWindowIdentities::default())),
        "foreground_unavailable: unknown Hyprland window address 0x1111; call list_windows first"
    );
    let mut replaced = Desk::new();
    replaced.clients[0].1 = "other".to_owned();
    assert_eq!(
        refusal(replaced.run(&trusting())),
        "foreground_unavailable: stale or reused Hyprland address 0x1111"
    );
}

#[test]
fn each_early_step_can_refuse() {
    let registry = trusting();
    let failed = |action: Action| match action {
        Action::Finish(Outcome::Failed(FocusFailure::Refused(refusal))) => refusal,
        _ => panic!("a refusal was expected"),
    };
    let found = || {
        let (transaction, _) = with_focused_window(&registry, 42, 0x1111);
        transaction.step(Event::Clients(Ok(vec![client(0x1111, "target")]))).0
    };
    let begun = || found().step(Event::Monitors(Ok(vec![shows(1)]))).0;

    assert_eq!(
        failed(found().step(Event::Monitors(Ok(vec![shows(2)]))).1),
        Refusal::TargetNotVisible { address: 0x1111 }
    );
    assert_eq!(
        failed(begun().step(Event::Clients(Ok(vec![client(0x1111, "other")]))).1).message(),
        "foreground_unavailable: Hyprland target changed identity before focus"
    );
    assert_eq!(
        failed(begun().step(Event::Clients(Err(Refusal::QueryFailed(Query::Clients)))).1),
        Refusal::QueryFailed(Query::Clients)
    );
    assert!(!found().is_answered_by(&Event::BodyDone { ok: true }));
}

#[test]
fn targets_are_found_and_checked() {
    let target = identity(0x1111, "target");
    let unmapped = Client { mapped: false, ..client(0x1111, "target") };
    let mut second = client(0x1111, "target");
    second.title = "Second".to_owned();
    let clients = [unmapped, client(0x1111, "other"), second, client(0x1111, "target")];
    assert_eq!(target_client(&clients, &target, 0x1111).unwrap().title, "Second");
    assert_eq!(
        target_client(&clients[..2], &target, 0x1111),
        Err(Refusal::StaleTarget { address: 0x1111 })
    );

    let shown = client(0x1111, "target");
    assert_eq!(check_target_visible(&shown, &[shows(2), shows(1)], 0x1111), Ok(()));
    let hidden = Client { hidden: true, ..client(0x1111, "target") };
    assert_eq!(
        check_target_visible(&hidden, &[shows(1)], 0x1111).unwrap_err().message(),
        "foreground_unavailable: Hyprland target 0x1111 is not visible on an active workspace"
    );
    let nowhere = Client { workspace: Workspace { id: 0 }, ..client(0x1111, "target") };
    assert_eq!(
        check_target_visible(&nowhere, &[shows(0)], 0x1111),
        Err(Refusal::TargetNotVisible { address: 0x1111 })
    );

    assert_eq!(target_identity(&shown), Ok(target.clone()));
    let unowned = Client { pid: 0, ..client(0x1111, "target") };
    assert_eq!(
        target_identity(&unowned).unwrap_err().message(),
        "foreground_unavailable: Hyprland target has no valid identity"
    );
    assert_eq!(live_with_target(&target, &[shown]), Ok(vec![target.clone()]));
    assert_eq!(live_with_target(&target, &[]), Err(Refusal::TargetChanged));
}

#[test]
fn only_the_first_window_at_an_address_is_focused() {
    let target = identity(0x1111, "target");
    assert_eq!(
        focus_identity(&target, &[client(0x2222, "a"), client(0x1111, "target")]),
        Ok(lua_focus_arguments(0x1111))
    );
    assert_eq!(
        focus_identity(&target, &[client(0x1111, "a"), client(0x1111, "target")]),
        Err(Refusal::StaleFocus { address: 0x1111 })
    );
    assert_eq!(focus_identity(&target, &[]), Err(Refusal::StaleFocus { address: 0x1111 }));
}

/// A transaction that has just sent its first dispatch.
fn dispatching(registry: &TrustedWindowIdentities) -> FocusTransaction {
    let clients = || Event::Clients(Ok(vec![client(0x1111, "target"), client(0x2222, "prior")]));
    let (transaction, _) = with_focused_window(registry, 42, 0x1111);
    let (transaction, _) = transaction.step(clients());
    let (transaction, _) = transaction.step(Event::Monitors(Ok(vec![shows(1)])));
    let (transaction, _) = transaction.step(clients());
    let (transaction, _) = transaction.step(Event::Active(Ok(active(0x2222, "prior"))));
    let (transaction, action) = transaction.step(clients());
    assert!(matches!(action, Action::Dispatch(arguments) if arguments == lua_focus_arguments(0x1111)));
    transaction
}

#[test]
fn dispatches_that_cannot_be_started_are_rolled_back() {
    let registry = trusting();
    let roll_back = |transaction: FocusTransaction| {
        let (transaction, action) = transaction.step(Event::Active(Ok(active(0x2222, "prior"))));
        assert!(matches!(action, Action::Read(Query::Clients)));
        match transaction.step(Event::Clients(Ok(vec![]))).1 {
            Action::Finish(Outcome::RolledBack { cause, decision }) => (cause.message(), decision),
            _ => panic!("a rollback was expected"),
        }
    };
    let (transaction, _) = dispatching(&registry).step(Event::Dispatched(None));
    assert_eq!(
        roll_back(transaction),
        (
            "launch Hyprland Lua focus dispatch".to_owned(),
            FocusRestoreDecision::ActiveFocusChanged
        )
    );

    let (transaction, action) =
        dispatching(&registry).step(Event::Dispatched(Some(reply(true, "", "no Lua"))));
    assert!(
        matches!(action, Action::Dispatch(arguments) if arguments == legacy_focus_arguments(0x1111))
    );
    let (transaction, _) = transaction.step(Event::Dispatched(None));
    assert_eq!(
        roll_back(transaction).0,
        "launch legacy Hyprland focuswindow dispatch"
    );
}

#[test]
fn a_failed_rollback_names_both_causes() {
    let registry = trusting();
    let (transaction, _) = dispatching(&registry).step(Event::Dispatched(None));
    let failed = Err(Refusal::QueryNotLaunched(Query::ActiveWindow));
    match transaction.step(Event::Active(failed)).1 {
        Action::Finish(outcome) => {
            assert_eq!(
                outcome.message().unwrap(),
                "guarded rollback after failed Hyprland focus also failed: \
                 launch hyprctl -j activewindow"
            );
            assert_eq!(
                outcome,
                Outcome::RollbackFailed {
                    cause: FocusFailure::Refused(Refusal::LuaFocusNotLaunched),
                    rollback: FocusFailure::Refused(Refusal::QueryNotLaunched(Query::ActiveWindow)),
                }
            );
        }
        _ => panic!("the transaction should have ended"),
    }
}

#[test]
fn a_late_focus_is_taken_back_in_a_rollback() {
    let registry = trusting();
    let clients = || Event::Clients(Ok(vec![client(0x1111, "target"), client(0x2222, "prior")]));
    let (transaction, action) =
        dispatching(&registry).step(Event::Dispatched(Some(reply(true, "ok", ""))));
    assert!(matches!(action, Action::Poll { pause_millis: 0 }));
    let (transaction, action) = transaction.step(Event::Polled {
        active: Ok(active(0x2222, "prior")),
        waited_millis: 499,
    });
    assert!(matches!(action, Action::Poll { pause_millis: 15 }));
    let (transaction, _) = transaction.step(Event::Polled {
        active: Err(Refusal::QueryFailed(Query::ActiveWindow)),
        waited_millis: 500,
    });
    let (transaction, _) = transaction.step(Event::Active(Ok(active(0x1111, "target"))));
    let (transaction, _) = transaction.step(clients());
    let (transaction, action) = transaction.step(clients());
    assert!(matches!(action, Action::Dispatch(arguments) if arguments == lua_focus_arguments(0x2222)));
    let (transaction, _) = transaction.step(Event::Dispatched(Some(reply(true, "ok", ""))));
    let (_, action) = transaction.step(Event::Polled {
        active: Ok(active(0x2222, "prior")),
        waited_millis: 0,
    });
    match action {
        Action::Finish(outcome) => assert_eq!(
            outcome,
            Outcome::RolledBack {
                cause: FocusFailure::Refused(Refusal::FocusTimedOut { address: 0x1111 }),
                decision: FocusRestoreDecision::Restore(identity(0x2222, "prior")),
            }
        ),
        _ => panic!("the transaction should have ended"),
    }
}
