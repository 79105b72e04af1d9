//! One keyboard transaction under a temporary focus, step by step.
//!
//! The transaction never talks to the compositor itself. Each step takes the
//! event that answers the last action, and says what to do next: read something
//! from the compositor, send a dispatch, look for the focus again, run the body,
//! or finish.
use vstd::pervasive::unreached;
use vstd::prelude::*;

use crate::command::{
    accepted, command_error, is_accepted, is_readable, legacy_focus, legacy_focus_arguments,
    lua_focus, readable_detail, reply_detail, CommandReply, ReplyView,
};
use crate::focus::{
    active_reading, begin_temporary_focus, check_target_visible, focus_identity,
    focus_restore_decision, lease_answer, live_with_target, on_screen, poll_answer,
    restore_decision, target_client, target_identity, target_in, wait_for_focused_identity,
    DecisionView, FocusLease, FocusRestoreDecision, LeaseView, FOCUS_POLL_INTERVAL_MILLIS,
};
use crate::identity::{
    active_identity, client_identity, first_at, identities_of, live_identities, IdentityView,
    WindowIdentity,
};
use crate::outcome::{FailureView, FocusFailure, Outcome, OutcomeView};
use crate::records::{ActiveWindow, ActiveWindowView, Client, ClientView, Monitor};
use crate::refusal::{Query, Refusal};
use crate::registry::{trust_answer, TrustedWindowIdentities};
use crate::select::lemma_first_where_meets;

verus! {

/// Why the focus goes back.
pub enum Reason {
    /// The target could not be focused.
    Rollback { cause: FocusFailure },
    /// The body is done.
    Release { body_ok: bool },
}

/// The contents of a [`Reason`].
pub enum ReasonView {
    Rollback { cause: FailureView },
    Release { body_ok: bool },
}

impl View for Reason {
    type V = ReasonView;

    open spec fn view(&self) -> ReasonView {
        match self {
            Reason::Rollback { cause } => ReasonView::Rollback { cause: cause@ },
            Reason::Release { body_ok } => ReasonView::Release { body_ok: *body_ok },
        }
    }
}

/// What a window is focused for.
pub enum Aim {
    /// To run the body.
    Acquire,
    /// To have the focus back.
    Return(Reason),
}

/// The contents of an [`Aim`].
pub enum AimView {
    Acquire,
    Return(ReasonView),
}

impl View for Aim {
    type V = AimView;

    open spec fn view(&self) -> AimView {
        match self {
            Aim::Acquire => AimView::Acquire,
            Aim::Return(reason) => AimView::Return(reason@),
        }
    }
}

/// How far focusing a window has come.
pub enum FocusStep {
    /// A fresh list of clients is to show the window.
    Verify,
    /// The Lua dispatch was sent.
    Lua,
    /// The Lua dispatch failed, with this detail; the legacy one was sent.
    Legacy { lua: String },
    /// A dispatch was taken; the window is to show up as the active one.
    Wait,
}

/// The contents of a [`FocusStep`].
pub enum StepView {
    Verify,
    Lua,
    Legacy { lua: Seq<char> },
    Wait,
}

impl View for FocusStep {
    type V = StepView;

    open spec fn view(&self) -> StepView {
        match self {
            FocusStep::Verify => StepView::Verify,
            FocusStep::Lua => StepView::Lua,
            FocusStep::Legacy { lua } => StepView::Legacy { lua: lua@ },
            FocusStep::Wait => StepView::Wait,
        }
    }
}

/// How far a transaction has come.
pub enum Phase {
    /// A fresh list of clients is to show the trusted window.
    TargetClients { expected: WindowIdentity, window_id: u64 },
    /// The monitors are to show the window's workspace.
    TargetMonitors { client: Client, window_id: u64 },
    /// A fresh list of clients is to show the target.
    BeginClients { target: WindowIdentity },
    /// The active window is to be known.
    BeginActive { target: WindowIdentity, live: Vec<WindowIdentity> },
    /// A window is being focused.
    Focusing { lease: FocusLease, subject: WindowIdentity, aim: Aim, step: FocusStep },
    /// The body is running.
    RunningBody { lease: FocusLease },
    /// Before the focus goes back, the active window is to be known.
    RestoreActive { lease: FocusLease, reason: Reason },
    /// Before the focus goes back, the live windows are to be known.
    RestoreClients { lease: FocusLease, reason: Reason, active: Option<WindowIdentity> },
    /// The transaction is over.
    Finished,
}

/// The contents of a [`Phase`].
pub enum PhaseView {
    TargetClients { expected: IdentityView, window_id: u64 },
    TargetMonitors { client: ClientView, window_id: u64 },
    BeginClients { target: IdentityView },
    BeginActive { target: IdentityView, live: Seq<IdentityView> },
    Focusing { lease: LeaseView, subject: IdentityView, aim: AimView, step: StepView },
    RunningBody { lease: LeaseView },
    RestoreActive { lease: LeaseView, reason: ReasonView },
    RestoreClients { lease: LeaseView, reason: ReasonView, active: Option<IdentityView> },
    Finished,
}

impl View for Phase {
    type V = PhaseView;

    open spec fn view(&self) -> PhaseView {
        match self {
            Phase::TargetClients { expected, window_id } => PhaseView::TargetClients {
                expected: expected@,
                window_id: *window_id,
            },
            Phase::TargetMonitors { client, window_id } => PhaseView::TargetMonitors {
                client: client@,
                window_id: *window_id,
            },
            Phase::BeginClients { target } => PhaseView::BeginClients { target: target@ },
            Phase::BeginActive { target, live } => PhaseView::BeginActive {
                target: target@,
                live: live.deep_view(),
            },
            Phase::Focusing { lease, subject, aim, step } => PhaseView::Focusing {
                lease: lease@,
                subject: subject@,
                aim: aim@,
                step: step@,
            },
            Phase::RunningBody { lease } => PhaseView::RunningBody { lease: lease@ },
            Phase::RestoreActive { lease, reason } => PhaseView::RestoreActive {
                lease: lease@,
                reason: reason@,
            },
            Phase::RestoreClients { lease, reason, active } => PhaseView::RestoreClients {
                lease: lease@,
                reason: reason@,
                active: active.deep_view(),
            },
            Phase::Finished => PhaseView::Finished,
        }
    }
}

/// The answer to an action.
pub enum Event {
    /// The clients were read, or could not be.
    Clients(Result<Vec<Client>, Refusal>),
    /// The monitors were read, or could not be.
    Monitors(Result<Vec<Monitor>, Refusal>),
    /// The active window was read, or could not be.
    Active(Result<ActiveWindow, Refusal>),
    /// The active window was read, or could not be, in looking for the focus, so
    /// many milliseconds after the last dispatch returned.
    Polled { active: Result<ActiveWindow, Refusal>, waited_millis: u64 },
    /// A dispatch returned; `None` when it could not be started.
    Dispatched(Option<CommandReply>),
    /// The body is done.
    BodyDone { ok: bool },
}

/// The contents of an [`Event`].
pub enum EventView {
    Clients(Result<Seq<ClientView>, Refusal>),
    Monitors(Result<Seq<Monitor>, Refusal>),
    Active(Result<ActiveWindowView, Refusal>),
    Polled { active: Result<ActiveWindowView, Refusal>, waited_millis: u64 },
    Dispatched(Option<ReplyView>),
    BodyDone { ok: bool },
}

impl View for Event {
    type V = EventView;

    open spec fn view(&self) -> EventView {
        match self {
            Event::Clients(Ok(clients)) => EventView::Clients(Ok(clients.deep_view())),
            Event::Clients(Err(refusal)) => EventView::Clients(Err(*refusal)),
            Event::Monitors(Ok(monitors)) => EventView::Monitors(Ok(monitors@)),
            Event::Monitors(Err(refusal)) => EventView::Monitors(Err(*refusal)),
            Event::Active(active) => EventView::Active(active_reading(*active)),
            Event::Polled { active, waited_millis } => EventView::Polled {
                active: active_reading(*active),
                waited_millis: *waited_millis,
            },
            Event::Dispatched(reply) => EventView::Dispatched(reply.deep_view()),
            Event::BodyDone { ok } => EventView::BodyDone { ok: *ok },
        }
    }
}

/// What to do next.
pub enum Action {
    /// Read something from the compositor.
    Read(Query),
    /// Run `hyprctl` with these arguments.
    Dispatch(Vec<String>),
    /// After a pause, read the active window to look for the focus.
    Poll { pause_millis: u64 },
    /// Run the body.
    RunBody,
    /// Hand out the result.
    Finish(Outcome),
}

/// The contents of an [`Action`].
pub enum ActionView {
    Read(Query),
    Dispatch(Seq<Seq<char>>),
    Poll { pause_millis: u64 },
    RunBody,
    Finish(OutcomeView),
}

impl View for Action {
    type V = ActionView;

    open spec fn view(&self) -> ActionView {
        match self {
            Action::Read(query) => ActionView::Read(*query),
            Action::Dispatch(arguments) => ActionView::Dispatch(arguments.deep_view()),
            Action::Poll { pause_millis } => ActionView::Poll { pause_millis: *pause_millis },
            Action::RunBody => ActionView::RunBody,
            Action::Finish(outcome) => ActionView::Finish(outcome@),
        }
    }
}

/// A refused transaction.
pub open spec fn refused(refusal: Refusal) -> (PhaseView, ActionView) {
    (PhaseView::Finished, ActionView::Finish(OutcomeView::Failed(FailureView::Refused(refusal))))
}

/// The start of a transaction, by the answer of the registry.
pub open spec fn opening(
    trusted: Result<IdentityView, Refusal>,
    window_id: u64,
) -> (PhaseView, ActionView) {
    match trusted {
        Ok(expected) => (
            PhaseView::TargetClients { expected, window_id },
            ActionView::Read(Query::Clients),
        ),
        Err(refusal) => refused(refusal),
    }
}

/// How a transaction ends once it is known whether the focus went back.
pub open spec fn ending(
    reason: ReasonView,
    restored: Result<DecisionView, FailureView>,
) -> OutcomeView {
    match (reason, restored) {
        (ReasonView::Rollback { cause }, Ok(decision)) => OutcomeView::RolledBack {
            cause,
            decision,
        },
        (ReasonView::Rollback { cause }, Err(rollback)) => OutcomeView::RollbackFailed {
            cause,
            rollback,
        },
        (ReasonView::Release { body_ok }, Ok(_)) => if body_ok {
            OutcomeView::Value
        } else {
            OutcomeView::BodyFailed
        },
        (ReasonView::Release { body_ok }, Err(restore)) => if body_ok {
            OutcomeView::Failed(restore)
        } else {
            OutcomeView::BodyAndRestoreFailed { restore }
        },
    }
}

/// What follows when a window has the focus.
pub open spec fn focused(lease: LeaseView, subject: IdentityView, aim: AimView) -> (
    PhaseView,
    ActionView,
) {
    match aim {
        AimView::Acquire => (PhaseView::RunningBody { lease }, ActionView::RunBody),
        AimView::Return(reason) => (
            PhaseView::Finished,
            ActionView::Finish(ending(reason, Ok(DecisionView::Restore(subject)))),
        ),
    }
}

/// What follows when a window cannot have the focus.
pub open spec fn not_focused(lease: LeaseView, aim: AimView, failure: FailureView) -> (
    PhaseView,
    ActionView,
) {
    match aim {
        AimView::Acquire => (
            PhaseView::RestoreActive { lease, reason: ReasonView::Rollback { cause: failure } },
            ActionView::Read(Query::ActiveWindow),
        ),
        AimView::Return(reason) => (
            PhaseView::Finished,
            ActionView::Finish(ending(reason, Err(failure))),
        ),
    }
}

/// One step of focusing a window.
pub open spec fn next_focusing(
    lease: LeaseView,
    subject: IdentityView,
    aim: AimView,
    step: StepView,
    event: EventView,
) -> (PhaseView, ActionView) {
    match (step, event) {
        (StepView::Verify, EventView::Clients(Err(refusal))) => not_focused(
            lease,
            aim,
            FailureView::Refused(refusal),
        ),
        (StepView::Verify, EventView::Clients(Ok(clients))) => if first_at(
            identities_of(clients),
            subject.address,
        ) == Some(subject) {
            (
                PhaseView::Focusing { lease, subject, aim, step: StepView::Lua },
                ActionView::Dispatch(lua_focus(subject.address)),
            )
        } else {
            not_focused(
                lease,
                aim,
                FailureView::Refused(Refusal::StaleFocus { address: subject.address }),
            )
        },
        (StepView::Lua, EventView::Dispatched(None)) => not_focused(
            lease,
            aim,
            FailureView::Refused(Refusal::LuaFocusNotLaunched),
        ),
        (StepView::Lua, EventView::Dispatched(Some(reply))) => if is_accepted(reply) {
            (
                PhaseView::Focusing { lease, subject, aim, step: StepView::Wait },
                ActionView::Poll { pause_millis: 0 },
            )
        } else {
            (
                PhaseView::Focusing {
                    lease,
                    subject,
                    aim,
                    step: StepView::Legacy { lua: reply_detail(reply) },
                },
                ActionView::Dispatch(legacy_focus(subject.address)),
            )
        },
        (StepView::Legacy { lua }, EventView::Dispatched(None)) => not_focused(
            lease,
            aim,
            FailureView::Refused(Refusal::LegacyFocusNotLaunched),
        ),
        (StepView::Legacy { lua }, EventView::Dispatched(Some(reply))) => if is_accepted(reply) {
            (
                PhaseView::Focusing { lease, subject, aim, step: StepView::Wait },
                ActionView::Poll { pause_millis: 0 },
            )
        } else {
            not_focused(
                lease,
                aim,
                FailureView::DispatchFailed { lua, legacy: reply_detail(reply) },
            )
        },
        (StepView::Wait, EventView::Polled { active, waited_millis }) => match poll_answer(
            subject,
            active,
            waited_millis,
        ) {
            Ok(true) => focused(lease, subject, aim),
            Ok(false) => (
                PhaseView::Focusing { lease, subject, aim, step: StepView::Wait },
                ActionView::Poll { pause_millis: FOCUS_POLL_INTERVAL_MILLIS },
            ),
            Err(refusal) => not_focused(lease, aim, FailureView::Refused(refusal)),
        },
        _ => arbitrary(),
    }
}

/// Whether an event answers what a phase waits for.
pub open spec fn answers(event: EventView, phase: PhaseView) -> bool {
    match phase {
        PhaseView::TargetClients { .. } => event is Clients,
        PhaseView::TargetMonitors { .. } => event is Monitors,
        PhaseView::BeginClients { .. } => event is Clients,
        PhaseView::BeginActive { .. } => event is Active,
        PhaseView::Focusing { step, .. } => match step {
            StepView::Verify => event is Clients,
            StepView::Lua => event is Dispatched,
            StepView::Legacy { .. } => event is Dispatched,
            StepView::Wait => event is Polled,
        },
        PhaseView::RunningBody { .. } => event is BodyDone,
        PhaseView::RestoreActive { .. } => event is Active,
        PhaseView::RestoreClients { .. } => event is Clients,
        PhaseView::Finished => false,
    }
}

/// One step of a transaction: where it stands afterwards, and what to do next.
pub open spec fn next(phase: PhaseView, event: EventView) -> (PhaseView, ActionView)
    recommends
        answers(event, phase),
{
    match (phase, event) {
        (PhaseView::TargetClients { .. }, EventView::Clients(Err(refusal))) => refused(refusal),
        (
            PhaseView::TargetClients { expected, window_id },
            EventView::Clients(Ok(clients)),
        ) => match target_in(clients, expected) {
            Some(client) => (
                PhaseView::TargetMonitors { client, window_id },
                ActionView::Read(Query::Monitors),
            ),
            None => refused(Refusal::StaleTarget { address: window_id }),
        },
        (PhaseView::TargetMonitors { .. }, EventView::Monitors(Err(refusal))) => refused(refusal),
        (
            PhaseView::TargetMonitors { client, window_id },
            EventView::Monitors(Ok(monitors)),
        ) => if !on_screen(client, monitors) {
            refused(Refusal::TargetNotVisible { address: window_id })
        } else {
            match client_identity(client) {
                Some(identity) => (
                    PhaseView::BeginClients { target: identity },
                    ActionView::Read(Query::Clients),
                ),
                None => refused(Refusal::TargetWithoutIdentity),
            }
        },
        (PhaseView::BeginClients { .. }, EventView::Clients(Err(refusal))) => refused(refusal),
        (PhaseView::BeginClients { target }, EventView::Clients(Ok(clients))) => if identities_of(
            clients,
        ).contains(target) {
            (
                PhaseView::BeginActive { target, live: identities_of(clients) },
                ActionView::Read(Query::ActiveWindow),
            )
        } else {
            refused(Refusal::TargetChanged)
        },
        (PhaseView::BeginActive { .. }, EventView::Active(Err(refusal))) => refused(refusal),
        (PhaseView::BeginActive { target, live }, EventView::Active(Ok(active))) => {
            match lease_answer(target, live, active) {
                Ok(lease) => (
                    PhaseView::Focusing {
                        lease,
                        subject: target,
                        aim: AimView::Acquire,
                        step: StepView::Verify,
                    },
                    ActionView::Read(Query::Clients),
                ),
                Err(refusal) => refused(refusal),
            }
        },
        (PhaseView::Focusing { lease, subject, aim, step }, event) => next_focusing(
            lease,
            subject,
            aim,
            step,
            event,
        ),
        (PhaseView::RunningBody { lease }, EventView::BodyDone { ok }) => (
            PhaseView::RestoreActive { lease, reason: ReasonView::Release { body_ok: ok } },
            ActionView::Read(Query::ActiveWindow),
        ),
        (PhaseView::RestoreActive { lease, reason }, EventView::Active(Err(refusal))) => (
            PhaseView::Finished,
            ActionView::Finish(ending(reason, Err(FailureView::Refused(refusal)))),
        ),
        (PhaseView::RestoreActive { lease, reason }, EventView::Active(Ok(active))) => (
            PhaseView::RestoreClients { lease, reason, active: active_identity(active) },
            ActionView::Read(Query::Clients),
        ),
        (PhaseView::RestoreClients { reason, .. }, EventView::Clients(Err(refusal))) => (
            PhaseView::Finished,
            ActionView::Finish(ending(reason, Err(FailureView::Refused(refusal)))),
        ),
        (
            PhaseView::RestoreClients { lease, reason, active },
            EventView::Clients(Ok(clients)),
        ) => match restore_decision(lease, active, identities_of(clients)) {
            DecisionView::Restore(prior) => (
                PhaseView::Focusing {
                    lease,
                    subject: prior,
                    aim: AimView::Return(reason),
                    step: StepView::Verify,
                },
                ActionView::Read(Query::Clients),
            ),
            decision => (
                PhaseView::Finished,
                ActionView::Finish(ending(reason, Ok(decision))),
            ),
        },
        _ => arbitrary(),
    }
}

fn refuse(refusal: Refusal) -> (r: (Phase, Action))
    ensures
        (r.0@, r.1@) == refused(refusal),
{
    (Phase::Finished, Action::Finish(Outcome::Failed(FocusFailure::Refused(refusal))))
}

fn end(reason: Reason, restored: Result<FocusRestoreDecision, FocusFailure>) -> (r: (Phase, Action))
    ensures
        r.0@ is Finished,
        r.1@ == ActionView::Finish(
            ending(
                reason@,
                match restored {
                    Ok(decision) => Ok(decision@),
                    Err(failure) => Err(failure@),
                },
            ),
        ),
{
    let outcome = match (reason, restored) {
        (Reason::Rollback { cause }, Ok(decision)) => Outcome::RolledBack { cause, decision },
        (Reason::Rollback { cause }, Err(rollback)) => Outcome::RollbackFailed { cause, rollback },
        (Reason::Release { body_ok }, Ok(_)) => if body_ok {
            Outcome::Value
        } else {
            Outcome::BodyFailed
        },
        (Reason::Release { body_ok }, Err(restore)) => if body_ok {
            Outcome::Failed(restore)
        } else {
            Outcome::BodyAndRestoreFailed { restore }
        },
    };
    (Phase::Finished, Action::Finish(outcome))
}

fn fail_focus(lease: FocusLease, aim: Aim, failure: FocusFailure) -> (r: (Phase, Action))
    ensures
        (r.0@, r.1@) == not_focused(lease@, aim@, failure@),
{
    match aim {
        Aim::Acquire => (
            Phase::RestoreActive { lease, reason: Reason::Rollback { cause: failure } },
            Action::Read(Query::ActiveWindow),
        ),
        Aim::Return(reason) => end(reason, Err(failure)),
    }
}

fn step_focusing(
    lease: FocusLease,
    subject: WindowIdentity,
    aim: Aim,
    step: FocusStep,
    event: Event,
) -> (r: (Phase, Action))
    requires
        answers(
            event@,
            PhaseView::Focusing { lease: lease@, subject: subject@, aim: aim@, step: step@ },
        ),
    ensures
        (r.0@, r.1@) == next_focusing(lease@, subject@, aim@, step@, event@),
        event@ matches EventView::Dispatched(Some(reply)) ==> (!is_accepted(reply) && is_readable(
            reply,
        ) ==> reply_detail(reply) == readable_detail(reply)),
{
    match (step, event) {
        (FocusStep::Verify, Event::Clients(Err(refusal))) => fail_focus(
            lease,
            aim,
            FocusFailure::Refused(refusal),
        ),
        (FocusStep::Verify, Event::Clients(Ok(clients))) => match focus_identity(
            &subject,
            clients.as_slice(),
        ) {
            Ok(arguments) => (
                Phase::Focusing { lease, subject, aim, step: FocusStep::Lua },
                Action::Dispatch(arguments),
            ),
            Err(refusal) => fail_focus(lease, aim, FocusFailure::Refused(refusal)),
        },
        (FocusStep::Lua, Event::Dispatched(None)) => fail_focus(
            lease,
            aim,
            FocusFailure::Refused(Refusal::LuaFocusNotLaunched),
        ),
        (FocusStep::Lua, Event::Dispatched(Some(reply))) => if accepted(&reply) {
            (
                Phase::Focusing { lease, subject, aim, step: FocusStep::Wait },
                Action::Poll { pause_millis: 0 },
            )
        } else {
            let arguments = legacy_focus_arguments(subject.address);
            let lua = command_error(&reply);
            (
                Phase::Focusing { lease, subject, aim, step: FocusStep::Legacy { lua } },
                Action::Dispatch(arguments),
            )
        },
        (FocusStep::Legacy { lua: _ }, Event::Dispatched(None)) => fail_focus(
            lease,
            aim,
            FocusFailure::Refused(Refusal::LegacyFocusNotLaunched),
        ),
        (FocusStep::Legacy { lua }, Event::Dispatched(Some(reply))) => if accepted(&reply) {
            (
                Phase::Focusing { lease, subject, aim, step: FocusStep::Wait },
                Action::Poll { pause_millis: 0 },
            )
        } else {
            let legacy = command_error(&reply);
            fail_focus(lease, aim, FocusFailure::DispatchFailed { lua, legacy })
        },
        (FocusStep::Wait, Event::Polled { active, waited_millis }) => {
            match wait_for_focused_identity(&subject, &active, waited_millis) {
                Ok(true) => match aim {
                    Aim::Acquire => (Phase::RunningBody { lease }, Action::RunBody),
                    Aim::Return(reason) => end(reason, Ok(FocusRestoreDecision::Restore(subject))),
                },
                Ok(false) => (
                    Phase::Focusing { lease, subject, aim, step: FocusStep::Wait },
                    Action::Poll { pause_millis: FOCUS_POLL_INTERVAL_MILLIS },
                ),
                Err(refusal) => fail_focus(lease, aim, FocusFailure::Refused(refusal)),
            }
        },
        _ => unreached(),
    }
}

/// A lease whose prior window, where there is one, is not the target.
pub open spec fn sound_lease(lease: LeaseView) -> bool {
    lease.prior != Some(lease.target)
}

/// What holds of every phase: a target that is begun with is live, the window
/// that is focused to run the body is the target, and the one that is focused to
/// have the focus back is the prior one.
pub open spec fn sound_phase(phase: PhaseView) -> bool {
    match phase {
        PhaseView::TargetMonitors { client, .. } => client.mapped && client_identity(client) is Some,
        PhaseView::BeginActive { target, live } => live.contains(target),
        PhaseView::Focusing { lease, subject, aim, .. } => sound_lease(lease) && match aim {
            AimView::Acquire => subject == lease.target,
            AimView::Return(_) => lease.prior == Some(subject),
        },
        PhaseView::RunningBody { lease } => sound_lease(lease),
        PhaseView::RestoreActive { lease, .. } => sound_lease(lease),
        PhaseView::RestoreClients { lease, .. } => sound_lease(lease),
        _ => true,
    }
}

/// A keyboard transaction under a temporary focus.
pub struct FocusTransaction {
    phase: Phase,
}

impl View for FocusTransaction {
    type V = PhaseView;

    closed spec fn view(&self) -> PhaseView {
        self.phase@
    }
}

/// Starts one global-keyboard transaction under an exact Hyprland focus lease.
/// The prior window is restored only while the target still owns focus, so a
/// user focus takeover is never overwritten.
pub fn with_focused_window(
    identities: &TrustedWindowIdentities,
    pid: u32,
    window_id: u64,
) -> (started: (FocusTransaction, Action))
    ensures
        (started.0@, started.1@) == opening(trust_answer(identities@, window_id, pid), window_id),
        trust_answer(identities@, window_id, pid) is Ok <==> started.1@ == ActionView::Read(
            Query::Clients,
        ),
        trust_answer(identities@, window_id, pid) matches Err(refusal) ==> started.1@
            == ActionView::Finish(OutcomeView::Failed(FailureView::Refused(refusal))),
{
    let (phase, action) = match identities.trusted(window_id, pid) {
        Ok(expected) => (
            Phase::TargetClients { expected, window_id },
            Action::Read(Query::Clients),
        ),
        Err(refusal) => refuse(refusal),
    };
    (FocusTransaction { phase }, action)
}

impl FocusTransaction {
    #[verifier::type_invariant]
    spec fn sound(self) -> bool {
        sound_phase(self@)
    }

    /// Whether an event answers what the transaction waits for.
    pub fn is_answered_by(&self, event: &Event) -> (r: bool)
        ensures
            r == answers(event@, self@),
    {
        match (&self.phase, event) {
            (Phase::TargetClients { .. }, Event::Clients(_)) => true,
            (Phase::TargetMonitors { .. }, Event::Monitors(_)) => true,
            (Phase::BeginClients { .. }, Event::Clients(_)) => true,
            (Phase::BeginActive { .. }, Event::Active(_)) => true,
            (Phase::Focusing { step: FocusStep::Verify, .. }, Event::Clients(_)) => true,
            (Phase::Focusing { step: FocusStep::Lua, .. }, Event::Dispatched(_)) => true,
            (Phase::Focusing { step: FocusStep::Legacy { .. }, .. }, Event::Dispatched(_)) => true,
            (Phase::Focusing { step: FocusStep::Wait, .. }, Event::Polled { .. }) => true,
            (Phase::RunningBody { .. }, Event::BodyDone { .. }) => true,
            (Phase::RestoreActive { .. }, Event::Active(_)) => true,
            (Phase::RestoreClients { .. }, Event::Clients(_)) => true,
            _ => false,
        }
    }

    /// Takes in the answer to the last action. Where a refused dispatch wrote
    /// nothing but valid UTF-8, its detail is what it wrote.
    pub fn step(self, event: Event) -> (r: (FocusTransaction, Action))
        requires
            answers(event@, self@),
        ensures
            (r.0@, r.1@) == next(self@, event@),
            sound_phase(r.0@),
            event@ matches EventView::Dispatched(Some(reply)) ==> (!is_accepted(reply) && is_readable(
                reply,
            ) ==> reply_detail(reply) == readable_detail(reply)),
    {
        proof {
            use_type_invariant(&self);
            law_steps_keep_phases_sound(self@, event@);
        }
        let (phase, action) = step_phase(self.phase, event);
        (FocusTransaction { phase }, action)
    }
}

fn step_phase(phase: Phase, event: Event) -> (r: (Phase, Action))
    requires
        answers(event@, phase@),
    ensures
        (r.0@, r.1@) == next(phase@, event@),
        event@ matches EventView::Dispatched(Some(reply)) ==> (!is_accepted(reply) && is_readable(
            reply,
        ) ==> reply_detail(reply) == readable_detail(reply)),
{
    match (phase, event) {
        (Phase::TargetClients { .. }, Event::Clients(Err(refusal))) => refuse(refusal),
        (Phase::TargetClients { expected, window_id }, Event::Clients(Ok(clients))) => {
            match target_client(clients.as_slice(), &expected, window_id) {
                Ok(client) => (
                    Phase::TargetMonitors { client, window_id },
                    Action::Read(Query::Monitors),
                ),
                Err(refusal) => refuse(refusal),
            }
        },
        (Phase::TargetMonitors { .. }, Event::Monitors(Err(refusal))) => refuse(refusal),
        (Phase::TargetMonitors { client, window_id }, Event::Monitors(Ok(monitors))) => {
            match check_target_visible(&client, monitors.as_slice(), window_id) {
                Ok(()) => match target_identity(&client) {
                    Ok(identity) => (
                        Phase::BeginClients { target: identity },
                        Action::Read(Query::Clients),
                    ),
                    Err(refusal) => refuse(refusal),
                },
                Err(refusal) => refuse(refusal),
            }
        },
        (Phase::BeginClients { .. }, Event::Clients(Err(refusal))) => refuse(refusal),
        (Phase::BeginClients { target }, Event::Clients(Ok(clients))) => {
            match live_with_target(&target, clients.as_slice()) {
                Ok(live) => (
                    Phase::BeginActive { target, live },
                    Action::Read(Query::ActiveWindow),
                ),
                Err(refusal) => refuse(refusal),
            }
        },
        (Phase::BeginActive { .. }, Event::Active(Err(refusal))) => refuse(refusal),
        (Phase::BeginActive { target, live }, Event::Active(Ok(active))) => {
            let subject = target.clone();
            match begin_temporary_focus(target, live.as_slice(), &active) {
                Ok(lease) => (
                    Phase::Focusing {
                        lease,
                        subject,
                        aim: Aim::Acquire,
                        step: FocusStep::Verify,
                    },
                    Action::Read(Query::Clients),
                ),
                Err(refusal) => refuse(refusal),
            }
        },
        (Phase::Focusing { lease, subject, aim, step }, event) => step_focusing(
            lease,
            subject,
            aim,
            step,
            event,
        ),
        (Phase::RunningBody { lease }, Event::BodyDone { ok }) => (
            Phase::RestoreActive { lease, reason: Reason::Release { body_ok: ok } },
            Action::Read(Query::ActiveWindow),
        ),
        (Phase::RestoreActive { reason, .. }, Event::Active(Err(refusal))) => end(
            reason,
            Err(FocusFailure::Refused(refusal)),
        ),
        (Phase::RestoreActive { lease, reason }, Event::Active(Ok(active))) => (
            Phase::RestoreClients { lease, reason, active: active.identity() },
            Action::Read(Query::Clients),
        ),
        (Phase::RestoreClients { reason, .. }, Event::Clients(Err(refusal))) => end(
            reason,
            Err(FocusFailure::Refused(refusal)),
        ),
        (Phase::RestoreClients { lease, reason, active }, Event::Clients(Ok(clients))) => {
            let live = live_identities(clients.as_slice());
            match focus_restore_decision(&lease, active.as_ref(), live.as_slice()) {
                FocusRestoreDecision::Restore(prior) => (
                    Phase::Focusing {
                        lease,
                        subject: prior,
                        aim: Aim::Return(reason),
                        step: FocusStep::Verify,
                    },
                    Action::Read(Query::Clients),
                ),
                decision => end(reason, Ok(decision)),
            }
        },
        _ => unreached(),
    }
}

/// Every step keeps phases sound.
pub proof fn law_steps_keep_phases_sound(phase: PhaseView, event: EventView)
    requires
        sound_phase(phase),
        answers(event, phase),
    ensures
        sound_phase(next(phase, event).0),
{
    if let PhaseView::TargetClients { expected, .. } = phase {
        if let EventView::Clients(Ok(clients)) = event {
            lemma_first_where_meets(
                clients,
                |client: ClientView| client.mapped && client_identity(client) == Some(expected),
            );
        }
    }
}

/// The body is run only when the active window was just read to be the target of
/// the lease.
pub proof fn law_body_runs_only_with_the_target_focused(phase: PhaseView, event: EventView)
    requires
        sound_phase(phase),
        answers(event, phase),
        next(phase, event).1 is RunBody,
    ensures
        phase matches PhaseView::Focusing { lease, aim: AimView::Acquire, .. } && event matches
            EventView::Polled { active: Ok(active), .. } && active_identity(active) == Some(
            lease.target,
        ),
{
}

/// A dispatch is sent only for the window that is to have the focus: the first
/// one right after a fresh list of clients showed that window first at its
/// address, and another one only after the compositor refused the first.
pub proof fn law_dispatches_follow_a_fresh_check(phase: PhaseView, event: EventView)
    requires
        answers(event, phase),
    ensures
        next(phase, event).1 matches ActionView::Dispatch(arguments) ==> {
            &&& phase is Focusing
            &&& {
                ||| {
                    &&& phase->Focusing_step is Verify
                    &&& event matches EventView::Clients(Ok(clients))
                    &&& first_at(identities_of(clients), phase->subject.address) == Some(
                        phase->subject,
                    )
                    &&& arguments == lua_focus(phase->subject.address)
                }
                ||| {
                    &&& phase->Focusing_step is Lua
                    &&& event matches EventView::Dispatched(Some(reply))
                    &&& !is_accepted(reply)
                    &&& arguments == legacy_focus(phase->subject.address)
                }
            }
        },
{
}

/// The focus starts to go back only when the active window was just read to be
/// the target, and only to the prior window, which the list of clients read after
/// that shows first at its address. A change of focus by the user that this
/// reading shows is not overwritten.
pub proof fn law_focus_goes_back_only_from_the_target(phase: PhaseView, event: EventView)
    requires
        answers(event, phase),
        !(phase is Focusing),
    ensures
        next(phase, event).0 matches PhaseView::Focusing {
            lease,
            subject,
            aim: AimView::Return(reason),
            ..
        } ==> {
            &&& phase == (PhaseView::RestoreClients { lease, reason, active: Some(lease.target) })
            &&& lease.prior == Some(subject)
            &&& event matches EventView::Clients(Ok(clients))
            &&& first_at(identities_of(clients), subject.address) == Some(subject)
        },
{
}

/// When the user has moved the focus elsewhere, or to nothing, the transaction
/// ends without touching the focus.
pub proof fn law_takeover_ends_the_transaction(
    lease: LeaseView,
    reason: ReasonView,
    active: Option<IdentityView>,
    clients: Seq<ClientView>,
)
    requires
        active != Some(lease.target),
    ensures
        next(
            PhaseView::RestoreClients { lease, reason, active },
            EventView::Clients(Ok(clients)),
        ) == (
            PhaseView::Finished,
            ActionView::Finish(ending(reason, Ok(DecisionView::ActiveFocusChanged))),
        ),
{
}

/// A trusted window that is found mapped and on screen is begun with under the
/// very identity that was trusted.
pub proof fn law_trusted_visible_target_is_begun(
    expected: IdentityView,
    window_id: u64,
    clients: Seq<ClientView>,
    monitors: Seq<Monitor>,
)
    requires
        target_in(clients, expected) matches Some(target) && on_screen(target, monitors),
    ensures
        ({
            let found = next(
                PhaseView::TargetClients { expected, window_id },
                EventView::Clients(Ok(clients)),
            );
            &&& found.1 == ActionView::Read(Query::Monitors)
            &&& next(found.0, EventView::Monitors(Ok(monitors))) == (
                PhaseView::BeginClients { target: expected },
                ActionView::Read(Query::Clients),
            )
        }),
{
    lemma_first_where_meets(
        clients,
        |client: ClientView| client.mapped && client_identity(client) == Some(expected),
    );
}

} // verus!
