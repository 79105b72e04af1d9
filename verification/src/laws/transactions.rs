//! What a transaction does with each answer, stated on what was read.
use vstd::prelude::*;

use crate::command::{is_accepted, legacy_focus, lua_focus, reply_detail, CommandReply};
use crate::focus::{on_screen, prior_of, target_in, DecisionView, LeaseView};
use crate::guarantees::{
    after_events, in_turn, law_undisturbed_transaction_gives_the_focus_back, undisturbed_run,
};
use crate::identity::{active_identity, client_identity, first_at, identities_of, IdentityView};
use crate::laws::commands::law_dispatches_are_taken_with_ok;
use crate::laws::identities::{
    is_active_window, is_window, law_active_identity_is_made_of_its_fields,
    law_addresses_without_clients_are_empty, law_client_identity_is_made_of_its_fields,
    law_first_client_at_an_address_counts, law_live_identities_are_those_of_the_clients,
};
use crate::laws::windows::{
    law_every_monitor_shows_its_workspace, law_shown_workspaces_ignore_the_order, on_some_monitor,
};
use crate::outcome::{FailureView, OutcomeView};
use crate::records::{ActiveWindow, Client, ClientView, Monitor};
use crate::refusal::{Query, Refusal};
use crate::registry::{trust_answer, TrustView};
use crate::select::first_where;
use crate::text::is_white_space;
use crate::transaction::{
    answers, next, opening, Action, ActionView, AimView, Event, EventView, PhaseView, ReasonView,
    StepView,
};

verus! {

/// A transaction that ends with a refusal.
pub open spec fn ends_refused(refusal: Refusal) -> (PhaseView, ActionView) {
    (PhaseView::Finished, ActionView::Finish(OutcomeView::Failed(FailureView::Refused(refusal))))
}

/// How a transaction ends when the focus was dealt with.
pub open spec fn ends_dealt_with(reason: ReasonView, decision: DecisionView) -> OutcomeView {
    match reason {
        ReasonView::Rollback { cause } => OutcomeView::RolledBack { cause, decision },
        ReasonView::Release { body_ok: true } => OutcomeView::Value,
        ReasonView::Release { body_ok: false } => OutcomeView::BodyFailed,
    }
}

/// How a transaction ends when the focus could not be dealt with: no failure is
/// passed over, and that of the body comes first.
pub open spec fn ends_failed(reason: ReasonView, failure: FailureView) -> OutcomeView {
    match reason {
        ReasonView::Rollback { cause } => OutcomeView::RollbackFailed { cause, rollback: failure },
        ReasonView::Release { body_ok: true } => OutcomeView::Failed(failure),
        ReasonView::Release { body_ok: false } => OutcomeView::BodyAndRestoreFailed {
            restore: failure,
        },
    }
}

/// What follows a focus that failed: a rollback where the body was to run, and
/// the end where the focus was to go back.
pub open spec fn after_failed_focus(lease: LeaseView, aim: AimView, failure: FailureView) -> (
    PhaseView,
    ActionView,
) {
    match aim {
        AimView::Acquire => (
            PhaseView::RestoreActive { lease, reason: ReasonView::Rollback { cause: failure } },
            ActionView::Read(Query::ActiveWindow),
        ),
        AimView::Return(reason) => (
            PhaseView::Finished,
            ActionView::Finish(ends_failed(reason, failure)),
        ),
    }
}

/// Whether a window is the first one that a list of clients shows at its address.
pub open spec fn stands_first(clients: Seq<Client>, identity: IdentityView) -> bool {
    exists|i: int| #[trigger] first_at_place(clients, i, identity)
}

/// Whether a client is a window, and no client before it is a window at the same
/// address.
pub open spec fn first_at_place(clients: Seq<Client>, i: int, identity: IdentityView) -> bool {
    &&& 0 <= i < clients.len()
    &&& is_window(clients[i], identity)
    &&& forall|j: int, other: IdentityView|
        0 <= j < i && #[trigger] is_window(clients[j], other) ==> other.address
            != identity.address
}

/// Whether some client is a window.
pub open spec fn is_listed(clients: Seq<Client>, identity: IdentityView) -> bool {
    exists|i: int| 0 <= i < clients.len() && is_window(#[trigger] clients[i], identity)
}

proof fn lemma_contents(clients: Vec<Client>)
    ensures
        clients.deep_view() == clients@.map_values(|c: Client| c@),
{
    assert(clients.deep_view() =~= clients@.map_values(|c: Client| c@));
}

proof fn lemma_least_place(clients: Seq<Client>, address: u64) -> (found: Option<
    (int, IdentityView),
>)
    ensures
        match found {
            Some((i, identity)) => first_at_place(clients, i, identity) && identity.address
                == address,
            None => forall|i: int, identity: IdentityView|
                0 <= i < clients.len() && #[trigger] is_window(clients[i], identity)
                    ==> identity.address != address,
        },
    decreases clients.len(),
{
    if clients.len() == 0 {
        None
    } else {
        let shorter = clients.drop_last();
        let n = clients.len() - 1;
        assert(forall|j: int| 0 <= j < n ==> shorter[j] == #[trigger] clients[j]);
        match lemma_least_place(shorter, address) {
            Some((i, identity)) => {
                assert forall|j: int, other: IdentityView|
                    0 <= j < i && #[trigger] is_window(clients[j], other) implies other.address
                    != identity.address by {
                    assert(is_window(shorter[j], other));
                }
                assert(first_at_place(clients, i, identity));
                Some((i, identity))
            },
            None => {
                assert forall|j: int, other: IdentityView|
                    0 <= j < n && #[trigger] is_window(clients[j], other) implies other.address
                    != address by {
                    assert(is_window(shorter[j], other));
                }
                match client_identity(clients[n]@) {
                    Some(identity) if identity.address == address => {
                        law_client_identity_is_made_of_its_fields(clients[n], identity);
                        assert(first_at_place(clients, n, identity));
                        Some((n, identity))
                    },
                    _ => {
                        assert forall|i: int, identity: IdentityView|
                            0 <= i < clients.len() && #[trigger] is_window(
                                clients[i],
                                identity,
                            ) implies identity.address != address by {
                            if i == n {
                                law_client_identity_is_made_of_its_fields(clients[n], identity);
                            }
                        }
                        None
                    },
                }
            },
        }
    }
}

/// A window is first at its address in the list of identities where it is so in
/// the list of clients.
pub proof fn lemma_stands_first(clients: Vec<Client>, identity: IdentityView)
    ensures
        (first_at(identities_of(clients.deep_view()), identity.address) == Some(identity))
            == stands_first(clients@, identity),
{
    lemma_contents(clients);
    match lemma_least_place(clients@, identity.address) {
        Some((i, first)) => {
            law_first_client_at_an_address_counts(clients@, i, first);
            if stands_first(clients@, identity) {
                let k = choose|k: int| #[trigger] first_at_place(clients@, k, identity);
                law_first_client_at_an_address_counts(clients@, k, identity);
            }
            if first == identity {
                assert(first_at_place(clients@, i, identity));
            }
        },
        None => {
            law_addresses_without_clients_are_empty(clients@, identity.address);
            if stands_first(clients@, identity) {
                let k = choose|k: int| #[trigger] first_at_place(clients@, k, identity);
                assert(is_window(clients@[k], identity));
            }
        },
    }
}

proof fn lemma_listed(clients: Vec<Client>, identity: IdentityView)
    ensures
        identities_of(clients.deep_view()).contains(identity) == is_listed(clients@, identity),
{
    lemma_contents(clients);
    law_live_identities_are_those_of_the_clients(clients@, identity);
}

/// What is handed in is taken as it is.
pub proof fn law_event_contents(
    clients: Vec<Client>,
    monitors: Vec<Monitor>,
    active: ActiveWindow,
    reply: CommandReply,
    refusal: Refusal,
    waited_millis: u64,
    ok: bool,
)
    ensures
        Event::Clients(Ok(clients))@ == EventView::Clients(Ok(clients@.map_values(|c: Client| c@))),
        Event::Clients(Err(refusal))@ == EventView::Clients(Err(refusal)),
        Event::Monitors(Ok(monitors))@ == EventView::Monitors(Ok(monitors@)),
        Event::Monitors(Err(refusal))@ == EventView::Monitors(Err(refusal)),
        Event::Active(Ok(active))@ == EventView::Active(Ok(active@)),
        Event::Active(Err(refusal))@ == EventView::Active(Err(refusal)),
        (Event::Polled { active: Ok(active), waited_millis })@ == (EventView::Polled {
            active: Ok(active@),
            waited_millis,
        }),
        (Event::Polled { active: Err(refusal), waited_millis })@ == (EventView::Polled {
            active: Err(refusal),
            waited_millis,
        }),
        Event::Dispatched(Some(reply))@ == EventView::Dispatched(Some(reply@)),
        Event::Dispatched(None)@ == EventView::Dispatched(None),
        (Event::BodyDone { ok })@ == (EventView::BodyDone { ok }),
{
    lemma_contents(clients);
}

/// What is handed out is what it says.
pub proof fn law_action_contents(a: Action, b: Action)
    ensures
        a@ == b@ <==> match (a, b) {
            (Action::Read(left), Action::Read(right)) => left == right,
            (Action::Dispatch(left), Action::Dispatch(right)) => left.deep_view()
                == right.deep_view(),
            (Action::Poll { pause_millis: left }, Action::Poll { pause_millis: right }) => left
                == right,
            (Action::RunBody, Action::RunBody) => true,
            (Action::Finish(left), Action::Finish(right)) => left@ == right@,
            _ => false,
        },
{
}

/// Each phase waits for one kind of answer, and a finished transaction for none.
pub proof fn law_phases_wait_for_their_answers(phase: PhaseView, event: EventView)
    ensures
        answers(event, phase) <==> match phase {
            PhaseView::TargetClients { .. } => event is Clients,
            PhaseView::TargetMonitors { .. } => event is Monitors,
            PhaseView::BeginClients { .. } => event is Clients,
            PhaseView::BeginActive { .. } => event is Active,
            PhaseView::Focusing { step: StepView::Verify, .. } => event is Clients,
            PhaseView::Focusing { step: StepView::Lua, .. } => event is Dispatched,
            PhaseView::Focusing { step: StepView::Legacy { .. }, .. } => event is Dispatched,
            PhaseView::Focusing { step: StepView::Wait, .. } => event is Polled,
            PhaseView::RunningBody { .. } => event is BodyDone,
            PhaseView::RestoreActive { .. } => event is Active,
            PhaseView::RestoreClients { .. } => event is Clients,
            PhaseView::Finished => false,
        },
{
}

/// What a transaction asks for is what it waits for next.
pub proof fn law_actions_ask_for_what_is_waited_for(phase: PhaseView, event: EventView, then: EventView)
    requires
        answers(event, phase),
    ensures
        answers(then, next(phase, event).0) <==> match next(phase, event).1 {
            ActionView::Read(Query::Clients) => then is Clients,
            ActionView::Read(Query::Monitors) => then is Monitors,
            ActionView::Read(Query::ActiveWindow) => then is Active,
            ActionView::Dispatch(_) => then is Dispatched,
            ActionView::Poll { .. } => then is Polled,
            ActionView::RunBody => then is BodyDone,
            ActionView::Finish(_) => false,
        },
{
}

/// A transaction on a trusted window starts by asking for the clients; on any
/// other it ends with the registry's refusal.
pub proof fn law_transactions_start_with_the_clients(
    trusted: Result<IdentityView, Refusal>,
    window_id: u64,
)
    ensures
        trusted matches Ok(expected) ==> opening(trusted, window_id) == (
            PhaseView::TargetClients { expected, window_id },
            ActionView::Read(Query::Clients),
        ),
        trusted matches Err(refusal) ==> opening(trusted, window_id) == ends_refused(refusal),
{
}

/// The target is the first mapped client that is the trusted window.
pub proof fn law_first_mapped_client_is_the_target(
    expected: IdentityView,
    window_id: u64,
    clients: Vec<Client>,
    i: int,
)
    requires
        0 <= i < clients@.len(),
        clients@[i].mapped,
        is_window(clients@[i], expected),
        forall|j: int|
            0 <= j < i && (#[trigger] clients@[j]).mapped ==> !is_window(clients@[j], expected),
    ensures
        next(PhaseView::TargetClients { expected, window_id }, Event::Clients(Ok(clients))@) == (
            PhaseView::TargetMonitors { client: clients@[i]@, window_id },
            ActionView::Read(Query::Monitors),
        ),
        target_in(clients.deep_view(), expected) == Some(clients@[i]@),
{
    let seen = clients.deep_view();
    let wanted = |client: ClientView| client.mapped && client_identity(client) == Some(expected);
    assert forall|j: int| 0 <= j < i implies !wanted(#[trigger] seen[j]) by {
        law_client_identity_is_made_of_its_fields(clients@[j], expected);
        assert(seen[j] == clients@[j]@);
        assert(clients@[j].mapped ==> !is_window(clients@[j], expected));
    }
    law_client_identity_is_made_of_its_fields(clients@[i], expected);
    assert(seen[i] == clients@[i]@);
    lemma_first_where_at(seen, wanted, i);
}

proof fn lemma_first_where_at<A>(items: Seq<A>, wanted: spec_fn(A) -> bool, i: int)
    requires
        0 <= i < items.len(),
        wanted(items[i]),
        forall|j: int| 0 <= j < i ==> !wanted(#[trigger] items[j]),
    ensures
        first_where(items, wanted) == Some(items[i]),
    decreases items.len(),
{
    if i > 0 {
        let rest = items.drop_first();
        assert(!wanted(items[0]));
        assert forall|j: int| 0 <= j < i - 1 implies !wanted(#[trigger] rest[j]) by {
            assert(items[j + 1] == rest[j]);
        }
        lemma_first_where_at(rest, wanted, i - 1);
    }
}

proof fn lemma_first_where_none<A>(items: Seq<A>, wanted: spec_fn(A) -> bool)
    requires
        forall|j: int| 0 <= j < items.len() ==> !wanted(#[trigger] items[j]),
    ensures
        first_where(items, wanted) is None,
    decreases items.len(),
{
    if items.len() > 0 {
        let rest = items.drop_first();
        assert(!wanted(items[0]));
        assert forall|j: int| 0 <= j < rest.len() implies !wanted(#[trigger] rest[j]) by {
            assert(items[j + 1] == rest[j]);
        }
        lemma_first_where_none(rest, wanted);
    }
}

/// A trusted window that no mapped client is any more is refused as stale.
pub proof fn law_targets_that_are_not_mapped_are_stale(
    expected: IdentityView,
    window_id: u64,
    clients: Vec<Client>,
)
    requires
        forall|j: int|
            0 <= j < clients@.len() && (#[trigger] clients@[j]).mapped ==> !is_window(
                clients@[j],
                expected,
            ),
    ensures
        next(PhaseView::TargetClients { expected, window_id }, Event::Clients(Ok(clients))@)
            == ends_refused(Refusal::StaleTarget { address: window_id }),
{
    let seen = clients.deep_view();
    let wanted = |client: ClientView| client.mapped && client_identity(client) == Some(expected);
    assert forall|j: int| 0 <= j < seen.len() implies !wanted(#[trigger] seen[j]) by {
        law_client_identity_is_made_of_its_fields(clients@[j], expected);
        assert(seen[j] == clients@[j]@);
        assert(clients@[j].mapped ==> !is_window(clients@[j], expected));
    }
    lemma_first_where_none(seen, wanted);
}

/// A target that is not hidden passes the check of visibility where its workspace
/// is the active one of any monitor, at whatever place in the list that monitor
/// stands.
pub proof fn law_targets_on_any_monitor_are_visible(
    client: Client,
    target: IdentityView,
    window_id: u64,
    monitors: Vec<Monitor>,
    i: int,
)
    requires
        !client.hidden,
        client.workspace.id != 0,
        0 <= i < monitors@.len(),
        monitors@[i].active_workspace.id == client.workspace.id,
        is_window(client, target),
    ensures
        next(
            PhaseView::TargetMonitors { client: client@, window_id },
            Event::Monitors(Ok(monitors))@,
        ) == (PhaseView::BeginClients { target }, ActionView::Read(Query::Clients)),
        on_screen(client@, monitors@),
{
    assert(on_some_monitor(monitors@, client.workspace.id));
    law_every_monitor_shows_its_workspace(monitors@, client.workspace.id);
    law_client_identity_is_made_of_its_fields(client, target);
}

/// A target that is hidden, or whose workspace is zero or the active one of no
/// monitor, is refused as not visible.
pub proof fn law_targets_on_no_monitor_are_refused(
    client: Client,
    window_id: u64,
    monitors: Vec<Monitor>,
)
    requires
        client.hidden || client.workspace.id == 0 || forall|i: int|
            0 <= i < monitors@.len() ==> (#[trigger] monitors@[i]).active_workspace.id
                != client.workspace.id,
    ensures
        next(
            PhaseView::TargetMonitors { client: client@, window_id },
            Event::Monitors(Ok(monitors))@,
        ) == ends_refused(Refusal::TargetNotVisible { address: window_id }),
        !on_screen(client@, monitors@),
{
    law_every_monitor_shows_its_workspace(monitors@, client.workspace.id);
}

/// Whether a target is visible does not depend on the order of the monitors.
pub proof fn law_visibility_ignores_the_order(
    client: Client,
    window_id: u64,
    left: Vec<Monitor>,
    right: Vec<Monitor>,
)
    requires
        left@.to_set() == right@.to_set(),
    ensures
        next(
            PhaseView::TargetMonitors { client: client@, window_id },
            Event::Monitors(Ok(left))@,
        ) == next(
            PhaseView::TargetMonitors { client: client@, window_id },
            Event::Monitors(Ok(right))@,
        ),
{
    law_shown_workspaces_ignore_the_order(left@, right@);
}

/// A target that has no identity is refused as such, once it is visible.
pub proof fn law_targets_without_identity_are_refused(
    client: Client,
    window_id: u64,
    monitors: Vec<Monitor>,
)
    requires
        on_screen(client@, monitors@),
        forall|target: IdentityView| !#[trigger] is_window(client, target),
    ensures
        next(
            PhaseView::TargetMonitors { client: client@, window_id },
            Event::Monitors(Ok(monitors))@,
        ) == ends_refused(Refusal::TargetWithoutIdentity),
{
    if let Some(target) = client_identity(client@) {
        law_client_identity_is_made_of_its_fields(client, target);
        assert(is_window(client, target));
    }
}

/// The target has to be listed once more: where some client is that window, the
/// active window is asked for, and otherwise the target has changed.
pub proof fn law_targets_are_listed_before_the_focus(target: IdentityView, clients: Vec<Client>)
    ensures
        is_listed(clients@, target) ==> next(
            PhaseView::BeginClients { target },
            Event::Clients(Ok(clients))@,
        ) == (
            PhaseView::BeginActive { target, live: identities_of(clients.deep_view()) },
            ActionView::Read(Query::ActiveWindow),
        ),
        !is_listed(clients@, target) ==> next(
            PhaseView::BeginClients { target },
            Event::Clients(Ok(clients))@,
        ) == ends_refused(Refusal::TargetChanged),
{
    lemma_listed(clients, target);
}

/// The focusing of the target under a lease that remembers a prior window.
pub open spec fn starts_focusing(target: IdentityView, prior: Option<IdentityView>) -> (
    PhaseView,
    ActionView,
) {
    (
        PhaseView::Focusing {
            lease: LeaseView { target, prior },
            subject: target,
            aim: AimView::Acquire,
            step: StepView::Verify,
        },
        ActionView::Read(Query::Clients),
    )
}

/// The window that is active before the target is remembered where it is another
/// one and live; a target that is active itself leaves nothing to remember; and
/// an active window that is neither is refused.
pub proof fn law_active_windows_are_remembered(
    target: IdentityView,
    live: Seq<IdentityView>,
    active: ActiveWindow,
    identity: IdentityView,
)
    requires
        is_active_window(active, identity),
    ensures
        ({
            let then = next(
                PhaseView::BeginActive { target, live },
                Event::Active(Ok(active))@,
            );
            &&& identity == target ==> then == starts_focusing(target, None)
            &&& identity != target && live.contains(identity) ==> then == starts_focusing(
                target,
                Some(identity),
            )
            &&& identity != target && !live.contains(identity) ==> then == ends_refused(
                Refusal::ActiveNotLive,
            )
        }),
{
    law_active_identity_is_made_of_its_fields(active, identity);
}

/// Without an identifiable active window, the target is focused with nothing to
/// remember where the address is empty or white space, and refused otherwise.
pub proof fn law_unidentified_active_windows_are_refused(
    target: IdentityView,
    live: Seq<IdentityView>,
    active: ActiveWindow,
)
    requires
        forall|identity: IdentityView| !#[trigger] is_active_window(active, identity),
    ensures
        next(PhaseView::BeginActive { target, live }, Event::Active(Ok(active))@) == (if forall|
            i: int,
        |
            0 <= i < active.address@.len() ==> is_white_space(#[trigger] active.address@[i]) {
            starts_focusing(target, None)
        } else {
            ends_refused(Refusal::ActiveUnverifiable)
        }),
{
    if let Some(identity) = active_identity(active@) {
        law_active_identity_is_made_of_its_fields(active, identity);
        assert(is_active_window(active, identity));
    }
}

/// Before the target is being focused, a failed reading ends the transaction with
/// that refusal.
pub proof fn law_early_failures_end_the_transaction(
    expected: IdentityView,
    window_id: u64,
    client: ClientView,
    live: Seq<IdentityView>,
    refusal: Refusal,
)
    ensures
        next(PhaseView::TargetClients { expected, window_id }, Event::Clients(Err(refusal))@)
            == ends_refused(refusal),
        next(PhaseView::TargetMonitors { client, window_id }, Event::Monitors(Err(refusal))@)
            == ends_refused(refusal),
        next(PhaseView::BeginClients { target: expected }, Event::Clients(Err(refusal))@)
            == ends_refused(refusal),
        next(PhaseView::BeginActive { target: expected, live }, Event::Active(Err(refusal))@)
            == ends_refused(refusal),
{
}

/// A window is sent the Lua dispatch where a fresh list of clients shows it first
/// at its address, and otherwise the focus fails as stale; a failed reading is
/// passed on.
pub proof fn law_windows_are_checked_before_the_dispatch(
    lease: LeaseView,
    subject: IdentityView,
    aim: AimView,
    clients: Vec<Client>,
    refusal: Refusal,
)
    ensures
        ({
            let phase = PhaseView::Focusing { lease, subject, aim, step: StepView::Verify };
            &&& stands_first(clients@, subject) ==> next(phase, Event::Clients(Ok(clients))@) == (
                PhaseView::Focusing { lease, subject, aim, step: StepView::Lua },
                ActionView::Dispatch(lua_focus(subject.address)),
            )
            &&& !stands_first(clients@, subject) ==> next(phase, Event::Clients(Ok(clients))@)
                == after_failed_focus(
                lease,
                aim,
                FailureView::Refused(Refusal::StaleFocus { address: subject.address }),
            )
            &&& next(phase, Event::Clients(Err(refusal))@) == after_failed_focus(
                lease,
                aim,
                FailureView::Refused(refusal),
            )
        }),
{
    lemma_stands_first(clients, subject);
}

/// After the Lua dispatch: where it was taken, the focus is looked for at once;
/// where it was refused, the legacy dispatch follows; where it could not be
/// started, the focus fails.
pub proof fn law_refused_lua_dispatches_fall_back(
    lease: LeaseView,
    subject: IdentityView,
    aim: AimView,
    reply: CommandReply,
)
    ensures
        ({
            let phase = PhaseView::Focusing { lease, subject, aim, step: StepView::Lua };
            &&& is_accepted(reply@) ==> next(phase, Event::Dispatched(Some(reply))@) == (
                PhaseView::Focusing { lease, subject, aim, step: StepView::Wait },
                ActionView::Poll { pause_millis: 0 },
            )
            &&& !is_accepted(reply@) ==> next(phase, Event::Dispatched(Some(reply))@) == (
                PhaseView::Focusing {
                    lease,
                    subject,
                    aim,
                    step: StepView::Legacy { lua: reply_detail(reply@) },
                },
                ActionView::Dispatch(legacy_focus(subject.address)),
            )
            &&& next(phase, Event::Dispatched(None)@) == after_failed_focus(
                lease,
                aim,
                FailureView::Refused(Refusal::LuaFocusNotLaunched),
            )
        }),
{
}

/// After the legacy dispatch: where it was taken, the focus is looked for at once;
/// where it was refused too, the focus fails with both details; where it could
/// not be started, the focus fails.
pub proof fn law_two_refused_dispatches_fail_the_focus(
    lease: LeaseView,
    subject: IdentityView,
    aim: AimView,
    lua: Seq<char>,
    reply: CommandReply,
)
    ensures
        ({
            let phase = PhaseView::Focusing { lease, subject, aim, step: StepView::Legacy { lua } };
            &&& is_accepted(reply@) ==> next(phase, Event::Dispatched(Some(reply))@) == (
                PhaseView::Focusing { lease, subject, aim, step: StepView::Wait },
                ActionView::Poll { pause_millis: 0 },
            )
            &&& !is_accepted(reply@) ==> next(phase, Event::Dispatched(Some(reply))@)
                == after_failed_focus(
                lease,
                aim,
                FailureView::DispatchFailed { lua, legacy: reply_detail(reply@) },
            )
            &&& next(phase, Event::Dispatched(None)@) == after_failed_focus(
                lease,
                aim,
                FailureView::Refused(Refusal::LegacyFocusNotLaunched),
            )
        }),
{
}

/// The focus has arrived when the active window is the very window, however late
/// it is: the body is run, or the transaction ends.
pub proof fn law_focus_arrives_with_the_window(
    lease: LeaseView,
    subject: IdentityView,
    active: ActiveWindow,
    waited_millis: u64,
    reason: ReasonView,
)
    requires
        is_active_window(active, subject),
    ensures
        next(
            PhaseView::Focusing { lease, subject, aim: AimView::Acquire, step: StepView::Wait },
            (Event::Polled { active: Ok(active), waited_millis })@,
        ) == (PhaseView::RunningBody { lease }, ActionView::RunBody),
        next(
            PhaseView::Focusing {
                lease,
                subject,
                aim: AimView::Return(reason),
                step: StepView::Wait,
            },
            (Event::Polled { active: Ok(active), waited_millis })@,
        ) == (
            PhaseView::Finished,
            ActionView::Finish(ends_dealt_with(reason, DecisionView::Restore(subject))),
        ),
{
    law_active_identity_is_made_of_its_fields(active, subject);
}

/// A different window that is active at the address fails the focus at once.
pub proof fn law_reused_addresses_fail_the_focus(
    lease: LeaseView,
    subject: IdentityView,
    aim: AimView,
    active: ActiveWindow,
    other: IdentityView,
    waited_millis: u64,
)
    requires
        is_active_window(active, other),
        other.address == subject.address,
        other != subject,
    ensures
        next(
            PhaseView::Focusing { lease, subject, aim, step: StepView::Wait },
            (Event::Polled { active: Ok(active), waited_millis })@,
        ) == after_failed_focus(
            lease,
            aim,
            FailureView::Refused(Refusal::AddressReused { address: subject.address }),
        ),
{
    law_active_identity_is_made_of_its_fields(active, other);
}

/// Whether a look for the focus shows nothing at an address: the reading failed,
/// or the active window stands elsewhere or cannot be identified.
pub open spec fn shows_nothing_at(active: Result<ActiveWindow, Refusal>, address: u64) -> bool {
    active matches Ok(window) ==> forall|other: IdentityView| #[trigger]
        is_active_window(window, other) ==> other.address != address
}

/// While nothing is seen at the address, the focus is looked for again every
/// fifteen milliseconds, until half a second has passed since the dispatch.
pub proof fn law_focus_is_looked_for_half_a_second(
    lease: LeaseView,
    subject: IdentityView,
    aim: AimView,
    active: Result<ActiveWindow, Refusal>,
    waited_millis: u64,
)
    requires
        shows_nothing_at(active, subject.address),
    ensures
        ({
            let phase = PhaseView::Focusing { lease, subject, aim, step: StepView::Wait };
            let then = next(phase, (Event::Polled { active, waited_millis })@);
            if waited_millis < 500 {
                then == (phase, ActionView::Poll { pause_millis: 15 })
            } else {
                then == after_failed_focus(
                    lease,
                    aim,
                    FailureView::Refused(Refusal::FocusTimedOut { address: subject.address }),
                )
            }
        }),
{
    if let Ok(window) = active {
        if let Some(other) = active_identity(window@) {
            law_active_identity_is_made_of_its_fields(window, other);
            assert(is_active_window(window, other));
        }
    }
}

/// Once the body is done, the active window is asked for, and then the clients; a
/// reading that fails ends the transaction without passing over the body's own
/// failure or the cause of a rollback.
pub proof fn law_readings_before_the_return(
    lease: LeaseView,
    reason: ReasonView,
    known: Option<IdentityView>,
    active: ActiveWindow,
    refusal: Refusal,
    ok: bool,
)
    ensures
        next(PhaseView::RunningBody { lease }, (Event::BodyDone { ok })@) == (
            PhaseView::RestoreActive { lease, reason: ReasonView::Release { body_ok: ok } },
            ActionView::Read(Query::ActiveWindow),
        ),
        next(PhaseView::RestoreActive { lease, reason }, Event::Active(Ok(active))@) == (
            PhaseView::RestoreClients { lease, reason, active: active_identity(active@) },
            ActionView::Read(Query::Clients),
        ),
        next(PhaseView::RestoreActive { lease, reason }, Event::Active(Err(refusal))@) == (
            PhaseView::Finished,
            ActionView::Finish(ends_failed(reason, FailureView::Refused(refusal))),
        ),
        next(
            PhaseView::RestoreClients { lease, reason, active: known },
            Event::Clients(Err(refusal))@,
        ) == (
            PhaseView::Finished,
            ActionView::Finish(ends_failed(reason, FailureView::Refused(refusal))),
        ),
{
}

/// The focus goes back to the prior window where the target was read to be active
/// and the clients show that window first at its address. Otherwise it is left
/// alone: because the user took it over, because there is no prior window, or
/// because that window is gone or replaced.
pub proof fn law_focus_goes_back_where_it_may(
    lease: LeaseView,
    reason: ReasonView,
    active: Option<IdentityView>,
    clients: Vec<Client>,
)
    ensures
        ({
            let then = next(
                PhaseView::RestoreClients { lease, reason, active },
                Event::Clients(Ok(clients))@,
            );
            let left_alone = |decision: DecisionView|
                (PhaseView::Finished, ActionView::Finish(ends_dealt_with(reason, decision)));
            &&& active != Some(lease.target) ==> then == left_alone(
                DecisionView::ActiveFocusChanged,
            )
            &&& active == Some(lease.target) && lease.prior is None ==> then == left_alone(
                DecisionView::NoPriorFocus,
            )
            &&& active == Some(lease.target) ==> (lease.prior matches Some(prior)
                ==> if stands_first(clients@, prior) {
                then == (
                    PhaseView::Focusing {
                        lease,
                        subject: prior,
                        aim: AimView::Return(reason),
                        step: StepView::Verify,
                    },
                    ActionView::Read(Query::Clients),
                )
            } else {
                then == left_alone(DecisionView::PriorWindowUnavailable)
            })
        }),
{
    if let Some(prior) = lease.prior {
        lemma_stands_first(clients, prior);
    }
}

/// The prior window of a lease is the active one, where it is live and not the
/// target, and nothing else.
pub proof fn law_prior_windows_are_active_live_and_others(
    active: Option<IdentityView>,
    target: IdentityView,
    live: Seq<IdentityView>,
    prior: IdentityView,
)
    ensures
        prior_of(active, target, live) == Some(prior) <==> {
            &&& active == Some(prior)
            &&& prior != target
            &&& exists|i: int| 0 <= i < live.len() && #[trigger] live[i] == prior
        },
{
}

/// A trusted window that is mapped, not hidden and on the active workspace of any
/// monitor gets the keyboard: undisturbed, it is focused, the body runs, the
/// window that had the focus gets it back, and the body's own result stands.
pub proof fn law_visible_windows_get_the_keyboard(
    registry: Map<u64, TrustView>,
    pid: u32,
    window_id: u64,
    target: IdentityView,
    prior: IdentityView,
    clients: Vec<Client>,
    i: int,
    monitors: Vec<Monitor>,
    m: int,
    before: ActiveWindow,
    during: ActiveWindow,
    reply: CommandReply,
    ok: bool,
    waited_millis: u64,
)
    requires
        trust_answer(registry, window_id, pid) == Ok::<_, Refusal>(target),
        0 <= i < clients@.len(),
        clients@[i].mapped,
        !clients@[i].hidden,
        is_window(clients@[i], target),
        forall|j: int|
            0 <= j < i && (#[trigger] clients@[j]).mapped ==> !is_window(clients@[j], target),
        clients@[i].workspace.id != 0,
        0 <= m < monitors@.len(),
        monitors@[m].active_workspace.id == clients@[i].workspace.id,
        stands_first(clients@, target),
        stands_first(clients@, prior),
        target != prior,
        is_active_window(before, prior),
        is_active_window(during, target),
        reply.success,
        reply.stdout@.len() >= 2,
        reply.stdout@.take(2) == seq![111u8, 107u8],
    ensures
        ({
            let start = opening(trust_answer(registry, window_id, pid), window_id);
            let events = undisturbed_run(
                clients@.map_values(|c: Client| c@),
                monitors@,
                before@,
                during@,
                reply@,
                ok,
                waited_millis,
            );
            &&& in_turn(start, events)
            &&& after_events(start, events.take(5)).1 == ActionView::Dispatch(
                lua_focus(target.address),
            )
            &&& after_events(start, events.take(7)).1 is RunBody
            &&& after_events(start, events.take(11)).1 == ActionView::Dispatch(
                lua_focus(prior.address),
            )
            &&& after_events(start, events).1 == ActionView::Finish(
                if ok {
                    OutcomeView::Value
                } else {
                    OutcomeView::BodyFailed
                },
            )
        }),
{
    lemma_contents(clients);
    law_first_mapped_client_is_the_target(target, window_id, clients, i);
    law_targets_on_any_monitor_are_visible(clients@[i], target, window_id, monitors, m);
    lemma_stands_first(clients, target);
    lemma_stands_first(clients, prior);
    law_active_identity_is_made_of_its_fields(before, prior);
    law_active_identity_is_made_of_its_fields(during, target);
    law_dispatches_are_taken_with_ok(reply@);
    law_undisturbed_transaction_gives_the_focus_back(
        target,
        prior,
        window_id,
        clients.deep_view(),
        monitors@,
        before@,
        during@,
        reply@,
        ok,
        waited_millis,
    );
}

} // verus!
