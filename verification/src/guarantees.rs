//! What holds of whole transactions: runs of a focus transaction from its start,
//! whatever the compositor and the user do in between.
use vstd::prelude::*;

use crate::command::{is_accepted, lua_focus, ReplyView};
use crate::focus::{
    law_lease_remembers_a_live_other_window, lemma_first_at_is_listed, on_screen, restore_decision,
    target_in, DecisionView, LeaseView, FOCUS_POLL_INTERVAL_MILLIS, FOCUS_TIMEOUT_MILLIS,
};
use crate::identity::{active_identity, client_identity, first_at, identities_of, IdentityView};
use crate::outcome::{FailureView, OutcomeView};
use crate::records::{ActiveWindowView, ClientView, Monitor};
use crate::refusal::Refusal;
use crate::registry::{trust_answer, TrustView};
use crate::select::lemma_first_where_meets;
use crate::transaction::{
    answers, focused, law_body_runs_only_with_the_target_focused, law_steps_keep_phases_sound,
    next, opening, sound_phase, ActionView, AimView, EventView, PhaseView, ReasonView, StepView,
};

verus! {

/// Where a transaction stands after some events, and what is to be done then.
pub open spec fn after_events(
    start: (PhaseView, ActionView),
    events: Seq<EventView>,
) -> (PhaseView, ActionView)
    decreases events.len(),
{
    if events.len() == 0 {
        start
    } else {
        next(after_events(start, events.drop_last()).0, events.last())
    }
}

/// Whether each event answers what the transaction waits for when it comes.
pub open spec fn in_turn(start: (PhaseView, ActionView), events: Seq<EventView>) -> bool
    decreases events.len(),
{
    events.len() == 0 || {
        &&& in_turn(start, events.drop_last())
        &&& answers(events.last(), after_events(start, events.drop_last()).0)
    }
}

/// How many answers a phase still waits for at most, apart from repeated looks
/// for the focus.
pub open spec fn remaining(phase: PhaseView) -> nat {
    match phase {
        PhaseView::TargetClients { .. } => 15,
        PhaseView::TargetMonitors { .. } => 14,
        PhaseView::BeginClients { .. } => 13,
        PhaseView::BeginActive { .. } => 12,
        PhaseView::Focusing { aim, step, .. } => {
            let base: nat = match aim {
                AimView::Acquire => 7,
                AimView::Return(_) => 0,
            };
            match step {
                StepView::Verify => base + 4,
                StepView::Lua => base + 3,
                StepView::Legacy { .. } => base + 2,
                StepView::Wait => base + 1,
            }
        },
        PhaseView::RunningBody { .. } => 7,
        PhaseView::RestoreActive { .. } => 6,
        PhaseView::RestoreClients { .. } => 5,
        PhaseView::Finished => 0,
    }
}

/// Every step brings the transaction closer to its end, except for a look for
/// the focus before time is up that does not find it, which leaves it as it was.
pub proof fn law_every_step_advances(phase: PhaseView, event: EventView)
    requires
        answers(event, phase),
    ensures
        remaining(next(phase, event).0) < remaining(phase) || {
            &&& next(phase, event) == (
                phase,
                ActionView::Poll { pause_millis: FOCUS_POLL_INTERVAL_MILLIS },
            )
            &&& event matches EventView::Polled { waited_millis, .. }
            &&& waited_millis < FOCUS_TIMEOUT_MILLIS
        },
{
}

/// The number of events that are no looks for the focus.
pub open spec fn other_than_polls(events: Seq<EventView>) -> nat
    decreases events.len(),
{
    if events.len() == 0 {
        0
    } else {
        other_than_polls(events.drop_last()) + if events.last() is Polled {
            0nat
        } else {
            1
        }
    }
}

/// Apart from looks for the focus, a transaction takes no more than fifteen
/// events.
pub proof fn law_transactions_are_bounded(
    trusted: Result<IdentityView, Refusal>,
    window_id: u64,
    events: Seq<EventView>,
)
    requires
        in_turn(opening(trusted, window_id), events),
    ensures
        other_than_polls(events) + remaining(after_events(opening(trusted, window_id), events).0)
            <= 15,
    decreases events.len(),
{
    if events.len() > 0 {
        let start = opening(trusted, window_id);
        law_transactions_are_bounded(trusted, window_id, events.drop_last());
        law_every_step_advances(after_events(start, events.drop_last()).0, events.last());
    }
}

proof fn lemma_remaining_never_grows(start: (PhaseView, ActionView), events: Seq<EventView>, n: int)
    requires
        in_turn(start, events),
        0 <= n <= events.len(),
    ensures
        in_turn(start, events.take(n)),
        remaining(after_events(start, events).0) <= remaining(
            after_events(start, events.take(n)).0,
        ),
    decreases events.len(),
{
    if n == events.len() {
        assert(events.take(n) == events);
    } else {
        let shorter = events.drop_last();
        lemma_remaining_never_grows(start, shorter, n);
        assert(shorter.take(n) == events.take(n));
        law_every_step_advances(after_events(start, shorter).0, events.last());
    }
}

/// The body is run at most once: no two points of a transaction ask for it.
pub proof fn law_body_runs_at_most_once(
    trusted: Result<IdentityView, Refusal>,
    window_id: u64,
    events: Seq<EventView>,
    i: int,
    j: int,
)
    requires
        in_turn(opening(trusted, window_id), events),
        0 <= i < j <= events.len(),
        after_events(opening(trusted, window_id), events.take(i)).1 is RunBody,
    ensures
        !(after_events(opening(trusted, window_id), events.take(j)).1 is RunBody),
{
    let start = opening(trusted, window_id);
    lemma_remaining_never_grows(start, events, i);
    lemma_remaining_never_grows(start, events, j);
    lemma_remaining_never_grows(start, events, j - 1);
    let before = events.take(j).drop_last();
    assert(before == events.take(j - 1));
    lemma_remaining_never_grows(start, events.take(j - 1), i);
    assert(events.take(j - 1).take(i) == events.take(i));
    lemma_run_body_is_the_running_phase(start, events.take(i));
}

proof fn lemma_run_body_is_the_running_phase(start: (PhaseView, ActionView), events: Seq<EventView>)
    requires
        in_turn(start, events),
        start.1 is RunBody ==> start.0 is RunningBody,
    ensures
        after_events(start, events).1 is RunBody ==> after_events(start, events).0 is RunningBody,
{
}

/// The report of the body that a phase carries to the end.
pub open spec fn carried_report(phase: PhaseView) -> Option<bool> {
    match phase {
        PhaseView::Focusing { aim: AimView::Return(ReasonView::Release { body_ok }), .. } => Some(
            body_ok,
        ),
        PhaseView::RestoreActive { reason: ReasonView::Release { body_ok }, .. } => Some(body_ok),
        PhaseView::RestoreClients { reason: ReasonView::Release { body_ok }, .. } => Some(body_ok),
        _ => None,
    }
}

/// Whether an outcome fits what the body reported, if it was run at all.
pub open spec fn outcome_fits(outcome: OutcomeView, report: Option<bool>) -> bool {
    match outcome {
        OutcomeView::Value => report == Some(true),
        OutcomeView::BodyFailed => report == Some(false),
        OutcomeView::Failed(_) => report != Some(false),
        OutcomeView::RolledBack { .. } => report is None,
        OutcomeView::RollbackFailed { .. } => report is None,
        OutcomeView::BodyAndRestoreFailed { .. } => report == Some(false),
    }
}

/// The last report of the body among some events.
pub open spec fn body_report(events: Seq<EventView>) -> Option<bool>
    decreases events.len(),
{
    if events.len() == 0 {
        None
    } else {
        match events.last() {
            EventView::BodyDone { ok } => Some(ok),
            _ => body_report(events.drop_last()),
        }
    }
}

/// The outcome is true to the body: its value is handed out only if it succeeded,
/// its error is never lost, and where the target could not be focused it was not
/// run.
pub proof fn law_outcome_is_true_to_the_body(
    trusted: Result<IdentityView, Refusal>,
    window_id: u64,
    events: Seq<EventView>,
)
    requires
        in_turn(opening(trusted, window_id), events),
    ensures
        after_events(opening(trusted, window_id), events).1 matches ActionView::Finish(outcome)
            ==> outcome_fits(outcome, body_report(events)),
{
    lemma_report_is_carried(trusted, window_id, events);
}

proof fn lemma_report_is_carried(
    trusted: Result<IdentityView, Refusal>,
    window_id: u64,
    events: Seq<EventView>,
)
    requires
        in_turn(opening(trusted, window_id), events),
    ensures
        ({
            let now = after_events(opening(trusted, window_id), events);
            &&& !(now.0 is Finished) ==> {
                &&& carried_report(now.0) == body_report(events)
                &&& !(now.1 is Finish)
            }
            &&& now.1 matches ActionView::Finish(outcome) ==> outcome_fits(
                outcome,
                body_report(events),
            )
        }),
    decreases events.len(),
{
    if events.len() > 0 {
        lemma_report_is_carried(trusted, window_id, events.drop_last());
    }
}

/// A request that the registry refuses ends at once with that refusal.
pub proof fn law_untrusted_targets_are_refused_at_once(
    registry: Map<u64, TrustView>,
    pid: u32,
    window_id: u64,
)
    ensures
        trust_answer(registry, window_id, pid) matches Err(refusal) ==> opening(
            trust_answer(registry, window_id, pid),
            window_id,
        ) == (
            PhaseView::Finished,
            ActionView::Finish(OutcomeView::Failed(FailureView::Refused(refusal))),
        ),
{
}

/// Whether a transaction is about a window.
pub open spec fn concerns(phase: PhaseView, target: IdentityView) -> bool {
    match phase {
        PhaseView::TargetClients { expected, .. } => expected == target,
        PhaseView::TargetMonitors { client, .. } => client_identity(client) == Some(target),
        PhaseView::BeginClients { target: begun } => begun == target,
        PhaseView::BeginActive { target: begun, .. } => begun == target,
        PhaseView::Focusing { lease, .. } => lease.target == target,
        PhaseView::RunningBody { lease } => lease.target == target,
        PhaseView::RestoreActive { lease, .. } => lease.target == target,
        PhaseView::RestoreClients { lease, .. } => lease.target == target,
        PhaseView::Finished => true,
    }
}

/// The body is run only while the very window that the registry trusted, owned by
/// the process that asked, was just read to be the active one.
pub proof fn law_body_runs_on_the_trusted_window(
    registry: Map<u64, TrustView>,
    pid: u32,
    window_id: u64,
    events: Seq<EventView>,
)
    requires
        in_turn(opening(trust_answer(registry, window_id, pid), window_id), events),
        after_events(opening(trust_answer(registry, window_id, pid), window_id), events).1
            is RunBody,
    ensures
        trust_answer(registry, window_id, pid) matches Ok(trusted) && {
            &&& trusted.pid == pid
            &&& events.last() matches EventView::Polled { active: Ok(active), .. }
            &&& active_identity(active) == Some(trusted)
        },
{
    let answer = trust_answer(registry, window_id, pid);
    let start = opening(answer, window_id);
    lemma_events_keep_the_target(answer, window_id, events);
    lemma_events_keep_the_target(answer, window_id, events.drop_last());
    law_body_runs_only_with_the_target_focused(
        after_events(start, events.drop_last()).0,
        events.last(),
    );
}

proof fn lemma_events_keep_the_target(
    trusted: Result<IdentityView, Refusal>,
    window_id: u64,
    events: Seq<EventView>,
)
    requires
        in_turn(opening(trusted, window_id), events),
    ensures
        sound_phase(after_events(opening(trusted, window_id), events).0),
        match trusted {
            Ok(target) => concerns(after_events(opening(trusted, window_id), events).0, target),
            Err(_) => events.len() == 0,
        },
    decreases events.len(),
{
    if events.len() > 0 {
        let before = after_events(opening(trusted, window_id), events.drop_last()).0;
        lemma_events_keep_the_target(trusted, window_id, events.drop_last());
        law_steps_keep_phases_sound(before, events.last());
        if let PhaseView::TargetClients { expected, .. } = before {
            if let EventView::Clients(Ok(clients)) = events.last() {
                lemma_first_where_meets(
                    clients,
                    |client: ClientView| client.mapped && client_identity(client) == Some(expected),
                );
            }
        }
    }
}

/// Whether the window that is focused to have the focus back was found in order:
/// at one point the active window was read to be the target, and the list of
/// clients read next showed the prior window first at its address.
pub open spec fn returned_in_order(
    events: Seq<EventView>,
    at: int,
    target: IdentityView,
    prior: IdentityView,
) -> bool {
    &&& 0 <= at
    &&& at + 1 < events.len()
    &&& events[at] matches EventView::Active(Ok(active)) && active_identity(active) == Some(target)
    &&& events[at + 1] matches EventView::Clients(Ok(clients)) && first_at(
        identities_of(clients),
        prior.address,
    ) == Some(prior)
}

/// Whether at some point the active window was read to be this one.
pub open spec fn was_active(events: Seq<EventView>, at: int, identity: IdentityView) -> bool {
    &&& 0 <= at < events.len()
    &&& events[at] matches EventView::Active(Ok(active)) && active_identity(active) == Some(identity)
}

/// Whether the prior window of a lease, where there is one, was active at some
/// point.
spec fn prior_was_active(events: Seq<EventView>, lease: LeaseView) -> bool {
    lease.prior matches Some(prior) ==> exists|at: int| was_active(events, at, prior)
}

/// Whether a return of the focus was found in order at some point.
spec fn return_was_in_order(
    events: Seq<EventView>,
    target: IdentityView,
    prior: IdentityView,
) -> bool {
    exists|at: int| returned_in_order(events, at, target, prior)
}

/// What a phase owes to the events that led to it: the prior window of its lease
/// was active at some point, an active window that it remembers was read last,
/// and a return of the focus was found in order.
spec fn accounted_for(events: Seq<EventView>, phase: PhaseView) -> bool {
    match phase {
        PhaseView::Focusing { lease, subject, aim, .. } => {
            &&& prior_was_active(events, lease)
            &&& aim is Return ==> return_was_in_order(events, lease.target, subject)
        },
        PhaseView::RunningBody { lease } => prior_was_active(events, lease),
        PhaseView::RestoreActive { lease, .. } => prior_was_active(events, lease),
        PhaseView::RestoreClients { lease, active, .. } => {
            &&& prior_was_active(events, lease)
            &&& events.len() > 0
            &&& events.last() matches EventView::Active(Ok(read)) && active_identity(read) == active
        },
        _ => true,
    }
}

proof fn lemma_longer_runs_account(shorter: Seq<EventView>, event: EventView)
    ensures
        forall|lease: LeaseView|
            prior_was_active(shorter, lease) ==> #[trigger] prior_was_active(
                shorter.push(event),
                lease,
            ),
        forall|target: IdentityView, prior: IdentityView|
            return_was_in_order(shorter, target, prior) ==> #[trigger] return_was_in_order(
                shorter.push(event),
                target,
                prior,
            ),
{
    let longer = shorter.push(event);
    assert forall|lease: LeaseView|
        prior_was_active(shorter, lease) implies #[trigger] prior_was_active(longer, lease) by {
        if let Some(prior) = lease.prior {
            let at = choose|at: int| was_active(shorter, at, prior);
            assert(was_active(longer, at, prior));
        }
    }
    assert forall|target: IdentityView, prior: IdentityView|
        return_was_in_order(shorter, target, prior) implies #[trigger] return_was_in_order(
        longer,
        target,
        prior,
    ) by {
        let at = choose|at: int| returned_in_order(shorter, at, target, prior);
        assert(returned_in_order(longer, at, target, prior));
    }
}

proof fn lemma_steps_are_accounted_for(shorter: Seq<EventView>, phase: PhaseView, event: EventView)
    requires
        accounted_for(shorter, phase),
        answers(event, phase),
    ensures
        accounted_for(shorter.push(event), next(phase, event).0),
{
    let events = shorter.push(event);
    let n = shorter.len() as int;
    lemma_longer_runs_account(shorter, event);
    if let PhaseView::BeginActive { target, live } = phase {
        if let EventView::Active(Ok(active)) = event {
            law_lease_remembers_a_live_other_window(target, live, active);
            if let Some(identity) = active_identity(active) {
                assert(was_active(events, n, identity));
            }
        }
    }
    if let PhaseView::RestoreClients { lease, active, .. } = phase {
        if let EventView::Clients(Ok(clients)) = event {
            if let DecisionView::Restore(prior) = restore_decision(
                lease,
                active,
                identities_of(clients),
            ) {
                assert(events[n - 1] == shorter.last());
                assert(returned_in_order(events, n - 1, lease.target, prior));
                assert(return_was_in_order(events, lease.target, prior));
            }
        }
    }
}

proof fn lemma_phases_are_accounted_for(
    trusted: Result<IdentityView, Refusal>,
    window_id: u64,
    events: Seq<EventView>,
)
    requires
        in_turn(opening(trusted, window_id), events),
    ensures
        accounted_for(events, after_events(opening(trusted, window_id), events).0),
    decreases events.len(),
{
    if events.len() > 0 {
        let shorter = events.drop_last();
        lemma_phases_are_accounted_for(trusted, window_id, shorter);
        lemma_steps_are_accounted_for(
            shorter,
            after_events(opening(trusted, window_id), shorter).0,
            events.last(),
        );
        assert(events == shorter.push(events.last()));
    }
}

/// Wherever a transaction is focusing a window to have the focus back, that
/// window was itself read to be the active one earlier on, and it was found in
/// order: the trusted target was read to be active, and the list of clients read
/// next showed the window first at its address.
pub proof fn law_focus_returns_in_order(
    trusted: Result<IdentityView, Refusal>,
    window_id: u64,
    events: Seq<EventView>,
)
    requires
        in_turn(opening(trusted, window_id), events),
    ensures
        after_events(opening(trusted, window_id), events).0 matches PhaseView::Focusing {
            lease,
            subject,
            aim: AimView::Return(_),
            ..
        } ==> {
            &&& trusted == Ok::<_, Refusal>(lease.target)
            &&& exists|at: int| was_active(events, at, subject)
            &&& exists|at: int| returned_in_order(events, at, lease.target, subject)
        },
{
    lemma_phases_are_accounted_for(trusted, window_id, events);
    lemma_events_keep_the_target(trusted, window_id, events);
}

proof fn lemma_one_more(start: (PhaseView, ActionView), events: Seq<EventView>, n: int)
    requires
        0 <= n < events.len(),
        in_turn(start, events.take(n)),
        answers(events[n], after_events(start, events.take(n)).0),
    ensures
        in_turn(start, events.take(n + 1)),
        after_events(start, events.take(n + 1)) == next(
            after_events(start, events.take(n)).0,
            events[n],
        ),
{
    let longer = events.take(n + 1);
    assert(longer.drop_last() == events.take(n));
    assert(longer.last() == events[n]);
}

/// Three answers are enough to focus a window that is in its place.
proof fn lemma_focus_arrives(
    start: (PhaseView, ActionView),
    events: Seq<EventView>,
    n: int,
    lease: LeaseView,
    subject: IdentityView,
    aim: AimView,
    clients: Seq<ClientView>,
)
    requires
        0 <= n,
        n + 2 < events.len(),
        in_turn(start, events.take(n)),
        after_events(start, events.take(n)).0 == (PhaseView::Focusing {
            lease,
            subject,
            aim,
            step: StepView::Verify,
        }),
        events[n] == EventView::Clients(Ok(clients)),
        first_at(identities_of(clients), subject.address) == Some(subject),
        events[n + 1] matches EventView::Dispatched(Some(reply)) && is_accepted(reply),
        events[n + 2] matches EventView::Polled { active: Ok(active), .. } && active_identity(active)
            == Some(subject),
    ensures
        in_turn(start, events.take(n + 3)),
        after_events(start, events.take(n + 1)).1 == ActionView::Dispatch(
            lua_focus(subject.address),
        ),
        after_events(start, events.take(n + 3)) == focused(lease, subject, aim),
{
    lemma_one_more(start, events, n);
    lemma_one_more(start, events, n + 1);
    lemma_one_more(start, events, n + 2);
}

/// Four answers are enough to draw up the lease on a trusted window.
proof fn lemma_lease_is_drawn_up(
    start: (PhaseView, ActionView),
    events: Seq<EventView>,
    target: IdentityView,
    prior: IdentityView,
    window_id: u64,
    clients: Seq<ClientView>,
    monitors: Seq<Monitor>,
    before: ActiveWindowView,
)
    requires
        events.len() >= 4,
        start.0 == (PhaseView::TargetClients { expected: target, window_id }),
        events[0] == EventView::Clients(Ok(clients)),
        events[1] == EventView::Monitors(Ok(monitors)),
        events[2] == EventView::Clients(Ok(clients)),
        events[3] == EventView::Active(Ok(before)),
        target_in(clients, target) matches Some(client) && on_screen(client, monitors),
        first_at(identities_of(clients), target.address) == Some(target),
        first_at(identities_of(clients), prior.address) == Some(prior),
        target != prior,
        active_identity(before) == Some(prior),
    ensures
        in_turn(start, events.take(4)),
        after_events(start, events.take(4)).0 == (PhaseView::Focusing {
            lease: LeaseView { target, prior: Some(prior) },
            subject: target,
            aim: AimView::Acquire,
            step: StepView::Verify,
        }),
{
    let live = identities_of(clients);
    let client = target_in(clients, target)->0;
    lemma_first_at_is_listed(live, target.address);
    lemma_first_at_is_listed(live, prior.address);
    lemma_first_where_meets(
        clients,
        |client: ClientView| client.mapped && client_identity(client) == Some(target),
    );
    assert(events.take(0) == Seq::<EventView>::empty());
    lemma_one_more(start, events, 0);
    assert(after_events(start, events.take(1)).0 == PhaseView::TargetMonitors { client, window_id });
    lemma_one_more(start, events, 1);
    assert(after_events(start, events.take(2)).0 == PhaseView::BeginClients { target });
    lemma_one_more(start, events, 2);
    assert(after_events(start, events.take(3)).0 == PhaseView::BeginActive { target, live });
    lemma_one_more(start, events, 3);
}

/// Three answers lead from the body to the return of the focus.
proof fn lemma_focus_is_to_return(
    start: (PhaseView, ActionView),
    events: Seq<EventView>,
    lease: LeaseView,
    prior: IdentityView,
    clients: Seq<ClientView>,
    during: ActiveWindowView,
    ok: bool,
)
    requires
        events.len() >= 10,
        in_turn(start, events.take(7)),
        after_events(start, events.take(7)).0 == (PhaseView::RunningBody { lease }),
        events[7] == (EventView::BodyDone { ok }),
        events[8] == EventView::Active(Ok(during)),
        events[9] == EventView::Clients(Ok(clients)),
        lease.prior == Some(prior),
        first_at(identities_of(clients), prior.address) == Some(prior),
        active_identity(during) == Some(lease.target),
    ensures
        in_turn(start, events.take(10)),
        after_events(start, events.take(10)).0 == (PhaseView::Focusing {
            lease,
            subject: prior,
            aim: AimView::Return(ReasonView::Release { body_ok: ok }),
            step: StepView::Verify,
        }),
{
    lemma_one_more(start, events, 7);
    lemma_one_more(start, events, 8);
    lemma_one_more(start, events, 9);
}

/// The answers of a compositor that nobody disturbs: it lists the same clients
/// throughout, shows `before` as the active window until the target is focused,
/// then shows `during`, and `before` again once the focus is back.
pub open spec fn undisturbed_run(
    clients: Seq<ClientView>,
    monitors: Seq<Monitor>,
    before: ActiveWindowView,
    during: ActiveWindowView,
    reply: ReplyView,
    ok: bool,
    waited_millis: u64,
) -> Seq<EventView> {
    seq![
        EventView::Clients(Ok(clients)),
        EventView::Monitors(Ok(monitors)),
        EventView::Clients(Ok(clients)),
        EventView::Active(Ok(before)),
        EventView::Clients(Ok(clients)),
        EventView::Dispatched(Some(reply)),
        EventView::Polled { active: Ok(during), waited_millis },
        EventView::BodyDone { ok },
        EventView::Active(Ok(during)),
        EventView::Clients(Ok(clients)),
        EventView::Clients(Ok(clients)),
        EventView::Dispatched(Some(reply)),
        EventView::Polled { active: Ok(before), waited_millis },
    ]
}

/// Undisturbed, a transaction on a trusted window that is on screen focuses it,
/// runs the body, gives the focus back to the window that had it, and ends with
/// the body's own result.
pub proof fn law_undisturbed_transaction_gives_the_focus_back(
    target: IdentityView,
    prior: IdentityView,
    window_id: u64,
    clients: Seq<ClientView>,
    monitors: Seq<Monitor>,
    before: ActiveWindowView,
    during: ActiveWindowView,
    reply: ReplyView,
    ok: bool,
    waited_millis: u64,
)
    requires
        target_in(clients, target) matches Some(client) && on_screen(client, monitors),
        first_at(identities_of(clients), target.address) == Some(target),
        first_at(identities_of(clients), prior.address) == Some(prior),
        target != prior,
        active_identity(before) == Some(prior),
        active_identity(during) == Some(target),
        is_accepted(reply),
    ensures
        ({
            let start = opening(Ok(target), window_id);
            let events = undisturbed_run(
                clients,
                monitors,
                before,
                during,
                reply,
                ok,
                waited_millis,
            );
            &&& in_turn(start, events)
            &&& after_events(start, events.take(5)).1 == ActionView::Dispatch(
                lua_focus(target.address),
            )
            &&& after_events(start, events.take(7)).1 is RunBody
            &&& after_events(start, events.take(11)).1 == ActionView::Dispatch(
                lua_focus(prior.address),
            )
            &&& after_events(start, events).1 == ActionView::Finish(
                if ok {
                    OutcomeView::Value
                } else {
                    OutcomeView::BodyFailed
                },
            )
        }),
{
    let start = opening(Ok(target), window_id);
    let events = undisturbed_run(clients, monitors, before, during, reply, ok, waited_millis);
    let lease = LeaseView { target, prior: Some(prior) };
    let reason = ReasonView::Release { body_ok: ok };
    assert(events.take(0) == Seq::<EventView>::empty());
    lemma_lease_is_drawn_up(start, events, target, prior, window_id, clients, monitors, before);
    lemma_focus_arrives(start, events, 4, lease, target, AimView::Acquire, clients);
    lemma_focus_is_to_return(start, events, lease, prior, clients, during, ok);
    lemma_focus_arrives(start, events, 10, lease, prior, AimView::Return(reason), clients);
    assert(events.take(13) == events);
}

} // verus!
