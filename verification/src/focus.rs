//! Leasing the keyboard focus: which window may be focused, and when the focus
//! goes back to the window that had it before.
use vstd::prelude::*;

use crate::command::{lua_focus, lua_focus_arguments};
use crate::identity::{
    active_identity, client_identity, find_at, first_at, identities_of, lists_identity, live_identities,
    IdentityView, WindowIdentity,
};
use crate::laws::windows::{law_every_monitor_shows_its_workspace, on_some_monitor};
use crate::records::{ActiveWindow, ActiveWindowView, Client, ClientView, Monitor};
use crate::refusal::Refusal;
use crate::select::first_where;
use crate::text::{blank, is_blank};
use crate::windows::{active_workspaces, shown_workspaces};

verus! {

broadcast use vstd::std_specs::hash::group_hash_axioms;

/// How long a focused window may take to show up as the active one.
pub const FOCUS_TIMEOUT_MILLIS: u64 = 500;

/// How long to wait before the active window is read again.
pub const FOCUS_POLL_INTERVAL_MILLIS: u64 = 15;

/// A temporary focus: the window that gets it, and the one that had it.
#[derive(Debug, PartialEq, Eq)]
pub struct FocusLease {
    pub target: WindowIdentity,
    pub prior: Option<WindowIdentity>,
}

/// The contents of a [`FocusLease`].
pub struct LeaseView {
    pub target: IdentityView,
    pub prior: Option<IdentityView>,
}

impl View for FocusLease {
    type V = LeaseView;

    open spec fn view(&self) -> LeaseView {
        LeaseView { target: self.target@, prior: self.prior.deep_view() }
    }
}

impl DeepView for FocusLease {
    type V = LeaseView;

    open spec fn deep_view(&self) -> LeaseView {
        self@
    }
}

/// What is to happen to the focus when a lease ends.
#[derive(Debug, PartialEq, Eq)]
pub enum FocusRestoreDecision {
    /// The window that had the focus before gets it back.
    Restore(WindowIdentity),
    /// No other window had the focus before.
    NoPriorFocus,
    /// The target does not have the focus any more.
    ActiveFocusChanged,
    /// The window that had the focus before is gone or was replaced.
    PriorWindowUnavailable,
}

/// The contents of a [`FocusRestoreDecision`].
pub enum DecisionView {
    Restore(IdentityView),
    NoPriorFocus,
    ActiveFocusChanged,
    PriorWindowUnavailable,
}

impl View for FocusRestoreDecision {
    type V = DecisionView;

    open spec fn view(&self) -> DecisionView {
        match self {
            FocusRestoreDecision::Restore(identity) => DecisionView::Restore(identity@),
            FocusRestoreDecision::NoPriorFocus => DecisionView::NoPriorFocus,
            FocusRestoreDecision::ActiveFocusChanged => DecisionView::ActiveFocusChanged,
            FocusRestoreDecision::PriorWindowUnavailable => DecisionView::PriorWindowUnavailable,
        }
    }
}

impl DeepView for FocusRestoreDecision {
    type V = DecisionView;

    open spec fn deep_view(&self) -> DecisionView {
        self@
    }
}

/// The prior window of a lease: the active one, where it is live and is not the
/// target itself.
pub open spec fn prior_of(
    active: Option<IdentityView>,
    target: IdentityView,
    live: Seq<IdentityView>,
) -> Option<IdentityView> {
    match active {
        Some(identity) if identity != target && live.contains(identity) => Some(identity),
        _ => None,
    }
}

/// The prior window of a lease.
pub fn verified_prior_identity(
    active: Option<WindowIdentity>,
    target: &WindowIdentity,
    live: &[WindowIdentity],
) -> (prior: Option<WindowIdentity>)
    ensures
        prior.deep_view() == prior_of(active.deep_view(), target@, live.deep_view()),
{
    match active {
        Some(identity) => if !identity.same(target) && lists_identity(live, &identity) {
            Some(identity)
        } else {
            None
        },
        None => None,
    }
}

/// What is to happen to the focus when a lease ends.
pub open spec fn restore_decision(
    lease: LeaseView,
    active: Option<IdentityView>,
    live: Seq<IdentityView>,
) -> DecisionView {
    if active != Some(lease.target) {
        DecisionView::ActiveFocusChanged
    } else {
        match lease.prior {
            None => DecisionView::NoPriorFocus,
            Some(prior) => if first_at(live, prior.address) == Some(prior) {
                DecisionView::Restore(prior)
            } else {
                DecisionView::PriorWindowUnavailable
            },
        }
    }
}

/// Whether an identity is the given one.
fn is_identity(candidate: Option<&WindowIdentity>, identity: &WindowIdentity) -> (r: bool)
    ensures
        r == (candidate.deep_view() == Some(identity@)),
{
    match candidate {
        Some(candidate) => candidate.same(identity),
        None => false,
    }
}

/// Decides what is to happen to the focus when a lease ends.
pub fn focus_restore_decision(
    lease: &FocusLease,
    active: Option<&WindowIdentity>,
    live: &[WindowIdentity],
) -> (decision: FocusRestoreDecision)
    ensures
        decision@ == restore_decision(lease@, active.deep_view(), live.deep_view()),
{
    if !is_identity(active, &lease.target) {
        return FocusRestoreDecision::ActiveFocusChanged;
    }
    match &lease.prior {
        None => FocusRestoreDecision::NoPriorFocus,
        Some(prior) => if is_identity(find_at(live, prior.address), prior) {
            FocusRestoreDecision::Restore(prior.clone())
        } else {
            FocusRestoreDecision::PriorWindowUnavailable
        },
    }
}

/// The first mapped client with a trusted identity.
pub open spec fn target_in(clients: Seq<ClientView>, expected: IdentityView) -> Option<ClientView> {
    first_where(
        clients,
        |client: ClientView| client.mapped && client_identity(client) == Some(expected),
    )
}

/// Finds the client of a trusted identity in a fresh list of clients.
pub fn target_client(
    clients: &[Client],
    expected: &WindowIdentity,
    window_id: u64,
) -> (target: Result<Client, Refusal>)
    ensures
        match (target, target_in(clients.deep_view(), expected@)) {
            (Ok(client), Some(found)) => client@ == found,
            (Err(refusal), None) => refusal == (Refusal::StaleTarget { address: window_id }),
            _ => false,
        },
{
    let ghost all = clients.deep_view();
    let ghost wanted = |client: ClientView|
        client.mapped && client_identity(client) == Some(expected@);
    assert(all.skip(0) == all);
    for i in 0..clients.len()
        invariant
            all == clients.deep_view(),
            wanted == (|client: ClientView|
                client.mapped && client_identity(client) == Some(expected@)),
            first_where(all, wanted) == first_where(all.skip(i as int), wanted),
    {
        assert(all.skip(i as int).drop_first() == all.skip(i + 1));
        assert(all.skip(i as int).first() == clients@[i as int]@);
        let identity = WindowIdentity::from_client(&clients[i]);
        if is_identity(identity.as_ref(), expected) && clients[i].mapped {
            return Ok(clients[i].clone());
        }
    }
    Err(Refusal::StaleTarget { address: window_id })
}

/// Whether a client can be seen: it is not hidden and its workspace is shown.
pub open spec fn on_screen(client: ClientView, monitors: Seq<Monitor>) -> bool {
    !client.hidden && shown_workspaces(monitors).contains(client.workspace)
}

/// Checks that the target can be seen.
pub fn check_target_visible(
    target: &Client,
    monitors: &[Monitor],
    window_id: u64,
) -> (checked: Result<(), Refusal>)
    ensures
        checked == (if on_screen(target@, monitors@) {
            Ok::<(), Refusal>(())
        } else {
            Err(Refusal::TargetNotVisible { address: window_id })
        }),
        checked is Ok <==> !target.hidden && on_some_monitor(monitors@, target.workspace.id),
{
    proof {
        law_every_monitor_shows_its_workspace(monitors@, target.workspace.id);
    }
    let shown = active_workspaces(monitors);
    if !target.hidden && shown.contains(&target.workspace.id) {
        Ok(())
    } else {
        Err(Refusal::TargetNotVisible { address: window_id })
    }
}

/// The identity of a target that is to be focused.
pub fn target_identity(target: &Client) -> (identity: Result<WindowIdentity, Refusal>)
    ensures
        match (identity, client_identity(target@)) {
            (Ok(identity), Some(expected)) => identity@ == expected,
            (Err(refusal), None) => refusal == Refusal::TargetWithoutIdentity,
            _ => false,
        },
{
    match WindowIdentity::from_client(target) {
        Some(identity) => Ok(identity),
        None => Err(Refusal::TargetWithoutIdentity),
    }
}

/// The live identities before a focus change, which have to hold the target.
pub fn live_with_target(target: &WindowIdentity, clients: &[Client]) -> (live: Result<
    Vec<WindowIdentity>,
    Refusal,
>)
    ensures
        match live {
            Ok(live) => {
                &&& live.deep_view() == identities_of(clients.deep_view())
                &&& live.deep_view().contains(target@)
            },
            Err(refusal) => {
                &&& !identities_of(clients.deep_view()).contains(target@)
                &&& refusal == Refusal::TargetChanged
            },
        },
{
    let live = live_identities(clients);
    if lists_identity(live.as_slice(), target) {
        Ok(live)
    } else {
        Err(Refusal::TargetChanged)
    }
}

/// The lease on a target, given the live windows and the active one. With some
/// window active, that window has to be identified, and it has to be live unless
/// it is the target.
pub open spec fn lease_answer(
    target: IdentityView,
    live: Seq<IdentityView>,
    active: ActiveWindowView,
) -> Result<LeaseView, Refusal> {
    match active_identity(active) {
        None => if is_blank(active.address) {
            Ok(LeaseView { target, prior: None })
        } else {
            Err(Refusal::ActiveUnverifiable)
        },
        Some(identity) => if identity == target || live.contains(identity) {
            Ok(LeaseView { target, prior: prior_of(Some(identity), target, live) })
        } else {
            Err(Refusal::ActiveNotLive)
        },
    }
}

/// Draws up the lease on a target.
pub fn begin_temporary_focus(
    target: WindowIdentity,
    live: &[WindowIdentity],
    active: &ActiveWindow,
) -> (lease: Result<FocusLease, Refusal>)
    ensures
        match (lease, lease_answer(target@, live.deep_view(), active@)) {
            (Ok(lease), Ok(expected)) => lease@ == expected,
            (Err(refusal), Err(expected)) => refusal == expected,
            _ => false,
        },
{
    let active_identity = active.identity();
    if active_identity.is_none() && !blank(active.address.as_str()) {
        return Err(Refusal::ActiveUnverifiable);
    }
    if let Some(identity) = &active_identity {
        if !identity.same(&target) && !lists_identity(live, identity) {
            return Err(Refusal::ActiveNotLive);
        }
    }
    let prior = verified_prior_identity(active_identity, &target, live);
    Ok(FocusLease { target, prior })
}

/// The dispatch that focuses a window, once a fresh list of clients shows that
/// very window first at its address.
pub fn focus_identity(identity: &WindowIdentity, clients: &[Client]) -> (arguments: Result<
    Vec<String>,
    Refusal,
>)
    ensures
        match arguments {
            Ok(arguments) => {
                &&& first_at(identities_of(clients.deep_view()), identity@.address) == Some(
                    identity@,
                )
                &&& arguments.deep_view() == lua_focus(identity@.address)
            },
            Err(refusal) => {
                &&& first_at(identities_of(clients.deep_view()), identity@.address) != Some(
                    identity@,
                )
                &&& refusal == (Refusal::StaleFocus { address: identity@.address })
            },
        },
{
    let live = live_identities(clients);
    if is_identity(find_at(live.as_slice(), identity.address), identity) {
        Ok(lua_focus_arguments(identity.address))
    } else {
        Err(Refusal::StaleFocus { address: identity.address })
    }
}

/// Whether a window has arrived at the focus, by one reading of the active window
/// after some waiting: it has, or it has not and waiting goes on, or waiting
/// ends because another window took the address or because time is up.
pub open spec fn poll_answer(
    identity: IdentityView,
    active: Result<ActiveWindowView, Refusal>,
    waited_millis: u64,
) -> Result<bool, Refusal> {
    let seen = match active {
        Ok(active) => active_identity(active),
        Err(_) => None,
    };
    if seen == Some(identity) {
        Ok(true)
    } else if seen is Some && seen->0.address == identity.address {
        Err(Refusal::AddressReused { address: identity.address })
    } else if waited_millis >= FOCUS_TIMEOUT_MILLIS {
        Err(Refusal::FocusTimedOut { address: identity.address })
    } else {
        Ok(false)
    }
}

/// The contents of a reading of the active window.
pub open spec fn active_reading(reading: Result<ActiveWindow, Refusal>) -> Result<
    ActiveWindowView,
    Refusal,
> {
    match reading {
        Ok(active) => Ok(active@),
        Err(refusal) => Err(refusal),
    }
}

/// Decides whether a window has arrived at the focus. A failed reading of the
/// active window only costs time.
pub fn wait_for_focused_identity(
    identity: &WindowIdentity,
    active: &Result<ActiveWindow, Refusal>,
    waited_millis: u64,
) -> (arrived: Result<bool, Refusal>)
    ensures
        arrived == poll_answer(identity@, active_reading(*active), waited_millis),
{
    if let Ok(active) = active {
        if let Some(seen) = active.identity() {
            if seen.same(identity) {
                return Ok(true);
            }
            if seen.address == identity.address {
                return Err(Refusal::AddressReused { address: identity.address });
            }
        }
    }
    if waited_millis >= FOCUS_TIMEOUT_MILLIS {
        Err(Refusal::FocusTimedOut { address: identity.address })
    } else {
        Ok(false)
    }
}

/// The focus goes back only while the target still has it, only to the very
/// window that had it before, and only while that window is still first at its
/// address.
pub proof fn law_restore_needs_target_focus_and_live_prior(
    lease: LeaseView,
    active: Option<IdentityView>,
    live: Seq<IdentityView>,
)
    ensures
        restore_decision(lease, active, live) matches DecisionView::Restore(identity) ==> {
            &&& active == Some(lease.target)
            &&& lease.prior == Some(identity)
            &&& live.contains(identity)
            &&& first_at(live, identity.address) == Some(identity)
        },
{
    if let DecisionView::Restore(identity) = restore_decision(lease, active, live) {
        lemma_first_at_is_listed(live, identity.address);
    }
}

/// The first identity at an address is listed there.
pub proof fn lemma_first_at_is_listed(identities: Seq<IdentityView>, address: u64)
    ensures
        first_at(identities, address) matches Some(identity) ==> identities.contains(identity)
            && identity.address == address,
    decreases identities.len(),
{
    if identities.len() > 0 {
        if identities.first().address == address {
            assert(identities[0] == identities.first());
        } else {
            let rest = identities.drop_first();
            lemma_first_at_is_listed(rest, address);
            if let Some(identity) = first_at(rest, address) {
                let i = choose|i: int| 0 <= i < rest.len() && rest[i] == identity;
                assert(identities[i + 1] == identity);
            }
        }
    }
}

/// When another window has the focus, or none, the focus is left alone.
pub proof fn law_user_takeover_is_kept(
    lease: LeaseView,
    active: Option<IdentityView>,
    live: Seq<IdentityView>,
)
    requires
        active != Some(lease.target),
    ensures
        restore_decision(lease, active, live) == DecisionView::ActiveFocusChanged,
{
}

/// A window that is gone, or that another window is listed before at its address,
/// does not get the focus back.
pub proof fn law_lost_prior_window_is_refused(
    lease: LeaseView,
    prior: IdentityView,
    live: Seq<IdentityView>,
)
    requires
        lease.prior == Some(prior),
        first_at(live, prior.address) != Some(prior),
    ensures
        restore_decision(lease, Some(lease.target), live) == DecisionView::PriorWindowUnavailable,
{
}

/// The prior window of a lease was live and active, and is not the target.
pub proof fn law_lease_remembers_a_live_other_window(
    target: IdentityView,
    live: Seq<IdentityView>,
    active: ActiveWindowView,
)
    ensures
        lease_answer(target, live, active) matches Ok(lease) ==> {
            &&& lease.target == target
            &&& lease.prior matches Some(prior) ==> {
                &&& prior != target
                &&& live.contains(prior)
                &&& active_identity(active) == Some(prior)
            }
        },
{
}

/// Taking and giving back is exact: while the target has the focus and the live
/// windows are as they were, the window that was active gets the focus back where
/// it is listed first at its address.
pub proof fn law_undisturbed_lease_restores_the_active_window(
    target: IdentityView,
    live: Seq<IdentityView>,
    active: ActiveWindowView,
    prior: IdentityView,
)
    requires
        active_identity(active) == Some(prior),
        prior != target,
        first_at(live, prior.address) == Some(prior),
    ensures
        lease_answer(target, live, active) matches Ok(lease) && restore_decision(
            lease,
            Some(target),
            live,
        ) == DecisionView::Restore(prior),
{
    lemma_first_at_is_listed(live, prior.address);
}

} // verus!
