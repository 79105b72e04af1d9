//! The contents of a record are its fields, all of them.
use vstd::prelude::*;

use crate::command::CommandReply;
use crate::focus::{FocusLease, FocusRestoreDecision};
use crate::identity::WindowIdentity;
use crate::outcome::{FocusFailure, Outcome};
use crate::records::{ActiveWindow, Client, Window};

verus! {

/// Two clients have the same contents when they agree in every field, and only
/// then.
pub proof fn law_clients_differ_by_their_fields(a: Client, b: Client)
    ensures
        a@ == b@ <==> {
            &&& a.address@ == b.address@
            &&& a.mapped == b.mapped
            &&& a.hidden == b.hidden
            &&& a.pid == b.pid
            &&& a.title@ == b.title@
            &&& a.class@ == b.class@
            &&& a.initial_class@ == b.initial_class@
            &&& a.at == b.at
            &&& a.size == b.size
            &&& a.workspace.id == b.workspace.id
            &&& a.initial_title@ == b.initial_title@
            &&& a.stable_id@ == b.stable_id@
        },
{
}

/// The contents of a client are its fields.
pub proof fn law_client_contents(client: Client)
    ensures
        client@.address == client.address@,
        client@.mapped == client.mapped,
        client@.hidden == client.hidden,
        client@.pid == client.pid,
        client@.title == client.title@,
        client@.class == client.class@,
        client@.initial_class == client.initial_class@,
        client@.at == client.at,
        client@.size == client.size,
        client@.workspace == client.workspace.id,
        client@.initial_title == client.initial_title@,
        client@.stable_id == client.stable_id@,
{
}

/// The contents of the active window are its fields.
pub proof fn law_active_window_contents(active: ActiveWindow)
    ensures
        active@.address == active.address@,
        active@.pid == active.pid,
        active@.class == active.class@,
        active@.initial_class == active.initial_class@,
        active@.initial_title == active.initial_title@,
        active@.stable_id == active.stable_id@,
{
}

/// The contents of a window are its fields.
pub proof fn law_window_contents(window: Window)
    ensures
        window@.address == window.address,
        window@.pid == window.pid,
        window@.title == window.title@,
        window@.app_id == window.app_id@,
        window@.x == window.x,
        window@.y == window.y,
        window@.width == window.width,
        window@.height == window.height,
        window@.workspace == window.workspace,
        window@.visible == window.visible,
{
}

/// Two windows are the same one when their address, stable id, process, initial
/// class and initial title all agree, and only then.
pub proof fn law_identities_differ_by_their_fields(a: WindowIdentity, b: WindowIdentity)
    ensures
        a@ == b@ <==> {
            &&& a.address == b.address
            &&& a.stable_id@ == b.stable_id@
            &&& a.pid == b.pid
            &&& a.initial_class@ == b.initial_class@
            &&& a.initial_title@ == b.initial_title@
        },
{
}

/// The contents of an identity are its fields.
pub proof fn law_identity_contents(identity: WindowIdentity)
    ensures
        identity@.address == identity.address,
        identity@.stable_id == identity.stable_id@,
        identity@.pid == identity.pid,
        identity@.initial_class == identity.initial_class@,
        identity@.initial_title == identity.initial_title@,
{
}

/// The contents of a reply are its fields.
pub proof fn law_reply_contents(reply: CommandReply)
    ensures
        reply@.success == reply.success,
        reply@.stdout == reply.stdout@,
        reply@.stderr == reply.stderr@,
        reply@.status == reply.status@,
{
}

/// The contents of a lease are its target and its prior window.
pub proof fn law_lease_contents(lease: FocusLease)
    ensures
        lease@.target == lease.target@,
        lease@.prior is Some == lease.prior is Some,
        lease.prior matches Some(prior) ==> lease@.prior == Some(prior@),
{
}

/// A decision to restore is told apart from the others, and names its window.
pub proof fn law_decision_contents(a: FocusRestoreDecision, b: FocusRestoreDecision)
    ensures
        a@ == b@ <==> match (a, b) {
            (FocusRestoreDecision::Restore(left), FocusRestoreDecision::Restore(right)) => left@
                == right@,
            (FocusRestoreDecision::NoPriorFocus, FocusRestoreDecision::NoPriorFocus) => true,
            (FocusRestoreDecision::ActiveFocusChanged, FocusRestoreDecision::ActiveFocusChanged) =>
                true,
            (
                FocusRestoreDecision::PriorWindowUnavailable,
                FocusRestoreDecision::PriorWindowUnavailable,
            ) => true,
            _ => false,
        },
{
}

/// Two failures have the same contents when they are of one kind with the same
/// parts, and only then.
pub proof fn law_failure_contents(a: FocusFailure, b: FocusFailure)
    ensures
        a@ == b@ <==> match (a, b) {
            (FocusFailure::Refused(left), FocusFailure::Refused(right)) => left == right,
            (
                FocusFailure::DispatchFailed { lua, legacy },
                FocusFailure::DispatchFailed { lua: other_lua, legacy: other_legacy },
            ) => lua@ == other_lua@ && legacy@ == other_legacy@,
            _ => false,
        },
{
}

/// Two outcomes have the same contents when they are of one kind with the same
/// parts, and only then.
pub proof fn law_outcome_contents(a: Outcome, b: Outcome)
    ensures
        a@ == b@ <==> match (a, b) {
            (Outcome::Value, Outcome::Value) => true,
            (Outcome::BodyFailed, Outcome::BodyFailed) => true,
            (Outcome::Failed(left), Outcome::Failed(right)) => left@ == right@,
            (
                Outcome::RolledBack { cause, decision },
                Outcome::RolledBack { cause: other_cause, decision: other_decision },
            ) => cause@ == other_cause@ && decision@ == other_decision@,
            (
                Outcome::RollbackFailed { cause, rollback },
                Outcome::RollbackFailed { cause: other_cause, rollback: other_rollback },
            ) => cause@ == other_cause@ && rollback@ == other_rollback@,
            (
                Outcome::BodyAndRestoreFailed { restore },
                Outcome::BodyAndRestoreFailed { restore: other },
            ) => restore@ == other@,
            _ => false,
        },
{
}

} // verus!
