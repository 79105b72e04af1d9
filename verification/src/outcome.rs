//! How a focus transaction ends, and the message that says so.
use vstd::prelude::*;
use vstd::string::*;

use crate::focus::{DecisionView, FocusRestoreDecision};
use crate::identity::{IdentityView, WindowIdentity};
use crate::refusal::Refusal;
use crate::text::{decimal_string, decimal_text};

verus! {

/// Why the focus could not be given to a window.
#[derive(Debug, PartialEq, Eq)]
pub enum FocusFailure {
    /// A rule or a failed reading was in the way.
    Refused(Refusal),
    /// The compositor took neither dispatch; each comes with its detail.
    DispatchFailed { lua: String, legacy: String },
}

/// The contents of a [`FocusFailure`].
pub enum FailureView {
    Refused(Refusal),
    DispatchFailed { lua: Seq<char>, legacy: Seq<char> },
}

impl View for FocusFailure {
    type V = FailureView;

    open spec fn view(&self) -> FailureView {
        match self {
            FocusFailure::Refused(refusal) => FailureView::Refused(*refusal),
            FocusFailure::DispatchFailed { lua, legacy } => FailureView::DispatchFailed {
                lua: lua@,
                legacy: legacy@,
            },
        }
    }
}

impl DeepView for FocusFailure {
    type V = FailureView;

    open spec fn deep_view(&self) -> FailureView {
        self@
    }
}

impl FailureView {
    /// The message for a failure.
    pub open spec fn text(self) -> Seq<char> {
        match self {
            FailureView::Refused(refusal) => refusal.text(),
            FailureView::DispatchFailed { lua, legacy } =>
                "Hyprland focus dispatch failed (Lua: "@ + lua + "; legacy: "@ + legacy + ")"@,
        }
    }
}

impl FocusFailure {
    /// Writes the message for a failure.
    pub fn message(&self) -> (message: String)
        ensures
            message@ == self@.text(),
    {
        match self {
            FocusFailure::Refused(refusal) => refusal.message(),
            FocusFailure::DispatchFailed { lua, legacy } =>
                "Hyprland focus dispatch failed (Lua: ".to_owned().concat(lua.as_str()).concat(
                "; legacy: ",
            ).concat(legacy.as_str()).concat(")"),
        }
    }
}

/// How a focus transaction ends.
#[derive(Debug, PartialEq, Eq)]
pub enum Outcome {
    /// The body succeeded: its value is the result.
    Value,
    /// The body failed: its error is the result.
    BodyFailed,
    /// The transaction failed: before the body ran, or in giving back the focus
    /// after a body that succeeded.
    Failed(FocusFailure),
    /// The target could not be focused, and the focus was put right again.
    RolledBack { cause: FocusFailure, decision: FocusRestoreDecision },
    /// The target could not be focused, and neither could the focus be put right.
    RollbackFailed { cause: FocusFailure, rollback: FocusFailure },
    /// The body failed, and the focus could not be given back.
    BodyAndRestoreFailed { restore: FocusFailure },
}

/// The contents of an [`Outcome`].
pub enum OutcomeView {
    Value,
    BodyFailed,
    Failed(FailureView),
    RolledBack { cause: FailureView, decision: DecisionView },
    RollbackFailed { cause: FailureView, rollback: FailureView },
    BodyAndRestoreFailed { restore: FailureView },
}

impl View for Outcome {
    type V = OutcomeView;

    open spec fn view(&self) -> OutcomeView {
        match self {
            Outcome::Value => OutcomeView::Value,
            Outcome::BodyFailed => OutcomeView::BodyFailed,
            Outcome::Failed(failure) => OutcomeView::Failed(failure@),
            Outcome::RolledBack { cause, decision } => OutcomeView::RolledBack {
                cause: cause@,
                decision: decision@,
            },
            Outcome::RollbackFailed { cause, rollback } => OutcomeView::RollbackFailed {
                cause: cause@,
                rollback: rollback@,
            },
            Outcome::BodyAndRestoreFailed { restore } => OutcomeView::BodyAndRestoreFailed {
                restore: restore@,
            },
        }
    }
}

/// What the `Debug` format of a string slice writes.
pub uninterp spec fn debug_text(text: Seq<char>) -> Seq<char>;

/// Formats a string slice with `{:?}`. The result is a function of the text
/// alone; which characters are escaped, and how, is not spelled out.
#[verifier::external_body]
fn debug_string(text: &str) -> (quoted: String)
    ensures
        quoted@ == debug_text(text@),
{
    format!("{:?}", text)
}

/// An identity in words, with its texts already quoted.
pub open spec fn identity_words(
    address: u64,
    stable_id: Seq<char>,
    pid: u32,
    initial_class: Seq<char>,
    initial_title: Seq<char>,
) -> Seq<char> {
    "WindowIdentity { address: "@ + decimal_text(address as nat) + ", stable_id: "@ + stable_id
        + ", pid: "@ + decimal_text(pid as nat) + ", initial_class: "@ + initial_class
        + ", initial_title: "@ + initial_title + " }"@
}

/// Puts an identity into words, given its texts already quoted.
pub fn describe_quoted_identity(
    address: u64,
    stable_id: &str,
    pid: u32,
    initial_class: &str,
    initial_title: &str,
) -> (words: String)
    ensures
        words@ == identity_words(address, stable_id@, pid, initial_class@, initial_title@),
{
    "WindowIdentity { address: ".to_owned().concat(decimal_string(address).as_str()).concat(
        ", stable_id: ",
    ).concat(stable_id).concat(", pid: ").concat(decimal_string(pid as u64).as_str()).concat(
        ", initial_class: ",
    ).concat(initial_class).concat(", initial_title: ").concat(initial_title).concat(" }")
}

/// An identity in words.
pub open spec fn identity_text(identity: IdentityView) -> Seq<char> {
    identity_words(
        identity.address,
        debug_text(identity.stable_id),
        identity.pid,
        debug_text(identity.initial_class),
        debug_text(identity.initial_title),
    )
}

/// Puts an identity into words.
pub fn describe_identity(identity: &WindowIdentity) -> (words: String)
    ensures
        words@ == identity_text(identity@),
{
    let stable_id = debug_string(identity.stable_id.as_str());
    let initial_class = debug_string(identity.initial_class.as_str());
    let initial_title = debug_string(identity.initial_title.as_str());
    describe_quoted_identity(
        identity.address,
        stable_id.as_str(),
        identity.pid,
        initial_class.as_str(),
        initial_title.as_str(),
    )
}

/// A decision in words.
pub open spec fn decision_text(decision: DecisionView) -> Seq<char> {
    match decision {
        DecisionView::Restore(identity) => "Restore("@ + identity_text(identity) + ")"@,
        DecisionView::NoPriorFocus => "NoPriorFocus"@,
        DecisionView::ActiveFocusChanged => "ActiveFocusChanged"@,
        DecisionView::PriorWindowUnavailable => "PriorWindowUnavailable"@,
    }
}

/// Puts a decision into words.
pub fn describe_decision(decision: &FocusRestoreDecision) -> (words: String)
    ensures
        words@ == decision_text(decision@),
{
    match decision {
        FocusRestoreDecision::Restore(identity) => "Restore(".to_owned().concat(
            describe_identity(identity).as_str(),
        ).concat(")"),
        FocusRestoreDecision::NoPriorFocus => "NoPriorFocus".to_owned(),
        FocusRestoreDecision::ActiveFocusChanged => "ActiveFocusChanged".to_owned(),
        FocusRestoreDecision::PriorWindowUnavailable => "PriorWindowUnavailable".to_owned(),
    }
}

impl OutcomeView {
    /// The foremost message of a failed transaction; `None` where the body's own
    /// result stands.
    pub open spec fn text(self) -> Option<Seq<char>> {
        match self {
            OutcomeView::Value => None,
            OutcomeView::BodyFailed => None,
            OutcomeView::Failed(failure) => Some(failure.text()),
            OutcomeView::RolledBack { cause, decision } => Some(
                "guarded rollback after failed Hyprland focus completed with "@ + decision_text(
                    decision,
                ),
            ),
            OutcomeView::RollbackFailed { cause, rollback } => Some(
                "guarded rollback after failed Hyprland focus also failed: "@ + rollback.text(),
            ),
            OutcomeView::BodyAndRestoreFailed { restore } => Some(
                "the prior Hyprland focus also could not be restored: "@ + restore.text(),
            ),
        }
    }
}

impl Outcome {
    /// Writes the foremost message of a failed transaction.
    pub fn message(&self) -> (message: Option<String>)
        ensures
            message.deep_view() == self@.text(),
    {
        match self {
            Outcome::Value => None,
            Outcome::BodyFailed => None,
            Outcome::Failed(failure) => Some(failure.message()),
            Outcome::RolledBack { cause: _, decision } => Some(
                "guarded rollback after failed Hyprland focus completed with ".to_owned().concat(
                    describe_decision(decision).as_str(),
                ),
            ),
            Outcome::RollbackFailed { cause: _, rollback } => Some(
                "guarded rollback after failed Hyprland focus also failed: ".to_owned().concat(
                    rollback.message().as_str(),
                ),
            ),
            Outcome::BodyAndRestoreFailed { restore } => Some(
                "the prior Hyprland focus also could not be restored: ".to_owned().concat(
                    restore.message().as_str(),
                ),
            ),
        }
    }
}

} // verus!
