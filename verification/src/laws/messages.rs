//! What the messages have to say.
use vstd::prelude::*;

use crate::focus::DecisionView;
use crate::outcome::{decision_text, FailureView, OutcomeView};
use crate::refusal::Refusal;
use crate::text::{decimal_text, hex_text};

verus! {

/// Whether a text holds an address in hexadecimal, right behind a `0x`.
pub open spec fn names_address(text: Seq<char>, address: u64) -> bool {
    exists|before: Seq<char>, after: Seq<char>|
        #![trigger before + hex_text(address as nat) + after]
        {
            &&& before.len() >= 2
            &&& before[before.len() - 2] == '0'
            &&& before[before.len() - 1] == 'x'
            &&& text == before + hex_text(address as nat) + after
        }
}

/// The window that a refusal is about.
pub open spec fn subject_of(refusal: Refusal) -> Option<u64> {
    match refusal {
        Refusal::PendingRebind { address } => Some(address),
        Refusal::NotLive { address } => Some(address),
        Refusal::ConflictingIdentities { address } => Some(address),
        Refusal::UnknownAddress { address } => Some(address),
        Refusal::WrongOwner { address, .. } => Some(address),
        Refusal::StaleTarget { address } => Some(address),
        Refusal::TargetNotVisible { address } => Some(address),
        Refusal::StaleFocus { address } => Some(address),
        Refusal::AddressReused { address } => Some(address),
        Refusal::FocusTimedOut { address } => Some(address),
        _ => None,
    }
}

proof fn lemma_names(text: Seq<char>, address: u64, before: Seq<char>, after: Seq<char>)
    requires
        before.len() >= 2,
        before[before.len() - 2] == '0',
        before[before.len() - 1] == 'x',
        text == before + hex_text(address as nat) + after,
    ensures
        names_address(text, address),
{
}

/// A refusal about a window names its address.
pub proof fn law_refusals_name_their_window(refusal: Refusal)
    ensures
        subject_of(refusal) matches Some(address) ==> names_address(refusal.text(), address),
{
    let none = Seq::<char>::empty();
    match refusal {
        Refusal::PendingRebind { address } => {
            reveal_strlit("foreground_unavailable: Hyprland window address 0x");
            lemma_names(
                refusal.text(),
                address,
                "foreground_unavailable: Hyprland window address 0x"@,
                " is pending identity rebind confirmation"@,
            );
        },
        Refusal::NotLive { address } => {
            reveal_strlit("foreground_unavailable: Hyprland window address 0x");
            lemma_names(
                refusal.text(),
                address,
                "foreground_unavailable: Hyprland window address 0x"@,
                " is not currently live"@,
            );
        },
        Refusal::ConflictingIdentities { address } => {
            let before =
                "foreground_unavailable: Hyprland reported conflicting identities for address 0x"@;
            reveal_strlit(
                "foreground_unavailable: Hyprland reported conflicting identities for address 0x",
            );
            assert(refusal.text() == before + hex_text(address as nat) + none);
            lemma_names(refusal.text(), address, before, none);
        },
        Refusal::UnknownAddress { address } => {
            reveal_strlit("foreground_unavailable: unknown Hyprland window address 0x");
            lemma_names(
                refusal.text(),
                address,
                "foreground_unavailable: unknown Hyprland window address 0x"@,
                "; call list_windows first"@,
            );
        },
        Refusal::WrongOwner { address, owner, pid } => {
            let before = "foreground_unavailable: Hyprland window 0x"@;
            let after = " belongs to pid "@ + decimal_text(owner as nat) + ", not pid "@
                + decimal_text(pid as nat);
            reveal_strlit("foreground_unavailable: Hyprland window 0x");
            assert(refusal.text() == before + hex_text(address as nat) + after);
            lemma_names(refusal.text(), address, before, after);
        },
        Refusal::StaleTarget { address } => {
            let before = "foreground_unavailable: stale or reused Hyprland address 0x"@;
            reveal_strlit("foreground_unavailable: stale or reused Hyprland address 0x");
            assert(refusal.text() == before + hex_text(address as nat) + none);
            lemma_names(refusal.text(), address, before, none);
        },
        Refusal::TargetNotVisible { address } => {
            reveal_strlit("foreground_unavailable: Hyprland target 0x");
            lemma_names(
                refusal.text(),
                address,
                "foreground_unavailable: Hyprland target 0x"@,
                " is not visible on an active workspace"@,
            );
        },
        Refusal::StaleFocus { address } => {
            let before = "refusing to focus stale or reused Hyprland address 0x"@;
            reveal_strlit("refusing to focus stale or reused Hyprland address 0x");
            assert(refusal.text() == before + hex_text(address as nat) + none);
            lemma_names(refusal.text(), address, before, none);
        },
        Refusal::AddressReused { address } => {
            reveal_strlit("Hyprland address 0x");
            lemma_names(
                refusal.text(),
                address,
                "Hyprland address 0x"@,
                " was reused by a different window while focusing"@,
            );
        },
        Refusal::FocusTimedOut { address } => {
            reveal_strlit("Hyprland did not focus window 0x");
            lemma_names(
                refusal.text(),
                address,
                "Hyprland did not focus window 0x"@,
                " within 500ms"@,
            );
        },
        _ => {},
    }
}

/// What keeps a window from being brought to the foreground is said under one
/// heading.
pub proof fn law_foreground_refusals_are_marked(refusal: Refusal)
    requires
        refusal is PendingRebind || refusal is NotLive || refusal is ConflictingIdentities
            || refusal is UnknownAddress || refusal is WrongOwner || refusal is StaleTarget
            || refusal is TargetNotVisible || refusal is TargetWithoutIdentity
            || refusal is TargetChanged || refusal is ActiveUnverifiable
            || refusal is ActiveNotLive,
    ensures
        refusal.text().len() > 24,
        refusal.text().take(24) == "foreground_unavailable: "@,
{
    reveal_strlit("foreground_unavailable: ");
    reveal_strlit("foreground_unavailable: Hyprland window address 0x");
    reveal_strlit("foreground_unavailable: Hyprland reported conflicting identities for address 0x");
    reveal_strlit("foreground_unavailable: unknown Hyprland window address 0x");
    reveal_strlit("foreground_unavailable: Hyprland window 0x");
    reveal_strlit("foreground_unavailable: stale or reused Hyprland address 0x");
    reveal_strlit("foreground_unavailable: Hyprland target 0x");
    reveal_strlit("foreground_unavailable: Hyprland target has no valid identity");
    reveal_strlit("foreground_unavailable: Hyprland target changed identity before focus");
    reveal_strlit("foreground_unavailable: Hyprland active window had no verifiable identity");
    reveal_strlit("foreground_unavailable: Hyprland active window identity was not live");
    assert(refusal.text().take(24) =~= "foreground_unavailable: "@);
}

/// Where the registry refuses a window, its message ends with the reason.
pub proof fn law_registry_refusals_give_their_reason(address: u64)
    ensures
        ends_with(
            (Refusal::PendingRebind { address }).text(),
            " is pending identity rebind confirmation"@,
        ),
        ends_with((Refusal::NotLive { address }).text(), " is not currently live"@),
        ends_with((Refusal::UnknownAddress { address }).text(), "; call list_windows first"@),
{
    lemma_ends(
        "foreground_unavailable: Hyprland window address 0x"@ + hex_text(address as nat),
        " is pending identity rebind confirmation"@,
    );
    lemma_ends(
        "foreground_unavailable: Hyprland window address 0x"@ + hex_text(address as nat),
        " is not currently live"@,
    );
    lemma_ends(
        "foreground_unavailable: unknown Hyprland window address 0x"@ + hex_text(address as nat),
        "; call list_windows first"@,
    );
}

/// Whether a text ends with another one.
pub open spec fn ends_with(text: Seq<char>, end: Seq<char>) -> bool {
    text.len() >= end.len() && text.skip(text.len() - end.len()) == end
}

proof fn lemma_ends(front: Seq<char>, end: Seq<char>)
    ensures
        ends_with(front + end, end),
{
    assert((front + end).skip((front + end).len() - end.len()) =~= end);
}

/// The message of a failed transaction ends with what went wrong last: the
/// failure itself, what the rollback came to, or why the focus is not back. A
/// body whose own result stands has no message.
pub proof fn law_outcomes_say_what_went_wrong(
    failure: FailureView,
    cause: FailureView,
    decision: DecisionView,
)
    ensures
        OutcomeView::Value.text() is None,
        OutcomeView::BodyFailed.text() is None,
        OutcomeView::Failed(failure).text() == Some(failure.text()),
        (OutcomeView::RolledBack { cause, decision }).text() matches Some(text) && ends_with(
            text,
            decision_text(decision),
        ),
        (OutcomeView::RollbackFailed { cause, rollback: failure }).text() matches Some(text)
            && ends_with(text, failure.text()),
        (OutcomeView::BodyAndRestoreFailed { restore: failure }).text() matches Some(text)
            && ends_with(text, failure.text()),
{
    lemma_ends(
        "guarded rollback after failed Hyprland focus completed with "@,
        decision_text(decision),
    );
    lemma_ends(
        "guarded rollback after failed Hyprland focus also failed: "@,
        failure.text(),
    );
    lemma_ends("the prior Hyprland focus also could not be restored: "@, failure.text());
}

} // verus!
