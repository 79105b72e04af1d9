//! Why a request is refused, and the message that says so.
use vstd::prelude::*;
use vstd::string::*;

use crate::text::{decimal_string, decimal_text, hex_string, hex_text};

verus! {

/// What can be asked of the compositor.
#[derive(Clone, Copy, Debug, PartialEq, Eq, Structural)]
pub enum Query {
    Clients,
    Monitors,
    ActiveWindow,
}

impl Query {
    /// The name under which `hyprctl` knows a query.
    pub open spec fn text(self) -> Seq<char> {
        match self {
            Query::Clients => "clients"@,
            Query::Monitors => "monitors"@,
            Query::ActiveWindow => "activewindow"@,
        }
    }

    /// The name under which `hyprctl` knows a query.
    pub fn name(self) -> (name: &'static str)
        ensures
            name@ == self.text(),
    {
        match self {
            Query::Clients => "clients",
            Query::Monitors => "monitors",
            Query::ActiveWindow => "activewindow",
        }
    }
}

/// Why a request is refused.
#[derive(Clone, Copy, Debug, PartialEq, Eq, Structural)]
pub enum Refusal {
    /// There is no Hyprland session.
    NotHyprlandSession,
    /// No monitor has a usable size, or the layout is too large.
    NoMonitorLayout,
    /// `hyprctl` could not be started to move the cursor.
    MoveCursorNotLaunched,
    /// The compositor refused to move the cursor.
    MoveCursorFailed,
    /// `hyprctl` could not be started for a query.
    QueryNotLaunched(Query),
    /// A query failed or brought nothing.
    QueryFailed(Query),
    /// The answer to a query could not be read.
    QueryNotParsed(Query),
    /// `hyprctl` could not be started for the Lua focus dispatch.
    LuaFocusNotLaunched,
    /// `hyprctl` could not be started for the legacy focus dispatch.
    LegacyFocusNotLaunched,
    /// Another window was seen at the address for the first time.
    PendingRebind { address: u64 },
    /// The window at the address is gone.
    NotLive { address: u64 },
    /// One snapshot showed different windows at the address.
    ConflictingIdentities { address: u64 },
    /// No window was ever seen at the address.
    UnknownAddress { address: u64 },
    /// The window belongs to another process.
    WrongOwner { address: u64, owner: u32, pid: u32 },
    /// The trusted window is no longer listed as it was.
    StaleTarget { address: u64 },
    /// The target is hidden or on no active workspace.
    TargetNotVisible { address: u64 },
    /// The target has no valid address or process.
    TargetWithoutIdentity,
    /// The target was gone or replaced before it was focused.
    TargetChanged,
    /// Some window has the focus, and it cannot be identified.
    ActiveUnverifiable,
    /// The focused window is not among the live ones.
    ActiveNotLive,
    /// Another window, or none, is first at the address to focus.
    StaleFocus { address: u64 },
    /// Another window took the address while it was being focused.
    AddressReused { address: u64 },
    /// The focus did not arrive in time.
    FocusTimedOut { address: u64 },
    /// A capture was asked for without a process.
    CaptureWithoutPid,
    /// No client of the process matches.
    NoCaptureMatch { pid: u32 },
    /// Several clients of the process match.
    AmbiguousCapture { matches: usize },
}

impl Refusal {
    /// The message for a refusal.
    pub open spec fn text(self) -> Seq<char> {
        match self {
            Refusal::NotHyprlandSession => "not a Hyprland session"@,
            Refusal::NoMonitorLayout => "Hyprland reported no valid monitor layout"@,
            Refusal::MoveCursorNotLaunched => "launch hyprctl dispatch movecursor"@,
            Refusal::MoveCursorFailed => "hyprctl dispatch movecursor failed"@,
            Refusal::QueryNotLaunched(query) => "launch hyprctl -j "@ + query.text(),
            Refusal::QueryFailed(query) => "hyprctl -j "@ + query.text() + " failed"@,
            Refusal::QueryNotParsed(query) => "parse hyprctl "@ + query.text() + " JSON"@,
            Refusal::LuaFocusNotLaunched => "launch Hyprland Lua focus dispatch"@,
            Refusal::LegacyFocusNotLaunched => "launch legacy Hyprland focuswindow dispatch"@,
            Refusal::PendingRebind { address } =>
                "foreground_unavailable: Hyprland window address 0x"@ + hex_text(address as nat)
                    + " is pending identity rebind confirmation"@,
            Refusal::NotLive { address } =>
                "foreground_unavailable: Hyprland window address 0x"@ + hex_text(address as nat)
                    + " is not currently live"@,
            Refusal::ConflictingIdentities { address } =>
                "foreground_unavailable: Hyprland reported conflicting identities for address 0x"@
                    + hex_text(address as nat),
            Refusal::UnknownAddress { address } =>
                "foreground_unavailable: unknown Hyprland window address 0x"@ + hex_text(
                    address as nat,
                ) + "; call list_windows first"@,
            Refusal::WrongOwner { address, owner, pid } =>
                "foreground_unavailable: Hyprland window 0x"@ + hex_text(address as nat)
                    + " belongs to pid "@ + decimal_text(owner as nat) + ", not pid "@
                    + decimal_text(pid as nat),
            Refusal::StaleTarget { address } =>
                "foreground_unavailable: stale or reused Hyprland address 0x"@ + hex_text(
                    address as nat,
                ),
            Refusal::TargetNotVisible { address } =>
                "foreground_unavailable: Hyprland target 0x"@ + hex_text(address as nat)
                    + " is not visible on an active workspace"@,
            Refusal::TargetWithoutIdentity =>
                "foreground_unavailable: Hyprland target has no valid identity"@,
            Refusal::TargetChanged =>
                "foreground_unavailable: Hyprland target changed identity before focus"@,
            Refusal::ActiveUnverifiable =>
                "foreground_unavailable: Hyprland active window had no verifiable identity"@,
            Refusal::ActiveNotLive =>
                "foreground_unavailable: Hyprland active window identity was not live"@,
            Refusal::StaleFocus { address } =>
                "refusing to focus stale or reused Hyprland address 0x"@ + hex_text(address as nat),
            Refusal::AddressReused { address } => "Hyprland address 0x"@ + hex_text(address as nat)
                + " was reused by a different window while focusing"@,
            Refusal::FocusTimedOut { address } => "Hyprland did not focus window 0x"@ + hex_text(
                address as nat,
            ) + " within 500ms"@,
            Refusal::CaptureWithoutPid => "Hyprland capture requires a verified target PID"@,
            Refusal::NoCaptureMatch { pid } => "no mapped Hyprland client owned by PID "@
                + decimal_text(pid as nat) + " matched title/app-id"@,
            Refusal::AmbiguousCapture { matches } => "Hyprland capture identity is ambiguous: "@
                + decimal_text(matches as nat) + " PID-owned clients matched title/app-id"@,
        }
    }

    /// Writes the message for a refusal.
    pub fn message(&self) -> (message: String)
        ensures
            message@ == self.text(),
    {
        match *self {
            Refusal::NotHyprlandSession => "not a Hyprland session".to_owned(),
            Refusal::NoMonitorLayout => "Hyprland reported no valid monitor layout".to_owned(),
            Refusal::MoveCursorNotLaunched => "launch hyprctl dispatch movecursor".to_owned(),
            Refusal::MoveCursorFailed => "hyprctl dispatch movecursor failed".to_owned(),
            Refusal::QueryNotLaunched(query) => "launch hyprctl -j ".to_owned().concat(query.name()),
            Refusal::QueryFailed(query) => "hyprctl -j ".to_owned().concat(query.name()).concat(
                " failed",
            ),
            Refusal::QueryNotParsed(query) => "parse hyprctl ".to_owned().concat(query.name()).concat(
                " JSON",
            ),
            Refusal::LuaFocusNotLaunched => "launch Hyprland Lua focus dispatch".to_owned(),
            Refusal::LegacyFocusNotLaunched =>
                "launch legacy Hyprland focuswindow dispatch".to_owned(),
            Refusal::PendingRebind { address } => around_address(
                "foreground_unavailable: Hyprland window address 0x",
                address,
                " is pending identity rebind confirmation",
            ),
            Refusal::NotLive { address } => around_address(
                "foreground_unavailable: Hyprland window address 0x",
                address,
                " is not currently live",
            ),
            Refusal::ConflictingIdentities { address } => before_address(
                "foreground_unavailable: Hyprland reported conflicting identities for address 0x",
                address,
            ),
            Refusal::UnknownAddress { address } => around_address(
                "foreground_unavailable: unknown Hyprland window address 0x",
                address,
                "; call list_windows first",
            ),
            Refusal::WrongOwner { address, owner, pid } => around_address(
                "foreground_unavailable: Hyprland window 0x",
                address,
                " belongs to pid ",
            ).concat(decimal_string(owner as u64).as_str()).concat(", not pid ").concat(
                decimal_string(pid as u64).as_str(),
            ),
            Refusal::StaleTarget { address } => before_address(
                "foreground_unavailable: stale or reused Hyprland address 0x",
                address,
            ),
            Refusal::TargetNotVisible { address } => around_address(
                "foreground_unavailable: Hyprland target 0x",
                address,
                " is not visible on an active workspace",
            ),
            Refusal::TargetWithoutIdentity =>
                "foreground_unavailable: Hyprland target has no valid identity".to_owned(),
            Refusal::TargetChanged =>
                "foreground_unavailable: Hyprland target changed identity before focus".to_owned(),
            Refusal::ActiveUnverifiable =>
                "foreground_unavailable: Hyprland active window had no verifiable identity".to_owned(),
            Refusal::ActiveNotLive =>
                "foreground_unavailable: Hyprland active window identity was not live".to_owned(),
            Refusal::StaleFocus { address } => before_address(
                "refusing to focus stale or reused Hyprland address 0x",
                address,
            ),
            Refusal::AddressReused { address } => around_address(
                "Hyprland address 0x",
                address,
                " was reused by a different window while focusing",
            ),
            Refusal::FocusTimedOut { address } => around_address(
                "Hyprland did not focus window 0x",
                address,
                " within 500ms",
            ),
            Refusal::CaptureWithoutPid => "Hyprland capture requires a verified target PID".to_owned(),
            Refusal::NoCaptureMatch { pid } => "no mapped Hyprland client owned by PID ".to_owned().concat(
            decimal_string(pid as u64).as_str()).concat(" matched title/app-id"),
            Refusal::AmbiguousCapture { matches } =>
                "Hyprland capture identity is ambiguous: ".to_owned().concat(
                decimal_string(matches as u64).as_str(),
            ).concat(" PID-owned clients matched title/app-id"),
        }
    }
}

/// Writes an address after a text.
fn before_address(before: &str, address: u64) -> (text: String)
    ensures
        text@ == before@ + hex_text(address as nat),
{
    before.to_owned().concat(hex_string(address).as_str())
}

/// Writes an address between two texts.
fn around_address(before: &str, address: u64, after: &str) -> (text: String)
    ensures
        text@ == before@ + hex_text(address as nat) + after@,
{
    before_address(before, address).concat(after)
}

} // verus!
