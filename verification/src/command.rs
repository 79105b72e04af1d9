//! The `hyprctl` command line: which program to run, with which arguments, and
//! what its replies mean.
use vstd::prelude::*;
use vstd::utf8::{decode_utf8, valid_utf8};

use crate::refusal::{Query, Refusal};
use crate::text::{
    contains_lower, hex_digit, hex_string, hex_text, lower_contains, signed_string, signed_text, trim,
    trimmed,
};

verus! {

/// What a finished `hyprctl` process left behind.
#[derive(Debug, PartialEq, Eq)]
pub struct CommandReply {
    pub success: bool,
    pub stdout: Vec<u8>,
    pub stderr: Vec<u8>,
    /// The exit status in words.
    pub status: String,
}

/// The contents of a [`CommandReply`].
pub struct ReplyView {
    pub success: bool,
    pub stdout: Seq<u8>,
    pub stderr: Seq<u8>,
    pub status: Seq<char>,
}

impl View for CommandReply {
    type V = ReplyView;

    open spec fn view(&self) -> ReplyView {
        ReplyView {
            success: self.success,
            stdout: self.stdout@,
            stderr: self.stderr@,
            status: self.status@,
        }
    }
}

impl DeepView for CommandReply {
    type V = ReplyView;

    open spec fn deep_view(&self) -> ReplyView {
        self@
    }
}

/// Whether the compositor took a dispatch: the process succeeded and its output
/// starts with `ok`.
pub open spec fn is_accepted(reply: ReplyView) -> bool {
    &&& reply.success
    &&& reply.stdout.len() >= 2
    &&& reply.stdout[0] == 'o' as u8
    &&& reply.stdout[1] == 'k' as u8
}

/// Reads whether the compositor took a dispatch.
pub fn accepted(reply: &CommandReply) -> (r: bool)
    ensures
        r == is_accepted(reply@),
{
    reply.success && reply.stdout.len() >= 2 && reply.stdout[0] == 'o' as u8 && reply.stdout[1]
        == 'k' as u8
}

/// Whether this is a Hyprland session, by the environment.
pub open spec fn in_session(has_instance_signature: bool, current_desktop: Option<Seq<char>>) -> bool {
    match current_desktop {
        Some(desktop) => has_instance_signature && lower_contains(desktop, "hyprland"@),
        None => false,
    }
}

/// Whether this is a Hyprland session: the instance signature is set, and the
/// current desktop, where it can be read, mentions Hyprland in any case.
pub fn is_session(has_instance_signature: bool, current_desktop: Option<&str>) -> (session: bool)
    ensures
        session == (has_instance_signature && (current_desktop matches Some(desktop)
            && lower_contains(desktop@, "hyprland"@))),
        session == in_session(
            has_instance_signature,
            match current_desktop {
                Some(desktop) => Some(desktop@),
                None => None,
            },
        ),
{
    match current_desktop {
        Some(desktop) => has_instance_signature && contains_lower(desktop, "hyprland"),
        None => false,
    }
}

/// The program to run: the system-wide installation where there is one.
pub fn hyprctl_binary(system_wide: bool) -> (binary: &'static str)
    ensures
        binary@ == (if system_wide {
            "/usr/bin/hyprctl"@
        } else {
            "hyprctl"@
        }),
{
    if system_wide {
        "/usr/bin/hyprctl"
    } else {
        "hyprctl"
    }
}

/// The arguments that ask for a query's answer in JSON.
pub fn query_arguments(query: Query) -> (arguments: Vec<String>)
    ensures
        arguments.deep_view() == seq!["-j"@, query.text()],
{
    let arguments = vec!["-j".to_owned(), query.name().to_owned()];
    assert(arguments.deep_view() == seq!["-j"@, query.text()]);
    arguments
}

/// Whether the answer to a query can be read, by the reply; `None` stands for a
/// process that could not be started.
pub open spec fn query_answer(query: Query, reply: Option<ReplyView>) -> Result<(), Refusal> {
    match reply {
        None => Err(Refusal::QueryNotLaunched(query)),
        Some(reply) => if !reply.success || reply.stdout.len() == 0 {
            Err(Refusal::QueryFailed(query))
        } else {
            Ok(())
        },
    }
}

/// Whether the cursor was moved, by the reply to the dispatch.
pub open spec fn cursor_answer(reply: Option<ReplyView>) -> Result<(), Refusal> {
    match reply {
        None => Err(Refusal::MoveCursorNotLaunched),
        Some(reply) => if is_accepted(reply) {
            Ok(())
        } else {
            Err(Refusal::MoveCursorFailed)
        },
    }
}

/// The arguments that move the cursor.
pub open spec fn cursor_dispatch(x: i32, y: i32) -> Seq<Seq<char>> {
    seq!["dispatch"@, "movecursor"@, signed_text(x as int), signed_text(y as int)]
}

/// Whether the answer to a query can be read: the process was started, it
/// succeeded and it wrote something.
pub fn check_query(query: Query, reply: Option<&CommandReply>) -> (answer: Result<(), Refusal>)
    ensures
        answer == (match reply {
            None => Err::<(), Refusal>(Refusal::QueryNotLaunched(query)),
            Some(reply) => if reply@.success && reply@.stdout.len() > 0 {
                Ok(())
            } else {
                Err(Refusal::QueryFailed(query))
            },
        }),
        answer == query_answer(query, reply.deep_view()),
{
    match reply {
        None => Err(Refusal::QueryNotLaunched(query)),
        Some(reply) => if !reply.success || reply.stdout.is_empty() {
            Err(Refusal::QueryFailed(query))
        } else {
            Ok(())
        },
    }
}

/// The arguments that position the real Hyprland seat cursor in
/// compositor-logical coordinates. The compositor's dispatcher is authoritative
/// across mixed-scale and multi-monitor layouts.
pub fn move_cursor(session: bool, x: i32, y: i32) -> (arguments: Result<Vec<String>, Refusal>)
    ensures
        match arguments {
            Ok(arguments) => session && arguments.deep_view() == seq![
                "dispatch"@,
                "movecursor"@,
                signed_text(x as int),
                signed_text(y as int),
            ],
            Err(error) => !session && error == Refusal::NotHyprlandSession,
        },
        arguments matches Ok(arguments) ==> arguments.deep_view() == cursor_dispatch(x, y),
{
    if !session {
        return Err(Refusal::NotHyprlandSession);
    }
    let arguments = vec![
        "dispatch".to_owned(),
        "movecursor".to_owned(),
        signed_string(x),
        signed_string(y),
    ];
    assert(arguments.deep_view() == seq![
        "dispatch"@,
        "movecursor"@,
        signed_text(x as int),
        signed_text(y as int),
    ]);
    Ok(arguments)
}

/// Whether the cursor was moved, by the reply to the dispatch; `None` stands for
/// a process that could not be started.
pub fn cursor_moved(reply: Option<&CommandReply>) -> (moved: Result<(), Refusal>)
    ensures
        moved == (match reply {
            None => Err::<(), Refusal>(Refusal::MoveCursorNotLaunched),
            Some(reply) => if is_accepted(reply@) {
                Ok(())
            } else {
                Err(Refusal::MoveCursorFailed)
            },
        }),
        moved == cursor_answer(reply.deep_view()),
{
    match reply {
        None => Err(Refusal::MoveCursorNotLaunched),
        Some(reply) => if accepted(reply) {
            Ok(())
        } else {
            Err(Refusal::MoveCursorFailed)
        },
    }
}

/// What `String::from_utf8_lossy` makes of some bytes.
pub uninterp spec fn lossy_text(bytes: Seq<u8>) -> Seq<char>;

/// Calls `String::from_utf8_lossy`. The result is a function of the bytes alone,
/// and bytes that are valid UTF-8 give the text that they encode. How invalid
/// bytes are replaced is not spelled out.
#[verifier::external_body]
fn lossy_string(bytes: &[u8]) -> (text: String)
    ensures
        text@ == lossy_text(bytes@),
        valid_utf8(bytes@) ==> text@ == decode_utf8(bytes@),
{
    String::from_utf8_lossy(bytes).into_owned()
}

/// The detail of a failed command: what it wrote to standard error, else what it
/// wrote to standard output, else its exit status.
pub open spec fn failure_detail(
    stderr: Seq<char>,
    stdout: Seq<char>,
    status: Seq<char>,
) -> Seq<char> {
    if trimmed(stderr).len() > 0 {
        trimmed(stderr)
    } else if trimmed(stdout).len() > 0 {
        trimmed(stdout)
    } else {
        "exit status "@ + status
    }
}

/// Picks the detail of a failed command from what it wrote.
pub fn command_detail(stderr: &str, stdout: &str, status: &str) -> (detail: String)
    ensures
        detail@ == failure_detail(stderr@, stdout@, status@),
{
    let errors = trim(stderr);
    let output = trim(stdout);
    let written = if errors.is_empty() {
        output
    } else {
        errors
    };
    if written.is_empty() {
        "exit status ".to_owned().concat(status)
    } else {
        written.to_owned()
    }
}

/// The detail of a failed command, from the bytes that it wrote.
pub open spec fn reply_detail(reply: ReplyView) -> Seq<char> {
    failure_detail(lossy_text(reply.stderr), lossy_text(reply.stdout), reply.status)
}

/// Whether a command wrote nothing but valid UTF-8.
pub open spec fn is_readable(reply: ReplyView) -> bool {
    valid_utf8(reply.stderr) && valid_utf8(reply.stdout)
}

/// The detail of a failed command that wrote nothing but valid UTF-8.
pub open spec fn readable_detail(reply: ReplyView) -> Seq<char> {
    failure_detail(decode_utf8(reply.stderr), decode_utf8(reply.stdout), reply.status)
}

/// Describes a failed command. What it wrote in valid UTF-8 is taken as it
/// stands, and standard error alone decides where it is readable and not blank.
pub fn command_error(reply: &CommandReply) -> (detail: String)
    ensures
        detail@ == reply_detail(reply@),
        is_readable(reply@) ==> detail@ == readable_detail(reply@),
        valid_utf8(reply@.stderr) && trimmed(decode_utf8(reply@.stderr)).len() > 0 ==> detail@
            == trimmed(decode_utf8(reply@.stderr)),
{
    let stderr = lossy_string(reply.stderr.as_slice());
    let stdout = lossy_string(reply.stdout.as_slice());
    command_detail(stderr.as_str(), stdout.as_str(), reply.status.as_str())
}

/// The error type of `serde_json`, which is only passed through.
#[verifier::external_type_specification]
#[verifier::external_body]
pub struct ExJsonError(serde_json::Error);

/// A character inside a JSON string.
pub open spec fn json_char(c: char) -> Seq<char> {
    if c == '"' || c == '\\' {
        seq!['\\', c]
    } else if c == '\u{8}' {
        seq!['\\', 'b']
    } else if c == '\u{9}' {
        seq!['\\', 't']
    } else if c == '\u{a}' {
        seq!['\\', 'n']
    } else if c == '\u{c}' {
        seq!['\\', 'f']
    } else if c == '\u{d}' {
        seq!['\\', 'r']
    } else if (c as nat) <= 0x1f {
        seq!['\\', 'u', '0', '0', hex_digit(c as nat / 16), hex_digit(c as nat % 16)]
    } else {
        seq![c]
    }
}

/// A text as a JSON string.
pub open spec fn json_text(text: Seq<char>) -> Seq<char> {
    seq!['"'] + text.flat_map(|c: char| json_char(c)) + seq!['"']
}

/// Calls `serde_json::to_string` on a string. It never fails there: writing into
/// memory does not, and neither does serialising a string. The result is the
/// string in double quotes, with the double quote, the backslash and the control
/// characters below the space escaped.
#[verifier::external_body]
fn json_string(text: &str) -> (encoded: Result<String, serde_json::Error>)
    ensures
        encoded is Ok,
        encoded->Ok_0@ == json_text(text@),
{
    serde_json::to_string(text)
}

/// The selector of the window at an address.
pub open spec fn selector_text(address: u64) -> Seq<char> {
    "address:0x"@ + hex_text(address as nat)
}

/// The Lua expression that focuses the window at an address.
pub open spec fn lua_focus_text(address: u64) -> Seq<char> {
    "hl.dsp.focus({ window = "@ + json_text(selector_text(address)) + " })"@
}

/// Writes the selector of the window at an address.
fn selector(address: u64) -> (text: String)
    ensures
        text@ == selector_text(address),
{
    "address:0x".to_owned().concat(hex_string(address).as_str())
}

/// The arguments of the Lua focus dispatch.
pub open spec fn lua_focus(address: u64) -> Seq<Seq<char>> {
    seq!["dispatch"@, lua_focus_text(address)]
}

/// The arguments of the legacy focus dispatch.
pub open spec fn legacy_focus(address: u64) -> Seq<Seq<char>> {
    seq!["dispatch"@, "focuswindow"@, selector_text(address)]
}

/// The arguments that focus the window at an address, for a compositor with Lua
/// dispatchers.
pub fn lua_focus_arguments(address: u64) -> (arguments: Vec<String>)
    ensures
        arguments.deep_view() == lua_focus(address),
{
    let lua_selector = json_string(selector(address).as_str()).unwrap();
    let lua_dispatch = "hl.dsp.focus({ window = ".to_owned().concat(lua_selector.as_str()).concat(
        " })",
    );
    let arguments = vec!["dispatch".to_owned(), lua_dispatch];
    assert(arguments.deep_view() == lua_focus(address));
    arguments
}

/// The arguments that focus the window at an address, for a compositor without
/// Lua dispatchers.
pub fn legacy_focus_arguments(address: u64) -> (arguments: Vec<String>)
    ensures
        arguments.deep_view() == legacy_focus(address),
{
    let arguments = vec!["dispatch".to_owned(), "focuswindow".to_owned(), selector(address)];
    assert(arguments.deep_view() == legacy_focus(address));
    arguments
}

proof fn lemma_plain_text_is_kept(text: Seq<char>)
    requires
        forall|i: int| 0 <= i < text.len() ==> json_char(#[trigger] text[i]) == seq![text[i]],
    ensures
        text.flat_map(|c: char| json_char(c)) == text,
    decreases text.len(),
{
    let f = |c: char| json_char(c);
    if text.len() > 0 {
        let shorter = text.drop_last();
        assert forall|i: int| 0 <= i < shorter.len() implies json_char(#[trigger] shorter[i])
            == seq![shorter[i]] by {
            assert(json_char(text[i]) == seq![text[i]]);
        }
        lemma_plain_text_is_kept(shorter);
        assert(text == shorter.push(text.last()));
        shorter.lemma_flat_map_push(f, text.last());
        assert(json_char(text[text.len() - 1]) == seq![text.last()]);
        assert(text.flat_map(f) == shorter + seq![text.last()]);
    } else {
        assert(text.map_values(f) =~= Seq::<Seq<char>>::empty());
    }
}

proof fn lemma_hex_text_is_plain(value: nat)
    ensures
        forall|i: int|
            0 <= i < hex_text(value).len() ==> json_char(#[trigger] hex_text(value)[i])
                == seq![hex_text(value)[i]],
    decreases value,
{
    let text = hex_text(value);
    if value >= 16 {
        lemma_hex_text_is_plain(value / 16);
    }
    assert forall|i: int| 0 <= i < text.len() implies json_char(#[trigger] text[i])
        == seq![text[i]] by {
        if value >= 16 && i < text.len() - 1 {
            assert(text[i] == hex_text(value / 16)[i]);
        } else {
            assert(text[i] == hex_digit(value % 16));
        }
    }
}

/// A window selector needs no escapes: in the Lua dispatch it stands between two
/// double quotes as it is.
pub proof fn law_selectors_are_quoted_as_they_are(address: u64)
    ensures
        json_text(selector_text(address)) == seq!['"'] + selector_text(address) + seq!['"'],
{
    reveal_strlit("address:0x");
    lemma_hex_text_is_plain(address as nat);
    let text = selector_text(address);
    let head = "address:0x"@;
    assert forall|i: int| 0 <= i < text.len() implies json_char(#[trigger] text[i])
        == seq![text[i]] by {
        if i >= head.len() {
            assert(text[i] == hex_text(address as nat)[i - head.len()]);
        }
    }
    lemma_plain_text_is_kept(text);
}

} // verus!
