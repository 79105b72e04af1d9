//! What is sent to the compositor, and what its replies mean.
use vstd::prelude::*;
use vstd::utf8::decode_utf8;

use crate::address::{address_of, law_address_text_round_trips};
use crate::command::{
    cursor_answer, cursor_dispatch, failure_detail, in_session, is_accepted, is_readable,
    law_selectors_are_quoted_as_they_are, legacy_focus, lua_focus, query_answer, readable_detail,
    ReplyView,
};
use crate::laws::texts::{
    is_core, law_trimming_leaves_the_core, law_words_are_found_in_any_case, spells,
};
use crate::refusal::{Query, Refusal};
use crate::text::{hex_text, is_white_space, signed_text};

verus! {

/// A dispatch is taken when the process succeeded and its output starts with the
/// bytes of `ok`, whatever follows, and only then.
pub proof fn law_dispatches_are_taken_with_ok(reply: ReplyView)
    ensures
        is_accepted(reply) <==> {
            &&& reply.success
            &&& reply.stdout.len() >= 2
            &&& reply.stdout.take(2) == seq![111u8, 107u8]
        },
{
    if reply.stdout.len() >= 2 {
        let front = reply.stdout.take(2);
        assert(front[0] == reply.stdout[0] && front[1] == reply.stdout[1]);
        if is_accepted(reply) {
            assert(front =~= seq![111u8, 107u8]);
        }
    }
}

/// The answer to a query can be read when the process was started, succeeded and
/// wrote at least one byte, and only then.
pub proof fn law_queries_are_read_when_answered(query: Query, reply: Option<ReplyView>)
    ensures
        query_answer(query, reply) is Ok <==> {
            &&& reply is Some
            &&& reply->0.success
            &&& reply->0.stdout != Seq::<u8>::empty()
        },
        reply is None ==> query_answer(query, reply) == Err::<(), _>(
            Refusal::QueryNotLaunched(query),
        ),
        reply is Some && query_answer(query, reply) is Err ==> query_answer(query, reply) == Err::<
            (),
            _,
        >(Refusal::QueryFailed(query)),
{
    if let Some(reply) = reply {
        if reply.stdout.len() == 0 {
            assert(reply.stdout =~= Seq::<u8>::empty());
        }
    }
}

/// The cursor was moved when the dispatch was taken, and only then.
pub proof fn law_cursor_moves_when_taken(reply: Option<ReplyView>)
    ensures
        cursor_answer(reply) is Ok <==> reply is Some && is_accepted(reply->0),
        reply is None ==> cursor_answer(reply) == Err::<(), _>(Refusal::MoveCursorNotLaunched),
        reply is Some && !is_accepted(reply->0) ==> cursor_answer(reply) == Err::<(), _>(
            Refusal::MoveCursorFailed,
        ),
{
}

/// The cursor is sent to its two coordinates, the horizontal one first.
pub proof fn law_cursor_goes_to_its_coordinates(x: i32, y: i32)
    ensures
        cursor_dispatch(x, y).len() == 4,
        cursor_dispatch(x, y)[0] == "dispatch"@,
        cursor_dispatch(x, y)[1] == "movecursor"@,
        cursor_dispatch(x, y)[2] == signed_text(x as int),
        cursor_dispatch(x, y)[3] == signed_text(y as int),
{
}

/// There is a session when the signature is set and the desktop mentions Hyprland
/// somewhere, in any case, and only then.
pub proof fn law_sessions_mention_the_compositor(
    has_instance_signature: bool,
    current_desktop: Option<Seq<char>>,
)
    ensures
        in_session(has_instance_signature, current_desktop) <==> {
            &&& has_instance_signature
            &&& current_desktop is Some
            &&& exists|i: int|
                0 <= i <= current_desktop->0.len() - 8 && spells(
                    current_desktop->0,
                    seq!['h', 'y', 'p', 'r', 'l', 'a', 'n', 'd'],
                    i,
                )
        },
{
    reveal_strlit("hyprland");
    let word = seq!['h', 'y', 'p', 'r', 'l', 'a', 'n', 'd'];
    assert("hyprland"@ =~= word);
    if let Some(desktop) = current_desktop {
        law_words_are_found_in_any_case(desktop, word);
    }
}

/// Whether a detail is the core of what was written.
pub open spec fn is_core_of(detail: Seq<char>, written: Seq<char>) -> bool {
    exists|start: int, end: int| #[trigger]
        is_core(written, start, end) && detail == written.subrange(start, end)
}

/// Whether nothing but white space was written.
pub open spec fn wrote_nothing(written: Seq<char>) -> bool {
    forall|i: int| 0 <= i < written.len() ==> is_white_space(#[trigger] written[i])
}

/// A failed command is described by the core of what it wrote to standard error;
/// where that is nothing, by the core of what it wrote to standard output; and
/// where that is nothing too, by its exit status.
pub proof fn law_failures_are_described_by_what_was_written(
    stderr: Seq<char>,
    stdout: Seq<char>,
    status: Seq<char>,
)
    ensures
        !wrote_nothing(stderr) ==> is_core_of(failure_detail(stderr, stdout, status), stderr)
            && failure_detail(stderr, stdout, status).len() > 0,
        wrote_nothing(stderr) && !wrote_nothing(stdout) ==> is_core_of(
            failure_detail(stderr, stdout, status),
            stdout,
        ) && failure_detail(stderr, stdout, status).len() > 0,
        wrote_nothing(stderr) && wrote_nothing(stdout) ==> failure_detail(stderr, stdout, status)
            == "exit status "@ + status,
{
    law_trimming_leaves_the_core(stderr);
    law_trimming_leaves_the_core(stdout);
}

/// What a readable reply says is taken as it was written.
pub proof fn law_readable_replies_are_quoted(reply: ReplyView)
    requires
        is_readable(reply),
    ensures
        !wrote_nothing(decode_utf8(reply.stderr)) ==> is_core_of(
            readable_detail(reply),
            decode_utf8(reply.stderr),
        ),
        wrote_nothing(decode_utf8(reply.stderr)) && !wrote_nothing(decode_utf8(reply.stdout))
            ==> is_core_of(readable_detail(reply), decode_utf8(reply.stdout)),
        wrote_nothing(decode_utf8(reply.stderr)) && wrote_nothing(decode_utf8(reply.stdout))
            ==> readable_detail(reply) == "exit status "@ + reply.status,
{
    law_failures_are_described_by_what_was_written(
        decode_utf8(reply.stderr),
        decode_utf8(reply.stdout),
        reply.status,
    );
}

/// Both focus dispatches name the window by its address: the hexadecimal text in
/// them reads back as the address. In the Lua dispatch the selector stands
/// between double quotes.
pub proof fn law_focus_dispatches_name_the_address(address: u64)
    ensures
        ({
            let named = hex_text(address as nat);
            let selector = "address:0x"@ + named;
            &&& address_of(named) == Some(address)
            &&& legacy_focus(address).len() == 3
            &&& legacy_focus(address)[0] == "dispatch"@
            &&& legacy_focus(address)[1] == "focuswindow"@
            &&& legacy_focus(address)[2] == selector
            &&& lua_focus(address).len() == 2
            &&& lua_focus(address)[0] == "dispatch"@
            &&& lua_focus(address)[1] == "hl.dsp.focus({ window = "@ + (seq!['"'] + selector
                + seq!['"']) + " })"@
        }),
{
    law_address_text_round_trips(address);
    law_selectors_are_quoted_as_they_are(address);
}

/// Different windows are focused by different dispatches.
pub proof fn law_different_addresses_are_dispatched_differently(left: u64, right: u64)
    requires
        left != right,
    ensures
        lua_focus(left) != lua_focus(right),
        legacy_focus(left) != legacy_focus(right),
{
    law_focus_dispatches_name_the_address(left);
    law_focus_dispatches_name_the_address(right);
    let a = hex_text(left as nat);
    let b = hex_text(right as nat);
    let head = "address:0x"@;
    if head + a == head + b {
        assert((head + a).skip(head.len() as int) == a);
        assert((head + b).skip(head.len() as int) == b);
    }
    let front = "hl.dsp.focus({ window = "@;
    let back = " })"@;
    let l = seq!['"'] + (head + a) + seq!['"'];
    let r = seq!['"'] + (head + b) + seq!['"'];
    if front + l + back == front + r + back {
        assert((front + l + back).len() == front.len() + l.len() + back.len());
        assert((front + r + back).len() == front.len() + r.len() + back.len());
        assert(l.len() == r.len());
        assert((front + l + back).subrange(front.len() as int, (front.len() + l.len()) as int)
            == l);
        assert((front + r + back).subrange(front.len() as int, (front.len() + r.len()) as int)
            == r);
        assert(l.subrange(1, l.len() - 1) == head + a);
        assert(r.subrange(1, r.len() - 1) == head + b);
    }
}

} // verus!
