//! Resolving the compositor address of a window that is to be captured.
//!
//! Standard foreign-toplevel protocols expose neither the owning process nor a
//! handle that the compositor's toplevel export accepts. A capture is allowed
//! only when one mapped client of the requested process matches the title and
//! app-id that were observed.
use vstd::prelude::*;

use crate::address::{address_of, parse_address};
use crate::laws::captures::{contents, law_answers_by_bearers, may_be_captured_at, only_bearer};
use crate::records::{Client, ClientView};
use crate::refusal::Refusal;
use crate::select::{lemma_no_place, lemma_one_place, lemma_sole_place, lemma_two_places, sole};
use crate::windows::names;

verus! {

/// Whether a client can be captured for a process: it is mapped, not hidden,
/// owned by the process and has a valid address.
pub open spec fn capturable(client: ClientView, pid: u32) -> bool {
    &&& client.mapped
    &&& !client.hidden
    &&& client.pid == pid
    &&& address_of(client.address) is Some
}

/// Whether a client fits the title and app-id of an observation: both where both
/// were observed, else the one that was.
pub open spec fn described(client: ClientView, title: Seq<char>, app_id: Seq<char>) -> bool {
    if title.len() > 0 && app_id.len() > 0 {
        client.title == title && client.class == app_id
    } else {
        names(title, client.title) || names(app_id, client.class)
    }
}

/// Whether some client that can be captured for a process is at an address.
pub open spec fn captures_at(clients: Seq<ClientView>, address: u64, pid: u32) -> bool {
    exists|i: int|
        0 <= i < clients.len() && capturable(#[trigger] clients[i], pid) && address_of(
            clients[i].address,
        ) == Some(address)
}

/// The clients that can be captured for a process and fit an observation.
pub open spec fn candidates(
    clients: Seq<ClientView>,
    pid: u32,
    title: Seq<char>,
    app_id: Seq<char>,
) -> Seq<ClientView> {
    clients.filter(fits_observation(pid, title, app_id))
}

/// The condition on a candidate for a capture.
pub open spec fn fits_observation(
    pid: u32,
    title: Seq<char>,
    app_id: Seq<char>,
) -> spec_fn(ClientView) -> bool {
    |client: ClientView| capturable(client, pid) && described(client, title, app_id)
}

/// The address to capture: the given one where a client of the process is there,
/// else that of the only candidate.
pub open spec fn capture_answer(
    clients: Seq<ClientView>,
    window_id: u64,
    pid: u32,
    title: Seq<char>,
    app_id: Seq<char>,
) -> Result<u64, Refusal> {
    let found = candidates(clients, pid, title, app_id);
    if captures_at(clients, window_id, pid) {
        Ok(window_id)
    } else if found.len() == 0 {
        Err(Refusal::NoCaptureMatch { pid })
    } else if found.len() == 1 {
        Ok(address_of(found[0].address)->0)
    } else {
        Err(Refusal::AmbiguousCapture { matches: found.len() as usize })
    }
}

fn capture_address(client: &Client, pid: u32) -> (address: Option<u64>)
    ensures
        address == (if capturable(client@, pid) {
            address_of(client@.address)
        } else {
            None
        }),
{
    if client.mapped && !client.hidden && client.pid == pid as i64 {
        parse_address(client.address.as_str())
    } else {
        None
    }
}

fn is_described(client: &Client, title: &String, app_id: &String) -> (r: bool)
    ensures
        r == described(client@, title@, app_id@),
{
    let title_matches = !title.as_str().is_empty() && client.title == *title;
    let app_matches = !app_id.as_str().is_empty() && client.class == *app_id;
    if !title.as_str().is_empty() && !app_id.as_str().is_empty() {
        title_matches && app_matches
    } else {
        title_matches || app_matches
    }
}

/// Resolves the address to capture from a list of clients.
pub fn resolve_from_clients(
    clients: &[Client],
    window_id: u64,
    target_pid: u32,
    title: &str,
    app_id: &str,
) -> (answer: Result<u64, Refusal>)
    ensures
        answer == capture_answer(clients.deep_view(), window_id, target_pid, title@, app_id@),
        may_be_captured_at(clients@, window_id, target_pid) ==> answer == Ok::<_, Refusal>(
            window_id,
        ),
        !may_be_captured_at(clients@, window_id, target_pid) ==> {
            &&& forall|i: int| #[trigger]
                only_bearer(clients@, i, target_pid, title@, app_id@) ==> answer == Ok::<
                    _,
                    Refusal,
                >(address_of(clients@[i].address@)->0)
            &&& answer is Ok ==> exists|i: int| #[trigger]
                only_bearer(clients@, i, target_pid, title@, app_id@)
        },
{
    proof {
        law_answers_by_bearers(clients@, window_id, target_pid, title@, app_id@);
        assert(clients.deep_view() =~= contents(clients@));
    }
    let title_text = title.to_owned();
    let app_text = app_id.to_owned();
    let ghost all = clients.deep_view();
    let ghost fits = fits_observation(target_pid, title@, app_id@);
    let mut first: u64 = 0;
    let mut matches: usize = 0;
    reveal(Seq::filter);
    for i in 0..clients.len()
        invariant
            all == clients.deep_view(),
            fits == fits_observation(target_pid, title@, app_id@),
            title_text@ == title@,
            app_text@ == app_id@,
            forall|j: int|
                0 <= j < i && capturable(#[trigger] all[j], target_pid) ==> address_of(
                    all[j].address,
                ) != Some(window_id),
            matches <= i,
            matches == all.take(i as int).filter(fits).len(),
            matches > 0 ==> address_of(all.take(i as int).filter(fits)[0].address) == Some(first),
    {
        proof {
            assert(all[i as int] == clients@[i as int]@);
            assert(all.take(i + 1) == all.take(i as int).push(all[i as int]));
            all.take(i as int).lemma_filter_push(all[i as int], fits);
        }
        if let Some(address) = capture_address(&clients[i], target_pid) {
            if address == window_id {
                assert(capturable(all[i as int], target_pid));
                return Ok(address);
            }
            if is_described(&clients[i], &title_text, &app_text) {
                if matches == 0 {
                    first = address;
                }
                matches = matches + 1;
            }
        }
    }
    assert(all.take(all.len() as int) == all);
    if matches == 0 {
        Err(Refusal::NoCaptureMatch { pid: target_pid })
    } else if matches == 1 {
        Ok(first)
    } else {
        Err(Refusal::AmbiguousCapture { matches })
    }
}

/// The answer to a request for a capture, given the reading that it rests on.
pub open spec fn capture_request(
    session: bool,
    clients: Result<Vec<Client>, Refusal>,
    window_id: u64,
    target_pid: Option<u32>,
    title: Seq<char>,
    app_id: Seq<char>,
) -> Result<u64, Refusal> {
    match (target_pid, clients) {
        _ if !session => Err(Refusal::NotHyprlandSession),
        (None, _) => Err(Refusal::CaptureWithoutPid),
        (Some(_), Err(refusal)) => Err(refusal),
        (Some(pid), Ok(listed)) => capture_answer(
            listed.deep_view(),
            window_id,
            pid,
            title,
            app_id,
        ),
    }
}

/// Resolves one exact Hyprland compositor address for a Wayland observation.
/// Ambiguous title and app-id matches fail closed rather than selecting a
/// sibling.
pub fn resolve_capture_address(
    session: bool,
    clients: Result<Vec<Client>, Refusal>,
    window_id: u64,
    target_pid: Option<u32>,
    title: &str,
    app_id: &str,
) -> (answer: Result<u64, Refusal>)
    ensures
        answer == (if !session {
            Err::<u64, Refusal>(Refusal::NotHyprlandSession)
        } else {
            match (target_pid, clients) {
                (None, _) => Err(Refusal::CaptureWithoutPid),
                (Some(_), Err(error)) => Err(error),
                (Some(pid), Ok(listed)) => capture_answer(
                    listed.deep_view(),
                    window_id,
                    pid,
                    title@,
                    app_id@,
                ),
            }
        }),
        answer == capture_request(session, clients, window_id, target_pid, title@, app_id@),
{
    if !session {
        return Err(Refusal::NotHyprlandSession);
    }
    let Some(pid) = target_pid else {
        return Err(Refusal::CaptureWithoutPid);
    };
    match clients {
        Err(error) => Err(error),
        Ok(listed) => resolve_from_clients(listed.as_slice(), window_id, pid, title, app_id),
    }
}

/// A resolved address is that of a mapped client of the process that is not
/// hidden, and that fits the observation unless it was asked for by its address.
pub proof fn law_captures_stay_with_the_process(
    clients: Seq<ClientView>,
    window_id: u64,
    pid: u32,
    title: Seq<char>,
    app_id: Seq<char>,
)
    ensures
        capture_answer(clients, window_id, pid, title, app_id) matches Ok(address) ==> {
            &&& captures_at(clients, address, pid)
            &&& address == window_id || exists|i: int|
                0 <= i < clients.len() && fits_observation(pid, title, app_id)(
                    #[trigger] clients[i],
                ) && address_of(clients[i].address) == Some(address)
        },
{
    if !captures_at(clients, window_id, pid) {
        lemma_sole_place(clients, fits_observation(pid, title, app_id));
        if let Some(client) = sole(candidates(clients, pid, title, app_id)) {
            let i = choose|i: int| 0 <= i < clients.len() && clients[i] == client;
            assert(capturable(clients[i], pid));
        }
    }
}

/// The exact address of a client of the process wins over any title and app-id.
pub proof fn law_exact_address_wins(
    clients: Seq<ClientView>,
    window_id: u64,
    pid: u32,
    title: Seq<char>,
    app_id: Seq<char>,
    i: int,
)
    requires
        0 <= i < clients.len(),
        capturable(clients[i], pid),
        address_of(clients[i].address) == Some(window_id),
    ensures
        capture_answer(clients, window_id, pid, title, app_id) == Ok::<_, Refusal>(window_id),
{
}

/// A single candidate is resolved to its address.
pub proof fn law_unique_candidate_is_resolved(
    clients: Seq<ClientView>,
    window_id: u64,
    pid: u32,
    title: Seq<char>,
    app_id: Seq<char>,
    i: int,
)
    requires
        !captures_at(clients, window_id, pid),
        0 <= i < clients.len(),
        fits_observation(pid, title, app_id)(clients[i]),
        forall|j: int|
            0 <= j < clients.len() && j != i ==> !fits_observation(pid, title, app_id)(
                #[trigger] clients[j],
            ),
    ensures
        capture_answer(clients, window_id, pid, title, app_id) == Ok::<_, Refusal>(
            address_of(clients[i].address)->0,
        ),
{
    lemma_one_place(clients, fits_observation(pid, title, app_id), i);
}

/// With two candidates and none at the given address, nothing is resolved, and
/// the refusal says how many candidates there are.
pub proof fn law_ambiguous_candidates_fail_closed(
    clients: Seq<ClientView>,
    window_id: u64,
    pid: u32,
    title: Seq<char>,
    app_id: Seq<char>,
    i: int,
    j: int,
)
    requires
        !captures_at(clients, window_id, pid),
        0 <= i < j < clients.len(),
        fits_observation(pid, title, app_id)(clients[i]),
        fits_observation(pid, title, app_id)(clients[j]),
    ensures
        capture_answer(clients, window_id, pid, title, app_id) == Err::<u64, _>(
            Refusal::AmbiguousCapture {
                matches: candidates(clients, pid, title, app_id).len() as usize,
            },
        ),
{
    lemma_two_places(clients, fits_observation(pid, title, app_id), i, j);
}

/// Without a title and an app-id, only an exact address is resolved.
pub proof fn law_empty_observation_matches_nothing(
    clients: Seq<ClientView>,
    window_id: u64,
    pid: u32,
)
    requires
        !captures_at(clients, window_id, pid),
    ensures
        capture_answer(clients, window_id, pid, Seq::empty(), Seq::empty()) == Err::<u64, _>(
            Refusal::NoCaptureMatch { pid },
        ),
{
    lemma_no_place(
        clients,
        fits_observation(pid, Seq::<char>::empty(), Seq::<char>::empty()),
    );
}

} // verus!
