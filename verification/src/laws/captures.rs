//! Which address a capture is resolved to.
use vstd::prelude::*;

use crate::address::address_of;
use crate::capture::{
    candidates, capturable, capture_answer, capture_request, captures_at, described,
    fits_observation,
};
use crate::records::{Client, ClientView};
use crate::refusal::Refusal;
use crate::select::{lemma_no_place, lemma_one_place, lemma_sole_place, lemma_two_places};

verus! {

/// Whether a client may be captured for a process: it is mapped, not hidden,
/// owned by the process, and its address can be read.
pub open spec fn may_be_captured(client: Client, pid: u32) -> bool {
    &&& client.mapped
    &&& !client.hidden
    &&& client.pid == pid
    &&& address_of(client.address@) is Some
}

/// Whether a client bears what was observed: its current title is the observed
/// one and its current class is the observed app-id. An empty observation does
/// not count, and where both are empty nothing bears them.
pub open spec fn bears(client: Client, title: Seq<char>, app_id: Seq<char>) -> bool {
    &&& title.len() > 0 ==> client.title@ == title
    &&& app_id.len() > 0 ==> client.class@ == app_id
    &&& title.len() > 0 || app_id.len() > 0
}

/// Whether a client that may be captured for a process is at an address.
pub open spec fn may_be_captured_at(clients: Seq<Client>, address: u64, pid: u32) -> bool {
    exists|i: int|
        0 <= i < clients.len() && may_be_captured(#[trigger] clients[i], pid) && address_of(
            clients[i].address@,
        ) == Some(address)
}

/// The contents of some clients.
pub open spec fn contents(clients: Seq<Client>) -> Seq<ClientView> {
    clients.map_values(|c: Client| c@)
}

proof fn lemma_same_questions(
    clients: Seq<Client>,
    window_id: u64,
    pid: u32,
    title: Seq<char>,
    app_id: Seq<char>,
)
    ensures
        captures_at(contents(clients), window_id, pid) == may_be_captured_at(
            clients,
            window_id,
            pid,
        ),
        forall|i: int|
            0 <= i < clients.len() ==> fits_observation(pid, title, app_id)(
                #[trigger] contents(clients)[i],
            ) == (may_be_captured(clients[i], pid) && bears(clients[i], title, app_id)),
{
    let seen = contents(clients);
    assert forall|i: int| 0 <= i < clients.len() implies capturable(#[trigger] seen[i], pid)
        == may_be_captured(clients[i], pid) && described(seen[i], title, app_id) == bears(
        clients[i],
        title,
        app_id,
    ) by {}
    if may_be_captured_at(clients, window_id, pid) {
        let i = choose|i: int|
            0 <= i < clients.len() && may_be_captured(#[trigger] clients[i], pid) && address_of(
                clients[i].address@,
            ) == Some(window_id);
        assert(capturable(seen[i], pid));
    }
    if captures_at(seen, window_id, pid) {
        let i = choose|i: int|
            0 <= i < seen.len() && capturable(#[trigger] seen[i], pid) && address_of(
                seen[i].address,
            ) == Some(window_id);
        assert(may_be_captured(clients[i], pid));
    }
}

/// An observation with a title and an app-id is resolved to the only client of
/// the process whose current title and current class are the observed ones,
/// whatever title and class it was created with.
pub proof fn law_title_and_app_id_resolve(
    clients: Seq<Client>,
    window_id: u64,
    pid: u32,
    title: Seq<char>,
    app_id: Seq<char>,
    i: int,
    address: u64,
)
    requires
        title.len() > 0,
        app_id.len() > 0,
        !may_be_captured_at(clients, window_id, pid),
        0 <= i < clients.len(),
        clients[i].mapped,
        !clients[i].hidden,
        clients[i].pid == pid,
        address_of(clients[i].address@) == Some(address),
        clients[i].title@ == title,
        clients[i].class@ == app_id,
        forall|j: int|
            0 <= j < clients.len() && j != i && may_be_captured(#[trigger] clients[j], pid)
                ==> clients[j].title@ != title || clients[j].class@ != app_id,
    ensures
        capture_answer(contents(clients), window_id, pid, title, app_id) == Ok::<_, Refusal>(
            address,
        ),
{
    law_only_bearer_is_resolved(clients, window_id, pid, title, app_id, i, address);
}

/// An observation with a title alone is resolved to the only client of the
/// process with that current title.
pub proof fn law_title_alone_resolves(
    clients: Seq<Client>,
    window_id: u64,
    pid: u32,
    title: Seq<char>,
    i: int,
    address: u64,
)
    requires
        title.len() > 0,
        !may_be_captured_at(clients, window_id, pid),
        0 <= i < clients.len(),
        may_be_captured(clients[i], pid),
        address_of(clients[i].address@) == Some(address),
        clients[i].title@ == title,
        forall|j: int|
            0 <= j < clients.len() && j != i && may_be_captured(#[trigger] clients[j], pid)
                ==> clients[j].title@ != title,
    ensures
        capture_answer(contents(clients), window_id, pid, title, Seq::empty()) == Ok::<_, Refusal>(
            address,
        ),
{
    law_only_bearer_is_resolved(clients, window_id, pid, title, Seq::empty(), i, address);
}

/// An observation with an app-id alone is resolved to the only client of the
/// process with that current class.
pub proof fn law_app_id_alone_resolves(
    clients: Seq<Client>,
    window_id: u64,
    pid: u32,
    app_id: Seq<char>,
    i: int,
    address: u64,
)
    requires
        app_id.len() > 0,
        !may_be_captured_at(clients, window_id, pid),
        0 <= i < clients.len(),
        may_be_captured(clients[i], pid),
        address_of(clients[i].address@) == Some(address),
        clients[i].class@ == app_id,
        forall|j: int|
            0 <= j < clients.len() && j != i && may_be_captured(#[trigger] clients[j], pid)
                ==> clients[j].class@ != app_id,
    ensures
        capture_answer(contents(clients), window_id, pid, Seq::empty(), app_id) == Ok::<_, Refusal>(
            address,
        ),
{
    law_only_bearer_is_resolved(clients, window_id, pid, Seq::empty(), app_id, i, address);
}

/// The only client of the process that bears what was observed is resolved to its
/// own address.
pub proof fn law_only_bearer_is_resolved(
    clients: Seq<Client>,
    window_id: u64,
    pid: u32,
    title: Seq<char>,
    app_id: Seq<char>,
    i: int,
    address: u64,
)
    requires
        !may_be_captured_at(clients, window_id, pid),
        0 <= i < clients.len(),
        may_be_captured(clients[i], pid),
        bears(clients[i], title, app_id),
        address_of(clients[i].address@) == Some(address),
        forall|j: int|
            0 <= j < clients.len() && j != i && may_be_captured(#[trigger] clients[j], pid)
                ==> !bears(clients[j], title, app_id),
    ensures
        capture_answer(contents(clients), window_id, pid, title, app_id) == Ok::<_, Refusal>(
            address,
        ),
{
    let seen = contents(clients);
    let fits = fits_observation(pid, title, app_id);
    lemma_same_questions(clients, window_id, pid, title, app_id);
    assert(fits(seen[i]));
    assert forall|j: int| 0 <= j < seen.len() && j != i implies !fits(#[trigger] seen[j]) by {
        assert(may_be_captured(clients[j], pid) ==> !bears(clients[j], title, app_id));
    }
    lemma_one_place(seen, fits, i);
}

/// A client that may be captured at the very address that was asked for wins,
/// whatever its title and class are.
pub proof fn law_asked_address_wins(
    clients: Seq<Client>,
    window_id: u64,
    pid: u32,
    title: Seq<char>,
    app_id: Seq<char>,
    i: int,
)
    requires
        0 <= i < clients.len(),
        clients[i].mapped,
        !clients[i].hidden,
        clients[i].pid == pid,
        address_of(clients[i].address@) == Some(window_id),
    ensures
        capture_answer(contents(clients), window_id, pid, title, app_id) == Ok::<_, Refusal>(
            window_id,
        ),
{
    lemma_same_questions(clients, window_id, pid, title, app_id);
    assert(may_be_captured(clients[i], pid));
}

/// Where no client is at the address that was asked for and none of the process
/// bears what was observed, the capture is refused.
pub proof fn law_captures_without_bearer_are_refused(
    clients: Seq<Client>,
    window_id: u64,
    pid: u32,
    title: Seq<char>,
    app_id: Seq<char>,
)
    requires
        !may_be_captured_at(clients, window_id, pid),
        forall|j: int|
            0 <= j < clients.len() && may_be_captured(#[trigger] clients[j], pid) ==> !bears(
                clients[j],
                title,
                app_id,
            ),
    ensures
        capture_answer(contents(clients), window_id, pid, title, app_id) == Err::<u64, _>(
            Refusal::NoCaptureMatch { pid },
        ),
{
    let seen = contents(clients);
    let fits = fits_observation(pid, title, app_id);
    lemma_same_questions(clients, window_id, pid, title, app_id);
    assert forall|j: int| 0 <= j < seen.len() implies !fits(#[trigger] seen[j]) by {
        assert(may_be_captured(clients[j], pid) ==> !bears(clients[j], title, app_id));
    }
    lemma_no_place(seen, fits);
}

/// The places of the clients of a process that bear what was observed.
pub open spec fn bearers(
    clients: Seq<Client>,
    pid: u32,
    title: Seq<char>,
    app_id: Seq<char>,
) -> Set<int> {
    Set::new(
        |i: int|
            0 <= i < clients.len() && may_be_captured(clients[i], pid) && bears(
                clients[i],
                title,
                app_id,
            ),
    )
}

/// Where two clients of the process bear what was observed, and none is at the
/// address that was asked for, nothing is resolved, and the refusal counts the
/// bearers.
pub proof fn law_several_bearers_are_refused(
    clients: Seq<Client>,
    window_id: u64,
    pid: u32,
    title: Seq<char>,
    app_id: Seq<char>,
    i: int,
    j: int,
)
    requires
        !may_be_captured_at(clients, window_id, pid),
        0 <= i < j < clients.len(),
        may_be_captured(clients[i], pid),
        bears(clients[i], title, app_id),
        may_be_captured(clients[j], pid),
        bears(clients[j], title, app_id),
        clients.len() <= usize::MAX,
    ensures
        capture_answer(contents(clients), window_id, pid, title, app_id) matches Err(
            Refusal::AmbiguousCapture { matches },
        ) && matches == bearers(clients, pid, title, app_id).len() && matches >= 2,
{
    let seen = contents(clients);
    let fits = fits_observation(pid, title, app_id);
    lemma_same_questions(clients, window_id, pid, title, app_id);
    assert(fits(seen[i]) && fits(seen[j]));
    lemma_two_places(seen, fits, i, j);
    lemma_count_by_places(seen, fits);
    seen.lemma_filter_len(fits);
    assert(bearers(clients, pid, title, app_id) =~= places(seen, fits)) by {
        assert forall|k: int| bearers(clients, pid, title, app_id).contains(k) == #[trigger] places(
            seen,
            fits,
        ).contains(k) by {
            if 0 <= k < seen.len() {
                assert(fits(seen[k]) == (may_be_captured(clients[k], pid) && bears(
                    clients[k],
                    title,
                    app_id,
                )));
            }
        }
    }
    assert(candidates(seen, pid, title, app_id) == seen.filter(fits));
}

/// The places whose items meet a condition.
spec fn places<A>(items: Seq<A>, wanted: spec_fn(A) -> bool) -> Set<int> {
    Set::new(|i: int| 0 <= i < items.len() && wanted(items[i]))
}

proof fn lemma_count_by_places<A>(items: Seq<A>, wanted: spec_fn(A) -> bool)
    ensures
        places(items, wanted).finite(),
        places(items, wanted).len() == items.filter(wanted).len(),
    decreases items.len(),
{
    reveal(Seq::filter);
    if items.len() == 0 {
        assert(places(items, wanted) =~= Set::<int>::empty());
    } else {
        let shorter = items.drop_last();
        let n = items.len() - 1;
        lemma_count_by_places(shorter, wanted);
        if wanted(items.last()) {
            assert(places(items, wanted) =~= places(shorter, wanted).insert(n));
        } else {
            assert(places(items, wanted) =~= places(shorter, wanted));
        }
    }
}

/// Whether a client is the only one of a process that bears what was observed.
pub open spec fn only_bearer(
    clients: Seq<Client>,
    i: int,
    pid: u32,
    title: Seq<char>,
    app_id: Seq<char>,
) -> bool {
    &&& 0 <= i < clients.len()
    &&& may_be_captured(clients[i], pid)
    &&& bears(clients[i], title, app_id)
    &&& forall|j: int|
        0 <= j < clients.len() && j != i && may_be_captured(#[trigger] clients[j], pid) ==> !bears(
            clients[j],
            title,
            app_id,
        )
}

/// A capture is resolved to the address that was asked for where a client may be
/// captured there, else to that of the only bearer, and to nothing else.
pub proof fn law_answers_by_bearers(
    clients: Seq<Client>,
    window_id: u64,
    pid: u32,
    title: Seq<char>,
    app_id: Seq<char>,
)
    ensures
        ({
            let answer = capture_answer(contents(clients), window_id, pid, title, app_id);
            &&& may_be_captured_at(clients, window_id, pid) ==> answer == Ok::<_, Refusal>(
                window_id,
            )
            &&& !may_be_captured_at(clients, window_id, pid) ==> {
                &&& forall|i: int| #[trigger]
                    only_bearer(clients, i, pid, title, app_id) ==> answer == Ok::<_, Refusal>(
                        address_of(clients[i].address@)->0,
                    )
                &&& answer is Ok ==> exists|i: int| #[trigger]
                    only_bearer(clients, i, pid, title, app_id)
            }
        }),
{
    lemma_same_questions(clients, window_id, pid, title, app_id);
    if !may_be_captured_at(clients, window_id, pid) {
        assert forall|i: int| #[trigger] only_bearer(clients, i, pid, title, app_id) implies
            capture_answer(contents(clients), window_id, pid, title, app_id) == Ok::<_, Refusal>(
            address_of(clients[i].address@)->0,
        ) by {
            law_only_bearer_is_resolved(
                clients,
                window_id,
                pid,
                title,
                app_id,
                i,
                address_of(clients[i].address@)->0,
            );
        }
        if capture_answer(contents(clients), window_id, pid, title, app_id) is Ok {
            let fits = fits_observation(pid, title, app_id);
            let seen = contents(clients);
            lemma_sole_place(seen, fits);
            let found = seen.filter(fits);
            assert(found.len() == 1);
            let i = choose|i: int| 0 <= i < seen.len() && seen[i] == found[0];
            assert(fits(seen[i]));
            assert forall|j: int|
                0 <= j < clients.len() && j != i && may_be_captured(
                    #[trigger] clients[j],
                    pid,
                ) implies !bears(clients[j], title, app_id) by {
                assert(fits(seen[j]) == (may_be_captured(clients[j], pid) && bears(
                    clients[j],
                    title,
                    app_id,
                )));
                if fits(seen[j]) {
                    if i < j {
                        lemma_two_places(seen, fits, i, j);
                    } else {
                        lemma_two_places(seen, fits, j, i);
                    }
                }
            }
            assert(only_bearer(clients, i, pid, title, app_id));
        }
    }
}

/// A request outside a session is refused as such; one without a process as such;
/// a failed reading is passed on; and only then do the clients decide.
pub proof fn law_capture_requests_are_refused_in_order(
    session: bool,
    clients: Result<Vec<Client>, Refusal>,
    window_id: u64,
    target_pid: Option<u32>,
    title: Seq<char>,
    app_id: Seq<char>,
)
    ensures
        ({
            let answer = capture_request(session, clients, window_id, target_pid, title, app_id);
            &&& !session ==> answer == Err::<u64, _>(Refusal::NotHyprlandSession)
            &&& session && target_pid is None ==> answer == Err::<u64, _>(
                Refusal::CaptureWithoutPid,
            )
            &&& session && target_pid is Some ==> (clients matches Err(refusal) ==> answer == Err::<
                u64,
                _,
            >(refusal))
            &&& session ==> (target_pid matches Some(pid) ==> (clients matches Ok(listed)
                ==> answer == capture_answer(
                contents(listed@),
                window_id,
                pid,
                title,
                app_id,
            )))
        }),
{
    if let Ok(listed) = clients {
        assert(listed.deep_view() =~= contents(listed@));
    }
}

} // verus!
