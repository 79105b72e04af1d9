//! The list of mapped windows, and finding one window in it.
use std::collections::HashSet;
use vstd::prelude::*;

use crate::address::{address_of, parse_address};
use crate::identity::{
    client_identity, identities_of, live_identities, pid_of, valid_pid, IdentityView,
};
use crate::laws::listings::{alone_at, lemma_alone_is_sighted_alone};
use crate::laws::windows::{
    alone, first_there, law_first_window_at_an_address_is_found, law_listing_tells_of_the_clients,
    law_matches_are_alone, law_sole_windows_are_found_by_process, law_unique_app_ids_are_found,
    law_unique_titles_are_found, only_classed, only_classed_of, only_one_of, only_titled,
    only_titled_of, tells_of,
};
use crate::records::{Client, ClientView, Monitor, Window, WindowView};
use crate::refusal::Refusal;
use crate::registry::{
    after_snapshot, law_first_sighting_is_trusted, shows_any, trust_answer, TrustView,
    TrustedWindowIdentities,
};
use crate::select::{
    first_where, lemma_mapped_from, lemma_mapped_item, lemma_no_place, lemma_one_place,
    lemma_sole_place, lemma_two_places, sole,
};

verus! {

broadcast use vstd::std_specs::hash::group_hash_axioms;

/// A length, or zero where it is negative.
pub open spec fn length_of(reported: i32) -> u32 {
    if reported < 0 {
        0
    } else {
        reported as u32
    }
}

/// The window record of a client; `None` when the client is not mapped or has
/// no valid address or process id.
pub open spec fn window_of(client: ClientView, active_workspaces: Set<i64>) -> Option<WindowView> {
    match (address_of(client.address), pid_of(client.pid)) {
        (Some(address), Some(pid)) if client.mapped => Some(
            WindowView {
                address,
                pid,
                title: client.title,
                app_id: client.class,
                x: client.at[0],
                y: client.at[1],
                width: length_of(client.size[0]),
                height: length_of(client.size[1]),
                workspace: client.workspace,
                visible: !client.hidden && active_workspaces.contains(client.workspace),
            },
        ),
        _ => None,
    }
}

/// The window records of some clients, in the clients' order.
pub open spec fn windows_of(clients: Seq<ClientView>, active_workspaces: Set<i64>) -> Seq<
    WindowView,
> {
    clients.filter_map(|client: ClientView| window_of(client, active_workspaces))
}

/// The workspaces that some monitor shows; a monitor that shows none reports
/// workspace zero.
pub open spec fn shown_workspaces(monitors: Seq<Monitor>) -> Set<i64> {
    Set::new(|id: i64| id != 0 && shows_workspace(monitors, id))
}

/// Whether some monitor reports a workspace as its active one.
pub open spec fn shows_workspace(monitors: Seq<Monitor>, id: i64) -> bool {
    exists|i: int| 0 <= i < monitors.len() && (#[trigger] monitors[i]).active_workspace.id == id
}

fn length(reported: i32) -> (length: u32)
    ensures
        length == length_of(reported),
{
    if reported < 0 {
        0
    } else {
        reported as u32
    }
}

/// The workspaces that some monitor shows.
pub fn active_workspaces(monitors: &[Monitor]) -> (ids: HashSet<i64>)
    ensures
        ids@ == shown_workspaces(monitors@),
{
    let mut ids: HashSet<i64> = HashSet::new();
    for i in 0..monitors.len()
        invariant
            forall|id: i64| #[trigger]
                ids@.contains(id) == (id != 0 && shows_workspace(monitors@.take(i as int), id)),
    {
        let id: i64 = monitors[i].active_workspace.id;
        let ghost before = ids@;
        if id != 0 {
            ids.insert(id);
        }
        proof {
            let shorter = monitors@.take(i as int);
            let longer = monitors@.take(i + 1);
            assert forall|other: i64| #[trigger]
                ids@.contains(other) == (other != 0 && shows_workspace(longer, other)) by {
                assert(before.contains(other) == (other != 0 && shows_workspace(shorter, other)));
                if shows_workspace(shorter, other) {
                    let j = choose|j: int|
                        0 <= j < shorter.len() && (#[trigger] shorter[j]).active_workspace.id
                            == other;
                    assert(longer[j].active_workspace.id == other);
                }
                if shows_workspace(longer, other) {
                    let j = choose|j: int|
                        0 <= j < longer.len() && (#[trigger] longer[j]).active_workspace.id
                            == other;
                    assert(j < i ==> shorter[j].active_workspace.id == other);
                }
                assert(longer[i as int].active_workspace.id == id);
            }
        }
    }
    assert(monitors@.take(monitors@.len() as int) == monitors@);
    assert(ids@ == shown_workspaces(monitors@));
    ids
}

fn window_from_client(client: &Client, active_workspaces: &HashSet<i64>) -> (window: Option<Window>)
    ensures
        window.deep_view() == window_of(client@, active_workspaces@),
{
    if !client.mapped {
        return None;
    }
    let Some(address) = parse_address(client.address.as_str()) else {
        return None;
    };
    let Some(pid) = valid_pid(client.pid) else {
        return None;
    };
    Some(
        Window {
            address,
            pid,
            title: client.title.clone(),
            app_id: client.class.clone(),
            x: client.at[0],
            y: client.at[1],
            width: length(client.size[0]),
            height: length(client.size[1]),
            workspace: client.workspace.id,
            visible: !client.hidden && active_workspaces.contains(&client.workspace.id),
        },
    )
}

/// The window records of all mapped clients with a valid address and process.
pub fn windows_from_clients(clients: &[Client], active_workspaces: &HashSet<i64>) -> (windows: Vec<
    Window,
>)
    ensures
        windows.deep_view() == windows_of(clients.deep_view(), active_workspaces@),
{
    let mut windows: Vec<Window> = Vec::new();
    let ghost all = clients.deep_view();
    let ghost f = |client: ClientView| window_of(client, active_workspaces@);
    assert(all.take(0).filter_map(f) == Seq::<WindowView>::empty());
    for i in 0..clients.len()
        invariant
            all == clients.deep_view(),
            f == (|client: ClientView| window_of(client, active_workspaces@)),
            windows.deep_view() == all.take(i as int).filter_map(f),
    {
        proof {
            all.lemma_filter_map_take_succ(f, i as int);
        }
        let ghost before = windows.deep_view();
        if let Some(window) = window_from_client(&clients[i], active_workspaces) {
            windows.push(window);
            assert(windows.deep_view() == before + seq![window@]);
        }
    }
    assert(all.take(all.len() as int) == all);
    windows
}

/// What a listing answers, given the readings that it rests on: outside a
/// session it is refused, and a failed reading is passed on, the monitors' first.
pub open spec fn listing_of(
    session: bool,
    monitors: Result<Vec<Monitor>, Refusal>,
    clients: Result<Vec<Client>, Refusal>,
) -> Result<Seq<WindowView>, Refusal> {
    if !session {
        Err(Refusal::NotHyprlandSession)
    } else {
        match (monitors, clients) {
            (Err(error), _) => Err(error),
            (Ok(_), Err(error)) => Err(error),
            (Ok(outputs), Ok(listed)) => Ok(
                windows_of(listed.deep_view(), shown_workspaces(outputs@)),
            ),
        }
    }
}

/// The registry after a listing: one more snapshot where the listing succeeds,
/// and unchanged where it fails.
pub open spec fn registry_after_listing(
    registry: Map<u64, TrustView>,
    session: bool,
    monitors: Result<Vec<Monitor>, Refusal>,
    clients: Result<Vec<Client>, Refusal>,
) -> Map<u64, TrustView> {
    if listing_of(session, monitors, clients) is Ok {
        after_snapshot(registry, identities_of(clients->Ok_0.deep_view()))
    } else {
        registry
    }
}

/// Lists all mapped Hyprland clients with compositor-owned process, geometry,
/// workspace and visibility metadata, and takes the identities of all clients
/// into the registry.
pub fn list_windows(
    session: bool,
    monitors: Result<Vec<Monitor>, Refusal>,
    clients: Result<Vec<Client>, Refusal>,
    identities: &mut TrustedWindowIdentities,
) -> (listing: Result<Vec<Window>, Refusal>)
    ensures
        match (listing, listing_of(session, monitors, clients)) {
            (Ok(windows), Ok(expected)) => windows.deep_view() == expected,
            (Err(error), Err(expected)) => error == expected,
            _ => false,
        },
        final(identities)@ == registry_after_listing(old(identities)@, session, monitors, clients),
        listing is Ok <==> session && monitors is Ok && clients is Ok,
        listing is Err ==> final(identities)@ == old(identities)@,
        listing matches Ok(windows) ==> {
            &&& forall|k: int|
                0 <= k < windows@.len() ==> exists|i: int|
                    0 <= i < clients->Ok_0@.len() && tells_of(
                        (#[trigger] windows@[k])@,
                        #[trigger] clients->Ok_0@[i],
                        monitors->Ok_0@,
                    )
            &&& forall|address: u64, identity: IdentityView, pid: u32|
                #![trigger alone_at(clients->Ok_0@, address, identity), trust_answer(
                    final(identities)@,
                    address,
                    pid,
                )]
                old(identities)@.contains_key(address) && old(
                    identities,
                )@[address].last_identity() != Some(identity) && alone_at(
                    clients->Ok_0@,
                    address,
                    identity,
                ) ==> trust_answer(final(identities)@, address, pid) == Err::<IdentityView, _>(
                    Refusal::PendingRebind { address },
                )
        },
{
    if !session {
        return Err(Refusal::NotHyprlandSession);
    }
    let outputs = match monitors {
        Ok(outputs) => outputs,
        Err(error) => return Err(error),
    };
    let listed = match clients {
        Ok(listed) => listed,
        Err(error) => return Err(error),
    };
    let shown = active_workspaces(outputs.as_slice());
    let live = live_identities(listed.as_slice());
    identities.observe_snapshot(live.as_slice());
    proof {
        law_listing_tells_of_the_clients(
            session,
            outputs,
            listed,
            windows_of(listed.deep_view(), shown_workspaces(outputs@)),
        );
        assert forall|address: u64, identity: IdentityView, pid: u32|
            #![trigger alone_at(listed@, address, identity), trust_answer(
                identities@,
                address,
                pid,
            )]
            old(identities)@.contains_key(address) && old(identities)@[address].last_identity()
                != Some(identity) && alone_at(listed@, address, identity) implies trust_answer(
            identities@,
            address,
            pid,
        ) == Err::<IdentityView, _>(Refusal::PendingRebind { address }) by {
            lemma_alone_is_sighted_alone(listed, address, identity);
        }
    }
    let windows = windows_from_clients(listed.as_slice(), &shown);
    assert(forall|k: int|
        0 <= k < windows@.len() ==> (#[trigger] windows@[k])@ == windows.deep_view()[k]);
    Ok(windows)
}

/// A text that a field has to hold; an empty text is held by no field.
pub open spec fn names(wanted: Seq<char>, actual: Seq<char>) -> bool {
    wanted.len() > 0 && actual == wanted
}

/// What a window has to meet. A part that is `None` is met by every window.
struct Criterion {
    pid: Option<u32>,
    title: Option<String>,
    app_id: Option<String>,
}

impl Criterion {
    spec fn admits(self, window: WindowView) -> bool {
        &&& self.pid matches Some(pid) ==> window.pid == pid
        &&& self.title matches Some(title) ==> names(title@, window.title)
        &&& self.app_id matches Some(app_id) ==> names(app_id@, window.app_id)
    }

    fn met_by(&self, window: &Window) -> (met: bool)
        ensures
            met == self.admits(window@),
    {
        let owned = match self.pid {
            Some(pid) => window.pid == pid,
            None => true,
        };
        let titled = match &self.title {
            Some(title) => !title.as_str().is_empty() && window.title == *title,
            None => true,
        };
        let classed = match &self.app_id {
            Some(app_id) => !app_id.as_str().is_empty() && window.app_id == *app_id,
            None => true,
        };
        owned && titled && classed
    }
}

/// Finds the place of the only window that meets a criterion.
fn sole_place(windows: &[Window], criterion: &Criterion) -> (place: Option<usize>)
    ensures
        match place {
            Some(i) => i < windows@.len() && sole(
                windows.deep_view().filter(|w: WindowView| criterion.admits(w)),
            ) == Some(windows@[i as int]@),
            None => sole(
                windows.deep_view().filter(|w: WindowView| criterion.admits(w)),
            ) is None,
        },
{
    let ghost all = windows.deep_view();
    let ghost wanted = |w: WindowView| criterion.admits(w);
    let mut place: Option<usize> = None;
    for i in 0..windows.len()
        invariant
            all == windows.deep_view(),
            wanted == (|w: WindowView| criterion.admits(w)),
            match place {
                Some(k) => {
                    &&& k < i
                    &&& wanted(all[k as int])
                    &&& forall|j: int| 0 <= j < i && j != k ==> !wanted(#[trigger] all[j])
                },
                None => forall|j: int| 0 <= j < i ==> !wanted(#[trigger] all[j]),
            },
    {
        assert(all[i as int] == windows@[i as int]@);
        if criterion.met_by(&windows[i]) {
            if let Some(k) = place {
                proof {
                    lemma_two_places(all, wanted, k as int, i as int);
                }
                return None;
            }
            place = Some(i);
        }
    }
    proof {
        match place {
            Some(k) => lemma_one_place(all, wanted, k as int),
            None => lemma_no_place(all, wanted),
        }
    }
    place
}

/// The windows of a process.
pub open spec fn owned_by(pid: u32) -> spec_fn(WindowView) -> bool {
    |w: WindowView| w.pid == pid
}

/// The windows of a process with a title.
pub open spec fn owned_and_titled(pid: u32, title: Seq<char>) -> spec_fn(WindowView) -> bool {
    |w: WindowView| w.pid == pid && names(title, w.title)
}

/// The windows of a process with an app-id.
pub open spec fn owned_and_classed(pid: u32, app_id: Seq<char>) -> spec_fn(WindowView) -> bool {
    |w: WindowView| w.pid == pid && names(app_id, w.app_id)
}

/// The windows with a title.
pub open spec fn titled(title: Seq<char>) -> spec_fn(WindowView) -> bool {
    |w: WindowView| names(title, w.title)
}

/// The windows with an app-id.
pub open spec fn classed(app_id: Seq<char>) -> spec_fn(WindowView) -> bool {
    |w: WindowView| names(app_id, w.app_id)
}

/// The window that an accessibility observation of process `pid` stands for: the
/// only one of the process with the title, else the only one of the process with
/// the app-id, else the only one of the process.
pub open spec fn match_for(
    windows: Seq<WindowView>,
    pid: u32,
    title: Seq<char>,
    app_id: Seq<char>,
) -> Option<WindowView> {
    let by_title = sole(windows.filter(owned_and_titled(pid, title)));
    let by_app_id = sole(windows.filter(owned_and_classed(pid, app_id)));
    if by_title is Some {
        by_title
    } else if by_app_id is Some {
        by_app_id
    } else {
        sole(windows.filter(owned_by(pid)))
    }
}

/// Correlates an accessibility observation to one compositor client. The process
/// is mandatory; title and app-id disambiguate sibling windows, and a sole
/// client of the process is the final safe fallback.
pub fn matching_window<'a>(
    windows: &'a [Window],
    pid: u32,
    title: &str,
    app_id: &str,
) -> (found: Option<&'a Window>)
    ensures
        found.deep_view() == match_for(windows.deep_view(), pid, title@, app_id@),
        found matches Some(window) ==> windows@.contains(*window),
        forall|i: int| #[trigger]
            only_titled_of(windows.deep_view(), i, pid, title@) ==> found.deep_view() == Some(
                windows@[i]@,
            ),
        (forall|k: int| !#[trigger] only_titled_of(windows.deep_view(), k, pid, title@))
            ==> forall|i: int| #[trigger]
            only_classed_of(windows.deep_view(), i, pid, app_id@) ==> found.deep_view() == Some(
                windows@[i]@,
            ),
        found is Some <==> exists|i: int| #[trigger]
            alone(windows.deep_view(), i, pid, title@, app_id@),
{
    proof {
        law_matches_are_alone(windows.deep_view(), pid, title@, app_id@);
    }
    let by_title = Criterion { pid: Some(pid), title: Some(title.to_owned()), app_id: None };
    assert((|w: WindowView| by_title.admits(w)) =~= owned_and_titled(pid, title@));
    if let Some(i) = sole_place(windows, &by_title) {
        return Some(&windows[i]);
    }
    let by_app_id = Criterion { pid: Some(pid), title: None, app_id: Some(app_id.to_owned()) };
    assert((|w: WindowView| by_app_id.admits(w)) =~= owned_and_classed(pid, app_id@));
    if let Some(i) = sole_place(windows, &by_app_id) {
        return Some(&windows[i]);
    }
    let by_owner = Criterion { pid: Some(pid), title: None, app_id: None };
    assert((|w: WindowView| by_owner.admits(w)) =~= owned_by(pid));
    match sole_place(windows, &by_owner) {
        Some(i) => Some(&windows[i]),
        None => None,
    }
}

/// Lists the windows and picks the only one that meets a criterion.
fn sole_listed(
    session: bool,
    monitors: Result<Vec<Monitor>, Refusal>,
    clients: Result<Vec<Client>, Refusal>,
    identities: &mut TrustedWindowIdentities,
    criterion: &Criterion,
) -> (found: Option<Window>)
    ensures
        found.deep_view() == (match listing_of(session, monitors, clients) {
            Ok(windows) => sole(windows.filter(|w: WindowView| criterion.admits(w))),
            Err(_) => None,
        }),
        final(identities)@ == registry_after_listing(old(identities)@, session, monitors, clients),
{
    match list_windows(session, monitors, clients, identities) {
        Ok(windows) => match sole_place(windows.as_slice(), criterion) {
            Some(i) => Some(windows[i].clone()),
            None => None,
        },
        Err(_) => None,
    }
}

/// The first listed window at an address. Like every listing, this takes the
/// clients into the registry.
pub fn window_for_address(
    session: bool,
    monitors: Result<Vec<Monitor>, Refusal>,
    clients: Result<Vec<Client>, Refusal>,
    identities: &mut TrustedWindowIdentities,
    address: u64,
) -> (found: Option<Window>)
    ensures
        found.deep_view() == (match listing_of(session, monitors, clients) {
            Ok(windows) => first_where(windows, |w: WindowView| w.address == address),
            Err(_) => None,
        }),
        final(identities)@ == registry_after_listing(old(identities)@, session, monitors, clients),
        listing_of(session, monitors, clients) matches Ok(windows) ==> {
            &&& forall|i: int| #[trigger]
                first_there(windows, i, address) ==> found.deep_view() == Some(windows[i])
            &&& found is Some ==> exists|i: int| #[trigger] first_there(windows, i, address)
        },
        listing_of(session, monitors, clients) is Err ==> found is None,
{
    proof {
        if let Ok(windows) = listing_of(session, monitors, clients) {
            law_first_window_at_an_address_is_found(windows, address);
        }
    }
    let windows = match list_windows(session, monitors, clients, identities) {
        Ok(windows) => windows,
        Err(_) => return None,
    };
    let ghost all = windows.deep_view();
    let ghost wanted = |w: WindowView| w.address == address;
    assert(all.skip(0) == all);
    for i in 0..windows.len()
        invariant
            all == windows.deep_view(),
            wanted == (|w: WindowView| w.address == address),
            first_where(all, wanted) == first_where(all.skip(i as int), wanted),
            listing_of(session, monitors, clients) == Ok::<_, Refusal>(all),
            final(identities)@ == registry_after_listing(
                old(identities)@,
                session,
                monitors,
                clients,
            ),
    {
        assert(all.skip(i as int).drop_first() == all.skip(i + 1));
        assert(all.skip(i as int).first() == windows@[i as int]@);
        if windows[i].address == address {
            proof {
                law_first_window_at_an_address_is_found(all, address);
            }
            return Some(windows[i].clone());
        }
    }
    None
}

/// The listed window of a process, where it has exactly one.
pub fn window_for_pid(
    session: bool,
    monitors: Result<Vec<Monitor>, Refusal>,
    clients: Result<Vec<Client>, Refusal>,
    identities: &mut TrustedWindowIdentities,
    pid: u32,
) -> (found: Option<Window>)
    ensures
        found.deep_view() == (match listing_of(session, monitors, clients) {
            Ok(windows) => sole(windows.filter(owned_by(pid))),
            Err(_) => None,
        }),
        final(identities)@ == registry_after_listing(old(identities)@, session, monitors, clients),
        listing_of(session, monitors, clients) matches Ok(windows) ==> {
            &&& forall|i: int| #[trigger]
                only_one_of(windows, i, pid) ==> found.deep_view() == Some(windows[i])
            &&& found is Some ==> exists|i: int| #[trigger] only_one_of(windows, i, pid)
        },
        listing_of(session, monitors, clients) is Err ==> found is None,
{
    proof {
        if let Ok(windows) = listing_of(session, monitors, clients) {
            law_sole_windows_are_found_by_process(windows, pid);
        }
    }
    let criterion = Criterion { pid: Some(pid), title: None, app_id: None };
    assert((|w: WindowView| criterion.admits(w)) =~= owned_by(pid));
    sole_listed(session, monitors, clients, identities, &criterion)
}

/// The listed window with a title, where there is exactly one. No window has the
/// empty title.
pub fn window_for_title(
    session: bool,
    monitors: Result<Vec<Monitor>, Refusal>,
    clients: Result<Vec<Client>, Refusal>,
    identities: &mut TrustedWindowIdentities,
    title: &str,
) -> (found: Option<Window>)
    ensures
        found.deep_view() == (match listing_of(session, monitors, clients) {
            Ok(windows) => sole(windows.filter(titled(title@))),
            Err(_) => None,
        }),
        final(identities)@ == registry_after_listing(old(identities)@, session, monitors, clients),
        listing_of(session, monitors, clients) matches Ok(windows) ==> {
            &&& forall|i: int| #[trigger]
                only_titled(windows, i, title@) ==> found.deep_view() == Some(windows[i])
            &&& found is Some ==> exists|i: int| #[trigger] only_titled(windows, i, title@)
        },
        listing_of(session, monitors, clients) is Err ==> found is None,
{
    proof {
        if let Ok(windows) = listing_of(session, monitors, clients) {
            law_unique_titles_are_found(windows, title@);
        }
    }
    let criterion = Criterion { pid: None, title: Some(title.to_owned()), app_id: None };
    assert((|w: WindowView| criterion.admits(w)) =~= titled(title@));
    sole_listed(session, monitors, clients, identities, &criterion)
}

/// The listed window with an app-id, where there is exactly one. No window has
/// the empty app-id.
pub fn window_for_app_id(
    session: bool,
    monitors: Result<Vec<Monitor>, Refusal>,
    clients: Result<Vec<Client>, Refusal>,
    identities: &mut TrustedWindowIdentities,
    app_id: &str,
) -> (found: Option<Window>)
    ensures
        found.deep_view() == (match listing_of(session, monitors, clients) {
            Ok(windows) => sole(windows.filter(classed(app_id@))),
            Err(_) => None,
        }),
        final(identities)@ == registry_after_listing(old(identities)@, session, monitors, clients),
        listing_of(session, monitors, clients) matches Ok(windows) ==> {
            &&& forall|i: int| #[trigger]
                only_classed(windows, i, app_id@) ==> found.deep_view() == Some(windows[i])
            &&& found is Some ==> exists|i: int| #[trigger] only_classed(windows, i, app_id@)
        },
        listing_of(session, monitors, clients) is Err ==> found is None,
{
    proof {
        if let Ok(windows) = listing_of(session, monitors, clients) {
            law_unique_app_ids_are_found(windows, app_id@);
        }
    }
    let criterion = Criterion { pid: None, title: None, app_id: Some(app_id.to_owned()) };
    assert((|w: WindowView| criterion.admits(w)) =~= classed(app_id@));
    sole_listed(session, monitors, clients, identities, &criterion)
}

/// A match belongs to the process that was asked for, and is listed.
pub proof fn law_match_belongs_to_the_process(
    windows: Seq<WindowView>,
    pid: u32,
    title: Seq<char>,
    app_id: Seq<char>,
)
    ensures
        match_for(windows, pid, title, app_id) matches Some(window) ==> {
            &&& window.pid == pid
            &&& windows.contains(window)
        },
{
    lemma_sole_place(windows, owned_and_titled(pid, title));
    lemma_sole_place(windows, owned_and_classed(pid, app_id));
    lemma_sole_place(windows, owned_by(pid));
}

/// A process with a single window is matched with it, whatever title and app-id
/// were observed.
pub proof fn law_sole_window_of_a_process_is_matched(
    windows: Seq<WindowView>,
    pid: u32,
    title: Seq<char>,
    app_id: Seq<char>,
    i: int,
)
    requires
        0 <= i < windows.len(),
        windows[i].pid == pid,
        forall|j: int| 0 <= j < windows.len() && j != i ==> (#[trigger] windows[j]).pid != pid,
    ensures
        match_for(windows, pid, title, app_id) == Some(windows[i]),
{
    lemma_one_place(windows, owned_by(pid), i);
    if names(title, windows[i].title) {
        lemma_one_place(windows, owned_and_titled(pid, title), i);
    } else {
        lemma_no_place(windows, owned_and_titled(pid, title));
    }
    if names(app_id, windows[i].app_id) {
        lemma_one_place(windows, owned_and_classed(pid, app_id), i);
    } else {
        lemma_no_place(windows, owned_and_classed(pid, app_id));
    }
}

/// Among the windows of a process, the only one with the observed title is the
/// match.
pub proof fn law_unique_title_decides(
    windows: Seq<WindowView>,
    pid: u32,
    title: Seq<char>,
    app_id: Seq<char>,
    i: int,
)
    requires
        0 <= i < windows.len(),
        owned_and_titled(pid, title)(windows[i]),
        forall|j: int|
            0 <= j < windows.len() && j != i ==> !owned_and_titled(pid, title)(
                #[trigger] windows[j],
            ),
    ensures
        match_for(windows, pid, title, app_id) == Some(windows[i]),
{
    lemma_one_place(windows, owned_and_titled(pid, title), i);
}

/// Where the title is borne by none or by several windows of a process, the only
/// one with the observed app-id is the match.
pub proof fn law_unique_app_id_decides_next(
    windows: Seq<WindowView>,
    pid: u32,
    title: Seq<char>,
    app_id: Seq<char>,
    i: int,
)
    requires
        windows.filter(owned_and_titled(pid, title)).len() != 1,
        0 <= i < windows.len(),
        owned_and_classed(pid, app_id)(windows[i]),
        forall|j: int|
            0 <= j < windows.len() && j != i ==> !owned_and_classed(pid, app_id)(
                #[trigger] windows[j],
            ),
    ensures
        match_for(windows, pid, title, app_id) == Some(windows[i]),
{
    lemma_one_place(windows, owned_and_classed(pid, app_id), i);
}

/// Several windows of a process are not guessed between where neither the title
/// nor the app-id is borne by exactly one of them.
pub proof fn law_indistinct_siblings_are_not_guessed(
    windows: Seq<WindowView>,
    pid: u32,
    title: Seq<char>,
    app_id: Seq<char>,
    i: int,
    j: int,
)
    requires
        0 <= i < j < windows.len(),
        windows[i].pid == pid,
        windows[j].pid == pid,
        windows.filter(owned_and_titled(pid, title)).len() != 1,
        windows.filter(owned_and_classed(pid, app_id)).len() != 1,
    ensures
        match_for(windows, pid, title, app_id) is None,
{
    lemma_two_places(windows, owned_by(pid), i, j);
}

/// A process without a window has no match.
pub proof fn law_process_without_windows_has_no_match(
    windows: Seq<WindowView>,
    pid: u32,
    title: Seq<char>,
    app_id: Seq<char>,
)
    requires
        forall|i: int| 0 <= i < windows.len() ==> (#[trigger] windows[i]).pid != pid,
    ensures
        match_for(windows, pid, title, app_id) is None,
{
    lemma_no_place(windows, owned_by(pid));
    lemma_no_place(windows, owned_and_titled(pid, title));
    lemma_no_place(windows, owned_and_classed(pid, app_id));
}

/// Exactly the mapped clients with a valid address and process are listed, and
/// those marked visible are not hidden and stand on a shown workspace.
pub proof fn law_listing_shows_the_mapped_clients(clients: Seq<ClientView>, shown: Set<i64>)
    ensures
        forall|window: WindowView| #[trigger]
            windows_of(clients, shown).contains(window) ==> exists|i: int|
                0 <= i < clients.len() && {
                    &&& (#[trigger] clients[i]).mapped
                    &&& address_of(clients[i].address) == Some(window.address)
                    &&& pid_of(clients[i].pid) == Some(window.pid)
                    &&& window.visible == (!clients[i].hidden && shown.contains(window.workspace))
                },
        forall|i: int|
            0 <= i < clients.len() && (#[trigger] clients[i]).mapped && address_of(
                clients[i].address,
            ) is Some && pid_of(clients[i].pid) is Some ==> windows_of(clients, shown).contains(
                window_of(clients[i], shown)->0,
            ),
{
    let f = |client: ClientView| window_of(client, shown);
    assert forall|window: WindowView| #[trigger]
        windows_of(clients, shown).contains(window) implies exists|i: int|
        0 <= i < clients.len() && {
            &&& (#[trigger] clients[i]).mapped
            &&& address_of(clients[i].address) == Some(window.address)
            &&& pid_of(clients[i].pid) == Some(window.pid)
            &&& window.visible == (!clients[i].hidden && shown.contains(window.workspace))
        } by {
        let i = lemma_mapped_from(clients, f, window);
        assert(clients[i].mapped);
    }
    assert forall|i: int|
        0 <= i < clients.len() && (#[trigger] clients[i]).mapped && address_of(
            clients[i].address,
        ) is Some && pid_of(clients[i].pid) is Some implies windows_of(clients, shown).contains(
        window_of(clients[i], shown)->0,
    ) by {
        lemma_mapped_item(clients, f, i);
    }
}

/// After a listing, no listed window is refused as unknown or as not live.
pub proof fn law_listed_windows_are_registered(
    registry: Map<u64, TrustView>,
    clients: Seq<ClientView>,
    shown: Set<i64>,
    window: WindowView,
    pid: u32,
)
    requires
        windows_of(clients, shown).contains(window),
    ensures
        trust_answer(
            after_snapshot(registry, identities_of(clients)),
            window.address,
            pid,
        ) matches Err(error) ==> {
            &&& error != Refusal::UnknownAddress { address: window.address }
            &&& error != Refusal::NotLive { address: window.address }
        },
{
    let i = lemma_mapped_from(clients, |client: ClientView| window_of(client, shown), window);
    let snapshot = identities_of(clients);
    let identity = client_identity(clients[i])->0;
    lemma_mapped_item(clients, |client: ClientView| client_identity(client), i);
    let k = choose|k: int| 0 <= k < snapshot.len() && snapshot[k] == identity;
    assert(snapshot[k].address == window.address);
    assert(shows_any(snapshot, window.address));
}

/// A window at an address that was never seen, and that one identity alone is
/// listed with, is available to its process right after the listing.
pub proof fn law_listing_makes_new_windows_available(
    registry: Map<u64, TrustView>,
    clients: Seq<ClientView>,
    i: int,
    identity: IdentityView,
)
    requires
        0 <= i < clients.len(),
        client_identity(clients[i]) == Some(identity),
        forall|j: int|
            0 <= j < clients.len() ==> (client_identity(#[trigger] clients[j]) matches Some(other)
                ==> other.address != identity.address || other == identity),
        !registry.contains_key(identity.address),
    ensures
        trust_answer(
            after_snapshot(registry, identities_of(clients)),
            identity.address,
            identity.pid,
        ) == Ok::<_, Refusal>(identity),
{
    let f = |client: ClientView| client_identity(client);
    let snapshot = identities_of(clients);
    lemma_mapped_item(clients, f, i);
    assert forall|k: int|
        0 <= k < snapshot.len() && (#[trigger] snapshot[k]).address
            == identity.address implies snapshot[k] == identity by {
        assert(snapshot.contains(snapshot[k]));
        let j = lemma_mapped_from(clients, f, snapshot[k]);
        assert(client_identity(clients[j]) == Some(snapshot[k]));
    }
    law_first_sighting_is_trusted(registry, snapshot, identity.address, identity);
}

} // verus!
