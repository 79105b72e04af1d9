//! What a listing shows, and which window answers to a process, a title or an
//! app-id.
use vstd::prelude::*;

use crate::address::address_of;
use crate::laws::identities::lemma_mapped_in_order;
use crate::records::{Client, ClientView, Monitor, WindowView};
use crate::refusal::Refusal;
use crate::select::{
    first_where, lemma_mapped_from, lemma_mapped_item, lemma_no_place, lemma_one_place,
    lemma_two_places, sole,
};
use crate::windows::{
    classed, listing_of, match_for, owned_and_classed, owned_and_titled, owned_by, shown_workspaces,
    shows_workspace, titled, window_of, windows_of,
};

verus! {

/// Whether some monitor, at any place in the list, has this workspace as its
/// active one. A monitor without an active workspace reports zero.
pub open spec fn on_some_monitor(monitors: Seq<Monitor>, workspace: i64) -> bool {
    workspace != 0 && exists|m: int|
        0 <= m < monitors.len() && (#[trigger] monitors[m]).active_workspace.id == workspace
}

/// Whether a window record tells of a client: it is mapped, and its current
/// title, class, position, size and workspace are those of the window.
pub open spec fn tells_of(window: WindowView, client: Client, monitors: Seq<Monitor>) -> bool {
    &&& client.mapped
    &&& address_of(client.address@) == Some(window.address)
    &&& window.pid == client.pid
    &&& window.pid != 0
    &&& window.title == client.title@
    &&& window.app_id == client.class@
    &&& window.x == client.at[0]
    &&& window.y == client.at[1]
    &&& window.width == if client.size[0] >= 0 {
        client.size[0] as int
    } else {
        0
    }
    &&& window.height == if client.size[1] >= 0 {
        client.size[1] as int
    } else {
        0
    }
    &&& window.workspace == client.workspace.id
    &&& window.visible == (!client.hidden && on_some_monitor(monitors, client.workspace.id))
}

/// A workspace counts as shown when any monitor has it as its active one,
/// wherever that monitor stands in the list.
pub proof fn law_every_monitor_shows_its_workspace(monitors: Seq<Monitor>, workspace: i64)
    ensures
        shown_workspaces(monitors).contains(workspace) <==> on_some_monitor(monitors, workspace),
{
    if on_some_monitor(monitors, workspace) {
        assert(shows_workspace(monitors, workspace));
    }
}

/// The shown workspaces do not depend on the order of the monitors.
pub proof fn law_shown_workspaces_ignore_the_order(left: Seq<Monitor>, right: Seq<Monitor>)
    requires
        left.to_set() == right.to_set(),
    ensures
        shown_workspaces(left) == shown_workspaces(right),
{
    assert forall|id: i64| shows_workspace(left, id) == shows_workspace(right, id) by {
        lemma_workspace_carries_over(left, right, id);
        lemma_workspace_carries_over(right, left, id);
    }
    assert(shown_workspaces(left) =~= shown_workspaces(right));
}

proof fn lemma_workspace_carries_over(from: Seq<Monitor>, to: Seq<Monitor>, id: i64)
    requires
        from.to_set() == to.to_set(),
    ensures
        shows_workspace(from, id) ==> shows_workspace(to, id),
{
    if shows_workspace(from, id) {
        let m = choose|m: int|
            0 <= m < from.len() && (#[trigger] from[m]).active_workspace.id == id;
        assert(from.to_set().contains(from[m]));
        assert(to.to_set().contains(from[m]));
        let k = choose|k: int| 0 <= k < to.len() && to[k] == from[m];
        assert(to[k].active_workspace.id == id);
    }
}

proof fn lemma_window_of_tells(client: Client, monitors: Seq<Monitor>)
    ensures
        window_of(client@, shown_workspaces(monitors)) matches Some(window) ==> tells_of(
            window,
            client,
            monitors,
        ),
        window_of(client@, shown_workspaces(monitors)) is Some <==> {
            &&& client.mapped
            &&& address_of(client.address@) is Some
            &&& 0 < client.pid <= 0xffff_ffff
        },
{
    law_every_monitor_shows_its_workspace(monitors, client.workspace.id);
}

/// Every listed window tells of a mapped client field by field, and every mapped
/// client with a valid address and process is told of by a listed window.
pub proof fn law_listing_tells_of_the_clients(
    session: bool,
    monitors: Vec<Monitor>,
    clients: Vec<Client>,
    windows: Seq<WindowView>,
)
    requires
        listing_of(session, Ok(monitors), Ok(clients)) == Ok::<_, Refusal>(windows),
    ensures
        forall|k: int|
            0 <= k < windows.len() ==> exists|i: int|
                0 <= i < clients@.len() && tells_of(
                    #[trigger] windows[k],
                    #[trigger] clients@[i],
                    monitors@,
                ),
        forall|i: int|
            0 <= i < clients@.len() && (#[trigger] clients@[i]).mapped && address_of(
                clients@[i].address@,
            ) is Some && 0 < clients@[i].pid <= 0xffff_ffff ==> exists|k: int|
                0 <= k < windows.len() && tells_of(#[trigger] windows[k], clients@[i], monitors@),
{
    let seen = clients.deep_view();
    let shown = shown_workspaces(monitors@);
    let f = |client: ClientView| window_of(client, shown);
    assert forall|k: int| 0 <= k < windows.len() implies exists|i: int|
        0 <= i < clients@.len() && tells_of(
            #[trigger] windows[k],
            #[trigger] clients@[i],
            monitors@,
        ) by {
        assert(windows.contains(windows[k]));
        let i = lemma_mapped_from(seen, f, windows[k]);
        lemma_window_of_tells(clients@[i], monitors@);
        assert(tells_of(windows[k], clients@[i], monitors@));
    }
    assert forall|i: int|
        0 <= i < clients@.len() && (#[trigger] clients@[i]).mapped && address_of(
            clients@[i].address@,
        ) is Some && 0 < clients@[i].pid <= 0xffff_ffff implies exists|k: int|
        0 <= k < windows.len() && tells_of(#[trigger] windows[k], clients@[i], monitors@) by {
        lemma_window_of_tells(clients@[i], monitors@);
        lemma_mapped_item(seen, f, i);
        let window = f(seen[i])->0;
        let k = choose|k: int| 0 <= k < windows.len() && windows[k] == window;
        assert(tells_of(windows[k], clients@[i], monitors@));
    }
}

/// A listing of one client is one window where the client is mapped and has a
/// valid address and process, and empty otherwise.
pub proof fn law_one_client_is_at_most_one_window(client: Client, monitors: Seq<Monitor>)
    ensures
        ({
            let listed = windows_of(seq![client@], shown_workspaces(monitors));
            if client.mapped && address_of(client.address@) is Some && 0 < client.pid
                <= 0xffff_ffff {
                listed.len() == 1 && tells_of(listed[0], client, monitors)
            } else {
                listed.len() == 0
            }
        }),
{
    let shown = shown_workspaces(monitors);
    Seq::lemma_filter_map_singleton(client@, |c: ClientView| window_of(c, shown));
    lemma_window_of_tells(client, monitors);
}

/// Windows are listed in the order of their clients, one by one: those of two
/// lists, one behind the other, are those of the first and then those of the
/// second.
pub proof fn law_listing_keeps_the_order(
    front: Seq<ClientView>,
    back: Seq<ClientView>,
    shown: Set<i64>,
)
    ensures
        windows_of(front + back, shown) == windows_of(front, shown) + windows_of(back, shown),
        windows_of(Seq::empty(), shown) == Seq::<WindowView>::empty(),
{
    lemma_mapped_in_order(front, back, |client: ClientView| window_of(client, shown));
}

/// A listing succeeds in a session when both readings did, and only then. It is
/// refused outside a session whatever was read, and a failed reading is passed
/// on, that of the monitors first.
pub proof fn law_listing_needs_session_and_readings(
    session: bool,
    monitors: Result<Vec<Monitor>, Refusal>,
    clients: Result<Vec<Client>, Refusal>,
)
    ensures
        listing_of(session, monitors, clients) is Ok <==> session && monitors is Ok && clients is Ok,
        !session ==> listing_of(session, monitors, clients) == Err::<Seq<WindowView>, _>(
            Refusal::NotHyprlandSession,
        ),
        session ==> (monitors matches Err(refusal) ==> listing_of(session, monitors, clients)
            == Err::<Seq<WindowView>, _>(refusal)),
        session && monitors is Ok ==> (clients matches Err(refusal) ==> listing_of(
            session,
            monitors,
            clients,
        ) == Err::<Seq<WindowView>, _>(refusal)),
{
}

/// Whether a window of a process is the only one of it with a title.
pub open spec fn only_titled_of(windows: Seq<WindowView>, i: int, pid: u32, title: Seq<char>) -> bool {
    &&& 0 <= i < windows.len()
    &&& windows[i].pid == pid
    &&& title.len() > 0
    &&& windows[i].title == title
    &&& forall|j: int|
        0 <= j < windows.len() && j != i && (#[trigger] windows[j]).pid == pid ==> windows[j].title
            != title
}

/// Whether a window of a process is the only one of it with an app-id.
pub open spec fn only_classed_of(
    windows: Seq<WindowView>,
    i: int,
    pid: u32,
    app_id: Seq<char>,
) -> bool {
    &&& 0 <= i < windows.len()
    &&& windows[i].pid == pid
    &&& app_id.len() > 0
    &&& windows[i].app_id == app_id
    &&& forall|j: int|
        0 <= j < windows.len() && j != i && (#[trigger] windows[j]).pid == pid
            ==> windows[j].app_id != app_id
}

/// Whether a window is the only one of a process.
pub open spec fn only_one_of(windows: Seq<WindowView>, i: int, pid: u32) -> bool {
    &&& 0 <= i < windows.len()
    &&& windows[i].pid == pid
    &&& forall|j: int| 0 <= j < windows.len() && j != i ==> (#[trigger] windows[j]).pid != pid
}

/// Whether a window is the only one with a title.
pub open spec fn only_titled(windows: Seq<WindowView>, i: int, title: Seq<char>) -> bool {
    &&& 0 <= i < windows.len()
    &&& title.len() > 0
    &&& windows[i].title == title
    &&& forall|j: int| 0 <= j < windows.len() && j != i ==> (#[trigger] windows[j]).title != title
}

/// Whether a window is the only one with an app-id.
pub open spec fn only_classed(windows: Seq<WindowView>, i: int, app_id: Seq<char>) -> bool {
    &&& 0 <= i < windows.len()
    &&& app_id.len() > 0
    &&& windows[i].app_id == app_id
    &&& forall|j: int|
        0 <= j < windows.len() && j != i ==> (#[trigger] windows[j]).app_id != app_id
}

/// Whether a window is the first one at an address.
pub open spec fn first_there(windows: Seq<WindowView>, i: int, address: u64) -> bool {
    &&& 0 <= i < windows.len()
    &&& windows[i].address == address
    &&& forall|j: int| 0 <= j < i ==> (#[trigger] windows[j]).address != address
}

proof fn lemma_sole_is_the_only_place(
    windows: Seq<WindowView>,
    wanted: spec_fn(WindowView) -> bool,
) -> (place: Option<int>)
    ensures
        match place {
            Some(i) => {
                &&& 0 <= i < windows.len()
                &&& wanted(windows[i])
                &&& forall|j: int| 0 <= j < windows.len() && j != i ==> !wanted(#[trigger] windows[j])
                &&& sole(windows.filter(wanted)) == Some(windows[i])
            },
            None => {
                &&& sole(windows.filter(wanted)) is None
                &&& forall|i: int|
                    0 <= i < windows.len() && wanted(#[trigger] windows[i]) ==> exists|j: int|
                        0 <= j < windows.len() && j != i && wanted(#[trigger] windows[j])
            },
        },
{
    if exists|i: int|
        0 <= i < windows.len() && wanted(#[trigger] windows[i]) && forall|j: int|
            0 <= j < windows.len() && j != i ==> !wanted(#[trigger] windows[j]) {
        let i = choose|i: int|
            0 <= i < windows.len() && wanted(#[trigger] windows[i]) && forall|j: int|
                0 <= j < windows.len() && j != i ==> !wanted(#[trigger] windows[j]);
        lemma_one_place(windows, wanted, i);
        Some(i)
    } else {
        if exists|i: int| 0 <= i < windows.len() && wanted(#[trigger] windows[i]) {
            let i = choose|i: int| 0 <= i < windows.len() && wanted(#[trigger] windows[i]);
            let j = choose|j: int| 0 <= j < windows.len() && j != i && wanted(#[trigger] windows[j]);
            if i < j {
                lemma_two_places(windows, wanted, i, j);
            } else {
                lemma_two_places(windows, wanted, j, i);
            }
        } else {
            lemma_no_place(windows, wanted);
        }
        None
    }
}

proof fn lemma_titled_of(windows: Seq<WindowView>, pid: u32, title: Seq<char>)
    ensures
        sole(windows.filter(owned_and_titled(pid, title))) matches Some(window) ==> exists|i: int|
            #[trigger] only_titled_of(windows, i, pid, title) && windows[i] == window,
        forall|i: int| #[trigger]
            only_titled_of(windows, i, pid, title) ==> sole(
                windows.filter(owned_and_titled(pid, title)),
            ) == Some(windows[i]),
{
    let wanted = owned_and_titled(pid, title);
    let place = lemma_sole_is_the_only_place(windows, wanted);
    assert(forall|w: WindowView|
        #[trigger] wanted(w) <==> (w.pid == pid && title.len() > 0 && w.title == title));
    if let Some(i) = place {
        assert forall|j: int|
            0 <= j < windows.len() && j != i && (#[trigger] windows[j]).pid
                == pid implies windows[j].title != title by {
            assert(!wanted(windows[j]));
        }
        assert(only_titled_of(windows, i, pid, title));
    }
    assert forall|i: int| #[trigger] only_titled_of(windows, i, pid, title) implies sole(
        windows.filter(wanted),
    ) == Some(windows[i]) by {
        lemma_one_place(windows, wanted, i);
    }
}

proof fn lemma_classed_of(windows: Seq<WindowView>, pid: u32, app_id: Seq<char>)
    ensures
        sole(windows.filter(owned_and_classed(pid, app_id))) matches Some(window) ==> exists|i: int|
            #[trigger] only_classed_of(windows, i, pid, app_id) && windows[i] == window,
        forall|i: int| #[trigger]
            only_classed_of(windows, i, pid, app_id) ==> sole(
                windows.filter(owned_and_classed(pid, app_id)),
            ) == Some(windows[i]),
{
    let wanted = owned_and_classed(pid, app_id);
    let place = lemma_sole_is_the_only_place(windows, wanted);
    assert(forall|w: WindowView|
        #[trigger] wanted(w) <==> (w.pid == pid && app_id.len() > 0 && w.app_id == app_id));
    if let Some(i) = place {
        assert forall|j: int|
            0 <= j < windows.len() && j != i && (#[trigger] windows[j]).pid
                == pid implies windows[j].app_id != app_id by {
            assert(!wanted(windows[j]));
        }
        assert(only_classed_of(windows, i, pid, app_id));
    }
    assert forall|i: int| #[trigger] only_classed_of(windows, i, pid, app_id) implies sole(
        windows.filter(wanted),
    ) == Some(windows[i]) by {
        lemma_one_place(windows, wanted, i);
    }
}

/// The only window of a process is found by the process, and nothing else is.
pub proof fn law_sole_windows_are_found_by_process(windows: Seq<WindowView>, pid: u32)
    ensures
        sole(windows.filter(owned_by(pid))) matches Some(window) ==> exists|i: int|
            #[trigger] only_one_of(windows, i, pid) && windows[i] == window,
        forall|i: int| #[trigger]
            only_one_of(windows, i, pid) ==> sole(windows.filter(owned_by(pid))) == Some(windows[i]),
{
    let wanted = owned_by(pid);
    let place = lemma_sole_is_the_only_place(windows, wanted);
    assert(forall|w: WindowView| #[trigger] wanted(w) <==> w.pid == pid);
    if let Some(i) = place {
        assert forall|j: int| 0 <= j < windows.len() && j != i implies (#[trigger] windows[j]).pid
            != pid by {
            assert(!wanted(windows[j]));
        }
        assert(only_one_of(windows, i, pid));
    }
    assert forall|i: int| #[trigger] only_one_of(windows, i, pid) implies sole(
        windows.filter(wanted),
    ) == Some(windows[i]) by {
        lemma_one_place(windows, wanted, i);
    }
}

/// The only window with a title is found by the title, whoever owns it and
/// wherever it is, and nothing else is; the empty title finds nothing.
pub proof fn law_unique_titles_are_found(windows: Seq<WindowView>, title: Seq<char>)
    ensures
        sole(windows.filter(titled(title))) matches Some(window) ==> exists|i: int| #[trigger]
            only_titled(windows, i, title) && windows[i] == window,
        forall|i: int| #[trigger]
            only_titled(windows, i, title) ==> sole(windows.filter(titled(title))) == Some(
                windows[i],
            ),
{
    let wanted = titled(title);
    let place = lemma_sole_is_the_only_place(windows, wanted);
    assert(forall|w: WindowView| #[trigger] wanted(w) <==> (title.len() > 0 && w.title == title));
    if let Some(i) = place {
        assert forall|j: int| 0 <= j < windows.len() && j != i implies (#[trigger] windows[j]).title
            != title by {
            assert(!wanted(windows[j]));
        }
        assert(only_titled(windows, i, title));
    }
    assert forall|i: int| #[trigger] only_titled(windows, i, title) implies sole(
        windows.filter(wanted),
    ) == Some(windows[i]) by {
        lemma_one_place(windows, wanted, i);
    }
}

/// The only window with an app-id is found by the app-id, whoever owns it and
/// wherever it is, and nothing else is; the empty app-id finds nothing.
pub proof fn law_unique_app_ids_are_found(windows: Seq<WindowView>, app_id: Seq<char>)
    ensures
        sole(windows.filter(classed(app_id))) matches Some(window) ==> exists|i: int| #[trigger]
            only_classed(windows, i, app_id) && windows[i] == window,
        forall|i: int| #[trigger]
            only_classed(windows, i, app_id) ==> sole(windows.filter(classed(app_id))) == Some(
                windows[i],
            ),
{
    let wanted = classed(app_id);
    let place = lemma_sole_is_the_only_place(windows, wanted);
    assert(forall|w: WindowView|
        #[trigger] wanted(w) <==> (app_id.len() > 0 && w.app_id == app_id));
    if let Some(i) = place {
        assert forall|j: int| 0 <= j < windows.len() && j != i implies (
        #[trigger] windows[j]).app_id != app_id by {
            assert(!wanted(windows[j]));
        }
        assert(only_classed(windows, i, app_id));
    }
    assert forall|i: int| #[trigger] only_classed(windows, i, app_id) implies sole(
        windows.filter(wanted),
    ) == Some(windows[i]) by {
        lemma_one_place(windows, wanted, i);
    }
}

/// The first window at an address is found by the address, and nothing else is.
pub proof fn law_first_window_at_an_address_is_found(windows: Seq<WindowView>, address: u64)
    ensures
        first_where(windows, |w: WindowView| w.address == address) matches Some(window) ==> exists|
            i: int,
        | #[trigger]
            first_there(windows, i, address) && windows[i] == window,
        forall|i: int| #[trigger]
            first_there(windows, i, address) ==> first_where(
                windows,
                |w: WindowView| w.address == address,
            ) == Some(windows[i]),
    decreases windows.len(),
{
    let wanted = |w: WindowView| w.address == address;
    if windows.len() > 0 {
        let rest = windows.drop_first();
        law_first_window_at_an_address_is_found(rest, address);
        if windows.first().address == address {
            assert(first_there(windows, 0, address));
        } else {
            if let Some(window) = first_where(rest, wanted) {
                let i = choose|i: int| #[trigger]
                    first_there(rest, i, address) && rest[i] == window;
                assert forall|j: int| 0 <= j < i + 1 implies (#[trigger] windows[j]).address
                    != address by {
                    if j > 0 {
                        assert(rest[j - 1] == windows[j]);
                    }
                }
                assert(windows[i + 1] == rest[i]);
                assert(first_there(windows, i + 1, address));
            }
        }
        assert forall|i: int| #[trigger] first_there(windows, i, address) implies first_where(
            windows,
            wanted,
        ) == Some(windows[i]) by {
            if i == 0 {
                assert(windows.first() == windows[0]);
            } else {
                assert(windows[0].address != address);
                assert forall|j: int| 0 <= j < i - 1 implies (#[trigger] rest[j]).address
                    != address by {
                    assert(windows[j + 1] == rest[j]);
                }
                assert(rest[i - 1] == windows[i]);
                assert(first_there(rest, i - 1, address));
            }
        }
    }
}

/// An observation is matched with the only window of the process that bears its
/// title, whatever else is true of that window: its visibility, workspace, place,
/// size and app-id do not count.
pub proof fn law_only_window_with_the_title_is_matched(
    windows: Seq<WindowView>,
    pid: u32,
    title: Seq<char>,
    app_id: Seq<char>,
    i: int,
)
    requires
        0 <= i < windows.len(),
        windows[i].pid == pid,
        title.len() > 0,
        windows[i].title == title,
        forall|j: int|
            0 <= j < windows.len() && j != i && (#[trigger] windows[j]).pid == pid
                ==> windows[j].title != title,
    ensures
        match_for(windows, pid, title, app_id) == Some(windows[i]),
{
    lemma_titled_of(windows, pid, title);
    assert(only_titled_of(windows, i, pid, title));
}

/// Where no window of the process is alone with the title, an observation is
/// matched with the only window of the process that bears its app-id, whatever
/// else is true of that window.
pub proof fn law_only_window_with_the_app_id_is_matched_next(
    windows: Seq<WindowView>,
    pid: u32,
    title: Seq<char>,
    app_id: Seq<char>,
    i: int,
)
    requires
        forall|k: int| !#[trigger] only_titled_of(windows, k, pid, title),
        0 <= i < windows.len(),
        windows[i].pid == pid,
        app_id.len() > 0,
        windows[i].app_id == app_id,
        forall|j: int|
            0 <= j < windows.len() && j != i && (#[trigger] windows[j]).pid == pid
                ==> windows[j].app_id != app_id,
    ensures
        match_for(windows, pid, title, app_id) == Some(windows[i]),
{
    lemma_titled_of(windows, pid, title);
    lemma_classed_of(windows, pid, app_id);
    assert(only_classed_of(windows, i, pid, app_id));
}

/// Whatever is matched is alone in its process: with the title, or with the
/// app-id where none is alone with the title, or altogether where none is alone
/// with either. Everything else is left unmatched.
pub proof fn law_matches_are_alone(
    windows: Seq<WindowView>,
    pid: u32,
    title: Seq<char>,
    app_id: Seq<char>,
)
    ensures
        match match_for(windows, pid, title, app_id) {
            Some(window) => exists|i: int| #[trigger]
                alone(windows, i, pid, title, app_id) && windows[i] == window,
            None => forall|i: int| !#[trigger] alone(windows, i, pid, title, app_id),
        },
        forall|i: int| #[trigger]
            only_titled_of(windows, i, pid, title) ==> match_for(windows, pid, title, app_id)
                == Some(windows[i]),
        (forall|k: int| !#[trigger] only_titled_of(windows, k, pid, title)) ==> forall|i: int|
            #[trigger]
            only_classed_of(windows, i, pid, app_id) ==> match_for(windows, pid, title, app_id)
                == Some(windows[i]),
{
    lemma_titled_of(windows, pid, title);
    lemma_classed_of(windows, pid, app_id);
    law_sole_windows_are_found_by_process(windows, pid);
    let found = match_for(windows, pid, title, app_id);
    if let Some(window) = found {
        if let Some(w) = sole(windows.filter(owned_and_titled(pid, title))) {
            let i = choose|i: int| #[trigger]
                only_titled_of(windows, i, pid, title) && windows[i] == w;
            assert(alone(windows, i, pid, title, app_id));
        } else if let Some(w) = sole(windows.filter(owned_and_classed(pid, app_id))) {
            let i = choose|i: int| #[trigger]
                only_classed_of(windows, i, pid, app_id) && windows[i] == w;
            assert(alone(windows, i, pid, title, app_id));
        } else {
            let i = choose|i: int| #[trigger] only_one_of(windows, i, pid) && windows[i] == window;
            assert(alone(windows, i, pid, title, app_id));
        }
    }
}

/// Whether a window is alone in its process: with the title, with the app-id, or
/// altogether.
pub open spec fn alone(
    windows: Seq<WindowView>,
    i: int,
    pid: u32,
    title: Seq<char>,
    app_id: Seq<char>,
) -> bool {
    ||| only_titled_of(windows, i, pid, title)
    ||| only_classed_of(windows, i, pid, app_id)
    ||| only_one_of(windows, i, pid)
}

} // verus!
