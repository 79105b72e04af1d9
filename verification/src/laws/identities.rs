//! What makes a window's identity, and which identities a list of clients holds.
use vstd::prelude::*;

use crate::address::address_of;
use crate::identity::{active_identity, client_identity, first_at, identities_of, IdentityView};
use crate::records::{ActiveWindow, Client, ClientView};
use crate::select::{lemma_mapped_from, lemma_mapped_item};

verus! {

/// Whether a client is the window with an identity: its address and process are
/// those of the identity, and so are its stable id, its initial title and its
/// initial class, for which the current class stands in where there is none.
pub open spec fn is_window(client: Client, identity: IdentityView) -> bool {
    &&& address_of(client.address@) == Some(identity.address)
    &&& client.pid == identity.pid
    &&& identity.pid != 0
    &&& identity.stable_id == client.stable_id@
    &&& identity.initial_title == client.initial_title@
    &&& identity.initial_class == if client.initial_class@.len() > 0 {
        client.initial_class@
    } else {
        client.class@
    }
}

/// Whether the active window is the window with an identity.
pub open spec fn is_active_window(active: ActiveWindow, identity: IdentityView) -> bool {
    &&& address_of(active.address@) == Some(identity.address)
    &&& active.pid == Some(identity.pid)
    &&& identity.pid != 0
    &&& identity.stable_id == active.stable_id@
    &&& identity.initial_title == active.initial_title@
    &&& identity.initial_class == if active.initial_class@.len() > 0 {
        active.initial_class@
    } else {
        active.class@
    }
}

/// A client has the identity that its fields make, and no other.
pub proof fn law_client_identity_is_made_of_its_fields(client: Client, identity: IdentityView)
    ensures
        client_identity(client@) == Some(identity) <==> is_window(client, identity),
{
}

/// A client has an identity when its address can be read and its process id is a
/// positive number of thirty-two bits, and only then: mapped or not, hidden or
/// not.
pub proof fn law_clients_with_address_and_process_have_an_identity(client: Client)
    ensures
        client_identity(client@) is Some <==> {
            &&& address_of(client.address@) is Some
            &&& 0 < client.pid <= 0xffff_ffff
        },
{
}

/// The active window has the identity that its fields make, and no other.
pub proof fn law_active_identity_is_made_of_its_fields(active: ActiveWindow, identity: IdentityView)
    ensures
        active_identity(active@) == Some(identity) <==> is_active_window(active, identity),
{
}

/// The active window has an identity when its address can be read and it names a
/// process, and only then.
pub proof fn law_active_windows_with_address_and_process_have_an_identity(active: ActiveWindow)
    ensures
        active_identity(active@) is Some <==> {
            &&& address_of(active.address@) is Some
            &&& active.pid is Some
            &&& active.pid != Some(0u32)
        },
{
}

/// A window is recognised in both lists: as a client and as the active window it
/// has one identity where the two reports agree in what never changes.
pub proof fn law_clients_and_active_windows_are_told_alike(client: Client, active: ActiveWindow)
    requires
        address_of(client.address@) == address_of(active.address@),
        active.pid matches Some(pid) && pid == client.pid,
        client.stable_id@ == active.stable_id@,
        client.initial_title@ == active.initial_title@,
        client.initial_class@ == active.initial_class@,
        client.class@ == active.class@,
    ensures
        client_identity(client@) == active_identity(active@),
{
}

/// What changes in a window's life does not change its identity: its current
/// title, its place and size, its workspace, whether it is mapped or hidden, and
/// its current class where it has an initial one.
pub proof fn law_identity_outlives_changes(before: Client, after: Client)
    requires
        before.address@ == after.address@,
        before.pid == after.pid,
        before.stable_id@ == after.stable_id@,
        before.initial_title@ == after.initial_title@,
        before.initial_class@ == after.initial_class@,
        before.initial_class@.len() > 0 || before.class@ == after.class@,
    ensures
        client_identity(before@) == client_identity(after@),
{
}

/// The live identities are those of the clients, all of them: an identity is
/// among them when some client is that window, and only then.
pub proof fn law_live_identities_are_those_of_the_clients(clients: Seq<Client>, identity: IdentityView)
    ensures
        identities_of(clients.map_values(|c: Client| c@)).contains(identity) <==> exists|i: int|
            0 <= i < clients.len() && is_window(#[trigger] clients[i], identity),
{
    let seen = clients.map_values(|c: Client| c@);
    let f = |client: ClientView| client_identity(client);
    if identities_of(seen).contains(identity) {
        let i = lemma_mapped_from(seen, f, identity);
        law_client_identity_is_made_of_its_fields(clients[i], identity);
    }
    if exists|i: int| 0 <= i < clients.len() && is_window(#[trigger] clients[i], identity) {
        let i = choose|i: int| 0 <= i < clients.len() && is_window(#[trigger] clients[i], identity);
        law_client_identity_is_made_of_its_fields(clients[i], identity);
        lemma_mapped_item(seen, f, i);
    }
}

/// Identities come in the order of their clients: those of two lists, one behind
/// the other, are those of the first and then those of the second.
pub proof fn law_live_identities_keep_the_order(front: Seq<ClientView>, back: Seq<ClientView>)
    ensures
        identities_of(front + back) == identities_of(front) + identities_of(back),
    decreases back.len(),
{
    lemma_mapped_in_order(front, back, |client: ClientView| client_identity(client));
}

/// Mapping keeps the order of the items.
pub proof fn lemma_mapped_in_order<A, B>(front: Seq<A>, back: Seq<A>, f: spec_fn(A) -> Option<B>)
    ensures
        (front + back).filter_map(f) == front.filter_map(f) + back.filter_map(f),
    decreases back.len(),
{
    if back.len() == 0 {
        assert(front + back == front);
    } else {
        lemma_mapped_in_order(front, back.drop_last(), f);
        assert((front + back).drop_last() == front + back.drop_last());
        assert((front + back).last() == back.last());
    }
}

/// The window at an address is the first client that has an identity there:
/// clients before it stand at other addresses or have no identity.
pub proof fn law_first_client_at_an_address_counts(
    clients: Seq<Client>,
    i: int,
    identity: IdentityView,
)
    requires
        0 <= i < clients.len(),
        is_window(clients[i], identity),
        forall|j: int, other: IdentityView|
            0 <= j < i && #[trigger] is_window(clients[j], other) ==> other.address
                != identity.address,
    ensures
        first_at(identities_of(clients.map_values(|c: Client| c@)), identity.address) == Some(
            identity,
        ),
{
    let seen = clients.map_values(|c: Client| c@);
    let f = |client: ClientView| client_identity(client);
    law_client_identity_is_made_of_its_fields(clients[i], identity);
    let front = seen.take(i);
    let back = seen.skip(i + 1);
    assert(seen == front + seq![seen[i]] + back);
    lemma_mapped_in_order(front + seq![seen[i]], back, f);
    lemma_mapped_in_order(front, seq![seen[i]], f);
    Seq::lemma_filter_map_singleton(seen[i], f);
    let earlier = identities_of(front);
    assert forall|k: int| 0 <= k < earlier.len() implies (#[trigger] earlier[k]).address
        != identity.address by {
        assert(earlier.contains(earlier[k]));
        let j = lemma_mapped_from(front, f, earlier[k]);
        law_client_identity_is_made_of_its_fields(clients[j], earlier[k]);
        assert(is_window(clients[j], earlier[k]));
    }
    assert(identities_of(seen) == earlier + (seq![identity] + identities_of(back)));
    lemma_first_behind(earlier, seq![identity] + identities_of(back), identity.address);
    assert((seq![identity] + identities_of(back)).first() == identity);
}

proof fn lemma_first_behind(front: Seq<IdentityView>, back: Seq<IdentityView>, address: u64)
    requires
        forall|k: int| 0 <= k < front.len() ==> (#[trigger] front[k]).address != address,
    ensures
        first_at(front + back, address) == first_at(back, address),
    decreases front.len(),
{
    if front.len() == 0 {
        assert(front + back == back);
    } else {
        let rest = front.drop_first();
        assert forall|k: int| 0 <= k < rest.len() implies (#[trigger] rest[k]).address
            != address by {
            assert(front[k + 1] == rest[k]);
        }
        assert(front[0].address != address);
        lemma_first_behind(rest, back, address);
        assert((front + back).drop_first() == rest + back);
        assert((front + back).first() == front[0]);
    }
}

/// Where no client has an identity at an address, no window is there.
pub proof fn law_addresses_without_clients_are_empty(clients: Seq<Client>, address: u64)
    requires
        forall|i: int, identity: IdentityView|
            0 <= i < clients.len() && #[trigger] is_window(clients[i], identity)
                ==> identity.address != address,
    ensures
        first_at(identities_of(clients.map_values(|c: Client| c@)), address) is None,
{
    let seen = clients.map_values(|c: Client| c@);
    let f = |client: ClientView| client_identity(client);
    let all = identities_of(seen);
    assert forall|k: int| 0 <= k < all.len() implies (#[trigger] all[k]).address != address by {
        assert(all.contains(all[k]));
        let j = lemma_mapped_from(seen, f, all[k]);
        law_client_identity_is_made_of_its_fields(clients[j], all[k]);
        assert(is_window(clients[j], all[k]));
    }
    lemma_first_behind(all, Seq::empty(), address);
    assert(all + Seq::<IdentityView>::empty() == all);
}

} // verus!
