//! What one listing after another makes of the registry.
use vstd::prelude::*;

use crate::identity::{identities_of, IdentityView};
use crate::laws::identities::{is_window, law_live_identities_are_those_of_the_clients};
use crate::records::{Client, Monitor};
use crate::refusal::Refusal;
use crate::registry::{
    after_snapshot, law_conflicts_are_refused, next_trust, shows_any, shows_only, sighting,
    trust_answer, Sighting, TrustView,
};
use crate::windows::registry_after_listing;

verus! {

/// Whether a window is listed at its address and no other one is, mapped or not.
pub open spec fn alone_at(clients: Seq<Client>, address: u64, identity: IdentityView) -> bool {
    &&& identity.address == address
    &&& exists|i: int| 0 <= i < clients.len() && is_window(#[trigger] clients[i], identity)
    &&& forall|i: int, other: IdentityView|
        0 <= i < clients.len() && other.address == address && #[trigger] is_window(
            clients[i],
            other,
        ) ==> other == identity
}

/// Whether no window is listed at an address.
pub open spec fn nothing_at(clients: Seq<Client>, address: u64) -> bool {
    forall|i: int, other: IdentityView|
        0 <= i < clients.len() && #[trigger] is_window(clients[i], other) ==> other.address
            != address
}

/// What the registry is after the listing of some clients in a session.
pub open spec fn listed(
    registry: Map<u64, TrustView>,
    monitors: Vec<Monitor>,
    clients: Vec<Client>,
) -> Map<u64, TrustView> {
    registry_after_listing(registry, true, Ok(monitors), Ok(clients))
}

/// The sightings of a snapshot, by its places: nothing, one window however often
/// it is listed, or different ones.
pub proof fn law_sightings_by_places(snapshot: Seq<IdentityView>, address: u64)
    ensures
        match sighting(snapshot, address) {
            Sighting::Absent => forall|i: int|
                0 <= i < snapshot.len() ==> (#[trigger] snapshot[i]).address != address,
            Sighting::One(identity) => {
                &&& exists|i: int| 0 <= i < snapshot.len() && #[trigger] snapshot[i] == identity
                &&& identity.address == address
                &&& forall|i: int|
                    0 <= i < snapshot.len() && (#[trigger] snapshot[i]).address == address
                        ==> snapshot[i] == identity
            },
            Sighting::Conflicting => exists|i: int, j: int|
                {
                    &&& 0 <= i < snapshot.len()
                    &&& 0 <= j < snapshot.len()
                    &&& (#[trigger] snapshot[i]).address == address
                    &&& (#[trigger] snapshot[j]).address == address
                    &&& snapshot[i] != snapshot[j]
                },
        },
{
    match sighting(snapshot, address) {
        Sighting::Absent => {
            assert(!shows_any(snapshot, address));
        },
        Sighting::One(identity) => {
            assert(shows_only(snapshot, address, identity));
            let i = choose|i: int| 0 <= i < snapshot.len() && snapshot[i] == identity;
            assert(snapshot[i] == identity);
        },
        Sighting::Conflicting => {
            let i = choose|i: int|
                0 <= i < snapshot.len() && (#[trigger] snapshot[i]).address == address;
            assert(snapshot.contains(snapshot[i]));
            assert(!shows_only(snapshot, address, snapshot[i]));
            let j = choose|j: int|
                0 <= j < snapshot.len() && (#[trigger] snapshot[j]).address == address
                    && snapshot[j] != snapshot[i];
            assert(snapshot[i].address == address && snapshot[j].address == address);
        },
    }
}

proof fn lemma_same_contents(clients: Vec<Client>)
    ensures
        clients.deep_view() == clients@.map_values(|c: Client| c@),
{
    assert(clients.deep_view() =~= clients@.map_values(|c: Client| c@));
}

proof fn lemma_identities_by_clients(clients: Vec<Client>)
    ensures
        forall|identity: IdentityView|
            #![trigger identities_of(clients.deep_view()).contains(identity)]
            identities_of(clients.deep_view()).contains(identity) <==> exists|i: int|
                0 <= i < clients@.len() && is_window(#[trigger] clients@[i], identity),
{
    lemma_same_contents(clients);
    assert forall|identity: IdentityView|
        #![trigger identities_of(clients.deep_view()).contains(identity)]
        identities_of(clients.deep_view()).contains(identity) <==> exists|i: int|
            0 <= i < clients@.len() && is_window(#[trigger] clients@[i], identity) by {
        law_live_identities_are_those_of_the_clients(clients@, identity);
    }
}

/// A window that is listed alone at its address is sighted alone.
pub proof fn lemma_alone_is_sighted_alone(clients: Vec<Client>, address: u64, identity: IdentityView)
    requires
        alone_at(clients@, address, identity),
    ensures
        sighting(identities_of(clients.deep_view()), address) == Sighting::One(identity),
{
    let snapshot = identities_of(clients.deep_view());
    lemma_identities_by_clients(clients);
    law_sightings_by_places(snapshot, address);
    assert(snapshot.contains(identity));
    let k = choose|k: int| 0 <= k < snapshot.len() && snapshot[k] == identity;
    assert(snapshot[k].address == address);
    assert forall|j: int|
        0 <= j < snapshot.len() && (#[trigger] snapshot[j]).address
            == address implies snapshot[j] == identity by {
        assert(snapshot.contains(snapshot[j]));
        let i = choose|i: int|
            0 <= i < clients@.len() && is_window(#[trigger] clients@[i], snapshot[j]);
        assert(is_window(clients@[i], snapshot[j]));
    }
}

/// An address at which no window is listed is sighted empty.
pub proof fn lemma_nothing_is_sighted(clients: Vec<Client>, address: u64)
    requires
        nothing_at(clients@, address),
    ensures
        sighting(identities_of(clients.deep_view()), address) is Absent,
{
    let snapshot = identities_of(clients.deep_view());
    lemma_identities_by_clients(clients);
    law_sightings_by_places(snapshot, address);
    assert forall|j: int| 0 <= j < snapshot.len() implies (#[trigger] snapshot[j]).address
        != address by {
        assert(snapshot.contains(snapshot[j]));
        let i = choose|i: int|
            0 <= i < clients@.len() && is_window(#[trigger] clients@[i], snapshot[j]);
        assert(is_window(clients@[i], snapshot[j]));
    }
}

/// The registry is remembered from one listing to the next: where one listing
/// shows a window alone at an address and the next one shows another window alone
/// there, the address is refused to every process after it.
pub proof fn law_reused_addresses_wait_between_listings(
    registry: Map<u64, TrustView>,
    first_monitors: Vec<Monitor>,
    first_clients: Vec<Client>,
    monitors: Vec<Monitor>,
    clients: Vec<Client>,
    address: u64,
    known: IdentityView,
    identity: IdentityView,
    pid: u32,
)
    requires
        alone_at(first_clients@, address, known),
        alone_at(clients@, address, identity),
        known != identity,
    ensures
        trust_answer(
            listed(listed(registry, first_monitors, first_clients), monitors, clients),
            address,
            pid,
        ) == Err::<IdentityView, _>(Refusal::PendingRebind { address }),
{
    lemma_alone_is_sighted_alone(first_clients, address, known);
    lemma_alone_is_sighted_alone(clients, address, identity);
}

/// A window that is listed alone at an address for the second time in a row is
/// available to its process, and to no other, whatever was known before.
pub proof fn law_second_listing_confirms(
    registry: Map<u64, TrustView>,
    first_monitors: Vec<Monitor>,
    first_clients: Vec<Client>,
    monitors: Vec<Monitor>,
    clients: Vec<Client>,
    address: u64,
    identity: IdentityView,
    pid: u32,
)
    requires
        alone_at(first_clients@, address, identity),
        alone_at(clients@, address, identity),
    ensures
        trust_answer(
            listed(listed(registry, first_monitors, first_clients), monitors, clients),
            address,
            pid,
        ) == (if pid == identity.pid {
            Ok::<_, Refusal>(identity)
        } else {
            Err(Refusal::WrongOwner { address, owner: identity.pid, pid })
        }),
{
    lemma_alone_is_sighted_alone(first_clients, address, identity);
    lemma_alone_is_sighted_alone(clients, address, identity);
}

/// A window that is listed alone at an address never heard of is available to its
/// process, and to no other.
pub proof fn law_first_listing_is_trusted(
    registry: Map<u64, TrustView>,
    monitors: Vec<Monitor>,
    clients: Vec<Client>,
    address: u64,
    identity: IdentityView,
    pid: u32,
)
    requires
        trust_answer(registry, address, pid) == Err::<IdentityView, _>(
            Refusal::UnknownAddress { address },
        ),
        alone_at(clients@, address, identity),
    ensures
        trust_answer(listed(registry, monitors, clients), address, pid) == (if pid == identity.pid {
            Ok::<_, Refusal>(identity)
        } else {
            Err(Refusal::WrongOwner { address, owner: identity.pid, pid })
        }),
{
    lemma_alone_is_sighted_alone(clients, address, identity);
}

/// A window that leaves the list is refused to every process, and is available to
/// its own again as soon as it is back. Another window in its place has to wait.
pub proof fn law_windows_that_leave_are_remembered(
    registry: Map<u64, TrustView>,
    first_monitors: Vec<Monitor>,
    first_clients: Vec<Client>,
    empty_monitors: Vec<Monitor>,
    empty_clients: Vec<Client>,
    monitors: Vec<Monitor>,
    clients: Vec<Client>,
    address: u64,
    known: IdentityView,
    identity: IdentityView,
    pid: u32,
)
    requires
        alone_at(first_clients@, address, known),
        nothing_at(empty_clients@, address),
        alone_at(clients@, address, identity),
    ensures
        ({
            let gone = listed(
                listed(registry, first_monitors, first_clients),
                empty_monitors,
                empty_clients,
            );
            &&& trust_answer(gone, address, pid) == Err::<IdentityView, _>(
                Refusal::NotLive { address },
            )
            &&& trust_answer(listed(gone, monitors, clients), address, pid) == (if known
                != identity {
                Err(Refusal::PendingRebind { address })
            } else if pid == identity.pid {
                Ok(identity)
            } else {
                Err(Refusal::WrongOwner { address, owner: identity.pid, pid })
            })
        }),
{
    lemma_alone_is_sighted_alone(first_clients, address, known);
    lemma_nothing_is_sighted(empty_clients, address);
    lemma_alone_is_sighted_alone(clients, address, identity);
}

/// An address at which nothing is listed is refused to every process.
pub proof fn law_addresses_that_are_not_listed_are_refused(
    registry: Map<u64, TrustView>,
    monitors: Vec<Monitor>,
    clients: Vec<Client>,
    address: u64,
    pid: u32,
)
    requires
        nothing_at(clients@, address),
    ensures
        trust_answer(listed(registry, monitors, clients), address, pid) is Err,
        trust_answer(registry, address, pid) is Ok ==> trust_answer(
            listed(registry, monitors, clients),
            address,
            pid,
        ) == Err::<IdentityView, _>(Refusal::NotLive { address }),
        trust_answer(registry, address, pid) == Err::<IdentityView, _>(
            Refusal::UnknownAddress { address },
        ) ==> trust_answer(listed(registry, monitors, clients), address, pid) == Err::<
            IdentityView,
            _,
        >(Refusal::UnknownAddress { address }),
{
    lemma_nothing_is_sighted(clients, address);
}

/// Two different windows listed at one address make it refused to every process;
/// when one of them is listed alone afterwards, it has to be seen once more.
pub proof fn law_different_windows_at_one_address_are_refused(
    registry: Map<u64, TrustView>,
    monitors: Vec<Monitor>,
    clients: Vec<Client>,
    later_monitors: Vec<Monitor>,
    later_clients: Vec<Client>,
    i: int,
    j: int,
    left: IdentityView,
    right: IdentityView,
    later: IdentityView,
    pid: u32,
)
    requires
        0 <= i < clients@.len(),
        0 <= j < clients@.len(),
        is_window(clients@[i], left),
        is_window(clients@[j], right),
        left.address == right.address,
        left != right,
        alone_at(later_clients@, left.address, later),
    ensures
        trust_answer(listed(registry, monitors, clients), left.address, pid) == Err::<
            IdentityView,
            _,
        >(Refusal::ConflictingIdentities { address: left.address }),
        trust_answer(
            listed(listed(registry, monitors, clients), later_monitors, later_clients),
            left.address,
            pid,
        ) == Err::<IdentityView, _>(Refusal::PendingRebind { address: left.address }),
{
    let snapshot = identities_of(clients.deep_view());
    lemma_identities_by_clients(clients);
    assert(snapshot.contains(left));
    assert(snapshot.contains(right));
    law_conflicts_are_refused(registry, snapshot, left, right, pid);
    lemma_alone_is_sighted_alone(later_clients, left.address, later);
}

/// A listing that fails leaves the registry as it was.
pub proof fn law_failed_listings_change_nothing(
    registry: Map<u64, TrustView>,
    session: bool,
    monitors: Result<Vec<Monitor>, Refusal>,
    clients: Result<Vec<Client>, Refusal>,
)
    requires
        !session || monitors is Err || clients is Err,
    ensures
        registry_after_listing(registry, session, monitors, clients) == registry,
{
}

/// What is known of one address does not depend on what is listed at others: two
/// registries that know the same of an address, each followed by a listing that
/// shows the same windows there, know the same of it afterwards.
pub proof fn law_addresses_are_kept_apart(
    left: Map<u64, TrustView>,
    right: Map<u64, TrustView>,
    left_seen: Seq<IdentityView>,
    right_seen: Seq<IdentityView>,
    address: u64,
    pid: u32,
)
    requires
        left.get(address) == right.get(address),
        forall|identity: IdentityView|
            identity.address == address ==> (#[trigger] left_seen.contains(identity)
                <==> right_seen.contains(identity)),
    ensures
        after_snapshot(left, left_seen).get(address) == after_snapshot(right, right_seen).get(
            address,
        ),
        trust_answer(after_snapshot(left, left_seen), address, pid) == trust_answer(
            after_snapshot(right, right_seen),
            address,
            pid,
        ),
{
    lemma_same_sighting(left_seen, right_seen, address);
    assert(after_snapshot(left, left_seen).get(address) == next_trust(
        left.get(address),
        sighting(left_seen, address),
    ));
    assert(after_snapshot(right, right_seen).get(address) == next_trust(
        right.get(address),
        sighting(right_seen, address),
    ));
}

proof fn lemma_same_sighting(left: Seq<IdentityView>, right: Seq<IdentityView>, address: u64)
    requires
        forall|identity: IdentityView|
            identity.address == address ==> (#[trigger] left.contains(identity)
                <==> right.contains(identity)),
    ensures
        sighting(left, address) == sighting(right, address),
{
    assert forall|i: int| 0 <= i < left.len() && left[i].address == address implies right.contains(
        #[trigger] left[i],
    ) by {
        assert(left.contains(left[i]));
    }
    assert forall|i: int|
        0 <= i < right.len() && right[i].address == address implies left.contains(
        #[trigger] right[i],
    ) by {
        assert(right.contains(right[i]));
    }
    law_sightings_by_places(left, address);
    law_sightings_by_places(right, address);
}

} // verus!
