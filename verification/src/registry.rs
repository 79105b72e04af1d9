//! The registry of window identities that may be trusted.
//!
//! Each listing of the compositor's clients is one snapshot. An address is
//! trusted with the identity that it was first seen with, for as long as it is
//! seen with that identity alone. When another window turns up at the address,
//! it has to be seen a second time before it is trusted.
use std::collections::HashMap;
use vstd::prelude::*;

use crate::identity::{IdentityView, WindowIdentity};
use crate::refusal::Refusal;

verus! {

broadcast use vstd::std_specs::hash::group_hash_axioms;

/// What the registry holds for one address.
#[derive(Debug, PartialEq, Eq)]
pub enum WindowIdentityTrust {
    /// The window that was seen in the last snapshot, trusted.
    Trusted(WindowIdentity),
    /// A replacement that was seen in the last snapshot, not trusted yet.
    RebindPending(WindowIdentity),
    /// The window that was seen here before it left.
    Missing(WindowIdentity),
    /// The last snapshot showed different windows here.
    ConflictingSnapshot,
}

/// The contents of a [`WindowIdentityTrust`].
pub enum TrustView {
    Trusted(IdentityView),
    RebindPending(IdentityView),
    Missing(IdentityView),
    ConflictingSnapshot,
}

impl View for WindowIdentityTrust {
    type V = TrustView;

    open spec fn view(&self) -> TrustView {
        match self {
            WindowIdentityTrust::Trusted(identity) => TrustView::Trusted(identity@),
            WindowIdentityTrust::RebindPending(identity) => TrustView::RebindPending(identity@),
            WindowIdentityTrust::Missing(identity) => TrustView::Missing(identity@),
            WindowIdentityTrust::ConflictingSnapshot => TrustView::ConflictingSnapshot,
        }
    }
}

impl TrustView {
    /// The identity last known at the address.
    pub open spec fn last_identity(self) -> Option<IdentityView> {
        match self {
            TrustView::Trusted(identity) => Some(identity),
            TrustView::RebindPending(identity) => Some(identity),
            TrustView::Missing(identity) => Some(identity),
            TrustView::ConflictingSnapshot => None,
        }
    }
}

/// What one snapshot shows at an address.
pub enum Sighting {
    /// No window.
    Absent,
    /// One window, however often it is listed.
    One(IdentityView),
    /// At least two different windows.
    Conflicting,
}

/// Whether a snapshot shows a window at an address, and no other one there.
pub open spec fn shows_only(
    snapshot: Seq<IdentityView>,
    address: u64,
    identity: IdentityView,
) -> bool {
    &&& identity.address == address
    &&& snapshot.contains(identity)
    &&& forall|i: int|
        0 <= i < snapshot.len() && (#[trigger] snapshot[i]).address == address ==> snapshot[i]
            == identity
}

/// Whether a snapshot shows any window at an address.
pub open spec fn shows_any(snapshot: Seq<IdentityView>, address: u64) -> bool {
    exists|i: int| 0 <= i < snapshot.len() && (#[trigger] snapshot[i]).address == address
}

/// What a snapshot shows at an address.
pub open spec fn sighting(snapshot: Seq<IdentityView>, address: u64) -> Sighting {
    if !shows_any(snapshot, address) {
        Sighting::Absent
    } else if exists|identity: IdentityView| shows_only(snapshot, address, identity) {
        Sighting::One(choose|identity: IdentityView| shows_only(snapshot, address, identity))
    } else {
        Sighting::Conflicting
    }
}

/// What the registry holds for an address after a sighting, given what it held
/// before.
pub open spec fn next_trust(before: Option<TrustView>, seen: Sighting) -> Option<TrustView> {
    match seen {
        Sighting::Absent => match before {
            Some(trust) => match trust.last_identity() {
                Some(identity) => Some(TrustView::Missing(identity)),
                None => None,
            },
            None => None,
        },
        Sighting::Conflicting => Some(TrustView::ConflictingSnapshot),
        Sighting::One(identity) => if before is None || before->0.last_identity() == Some(
            identity,
        ) {
            Some(TrustView::Trusted(identity))
        } else {
            Some(TrustView::RebindPending(identity))
        },
    }
}

/// The registry after a snapshot.
pub open spec fn after_snapshot(
    registry: Map<u64, TrustView>,
    snapshot: Seq<IdentityView>,
) -> Map<u64, TrustView> {
    Map::new(
        |address: u64| next_trust(registry.get(address), sighting(snapshot, address)) is Some,
        |address: u64| next_trust(registry.get(address), sighting(snapshot, address))->0,
    )
}

/// The answer to a request for the window of process `pid` at an address.
pub open spec fn trust_answer(
    registry: Map<u64, TrustView>,
    address: u64,
    pid: u32,
) -> Result<IdentityView, Refusal> {
    match registry.get(address) {
        Some(TrustView::Trusted(identity)) => if identity.pid == pid {
            Ok(identity)
        } else {
            Err(Refusal::WrongOwner { address, owner: identity.pid, pid })
        },
        Some(TrustView::RebindPending(_)) => Err(Refusal::PendingRebind { address }),
        Some(TrustView::Missing(_)) => Err(Refusal::NotLive { address }),
        Some(TrustView::ConflictingSnapshot) => Err(Refusal::ConflictingIdentities { address }),
        None => Err(Refusal::UnknownAddress { address }),
    }
}

/// Every identity is held under its own address.
pub open spec fn keyed_by_address(registry: Map<u64, TrustView>) -> bool {
    forall|address: u64| #[trigger]
        registry.contains_key(address) ==> (registry[address].last_identity() matches Some(
            identity,
        ) ==> identity.address == address)
}

/// The registry of window identities, keyed by address.
pub struct TrustedWindowIdentities {
    by_address: HashMap<u64, WindowIdentityTrust>,
}

impl View for TrustedWindowIdentities {
    type V = Map<u64, TrustView>;

    closed spec fn view(&self) -> Map<u64, TrustView> {
        self.by_address@.map_values(|trust: WindowIdentityTrust| trust@)
    }
}

/// One more window in a snapshot only matters at its own address.
proof fn lemma_sighting_push(snapshot: Seq<IdentityView>, identity: IdentityView, address: u64)
    ensures
        sighting(snapshot.push(identity), address) == (if identity.address != address {
            sighting(snapshot, address)
        } else {
            match sighting(snapshot, address) {
                Sighting::Absent => Sighting::One(identity),
                Sighting::One(other) => if other == identity {
                    Sighting::One(identity)
                } else {
                    Sighting::Conflicting
                },
                Sighting::Conflicting => Sighting::Conflicting,
            }
        }),
{
    let longer = snapshot.push(identity);
    assert(forall|i: int| 0 <= i < snapshot.len() ==> longer[i] == #[trigger] snapshot[i]);
    assert(longer[snapshot.len() as int] == identity);
    if identity.address != address {
        assert(shows_any(longer, address) == shows_any(snapshot, address)) by {
            if shows_any(snapshot, address) {
                let i = choose|i: int|
                    0 <= i < snapshot.len() && (#[trigger] snapshot[i]).address == address;
                assert(longer[i].address == address);
            }
        }
        assert forall|other: IdentityView| #[trigger]
            shows_only(longer, address, other) == shows_only(snapshot, address, other) by {
            if other.address == address {
                if snapshot.contains(other) {
                    let i = choose|i: int| 0 <= i < snapshot.len() && snapshot[i] == other;
                    assert(longer[i] == other);
                }
                if longer.contains(other) {
                    let i = choose|i: int| 0 <= i < longer.len() && longer[i] == other;
                    assert(snapshot[i] == other);
                }
                if shows_only(longer, address, other) {
                    assert forall|i: int|
                        0 <= i < snapshot.len() && (#[trigger] snapshot[i]).address
                            == address implies snapshot[i] == other by {
                        assert(longer[i] == other);
                    }
                }
            }
        }
        if exists|other: IdentityView| shows_only(snapshot, address, other) {
            let a = choose|other: IdentityView| shows_only(snapshot, address, other);
            let b = choose|other: IdentityView| shows_only(longer, address, other);
            assert(shows_only(longer, address, a));
            assert(shows_only(snapshot, address, b));
            lemma_shows_only_unique(snapshot, address, a, b);
        }
    } else {
        assert(shows_any(longer, address));
        match sighting(snapshot, address) {
            Sighting::Absent => {
                assert(shows_only(longer, address, identity));
            },
            Sighting::One(other) => {
                if other == identity {
                    assert(shows_only(longer, address, identity));
                } else {
                    assert forall|third: IdentityView| !shows_only(longer, address, third) by {
                        if shows_only(longer, address, third) {
                            let i = choose|i: int| 0 <= i < snapshot.len() && snapshot[i] == other;
                            assert(longer[i] == other);
                        }
                    }
                }
            },
            Sighting::Conflicting => {
                assert forall|third: IdentityView| !shows_only(longer, address, third) by {
                    if shows_only(longer, address, third) {
                        let i = choose|i: int|
                            0 <= i < snapshot.len() && (#[trigger] snapshot[i]).address == address;
                        assert(longer[i] == third);
                        assert(snapshot.contains(third));
                        assert forall|j: int|
                            0 <= j < snapshot.len() && (#[trigger] snapshot[j]).address
                                == address implies snapshot[j] == third by {
                            assert(longer[j] == third);
                        }
                        assert(shows_only(snapshot, address, third));
                    }
                }
            },
        }
        assert(forall|other: IdentityView|
            shows_only(longer, address, other) ==> other == identity);
    }
}

proof fn lemma_shows_only_unique(
    snapshot: Seq<IdentityView>,
    address: u64,
    left: IdentityView,
    right: IdentityView,
)
    requires
        shows_only(snapshot, address, left),
        shows_only(snapshot, address, right),
    ensures
        left == right,
{
    let i = choose|i: int| 0 <= i < snapshot.len() && snapshot[i] == left;
    assert(snapshot[i].address == address);
}

/// What the first pass over a snapshot collects for an address.
spec fn collected(found: Option<Option<WindowIdentity>>) -> Sighting {
    match found {
        None => Sighting::Absent,
        Some(Some(identity)) => Sighting::One(identity@),
        Some(None) => Sighting::Conflicting,
    }
}

/// Groups a snapshot by address: each address that is seen, with the one window
/// seen there or with `None` where different windows are.
fn group_by_address(identities: &[WindowIdentity]) -> (snapshot: HashMap<
    u64,
    Option<WindowIdentity>,
>)
    ensures
        forall|address: u64| #[trigger]
            collected(snapshot@.get(address)) == sighting(identities.deep_view(), address),
{
    let mut snapshot: HashMap<u64, Option<WindowIdentity>> = HashMap::new();
    let ghost all = identities.deep_view();
    for i in 0..identities.len()
        invariant
            all == identities.deep_view(),
            forall|address: u64| #[trigger]
                collected(snapshot@.get(address)) == sighting(all.take(i as int), address),
    {
        let identity = &identities[i];
        let ghost before = snapshot@;
        proof {
            assert(all.take(i + 1) == all.take(i as int).push(identity@));
            assert forall|address: u64| #[trigger]
                sighting(all.take(i + 1), address) == (if identity@.address != address {
                    sighting(all.take(i as int), address)
                } else {
                    match sighting(all.take(i as int), address) {
                        Sighting::Absent => Sighting::One(identity@),
                        Sighting::One(other) => if other == identity@ {
                            Sighting::One(identity@)
                        } else {
                            Sighting::Conflicting
                        },
                        Sighting::Conflicting => Sighting::Conflicting,
                    }
                }) by {
                lemma_sighting_push(all.take(i as int), identity@, address);
            }
            assert(collected(before.get(identity.address)) == sighting(
                all.take(i as int),
                identity.address,
            ));
        }
        let update: Option<Option<WindowIdentity>> = match snapshot.get(&identity.address) {
            None => Some(Some(identity.clone())),
            Some(Some(observed)) => if observed.same(identity) {
                None
            } else {
                Some(None)
            },
            Some(None) => None,
        };
        if let Some(observed) = update {
            snapshot.insert(identity.address, observed);
        }
        assert forall|address: u64| #[trigger]
            collected(snapshot@.get(address)) == sighting(all.take(i + 1), address) by {
            assert(collected(before.get(address)) == sighting(all.take(i as int), address));
        }
    }
    assert(all.take(all.len() as int) == all);
    snapshot
}

impl Default for TrustedWindowIdentities {
    /// A registry that has seen nothing.
    fn default() -> (registry: Self)
        ensures
            registry@ == Map::<u64, TrustView>::empty(),
    {
        let registry = TrustedWindowIdentities { by_address: HashMap::new() };
        assert(registry@ == Map::<u64, TrustView>::empty());
        registry
    }
}

impl TrustedWindowIdentities {
    #[verifier::type_invariant]
    spec fn well_formed(self) -> bool {
        keyed_by_address(self@)
    }

    /// Takes in one snapshot of the live windows.
    pub fn observe_snapshot(&mut self, identities: &[WindowIdentity])
        ensures
            final(self)@ == after_snapshot(old(self)@, identities.deep_view()),
            keyed_by_address(final(self)@),
    {
        proof {
            use_type_invariant(&*self);
            lemma_snapshot_keeps_keys(self@, identities.deep_view());
        }
        let snapshot = group_by_address(identities);
        let mut next = departed(&self.by_address, &snapshot);
        let ghost before = self@;
        let ghost seen = identities.deep_view();
        let ghost target = after_snapshot(before, seen);
        assert forall|a: u64| #[trigger] next@.contains_key(a) implies target.contains_key(a)
            && next@[a]@ == target[a] by {
            assert(collected(snapshot@.get(a)) == sighting(seen, a));
        }
        assert forall|a: u64| sighting(seen, a) is Absent && target.contains_key(
            a,
        ) implies #[trigger] next@.contains_key(a) by {
            assert(collected(snapshot@.get(a)) == sighting(seen, a));
        }
        for i in 0..identities.len()
            invariant
                before == self@,
                seen == identities.deep_view(),
                target == after_snapshot(before, seen),
                forall|a: u64| #[trigger] collected(snapshot@.get(a)) == sighting(seen, a),
                forall|a: u64| #[trigger]
                    next@.contains_key(a) ==> target.contains_key(a) && next@[a]@ == target[a],
                forall|a: u64|
                    sighting(seen, a) is Absent && target.contains_key(a)
                        ==> #[trigger] next@.contains_key(a),
                forall|j: int|
                    0 <= j < i ==> next@.contains_key((#[trigger] identities@[j]).address),
        {
            let address: u64 = identities[i].address;
            assert(seen[i as int].address == address);
            assert(collected(snapshot@.get(address)) == sighting(seen, address));
            let trust = match snapshot.get(&address) {
                Some(Some(identity)) => {
                    if trust_carries_over(self.by_address.get(&address), identity) {
                        WindowIdentityTrust::Trusted(identity.clone())
                    } else {
                        WindowIdentityTrust::RebindPending(identity.clone())
                    }
                },
                _ => WindowIdentityTrust::ConflictingSnapshot,
            };
            assert(Some(trust@) == next_trust(before.get(address), sighting(seen, address)));
            next.insert(address, trust);
        }
        assert(next@.map_values(|trust: WindowIdentityTrust| trust@) == target) by {
            assert forall|a: u64| #[trigger] target.contains_key(a) implies next@.contains_key(
                a,
            ) by {
                if !(sighting(seen, a) is Absent) {
                    let j = choose|j: int| 0 <= j < seen.len() && (#[trigger] seen[j]).address == a;
                    assert(identities@[j].address == a);
                }
            }
        }
        self.by_address = next;
    }

    /// The identity that may be trusted at an address, for its owner.
    pub fn trusted(&self, address: u64, pid: u32) -> (answer: Result<WindowIdentity, Refusal>)
        ensures
            match (answer, trust_answer(self@, address, pid)) {
                (Ok(identity), Ok(expected)) => identity@ == expected,
                (Err(error), Err(expected)) => error == expected,
                _ => false,
            },
            answer matches Ok(identity) ==> identity.address == address && identity.pid == pid,
    {
        proof {
            use_type_invariant(self);
        }
        assert(self@.contains_key(address) == self.by_address@.contains_key(address));
        match self.by_address.get(&address) {
            Some(WindowIdentityTrust::Trusted(identity)) => {
                if identity.pid == pid {
                    Ok(identity.clone())
                } else {
                    Err(Refusal::WrongOwner { address, owner: identity.pid, pid })
                }
            },
            Some(WindowIdentityTrust::RebindPending(_)) => Err(Refusal::PendingRebind { address }),
            Some(WindowIdentityTrust::Missing(_)) => Err(Refusal::NotLive { address }),
            Some(WindowIdentityTrust::ConflictingSnapshot) => Err(
                Refusal::ConflictingIdentities { address },
            ),
            None => Err(Refusal::UnknownAddress { address }),
        }
    }
}

/// A snapshot keeps every identity under its own address.
proof fn lemma_snapshot_keeps_keys(registry: Map<u64, TrustView>, snapshot: Seq<IdentityView>)
    requires
        keyed_by_address(registry),
    ensures
        keyed_by_address(after_snapshot(registry, snapshot)),
{
    let next = after_snapshot(registry, snapshot);
    assert forall|address: u64| #[trigger]
        next.contains_key(address) implies (next[address].last_identity() matches Some(identity)
        ==> identity.address == address) by {
        if let Sighting::One(identity) = sighting(snapshot, address) {
            assert(shows_only(snapshot, address, identity));
        }
    }
}

/// Whether a window seen at an address may be trusted at once, given what was
/// held for the address.
fn trust_carries_over(
    before: Option<&WindowIdentityTrust>,
    identity: &WindowIdentity,
) -> (carries: bool)
    ensures
        carries == (before is None || before->0@.last_identity() == Some(identity@)),
{
    match before {
        None => true,
        Some(WindowIdentityTrust::Trusted(current)) => current.same(identity),
        Some(WindowIdentityTrust::RebindPending(current)) => current.same(identity),
        Some(WindowIdentityTrust::Missing(current)) => current.same(identity),
        Some(WindowIdentityTrust::ConflictingSnapshot) => false,
    }
}

/// What the registry keeps of the addresses that a snapshot does not show.
fn departed(
    before: &HashMap<u64, WindowIdentityTrust>,
    snapshot: &HashMap<u64, Option<WindowIdentity>>,
) -> (kept: HashMap<u64, WindowIdentityTrust>)
    ensures
        forall|a: u64| #[trigger]
            kept@.contains_key(a) ==> {
                &&& !snapshot@.contains_key(a)
                &&& before@.contains_key(a)
                &&& before@[a]@.last_identity() matches Some(identity)
                &&& kept@[a]@ == TrustView::Missing(identity)
            },
        forall|a: u64|
            #![trigger kept@.contains_key(a)]
            !snapshot@.contains_key(a) && before@.contains_key(a)
                && before@[a]@.last_identity() is Some ==> kept@.contains_key(a),
{
    let mut kept: HashMap<u64, WindowIdentityTrust> = HashMap::new();
    for address in it: before.keys()
        invariant
            it.seq().unref().to_set() == before@.dom(),
            forall|a: u64| #[trigger]
                kept@.contains_key(a) ==> {
                    &&& !snapshot@.contains_key(a)
                    &&& before@.contains_key(a)
                    &&& before@[a]@.last_identity() matches Some(identity)
                    &&& kept@[a]@ == TrustView::Missing(identity)
                },
            forall|j: int|
                0 <= j < it.index() && !snapshot@.contains_key(*#[trigger] it.seq()[j])
                    && before@[*it.seq()[j]]@.last_identity() is Some ==> kept@.contains_key(
                    *it.seq()[j],
                ),
    {
        assert(it.seq().unref()[it.index() as int] == *address);
        assert(it.seq().unref().to_set().contains(*address));
        if !snapshot.contains_key(address) {
            match before.get(address) {
                Some(WindowIdentityTrust::Trusted(identity)) => {
                    kept.insert(*address, WindowIdentityTrust::Missing(identity.clone()));
                },
                Some(WindowIdentityTrust::RebindPending(identity)) => {
                    kept.insert(*address, WindowIdentityTrust::Missing(identity.clone()));
                },
                Some(WindowIdentityTrust::Missing(identity)) => {
                    kept.insert(*address, WindowIdentityTrust::Missing(identity.clone()));
                },
                _ => {},
            }
        }
    }
    kept
}

proof fn lemma_sighting_one(snapshot: Seq<IdentityView>, address: u64, identity: IdentityView)
    requires
        shows_only(snapshot, address, identity),
    ensures
        sighting(snapshot, address) == Sighting::One(identity),
{
    let i = choose|i: int| 0 <= i < snapshot.len() && snapshot[i] == identity;
    assert(snapshot[i].address == address);
    let chosen = choose|other: IdentityView| shows_only(snapshot, address, other);
    lemma_shows_only_unique(snapshot, address, chosen, identity);
}

/// The registry after several snapshots, taken in order.
pub open spec fn after_snapshots(
    registry: Map<u64, TrustView>,
    snapshots: Seq<Seq<IdentityView>>,
) -> Map<u64, TrustView>
    decreases snapshots.len(),
{
    if snapshots.len() == 0 {
        registry
    } else {
        after_snapshot(after_snapshots(registry, snapshots.drop_last()), snapshots.last())
    }
}

/// A trusted window is the only one that the last snapshot showed at its
/// address.
pub proof fn law_trusted_windows_are_live_and_alone(
    registry: Map<u64, TrustView>,
    snapshot: Seq<IdentityView>,
    address: u64,
    pid: u32,
)
    ensures
        trust_answer(after_snapshot(registry, snapshot), address, pid) matches Ok(identity) ==> {
            &&& shows_only(snapshot, address, identity)
            &&& identity.pid == pid
        },
{
    if let Ok(identity) = trust_answer(after_snapshot(registry, snapshot), address, pid) {
        assert(sighting(snapshot, address) == Sighting::One(identity));
        assert(shows_only(snapshot, address, identity));
    }
}

/// An address about which nothing is known is trusted with the first window
/// that is seen there alone.
pub proof fn law_first_sighting_is_trusted(
    registry: Map<u64, TrustView>,
    snapshot: Seq<IdentityView>,
    address: u64,
    identity: IdentityView,
)
    requires
        !registry.contains_key(address),
        shows_only(snapshot, address, identity),
    ensures
        trust_answer(after_snapshot(registry, snapshot), address, identity.pid) == Ok::<_, Refusal>(
            identity,
        ),
{
    lemma_sighting_one(snapshot, address, identity);
}

/// A window at an address that was last known with another identity, or with
/// several at once, is refused to every process when it is first seen.
pub proof fn law_replacement_waits_for_confirmation(
    registry: Map<u64, TrustView>,
    snapshot: Seq<IdentityView>,
    address: u64,
    identity: IdentityView,
    pid: u32,
)
    requires
        registry.contains_key(address),
        registry[address].last_identity() != Some(identity),
        shows_only(snapshot, address, identity),
    ensures
        trust_answer(after_snapshot(registry, snapshot), address, pid) == Err::<IdentityView, _>(
            Refusal::PendingRebind { address },
        ),
{
    lemma_sighting_one(snapshot, address, identity);
}

/// A window that two snapshots in a row show alone at its address is trusted,
/// whatever was known before.
pub proof fn law_second_sighting_confirms(
    registry: Map<u64, TrustView>,
    first: Seq<IdentityView>,
    second: Seq<IdentityView>,
    address: u64,
    identity: IdentityView,
)
    requires
        shows_only(first, address, identity),
        shows_only(second, address, identity),
    ensures
        trust_answer(
            after_snapshot(after_snapshot(registry, first), second),
            address,
            identity.pid,
        ) == Ok::<_, Refusal>(identity),
{
    lemma_sighting_one(first, address, identity);
    lemma_sighting_one(second, address, identity);
}

/// An address that the snapshot omits is refused to every process: as not live
/// where an identity is remembered, and as unknown otherwise.
pub proof fn law_omitted_windows_are_refused(
    registry: Map<u64, TrustView>,
    snapshot: Seq<IdentityView>,
    address: u64,
    pid: u32,
)
    requires
        !shows_any(snapshot, address),
    ensures
        trust_answer(after_snapshot(registry, snapshot), address, pid) == Err::<IdentityView, _>(
            if registry.contains_key(address) && registry[address].last_identity() is Some {
                Refusal::NotLive { address }
            } else {
                Refusal::UnknownAddress { address }
            },
        ),
{
}

/// A snapshot that shows different windows at an address makes it refused to
/// every process.
pub proof fn law_conflicts_are_refused(
    registry: Map<u64, TrustView>,
    snapshot: Seq<IdentityView>,
    left: IdentityView,
    right: IdentityView,
    pid: u32,
)
    requires
        snapshot.contains(left),
        snapshot.contains(right),
        left.address == right.address,
        left != right,
    ensures
        trust_answer(after_snapshot(registry, snapshot), left.address, pid) == Err::<
            IdentityView,
            _,
        >(Refusal::ConflictingIdentities { address: left.address }),
{
    let address = left.address;
    let i = choose|i: int| 0 <= i < snapshot.len() && snapshot[i] == left;
    let j = choose|j: int| 0 <= j < snapshot.len() && snapshot[j] == right;
    assert(snapshot[i].address == address && snapshot[j].address == address);
    assert forall|identity: IdentityView| !shows_only(snapshot, address, identity) by {
        if shows_only(snapshot, address, identity) {
            assert(snapshot[i] == identity && snapshot[j] == identity);
        }
    }
}

/// The window last known at an address, trusted or not, is trusted as soon as it
/// is seen there again, however many snapshots omitted it in between.
pub proof fn law_same_window_recovers_after_omission(
    registry: Map<u64, TrustView>,
    omitted: Seq<Seq<IdentityView>>,
    snapshot: Seq<IdentityView>,
    address: u64,
    identity: IdentityView,
)
    requires
        registry.contains_key(address),
        registry[address].last_identity() == Some(identity),
        forall|i: int| 0 <= i < omitted.len() ==> !shows_any(#[trigger] omitted[i], address),
        shows_only(snapshot, address, identity),
    ensures
        trust_answer(
            after_snapshot(after_snapshots(registry, omitted), snapshot),
            address,
            identity.pid,
        ) == Ok::<_, Refusal>(identity),
{
    lemma_sighting_one(snapshot, address, identity);
    lemma_omission_remembers(registry, omitted, address, identity);
}

proof fn lemma_omission_remembers(
    registry: Map<u64, TrustView>,
    omitted: Seq<Seq<IdentityView>>,
    address: u64,
    identity: IdentityView,
)
    requires
        registry.contains_key(address),
        registry[address].last_identity() == Some(identity),
        forall|i: int| 0 <= i < omitted.len() ==> !shows_any(#[trigger] omitted[i], address),
    ensures
        after_snapshots(registry, omitted).contains_key(address),
        after_snapshots(registry, omitted)[address].last_identity() == Some(identity),
    decreases omitted.len(),
{
    if omitted.len() > 0 {
        let earlier = omitted.drop_last();
        assert(forall|i: int| 0 <= i < earlier.len() ==> earlier[i] == #[trigger] omitted[i]);
        assert(!shows_any(omitted[omitted.len() - 1], address));
        lemma_omission_remembers(registry, earlier, address, identity);
    }
}

/// Whether a snapshot without any window at an address comes right after
/// different windows were seen there, which makes the registry forget the address.
pub open spec fn forgets_at(
    registry: Map<u64, TrustView>,
    snapshots: Seq<Seq<IdentityView>>,
    address: u64,
    i: int,
) -> bool {
    &&& sighting(snapshots[i], address) is Absent
    &&& if i == 0 {
        registry[address] is ConflictingSnapshot
    } else {
        sighting(snapshots[i - 1], address) is Conflicting
    }
}

/// Once an address is known, a window that it was not last known with is never
/// trusted there on its first sighting, however long the address was gone in
/// between and whichever other windows were seen there, as long as the registry
/// did not forget the address.
pub proof fn law_reuse_is_guarded_across_disappearance(
    registry: Map<u64, TrustView>,
    between: Seq<Seq<IdentityView>>,
    snapshot: Seq<IdentityView>,
    address: u64,
    identity: IdentityView,
    pid: u32,
)
    requires
        registry.contains_key(address),
        registry[address].last_identity() != Some(identity),
        forall|i: int|
            0 <= i < between.len() ==> !shows_only(#[trigger] between[i], address, identity),
        forall|i: int|
            0 <= i < between.len() ==> !#[trigger] forgets_at(registry, between, address, i),
        shows_only(snapshot, address, identity),
    ensures
        trust_answer(
            after_snapshot(after_snapshots(registry, between), snapshot),
            address,
            pid,
        ) == Err::<IdentityView, _>(Refusal::PendingRebind { address }),
{
    lemma_sighting_one(snapshot, address, identity);
    lemma_other_identity_stays_known(registry, between, address, identity);
}

proof fn lemma_other_identity_stays_known(
    registry: Map<u64, TrustView>,
    between: Seq<Seq<IdentityView>>,
    address: u64,
    identity: IdentityView,
)
    requires
        registry.contains_key(address),
        registry[address].last_identity() != Some(identity),
        forall|i: int|
            0 <= i < between.len() ==> !shows_only(#[trigger] between[i], address, identity),
        forall|i: int|
            0 <= i < between.len() ==> !#[trigger] forgets_at(registry, between, address, i),
    ensures
        after_snapshots(registry, between).contains_key(address),
        after_snapshots(registry, between)[address].last_identity() != Some(identity),
        after_snapshots(registry, between)[address] is ConflictingSnapshot ==> if between.len()
            == 0 {
            registry[address] is ConflictingSnapshot
        } else {
            sighting(between.last(), address) is Conflicting
        },
    decreases between.len(),
{
    if between.len() > 0 {
        let earlier = between.drop_last();
        let n = between.len() - 1;
        assert forall|i: int| 0 <= i < earlier.len() implies !shows_only(
            #[trigger] earlier[i],
            address,
            identity,
        ) by {
            assert(earlier[i] == between[i]);
        }
        assert forall|i: int| 0 <= i < earlier.len() implies !#[trigger] forgets_at(
            registry,
            earlier,
            address,
            i,
        ) by {
            assert(!forgets_at(registry, between, address, i));
        }
        lemma_other_identity_stays_known(registry, earlier, address, identity);
        assert(!forgets_at(registry, between, address, n));
        assert(!shows_only(between[n], address, identity));
        if let Sighting::One(seen) = sighting(between[n], address) {
            assert(shows_only(between[n], address, seen));
        }
    }
}

/// From the second time on, seeing the same snapshot again changes nothing.
pub proof fn law_repeated_snapshots_settle(
    registry: Map<u64, TrustView>,
    snapshot: Seq<IdentityView>,
)
    ensures
        ({
            let twice = after_snapshot(after_snapshot(registry, snapshot), snapshot);
            after_snapshot(twice, snapshot) == twice
        }),
{
    let once = after_snapshot(registry, snapshot);
    let twice = after_snapshot(once, snapshot);
    let thrice = after_snapshot(twice, snapshot);
    assert forall|address: u64| #[trigger] thrice.get(address) == twice.get(address) by {
        assert(once.get(address) == next_trust(registry.get(address), sighting(snapshot, address)));
        assert(twice.get(address) == next_trust(once.get(address), sighting(snapshot, address)));
        assert(thrice.get(address) == next_trust(twice.get(address), sighting(snapshot, address)));
    }
    assert forall|address: u64| #[trigger] thrice.contains_key(address) == twice.contains_key(
        address,
    ) by {
        assert(thrice.get(address) == twice.get(address));
    }
    assert forall|address: u64| #[trigger] thrice.contains_key(address) implies thrice[address]
        == twice[address] by {
        assert(thrice.get(address) == twice.get(address));
    }
    assert(thrice =~= twice);
}

} // verus!
