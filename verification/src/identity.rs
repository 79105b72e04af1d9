//! The immutable identity of a window.
//!
//! Compositor addresses are allocator-derived and may be reused, so a window is
//! recognised by its address together with everything about it that never
//! changes.
use vstd::prelude::*;

use crate::address::{address_of, parse_address};
use crate::records::{ActiveWindow, ActiveWindowView, Client, ClientView};

verus! {

/// A window's address, owner and the metadata that it was created with.
#[derive(Debug, PartialEq, Eq)]
pub struct WindowIdentity {
    pub address: u64,
    pub stable_id: String,
    pub pid: u32,
    pub initial_class: String,
    pub initial_title: String,
}

/// The contents of a [`WindowIdentity`].
pub struct IdentityView {
    pub address: u64,
    pub stable_id: Seq<char>,
    pub pid: u32,
    pub initial_class: Seq<char>,
    pub initial_title: Seq<char>,
}

impl View for WindowIdentity {
    type V = IdentityView;

    open spec fn view(&self) -> IdentityView {
        IdentityView {
            address: self.address,
            stable_id: self.stable_id@,
            pid: self.pid,
            initial_class: self.initial_class@,
            initial_title: self.initial_title@,
        }
    }
}

impl DeepView for WindowIdentity {
    type V = IdentityView;

    open spec fn deep_view(&self) -> IdentityView {
        self@
    }
}

impl Clone for WindowIdentity {
    fn clone(&self) -> (copy: Self)
        ensures
            copy == *self,
    {
        WindowIdentity {
            address: self.address,
            stable_id: self.stable_id.clone(),
            pid: self.pid,
            initial_class: self.initial_class.clone(),
            initial_title: self.initial_title.clone(),
        }
    }
}

/// The first of two texts, or the second where the first is empty.
pub open spec fn or_else_text(first: Seq<char>, second: Seq<char>) -> Seq<char> {
    if first.len() == 0 {
        second
    } else {
        first
    }
}

/// A process id that the compositor reported, when it names a process: a
/// positive number of thirty-two bits.
pub open spec fn pid_of(reported: i64) -> Option<u32> {
    if 0 < reported <= u32::MAX {
        Some(reported as u32)
    } else {
        None
    }
}

/// The identity of a client; `None` without a valid address or process id.
pub open spec fn client_identity(client: ClientView) -> Option<IdentityView> {
    match (address_of(client.address), pid_of(client.pid)) {
        (Some(address), Some(pid)) => Some(
            IdentityView {
                address,
                stable_id: client.stable_id,
                pid,
                initial_class: or_else_text(client.initial_class, client.class),
                initial_title: client.initial_title,
            },
        ),
        _ => None,
    }
}

/// The identity of the active window; `None` without a valid address or process
/// id.
pub open spec fn active_identity(active: ActiveWindowView) -> Option<IdentityView> {
    match (address_of(active.address), active.pid) {
        (Some(address), Some(pid)) if pid != 0 => Some(
            IdentityView {
                address,
                stable_id: active.stable_id,
                pid,
                initial_class: or_else_text(active.initial_class, active.class),
                initial_title: active.initial_title,
            },
        ),
        _ => None,
    }
}

/// The identities of all clients that have one, in the clients' order.
pub open spec fn identities_of(clients: Seq<ClientView>) -> Seq<IdentityView> {
    clients.filter_map(|client: ClientView| client_identity(client))
}

/// The first identity at an address.
pub open spec fn first_at(identities: Seq<IdentityView>, address: u64) -> Option<IdentityView>
    decreases identities.len(),
{
    if identities.len() == 0 {
        None
    } else if identities.first().address == address {
        Some(identities.first())
    } else {
        first_at(identities.drop_first(), address)
    }
}

/// Reads a reported process id.
pub fn valid_pid(reported: i64) -> (pid: Option<u32>)
    ensures
        pid == pid_of(reported),
{
    if 0 < reported && reported <= u32::MAX as i64 {
        Some(reported as u32)
    } else {
        None
    }
}

fn first_class(initial_class: &String, class: &String) -> (chosen: String)
    ensures
        chosen@ == or_else_text(initial_class@, class@),
{
    if initial_class.as_str().is_empty() {
        class.clone()
    } else {
        initial_class.clone()
    }
}

impl WindowIdentity {
    /// The identity of a client.
    pub fn from_client(client: &Client) -> (identity: Option<Self>)
        ensures
            identity.deep_view() == client_identity(client@),
    {
        let Some(address) = parse_address(client.address.as_str()) else {
            return None;
        };
        let Some(pid) = valid_pid(client.pid) else {
            return None;
        };
        Some(
            WindowIdentity {
                address,
                stable_id: client.stable_id.clone(),
                pid,
                initial_class: first_class(&client.initial_class, &client.class),
                initial_title: client.initial_title.clone(),
            },
        )
    }

    /// Whether two identities agree in every part.
    pub fn same(&self, other: &Self) -> (r: bool)
        ensures
            r == (self@ == other@),
            r == {
                &&& self.address == other.address
                &&& self.stable_id@ == other.stable_id@
                &&& self.pid == other.pid
                &&& self.initial_class@ == other.initial_class@
                &&& self.initial_title@ == other.initial_title@
            },
    {
        self.address == other.address && self.stable_id == other.stable_id && self.pid == other.pid
            && self.initial_class == other.initial_class && self.initial_title
            == other.initial_title
    }
}

impl ActiveWindow {
    /// The identity of the active window.
    pub fn identity(&self) -> (identity: Option<WindowIdentity>)
        ensures
            identity.deep_view() == active_identity(self@),
    {
        let Some(address) = parse_address(self.address.as_str()) else {
            return None;
        };
        match self.pid {
            Some(pid) if pid != 0 => Some(
                WindowIdentity {
                    address,
                    stable_id: self.stable_id.clone(),
                    pid,
                    initial_class: first_class(&self.initial_class, &self.class),
                    initial_title: self.initial_title.clone(),
                },
            ),
            _ => None,
        }
    }
}

/// The identities of all clients that have one.
pub fn live_identities(clients: &[Client]) -> (identities: Vec<WindowIdentity>)
    ensures
        identities.deep_view() == identities_of(clients.deep_view()),
{
    let mut identities: Vec<WindowIdentity> = Vec::new();
    let ghost seen = clients.deep_view();
    let ghost f = |client: ClientView| client_identity(client);
    assert(seen.take(0).filter_map(f) == Seq::<IdentityView>::empty());
    for i in 0..clients.len()
        invariant
            seen == clients.deep_view(),
            f == (|client: ClientView| client_identity(client)),
            identities.deep_view() == seen.take(i as int).filter_map(f),
    {
        proof {
            seen.lemma_filter_map_take_succ(f, i as int);
        }
        let ghost before = identities.deep_view();
        if let Some(identity) = WindowIdentity::from_client(&clients[i]) {
            identities.push(identity);
            assert(identities.deep_view() == before + seq![identity@]);
        }
    }
    assert(seen.take(seen.len() as int) == seen);
    identities
}

/// Whether an identity is among those listed.
pub fn lists_identity(identities: &[WindowIdentity], identity: &WindowIdentity) -> (r: bool)
    ensures
        r == identities.deep_view().contains(identity@),
{
    for i in 0..identities.len()
        invariant
            forall|j: int| 0 <= j < i ==> #[trigger] identities@[j]@ != identity@,
    {
        if identities[i].same(identity) {
            assert(identities.deep_view()[i as int] == identity@);
            return true;
        }
    }
    assert(!identities.deep_view().contains(identity@)) by {
        let all = identities.deep_view();
        if all.contains(identity@) {
            let j = choose|j: int| 0 <= j < all.len() && all[j] == identity@;
            assert(identities@[j]@ != identity@);
        }
    }
    false
}

/// Finds the first identity at an address.
pub fn find_at(identities: &[WindowIdentity], address: u64) -> (found: Option<&WindowIdentity>)
    ensures
        found.deep_view() == first_at(identities.deep_view(), address),
{
    let ghost all = identities.deep_view();
    assert(all.skip(0) == all);
    for i in 0..identities.len()
        invariant
            all == identities.deep_view(),
            first_at(all, address) == first_at(all.skip(i as int), address),
    {
        assert(all.skip(i as int).drop_first() == all.skip(i + 1));
        if identities[i].address == address {
            return Some(&identities[i]);
        }
    }
    None
}

} // verus!
