//! The client session: the packet identifiers handed out on it.

use vstd::prelude::*;

verus! {

/// The identifier that follows `id`: identifiers run from 1 to 65535 and
/// then start again at 1; 0 is never used.
pub open spec fn following_id(id: u16) -> u16 {
    if id == 65535 { 1 } else { (id + 1) as u16 }
}

/// Session state kept by the client across one or more connections.
pub struct ClientSession {
    next_id: u16,
}

impl ClientSession {
    /// The identifier the next allocation hands out.
    pub closed spec fn upcoming_id(&self) -> u16 {
        self.next_id
    }

    /// Whether the session is well formed: the upcoming identifier is not 0.
    pub closed spec fn wf(&self) -> bool {
        self.next_id != 0
    }

    /// A fresh session; the first identifier it hands out is 1.
    pub fn new() -> (r: Self)
        ensures
            r.wf(),
            r.upcoming_id() == 1,
    {
        ClientSession { next_id: 1 }
    }

    /// A session resumed where an earlier one stopped: the first identifier
    /// it hands out is `next`.
    pub fn resume(next: u16) -> (r: Self)
        requires
            next != 0,
        ensures
            r.wf(),
            r.upcoming_id() == next,
    {
        ClientSession { next_id: next }
    }

    /// The identifier the next allocation hands out.
    pub fn upcoming(&self) -> (r: u16)
        ensures
            r == self.upcoming_id(),
    {
        self.next_id
    }

    /// Hands out a packet identifier.
    pub fn next_packet_id(&mut self) -> (r: u16)
        requires
            old(self).wf(),
        ensures
            final(self).wf(),
            r == old(self).upcoming_id(),
            r != 0,
            final(self).upcoming_id() == following_id(r),
    {
        let id = self.next_id;
        self.next_id = if id == 65535 { 1 } else { id + 1 };
        id
    }
}

/// Identifiers handed out one after another do not repeat before all 65535
/// of them have been used: the `k`-th successor of `id`, for `0 < k < 65535`,
/// differs from `id`.
pub proof fn law_ids_cycle(id: u16, k: nat)
    requires
        id != 0,
        0 < k < 65535,
    ensures
        successor_n(id, k) != id,
        successor_n(id, k) != 0,
{
    lemma_successor_n(id, k);
}

/// The identifier `k` allocations after `id`.
pub open spec fn successor_n(id: u16, k: nat) -> u16
    decreases k,
{
    if k == 0 { id } else { following_id(successor_n(id, (k - 1) as nat)) }
}

proof fn lemma_successor_n(id: u16, k: nat)
    requires
        id != 0,
        k < 65535,
    ensures
        successor_n(id, k) as int == (id - 1 + k) % 65535 + 1,
    decreases k,
{
    if k > 0 {
        lemma_successor_n(id, (k - 1) as nat);
    }
}

} // verus!
