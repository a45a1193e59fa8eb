//! Tagging of io_uring operations with 64-bit user data, and the bookkeeping
//! that decides when every outstanding operation of a connection has been
//! reaped during shutdown.

use vstd::prelude::*;
use std::collections::HashSet;

verus! {

broadcast use vstd::std_specs::hash::group_hash_axioms;

/// What one benchmark worker hands back when it finishes: its latency
/// samples, in nanoseconds.
pub struct WorkerResult {
    pub latency_samples: Vec<u64>,
}

/// Operation code of a pending `connect`.
pub const OP_CONNECT: u64 = 0;
/// Operation code of a pending `send`.
pub const OP_SEND: u64 = 1;
/// Operation code of a pending `recv`.
pub const OP_RECV: u64 = 2;

/// The top bit marks the user data of a cancellation request.
pub const CANCEL_USER_DATA_BIT: u64 = 0x8000_0000_0000_0000;

/// Number of user-data bits that hold the connection key.
pub open spec fn key_space() -> int {
    0x1_0000_0000_0000
}

/// The user data of operation `op` on connection `conn_key`:
/// the operation code in the top 16 bits, the key in the low 48 bits.
pub open spec fn spec_user_data(conn_key: int, op: int) -> int {
    op * key_space() + conn_key
}

/// Packs a connection key and an operation code into one user-data word.
pub fn encode_user_data(conn_key: usize, op: u64) -> (r: u64)
    ensures
        r == ((op << 48u64) | (conn_key as u64)),
        conn_key < key_space() && op < 0x1_0000 ==> r == spec_user_data(conn_key as int, op as int),
{
    let k = conn_key as u64;
    let r = (op << 48u64) | k;
    proof {
        if conn_key < key_space() && op < 0x1_0000 {
            assert(((op << 48u64) | k) == op * 0x1_0000_0000_0000u64 + k) by (bit_vector)
                requires
                    k < 0x1_0000_0000_0000u64,
                    op < 0x1_0000u64,
            ;
        }
    }
    r
}

/// Splits a user-data word into its connection key (low 48 bits) and its
/// operation code (high 16 bits).
pub fn decode_user_data(data: u64) -> (r: (usize, u64))
    ensures
        r.0 == #[verifier::truncate] ((data % (key_space() as u64)) as usize),
        r.1 == data / (key_space() as u64),
{
    let k = data & 0x0000_FFFF_FFFF_FFFF;
    let op = data >> 48u64;
    assert((data & 0x0000_FFFF_FFFF_FFFFu64) == data % 0x1_0000_0000_0000u64) by (bit_vector);
    assert((data >> 48u64) == data / 0x1_0000_0000_0000u64) by (bit_vector);
    (#[verifier::truncate] (k as usize), op)
}

/// Decoding what was encoded gives back the connection key and the operation.
pub proof fn law_user_data_round_trip(conn_key: int, op: int)
    requires
        0 <= conn_key < key_space(),
        0 <= op < 0x1_0000,
    ensures
        spec_user_data(conn_key, op) % key_space() == conn_key,
        spec_user_data(conn_key, op) / key_space() == op,
        spec_user_data(conn_key, op) < 0x1_0000_0000_0000_0000,
{
    vstd::arithmetic::div_mod::lemma_fundamental_div_mod_converse(
        spec_user_data(conn_key, op), key_space(), op, conn_key);
}

/// The user data of the operations that are still in flight on a
/// connection, in the order connect, send, recv.
pub fn pending_user_data(
    conn_key: usize,
    connect_pending: bool,
    send_pending: bool,
    recv_pending: bool,
) -> (r: Vec<u64>)
    ensures
        r@ == (if connect_pending { seq![((OP_CONNECT << 48u64) | (conn_key as u64))] } else { seq![] })
            + (if send_pending { seq![((OP_SEND << 48u64) | (conn_key as u64))] } else { seq![] })
            + (if recv_pending { seq![((OP_RECV << 48u64) | (conn_key as u64))] } else { seq![] }),
{
    let mut r: Vec<u64> = Vec::new();
    if connect_pending {
        r.push(encode_user_data(conn_key, OP_CONNECT));
    }
    if send_pending {
        r.push(encode_user_data(conn_key, OP_SEND));
    }
    if recv_pending {
        r.push(encode_user_data(conn_key, OP_RECV));
    }
    assert(r@ == (if connect_pending { seq![((OP_CONNECT << 48u64) | (conn_key as u64))] } else { seq![] })
            + (if send_pending { seq![((OP_SEND << 48u64) | (conn_key as u64))] } else { seq![] })
            + (if recv_pending { seq![((OP_RECV << 48u64) | (conn_key as u64))] } else { seq![] }));
    r
}

/// Tags the user data of an operation as that of its cancellation request.
pub fn cancel_user_data(target: u64) -> (r: u64)
    requires
        target & CANCEL_USER_DATA_BIT == 0,
    ensures
        r == target | CANCEL_USER_DATA_BIT,
        r == target + CANCEL_USER_DATA_BIT,
{
    assert(target & 0x8000_0000_0000_0000u64 == 0 ==> target | 0x8000_0000_0000_0000u64
        == target + 0x8000_0000_0000_0000u64) by (bit_vector);
    target | CANCEL_USER_DATA_BIT
}

/// The operation that a cancellation request targets, or `None` when the
/// user data is not that of a cancellation request.
pub fn cancel_target(user_data: u64) -> (r: Option<u64>)
    ensures
        r == (if user_data & CANCEL_USER_DATA_BIT != 0 {
            Some(user_data & !CANCEL_USER_DATA_BIT)
        } else {
            None::<u64>
        }),
        user_data >= CANCEL_USER_DATA_BIT <==> r is Some,
        r matches Some(t) ==> t == user_data - CANCEL_USER_DATA_BIT,
{
    assert((user_data & 0x8000_0000_0000_0000u64 != 0) == (user_data >= 0x8000_0000_0000_0000u64))
        by (bit_vector);
    assert(user_data & 0x8000_0000_0000_0000u64 != 0 ==> (user_data & !0x8000_0000_0000_0000u64)
        == user_data - 0x8000_0000_0000_0000u64) by (bit_vector);
    if user_data & CANCEL_USER_DATA_BIT != 0 {
        Some(user_data & !CANCEL_USER_DATA_BIT)
    } else {
        None
    }
}

/// Cancelling a tagged operation and reading the tag back gives the operation.
pub proof fn law_cancel_round_trip(target: u64)
    requires
        target & CANCEL_USER_DATA_BIT == 0,
    ensures
        (target | CANCEL_USER_DATA_BIT) & CANCEL_USER_DATA_BIT != 0,
        ((target | CANCEL_USER_DATA_BIT) & !CANCEL_USER_DATA_BIT) == target,
{
    assert(target & 0x8000_0000_0000_0000u64 == 0 ==> ((target | 0x8000_0000_0000_0000u64)
        & 0x8000_0000_0000_0000u64 != 0 && ((target | 0x8000_0000_0000_0000u64)
        & !0x8000_0000_0000_0000u64) == target)) by (bit_vector);
}

/// `ENOENT`, the errno with which a cancellation reports that no request
/// with the targeted user data remains in the ring.
///
/// Calls nothing: reads the constant `libc::ENOENT`, whose value in the
/// libc source for the Linux and Android targets (the only ones io_uring
/// runs on) is 2. The contract claims that value.
#[verifier::external_body]
fn errno_no_entry() -> (r: i32)
    ensures
        r == 2,
{
    libc::ENOENT
}

/// Outstanding operations and outstanding cancellation requests of one
/// connection being shut down.
pub struct ShutdownCompletions {
    pub operations: HashSet<u64>,
    pub cancellations: HashSet<u64>,
}

impl ShutdownCompletions {
    /// Every operation in `pending` is outstanding; no cancellation is yet.
    pub fn new(pending: &[u64]) -> (r: Self)
        ensures
            r.operations@ == pending@.to_set(),
            r.cancellations@ == Set::<u64>::empty(),
    {
        let mut operations: HashSet<u64> = HashSet::new();
        let mut i: usize = 0;
        while i < pending.len()
            invariant
                i <= pending.len(),
                operations@ == pending@.take(i as int).to_set(),
            decreases pending.len() - i,
        {
            proof {
                assert(pending@.take(i + 1) == pending@.take(i as int).push(pending@[i as int]));
                pending@.take(i as int).lemma_push_to_set_commute(pending@[i as int]);
            }
            operations.insert(pending[i]);
            i += 1;
        }
        assert(pending@.take(pending.len() as int) == pending@);
        ShutdownCompletions { operations, cancellations: HashSet::with_capacity(pending.len()) }
    }

    /// Whether every operation and every cancellation has completed.
    pub fn is_empty(&self) -> (r: bool)
        ensures
            r == (self.operations@.is_empty() && self.cancellations@.is_empty()),
    {
        self.operations.is_empty() && self.cancellations.is_empty()
    }

    /// Records one completion: that of a cancellation request (which also
    /// completes its target when the ring reports `-ENOENT`, no such request
    /// left) or that of an operation.
    pub fn record(&mut self, user_data: u64, result: i32)
        ensures
            user_data >= CANCEL_USER_DATA_BIT ==> {
                &&& final(self).cancellations@ == old(self).cancellations@.remove(user_data)
                &&& final(self).operations@ == if result == -2 {
                    old(self).operations@.remove((user_data - CANCEL_USER_DATA_BIT) as u64)
                } else {
                    old(self).operations@
                }
            },
            user_data < CANCEL_USER_DATA_BIT ==> {
                &&& final(self).cancellations@ == old(self).cancellations@
                &&& final(self).operations@ == old(self).operations@.remove(user_data)
            },
    {
        match cancel_target(user_data) {
            Some(target) => {
                self.cancellations.remove(&user_data);
                if result == -errno_no_entry() {
                    self.operations.remove(&target);
                }
            },
            None => {
                self.operations.remove(&user_data);
            },
        }
    }
}

} // verus!
