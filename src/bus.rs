//! Reward-bus selection: the bus with the most rewards left, or a random one
//! when the buses could not be read.

use vstd::prelude::*;
use rand::Rng;
use steel::AccountDeserialize;

verus! {

/// Relies on `ore_api::consts::BUS_COUNT`, which that crate defines as eight.
#[verifier::external_body]
fn bus_count() -> (r: usize)
    ensures
        r == 8,
{
    ore_api::consts::BUS_COUNT
}

/// Relies on `rand::Rng::gen_range` over `0..n` on the thread-local
/// generator: a value below `n` (the range must not be empty).
#[verifier::external_body]
pub(crate) fn random_below(n: u64) -> (r: u64)
    requires
        n > 0,
    ensures
        r < n,
{
    rand::thread_rng().gen_range(0..n)
}

/// What is read of one bus account: its index and the rewards it has left.
#[derive(Clone, Copy, PartialEq, Eq, Structural, Debug)]
pub struct BusSnapshot {
    pub id: u64,
    pub rewards: u64,
}

/// First byte of a bus account's data.
pub const BUS_DISCRIMINATOR: u8 = 100;

/// Length of a bus account's data: an eight-byte header and four `u64` fields.
pub const BUS_ACCOUNT_LEN: usize = 40;

/// The unsigned little-endian integer in the eight bytes of `d` from `at`.
pub open spec fn le_u64(d: Seq<u8>, at: int) -> int {
    d[at] as int + 0x100 * d[at + 1] as int + 0x1_0000 * d[at + 2] as int + 0x100_0000 * d[at + 3] as int
        + 0x1_0000_0000 * d[at + 4] as int + 0x100_0000_0000 * d[at + 5] as int
        + 0x1_0000_0000_0000 * d[at + 6] as int + 0x100_0000_0000_0000 * d[at + 7] as int
}

/// Whether `d` has the shape of a bus account: the bus discriminator and
/// the exact length.
pub open spec fn bus_shaped(d: Seq<u8>) -> bool {
    d.len() == BUS_ACCOUNT_LEN && d[0] == BUS_DISCRIMINATOR
}

/// Relies on `Bus::try_from_bytes` of `ore_api` (steel's `AccountDeserialize`):
/// it refuses data whose first byte is not the bus discriminator, then casts
/// the bytes after the eight-byte header to `Bus` (fields `id`, `rewards`,
/// `theoretical_rewards`, `top_balance`, each a `u64` read in the machine's
/// order, little-endian here) when they are exactly 32 bytes; it may also
/// refuse them when misaligned. It indexes the header, so at least eight
/// bytes are required.
#[verifier::external_body]
fn parse_bus(data: &[u8]) -> (r: Option<BusSnapshot>)
    requires
        data@.len() >= 8,
    ensures
        !bus_shaped(data@) ==> r is None,
        r matches Some(b) ==> b.id == le_u64(data@, 8) && b.rewards == le_u64(data@, 16),
{
    match ore_api::state::Bus::try_from_bytes(data) {
        Ok(bus) => Some(BusSnapshot { id: bus.id, rewards: bus.rewards }),
        Err(_) => None,
    }
}

/// What decoding one account's data may give: nothing where the account is
/// missing, is not shaped as a bus, or names no bus among the eight; a
/// snapshot only of a bus-shaped account, holding its id and rewards.
pub open spec fn decoded_as(account: Option<Vec<u8>>, r: Option<BusSnapshot>) -> bool {
    match account {
        None => r is None,
        Some(d) => {
            &&& (!bus_shaped(d@) || le_u64(d@, 8) >= 8) ==> r is None
            &&& r matches Some(b) ==> bus_shaped(d@) && b.id == le_u64(d@, 8) && b.rewards
                == le_u64(d@, 16)
        },
    }
}

/// What is kept of one parsed bus: the snapshot when it names one of the
/// eight buses, nothing otherwise.
pub open spec fn kept(parsed: Option<BusSnapshot>) -> Option<BusSnapshot> {
    match parsed {
        Some(b) => if b.id < 8 { Some(b) } else { None },
        None => None,
    }
}

/// Keeps a parsed bus only when its id names one of the eight buses.
pub fn keep_bus(parsed: Option<BusSnapshot>) -> (r: Option<BusSnapshot>)
    ensures
        r == kept(parsed),
{
    match parsed {
        Some(b) => if b.id < 8 { Some(b) } else { None },
        None => None,
    }
}

/// Decodes the data of the bus accounts read in one batch. An account that
/// is missing, cannot be decoded as a bus, or names a bus beyond the eight
/// is left out as `None`.
pub fn decode_buses(accounts: &Vec<Option<Vec<u8>>>) -> (r: Vec<Option<BusSnapshot>>)
    ensures
        r@.len() == accounts@.len(),
        forall|i: int| 0 <= i < r@.len() ==> decoded_as(#[trigger] accounts@[i], r@[i]),
        ids_in_range(r@),
{
    let mut r: Vec<Option<BusSnapshot>> = Vec::new();
    let mut i: usize = 0;
    while i < accounts.len()
        invariant
            i <= accounts@.len(),
            r@.len() == i,
            forall|j: int| 0 <= j < i ==> decoded_as(#[trigger] accounts@[j], r@[j]),
            ids_in_range(r@),
        decreases accounts@.len() - i,
    {
        let snapshot = match &accounts[i] {
            Some(d) => {
                if d.len() < 8 {
                    None
                } else {
                    keep_bus(parse_bus(d.as_slice()))
                }
            },
            None => None,
        };
        r.push(snapshot);
        i = i + 1;
    }
    r
}

/// Index and rewards of the best bus among `s`: the first entry with the
/// greatest rewards, among those above zero; bus zero when there is none.
pub open spec fn top_bus(s: Seq<Option<BusSnapshot>>) -> (u64, u64)
    decreases s.len(),
{
    if s.len() == 0 {
        (0, 0)
    } else {
        let t = top_bus(s.drop_last());
        match s.last() {
            Some(b) => if b.rewards > t.1 { (b.id, b.rewards) } else { t },
            None => t,
        }
    }
}

/// Every snapshot read names one of the eight buses.
pub open spec fn ids_in_range(s: Seq<Option<BusSnapshot>>) -> bool {
    forall|i: int| 0 <= i < s.len() ==> (#[trigger] s[i] matches Some(b) ==> b.id < 8)
}

/// No bus read has any rewards left.
pub open spec fn no_rewards(s: Seq<Option<BusSnapshot>>) -> bool {
    forall|i: int| 0 <= i < s.len() ==> (#[trigger] s[i] matches Some(b) ==> b.rewards == 0)
}

/// `r` is the bus to choose among `s`: bus zero when no bus has rewards;
/// otherwise the id of a bus read that has at least the rewards of every
/// bus read, and strictly more than every bus read before it.
pub open spec fn is_best_bus(s: Seq<Option<BusSnapshot>>, r: int) -> bool {
    &&& no_rewards(s) ==> r == 0
    &&& !no_rewards(s) ==> exists|i: int|
        0 <= i < s.len() && (#[trigger] s[i] matches Some(b) && {
            &&& b.id == r
            &&& forall|j: int| 0 <= j < s.len() ==> (#[trigger] s[j] matches Some(c) ==> c.rewards <= b.rewards)
            &&& forall|j: int| 0 <= j < i ==> (#[trigger] s[j] matches Some(c) ==> c.rewards < b.rewards)
        })
}

proof fn lemma_top_bus_bounds(s: Seq<Option<BusSnapshot>>)
    ensures
        forall|i: int| 0 <= i < s.len() ==> (#[trigger] s[i] matches Some(b) ==> b.rewards <= top_bus(s).1),
        top_bus(s).1 == 0 ==> top_bus(s).0 == 0,
        top_bus(s).1 > 0 ==> exists|i: int|
            0 <= i < s.len() && #[trigger] s[i] == Some(BusSnapshot { id: top_bus(s).0, rewards: top_bus(s).1 })
                && forall|j: int| 0 <= j < i ==> (#[trigger] s[j] matches Some(c) ==> c.rewards < top_bus(s).1),
    decreases s.len(),
{
    if s.len() > 0 {
        let p = s.drop_last();
        lemma_top_bus_bounds(p);
        let t = top_bus(p);
        let top = top_bus(s);
        assert(top.1 >= t.1);
        assert forall|i: int| 0 <= i < s.len() implies (#[trigger] s[i] matches Some(b) ==> b.rewards
            <= top.1) by {
            if i < s.len() - 1 {
                assert(s[i] == p[i]);
            }
        }
        if top.1 > 0 {
            if top != t {
                let n = s.len() - 1;
                assert(s[n] == Some(BusSnapshot { id: top.0, rewards: top.1 }));
                assert forall|j: int| 0 <= j < n implies (#[trigger] s[j] matches Some(c) ==> c.rewards
                    < top.1) by {
                    assert(s[j] == p[j]);
                }
            } else {
                let i = choose|i: int|
                    0 <= i < p.len() && #[trigger] p[i] == Some(BusSnapshot { id: t.0, rewards: t.1 })
                        && forall|j: int| 0 <= j < i ==> (#[trigger] p[j] matches Some(c) ==> c.rewards < t.1);
                assert(s[i] == p[i]);
                assert forall|j: int| 0 <= j < i implies (#[trigger] s[j] matches Some(c) ==> c.rewards
                    < top.1) by {
                    assert(s[j] == p[j]);
                }
            }
        }
    }
}

/// The first bus with the most rewards is the best bus in the direct sense:
/// none read has more, none read before it has as much, and bus zero is
/// chosen when no bus has rewards.
pub proof fn lemma_top_bus_is_best(s: Seq<Option<BusSnapshot>>)
    ensures
        is_best_bus(s, top_bus(s).0 as int),
{
    lemma_top_bus_bounds(s);
    let t = top_bus(s);
    if no_rewards(s) {
        if t.1 > 0 {
            let i = choose|i: int|
                0 <= i < s.len() && #[trigger] s[i] == Some(BusSnapshot { id: t.0, rewards: t.1 })
                    && forall|j: int| 0 <= j < i ==> (#[trigger] s[j] matches Some(c) ==> c.rewards < t.1);
            assert(s[i] matches Some(b) ==> b.rewards == 0);
        }
    } else {
        let k = choose|k: int| 0 <= k < s.len() && !(#[trigger] s[k] matches Some(b) ==> b.rewards == 0);
        assert(s[k] matches Some(b) ==> b.rewards <= t.1);
        assert(t.1 > 0);
        let i = choose|i: int|
            0 <= i < s.len() && #[trigger] s[i] == Some(BusSnapshot { id: t.0, rewards: t.1 })
                && forall|j: int| 0 <= j < i ==> (#[trigger] s[j] matches Some(c) ==> c.rewards < t.1);
        assert(s[i] matches Some(b) && {
            &&& b.id == t.0
            &&& forall|j: int| 0 <= j < s.len() ==> (#[trigger] s[j] matches Some(c) ==> c.rewards <= b.rewards)
            &&& forall|j: int| 0 <= j < i ==> (#[trigger] s[j] matches Some(c) ==> c.rewards < b.rewards)
        });
    }
}

/// The bus with the most rewards left among the snapshots read (entries
/// that could not be read are `None`); the first one wins a tie, and bus
/// zero is chosen when no bus has any rewards.
pub fn select_bus(pools: &Vec<Option<BusSnapshot>>) -> (r: usize)
    requires
        ids_in_range(pools@),
    ensures
        r as int == top_bus(pools@).0,
        is_best_bus(pools@, r as int),
        r < 8,
{
    let mut top_id: u64 = 0;
    let mut top_rewards: u64 = 0;
    let mut i: usize = 0;
    while i < pools.len()
        invariant
            i <= pools@.len(),
            ids_in_range(pools@),
            (top_id, top_rewards) == top_bus(pools@.subrange(0, i as int)),
            top_id < 8,
        decreases pools@.len() - i,
    {
        assert(pools@.subrange(0, i + 1).drop_last() =~= pools@.subrange(0, i as int));
        match pools[i] {
            Some(b) => {
                if b.rewards > top_rewards {
                    top_id = b.id;
                    top_rewards = b.rewards;
                }
            },
            None => {},
        }
        i = i + 1;
    }
    assert(pools@.subrange(0, i as int) =~= pools@);
    proof {
        lemma_top_bus_is_best(pools@);
    }
    top_id as usize
}

/// The bus to mine on: the best one read, or one of the eight at random when
/// the batch read failed.
pub fn find_bus(read: &Option<Vec<Option<BusSnapshot>>>) -> (r: usize)
    requires
        read matches Some(v) ==> ids_in_range(v@),
    ensures
        r < 8,
        read matches Some(v) ==> r as int == top_bus(v@).0 && is_best_bus(v@, r as int),
{
    match read {
        Some(v) => select_bus(v),
        None => {
            let n = bus_count();
            random_below(n as u64) as usize
        },
    }
}

} // verus!
