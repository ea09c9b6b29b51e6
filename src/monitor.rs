use vstd::prelude::*;
use crate::dto::Trade;

verus! {

/// Number of zones that a price is placed in.
pub const ZONE_COUNT: usize = 8;

/// Upper bound of zone `i` (0-based) of `t`: `zone_1` .. `zone_7`, then the
/// largest price.
pub open spec fn zone_upper(t: Trade, i: int) -> int {
    if i == 0 {
        t.zone_1 as int
    } else if i == 1 {
        t.zone_2 as int
    } else if i == 2 {
        t.zone_3 as int
    } else if i == 3 {
        t.zone_4 as int
    } else if i == 4 {
        t.zone_5 as int
    } else if i == 5 {
        t.zone_6 as int
    } else if i == 6 {
        t.zone_7 as int
    } else {
        u64::MAX as int
    }
}

/// The price of `t` is in zone `i`: above the previous bound (zero for the
/// first zone) and at most zone `i`'s upper bound; a zero price is in the
/// first zone.
pub open spec fn in_zone(t: Trade, i: int) -> bool {
    let p = t.current_price as int;
    let lower = if i == 0 {
        0
    } else {
        zone_upper(t, i - 1)
    };
    (p > lower && p <= zone_upper(t, i)) || (i == 0 && p <= 0)
}

fn upper_of(t: &Trade, i: usize) -> (r: u64)
    requires
        i < 8,
    ensures
        r == zone_upper(*t, i as int),
{
    if i == 0 {
        t.zone_1
    } else if i == 1 {
        t.zone_2
    } else if i == 2 {
        t.zone_3
    } else if i == 3 {
        t.zone_4
    } else if i == 4 {
        t.zone_5
    } else if i == 5 {
        t.zone_6
    } else if i == 6 {
        t.zone_7
    } else {
        u64::MAX
    }
}

/// The first zone (0-based, of eight) that the price of `t` is in.
pub fn find_zone_index(t: &Trade) -> (r: Option<usize>)
    ensures
        match r {
            Some(i) => i < 8 && in_zone(*t, i as int) && forall|j: int| 0 <= j < i ==> !#[trigger] in_zone(*t, j),
            None => forall|j: int| 0 <= j < 8 ==> !#[trigger] in_zone(*t, j),
        },
{
    let p = t.current_price;
    let mut i: usize = 0;
    while i < ZONE_COUNT
        invariant
            i <= 8,
            p == t.current_price,
            forall|j: int| 0 <= j < i ==> !#[trigger] in_zone(*t, j),
        decreases 8 - i,
    {
        let lower: u64 = if i == 0 {
            0
        } else {
            upper_of(t, i - 1)
        };
        let upper = upper_of(t, i);
        if (p > lower && p <= upper) || (i == 0 && p <= lower) {
            return Some(i);
        }
        i = i + 1;
    }
    None
}

/// How many snapshots of `s` are placed in zone `z`.
pub open spec fn zone_count(s: Seq<Trade>, z: int) -> int
    decreases s.len(),
{
    if s.len() == 0 {
        0
    } else {
        zone_count(s.drop_last(), z) + if first_zone(s.last()) == z {
            1int
        } else {
            0int
        }
    }
}

/// The first zone that the price of `t` is in, or -1.
pub open spec fn first_zone(t: Trade) -> int {
    if exists|i: int| 0 <= i < 8 && #[trigger] in_zone(t, i) {
        choose|i: int|
            0 <= i < 8 && #[trigger] in_zone(t, i) && forall|j: int| 0 <= j < i ==> !#[trigger] in_zone(t, j)
    } else {
        -1
    }
}

proof fn lemma_first_zone(t: Trade, i: int)
    requires
        0 <= i < 8,
        in_zone(t, i),
        forall|j: int| 0 <= j < i ==> !#[trigger] in_zone(t, j),
    ensures
        first_zone(t) == i,
{
    let k = first_zone(t);
    assert(0 <= k < 8 && in_zone(t, k) && forall|j: int| 0 <= j < k ==> !#[trigger] in_zone(t, j));
    if k < i {
        assert(!in_zone(t, k));
    }
    if k > i {
        assert(!in_zone(t, i));
    }
}

proof fn lemma_zone_count_bound(s: Seq<Trade>, z: int)
    ensures
        0 <= zone_count(s, z) <= s.len(),
    decreases s.len(),
{
    if s.len() > 0 {
        lemma_zone_count_bound(s.drop_last(), z);
    }
}

/// How many snapshots fall in each of the eight zones.
pub fn zone_distribution(trades: &Vec<Trade>) -> (r: Vec<usize>)
    ensures
        r@.len() == 8,
        forall|z: int| 0 <= z < 8 ==> #[trigger] r@[z] as int == zone_count(trades@, z),
{
    let mut r: Vec<usize> = vec![0, 0, 0, 0, 0, 0, 0, 0];
    let mut k: usize = 0;
    while k < trades.len()
        invariant
            k <= trades@.len(),
            r@.len() == 8,
            forall|z: int| 0 <= z < 8 ==> #[trigger] r@[z] as int == zone_count(trades@.subrange(0, k as int), z),
        decreases trades@.len() - k,
    {
        let ghost pre = trades@.subrange(0, k as int + 1);
        assert(pre.drop_last() =~= trades@.subrange(0, k as int));
        let found = find_zone_index(&trades[k]);
        proof {
            match found {
                Some(i) => lemma_first_zone(trades@[k as int], i as int),
                None => {},
            }
            assert forall|z: int| 0 <= z < 8 implies zone_count(trades@.subrange(0, k as int), z) < trades@.len() by {
                lemma_zone_count_bound(trades@.subrange(0, k as int), z);
            }
        }
        match found {
            Some(i) => {
                let c = r[i];
                r.set(i, c + 1);
            },
            None => {},
        }
        k = k + 1;
    }
    assert(trades@.subrange(0, trades@.len() as int) =~= trades@);
    r
}

} // verus!
