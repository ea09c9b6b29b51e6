use vstd::prelude::*;
use rand::Rng;
use crate::blockchain::{
    add_trade_block, get_current_blockchain_symbols, is_blockchain_limit_reached, key_index,
    ledger_ok, lemma_key_index, offer_adds, TradeBlock, TradeLedger,
};
use crate::dto::{Bias, Trade, TradeStatus};

verus! {

/// Relies on rand's `thread_rng().gen_range(0..n)`: a uniformly drawn index
/// below `n` (the call panics on an empty range).
#[verifier::external_body]
fn random_index(n: usize) -> (r: usize)
    requires
        n > 0,
    ensures
        r < n,
{
    rand::thread_rng().gen_range(0..n)
}

/// The four entry windows that a new symbol is chosen from.
#[derive(Clone, Copy, Debug, PartialEq, Eq, Structural)]
pub enum Bucket {
    /// Bullish, price strictly between `zone_6` and `zone_7`.
    BullishFromAbove,
    /// Bullish, price below `zone_1`.
    BullishFromBelow,
    /// Bearish, price strictly between `zone_1` and `zone_2`.
    BearishFromBelow,
    /// Bearish, price above `zone_7`.
    BearishFromAbove,
}

/// The snapshot's price sits in the window.
pub open spec fn in_bucket(t: Trade, b: Bucket) -> bool {
    let p = t.current_price;
    match b {
        Bucket::BullishFromAbove => t.bias == Bias::Bullish && t.zone_6 < p && p < t.zone_7,
        Bucket::BullishFromBelow => t.bias == Bias::Bullish && p < t.zone_1,
        Bucket::BearishFromBelow => t.bias == Bias::Bearish && t.zone_1 < p && p < t.zone_2,
        Bucket::BearishFromAbove => t.bias == Bias::Bearish && p > t.zone_7,
    }
}

/// Numerator and denominator of the ratio of price to its 200-bar average,
/// whose logarithm is the snapshot's amplitude; one when either is zero.
pub open spec fn amplitude_num(t: Trade) -> int {
    if t.current_price == 0 || t.ma_200 == 0 {
        1
    } else {
        t.current_price as int
    }
}

/// See [`amplitude_num`].
pub open spec fn amplitude_den(t: Trade) -> int {
    if t.current_price == 0 || t.ma_200 == 0 {
        1
    } else {
        t.ma_200 as int
    }
}

/// `a`'s amplitude is at most `b`'s.
pub open spec fn amplitude_le(a: Trade, b: Trade) -> bool {
    amplitude_num(a) * amplitude_den(b) <= amplitude_num(b) * amplitude_den(a)
}

/// Whether `x`, met after `best`, takes its place as the window's pick: the
/// best performance against the reference from above (the later among
/// equals), the smallest amplitude from below (the earlier among equals),
/// the worst performance against the reference from below (the earlier),
/// the largest amplitude from above (the later).
pub open spec fn replaces(x: Trade, best: Trade, b: Bucket) -> bool {
    match b {
        Bucket::BullishFromAbove => x.performance_btc_24 >= best.performance_btc_24,
        Bucket::BullishFromBelow => !amplitude_le(best, x),
        Bucket::BearishFromBelow => x.performance_btc_24 < best.performance_btc_24,
        Bucket::BearishFromAbove => amplitude_le(best, x),
    }
}

/// Index of the window's pick among the snapshots of `s` whose symbol is not
/// in `watched`.
pub open spec fn bucket_pick(s: Seq<Trade>, watched: Seq<Seq<char>>, b: Bucket) -> Option<int>
    decreases s.len(),
{
    if s.len() == 0 {
        None
    } else {
        let best = bucket_pick(s.drop_last(), watched, b);
        let x = s.last();
        if !watched.contains(x.symbol@) && in_bucket(x, b) && (best is None || replaces(x, s[best->0], b)) {
            Some(s.len() - 1)
        } else {
            best
        }
    }
}

/// The index held by `o`, as a sequence of zero or one element.
pub open spec fn as_seq(o: Option<int>) -> Seq<int> {
    match o {
        Option::Some(i) => seq![i],
        Option::None => seq![],
    }
}

/// Indices of the finalists: the picks of the four windows that have one,
/// in the order from-above bullish, from-below bullish, from-below bearish,
/// from-above bearish.
pub open spec fn finalists(s: Seq<Trade>, watched: Seq<Seq<char>>) -> Seq<int> {
    as_seq(bucket_pick(s, watched, Bucket::BullishFromAbove)) + as_seq(
        bucket_pick(s, watched, Bucket::BullishFromBelow),
    ) + as_seq(bucket_pick(s, watched, Bucket::BearishFromBelow)) + as_seq(
        bucket_pick(s, watched, Bucket::BearishFromAbove),
    )
}

/// The symbols of a ledger view.
pub open spec fn symbols_of(v: Seq<(Seq<char>, Seq<TradeBlock>)>) -> Seq<Seq<char>> {
    v.map_values(|e: (Seq<char>, Seq<TradeBlock>)| e.0)
}

/// The texts of a list of strings.
pub open spec fn texts(v: Seq<String>) -> Seq<Seq<char>> {
    v.map_values(|s: String| s@)
}

proof fn lemma_bucket_pick_in_range(s: Seq<Trade>, watched: Seq<Seq<char>>, b: Bucket)
    ensures
        bucket_pick(s, watched, b) is Some ==> {
            let i = bucket_pick(s, watched, b)->0;
            &&& 0 <= i < s.len()
            &&& !watched.contains(s[i].symbol@)
        },
    decreases s.len(),
{
    if s.len() > 0 {
        lemma_bucket_pick_in_range(s.drop_last(), watched, b);
    }
}

fn contains_text(v: &Vec<String>, s: &String) -> (r: bool)
    ensures
        r == texts(v@).contains(s@),
{
    let mut i: usize = 0;
    while i < v.len()
        invariant
            i <= v@.len(),
            forall|j: int| 0 <= j < i ==> v@[j]@ != s@,
        decreases v@.len() - i,
    {
        if v[i] == *s {
            assert(texts(v@)[i as int] == s@);
            return true;
        }
        i = i + 1;
    }
    assert forall|j: int| 0 <= j < texts(v@).len() implies texts(v@)[j] != s@ by {
        assert(v@[j]@ != s@);
    }
    false
}

fn amplitude_at_most(a: &Trade, b: &Trade) -> (r: bool)
    ensures
        r == amplitude_le(*a, *b),
{
    let (an, ad): (u64, u64) = if a.current_price == 0 || a.ma_200 == 0 {
        (1, 1)
    } else {
        (a.current_price, a.ma_200)
    };
    let (bn, bd): (u64, u64) = if b.current_price == 0 || b.ma_200 == 0 {
        (1, 1)
    } else {
        (b.current_price, b.ma_200)
    };
    proof {
        assert((an as int) * (bd as int) <= 0xffff_ffff_ffff_ffff * 0xffff_ffff_ffff_ffff) by (nonlinear_arith)
            requires
                an <= 0xffff_ffff_ffff_ffffu64,
                bd <= 0xffff_ffff_ffff_ffffu64,
        ;
        assert((bn as int) * (ad as int) <= 0xffff_ffff_ffff_ffff * 0xffff_ffff_ffff_ffff) by (nonlinear_arith)
            requires
                bn <= 0xffff_ffff_ffff_ffffu64,
                ad <= 0xffff_ffff_ffff_ffffu64,
        ;
    }
    (an as u128) * (bd as u128) <= (bn as u128) * (ad as u128)
}

fn in_window(t: &Trade, b: Bucket) -> (r: bool)
    ensures
        r == in_bucket(*t, b),
{
    let p = t.current_price;
    match b {
        Bucket::BullishFromAbove => t.bias == Bias::Bullish && t.zone_6 < p && p < t.zone_7,
        Bucket::BullishFromBelow => t.bias == Bias::Bullish && p < t.zone_1,
        Bucket::BearishFromBelow => t.bias == Bias::Bearish && t.zone_1 < p && p < t.zone_2,
        Bucket::BearishFromAbove => t.bias == Bias::Bearish && p > t.zone_7,
    }
}

fn takes_place(x: &Trade, best: &Trade, b: Bucket) -> (r: bool)
    ensures
        r == replaces(*x, *best, b),
{
    match b {
        Bucket::BullishFromAbove => x.performance_btc_24 >= best.performance_btc_24,
        Bucket::BullishFromBelow => !amplitude_at_most(best, x),
        Bucket::BearishFromBelow => x.performance_btc_24 < best.performance_btc_24,
        Bucket::BearishFromAbove => amplitude_at_most(best, x),
    }
}

/// Index of the window's pick among the snapshots whose symbol is not in
/// `watched`.
pub fn pick_bucket(trades: &Vec<Trade>, watched: &Vec<String>, b: Bucket) -> (r: Option<usize>)
    ensures
        match r {
            Some(i) => bucket_pick(trades@, texts(watched@), b) == Some(i as int),
            None => bucket_pick(trades@, texts(watched@), b) is None,
        },
{
    let ghost names = texts(watched@);
    let mut best: Option<usize> = None;
    let mut i: usize = 0;
    while i < trades.len()
        invariant
            i <= trades@.len(),
            names == texts(watched@),
            match best {
                Some(j) => j < i && bucket_pick(trades@.subrange(0, i as int), names, b) == Some(j as int),
                None => bucket_pick(trades@.subrange(0, i as int), names, b) is None,
            },
        decreases trades@.len() - i,
    {
        let ghost pre = trades@.subrange(0, i as int + 1);
        assert(pre.drop_last() =~= trades@.subrange(0, i as int));
        let x = &trades[i];
        let take = !contains_text(watched, &x.symbol) && in_window(x, b) && match best {
            None => true,
            Some(j) => takes_place(x, &trades[j], b),
        };
        if take {
            best = Some(i);
        }
        i = i + 1;
    }
    assert(trades@.subrange(0, trades@.len() as int) =~= trades@);
    best
}

/// Indices of the finalists among `trades`, leaving out watched symbols.
pub fn select_finalists(trades: &Vec<Trade>, watched: &Vec<String>) -> (r: Vec<usize>)
    ensures
        r@.len() == finalists(trades@, texts(watched@)).len(),
        forall|i: int| 0 <= i < r@.len() ==> #[trigger] r@[i] as int == finalists(trades@, texts(watched@))[i],
{
    let ghost names = texts(watched@);
    let mut r: Vec<usize> = Vec::new();
    let ghost mut expected: Seq<int> = seq![];
    let buckets = [
        Bucket::BullishFromAbove,
        Bucket::BullishFromBelow,
        Bucket::BearishFromBelow,
        Bucket::BearishFromAbove,
    ];
    let mut k: usize = 0;
    while k < 4
        invariant
            k <= 4,
            buckets@ == seq![
                Bucket::BullishFromAbove,
                Bucket::BullishFromBelow,
                Bucket::BearishFromBelow,
                Bucket::BearishFromAbove,
            ],
            r@.len() == expected.len(),
            forall|i: int| 0 <= i < r@.len() ==> #[trigger] r@[i] as int == expected[i],
            expected == if k == 0 {
                seq![]
            } else if k == 1 {
                as_seq(bucket_pick(trades@, names, Bucket::BullishFromAbove))
            } else if k == 2 {
                as_seq(bucket_pick(trades@, names, Bucket::BullishFromAbove)) + as_seq(
                    bucket_pick(trades@, names, Bucket::BullishFromBelow),
                )
            } else if k == 3 {
                as_seq(bucket_pick(trades@, names, Bucket::BullishFromAbove)) + as_seq(
                    bucket_pick(trades@, names, Bucket::BullishFromBelow),
                ) + as_seq(bucket_pick(trades@, names, Bucket::BearishFromBelow))
            } else {
                finalists(trades@, names)
            },
            names == texts(watched@),
        decreases 4 - k,
    {
        let b = buckets[k];
        let pick = pick_bucket(trades, watched, b);
        proof {
            expected = expected + as_seq(bucket_pick(trades@, names, b));
        }
        match pick {
            Some(i) => {
                r.push(i);
            },
            None => {},
        }
        k = k + 1;
    }
    r
}

/// Offers the finalist at position `pick` to the ledger; returns its
/// snapshot when it was admitted.
pub fn admit_finalist(
    ledger: &mut TradeLedger,
    trades: &Vec<Trade>,
    finalist_indices: &Vec<usize>,
    pick: usize,
    timestamp: u64,
) -> (r: Option<Trade>)
    requires
        old(ledger).well_formed(),
        pick < finalist_indices@.len(),
        finalist_indices@[pick as int] < trades@.len(),
    ensures
        final(ledger).well_formed(),
        final(ledger).limit() == old(ledger).limit(),
        ({
            let t = trades@[finalist_indices@[pick as int] as int];
            &&& r == (if offer_adds(old(ledger)@, old(ledger).limit(), t) {
                Some(t)
            } else {
                None
            })
            &&& r is None ==> final(ledger)@ == old(ledger)@
            &&& (r is Some && key_index(old(ledger)@, t.symbol@) < 0) ==> ({
                let b = final(ledger)@.last().1[0];
                &&& final(ledger)@ == old(ledger)@.push((t.symbol@, seq![b]))
                &&& b.trade == t
                &&& b.timestamp == timestamp
            })
        }),
{
    let selected = trades[finalist_indices[pick]].copied();
    if add_trade_block(ledger, selected.copied(), timestamp) {
        Some(selected)
    } else {
        None
    }
}

proof fn lemma_not_in_ledger(v: Seq<(Seq<char>, Seq<TradeBlock>)>, names: Seq<Seq<char>>, s: Seq<char>)
    requires
        names.len() == v.len(),
        forall|i: int| 0 <= i < names.len() ==> #[trigger] names[i] == v[i].0,
        !names.contains(s),
    ensures
        key_index(v, s) == -1,
{
    if exists|i: int| 0 <= i < v.len() && #[trigger] v[i].0 == s {
        let i = choose|i: int| 0 <= i < v.len() && #[trigger] v[i].0 == s;
        assert(names[i] == s);
    }
}

/// Chooses at most one new symbol to track: unless the ledger is full,
/// draws one of the finalists among `trades` (symbols not yet in the ledger) at
/// random and admits it. Returns the admitted snapshot.
pub fn choose_candidate_cryptos(ledger: &mut TradeLedger, trades: &Vec<Trade>, timestamp: u64) -> (r: Option<Trade>)
    requires
        old(ledger).well_formed(),
    ensures
        final(ledger).well_formed(),
        final(ledger).limit() == old(ledger).limit(),
        r is None ==> final(ledger)@ == old(ledger)@,
        r is None <==> (old(ledger)@.len() >= old(ledger).limit()
            || finalists(trades@, symbols_of(old(ledger)@)).len() == 0),
        r is Some ==> ({
            let t = r->0;
            let b = final(ledger)@.last().1[0];
            &&& exists|j: int|
                0 <= j < finalists(trades@, symbols_of(old(ledger)@)).len()
                && t == trades@[#[trigger] finalists(trades@, symbols_of(old(ledger)@))[j]]
            &&& final(ledger)@ == old(ledger)@.push((t.symbol@, seq![b]))
            &&& b.trade == t
            &&& b.timestamp == timestamp
        }),
{
    let watched = get_current_blockchain_symbols(ledger);
    proof {
        assert(texts(watched@) =~= symbols_of(ledger@));
    }
    if is_blockchain_limit_reached(ledger) {
        return None;
    }
    let finalist_indices = select_finalists(trades, &watched);
    if finalist_indices.len() == 0 {
        return None;
    }
    let pick = random_index(finalist_indices.len());
    proof {
        let names = symbols_of(ledger@);
        let f = finalists(trades@, names);
        lemma_bucket_pick_in_range(trades@, names, Bucket::BullishFromAbove);
        lemma_bucket_pick_in_range(trades@, names, Bucket::BullishFromBelow);
        lemma_bucket_pick_in_range(trades@, names, Bucket::BearishFromBelow);
        lemma_bucket_pick_in_range(trades@, names, Bucket::BearishFromAbove);
        let i = f[pick as int];
        assert(finalist_indices@[pick as int] as int == i);
        assert(0 <= i < trades@.len() && !names.contains(trades@[i].symbol@));
        lemma_not_in_ledger(ledger@, names, trades@[i].symbol@);
    }
    admit_finalist(ledger, trades, &finalist_indices, pick, timestamp)
}

/// Each chain of `v` begins with the chain that `start` holds at the same
/// position.
pub open spec fn grows_from(start: Seq<(Seq<char>, Seq<TradeBlock>)>, v: Seq<(Seq<char>, Seq<TradeBlock>)>) -> bool {
    &&& v.len() == start.len()
    &&& symbols_of(v) == symbols_of(start)
    &&& forall|k: int| 0 <= k < start.len() ==> {
        let before = start[k].1;
        &&& before.len() <= (#[trigger] v[k]).1.len()
        &&& v[k].1.subrange(0, before.len() as int) == before
    }
}

/// Status that the chain of `symbol` ends on once the first `i` snapshots of
/// `s` have been offered to a ledger that starts as `v` and holds `symbol`:
/// the status of the last of them with that symbol, else the chain's own.
pub open spec fn head_before(
    v: Seq<(Seq<char>, Seq<TradeBlock>)>,
    s: Seq<Trade>,
    i: int,
    symbol: Seq<char>,
) -> Option<TradeStatus>
    decreases i,
{
    if i <= 0 {
        v[key_index(v, symbol)].1.last().trade.status
    } else if s[i - 1].symbol@ == symbol {
        s[i - 1].status
    } else {
        head_before(v, s, i - 1, symbol)
    }
}

/// Whether offering `s[i]`, after the snapshots before it, adds a block: its
/// symbol is held and its status differs from the chain's head.
pub open spec fn offer_added(v: Seq<(Seq<char>, Seq<TradeBlock>)>, s: Seq<Trade>, i: int) -> bool {
    symbols_of(v).contains(s[i].symbol@) && head_before(v, s, i, s[i].symbol@) != s[i].status
}

/// The snapshots among the first `n` of `s` whose offer adds a block, in order.
pub open spec fn added_trades(v: Seq<(Seq<char>, Seq<TradeBlock>)>, s: Seq<Trade>, n: int) -> Seq<Trade>
    decreases n,
{
    if n <= 0 {
        seq![]
    } else {
        added_trades(v, s, n - 1) + if offer_added(v, s, n - 1) {
            seq![s[n - 1]]
        } else {
            seq![]
        }
    }
}

/// Every chain of `v` ends on the head that `start`'s chain of the same
/// symbol has after the first `i` snapshots of `s`.
pub open spec fn heads_follow(
    start: Seq<(Seq<char>, Seq<TradeBlock>)>,
    v: Seq<(Seq<char>, Seq<TradeBlock>)>,
    s: Seq<Trade>,
    i: int,
) -> bool {
    forall|k: int| 0 <= k < v.len() ==> (#[trigger] v[k]).1.last().trade.status == head_before(start, s, i, v[k].0)
}

proof fn lemma_heads_step(
    start: Seq<(Seq<char>, Seq<TradeBlock>)>,
    s: Seq<Trade>,
    i: int,
    symbol: Seq<char>,
)
    requires
        0 <= i < s.len(),
    ensures
        head_before(start, s, i + 1, symbol) == if s[i].symbol@ == symbol {
            s[i].status
        } else {
            head_before(start, s, i, symbol)
        },
{
}

proof fn lemma_offer_step(
    start: Seq<(Seq<char>, Seq<TradeBlock>)>,
    prev: Seq<(Seq<char>, Seq<TradeBlock>)>,
    next: Seq<(Seq<char>, Seq<TradeBlock>)>,
    s: Seq<Trade>,
    i: int,
    k: int,
    added: bool,
)
    requires
        ledger_ok(prev),
        grows_from(start, prev),
        heads_follow(start, prev, s, i),
        0 <= i < s.len(),
        0 <= k < prev.len(),
        prev[k].0 == s[i].symbol@,
        added ==> next == prev.update(k, (s[i].symbol@, prev[k].1.push(next[k].1.last()))),
        added ==> next[k].1.last().trade == s[i],
        !added ==> next == prev,
        !added ==> prev[k].1.last().trade.status == s[i].status,
    ensures
        grows_from(start, next),
        heads_follow(start, next, s, i + 1),
{
    let sym = s[i].symbol@;
    lemma_key_index(prev, sym, k);
    assert(symbols_of(next) =~= symbols_of(prev)) by {
        assert forall|x: int| 0 <= x < next.len() implies next[x].0 == prev[x].0 by {}
    }
    assert forall|x: int| 0 <= x < start.len() implies {
        let before = start[x].1;
        &&& before.len() <= (#[trigger] next[x]).1.len()
        &&& next[x].1.subrange(0, before.len() as int) == before
    } by {
        let before = start[x].1;
        assert(before.len() <= prev[x].1.len());
        assert(prev[x].1.subrange(0, before.len() as int) == before);
        if added && x == k {
            assert(next[x].1.subrange(0, before.len() as int) =~= prev[x].1.subrange(0, before.len() as int));
        }
    }
    assert forall|x: int| 0 <= x < next.len() implies (#[trigger] next[x]).1.last().trade.status == head_before(
        start,
        s,
        i + 1,
        next[x].0,
    ) by {
        lemma_heads_step(start, s, i, next[x].0);
        assert(prev[x].1.last().trade.status == head_before(start, s, i, prev[x].0));
        if x != k {
            assert(prev[x].0 != prev[k].0);
        }
    }
}

/// Offers every snapshot of `trades` whose symbol the ledger already holds,
/// in order, stamped `timestamp`, and returns those that got a block: each
/// whose status differs from its chain's head at its turn. No symbol is
/// added or removed, each chain only grows, and each chain ends on the status
/// of the last snapshot of its symbol in `trades` (its own head if none).
pub fn process_existing_cryptos(ledger: &mut TradeLedger, trades: &Vec<Trade>, timestamp: u64) -> (r: Vec<Trade>)
    requires
        old(ledger).well_formed(),
    ensures
        final(ledger).well_formed(),
        final(ledger).limit() == old(ledger).limit(),
        grows_from(old(ledger)@, final(ledger)@),
        heads_follow(old(ledger)@, final(ledger)@, trades@, trades@.len() as int),
        r@ == added_trades(old(ledger)@, trades@, trades@.len() as int),
{
    let ghost start = ledger@;
    let watched = get_current_blockchain_symbols(ledger);
    proof {
        assert(texts(watched@) =~= symbols_of(ledger@));
        assert forall|x: int| 0 <= x < start.len() implies (#[trigger] start[x]).1.last().trade.status
            == head_before(start, trades@, 0, start[x].0) by {
            lemma_key_index(start, start[x].0, x);
        }
        assert(grows_from(start, ledger@)) by {
            assert forall|x: int| 0 <= x < start.len() implies {
                let before = start[x].1;
                &&& before.len() <= (#[trigger] ledger@[x]).1.len()
                &&& ledger@[x].1.subrange(0, before.len() as int) == before
            } by {
                assert(ledger@[x].1.subrange(0, start[x].1.len() as int) =~= start[x].1);
            }
        }
    }
    let mut r: Vec<Trade> = Vec::new();
    let mut i: usize = 0;
    while i < trades.len()
        invariant
            i <= trades@.len(),
            ledger.well_formed(),
            ledger.limit() == old(ledger).limit(),
            start == old(ledger)@,
            texts(watched@) == symbols_of(start),
            grows_from(start, ledger@),
            heads_follow(start, ledger@, trades@, i as int),
            r@ == added_trades(start, trades@, i as int),
        decreases trades@.len() - i,
    {
        let t = &trades[i];
        let ghost r0 = r@;
        let held = contains_text(&watched, &t.symbol);
        if held {
            let ghost prev = ledger@;
            let ghost sym = t.symbol@;
            let ghost k: int;
            proof {
                let idx = choose|x: int| 0 <= x < symbols_of(start).len() && symbols_of(start)[x] == sym;
                assert(symbols_of(prev)[idx] == sym);
                lemma_key_index(prev, sym, idx);
                k = idx;
            }
            let added = add_trade_block(ledger, t.copied(), timestamp);
            proof {
                assert(prev[k].1.len() > 0);
                assert(prev[k].1.last().trade.status == head_before(start, trades@, i as int, sym));
                lemma_offer_step(start, prev, ledger@, trades@, i as int, k, added);
                assert(symbols_of(start).contains(sym));
                assert(added == offer_added(start, trades@, i as int));
            }
            if added {
                r.push(t.copied());
            }
        } else {
            proof {
                assert(!offer_added(start, trades@, i as int));
                assert forall|x: int| 0 <= x < ledger@.len() implies (#[trigger] ledger@[x]).1.last().trade.status
                    == head_before(start, trades@, i as int + 1, ledger@[x].0) by {
                    lemma_heads_step(start, trades@, i as int, ledger@[x].0);
                    assert(symbols_of(start)[x] == ledger@[x].0);
                }
            }
        }
        proof {
            assert(r@ =~= added_trades(start, trades@, i as int + 1));
        }
        i = i + 1;
    }
    r
}

} // verus!
