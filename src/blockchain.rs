use vstd::prelude::*;
use vstd::utf8::encode_utf8;
use sha2::Digest;
use crate::dto::{same_status, Bias, Trade, TradeStatus};

verus! {

/// Name for the SHA-256 digest of a byte string.
pub uninterp spec fn sha256_of(data: Seq<u8>) -> Seq<u8>;

/// Relies on sha2's `Sha256::digest`: the SHA-256 digest of `data`, which
/// depends on the bytes alone, 32 bytes long (`Sha256`'s output size is
/// `U32`).
#[verifier::external_body]
fn sha256(data: &Vec<u8>) -> (r: Vec<u8>)
    ensures
        r@ == sha256_of(data@),
        r@.len() == 32,
{
    sha2::Sha256::digest(data.as_slice()).to_vec()
}

/// Lowercase hexadecimal digits.
pub open spec fn hex_digits() -> Seq<char> {
    seq!['0', '1', '2', '3', '4', '5', '6', '7', '8', '9', 'a', 'b', 'c', 'd', 'e', 'f']
}

/// Lowercase hexadecimal text of `b`: two digits per byte, high half first.
pub open spec fn hex_chars(b: Seq<u8>) -> Seq<char>
    decreases b.len(),
{
    if b.len() == 0 {
        seq![]
    } else {
        hex_chars(b.drop_last()) + seq![
            hex_digits()[b.last() as int / 16],
            hex_digits()[b.last() as int % 16],
        ]
    }
}

/// Hex text has two digits per byte.
pub proof fn lemma_hex_len(b: Seq<u8>)
    ensures
        hex_chars(b).len() == 2 * b.len(),
    decreases b.len(),
{
    if b.len() > 0 {
        lemma_hex_len(b.drop_last());
    }
}

/// Relies on `hex::encode`: two lowercase hex digits for each byte, the high
/// half first.
#[verifier::external_body]
pub(crate) fn hex_encode(b: &Vec<u8>) -> (r: String)
    ensures
        r@ == hex_chars(b@),
{
    hex::encode(b)
}

/// Big-endian bytes of `v`.
pub open spec fn be64(v: u64) -> Seq<u8> {
    seq![
        ((v >> 56u64) & 0xff) as u8,
        ((v >> 48u64) & 0xff) as u8,
        ((v >> 40u64) & 0xff) as u8,
        ((v >> 32u64) & 0xff) as u8,
        ((v >> 24u64) & 0xff) as u8,
        ((v >> 16u64) & 0xff) as u8,
        ((v >> 8u64) & 0xff) as u8,
        (v & 0xff) as u8,
    ]
}

/// Big-endian bytes of each word of `ws` in turn.
pub open spec fn words_bytes(ws: Seq<u64>) -> Seq<u8>
    decreases ws.len(),
{
    if ws.len() == 0 {
        seq![]
    } else {
        words_bytes(ws.drop_last()) + be64(ws.last())
    }
}

/// High 64-bit word of a signed 128-bit figure.
pub open spec fn high_word(v: i128) -> u64 {
    ((v as u128) >> 64u128) as u64
}

/// Low 64-bit word of a signed 128-bit figure.
pub open spec fn low_word(v: i128) -> u64 {
    (v as u128) as u64
}

/// One-byte code of a bias.
pub open spec fn bias_code(b: Bias) -> u8 {
    match b {
        Bias::Bullish => 1,
        Bias::Bearish => 2,
        Bias::Neutral => 0,
    }
}

/// One-byte code of an optional status; zero for the absent status.
pub open spec fn status_code(s: Option<TradeStatus>) -> u8 {
    match s {
        Option::None => 0,
        Option::Some(TradeStatus::InZone7) => 1,
        Option::Some(TradeStatus::OutZone5) => 2,
        Option::Some(TradeStatus::PrepareZone1) => 3,
        Option::Some(TradeStatus::InZone3) => 4,
        Option::Some(TradeStatus::PrepareZone1Long) => 5,
        Option::Some(TradeStatus::LongZone3) => 6,
        Option::Some(TradeStatus::TargetZone7) => 7,
        Option::Some(TradeStatus::InZone1) => 8,
        Option::Some(TradeStatus::OutZone3) => 9,
        Option::Some(TradeStatus::PrepareZone7) => 10,
        Option::Some(TradeStatus::InZone5) => 11,
        Option::Some(TradeStatus::PrepareZone7Short) => 12,
        Option::Some(TradeStatus::ShortZone5) => 13,
        Option::Some(TradeStatus::TargetZone1) => 14,
    }
}

/// The fixed-width figures of a snapshot, in their encoded order.
pub open spec fn trade_words(t: Trade) -> Seq<u64> {
    seq![
        t.current_price, t.cma, t.oma,
        t.zone_max, t.zone_7, t.zone_6, t.zone_5, t.zone_4, t.zone_3, t.zone_2, t.zone_1,
        t.zone_min, t.of as u64,
        high_word(t.performance_24), low_word(t.performance_24),
        high_word(t.performance_btc_24), low_word(t.performance_btc_24),
        t.ma_200, t.volume, t.quote_asset_volume, t.number_of_trades,
        t.taker_buy_base_asset_volume, t.taker_buy_quote_asset_volume,
    ]
}

/// Canonical bytes of a snapshot: the symbol's length and UTF-8 bytes, the
/// bias and status codes, then every figure as big-endian words.
pub open spec fn trade_bytes(t: Trade) -> Seq<u8> {
    be64(encode_utf8(t.symbol@).len() as u64) + encode_utf8(t.symbol@) + seq![
        bias_code(t.bias),
        status_code(t.status),
    ] + words_bytes(trade_words(t))
}

/// Bytes that a block's hash is the digest of.
pub open spec fn block_bytes(index: u64, timestamp: u64, t: Trade, previous_hash: Seq<char>) -> Seq<u8> {
    be64(index) + be64(timestamp) + trade_bytes(t) + encode_utf8(previous_hash)
}

/// Hex digest of a block's fields.
pub open spec fn block_hash(index: u64, timestamp: u64, t: Trade, previous_hash: Seq<char>) -> Seq<char> {
    hex_chars(sha256_of(block_bytes(index, timestamp, t, previous_hash)))
}

/// The previous hash of the first block of a chain.
pub open spec fn genesis_hash() -> Seq<char> {
    seq!['0']
}

fn push_word(out: &mut Vec<u8>, v: u64)
    ensures
        final(out)@ == old(out)@ + be64(v),
{
    out.push(((v >> 56u64) & 0xff) as u8);
    out.push(((v >> 48u64) & 0xff) as u8);
    out.push(((v >> 40u64) & 0xff) as u8);
    out.push(((v >> 32u64) & 0xff) as u8);
    out.push(((v >> 24u64) & 0xff) as u8);
    out.push(((v >> 16u64) & 0xff) as u8);
    out.push(((v >> 8u64) & 0xff) as u8);
    out.push((v & 0xff) as u8);
    assert(final(out)@ =~= old(out)@ + be64(v));
}

fn push_bytes(out: &mut Vec<u8>, b: &[u8])
    ensures
        final(out)@ == old(out)@ + b@,
{
    let ghost start = out@;
    let mut i: usize = 0;
    while i < b.len()
        invariant
            i <= b@.len(),
            out@ == start + b@.subrange(0, i as int),
        decreases b@.len() - i,
    {
        out.push(b[i]);
        i = i + 1;
        assert(out@ =~= start + b@.subrange(0, i as int));
    }
    assert(b@.subrange(0, b@.len() as int) =~= b@);
}

fn push_text(out: &mut Vec<u8>, s: &str)
    ensures
        final(out)@ == old(out)@ + encode_utf8(s@),
{
    push_bytes(out, s.as_bytes());
}

fn status_byte(s: Option<TradeStatus>) -> (r: u8)
    ensures
        r == status_code(s),
{
    match s {
        None => 0,
        Some(TradeStatus::InZone7) => 1,
        Some(TradeStatus::OutZone5) => 2,
        Some(TradeStatus::PrepareZone1) => 3,
        Some(TradeStatus::InZone3) => 4,
        Some(TradeStatus::PrepareZone1Long) => 5,
        Some(TradeStatus::LongZone3) => 6,
        Some(TradeStatus::TargetZone7) => 7,
        Some(TradeStatus::InZone1) => 8,
        Some(TradeStatus::OutZone3) => 9,
        Some(TradeStatus::PrepareZone7) => 10,
        Some(TradeStatus::InZone5) => 11,
        Some(TradeStatus::PrepareZone7Short) => 12,
        Some(TradeStatus::ShortZone5) => 13,
        Some(TradeStatus::TargetZone1) => 14,
    }
}

fn words_of(t: &Trade) -> (r: Vec<u64>)
    ensures
        r@ == trade_words(*t),
{
    let r = vec![
        t.current_price, t.cma, t.oma,
        t.zone_max, t.zone_7, t.zone_6, t.zone_5, t.zone_4, t.zone_3, t.zone_2, t.zone_1,
        t.zone_min, t.of as u64,
        ((t.performance_24 as u128) >> 64u128) as u64, (t.performance_24 as u128) as u64,
        ((t.performance_btc_24 as u128) >> 64u128) as u64, (t.performance_btc_24 as u128) as u64,
        t.ma_200, t.volume, t.quote_asset_volume, t.number_of_trades,
        t.taker_buy_base_asset_volume, t.taker_buy_quote_asset_volume,
    ];
    assert(r@ =~= trade_words(*t));
    r
}

/// Appends the canonical bytes of `t`.
fn push_trade(out: &mut Vec<u8>, t: &Trade)
    ensures
        final(out)@ == old(out)@ + trade_bytes(*t),
{
    let ghost start = out@;
    let symbol = t.symbol.as_str();
    let n = symbol.as_bytes().len();
    push_word(out, n as u64);
    push_text(out, symbol);
    let bias: u8 = match t.bias {
        Bias::Bullish => 1,
        Bias::Bearish => 2,
        Bias::Neutral => 0,
    };
    out.push(bias);
    out.push(status_byte(t.status));
    let ghost head = out@;
    let words = words_of(t);
    let mut i: usize = 0;
    while i < words.len()
        invariant
            i <= words@.len(),
            out@ == head + words_bytes(words@.subrange(0, i as int)),
        decreases words@.len() - i,
    {
        assert(words@.subrange(0, i as int + 1).drop_last() =~= words@.subrange(0, i as int));
        push_word(out, words[i]);
        i = i + 1;
        assert(out@ =~= head + words_bytes(words@.subrange(0, i as int)));
    }
    assert(words@.subrange(0, words@.len() as int) =~= words@);
    assert(out@ =~= start + trade_bytes(*t));
}

fn genesis() -> (r: String)
    ensures
        r@ == genesis_hash(),
{
    let r = "0".to_owned();
    proof {
        reveal_strlit("0");
    }
    assert(r@ =~= genesis_hash());
    r
}

/// One entry of a chain: a snapshot with its position, time and hash links.
#[derive(Clone, Debug)]
pub struct TradeBlock {
    pub index: u64,
    pub timestamp: u64,
    pub trade: Trade,
    pub previous_hash: String,
    pub hash: String,
}

/// `b.hash` is the digest of `b`'s own fields.
pub open spec fn hash_matches(b: TradeBlock) -> bool {
    b.hash@ == block_hash(b.index, b.timestamp, b.trade, b.previous_hash@)
}

/// Block `i` of `c` has index `i`, its own digest as hash, and the previous
/// block's hash (the genesis value for the first block) as previous hash.
pub open spec fn block_linked(c: Seq<TradeBlock>, i: int) -> bool {
    &&& c[i].index == i
    &&& hash_matches(c[i])
    &&& c[i].previous_hash@ == if i == 0 {
        genesis_hash()
    } else {
        c[i - 1].hash@
    }
}

/// Every block of `c` is linked.
pub open spec fn chain_valid(c: Seq<TradeBlock>) -> bool {
    forall|i: int| 0 <= i < c.len() ==> #[trigger] block_linked(c, i)
}

impl TradeBlock {
    /// Hex digest of a block's fields: index, timestamp, the snapshot's
    /// canonical bytes and the previous block's hash.
    pub fn calculate_hash(index: u64, timestamp: u64, trade: &Trade, previous_hash: &str) -> (r: String)
        ensures
            r@ == block_hash(index, timestamp, *trade, previous_hash@),
            r@.len() == 64,
    {
        let mut bytes: Vec<u8> = Vec::new();
        push_word(&mut bytes, index);
        push_word(&mut bytes, timestamp);
        push_trade(&mut bytes, trade);
        push_text(&mut bytes, previous_hash);
        assert(bytes@ =~= block_bytes(index, timestamp, *trade, previous_hash@));
        let digest = sha256(&bytes);
        proof {
            lemma_hex_len(digest@);
        }
        hex_encode(&digest)
    }

    /// A field-for-field copy.
    pub fn copied(&self) -> (r: TradeBlock)
        ensures
            r == *self,
    {
        TradeBlock {
            index: self.index,
            timestamp: self.timestamp,
            trade: self.trade.copied(),
            previous_hash: self.previous_hash.clone(),
            hash: self.hash.clone(),
        }
    }

    /// A block holding `trade` at `index`, stamped `timestamp`, linked to
    /// `previous_hash`, with its digest as hash.
    pub fn new(index: u64, timestamp: u64, trade: Trade, previous_hash: String) -> (r: TradeBlock)
        ensures
            r.index == index,
            r.timestamp == timestamp,
            r.trade == trade,
            r.previous_hash == previous_hash,
            hash_matches(r),
    {
        let hash = TradeBlock::calculate_hash(index, timestamp, &trade, previous_hash.as_str());
        TradeBlock { index, timestamp, trade, previous_hash, hash }
    }
}

/// Whether every block of `blocks` is linked: indices count from zero, each
/// hash is the digest of its block, and each previous hash names the block
/// before (the genesis value for the first).
pub fn is_valid_chain(blocks: &[TradeBlock]) -> (r: bool)
    ensures
        r == chain_valid(blocks@),
{
    let mut i: usize = 0;
    while i < blocks.len()
        invariant
            i <= blocks@.len(),
            forall|j: int| 0 <= j < i ==> #[trigger] block_linked(blocks@, j),
        decreases blocks@.len() - i,
    {
        let b = &blocks[i];
        if b.index != i as u64 {
            assert(!block_linked(blocks@, i as int));
            return false;
        }
        let expected_previous = if i == 0 {
            genesis()
        } else {
            blocks[i - 1].hash.clone()
        };
        if b.previous_hash != expected_previous {
            assert(!block_linked(blocks@, i as int));
            return false;
        }
        let recalculated = TradeBlock::calculate_hash(b.index, b.timestamp, &b.trade, b.previous_hash.as_str());
        if b.hash != recalculated {
            assert(!block_linked(blocks@, i as int));
            return false;
        }
        assert(block_linked(blocks@, i as int));
        i = i + 1;
    }
    true
}

/// Whether appending a snapshot of status `s` to `c` adds a block: when `c`
/// is empty or its last snapshot's status differs.
pub open spec fn status_changes(c: Seq<TradeBlock>, s: Option<TradeStatus>) -> bool {
    c.len() == 0 || c.last().trade.status != s
}

/// The append-only chain of snapshots of one symbol.
#[derive(Debug)]
pub struct TradeBlockchain {
    chain: Vec<TradeBlock>,
}

impl View for TradeBlockchain {
    type V = Seq<TradeBlock>;

    closed spec fn view(&self) -> Seq<TradeBlock> {
        self.chain@
    }
}

impl TradeBlockchain {
    /// An empty chain.
    pub fn new() -> (r: TradeBlockchain)
        ensures
            r@ == Seq::<TradeBlock>::empty(),
    {
        TradeBlockchain { chain: Vec::new() }
    }

    /// Appends `trade`, stamped `timestamp`, unless its status equals the
    /// last block's; returns whether a block was added. The new block links
    /// to the last one and carries its own digest.
    pub fn add_block(&mut self, trade: Trade, timestamp: u64) -> (r: bool)
        requires
            chain_valid(old(self)@),
        ensures
            chain_valid(final(self)@),
            r == status_changes(old(self)@, trade.status),
            !r ==> final(self)@ == old(self)@,
            r ==> final(self)@ == old(self)@.push(final(self)@.last()),
            r ==> final(self)@.last().trade == trade,
            r ==> final(self)@.last().timestamp == timestamp,
    {
        let n = self.chain.len();
        if n > 0 && same_status(trade.status, self.chain[n - 1].trade.status) {
            return false;
        }
        let previous_hash = if n > 0 {
            self.chain[n - 1].hash.clone()
        } else {
            genesis()
        };
        let block = TradeBlock::new(n as u64, timestamp, trade, previous_hash);
        let ghost before = self.chain@;
        self.chain.push(block);
        assert forall|i: int| 0 <= i < self.chain@.len() implies #[trigger] block_linked(self.chain@, i) by {
            if i < n {
                assert(block_linked(before, i));
            }
        }
        true
    }

    /// Snapshot of the last block, if any.
    pub fn get_last_trade(&self) -> (r: Option<Trade>)
        ensures
            r == (if self@.len() == 0 {
                None
            } else {
                Some(self@.last().trade)
            }),
    {
        let n = self.chain.len();
        if n == 0 {
            None
        } else {
            Some(self.chain[n - 1].trade.copied())
        }
    }

    /// Recomputes every hash and link of the chain.
    pub fn is_valid(&self) -> (r: bool)
        ensures
            r == chain_valid(self@),
    {
        is_valid_chain(self.chain.as_slice())
    }

    /// The blocks in order.
    pub fn all(&self) -> (r: &[TradeBlock])
        ensures
            r@ == self@,
    {
        self.chain.as_slice()
    }
}

/// Distinct entries of a ledger view have distinct symbols.
pub open spec fn keys_unique(v: Seq<(Seq<char>, Seq<TradeBlock>)>) -> bool {
    forall|i: int, j: int|
        0 <= i < v.len() && 0 <= j < v.len() && i != j ==> #[trigger] v[i].0 != #[trigger] v[j].0
}

/// The invariant of a ledger view: unique symbols, and a non-empty valid
/// chain under each.
pub open spec fn ledger_ok(v: Seq<(Seq<char>, Seq<TradeBlock>)>) -> bool {
    &&& keys_unique(v)
    &&& forall|i: int| 0 <= i < v.len() ==> chain_valid(#[trigger] v[i].1) && v[i].1.len() > 0
}

/// Position of `k` among the symbols of `v`, or -1.
pub open spec fn key_index(v: Seq<(Seq<char>, Seq<TradeBlock>)>, k: Seq<char>) -> int {
    if exists|i: int| 0 <= i < v.len() && #[trigger] v[i].0 == k {
        choose|i: int| 0 <= i < v.len() && #[trigger] v[i].0 == k
    } else {
        -1
    }
}

/// Whether offering snapshot `t` to a ledger view `v` of capacity `cap`
/// adds a block: to a tracked symbol when its status changed, to a new
/// symbol when fewer than `cap` symbols are tracked.
pub open spec fn offer_adds(v: Seq<(Seq<char>, Seq<TradeBlock>)>, cap: nat, t: Trade) -> bool {
    let k = key_index(v, t.symbol@);
    if k >= 0 {
        status_changes(v[k].1, t.status)
    } else {
        v.len() < cap
    }
}

/// With unique symbols, the position of a symbol is where it stands.
pub proof fn lemma_key_index(v: Seq<(Seq<char>, Seq<TradeBlock>)>, k: Seq<char>, i: int)
    requires
        keys_unique(v),
        0 <= i < v.len(),
        v[i].0 == k,
    ensures
        key_index(v, k) == i,
{
}

/// The store of every tracked symbol's chain, with a limit on how many
/// symbols it tracks.
#[derive(Debug)]
pub struct TradeLedger {
    capacity: usize,
    symbols: Vec<String>,
    chains: Vec<TradeBlockchain>,
}

impl View for TradeLedger {
    type V = Seq<(Seq<char>, Seq<TradeBlock>)>;

    closed spec fn view(&self) -> Seq<(Seq<char>, Seq<TradeBlock>)> {
        Seq::new(self.symbols@.len(), |i: int| (self.symbols@[i]@, self.chains@[i]@))
    }
}

impl TradeLedger {
    /// Most symbols that the ledger tracks at once.
    pub closed spec fn limit(&self) -> nat {
        self.capacity as nat
    }

    /// The symbol list and the chain list line up.
    pub closed spec fn shape_ok(&self) -> bool {
        self.symbols@.len() == self.chains@.len()
    }

    /// The ledger's invariant.
    pub open spec fn well_formed(&self) -> bool {
        self.shape_ok() && ledger_ok(self@)
    }

    /// An empty ledger that tracks at most `capacity` symbols.
    pub fn new(capacity: usize) -> (r: TradeLedger)
        ensures
            r.well_formed(),
            r@ == Seq::<(Seq<char>, Seq<TradeBlock>)>::empty(),
            r.limit() == capacity,
    {
        let r = TradeLedger { capacity, symbols: Vec::new(), chains: Vec::new() };
        assert(r@ =~= Seq::<(Seq<char>, Seq<TradeBlock>)>::empty());
        r
    }

    /// Most symbols that the ledger tracks at once.
    pub fn capacity(&self) -> (r: usize)
        ensures
            r == self.limit(),
    {
        self.capacity
    }

    /// Position of `symbol` among the tracked symbols.
    fn find(&self, symbol: &String) -> (r: Option<usize>)
        requires
            self.well_formed(),
        ensures
            r is Some ==> r->0 == key_index(self@, symbol@) && r->0 < self@.len(),
            r is None ==> key_index(self@, symbol@) == -1,
    {
        let mut i: usize = 0;
        while i < self.symbols.len()
            invariant
                self.well_formed(),
                i <= self@.len(),
                forall|j: int| 0 <= j < i ==> #[trigger] self@[j].0 != symbol@,
            decreases self@.len() - i,
        {
            if self.symbols[i] == *symbol {
                proof {
                    lemma_key_index(self@, symbol@, i as int);
                }
                return Some(i);
            }
            assert(self@[i as int].0 != symbol@);
            i = i + 1;
        }
        assert(!exists|j: int| 0 <= j < self@.len() && #[trigger] self@[j].0 == symbol@);
        None
    }
}

/// Whether the ledger tracks as many symbols as its capacity allows.
pub fn is_blockchain_limit_reached(ledger: &TradeLedger) -> (r: bool)
    ensures
        r == (ledger@.len() >= ledger.limit()),
{
    ledger.symbols.len() >= ledger.capacity
}

/// Drops `symbol`'s whole chain, if it is tracked.
pub fn remove_blockchain(ledger: &mut TradeLedger, symbol: &str)
    requires
        old(ledger).well_formed(),
    ensures
        final(ledger).well_formed(),
        final(ledger).limit() == old(ledger).limit(),
        final(ledger)@ == if key_index(old(ledger)@, symbol@) >= 0 {
            old(ledger)@.remove(key_index(old(ledger)@, symbol@))
        } else {
            old(ledger)@
        },
{
    let key = symbol.to_owned();
    match ledger.find(&key) {
        Some(i) => {
            let ghost before = ledger@;
            ledger.symbols.remove(i);
            ledger.chains.remove(i);
            assert(ledger@ =~= before.remove(i as int));
            assert forall|a: int, b: int|
                0 <= a < ledger@.len() && 0 <= b < ledger@.len() && a != b
                implies #[trigger] ledger@[a].0 != #[trigger] ledger@[b].0 by {
                let a0 = if a < i { a } else { a + 1 };
                let b0 = if b < i { b } else { b + 1 };
                assert(before[a0].0 != before[b0].0);
            }
            assert forall|a: int| 0 <= a < ledger@.len() implies #[trigger] chain_valid(ledger@[a].1)
                && ledger@[a].1.len() > 0 by {
                let a0 = if a < i { a } else { a + 1 };
                assert(chain_valid(before[a0].1));
            }
        },
        None => {},
    }
}

/// The tracked symbols, in the order they were admitted.
pub fn get_current_blockchain_symbols(ledger: &TradeLedger) -> (r: Vec<String>)
    requires
        ledger.well_formed(),
    ensures
        r@.len() == ledger@.len(),
        forall|i: int| 0 <= i < r@.len() ==> #[trigger] r@[i]@ == ledger@[i].0,
{
    let mut r: Vec<String> = Vec::new();
    let mut i: usize = 0;
    while i < ledger.symbols.len()
        invariant
            ledger.well_formed(),
            i <= ledger@.len(),
            r@.len() == i,
            forall|j: int| 0 <= j < i ==> #[trigger] r@[j]@ == ledger@[j].0,
        decreases ledger@.len() - i,
    {
        r.push(ledger.symbols[i].clone());
        i = i + 1;
    }
    r
}

/// The tracked symbols; the same list as [`get_current_blockchain_symbols`].
pub fn get_all_symbols(ledger: &TradeLedger) -> (r: Vec<String>)
    requires
        ledger.well_formed(),
    ensures
        r@.len() == ledger@.len(),
        forall|i: int| 0 <= i < r@.len() ==> #[trigger] r@[i]@ == ledger@[i].0,
{
    get_current_blockchain_symbols(ledger)
}

/// Offers `trade`, stamped `timestamp`, to its symbol's chain. A tracked
/// symbol gets a block when the status changed; an untracked one gets a new
/// chain of one block unless the ledger is full. Returns whether a block was
/// added.
pub fn add_trade_block(ledger: &mut TradeLedger, trade: Trade, timestamp: u64) -> (r: bool)
    requires
        old(ledger).well_formed(),
    ensures
        final(ledger).well_formed(),
        final(ledger).limit() == old(ledger).limit(),
        r == offer_adds(old(ledger)@, old(ledger).limit(), trade),
        !r ==> final(ledger)@ == old(ledger)@,
        r && key_index(old(ledger)@, trade.symbol@) >= 0 ==> ({
            let k = key_index(old(ledger)@, trade.symbol@);
            &&& final(ledger)@ == old(ledger)@.update(k, (trade.symbol@, old(ledger)@[k].1.push(final(ledger)@[k].1.last())))
            &&& final(ledger)@[k].1.last().trade == trade
            &&& final(ledger)@[k].1.last().timestamp == timestamp
        }),
        r && key_index(old(ledger)@, trade.symbol@) < 0 ==> ({
            let b = final(ledger)@.last().1[0];
            &&& final(ledger)@ == old(ledger)@.push((trade.symbol@, seq![b]))
            &&& b.trade == trade
            &&& b.timestamp == timestamp
        }),
{
    let ghost before = ledger@;
    match ledger.find(&trade.symbol) {
        Some(i) => {
            let ghost key = trade.symbol@;
            let mut chain = ledger.chains.remove(i);
            assert(chain@ == before[i as int].1);
            let added = chain.add_block(trade, timestamp);
            ledger.chains.insert(i, chain);
            proof {
                if added {
                    assert(ledger@ =~= before.update(i as int, (key, before[i as int].1.push(ledger@[i as int].1.last()))));
                } else {
                    assert(ledger@ =~= before);
                }
                assert forall|a: int| 0 <= a < ledger@.len() implies #[trigger] chain_valid(ledger@[a].1)
                    && ledger@[a].1.len() > 0 by {
                    if a != i {
                        assert(chain_valid(before[a].1));
                    }
                }
                assert forall|a: int, b: int|
                    0 <= a < ledger@.len() && 0 <= b < ledger@.len() && a != b
                    implies #[trigger] ledger@[a].0 != #[trigger] ledger@[b].0 by {
                    assert(before[a].0 != before[b].0);
                }
            }
            added
        },
        None => {
            if ledger.symbols.len() >= ledger.capacity {
                return false;
            }
            let symbol = trade.symbol.clone();
            let mut chain = TradeBlockchain::new();
            let added = chain.add_block(trade, timestamp);
            assert(added);
            ledger.symbols.push(symbol);
            ledger.chains.push(chain);
            proof {
                let b = chain@[0];
                assert(chain@ =~= seq![b]);
                assert(ledger@ =~= before.push((symbol@, seq![b])));
                assert forall|a: int| 0 <= a < ledger@.len() implies #[trigger] chain_valid(ledger@[a].1)
                    && ledger@[a].1.len() > 0 by {
                    if a < before.len() {
                        assert(chain_valid(before[a].1));
                    }
                }
                assert forall|a: int, b: int|
                    0 <= a < ledger@.len() && 0 <= b < ledger@.len() && a != b
                    implies #[trigger] ledger@[a].0 != #[trigger] ledger@[b].0 by {
                    if a < before.len() && b < before.len() {
                        assert(before[a].0 != before[b].0);
                    } else if a < before.len() {
                        assert(before[a].0 != symbol@);
                    } else {
                        assert(before[b].0 != symbol@);
                    }
                }
            }
            true
        },
    }
}

/// A copy of `symbol`'s chain, if it is tracked.
pub fn get_blockchain_for(ledger: &TradeLedger, symbol: &str) -> (r: Option<Vec<TradeBlock>>)
    requires
        ledger.well_formed(),
    ensures
        key_index(ledger@, symbol@) < 0 ==> r is None,
        key_index(ledger@, symbol@) >= 0 ==> r is Some && r->0@ == ledger@[key_index(ledger@, symbol@)].1,
{
    let key = symbol.to_owned();
    match ledger.find(&key) {
        Some(i) => {
            let blocks = ledger.chains[i].all();
            let mut r: Vec<TradeBlock> = Vec::new();
            let mut j: usize = 0;
            while j < blocks.len()
                invariant
                    j <= blocks@.len(),
                    r@ == blocks@.subrange(0, j as int),
                decreases blocks@.len() - j,
            {
                r.push(blocks[j].copied());
                j = j + 1;
                assert(r@ =~= blocks@.subrange(0, j as int));
            }
            assert(blocks@.subrange(0, blocks@.len() as int) =~= blocks@);
            Some(r)
        },
        None => None,
    }
}

/// The latest snapshot of `symbol`, if it is tracked.
pub fn get_last_trade_for(ledger: &TradeLedger, symbol: &str) -> (r: Option<Trade>)
    requires
        ledger.well_formed(),
    ensures
        r == (if key_index(ledger@, symbol@) >= 0 {
            Some(ledger@[key_index(ledger@, symbol@)].1.last().trade)
        } else {
            None
        }),
{
    let key = symbol.to_owned();
    match ledger.find(&key) {
        Some(i) => {
            assert(ledger@[i as int].1 == ledger.chains@[i as int]@);
            assert(ledger@[i as int].1.len() > 0);
            ledger.chains[i].get_last_trade()
        },
        None => None,
    }
}

/// Whether `symbol`'s chain passes the integrity check, if it is tracked.
pub fn is_chain_valid_for(ledger: &TradeLedger, symbol: &str) -> (r: Option<bool>)
    requires
        ledger.well_formed(),
    ensures
        r == (if key_index(ledger@, symbol@) >= 0 {
            Some(chain_valid(ledger@[key_index(ledger@, symbol@)].1))
        } else {
            None
        }),
{
    let key = symbol.to_owned();
    match ledger.find(&key) {
        Some(i) => Some(ledger.chains[i].is_valid()),
        None => None,
    }
}

/// Chain integrity: every chain of a well-formed ledger (the only kind that
/// `TradeLedger::new`, `add_trade_block` and `remove_blockchain` leave) passes
/// the integrity check that `is_chain_valid_for` runs.
pub proof fn lemma_tracked_chain_valid(ledger: &TradeLedger, symbol: Seq<char>)
    requires
        ledger.well_formed(),
        key_index(ledger@, symbol) >= 0,
    ensures
        chain_valid(ledger@[key_index(ledger@, symbol)].1),
{
    let k = key_index(ledger@, symbol);
    assert(chain_valid(ledger@[k].1));
}

/// Dedup: a snapshot whose status equals that of its symbol's last block
/// adds no block, so the chain keeps its length.
pub proof fn lemma_same_status_adds_nothing(
    v: Seq<(Seq<char>, Seq<TradeBlock>)>,
    cap: nat,
    t: Trade,
)
    requires
        ledger_ok(v),
        key_index(v, t.symbol@) >= 0,
        v[key_index(v, t.symbol@)].1.last().trade.status == t.status,
    ensures
        !offer_adds(v, cap, t),
{
    let k = key_index(v, t.symbol@);
    assert(v[k].1.len() > 0);
}

/// Capacity: with `cap` symbols tracked, a snapshot of an untracked symbol
/// is refused.
pub proof fn lemma_full_ledger_refuses(v: Seq<(Seq<char>, Seq<TradeBlock>)>, cap: nat, t: Trade)
    requires
        v.len() >= cap,
        key_index(v, t.symbol@) < 0,
    ensures
        !offer_adds(v, cap, t),
{
}

/// Capacity: removing one symbol from a ledger that tracks `cap` symbols
/// lets exactly one new symbol in; once it is admitted, a second new symbol
/// is refused.
pub proof fn lemma_removal_frees_one_place(
    v: Seq<(Seq<char>, Seq<TradeBlock>)>,
    cap: nat,
    removed: Seq<char>,
    first: Trade,
    chain: Seq<TradeBlock>,
    second: Trade,
)
    requires
        v.len() == cap,
        key_index(v, removed) >= 0,
        key_index(v.remove(key_index(v, removed)), first.symbol@) < 0,
        key_index(v.remove(key_index(v, removed)).push((first.symbol@, chain)), second.symbol@) < 0,
    ensures
        offer_adds(v.remove(key_index(v, removed)), cap, first),
        !offer_adds(v.remove(key_index(v, removed)).push((first.symbol@, chain)), cap, second),
{
}

} // verus!
