use vstd::prelude::*;
use vstd::utf8::{encode_utf8, encode_utf8_decode_utf8};
use crate::blockchain::{
    be64, bias_code, block_bytes, block_linked, chain_valid, hex_chars, hex_digits, lemma_hex_len,
    high_word, low_word, sha256_of, status_code, trade_words, words_bytes, TradeBlock,
};
use crate::dto::Trade;

verus! {

proof fn lemma_be64_injective(a: u64, b: u64)
    requires
        be64(a) == be64(b),
    ensures
        a == b,
{
    let (x, y) = (be64(a), be64(b));
    assert(x[0] == y[0] && x[1] == y[1] && x[2] == y[2] && x[3] == y[3]);
    assert(x[4] == y[4] && x[5] == y[5] && x[6] == y[6] && x[7] == y[7]);
    assert(a == b) by (bit_vector)
        requires
            ((a >> 56u64) & 0xff) as u8 == ((b >> 56u64) & 0xff) as u8,
            ((a >> 48u64) & 0xff) as u8 == ((b >> 48u64) & 0xff) as u8,
            ((a >> 40u64) & 0xff) as u8 == ((b >> 40u64) & 0xff) as u8,
            ((a >> 32u64) & 0xff) as u8 == ((b >> 32u64) & 0xff) as u8,
            ((a >> 24u64) & 0xff) as u8 == ((b >> 24u64) & 0xff) as u8,
            ((a >> 16u64) & 0xff) as u8 == ((b >> 16u64) & 0xff) as u8,
            ((a >> 8u64) & 0xff) as u8 == ((b >> 8u64) & 0xff) as u8,
            (a & 0xff) as u8 == (b & 0xff) as u8,
    ;
}

proof fn lemma_halves_injective(a: i128, b: i128)
    requires
        high_word(a) == high_word(b),
        low_word(a) == low_word(b),
    ensures
        a == b,
{
    assert(a == b) by (bit_vector)
        requires
            ((a as u128) >> 64u128) as u64 == ((b as u128) >> 64u128) as u64,
            (a as u128) as u64 == (b as u128) as u64,
    ;
}

proof fn lemma_hex_digit_injective(a: int, b: int)
    requires
        0 <= a < 16,
        0 <= b < 16,
        hex_digits()[a] == hex_digits()[b],
    ensures
        a == b,
{
    let d = hex_digits();
    assert(d[0] == '0' && d[1] == '1' && d[2] == '2' && d[3] == '3' && d[4] == '4' && d[5] == '5');
    assert(d[6] == '6' && d[7] == '7' && d[8] == '8' && d[9] == '9' && d[10] == 'a' && d[11] == 'b');
    assert(d[12] == 'c' && d[13] == 'd' && d[14] == 'e' && d[15] == 'f');
}

/// Two sequences that concatenate to the same sequence, with first parts of
/// equal length, are equal part by part.
proof fn lemma_split<A>(a: Seq<A>, b: Seq<A>, c: Seq<A>, d: Seq<A>)
    requires
        a + b == c + d,
        a.len() == c.len(),
    ensures
        a == c,
        b == d,
{
    assert(a =~= (a + b).subrange(0, a.len() as int));
    assert(c =~= (c + d).subrange(0, c.len() as int));
    assert(b =~= (a + b).subrange(a.len() as int, (a + b).len() as int));
    assert(d =~= (c + d).subrange(c.len() as int, (c + d).len() as int));
}

proof fn lemma_hex_injective(x: Seq<u8>, y: Seq<u8>)
    requires
        hex_chars(x) == hex_chars(y),
    ensures
        x == y,
    decreases x.len(),
{
    lemma_hex_len(x);
    lemma_hex_len(y);
    if x.len() > 0 {
        let (hx, hy) = (hex_chars(x.drop_last()), hex_chars(y.drop_last()));
        lemma_hex_len(x.drop_last());
        lemma_hex_len(y.drop_last());
        let tx = seq![hex_digits()[x.last() as int / 16], hex_digits()[x.last() as int % 16]];
        let ty = seq![hex_digits()[y.last() as int / 16], hex_digits()[y.last() as int % 16]];
        lemma_split(hx, tx, hy, ty);
        assert(tx[0] == ty[0] && tx[1] == ty[1]);
        lemma_hex_digit_injective(x.last() as int / 16, y.last() as int / 16);
        lemma_hex_digit_injective(x.last() as int % 16, y.last() as int % 16);
        lemma_hex_injective(x.drop_last(), y.drop_last());
        assert(x =~= x.drop_last().push(x.last()));
        assert(y =~= y.drop_last().push(y.last()));
    } else {
        assert(x =~= y);
    }
}

proof fn lemma_words_len(w: Seq<u64>)
    ensures
        words_bytes(w).len() == 8 * w.len(),
    decreases w.len(),
{
    if w.len() > 0 {
        lemma_words_len(w.drop_last());
    }
}

proof fn lemma_words_injective(v: Seq<u64>, w: Seq<u64>)
    requires
        v.len() == w.len(),
        words_bytes(v) == words_bytes(w),
    ensures
        v == w,
    decreases v.len(),
{
    if v.len() > 0 {
        lemma_words_len(v.drop_last());
        lemma_words_len(w.drop_last());
        lemma_split(words_bytes(v.drop_last()), be64(v.last()), words_bytes(w.drop_last()), be64(w.last()));
        lemma_be64_injective(v.last(), w.last());
        lemma_words_injective(v.drop_last(), w.drop_last());
        assert(v =~= v.drop_last().push(v.last()));
        assert(w =~= w.drop_last().push(w.last()));
    } else {
        assert(v =~= w);
    }
}

/// Two snapshots agree on every field, their symbols as text.
pub open spec fn same_trade(x: Trade, y: Trade) -> bool {
    &&& x.symbol@ == y.symbol@
    &&& x.current_price == y.current_price && x.cma == y.cma && x.oma == y.oma
    &&& x.bias == y.bias && x.status == y.status
    &&& x.zone_max == y.zone_max && x.zone_7 == y.zone_7 && x.zone_6 == y.zone_6
    &&& x.zone_5 == y.zone_5 && x.zone_4 == y.zone_4 && x.zone_3 == y.zone_3
    &&& x.zone_2 == y.zone_2 && x.zone_1 == y.zone_1 && x.zone_min == y.zone_min
    &&& x.of == y.of
    &&& x.performance_24 == y.performance_24 && x.performance_btc_24 == y.performance_btc_24
    &&& x.ma_200 == y.ma_200 && x.volume == y.volume && x.quote_asset_volume == y.quote_asset_volume
    &&& x.number_of_trades == y.number_of_trades
    &&& x.taker_buy_base_asset_volume == y.taker_buy_base_asset_volume
    &&& x.taker_buy_quote_asset_volume == y.taker_buy_quote_asset_volume
}

/// Two blocks agree on every field that their hash covers.
pub open spec fn same_content(a: TradeBlock, b: TradeBlock) -> bool {
    &&& a.index == b.index
    &&& a.timestamp == b.timestamp
    &&& same_trade(a.trade, b.trade)
    &&& a.previous_hash@ == b.previous_hash@
}

/// The bytes of a block's symbol have a length that fits in 64 bits, as
/// that of any string in memory does.
pub open spec fn symbol_fits(b: TradeBlock) -> bool {
    encode_utf8(b.trade.symbol@).len() <= u64::MAX
}

proof fn lemma_codes_injective(x: Trade, y: Trade)
    requires
        bias_code(x.bias) == bias_code(y.bias),
        status_code(x.status) == status_code(y.status),
    ensures
        x.bias == y.bias,
        x.status == y.status,
{
}

/// The bytes that a block's hash covers determine its content.
proof fn lemma_block_bytes_injective(a: TradeBlock, b: TradeBlock)
    requires
        symbol_fits(a),
        symbol_fits(b),
        block_bytes(a.index, a.timestamp, a.trade, a.previous_hash@) == block_bytes(
            b.index,
            b.timestamp,
            b.trade,
            b.previous_hash@,
        ),
    ensures
        same_content(a, b),
{
    let (x, y) = (a.trade, b.trade);
    let (sx, sy) = (encode_utf8(x.symbol@), encode_utf8(y.symbol@));
    let (cx, cy) = (seq![bias_code(x.bias), status_code(x.status)], seq![bias_code(y.bias), status_code(y.status)]);
    let (wx, wy) = (words_bytes(trade_words(x)), words_bytes(trade_words(y)));
    let (px, py) = (encode_utf8(a.previous_hash@), encode_utf8(b.previous_hash@));
    let (lx, ly) = (be64(sx.len() as u64), be64(sy.len() as u64));
    assert(block_bytes(a.index, a.timestamp, x, a.previous_hash@) =~= be64(a.index) + (be64(a.timestamp) + (lx + (sx + (cx + (wx + px))))));
    assert(block_bytes(b.index, b.timestamp, y, b.previous_hash@) =~= be64(b.index) + (be64(b.timestamp) + (ly + (sy + (cy + (wy + py))))));
    lemma_split(be64(a.index), be64(a.timestamp) + (lx + (sx + (cx + (wx + px)))), be64(b.index), be64(b.timestamp) + (ly + (sy + (cy + (wy + py)))));
    lemma_be64_injective(a.index, b.index);
    lemma_split(be64(a.timestamp), lx + (sx + (cx + (wx + px))), be64(b.timestamp), ly + (sy + (cy + (wy + py))));
    lemma_be64_injective(a.timestamp, b.timestamp);
    lemma_split(lx, sx + (cx + (wx + px)), ly, sy + (cy + (wy + py)));
    lemma_be64_injective(sx.len() as u64, sy.len() as u64);
    lemma_split(sx, cx + (wx + px), sy, cy + (wy + py));
    encode_utf8_decode_utf8(x.symbol@);
    encode_utf8_decode_utf8(y.symbol@);
    lemma_split(cx, wx + px, cy, wy + py);
    assert(cx[0] == cy[0] && cx[1] == cy[1]);
    lemma_codes_injective(x, y);
    lemma_words_len(trade_words(x));
    lemma_words_len(trade_words(y));
    lemma_split(wx, px, wy, py);
    encode_utf8_decode_utf8(a.previous_hash@);
    encode_utf8_decode_utf8(b.previous_hash@);
    lemma_words_injective(trade_words(x), trade_words(y));
    let (tx, ty) = (trade_words(x), trade_words(y));
    assert(tx[13] == ty[13] && tx[14] == ty[14] && tx[15] == ty[15] && tx[16] == ty[16]);
    lemma_halves_injective(x.performance_24, y.performance_24);
    lemma_halves_injective(x.performance_btc_24, y.performance_btc_24);
    assert(tx[12] == ty[12]);
}

/// Tamper evidence: replacing a block other than the last of a valid chain
/// leaves the chain valid only if the new block has the old one's content and
/// hash text, or if two different byte strings share a SHA-256 digest.
pub proof fn lemma_tampering_detected(c: Seq<TradeBlock>, i: int, b: TradeBlock)
    requires
        chain_valid(c),
        0 <= i < c.len() - 1,
        chain_valid(c.update(i, b)),
        symbol_fits(b),
        symbol_fits(c[i]),
    ensures
        (same_content(b, c[i]) && b.hash@ == c[i].hash@) || ({
            let x = block_bytes(b.index, b.timestamp, b.trade, b.previous_hash@);
            let y = block_bytes(c[i].index, c[i].timestamp, c[i].trade, c[i].previous_hash@);
            x != y && sha256_of(x) == sha256_of(y)
        }),
{
    let d = c.update(i, b);
    assert(block_linked(c, i + 1));
    assert(block_linked(d, i + 1));
    assert(block_linked(c, i));
    assert(block_linked(d, i));
    assert(b.hash@ == c[i].hash@);
    let x = block_bytes(b.index, b.timestamp, b.trade, b.previous_hash@);
    let y = block_bytes(c[i].index, c[i].timestamp, c[i].trade, c[i].previous_hash@);
    lemma_hex_injective(sha256_of(x), sha256_of(y));
    if x == y {
        lemma_block_bytes_injective(b, c[i]);
    }
}

/// Tamper evidence for any block, the first and the last included: if block
/// `i` of a valid chain is replaced by `b` whose stored fields were changed
/// without recomputing its hash (so either `b` keeps the old hash text, or
/// only the hash text changed), the chain stays valid only if nothing
/// changed, or if two different byte strings share a SHA-256 digest.
pub proof fn lemma_field_tampering_detected(c: Seq<TradeBlock>, i: int, b: TradeBlock)
    requires
        chain_valid(c),
        0 <= i < c.len(),
        chain_valid(c.update(i, b)),
        b.hash@ == c[i].hash@ || same_content(b, c[i]),
        symbol_fits(b),
        symbol_fits(c[i]),
    ensures
        (same_content(b, c[i]) && b.hash@ == c[i].hash@) || ({
            let x = block_bytes(b.index, b.timestamp, b.trade, b.previous_hash@);
            let y = block_bytes(c[i].index, c[i].timestamp, c[i].trade, c[i].previous_hash@);
            x != y && sha256_of(x) == sha256_of(y)
        }),
{
    let d = c.update(i, b);
    assert(block_linked(c, i));
    assert(block_linked(d, i));
    let x = block_bytes(b.index, b.timestamp, b.trade, b.previous_hash@);
    let y = block_bytes(c[i].index, c[i].timestamp, c[i].trade, c[i].previous_hash@);
    if same_content(b, c[i]) {
        assert(x == y);
    } else {
        lemma_hex_injective(sha256_of(x), sha256_of(y));
        if x == y {
            lemma_block_bytes_injective(b, c[i]);
        }
    }
}

} // verus!
