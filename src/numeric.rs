use vstd::prelude::*;
use vstd::string::StrSliceExecFns;

verus! {

/// `r` is the integer square root of `n`, rounded down.
pub open spec fn is_floor_sqrt(r: int, n: int) -> bool {
    0 <= r && r * r <= n && n < (r + 1) * (r + 1)
}

/// Integer square root of `n`, rounded down.
pub fn floor_sqrt(n: u128) -> (r: u64)
    ensures
        is_floor_sqrt(r as int, n as int),
{
    let mut lo: u128 = 0;
    let mut hi: u128 = 0x1_0000_0000_0000_0000;
    assert(n < hi * hi) by (nonlinear_arith)
        requires
            hi == 0x1_0000_0000_0000_0000u128,
            n <= 0xffff_ffff_ffff_ffff_ffff_ffff_ffff_ffffu128,
    ;
    while hi - lo > 1
        invariant
            lo < hi <= 0x1_0000_0000_0000_0000u128,
            lo * lo <= n,
            n < hi * hi,
        decreases hi - lo,
    {
        let mid = lo + (hi - lo) / 2;
        assert(mid * mid <= 0xffff_ffff_ffff_fffe_0000_0000_0000_0001u128) by (nonlinear_arith)
            requires
                mid < 0x1_0000_0000_0000_0000u128,
        ;
        if mid * mid <= n {
            lo = mid;
        } else {
            hi = mid;
        }
    }
    lo as u64
}

/// The floor square root of a product lies between its two factors.
pub proof fn lemma_floor_sqrt_between(a: int, b: int, r: int)
    requires
        0 <= a <= b,
        is_floor_sqrt(r, a * b),
    ensures
        a <= r <= b,
{
    assert(a * a <= a * b) by (nonlinear_arith)
        requires
            0 <= a <= b,
    ;
    assert(a * b <= b * b) by (nonlinear_arith)
        requires
            0 <= a <= b,
    ;
    if r < a {
        assert((r + 1) * (r + 1) <= a * a) by (nonlinear_arith)
            requires
                0 <= r,
                r + 1 <= a,
        ;
    }
    if r > b {
        assert(b * b < r * r) by (nonlinear_arith)
            requires
                0 <= b,
                b < r,
        ;
    }
}

/// Geometric midpoint of two fixed-point prices: the floor square root of
/// their product, which is the midpoint of the two in log space.
pub fn geometric_mid(a: u64, b: u64) -> (r: u64)
    ensures
        is_floor_sqrt(r as int, a * b),
{
    assert((a as int) * (b as int) <= 0xffff_ffff_ffff_fffe_0000_0000_0000_0001u128) by (nonlinear_arith)
        requires
            a <= 0xffff_ffff_ffff_ffffu64,
            b <= 0xffff_ffff_ffff_ffffu64,
    ;
    let p: u128 = (a as u128) * (b as u128);
    floor_sqrt(p)
}

/// `c` is an ASCII decimal digit.
pub open spec fn is_digit(c: char) -> bool {
    '0' <= c && c <= '9'
}

/// Value of the digit `c`.
pub open spec fn digit_of(c: char) -> int {
    (c as u32) as int - 48
}

/// Value of a run of decimal digits.
pub open spec fn digits_value(s: Seq<char>) -> int
    decreases s.len(),
{
    if s.len() == 0 {
        0
    } else {
        digits_value(s.drop_last()) * 10 + digit_of(s.last())
    }
}

/// Every character of `s` is a digit.
pub open spec fn all_digits(s: Seq<char>) -> bool {
    forall|i: int| 0 <= i < s.len() ==> #[trigger] is_digit(s[i])
}

/// Ten to the power `n`.
pub open spec fn pow10(n: nat) -> int
    decreases n,
{
    if n == 0 {
        1
    } else {
        10 * pow10((n - 1) as nat)
    }
}

/// `s` starts with exactly `k` digits.
pub open spec fn is_digit_run(s: Seq<char>, k: int) -> bool {
    &&& 0 <= k <= s.len()
    &&& all_digits(s.take(k))
    &&& (k == s.len() || !is_digit(s[k]))
}

/// Fixed-point value (eight decimals) of an unsigned decimal text: one to
/// twenty whole digits, then optionally a '.' and at most eight fraction
/// digits.
pub open spec fn unsigned_value(s: Seq<char>) -> Option<int> {
    let k = choose|k: int| is_digit_run(s, k);
    if k == 0 || k > 20 {
        None
    } else if k == s.len() {
        Some(digits_value(s) * 100000000)
    } else if s[k] == '.' && all_digits(s.skip(k + 1)) && s.len() - (k + 1) <= 8 {
        Some(digits_value(s.take(k)) * 100000000 + digits_value(s.skip(k + 1)) * pow10(
            (8 - (s.len() - (k + 1))) as nat,
        ))
    } else {
        None
    }
}

/// Fixed-point value (eight decimals) of a decimal text with an optional
/// leading '-'.
pub open spec fn decimal_value(s: Seq<char>) -> Option<int> {
    let negative = s.len() > 0 && s[0] == '-';
    let body = if negative {
        s.skip(1)
    } else {
        s
    };
    match unsigned_value(body) {
        Option::Some(v) => Some(
            if negative {
                -v
            } else {
                v
            },
        ),
        Option::None => None,
    }
}

proof fn lemma_digits_bound(s: Seq<char>)
    requires
        all_digits(s),
    ensures
        0 <= digits_value(s) < pow10(s.len()),
    decreases s.len(),
{
    if s.len() > 0 {
        let t = s.drop_last();
        assert(all_digits(t)) by {
            assert forall|i: int| 0 <= i < t.len() implies #[trigger] is_digit(t[i]) by {
                assert(is_digit(s[i]));
            }
        }
        lemma_digits_bound(t);
        assert(is_digit(s[s.len() - 1]));
        assert(0 <= digit_of(s.last()) <= 9);
    }
}

proof fn lemma_digit_run_unique(s: Seq<char>, k: int)
    requires
        is_digit_run(s, k),
    ensures
        (choose|j: int| is_digit_run(s, j)) == k,
{
    let j = choose|j: int| is_digit_run(s, j);
    if j < k {
        assert(is_digit(s.take(k)[j]));
    }
    if k < j {
        assert(is_digit(s.take(j)[k]));
    }
}

fn char_digit(c: char) -> (r: Option<u8>)
    ensures
        is_digit(c) == r is Some,
        r is Some ==> r->0 as int == digit_of(c) && r->0 <= 9,
{
    if c >= '0' && c <= '9' {
        Some((c as u32 - 48) as u8)
    } else {
        None
    }
}

/// Reads the digits of `s@[from..to]` as a number below `10^(to - from)`.
fn read_digits(s: &str, from: usize, to: usize) -> (r: u128)
    requires
        from <= to <= s@.len(),
        to - from <= 20,
        all_digits(s@.subrange(from as int, to as int)),
    ensures
        r == digits_value(s@.subrange(from as int, to as int)),
{
    let mut v: u128 = 0;
    let mut i: usize = from;
    proof {
        lemma_digits_bound(s@.subrange(from as int, to as int));
    }
    while i < to
        invariant
            from <= i <= to <= s@.len(),
            to - from <= 20,
            all_digits(s@.subrange(from as int, to as int)),
            v == digits_value(s@.subrange(from as int, i as int)),
        decreases to - i,
    {
        let ghost pre = s@.subrange(from as int, i as int + 1);
        assert(pre.drop_last() =~= s@.subrange(from as int, i as int));
        assert(pre =~= s@.subrange(from as int, to as int).take(i - from + 1));
        assert(all_digits(pre)) by {
            assert forall|j: int| 0 <= j < pre.len() implies #[trigger] is_digit(pre[j]) by {
                assert(is_digit(s@.subrange(from as int, to as int)[j]));
            }
        }
        proof {
            lemma_digits_bound(pre);
            lemma_pow10_20(pre.len());
        }
        let c = s.get_char(i);
        assert(c == pre.last());
        let d = char_digit(c);
        assert(d is Some);
        v = v * 10 + d.unwrap() as u128;
        i = i + 1;
    }
    v
}

proof fn lemma_pow10_pos(n: nat)
    ensures
        pow10(n) >= 1,
    decreases n,
{
    if n > 0 {
        lemma_pow10_pos((n - 1) as nat);
    }
}

proof fn lemma_pow10_le(n: nat, m: nat)
    requires
        n <= m,
    ensures
        1 <= pow10(n) <= pow10(m),
    decreases m,
{
    lemma_pow10_pos(n);
    if n < m {
        lemma_pow10_le(n, (m - 1) as nat);
        lemma_pow10_pos((m - 1) as nat);
    }
}

proof fn lemma_pow10_20(n: nat)
    requires
        n <= 20,
    ensures
        pow10(n) <= 100000000000000000000,
        n <= 8 ==> pow10(n) <= 100000000,
        pow10(n) >= 1,
{
    reveal_with_fuel(pow10, 21);
    lemma_pow10_le(n, 20);
    if n <= 8 {
        lemma_pow10_le(n, 8);
    }
}

/// Fixed-point value (eight decimals) of a decimal text such as "0.00120000"
/// or "-3.5"; `None` when the text is not of that form.
pub fn parse_decimal(s: &str) -> (r: Option<i128>)
    ensures
        match r {
            Some(v) => decimal_value(s@) == Some(v as int),
            None => decimal_value(s@) is None,
        },
{
    let n = s.unicode_len();
    let negative = n > 0 && s.get_char(0) == '-';
    let start: usize = if negative {
        1
    } else {
        0
    };
    let ghost body = s@.skip(start as int);
    assert(body =~= if negative { s@.skip(1) } else { s@ });
    let mut i: usize = start;
    while i < n && char_digit(s.get_char(i)).is_some()
        invariant
            start <= i <= n,
            n == s@.len(),
            all_digits(s@.subrange(start as int, i as int)),
        decreases n - i,
    {
        proof {
            let next = s@.subrange(start as int, i as int + 1);
            assert forall|j: int| 0 <= j < next.len() implies #[trigger] is_digit(next[j]) by {
                if j < i - start {
                    assert(is_digit(s@.subrange(start as int, i as int)[j]));
                }
            }
        }
        i = i + 1;
    }
    let k: usize = i - start;
    proof {
        assert(body.take(k as int) =~= s@.subrange(start as int, i as int));
        assert(is_digit_run(body, k as int));
        lemma_digit_run_unique(body, k as int);
    }
    if k == 0 || k > 20 {
        return None;
    }
    let whole = read_digits(s, start, i);
    assert(s@.subrange(start as int, i as int) =~= body.take(k as int));
    let value: u128 = if i == n {
        assert(body.take(k as int) =~= body);
        proof {
            lemma_digits_bound(body);
            lemma_pow10_20(k as nat);
        }
        whole * 100000000
    } else {
        if s.get_char(i) != '.' {
            return None;
        }
        assert(unsigned_value(body) is None ==> decimal_value(s@) is None);
        assert(body[k as int] == '.');
        let frac_len: usize = n - (i + 1);
        if frac_len > 8 {
            return None;
        }
        let mut j: usize = i + 1;
        while j < n
            invariant
                i + 1 <= j <= n,
                n == s@.len(),
                start <= i,
                body == s@.skip(start as int),
                start + k == i,
                0 < k <= 20,
                (choose|x: int| is_digit_run(body, x)) == k as int,
                body[k as int] == '.',
                unsigned_value(body) is None ==> decimal_value(s@) is None,
                all_digits(s@.subrange(i as int + 1, j as int)),
            decreases n - j,
        {
            if char_digit(s.get_char(j)).is_none() {
                assert(!all_digits(body.skip(k as int + 1))) by {
                    let x = j - (i + 1);
                    assert(body.len() == n - start);
                    assert(body.skip(k as int + 1)[x] == body[k + 1 + x]);
                    assert(body[k + 1 + x] == s@[j as int]);
                    assert(!is_digit(body.skip(k as int + 1)[x]));
                }
                return None;
            }
            proof {
                let next = s@.subrange(i as int + 1, j as int + 1);
                assert forall|x: int| 0 <= x < next.len() implies #[trigger] is_digit(next[x]) by {
                    if x < j - (i + 1) {
                        assert(is_digit(s@.subrange(i as int + 1, j as int)[x]));
                    }
                }
            }
            j = j + 1;
        }
        assert(s@.subrange(i as int + 1, n as int) =~= body.skip(k as int + 1));
        let frac = read_digits(s, i + 1, n);
        let mut scale: u128 = 1;
        let mut m: usize = frac_len;
        while m < 8
            invariant
                frac_len <= m <= 8,
                scale == pow10((m - frac_len) as nat),
            decreases 8 - m,
        {
            proof {
                lemma_pow10_20((m - frac_len) as nat);
            }
            scale = scale * 10;
            m = m + 1;
        }
        proof {
            lemma_digits_bound(body.take(k as int));
            lemma_pow10_20(k as nat);
            lemma_digits_bound(body.skip(k as int + 1));
            lemma_pow10_20(frac_len as nat);
            lemma_pow10_20((8 - frac_len) as nat);
            assert(whole * 100000000 <= 100000000000000000000 * 100000000) by (nonlinear_arith)
                requires
                    whole <= 100000000000000000000u128,
            ;
            assert(frac * scale <= 100000000 * 100000000) by (nonlinear_arith)
                requires
                    frac <= 100000000u128,
                    scale <= 100000000u128,
            ;
        }
        whole * 100000000 + frac * scale
    };
    proof {
        assert(unsigned_value(body) == Some(value as int));
    }
    if negative {
        Some(-(value as i128))
    } else {
        Some(value as i128)
    }
}

} // verus!
