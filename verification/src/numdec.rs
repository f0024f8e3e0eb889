//! Exact decimal numbers.
//!
//! The language is untyped: numbers are texts such as `-12`, `2.5` or
//! `0.125`. This module gives them an exact model — a sign, an integer
//! mantissa and a decimal scale, so that the value is
//! `(-1)^neg * mant / 10^scale` — and verified parsing, rendering,
//! arithmetic and comparison over that model. Results are kept exact;
//! only division truncates, after a fixed number of fractional digits.
//! Mantissas above the cap and scales above the cap are rejected at
//! parse time.

use vstd::prelude::*;

verus! {

/// The largest mantissa a numeric literal may carry (sixteen digits).
pub const MANT_CAP: u128 = 9999999999999999;

/// The largest number of fractional digits a numeric literal may carry.
pub const SCALE_CAP: u32 = 15;

/// How many fractional digits a division computes before truncating.
pub const DIV_FRAC_DIGITS: u32 = 16;

/// An exact decimal: `(-1)^neg * mant / 10^scale`.
#[derive(Debug, Clone, Copy, PartialEq, Eq, Structural)]
pub struct Dec {
    pub neg: bool,
    pub mant: u128,
    pub scale: u32,
}

pub open spec fn spec_is_digit(c: char) -> bool {
    '0' <= c && c <= '9'
}

pub open spec fn spec_digit_val(c: char) -> nat {
    (c as nat - '0' as nat) as nat
}

/// The scanner state while reading a numeric literal.
pub struct DecScanV {
    /// Still at the very first character, where a sign may stand.
    pub first: bool,
    pub neg: bool,
    pub seen_dot: bool,
    pub any_digit: bool,
    pub mant: nat,
    pub scale: nat,
    pub ok: bool,
}

pub open spec fn initial_dec_scan() -> DecScanV {
    DecScanV {
        first: true,
        neg: false,
        seen_dot: false,
        any_digit: false,
        mant: 0,
        scale: 0,
        ok: true,
    }
}

/// One character of a numeric literal.
pub open spec fn spec_dec_step(st: DecScanV, c: char) -> DecScanV {
    if !st.ok {
        st
    } else if st.first && (c == '+' || c == '-') {
        DecScanV { first: false, neg: c == '-', ..st }
    } else if spec_is_digit(c) {
        let mant = st.mant * 10 + spec_digit_val(c);
        let scale = if st.seen_dot {
            st.scale + 1
        } else {
            st.scale
        };
        if mant > MANT_CAP as nat || scale > SCALE_CAP as nat {
            DecScanV { ok: false, ..st }
        } else {
            DecScanV { first: false, any_digit: true, mant, scale, ..st }
        }
    } else if c == '.' {
        if st.seen_dot {
            DecScanV { ok: false, ..st }
        } else {
            DecScanV { first: false, seen_dot: true, ..st }
        }
    } else {
        DecScanV { ok: false, ..st }
    }
}

pub open spec fn spec_dec_scan(st: DecScanV, s: Seq<char>) -> DecScanV
    decreases s.len(),
{
    if s.len() == 0 {
        st
    } else {
        spec_dec_scan(spec_dec_step(st, s[0]), s.drop_first())
    }
}

/// What a character sequence denotes as a numeric literal, if anything.
pub open spec fn spec_parse_dec(s: Seq<char>) -> Option<Dec> {
    let st = spec_dec_scan(initial_dec_scan(), s);
    if st.ok && st.any_digit {
        Some(Dec { neg: st.neg, mant: st.mant as u128, scale: st.scale as u32 })
    } else {
        None
    }
}

pub fn is_digit(c: char) -> (r: bool)
    ensures
        r == spec_is_digit(c),
{
    '0' <= c && c <= '9'
}

pub fn digit_val(c: char) -> (r: u32)
    requires
        spec_is_digit(c),
    ensures
        r as nat == spec_digit_val(c),
{
    (c as u32) - ('0' as u32)
}

/// The numeric literal denoted by the characters, if they denote one.
pub fn parse_dec(s: &Vec<char>) -> (r: Option<Dec>)
    ensures
        r == spec_parse_dec(s@),
        r is Some ==> dec_in_range(r->0),
{
    let mut first: bool = true;
    let mut neg: bool = false;
    let mut seen_dot: bool = false;
    let mut any_digit: bool = false;
    let mut mant: u128 = 0;
    let mut scale: u32 = 0;
    let mut ok: bool = true;
    let n = s.len();
    let mut i: usize = 0;
    proof {
        assert(s@.subrange(0, 0) =~= Seq::<char>::empty());
    }
    while i < n
        invariant
            i <= n,
            n == s@.len(),
            mant <= MANT_CAP,
            scale <= SCALE_CAP,
            spec_dec_scan(initial_dec_scan(), s@.subrange(0, i as int)) == (DecScanV {
                first,
                neg,
                seen_dot,
                any_digit,
                mant: mant as nat,
                scale: scale as nat,
                ok,
            }),
        decreases n - i,
    {
        let ghost pre = s@.subrange(0, i as int);
        let ghost stv = spec_dec_scan(initial_dec_scan(), pre);
        let c = s[i];
        if ok {
            if first && (c == '+' || c == '-') {
                first = false;
                neg = c == '-';
            } else if is_digit(c) {
                let d = digit_val(c);
                let new_mant: u128 = mant * 10 + (d as u128);
                let new_scale: u32 = if seen_dot {
                    scale + 1
                } else {
                    scale
                };
                if new_mant > MANT_CAP || new_scale > SCALE_CAP {
                    ok = false;
                } else {
                    first = false;
                    any_digit = true;
                    mant = new_mant;
                    scale = new_scale;
                }
            } else if c == '.' {
                if seen_dot {
                    ok = false;
                } else {
                    first = false;
                    seen_dot = true;
                }
            } else {
                ok = false;
            }
        }
        proof {
            let cur = s@.subrange(0, i + 1);
            lemma_scan_snoc(initial_dec_scan(), cur);
            assert(cur.drop_last() =~= pre);
            assert(cur.last() == c);
        }
        i = i + 1;
    }
    proof {
        assert(s@.subrange(0, n as int) =~= s@);
    }
    if ok && any_digit {
        Some(Dec { neg, mant, scale })
    } else {
        None
    }
}

/// A number parsed from source text: mantissa and scale under their caps.
pub open spec fn dec_in_range(d: Dec) -> bool {
    d.mant <= MANT_CAP && d.scale <= SCALE_CAP
}

pub open spec fn pow10(k: nat) -> nat
    decreases k,
{
    if k == 0 {
        1
    } else {
        10 * pow10((k - 1) as nat)
    }
}

pub proof fn lemma_pow10_increases(a: nat, b: nat)
    requires
        a <= b,
    ensures
        pow10(a) <= pow10(b),
    decreases b,
{
    if a < b {
        lemma_pow10_increases(a, (b - 1) as nat);
    }
}

pub proof fn lemma_pow10_31()
    ensures
        pow10(31) == 10000000000000000000000000000000,
        pow10(16) == 10000000000000000,
{
    reveal_with_fuel(pow10, 33);
}

pub proof fn lemma_mul_le(a: nat, b: nat, c: nat, d: nat)
    requires
        a <= b,
        c <= d,
    ensures
        a * c <= b * d,
{
    assert(a * c <= b * d) by (nonlinear_arith)
        requires
            a <= b,
            c <= d,
    ;
}

/// Ten to the given power.
pub fn pow10_u128(k: u32) -> (r: u128)
    requires
        k <= 31,
    ensures
        r as nat == pow10(k as nat),
        r >= 1,
{
    proof {
        lemma_pow10_31();
        lemma_pow10_increases(0, k as nat);
    }
    let mut acc: u128 = 1;
    let mut i: u32 = 0;
    while i < k
        invariant
            i <= k <= 31,
            acc as nat == pow10(i as nat),
        decreases k - i,
    {
        proof {
            lemma_pow10_increases(i as nat, 30);
            lemma_pow10_31();
            assert(pow10(30) * 10 == pow10(31));
        }
        acc = acc * 10;
        i = i + 1;
    }
    acc
}

/// Trailing zero fractional digits removed: the canonical mantissa and
/// scale for the same value.
pub open spec fn spec_strip(m: nat, s: nat) -> (nat, nat)
    decreases s,
{
    if s == 0 || m % 10 != 0 {
        (m, s)
    } else {
        spec_strip(m / 10, (s - 1) as nat)
    }
}

fn strip_zeros(m0: u128, s0: u32) -> (r: (u128, u32))
    ensures
        (r.0 as nat, r.1 as nat) == spec_strip(m0 as nat, s0 as nat),
        r.0 <= m0,
        r.1 <= s0,
{
    let mut m = m0;
    let mut s = s0;
    while s > 0 && m % 10 == 0
        invariant
            m <= m0,
            s <= s0,
            spec_strip(m0 as nat, s0 as nat) == spec_strip(m as nat, s as nat),
        decreases s,
    {
        m = m / 10;
        s = s - 1;
    }
    (m, s)
}

/// The decimal digit characters of a number, most significant first.
pub open spec fn spec_digit_char(n: nat) -> char {
    if n == 0 {
        '0'
    } else if n == 1 {
        '1'
    } else if n == 2 {
        '2'
    } else if n == 3 {
        '3'
    } else if n == 4 {
        '4'
    } else if n == 5 {
        '5'
    } else if n == 6 {
        '6'
    } else if n == 7 {
        '7'
    } else if n == 8 {
        '8'
    } else {
        '9'
    }
}

fn digit_char(n: u128) -> (r: char)
    requires
        n <= 9,
    ensures
        r == spec_digit_char(n as nat),
{
    if n == 0 {
        '0'
    } else if n == 1 {
        '1'
    } else if n == 2 {
        '2'
    } else if n == 3 {
        '3'
    } else if n == 4 {
        '4'
    } else if n == 5 {
        '5'
    } else if n == 6 {
        '6'
    } else if n == 7 {
        '7'
    } else if n == 8 {
        '8'
    } else {
        '9'
    }
}

/// The decimal digits of `n`, most significant first, no leading zeros
/// (a single `0` for zero).
pub open spec fn spec_digits(n: nat) -> Seq<char>
    decreases n,
{
    if n < 10 {
        seq![spec_digit_char(n)]
    } else {
        spec_digits(n / 10).push(spec_digit_char(n % 10))
    }
}

/// Exactly `k` decimal digits of `n`, most significant first, zero padded.
pub open spec fn spec_frac_digits(n: nat, k: nat) -> Seq<char>
    decreases k,
{
    if k == 0 {
        Seq::empty()
    } else {
        spec_frac_digits(n / 10, (k - 1) as nat).push(spec_digit_char(n % 10))
    }
}

fn reverse_chars(v: Vec<char>) -> (r: Vec<char>)
    ensures
        r@ == v@.reverse(),
{
    let mut out: Vec<char> = Vec::new();
    let mut src = v;
    while src.len() > 0
        invariant
            out@.len() + src@.len() == v@.len(),
            forall|j: int| 0 <= j < src@.len() ==> src@[j] == v@[j],
            forall|j: int| 0 <= j < out@.len() ==> out@[j] == v@[v@.len() - 1 - j],
        decreases src@.len(),
    {
        let c = src.pop().unwrap();
        out.push(c);
    }
    proof {
        assert(out@ =~= v@.reverse());
    }
    out
}

/// The decimal digits of `n`, most significant first.
pub fn render_digits(n: u128) -> (r: Vec<char>)
    ensures
        r@ == spec_digits(n as nat),
{
    if n == 0 {
        let mut out: Vec<char> = Vec::new();
        out.push('0');
        proof {
            assert(out@ =~= spec_digits(0));
        }
        return out;
    }
    let mut acc: Vec<char> = Vec::new();
    let mut cur: u128 = n;
    while cur > 0
        invariant
            cur > 0 ==> spec_digits(n as nat) == spec_digits(cur as nat) + acc@.reverse(),
            cur == 0 ==> spec_digits(n as nat) == acc@.reverse(),
        decreases cur,
    {
        let ghost prev = cur;
        let ghost prev_acc = acc@;
        acc.push(digit_char(cur % 10));
        cur = cur / 10;
        proof {
            assert(acc@.reverse() =~= seq![spec_digit_char((prev % 10) as nat)] + prev_acc.reverse());
            if prev >= 10 {
                assert(spec_digits(prev as nat) == spec_digits((prev / 10) as nat).push(
                    spec_digit_char((prev % 10) as nat),
                ));
                assert(spec_digits(cur as nat) + acc@.reverse() =~= spec_digits(prev as nat)
                    + prev_acc.reverse());
            } else {
                assert(spec_digits(prev as nat) == seq![spec_digit_char(prev as nat)]);
                assert(acc@.reverse() =~= spec_digits(prev as nat) + prev_acc.reverse());
            }
        }
    }
    reverse_chars(acc)
}

/// Exactly `k` decimal digits of `n`, most significant first.
pub fn render_frac_digits(n: u128, k: u32) -> (r: Vec<char>)
    ensures
        r@ == spec_frac_digits(n as nat, k as nat),
{
    let mut acc: Vec<char> = Vec::new();
    let mut cur: u128 = n;
    let mut left: u32 = k;
    while left > 0
        invariant
            spec_frac_digits(n as nat, k as nat) == spec_frac_digits(cur as nat, left as nat)
                + acc@.reverse(),
        decreases left,
    {
        let ghost prev = cur;
        let ghost prev_left = left;
        let ghost prev_acc = acc@;
        acc.push(digit_char(cur % 10));
        cur = cur / 10;
        left = left - 1;
        proof {
            assert(acc@.reverse() =~= seq![spec_digit_char((prev % 10) as nat)] + prev_acc.reverse());
            assert(spec_frac_digits(prev as nat, prev_left as nat) == spec_frac_digits(
                cur as nat,
                left as nat,
            ).push(spec_digit_char((prev % 10) as nat)));
            assert(spec_frac_digits(cur as nat, left as nat) + acc@.reverse() =~= spec_frac_digits(
                prev as nat,
                prev_left as nat,
            ) + prev_acc.reverse());
        }
    }
    proof {
        assert(spec_frac_digits(cur as nat, 0) + acc@.reverse() =~= acc@.reverse());
    }
    reverse_chars(acc)
}

/// The canonical text of a decimal: sign, integer digits, and — when
/// fractional digits remain after stripping trailing zeros — a point and
/// exactly the remaining fractional digits.
pub open spec fn spec_render_dec(d: Dec) -> Seq<char> {
    let (m, s) = spec_strip(d.mant as nat, d.scale as nat);
    let sign: Seq<char> = if d.neg && m > 0 {
        seq!['-']
    } else {
        Seq::empty()
    };
    if s == 0 {
        sign + spec_digits(m)
    } else {
        sign + spec_digits(m / pow10(s)) + seq!['.'] + spec_frac_digits(m % pow10(s), s)
    }
}

/// The canonical text of a decimal.
pub fn render_dec(d: Dec) -> (r: Vec<char>)
    requires
        d.scale <= 31,
    ensures
        r@ == spec_render_dec(d),
{
    let (m, s) = strip_zeros(d.mant, d.scale);
    let mut out: Vec<char> = Vec::new();
    if d.neg && m > 0 {
        out.push('-');
    }
    if s == 0 {
        let ds = render_digits(m);
        let mut i: usize = 0;
        while i < ds.len()
            invariant
                i <= ds@.len(),
                out@ == (if d.neg && m > 0 {
                    seq!['-']
                } else {
                    Seq::<char>::empty()
                }) + ds@.subrange(0, i as int),
            decreases ds@.len() - i,
        {
            out.push(ds[i]);
            proof {
                assert(ds@.subrange(0, i + 1) =~= ds@.subrange(0, i as int).push(ds@[i as int]));
            }
            i = i + 1;
        }
        proof {
            assert(ds@.subrange(0, ds@.len() as int) =~= ds@);
            assert(out@ =~= spec_render_dec(d));
        }
        out
    } else {
        let p = pow10_u128(s);
        let ip = render_digits(m / p);
        let fp = render_frac_digits(m % p, s);
        let mut i: usize = 0;
        while i < ip.len()
            invariant
                i <= ip@.len(),
                out@ == (if d.neg && m > 0 {
                    seq!['-']
                } else {
                    Seq::<char>::empty()
                }) + ip@.subrange(0, i as int),
            decreases ip@.len() - i,
        {
            out.push(ip[i]);
            proof {
                assert(ip@.subrange(0, i + 1) =~= ip@.subrange(0, i as int).push(ip@[i as int]));
            }
            i = i + 1;
        }
        proof {
            assert(ip@.subrange(0, ip@.len() as int) =~= ip@);
        }
        out.push('.');
        let ghost before = out@;
        let mut j: usize = 0;
        while j < fp.len()
            invariant
                j <= fp@.len(),
                out@ == before + fp@.subrange(0, j as int),
            decreases fp@.len() - j,
        {
            out.push(fp[j]);
            proof {
                assert(fp@.subrange(0, j + 1) =~= fp@.subrange(0, j as int).push(fp@[j as int]));
            }
            j = j + 1;
        }
        proof {
            assert(fp@.subrange(0, fp@.len() as int) =~= fp@);
            assert(out@ =~= spec_render_dec(d));
        }
        out
    }
}

/// The numeric literal a string denotes, if it denotes one.
pub fn parse_string_dec(s: &String) -> (r: Option<Dec>)
    ensures
        r == spec_parse_dec(s@),
        r is Some ==> dec_in_range(r->0),
{
    let chars = crate::strutil::str_to_chars(s.as_str());
    parse_dec(&chars)
}

/// The canonical text of a decimal, as an owned string.
pub fn render_dec_string(d: Dec) -> (r: String)
    requires
        d.scale <= 31,
    ensures
        r@ == spec_render_dec(d),
{
    let chars = render_dec(d);
    crate::strutil::chars_to_string(&chars)
}

/// The larger scale of the two operands.
pub open spec fn spec_max_scale(a: Dec, b: Dec) -> nat {
    if a.scale >= b.scale {
        a.scale as nat
    } else {
        b.scale as nat
    }
}

/// The mantissas of the two operands brought to the common scale.
pub open spec fn spec_aligned(a: Dec, b: Dec) -> (nat, nat) {
    let s = spec_max_scale(a, b);
    (a.mant as nat * pow10((s - a.scale) as nat), b.mant as nat * pow10((s - b.scale) as nat))
}

/// The exact sum, in sign-magnitude form at the common scale.
pub open spec fn spec_dec_add(a: Dec, b: Dec) -> Dec {
    let s = spec_max_scale(a, b);
    let (am, bm) = spec_aligned(a, b);
    if a.neg == b.neg {
        Dec { neg: a.neg, mant: (am + bm) as u128, scale: s as u32 }
    } else if am >= bm {
        Dec { neg: a.neg, mant: (am - bm) as u128, scale: s as u32 }
    } else {
        Dec { neg: b.neg, mant: (bm - am) as u128, scale: s as u32 }
    }
}

/// The exact difference: the sum with the second sign flipped.
pub open spec fn spec_dec_sub(a: Dec, b: Dec) -> Dec {
    spec_dec_add(a, Dec { neg: !b.neg, ..b })
}

/// The exact product.
pub open spec fn spec_dec_mul(a: Dec, b: Dec) -> Dec {
    Dec {
        neg: a.neg != b.neg,
        mant: (a.mant as nat * b.mant as nat) as u128,
        scale: (a.scale + b.scale) as u32,
    }
}

/// The exact remainder at the common scale, with the sign of the dividend.
pub open spec fn spec_dec_mod(a: Dec, b: Dec) -> Option<Dec> {
    if b.mant == 0 {
        None
    } else {
        let s = spec_max_scale(a, b);
        let (am, bm) = spec_aligned(a, b);
        Some(Dec { neg: a.neg, mant: (am % bm) as u128, scale: s as u32 })
    }
}

/// Long division digits: starting from the integer quotient `m` and
/// remainder `r`, up to `k` more fractional digits are produced, stopping
/// early when the remainder is exhausted or the mantissa outgrows the cap.
/// The result is the final mantissa and how many digits were produced.
pub open spec fn spec_div_frac(m: nat, r: nat, d: nat, k: nat) -> (nat, nat)
    decreases k,
{
    if k == 0 || r == 0 || m > MANT_CAP as nat {
        (m, 0)
    } else {
        let step = spec_div_frac(m * 10 + (r * 10) / d, (r * 10) % d, d, (k - 1) as nat);
        (step.0, step.1 + 1)
    }
}

/// The quotient, truncated toward zero after at most `DIV_FRAC_DIGITS`
/// fractional digits; exact whenever the exact quotient fits in them.
pub open spec fn spec_dec_div(a: Dec, b: Dec) -> Option<Dec> {
    if b.mant == 0 {
        None
    } else {
        let n = a.mant as nat * pow10(b.scale as nat);
        let d = b.mant as nat * pow10(a.scale as nat);
        let (m, e) = spec_div_frac(n / d, n % d, d, DIV_FRAC_DIGITS as nat);
        Some(Dec { neg: a.neg != b.neg, mant: m as u128, scale: e as u32 })
    }
}

/// Whether the exact value of `a` is strictly below the exact value of `b`,
/// decided in sign-magnitude form on the cross-scaled mantissas.
pub open spec fn spec_dec_lt(a: Dec, b: Dec) -> bool {
    let pa = a.mant as nat * pow10(b.scale as nat);
    let pb = b.mant as nat * pow10(a.scale as nat);
    if a.neg && a.mant > 0 {
        if b.neg && b.mant > 0 {
            pb < pa
        } else {
            true
        }
    } else {
        if b.neg && b.mant > 0 {
            false
        } else {
            pa < pb
        }
    }
}

/// The operand bounds every arithmetic result obeys: small enough to render.
pub open spec fn dec_result_bounded(d: Dec) -> bool {
    d.scale <= 31
}

proof fn lemma_aligned_bound(a: Dec, b: Dec)
    requires
        dec_in_range(a),
        dec_in_range(b),
    ensures
        spec_aligned(a, b).0 <= MANT_CAP as nat * pow10(SCALE_CAP as nat),
        spec_aligned(a, b).1 <= MANT_CAP as nat * pow10(SCALE_CAP as nat),
        MANT_CAP as nat * pow10(SCALE_CAP as nat) < pow10(31),
{
    let s = spec_max_scale(a, b);
    lemma_pow10_increases((s - a.scale) as nat, SCALE_CAP as nat);
    lemma_pow10_increases((s - b.scale) as nat, SCALE_CAP as nat);
    lemma_mul_le(a.mant as nat, MANT_CAP as nat, pow10((s - a.scale) as nat), pow10(SCALE_CAP as nat));
    lemma_mul_le(b.mant as nat, MANT_CAP as nat, pow10((s - b.scale) as nat), pow10(SCALE_CAP as nat));
    lemma_pow10_31();
}

/// The exact sum of two parsed numbers.
pub fn dec_add(a: Dec, b: Dec) -> (r: Dec)
    requires
        dec_in_range(a),
        dec_in_range(b),
    ensures
        r == spec_dec_add(a, b),
        dec_result_bounded(r),
{
    proof {
        lemma_aligned_bound(a, b);
        lemma_pow10_31();
    }
    let s: u32 = if a.scale >= b.scale {
        a.scale
    } else {
        b.scale
    };
    let am: u128 = a.mant * pow10_u128(s - a.scale);
    let bm: u128 = b.mant * pow10_u128(s - b.scale);
    if a.neg == b.neg {
        Dec { neg: a.neg, mant: am + bm, scale: s }
    } else if am >= bm {
        Dec { neg: a.neg, mant: am - bm, scale: s }
    } else {
        Dec { neg: b.neg, mant: bm - am, scale: s }
    }
}

/// The exact difference of two parsed numbers.
pub fn dec_sub(a: Dec, b: Dec) -> (r: Dec)
    requires
        dec_in_range(a),
        dec_in_range(b),
    ensures
        r == spec_dec_sub(a, b),
        dec_result_bounded(r),
{
    dec_add(a, Dec { neg: !b.neg, mant: b.mant, scale: b.scale })
}

/// The exact product of two parsed numbers.
pub fn dec_mul(a: Dec, b: Dec) -> (r: Dec)
    requires
        dec_in_range(a),
        dec_in_range(b),
    ensures
        r == spec_dec_mul(a, b),
        dec_result_bounded(r),
{
    proof {
        lemma_mul_le(a.mant as nat, MANT_CAP as nat, b.mant as nat, MANT_CAP as nat);
        lemma_pow10_31();
    }
    Dec { neg: a.neg != b.neg, mant: a.mant * b.mant, scale: a.scale + b.scale }
}

/// The remainder of two parsed numbers; nothing for a zero divisor.
pub fn dec_mod(a: Dec, b: Dec) -> (r: Option<Dec>)
    requires
        dec_in_range(a),
        dec_in_range(b),
    ensures
        r == spec_dec_mod(a, b),
        r is Some ==> dec_result_bounded(r->0),
{
    if b.mant == 0 {
        return None;
    }
    proof {
        lemma_aligned_bound(a, b);
        lemma_pow10_31();
    }
    let s: u32 = if a.scale >= b.scale {
        a.scale
    } else {
        b.scale
    };
    let am: u128 = a.mant * pow10_u128(s - a.scale);
    let bm: u128 = b.mant * pow10_u128(s - b.scale);
    proof {
        lemma_pow10_increases(0, (spec_max_scale(a, b) - b.scale) as nat);
        lemma_mul_le(1, b.mant as nat, 1, pow10((spec_max_scale(a, b) - b.scale) as nat));
    }
    Some(Dec { neg: a.neg, mant: am % bm, scale: s })
}

/// The truncated quotient of two parsed numbers; nothing for a zero divisor.
pub fn dec_div(a: Dec, b: Dec) -> (r: Option<Dec>)
    requires
        dec_in_range(a),
        dec_in_range(b),
    ensures
        r == spec_dec_div(a, b),
        r is Some ==> dec_result_bounded(r->0),
{
    if b.mant == 0 {
        return None;
    }
    proof {
        lemma_pow10_increases(b.scale as nat, SCALE_CAP as nat);
        lemma_pow10_increases(a.scale as nat, SCALE_CAP as nat);
        lemma_mul_le(a.mant as nat, MANT_CAP as nat, pow10(b.scale as nat), pow10(SCALE_CAP as nat));
        lemma_mul_le(b.mant as nat, MANT_CAP as nat, pow10(a.scale as nat), pow10(SCALE_CAP as nat));
        lemma_pow10_increases(0, pow10(a.scale as nat) as nat);
        lemma_pow10_31();
    }
    let n: u128 = a.mant * pow10_u128(b.scale);
    let d: u128 = b.mant * pow10_u128(a.scale);
    proof {
        lemma_mul_le(1, b.mant as nat, 1, pow10(a.scale as nat));
    }
    let mut m: u128 = n / d;
    let mut rem: u128 = n % d;
    let mut produced: u32 = 0;
    let ghost q0 = spec_div_frac((n / d) as nat, (n % d) as nat, d as nat, DIV_FRAC_DIGITS as nat);
    while produced < DIV_FRAC_DIGITS && rem != 0 && m <= MANT_CAP
        invariant
            d > 0,
            rem < d,
            d as nat <= MANT_CAP as nat * pow10(SCALE_CAP as nat),
            MANT_CAP as nat * pow10(SCALE_CAP as nat) < pow10(31),
            m <= MANT_CAP as nat * 10 + 9 || produced == 0,
            produced == 0 ==> m == n / d && rem == n % d,
            produced <= DIV_FRAC_DIGITS,
            q0 == ({
                let step = spec_div_frac(
                    m as nat,
                    rem as nat,
                    d as nat,
                    (DIV_FRAC_DIGITS - produced) as nat,
                );
                (step.0, (step.1 + produced as nat) as nat)
            }),
        decreases DIV_FRAC_DIGITS - produced,
    {
        proof {
            lemma_pow10_31();
        }
        let digit = (rem * 10) / d;
        let new_rem = (rem * 10) % d;
        proof {
            assert((rem as int) * 10 < (d as int) * 10) by (nonlinear_arith)
                requires
                    (rem as int) < (d as int),
                    (d as int) > 0,
            ;
            assert(((rem as int) * 10) / (d as int) <= 9) by (nonlinear_arith)
                requires
                    (rem as int) * 10 < (d as int) * 10,
                    (d as int) > 0,
            ;
        }
        m = m * 10 + digit;
        rem = new_rem;
        produced = produced + 1;
    }
    proof {
        assert(spec_div_frac(m as nat, rem as nat, d as nat, (DIV_FRAC_DIGITS - produced) as nat)
            == (m as nat, 0nat));
    }
    Some(Dec { neg: a.neg != b.neg, mant: m, scale: produced })
}

/// Whether the exact value of `a` is strictly below that of `b`.
pub fn dec_lt(a: Dec, b: Dec) -> (r: bool)
    requires
        dec_in_range(a),
        dec_in_range(b),
    ensures
        r == spec_dec_lt(a, b),
{
    proof {
        lemma_pow10_increases(b.scale as nat, SCALE_CAP as nat);
        lemma_pow10_increases(a.scale as nat, SCALE_CAP as nat);
        lemma_mul_le(a.mant as nat, MANT_CAP as nat, pow10(b.scale as nat), pow10(SCALE_CAP as nat));
        lemma_mul_le(b.mant as nat, MANT_CAP as nat, pow10(a.scale as nat), pow10(SCALE_CAP as nat));
        lemma_pow10_31();
    }
    let pa: u128 = a.mant * pow10_u128(b.scale);
    let pb: u128 = b.mant * pow10_u128(a.scale);
    if a.neg && a.mant > 0 {
        if b.neg && b.mant > 0 {
            pb < pa
        } else {
            true
        }
    } else {
        if b.neg && b.mant > 0 {
            false
        } else {
            pa < pb
        }
    }
}

/// The scanner state while reading a signed machine integer.
pub struct IntScanV {
    pub first: bool,
    pub neg: bool,
    pub any_digit: bool,
    /// The value read so far, stopped just above the magnitude bound.
    pub val: nat,
    pub ok: bool,
}

pub open spec fn initial_int_scan() -> IntScanV {
    IntScanV { first: true, neg: false, any_digit: false, val: 0, ok: true }
}

/// The magnitude at which an integer scan saturates: one above `i32` range.
pub open spec fn int_scan_cap() -> nat {
    0x80000001
}

/// One character of a signed integer literal; the value saturates just
/// above the `i32` range, which keeps the in-range test exact.
pub open spec fn spec_int_step(st: IntScanV, c: char) -> IntScanV {
    if !st.ok {
        st
    } else if st.first && (c == '+' || c == '-') {
        IntScanV { first: false, neg: c == '-', ..st }
    } else if spec_is_digit(c) {
        let raw = st.val * 10 + spec_digit_val(c);
        let val = if raw > int_scan_cap() {
            int_scan_cap()
        } else {
            raw
        };
        IntScanV { first: false, any_digit: true, val, ..st }
    } else {
        IntScanV { ok: false, ..st }
    }
}

pub open spec fn spec_int_scan(st: IntScanV, s: Seq<char>) -> IntScanV
    decreases s.len(),
{
    if s.len() == 0 {
        st
    } else {
        spec_int_scan(spec_int_step(st, s[0]), s.drop_first())
    }
}

/// The `i32` a character sequence denotes, if it denotes one: an optional
/// sign, then digits only, within the range of the type.
pub open spec fn spec_parse_i32(s: Seq<char>) -> Option<i32> {
    let st = spec_int_scan(initial_int_scan(), s);
    if st.ok && st.any_digit {
        if st.neg && st.val <= 0x80000000 {
            Some((0 - st.val as int) as i32)
        } else if !st.neg && st.val <= 0x7fffffff {
            Some(st.val as i32)
        } else {
            None
        }
    } else {
        None
    }
}

/// Scanning a sequence extended by one character is one more step.
proof fn lemma_int_scan_snoc(st: IntScanV, s: Seq<char>)
    requires
        s.len() > 0,
    ensures
        spec_int_scan(st, s) == spec_int_step(spec_int_scan(st, s.drop_last()), s.last()),
    decreases s.len(),
{
    if s.len() == 1 {
        assert(s.drop_last() =~= Seq::<char>::empty());
        assert(s.drop_first() =~= Seq::<char>::empty());
        assert(spec_int_scan(st, s) == spec_int_scan(spec_int_step(st, s[0]), s.drop_first()));
        assert(spec_int_scan(spec_int_step(st, s[0]), s.drop_first()) == spec_int_step(st, s[0]));
        assert(spec_int_scan(st, s.drop_last()) == st);
        assert(s.last() == s[0]);
    } else {
        lemma_int_scan_snoc(spec_int_step(st, s[0]), s.drop_first());
        assert(s.drop_first().drop_last() =~= s.drop_last().drop_first());
        assert(s.drop_first().last() == s.last());
        assert(s.drop_last()[0] == s[0]);
        assert(s.drop_last().len() > 0);
        assert(spec_int_scan(st, s.drop_last()) == spec_int_scan(
            spec_int_step(st, s.drop_last()[0]),
            s.drop_last().drop_first(),
        ));
        assert(spec_int_scan(st, s) == spec_int_scan(spec_int_step(st, s[0]), s.drop_first()));
    }
}

/// The `i32` the characters denote, if they denote one.
pub fn parse_i32(s: &Vec<char>) -> (r: Option<i32>)
    ensures
        r == spec_parse_i32(s@),
{
    let mut first: bool = true;
    let mut neg: bool = false;
    let mut any_digit: bool = false;
    let mut val: u64 = 0;
    let mut ok: bool = true;
    let n = s.len();
    let mut i: usize = 0;
    proof {
        assert(s@.subrange(0, 0) =~= Seq::<char>::empty());
    }
    while i < n
        invariant
            i <= n,
            n == s@.len(),
            val <= 0x80000001,
            spec_int_scan(initial_int_scan(), s@.subrange(0, i as int)) == (IntScanV {
                first,
                neg,
                any_digit,
                val: val as nat,
                ok,
            }),
        decreases n - i,
    {
        let ghost pre = s@.subrange(0, i as int);
        let c = s[i];
        if ok {
            if first && (c == '+' || c == '-') {
                first = false;
                neg = c == '-';
            } else if is_digit(c) {
                let d = digit_val(c);
                let raw: u64 = val * 10 + (d as u64);
                val = if raw > 0x80000001 {
                    0x80000001
                } else {
                    raw
                };
                first = false;
                any_digit = true;
            } else {
                ok = false;
            }
        }
        proof {
            let cur = s@.subrange(0, i + 1);
            lemma_int_scan_snoc(initial_int_scan(), cur);
            assert(cur.drop_last() =~= pre);
            assert(cur.last() == c);
        }
        i = i + 1;
    }
    proof {
        assert(s@.subrange(0, n as int) =~= s@);
    }
    if ok && any_digit {
        if neg && val <= 0x80000000 {
            if val == 0x80000000 {
                Some(i32::MIN)
            } else {
                Some(-(val as i32))
            }
        } else if !neg && val <= 0x7fffffff {
            Some(val as i32)
        } else {
            None
        }
    } else {
        None
    }
}

/// Scanning a sequence extended by one character is one more step.
proof fn lemma_scan_snoc(st: DecScanV, s: Seq<char>)
    requires
        s.len() > 0,
    ensures
        spec_dec_scan(st, s) == spec_dec_step(spec_dec_scan(st, s.drop_last()), s.last()),
    decreases s.len(),
{
    if s.len() == 1 {
        assert(s.drop_last() =~= Seq::<char>::empty());
        assert(s.drop_first() =~= Seq::<char>::empty());
        assert(spec_dec_scan(st, s) == spec_dec_scan(spec_dec_step(st, s[0]), s.drop_first()));
        assert(spec_dec_scan(spec_dec_step(st, s[0]), s.drop_first()) == spec_dec_step(st, s[0]));
        assert(spec_dec_scan(st, s.drop_last()) == st);
        assert(s.last() == s[0]);
    } else {
        lemma_scan_snoc(spec_dec_step(st, s[0]), s.drop_first());
        assert(s.drop_first().drop_last() =~= s.drop_last().drop_first());
        assert(s.drop_first().last() == s.last());
        assert(s.drop_last()[0] == s[0]);
        assert(s.drop_last().len() > 0);
        assert(spec_dec_scan(st, s.drop_last()) == spec_dec_scan(
            spec_dec_step(st, s.drop_last()[0]),
            s.drop_last().drop_first(),
        ));
        assert(spec_dec_scan(st, s) == spec_dec_scan(spec_dec_step(st, s[0]), s.drop_first()));
    }
}

} // verus!
