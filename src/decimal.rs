//! Exact decimal numbers, used where the format writes fractional values.
use crate::text::{
    all_digits, digits_value, find_char, first_at, is_digit, parse_digits,
};
use crate::text::owned;
use vstd::prelude::*;

verus! {

/// The largest number of digits after the decimal point.
pub const MAX_SCALE: u32 = 18;

pub open spec fn pow10(n: nat) -> nat
    decreases n,
{
    if n == 0 {
        1
    } else {
        10 * pow10((n - 1) as nat)
    }
}

pub proof fn lemma_pow10_bounds(n: nat)
    requires
        n <= MAX_SCALE,
    ensures
        1 <= pow10(n) <= pow10(MAX_SCALE as nat),
        pow10(MAX_SCALE as nat) == 1_000_000_000_000_000_000,
    decreases n,
{
    reveal_with_fuel(pow10, 19);
    if n > 0 {
        lemma_pow10_bounds((n - 1) as nat);
        lemma_pow10_mono((n - 1) as nat, (MAX_SCALE - 1) as nat);
    }
}

pub proof fn lemma_pow10_mono(a: nat, b: nat)
    requires
        a <= b,
    ensures
        pow10(a) <= pow10(b),
    decreases b,
{
    if a < b {
        lemma_pow10_mono(a, (b - 1) as nat);
    }
}

/// The value `mantissa / 10^scale`.
#[derive(Debug, Clone, Copy, PartialEq, Eq, Structural)]
pub struct Decimal {
    pub mantissa: i64,
    pub scale: u32,
}

/// Sign and digits of a decimal token.
pub open spec fn sign_and_body(s: Seq<char>) -> (bool, Seq<char>) {
    if s.len() > 0 && s[0] == '-' {
        (true, s.drop_first())
    } else if s.len() > 0 && s[0] == '+' {
        (false, s.drop_first())
    } else {
        (false, s)
    }
}

/// The digits before and after the decimal point of an unsigned decimal token.
pub open spec fn int_and_frac(body: Seq<char>) -> (Seq<char>, Seq<char>) {
    if exists|i: int| first_at(body, '.', i) {
        let i = choose|i: int| first_at(body, '.', i);
        (body.subrange(0, i), body.subrange(i + 1, body.len() as int))
    } else {
        (body, Seq::<char>::empty())
    }
}

/// `i` is the position of the first exponent mark in `s`.
pub open spec fn first_exp_at(s: Seq<char>, i: int) -> bool {
    0 <= i < s.len() && (s[i] == 'e' || s[i] == 'E') && forall|j: int|
        0 <= j < i ==> s[j] != 'e' && s[j] != 'E'
}

/// The part of an unsigned token before its exponent mark, and what follows
/// the mark if there is one.
pub open spec fn number_and_exponent(body: Seq<char>) -> (Seq<char>, Option<Seq<char>>) {
    if exists|i: int| first_exp_at(body, i) {
        let i = choose|i: int| first_exp_at(body, i);
        (body.subrange(0, i), Some(body.subrange(i + 1, body.len() as int)))
    } else {
        (body, None)
    }
}

/// The value of an exponent: an optional sign and one or more digits; zero
/// when there is no exponent.
pub open spec fn exponent_value(e: Option<Seq<char>>) -> Option<int> {
    match e {
        None => Some(0),
        Some(t) => {
            let (neg, ds) = sign_and_body(t);
            if ds.len() > 0 && all_digits(ds) {
                Some(if neg { -(digits_value(ds) as int) } else { digits_value(ds) as int })
            } else {
                None
            }
        },
    }
}

/// Mantissa and scale of the digit string `d` read at scale `s0`: a scale
/// above `MAX_SCALE` drops the digits beyond it (truncation toward zero), a
/// negative scale multiplies by the matching power of ten.
pub open spec fn scaled(d: Seq<char>, s0: int) -> (int, int) {
    let v = digits_value(d) as int;
    if s0 > MAX_SCALE {
        (v / (pow10((s0 - MAX_SCALE) as nat) as int), MAX_SCALE as int)
    } else if s0 >= 0 {
        (v, s0)
    } else {
        (v * pow10((-s0) as nat), 0)
    }
}

/// The decimal that a token `[+-]digits[.digits][(e|E)[+-]digits]` denotes,
/// with at least one digit before the exponent, when its mantissa fits.
pub open spec fn decimal_of(s: Seq<char>) -> Option<Decimal> {
    let (neg, body) = sign_and_body(s);
    let (num, exp) = number_and_exponent(body);
    let (ip, fp) = int_and_frac(num);
    let e = exponent_value(exp);
    if all_digits(ip) && all_digits(fp) && ip.len() + fp.len() > 0 && e is Some {
        let (m, sc) = scaled(ip + fp, fp.len() - e->0);
        if m <= i64::MAX {
            Some(Decimal { mantissa: (if neg { -m } else { m }) as i64, scale: sc as u32 })
        } else {
            None
        }
    } else {
        None
    }
}

pub proof fn lemma_digits_below_pow10(d: Seq<char>)
    requires
        all_digits(d),
    ensures
        digits_value(d) < pow10(d.len()),
    decreases d.len(),
{
    if d.len() > 0 {
        let p = d.drop_last();
        assert(all_digits(p)) by {
            assert forall|i: int| 0 <= i < p.len() implies is_digit(#[trigger] p[i]) by {
                assert(p[i] == d[i]);
            }
        }
        lemma_digits_below_pow10(p);
        assert(is_digit(d[d.len() - 1]));
    }
}

pub proof fn lemma_digits_div_pow10(d: Seq<char>, k: nat)
    requires
        all_digits(d),
        k <= d.len(),
    ensures
        digits_value(d) / pow10(k) == digits_value(d.subrange(0, d.len() - k)),
    decreases k,
{
    if k == 0 {
        assert(d.subrange(0, d.len() as int) =~= d);
        assert(pow10(0) == 1);
    } else {
        let p = d.drop_last();
        assert(all_digits(p)) by {
            assert forall|i: int| 0 <= i < p.len() implies is_digit(#[trigger] p[i]) by {
                assert(p[i] == d[i]);
            }
        }
        assert(is_digit(d[d.len() - 1]));
        lemma_digits_div_pow10(p, (k - 1) as nat);
        assert(p.subrange(0, p.len() - (k - 1)) =~= d.subrange(0, d.len() - k));
        let x = digits_value(p);
        let r = ((d.last() as nat) - ('0' as nat)) as nat;
        assert(digits_value(d) == x * 10 + r);
        assert(r < 10);
        lemma_pow10_bounds_any((k - 1) as nat);
        let q = pow10((k - 1) as nat);
        assert(pow10(k) == 10 * q);
        assert((x * 10 + r) / (10 * q) == x / q) by (nonlinear_arith)
            requires q >= 1, r < 10, x >= 0, r >= 0;
        assert(digits_value(d) / pow10(k) == x / q);
    }
}

proof fn lemma_pow10_bounds_any(n: nat)
    ensures
        pow10(n) >= 1,
    decreases n,
{
    if n > 0 {
        lemma_pow10_bounds_any((n - 1) as nat);
    }
}

impl Decimal {
    pub open spec fn wf(self) -> bool {
        self.scale <= MAX_SCALE
    }

    /// Mantissa of `a + b` at the larger of the two scales.
    pub open spec fn sum_mantissa(a: Decimal, b: Decimal) -> int {
        let s = if a.scale >= b.scale { a.scale } else { b.scale };
        a.mantissa * pow10((s - a.scale) as nat) + b.mantissa * pow10((s - b.scale) as nat)
    }

    pub open spec fn sum_fits(a: Decimal, b: Decimal) -> bool {
        i64::MIN <= Decimal::sum_mantissa(a, b) <= i64::MAX
    }

    pub fn zero() -> (r: Decimal)
        ensures
            r.mantissa == 0,
            r.scale == 0,
    {
        Decimal { mantissa: 0, scale: 0 }
    }

    /// Reads a decimal token: an optional sign, digits with an optional
    /// point, and an optional exponent `e` or `E` with its own sign. Digits
    /// beyond `MAX_SCALE` places after the point are dropped. Infinities,
    /// NaN and values whose mantissa leaves `i64` at their scale are refused.
    #[verifier::rlimit(60)]
    pub fn parse(s: &str) -> (r: Option<Decimal>)
        ensures
            r == decimal_of(s@),
            r matches Some(d) ==> d.wf(),
    {
        let n = s.unicode_len();
        let neg = n > 0 && s.get_char(0) == '-';
        let body = if n > 0 && (s.get_char(0) == '-' || s.get_char(0) == '+') {
            s.substring_char(1, n)
        } else {
            s.substring_char(0, n)
        };
        assert(s@.subrange(0, n as int) =~= s@);
        assert(n > 0 ==> s@.subrange(1, n as int) =~= s@.drop_first());
        assert(sign_and_body(s@) == (neg, body@));
        let bn = body.unicode_len();
        let (num, exp) = match find_exponent(body) {
            Some(i) => {
                proof {
                    let ci = choose|j: int| first_exp_at(body@, j);
                    assert(ci == i as int) by {
                        if ci < i {
                            assert(body@[ci] != 'e' && body@[ci] != 'E');
                        }
                        if i < ci {
                            assert(body@[i as int] != 'e' && body@[i as int] != 'E');
                        }
                    }
                }
                (body.substring_char(0, i), Some(body.substring_char(i + 1, bn)))
            },
            None => {
                assert(!exists|j: int| first_exp_at(body@, j));
                assert(body@.subrange(0, bn as int) =~= body@);
                (body.substring_char(0, bn), None)
            },
        };
        assert(number_and_exponent(body@) == (num@, match exp {
            Some(e) => Some(e@),
            None => None::<Seq<char>>,
        }));
        let nn = num.unicode_len();
        let (ip, fp) = match find_char(num, '.') {
            Some(i) => {
                proof {
                    let ci = choose|j: int| first_at(num@, '.', j);
                    crate::text::lemma_first_at_unique(num@, '.', i as int, ci);
                }
                (num.substring_char(0, i), num.substring_char(i + 1, nn))
            },
            None => {
                assert(!exists|j: int| first_at(num@, '.', j));
                assert(num@.subrange(0, nn as int) =~= num@);
                (num.substring_char(0, nn), num.substring_char(nn, nn))
            },
        };
        assert(int_and_frac(num@) == (ip@, fp@)) by {
            assert(fp@.len() == 0 ==> fp@ =~= Seq::<char>::empty());
        }
        let flen = fp.unicode_len();
        if ip.unicode_len() + flen == 0 || !digits_only(ip) || !digits_only(fp) {
            return None;
        }
        let (eneg, emag) = match exp {
            None => (false, 0u128),
            Some(e) => match exponent_capped(e) {
                None => {
                    return None;
                },
                Some(x) => x,
            },
        };
        let mut ds = owned(ip);
        ds.append(fp);
        let ds = ds;
        assert(ds@ == ip@ + fp@);
        assert(all_digits(ds@)) by {
            assert forall|i: int| 0 <= i < ds@.len() implies is_digit(#[trigger] ds@[i]) by {
                if i < ip@.len() {
                    assert(ds@[i] == ip@[i]);
                } else {
                    assert(ds@[i] == fp@[i - ip@.len()]);
                }
            }
        }
        let ghost ev = exponent_value(number_and_exponent(body@).1)->0;
        match scale_digits(ds.as_str(), flen, eneg, emag, Ghost(ev)) {
            None => None,
            Some((m, sc)) => {
                let mi: i64 = m as i64;
                Some(Decimal { mantissa: if neg { -mi } else { mi }, scale: sc })
            },
        }
    }

    /// The exact sum of two decimals, at the larger of their scales.
    pub fn add(self, other: Decimal) -> (r: Decimal)
        requires
            self.wf(),
            other.wf(),
            Decimal::sum_fits(self, other),
        ensures
            r.wf(),
            r.mantissa == Decimal::sum_mantissa(self, other),
            r.scale == (if self.scale >= other.scale { self.scale } else { other.scale }),
    {
        let s = if self.scale >= other.scale { self.scale } else { other.scale };
        let pa = pow10_u64(s - self.scale);
        let pb = pow10_u64(s - other.scale);
        let a = self.mantissa as i128;
        let b = other.mantissa as i128;
        proof {
            lemma_pow10_bounds((s - self.scale) as nat);
            lemma_pow10_bounds((s - other.scale) as nat);
        }
        assert(-0x8000_0000_0000_0000 * 1_000_000_000_000_000_000 <= a * (pa as i128) <= 0x8000_0000_0000_0000 * 1_000_000_000_000_000_000)
            by (nonlinear_arith)
            requires -0x8000_0000_0000_0000 <= a <= 0x8000_0000_0000_0000, 0 <= pa <= 1_000_000_000_000_000_000u64;
        assert(-0x8000_0000_0000_0000 * 1_000_000_000_000_000_000 <= b * (pb as i128) <= 0x8000_0000_0000_0000 * 1_000_000_000_000_000_000)
            by (nonlinear_arith)
            requires -0x8000_0000_0000_0000 <= b <= 0x8000_0000_0000_0000, 0 <= pb <= 1_000_000_000_000_000_000u64;
        let m = a * (pa as i128) + b * (pb as i128);
        Decimal { mantissa: m as i64, scale: s }
    }
}

/// Exponents at or above this are treated alike: they leave nothing, or
/// nothing that fits, whatever the digits.
const EXP_CAP: u128 = 0x10_0000_0000_0000_0000_0000_0000;

/// The position of the first exponent mark in `s`, if there is one.
fn find_exponent(s: &str) -> (r: Option<usize>)
    ensures
        match r {
            Some(i) => first_exp_at(s@, i as int),
            None => forall|i: int| 0 <= i < s@.len() ==> s@[i] != 'e' && s@[i] != 'E',
        },
{
    let n = s.unicode_len();
    let mut i: usize = 0;
    while i < n
        invariant
            n == s@.len(),
            i <= n,
            forall|j: int| 0 <= j < i ==> s@[j] != 'e' && s@[j] != 'E',
        decreases n - i,
    {
        let c = s.get_char(i);
        if c == 'e' || c == 'E' {
            return Some(i);
        }
        i = i + 1;
    }
    None
}

/// Whether every character of `s` is a decimal digit.
fn digits_only(s: &str) -> (r: bool)
    ensures
        r == all_digits(s@),
{
    let n = s.unicode_len();
    let mut i: usize = 0;
    while i < n
        invariant
            n == s@.len(),
            i <= n,
            forall|j: int| 0 <= j < i ==> is_digit(#[trigger] s@[j]),
        decreases n - i,
    {
        let c = s.get_char(i);
        if !('0' <= c && c <= '9') {
            return false;
        }
        i = i + 1;
    }
    true
}

/// The sign of an exponent and its magnitude, held at `EXP_CAP` when larger.
fn exponent_capped(e: &str) -> (r: Option<(bool, u128)>)
    ensures
        match r {
            None => exponent_value(Some(e@)) is None,
            Some((neg, m)) => exponent_value(Some(e@)) is Some && neg == sign_and_body(e@).0
                && (m < EXP_CAP ==> m == digits_value(sign_and_body(e@).1))
                && (m >= EXP_CAP ==> m == EXP_CAP && digits_value(sign_and_body(e@).1) >= EXP_CAP),
        },
{
    let n = e.unicode_len();
    let neg = n > 0 && e.get_char(0) == '-';
    let ds = if n > 0 && (e.get_char(0) == '-' || e.get_char(0) == '+') {
        e.substring_char(1, n)
    } else {
        e.substring_char(0, n)
    };
    assert(e@.subrange(0, n as int) =~= e@);
    assert(n > 0 ==> e@.subrange(1, n as int) =~= e@.drop_first());
    assert(sign_and_body(e@) == (neg, ds@));
    let dn = ds.unicode_len();
    if dn == 0 || !digits_only(ds) {
        return None;
    }
    let mut acc: u128 = 0;
    let mut i: usize = 0;
    assert(ds@.subrange(0, 0) =~= Seq::<char>::empty());
    while i < dn
        invariant
            dn == ds@.len(),
            i <= dn,
            all_digits(ds@),
            acc <= EXP_CAP,
            acc < EXP_CAP ==> acc == digits_value(ds@.subrange(0, i as int)),
            acc == EXP_CAP ==> digits_value(ds@.subrange(0, i as int)) >= EXP_CAP,
        decreases dn - i,
    {
        let c = ds.get_char(i);
        assert(is_digit(ds@[i as int]));
        assert(ds@.subrange(0, i + 1).drop_last() =~= ds@.subrange(0, i as int));
        let d = (c as u128) - ('0' as u128);
        if acc < EXP_CAP {
            let next = acc * 10 + d;
            acc = if next >= EXP_CAP { EXP_CAP } else { next };
        }
        i = i + 1;
    }
    assert(ds@.subrange(0, dn as int) =~= ds@);
    Some((neg, acc))
}

/// Mantissa and scale of a digit string read `flen` places after the point
/// and shifted by an exponent `ev`, of sign `eneg` and magnitude `emag`
/// (held at `EXP_CAP` when larger); `None` when the mantissa leaves `i64`.
fn scale_digits(ds: &str, flen: usize, eneg: bool, emag: u128, Ghost(ev): Ghost<int>) -> (r: Option<(u64, u32)>)
    requires
        all_digits(ds@),
        emag <= EXP_CAP,
        emag < EXP_CAP ==> ev == (if eneg { -(emag as int) } else { emag as int }),
        emag == EXP_CAP ==> (if eneg { ev <= -(EXP_CAP as int) } else { ev >= EXP_CAP }),
    ensures
        match r {
            Some((m, sc)) => scaled(ds@, flen - ev) == (m as int, sc as int) && sc <= MAX_SCALE
                && m <= i64::MAX,
            None => scaled(ds@, flen - ev).0 > i64::MAX,
        },
{
        let dn = ds.unicode_len();
        let max: u64 = 0x7fff_ffff_ffff_ffff;
        let whole = parse_digits(ds, max);
        let ghost dv = digits_value(ds@) as int;
        let ghost s0 = flen - ev;
        proof {
            lemma_digits_below_pow10(ds@);
        }
        let m: u64;
        let sc: u32;
        if emag >= EXP_CAP {
            if eneg {
                proof {
                    assert(s0 > MAX_SCALE + dn);
                    lemma_pow10_mono(dn as nat, (s0 - MAX_SCALE) as nat);
                    lemma_pow10_bounds_any((s0 - MAX_SCALE) as nat);
                    assert(dv / (pow10((s0 - MAX_SCALE) as nat) as int) == 0) by (nonlinear_arith)
                        requires 0 <= dv < pow10(dn as nat), pow10(dn as nat) <= pow10((s0 - MAX_SCALE) as nat);
                }
                m = 0;
                sc = MAX_SCALE;
            } else {
                match whole {
                    Some(0) => {
                        assert(dv == 0);
                        assert(s0 < 0);
                        assert(dv * pow10((-s0) as nat) == 0) by (nonlinear_arith)
                            requires dv == 0;
                        m = 0;
                        sc = 0;
                    },
                    _ => {
                        proof {
                            lemma_pow10_mono(19, (-s0) as nat);
                            reveal_with_fuel(pow10, 20);
                            lemma_pow10_bounds_any((-s0) as nat);
                            assert(dv * pow10((-s0) as nat) >= pow10((-s0) as nat)) by (nonlinear_arith)
                                requires dv >= 1, pow10((-s0) as nat) >= 1;
                        }
                        return None;
                    },
                }
            }
        } else {
            let e: i128 = if eneg { -(emag as i128) } else { emag as i128 };
            let s0x: i128 = flen as i128 - e;
            assert(s0 == s0x as int);
            if s0x > 18 {
                let k = s0x - 18;
                if k >= dn as i128 {
                    proof {
                        lemma_pow10_mono(dn as nat, k as nat);
                        lemma_pow10_bounds_any(k as nat);
                        assert(dv / (pow10(k as nat) as int) == 0) by (nonlinear_arith)
                            requires 0 <= dv < pow10(dn as nat), pow10(dn as nat) <= pow10(k as nat);
                    }
                    m = 0;
                } else {
                    let kept = ds.substring_char(0, dn - k as usize);
                    proof {
                        lemma_digits_div_pow10(ds@, k as nat);
                    }
                    match parse_digits(kept, max) {
                        Some(v) => {
                            m = v;
                        },
                        None => {
                            return None;
                        },
                    }
                }
                sc = MAX_SCALE;
            } else if s0x >= 0 {
                match whole {
                    Some(v) => {
                        m = v;
                    },
                    None => {
                        return None;
                    },
                }
                sc = s0x as u32;
            } else {
                let pw = -s0x;
                match whole {
                    Some(0) => {
                        assert(dv == 0);
                        assert(dv * pow10(pw as nat) == 0) by (nonlinear_arith)
                            requires dv == 0;
                        m = 0;
                    },
                    Some(v) => {
                        if pw > 18 {
                            proof {
                                lemma_pow10_mono(19, pw as nat);
                                reveal_with_fuel(pow10, 20);
                                assert(dv * pow10(pw as nat) >= pow10(pw as nat)) by (nonlinear_arith)
                                    requires dv >= 1, pow10(pw as nat) >= 1;
                            }
                            return None;
                        }
                        let p = pow10_u64(pw as u32);
                        assert((v as u128) * (p as u128) <= 0x7fff_ffff_ffff_ffff * 1_000_000_000_000_000_000)
                            by (nonlinear_arith)
                            requires v <= 0x7fff_ffff_ffff_ffffu64, p <= 1_000_000_000_000_000_000u64;
                        let prod: u128 = (v as u128) * (p as u128);
                        if prod > max as u128 {
                            return None;
                        }
                        m = prod as u64;
                    },
                    None => {
                        proof {
                            lemma_pow10_bounds_any(pw as nat);
                            assert(dv * pow10(pw as nat) >= dv) by (nonlinear_arith)
                                requires dv >= 0, pow10(pw as nat) >= 1;
                        }
                        return None;
                    },
                }
                sc = 0;
            }
        }
        assert(scaled(ds@, flen - ev) == (m as int, sc as int));
        Some((m, sc))
}

/// `10^n` for the scales a decimal can have.
fn pow10_u64(n: u32) -> (r: u64)
    requires
        n <= MAX_SCALE,
    ensures
        r as nat == pow10(n as nat),
        r <= 1_000_000_000_000_000_000,
{
    let mut r: u64 = 1;
    let mut i: u32 = 0;
    proof {
        lemma_pow10_bounds(n as nat);
    }
    while i < n
        invariant
            i <= n <= MAX_SCALE,
            r as nat == pow10(i as nat),
        decreases n - i,
    {
        proof {
            lemma_pow10_bounds((i + 1) as nat);
        }
        r = r * 10;
        i = i + 1;
    }
    r
}

} // verus!
