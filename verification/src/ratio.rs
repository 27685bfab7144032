//! Exact fractions that stand for the ratios the advisor derives from counts
//! and byte sizes (cardinality ratio, sample fraction, compression ratio, ...).
//! Thresholds are compared by cross-multiplication, so no rounding happens
//! before a rule decides.

use vstd::prelude::*;
use crate::text::{digit_char, digit_str, nat_text, push_nat};

verus! {

/// Largest magnitude a numerator or denominator may take.
pub open spec fn ratio_bound() -> int {
    0x10000000000000000000000000int
}

/// `10^p`.
pub open spec fn pow10(p: nat) -> nat
    decreases p,
{
    if p == 0 { 1 } else { 10 * pow10((p - 1) as nat) }
}

/// `2^e`.
pub open spec fn two_pow(e: nat) -> nat
    decreases e,
{
    if e == 0 { 1 } else { 2 * two_pow((e - 1) as nat) }
}

/// Number of binary digits of `q` (0 for 0).
pub open spec fn bit_len(q: nat) -> nat
    decreases q,
{
    if q == 0 { 0 } else { 1 + bit_len(q / 2) }
}

/// `a / b` rounded to the nearest integer, an exact half going to the even
/// neighbour (for `b > 0`).
pub open spec fn div_half_even(a: nat, b: nat) -> nat {
    let q = a / b;
    let r = a % b;
    if 2 * r > b || (2 * r == b && q % 2 == 1) { q + 1 } else { q }
}

/// The least shift `j >= k` (at most 200) with `n * 2^j >= 2^52 * d`.
pub open spec fn lead_shift(n: nat, d: nat, k: nat) -> nat
    decreases 200 - k,
{
    if k >= 200 || n * two_pow(k) >= two_pow(52) * d {
        k
    } else {
        lead_shift(n, d, k + 1)
    }
}

/// The binary64 number nearest `n / d` (an exact half going to the even
/// significand), as `(m, s, k)` with value `m * 2^s / 2^k`: from `2^53` on the
/// integer part is cut to 53 significant bits; below it the quotient is
/// scaled by `2^k` into `[2^52, 2^53)` and rounded there.
pub open spec fn nearest_double(n: nat, d: nat) -> (nat, nat, nat) {
    let q = n / d;
    if q >= two_pow(53) {
        let s = (bit_len(q) - 53) as nat;
        let m0 = q / two_pow(s);
        let low = q % two_pow(s);
        let up = 2 * low > two_pow(s) || (2 * low == two_pow(s) && (n % d > 0 || m0 % 2 == 1));
        (if up { m0 + 1 } else { m0 }, s, 0nat)
    } else {
        let k = lead_shift(n, d, 0);
        (div_half_even(n * two_pow(k), d), 0nat, k)
    }
}

/// `n / d` shown with `p` decimals the way an `f64` quotient is printed: the
/// binary64 number nearest the exact value, then its exact decimal expansion
/// rounded to `p` places, an exact half going to the even neighbour; scaled
/// by `10^p` (for `n >= 0`, `d > 0`).
pub open spec fn scaled_round(n: nat, d: nat, p: nat) -> nat {
    let (m, s, k) = nearest_double(n, d);
    div_half_even(m * two_pow(s) * pow10(p), two_pow(k))
}

proof fn lemma_two_pow_monotone(a: nat, b: nat)
    requires
        a <= b,
    ensures
        two_pow(a) <= two_pow(b),
        1 <= two_pow(a),
    decreases b,
{
    if a < b {
        lemma_two_pow_monotone(a, (b - 1) as nat);
    } else if a > 0 {
        lemma_two_pow_monotone((a - 1) as nat, (a - 1) as nat);
    }
}

proof fn lemma_bit_len_lower(q: nat, k: nat)
    requires
        q >= two_pow(k),
    ensures
        bit_len(q) >= k + 1,
    decreases k,
{
    lemma_two_pow_monotone(0, k);
    if k > 0 {
        lemma_bit_len_lower(q / 2, (k - 1) as nat);
    }
}

proof fn lemma_bit_len_upper(q: nat, k: nat)
    requires
        q < two_pow(k),
    ensures
        bit_len(q) <= k,
    decreases k,
{
    if k > 0 && q > 0 {
        lemma_bit_len_upper(q / 2, (k - 1) as nat);
    }
}

proof fn lemma_two_pow_adds(a: nat, b: nat)
    ensures
        two_pow(a + b) == two_pow(a) * two_pow(b),
    decreases b,
{
    if b > 0 {
        let b1 = (b - 1) as nat;
        lemma_two_pow_adds(a, b1);
        let c = (a + b1) as nat;
        assert(two_pow(a + b) == 2 * two_pow(c));
        assert(two_pow(b) == 2 * two_pow(b1));
        let t = two_pow(a);
        let u = two_pow(b1);
        assert(t * (2 * u) == 2 * (t * u)) by (nonlinear_arith);
        assert(two_pow(c) == t * u);
        assert(two_pow(a) * two_pow(b) == t * (2 * u));
    } else {
        assert(two_pow(b) == 1);
        assert(a + b == a);
        assert(two_pow(a) * two_pow(b) == two_pow(a));
    }
}

proof fn lemma_powers()
    ensures
        two_pow(48) == 0x1_0000_0000_0000,
        two_pow(52) == 0x10_0000_0000_0000,
        two_pow(53) == 0x20_0000_0000_0000,
        two_pow(68) == 0x10_0000_0000_0000_0000,
        two_pow(101) == 0x20000000000000000000000000,
        two_pow(152) == 0x10_0000_0000_0000 * 0x10000000000000000000000000,
{
    reveal_with_fuel(two_pow, 5);
    assert(two_pow(4) == 16);
    lemma_two_pow_adds(4, 4);
    assert(two_pow(8) == 0x100);
    lemma_two_pow_adds(8, 8);
    assert(two_pow(16) == 0x1_0000);
    lemma_two_pow_adds(16, 16);
    assert(two_pow(32) == 0x1_0000_0000);
    lemma_two_pow_adds(32, 16);
    assert(two_pow(48) == 0x1_0000_0000_0000);
    lemma_two_pow_adds(48, 4);
    assert(two_pow(52) == 0x10_0000_0000_0000);
    lemma_two_pow_adds(52, 1);
    assert(two_pow(1) == 2);
    assert(two_pow(53) == 0x20_0000_0000_0000);
    lemma_two_pow_adds(32, 32);
    assert(two_pow(64) == 0x1_0000_0000_0000_0000);
    lemma_two_pow_adds(64, 4);
    assert(two_pow(68) == 0x10_0000_0000_0000_0000);
    lemma_two_pow_adds(64, 32);
    assert(two_pow(96) == 0x1_0000_0000_0000_0000_0000_0000);
    lemma_two_pow_adds(96, 4);
    assert(two_pow(100) == 0x10000000000000000000000000);
    lemma_two_pow_adds(100, 1);
    assert(two_pow(101) == 0x20000000000000000000000000);
    lemma_two_pow_adds(52, 100);
}

proof fn lemma_scaled_round_zero(d: nat, p: nat)
    requires
        d > 0,
    ensures
        scaled_round(0, d, p) == 0,
{
    let k = lead_shift(0, d, 0);
    lemma_two_pow_monotone(0, k);
    assert(0nat * two_pow(k) == 0nat) by (nonlinear_arith);
    assert(0nat / d == 0nat && 0nat % d == 0nat) by (nonlinear_arith)
        requires d > 0;
    assert(div_half_even(0, d) == 0);
    assert(0nat / d < two_pow(53)) by {
        lemma_powers();
    }
    assert(nearest_double(0, d) == (0nat, 0nat, k));
    let pk = two_pow(k);
    assert(0nat * two_pow(0) * pow10(p) == 0nat) by (nonlinear_arith);
    assert(0nat / pk == 0nat && 0nat % pk == 0nat) by (nonlinear_arith)
        requires pk > 0;
}

/// `2^e`, for `e <= 100`.
fn two_pow_exec(e: u32) -> (r: u128)
    requires
        e <= 100,
    ensures
        r == two_pow(e as nat),
{
    let mut r: u128 = 1;
    let mut i: u32 = 0;
    proof {
        lemma_two_pow_monotone(e as nat, 101);
        lemma_powers();
    }
    while i < e
        invariant
            i <= e <= 100,
            r == two_pow(i as nat),
            two_pow(e as nat) <= 0x20000000000000000000000000,
        decreases e - i,
    {
        proof {
            lemma_two_pow_monotone((i + 1) as nat, e as nat);
        }
        r = r * 2;
        i = i + 1;
    }
    r
}

/// `a / b` rounded half to even.
fn div_half_even_exec(a: u128, b: u128) -> (r: u128)
    requires
        b > 0,
        a < 0x1_0000_0000_0000_0000_0000_0000_0000,
        b < 0x1_0000_0000_0000_0000_0000_0000_0000,
    ensures
        r == div_half_even(a as nat, b as nat),
{
    let q = a / b;
    let r = a % b;
    proof {
        assert(q <= a) by (nonlinear_arith)
            requires q == a / b, b > 0;
    }
    if 2 * r > b || (2 * r == b && q % 2 == 1) { q + 1 } else { q }
}

/// `mag / den` with `places` decimals as an `f64` quotient prints, scaled by
/// `10^places` (see `scaled_round`).
fn scaled_round_exec(mag: u128, den: u128, places: u32, p10: u128) -> (q: u128)
    requires
        mag <= ratio_bound(),
        0 < den <= ratio_bound(),
        places <= 4,
        p10 == pow10(places as nat),
        1 <= p10 <= 10000,
    ensures
        q == scaled_round(mag as nat, den as nat, places as nat),
{
    proof {
        lemma_powers();
    }
    let q0 = mag / den;
    let rem0 = mag % den;
    if q0 >= 0x20_0000_0000_0000 {
        let mut b: u32 = 0;
        let mut t: u128 = q0;
        proof {
            assert(q0 <= mag) by (nonlinear_arith)
                requires q0 == mag / den, den > 0;
            lemma_bit_len_upper(q0 as nat, 101);
            lemma_bit_len_lower(q0 as nat, 53);
        }
        while t > 0
            invariant
                bit_len(q0 as nat) == b + bit_len(t as nat),
                bit_len(q0 as nat) <= 101,
            decreases t,
        {
            t = t / 2;
            b = b + 1;
        }
        let s = b - 53;
        let p2s = two_pow_exec(s);
        proof {
            lemma_two_pow_monotone(0, s as nat);
        }
        let m0 = q0 / p2s;
        let low = q0 % p2s;
        proof {
            lemma_two_pow_monotone(s as nat, 48);
            assert(m0 * p2s + low == q0) by (nonlinear_arith)
                requires m0 == q0 / p2s, low == q0 % p2s, p2s > 0;
            assert(low < p2s);
        }
        let up = 2 * low > p2s || (2 * low == p2s && (rem0 > 0 || m0 % 2 == 1));
        let m = if up { m0 + 1 } else { m0 };
        proof {
            assert(m * p2s <= q0 + p2s) by (nonlinear_arith)
                requires m <= m0 + 1, m0 * p2s + low == q0, low >= 0;
            assert(m * p2s * p10 <= (0x10000000000000000000000000 + 0x1_0000_0000_0000) * 10000) by (nonlinear_arith)
                requires m * p2s <= q0 + p2s, q0 <= 0x10000000000000000000000000, p2s <= 0x1_0000_0000_0000,
                    p10 <= 10000;
        }
        let v = m * p2s * p10;
        proof {
            assert(two_pow(0) == 1);
            assert((v as nat) / 1 == v && (v as nat) % 1 == 0);
        }
        v
    } else {
        if mag == 0 {
            proof {
                lemma_scaled_round_zero(den as nat, places as nat);
            }
            return 0;
        }
        let mut q: u128 = q0;
        let mut r: u128 = rem0;
        let mut k: u32 = 0;
        proof {
            assert(q0 * den + rem0 == mag) by (nonlinear_arith)
                requires q0 == mag / den, rem0 == mag % den, den > 0;
            assert(two_pow(0) == 1);
            assert(mag * two_pow(0) == mag);
        }
        while q < 0x10_0000_0000_0000
            invariant
                0 < mag <= ratio_bound(),
                0 < den <= ratio_bound(),
                q * den + r == mag * two_pow(k as nat),
                r < den,
                q < 0x20_0000_0000_0000,
                k <= 152,
                lead_shift(mag as nat, den as nat, 0) == lead_shift(mag as nat, den as nat, k as nat),
                two_pow(52) == 0x10_0000_0000_0000,
                two_pow(152) == 0x10_0000_0000_0000 * 0x10000000000000000000000000,
            decreases 152 - k,
        {
            proof {
                assert(mag * two_pow(k as nat) < two_pow(52) * den) by (nonlinear_arith)
                    requires q * den + r == mag * two_pow(k as nat), r < den, q < two_pow(52), den > 0;
                assert(two_pow(k as nat) < two_pow(152)) by (nonlinear_arith)
                    requires mag * two_pow(k as nat) < two_pow(52) * den, mag >= 1,
                        den <= 0x10000000000000000000000000,
                        two_pow(152) == two_pow(52) * 0x10000000000000000000000000;
                if k >= 152 {
                    lemma_two_pow_monotone(152, k as nat);
                }
                assert(lead_shift(mag as nat, den as nat, k as nat) == lead_shift(mag as nat, den as nat, (k + 1) as nat));
            }
            let two_r = 2 * r;
            if two_r >= den {
                proof {
                    assert((2 * q + 1) * den + (two_r - den) == 2 * (q * den + r)) by (nonlinear_arith)
                        requires two_r == 2 * r;
                }
                q = 2 * q + 1;
                r = two_r - den;
            } else {
                proof {
                    assert((2 * q) * den + two_r == 2 * (q * den + r)) by (nonlinear_arith)
                        requires two_r == 2 * r;
                }
                q = 2 * q;
                r = two_r;
            }
            k = k + 1;
            proof {
                assert(two_pow(k as nat) == 2 * two_pow((k - 1) as nat));
                assert(mag * two_pow(k as nat) == 2 * (mag * two_pow((k - 1) as nat))) by (nonlinear_arith)
                    requires two_pow(k as nat) == 2 * two_pow((k - 1) as nat);
            }
        }
        proof {
            assert(mag * two_pow(k as nat) >= two_pow(52) * den) by (nonlinear_arith)
                requires q * den + r == mag * two_pow(k as nat), r >= 0, q >= two_pow(52), den > 0;
            assert(lead_shift(mag as nat, den as nat, k as nat) == k);
            let x = mag as nat * two_pow(k as nat);
            vstd::arithmetic::div_mod::lemma_fundamental_div_mod_converse(x as int, den as int, q as int, r as int);
            assert(x / (den as nat) == q && x % (den as nat) == r);
        }
        let m: u128 = if 2 * r > den || (2 * r == den && q % 2 == 1) { q + 1 } else { q };
        proof {
            assert(m * p10 <= 0x20_0000_0000_0000 * 10000) by (nonlinear_arith)
                requires m <= 0x20_0000_0000_0000, p10 <= 10000;
            assert(two_pow(0) == 1);
            assert(m * two_pow(0) * pow10(places as nat) == m * p10);
        }
        let z: u128 = m * p10;
        if k >= 68 {
            proof {
                lemma_two_pow_monotone(68, k as nat);
                let pk = two_pow(k as nat);
                vstd::arithmetic::div_mod::lemma_fundamental_div_mod_converse(z as int, pk as int, 0, z as int);
            }
            0
        } else {
            proof {
                lemma_two_pow_monotone(k as nat, 68);
            }
            let pk = two_pow_exec(k);
            div_half_even_exec(z, pk)
        }
    }
}

/// The `p` lowest decimal digits of `q`, zero-padded on the left.
pub open spec fn low_digits(q: nat, p: nat) -> Seq<char>
    decreases p,
{
    if p == 0 {
        seq![]
    } else {
        low_digits(q / 10, (p - 1) as nat) + seq![digit_char(q % 10)]
    }
}

/// Text of the magnitude `q / 10^p` with exactly `p` fractional digits.
pub open spec fn scaled_text(q: nat, p: nat) -> Seq<char> {
    if p == 0 {
        nat_text(q)
    } else {
        nat_text(q / pow10(p)) + seq!['.'] + low_digits(q, p)
    }
}

/// Fixed-point text of `n / d` with `p` fractional digits; a negative value keeps
/// its `-` even where it rounds to zero.
pub open spec fn fixed_text(n: int, d: int, p: nat) -> Seq<char> {
    if n < 0 {
        seq!['-'] + scaled_text(scaled_round((-n) as nat, d as nat, p), p)
    } else {
        scaled_text(scaled_round(n as nat, d as nat, p), p)
    }
}

/// Appends the `p` lowest decimal digits of `q` to `s`.
pub fn push_low_digits(s: &mut String, q: u128, p: u32)
    ensures
        final(s)@ == old(s)@ + low_digits(q as nat, p as nat),
    decreases p,
{
    if p > 0 {
        push_low_digits(s, q / 10, p - 1);
        let d = digit_str(q % 10);
        s.append(d);
        proof {
            assert(old(s)@ + low_digits(q as nat, p as nat) =~= old(s)@ + low_digits((q / 10) as nat, (p - 1) as nat) + seq![digit_char((q % 10) as nat)]);
        }
    } else {
        proof { assert(old(s)@ + low_digits(q as nat, 0) =~= old(s)@); }
    }
}

/// An exact fraction `num / den` with a positive denominator.
pub struct Ratio {
    num: i128,
    den: u128,
}

impl View for Ratio {
    type V = (int, int);

    closed spec fn view(&self) -> (int, int) {
        (self.num as int, self.den as int)
    }
}

/// `r < a / b`, for `b > 0`.
pub open spec fn frac_lt(r: (int, int), a: int, b: int) -> bool {
    r.0 * b < a * r.1
}

/// `r <= a / b`, for `b > 0`.
pub open spec fn frac_le(r: (int, int), a: int, b: int) -> bool {
    r.0 * b <= a * r.1
}

/// The pair a fraction takes when its denominator may be zero: `n / d`, or `0`
/// when `d` is zero (the convention the advisor uses for every ratio).
pub open spec fn frac_or_zero(n: int, d: int) -> (int, int) {
    if d > 0 { (n, d) } else { (0, 1) }
}

impl Ratio {
    #[verifier::type_invariant]
    spec fn well_formed(self) -> bool {
        &&& 0 < self.den <= ratio_bound()
        &&& -ratio_bound() <= self.num <= ratio_bound()
    }

    /// `num / den`, or `0` when `den` is zero.
    pub fn new(num: i64, den: u64) -> (r: Ratio)
        ensures
            r@ == frac_or_zero(num as int, den as int),
    {
        if den > 0 {
            Ratio { num: num as i128, den: den as u128 }
        } else {
            Ratio { num: 0, den: 1 }
        }
    }

    /// `num / den` for counts, or `0` when `den` is zero.
    pub fn of_counts(num: u64, den: u64) -> (r: Ratio)
        ensures
            r@ == frac_or_zero(num as int, den as int),
    {
        if den > 0 {
            Ratio { num: num as i128, den: den as u128 }
        } else {
            Ratio { num: 0, den: 1 }
        }
    }

    /// Builds `num / den` from parts already inside the bounds.
    pub fn from_parts(num: i128, den: u128) -> (r: Ratio)
        requires
            0 < den <= ratio_bound(),
            -ratio_bound() <= num <= ratio_bound(),
        ensures
            r@ == (num as int, den as int),
    {
        Ratio { num, den }
    }

    /// The whole number `v`.
    pub fn from_int(v: i64) -> (r: Ratio)
        ensures
            r@ == (v as int, 1int),
    {
        Ratio { num: v as i128, den: 1 }
    }

    pub fn numerator(&self) -> (n: i128)
        ensures
            n == self@.0,
            -ratio_bound() <= n <= ratio_bound(),
    {
        proof { use_type_invariant(self); }
        self.num
    }

    pub fn denominator(&self) -> (d: u128)
        ensures
            d == self@.1,
            0 < d <= ratio_bound(),
    {
        proof { use_type_invariant(self); }
        self.den
    }

    /// Whether `self < a / b`.
    pub fn lt_frac(&self, a: i64, b: u64) -> (res: bool)
        requires
            0 < b <= 0x100000,
            -0x100000 <= a <= 0x100000,
        ensures
            res == frac_lt(self@, a as int, b as int),
    {
        proof { use_type_invariant(self); }
        proof {
            assert(-0x100000 * ratio_bound() <= self.num * (b as int) <= 0x100000 * ratio_bound()) by (nonlinear_arith)
                requires 0 < b <= 0x100000, -ratio_bound() <= self.num <= ratio_bound();
            assert(-0x100000 * ratio_bound() <= (a as int) * self.den <= 0x100000 * ratio_bound()) by (nonlinear_arith)
                requires -0x100000 <= a <= 0x100000, 0 < self.den <= ratio_bound();
        }
        let lhs: i128 = self.num * (b as i128);
        let rhs: i128 = (a as i128) * (self.den as i128);
        proof {
            assert(-0x100000 * ratio_bound() <= lhs <= 0x100000 * ratio_bound()) by (nonlinear_arith)
                requires lhs == self.num * (b as int), 0 < b <= 0x100000, -ratio_bound() <= self.num <= ratio_bound();
            assert(-0x100000 * ratio_bound() <= rhs <= 0x100000 * ratio_bound()) by (nonlinear_arith)
                requires rhs == (a as int) * self.den, -0x100000 <= a <= 0x100000, 0 < self.den <= ratio_bound();
        }
        lhs < rhs
    }

    /// Whether `self <= a / b`.
    pub fn le_frac(&self, a: i64, b: u64) -> (res: bool)
        requires
            0 < b <= 0x100000,
            -0x100000 <= a <= 0x100000,
        ensures
            res == frac_le(self@, a as int, b as int),
    {
        proof { use_type_invariant(self); }
        proof {
            assert(-0x100000 * ratio_bound() <= self.num * (b as int) <= 0x100000 * ratio_bound()) by (nonlinear_arith)
                requires 0 < b <= 0x100000, -ratio_bound() <= self.num <= ratio_bound();
            assert(-0x100000 * ratio_bound() <= (a as int) * self.den <= 0x100000 * ratio_bound()) by (nonlinear_arith)
                requires -0x100000 <= a <= 0x100000, 0 < self.den <= ratio_bound();
        }
        let lhs: i128 = self.num * (b as i128);
        let rhs: i128 = (a as i128) * (self.den as i128);
        proof {
            assert(-0x100000 * ratio_bound() <= lhs <= 0x100000 * ratio_bound()) by (nonlinear_arith)
                requires lhs == self.num * (b as int), 0 < b <= 0x100000, -ratio_bound() <= self.num <= ratio_bound();
            assert(-0x100000 * ratio_bound() <= rhs <= 0x100000 * ratio_bound()) by (nonlinear_arith)
                requires rhs == (a as int) * self.den, -0x100000 <= a <= 0x100000, 0 < self.den <= ratio_bound();
        }
        lhs <= rhs
    }

    /// A copy of this fraction.
    pub fn copy(&self) -> (r: Ratio)
        ensures
            r@ == self@,
            r == *self,
    {
        proof { use_type_invariant(self); }
        Ratio { num: self.num, den: self.den }
    }

    /// Fixed-point text with `places` fractional digits, as the nearest `f64`
    /// to the fraction prints (see `scaled_round`).
    pub fn to_fixed(&self, places: u32) -> (s: String)
        requires
            places <= 4,
        ensures
            s@ == fixed_text(self@.0, self@.1, places as nat),
    {
        proof { use_type_invariant(self); }
        proof { reveal_with_fuel(pow10, 5); }
        let mut p10: u128 = 1;
        let mut i: u32 = 0;
        while i < places
            invariant
                i <= places <= 4,
                p10 == pow10(i as nat),
                pow10(0) == 1 && pow10(1) == 10 && pow10(2) == 100 && pow10(3) == 1000 && pow10(4) == 10000,
            decreases places - i,
        {
            proof {
                assert(pow10((i + 1) as nat) == 10 * pow10(i as nat));
            }
            p10 = p10 * 10;
            i = i + 1;
        }
        assert(1 <= p10 <= 10000);
        let neg = self.num < 0;
        let mag: u128 = if neg { (-self.num) as u128 } else { self.num as u128 };
        let den = self.den;
        let q: u128 = scaled_round_exec(mag, den, places, p10);
        let mut s = String::new();
        if neg {
            s.append("-");
        }
        let ghost sign = s@;
        if places == 0 {
            push_nat(&mut s, q);
        } else {
            push_nat(&mut s, q / p10);
            s.append(".");
            push_low_digits(&mut s, q, places);
        }
        proof {
            reveal_strlit("-");
            reveal_strlit(".");
            assert(q == scaled_round(mag as nat, den as nat, places as nat));
            assert(s@ =~= sign + scaled_text(q as nat, places as nat));
            if neg {
                assert(sign =~= seq!['-']);
            } else {
                assert(sign =~= Seq::<char>::empty());
            }
        }
        s
    }
}

} // verus!
