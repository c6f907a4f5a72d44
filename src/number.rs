//! Lox numbers, held exactly as reduced fractions of 64-bit integers.
use vstd::prelude::*;
use crate::text::{decimal, digit_char, digit_of, push_decimal, string_of};

verus! {

/// The largest magnitude of a numerator or denominator.
pub const LIMIT: i64 = 0x7fff_ffff_ffff_ffff;

/// A number: the fraction `num / den`, with `den` positive.
#[derive(Clone, Copy, Debug, PartialEq, Eq, Structural)]
pub struct Number {
    num: i64,
    den: i64,
}

/// Euclid's greatest common divisor.
pub open spec fn gcd(a: nat, b: nat) -> nat
    decreases b,
{
    if b == 0 {
        a
    } else {
        gcd(b, a % b)
    }
}

pub proof fn lemma_gcd_bounds(a: nat, b: nat)
    requires
        b > 0,
    ensures
        0 < gcd(a, b) <= b,
    decreases b,
{
    reveal_with_fuel(gcd, 2);
    if a % b != 0 {
        lemma_gcd_bounds(b, a % b);
    } else {
        assert(gcd(b, 0) == b);
    }
}

pub open spec fn abs(n: int) -> nat {
    if n < 0 {
        (-n) as nat
    } else {
        n as nat
    }
}

/// The fraction `n / d` (with `d > 0`) in lowest terms, when both parts fit.
pub closed spec fn make(n: int, d: int) -> Option<Number> {
    let g = gcd(abs(n), abs(d));
    let m = abs(n) / g;
    let q = abs(d) / g;
    if m <= LIMIT && q <= LIMIT {
        Some(Number { num: (if n < 0 { -m } else { m as int }) as i64, den: q as i64 })
    } else {
        None
    }
}

impl Number {
    #[verifier::type_invariant]
    pub closed spec fn wf(self) -> bool {
        self.den > 0
    }

    pub closed spec fn numerator(self) -> int {
        self.num as int
    }

    pub closed spec fn denominator(self) -> int {
        self.den as int
    }

    /// The exact sum, when it fits.
    pub closed spec fn spec_add(self, o: Number) -> Option<Number> {
        make(self.num * o.den + o.num * self.den, self.den * o.den)
    }

    pub closed spec fn spec_sub(self, o: Number) -> Option<Number> {
        make(self.num * o.den - o.num * self.den, self.den * o.den)
    }

    pub closed spec fn spec_mul(self, o: Number) -> Option<Number> {
        make(self.num * o.num, self.den * o.den)
    }

    /// The exact quotient of two numbers, the divisor not zero.
    pub closed spec fn spec_div(self, o: Number) -> Option<Number> {
        if o.num < 0 {
            make(-(self.num * o.den), -(self.den * o.num))
        } else {
            make(self.num * o.den, self.den * o.num)
        }
    }

    pub closed spec fn spec_neg(self) -> Option<Number> {
        make(-self.num, self.den as int)
    }

    /// The two fractions denote the same rational number.
    pub closed spec fn same(self, o: Number) -> bool {
        self.num * o.den == o.num * self.den
    }

    pub closed spec fn less(self, o: Number) -> bool {
        self.num * o.den < o.num * self.den
    }

    pub closed spec fn is_zero(self) -> bool {
        self.num == 0
    }

    /// The integer `n`.
    pub closed spec fn spec_int(n: i64) -> Number {
        Number { num: n, den: 1 }
    }
}

fn gcd_exec(a: u128, b: u128) -> (r: u128)
    ensures
        r == gcd(a as nat, b as nat),
    decreases b,
{
    if b == 0 {
        a
    } else {
        gcd_exec(b, a % b)
    }
}

/// The largest magnitude of a product of two parts.
const PRODUCT: i128 = 0x3fff_ffff_ffff_ffff_8000_0000_0000_0000;

/// The largest magnitude of a sum of two such products.
const BOUND: i128 = 0x7fff_ffff_ffff_ffff_0000_0000_0000_0000;

/// The fraction `n / d` in lowest terms, or `None` where it does not fit.
fn make_exec(n: i128, d: i128) -> (r: Option<Number>)
    requires
        -BOUND <= n <= BOUND,
        0 < d <= BOUND,
    ensures
        r == make(n as int, d as int),
{
    let m: u128 = if n < 0 { (-n) as u128 } else { n as u128 };
    let dd: u128 = d as u128;
    let g = gcd_exec(m, dd);
    proof {
        lemma_gcd_bounds(m as nat, dd as nat);
    }
    let a = m / g;
    let b = dd / g;
    assert(b >= 1) by (nonlinear_arith)
        requires
            b == dd / g,
            0 < g <= dd,
    ;
    if a <= LIMIT as u128 && b <= LIMIT as u128 {
        let num: i64 = if n < 0 { -(a as i64) } else { a as i64 };
        Some(Number { num, den: b as i64 })
    } else {
        None
    }
}

impl Number {
    /// The integer `n` as a number.
    pub fn from_int(n: i64) -> (r: Number)
        ensures
            r == Number::spec_int(n),
    {
        Number { num: n, den: 1 }
    }

    pub fn add(self, o: Number) -> (r: Option<Number>)
        ensures
            r == self.spec_add(o),
    {
        proof {
            use_type_invariant(self);
            use_type_invariant(o);
        }
        let a = self.num as i128;
        let b = self.den as i128;
        let c = o.num as i128;
        let d = o.den as i128;
        proof {
            lemma_products(a as int, b as int, c as int, d as int);
        }
        make_exec(a * d + c * b, b * d)
    }

    pub fn sub(self, o: Number) -> (r: Option<Number>)
        ensures
            r == self.spec_sub(o),
    {
        proof {
            use_type_invariant(self);
            use_type_invariant(o);
        }
        let a = self.num as i128;
        let b = self.den as i128;
        let c = o.num as i128;
        let d = o.den as i128;
        proof {
            lemma_products(a as int, b as int, c as int, d as int);
        }
        make_exec(a * d - c * b, b * d)
    }

    pub fn mul(self, o: Number) -> (r: Option<Number>)
        ensures
            r == self.spec_mul(o),
    {
        proof {
            use_type_invariant(self);
            use_type_invariant(o);
        }
        let a = self.num as i128;
        let b = self.den as i128;
        let c = o.num as i128;
        let d = o.den as i128;
        proof {
            lemma_products(a as int, b as int, c as int, d as int);
        }
        make_exec(a * c, b * d)
    }

    /// The quotient; the divisor must not be zero.
    pub fn div(self, o: Number) -> (r: Option<Number>)
        requires
            !o.is_zero(),
        ensures
            r == self.spec_div(o),
    {
        proof {
            use_type_invariant(self);
            use_type_invariant(o);
        }
        let a = self.num as i128;
        let b = self.den as i128;
        let c = o.num as i128;
        let d = o.den as i128;
        proof {
            lemma_products(a as int, b as int, c as int, d as int);
        }
        if c < 0 {
            make_exec(-(a * d), -(b * c))
        } else {
            make_exec(a * d, b * c)
        }
    }

    pub fn neg(self) -> (r: Option<Number>)
        ensures
            r == self.spec_neg(),
    {
        proof {
            use_type_invariant(self);
        }
        make_exec(-(self.num as i128), self.den as i128)
    }

    pub fn is_zero_exec(self) -> (r: bool)
        ensures
            r == self.is_zero(),
    {
        self.num == 0
    }

    /// Whether the two numbers are equal as rationals.
    pub fn equals(self, o: Number) -> (r: bool)
        ensures
            r == self.same(o),
    {
        proof {
            use_type_invariant(self);
            use_type_invariant(o);
        }
        let a = self.num as i128;
        let b = self.den as i128;
        let c = o.num as i128;
        let d = o.den as i128;
        proof {
            lemma_products(a as int, b as int, c as int, d as int);
        }
        a * d == c * b
    }

    pub fn less_than(self, o: Number) -> (r: bool)
        ensures
            r == self.less(o),
    {
        proof {
            use_type_invariant(self);
            use_type_invariant(o);
        }
        let a = self.num as i128;
        let b = self.den as i128;
        let c = o.num as i128;
        let d = o.den as i128;
        proof {
            lemma_products(a as int, b as int, c as int, d as int);
        }
        a * d < c * b
    }
}

proof fn lemma_products(a: int, b: int, c: int, d: int)
    requires
        -LIMIT - 1 <= a <= LIMIT,
        -LIMIT - 1 <= c <= LIMIT,
        0 < b <= LIMIT,
        0 < d <= LIMIT,
    ensures
        -PRODUCT <= a * d <= PRODUCT,
        -PRODUCT <= c * b <= PRODUCT,
        -BOUND <= a * c <= BOUND,
        0 < b * d <= PRODUCT,
        -PRODUCT <= b * c <= PRODUCT,
        c < 0 ==> b * c < 0,
        c > 0 ==> b * c > 0,
{
    assert(c < 0 ==> b * c < 0) by (nonlinear_arith)
        requires
            0 < b,
    ;
    assert(c > 0 ==> b * c > 0) by (nonlinear_arith)
        requires
            0 < b,
    ;
    assert(-PRODUCT <= a * d <= PRODUCT) by (nonlinear_arith)
        requires
            -LIMIT - 1 <= a <= LIMIT,
            0 < d <= LIMIT,
    ;
    assert(-PRODUCT <= c * b <= PRODUCT) by (nonlinear_arith)
        requires
            -LIMIT - 1 <= c <= LIMIT,
            0 < b <= LIMIT,
    ;
    assert(-BOUND <= a * c <= BOUND) by (nonlinear_arith)
        requires
            -LIMIT - 1 <= a <= LIMIT,
            -LIMIT - 1 <= c <= LIMIT,
    ;
    assert(0 < b * d <= PRODUCT) by (nonlinear_arith)
        requires
            0 < b <= LIMIT,
            0 < d <= LIMIT,
    ;
    assert(-PRODUCT <= b * c <= PRODUCT) by (nonlinear_arith)
        requires
            -LIMIT - 1 <= c <= LIMIT,
            0 < b <= LIMIT,
    ;
}

/// The digits of the fractional part of `r / d` (with `r < d`), at most `k` of them,
/// stopping where the expansion terminates.
pub open spec fn fraction_digits(r: nat, d: nat, k: nat) -> Seq<char>
    decreases k,
{
    if k == 0 || r == 0 || d == 0 {
        seq![]
    } else {
        seq![digit_char((r * 10) / d)] + fraction_digits((r * 10) % d, d, (k - 1) as nat)
    }
}

/// How many fractional digits a number prints with at most.
pub const FRACTION_DIGITS: u64 = 16;

/// The printed form of a number: an optional minus sign, the whole part, and,
/// where the fraction is not whole, a point and its decimal expansion (cut
/// after sixteen digits where it does not terminate).
pub closed spec fn number_text(n: Number) -> Seq<char> {
    let m = abs(n.num as int);
    let d = n.den as nat;
    let sign = if n.num < 0 {
        seq!['-']
    } else {
        seq![]
    };
    let whole = sign + decimal(m / d);
    if m % d == 0 {
        whole
    } else {
        whole + seq!['.'] + fraction_digits(m % d, d, FRACTION_DIGITS as nat)
    }
}

fn push_fraction(r: u64, d: u64, k: u64, out: &mut Vec<char>)
    requires
        r < d,
    ensures
        final(out)@ == old(out)@ + fraction_digits(r as nat, d as nat, k as nat),
    decreases k,
{
    if k == 0 || r == 0 {
        return;
    }
    let t: u128 = (r as u128) * 10;
    let q: u128 = t / (d as u128);
    let rest: u128 = t % (d as u128);
    assert(q < 10) by (nonlinear_arith)
        requires
            q == t / (d as u128),
            t == r * 10,
            r < d,
    ;
    out.push(digit_of(q as u64));
    push_fraction(rest as u64, d, k - 1, out);
    assert(old(out)@ + fraction_digits(r as nat, d as nat, k as nat) == old(out)@ + seq![
        digit_char(q as nat),
    ] + fraction_digits(rest as nat, d as nat, (k - 1) as nat));
}

impl Number {
    /// The printed form of the number.
    pub fn to_text(self) -> (r: String)
        ensures
            r@ == number_text(self),
    {
        proof {
            use_type_invariant(self);
        }
        let m: u64 = if self.num < 0 { (-(self.num as i128)) as u64 } else { self.num as u64 };
        let d: u64 = self.den as u64;
        let mut out: Vec<char> = Vec::new();
        if self.num < 0 {
            out.push('-');
        }
        push_decimal(m / d, &mut out);
        if m % d != 0 {
            out.push('.');
            push_fraction(m % d, d, FRACTION_DIGITS, &mut out);
        }
        proof {
            let sign = if self.num < 0 {
                seq!['-']
            } else {
                seq![]
            };
            assert(sign + decimal((m / d) as nat) + seq!['.'] == (sign + decimal((m / d) as nat)).push('.'));
        }
        string_of(out.as_slice())
    }
}

/// The value of a run of decimal digits.
pub open spec fn digits_value(s: Seq<char>) -> nat
    decreases s.len(),
{
    if s.len() == 0 {
        0
    } else {
        digits_value(s.drop_last()) * 10 + ((s.last() as nat) - ('0' as nat)) as nat
    }
}

pub open spec fn is_digit_char(c: char) -> bool {
    '0' <= c <= '9'
}

pub open spec fn pow10(k: nat) -> nat
    decreases k,
{
    if k == 0 {
        1
    } else {
        10 * pow10((k - 1) as nat)
    }
}

/// The number that a literal denotes, given its digits without the point and
/// how many of them follow the point; `None` where it is out of range.
pub closed spec fn literal_value(digits: Seq<char>, scale: nat) -> Option<Number> {
    if digits_value(digits) <= LIMIT && scale <= 18 {
        make(digits_value(digits) as int, pow10(scale) as int)
    } else {
        None
    }
}

proof fn lemma_digits_value_grows(s: Seq<char>, i: int)
    requires
        0 <= i <= s.len(),
        forall|j: int| 0 <= j < s.len() ==> is_digit_char(#[trigger] s[j]),
    ensures
        digits_value(s.subrange(0, i)) <= digits_value(s),
    decreases s.len() - i,
{
    if i < s.len() {
        lemma_digits_value_grows(s, i + 1);
        assert(s.subrange(0, i + 1).drop_last() == s.subrange(0, i));
    } else {
        assert(s.subrange(0, i) == s);
    }
}

proof fn lemma_pow10_bound(k: nat)
    requires
        k <= 18,
    ensures
        1 <= pow10(k) <= 1_000_000_000_000_000_000,
    decreases 18 - k,
{
    lemma_pow10_positive(k);
    if k < 18 {
        lemma_pow10_bound(k + 1);
    } else {
        reveal_with_fuel(pow10, 19);
    }
}

proof fn lemma_pow10_positive(k: nat)
    ensures
        1 <= pow10(k),
    decreases k,
{
    if k > 0 {
        lemma_pow10_positive((k - 1) as nat);
    }
}

impl Number {
    /// The number denoted by the decimal digits `digits`, of which the last
    /// `scale` follow the point.
    pub fn from_literal(digits: &[char], scale: usize) -> (r: Option<Number>)
        requires
            forall|j: int| 0 <= j < digits@.len() ==> is_digit_char(#[trigger] digits@[j]),
        ensures
            r == literal_value(digits@, scale as nat),
    {
        let mut v: u64 = 0;
        let mut i: usize = 0;
        while i < digits.len()
            invariant
                i <= digits@.len(),
                v == digits_value(digits@.subrange(0, i as int)),
                v <= LIMIT,
                forall|j: int| 0 <= j < digits@.len() ==> is_digit_char(#[trigger] digits@[j]),
            decreases digits@.len() - i,
        {
            let c = digits[i];
            let dv: u64 = (c as u32 - '0' as u32) as u64;
            assert(digits@.subrange(0, i + 1).drop_last() == digits@.subrange(0, i as int));
            if v > (LIMIT as u64 - dv) / 10 {
                proof {
                    lemma_digits_value_grows(digits@, i + 1);
                }
                return None;
            }
            v = v * 10 + dv;
            i = i + 1;
        }
        assert(digits@.subrange(0, digits@.len() as int) == digits@);
        if scale > 18 {
            return None;
        }
        let mut p: u64 = 1;
        let mut k: usize = 0;
        while k < scale
            invariant
                k <= scale <= 18,
                p == pow10(k as nat),
            decreases scale - k,
        {
            proof {
                lemma_pow10_bound(k as nat);
            }
            p = p * 10;
            k = k + 1;
        }
        proof {
            lemma_pow10_bound(scale as nat);
        }
        make_exec(v as i128, p as i128)
    }
}

impl Number {
    /// `ms` thousandths, as a number of seconds.
    pub fn from_millis(ms: u64) -> (r: Number)
        requires
            ms <= LIMIT,
        ensures
            Some(r) == make(ms as int, 1000),
    {
        proof {
            lemma_gcd_bounds(ms as nat, 1000);
            let g = gcd(ms as nat, 1000);
            assert(ms as nat / g <= ms as nat) by (nonlinear_arith)
                requires
                    g >= 1,
            ;
            assert(1000nat / g <= 1000) by (nonlinear_arith)
                requires
                    g >= 1,
            ;
        }
        match make_exec(ms as i128, 1000) {
            Some(n) => n,
            None => Number::from_int(0),
        }
    }
}

proof fn lemma_digits_value_bound(s: Seq<char>)
    requires
        forall|j: int| 0 <= j < s.len() ==> is_digit_char(#[trigger] s[j]),
    ensures
        digits_value(s) < pow10(s.len()),
    decreases s.len(),
{
    if s.len() > 0 {
        let p = s.drop_last();
        assert forall|j: int| 0 <= j < p.len() implies is_digit_char(#[trigger] p[j]) by {
            assert(p[j] == s[j]);
        }
        lemma_digits_value_bound(p);
        assert(is_digit_char(s[s.len() - 1]));
    }
}

/// A literal of at most eighteen digits is in range.
pub proof fn lemma_short_literal(digits: Seq<char>, scale: nat)
    requires
        forall|j: int| 0 <= j < digits.len() ==> is_digit_char(#[trigger] digits[j]),
        digits.len() <= 18,
        scale <= 18,
    ensures
        literal_value(digits, scale) is Some,
{
    lemma_digits_value_bound(digits);
    lemma_pow10_bound(digits.len());
    lemma_pow10_bound(scale);
    let v = digits_value(digits);
    let d = pow10(scale);
    lemma_gcd_bounds(abs(v as int), abs(d as int));
    let g = gcd(abs(v as int), abs(d as int));
    assert(abs(v as int) / g <= abs(v as int)) by (nonlinear_arith)
        requires
            g >= 1,
    ;
    assert(abs(d as int) / g <= abs(d as int)) by (nonlinear_arith)
        requires
            g >= 1,
    ;
}

} // verus!
