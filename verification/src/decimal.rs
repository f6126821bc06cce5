//! Exact fixed-point decimals: a signed 96-bit mantissa and a scale of at most 28 digits.
//!
//! A decimal stands for `mantissa / 10^scale`. Two decimals with different scales may
//! stand for the same number (`10.0` and `10.00`); [`FixedDecimal::value`] is the number
//! itself, in units of `10^-28`, and is what the order book keys and orders prices by.
//!
//! Text is turned into decimals, and decimals are subtracted, by the `rust_decimal`
//! crate. Those two calls are the only unverified code here; each is a small wrapper
//! whose contract names what the crate returns without restating how it computes it.

use std::str::FromStr;
use vstd::arithmetic::div_mod::lemma_fundamental_div_mod;
use vstd::arithmetic::div_mod::lemma_fundamental_div_mod_converse;
use vstd::prelude::*;

verus! {

/// Largest magnitude of a mantissa: `2^96 - 1`.
pub const MAX_MANTISSA: i128 = 79_228_162_514_264_337_593_543_950_335;

/// Largest scale: the number of digits after the decimal point never exceeds this.
pub const MAX_SCALE: u32 = 28;

/// `10^28`: how many value units make up one whole.
pub const UNITS_PER_WHOLE: u128 = 10_000_000_000_000_000_000_000_000_000;

/// `10^n`.
pub open spec fn pow10(n: nat) -> nat
    decreases n,
{
    if n == 0 {
        1
    } else {
        10 * pow10((n - 1) as nat)
    }
}

pub proof fn lemma_pow10_positive(n: nat)
    ensures
        pow10(n) > 0,
    decreases n,
{
    if n > 0 {
        lemma_pow10_positive((n - 1) as nat);
    }
}

pub proof fn lemma_pow10_monotonic(a: nat, b: nat)
    requires
        a <= b,
    ensures
        pow10(a) <= pow10(b),
    decreases b,
{
    if a < b {
        lemma_pow10_monotonic(a, (b - 1) as nat);
    }
}

pub proof fn lemma_pow10_add(a: nat, b: nat)
    ensures
        pow10(a + b) == pow10(a) * pow10(b),
    decreases a,
{
    if a == 0 {
        assert(pow10(a) * pow10(b) == pow10(b)) by (nonlinear_arith)
            requires
                pow10(a) == 1,
        ;
    } else {
        lemma_pow10_add((a - 1) as nat, b);
        let x = pow10((a - 1) as nat);
        let y = pow10(b);
        assert(pow10(a + b) == 10 * pow10((a + b - 1) as nat));
        assert(10 * (x * y) == (10 * x) * y) by (nonlinear_arith);
    }
}

pub proof fn lemma_pow10_max_scale()
    ensures
        pow10(MAX_SCALE as nat) == UNITS_PER_WHOLE,
{
    reveal_with_fuel(pow10, 29);
}

/// `10^n` for `n <= 28`, which fits comfortably in a `u128`.
fn pow10_exec(n: u32) -> (r: u128)
    requires
        n <= MAX_SCALE,
    ensures
        r == pow10(n as nat),
        0 < r <= UNITS_PER_WHOLE,
{
    let mut r: u128 = 1;
    let mut i: u32 = 0;
    proof {
        lemma_pow10_max_scale();
    }
    while i < n
        invariant
            i <= n <= MAX_SCALE,
            r == pow10(i as nat),
            0 < r <= UNITS_PER_WHOLE,
            pow10(MAX_SCALE as nat) == UNITS_PER_WHOLE,
        decreases n - i,
    {
        proof {
            lemma_pow10_monotonic((i + 1) as nat, MAX_SCALE as nat);
        }
        r = r * 10;
        i = i + 1;
    }
    r
}

/// What `rust_decimal` makes of a text: the mantissa and scale of the decimal it
/// parses it to, or `None` where it rejects the text.
pub uninterp spec fn decimal_from_str(text: Seq<char>) -> Option<(i128, u32)>;

/// What `rust_decimal` returns for `a - b`, each operand given by mantissa and scale:
/// the mantissa and scale of the difference, or `None` where the difference does not
/// fit a decimal.
pub uninterp spec fn decimal_checked_sub(
    a_mantissa: i128,
    a_scale: u32,
    b_mantissa: i128,
    b_scale: u32,
) -> Option<(i128, u32)>;

/// `rust_decimal::Error`, the parser's error: carried through as an opaque value and
/// never read.
#[verifier::external_type_specification]
#[verifier::external_body]
pub struct ExDecimalError(rust_decimal::Error);

/// Calls `rust_decimal::Decimal::from_str` and hands back the parsed decimal's
/// `mantissa()` and `scale()`.
///
/// Trusted: the parser is a function of the text alone, so its outcome is named
/// [`decimal_from_str`]. Nothing is claimed about which texts parse or to what.
#[verifier::external_body]
fn parse_parts(text: &str) -> (r: Result<(i128, u32), rust_decimal::Error>)
    ensures
        match r {
            Ok(parts) => decimal_from_str(text@) == Some(parts),
            Err(_) => decimal_from_str(text@) is None,
        },
{
    match rust_decimal::Decimal::from_str(text) {
        Ok(d) => Ok((d.mantissa(), d.scale())),
        Err(e) => Err(e),
    }
}

/// Calls `rust_decimal::Decimal::checked_sub` on the two decimals rebuilt with
/// `Decimal::from_i128_with_scale`, and hands back the difference's `mantissa()` and
/// `scale()`.
///
/// Trusted: subtraction is a function of the operands alone, so its outcome is named
/// [`decimal_checked_sub`]. Rebuilding panics on a mantissa beyond 96 bits or a scale
/// beyond 28; the precondition rules both out.
#[verifier::external_body]
fn checked_sub_parts(a: FixedDecimal, b: FixedDecimal) -> (r: Option<(i128, u32)>)
    requires
        a.wf(),
        b.wf(),
    ensures
        r == decimal_checked_sub(a.mantissa(), a.scale(), b.mantissa(), b.scale()),
{
    let x = rust_decimal::Decimal::from_i128_with_scale(a.mantissa, a.scale);
    let y = rust_decimal::Decimal::from_i128_with_scale(b.mantissa, b.scale);
    match x.checked_sub(y) {
        Some(d) => Some((d.mantissa(), d.scale())),
        None => None,
    }
}

/// An exact decimal number: `mantissa / 10^scale`.
#[derive(Clone, Copy, Debug, PartialEq, Eq, Structural)]
pub struct FixedDecimal {
    mantissa: i128,
    scale: u32,
}

/// Whether a mantissa and a scale are within what a decimal can hold.
pub open spec fn in_range(mantissa: i128, scale: u32) -> bool {
    -MAX_MANTISSA <= mantissa <= MAX_MANTISSA && scale <= MAX_SCALE
}

/// The decimal that a text parses to, if it is one.
pub open spec fn parse_spec(text: Seq<char>) -> Option<FixedDecimal> {
    match decimal_from_str(text) {
        Some(parts) => FixedDecimal::from_parts_spec(parts.0, parts.1),
        None => None,
    }
}

/// The difference `a - b`, if a decimal can hold it.
pub open spec fn difference_spec(a: FixedDecimal, b: FixedDecimal) -> Option<FixedDecimal> {
    match decimal_checked_sub(a.mantissa(), a.scale(), b.mantissa(), b.scale()) {
        Some(parts) => FixedDecimal::from_parts_spec(parts.0, parts.1),
        None => None,
    }
}

impl FixedDecimal {
    /// Every decimal that executable code holds is within range.
    #[verifier::type_invariant]
    pub closed spec fn wf(self) -> bool {
        in_range(self.mantissa, self.scale)
    }

    pub closed spec fn spec_mantissa(&self) -> i128 {
        self.mantissa
    }

    pub closed spec fn spec_scale(&self) -> u32 {
        self.scale
    }

    /// The number this decimal stands for, in units of `10^-28`.
    pub open spec fn value(self) -> int {
        self.mantissa() * pow10((MAX_SCALE - self.scale()) as nat)
    }

    /// The decimal with the given mantissa and scale, where they are within range.
    pub closed spec fn from_parts_spec(mantissa: i128, scale: u32) -> Option<FixedDecimal> {
        if in_range(mantissa, scale) {
            Some(FixedDecimal { mantissa, scale })
        } else {
            None
        }
    }

    /// A decimal built from parts has those parts, is well formed, and exists exactly
    /// when the parts are within range.
    pub proof fn lemma_from_parts(mantissa: i128, scale: u32)
        ensures
            Self::from_parts_spec(mantissa, scale) is Some <==> in_range(mantissa, scale),
            Self::from_parts_spec(mantissa, scale) matches Some(d) ==> d.wf() && d.mantissa()
                == mantissa && d.scale() == scale,
    {
    }

    /// Zero is the only value with a zero mantissa.
    pub proof fn lemma_value_zero(self)
        ensures
            self.value() == 0 <==> self.mantissa() == 0,
    {
        let p = pow10((MAX_SCALE - self.scale()) as nat);
        lemma_pow10_positive((MAX_SCALE - self.scale()) as nat);
        let m = self.mantissa() as int;
        assert(m * p == 0 <==> m == 0) by (nonlinear_arith)
            requires
                p > 0,
        ;
    }

    /// Builds a decimal from a mantissa and a scale; `None` where either is out of range.
    pub fn new(mantissa: i128, scale: u32) -> (r: Option<FixedDecimal>)
        ensures
            r == Self::from_parts_spec(mantissa, scale),
            r is Some <==> in_range(mantissa, scale),
            r matches Some(d) ==> d.mantissa() == mantissa && d.scale() == scale,
    {
        if -MAX_MANTISSA <= mantissa && mantissa <= MAX_MANTISSA && scale <= MAX_SCALE {
            Some(FixedDecimal { mantissa, scale })
        } else {
            None
        }
    }

    #[verifier::when_used_as_spec(spec_mantissa)]
    pub fn mantissa(&self) -> (r: i128)
        ensures
            r == self.mantissa(),
            -MAX_MANTISSA <= r <= MAX_MANTISSA,
    {
        proof {
            use_type_invariant(self);
        }
        self.mantissa
    }

    #[verifier::when_used_as_spec(spec_scale)]
    pub fn scale(&self) -> (r: u32)
        ensures
            r == self.scale(),
            r <= MAX_SCALE,
    {
        proof {
            use_type_invariant(self);
        }
        self.scale
    }

    /// Whether the decimal stands for zero, whatever its scale.
    pub fn is_zero(&self) -> (r: bool)
        ensures
            r == (self.value() == 0),
    {
        proof {
            self.lemma_value_zero();
        }
        self.mantissa == 0
    }

    /// Parses a decimal from text. `None` where the text is not a decimal.
    pub fn parse(text: &str) -> (r: Option<FixedDecimal>)
        ensures
            r == parse_spec(text@),
    {
        match parse_parts(text) {
            Ok(parts) => FixedDecimal::new(parts.0, parts.1),
            Err(_) => None,
        }
    }

    /// `self - other`. `None` where the difference is beyond what a decimal can hold.
    pub fn checked_sub(&self, other: &FixedDecimal) -> (r: Option<FixedDecimal>)
        ensures
            r == difference_spec(*self, *other),
    {
        proof {
            use_type_invariant(self);
            use_type_invariant(other);
        }
        match checked_sub_parts(*self, *other) {
            Some(parts) => FixedDecimal::new(parts.0, parts.1),
            None => None,
        }
    }
}

/// The number a sort key stands for, in units of `10^-28`: so many wholes, and a
/// fraction of a whole.
pub open spec fn key_value(key: (i128, u128)) -> int {
    key.0 * UNITS_PER_WHOLE + key.1
}

/// A sort key is canonical when its fraction is less than one whole. Canonical keys
/// stand one for one for the values they can hold.
pub open spec fn key_canonical(key: (i128, u128)) -> bool {
    key.1 < UNITS_PER_WHOLE
}

/// The canonical sort key of a value: its floor, and what is left above the floor.
pub open spec fn key_of(value: int) -> (i128, u128) {
    ((value / (UNITS_PER_WHOLE as int)) as i128, (value % (UNITS_PER_WHOLE as int)) as u128)
}

/// Whether a value is small enough for a sort key to hold.
pub open spec fn key_holds(value: int) -> bool {
    key_value(key_of(value)) == value
}

/// The order of pairs: by the first part, then by the second.
pub open spec fn key_less(a: (i128, u128), b: (i128, u128)) -> bool {
    a.0 < b.0 || (a.0 == b.0 && a.1 < b.1)
}

/// A canonical key is the key of its value.
pub proof fn lemma_key_of_value(key: (i128, u128))
    requires
        key_canonical(key),
    ensures
        key_of(key_value(key)) == key,
        key_holds(key_value(key)),
{
    lemma_fundamental_div_mod_converse(
        key_value(key),
        UNITS_PER_WHOLE as int,
        key.0 as int,
        key.1 as int,
    );
}

/// Canonical keys order as their values do.
pub proof fn lemma_key_order(a: (i128, u128), b: (i128, u128))
    requires
        key_canonical(a),
        key_canonical(b),
    ensures
        key_less(a, b) <==> key_value(a) < key_value(b),
        a == b <==> key_value(a) == key_value(b),
{
    let u = UNITS_PER_WHOLE as int;
    let (a0, a1) = (a.0 as int, a.1 as int);
    let (b0, b1) = (b.0 as int, b.1 as int);
    if a0 < b0 {
        assert(a0 * u + a1 < b0 * u + b1) by (nonlinear_arith)
            requires
                a0 + 1 <= b0,
                0 <= a1 < u,
                0 <= b1,
        ;
    } else if b0 < a0 {
        assert(b0 * u + b1 < a0 * u + a1) by (nonlinear_arith)
            requires
                b0 + 1 <= a0,
                0 <= b1 < u,
                0 <= a1,
        ;
    }
}

impl FixedDecimal {
    /// The key under which the book files a price: canonical, and standing for the
    /// decimal's value, so that equal values share a key and keys order as values do.
    pub fn sort_key(&self) -> (key: (i128, u128))
        ensures
            key_canonical(key),
            key_value(key) == self.value(),
            key == key_of(self.value()),
    {
        proof {
            use_type_invariant(self);
            lemma_pow10_max_scale();
            lemma_pow10_add(self.scale as nat, (MAX_SCALE - self.scale) as nat);
        }
        let down: u128 = pow10_exec(self.scale);
        let up: u128 = pow10_exec(MAX_SCALE - self.scale);
        assert(down * up == UNITS_PER_WHOLE);
        let negative: bool = self.mantissa < 0;
        let magnitude: u128 = if negative {
            (0 - self.mantissa) as u128
        } else {
            self.mantissa as u128
        };
        let whole: u128 = magnitude / down;
        let rest: u128 = magnitude % down;
        proof {
            lemma_fundamental_div_mod(magnitude as int, down as int);
            assert(whole <= magnitude) by (nonlinear_arith)
                requires
                    magnitude == down * whole + rest,
                    down >= 1,
                    whole >= 0,
                    rest >= 0,
            ;
            assert(rest * up < down * up) by (nonlinear_arith)
                requires
                    rest < down,
                    up > 0,
            ;
            assert(magnitude * up == whole * (down * up) + rest * up) by (nonlinear_arith)
                requires
                    magnitude == down * whole + rest,
            ;
            assert(rest == 0 ==> rest * up == 0) by (nonlinear_arith);
            assert(rest > 0 ==> rest * up > 0) by (nonlinear_arith)
                requires
                    up > 0,
            ;
        }
        let key: (i128, u128) = if !negative {
            (whole as i128, rest * up)
        } else if rest == 0 {
            (0 - (whole as i128), 0)
        } else {
            assert((down - rest) * up == down * up - rest * up) by (nonlinear_arith);
            (0 - (whole as i128) - 1, (down - rest) * up)
        };
        proof {
            let m = self.mantissa as int;
            let g = magnitude as int;
            let p = up as int;
            let u = UNITS_PER_WHOLE as int;
            let w = whole as int;
            let f = (rest * up) as int;
            assert(self.value() == m * p);
            if negative {
                assert(m * p == -(g * p)) by (nonlinear_arith)
                    requires
                        m == -g,
                ;
                if rest == 0 {
                    assert((-w) * u + 0 == -(w * u + f)) by (nonlinear_arith)
                        requires
                            f == 0,
                    ;
                } else {
                    assert((-w - 1) * u + (u - f) == -(w * u + f)) by (nonlinear_arith);
                }
            }
            lemma_key_of_value(key);
        }
        key
    }
}

} // verus!
