//! Exact fixed-precision currency amounts.
//!
//! An [`Amount`] is a signed decimal number held as an integer count of
//! billionths (nine fractional digits), so arithmetic is exact: no binary
//! floating point is involved and nothing is rounded silently. The
//! representable range is symmetric and matches the classic 96-bit decimal
//! mantissa bound, so amounts with up to 29 integer digits — 38
//! significant digits in all — fit, and adding or subtracting two
//! in-range amounts never overflows the 128-bit carrier.
//!
//! The fractional capacity is a deliberate trade. Nine digits is the most
//! that a 128-bit integer can carry alongside the full 29-digit integer
//! range; a floating-scale representation could accept finer fractions,
//! but its exact sums can exceed any fixed carrier, forcing either silent
//! rounding or refusals of in-range results — both of which this type's
//! contract (`None` iff the exact result is out of range, nothing rounded)
//! rules out. Inputs with more than nine non-zero fractional digits are
//! therefore rejected at construction rather than rounded, and output is
//! rounded to four fractional digits only by the explicit, specified
//! [`Amount::round_dp_4`].

use vstd::prelude::*;

verus! {

/// Units (billionths) per whole currency unit: `10^9`.
pub const UNITS_PER_WHOLE: i128 = 1_000_000_000;

/// Largest representable amount, in billionths: `(2^96 - 1) * 10^9`.
pub const MAX_UNITS: i128 = 79_228_162_514_264_337_593_543_950_335_000_000_000;

/// A currency amount: an exact decimal with nine fractional digits.
///
/// The mathematical value is `self@` billionths; its view `self@` is kept
/// within `-MAX_UNITS ..= MAX_UNITS` by every constructor and operation.
#[derive(Copy, Clone, Debug, PartialEq, Eq, PartialOrd, Ord, Structural)]
pub struct Amount {
    units: i128,
}

impl View for Amount {
    type V = int;

    closed spec fn view(&self) -> int {
        self.units as int
    }
}

/// Whether the integer `v` (in billionths) is within the representable range.
pub open spec fn in_range(v: int) -> bool {
    -MAX_UNITS <= v <= MAX_UNITS
}

impl Amount {
    /// Every amount's value lies in the representable range; all
    /// constructors establish this and all operations preserve it.
    #[verifier::type_invariant]
    pub open spec fn type_inv(self) -> bool {
        in_range(self@)
    }

    /// The zero amount.
    pub fn zero() -> (r: Amount)
        ensures
            r@ == 0,
    {
        Amount { units: 0 }
    }

    /// The largest representable amount.
    pub fn max_value() -> (r: Amount)
        ensures
            r@ == MAX_UNITS,
    {
        Amount { units: MAX_UNITS }
    }

    /// The smallest (most negative) representable amount.
    pub fn min_value() -> (r: Amount)
        ensures
            r@ == -MAX_UNITS,
    {
        Amount { units: -MAX_UNITS }
    }

    /// Builds an amount from a raw count of billionths.
    pub fn from_units(units: i128) -> (r: Option<Amount>)
        ensures
            in_range(units as int) ==> (r matches Some(a) && a@ == units),
            !in_range(units as int) ==> r is None,
    {
        if -MAX_UNITS <= units && units <= MAX_UNITS {
            Some(Amount { units })
        } else {
            None
        }
    }

    /// Checked addition. Returns `None` iff the mathematical sum lies
    /// outside the representable range.
    pub fn checked_add(&self, rhs: Amount) -> (r: Option<Amount>)
        ensures
            in_range(self@ + rhs@) ==> (r matches Some(a) && a@ == self@ + rhs@),
            !in_range(self@ + rhs@) ==> r is None,
    {
        proof {
            use_type_invariant(*self);
            use_type_invariant(rhs);
        }
        let sum = self.units + rhs.units;
        if -MAX_UNITS <= sum && sum <= MAX_UNITS {
            Some(Amount { units: sum })
        } else {
            None
        }
    }

    /// Checked subtraction. Returns `None` iff the mathematical difference
    /// lies outside the representable range.
    pub fn checked_sub(&self, rhs: Amount) -> (r: Option<Amount>)
        ensures
            in_range(self@ - rhs@) ==> (r matches Some(a) && a@ == self@ - rhs@),
            !in_range(self@ - rhs@) ==> r is None,
    {
        proof {
            use_type_invariant(*self);
            use_type_invariant(rhs);
        }
        let diff = self.units - rhs.units;
        if -MAX_UNITS <= diff && diff <= MAX_UNITS {
            Some(Amount { units: diff })
        } else {
            None
        }
    }

    /// Whether this amount is strictly positive.
    pub fn is_positive(&self) -> (r: bool)
        ensures
            r == (self@ > 0),
    {
        self.units > 0
    }

    /// Whether this amount is strictly negative.
    pub fn is_negative(&self) -> (r: bool)
        ensures
            r == (self@ < 0),
    {
        self.units < 0
    }

    /// Comparison: `self <= other` on the mathematical values.
    pub fn le(&self, other: &Amount) -> (r: bool)
        ensures
            r == (self@ <= other@),
    {
        self.units <= other.units
    }

    /// Comparison: `self < other` on the mathematical values.
    pub fn lt(&self, other: &Amount) -> (r: bool)
        ensures
            r == (self@ < other@),
    {
        self.units < other.units
    }

    /// Builds the amount `mantissa / 10^scale`, negated when `negative`
    /// is set, exactly as [`spec_from_mantissa_scale`] says: `None` iff
    /// the value has more than nine fractional digits or lies outside the
    /// representable range.
    pub fn from_mantissa_scale(negative: bool, mantissa: u128, scale: u32) -> (r: Option<Amount>)
        ensures
            match spec_from_mantissa_scale(negative, mantissa as int, scale as nat) {
                Some(v) => r matches Some(a) && a@ == v,
                None => r is None,
            },
    {
        if scale <= 9 {
            let k = 9 - scale;
            let mut mag: u128 = mantissa;
            let mut j: u32 = 0;
            proof {
                lemma_pow10_pos((9 - scale) as nat);
            }
            while j < k
                invariant
                    j <= k,
                    k == 9 - scale,
                    scale <= 9,
                    mag == mantissa * pow10(j as nat),
                decreases k - j,
            {
                if mag > (MAX_UNITS as u128) / 10 {
                    proof {
                        let t = (k - j) as nat;
                        lemma_pow10_pos((t - 1) as nat);
                        lemma_pow10_adds(j as nat, t);
                        assert(pow10(t) >= 10);
                        let v = mantissa * pow10((9 - scale) as nat);
                        assert(v == mag * pow10(t)) by (nonlinear_arith)
                            requires
                                mag == mantissa * pow10(j as nat),
                                pow10((j + t) as nat) == pow10(j as nat) * pow10(t),
                                v == mantissa * pow10((j + t) as nat),
                        ;
                        assert(v >= mag * 10) by (nonlinear_arith)
                            requires
                                v == mag * pow10(t),
                                pow10(t) >= 10,
                                mag >= 0,
                        ;
                        assert(v > MAX_UNITS);
                    }
                    return None;
                }
                mag = mag * 10;
                j = j + 1;
                proof {
                    assert(mag == mantissa * pow10(j as nat)) by (nonlinear_arith)
                        requires
                            mag == (mantissa * pow10((j - 1) as nat)) * 10,
                            pow10(j as nat) == 10 * pow10((j - 1) as nat),
                    ;
                }
            }
            if mag <= MAX_UNITS as u128 {
                let units: i128 = if negative {
                    -(mag as i128)
                } else {
                    mag as i128
                };
                Some(Amount { units })
            } else {
                None
            }
        } else {
            let k = scale - 9;
            if mantissa == 0 {
                proof {
                    lemma_pow10_pos(k as nat);
                    vstd::arithmetic::div_mod::lemma_mod_multiples_basic(0, pow10(k as nat));
                    vstd::arithmetic::div_mod::lemma_div_multiples_vanish(0, pow10(k as nat));
                }
                return Some(Amount { units: 0 });
            }
            let mut mag: u128 = mantissa;
            let mut j: u32 = 0;
            while j < k
                invariant
                    j <= k,
                    k == scale - 9,
                    scale > 9,
                    mantissa == mag * pow10(j as nat),
                decreases k - j,
            {
                if mag % 10 != 0 {
                    proof {
                        lemma_not_divisible(mantissa as int, mag as int, j as nat, k as nat);
                    }
                    return None;
                }
                proof {
                    lemma_pow10_pos(j as nat);
                    vstd::arithmetic::div_mod::lemma_fundamental_div_mod(mag as int, 10);
                    assert(mantissa == (mag / 10) * pow10((j + 1) as nat)) by (nonlinear_arith)
                        requires
                            mantissa == mag * pow10(j as nat),
                            mag == 10 * (mag / 10),
                            pow10((j + 1) as nat) == 10 * pow10(j as nat),
                    ;
                }
                mag = mag / 10;
                j = j + 1;
            }
            proof {
                lemma_pow10_pos(k as nat);
                vstd::arithmetic::div_mod::lemma_mod_multiples_basic(mag as int, pow10(k as nat));
                vstd::arithmetic::div_mod::lemma_div_multiples_vanish(mag as int, pow10(k as nat));
                vstd::arithmetic::mul::lemma_mul_is_commutative(mag as int, pow10(k as nat));
            }
            if mag <= MAX_UNITS as u128 {
                let units: i128 = if negative {
                    -(mag as i128)
                } else {
                    mag as i128
                };
                Some(Amount { units })
            } else {
                None
            }
        }
    }

    /// This amount rounded to four fractional digits, ties to even:
    /// the form in which amounts are serialized for output.
    pub fn round_dp_4(&self) -> (r: Amount)
        ensures
            r@ == spec_round_dp_4(self@),
    {
        proof {
            use_type_invariant(*self);
        }
        let neg = self.units < 0;
        let mag: i128 = if neg {
            -self.units
        } else {
            self.units
        };
        let q = mag / 100_000;
        let rem = mag % 100_000;
        proof {
            vstd::arithmetic::div_mod::lemma_fundamental_div_mod(mag as int, 100_000);
            assert(MAX_UNITS % 100_000 == 0);
            if rem != 0 {
                assert((q + 1) * 100_000 <= MAX_UNITS) by (nonlinear_arith)
                    requires
                        mag == 100_000 * q + rem,
                        0 < rem < 100_000,
                        0 <= mag <= MAX_UNITS,
                        MAX_UNITS % 100_000 == 0,
                        MAX_UNITS == (MAX_UNITS / 100_000) * 100_000,
                ;
            }
        }
        let rounded: i128 = if 2 * rem < 100_000 {
            q * 100_000
        } else if 2 * rem > 100_000 {
            (q + 1) * 100_000
        } else if q % 2 == 0 {
            q * 100_000
        } else {
            (q + 1) * 100_000
        };
        let units: i128 = if neg {
            -rounded
        } else {
            rounded
        };
        Amount { units }
    }

    /// Renders this amount as decimal digits: an optional minus sign, the
    /// whole part, and the non-zero fractional digits after a point.
    pub fn to_decimal_string(&self) -> (s: String)
        ensures
            s@ == spec_decimal_chars(self@),
    {
        proof {
            use_type_invariant(*self);
        }
        let neg = self.units < 0;
        let mag_signed: i128 = if neg {
            -self.units
        } else {
            self.units
        };
        let mag = mag_signed as u128;
        let whole = mag / 1_000_000_000;
        let frac = mag % 1_000_000_000;
        let mut s = String::new();
        if neg {
            s.append("-");
        }
        if whole == 0 {
            s.append("0");
        } else {
            let ds = digits_string(whole);
            s.append(ds.as_str());
        }
        let fs = frac_string(frac, 9);
        if !fs.as_str().is_empty() {
            s.append(".");
            s.append(fs.as_str());
        }
        proof {
            reveal_strlit("-");
            reveal_strlit("0");
            reveal_strlit(".");
            assert(s@ =~= spec_decimal_chars(self@));
        }
        s
    }

    /// Renders this amount rounded to four fractional digits: the output
    /// serialization.
    pub fn to_output_string(&self) -> (s: String)
        ensures
            s@ == spec_decimal_chars(spec_round_dp_4(self@)),
    {
        let rounded = self.round_dp_4();
        rounded.to_decimal_string()
    }

}

impl Default for Amount {
    /// The default amount is zero.
    fn default() -> (r: Amount)
        ensures
            r@ == 0,
    {
        Amount { units: 0 }
    }
}

/// `10^e`.
pub open spec fn pow10(e: nat) -> int
    decreases e,
{
    if e == 0 {
        1
    } else {
        10 * pow10((e - 1) as nat)
    }
}

proof fn lemma_pow10_pos(e: nat)
    ensures
        pow10(e) >= 1,
    decreases e,
{
    if e > 0 {
        lemma_pow10_pos((e - 1) as nat);
    }
}

proof fn lemma_pow10_adds(a: nat, b: nat)
    ensures
        pow10(a + b) == pow10(a) * pow10(b),
    decreases a,
{
    if a == 0 {
    } else {
        lemma_pow10_adds((a - 1) as nat, b);
        assert(pow10(a + b) == 10 * pow10((a + b - 1) as nat));
        vstd::arithmetic::mul::lemma_mul_is_associative(10, pow10((a - 1) as nat), pow10(b));
    }
}

/// A number whose last decimal digit is not zero stays indivisible by any
/// higher power of ten once multiplied by a lower one.
proof fn lemma_not_divisible(mantissa: int, mag: int, j: nat, k: nat)
    requires
        mantissa == mag * pow10(j),
        mag % 10 != 0,
        j < k,
    ensures
        mantissa % pow10(k) != 0,
{
    let p = pow10(j);
    let c = pow10((k - j - 1) as nat);
    lemma_pow10_pos(j);
    lemma_pow10_pos((k - j - 1) as nat);
    lemma_pow10_pos(k);
    lemma_pow10_adds((j + 1) as nat, (k - j - 1) as nat);
    assert(pow10(k) == (10 * p) * c);
    if mantissa % pow10(k) == 0 {
        vstd::arithmetic::div_mod::lemma_fundamental_div_mod(mantissa, pow10(k));
        let q = mantissa / pow10(k);
        let t = q * c;
        assert(mag * p == (t * 10) * p) by (nonlinear_arith)
            requires
                mantissa == mag * p,
                mantissa == pow10(k) * q,
                pow10(k) == (10 * p) * c,
                t == q * c,
        ;
        assert(mag == t * 10) by (nonlinear_arith)
            requires
                mag * p == (t * 10) * p,
                p >= 1,
        ;
        vstd::arithmetic::div_mod::lemma_mod_multiples_basic(t, 10);
        assert(false);
    }
}

/// The exact value, in billionths, that a decimal `mantissa / 10^scale`
/// (negated when `negative` is set) denotes — or `None` when that value
/// is not representable: its fractional part does not fit in nine digits,
/// or it lies outside the range.
pub open spec fn spec_from_mantissa_scale(negative: bool, mantissa: int, scale: nat) -> Option<
    int,
> {
    if scale <= 9 {
        let v = mantissa * pow10((9 - scale) as nat);
        if v <= MAX_UNITS {
            Some(if negative { -v } else { v })
        } else {
            None
        }
    } else {
        let d = pow10((scale - 9) as nat);
        if mantissa % d == 0 && mantissa / d <= MAX_UNITS {
            Some(if negative { -(mantissa / d) } else { mantissa / d })
        } else {
            None
        }
    }
}

/// The character for the decimal digit `d`.
pub open spec fn spec_digit_char(d: int) -> char {
    if d == 0 {
        '0'
    } else if d == 1 {
        '1'
    } else if d == 2 {
        '2'
    } else if d == 3 {
        '3'
    } else if d == 4 {
        '4'
    } else if d == 5 {
        '5'
    } else if d == 6 {
        '6'
    } else if d == 7 {
        '7'
    } else if d == 8 {
        '8'
    } else {
        '9'
    }
}

/// The decimal digits of `n`, most significant first; empty for zero.
pub open spec fn spec_digits(n: nat) -> Seq<char>
    decreases n,
{
    if n == 0 {
        Seq::empty()
    } else {
        spec_digits(n / 10) + seq![spec_digit_char((n % 10) as int)]
    }
}

/// The decimal digits of `n`, zero-padded on the left to width `w`.
pub open spec fn spec_padded(n: nat, w: nat) -> Seq<char>
    decreases w,
{
    if w == 0 {
        Seq::empty()
    } else {
        spec_padded(n / 10, (w - 1) as nat) + seq![spec_digit_char((n % 10) as int)]
    }
}

/// The fractional digits of `frac` at width `w` with trailing zeros
/// removed; empty when the fraction is zero.
pub open spec fn spec_frac_chars(frac: nat, w: nat) -> Seq<char>
    decreases w,
{
    if w == 0 {
        Seq::empty()
    } else if frac % 10 == 0 {
        spec_frac_chars(frac / 10, (w - 1) as nat)
    } else {
        spec_padded(frac, w)
    }
}

/// The decimal rendering of the value `v` (in billionths): an optional
/// minus sign, the whole part's digits, and — when the fractional part is
/// not zero — a point and the fractional digits with trailing zeros
/// removed.
pub open spec fn spec_decimal_chars(v: int) -> Seq<char> {
    let mag = (if v < 0 {
        -v
    } else {
        v
    }) as nat;
    let whole = mag / (UNITS_PER_WHOLE as nat);
    let frac = mag % (UNITS_PER_WHOLE as nat);
    let whole_chars = if whole == 0 {
        seq!['0']
    } else {
        spec_digits(whole)
    };
    let frac_chars = spec_frac_chars(frac, 9);
    let body = if frac_chars.len() == 0 {
        whole_chars
    } else {
        whole_chars + seq!['.'] + frac_chars
    };
    if v < 0 {
        seq!['-'] + body
    } else {
        body
    }
}

/// The value `v` rounded to the nearest multiple of `10^5` billionths —
/// that is, to four fractional digits — with ties going to the even
/// multiple, symmetric about zero.
pub open spec fn spec_round_dp_4(v: int) -> int {
    if v >= 0 {
        spec_round_mag(v)
    } else {
        -spec_round_mag(-v)
    }
}

/// Rounding of a non-negative value to the nearest multiple of `10^5`,
/// ties to the even multiple.
pub open spec fn spec_round_mag(m: int) -> int {
    let q = m / 100_000;
    let r = m % 100_000;
    if 2 * r < 100_000 {
        q * 100_000
    } else if 2 * r > 100_000 {
        (q + 1) * 100_000
    } else if q % 2 == 0 {
        q * 100_000
    } else {
        (q + 1) * 100_000
    }
}

/// The string for one decimal digit.
fn digit_str(d: u128) -> (s: &'static str)
    requires
        d < 10,
    ensures
        s@ == seq![spec_digit_char(d as int)],
{
    let s: &'static str = match d {
        0 => "0",
        1 => "1",
        2 => "2",
        3 => "3",
        4 => "4",
        5 => "5",
        6 => "6",
        7 => "7",
        8 => "8",
        _ => "9",
    };
    proof {
        reveal_strlit("0");
        reveal_strlit("1");
        reveal_strlit("2");
        reveal_strlit("3");
        reveal_strlit("4");
        reveal_strlit("5");
        reveal_strlit("6");
        reveal_strlit("7");
        reveal_strlit("8");
        reveal_strlit("9");
        assert(s@ =~= seq![spec_digit_char(d as int)]);
    }
    s
}

/// The decimal digits of `n`, most significant first; empty for zero.
fn digits_string(n: u128) -> (s: String)
    ensures
        s@ == spec_digits(n as nat),
    decreases n,
{
    if n == 0 {
        let s = String::new();
        proof {
            assert(s@ =~= spec_digits(0));
        }
        s
    } else {
        let mut s = digits_string(n / 10);
        s.append(digit_str(n % 10));
        s
    }
}

/// The decimal digits of `n`, zero-padded on the left to width `w`.
fn padded_string(n: u128, w: u32) -> (s: String)
    ensures
        s@ == spec_padded(n as nat, w as nat),
    decreases w,
{
    if w == 0 {
        let s = String::new();
        proof {
            assert(s@ =~= spec_padded(n as nat, 0));
        }
        s
    } else {
        let mut s = padded_string(n / 10, w - 1);
        s.append(digit_str(n % 10));
        s
    }
}

/// The fractional digits of `frac` at width `w`, trailing zeros removed.
fn frac_string(frac: u128, w: u32) -> (s: String)
    ensures
        s@ == spec_frac_chars(frac as nat, w as nat),
    decreases w,
{
    if w == 0 {
        let s = String::new();
        proof {
            assert(s@ =~= spec_frac_chars(frac as nat, 0));
        }
        s
    } else if frac % 10 == 0 {
        frac_string(frac / 10, w - 1)
    } else {
        padded_string(frac, w)
    }
}

} // verus!
