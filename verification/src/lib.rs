//! Human-readable display of byte counts.
//!
//! A [`Size`] wraps an unsigned 64-bit byte count. Its [`Size::render`]
//! method produces the compact text form: the count is scaled by the largest
//! binary unit (Kilo = 2^10 up to Exa = 2^60) whose threshold it reaches,
//! and one fractional digit is shown exactly when the count is not an exact
//! multiple of that unit.
//!
//! Displayed units go up to Exabyte (2^60).

use vstd::prelude::*;

pub mod decimal;

verus! {

use crate::decimal::decimal_digits;
use crate::decimal::digit_char;

pub const KILO: u64 = 1024;

pub const MEGA: u64 = KILO * KILO;

pub const GIGA: u64 = MEGA * KILO;

pub const TERA: u64 = GIGA * KILO;

pub const PETA: u64 = TERA * KILO;

pub const EXA: u64 = PETA * KILO;

/// File size type with a human-readable rendering.
pub struct Size(pub u64);

/// The divisor of the unit under which `n` is displayed: the largest of the
/// binary unit thresholds that `n` reaches, or 1 for the plain byte unit.
pub open spec fn unit_of(n: u64) -> u64 {
    if n >= EXA {
        EXA
    } else if n >= PETA {
        PETA
    } else if n >= TERA {
        TERA
    } else if n >= GIGA {
        GIGA
    } else if n >= MEGA {
        MEGA
    } else if n >= KILO {
        KILO
    } else {
        1
    }
}

/// The suffix written after the numeral for the unit under which `n` is
/// displayed; empty for the plain byte unit.
pub open spec fn suffix_of(n: u64) -> Seq<char> {
    if n >= EXA {
        seq!['E']
    } else if n >= PETA {
        seq!['P']
    } else if n >= TERA {
        seq!['T']
    } else if n >= GIGA {
        seq!['G']
    } else if n >= MEGA {
        seq!['M']
    } else if n >= KILO {
        seq!['K']
    } else {
        Seq::<char>::empty()
    }
}

/// The fractional part of `n` scaled to tenths of its display unit, rounded
/// to the nearest tenth with halves rounded up; at most 10, where 10 carries
/// into the integer quotient.
pub open spec fn tenths_of(n: u64) -> int {
    let u = unit_of(n) as int;
    ((n as int % u) * 10 + u / 2) / u
}

/// The full rendered text of the byte count `n`: the integer quotient when
/// `n` divides its unit evenly, otherwise the quotient with exactly one
/// fractional digit, rounded to the nearest tenth; then the unit's suffix.
pub open spec fn rendered(n: u64) -> Seq<char> {
    let u = unit_of(n) as int;
    if n as int % u == 0 {
        decimal_digits((n as int / u) as nat) + suffix_of(n)
    } else {
        let t = tenths_of(n);
        decimal_digits((n as int / u + t / 10) as nat) + seq!['.', digit_char((t % 10) as nat)]
            + suffix_of(n)
    }
}

/// Picks the display unit for `n`: its divisor and its suffix, by a strict
/// descending scan of the thresholds.
fn unit_and_suffix(n: u64) -> (r: (u64, &'static str))
    ensures
        r.0 == unit_of(n),
        r.1@ == suffix_of(n),
{
    proof {
        reveal_strlit("E");
        reveal_strlit("P");
        reveal_strlit("T");
        reveal_strlit("G");
        reveal_strlit("M");
        reveal_strlit("K");
        reveal_strlit("");
    }
    if n >= EXA {
        (EXA, "E")
    } else if n >= PETA {
        (PETA, "P")
    } else if n >= TERA {
        (TERA, "T")
    } else if n >= GIGA {
        (GIGA, "G")
    } else if n >= MEGA {
        (MEGA, "M")
    } else if n >= KILO {
        (KILO, "K")
    } else {
        (1, "")
    }
}

impl Size {
    /// Renders the byte count as its compact human-readable text.
    pub fn render(&self) -> (r: String)
        ensures
            r@ == rendered(self.0),
    {
        let n = self.0;
        let (unit, suffix) = unit_and_suffix(n);
        let q: u64 = n / unit;
        let rem: u64 = n % unit;
        let mut s = String::new();
        if rem == 0 {
            crate::decimal::push_decimal(&mut s, q);
        } else {
            proof {
                assert(unit >= KILO);
                vstd::arithmetic::div_mod::lemma_mod_division_less_than_divisor(
                    n as int,
                    unit as int,
                );
            }
            let scaled: u64 = (rem * 10 + unit / 2) / unit;
            proof {
                vstd::arithmetic::div_mod::lemma_multiply_divide_lt(
                    rem as int * 10 + unit as int / 2,
                    unit as int,
                    11,
                );
                assert(scaled <= 10);
                vstd::arithmetic::div_mod::lemma_div_is_ordered_by_denominator(
                    n as int,
                    KILO as int,
                    unit as int,
                );
                assert(q <= n as int / KILO as int);
            }
            crate::decimal::push_decimal(&mut s, q + scaled / 10);
            s.append(".");
            crate::decimal::push_digit(&mut s, scaled % 10);
            proof {
                reveal_strlit(".");
                assert(scaled == tenths_of(n));
            }
        }
        s.append(suffix);
        proof {
            assert(s@ =~= rendered(n));
        }
        s
    }
}

/// Whether `u` is the divisor of one of the named binary units.
pub open spec fn is_unit_divisor(u: u64) -> bool {
    u == KILO || u == MEGA || u == GIGA || u == TERA || u == PETA || u == EXA
}

/// The suffix character of the named unit with divisor `u`.
pub open spec fn unit_suffix_char(u: u64) -> char {
    if u == EXA {
        'E'
    } else if u == PETA {
        'P'
    } else if u == TERA {
        'T'
    } else if u == GIGA {
        'G'
    } else if u == MEGA {
        'M'
    } else {
        'K'
    }
}

/// A count below the Kilo threshold is rendered as its bare decimal
/// numeral: no fractional digit and no suffix.
pub proof fn lemma_render_bytes_verbatim(n: u64)
    requires
        n < KILO,
    ensures
        rendered(n) == decimal_digits(n as nat),
{
    assert(rendered(n) =~= decimal_digits(n as nat));
}

/// An exact multiple `k * u` of a named unit divisor `u`, with `k` at least
/// 1 and below 1024, is rendered as the numeral of `k` followed directly by
/// the unit's suffix, with no fractional digit.
#[verifier::rlimit(40)]
pub proof fn lemma_render_exact_multiple(k: u64, u: u64)
    requires
        is_unit_divisor(u),
        1 <= k < 1024,
        k * u <= u64::MAX,
    ensures
        rendered((k * u) as u64) == decimal_digits(k as nat) + seq![unit_suffix_char(u)],
{
    let n = (k * u) as u64;
    vstd::arithmetic::mul::lemma_mul_is_commutative(k as int, u as int);
    vstd::arithmetic::div_mod::lemma_mod_multiples_basic(k as int, u as int);
    vstd::arithmetic::div_mod::lemma_div_multiples_vanish(k as int, u as int);
    assert(n as int % u as int == 0);
    assert(n as int / u as int == k);
    assert((u as int) <= n as int);
    assert((n as int) < 1024 * (u as int));
    if u == KILO {
        assert(unit_of(n) == KILO);
        assert(rendered(n) =~= decimal_digits(k as nat) + seq![unit_suffix_char(u)]);
    } else if u == MEGA {
        assert(unit_of(n) == MEGA);
        assert(rendered(n) =~= decimal_digits(k as nat) + seq![unit_suffix_char(u)]);
    } else if u == GIGA {
        assert(unit_of(n) == GIGA);
        assert(rendered(n) =~= decimal_digits(k as nat) + seq![unit_suffix_char(u)]);
    } else if u == TERA {
        assert(unit_of(n) == TERA);
        assert(rendered(n) =~= decimal_digits(k as nat) + seq![unit_suffix_char(u)]);
    } else if u == PETA {
        assert(unit_of(n) == PETA);
        assert(rendered(n) =~= decimal_digits(k as nat) + seq![unit_suffix_char(u)]);
    } else {
        assert(unit_of(n) == EXA);
        assert(rendered(n) =~= decimal_digits(k as nat) + seq![unit_suffix_char(u)]);
    }
}

/// The special case of the Kilo unit: `k * 1024` with `k` in 1 ..= 1023 is
/// rendered as the numeral of `k` followed by 'K'.
pub proof fn lemma_render_exact_kilo(k: u64)
    requires
        1 <= k < 1024,
    ensures
        rendered((k * KILO) as u64) == decimal_digits(k as nat) + seq!['K'],
{
    lemma_render_exact_multiple(k, KILO);
}

/// Unit selection is largest-fit, and the fit is unique: the chosen divisor
/// is a named unit's or 1, it is reached by `n` whenever it is a named
/// unit's, `n` reaches no threshold at all when it is 1, and every named
/// divisor that `n` reaches lies at or below the chosen one.
pub proof fn lemma_unit_largest_fit(n: u64)
    ensures
        unit_of(n) == 1 || is_unit_divisor(unit_of(n)),
        unit_of(n) == 1 ==> n < KILO,
        is_unit_divisor(unit_of(n)) ==> unit_of(n) <= n,
        forall|t: u64| is_unit_divisor(t) && t <= n ==> t <= unit_of(n),
{
}

/// The rendering never carries more than one fractional digit, and a
/// decimal point appears exactly when the count is not a multiple of its
/// unit; the point is then unique and exactly one digit stands between it
/// and the suffix.
pub proof fn lemma_single_fraction_digit(n: u64)
    ensures
        n as int % unit_of(n) as int == 0 ==> forall|i: int|
            0 <= i < rendered(n).len() ==> #[trigger] rendered(n)[i] != '.',
        n as int % unit_of(n) as int != 0 ==> {
            let f = rendered(n);
            let p = f.len() - suffix_of(n).len() - 2;
            &&& f[p] == '.'
            &&& crate::decimal::is_decimal_digit(f[p + 1])
            &&& forall|i: int| 0 <= i < f.len() && i != p ==> #[trigger] f[i] != '.'
        },
{
    let u = unit_of(n) as int;
    if n as int % u == 0 {
        crate::decimal::lemma_decimal_digits_are_digits((n as int / u) as nat);
    } else {
        let t = tenths_of(n);
        crate::decimal::lemma_decimal_digits_are_digits((n as int / u + t / 10) as nat);
    }
}

} // verus!
