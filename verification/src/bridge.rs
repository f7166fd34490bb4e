//! Pure precision-bridging arithmetic.
//!
//! A unified balance is `whole * POW_9 + frac` with `frac < POW_9`: the
//! `whole` part lives in a coarse native ledger, the `frac` part in a
//! per-account remainder store. [`decompose_delta`] splits a balance change
//! into the coarse units and the new remainder, carrying or borrowing one
//! coarse unit across the boundary when the remainder would otherwise leave
//! `[0, POW_9)`.

use vstd::arithmetic::div_mod::lemma_fundamental_div_mod_converse;
use vstd::prelude::*;

verus! {

/// One coarse ledger unit counts this many sub-units.
pub const POW_9: u128 = 1_000_000_000;

/// A high-precision balance, kept as the unique pair
/// `whole * POW_9 + frac` with `frac` strictly below `POW_9`.
#[derive(Clone, Copy, Debug, PartialEq, Eq, Structural)]
pub struct Composed {
    /// Whole coarse units.
    pub whole: u128,
    /// Sub-unit part, strictly below `POW_9` for a well-formed value.
    pub frac: u128,
}

/// The unified balance equivalent to a coarse ledger balance and a
/// sub-unit remainder, wide enough that it can never overflow.
pub open spec fn compose(coarse: u128, remainder: u128) -> int {
    coarse * POW_9 + remainder
}

/// The largest value a `Composed` pair can stand for.
pub open spec fn max_composed() -> int {
    u128::MAX * POW_9 + (POW_9 - 1)
}

impl Composed {
    /// The mathematical value the pair stands for.
    pub open spec fn value(self) -> int {
        compose(self.whole, self.frac)
    }

    /// The sub-unit part is strictly below one coarse unit.
    pub open spec fn valid(self) -> bool {
        self.frac < POW_9
    }

    /// Builds the value `whole * POW_9 + frac`.
    pub fn new(whole: u128, frac: u128) -> (r: Composed)
        requires
            frac < POW_9,
        ensures
            r.valid(),
            r.whole == whole,
            r.frac == frac,
    {
        Composed { whole, frac }
    }

    /// Reads a balance given as a plain number of sub-units.
    pub fn from_value(v: u128) -> (r: Composed)
        ensures
            r.valid(),
            r.value() == v,
    {
        let whole = v / POW_9;
        let frac = v % POW_9;
        proof {
            vstd::arithmetic::div_mod::lemma_fundamental_div_mod(v as int, POW_9 as int);
        }
        Composed { whole, frac }
    }

    /// Strict comparison of the values the pairs stand for.
    pub fn lt(&self, other: &Composed) -> (r: bool)
        requires
            self.valid(),
            other.valid(),
        ensures
            r == (self.value() < other.value()),
    {
        proof {
            lemma_value_order(*self, *other);
        }
        self.whole < other.whole || (self.whole == other.whole && self.frac < other.frac)
    }

    /// Exact subtraction, borrowing one coarse unit when the sub-unit
    /// part of `other` exceeds this one's.
    pub fn sub(&self, other: &Composed) -> (r: Composed)
        requires
            self.valid(),
            other.valid(),
            other.value() <= self.value(),
        ensures
            r.valid(),
            r.value() == self.value() - other.value(),
            r.frac == if self.frac >= other.frac {
                self.frac - other.frac
            } else {
                self.frac + POW_9 - other.frac
            },
    {
        proof {
            lemma_value_order(*other, *self);
        }
        if self.frac >= other.frac {
            Composed { whole: self.whole - other.whole, frac: self.frac - other.frac }
        } else {
            proof {
                lemma_value_order(*self, *other);
            }
            Composed { whole: self.whole - other.whole - 1, frac: self.frac + POW_9 - other.frac }
        }
    }

    /// Addition, clamped at the largest representable value.
    pub fn saturating_add(&self, other: &Composed) -> (r: Composed)
        requires
            self.valid(),
            other.valid(),
        ensures
            r.valid(),
            r.value() == if self.value() + other.value() <= max_composed() {
                self.value() + other.value()
            } else {
                max_composed()
            },
    {
        let frac_sum = self.frac + other.frac;
        let carry: u128 = if frac_sum >= POW_9 {
            1
        } else {
            0
        };
        let frac = frac_sum - carry * POW_9;
        if self.whole <= u128::MAX - other.whole && u128::MAX - (self.whole + other.whole)
            >= carry {
            Composed { whole: self.whole + other.whole + carry, frac }
        } else {
            proof {
                assert(self.whole + other.whole + carry > u128::MAX);
                assert(self.value() + other.value() == (self.whole + other.whole + carry) * POW_9
                    + frac) by (nonlinear_arith)
                    requires
                        carry == if self.frac + other.frac >= POW_9 {
                            1int
                        } else {
                            0int
                        },
                        frac == self.frac + other.frac - carry * POW_9,
                ;
                assert((self.whole + other.whole + carry) * POW_9 + frac > max_composed())
                    by (nonlinear_arith)
                    requires
                        self.whole + other.whole + carry > u128::MAX,
                        frac >= 0,
                        POW_9 == 1_000_000_000int,
                ;
            }
            Composed { whole: u128::MAX, frac: POW_9 - 1 }
        }
    }
}

/// With sub-unit parts below `POW_9`, the value order is the
/// lexicographic order on `(whole, frac)`.
pub proof fn lemma_value_order(a: Composed, b: Composed)
    requires
        a.valid(),
        b.valid(),
    ensures
        (a.value() < b.value()) == (a.whole < b.whole || (a.whole == b.whole && a.frac < b.frac)),
{
    assert((a.value() < b.value()) == (a.whole < b.whole || (a.whole == b.whole && a.frac
        < b.frac))) by (nonlinear_arith)
        requires
            a.frac < POW_9,
            b.frac < POW_9,
            a.value() == a.whole * POW_9 + a.frac,
            b.value() == b.whole * POW_9 + b.frac,
            POW_9 == 1_000_000_000int,
    ;
}

/// A `Composed` pair never stands for a negative value.
pub proof fn lemma_value_nonneg(a: Composed)
    ensures
        a.value() >= 0,
{
    assert(a.value() >= 0) by (nonlinear_arith)
        requires
            a.value() == a.whole * POW_9 + a.frac,
            POW_9 == 1_000_000_000int,
    ;
}

/// An integer quotient-and-remainder pair by `POW_9` is unique.
pub proof fn lemma_recompose(q: int, f: int, v: int)
    requires
        0 <= f < POW_9,
        v == q * POW_9 + f,
    ensures
        q == v / (POW_9 as int),
        f == v % (POW_9 as int),
{
    lemma_fundamental_div_mod_converse(v, POW_9 as int, q, f);
}

/// A pair with a bounded sub-unit part is the unique quotient and
/// remainder of its value by `POW_9`.
pub proof fn lemma_unique_split(whole: u128, frac: u128, v: int)
    requires
        frac < POW_9,
        v == whole * POW_9 + frac,
    ensures
        whole == v / (POW_9 as int),
        frac == v % (POW_9 as int),
{
    lemma_fundamental_div_mod_converse(v, POW_9 as int, whole as int, frac as int);
}

/// Clamping into the range of the coarse balance type.
pub open spec fn clamp_u128(x: int) -> int {
    if x > u128::MAX {
        u128::MAX as int
    } else {
        x
    }
}

/// Addition clamped into the range of the coarse balance type.
pub open spec fn sat_add_u128(a: u128, b: u128) -> u128 {
    if a + b > u128::MAX {
        u128::MAX
    } else {
        (a + b) as u128
    }
}

/// Subtraction clamped at zero.
pub open spec fn sat_sub_u128(a: u128, b: u128) -> u128 {
    if b > a {
        0
    } else {
        (a - b) as u128
    }
}

/// Clamping at the largest value a `Composed` pair can stand for.
pub open spec fn sat_to_max(v: int) -> int {
    if v > max_composed() {
        max_composed()
    } else {
        v
    }
}

/// Which way a balance adjustment goes.
#[derive(Clone, Copy, Debug, PartialEq, Eq, Structural)]
pub enum Direction {
    /// The balance grows by the given magnitude.
    Increase,
    /// The balance shrinks by the given magnitude.
    Decrease,
}

/// The split of one balance adjustment: how many coarse units the native
/// ledger moves, what the remainder store holds afterwards, and whether one
/// coarse unit crossed the sub-unit boundary (a carry on an increase, a
/// borrow on a decrease).
#[derive(Clone, Copy, Debug, PartialEq, Eq, Structural)]
pub struct DeltaSplit {
    /// Magnitude of the coarse-ledger change, in coarse units.
    pub coarse: u128,
    /// What the remainder store holds after the adjustment.
    pub remainder_after: u128,
    /// Whether a whole coarse unit was carried or borrowed.
    pub carry_or_borrow: bool,
}

/// Coarse units an increase moves: one more than the magnitude's whole
/// part when the sub-unit parts carry.
pub open spec fn inc_coarse_delta(whole: u128, frac: u128, rem: u128) -> int {
    if rem + frac >= POW_9 {
        whole + 1
    } else {
        whole as int
    }
}

/// The remainder after an increase.
pub open spec fn inc_remainder_after(frac: u128, rem: u128) -> int {
    if rem + frac >= POW_9 {
        rem + frac - POW_9
    } else {
        rem + frac
    }
}

/// Coarse units a decrease moves: one more than the magnitude's whole
/// part when the sub-unit part must borrow.
pub open spec fn dec_coarse_delta(whole: u128, frac: u128, rem: u128) -> int {
    if rem < frac {
        whole + 1
    } else {
        whole as int
    }
}

/// The remainder after a decrease.
pub open spec fn dec_remainder_after(frac: u128, rem: u128) -> int {
    if rem < frac {
        rem + POW_9 - frac
    } else {
        rem - frac
    }
}

/// Splits a balance adjustment into a coarse-ledger change and the new
/// remainder. The magnitude comes as a `Composed` pair, which is exactly
/// its quotient and remainder by `POW_9`. The coarse change is clamped
/// into the coarse balance type; everything below that bound is exact.
pub fn decompose_delta(direction: Direction, magnitude: Composed, remainder_before: u128) -> (r:
    DeltaSplit)
    requires
        magnitude.valid(),
        remainder_before < POW_9,
    ensures
        0 <= r.remainder_after < POW_9,
        direction == Direction::Increase ==> {
            &&& r.carry_or_borrow == (remainder_before + magnitude.frac >= POW_9)
            &&& r.remainder_after == inc_remainder_after(magnitude.frac, remainder_before)
            &&& r.coarse == clamp_u128(
                inc_coarse_delta(magnitude.whole, magnitude.frac, remainder_before),
            )
        },
        direction == Direction::Decrease ==> {
            &&& r.carry_or_borrow == (remainder_before < magnitude.frac)
            &&& r.remainder_after == dec_remainder_after(magnitude.frac, remainder_before)
            &&& r.coarse == clamp_u128(
                dec_coarse_delta(magnitude.whole, magnitude.frac, remainder_before),
            )
        },
{
    match direction {
        Direction::Increase => {
            if remainder_before + magnitude.frac >= POW_9 {
                let coarse: u128 = if magnitude.whole < u128::MAX {
                    magnitude.whole + 1
                } else {
                    u128::MAX
                };
                DeltaSplit {
                    coarse,
                    remainder_after: remainder_before + magnitude.frac - POW_9,
                    carry_or_borrow: true,
                }
            } else {
                DeltaSplit {
                    coarse: magnitude.whole,
                    remainder_after: remainder_before + magnitude.frac,
                    carry_or_borrow: false,
                }
            }
        },
        Direction::Decrease => {
            if remainder_before < magnitude.frac {
                let coarse: u128 = if magnitude.whole < u128::MAX {
                    magnitude.whole + 1
                } else {
                    u128::MAX
                };
                DeltaSplit {
                    coarse,
                    remainder_after: remainder_before + POW_9 - magnitude.frac,
                    carry_or_borrow: true,
                }
            } else {
                DeltaSplit {
                    coarse: magnitude.whole,
                    remainder_after: remainder_before - magnitude.frac,
                    carry_or_borrow: false,
                }
            }
        },
    }
}

/// Conservation of an increase: the coarse units moved and the new
/// remainder account for exactly the old remainder plus the magnitude.
pub proof fn lemma_increase_conserves(whole: u128, frac: u128, rem: u128)
    requires
        frac < POW_9,
        rem < POW_9,
    ensures
        inc_coarse_delta(whole, frac, rem) * POW_9 + inc_remainder_after(frac, rem) == (whole
            * POW_9 + frac) + rem,
{
    assert(inc_coarse_delta(whole, frac, rem) * POW_9 + inc_remainder_after(frac, rem) == (whole
        * POW_9 + frac) + rem) by (nonlinear_arith)
        requires
            frac < POW_9,
            rem < POW_9,
            inc_coarse_delta(whole, frac, rem) == if rem + frac >= POW_9 {
                whole + 1
            } else {
                whole as int
            },
            inc_remainder_after(frac, rem) == if rem + frac >= POW_9 {
                rem + frac - POW_9
            } else {
                rem + frac
            },
    ;
}

/// Conservation of a decrease: the old remainder and the magnitude are
/// accounted for exactly by the coarse units moved and the new remainder.
pub proof fn lemma_decrease_conserves(whole: u128, frac: u128, rem: u128)
    requires
        frac < POW_9,
        rem < POW_9,
    ensures
        dec_coarse_delta(whole, frac, rem) * POW_9 + rem == (whole * POW_9 + frac)
            + dec_remainder_after(frac, rem),
{
    assert(dec_coarse_delta(whole, frac, rem) * POW_9 + rem == (whole * POW_9 + frac)
        + dec_remainder_after(frac, rem)) by (nonlinear_arith)
        requires
            frac < POW_9,
            rem < POW_9,
            dec_coarse_delta(whole, frac, rem) == if rem < frac {
                whole + 1
            } else {
                whole as int
            },
            dec_remainder_after(frac, rem) == if rem < frac {
                rem + POW_9 - frac
            } else {
                rem - frac
            },
    ;
}

/// Round-trip: composing a coarse balance with a remainder and splitting
/// the result by the scale gives back exactly the original pair, for
/// every coarse balance and every remainder below one coarse unit.
pub proof fn lemma_compose_round_trip(coarse: u128, remainder: u128)
    requires
        remainder < POW_9,
    ensures
        compose(coarse, remainder) / (POW_9 as int) == coarse,
        compose(coarse, remainder) % (POW_9 as int) == remainder,
{
    lemma_recompose(coarse as int, remainder as int, compose(coarse, remainder));
}

/// The remainder bound: after either split the remainder is back in
/// `[0, POW_9)`.
pub proof fn lemma_remainder_after_bounded(frac: u128, rem: u128)
    requires
        frac < POW_9,
        rem < POW_9,
    ensures
        0 <= inc_remainder_after(frac, rem) < POW_9,
        0 <= dec_remainder_after(frac, rem) < POW_9,
{
}

} // verus!
