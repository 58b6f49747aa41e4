//! What the generated documentation says about a constraint.
//!
//! The library decides which range a constraint describes and which example
//! values its documentation shows; rendering the numbers as text is left to
//! the caller, since the bounds are floating-point values.

use vstd::prelude::*;

use crate::config_types::{Bounds, ConstraintDef, Sign};
use crate::constants::{constant_matches_constraint, value_satisfies};
use crate::float_key::{is_ordered_key, key_is_ordered, key_max, key_min, max_key, min_key, MAX_FINITE_KEY};
use crate::text::str_eq;

verus! {

/// The range a constraint describes, for its formula (`x ≥ 0`) and its
/// description. Bounds are keys of the values to render.
#[derive(Debug, Clone, Copy, PartialEq, Eq, Structural)]
pub enum RangeShape {
    /// `x ≥ 0`
    NonNegative,
    /// `x > 0`
    Positive,
    /// `lower ≤ x ≤ upper`, or `lower < x ≤ upper` when zero is excluded.
    PositiveRange { lower: i64, upper: i64, excludes_zero: bool },
    /// `x ≤ 0`
    NonPositive,
    /// `x < 0`
    Negative,
    /// `lower ≤ x ≤ upper`, or `lower ≤ x < upper` when zero is excluded.
    NegativeRange { lower: i64, upper: i64, excludes_zero: bool },
    /// `x ≠ 0`
    NonZero,
    /// `lower ≤ x ≤ upper`
    Range { lower: i64, upper: i64 },
    /// `0 < x ≤ upper`
    AboveZero { upper: i64 },
    /// `lower ≤ x < 0`
    BelowZero { lower: i64 },
    /// `lower ≤ x ≤ upper, x ≠ 0`
    RangeWithoutZero { lower: i64, upper: i64 },
    /// `x ∈ ℝ`
    Finite,
}

/// The range shape of a constraint. A Positive range starts at no less
/// than zero and a Negative range ends at no more than zero.
pub open spec fn range_shape(sign: Sign, excludes_zero: bool, bounds: Bounds) -> RangeShape {
    match (sign, bounds.lower, bounds.upper) {
        (Sign::Positive, Some(l), None) if l == 0 => if excludes_zero {
            RangeShape::Positive
        } else {
            RangeShape::NonNegative
        },
        (Sign::Positive, Some(l), Some(u)) => RangeShape::PositiveRange {
            lower: max_key(l, 0),
            upper: u,
            excludes_zero,
        },
        (Sign::Negative, None, Some(u)) if u == 0 => if excludes_zero {
            RangeShape::Negative
        } else {
            RangeShape::NonPositive
        },
        (Sign::Negative, Some(l), Some(u)) => RangeShape::NegativeRange {
            lower: l,
            upper: min_key(u, 0),
            excludes_zero,
        },
        (Sign::Any, None, None) if excludes_zero => RangeShape::NonZero,
        (Sign::Any, Some(l), Some(u)) => if !excludes_zero {
            RangeShape::Range { lower: l, upper: u }
        } else if l == 0 {
            RangeShape::AboveZero { upper: u }
        } else if u == 0 {
            RangeShape::BelowZero { lower: l }
        } else {
            RangeShape::RangeWithoutZero { lower: l, upper: u }
        },
        _ => RangeShape::Finite,
    }
}

/// Classifies the range of a constraint for its formula and description.
pub fn constraint_range_shape(constraint_def: &ConstraintDef) -> (r: RangeShape)
    ensures
        r == range_shape(
            constraint_def.sign,
            constraint_def.excludes_zero,
            constraint_def.bounds,
        ),
{
    let ez = constraint_def.excludes_zero;
    match (constraint_def.sign, constraint_def.bounds.lower, constraint_def.bounds.upper) {
        (Sign::Positive, Some(l), None) if l == 0 => if ez {
            RangeShape::Positive
        } else {
            RangeShape::NonNegative
        },
        (Sign::Positive, Some(l), Some(u)) => RangeShape::PositiveRange {
            lower: key_max(l, 0),
            upper: u,
            excludes_zero: ez,
        },
        (Sign::Negative, None, Some(u)) if u == 0 => if ez {
            RangeShape::Negative
        } else {
            RangeShape::NonPositive
        },
        (Sign::Negative, Some(l), Some(u)) => RangeShape::NegativeRange {
            lower: l,
            upper: key_min(u, 0),
            excludes_zero: ez,
        },
        (Sign::Any, None, None) if ez => RangeShape::NonZero,
        (Sign::Any, Some(l), Some(u)) => if !ez {
            RangeShape::Range { lower: l, upper: u }
        } else if l == 0 {
            RangeShape::AboveZero { upper: u }
        } else if u == 0 {
            RangeShape::BelowZero { lower: l }
        } else {
            RangeShape::RangeWithoutZero { lower: l, upper: u }
        },
        _ => RangeShape::Finite,
    }
}

/// Floating-point facts about the bounds of a constraint that the example
/// values need: the key of the midpoint `(lower + upper) / 2` and the key of
/// `lower + 0.1`. They matter only when both bounds are present; an example
/// taken from them is still checked against the constraint.
#[derive(Debug, Clone, Copy, PartialEq, Eq, Structural)]
pub struct ExampleFacts {
    /// Key of `(lower + upper) / 2`.
    pub midpoint: i64,
    /// Key of `lower + 0.1`.
    pub lower_plus_tenth: i64,
}

/// Key of `42.0`.
pub const FORTY_TWO_KEY: i64 = 0x4045_0000_0000_0000;

/// Key of `3.14`.
pub const PI_EXAMPLE_KEY: i64 = 0x4009_1EB8_51EB_851F;

/// Key of `0.5`.
pub const HALF_KEY: i64 = 0x3FE0_0000_0000_0000;

/// Key of `10.0`.
pub const TEN_KEY: i64 = 0x4024_0000_0000_0000;

/// A valid example value for the documentation of `new()`.
#[derive(Debug, Clone, Copy, PartialEq, Eq, Structural)]
pub enum ValidExample {
    /// `42.0`
    FortyTwo,
    /// `-42.0`
    MinusFortyTwo,
    /// `0.5`
    Half,
    /// `3.14`
    Pi,
    /// The value with this key.
    Value(i64),
}

/// The key of the value of a valid example.
pub open spec fn valid_example_key(e: ValidExample) -> int {
    match e {
        ValidExample::FortyTwo => FORTY_TWO_KEY as int,
        ValidExample::MinusFortyTwo => -FORTY_TWO_KEY,
        ValidExample::Half => HALF_KEY as int,
        ValidExample::Pi => PI_EXAMPLE_KEY as int,
        ValidExample::Value(k) => k as int,
    }
}

/// Whether some finite value satisfies the constraint.
pub open spec fn inhabited(c: ConstraintDef) -> bool {
    exists|k: int| value_satisfies(k, c)
}

/// A key clamped to the finite values.
pub open spec fn clamp_finite(k: i64) -> int {
    if k < -MAX_FINITE_KEY {
        -MAX_FINITE_KEY
    } else if k > MAX_FINITE_KEY {
        MAX_FINITE_KEY as int
    } else {
        k as int
    }
}

/// The example used when the preferred one does not satisfy the
/// constraint: the lower bound (or, without one that is a number, the upper
/// bound, or zero)
/// brought into the finite range, moved off zero toward the inside of the
/// range when zero is excluded.
pub open spec fn fallback_example_key(c: ConstraintDef) -> int {
    let k = match c.bounds.lower {
        Some(l) if is_ordered_key(l as int) => clamp_finite(l),
        _ => match c.bounds.upper {
            Some(u) if is_ordered_key(u as int) => clamp_finite(u),
            _ => 0int,
        },
    };
    if c.excludes_zero && k == 0 {
        if c.bounds.lower matches Some(l) && is_ordered_key(l as int) {
            1
        } else {
            -1
        }
    } else {
        k
    }
}

/// The preferred valid example: `42.0` for nonnegative types, `-42.0` for
/// nonpositive ones, the midpoint of a two-sided range (`0.5` for `[0, 1]`;
/// `lower + 0.1` when the midpoint of a signless range is zero), else `3.14`.
pub open spec fn preferred_example(sign: Sign, bounds: Bounds, facts: ExampleFacts) -> ValidExample {
    match (sign, bounds.lower, bounds.upper) {
        (Sign::Positive, Some(l), None) if l == 0 => ValidExample::FortyTwo,
        (Sign::Positive, Some(_), Some(_)) => ValidExample::Value(facts.midpoint),
        (Sign::Negative, None, Some(u)) if u == 0 => ValidExample::MinusFortyTwo,
        (Sign::Negative, Some(_), Some(_)) => ValidExample::Value(facts.midpoint),
        (Sign::Any, Some(l), Some(u)) => if l == 0 && u == crate::float_key::ONE_KEY {
            ValidExample::Half
        } else if facts.midpoint != 0 {
            ValidExample::Value(facts.midpoint)
        } else {
            ValidExample::Value(facts.lower_plus_tenth)
        },
        _ => ValidExample::Pi,
    }
}

/// The valid example of a constraint: the preferred one when the constraint
/// accepts it, else the fallback.
pub open spec fn valid_example(c: ConstraintDef, facts: ExampleFacts) -> ValidExample {
    let p = preferred_example(c.sign, c.bounds, facts);
    if value_satisfies(valid_example_key(p), c) {
        p
    } else {
        ValidExample::Value(fallback_example_key(c) as i64)
    }
}

/// The fallback satisfies every constraint that some value satisfies.
pub proof fn lemma_fallback_satisfies(c: ConstraintDef)
    requires
        inhabited(c),
    ensures
        value_satisfies(fallback_example_key(c), c),
{
    let k = choose|k: int| value_satisfies(k, c);
    assert(value_satisfies(k, c));
}

fn fallback_example(constraint_def: &ConstraintDef) -> (r: i64)
    ensures
        r == fallback_example_key(*constraint_def),
{
    let clamp = |k: i64| -> (r: i64)
        ensures
            r == clamp_finite(k),
        {
            if k < -MAX_FINITE_KEY {
                -MAX_FINITE_KEY
            } else if k > MAX_FINITE_KEY {
                MAX_FINITE_KEY
            } else {
                k
            }
        };
    let lower = match constraint_def.bounds.lower {
        Some(l) => if key_is_ordered(l) {
            Some(l)
        } else {
            None
        },
        None => None,
    };
    let upper = match constraint_def.bounds.upper {
        Some(u) => if key_is_ordered(u) {
            Some(u)
        } else {
            None
        },
        None => None,
    };
    let k = match lower {
        Some(l) => clamp(l),
        None => match upper {
            Some(u) => clamp(u),
            None => 0,
        },
    };
    if constraint_def.excludes_zero && k == 0 {
        if lower.is_some() {
            1
        } else {
            -1
        }
    } else {
        k
    }
}

fn example_key(e: ValidExample) -> (r: i64)
    ensures
        r == valid_example_key(e),
{
    match e {
        ValidExample::FortyTwo => FORTY_TWO_KEY,
        ValidExample::MinusFortyTwo => -FORTY_TWO_KEY,
        ValidExample::Half => HALF_KEY,
        ValidExample::Pi => PI_EXAMPLE_KEY,
        ValidExample::Value(k) => k,
    }
}

/// Chooses the valid example value shown in the documentation of `new()`:
/// the preferred example when the constraint accepts it, else a value taken
/// from the bounds. Whenever some value satisfies the constraint, the
/// example does.
pub fn generate_valid_example(constraint_def: &ConstraintDef, facts: ExampleFacts) -> (r:
    ValidExample)
    ensures
        r == valid_example(*constraint_def, facts),
        inhabited(*constraint_def) ==> value_satisfies(valid_example_key(r), *constraint_def),
{
    let preferred = match (
        constraint_def.sign,
        constraint_def.bounds.lower,
        constraint_def.bounds.upper,
    ) {
        (Sign::Positive, Some(l), None) if l == 0 => ValidExample::FortyTwo,
        (Sign::Positive, Some(_), Some(_)) => ValidExample::Value(facts.midpoint),
        (Sign::Negative, None, Some(u)) if u == 0 => ValidExample::MinusFortyTwo,
        (Sign::Negative, Some(_), Some(_)) => ValidExample::Value(facts.midpoint),
        (Sign::Any, Some(l), Some(u)) => if l == 0 && u == crate::float_key::ONE_KEY {
            ValidExample::Half
        } else if facts.midpoint != 0 {
            ValidExample::Value(facts.midpoint)
        } else {
            ValidExample::Value(facts.lower_plus_tenth)
        },
        _ => ValidExample::Pi,
    };
    if constant_matches_constraint(example_key(preferred), constraint_def) {
        preferred
    } else {
        proof {
            if inhabited(*constraint_def) {
                lemma_fallback_satisfies(*constraint_def);
            }
        }
        ValidExample::Value(fallback_example(constraint_def))
    }
}

/// An invalid example value for the documentation of `new()`.
#[derive(Debug, Clone, Copy, PartialEq, Eq, Structural)]
pub enum InvalidExample {
    /// `-1.0`, a negative value.
    MinusOne,
    /// `1.0`, a positive value.
    One,
    /// `0.0`, zero.
    Zero,
    /// `lower - 1.0`, below the lower bound.
    BelowLower { lower: i64 },
    /// `upper + 1.0`, above the upper bound.
    AboveUpper { upper: i64 },
    /// NaN.
    NaN,
}

/// The invalid example of a constraint.
pub open spec fn invalid_example(sign: Sign, excludes_zero: bool, bounds: Bounds) -> InvalidExample {
    match (sign, bounds.lower, bounds.upper) {
        (Sign::Positive, Some(l), _) if l == 0 => InvalidExample::MinusOne,
        (Sign::Negative, _, Some(u)) if u == 0 => InvalidExample::One,
        (Sign::Any, None, None) if excludes_zero => InvalidExample::Zero,
        (Sign::Any, Some(l), _) if !excludes_zero && is_ordered_key(l as int) && l > 0 => InvalidExample::BelowLower {
            lower: l,
        },
        (Sign::Any, _, Some(u)) if !excludes_zero && is_ordered_key(u as int) && u < 0 => InvalidExample::AboveUpper {
            upper: u,
        },
        _ => InvalidExample::NaN,
    }
}

/// Chooses the invalid example value (and so its reason) shown in the
/// documentation of `new()`.
pub fn generate_invalid_example(constraint_def: &ConstraintDef) -> (r: InvalidExample)
    ensures
        r == invalid_example(
            constraint_def.sign,
            constraint_def.excludes_zero,
            constraint_def.bounds,
        ),
{
    let ez = constraint_def.excludes_zero;
    match (constraint_def.sign, constraint_def.bounds.lower, constraint_def.bounds.upper) {
        (Sign::Positive, Some(l), _) if l == 0 => InvalidExample::MinusOne,
        (Sign::Negative, _, Some(u)) if u == 0 => InvalidExample::One,
        (Sign::Any, None, None) if ez => InvalidExample::Zero,
        (Sign::Any, Some(l), _) if !ez && key_is_ordered(l) && l > 0 => InvalidExample::BelowLower { lower: l },
        (Sign::Any, _, Some(u)) if !ez && key_is_ordered(u) && u < 0 => InvalidExample::AboveUpper { upper: u },
        _ => InvalidExample::NaN,
    }
}

/// Which extra description a type's documentation carries.
#[derive(Debug, Clone, Copy, PartialEq, Eq, Structural)]
pub enum TypeDescription {
    NegativeNormalized,
    NonZeroNegative,
    NonZeroPositive,
    Positive,
    Negative,
    NonZero,
    Normalized,
    Symmetric,
    /// A generic example built from `type_example`.
    Generic,
}

/// The extra description chosen by type name.
pub open spec fn type_description(name: Seq<char>) -> TypeDescription {
    if name == "NegativeNormalized"@ {
        TypeDescription::NegativeNormalized
    } else if name == "NonZeroNegative"@ {
        TypeDescription::NonZeroNegative
    } else if name == "NonZeroPositive"@ {
        TypeDescription::NonZeroPositive
    } else if name == "Positive"@ {
        TypeDescription::Positive
    } else if name == "Negative"@ {
        TypeDescription::Negative
    } else if name == "NonZero"@ {
        TypeDescription::NonZero
    } else if name == "Normalized"@ {
        TypeDescription::Normalized
    } else if name == "Symmetric"@ {
        TypeDescription::Symmetric
    } else {
        TypeDescription::Generic
    }
}

/// Chooses the extra description of a type by its name.
pub fn generate_type_description(name: &str) -> (r: TypeDescription)
    ensures
        r == type_description(name@),
{
    if str_eq(name, "NegativeNormalized") {
        TypeDescription::NegativeNormalized
    } else if str_eq(name, "NonZeroNegative") {
        TypeDescription::NonZeroNegative
    } else if str_eq(name, "NonZeroPositive") {
        TypeDescription::NonZeroPositive
    } else if str_eq(name, "Positive") {
        TypeDescription::Positive
    } else if str_eq(name, "Negative") {
        TypeDescription::Negative
    } else if str_eq(name, "NonZero") {
        TypeDescription::NonZero
    } else if str_eq(name, "Normalized") {
        TypeDescription::Normalized
    } else if str_eq(name, "Symmetric") {
        TypeDescription::Symmetric
    } else {
        TypeDescription::Generic
    }
}

/// The example value of the generic type description.
#[derive(Debug, Clone, Copy, PartialEq, Eq, Structural)]
pub enum TypeExample {
    /// `42.0`
    FortyTwo,
    /// `-42.0`
    MinusFortyTwo,
    /// `3.14`
    Pi,
    /// `0.5`
    Half,
    /// `0.0`
    Zero,
    /// `10.0`
    Ten,
    /// `-10.0`
    MinusTen,
    /// `1.0`
    One,
    /// The value with this key.
    Value(i64),
}

/// The key of the value of a type example.
pub open spec fn type_example_key(e: TypeExample) -> int {
    match e {
        TypeExample::FortyTwo => FORTY_TWO_KEY as int,
        TypeExample::MinusFortyTwo => -FORTY_TWO_KEY,
        TypeExample::Pi => PI_EXAMPLE_KEY as int,
        TypeExample::Half => HALF_KEY as int,
        TypeExample::Zero => 0,
        TypeExample::Ten => TEN_KEY as int,
        TypeExample::MinusTen => -TEN_KEY,
        TypeExample::One => crate::float_key::ONE_KEY as int,
        TypeExample::Value(k) => k as int,
    }
}

/// The preferred example of the generic type description, chosen by name:
/// `Positive` 42, `Negative` -42, `NonZero` 3.14, `Normalized` 0.5,
/// `Symmetric` 0, `NonNegative` 10, `NonPositive` -10, `Bounded` the
/// midpoint of its bounds (1 without both), anything else 3.14.
pub open spec fn preferred_type_example(name: Seq<char>, bounds: Bounds, facts: ExampleFacts) -> TypeExample {
    if name == "Positive"@ {
        TypeExample::FortyTwo
    } else if name == "Negative"@ {
        TypeExample::MinusFortyTwo
    } else if name == "NonZero"@ {
        TypeExample::Pi
    } else if name == "Normalized"@ {
        TypeExample::Half
    } else if name == "Symmetric"@ {
        TypeExample::Zero
    } else if name == "NonNegative"@ {
        TypeExample::Ten
    } else if name == "NonPositive"@ {
        TypeExample::MinusTen
    } else if name == "Bounded"@ {
        match (bounds.lower, bounds.upper) {
            (Some(_), Some(_)) => TypeExample::Value(facts.midpoint),
            _ => TypeExample::One,
        }
    } else {
        TypeExample::Pi
    }
}

/// The example of the generic type description: the preferred one when the
/// constraint accepts it, else the fallback of `valid_example`.
pub open spec fn type_example(name: Seq<char>, c: ConstraintDef, facts: ExampleFacts) -> TypeExample {
    let p = preferred_type_example(name, c.bounds, facts);
    if value_satisfies(type_example_key(p), c) {
        p
    } else {
        TypeExample::Value(fallback_example_key(c) as i64)
    }
}

fn type_example_value(e: TypeExample) -> (r: i64)
    ensures
        r == type_example_key(e),
{
    match e {
        TypeExample::FortyTwo => FORTY_TWO_KEY,
        TypeExample::MinusFortyTwo => -FORTY_TWO_KEY,
        TypeExample::Pi => PI_EXAMPLE_KEY,
        TypeExample::Half => HALF_KEY,
        TypeExample::Zero => 0,
        TypeExample::Ten => TEN_KEY,
        TypeExample::MinusTen => -TEN_KEY,
        TypeExample::One => crate::float_key::ONE_KEY,
        TypeExample::Value(k) => k,
    }
}

/// Chooses the example value of the generic type description: the example
/// its name suggests when the constraint accepts it, else a value taken
/// from the bounds. Whenever some value satisfies the constraint, the
/// example does.
pub fn generate_valid_example_for_type(
    name: &str,
    constraint_def: &ConstraintDef,
    facts: ExampleFacts,
) -> (r: TypeExample)
    ensures
        r == type_example(name@, *constraint_def, facts),
        inhabited(*constraint_def) ==> value_satisfies(type_example_key(r), *constraint_def),
{
    let preferred = if str_eq(name, "Positive") {
        TypeExample::FortyTwo
    } else if str_eq(name, "Negative") {
        TypeExample::MinusFortyTwo
    } else if str_eq(name, "NonZero") {
        TypeExample::Pi
    } else if str_eq(name, "Normalized") {
        TypeExample::Half
    } else if str_eq(name, "Symmetric") {
        TypeExample::Zero
    } else if str_eq(name, "NonNegative") {
        TypeExample::Ten
    } else if str_eq(name, "NonPositive") {
        TypeExample::MinusTen
    } else if str_eq(name, "Bounded") {
        match (constraint_def.bounds.lower, constraint_def.bounds.upper) {
            (Some(_), Some(_)) => TypeExample::Value(facts.midpoint),
            _ => TypeExample::One,
        }
    } else {
        TypeExample::Pi
    };
    if constant_matches_constraint(type_example_value(preferred), constraint_def) {
        preferred
    } else {
        proof {
            if inhabited(*constraint_def) {
                lemma_fallback_satisfies(*constraint_def);
            }
        }
        TypeExample::Value(fallback_example(constraint_def))
    }
}

} // verus!
