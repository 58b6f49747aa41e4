//! Which conversions between constraint types always succeed.
//!
//! A conversion from one constraint to another always succeeds when the
//! source range lies within the target range and the target excludes zero
//! only if the source does; such pairs get `From`, all others `TryFrom`.

use vstd::prelude::*;

use crate::config_types::{has_constraint, ConstraintDef, TypeConfig, TypeDef};
use crate::generator::{
    constraint_position, deref_types, filter_constraint_types_by_float, find_constraint_index,
    has_float, make_type_alias, primitive_names, type_alias,
};
use crate::text::{str_eq, string_of};
use crate::float_key::{is_ordered_key, key_is_ordered};
use crate::config_types::ordered_bounds;

verus! {

broadcast use vstd::seq::Seq::lemma_flatten_push;

/// Whether the target lower bound admits every value above the source one
/// (compared as `f64`: never when a bound is NaN).
pub open spec fn lower_contains(src: Option<i64>, dst: Option<i64>) -> bool {
    match (src, dst) {
        (Some(s), Some(d)) => is_ordered_key(s as int) && is_ordered_key(d as int) && s >= d,
        (Some(_), None) => true,
        (None, Some(_)) => false,
        (None, None) => true,
    }
}

/// Whether the target upper bound admits every value below the source one
/// (compared as `f64`: never when a bound is NaN).
pub open spec fn upper_contains(src: Option<i64>, dst: Option<i64>) -> bool {
    match (src, dst) {
        (Some(s), Some(d)) => is_ordered_key(s as int) && is_ordered_key(d as int) && s <= d,
        (Some(_), None) => true,
        (None, Some(_)) => false,
        (None, None) => true,
    }
}

/// Whether the source constraint is contained in the target constraint.
pub open spec fn subset_constraint(
    src_lower: Option<i64>,
    src_upper: Option<i64>,
    src_excludes_zero: bool,
    dst_lower: Option<i64>,
    dst_upper: Option<i64>,
    dst_excludes_zero: bool,
) -> bool {
    &&& lower_contains(src_lower, dst_lower)
    &&& upper_contains(src_upper, dst_upper)
    &&& (!dst_excludes_zero || src_excludes_zero)
}

/// Whether constraint `a` is contained in constraint `b`.
pub open spec fn contained_in(a: ConstraintDef, b: ConstraintDef) -> bool {
    subset_constraint(
        a.bounds.lower,
        a.bounds.upper,
        a.excludes_zero,
        b.bounds.lower,
        b.bounds.upper,
        b.excludes_zero,
    )
}

/// Checks whether the source constraint is contained in the target
/// constraint (whether a conversion always succeeds): the target lower
/// bound must not exceed the source one, the target upper bound must not
/// be below the source one, and the target may exclude zero only if the
/// source does.
pub fn is_subset_constraint(
    src_lower: Option<i64>,
    src_upper: Option<i64>,
    src_excludes_zero: bool,
    dst_lower: Option<i64>,
    dst_upper: Option<i64>,
    dst_excludes_zero: bool,
) -> (r: bool)
    ensures
        r == subset_constraint(
            src_lower,
            src_upper,
            src_excludes_zero,
            dst_lower,
            dst_upper,
            dst_excludes_zero,
        ),
{
    let lower_contains = match (src_lower, dst_lower) {
        (Some(src), Some(dst)) => key_is_ordered(src) && key_is_ordered(dst) && src >= dst,
        (Some(_), None) => true,
        (None, Some(_)) => false,
        (None, None) => true,
    };
    let upper_contains = match (src_upper, dst_upper) {
        (Some(src), Some(dst)) => key_is_ordered(src) && key_is_ordered(dst) && src <= dst,
        (Some(_), None) => true,
        (None, Some(_)) => false,
        (None, None) => true,
    };
    let zero_compatible = !dst_excludes_zero || src_excludes_zero;
    lower_contains && upper_contains && zero_compatible
}

/// Containment is interval inclusion: with bounds that are numbers, a
/// source range is contained in a target range exactly when the target's
/// lower bound, if it has one, is at or below the source's (which must then
/// have one), the target's upper bound, if any, is at or above the
/// source's, and the target excludes zero only if the source does. So
/// `[-1, 0]` lies in `[-1, 1]`.
pub proof fn law_subset_is_interval_inclusion(
    src_lower: Option<i64>,
    src_upper: Option<i64>,
    src_excludes_zero: bool,
    dst_lower: Option<i64>,
    dst_upper: Option<i64>,
    dst_excludes_zero: bool,
)
    requires
        src_lower is Some ==> is_ordered_key(src_lower->0 as int),
        src_upper is Some ==> is_ordered_key(src_upper->0 as int),
        dst_lower is Some ==> is_ordered_key(dst_lower->0 as int),
        dst_upper is Some ==> is_ordered_key(dst_upper->0 as int),
    ensures
        subset_constraint(
            src_lower,
            src_upper,
            src_excludes_zero,
            dst_lower,
            dst_upper,
            dst_excludes_zero,
        ) <==> {
            &&& (dst_lower is None || (src_lower is Some && dst_lower->0 <= src_lower->0))
            &&& (dst_upper is None || (src_upper is Some && src_upper->0 <= dst_upper->0))
            &&& (dst_excludes_zero ==> src_excludes_zero)
        },
{
}

/// Every constraint without NaN bounds is contained in itself.
pub proof fn law_subset_reflexive(a: ConstraintDef)
    requires
        ordered_bounds(a.bounds),
    ensures
        contained_in(a, a),
{
}

/// Containment is transitive.
pub proof fn law_subset_transitive(a: ConstraintDef, b: ConstraintDef, c: ConstraintDef)
    requires
        contained_in(a, b),
        contained_in(b, c),
    ensures
        contained_in(a, c),
{
}

/// Two constraints contained in each other have the same bounds and zero
/// exclusion.
pub proof fn law_subset_antisymmetric(a: ConstraintDef, b: ConstraintDef)
    requires
        contained_in(a, b),
        contained_in(b, a),
    ensures
        a.bounds == b.bounds,
        a.excludes_zero == b.excludes_zero,
{
}

/// One conversion implementation to emit between two constraint types of
/// the same float type: `From` when it always succeeds, else `TryFrom`.
#[derive(Debug, Clone)]
pub struct ConversionImpl {
    /// Source type alias.
    pub source: String,
    /// Target type alias.
    pub target: String,
    /// Whether the conversion always succeeds (`From`).
    pub is_from: bool,
}

/// The view of a conversion implementation.
pub open spec fn conversion_view(x: ConversionImpl) -> (Seq<char>, Seq<char>, bool) {
    (x.source@, x.target@, x.is_from)
}

/// The views of a list of conversion implementations.
pub open spec fn conversion_views(s: Seq<ConversionImpl>) -> Seq<(Seq<char>, Seq<char>, bool)> {
    s.map_values(|x: ConversionImpl| conversion_view(x))
}

/// The entry for converting type `s` to type `d` on float type `f`.
pub open spec fn conversion_entry(cs: Seq<ConstraintDef>, f: Seq<char>, s: TypeDef, d: TypeDef) -> (
    Seq<char>,
    Seq<char>,
    bool,
) {
    (
        type_alias(s.name@, f),
        type_alias(d.name@, f),
        contained_in(
            cs[constraint_position(cs, s.constraint_name@)],
            cs[constraint_position(cs, d.constraint_name@)],
        ),
    )
}

/// The entries from type `s` to every other type of the list.
pub open spec fn targets_row(cs: Seq<ConstraintDef>, f: Seq<char>, ts: Seq<TypeDef>, s: TypeDef) -> Seq<
    (Seq<char>, Seq<char>, bool),
> {
    ts.map_values(
        |d: TypeDef|
            if s.name@ == d.name@ {
                Seq::empty()
            } else {
                seq![conversion_entry(cs, f, s, d)]
            },
    ).flatten()
}

/// The entries between the types built for float type `f`.
pub open spec fn float_conversions(config: TypeConfig, f: Seq<char>) -> Seq<
    (Seq<char>, Seq<char>, bool),
> {
    let ts = config.constraint_types@.filter(has_float(f));
    ts.map_values(|s: TypeDef| targets_row(config.constraints@, f, ts, s)).flatten()
}

/// All conversion entries: `f32` types first, then `f64` types.
pub open spec fn conversion_plan(config: TypeConfig) -> Seq<(Seq<char>, Seq<char>, bool)> {
    primitive_names().map_values(|f: Seq<char>| float_conversions(config, f)).flatten()
}

proof fn lemma_filtered_type_has_constraints(config: TypeConfig, f: Seq<char>, k: int)
    requires
        config.wf(),
        0 <= k < config.constraint_types@.filter(has_float(f)).len(),
    ensures
        has_constraint(
            config.constraints@,
            config.constraint_types@.filter(has_float(f))[k].constraint_name@,
        ),
{
    config.lemma_wf();
    let ts = config.constraint_types@;
    let x = ts.filter(has_float(f))[k];
    assert(ts.filter(has_float(f)).contains(x));
    ts.lemma_filter_contains_rev(has_float(f), x);
    let m = choose|m: int| 0 <= m < ts.len() && ts[m] == x;
    assert(has_constraint(config.constraints@, ts[m].constraint_name@));
}

fn push_targets_row(
    config: &TypeConfig,
    f: &str,
    ts: &[&TypeDef],
    s: &TypeDef,
    out: &mut Vec<ConversionImpl>,
)
    requires
        has_constraint(config.constraints@, s.constraint_name@),
        forall|k: int|
            0 <= k < ts@.len() ==> has_constraint(
                config.constraints@,
                (#[trigger] deref_types(ts@)[k]).constraint_name@,
            ),
    ensures
        conversion_views(final(out)@) == conversion_views(old(out)@) + targets_row(
            config.constraints@,
            f@,
            deref_types(ts@),
            *s,
        ),
{
    let cs = &config.constraints;
    let si = find_constraint_index(cs, s.constraint_name.as_str());
    let ghost tsv = deref_types(ts@);
    let ghost rows = tsv.map_values(
        |d: TypeDef|
            if s.name@ == d.name@ {
                Seq::empty()
            } else {
                seq![conversion_entry(cs@, f@, *s, d)]
            },
    );
    let mut k: usize = 0;
    while k < ts.len()
        invariant
            k <= ts.len(),
            cs == &config.constraints,
            tsv == deref_types(ts@),
            forall|k: int|
                0 <= k < ts@.len() ==> has_constraint(
                    config.constraints@,
                    (#[trigger] deref_types(ts@)[k]).constraint_name@,
                ),
            si < cs@.len(),
            si as int == crate::config_types::first_index(
                cs@,
                crate::generator::named(s.constraint_name@),
            )->0,
            rows == tsv.map_values(
                |d: TypeDef|
                    if s.name@ == d.name@ {
                        Seq::empty()
                    } else {
                        seq![conversion_entry(cs@, f@, *s, d)]
                    },
            ),
            conversion_views(out@) == conversion_views(old(out)@) + rows.take(k as int).flatten(),
        decreases ts.len() - k,
    {
        let d = ts[k];
        assert(tsv[k as int] == *d);
        let ghost prev = conversion_views(out@);
        if !str_eq(s.name.as_str(), d.name.as_str()) {
            assert(has_constraint(config.constraints@, tsv[k as int].constraint_name@));
            let di = find_constraint_index(cs, d.constraint_name.as_str());
            let src = &cs[si];
            let dst = &cs[di];
            let is_from = is_subset_constraint(
                src.bounds.lower,
                src.bounds.upper,
                src.excludes_zero,
                dst.bounds.lower,
                dst.bounds.upper,
                dst.excludes_zero,
            );
            let entry = ConversionImpl {
                source: make_type_alias(s.name.as_str(), f),
                target: make_type_alias(d.name.as_str(), f),
                is_from,
            };
            out.push(entry);
            assert(rows[k as int] == seq![conversion_view(entry)]);
            assert(conversion_views(out@) =~= prev + rows[k as int]);
        } else {
            assert(rows[k as int] == Seq::<(Seq<char>, Seq<char>, bool)>::empty());
            assert(conversion_views(out@) =~= prev + rows[k as int]);
        }
        proof {
            assert(rows.take(k as int + 1) == rows.take(k as int).push(rows[k as int]));
            assert(conversion_views(out@) =~= conversion_views(old(out)@) + rows.take(
                k as int + 1,
            ).flatten());
        }
        k += 1;
    }
    assert(rows.take(k as int) == rows);
}

/// Lists the conversions between constraint types: for `f32` and then
/// `f64`, for every ordered pair of distinct types built for that float
/// type, `From` when the source constraint is contained in the target
/// constraint and `TryFrom` otherwise.
pub fn generate_constraint_to_constraint_traits(config: &TypeConfig) -> (r: Vec<ConversionImpl>)
    requires
        config.wf(),
    ensures
        conversion_views(r@) == conversion_plan(*config),
{
    let floats = [string_of(&['f', '3', '2']), string_of(&['f', '6', '4'])];
    let ghost blocks = primitive_names().map_values(
        |f: Seq<char>| float_conversions(*config, f),
    );
    let mut out: Vec<ConversionImpl> = Vec::new();
    let mut b: usize = 0;
    assert(conversion_views(out@) =~= blocks.take(0).flatten());
    while b < 2
        invariant
            b <= 2,
            config.wf(),
            floats@.len() == 2,
            floats@[0]@ == primitive_names()[0],
            floats@[1]@ == primitive_names()[1],
            blocks == primitive_names().map_values(|f: Seq<char>| float_conversions(*config, f)),
            conversion_views(out@) == blocks.take(b as int).flatten(),
        decreases 2 - b,
    {
        let f = floats[b].as_str();
        let ts = filter_constraint_types_by_float(config, f);
        let ghost tsv = deref_types(ts@);
        let ghost rows = tsv.map_values(|s: TypeDef| targets_row(config.constraints@, f@, tsv, s));
        let ghost before = conversion_views(out@);
        proof {
            assert forall|k: int| 0 <= k < ts@.len() implies has_constraint(
                config.constraints@,
                (#[trigger] deref_types(ts@)[k]).constraint_name@,
            ) by {
                lemma_filtered_type_has_constraints(*config, f@, k);
            }
        }
        let mut i: usize = 0;
        while i < ts.len()
            invariant
                i <= ts.len(),
                tsv == deref_types(ts@),
                forall|k: int|
                    0 <= k < ts@.len() ==> has_constraint(
                        config.constraints@,
                        (#[trigger] deref_types(ts@)[k]).constraint_name@,
                    ),
                rows == tsv.map_values(|s: TypeDef| targets_row(config.constraints@, f@, tsv, s)),
                conversion_views(out@) == before + rows.take(i as int).flatten(),
            decreases ts.len() - i,
        {
            assert(tsv[i as int] == *ts[i as int]);
            assert(has_constraint(config.constraints@, tsv[i as int].constraint_name@));
            push_targets_row(config, f, &ts, ts[i], &mut out);
            proof {
                assert(rows.take(i as int + 1) == rows.take(i as int).push(rows[i as int]));
                assert(conversion_views(out@) =~= before + rows.take(i as int + 1).flatten());
            }
            i += 1;
        }
        proof {
            assert(rows.take(i as int) == rows);
            assert(blocks[b as int] == rows.flatten());
            assert(blocks.take(b as int + 1) == blocks.take(b as int).push(blocks[b as int]));
            assert(conversion_views(out@) =~= blocks.take(b as int + 1).flatten());
        }
        b += 1;
    }
    assert(blocks.take(2) == blocks);
    out
}

} // verus!
