//! Validation conditions written as text, such as `"value >= 0.0"`.
//!
//! A condition is a comparison operator followed by an operand. This module
//! normalizes conditions, negates them (the condition a value satisfies
//! exactly when its negation satisfies the original), and compares lists of
//! conditions without regard to order.

use vstd::multiset::Multiset;
use vstd::prelude::*;

use crate::text::{
    is_white_space, trim_end, trim_start,
    char_is_white_space, chars_eq, chars_of, concat_chars, extend_chars, occurs_at, skip_chars,
    sub_chars,
    starts_with, string_of, strip_prefix_chars, strip_prefix_or_keep, trim, trim_chars,
};

verus! {

broadcast use {vstd::seq_lib::group_to_multiset_ensures, vstd::multiset::group_multiset_axioms};

/// The comparison operators a condition can start with.
#[derive(Clone, Copy, Debug, PartialEq, Eq, Structural)]
pub enum Comparison {
    /// `>=`
    Ge,
    /// `<=`
    Le,
    /// `>`
    Gt,
    /// `<`
    Lt,
    /// `!=`
    Ne,
}

/// The prefix every normalized condition starts with: `"value "`.
pub open spec fn value_prefix() -> Seq<char> {
    seq!['v', 'a', 'l', 'u', 'e', ' ']
}

/// The text of an operator.
pub open spec fn comparison_text(op: Comparison) -> Seq<char> {
    match op {
        Comparison::Ge => seq!['>', '='],
        Comparison::Le => seq!['<', '='],
        Comparison::Gt => seq!['>'],
        Comparison::Lt => seq!['<'],
        Comparison::Ne => seq!['!', '='],
    }
}

/// The operator that holds of `-x` exactly when `op` holds of `x`.
pub open spec fn flipped(op: Comparison) -> Comparison {
    match op {
        Comparison::Ge => Comparison::Le,
        Comparison::Le => Comparison::Ge,
        Comparison::Gt => Comparison::Lt,
        Comparison::Lt => Comparison::Gt,
        Comparison::Ne => Comparison::Ne,
    }
}

/// The operator `c` starts with, tried in the order `>=`, `<=`, `>`, `<`, `!=`.
pub open spec fn leading_comparison(c: Seq<char>) -> Option<Comparison> {
    if comparison_text(Comparison::Ge).is_prefix_of(c) {
        Some(Comparison::Ge)
    } else if comparison_text(Comparison::Le).is_prefix_of(c) {
        Some(Comparison::Le)
    } else if comparison_text(Comparison::Gt).is_prefix_of(c) {
        Some(Comparison::Gt)
    } else if comparison_text(Comparison::Lt).is_prefix_of(c) {
        Some(Comparison::Lt)
    } else if comparison_text(Comparison::Ne).is_prefix_of(c) {
        Some(Comparison::Ne)
    } else {
        None
    }
}

/// A condition in normal form: `"value "` followed by the trimmed text.
pub open spec fn normalized(condition: Seq<char>) -> Seq<char> {
    value_prefix() + trim(condition)
}

/// A condition with its `"value "` prefix removed, if it has one.
pub open spec fn without_value_prefix(condition: Seq<char>) -> Seq<char> {
    strip_prefix_or_keep(condition, value_prefix())
}

/// The operator of a condition and its trimmed operand text, if the condition
/// (after its `"value "` prefix) starts with a known operator.
pub open spec fn split_condition(condition: Seq<char>) -> Option<(Comparison, Seq<char>)> {
    let c = without_value_prefix(condition);
    match leading_comparison(c) {
        Some(op) => Some((op, trim(c.skip(comparison_text(op).len() as int)))),
        None => None,
    }
}

/// The negation of an ordering condition before normalization: the operator
/// flipped and the sign of the operand toggled (`-x` becomes `x`).
pub open spec fn negated_text(op: Comparison, operand: Seq<char>) -> Seq<char> {
    if operand.len() > 0 && operand[0] == '-' {
        comparison_text(flipped(op)) + seq![' '] + operand.drop_first()
    } else {
        comparison_text(flipped(op)) + seq![' ', '-'] + operand
    }
}

/// The negation of one condition, normalized. `!=` conditions and conditions
/// with no known operator are kept as they are.
pub open spec fn negated(condition: Seq<char>) -> Seq<char> {
    let c = without_value_prefix(condition);
    let text = match split_condition(condition) {
        Some((op, operand)) => if op == Comparison::Ne {
            c
        } else {
            negated_text(op, operand)
        },
        None => c,
    };
    normalized(text)
}

/// Whether a token can start right after `p`: at the start of the text,
/// after white space, or after a comparison character.
pub open spec fn token_boundary(p: Seq<char>) -> bool {
    p.len() == 0 || is_white_space(p.last()) || p.last() == '=' || p.last() == '<' || p.last()
        == '>'
}

/// The number of `0` characters the text ends with.
pub open spec fn trailing_zeros(s: Seq<char>) -> int
    decreases s.len(),
{
    if s.len() > 0 && s.last() == '0' {
        1 + trailing_zeros(s.drop_last())
    } else {
        0
    }
}

/// A condition whose operand is a negative zero literal standing as the
/// whole last token, `-0.0`, `-0.00`, ... or the same written `- 0.0`, with
/// the sign dropped (`0.0`, `0.00`, ...); every other condition (such as
/// one with operand `-0.05`) is unchanged.
pub open spec fn float_repr_normalized(s: Seq<char>) -> Seq<char> {
    let n = s.len() as int;
    let z = trailing_zeros(s);
    // `d` is the position of the decimal point before the trailing zeros.
    let d = n - z - 1;
    if z >= 1 && d >= 1 && s[d] == '.' && s[d - 1] == '0' {
        if d >= 2 && s[d - 2] == '-' && token_boundary(s.take(d - 2)) {
            s.take(d - 2) + s.skip(d - 1)
        } else if d >= 3 && s[d - 2] == ' ' && s[d - 3] == '-' && token_boundary(s.take(d - 3)) {
            s.take(d - 3) + s.skip(d - 1)
        } else {
            s
        }
    } else {
        s
    }
}

/// The views of a list of strings.
pub open spec fn views_of(a: Seq<String>) -> Seq<Seq<char>> {
    a.map_values(|s: String| s@)
}

/// Every condition of a list negated.
pub open spec fn negated_all(conditions: Seq<Seq<char>>) -> Seq<Seq<char>> {
    conditions.map_values(|c: Seq<char>| negated(c))
}

/// Every condition of a list with negative zero written as `0.0`.
pub open spec fn repr_normalized_all(conditions: Seq<Seq<char>>) -> Seq<Seq<char>> {
    conditions.map_values(|s: Seq<char>| float_repr_normalized(s))
}

/// The multiset of normalized conditions of a list.
pub open spec fn condition_multiset(conditions: Seq<Seq<char>>) -> Multiset<Seq<char>> {
    repr_normalized_all(conditions).to_multiset()
}

/// Whether two lists hold the same conditions, up to order and the spelling
/// of negative zero.
pub open spec fn same_conditions(a: Seq<Seq<char>>, b: Seq<Seq<char>>) -> bool {
    condition_multiset(a) == condition_multiset(b)
}

fn comparison_chars(op: Comparison) -> (r: Vec<char>)
    ensures
        r@ == comparison_text(op),
{
    match op {
        Comparison::Ge => vec!['>', '='],
        Comparison::Le => vec!['<', '='],
        Comparison::Gt => vec!['>'],
        Comparison::Lt => vec!['<'],
        Comparison::Ne => vec!['!', '='],
    }
}

fn flip(op: Comparison) -> (r: Comparison)
    ensures
        r == flipped(op),
{
    match op {
        Comparison::Ge => Comparison::Le,
        Comparison::Le => Comparison::Ge,
        Comparison::Gt => Comparison::Lt,
        Comparison::Lt => Comparison::Gt,
        Comparison::Ne => Comparison::Ne,
    }
}

fn value_prefix_chars() -> (r: Vec<char>)
    ensures
        r@ == value_prefix(),
{
    vec!['v', 'a', 'l', 'u', 'e', ' ']
}

fn leading_comparison_of(c: &[char]) -> (r: Option<Comparison>)
    ensures
        r == leading_comparison(c@),
{
    if starts_with(c, &comparison_chars(Comparison::Ge)) {
        Some(Comparison::Ge)
    } else if starts_with(c, &comparison_chars(Comparison::Le)) {
        Some(Comparison::Le)
    } else if starts_with(c, &comparison_chars(Comparison::Gt)) {
        Some(Comparison::Gt)
    } else if starts_with(c, &comparison_chars(Comparison::Lt)) {
        Some(Comparison::Lt)
    } else if starts_with(c, &comparison_chars(Comparison::Ne)) {
        Some(Comparison::Ne)
    } else {
        None
    }
}

fn normalize_chars(condition: &[char]) -> (r: Vec<char>)
    ensures
        r@ == normalized(condition@),
{
    concat_chars(&value_prefix_chars(), &trim_chars(condition))
}

fn split_chars(condition: &[char]) -> (r: Option<(Comparison, Vec<char>)>)
    ensures
        match r {
            Some((op, operand)) => split_condition(condition@) == Some((op, operand@)),
            None => split_condition(condition@) is None,
        },
{
    let c = strip_prefix_chars(condition, &value_prefix_chars());
    match leading_comparison_of(&c) {
        Some(op) => {
            let rest = skip_chars(&c, comparison_chars(op).len());
            Some((op, trim_chars(&rest)))
        },
        None => None,
    }
}

/// Normalizes a condition by trimming it and adding the `"value "` prefix.
pub fn normalize_condition(condition: &str) -> (r: String)
    ensures
        r@ == normalized(condition@),
{
    string_of(&normalize_chars(&chars_of(condition)))
}

/// Splits a condition into its operator and trimmed operand text.
///
/// The `"value "` prefix is removed first if present; `None` when no known
/// operator follows.
pub fn condition_comparison(condition: &str) -> (r: Option<(Comparison, String)>)
    ensures
        match r {
            Some((op, operand)) => split_condition(condition@) == Some((op, operand@)),
            None => split_condition(condition@) is None,
        },
{
    match split_chars(&chars_of(condition)) {
        Some((op, operand)) => Some((op, string_of(&operand))),
        None => None,
    }
}

fn negate_chars(condition: &[char]) -> (r: Vec<char>)
    ensures
        r@ == negated(condition@),
{
    let c = strip_prefix_chars(condition, &value_prefix_chars());
    let text = match split_chars(condition) {
        Some((op, operand)) => {
            if op == Comparison::Ne {
                c
            } else {
                let mut t = comparison_chars(flip(op));
                if operand.len() > 0 && operand[0] == '-' {
                    t.push(' ');
                    extend_chars(&mut t, &skip_chars(&operand, 1));
                    assert(comparison_text(flipped(op)) + seq![' '] == comparison_text(
                        flipped(op),
                    ).push(' '));
                } else {
                    t.push(' ');
                    t.push('-');
                    extend_chars(&mut t, &operand);
                    assert(comparison_text(flipped(op)) + seq![' ', '-'] =~= comparison_text(
                        flipped(op),
                    ).push(' ').push('-'));
                }
                t
            }
        },
        None => c,
    };
    normalize_chars(&text)
}

/// Negates every condition of a list.
///
/// `>= x` becomes `<= -x`, `<= x` becomes `>= -x`, `> x` becomes `< -x` and
/// `< x` becomes `> -x`, where a leading `-` of `x` is dropped instead of
/// doubled; `!=` conditions and unknown conditions stay as they are. Every
/// result is normalized.
pub fn negate_conditions(conditions: &[String]) -> (r: Vec<String>)
    ensures
        views_of(r@) == negated_all(views_of(conditions@)),
{
    let mut out: Vec<String> = Vec::new();
    let mut i: usize = 0;
    while i < conditions.len()
        invariant
            i <= conditions.len(),
            out@.len() == i,
            forall|j: int| 0 <= j < i ==> #[trigger] out@[j]@ == negated(conditions@[j]@),
        decreases conditions.len() - i,
    {
        let c = chars_of(conditions[i].as_str());
        out.push(string_of(&negate_chars(&c)));
        i += 1;
    }
    assert(views_of(out@) =~= negated_all(views_of(conditions@)));
    out
}

fn is_token_boundary(s: &[char], end: usize) -> (b: bool)
    requires
        end <= s.len(),
    ensures
        b == token_boundary(s@.take(end as int)),
{
    if end == 0 {
        true
    } else {
        let c = s[end - 1];
        assert(s@.take(end as int).last() == c);
        char_is_white_space(c) || c == '=' || c == '<' || c == '>'
    }
}

fn count_trailing_zeros(s: &[char]) -> (z: usize)
    ensures
        z == trailing_zeros(s@),
        z <= s.len(),
{
    let n = s.len();
    let mut z: usize = 0;
    assert(s@.take(n as int) =~= s@);
    while z < n && s[n - 1 - z] == '0'
        invariant
            z <= n,
            n == s.len(),
            trailing_zeros(s@) == z + trailing_zeros(s@.take(n - z)),
        decreases n - z,
    {
        let ghost t = s@.take(n - z);
        assert(t.last() == s@[n - 1 - z]);
        assert(t.drop_last() =~= s@.take(n - z - 1));
        z += 1;
    }
    if z < n {
        assert(s@.take(n - z).last() == s@[n - 1 - z]);
    } else {
        assert(s@.take(n - z).len() == 0);
    }
    z
}

fn float_repr_chars(s: &[char]) -> (r: Vec<char>)
    ensures
        r@ == float_repr_normalized(s@),
{
    let n = s.len();
    let z = count_trailing_zeros(s);
    if z >= 1 && n - z >= 2 {
        let d = n - z - 1;
        if s[d] == '.' && s[d - 1] == '0' {
            if d >= 2 && s[d - 2] == '-' && is_token_boundary(s, d - 2) {
                let r = concat_chars(&sub_chars(s, 0, d - 2), &skip_chars(s, d - 1));
                assert(s@.subrange(0, d - 2) =~= s@.take(d - 2));
                return r;
            } else if d >= 3 && s[d - 2] == ' ' && s[d - 3] == '-' && is_token_boundary(s, d - 3) {
                let r = concat_chars(&sub_chars(s, 0, d - 3), &skip_chars(s, d - 1));
                assert(s@.subrange(0, d - 3) =~= s@.take(d - 3));
                return r;
            }
        }
    }
    assert(s@.subrange(0, n as int) =~= s@);
    sub_chars(s, 0, n)
}

/// Drops the sign of a negative-zero operand (`-0.0`, `-0.00`, ... or
/// `- 0.0` as the whole last token); every other text, `-0.05` included,
/// is unchanged.
pub fn normalize_float_repr(s: String) -> (r: String)
    ensures
        r@ == float_repr_normalized(s@),
{
    string_of(&float_repr_chars(&chars_of(s.as_str())))
}

/// The normalized form of every condition of a list, as character vectors.
fn normalized_list(conditions: &[String]) -> (r: Vec<Vec<char>>)
    ensures
        r@.len() == conditions@.len(),
        forall|i: int| 0 <= i < conditions@.len() ==> #[trigger] r@[i]@ == float_repr_normalized(
            conditions@[i]@,
        ),
{
    let mut out: Vec<Vec<char>> = Vec::new();
    let mut i: usize = 0;
    while i < conditions.len()
        invariant
            i <= conditions.len(),
            out@.len() == i,
            forall|j: int| 0 <= j < i ==> #[trigger] out@[j]@ == float_repr_normalized(
                conditions@[j]@,
            ),
        decreases conditions.len() - i,
    {
        out.push(float_repr_chars(&chars_of(conditions[i].as_str())));
        i += 1;
    }
    out
}

/// The views of a list of character vectors.
pub open spec fn views(v: Seq<Vec<char>>) -> Seq<Seq<char>> {
    v.map_values(|x: Vec<char>| x@)
}

/// Checks if two lists of conditions match, ignoring their order and the
/// spelling of negative zero.
pub fn conditions_match(a: &[String], b: &[String]) -> (r: bool)
    ensures
        r == same_conditions(views_of(a@), views_of(b@)),
{
    let an = normalized_list(a);
    let mut rest = normalized_list(b);
    let ghost am = repr_normalized_all(views_of(a@));
    let ghost bm = repr_normalized_all(views_of(b@));
    proof {
        assert(views(an@) =~= am);
        assert(views(rest@) =~= bm);
    }
    let mut i: usize = 0;
    while i < an.len()
        invariant
            i <= an.len(),
            an@.len() == a@.len(),
            views(an@) == am,
            am == repr_normalized_all(views_of(a@)),
            bm == repr_normalized_all(views_of(b@)),
            am.len() == an@.len(),
            am.take(i as int).to_multiset().add(views(rest@).to_multiset()) == bm.to_multiset(),
        decreases an.len() - i,
    {
        let mut k: usize = 0;
        while k < rest.len() && !chars_eq(&rest[k], &an[i])
            invariant
                k <= rest.len(),
                i < an.len(),
                forall|j: int| 0 <= j < k ==> rest@[j]@ != an@[i as int]@,
            decreases rest.len() - k,
        {
            k += 1;
        }
        let found = k < rest.len();
        if !found {
            proof {
                let x = am[i as int];
                assert(x == an@[i as int]@);
                assert(!views(rest@).contains(x)) by {
                    if views(rest@).contains(x) {
                        let j = choose|j: int| 0 <= j < views(rest@).len() && views(rest@)[j] == x;
                        assert(rest@[j]@ == x);
                    }
                }
                lemma_unmatched_element(am, bm, views(rest@), i as int);
                assert(am.to_multiset() != bm.to_multiset());
                assert(condition_multiset(views_of(a@)) == am.to_multiset());
            }
            return false;
        }
        proof {
            let x = am[i as int];
            let vr = views(rest@);
            assert(vr[k as int] == x);
            assert(vr.remove(k as int).to_multiset() =~= vr.to_multiset().remove(x));
            assert(am.take(i as int + 1) =~= am.take(i as int).push(x));
            assert(views(rest@.remove(k as int)) =~= vr.remove(k as int));
            assert(vr.to_multiset().count(x) > 0);
            assert(am.take(i as int + 1).to_multiset().add(vr.remove(k as int).to_multiset())
                =~= am.take(i as int).to_multiset().add(vr.to_multiset()));
        }
        rest.remove(k);
        i += 1;
    }
    proof {
        assert(am.take(i as int) =~= am);
        if rest.len() == 0 {
            assert(views(rest@) =~= Seq::<Seq<char>>::empty());
            assert(views(rest@).to_multiset().len() == 0);
            assert(views(rest@).to_multiset() =~= Multiset::empty());
            assert(am.to_multiset().add(Multiset::empty()) =~= am.to_multiset());
            assert(am.to_multiset() == bm.to_multiset());
        } else {
            assert(views(rest@).len() > 0);
            assert(views(rest@).to_multiset().len() > 0);
            assert(bm.to_multiset().len() == am.to_multiset().len() + views(
                rest@,
            ).to_multiset().len());
            assert(am.to_multiset() != bm.to_multiset());
        }
    }
    rest.len() == 0
}

proof fn lemma_unmatched_element(
    am: Seq<Seq<char>>,
    bm: Seq<Seq<char>>,
    rest: Seq<Seq<char>>,
    i: int,
)
    requires
        0 <= i < am.len(),
        am.take(i).to_multiset().add(rest.to_multiset()) == bm.to_multiset(),
        !rest.contains(am[i]),
    ensures
        am.to_multiset() != bm.to_multiset(),
{
    let x = am[i];
    if am.to_multiset() == bm.to_multiset() {
        assert(am =~= am.take(i) + am.skip(i));
        vstd::seq_lib::lemma_multiset_commutative(am.take(i), am.skip(i));
        assert(am.skip(i)[0] == x);
        assert(am.skip(i).to_multiset().count(x) > 0);
        assert(rest.to_multiset().count(x) == 0);
        assert(am.to_multiset().count(x) == am.take(i).to_multiset().count(x) + am.skip(
            i,
        ).to_multiset().count(x));
        assert(bm.to_multiset().count(x) == am.take(i).to_multiset().count(x) + rest.to_multiset().count(
            x,
        ));
    }
}

// ---------------------------------------------------------------------------
// Laws
// ---------------------------------------------------------------------------

/// A condition in the normal form `value <op> <operand>`.
pub open spec fn condition_text(op: Comparison, operand: Seq<char>) -> Seq<char> {
    value_prefix() + comparison_text(op) + seq![' '] + operand
}

/// An operand that survives negation twice: nonempty, without surrounding
/// white space, and with at most one leading minus sign, which is directly
/// followed by the rest of the number.
pub open spec fn well_formed_operand(x: Seq<char>) -> bool {
    &&& x.len() > 0
    &&& !is_white_space(x[0])
    &&& !is_white_space(x.last())
    &&& x[0] == '-' ==> x.len() > 1 && x[1] != '-' && !is_white_space(x[1])
}

proof fn lemma_trim_unchanged(s: Seq<char>)
    requires
        s.len() > 0,
        !is_white_space(s[0]),
        !is_white_space(s.last()),
    ensures
        trim(s) == s,
{
    assert(trim_start(s) == s);
    assert(trim_end(s) == s);
}

proof fn lemma_trim_space_prefix(s: Seq<char>)
    requires
        s.len() > 0,
        !is_white_space(s[0]),
        !is_white_space(s.last()),
    ensures
        trim(seq![' '] + s) == s,
{
    let t = seq![' '] + s;
    assert(is_white_space(' '));
    assert(t.drop_first() =~= s);
    assert(trim_start(t) == trim_start(s));
    lemma_trim_unchanged(s);
}

proof fn lemma_split_condition_text(op: Comparison, rest: Seq<char>)
    requires
        rest.len() > 0,
        rest[0] == ' ',
    ensures
        without_value_prefix(value_prefix() + comparison_text(op) + rest) == comparison_text(op)
            + rest,
        leading_comparison(comparison_text(op) + rest) == Some(op),
        (comparison_text(op) + rest).skip(comparison_text(op).len() as int) == rest,
{
    let body = comparison_text(op) + rest;
    let full = value_prefix() + body;
    assert(value_prefix().is_prefix_of(full)) by {
        assert(full.subrange(0, 6) =~= value_prefix());
    }
    assert(full.skip(6) =~= body);
    assert(body.skip(comparison_text(op).len() as int) =~= rest);
    let n = comparison_text(op).len() as int;
    assert(body[n] == ' ');
    match op {
        Comparison::Ge => {
            assert(comparison_text(Comparison::Ge).is_prefix_of(body)) by {
                assert(body.subrange(0, 2) =~= comparison_text(Comparison::Ge));
            }
        },
        Comparison::Le => {
            assert(!comparison_text(Comparison::Ge).is_prefix_of(body)) by {
                assert(body[0] == '<');
            }
            assert(comparison_text(Comparison::Le).is_prefix_of(body)) by {
                assert(body.subrange(0, 2) =~= comparison_text(Comparison::Le));
            }
        },
        Comparison::Gt => {
            assert(!comparison_text(Comparison::Ge).is_prefix_of(body)) by {
                assert(body[1] == ' ');
                assert(comparison_text(Comparison::Ge)[1] == '=');
            }
            assert(!comparison_text(Comparison::Le).is_prefix_of(body)) by {
                assert(body[0] == '>');
            }
            assert(comparison_text(Comparison::Gt).is_prefix_of(body)) by {
                assert(body.subrange(0, 1) =~= comparison_text(Comparison::Gt));
            }
        },
        Comparison::Lt => {
            assert(!comparison_text(Comparison::Ge).is_prefix_of(body)) by {
                assert(body[0] == '<');
            }
            assert(!comparison_text(Comparison::Le).is_prefix_of(body)) by {
                assert(body[1] == ' ');
                assert(comparison_text(Comparison::Le)[1] == '=');
            }
            assert(!comparison_text(Comparison::Gt).is_prefix_of(body)) by {
                assert(body[0] == '<');
                assert(body.subrange(0, 1)[0] == '<');
                assert(comparison_text(Comparison::Gt)[0] == '>');
            }
            assert(comparison_text(Comparison::Lt).is_prefix_of(body)) by {
                assert(body.subrange(0, 1) =~= comparison_text(Comparison::Lt));
            }
        },
        Comparison::Ne => {
            assert(!comparison_text(Comparison::Ge).is_prefix_of(body)) by {
                assert(body[0] == '!');
            }
            assert(!comparison_text(Comparison::Le).is_prefix_of(body)) by {
                assert(body[0] == '!');
            }
            assert(!comparison_text(Comparison::Gt).is_prefix_of(body)) by {
                assert(body[0] == '!');
            }
            assert(!comparison_text(Comparison::Lt).is_prefix_of(body)) by {
                assert(body[0] == '!');
            }
            assert(comparison_text(Comparison::Ne).is_prefix_of(body)) by {
                assert(body.subrange(0, 2) =~= comparison_text(Comparison::Ne));
            }
        },
    }
}

/// The negation of an ordering condition with a negative operand drops the
/// minus sign; with another operand it adds one.
proof fn lemma_negated_condition_text(op: Comparison, x: Seq<char>)
    requires
        op != Comparison::Ne,
        well_formed_operand(x),
    ensures
        x[0] == '-' ==> negated(condition_text(op, x)) == condition_text(flipped(op), x.drop_first()),
        x[0] != '-' ==> negated(condition_text(op, x)) == condition_text(
            flipped(op),
            seq!['-'] + x,
        ),
{
    let rest = seq![' '] + x;
    assert(condition_text(op, x) =~= value_prefix() + comparison_text(op) + rest);
    lemma_split_condition_text(op, rest);
    lemma_trim_space_prefix(x);
    let operand = trim(rest);
    assert(operand == x);
    if x[0] == '-' {
        let y = x.drop_first();
        let text = comparison_text(flipped(op)) + seq![' '] + y;
        assert(negated(condition_text(op, x)) == normalized(text));
        assert(y.last() == x.last());
        lemma_trim_unchanged(text);
        assert(normalized(text) =~= condition_text(flipped(op), y));
    } else {
        let mx = seq!['-'] + x;
        let text = comparison_text(flipped(op)) + seq![' ', '-'] + x;
        assert(negated(condition_text(op, x)) == normalized(text));
        assert(text.last() == x.last());
        lemma_trim_unchanged(text);
        assert(normalized(text) =~= condition_text(flipped(op), mx));
    }
}

/// Negating a condition twice gives it back, for conditions in normal form
/// with a well-formed operand; a `!=` condition is its own negation.
pub proof fn law_negation_involutive(op: Comparison, x: Seq<char>)
    requires
        well_formed_operand(x),
    ensures
        negated(negated(condition_text(op, x))) == condition_text(op, x),
        op == Comparison::Ne ==> negated(condition_text(op, x)) == condition_text(op, x),
{
    if op == Comparison::Ne {
        let rest = seq![' '] + x;
        assert(condition_text(op, x) =~= value_prefix() + comparison_text(op) + rest);
        lemma_split_condition_text(op, rest);
        let body = comparison_text(op) + rest;
        assert(body.last() == x.last());
        lemma_trim_unchanged(body);
        assert(normalized(body) =~= condition_text(op, x));
    } else {
        lemma_negated_condition_text(op, x);
        assert(flipped(flipped(op)) == op);
        if x[0] == '-' {
            let y = x.drop_first();
            assert(well_formed_operand(y)) by {
                assert(y.last() == x.last());
            }
            assert(y[0] != '-');
            lemma_negated_condition_text(flipped(op), y);
            assert(seq!['-'] + y =~= x);
        } else {
            let mx = seq!['-'] + x;
            assert(well_formed_operand(mx)) by {
                assert(mx.last() == x.last());
                assert(mx[1] == x[0]);
                assert(!is_white_space('-'));
            }
            lemma_negated_condition_text(flipped(op), mx);
            assert(mx.drop_first() =~= x);
        }
    }
}

/// Matching condition lists is an equivalence: reflexive, symmetric and
/// transitive.
pub proof fn law_conditions_match_equivalence(
    a: Seq<Seq<char>>,
    b: Seq<Seq<char>>,
    c: Seq<Seq<char>>,
)
    ensures
        same_conditions(a, a),
        same_conditions(a, b) ==> same_conditions(b, a),
        same_conditions(a, b) && same_conditions(b, c) ==> same_conditions(a, c),
{
}

/// Matching ignores order: a list matches every reordering of itself.
pub proof fn law_conditions_match_ignores_order(a: Seq<Seq<char>>, i: int, j: int)
    requires
        0 <= i < a.len(),
        0 <= j < a.len(),
    ensures
        same_conditions(a, a.update(i, a[j]).update(j, a[i])),
{
    let b = a.update(i, a[j]).update(j, a[i]);
    let na = repr_normalized_all(a);
    let nb = repr_normalized_all(b);
    assert(nb =~= na.update(i, na[j]).update(j, na[i]));
    if i != j {
        lemma_swap_multiset(na, i, j);
    } else {
        assert(nb =~= na);
    }
}

proof fn lemma_swap_multiset(s: Seq<Seq<char>>, i: int, j: int)
    requires
        0 <= i < s.len(),
        0 <= j < s.len(),
        i != j,
    ensures
        s.update(i, s[j]).update(j, s[i]).to_multiset() == s.to_multiset(),
    decreases i,
{
    if i > j {
        assert(s.update(i, s[j]).update(j, s[i]) =~= s.update(j, s[i]).update(i, s[j]));
        lemma_swap_multiset(s, j, i);
    } else {
        let t = s.update(i, s[j]).update(j, s[i]);
        let a = s.take(i);
        let b = s.subrange(i + 1, j);
        let c = s.skip(j + 1);
        assert(s =~= a + seq![s[i]] + b + seq![s[j]] + c);
        assert(t =~= a + seq![s[j]] + b + seq![s[i]] + c);
        vstd::seq_lib::lemma_multiset_commutative(a + seq![s[i]] + b + seq![s[j]], c);
        vstd::seq_lib::lemma_multiset_commutative(a + seq![s[j]] + b + seq![s[i]], c);
        vstd::seq_lib::lemma_multiset_commutative(a + seq![s[i]] + b, seq![s[j]]);
        vstd::seq_lib::lemma_multiset_commutative(a + seq![s[j]] + b, seq![s[i]]);
        vstd::seq_lib::lemma_multiset_commutative(a + seq![s[i]], b);
        vstd::seq_lib::lemma_multiset_commutative(a + seq![s[j]], b);
        vstd::seq_lib::lemma_multiset_commutative(a, seq![s[i]]);
        vstd::seq_lib::lemma_multiset_commutative(a, seq![s[j]]);
        assert(t.to_multiset() =~= s.to_multiset());
    }
}

} // verus!
