use strict_num_extended::conditions::{
    condition_comparison, conditions_match, negate_conditions, normalize_condition,
    normalize_float_repr, Comparison,
};
use strict_num_extended::float_key::{
    float_bits_from_key, float_key_from_bits, INFINITY_KEY, MAX_FINITE_KEY, NEG_ONE_KEY, ONE_KEY,
    ZERO_KEY,
};
use strict_num_extended::text::{
    char_is_white_space, chars_of, str_eq, string_of, trim_chars,
};

fn strings(items: &[&str]) -> Vec<String> {
    items.iter().map(|s| s.to_string()).collect()
}

fn key(v: f64) -> i64 {
    float_key_from_bits(v.to_bits())
}

#[test]
fn normalize_condition_trims_and_prefixes() {
    assert_eq!(normalize_condition(">= 0.0"), "value >= 0.0");
    assert_eq!(normalize_condition("  <= 1.0 \t"), "value <= 1.0");
    assert_eq!(normalize_condition(""), "value ");
}

#[test]
fn condition_comparison_splits_operator_and_operand() {
    assert_eq!(condition_comparison("value >= 1.5"), Some((Comparison::Ge, "1.5".to_string())));
    assert_eq!(condition_comparison("value <=  -2"), Some((Comparison::Le, "-2".to_string())));
    assert_eq!(condition_comparison("> 0.0"), Some((Comparison::Gt, "0.0".to_string())));
    assert_eq!(condition_comparison("value < 3"), Some((Comparison::Lt, "3".to_string())));
    assert_eq!(condition_comparison("value != 0.0"), Some((Comparison::Ne, "0.0".to_string())));
    assert_eq!(condition_comparison("value == 3"), None);
}

#[test]
fn negate_conditions_flips_each_comparison() {
    let negated = negate_conditions(&strings(&[
        "value >= 0.0",
        "value <= 1.0",
        "value > 2.5",
        "value < PI",
    ]));
    assert_eq!(
        negated,
        strings(&["value <= -0.0", "value >= -1.0", "value < -2.5", "value > -PI"])
    );
}

#[test]
fn negate_conditions_drops_double_minus() {
    let negated = negate_conditions(&strings(&["value >= -1.0", "value < -3"]));
    assert_eq!(negated, strings(&["value <= 1.0", "value > 3"]));
}

#[test]
fn negate_conditions_keeps_inequality_and_unknown() {
    // A condition with leading blanks starts with no operator: it stays as
    // it is, normalized.
    let negated = negate_conditions(&strings(&["value != 0.0", "value == 3", "  >= 2 "]));
    assert_eq!(negated, strings(&["value != 0.0", "value == 3", "value >= 2"]));
}

#[test]
fn negation_twice_gives_back_the_conditions() {
    let conds = strings(&["value >= 1.0", "value < -2.0", "value != 0.0"]);
    assert_eq!(negate_conditions(&negate_conditions(&conds)), conds);
}

#[test]
fn normalize_float_repr_rewrites_negative_zero() {
    assert_eq!(normalize_float_repr("value <= -0.0".to_string()), "value <= 0.0");
    assert_eq!(normalize_float_repr("value >= - 0.0".to_string()), "value >= 0.0");
    assert_eq!(normalize_float_repr("value>=-0.0".to_string()), "value>=0.0");
    assert_eq!(normalize_float_repr("-0.0".to_string()), "0.0");
    assert_eq!(normalize_float_repr("value <= -0.00".to_string()), "value <= 0.00");
    assert_eq!(normalize_float_repr("value >= - 0.000".to_string()), "value >= 0.000");
}

#[test]
fn normalize_float_repr_keeps_other_negative_operands() {
    assert_eq!(normalize_float_repr("value >= -1.0".to_string()), "value >= -1.0");
    assert_eq!(normalize_float_repr("value >= -0.05".to_string()), "value >= -0.05");
    assert_eq!(normalize_float_repr("value >= -0.0001".to_string()), "value >= -0.0001");
    assert_eq!(normalize_float_repr("value >= 1-0.0".to_string()), "value >= 1-0.0");
    assert_eq!(normalize_float_repr("value != -0.0 x".to_string()), "value != -0.0 x");
    assert_eq!(normalize_float_repr("value <= -0.".to_string()), "value <= -0.");
    assert_eq!(normalize_float_repr("value <= -00.0".to_string()), "value <= -00.0");
    assert_eq!(normalize_float_repr("value <= -0.10".to_string()), "value <= -0.10");
}

#[test]
fn conditions_match_ignores_order_and_negative_zero() {
    let a = strings(&["value >= 0.0", "value <= 1.0"]);
    let b = strings(&["value <= 1.0", "value >= -0.0"]);
    assert!(conditions_match(&a, &b));
    assert!(conditions_match(&b, &a));
}

#[test]
fn conditions_match_tells_small_negative_bounds_apart() {
    let a = strings(&["value >= -0.05"]);
    let b = strings(&["value >= 0.05"]);
    assert!(!conditions_match(&a, &b));
    assert!(conditions_match(&strings(&["value <= -0.0"]), &strings(&["value <= 0.0"])));
}

#[test]
fn conditions_match_counts_repetitions() {
    let a = strings(&["value > 0", "value > 0", "value < 5"]);
    let b = strings(&["value > 0", "value < 5", "value < 5"]);
    assert!(!conditions_match(&a, &b));
    assert!(!conditions_match(&a, &strings(&["value > 0", "value < 5"])));
    assert!(conditions_match(&[], &[]));
}

#[test]
fn negated_normalized_matches_negative_normalized() {
    let normalized = strings(&["value >= 0.0", "value <= 1.0"]);
    let negative_normalized = strings(&["value >= -1.0", "value <= 0.0"]);
    assert!(conditions_match(&negate_conditions(&normalized), &negative_normalized));
    assert!(!conditions_match(&negate_conditions(&normalized), &normalized));
}

#[test]
fn float_key_orders_like_the_values() {
    let values = [f64::NEG_INFINITY, f64::MIN, -1.0, -f64::MIN_POSITIVE, 0.0, 1e-300, 0.5, 1.0, f64::MAX, f64::INFINITY];
    for pair in values.windows(2) {
        assert!(key(pair[0]) < key(pair[1]), "{} < {}", pair[0], pair[1]);
    }
}

#[test]
fn float_key_named_values() {
    assert_eq!(key(0.0), ZERO_KEY);
    assert_eq!(key(-0.0), ZERO_KEY);
    assert_eq!(key(1.0), ONE_KEY);
    assert_eq!(key(-1.0), NEG_ONE_KEY);
    assert_eq!(key(f64::MAX), MAX_FINITE_KEY);
    assert_eq!(key(f64::INFINITY), INFINITY_KEY);
    assert_eq!(key(f64::NEG_INFINITY), -INFINITY_KEY);
    assert_eq!(key(1.0), 0x3FF0_0000_0000_0000);
}

#[test]
fn float_key_negation_negates_key() {
    for v in [0.5, 1.0, 3.25, f64::MAX, f64::MIN_POSITIVE, 1e-310, f64::INFINITY] {
        assert_eq!(key(-v), -key(v));
    }
}

#[test]
fn float_key_round_trip() {
    for v in [0.0, 0.5, -0.5, 1.0, -3.25, f64::MAX, f64::MIN, f64::INFINITY, 1e-310] {
        assert_eq!(f64::from_bits(float_bits_from_key(key(v))), v);
        assert_eq!(float_bits_from_key(key(v)), v.to_bits());
    }
    assert_eq!(float_bits_from_key(key(-0.0)), 0.0f64.to_bits());
}

#[test]
fn trim_chars_removes_unicode_white_space() {
    let s = chars_of("\u{3000} \t x y \n\u{2028}");
    assert_eq!(string_of(&trim_chars(&s)), "x y");
    assert!(char_is_white_space('\u{85}'));
    assert!(!char_is_white_space('x'));
    assert!(!char_is_white_space('\u{200B}'));
}

#[test]
fn str_eq_compares_characters() {
    assert!(str_eq("Positive", "Positive"));
    assert!(!str_eq("Positive", "positive"));
    assert!(!str_eq("Pos", "Positive"));
}
