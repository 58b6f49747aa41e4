use strict_num_extended::arithmetic::{
    compute_add_properties, compute_all_arithmetic_results, compute_arithmetic_result,
    compute_div_properties, compute_mul_properties, compute_mul_result_bounds,
    compute_sub_properties, filter_constraints_by_properties, filter_constraints_by_sign,
    find_matching_constraint, max_abs_value, BoundaryFacts,
};
use strict_num_extended::conditions::{condition_comparison, normalize_condition};
use strict_num_extended::config::{
    build_constraint_defs, parse_type_properties, validate_aliases, ConfigError,
};
use strict_num_extended::config_types::{
    get_standard_arithmetic_ops, ArithmeticOp, Bounds, ConstraintDef, Sign, TypeAliasDef,
    TypeConfig,
};
use strict_num_extended::constants::{
    all_constants, applicable_constants, constant_matches_constraint,
};
use strict_num_extended::conversion::{
    generate_constraint_to_constraint_traits, is_subset_constraint,
};
use strict_num_extended::doc_generator::{
    constraint_range_shape, generate_invalid_example, generate_type_description,
    generate_valid_example, generate_valid_example_for_type, ExampleFacts, InvalidExample, RangeShape,
    TypeDescription, TypeExample, ValidExample,
};
use strict_num_extended::float_key::{
    float_bits_from_key, float_key_from_bits, INFINITY_KEY, MAX_FINITE_KEY, NEG_ONE_KEY, ONE_KEY,
};
use strict_num_extended::generator::{
    build_bound_check, build_validation_expr, filter_constraint_types_by_float,
    find_constraint_def, find_constraint_index, for_all_constraint_float_types,
    generate_arithmetic_for_all_types, generate_arithmetic_for_primitive_types,
    generate_negation_plan, make_type_alias, needs_explicit_zero_check, BoundCheck,
    ValidationCheck,
};
use strict_num_extended::unary_ops::{
    infer_abs_output_type, infer_signum_output_type, is_negative_normalized_bounds,
    is_normalized_bounds, is_symmetric_bounds,
};

// ---------------------------------------------------------------------------
// Building configurations the way the macro does: operands are parsed as
// floats and the boundary facts are evaluated in floating point.
// ---------------------------------------------------------------------------

fn key(v: f64) -> i64 {
    float_key_from_bits(v.to_bits())
}

fn val(k: i64) -> f64 {
    f64::from_bits(float_bits_from_key(k))
}

fn parse_float_value(s: &str) -> f64 {
    match s {
        "PI" => core::f64::consts::PI,
        "-PI" => -core::f64::consts::PI,
        _ => s.parse().unwrap_or(0.0),
    }
}

fn operand_keys(conditions: &[String]) -> Vec<i64> {
    conditions
        .iter()
        .map(|c| match condition_comparison(c) {
            Some((_, operand)) => key(parse_float_value(&operand)),
            None => 0,
        })
        .collect()
}

fn op_finite(l: &Bounds, r: &Bounds, op: fn(f64, f64) -> f64) -> bool {
    let l_min = l.lower.map_or(f64::MIN, val);
    let l_max = l.upper.map_or(f64::MAX, val);
    let r_min = r.lower.map_or(f64::MIN, val);
    let r_max = r.upper.map_or(f64::MAX, val);
    [op(l_min, r_min), op(l_min, r_max), op(l_max, r_min), op(l_max, r_max)]
        .iter()
        .all(|x| x.is_finite())
}

fn div_finite(l: &Bounds, r: &Bounds, r_excludes_zero: bool) -> bool {
    let l_min = l.lower.map_or(f64::MIN, val);
    let l_max = l.upper.map_or(f64::MAX, val);
    let r_min = if r_excludes_zero && r.lower == Some(0) { f64::MIN_POSITIVE } else { r.lower.map_or(f64::MIN, val) };
    let r_max = if r_excludes_zero && r.upper == Some(0) { -f64::MIN_POSITIVE } else { r.upper.map_or(f64::MAX, val) };
    [l_min / r_min, l_min / r_max, l_max / r_min, l_max / r_max].iter().all(|x| x.is_finite())
}

fn facts(l: &ConstraintDef, r: &ConstraintDef) -> BoundaryFacts {
    BoundaryFacts {
        add_finite: op_finite(&l.bounds, &r.bounds, |a, b| a + b),
        sub_finite: op_finite(&l.bounds, &r.bounds, |a, b| a - b),
        mul_finite: op_finite(&l.bounds, &r.bounds, |a, b| a * b),
        div_finite: div_finite(&l.bounds, &r.bounds, r.excludes_zero),
        abs_bound_product: key(val(max_abs_value(l.bounds)) * val(max_abs_value(r.bounds))),
    }
}

fn constraints_of(defs: &[(&str, &[&str])]) -> Vec<ConstraintDef> {
    let names: Vec<String> = defs.iter().map(|(n, _)| n.to_string()).collect();
    let conditions: Vec<Vec<String>> =
        defs.iter().map(|(_, cs)| cs.iter().map(|c| c.to_string()).collect()).collect();
    let values: Vec<Vec<i64>> = conditions
        .iter()
        .map(|cs| {
            let normalized: Vec<String> = cs.iter().map(|c| normalize_condition(c)).collect();
            operand_keys(&normalized)
        })
        .collect();
    build_constraint_defs(&names, &conditions, &values)
}

fn config_of(defs: &[(&str, &[&str])]) -> TypeConfig {
    let constraints = constraints_of(defs);
    let mut all_facts = Vec::new();
    for l in &constraints {
        for r in &constraints {
            all_facts.push(facts(l, r));
        }
    }
    let results = compute_all_arithmetic_results(&constraints, &all_facts);
    TypeConfig::new(constraints, results, Vec::new())
}

const MAIN_DEFS: &[(&str, &[&str])] = &[
    ("Fin", &[]),
    ("NonNegative", &[">= 0.0"]),
    ("NonPositive", &["<= 0.0"]),
    ("NonZero", &["!= 0.0"]),
    ("Normalized", &[">= 0.0", "<= 1.0"]),
    ("NegativeNormalized", &[">= -1.0", "<= 0.0"]),
    ("Positive", &["> 0.0"]),
    ("Negative", &["< 0.0"]),
    ("Symmetric", &[">= -1.0", "<= 1.0"]),
];

fn main_config() -> TypeConfig {
    config_of(MAIN_DEFS)
}

fn constraint<'a>(config: &'a TypeConfig, name: &str) -> &'a ConstraintDef {
    config.constraints.iter().find(|c| c.name == name).unwrap()
}

fn result(config: &TypeConfig, op: ArithmeticOp, lhs: &str, rhs: &str) -> (String, bool) {
    let r = config.get_arithmetic_result(op, lhs, rhs).unwrap();
    (r.output_type.clone(), r.is_safe)
}

fn safe(name: &str) -> (String, bool) {
    (name.to_string(), true)
}

fn checked(name: &str) -> (String, bool) {
    (name.to_string(), false)
}

fn names(constraints: &[&ConstraintDef]) -> Vec<String> {
    constraints.iter().map(|c| c.name.clone()).collect()
}

fn bounds(lower: Option<f64>, upper: Option<f64>) -> Bounds {
    Bounds { lower: lower.map(key), upper: upper.map(key) }
}

// ---------------------------------------------------------------------------
// Constraint properties
// ---------------------------------------------------------------------------

#[test]
fn main_constraint_properties() {
    let config = main_config();
    let expect = |name: &str, sign: Sign, b: Bounds, ez: bool| {
        let c = constraint(&config, name);
        assert_eq!(c.sign, sign, "{}", name);
        assert_eq!(c.bounds, b, "{}", name);
        assert_eq!(c.excludes_zero, ez, "{}", name);
    };
    expect("Fin", Sign::Any, bounds(None, None), false);
    expect("NonNegative", Sign::Positive, bounds(Some(0.0), None), false);
    expect("NonPositive", Sign::Negative, bounds(None, Some(0.0)), false);
    expect("NonZero", Sign::Any, bounds(None, None), true);
    expect("Normalized", Sign::Positive, bounds(Some(0.0), Some(1.0)), false);
    expect("NegativeNormalized", Sign::Negative, bounds(Some(-1.0), Some(0.0)), false);
    expect("Positive", Sign::Positive, bounds(Some(0.0), None), true);
    expect("Negative", Sign::Negative, bounds(None, Some(0.0)), true);
    expect("Symmetric", Sign::Any, bounds(Some(-1.0), Some(1.0)), false);
}

#[test]
fn main_constraint_raw_conditions_are_normalized() {
    let config = main_config();
    assert_eq!(
        constraint(&config, "Normalized").raw_conditions,
        vec!["value >= 0.0".to_string(), "value <= 1.0".to_string()]
    );
    assert!(constraint(&config, "Fin").raw_conditions.is_empty());
}

#[test]
fn main_negation_names() {
    let config = main_config();
    let neg = |name: &str| constraint(&config, name).neg_constraint_name.clone();
    assert_eq!(neg("Fin"), Some("Fin".to_string()));
    assert_eq!(neg("NonNegative"), Some("NonPositive".to_string()));
    assert_eq!(neg("NonPositive"), Some("NonNegative".to_string()));
    assert_eq!(neg("NonZero"), Some("NonZero".to_string()));
    assert_eq!(neg("Normalized"), Some("NegativeNormalized".to_string()));
    assert_eq!(neg("NegativeNormalized"), Some("Normalized".to_string()));
    assert_eq!(neg("Positive"), Some("Negative".to_string()));
    assert_eq!(neg("Negative"), Some("Positive".to_string()));
    assert_eq!(neg("Symmetric"), Some("Symmetric".to_string()));
}

#[test]
fn negation_tells_small_negative_bounds_apart() {
    let config = config_of(&[("A", &[">= -0.05"]), ("C", &["<= -0.05"]), ("D", &["<= 0.05"])]);
    assert_eq!(constraint(&config, "A").neg_constraint_name, Some("D".to_string()));
    assert_eq!(constraint(&config, "D").neg_constraint_name, Some("A".to_string()));
    assert_eq!(constraint(&config, "C").neg_constraint_name, None);
}

#[test]
fn negation_folds_negative_zero_with_more_digits() {
    let config = config_of(&[("P", &[">= 0.00"]), ("N", &["<= 0.00"])]);
    assert_eq!(constraint(&config, "P").neg_constraint_name, Some("N".to_string()));
    assert_eq!(constraint(&config, "N").neg_constraint_name, Some("P".to_string()));
}

#[test]
fn negation_missing_when_no_constraint_matches() {
    let config = config_of(&[("Small", &[">= 0.0", "<= 2.0"]), ("Fin", &[])]);
    assert_eq!(constraint(&config, "Small").neg_constraint_name, None);
    assert_eq!(constraint(&config, "Fin").neg_constraint_name, Some("Fin".to_string()));
}

#[test]
fn parse_type_properties_takes_tightest_bounds() {
    let conds = vec![
        "value >= 1.0".to_string(),
        "value >= 2.0".to_string(),
        "value <= 5.0".to_string(),
        "value <= 7.0".to_string(),
    ];
    let (sign, b, ez) = parse_type_properties(&conds, &operand_keys(&conds));
    assert_eq!(sign, Sign::Positive);
    assert_eq!(b, bounds(Some(2.0), Some(5.0)));
    assert!(!ez);
}

#[test]
fn parse_type_properties_strict_bounds_exclude_zero() {
    let conds = vec!["value > -3.0".to_string(), "value < 0.0".to_string()];
    let (sign, b, ez) = parse_type_properties(&conds, &operand_keys(&conds));
    assert_eq!(sign, Sign::Negative);
    assert_eq!(b, bounds(Some(-3.0), Some(0.0)));
    assert!(ez);
}

#[test]
fn parse_type_properties_ignores_unknown_and_nonzero_inequality() {
    let conds = vec!["value == 3.0".to_string(), "value != 1.0".to_string()];
    let (sign, b, ez) = parse_type_properties(&conds, &operand_keys(&conds));
    assert_eq!(sign, Sign::Any);
    assert_eq!(b, bounds(None, None));
    assert!(!ez);
}

#[test]
fn parse_type_properties_mixed_signs_give_any() {
    let conds = vec!["value >= 0.0".to_string(), "value <= 0.0".to_string()];
    let (sign, b, _) = parse_type_properties(&conds, &operand_keys(&conds));
    assert_eq!(sign, Sign::Any);
    assert_eq!(b, bounds(Some(0.0), Some(0.0)));
}

#[test]
fn sign_implies_bound_on_main_constraints() {
    let config = main_config();
    for c in &config.constraints {
        match c.sign {
            Sign::Positive => assert!(matches!(c.bounds.lower, Some(l) if l >= 0)),
            Sign::Negative => assert!(matches!(c.bounds.upper, Some(u) if u <= 0)),
            Sign::Any => {}
        }
    }
}

#[test]
fn pi_operand_is_parsed() {
    let config = config_of(&[("Angle", &[">= -PI", "<= PI"])]);
    let c = constraint(&config, "Angle");
    assert_eq!(c.bounds, bounds(Some(-core::f64::consts::PI), Some(core::f64::consts::PI)));
    assert_eq!(c.sign, Sign::Any);
}

#[test]
fn find_type_by_constraints_finds_first_match() {
    let config = main_config();
    assert_eq!(
        config.find_type_by_constraints(Sign::Positive, &bounds(Some(0.0), None), true),
        Some("Positive".to_string())
    );
    assert_eq!(
        config.find_type_by_constraints(Sign::Any, &bounds(Some(-1.0), Some(1.0)), false),
        Some("Symmetric".to_string())
    );
    assert_eq!(config.find_type_by_constraints(Sign::Any, &bounds(Some(-2.0), Some(2.0)), false), None);
}

#[test]
fn type_config_new_builds_one_type_per_constraint() {
    let config = main_config();
    assert_eq!(config.constraint_types.len(), 9);
    for (t, c) in config.constraint_types.iter().zip(config.constraints.iter()) {
        assert_eq!(t.name, c.name);
        assert_eq!(t.constraint_name, c.name);
        assert_eq!(t.float_types, vec!["f32".to_string(), "f64".to_string()]);
    }
    assert_eq!(config.arithmetic_results.len(), 4 * 9 * 9);
}

// ---------------------------------------------------------------------------
// Aliases
// ---------------------------------------------------------------------------

fn alias(original: &str, alias_name: &str) -> TypeAliasDef {
    TypeAliasDef { original_name: original.to_string(), alias_name: alias_name.to_string() }
}

#[test]
fn validate_aliases_accepts_fresh_names() {
    let config = main_config();
    let aliases = vec![alias("Positive", "NonZeroPositive"), alias("Negative", "NonZeroNegative")];
    assert!(validate_aliases(&config.constraints, &aliases).is_ok());
    assert!(validate_aliases(&config.constraints, &[]).is_ok());
}

#[test]
fn validate_aliases_rejects_unknown_target() {
    let config = main_config();
    let aliases = vec![alias("Positive", "Pos"), alias("Missing", "Other")];
    match validate_aliases(&config.constraints, &aliases) {
        Err(ConfigError::UnknownAliasTarget(name)) => assert_eq!(name, "Missing"),
        other => panic!("unexpected {:?}", other),
    }
}

#[test]
fn validate_aliases_rejects_conflicting_name() {
    let config = main_config();
    let aliases = vec![alias("Positive", "Negative")];
    match validate_aliases(&config.constraints, &aliases) {
        Err(ConfigError::AliasConflict(name)) => assert_eq!(name, "Negative"),
        other => panic!("unexpected {:?}", other),
    }
}

#[test]
fn validate_aliases_reports_first_failing_alias() {
    let config = main_config();
    let aliases = vec![alias("Fin", "Symmetric"), alias("Missing", "X")];
    assert!(matches!(
        validate_aliases(&config.constraints, &aliases),
        Err(ConfigError::AliasConflict(ref n)) if n == "Symmetric"
    ));
}

// ---------------------------------------------------------------------------
// Arithmetic result inference
// ---------------------------------------------------------------------------

#[test]
fn standard_arithmetic_ops_in_order() {
    let ops = get_standard_arithmetic_ops();
    assert_eq!(ops[0], (ArithmeticOp::Add, "Add", "add"));
    assert_eq!(ops[1], (ArithmeticOp::Sub, "Sub", "sub"));
    assert_eq!(ops[2], (ArithmeticOp::Mul, "Mul", "mul"));
    assert_eq!(ops[3], (ArithmeticOp::Div, "Div", "div"));
}

#[test]
fn addition_results_of_main_types() {
    let config = main_config();
    assert_eq!(result(&config, ArithmeticOp::Add, "NonNegative", "NonNegative"), checked("NonNegative"));
    assert_eq!(result(&config, ArithmeticOp::Add, "NonNegative", "NonPositive"), safe("Fin"));
    assert_eq!(result(&config, ArithmeticOp::Add, "NonPositive", "NonNegative"), safe("Fin"));
    assert_eq!(result(&config, ArithmeticOp::Add, "NonPositive", "NonPositive"), checked("NonPositive"));
    assert_eq!(result(&config, ArithmeticOp::Add, "NonZero", "NonZero"), checked("Fin"));
    assert_eq!(result(&config, ArithmeticOp::Add, "Normalized", "Normalized"), checked("NonNegative"));
    assert_eq!(result(&config, ArithmeticOp::Add, "Symmetric", "Symmetric"), checked("Fin"));
    assert_eq!(result(&config, ArithmeticOp::Add, "Positive", "Positive"), checked("Positive"));
    assert_eq!(result(&config, ArithmeticOp::Add, "Normalized", "NegativeNormalized"), safe("Fin"));
}

#[test]
fn subtraction_results_of_main_types() {
    let config = main_config();
    assert_eq!(result(&config, ArithmeticOp::Sub, "NonNegative", "NonNegative"), safe("Fin"));
    assert_eq!(result(&config, ArithmeticOp::Sub, "NonPositive", "NonPositive"), safe("Fin"));
    assert_eq!(result(&config, ArithmeticOp::Sub, "NonNegative", "NonPositive"), checked("NonNegative"));
    assert_eq!(result(&config, ArithmeticOp::Sub, "NonPositive", "NonNegative"), checked("NonPositive"));
    assert_eq!(result(&config, ArithmeticOp::Sub, "Positive", "Negative"), checked("Positive"));
    assert_eq!(result(&config, ArithmeticOp::Sub, "Fin", "Fin"), checked("Fin"));
}

#[test]
fn multiplication_results_of_main_types() {
    let config = main_config();
    assert_eq!(result(&config, ArithmeticOp::Mul, "Normalized", "Normalized"), safe("Normalized"));
    assert_eq!(result(&config, ArithmeticOp::Mul, "Symmetric", "Symmetric"), safe("Symmetric"));
    assert_eq!(result(&config, ArithmeticOp::Mul, "Normalized", "NegativeNormalized"), safe("NegativeNormalized"));
    assert_eq!(result(&config, ArithmeticOp::Mul, "NonNegative", "NonNegative"), checked("NonNegative"));
    assert_eq!(result(&config, ArithmeticOp::Mul, "NonNegative", "NonPositive"), checked("NonPositive"));
    assert_eq!(result(&config, ArithmeticOp::Mul, "NonZero", "NonZero"), checked("NonZero"));
    assert_eq!(result(&config, ArithmeticOp::Mul, "Positive", "Negative"), checked("Negative"));
}

#[test]
fn division_results_of_main_types() {
    let config = main_config();
    assert_eq!(result(&config, ArithmeticOp::Div, "Normalized", "NonZero"), safe("Fin"));
    assert_eq!(result(&config, ArithmeticOp::Div, "Symmetric", "NonZero"), safe("Fin"));
    assert_eq!(result(&config, ArithmeticOp::Div, "NonNegative", "NonNegative"), checked("NonNegative"));
    assert_eq!(result(&config, ArithmeticOp::Div, "Fin", "Fin"), checked("Fin"));
    assert_eq!(result(&config, ArithmeticOp::Div, "Normalized", "Normalized"), checked("NonNegative"));
}

#[test]
fn addition_and_multiplication_commute_on_main_types() {
    let config = main_config();
    for l in &config.constraints {
        for r in &config.constraints {
            for op in [ArithmeticOp::Add, ArithmeticOp::Mul] {
                assert_eq!(
                    result(&config, op, &l.name, &r.name),
                    result(&config, op, &r.name, &l.name),
                    "{:?} {} {}",
                    op,
                    l.name,
                    r.name
                );
            }
        }
    }
}

#[test]
fn result_type_has_inferred_sign() {
    let config = main_config();
    for l in &config.constraints {
        for r in &config.constraints {
            let f = facts(l, r);
            for (op, props) in [
                (ArithmeticOp::Add, compute_add_properties(l, r, f.add_finite)),
                (ArithmeticOp::Sub, compute_sub_properties(l, r, f.sub_finite)),
                (ArithmeticOp::Mul, compute_mul_properties(l, r, f.mul_finite)),
                (ArithmeticOp::Div, compute_div_properties(l, r, f.div_finite)),
            ] {
                let (out, is_safe) = result(&config, op, &l.name, &r.name);
                assert_eq!(is_safe, props.2);
                let c = constraint(&config, &out);
                // Either a constraint with exactly the inferred sign, or the fallback.
                assert!(c.sign == props.0 || out == "Fin", "{:?} {} {} -> {}", op, l.name, r.name, out);
            }
        }
    }
}

#[test]
fn get_arithmetic_result_unknown_name_is_none() {
    let config = main_config();
    assert!(config.get_arithmetic_result(ArithmeticOp::Add, "Missing", "Fin").is_none());
    assert!(config.get_arithmetic_result(ArithmeticOp::Add, "Fin", "Missing").is_none());
}

#[test]
fn duplicate_names_use_the_last_definition() {
    let config = config_of(&[("A", &[">= 0.0"]), ("A", &["<= 0.0"])]);
    let r = config.get_arithmetic_result(ArithmeticOp::Add, "A", "A").unwrap();
    // The second `A` is NonPositive: its sum with itself keeps the sign.
    let stored = compute_arithmetic_result(
        ArithmeticOp::Add,
        &config.constraints[1],
        &config.constraints[1],
        &config.constraints,
        &facts(&config.constraints[1], &config.constraints[1]),
    );
    assert_eq!(r.output_type, stored.output_type);
    assert_eq!(r.is_safe, stored.is_safe);
}

#[test]
fn property_formulas() {
    let config = main_config();
    let c = |n: &str| constraint(&config, n);
    // Positive + Negative: safe only when the boundary sums are finite.
    assert_eq!(compute_add_properties(c("Positive"), c("Negative"), true), (Sign::Any, false, true));
    assert_eq!(compute_add_properties(c("Positive"), c("Negative"), false), (Sign::Any, false, false));
    assert_eq!(compute_add_properties(c("Positive"), c("Positive"), true), (Sign::Positive, true, false));
    assert_eq!(compute_sub_properties(c("Positive"), c("Negative"), true), (Sign::Positive, true, false));
    assert_eq!(compute_sub_properties(c("Positive"), c("Positive"), true), (Sign::Any, false, true));
    assert_eq!(compute_mul_properties(c("Normalized"), c("Normalized"), true), (Sign::Positive, false, true));
    assert_eq!(compute_mul_properties(c("Positive"), c("Negative"), true), (Sign::Negative, true, false));
    assert_eq!(compute_div_properties(c("Normalized"), c("NonZero"), true), (Sign::Any, false, true));
    assert_eq!(compute_div_properties(c("Fin"), c("NonZero"), true), (Sign::Any, false, false));
}

#[test]
fn max_abs_value_of_bounds() {
    assert_eq!(max_abs_value(bounds(Some(-3.0), Some(2.0))), key(3.0));
    assert_eq!(max_abs_value(bounds(Some(0.5), None)), key(0.5));
    assert_eq!(max_abs_value(bounds(None, None)), 0);
    assert_eq!(max_abs_value(bounds(None, Some(-7.0))), key(7.0));
}

#[test]
fn mul_result_bounds_by_sign() {
    let config = main_config();
    let c = |n: &str| constraint(&config, n);
    let p = key(1.0);
    assert_eq!(compute_mul_result_bounds(c("Normalized"), c("Normalized"), p), (Some(0), Some(p)));
    assert_eq!(compute_mul_result_bounds(c("Normalized"), c("NegativeNormalized"), p), (Some(-p), Some(0)));
    assert_eq!(compute_mul_result_bounds(c("Symmetric"), c("Normalized"), p), (Some(-p), Some(p)));
    assert_eq!(compute_mul_result_bounds(c("Normalized"), c("Normalized"), INFINITY_KEY), (Some(0), Some(INFINITY_KEY)));
}

#[test]
fn filters_keep_order() {
    let config = main_config();
    assert_eq!(
        names(&filter_constraints_by_properties(&config.constraints, Sign::Positive, false)),
        vec!["NonNegative".to_string(), "Normalized".to_string()]
    );
    assert_eq!(
        names(&filter_constraints_by_sign(&config.constraints, Sign::Negative)),
        vec!["NonPositive".to_string(), "NegativeNormalized".to_string(), "Negative".to_string()]
    );
    assert!(filter_constraints_by_properties(&config.constraints, Sign::Any, true).len() == 1);
}

#[test]
fn find_matching_constraint_falls_back_to_fin() {
    let config = config_of(&[("Pos", &["> 0.0"]), ("Neg", &["< 0.0"])]);
    let l = &config.constraints[0];
    let r = &config.constraints[1];
    let out = find_matching_constraint(ArithmeticOp::Add, Sign::Any, false, l, r, &config.constraints, 0);
    assert_eq!(out, "Fin");
}

#[test]
fn find_matching_constraint_prefers_unbounded() {
    let config = config_of(&[("Sym", &[">= -1.0", "<= 1.0"]), ("Fin", &[])]);
    let l = &config.constraints[0];
    let out = find_matching_constraint(ArithmeticOp::Add, Sign::Any, false, l, l, &config.constraints, 0);
    assert_eq!(out, "Fin");
    // Without an unbounded candidate the first one is taken.
    let main = main_config();
    let p = constraint(&main, "Positive");
    let out = find_matching_constraint(ArithmeticOp::Add, Sign::Positive, false, p, p, &main.constraints, 0);
    assert_eq!(out, "NonNegative");
}

// ---------------------------------------------------------------------------
// Conversions and constants
// ---------------------------------------------------------------------------

#[test]
fn subset_checks() {
    let z = Some(key(0.0));
    let one = Some(key(1.0));
    // Normalized is contained in Fin, not the other way round.
    assert!(is_subset_constraint(z, one, false, None, None, false));
    assert!(!is_subset_constraint(None, None, false, z, one, false));
    // Positive in NonNegative, not the other way round.
    assert!(is_subset_constraint(z, None, true, z, None, false));
    assert!(!is_subset_constraint(z, None, false, z, None, true));
    // Every constraint is contained in itself.
    assert!(is_subset_constraint(z, one, true, z, one, true));
}

#[test]
fn conversion_plan_uses_from_for_subsets() {
    let config = main_config();
    let plan = generate_constraint_to_constraint_traits(&config);
    // For each float type, every ordered pair of distinct types.
    assert_eq!(plan.len(), 2 * 9 * 8);
    let find = |s: &str, t: &str| plan.iter().find(|x| x.source == s && x.target == t).unwrap().is_from;
    assert!(find("NormalizedF32", "FinF32"));
    assert!(!find("FinF32", "NormalizedF32"));
    assert!(find("PositiveF64", "NonNegativeF64"));
    assert!(!find("NonNegativeF64", "PositiveF64"));
    assert!(find("NormalizedF64", "SymmetricF64"));
    assert!(find("PositiveF64", "NonZeroF64"));
    assert!(plan.iter().all(|x| x.source != x.target));
    assert_eq!(plan[0].source, "FinF32");
    assert_eq!(plan[0].target, "NonNegativeF32");
}

#[test]
fn constant_table_bits_match_std() {
    let table = all_constants();
    let expected: Vec<(&str, f64)> = vec![
        ("ZERO", 0.0),
        ("ONE", 1.0),
        ("NEG_ONE", -1.0),
        ("TWO", 2.0),
        ("NEG_TWO", -2.0),
        ("HALF", 0.5),
        ("NEG_HALF", -0.5),
        ("PI", core::f64::consts::PI),
        ("NEG_PI", -core::f64::consts::PI),
        ("E", core::f64::consts::E),
        ("NEG_E", -core::f64::consts::E),
        ("FRAC_1_PI", core::f64::consts::FRAC_1_PI),
        ("FRAC_2_PI", core::f64::consts::FRAC_2_PI),
        ("FRAC_PI_2", core::f64::consts::FRAC_PI_2),
        ("FRAC_PI_3", core::f64::consts::FRAC_PI_3),
        ("FRAC_PI_4", core::f64::consts::FRAC_PI_4),
        ("FRAC_PI_6", core::f64::consts::FRAC_PI_6),
        ("FRAC_PI_8", core::f64::consts::FRAC_PI_8),
    ];
    assert_eq!(table.len(), expected.len());
    for (c, (name, value)) in table.iter().zip(expected.iter()) {
        assert_eq!(c.name, *name);
        assert_eq!(c.literal_bits, value.to_bits(), "{}", name);
    }
    let expected_f32: Vec<f32> = vec![
        0.0,
        1.0,
        -1.0,
        2.0,
        -2.0,
        0.5,
        -0.5,
        core::f32::consts::PI,
        -core::f64::consts::PI as f32,
        core::f32::consts::E,
        -core::f64::consts::E as f32,
        core::f32::consts::FRAC_1_PI,
        core::f32::consts::FRAC_2_PI,
        core::f32::consts::FRAC_PI_2,
        core::f32::consts::FRAC_PI_3,
        core::f32::consts::FRAC_PI_4,
        core::f32::consts::FRAC_PI_6,
        core::f32::consts::FRAC_PI_8,
    ];
    for (c, value) in table.iter().zip(expected_f32.iter()) {
        assert_eq!(c.f32_bits, (*value as f64).to_bits(), "{}", c.name);
    }
}

#[test]
fn f32_constants_are_chosen_on_their_f32_value() {
    let config = config_of(&[("PiBounded", &[">= -PI", "<= PI"])]);
    let table = all_constants();
    let c = &config.constraints[0];
    let names = |f: &str| -> Vec<&str> { applicable_constants(&table, c, f).iter().map(|d| d.name).collect() };
    // The f32 value of π lies above the f64 value of π, the bound.
    assert!((core::f32::consts::PI as f64) > core::f64::consts::PI);
    assert!(names("f64").contains(&"PI"));
    assert!(names("f64").contains(&"NEG_PI"));
    assert!(!names("f32").contains(&"PI"));
    assert!(!names("f32").contains(&"NEG_PI"));
    assert!(names("f32").contains(&"E"));
    for f in ["f32", "f64"] {
        for d in applicable_constants(&table, c, f) {
            let bits = if f == "f32" { d.f32_bits } else { d.literal_bits };
            let v = f64::from_bits(bits);
            assert!(v >= -core::f64::consts::PI && v <= core::f64::consts::PI, "{} {}", f, d.name);
        }
    }
}

#[test]
fn applicable_constants_of_normalized_and_positive() {
    let config = main_config();
    let table = all_constants();
    let names_of = |n: &str| -> Vec<&str> {
        applicable_constants(&table, constraint(&config, n), "f64").iter().map(|c| c.name).collect()
    };
    assert_eq!(
        names_of("Normalized"),
        vec!["ZERO", "ONE", "HALF", "FRAC_1_PI", "FRAC_2_PI", "FRAC_PI_4", "FRAC_PI_6", "FRAC_PI_8"]
    );
    assert_eq!(
        names_of("Positive"),
        vec![
            "ONE", "TWO", "HALF", "PI", "E", "FRAC_1_PI", "FRAC_2_PI", "FRAC_PI_2", "FRAC_PI_3",
            "FRAC_PI_4", "FRAC_PI_6", "FRAC_PI_8"
        ]
    );
    assert_eq!(names_of("NegativeNormalized"), vec!["ZERO", "NEG_ONE", "NEG_HALF"]);
    assert_eq!(names_of("Fin").len(), 18);
    assert_eq!(names_of("NonZero").len(), 17);
}

#[test]
fn constants_follow_containment() {
    let config = main_config();
    let table = all_constants();
    for a in &config.constraints {
        for b in &config.constraints {
            let contained = is_subset_constraint(
                a.bounds.lower, a.bounds.upper, a.excludes_zero,
                b.bounds.lower, b.bounds.upper, b.excludes_zero,
            );
            if contained {
                for c in applicable_constants(&table, a, "f64") {
                    assert!(constant_matches_constraint(key(f64::from_bits(c.literal_bits)), b));
                }
                for c in applicable_constants(&table, a, "f32") {
                    assert!(constant_matches_constraint(key(f64::from_bits(c.f32_bits)), b));
                }
            }
        }
    }
}

#[test]
fn constant_matches_constraint_edges() {
    let config = main_config();
    assert!(!constant_matches_constraint(INFINITY_KEY, constraint(&config, "Fin")));
    assert!(constant_matches_constraint(MAX_FINITE_KEY, constraint(&config, "Fin")));
    assert!(!constant_matches_constraint(0, constraint(&config, "Positive")));
    assert!(constant_matches_constraint(0, constraint(&config, "NonNegative")));
    assert!(constant_matches_constraint(ONE_KEY, constraint(&config, "Normalized")));
    assert!(!constant_matches_constraint(key(1.5), constraint(&config, "Normalized")));
}

// ---------------------------------------------------------------------------
// Unary operations
// ---------------------------------------------------------------------------

#[test]
fn abs_output_types() {
    let config = main_config();
    let abs = |n: &str| infer_abs_output_type(constraint(&config, n));
    assert_eq!(abs("Fin"), "Positive");
    assert_eq!(abs("NonNegative"), "Positive");
    assert_eq!(abs("NonZero"), "NonZeroPositive");
    assert_eq!(abs("Normalized"), "Normalized");
    assert_eq!(abs("NegativeNormalized"), "Normalized");
    assert_eq!(abs("Symmetric"), "Normalized");
    assert_eq!(abs("Positive"), "NonZeroPositive");
    assert_eq!(abs("Negative"), "NonZeroPositive");
}

#[test]
fn signum_output_types() {
    let config = main_config();
    let signum = |n: &str| infer_signum_output_type(constraint(&config, n));
    assert_eq!(signum("NonNegative"), "Normalized");
    assert_eq!(signum("Positive"), "Normalized");
    assert_eq!(signum("NonPositive"), "NegativeNormalized");
    assert_eq!(signum("Negative"), "NegativeNormalized");
    assert_eq!(signum("Fin"), "Symmetric");
    assert_eq!(signum("Symmetric"), "Symmetric");
}

#[test]
fn named_bound_shapes() {
    let config = main_config();
    assert!(is_symmetric_bounds(constraint(&config, "Symmetric")));
    assert!(!is_symmetric_bounds(constraint(&config, "Normalized")));
    assert!(is_normalized_bounds(constraint(&config, "Normalized")));
    assert!(is_negative_normalized_bounds(constraint(&config, "NegativeNormalized")));
    assert!(!is_negative_normalized_bounds(constraint(&config, "NonPositive")));
}

// ---------------------------------------------------------------------------
// Generation plans
// ---------------------------------------------------------------------------

#[test]
fn type_alias_names() {
    assert_eq!(make_type_alias("Positive", "f32"), "PositiveF32");
    assert_eq!(make_type_alias("NonZero", "f64"), "NonZeroF64");
    assert_eq!(make_type_alias("Fin", ""), "Fin");
}

#[test]
fn constraint_lookup_by_name() {
    let config = main_config();
    assert_eq!(find_constraint_index(&config.constraints, "Normalized"), 4);
    assert_eq!(find_constraint_def(&config, "Symmetric").name, "Symmetric");
    assert_eq!(find_constraint_def(&config, "Normalized").bounds, bounds(Some(0.0), Some(1.0)));
    assert_eq!(filter_constraint_types_by_float(&config, "f32").len(), 9);
    assert_eq!(filter_constraint_types_by_float(&config, "f16").len(), 0);
}

#[test]
fn instances_of_all_types() {
    let config = main_config();
    let inst = for_all_constraint_float_types(&config);
    assert_eq!(inst.len(), 18);
    assert_eq!((inst[0].name.as_str(), inst[0].float_type.as_str(), inst[0].constraint), ("Fin", "f32", 0));
    assert_eq!((inst[1].name.as_str(), inst[1].float_type.as_str(), inst[1].constraint), ("Fin", "f64", 0));
    assert_eq!((inst[17].name.as_str(), inst[17].float_type.as_str(), inst[17].constraint), ("Symmetric", "f64", 8));
}

#[test]
fn validation_checks_of_main_types() {
    let config = main_config();
    let checks = |n: &str, f: &str| build_validation_expr(constraint(&config, n), f);
    assert_eq!(
        checks("Positive", "f32"),
        vec![
            ValidationCheck::IsFinite,
            ValidationCheck::Bound(BoundCheck { bound: 0, is_lower: true, strict: true, widen: true }),
        ]
    );
    assert_eq!(checks("NonZero", "f64"), vec![ValidationCheck::IsFinite, ValidationCheck::NonZero]);
    assert_eq!(
        checks("Normalized", "f64"),
        vec![
            ValidationCheck::IsFinite,
            ValidationCheck::Bound(BoundCheck { bound: 0, is_lower: true, strict: false, widen: false }),
            ValidationCheck::Bound(BoundCheck { bound: ONE_KEY, is_lower: false, strict: false, widen: false }),
        ]
    );
    assert_eq!(checks("Fin", "f64"), vec![ValidationCheck::IsFinite]);
}

#[test]
fn explicit_zero_check_only_without_zero_bound() {
    let config = main_config();
    assert!(!needs_explicit_zero_check(constraint(&config, "Positive")));
    assert!(!needs_explicit_zero_check(constraint(&config, "Negative")));
    assert!(needs_explicit_zero_check(constraint(&config, "NonZero")));
    let c = config_of(&[("Odd", &[">= -1.0", "<= 1.0", "!= 0.0"])]);
    let odd = &c.constraints[0];
    assert!(needs_explicit_zero_check(odd));
    assert_eq!(build_validation_expr(odd, "f64").last(), Some(&ValidationCheck::NonZero));
}

#[test]
fn bound_check_strict_only_at_zero() {
    assert_eq!(build_bound_check(0, true, true, "f64"), BoundCheck { bound: 0, is_lower: true, strict: true, widen: false });
    assert_eq!(build_bound_check(ONE_KEY, false, true, "f32"), BoundCheck { bound: ONE_KEY, is_lower: false, strict: false, widen: true });
    assert_eq!(build_bound_check(NEG_ONE_KEY, true, false, "f64"), BoundCheck { bound: NEG_ONE_KEY, is_lower: true, strict: false, widen: false });
}

fn check_passes(check: &ValidationCheck, v: f64) -> bool {
    let k = key(v);
    match check {
        ValidationCheck::IsFinite => v.is_finite(),
        ValidationCheck::Bound(b) => match (b.is_lower, b.strict) {
            (true, true) => k > b.bound,
            (true, false) => k >= b.bound,
            (false, true) => k < b.bound,
            (false, false) => k <= b.bound,
        },
        ValidationCheck::NonZero => v != 0.0,
    }
}

#[test]
fn validation_accepts_exactly_the_constraint() {
    let config = main_config();
    let samples = [f64::NEG_INFINITY, -2.0, -1.0, -0.5, -0.0, 0.0, 1e-300, 0.5, 1.0, 2.0, f64::INFINITY, f64::NAN];
    for c in &config.constraints {
        let checks = build_validation_expr(c, "f64");
        for v in samples {
            let accepted = checks.iter().all(|ch| check_passes(ch, v));
            let expected = !v.is_nan() && constant_matches_constraint(key(v), c);
            assert_eq!(accepted, expected, "{} {}", c.name, v);
        }
    }
}

#[test]
fn arithmetic_plan_follows_stored_results() {
    let config = main_config();
    let ops = [ArithmeticOp::Add, ArithmeticOp::Sub, ArithmeticOp::Mul, ArithmeticOp::Div];
    let plan = generate_arithmetic_for_all_types(&config, &ops);
    assert_eq!(plan.len(), 2 * 9 * 9 * 4);
    let entry = plan
        .iter()
        .find(|x| x.lhs == "NormalizedF64" && x.rhs == "NormalizedF64" && x.op == ArithmeticOp::Mul)
        .unwrap();
    assert_eq!(entry.output, "NormalizedF64");
    assert!(entry.is_safe);
    let entry = plan
        .iter()
        .find(|x| x.lhs == "NonNegativeF32" && x.rhs == "NonPositiveF32" && x.op == ArithmeticOp::Add)
        .unwrap();
    assert_eq!(entry.output, "FinF32");
    assert!(entry.is_safe);
    assert!(plan.iter().all(|x| !x.reversed));
    // No pairs across float types.
    assert!(!plan.iter().any(|x| x.lhs.ends_with("F32") && x.rhs.ends_with("F64")));
}

#[test]
fn arithmetic_plan_with_selected_ops() {
    let config = main_config();
    let plan = generate_arithmetic_for_all_types(&config, &[ArithmeticOp::Div]);
    assert_eq!(plan.len(), 2 * 9 * 9);
    assert!(plan.iter().all(|x| x.op == ArithmeticOp::Div));
}

#[test]
fn primitive_arithmetic_plan() {
    let config = main_config();
    let ops = [ArithmeticOp::Add, ArithmeticOp::Sub, ArithmeticOp::Mul, ArithmeticOp::Div];
    let plan = generate_arithmetic_for_primitive_types(&config, &ops);
    assert_eq!(plan.len(), 2 * 9 * 2 * 4);
    let first = &plan[0];
    assert_eq!((first.lhs.as_str(), first.rhs.as_str(), first.output.as_str()), ("FinF32", "f32", "FinF32"));
    assert!(!first.reversed);
    assert!(!first.is_safe);
    let reversed = plan.iter().find(|x| x.reversed && x.lhs == "f64" && x.rhs == "PositiveF64" && x.op == ArithmeticOp::Mul).unwrap();
    assert_eq!(reversed.output, "FinF64");
    assert!(plan.iter().all(|x| (x.lhs == "f32" || x.lhs == "f64") == x.reversed));
}

#[test]
fn negation_plan_of_main_types() {
    let config = main_config();
    let plan = generate_negation_plan(&config);
    assert_eq!(plan.len(), 18);
    let target = |s: &str| plan.iter().find(|x| x.source == s).map(|x| x.target.clone());
    assert_eq!(target("PositiveF32"), Some("NegativeF32".to_string()));
    assert_eq!(target("NormalizedF64"), Some("NegativeNormalizedF64".to_string()));
    assert_eq!(target("SymmetricF64"), Some("SymmetricF64".to_string()));
    assert_eq!(target("NonNegativeF64"), Some("NonPositiveF64".to_string()));
}

#[test]
fn negation_plan_skips_types_without_negation() {
    let config = config_of(&[("Small", &[">= 0.0", "<= 2.0"]), ("Fin", &[])]);
    let plan = generate_negation_plan(&config);
    assert_eq!(plan.len(), 2);
    assert!(plan.iter().all(|x| x.source.starts_with("Fin")));
}

// ---------------------------------------------------------------------------
// Documentation decisions
// ---------------------------------------------------------------------------

#[test]
fn range_shapes_of_main_types() {
    let config = main_config();
    let shape = |n: &str| constraint_range_shape(constraint(&config, n));
    assert_eq!(shape("NonNegative"), RangeShape::NonNegative);
    assert_eq!(shape("Positive"), RangeShape::Positive);
    assert_eq!(shape("NonPositive"), RangeShape::NonPositive);
    assert_eq!(shape("Negative"), RangeShape::Negative);
    assert_eq!(shape("NonZero"), RangeShape::NonZero);
    assert_eq!(shape("Fin"), RangeShape::Finite);
    assert_eq!(shape("Normalized"), RangeShape::PositiveRange { lower: 0, upper: ONE_KEY, excludes_zero: false });
    assert_eq!(shape("NegativeNormalized"), RangeShape::NegativeRange { lower: NEG_ONE_KEY, upper: 0, excludes_zero: false });
    assert_eq!(shape("Symmetric"), RangeShape::Range { lower: NEG_ONE_KEY, upper: ONE_KEY });
    let c = config_of(&[("A", &[">= 0.0", "<= 1.0", "!= 0.0"]), ("B", &[">= -1.0", "<= 1.0", "!= 0.0"])]);
    assert_eq!(constraint_range_shape(&c.constraints[1]), RangeShape::RangeWithoutZero { lower: NEG_ONE_KEY, upper: ONE_KEY });
}

fn example_facts(c: &ConstraintDef) -> ExampleFacts {
    match (c.bounds.lower, c.bounds.upper) {
        (Some(l), Some(u)) => ExampleFacts {
            midpoint: key((val(l) + val(u)) / 2.0),
            lower_plus_tenth: key(val(l) + 0.1),
        },
        _ => ExampleFacts { midpoint: 0, lower_plus_tenth: 0 },
    }
}

fn valid_key(e: ValidExample) -> i64 {
    match e {
        ValidExample::FortyTwo => key(42.0),
        ValidExample::MinusFortyTwo => key(-42.0),
        ValidExample::Half => key(0.5),
        ValidExample::Pi => key(3.14),
        ValidExample::Value(k) => k,
    }
}

#[test]
fn valid_examples_of_main_types() {
    let config = main_config();
    let ex = |n: &str| {
        let c = constraint(&config, n);
        generate_valid_example(c, example_facts(c))
    };
    assert_eq!(ex("NonNegative"), ValidExample::FortyTwo);
    assert_eq!(ex("NonPositive"), ValidExample::MinusFortyTwo);
    assert_eq!(ex("Normalized"), ValidExample::Value(key(0.5)));
    assert_eq!(ex("Symmetric"), ValidExample::Value(key(-1.0 + 0.1)));
    assert_eq!(ex("Fin"), ValidExample::Pi);
    assert_eq!(ex("NonZero"), ValidExample::Pi);
    assert_eq!(ex("Positive"), ValidExample::FortyTwo);
}

#[test]
fn valid_examples_fall_back_to_a_bound() {
    let c = config_of(&[
        ("AtLeastFive", &[">= 5.0"]),
        ("AtMostMinusFive", &["<= -5.0"]),
        ("AtMostOne", &["<= 1.0"]),
        ("OnlyZero", &[">= 0.0", "<= 0.0"]),
        ("Unit", &["> 0.0", "<= 1.0"]),
    ]);
    let ex = |k: usize| generate_valid_example(&c.constraints[k], example_facts(&c.constraints[k]));
    assert_eq!(ex(0), ValidExample::Value(key(5.0)));
    assert_eq!(ex(1), ValidExample::Value(key(-5.0)));
    assert_eq!(ex(2), ValidExample::Value(key(1.0)));
    assert_eq!(ex(3), ValidExample::Value(0));
    assert_eq!(ex(4), ValidExample::Value(key(0.5)));
}

#[test]
fn valid_examples_satisfy_their_constraint() {
    let mut defs: Vec<(&str, &[&str])> = MAIN_DEFS.to_vec();
    defs.extend_from_slice(&[
        ("A", &[">= 5.0"] as &[&str]),
        ("B", &["<= -5.0"]),
        ("C", &["> 0.0", "< 1e-300"]),
        ("D", &[">= -0.01", "<= 0.01"]),
        ("E", &["<= 1.0", "!= 0.0"]),
        ("F", &[">= 1e308", "<= 1.5e308"]),
    ]);
    let config = config_of(&defs);
    for c in &config.constraints {
        let e = generate_valid_example(c, example_facts(c));
        assert!(constant_matches_constraint(valid_key(e), c), "{} {:?}", c.name, e);
        for name in ["Positive", "Negative", "NonZero", "Normalized", "Symmetric", "NonNegative", "NonPositive", "Bounded", "Other"] {
            let t = generate_valid_example_for_type(name, c, example_facts(c));
            let k = match t {
                TypeExample::FortyTwo => key(42.0),
                TypeExample::MinusFortyTwo => key(-42.0),
                TypeExample::Pi => key(3.14),
                TypeExample::Half => key(0.5),
                TypeExample::Zero => 0,
                TypeExample::Ten => key(10.0),
                TypeExample::MinusTen => key(-10.0),
                TypeExample::One => key(1.0),
                TypeExample::Value(k) => k,
            };
            assert!(constant_matches_constraint(k, c), "{} {} {:?}", c.name, name, t);
        }
    }
}

#[test]
fn invalid_examples_of_main_types() {
    let config = main_config();
    let ex = |n: &str| generate_invalid_example(constraint(&config, n));
    assert_eq!(ex("NonNegative"), InvalidExample::MinusOne);
    assert_eq!(ex("Positive"), InvalidExample::MinusOne);
    assert_eq!(ex("NonPositive"), InvalidExample::One);
    assert_eq!(ex("NonZero"), InvalidExample::Zero);
    assert_eq!(ex("Fin"), InvalidExample::NaN);
    assert_eq!(ex("Symmetric"), InvalidExample::NaN);
    let c = config_of(&[("Big", &[">= 5.0"]), ("Small", &["<= -5.0"])]);
    // ">= 5.0" makes a Positive constraint, so the first rule applies only at zero.
    assert_eq!(generate_invalid_example(&c.constraints[0]), InvalidExample::NaN);
    let c = config_of(&[("Mid", &[">= 2.0", "<= -3.0", "<= 9.0"])]);
    assert_eq!(generate_invalid_example(&c.constraints[0]), InvalidExample::BelowLower { lower: key(2.0) });
}

#[test]
fn type_descriptions_by_name() {
    assert_eq!(generate_type_description("Positive"), TypeDescription::Positive);
    assert_eq!(generate_type_description("NegativeNormalized"), TypeDescription::NegativeNormalized);
    assert_eq!(generate_type_description("Symmetric"), TypeDescription::Symmetric);
    assert_eq!(generate_type_description("Fin"), TypeDescription::Generic);
    assert_eq!(generate_type_description("positive"), TypeDescription::Generic);
}

#[test]
fn type_examples_by_name() {
    let config = main_config();
    let ex = |name: &str, n: &str| {
        let c = constraint(&config, n);
        generate_valid_example_for_type(name, c, example_facts(c))
    };
    assert_eq!(ex("Positive", "Positive"), TypeExample::FortyTwo);
    assert_eq!(ex("NonPositive", "NonPositive"), TypeExample::MinusTen);
    assert_eq!(ex("Normalized", "Normalized"), TypeExample::Half);
    assert_eq!(ex("Bounded", "Symmetric"), TypeExample::Value(0));
    assert_eq!(ex("Bounded", "Fin"), TypeExample::One);
    assert_eq!(ex("Other", "Fin"), TypeExample::Pi);
    // A name's example that the constraint rejects is replaced by a bound.
    assert_eq!(ex("Other", "Symmetric"), TypeExample::Value(NEG_ONE_KEY));
    assert_eq!(ex("Positive", "Negative"), TypeExample::Value(-1));
}

#[test]
fn contained_conversion_keeps_validation() {
    let config = main_config();
    let samples = [-2.0, -1.0, -0.5, 0.0, 1e-300, 0.5, 1.0, 2.0, f64::MAX];
    for a in &config.constraints {
        for b in &config.constraints {
            let contained = is_subset_constraint(
                a.bounds.lower, a.bounds.upper, a.excludes_zero,
                b.bounds.lower, b.bounds.upper, b.excludes_zero,
            );
            if !contained {
                continue;
            }
            for f in ["f32", "f64"] {
                let ca = build_validation_expr(a, f);
                let cb = build_validation_expr(b, f);
                for v in samples {
                    if ca.iter().all(|ch| check_passes(ch, v)) {
                        assert!(cb.iter().all(|ch| check_passes(ch, v)), "{} -> {} at {}", a.name, b.name, v);
                    }
                }
            }
        }
    }
}

#[test]
fn safe_operation_result_types() {
    let config = main_config();
    let cases = [
        (ArithmeticOp::Sub, "NonPositive", "NonPositive", "Fin"),
        (ArithmeticOp::Sub, "NonNegative", "NonNegative", "Fin"),
        (ArithmeticOp::Add, "NonNegative", "NonPositive", "Fin"),
        (ArithmeticOp::Add, "NonPositive", "NonNegative", "Fin"),
        (ArithmeticOp::Add, "Positive", "Negative", "Fin"),
        (ArithmeticOp::Mul, "Normalized", "Normalized", "Normalized"),
        (ArithmeticOp::Mul, "Normalized", "NegativeNormalized", "NegativeNormalized"),
        (ArithmeticOp::Mul, "NegativeNormalized", "NegativeNormalized", "Normalized"),
        (ArithmeticOp::Mul, "Symmetric", "Symmetric", "Symmetric"),
        (ArithmeticOp::Div, "Normalized", "NonZero", "Fin"),
        (ArithmeticOp::Div, "Normalized", "Positive", "NonNegative"),
        (ArithmeticOp::Div, "NegativeNormalized", "NonZero", "Fin"),
        (ArithmeticOp::Div, "NegativeNormalized", "Negative", "NonNegative"),
        (ArithmeticOp::Div, "Symmetric", "NonZero", "Fin"),
        (ArithmeticOp::Div, "Symmetric", "Positive", "Fin"),
        (ArithmeticOp::Div, "Normalized", "Negative", "NonPositive"),
    ];
    for (op, l, r, out) in cases {
        assert_eq!(result(&config, op, l, r), safe(out), "{:?} {} {}", op, l, r);
    }
}

#[test]
fn fallible_operation_result_types() {
    let config = main_config();
    let cases = [
        (ArithmeticOp::Add, "Positive", "Positive", "Positive"),
        (ArithmeticOp::Add, "Negative", "Negative", "Negative"),
        (ArithmeticOp::Sub, "Positive", "Negative", "Positive"),
        (ArithmeticOp::Sub, "Negative", "Positive", "Negative"),
        (ArithmeticOp::Sub, "NonZero", "NonZero", "Fin"),
        (ArithmeticOp::Mul, "NonNegative", "NonNegative", "NonNegative"),
        (ArithmeticOp::Mul, "NonPositive", "NonPositive", "NonNegative"),
        (ArithmeticOp::Mul, "NonNegative", "NonPositive", "NonPositive"),
        (ArithmeticOp::Mul, "NonZero", "NonZero", "NonZero"),
        (ArithmeticOp::Div, "NonNegative", "NonNegative", "NonNegative"),
        (ArithmeticOp::Div, "NonPositive", "NonPositive", "NonNegative"),
        (ArithmeticOp::Div, "NonNegative", "NonPositive", "NonPositive"),
        (ArithmeticOp::Div, "NonZero", "NonZero", "NonZero"),
    ];
    for (op, l, r, out) in cases {
        assert_eq!(result(&config, op, l, r), checked(out), "{:?} {} {}", op, l, r);
    }
}

#[test]
fn lookup_gives_computed_outcome_for_every_pair() {
    let config = main_config();
    for l in &config.constraints {
        for r in &config.constraints {
            for op in [ArithmeticOp::Add, ArithmeticOp::Sub, ArithmeticOp::Mul, ArithmeticOp::Div] {
                let stored = config.get_arithmetic_result(op, &l.name, &r.name).unwrap();
                let computed = compute_arithmetic_result(op, l, r, &config.constraints, &facts(l, r));
                assert_eq!(stored.output_type, computed.output_type);
                assert_eq!(stored.is_safe, computed.is_safe);
            }
        }
    }
}

#[test]
fn nan_operands_are_accepted() {
    let config = config_of(&[("Fin", &[]), ("N", &[">= NaN"]), ("M", &[">= NaN", ">= 1.0"]), ("U", &["<= NaN", "> 0.0"])]);
    let n = constraint(&config, "N");
    assert_eq!(n.sign, Sign::Any);
    assert!(matches!(n.bounds.lower, Some(l) if val(l).is_nan()));
    assert_eq!(n.bounds.upper, None);
    assert!(!n.excludes_zero);
    // f64::max lets the number win over NaN.
    let m = constraint(&config, "M");
    assert_eq!(m.bounds.lower, Some(key(1.0)));
    assert_eq!(m.sign, Sign::Positive);
    let u = constraint(&config, "U");
    assert!(matches!(u.bounds.upper, Some(x) if val(x).is_nan()));
    assert_eq!(u.bounds.lower, Some(0));
    assert_eq!(u.sign, Sign::Positive);
    assert!(u.excludes_zero);
    // A NaN bound equals nothing, not even itself.
    assert_eq!(config.find_type_by_constraints(Sign::Any, &n.bounds, false), None);
    // A NaN bound rejects no constant, like a missing bound.
    let table = all_constants();
    assert_eq!(applicable_constants(&table, n, "f64").len(), 18);
    // Every pair still has a result.
    for l in &config.constraints {
        for r in &config.constraints {
            for op in [ArithmeticOp::Add, ArithmeticOp::Sub, ArithmeticOp::Mul, ArithmeticOp::Div] {
                assert!(config.get_arithmetic_result(op, &l.name, &r.name).is_some());
            }
        }
    }
    // A NaN bound is never contained nor contains.
    assert!(!is_subset_constraint(n.bounds.lower, None, false, n.bounds.lower, None, false));
    assert_eq!(generate_valid_example(n, example_facts(n)), ValidExample::Pi);
}
