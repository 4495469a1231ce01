use fend_core::context::{Context, EvalBinding, FCMode};
use fend_core::error::FendError;
use fend_core::interrupt::{CountingInterrupt, NeverInterrupt};
use fend_core::num::{Number, Rational, Value};
use fend_core::registry::{Registry, UnitEntry};
use fend_core::units::get_completions_for_prefix;
use fend_core::units::query_unit;

fn entry(singular: &str, plural: &str, definition: &str, case_sensitive: bool) -> UnitEntry {
    UnitEntry {
        singular: singular.to_string(),
        plural: plural.to_string(),
        definition: definition.to_string(),
        case_sensitive,
    }
}

fn num(n: u64, d: u64) -> Value {
    Value::Num(Number {
        value: Rational { num: n, den: d },
        dims: Vec::new(),
        prefix: String::new(),
        singular: String::new(),
        plural: String::new(),
    })
}

fn num_dim(n: u64, d: u64, dim: &str) -> Value {
    Value::Num(Number {
        value: Rational { num: n, den: d },
        dims: vec![dim.to_string()],
        prefix: String::new(),
        singular: String::new(),
        plural: String::new(),
    })
}

fn binding(expr: &str, value: Value) -> EvalBinding {
    EvalBinding {
        expr: expr.to_string(),
        value,
    }
}

fn test_context() -> Context {
    Context {
        fc_mode: FCMode::CoulombFarad,
        registry: Registry {
            short_prefix_defs: vec![
                entry("k", "k", "sp@kilo", true),
                entry("\u{b5}", "\u{b5}", "sp@micro", true),
            ],
            unit_defs: vec![
                entry("m", "m", "s@!", true),
                entry("Hz", "Hz", "s@!", false),
                entry("kilo", "kilo", "lp@kilo", true),
                entry("meter", "meters", "l@!", true),
                entry("widget", "widgets", "s@!", true),
            ],
        },
        eval_env: vec![
            binding("kilo", num(1000, 1)),
            binding("micro", num(1, 1000000)),
            binding("coulomb", num_dim(1, 1, "coulomb")),
            binding("farad", num_dim(1, 1, "farad")),
            binding("\u{b0}C", num_dim(1, 1, "celsius")),
            binding("\u{b0}F", num_dim(1, 1, "fahrenheit")),
        ],
    }
}

fn expect_num(v: Value) -> Number {
    match v {
        Value::Num(n) => n,
        Value::Other => panic!("expected a numeric quantity"),
    }
}

fn resolve(ident: &str, ctx: &Context) -> Result<Value, FendError> {
    let mut intr = NeverInterrupt {};
    query_unit(ident, ctx, &mut intr)
}

#[test]
fn short_prefix_compound_km() {
    let ctx = test_context();
    let n = expect_num(resolve("km", &ctx).unwrap());
    assert_eq!(n.value, Rational { num: 1000, den: 1 });
    assert_eq!(n.dims, vec!["m".to_string()]);
    assert_eq!(n.prefix, "k");
    assert_eq!(n.singular, "m");
    assert_eq!(n.plural, "m");
}

#[test]
fn long_prefix_compound_kilometer() {
    let ctx = test_context();
    let n = expect_num(resolve("kilometer", &ctx).unwrap());
    assert_eq!(n.value, Rational { num: 1000, den: 1 });
    assert_eq!(n.dims, vec!["meter".to_string()]);
    assert_eq!(n.prefix, "kilo");
    assert_eq!(n.singular, "meter");
    assert_eq!(n.plural, "meters");
}

#[test]
fn exact_match_beats_prefix_decomposition() {
    let mut ctx = test_context();
    ctx.registry
        .unit_defs
        .push(entry("km", "km", "=kmval", true));
    ctx.eval_env.push(binding("kmval", num(42, 1)));
    let n = expect_num(resolve("km", &ctx).unwrap());
    assert_eq!(n.value, Rational { num: 42, den: 1 });
}

#[test]
fn case_insensitive_fallback_matches() {
    let ctx = test_context();
    let n = expect_num(resolve("hz", &ctx).unwrap());
    assert_eq!(n.singular, "Hz");
    assert_eq!(n.value, Rational { num: 1, den: 1 });
}

#[test]
fn case_sensitive_entry_never_matches_insensitively() {
    let ctx = test_context();
    // "meter" is in a case-sensitive group: "METER" matches nothing and no
    // decomposition works either.
    match resolve("METER", &ctx) {
        Err(FendError::IdentifierNotFound(s)) => assert_eq!(s, "METER"),
        other => panic!("unexpected outcome: {:?}", other),
    }
}

#[test]
fn unmatched_identifier_proceeds_to_prefix_decomposition() {
    let ctx = test_context();
    // "kHz" matches no entry, even case-insensitively; decomposition finds
    // the short prefix "k" and the base "Hz".
    let n = expect_num(resolve("kHz", &ctx).unwrap());
    assert_eq!(n.value, Rational { num: 1000, den: 1 });
    assert_eq!(n.dims, vec!["Hz".to_string()]);
}

#[test]
fn incompatible_pair_fails_with_original_identifier() {
    let ctx = test_context();
    // "k" resolves as a short prefix and "kilo" as a long prefix; the pair
    // is incompatible, and the failure names the whole identifier.
    match resolve("kkilo", &ctx) {
        Err(FendError::IdentifierNotFound(s)) => assert_eq!(s, "kkilo"),
        other => panic!("unexpected outcome: {:?}", other),
    }
}

#[test]
fn multibyte_identifier_splits_at_character_boundary() {
    let ctx = test_context();
    let n = expect_num(resolve("\u{b5}m", &ctx).unwrap());
    assert_eq!(n.value, Rational { num: 1, den: 1000000 });
    assert_eq!(n.dims, vec!["m".to_string()]);
}

#[test]
fn quoted_literal_makes_base_unit() {
    let ctx = test_context();
    let n = expect_num(resolve("'foo'", &ctx).unwrap());
    assert_eq!(n.value, Rational { num: 1, den: 1 });
    assert_eq!(n.dims, vec!["foo".to_string()]);
    assert_eq!(n.singular, "foo");
    assert_eq!(n.plural, "foo");
}

#[test]
fn quoted_literal_bypasses_registry() {
    let ctx = test_context();
    // "widget" is registered with plural "widgets"; the quoted form still
    // mints a fresh base unit whose plural equals its singular.
    let n = expect_num(resolve("'widget'", &ctx).unwrap());
    assert_eq!(n.singular, "widget");
    assert_eq!(n.plural, "widget");
    let registered = expect_num(resolve("widget", &ctx).unwrap());
    assert_eq!(registered.plural, "widgets");
}

#[test]
fn ambiguous_c_is_coulomb_by_default() {
    let ctx = test_context();
    let n = expect_num(resolve("C", &ctx).unwrap());
    assert_eq!(n.dims, vec!["coulomb".to_string()]);
    assert_eq!(n.singular, "C");
}

#[test]
fn ambiguous_c_is_celsius_in_fc_mode() {
    let mut ctx = test_context();
    ctx.fc_mode = FCMode::CelsiusFahrenheit;
    let n = expect_num(resolve("C", &ctx).unwrap());
    assert_eq!(n.dims, vec!["celsius".to_string()]);
}

#[test]
fn ambiguous_f_switches_with_mode() {
    let mut ctx = test_context();
    let farad = expect_num(resolve("F", &ctx).unwrap());
    assert_eq!(farad.dims, vec!["farad".to_string()]);
    ctx.fc_mode = FCMode::CelsiusFahrenheit;
    let fahrenheit = expect_num(resolve("F", &ctx).unwrap());
    assert_eq!(fahrenheit.dims, vec!["fahrenheit".to_string()]);
}

#[test]
fn unknown_identifier_not_found() {
    let ctx = test_context();
    match resolve("blah", &ctx) {
        Err(e) => {
            assert!(matches!(e, FendError::IdentifierNotFound(_)));
            assert_eq!(e.message(), "identifier not found: blah");
        }
        Ok(v) => panic!("unexpected success: {:?}", v),
    }
}

#[test]
fn evaluator_error_is_fatal_not_a_fallback() {
    let mut ctx = test_context();
    // The definition expression has no row in the expression table, so the
    // evaluator fails; that failure is not treated as not-found.
    ctx.registry
        .unit_defs
        .push(entry("x", "x", "mystery", true));
    match resolve("x", &ctx) {
        Err(FendError::EvaluationFailed(s)) => assert_eq!(s, "mystery"),
        other => panic!("unexpected outcome: {:?}", other),
    }
}

#[test]
fn non_numeric_evaluation_result_is_rejected() {
    let mut ctx = test_context();
    ctx.registry
        .unit_defs
        .push(entry("odd", "odd", "=oddval", true));
    ctx.eval_env.push(binding("oddval", Value::Other));
    match resolve("odd", &ctx) {
        Err(FendError::ExpectedANumber) => {}
        other => panic!("unexpected outcome: {:?}", other),
    }
}

#[test]
fn magnitude_overflow_is_value_too_large() {
    let mut ctx = test_context();
    ctx.registry
        .short_prefix_defs
        .push(entry("G", "G", "sp@giant", true));
    ctx.eval_env.push(binding("giant", num(u64::MAX, 1)));
    ctx.registry
        .unit_defs
        .push(entry("w", "w", "s@wexpr", true));
    ctx.eval_env.push(binding("wexpr", num(2, 1)));
    match resolve("Gw", &ctx) {
        Err(FendError::ValueTooLarge(v)) => {
            assert_eq!(
                v.message(),
                "Value must be less than or equal to 18446744073709551615"
            );
        }
        other => panic!("unexpected outcome: {:?}", other),
    }
}

#[test]
fn cancellation_preempts_a_resolvable_unit() {
    let ctx = test_context();
    let mut intr = CountingInterrupt {
        polls_before_signal: 0,
    };
    match query_unit("m", &ctx, &mut intr) {
        Err(FendError::Interrupt) => {}
        other => panic!("unexpected outcome: {:?}", other),
    }
}

#[test]
fn cancellation_at_any_step_or_the_exact_result() {
    let ctx = test_context();
    for polls in 0..32u64 {
        let mut intr = CountingInterrupt {
            polls_before_signal: polls,
        };
        match query_unit("km", &ctx, &mut intr) {
            Err(FendError::Interrupt) => {}
            Ok(v) => {
                let n = expect_num(v);
                assert_eq!(n.value, Rational { num: 1000, den: 1 });
                assert_eq!(n.dims, vec!["m".to_string()]);
            }
            other => panic!("unexpected outcome: {:?}", other),
        }
    }
    let mut generous = CountingInterrupt {
        polls_before_signal: 1000,
    };
    assert!(query_unit("km", &ctx, &mut generous).is_ok());
}

#[test]
fn completions_exclude_plurals_and_the_prefix_itself() {
    let registry = Registry {
        short_prefix_defs: vec![entry("k", "k", "sp@kilo", true)],
        unit_defs: vec![
            entry("km", "km", "=kmval", true),
            entry("kelvin", "kelvin", "l@!", true),
            entry("k", "ks", "s@!", true),
            entry("newton", "knewtons", "l@!", true),
            entry("kilogram", "kilograms", "l@!", true),
        ],
    };
    let completions = get_completions_for_prefix("k", &registry);
    let displays: Vec<&str> = completions.iter().map(|c| c.display.as_str()).collect();
    assert_eq!(displays, vec!["kelvin", "kilogram", "km"]);
    let inserts: Vec<&str> = completions.iter().map(|c| c.insert.as_str()).collect();
    assert_eq!(inserts, vec!["elvin", "ilogram", "m"]);
}

#[test]
fn magnitude_accessor_reports_the_scale() {
    let ctx = test_context();
    let n = expect_num(resolve("km", &ctx).unwrap());
    assert_eq!(n.magnitude(), Rational { num: 1000, den: 1 });
}

#[test]
fn case_sensitive_pass_runs_before_the_insensitive_one() {
    let mut intr = NeverInterrupt {};
    let mut ctx = test_context();
    // Both an exact and a case-insensitive candidate exist for "hz": the
    // exact one must win under the case-sensitive pass.
    ctx.registry.unit_defs.push(entry("hz", "hz", "=hzval", true));
    ctx.eval_env.push(binding("hzval", num(9, 1)));
    let sensitive =
        fend_core::units::query_unit_case_sensitive("hz", true, &ctx, &mut intr).unwrap();
    assert_eq!(expect_num(sensitive).value, Rational { num: 9, den: 1 });
    let full = expect_num(
        fend_core::units::query_unit_static("hz", &ctx, &mut intr).unwrap(),
    );
    assert_eq!(full.value, Rational { num: 9, den: 1 });
}

#[test]
fn interrupt_and_misc_error_messages() {
    assert_eq!(FendError::Interrupt.message(), "interrupted");
    assert_eq!(FendError::ExpectedANumber.message(), "Expected a number");
    assert_eq!(
        FendError::EvaluationFailed("2+2".to_string()).message(),
        "cannot evaluate: 2+2"
    );
}

#[test]
fn empty_identifier_is_not_found() {
    let ctx = test_context();
    match resolve("", &ctx) {
        Err(FendError::IdentifierNotFound(s)) => assert_eq!(s, ""),
        other => panic!("unexpected outcome: {:?}", other),
    }
}

#[test]
fn completions_of_unmatched_prefix_are_empty() {
    let registry = test_context().registry;
    let completions = get_completions_for_prefix("zzz", &registry);
    assert!(completions.is_empty());
}
