use fend_core::context::{evaluate_to_value, Context, EvalBinding, FCMode};
use fend_core::error::FendError;
use fend_core::interrupt::NeverInterrupt;
use fend_core::num::{
    to_string, DivideByZero, IntegerPowerError, Number, Rational, RenderResult, Value,
    ValueTooLarge,
};
use fend_core::registry::{Registry, UnitEntry};
use fend_core::units::{expr_unit, PrefixRule};

fn entry(singular: &str, plural: &str, definition: &str, case_sensitive: bool) -> UnitEntry {
    UnitEntry {
        singular: singular.to_string(),
        plural: plural.to_string(),
        definition: definition.to_string(),
        case_sensitive,
    }
}

fn plain_context() -> Context {
    Context {
        fc_mode: FCMode::CoulombFarad,
        registry: Registry {
            short_prefix_defs: Vec::new(),
            unit_defs: Vec::new(),
        },
        eval_env: vec![EvalBinding {
            expr: "three".to_string(),
            value: Value::Num(Number {
                value: Rational { num: 3, den: 1 },
                dims: Vec::new(),
                prefix: String::new(),
                singular: String::new(),
                plural: String::new(),
            }),
        }],
    }
}

#[test]
fn to_string_recovers_text_and_result() {
    let outcome = to_string(|mut buf: String| {
        buf.push_str("1000 km");
        (buf, RenderResult::Rendered(7u32))
    });
    match outcome {
        Ok((text, aux)) => {
            assert_eq!(text, "1000 km");
            assert_eq!(aux, 7);
        }
        Err(e) => panic!("unexpected failure: {:?}", e),
    }
}

#[test]
fn to_string_carries_cancellation_out() {
    let outcome = to_string(|mut buf: String| {
        buf.push_str("partial text that must be discarded");
        (buf, RenderResult::<u32>::Interrupted)
    });
    match outcome {
        Err(FendError::Interrupt) => {}
        other => panic!("unexpected outcome: {:?}", other),
    }
}

#[test]
fn divide_by_zero_message() {
    assert_eq!(DivideByZero {}.message(), "Division by zero");
}

#[test]
fn integer_power_error_messages() {
    assert_eq!(
        IntegerPowerError::ExponentTooLarge.message(),
        "Exponent too large"
    );
    assert_eq!(
        IntegerPowerError::ZeroToThePowerOfZero.message(),
        "Zero to the power of zero is undefined"
    );
}

#[test]
fn value_too_large_message() {
    let e = ValueTooLarge::new("255".to_string());
    assert_eq!(e.message(), "Value must be less than or equal to 255");
}

#[test]
fn rational_with_zero_divisor_is_divide_by_zero() {
    assert!(Rational::new(5, 0).is_err());
    assert_eq!(Rational::new(5, 2).unwrap(), Rational { num: 5, den: 2 });
}

#[test]
fn evaluator_table_hit_and_miss() {
    let ctx = plain_context();
    let mut intr = NeverInterrupt {};
    match evaluate_to_value("three", &ctx, &mut intr) {
        Ok(Value::Num(n)) => assert_eq!(n.value, Rational { num: 3, den: 1 }),
        other => panic!("unexpected outcome: {:?}", other),
    }
    match evaluate_to_value("four", &ctx, &mut intr) {
        Err(FendError::EvaluationFailed(s)) => assert_eq!(s, "four"),
        other => panic!("unexpected outcome: {:?}", other),
    }
}

#[test]
fn definition_tags_select_the_prefix_rule() {
    let ctx = plain_context();
    let mut intr = NeverInterrupt {};
    let cases: Vec<(&str, PrefixRule)> = vec![
        ("!", PrefixRule::NoPrefixesAllowed),
        ("l@!", PrefixRule::LongPrefixAllowed),
        ("lp@!", PrefixRule::LongPrefix),
        ("s@!", PrefixRule::ShortPrefixAllowed),
        ("sp@!", PrefixRule::ShortPrefix),
    ];
    for (definition, rule) in cases {
        let unit = expr_unit("u", "us", definition, &ctx, &mut intr).unwrap();
        assert_eq!(unit.prefix_rule, rule);
        assert_eq!(unit.singular, "u");
        assert_eq!(unit.plural, "us");
    }
}

#[test]
fn base_unit_definition_is_the_identity_of_itself() {
    let ctx = plain_context();
    let mut intr = NeverInterrupt {};
    let unit = expr_unit("widget", "widgets", "!", &ctx, &mut intr).unwrap();
    match unit.value {
        Value::Num(n) => {
            assert_eq!(n.value, Rational { num: 1, den: 1 });
            assert_eq!(n.dims, vec!["widget".to_string()]);
        }
        Value::Other => panic!("expected a numeric quantity"),
    }
}

#[test]
fn alias_definition_keeps_the_evaluated_value_unscoped() {
    let ctx = plain_context();
    let mut intr = NeverInterrupt {};
    let unit = expr_unit("trio", "trios", "=three", &ctx, &mut intr).unwrap();
    match unit.value {
        Value::Num(n) => {
            assert_eq!(n.value, Rational { num: 3, den: 1 });
            assert!(n.dims.is_empty());
            // An alias reuses the evaluated value's own shape rather than
            // introducing a new named unit.
            assert_eq!(n.singular, "");
        }
        Value::Other => panic!("expected a numeric quantity"),
    }
}

#[test]
fn non_alias_definition_is_scoped_to_the_new_name() {
    let ctx = plain_context();
    let mut intr = NeverInterrupt {};
    let unit = expr_unit("trio", "trios", "s@three", &ctx, &mut intr).unwrap();
    match unit.value {
        Value::Num(n) => {
            assert_eq!(n.value, Rational { num: 3, den: 1 });
            assert_eq!(n.singular, "trio");
            assert_eq!(n.plural, "trios");
        }
        Value::Other => panic!("expected a numeric quantity"),
    }
}

#[test]
fn registry_lookup_honours_the_short_prefix_flag() {
    let registry = Registry {
        short_prefix_defs: vec![entry("k", "k", "sp@kilo", true)],
        unit_defs: vec![entry("kelvin", "kelvin", "l@!", true)],
    };
    assert!(registry.lookup("k", true, true).is_some());
    assert!(registry.lookup("k", false, true).is_none());
    assert!(registry.lookup("kelvin", false, true).is_some());
}
