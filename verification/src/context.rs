//! The evaluation context: the mode flag that disambiguates `C`/`F`, the
//! unit registry, and the expression table standing for the calculator's
//! expression evaluator.
//!
//! The evaluator itself is outside this crate; resolution depends on it
//! only through `evaluate_to_value`, which maps a definition expression to
//! a value. The context carries that mapping as an explicit table: an
//! expression with no row is one the evaluator cannot evaluate, which is an
//! opaque, fatal error for the resolution in progress.

use vstd::prelude::*;
use vstd::string::*;
use crate::error::{is_interrupt, ErrorV, FendError};
use crate::interrupt::Interrupt;
use crate::num::{clone_value, Value, ValueV};
use crate::registry::{Registry, RegistryV};
use crate::strutil::str_eq;

verus! {

/// How the ambiguous symbols `C` and `F` are read: as coulomb/farad by
/// default, or as the Celsius/Fahrenheit temperature scales.
#[derive(Clone, Copy, PartialEq, Eq, Structural, Debug)]
pub enum FCMode {
    CoulombFarad,
    CelsiusFahrenheit,
}

/// One row of the expression table: what the evaluator returns for one
/// definition expression.
#[derive(Debug)]
pub struct EvalBinding {
    pub expr: String,
    pub value: Value,
}

/// The mathematical shape of an expression-table row.
pub struct BindingV {
    pub expr: Seq<char>,
    pub value: ValueV,
}

impl View for EvalBinding {
    type V = BindingV;

    open spec fn view(&self) -> BindingV {
        BindingV { expr: self.expr@, value: self.value@ }
    }
}

/// The evaluation context threaded through every resolution.
#[derive(Debug)]
pub struct Context {
    pub fc_mode: FCMode,
    pub registry: Registry,
    pub eval_env: Vec<EvalBinding>,
}

/// The mathematical shape of the context.
pub struct ContextV {
    pub fc_mode: FCMode,
    pub registry: RegistryV,
    pub eval_env: Seq<BindingV>,
}

impl View for Context {
    type V = ContextV;

    open spec fn view(&self) -> ContextV {
        ContextV {
            fc_mode: self.fc_mode,
            registry: self.registry@,
            eval_env: Seq::new(self.eval_env@.len(), |i: int| self.eval_env@[i]@),
        }
    }
}

/// First row of the expression table for `expr`.
pub open spec fn spec_env_lookup(env: Seq<BindingV>, expr: Seq<char>) -> Option<ValueV>
    decreases env.len(),
{
    if env.len() == 0 {
        None
    } else if env[0].expr == expr {
        Some(env[0].value)
    } else {
        spec_env_lookup(env.drop_first(), expr)
    }
}

/// What the evaluator returns for `expr` under `ctx`: its table row, or an
/// opaque evaluation error naming the expression.
pub open spec fn spec_eval(ctx: ContextV, expr: Seq<char>) -> Result<ValueV, ErrorV> {
    match spec_env_lookup(ctx.eval_env, expr) {
        Some(v) => Ok(v),
        None => Err(ErrorV::EvaluationFailed(expr)),
    }
}

/// Evaluate a definition expression through the context's expression
/// table. Interruptible; an expression without a row is an opaque, fatal
/// evaluation error.
pub fn evaluate_to_value<I: Interrupt>(expr: &str, context: &Context, intr: &mut I) -> (res: Result<
    Value,
    FendError,
>)
    ensures
        is_interrupt(res) || (match spec_eval(context@, expr@) {
            Ok(v) => res matches Ok(p) && p@ == v,
            Err(e) => res matches Err(q) && q@ == e,
        }),
        old(intr).never_signals() ==> final (intr).never_signals(),
        old(intr).never_signals() ==> !is_interrupt(res),
        old(intr).signalled() ==> is_interrupt(res),
{
    proof {
        intr.lemma_never_signals();
    }
    if intr.test() {
        return Err(FendError::Interrupt);
    }
    let mut i: usize = 0;
    proof {
        assert(context@.eval_env.skip(0) =~= context@.eval_env);
    }
    while i < context.eval_env.len()
        invariant
            !old(intr).signalled(),
            old(intr).never_signals() ==> intr.never_signals(),
            i <= context.eval_env@.len(),
            spec_env_lookup(context@.eval_env, expr@) == spec_env_lookup(
                context@.eval_env.skip(i as int),
                expr@,
            ),
        decreases context.eval_env@.len() - i,
    {
        let binding = &context.eval_env[i];
        proof {
            assert(context@.eval_env.skip(i as int)[0] == binding@);
        }
        if str_eq(binding.expr.as_str(), expr) {
            return Ok(clone_value(&binding.value));
        }
        proof {
            assert(context@.eval_env.skip(i as int).drop_first() =~= context@.eval_env.skip(i + 1));
        }
        i += 1;
    }
    proof {
        assert(context@.eval_env.skip(context.eval_env@.len() as int).len() == 0);
    }
    Err(FendError::EvaluationFailed(String::from_str(expr)))
}

} // verus!
