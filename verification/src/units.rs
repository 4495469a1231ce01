//! The prefix-aware unit resolver.
//!
//! `query_unit` is the single entry point from an identifier string to a
//! quantity value. Resolution order, first success wins: a quoted literal
//! unit; an exact case-sensitive registry match; a case-insensitive retry;
//! prefix decomposition at every character boundary strictly inside the
//! identifier, under the same case-sensitivity flag. Only an
//! identifier-not-found outcome drives a fallback; every other error, and a
//! cancellation, aborts the whole resolution immediately.

use vstd::prelude::*;
use vstd::string::*;
use crate::context::{spec_eval, evaluate_to_value, Context, ContextV, FCMode};
use crate::error::{is_interrupt, ErrorV, FendError};
use crate::interrupt::Interrupt;
use crate::num::{spec_base_unit, spec_create_unit, spec_number_mul, Number, NumberV, Value, ValueV};
use crate::registry::{
    lemma_find_main_sound, lemma_find_short_sound, spec_lookup, EntryV, Registry, RegistryV,
};
use crate::strutil::{
    lemma_lex_total, lemma_lex_trans, spec_lex_le, spec_starts_with, str_eq, str_le,
    str_starts_with, strip_prefix_of,
};

verus! {

/// Whether and how a unit name combines with a magnitude-scaling prefix.
/// A valid pairing is exactly a long prefix on a long-prefix-allowed base,
/// or a short prefix on a short-prefix-allowed base.
#[derive(Clone, Copy, PartialEq, Eq, Structural, Debug)]
pub enum PrefixRule {
    NoPrefixesAllowed,
    LongPrefixAllowed,
    LongPrefix,
    ShortPrefixAllowed,
    ShortPrefix,
}

/// An ephemeral resolution result, owned by the resolution call stack.
#[derive(Debug)]
pub struct UnitDef {
    pub singular: String,
    pub plural: String,
    pub prefix_rule: PrefixRule,
    pub value: Value,
}

/// The mathematical shape of a `UnitDef`.
pub struct UnitDefV {
    pub singular: Seq<char>,
    pub plural: Seq<char>,
    pub prefix_rule: PrefixRule,
    pub value: ValueV,
}

impl View for UnitDef {
    type V = UnitDefV;

    open spec fn view(&self) -> UnitDefV {
        UnitDefV {
            singular: self.singular@,
            plural: self.plural@,
            prefix_rule: self.prefix_rule,
            value: self.value@,
        }
    }
}

/// The prefix rule selected by a definition's leading tag, and the
/// definition with the tag stripped. The tags are examined in the fixed
/// order `l@`, `lp@`, `s@`, `sp@`; a definition with none of them selects
/// `NoPrefixesAllowed`.
pub open spec fn spec_strip_rule(def: Seq<char>) -> (PrefixRule, Seq<char>) {
    let s0 = (PrefixRule::NoPrefixesAllowed, def);
    let s1 = if spec_starts_with(s0.1, "l@"@) {
        (PrefixRule::LongPrefixAllowed, s0.1.subrange("l@"@.len() as int, s0.1.len() as int))
    } else {
        s0
    };
    let s2 = if spec_starts_with(s1.1, "lp@"@) {
        (PrefixRule::LongPrefix, s1.1.subrange("lp@"@.len() as int, s1.1.len() as int))
    } else {
        s1
    };
    let s3 = if spec_starts_with(s2.1, "s@"@) {
        (PrefixRule::ShortPrefixAllowed, s2.1.subrange("s@"@.len() as int, s2.1.len() as int))
    } else {
        s2
    };
    if spec_starts_with(s3.1, "sp@"@) {
        (PrefixRule::ShortPrefix, s3.1.subrange("sp@"@.len() as int, s3.1.len() as int))
    } else {
        s3
    }
}

/// What building a unit definition returns: the prefix rule from the
/// definition tag; a fresh base unit if the definition is `!`; otherwise
/// the evaluated definition expression, wrapped as one unit of
/// `(singular, plural)` unless the definition is an alias or the rule is
/// exactly `LongPrefix`.
pub open spec fn spec_expr_unit(
    singular: Seq<char>,
    plural: Seq<char>,
    definition: Seq<char>,
    ctx: ContextV,
) -> Result<UnitDefV, ErrorV> {
    let rule = spec_strip_rule(definition).0;
    let def = spec_strip_rule(definition).1;
    if def == "!"@ {
        Ok(
            UnitDefV {
                singular,
                plural,
                prefix_rule: rule,
                value: ValueV::Num(spec_base_unit(singular, plural)),
            },
        )
    } else {
        let alias = spec_starts_with(def, "="@);
        let expr = if alias {
            def.subrange("="@.len() as int, def.len() as int)
        } else {
            def
        };
        match spec_eval(ctx, expr) {
            Err(e) => Err(e),
            Ok(v) => match v {
                ValueV::Other => Err(ErrorV::ExpectedANumber),
                ValueV::Num(n) => {
                    let wrapped = if !alias && rule != PrefixRule::LongPrefix {
                        spec_create_unit(n, Seq::empty(), singular, plural)
                    } else {
                        n
                    };
                    Ok(
                        UnitDefV {
                            singular,
                            plural,
                            prefix_rule: rule,
                            value: ValueV::Num(wrapped),
                        },
                    )
                },
            },
        }
    }
}

/// What one registry-level query returns: the mode-dependent special cases
/// for the ambiguous symbols `C` and `F` first, then the generic table
/// lookup, each successful row built by `spec_expr_unit`.
pub open spec fn spec_query_unit_internal(
    ident: Seq<char>,
    short_prefixes: bool,
    case_sensitive: bool,
    ctx: ContextV,
) -> Result<UnitDefV, ErrorV> {
    if ident == "C"@ {
        if ctx.fc_mode == FCMode::CelsiusFahrenheit {
            spec_expr_unit("C"@, "C"@, "=\u{b0}C"@, ctx)
        } else {
            spec_expr_unit("C"@, "C"@, "s@coulomb"@, ctx)
        }
    } else if ident == "F"@ {
        if ctx.fc_mode == FCMode::CelsiusFahrenheit {
            spec_expr_unit("F"@, "F"@, "=\u{b0}F"@, ctx)
        } else {
            spec_expr_unit("F"@, "F"@, "s@farad"@, ctx)
        }
    } else {
        match spec_lookup(ctx.registry, ident, short_prefixes, case_sensitive) {
            Some(e) => spec_expr_unit(e.singular, e.plural, e.definition, ctx),
            None => Err(ErrorV::IdentifierNotFound(ident)),
        }
    }
}

/// The prefix-rule compatibility invariant for a prefix/base pair.
pub open spec fn spec_compatible(a: PrefixRule, b: PrefixRule) -> bool {
    (a == PrefixRule::LongPrefix && b == PrefixRule::LongPrefixAllowed) || (a
        == PrefixRule::ShortPrefix && b == PrefixRule::ShortPrefixAllowed)
}

/// What compound construction returns: the product of the two magnitudes,
/// renamed to the prefix's singular plus the base's singular and plural.
pub open spec fn spec_construct_prefixed(a: UnitDefV, b: UnitDefV) -> Result<ValueV, ErrorV> {
    match a.value {
        ValueV::Other => Err(ErrorV::ExpectedANumber),
        ValueV::Num(na) => match b.value {
            ValueV::Other => Err(ErrorV::ExpectedANumber),
            ValueV::Num(nb) => match spec_number_mul(na, nb) {
                Err(e) => Err(e),
                Ok(product) => Ok(
                    ValueV::Num(spec_create_unit(product, a.singular, b.singular, b.plural)),
                ),
            },
        },
    }
}

/// The prefix-decomposition scan from split point `i` on, in left-to-right
/// order of increasing prefix length. A split point where either side is
/// unknown is skipped silently; a split point where both sides resolve is
/// terminal: a compatible pair constructs the compound unit, an
/// incompatible pair fails with not-found for the whole identifier. Any
/// other error aborts the scan.
pub open spec fn spec_prefix_scan(
    ident: Seq<char>,
    case_sensitive: bool,
    ctx: ContextV,
    i: int,
) -> Result<ValueV, ErrorV>
    decreases ident.len() - i,
{
    if i < 1 || i >= ident.len() {
        Err(ErrorV::IdentifierNotFound(ident))
    } else {
        let prefix = ident.subrange(0, i);
        let remaining = ident.subrange(i, ident.len() as int);
        match spec_query_unit_internal(prefix, true, case_sensitive, ctx) {
            Err(e) => if e is IdentifierNotFound {
                spec_prefix_scan(ident, case_sensitive, ctx, i + 1)
            } else {
                Err(e)
            },
            Ok(a) => match spec_query_unit_internal(remaining, false, case_sensitive, ctx) {
                Err(e) => if e is IdentifierNotFound {
                    spec_prefix_scan(ident, case_sensitive, ctx, i + 1)
                } else {
                    Err(e)
                },
                Ok(b) => if spec_compatible(a.prefix_rule, b.prefix_rule) {
                    spec_construct_prefixed(a, b)
                } else {
                    Err(ErrorV::IdentifierNotFound(ident))
                },
            },
        }
    }
}

/// What resolution under one case-sensitivity flag returns: the whole
/// identifier looked up without a prefix, then, only on not-found, the
/// prefix-decomposition scan.
pub open spec fn spec_query_unit_case_sensitive(
    ident: Seq<char>,
    case_sensitive: bool,
    ctx: ContextV,
) -> Result<ValueV, ErrorV> {
    match spec_query_unit_internal(ident, false, case_sensitive, ctx) {
        Ok(u) => Ok(u.value),
        Err(e) => if e is IdentifierNotFound {
            spec_prefix_scan(ident, case_sensitive, ctx, 1)
        } else {
            Err(e)
        },
    }
}

/// What registry resolution returns: case-sensitive first, and only on
/// not-found the case-insensitive fallback.
pub open spec fn spec_query_unit_static(ident: Seq<char>, ctx: ContextV) -> Result<
    ValueV,
    ErrorV,
> {
    match spec_query_unit_case_sensitive(ident, true, ctx) {
        Ok(v) => Ok(v),
        Err(e) => if e is IdentifierNotFound {
            spec_query_unit_case_sensitive(ident, false, ctx)
        } else {
            Err(e)
        },
    }
}

/// A quoted literal unit: a single-quote pair of overall length at least
/// three.
pub open spec fn spec_quoted(ident: Seq<char>) -> bool {
    ident.len() >= 3 && ident[0] == '\'' && ident[ident.len() - 1] == '\''
}

/// What full resolution returns: a quoted literal mints a disposable base
/// unit named by its inner text, bypassing the registry entirely;
/// everything else goes through registry resolution.
pub open spec fn spec_query_unit(ident: Seq<char>, ctx: ContextV) -> Result<ValueV, ErrorV> {
    if spec_quoted(ident) {
        let inner = ident.subrange(1, ident.len() - 1);
        Ok(ValueV::Num(spec_base_unit(inner, inner)))
    } else {
        spec_query_unit_static(ident, ctx)
    }
}

/// A registry row whose definition tag makes it a prefix has no separate
/// plural form. This is the data invariant the compound constructor's
/// precondition rests on.
pub open spec fn entry_rule_wf(e: EntryV) -> bool {
    (spec_strip_rule(e.definition).0 == PrefixRule::LongPrefix || spec_strip_rule(e.definition).0
        == PrefixRule::ShortPrefix) ==> e.singular == e.plural
}

/// Every row of both registry tables satisfies `entry_rule_wf`.
pub open spec fn registry_wf(reg: RegistryV) -> bool {
    (forall|i: int|
        0 <= i < reg.short_prefix_defs.len() ==> entry_rule_wf(#[trigger] reg.short_prefix_defs[i]))
        && (forall|i: int| 0 <= i < reg.unit_defs.len() ==> entry_rule_wf(#[trigger] reg.unit_defs[i]))
}

/// A context is well-formed when its registry is.
pub open spec fn ctx_wf(ctx: ContextV) -> bool {
    registry_wf(ctx.registry)
}

/// A successful unit definition keeps the names it was asked for and the
/// rule of its definition tag.
pub proof fn lemma_expr_unit_shape(
    singular: Seq<char>,
    plural: Seq<char>,
    definition: Seq<char>,
    ctx: ContextV,
)
    ensures
        spec_expr_unit(singular, plural, definition, ctx) matches Ok(u) ==> u.singular == singular
            && u.plural == plural && u.prefix_rule == spec_strip_rule(definition).0,
{
}

/// In a well-formed context, a unit that resolves under a prefix rule has
/// equal singular and plural names: prefixes have no separate plural form.
pub proof fn lemma_prefix_names_equal(
    ident: Seq<char>,
    short_prefixes: bool,
    case_sensitive: bool,
    ctx: ContextV,
)
    requires
        ctx_wf(ctx),
    ensures
        spec_query_unit_internal(ident, short_prefixes, case_sensitive, ctx) matches Ok(u) ==> ((
        u.prefix_rule == PrefixRule::LongPrefix || u.prefix_rule == PrefixRule::ShortPrefix)
            ==> u.singular == u.plural),
{
    if ident == "C"@ || ident == "F"@ {
    } else {
        match spec_lookup(ctx.registry, ident, short_prefixes, case_sensitive) {
            Some(e) => {
                lemma_find_short_sound(ctx.registry.short_prefix_defs, ident);
                lemma_find_main_sound(ctx.registry.unit_defs, ident, case_sensitive);
                assert(ctx.registry.short_prefix_defs.contains(e) || ctx.registry.unit_defs.contains(
                    e,
                ));
                assert(entry_rule_wf(e));
                lemma_expr_unit_shape(e.singular, e.plural, e.definition, ctx);
            },
            None => {},
        }
    }
}

/// Build a unit definition from a registry row: select the prefix rule
/// from the definition tag; `!` marks a base unit; otherwise evaluate the
/// remaining definition, stripping an optional alias marker `=`, and wrap
/// the result as one unit of `(singular, plural)` unless the definition
/// was an alias or the rule is exactly `LongPrefix`.
pub fn expr_unit<I: Interrupt>(
    singular: &str,
    plural: &str,
    definition: &str,
    context: &Context,
    intr: &mut I,
) -> (res: Result<UnitDef, FendError>)
    ensures
        is_interrupt(res) || (match spec_expr_unit(singular@, plural@, definition@, context@) {
            Ok(u) => res matches Ok(d) && d@ == u,
            Err(e) => res matches Err(q) && q@ == e,
        }),
        old(intr).never_signals() ==> final (intr).never_signals(),
        old(intr).never_signals() ==> !is_interrupt(res),
        old(intr).signalled() ==> is_interrupt(res),
{
    proof {
        intr.lemma_never_signals();
    }
    if intr.test() {
        return Err(FendError::Interrupt);
    }
    let ghost def0 = definition@;
    let mut definition: &str = definition;
    let mut rule = PrefixRule::NoPrefixesAllowed;
    if let Some(remaining) = strip_prefix_of(definition, "l@") {
        definition = remaining;
        rule = PrefixRule::LongPrefixAllowed;
    }
    if let Some(remaining) = strip_prefix_of(definition, "lp@") {
        definition = remaining;
        rule = PrefixRule::LongPrefix;
    }
    if let Some(remaining) = strip_prefix_of(definition, "s@") {
        definition = remaining;
        rule = PrefixRule::ShortPrefixAllowed;
    }
    if let Some(remaining) = strip_prefix_of(definition, "sp@") {
        definition = remaining;
        rule = PrefixRule::ShortPrefix;
    }
    proof {
        assert(rule == spec_strip_rule(def0).0 && definition@ == spec_strip_rule(def0).1);
    }
    if str_eq(definition, "!") {
        let base = Number::new_base_unit(String::from_str(singular), String::from_str(plural));
        return Ok(
            UnitDef {
                singular: String::from_str(singular),
                plural: String::from_str(plural),
                prefix_rule: rule,
                value: Value::Num(base),
            },
        );
    }
    let alias: bool;
    if let Some(remaining) = strip_prefix_of(definition, "=") {
        alias = true;
        definition = remaining;
    } else {
        alias = false;
    }
    let num = match evaluate_to_value(definition, context, intr) {
        Err(e) => return Err(e),
        Ok(v) => match v.expect_num() {
            Err(e) => return Err(e),
            Ok(n) => n,
        },
    };
    let num = if !alias && rule != PrefixRule::LongPrefix {
        match Number::create_unit_value_from_value(
            &num,
            String::new(),
            String::from_str(singular),
            String::from_str(plural),
            intr,
        ) {
            Err(e) => return Err(e),
            Ok(n) => n,
        }
    } else {
        num
    };
    Ok(
        UnitDef {
            singular: String::from_str(singular),
            plural: String::from_str(plural),
            prefix_rule: rule,
            value: Value::Num(num),
        },
    )
}

/// Combine an already-validated prefix/base pair: multiply the magnitudes
/// and name the product after the prefix's singular and the base's
/// singular and plural forms. The prefix must have no separate plural
/// form; a violation of that invariant is a programming error, not a
/// recoverable condition.
pub fn construct_prefixed_unit<I: Interrupt>(a: UnitDef, b: UnitDef, intr: &mut I) -> (res: Result<
    Value,
    FendError,
>)
    requires
        a@.singular == a@.plural,
    ensures
        is_interrupt(res) || (match spec_construct_prefixed(a@, b@) {
            Ok(v) => res matches Ok(x) && x@ == v,
            Err(e) => res matches Err(q) && q@ == e,
        }),
        old(intr).never_signals() ==> final (intr).never_signals(),
        old(intr).never_signals() ==> !is_interrupt(res),
        old(intr).signalled() ==> is_interrupt(res),
{
    proof {
        intr.lemma_never_signals();
    }
    if intr.test() {
        return Err(FendError::Interrupt);
    }
    let UnitDef { singular: a_singular, plural: _, prefix_rule: _, value: a_value } = a;
    let UnitDef { singular: b_singular, plural: b_plural, prefix_rule: _, value: b_value } = b;
    let an = match a_value.expect_num() {
        Err(e) => return Err(e),
        Ok(n) => n,
    };
    let bn = match b_value.expect_num() {
        Err(e) => return Err(e),
        Ok(n) => n,
    };
    let product = match an.mul(bn, intr) {
        Err(e) => return Err(e),
        Ok(p) => p,
    };
    match Number::create_unit_value_from_value(&product, a_singular, b_singular, b_plural, intr) {
        Err(e) => Err(e),
        Ok(unit) => Ok(Value::Num(unit)),
    }
}

/// One registry-level query: the mode-dependent `C`/`F` special cases
/// first, then the generic table lookup.
pub fn query_unit_internal<I: Interrupt>(
    ident: &str,
    short_prefixes: bool,
    case_sensitive: bool,
    context: &Context,
    intr: &mut I,
) -> (res: Result<UnitDef, FendError>)
    ensures
        is_interrupt(res) || (match spec_query_unit_internal(
            ident@,
            short_prefixes,
            case_sensitive,
            context@,
        ) {
            Ok(u) => res matches Ok(d) && d@ == u,
            Err(e) => res matches Err(q) && q@ == e,
        }),
        old(intr).never_signals() ==> final (intr).never_signals(),
        old(intr).never_signals() ==> !is_interrupt(res),
        old(intr).signalled() ==> is_interrupt(res),
{
    proof {
        intr.lemma_never_signals();
    }
    if str_eq(ident, "C") {
        return if context.fc_mode == FCMode::CelsiusFahrenheit {
            expr_unit("C", "C", "=\u{b0}C", context, intr)
        } else {
            expr_unit("C", "C", "s@coulomb", context, intr)
        };
    }
    if str_eq(ident, "F") {
        return if context.fc_mode == FCMode::CelsiusFahrenheit {
            expr_unit("F", "F", "=\u{b0}F", context, intr)
        } else {
            expr_unit("F", "F", "s@farad", context, intr)
        };
    }
    if intr.test() {
        return Err(FendError::Interrupt);
    }
    match context.registry.lookup(ident, short_prefixes, case_sensitive) {
        Some(entry) => expr_unit(
            entry.singular.as_str(),
            entry.plural.as_str(),
            entry.definition.as_str(),
            context,
            intr,
        ),
        None => Err(FendError::IdentifierNotFound(String::from_str(ident))),
    }
}

/// Resolve an identifier under one case-sensitivity flag: the whole
/// identifier first, then prefix decomposition at every character boundary
/// strictly between the first and last character, in order of increasing
/// prefix length. Splitting at character boundaries keeps both sides
/// non-empty and never cuts a multi-byte character.
pub fn query_unit_case_sensitive<I: Interrupt>(
    ident: &str,
    case_sensitive: bool,
    context: &Context,
    intr: &mut I,
) -> (res: Result<Value, FendError>)
    requires
        ctx_wf(context@),
    ensures
        is_interrupt(res) || (match spec_query_unit_case_sensitive(
            ident@,
            case_sensitive,
            context@,
        ) {
            Ok(v) => res matches Ok(x) && x@ == v,
            Err(e) => res matches Err(q) && q@ == e,
        }),
        old(intr).never_signals() ==> final (intr).never_signals(),
        old(intr).never_signals() ==> !is_interrupt(res),
        old(intr).signalled() ==> is_interrupt(res),
{
    proof {
        intr.lemma_never_signals();
    }
    match query_unit_internal(ident, false, case_sensitive, context, intr) {
        Ok(unit) => {
            // A whole-identifier match is returned without a prefix; lone
            // short prefixes do not reach this arm because the lookup asks
            // for none.
            return Ok(unit.value);
        },
        Err(FendError::IdentifierNotFound(_)) => {},
        Err(e) => {
            return Err(e);
        },
    }
    let len = ident.unicode_len();
    if len < 2 {
        return Err(FendError::IdentifierNotFound(String::from_str(ident)));
    }
    let mut i: usize = 1;
    while i < len
        invariant
            ctx_wf(context@),
            !old(intr).signalled(),
            old(intr).never_signals() ==> intr.never_signals(),
            len == ident@.len(),
            2 <= len,
            1 <= i <= len,
            spec_query_unit_case_sensitive(ident@, case_sensitive, context@) == spec_prefix_scan(
                ident@,
                case_sensitive,
                context@,
                i as int,
            ),
        decreases len - i,
    {
        proof {
            intr.lemma_never_signals();
        }
        if intr.test() {
            return Err(FendError::Interrupt);
        }
        let prefix = ident.substring_char(0, i);
        let remaining = ident.substring_char(i, len);
        let a = match query_unit_internal(prefix, true, case_sensitive, context, intr) {
            Err(FendError::IdentifierNotFound(_)) => {
                i += 1;
                continue ;
            },
            Err(e) => {
                return Err(e);
            },
            Ok(a) => a,
        };
        match query_unit_internal(remaining, false, case_sensitive, context, intr) {
            Err(FendError::IdentifierNotFound(_)) => {
                i += 1;
                continue ;
            },
            Err(e) => {
                return Err(e);
            },
            Ok(b) => {
                if (a.prefix_rule == PrefixRule::LongPrefix && b.prefix_rule
                    == PrefixRule::LongPrefixAllowed) || (a.prefix_rule == PrefixRule::ShortPrefix
                    && b.prefix_rule == PrefixRule::ShortPrefixAllowed) {
                    proof {
                        lemma_prefix_names_equal(prefix@, true, case_sensitive, context@);
                    }
                    return construct_prefixed_unit(a, b, intr);
                }
                return Err(FendError::IdentifierNotFound(String::from_str(ident)));
            },
        }
    }
    Err(FendError::IdentifierNotFound(String::from_str(ident)))
}

/// Resolve an identifier against the registry: exact case-sensitive
/// resolution first, and only on not-found the case-insensitive fallback.
pub fn query_unit_static<I: Interrupt>(
    ident: &str,
    context: &Context,
    intr: &mut I,
) -> (res: Result<Value, FendError>)
    requires
        ctx_wf(context@),
    ensures
        is_interrupt(res) || (match spec_query_unit_static(ident@, context@) {
            Ok(v) => res matches Ok(x) && x@ == v,
            Err(e) => res matches Err(q) && q@ == e,
        }),
        old(intr).never_signals() ==> final (intr).never_signals(),
        old(intr).never_signals() ==> !is_interrupt(res),
        old(intr).signalled() ==> is_interrupt(res),
{
    match query_unit_case_sensitive(ident, true, context, intr) {
        Ok(value) => Ok(value),
        Err(FendError::IdentifierNotFound(_)) => query_unit_case_sensitive(
            ident,
            false,
            context,
            intr,
        ),
        Err(e) => Err(e),
    }
}

/// The resolver's entry point. A quoted literal of overall length at least
/// three mints a disposable base unit named by its inner text, bypassing
/// the registry entirely; everything else is resolved against the
/// registry. A failed resolution names the original, undecomposed
/// identifier.
pub fn query_unit<I: Interrupt>(ident: &str, context: &Context, intr: &mut I) -> (res: Result<
    Value,
    FendError,
>)
    requires
        ctx_wf(context@),
    ensures
        is_interrupt(res) || (match spec_query_unit(ident@, context@) {
            Ok(v) => res matches Ok(x) && x@ == v,
            Err(e) => res matches Err(q) && q@ == e,
        }),
        old(intr).never_signals() ==> final (intr).never_signals(),
        old(intr).never_signals() ==> !is_interrupt(res),
        old(intr).signalled() ==> is_interrupt(res),
{
    proof {
        intr.lemma_never_signals();
    }
    if intr.test() {
        return Err(FendError::Interrupt);
    }
    let len = ident.unicode_len();
    if len >= 3 && ident.get_char(0) == '\'' && ident.get_char(len - 1) == '\'' {
        let inner = ident.substring_char(1, len - 1);
        let base = Number::new_base_unit(String::from_str(inner), String::from_str(inner));
        return Ok(Value::Num(base));
    }
    query_unit_static(ident, context, intr)
}

/// An autocomplete suggestion: the full matched name, and the text still
/// to be typed after the prefix.
#[derive(Debug)]
pub struct Completion {
    pub display: String,
    pub insert: String,
}

/// The mathematical shape of a `Completion`.
pub struct CompletionV {
    pub display: Seq<char>,
    pub insert: Seq<char>,
}

impl View for Completion {
    type V = CompletionV;

    open spec fn view(&self) -> CompletionV {
        CompletionV { display: self.display@, insert: self.insert@ }
    }
}

/// `name` is suggested for `prefix`: it extends the prefix strictly (an
/// exact match of the prefix itself is never suggested).
pub open spec fn spec_completes(name: Seq<char>, prefix: Seq<char>) -> bool {
    spec_starts_with(name, prefix) && name != prefix
}

/// The suggestion for a name: the full name, and the suffix after the
/// prefix.
pub open spec fn spec_completion_of(name: Seq<char>, prefix: Seq<char>) -> CompletionV {
    CompletionV { display: name, insert: name.subrange(prefix.len() as int, name.len() as int) }
}

/// All suggestions for `prefix`, in table order: one per singular name
/// that strictly extends the prefix. Plural names are intentionally
/// excluded, so suggestions are not doubled.
pub open spec fn spec_completions(entries: Seq<EntryV>, prefix: Seq<char>) -> Seq<CompletionV>
    decreases entries.len(),
{
    if entries.len() == 0 {
        Seq::empty()
    } else {
        let rest = spec_completions(entries.drop_first(), prefix);
        if spec_completes(entries[0].singular, prefix) {
            seq![spec_completion_of(entries[0].singular, prefix)] + rest
        } else {
            rest
        }
    }
}

/// The views of a sequence of suggestions.
pub open spec fn views_of(s: Seq<Completion>) -> Seq<CompletionV> {
    s.map_values(|c: Completion| c@)
}

/// Suggestions sorted ascending by display text.
pub open spec fn spec_sorted_completions(s: Seq<Completion>) -> bool {
    forall|i: int, j: int|
        0 <= i < j < s.len() ==> spec_lex_le(#[trigger] s[i].display@, #[trigger] s[j].display@)
}

/// Appending one more table row extends the suggestions by at most that
/// row's suggestion.
proof fn lemma_completions_snoc(entries: Seq<EntryV>, e: EntryV, prefix: Seq<char>)
    ensures
        spec_completions(entries.push(e), prefix) == spec_completions(entries, prefix) + (
        if spec_completes(e.singular, prefix) {
            seq![spec_completion_of(e.singular, prefix)]
        } else {
            Seq::<CompletionV>::empty()
        }),
    decreases entries.len(),
{
    if entries.len() == 0 {
        assert(entries.push(e).drop_first() =~= Seq::<EntryV>::empty());
        assert(entries.push(e)[0] == e);
        assert(spec_completions(Seq::<EntryV>::empty(), prefix) =~= Seq::<CompletionV>::empty());
        assert(spec_completions(entries.push(e).drop_first(), prefix)
            == spec_completions(Seq::<EntryV>::empty(), prefix));
        assert(spec_completions(entries.push(e), prefix) =~= spec_completions(entries, prefix) + (
        if spec_completes(e.singular, prefix) {
            seq![spec_completion_of(e.singular, prefix)]
        } else {
            Seq::<CompletionV>::empty()
        }));
    } else {
        assert(entries.push(e).drop_first() =~= entries.drop_first().push(e));
        assert(entries.push(e)[0] == entries[0]);
        lemma_completions_snoc(entries.drop_first(), e, prefix);
        assert(spec_completions(entries.push(e), prefix) =~= spec_completions(entries, prefix) + (
        if spec_completes(e.singular, prefix) {
            seq![spec_completion_of(e.singular, prefix)]
        } else {
            Seq::<CompletionV>::empty()
        }));
    }
}

/// Mapping views commutes with inserting one suggestion.
proof fn lemma_views_insert(s: Seq<Completion>, k: int, c: Completion)
    requires
        0 <= k <= s.len(),
    ensures
        views_of(s.insert(k, c)) =~= views_of(s).insert(k, c@),
{
    s.insert_ensures(k, c);
    views_of(s).insert_ensures(k, c@);
    assert forall|j: int| 0 <= j < views_of(s.insert(k, c)).len() implies views_of(s.insert(k, c))[j]
        == views_of(s).insert(k, c@)[j] by {
        if j < k {
        } else if j == k {
        } else {
            assert(s.insert(k, c)[j] == s[j - 1]);
            assert(views_of(s).insert(k, c@)[j] == views_of(s)[j - 1]);
        }
    }
}

/// Inserting one element inserts it into the multiset of the sequence.
proof fn lemma_to_multiset_insert<A>(s: Seq<A>, k: int, x: A)
    requires
        0 <= k <= s.len(),
    ensures
        s.insert(k, x).to_multiset() =~= s.to_multiset().insert(x),
{
    broadcast use vstd::seq_lib::group_to_multiset_ensures;

    let a = s.subrange(0, k);
    let b = s.subrange(k, s.len() as int);
    assert(s =~= a + b);
    assert(s.insert(k, x) =~= a.push(x) + b);
    vstd::seq_lib::lemma_multiset_commutative(a, b);
    vstd::seq_lib::lemma_multiset_commutative(a.push(x), b);
    assert(a.push(x).to_multiset() =~= a.to_multiset().insert(x));
}

/// Insert a suggestion into a sorted run, keeping it sorted: advance past
/// every element at or below the new display text, and place the
/// suggestion before the first strictly larger one.
fn insert_sorted(v: &mut Vec<Completion>, c: Completion)
    requires
        spec_sorted_completions(old(v)@),
    ensures
        spec_sorted_completions(final (v)@),
        exists|k: int| 0 <= k <= old(v)@.len() && final (v)@ == old(v)@.insert(k, c),
        forall|j: int|
            0 <= j < final (v)@.len() ==> (final (v)@[j] == c || old(v)@.contains(final (v)@[j])),
{
    let ghost ov = old(v)@;
    let mut idx: usize = 0;
    while idx < v.len() && str_le(v[idx].display.as_str(), c.display.as_str())
        invariant
            idx <= v@.len(),
            v@ == ov,
            forall|j: int| 0 <= j < idx ==> spec_lex_le(#[trigger] v@[j].display@, c.display@),
        decreases v@.len() - idx,
    {
        idx += 1;
    }
    let ghost k = idx as int;
    v.insert(idx, c);
    proof {
        ov.insert_ensures(k, c);
        assert(v@ == ov.insert(k, c));
        if k < ov.len() {
            lemma_lex_total(ov[k].display@, c.display@);
        }
        assert forall|x: int, y: int| 0 <= x < y < v@.len() implies spec_lex_le(
            v@[x].display@,
            v@[y].display@,
        ) by {
            if y < k {
            } else if y == k {
                assert(v@[x] == ov[x]);
                assert(spec_lex_le(ov[x].display@, c.display@));
            } else {
                assert(v@[y] == ov[y - 1]);
                if x < k {
                    assert(v@[x] == ov[x]);
                    assert(spec_lex_le(ov[x].display@, ov[y - 1].display@));
                } else if x == k {
                    assert(spec_lex_le(c.display@, ov[k].display@));
                    if y - 1 == k {
                    } else {
                        assert(spec_lex_le(ov[k].display@, ov[y - 1].display@));
                        lemma_lex_trans(c.display@, ov[k].display@, ov[y - 1].display@);
                    }
                } else {
                    assert(v@[x] == ov[x - 1]);
                    assert(spec_lex_le(ov[x - 1].display@, ov[y - 1].display@));
                }
            }
        }
        assert forall|j: int| 0 <= j < v@.len() implies (v@[j] == c || ov.contains(v@[j])) by {
            if j < k {
                assert(v@[j] == ov[j]);
                assert(ov.contains(ov[j]));
            } else if j > k {
                assert(v@[j] == ov[j - 1]);
                assert(ov.contains(ov[j - 1]));
            }
        }
    }
}

/// Scan the registry's main table for every singular name that strictly
/// extends `prefix`, pairing the full name with the suffix still to be
/// typed, sorted ascending by display text. Plural names are never
/// suggested, the prefix itself is never suggested, and no
/// prefix-decomposition suggestions are offered: only literal registry
/// names.
pub fn get_completions_for_prefix(prefix: &str, registry: &Registry) -> (res: Vec<Completion>)
    ensures
        views_of(res@).to_multiset() == spec_completions(registry@.unit_defs, prefix@).to_multiset(),
        spec_sorted_completions(res@),
        forall|j: int|
            0 <= j < res@.len() ==> spec_completes(#[trigger] res@[j].display@, prefix@)
                && res@[j].insert@ == res@[j].display@.subrange(
                prefix@.len() as int,
                res@[j].display@.len() as int,
            ),
{
    let mut result: Vec<Completion> = Vec::new();
    let plen = prefix.unicode_len();
    let mut i: usize = 0;
    proof {
        broadcast use vstd::seq_lib::group_to_multiset_ensures;

        assert(registry@.unit_defs.take(0) =~= Seq::<EntryV>::empty());
        assert(views_of(result@) =~= Seq::<CompletionV>::empty());
    }
    while i < registry.unit_defs.len()
        invariant
            i <= registry.unit_defs@.len(),
            plen == prefix@.len(),
            spec_sorted_completions(result@),
            views_of(result@).to_multiset() == spec_completions(
                registry@.unit_defs.take(i as int),
                prefix@,
            ).to_multiset(),
            forall|j: int|
                0 <= j < result@.len() ==> spec_completes(#[trigger] result@[j].display@, prefix@)
                    && result@[j].insert@ == result@[j].display@.subrange(
                    prefix@.len() as int,
                    result@[j].display@.len() as int,
                ),
        decreases registry.unit_defs@.len() - i,
    {
        broadcast use vstd::seq_lib::group_to_multiset_ensures;

        let ghost taken = registry@.unit_defs.take(i as int);
        let entry = &registry.unit_defs[i];
        proof {
            assert(registry@.unit_defs[i as int] == entry@);
            assert(registry@.unit_defs.take(i + 1) =~= taken.push(entry@));
            lemma_completions_snoc(taken, entry@, prefix@);
        }
        let name = entry.singular.as_str();
        if str_starts_with(name, prefix) && !str_eq(name, prefix) {
            let nlen = name.unicode_len();
            let insert_text = name.substring_char(plen, nlen);
            let c = Completion { display: entry.singular.clone(), insert: String::from_str(
                insert_text,
            ) };
            let ghost before = result@;
            proof {
                assert(c@ == spec_completion_of(entry@.singular, prefix@));
            }
            insert_sorted(&mut result, c);
            proof {
                let k = choose|k: int| 0 <= k <= before.len() && result@ == before.insert(k, c);
                lemma_views_insert(before, k, c);
                lemma_to_multiset_insert(views_of(before), k, c@);
                assert(spec_completions(taken, prefix@) + seq![spec_completion_of(
                    entry@.singular,
                    prefix@,
                )] =~= spec_completions(taken, prefix@).push(c@));
                assert(views_of(result@).to_multiset() == spec_completions(
                    registry@.unit_defs.take(i + 1),
                    prefix@,
                ).to_multiset());
                assert forall|j: int| 0 <= j < result@.len() implies spec_completes(
                    #[trigger] result@[j].display@,
                    prefix@,
                ) && result@[j].insert@ == result@[j].display@.subrange(
                    prefix@.len() as int,
                    result@[j].display@.len() as int,
                ) by {
                    if result@[j] != c {
                        assert(before.contains(result@[j]));
                    }
                }
            }
        } else {
            proof {
                assert(spec_completions(taken, prefix@) + Seq::<CompletionV>::empty()
                    =~= spec_completions(taken, prefix@));
            }
        }
        i += 1;
    }
    proof {
        assert(registry@.unit_defs.take(registry.unit_defs@.len() as int)
            =~= registry@.unit_defs);
    }
    result
}

/// Exact-match precedence: if the whole identifier resolves without a
/// prefix, resolution returns that entry's value, regardless of whether a
/// valid prefix/base decomposition of the same string also exists — the
/// scan is never consulted.
pub proof fn lemma_exact_match_precedence(ident: Seq<char>, case_sensitive: bool, ctx: ContextV)
    ensures
        spec_query_unit_internal(ident, false, case_sensitive, ctx) matches Ok(u)
            ==> spec_query_unit_case_sensitive(ident, case_sensitive, ctx) == Ok::<
            ValueV,
            ErrorV,
        >(u.value),
{
}

/// Case fallback ordering: a case-sensitive success stands; only a
/// case-sensitive not-found falls back to the case-insensitive pass, whose
/// outcome (including its own fallback to prefix decomposition) is then
/// the overall outcome.
pub proof fn lemma_case_fallback(ident: Seq<char>, ctx: ContextV)
    ensures
        spec_query_unit_case_sensitive(ident, true, ctx) matches Ok(v)
            ==> spec_query_unit_static(ident, ctx) == Ok::<ValueV, ErrorV>(v),
        (spec_query_unit_case_sensitive(ident, true, ctx) matches Err(e) && e
            is IdentifierNotFound) ==> spec_query_unit_static(ident, ctx)
            == spec_query_unit_case_sensitive(ident, false, ctx),
{
}

/// Prefix compatibility: at a split point where both sides individually
/// resolve, the scan is terminal. A compatible pair — exactly a long
/// prefix on a long-prefix-allowed base or a short prefix on a
/// short-prefix-allowed base — constructs the compound unit; any other
/// pairing fails with not-found for the original, undecomposed
/// identifier, and no further split point is consulted.
pub proof fn lemma_prefix_compatibility(
    ident: Seq<char>,
    case_sensitive: bool,
    ctx: ContextV,
    i: int,
    a: UnitDefV,
    b: UnitDefV,
)
    requires
        1 <= i < ident.len(),
        spec_query_unit_internal(ident.subrange(0, i), true, case_sensitive, ctx) == Ok::<
            UnitDefV,
            ErrorV,
        >(a),
        spec_query_unit_internal(ident.subrange(i, ident.len() as int), false, case_sensitive, ctx)
            == Ok::<UnitDefV, ErrorV>(b),
    ensures
        spec_compatible(a.prefix_rule, b.prefix_rule) ==> spec_prefix_scan(
            ident,
            case_sensitive,
            ctx,
            i,
        ) == spec_construct_prefixed(a, b),
        !spec_compatible(a.prefix_rule, b.prefix_rule) ==> spec_prefix_scan(
            ident,
            case_sensitive,
            ctx,
            i,
        ) == Err::<ValueV, ErrorV>(ErrorV::IdentifierNotFound(ident)),
{
}

/// Splitting safety: every split point the scan considers lies strictly
/// inside the identifier, measured in characters, so neither side of a
/// split is empty and the two sides reassemble the identifier exactly.
/// Splitting at character indices can never cut a multi-byte character.
pub proof fn lemma_split_bounds(ident: Seq<char>, i: int)
    requires
        1 <= i < ident.len(),
    ensures
        ident.subrange(0, i).len() > 0,
        ident.subrange(i, ident.len() as int).len() > 0,
        ident.subrange(0, i) + ident.subrange(i, ident.len() as int) == ident,
{
    assert(ident.subrange(0, i) + ident.subrange(i, ident.len() as int) =~= ident);
}

/// Quoted literal unit: a quoted identifier resolves to a base unit named
/// by its inner text, for every context — the registry is never
/// consulted, so the outcome is the same even if the inner text also
/// exists as a registered unit.
pub proof fn lemma_quoted_literal(ident: Seq<char>, ctx: ContextV)
    requires
        spec_quoted(ident),
    ensures
        spec_query_unit(ident, ctx) == Ok::<ValueV, ErrorV>(
            ValueV::Num(
                spec_base_unit(
                    ident.subrange(1, ident.len() - 1),
                    ident.subrange(1, ident.len() - 1),
                ),
            ),
        ),
{
}

/// Compound construction correctness: combining a prefix of magnitude `p`
/// with a base of magnitude `b` yields a quantity of magnitude `p * b`,
/// carrying the base's dimensions alongside the prefix's, displayed under
/// the prefix's singular and the base's singular and plural forms. The
/// magnitudes' product must fit the machine representation; past it the
/// construction raises the value-range error instead.
pub proof fn lemma_compound_magnitude(a: UnitDefV, b: UnitDefV, na: NumberV, nb: NumberV)
    requires
        a.value == ValueV::Num(na),
        b.value == ValueV::Num(nb),
        !crate::num::spec_rat_mul_overflows(na.value, nb.value),
    ensures
        match spec_construct_prefixed(a, b) {
            Ok(v) => match v {
                ValueV::Num(n) => n.value == crate::num::spec_rat_mul(na.value, nb.value)
                    && n.dims == na.dims + nb.dims && n.prefix == a.singular && n.singular
                    == b.singular && n.plural == b.plural,
                ValueV::Other => false,
            },
            Err(_) => false,
        },
{
}

/// Ambiguous symbol mode switch: `C` and `F` are resolved by the context's
/// mode flag, before and instead of any table lookup — under
/// Celsius/Fahrenheit mode they are the temperature-scale aliases, under
/// the default mode the short-prefix-allowed coulomb and farad.
pub proof fn lemma_ambiguous_symbol_mode(
    short_prefixes: bool,
    case_sensitive: bool,
    ctx: ContextV,
)
    ensures
        ctx.fc_mode == FCMode::CelsiusFahrenheit ==> spec_query_unit_internal(
            "C"@,
            short_prefixes,
            case_sensitive,
            ctx,
        ) == spec_expr_unit("C"@, "C"@, "=\u{b0}C"@, ctx),
        ctx.fc_mode != FCMode::CelsiusFahrenheit ==> spec_query_unit_internal(
            "C"@,
            short_prefixes,
            case_sensitive,
            ctx,
        ) == spec_expr_unit("C"@, "C"@, "s@coulomb"@, ctx),
        ctx.fc_mode == FCMode::CelsiusFahrenheit ==> spec_query_unit_internal(
            "F"@,
            short_prefixes,
            case_sensitive,
            ctx,
        ) == spec_expr_unit("F"@, "F"@, "=\u{b0}F"@, ctx),
        ctx.fc_mode != FCMode::CelsiusFahrenheit ==> spec_query_unit_internal(
            "F"@,
            short_prefixes,
            case_sensitive,
            ctx,
        ) == spec_expr_unit("F"@, "F"@, "s@farad"@, ctx),
{
    reveal_strlit("C");
    reveal_strlit("F");
    assert("F"@ != "C"@) by {
        assert("F"@[0] == 'F');
        assert("C"@[0] == 'C');
    }
}

} // verus!
