//! Quantity values and the numeric error taxonomy.
//!
//! A quantity is an exact rational magnitude tagged with a unit shape: the
//! base dimensions it is made of, and the display names (an optional
//! prefix, a singular and a plural form) it was assembled under. The
//! taxonomy defines the closed set of domain errors every arithmetic
//! operation of the calculator can raise.

use vstd::prelude::*;
use vstd::string::*;
use crate::error::FendError;
use crate::interrupt::Interrupt;
use crate::strutil::concat_str;

verus! {

/// An exact non-negative rational magnitude. The multiplicative identity is
/// `1 / 1`; a well-formed magnitude has a non-zero denominator.
#[derive(Clone, Copy, PartialEq, Eq, Structural, Debug)]
pub struct Rational {
    pub num: u64,
    pub den: u64,
}

/// Raised by any division whose divisor is the additive identity.
#[derive(Clone, Copy, PartialEq, Eq, Structural, Debug)]
pub struct DivideByZero {}

/// Domain errors of integer exponentiation.
#[derive(Clone, Copy, PartialEq, Eq, Structural, Debug)]
pub enum IntegerPowerError {
    /// The exponent exceeds the safe bound for repeated multiplication.
    ExponentTooLarge,
    /// Zero to the power of zero is explicitly undefined.
    ZeroToThePowerOfZero,
}

/// Raised when a computed or requested value exceeds an allowed maximum;
/// carries the displayable rendering of that maximum.
#[derive(Debug)]
pub struct ValueTooLarge {
    pub max_allowed: String,
}

impl DivideByZero {
    pub fn message(&self) -> (r: String)
        ensures
            r@ == "Division by zero"@,
    {
        String::from_str("Division by zero")
    }
}

impl IntegerPowerError {
    pub fn message(&self) -> (r: String)
        ensures
            r@ == match self {
                IntegerPowerError::ExponentTooLarge => "Exponent too large"@,
                IntegerPowerError::ZeroToThePowerOfZero => "Zero to the power of zero is undefined"@,
            },
    {
        match self {
            IntegerPowerError::ExponentTooLarge => String::from_str("Exponent too large"),
            IntegerPowerError::ZeroToThePowerOfZero => String::from_str(
                "Zero to the power of zero is undefined",
            ),
        }
    }
}

impl ValueTooLarge {
    pub fn new(max_allowed: String) -> (r: ValueTooLarge)
        ensures
            r.max_allowed == max_allowed,
    {
        ValueTooLarge { max_allowed }
    }

    pub fn message(&self) -> (r: String)
        ensures
            r@ == "Value must be less than or equal to "@ + self.max_allowed@,
    {
        concat_str("Value must be less than or equal to ", self.max_allowed.as_str())
    }
}

impl Rational {
    /// The multiplicative identity.
    pub fn one() -> (r: Rational)
        ensures
            r == (Rational { num: 1u64, den: 1u64 }),
    {
        Rational { num: 1, den: 1 }
    }

    /// Build `num / den`; a zero divisor is a division-by-zero error.
    pub fn new(num: u64, den: u64) -> (r: Result<Rational, DivideByZero>)
        ensures
            den == 0 ==> r is Err,
            den >= 1 ==> r == Ok::<Rational, DivideByZero>(Rational { num, den }),
    {
        if den == 0 {
            Err(DivideByZero {})
        } else {
            Ok(Rational { num, den })
        }
    }
}

/// The product of two magnitudes does not fit in the machine
/// representation.
pub open spec fn spec_rat_mul_overflows(a: Rational, b: Rational) -> bool {
    a.num * b.num > u64::MAX || a.den * b.den > u64::MAX
}

/// Product of two magnitudes, on inputs where it fits.
pub open spec fn spec_rat_mul(a: Rational, b: Rational) -> Rational {
    Rational { num: (a.num * b.num) as u64, den: (a.den * b.den) as u64 }
}

/// The mathematical shape of a quantity: a magnitude, the base dimensions
/// it carries in assembly order, and the display names.
pub struct NumberV {
    pub value: Rational,
    pub dims: Seq<Seq<char>>,
    pub prefix: Seq<char>,
    pub singular: Seq<char>,
    pub plural: Seq<char>,
}

/// A quantity value: an exact magnitude tagged with a unit shape.
#[derive(Debug)]
pub struct Number {
    pub value: Rational,
    pub dims: Vec<String>,
    pub prefix: String,
    pub singular: String,
    pub plural: String,
}

impl View for Number {
    type V = NumberV;

    open spec fn view(&self) -> NumberV {
        NumberV {
            value: self.value,
            dims: self.dims.deep_view(),
            prefix: self.prefix@,
            singular: self.singular@,
            plural: self.plural@,
        }
    }
}

/// A base unit of magnitude one whose single dimension is itself.
pub open spec fn spec_base_unit(singular: Seq<char>, plural: Seq<char>) -> NumberV {
    NumberV {
        value: Rational { num: 1u64, den: 1u64 },
        dims: seq![singular],
        prefix: Seq::empty(),
        singular,
        plural,
    }
}

/// Rescope a quantity to the display names `(prefix, singular, plural)`,
/// keeping its magnitude and dimensions.
pub open spec fn spec_create_unit(
    v: NumberV,
    prefix: Seq<char>,
    singular: Seq<char>,
    plural: Seq<char>,
) -> NumberV {
    NumberV { value: v.value, dims: v.dims, prefix, singular, plural }
}

/// Product of two quantities: magnitudes multiply, dimensions concatenate,
/// and the product carries no display name of its own. Overflow of the
/// machine representation is a value-range error.
pub open spec fn spec_number_mul(a: NumberV, b: NumberV) -> Result<NumberV, crate::error::ErrorV> {
    if spec_rat_mul_overflows(a.value, b.value) {
        Err(crate::error::ErrorV::ValueTooLarge("18446744073709551615"@))
    } else {
        Ok(
            NumberV {
                value: spec_rat_mul(a.value, b.value),
                dims: a.dims + b.dims,
                prefix: Seq::empty(),
                singular: Seq::empty(),
                plural: Seq::empty(),
            },
        )
    }
}

impl Number {
    /// Construct a quantity of magnitude one whose unit shape is a fresh
    /// fundamental dimension named by its own singular form.
    pub fn new_base_unit(singular: String, plural: String) -> (n: Number)
        ensures
            n@ == spec_base_unit(singular@, plural@),
    {
        let mut dims: Vec<String> = Vec::new();
        let ghost s = singular@;
        dims.push(singular.clone());
        proof {
            assert(dims.deep_view() =~= seq![s]);
        }
        Number { value: Rational::one(), dims, prefix: String::new(), singular, plural }
    }

    /// Wrap an existing quantity as one unit of `(prefix, singular,
    /// plural)`: the value of the expression becomes one unit of the new
    /// name. Interruptible.
    pub fn create_unit_value_from_value<I: Interrupt>(
        v: &Number,
        prefix: String,
        singular: String,
        plural: String,
        intr: &mut I,
    ) -> (res: Result<Number, FendError>)
        ensures
            crate::error::is_interrupt(res) || (res matches Ok(n) && n@ == spec_create_unit(
                v@,
                prefix@,
                singular@,
                plural@,
            )),
            old(intr).never_signals() ==> final (intr).never_signals(),
            old(intr).never_signals() ==> !crate::error::is_interrupt(res),
            old(intr).signalled() ==> crate::error::is_interrupt(res),
    {
        proof {
            intr.lemma_never_signals();
        }
        if intr.test() {
            return Err(FendError::Interrupt);
        }
        Ok(Number { value: v.value, dims: clone_dims(&v.dims), prefix, singular, plural })
    }

    /// Multiply two quantities. Interruptible; overflow of the magnitude
    /// representation is a value-range error.
    pub fn mul<I: Interrupt>(self, rhs: Number, intr: &mut I) -> (res: Result<Number, FendError>)
        ensures
            crate::error::is_interrupt(res) || (match spec_number_mul(self@, rhs@) {
                Ok(n) => res matches Ok(p) && p@ == n,
                Err(e) => res matches Err(q) && q@ == e,
            }),
            old(intr).never_signals() ==> final (intr).never_signals(),
            old(intr).never_signals() ==> !crate::error::is_interrupt(res),
            old(intr).signalled() ==> crate::error::is_interrupt(res),
    {
        proof {
            intr.lemma_never_signals();
        }
        if intr.test() {
            return Err(FendError::Interrupt);
        }
        let ghost a_v = self@;
        let ghost b_v = rhs@;
        let num = self.value.num.checked_mul(rhs.value.num);
        let den = self.value.den.checked_mul(rhs.value.den);
        match (num, den) {
            (Some(num), Some(den)) => {
                let mut dims = self.dims;
                let mut rhs_dims = rhs.dims;
                dims.append(&mut rhs_dims);
                proof {
                    assert(dims.deep_view() =~= a_v.dims + b_v.dims);
                }
                Ok(
                    Number {
                        value: Rational { num, den },
                        dims,
                        prefix: String::new(),
                        singular: String::new(),
                        plural: String::new(),
                    },
                )
            },
            _ => Err(
                FendError::ValueTooLarge(
                    ValueTooLarge { max_allowed: String::from_str("18446744073709551615") },
                ),
            ),
        }
    }

    /// The magnitude of this quantity, relative to its base dimensions.
    pub fn magnitude(&self) -> (r: Rational)
        ensures
            r == self@.value,
    {
        self.value
    }
}

/// Copy a dimension list.
fn clone_dims(dims: &Vec<String>) -> (r: Vec<String>)
    ensures
        r.deep_view() == dims.deep_view(),
{
    let mut r: Vec<String> = Vec::new();
    let mut i: usize = 0;
    while i < dims.len()
        invariant
            i <= dims.len(),
            r.deep_view() =~= dims.deep_view().take(i as int),
        decreases dims.len() - i,
    {
        let ghost prev = r.deep_view();
        let cloned = dims[i].clone();
        r.push(cloned);
        proof {
            assert(r.deep_view() =~~= prev.push(dims.deep_view()[i as int]));
            assert(r.deep_view() =~~= dims.deep_view().take(i + 1));
        }
        i += 1;
    }
    proof {
        assert(dims.deep_view().take(dims.len() as int) =~= dims.deep_view());
    }
    r
}

/// A value handed back by the expression evaluator: a quantity, or some
/// evaluator result that is not a number.
#[derive(Debug)]
pub enum Value {
    Num(Number),
    Other,
}

/// The mathematical shape of a `Value`.
pub enum ValueV {
    Num(NumberV),
    Other,
}

impl View for Value {
    type V = ValueV;

    open spec fn view(&self) -> ValueV {
        match self {
            Value::Num(n) => ValueV::Num(n@),
            Value::Other => ValueV::Other,
        }
    }
}

impl Value {
    /// Insist that the value is a number.
    pub fn expect_num(self) -> (res: Result<Number, FendError>)
        ensures
            match self@ {
                ValueV::Num(n) => res matches Ok(p) && p@ == n,
                ValueV::Other => res matches Err(e) && e@ is ExpectedANumber,
            },
    {
        match self {
            Value::Num(n) => Ok(n),
            Value::Other => Err(FendError::ExpectedANumber),
        }
    }
}

/// Copy a value.
pub fn clone_value(v: &Value) -> (r: Value)
    ensures
        r@ == v@,
{
    match v {
        Value::Num(n) => Value::Num(
            Number {
                value: n.value,
                dims: clone_dims(&n.dims),
                prefix: n.prefix.clone(),
                singular: n.singular.clone(),
                plural: n.plural.clone(),
            },
        ),
        Value::Other => Value::Other,
    }
}

/// What a cancellation-aware renderer reports, alongside the text it
/// accumulated: an auxiliary result on success, a narrow rendering failure,
/// or a cancellation signal.
pub enum RenderResult<R> {
    Rendered(R),
    Failed,
    Interrupted,
}

/// Execute a fallible, cancellation-aware rendering function and recover
/// its real outcome. The renderer is handed an empty buffer, appends its
/// text, and reports a `RenderResult`; a narrow rendering failure is a
/// precondition violation (the infallible rendering contract underneath has
/// no way to raise it), while a cancellation is carried out of the render
/// as the cancellation outcome, discarding the partial text.
pub fn to_string<R, F: Fn(String) -> (String, RenderResult<R>)>(func: F) -> (res: Result<
    (String, R),
    FendError,
>)
    requires
        forall|buf: String| buf@ == Seq::<char>::empty() ==> call_requires(func, (buf,)),
        forall|buf: String, out: (String, RenderResult<R>)|
            call_ensures(func, (buf,), out) ==> !(out.1 is Failed),
    ensures
        match res {
            Ok(p) => exists|buf: String|
                buf@ == Seq::<char>::empty() && call_ensures(
                    func,
                    (buf,),
                    (p.0, RenderResult::Rendered(p.1)),
                ),
            Err(e) => e@ is Interrupt && exists|buf: String, text: String|
                buf@ == Seq::<char>::empty() && call_ensures(
                    func,
                    (buf,),
                    (text, RenderResult::Interrupted),
                ),
        },
{
    let buf = String::new();
    let ghost gbuf = buf;
    let (text, outcome) = func(buf);
    match outcome {
        RenderResult::Rendered(r) => Ok((text, r)),
        RenderResult::Interrupted => Err(FendError::Interrupt),
        RenderResult::Failed => {
            proof {
                assert(false);
            }
            vstd::pervasive::unreached()
        },
    }
}

} // verus!
