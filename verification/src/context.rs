//! The variable context: named values and named predicates that guards are
//! evaluated against. The values live in an `evalexpr::HashMapContext`, and
//! `evalexpr` evaluates the guards.

use crate::guard::{calls_shift, calls_shift_function, exact_guard};
use evalexpr::{ContextWithMutableFunctions, ContextWithMutableVariables};
use vstd::prelude::*;

verus! {

/// A value that a variable can hold.
#[derive(Debug, Clone, PartialEq)]
pub enum Value {
    Int(i64),
    /// A double-precision number, given by its IEEE 754 bit pattern.
    Float(u64),
    Boolean(bool),
    Text(String),
}

/// The mathematical value of a [`Value`].
pub enum ValueView {
    Int(i64),
    Float(u64),
    Boolean(bool),
    Text(Seq<char>),
}

impl View for Value {
    type V = ValueView;

    open spec fn view(&self) -> ValueView {
        match self {
            Value::Int(v) => ValueView::Int(*v),
            Value::Float(bits) => ValueView::Float(*bits),
            Value::Boolean(v) => ValueView::Boolean(*v),
            Value::Text(s) => ValueView::Text(s@),
        }
    }
}

/// Whether two values are of the same kind.
pub open spec fn same_kind(a: ValueView, b: ValueView) -> bool {
    match (a, b) {
        (ValueView::Int(_), ValueView::Int(_)) => true,
        (ValueView::Float(_), ValueView::Float(_)) => true,
        (ValueView::Boolean(_), ValueView::Boolean(_)) => true,
        (ValueView::Text(_), ValueView::Text(_)) => true,
        _ => false,
    }
}

/// The variables after `name` has been assigned `value`. A variable keeps the
/// kind of its first value: assigning a value of another kind changes
/// nothing.
pub open spec fn assigned(
    variables: Map<Seq<char>, ValueView>,
    name: Seq<char>,
    value: ValueView,
) -> Map<Seq<char>, ValueView> {
    if variables.contains_key(name) && !same_kind(variables[name], value) {
        variables
    } else {
        variables.insert(name, value)
    }
}

/// No variables.
pub open spec fn no_variables() -> Map<Seq<char>, ValueView> {
    Map::empty()
}

/// No predicates.
pub open spec fn no_predicates() -> Map<Seq<char>, bool> {
    Map::empty()
}

/// `evalexpr::HashMapContext`: the store of variables and functions that
/// expressions are evaluated against. What it holds is named by
/// [`context_variables`] and [`context_predicates`].
#[verifier::external_type_specification]
#[verifier::external_body]
pub struct ExHashMapContext(evalexpr::HashMapContext);

/// The variables that a context holds, by name.
pub uninterp spec fn context_variables(context: evalexpr::HashMapContext) -> Map<Seq<char>, ValueView>;

/// The predicates that a context holds, by name: functions that ignore their
/// argument and return the given truth value.
pub uninterp spec fn context_predicates(context: evalexpr::HashMapContext) -> Map<Seq<char>, bool>;

/// What `evalexpr` makes of a boolean expression over the given variables and
/// predicates: its truth value, `None` where the text does not parse, fails
/// to evaluate or evaluates to something that is no boolean.
pub uninterp spec fn guard_value(
    expression: Seq<char>,
    variables: Map<Seq<char>, ValueView>,
    predicates: Map<Seq<char>, bool>,
) -> Option<bool>;

/// `evalexpr::HashMapContext::new`: a context that holds nothing.
#[verifier::external_body]
fn context_new() -> (created: evalexpr::HashMapContext)
    ensures
        context_variables(created) == no_variables(),
        context_predicates(created) == no_predicates(),
{
    evalexpr::HashMapContext::new()
}

/// `evalexpr::ContextWithMutableVariables::set_value` on a `HashMapContext`:
/// inserts the variable, or overwrites it where the old value is of the same
/// kind; where it is of another kind the call fails and the context stays as
/// it is. The functions of the context are not touched.
#[verifier::external_body]
fn context_set(context: &mut evalexpr::HashMapContext, name: String, value: Value)
    ensures
        context_variables(*final(context)) == assigned(
            context_variables(*old(context)),
            name@,
            value@,
        ),
        context_predicates(*final(context)) == context_predicates(*old(context)),
{
    let converted = match value {
        Value::Int(v) => evalexpr::Value::Int(v),
        Value::Float(bits) => evalexpr::Value::Float(evalexpr::FloatType::from_bits(bits)),
        Value::Boolean(v) => evalexpr::Value::Boolean(v),
        Value::Text(s) => evalexpr::Value::String(s),
    };
    let _ = context.set_value(name, converted);
}

/// `evalexpr::ContextWithMutableFunctions::set_function` on a
/// `HashMapContext`, with a function that returns `holds` whatever its
/// argument: inserts or replaces the function of that name. The variables of
/// the context are not touched.
#[verifier::external_body]
fn context_set_predicate(context: &mut evalexpr::HashMapContext, name: String, holds: bool)
    ensures
        context_predicates(*final(context)) == context_predicates(*old(context)).insert(
            name@,
            holds,
        ),
        context_variables(*final(context)) == context_variables(*old(context)),
{
    let constant = evalexpr::Function::new(move |_| Ok(evalexpr::Value::Boolean(holds)));
    let _ = context.set_function(name, constant);
}

/// `evalexpr::eval_boolean_with_context`: parses the expression and evaluates
/// it against the context, which it does not change. A text that calls no
/// shift function reaches nothing that can overflow. What an exact guard
/// evaluates to depends on its text and on what the context holds alone, and
/// is named by [`guard_value`]; of any other guard nothing is claimed, since
/// the power operator and the math functions are as precise as the platform
/// makes them.
#[verifier::external_body]
fn context_evaluate(context: &evalexpr::HashMapContext, expression: &str) -> (outcome: Option<bool>)
    requires
        !calls_shift(expression@),
    ensures
        exact_guard(expression@) ==> outcome == guard_value(
            expression@,
            context_variables(*context),
            context_predicates(*context),
        ),
{
    evalexpr::eval_boolean_with_context(expression, context).ok()
}

/// Whether the outcome of an evaluation lets a guard pass: only the truth
/// value true does.
pub open spec fn passes(outcome: Option<bool>) -> bool {
    outcome == Some(true)
}

/// Whether `truth` can be what a guard comes to. A guard that calls a shift
/// function is not evaluated and comes to false. An exact guard comes to
/// true exactly where it evaluates to true. Any other guard comes to what
/// the evaluator makes of it on the platform.
pub open spec fn admits(
    expression: Seq<char>,
    variables: Map<Seq<char>, ValueView>,
    predicates: Map<Seq<char>, bool>,
    truth: bool,
) -> bool {
    if calls_shift(expression) {
        !truth
    } else if exact_guard(expression) {
        truth == passes(guard_value(expression, variables, predicates))
    } else {
        true
    }
}

/// Tells whether the outcome of an evaluation lets a guard pass. A guard that
/// failed to evaluate counts as false.
pub fn outcome_passes(outcome: Option<bool>) -> (pass: bool)
    ensures
        pass == passes(outcome),
{
    match outcome {
        Some(truth) => truth,
        None => false,
    }
}

/// Named values and predicates for guards to read.
#[derive(Debug)]
pub struct Context {
    inner: evalexpr::HashMapContext,
}

impl Context {
    /// The variables, by name.
    pub closed spec fn variables(&self) -> Map<Seq<char>, ValueView> {
        context_variables(self.inner)
    }

    /// The predicates, by name.
    pub closed spec fn predicates(&self) -> Map<Seq<char>, bool> {
        context_predicates(self.inner)
    }

    /// A context that holds nothing.
    pub fn new() -> (context: Self)
        ensures
            context.variables() == no_variables(),
            context.predicates() == no_predicates(),
    {
        Context { inner: context_new() }
    }

    /// Assigns a value to a variable. A variable that holds a value of
    /// another kind keeps it.
    pub fn set(&mut self, name: String, value: Value)
        ensures
            final(self).variables() == assigned(old(self).variables(), name@, value@),
            final(self).predicates() == old(self).predicates(),
    {
        context_set(&mut self.inner, name, value);
    }

    /// Defines a predicate: `name()` evaluates to `holds`.
    pub fn set_predicate(&mut self, name: String, holds: bool)
        ensures
            final(self).predicates() == old(self).predicates().insert(name@, holds),
            final(self).variables() == old(self).variables(),
    {
        context_set_predicate(&mut self.inner, name, holds);
    }

    /// Evaluates a guard. A text that fails to evaluate or that gives no
    /// boolean counts as false, and so does one that calls a shift function,
    /// which is not evaluated.
    pub fn holds(&self, expression: &str) -> (truth: bool)
        ensures
            admits(expression@, self.variables(), self.predicates(), truth),
    {
        if calls_shift_function(expression) {
            false
        } else {
            outcome_passes(context_evaluate(&self.inner, expression))
        }
    }
}

} // verus!
