//! The expression evaluator: an external service.  Everything here is
//! the trusted boundary around `rsheet_lib`'s evaluator; what is done
//! with an outcome is verified in `dispatch`.

use vstd::prelude::*;

use crate::values::CellValue;
use rsheet_lib::cell_value::CellValue as EvalValue;

verus! {

/// The evaluator's own value type, declared so that verified code can
/// carry its values through; what such a value holds is opaque here.
#[verifier::external_type_specification]
#[verifier::external_body]
pub struct ExEvalValue(EvalValue);

/// Relies on the constructors of `rsheet_lib`'s value enum (here named
/// `EvalValue`): rebuilds a cell value in the evaluator's own
/// representation, variant by variant.
#[verifier::external_body]
fn to_ext(v: &CellValue) -> EvalValue {
    match v {
        CellValue::Empty => EvalValue::None,
        CellValue::Int(i) => EvalValue::Int(*i),
        CellValue::Text(s) => EvalValue::String(s.clone()),
        CellValue::Error(m) => EvalValue::Error(m.clone()),
    }
}

/// Relies on the variants of `rsheet_lib`'s value enum (here named
/// `EvalValue`): brings a value of the evaluator's representation back,
/// variant by variant.
#[verifier::external_body]
fn from_ext(v: EvalValue) -> CellValue {
    match v {
        EvalValue::None => CellValue::Empty,
        EvalValue::Int(i) => CellValue::Int(i),
        EvalValue::String(s) => CellValue::Text(s),
        EvalValue::Error(m) => CellValue::Error(m),
    }
}

/// Relies on `rsheet_lib::cell_expr::CellExpr::{new, evaluate}`: compiles
/// the expression and evaluates it under the given bindings, with no
/// access to anything but them.  `evaluate` fails only when a binding's
/// value is an error; every other failure comes back as an error value.
/// Nothing is assumed of which outcome a call yields.
#[verifier::external_body]
fn eval_raw(
    expr: &str,
    vars: Vec<(String, EvalValue)>,
) -> Option<EvalValue> {
    let mut map = std::collections::HashMap::new();
    for (name, value) in vars {
        map.insert(name, rsheet_lib::cell_expr::CellArgument::Value(value));
    }
    match rsheet_lib::cell_expr::CellExpr::new(expr).evaluate(&map) {
        Ok(v) => Some(v),
        Err(rsheet_lib::cell_expr::CellExprEvalError::VariableDependsOnError) => None,
    }
}

/// Hands `expr` and the resolved bindings to the external evaluator and
/// returns its outcome: a value (which may itself be an error value), or
/// nothing where the evaluation failed outright.  The outcome is the
/// evaluator's alone; [`crate::dispatch::apply_eval_outcome`] says — and
/// proves — what the server does with every possible one.
pub fn evaluate(expr: &str, vars: Vec<(String, CellValue)>) -> Option<CellValue> {
    let mut ext_vars: Vec<(String, EvalValue)> = Vec::new();
    let mut i: usize = 0;
    while i < vars.len()
        decreases vars@.len() - i,
    {
        let p = &vars[i];
        ext_vars.push((p.0.clone(), to_ext(&p.1)));
        i = i + 1;
    }
    match eval_raw(expr, ext_vars) {
        Option::Some(v) => Option::Some(from_ext(v)),
        Option::None => Option::None,
    }
}

} // verus!
