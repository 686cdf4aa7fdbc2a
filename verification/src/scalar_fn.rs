//! A small expression language for scalar functions of one real variable.
//!
//! Distributions carry their density and their transform as values of this
//! type, so that integration strategies can evaluate them anywhere and so
//! that composing a further transform is a plain data operation.

use vstd::prelude::*;
use crate::fixed::{fx_add, fx_mul, chk, mul_val, opt_eq, SCALE};

verus! {

/// A scalar function of one fixed-point variable.
pub enum ScalarFn {
    /// The identity, x.
    X,
    /// A constant.
    Const(i64),
    /// Pointwise sum of two functions.
    Sum(Box<ScalarFn>, Box<ScalarFn>),
    /// Pointwise product of two functions.
    Product(Box<ScalarFn>, Box<ScalarFn>),
    /// Composition: the first function applied to the value of the second.
    Compose(Box<ScalarFn>, Box<ScalarFn>),
    /// 1.0 on `lo <= x < hi`, 0.0 elsewhere.
    Indicator { lo: i64, hi: i64 },
}

/// The value of a scalar function at `x`, with every fixed-point step
/// checked; `None` is an out-of-range (non-finite) result.
pub open spec fn eval_scalar_spec(f: ScalarFn, x: int) -> Option<int>
    decreases f,
{
    match f {
        ScalarFn::X => Some(x),
        ScalarFn::Const(c) => Some(c as int),
        ScalarFn::Sum(a, b) => match (eval_scalar_spec(*a, x), eval_scalar_spec(*b, x)) {
            (Some(va), Some(vb)) => chk(va + vb),
            _ => None,
        },
        ScalarFn::Product(a, b) => match (eval_scalar_spec(*a, x), eval_scalar_spec(*b, x)) {
            (Some(va), Some(vb)) => chk(mul_val(va, vb)),
            _ => None,
        },
        ScalarFn::Compose(outer, inner) => match eval_scalar_spec(*inner, x) {
            Some(v) => eval_scalar_spec(*outer, v),
            None => None,
        },
        ScalarFn::Indicator { lo, hi } => Some(if lo <= x < hi { SCALE as int } else { 0 }),
    }
}

/// The pointwise product of two functions, as a value.
pub open spec fn product_of(f: ScalarFn, g: ScalarFn) -> ScalarFn {
    ScalarFn::Product(Box::new(f), Box::new(g))
}

/// The composition `outer` after `inner`, as a value.
pub open spec fn compose_of(outer: ScalarFn, inner: ScalarFn) -> ScalarFn {
    ScalarFn::Compose(Box::new(outer), Box::new(inner))
}

/// The squaring function, x * x.
pub open spec fn square_fn() -> ScalarFn {
    ScalarFn::Product(Box::new(ScalarFn::X), Box::new(ScalarFn::X))
}

impl ScalarFn {
    /// Evaluate the function at `x`.
    pub fn eval(&self, x: i64) -> (r: Option<i64>)
        ensures
            opt_eq(r, eval_scalar_spec(*self, x as int)),
        decreases *self,
    {
        match self {
            ScalarFn::X => Some(x),
            ScalarFn::Const(c) => Some(*c),
            ScalarFn::Sum(a, b) => match a.eval(x) {
                Some(va) => match b.eval(x) {
                    Some(vb) => fx_add(va, vb),
                    None => None,
                },
                None => None,
            },
            ScalarFn::Product(a, b) => match a.eval(x) {
                Some(va) => match b.eval(x) {
                    Some(vb) => fx_mul(va, vb),
                    None => None,
                },
                None => None,
            },
            ScalarFn::Compose(outer, inner) => match inner.eval(x) {
                Some(v) => outer.eval(v),
                None => None,
            },
            ScalarFn::Indicator { lo, hi } => {
                if *lo <= x && x < *hi {
                    Some(SCALE)
                } else {
                    Some(0)
                }
            },
        }
    }
}

impl Clone for ScalarFn {
    /// A deep copy; the copy denotes the same function.
    fn clone(&self) -> (r: Self)
        ensures
            r == *self,
        decreases *self,
    {
        match self {
            ScalarFn::X => ScalarFn::X,
            ScalarFn::Const(c) => ScalarFn::Const(*c),
            ScalarFn::Sum(a, b) => ScalarFn::Sum(Box::new((**a).clone()), Box::new((**b).clone())),
            ScalarFn::Product(a, b) => ScalarFn::Product(Box::new((**a).clone()), Box::new((**b).clone())),
            ScalarFn::Compose(a, b) => ScalarFn::Compose(Box::new((**a).clone()), Box::new((**b).clone())),
            ScalarFn::Indicator { lo, hi } => ScalarFn::Indicator { lo: *lo, hi: *hi },
        }
    }
}

} // verus!
