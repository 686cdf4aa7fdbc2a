//! The curve-fitting engine.
//!
//! A `Function` is a parametric scalar model that reports, besides its
//! value, its partial derivative with respect to each parameter. `fit`
//! minimizes the summed squared residuals over a dataset by plain gradient
//! descent with a fixed iteration count; an update step that leaves the
//! representable range is reported as `OptimizerFailure`, never ignored.

use vstd::prelude::*;
use crate::error::FitError;
use crate::fixed::{chk, div_count, div_trunc, fits_i64, fx_mul, mul_val, opt_eq, SCALE};

verus! {

/// A sequence of raw values viewed as mathematical integers.
pub open spec fn ints(s: Seq<i64>) -> Seq<int> {
    s.map_values(|v: i64| v as int)
}

/// A sequence of raw pairs viewed as mathematical integer pairs.
pub open spec fn pairs(s: Seq<(i64, i64)>) -> Seq<(int, int)> {
    s.map_values(|p: (i64, i64)| (p.0 as int, p.1 as int))
}

pub proof fn lemma_ints_push(s: Seq<i64>, v: i64)
    ensures
        ints(s.push(v)) == ints(s).push(v as int),
{
    assert(ints(s.push(v)) =~= ints(s).push(v as int));
}

/// One noisy observation: `x` and `y` each carry their measured value
/// and the standard deviation reported for it.
#[derive(Clone, Copy)]
pub struct DataEntry {
    pub x: (i64, i64),
    pub y: (i64, i64),
}

impl DataEntry {
    /// From a bare measurement pair; each coordinate carries the implicit
    /// uncertainty 1.0.
    pub fn from_pair(x: i64, y: i64) -> (r: Self)
        ensures
            r.x == (x, SCALE),
            r.y == (y, SCALE),
    {
        DataEntry { x: (x, SCALE), y: (y, SCALE) }
    }

    /// From measured values with explicit per-coordinate uncertainties.
    pub fn with_uncertainties(x: i64, x_std_dev: i64, y: i64, y_std_dev: i64) -> (r: Self)
        ensures
            r.x == (x, x_std_dev),
            r.y == (y, y_std_dev),
    {
        DataEntry { x: (x, x_std_dev), y: (y, y_std_dev) }
    }
}

/// The default learning rate, 0.01 as a raw fixed-point value.
pub const DEFAULT_LEARNING_RATE: i64 = 10_000;

/// Optimizer hyperparameters for the gradient-descent update.
#[derive(Clone, Copy)]
pub struct SgdConfig {
    pub learning_rate: i64,
}

impl Default for SgdConfig {
    /// The configuration with the default learning rate.
    fn default() -> (r: Self)
        ensures
            r.learning_rate == DEFAULT_LEARNING_RATE,
    {
        SgdConfig { learning_rate: DEFAULT_LEARNING_RATE }
    }
}

/// A parametric scalar model `y = f(x, params)`, differentiable with
/// respect to its parameters: it reports its value and each partial
/// derivative, both as checked fixed-point computations.
pub trait Function {
    /// The number of parameters the model takes.
    spec fn dim(&self) -> nat;

    /// What `eval` computes; `None` is an out-of-range intermediate.
    spec fn eval_spec(&self, x: int, params: Seq<int>) -> Option<int>;

    /// What `grad` computes: the partial derivative of the model with
    /// respect to parameter `j`.
    spec fn grad_spec(&self, x: int, params: Seq<int>, j: int) -> Option<int>;

    /// The number of parameters, at run time.
    fn dim_exec(&self) -> (n: usize)
        ensures
            n as nat == self.dim(),
    ;

    /// The model value at `x`.
    fn eval(&self, x: i64, params: &Vec<i64>) -> (r: Option<i64>)
        requires
            params@.len() == self.dim(),
        ensures
            opt_eq(r, self.eval_spec(x as int, ints(params@))),
    ;

    /// The partial derivative with respect to parameter `j`, at `x`.
    fn grad(&self, x: i64, params: &Vec<i64>, j: usize) -> (r: Option<i64>)
        requires
            params@.len() == self.dim(),
            (j as nat) < self.dim(),
        ensures
            opt_eq(r, self.grad_spec(x as int, ints(params@), j as int)),
    ;
}

/// The one-parameter linear model `f(x, t) = t * x`.
pub struct LinearModel;

impl Function for LinearModel {
    open spec fn dim(&self) -> nat {
        1
    }

    open spec fn eval_spec(&self, x: int, params: Seq<int>) -> Option<int> {
        chk(mul_val(params[0], x))
    }

    open spec fn grad_spec(&self, x: int, params: Seq<int>, j: int) -> Option<int> {
        Some(x)
    }

    fn dim_exec(&self) -> usize {
        1
    }

    fn eval(&self, x: i64, params: &Vec<i64>) -> (r: Option<i64>) {
        fx_mul(params[0], x)
    }

    fn grad(&self, x: i64, params: &Vec<i64>, j: usize) -> (r: Option<i64>) {
        Some(x)
    }
}

/// Number of power-series terms `exp_fx` sums.
pub const EXP_TERMS: u64 = 16;

/// Term `k` of the fixed-point exponential series, `v^k / k!`, one checked
/// step from term `k - 1`.
pub open spec fn exp_term_spec(v: int, k: nat) -> Option<int>
    decreases k,
{
    if k == 0 {
        Some(SCALE as int)
    } else {
        match exp_term_spec(v, (k - 1) as nat) {
            None => None,
            Some(t) => {
                if !fits_i64(mul_val(t, v)) {
                    None
                } else {
                    Some(div_trunc(mul_val(t, v), k as int))
                }
            },
        }
    }
}

/// Checked partial sums of the exponential series.
pub open spec fn exp_sum_spec(v: int, k: nat) -> Option<int>
    decreases k,
{
    if k == 0 {
        Some(SCALE as int)
    } else {
        match (exp_sum_spec(v, (k - 1) as nat), exp_term_spec(v, k)) {
            (Some(s), Some(t)) => chk(s + t),
            _ => None,
        }
    }
}

pub proof fn lemma_exp_term_none(v: int, k1: nat, k2: nat)
    requires
        k1 <= k2,
        exp_term_spec(v, k1) is None,
    ensures
        exp_term_spec(v, k2) is None,
    decreases k2,
{
    if k1 < k2 {
        lemma_exp_term_none(v, k1, (k2 - 1) as nat);
    }
}

pub proof fn lemma_exp_sum_none(v: int, k1: nat, k2: nat)
    requires
        k1 <= k2,
        exp_sum_spec(v, k1) is None,
    ensures
        exp_sum_spec(v, k2) is None,
    decreases k2,
{
    if k1 < k2 {
        lemma_exp_sum_none(v, k1, (k2 - 1) as nat);
    }
}

/// `exp(v)` by the truncated power series with `EXP_TERMS` terms.
#[verifier::loop_isolation(false)]
pub fn exp_fx(v: i64) -> (r: Option<i64>)
    ensures
        opt_eq(r, exp_sum_spec(v as int, EXP_TERMS as nat)),
{
    let mut term: i64 = SCALE;
    let mut sum: i64 = SCALE;
    let mut k: u64 = 1;
    while k <= EXP_TERMS
        invariant
            1 <= k <= EXP_TERMS + 1,
            exp_term_spec(v as int, (k - 1) as nat) == Some(term as int),
            exp_sum_spec(v as int, (k - 1) as nat) == Some(sum as int),
        decreases EXP_TERMS + 1 - k,
    {
        let m = match fx_mul(term, v) {
            Some(m) => m,
            None => {
                proof {
                    lemma_exp_term_none(v as int, k as nat, EXP_TERMS as nat);
                }
                return None;
            },
        };
        term = div_count(m, k);
        sum = match sum.checked_add(term) {
            Some(s) => s,
            None => {
                proof {
                    lemma_exp_sum_none(v as int, k as nat, EXP_TERMS as nat);
                }
                return None;
            },
        };
        k = k + 1;
    }
    Some(sum)
}

/// The one-parameter exponential model `f(x, t) = exp(t * x)`, evaluated
/// by the truncated power series; its derivative is `x * f(x, t)`.
pub struct ExpModel;

impl Function for ExpModel {
    open spec fn dim(&self) -> nat {
        1
    }

    open spec fn eval_spec(&self, x: int, params: Seq<int>) -> Option<int> {
        if !fits_i64(mul_val(params[0], x)) {
            None
        } else {
            exp_sum_spec(mul_val(params[0], x), EXP_TERMS as nat)
        }
    }

    open spec fn grad_spec(&self, x: int, params: Seq<int>, j: int) -> Option<int> {
        match self.eval_spec(x, params) {
            None => None,
            Some(e) => chk(mul_val(x, e)),
        }
    }

    fn dim_exec(&self) -> usize {
        1
    }

    fn eval(&self, x: i64, params: &Vec<i64>) -> (r: Option<i64>) {
        let t = match fx_mul(params[0], x) {
            Some(t) => t,
            None => {
                return None;
            },
        };
        exp_fx(t)
    }

    fn grad(&self, x: i64, params: &Vec<i64>, j: usize) -> (r: Option<i64>) {
        match self.eval(x, params) {
            Some(e) => fx_mul(x, e),
            None => None,
        }
    }
}

/// The squared residual `(f(x) - y)^2` of one observation.
pub open spec fn sample_error_spec<F: Function>(f: F, e: (int, int), params: Seq<int>) -> Option<
    int,
> {
    match f.eval_spec(e.0, params) {
        None => None,
        Some(fx) => {
            if !fits_i64(fx - e.1) {
                None
            } else {
                chk(mul_val(fx - e.1, fx - e.1))
            }
        },
    }
}

/// The squared residual of one observation, as the loss sums it.
pub fn sample_error<F: Function>(entry: (i64, i64), f: &F, params: &Vec<i64>) -> (r: Option<i64>)
    requires
        params@.len() == f.dim(),
    ensures
        opt_eq(r, sample_error_spec(*f, (entry.0 as int, entry.1 as int), ints(params@))),
{
    let fx = match f.eval(entry.0, params) {
        Some(v) => v,
        None => {
            return None;
        },
    };
    let res = match fx.checked_sub(entry.1) {
        Some(v) => v,
        None => {
            return None;
        },
    };
    fx_mul(res, res)
}

/// Checked sum of the squared residuals of the first `k` observations.
pub open spec fn loss_prefix<F: Function>(
    f: F,
    data: Seq<(int, int)>,
    params: Seq<int>,
    k: nat,
) -> Option<int>
    decreases k,
{
    if k == 0 {
        Some(0)
    } else {
        match (loss_prefix(f, data, params, (k - 1) as nat), sample_error_spec(
            f,
            data[k - 1],
            params,
        )) {
            (Some(s), Some(t)) => chk(s + t),
            _ => None,
        }
    }
}

/// The total loss: the checked sum of squared residuals over the dataset.
pub open spec fn loss_spec<F: Function>(f: F, data: Seq<(int, int)>, params: Seq<int>) -> Option<
    int,
> {
    loss_prefix(f, data, params, data.len())
}

pub proof fn lemma_loss_prefix_none<F: Function>(
    f: F,
    data: Seq<(int, int)>,
    params: Seq<int>,
    k1: nat,
    k2: nat,
)
    requires
        k1 <= k2,
        loss_prefix(f, data, params, k1) is None,
    ensures
        loss_prefix(f, data, params, k2) is None,
    decreases k2,
{
    if k1 < k2 {
        lemma_loss_prefix_none(f, data, params, k1, (k2 - 1) as nat);
    }
}

/// The total loss over `dataset` at `params`; `None` is an out-of-range
/// intermediate value.
#[verifier::loop_isolation(false)]
pub fn loss<F: Function>(dataset: &Vec<(i64, i64)>, f: &F, params: &Vec<i64>) -> (r: Option<i64>)
    requires
        params@.len() == f.dim(),
    ensures
        opt_eq(r, loss_spec(*f, pairs(dataset@), ints(params@))),
{
    let mut acc: i64 = 0;
    let mut i: usize = 0;
    while i < dataset.len()
        invariant
            i <= dataset@.len(),
            loss_prefix(*f, pairs(dataset@), ints(params@), i as nat) == Some(acc as int),
        decreases dataset@.len() - i,
    {
        let e = dataset[i];
        let t = match sample_error(e, f, params) {
            Some(t) => t,
            None => {
                proof {
                    lemma_loss_prefix_none(
                        *f, pairs(dataset@), ints(params@), (i + 1) as nat, dataset@.len());
                }
                return None;
            },
        };
        acc = match acc.checked_add(t) {
            Some(s) => s,
            None => {
                proof {
                    lemma_loss_prefix_none(
                        *f, pairs(dataset@), ints(params@), (i + 1) as nat, dataset@.len());
                }
                return None;
            },
        };
        i = i + 1;
    }
    Some(acc)
}

/// One observation's contribution to the loss gradient at parameter `j`:
/// the residual times the partial derivative.
pub open spec fn grad_term_spec<F: Function>(
    f: F,
    e: (int, int),
    params: Seq<int>,
    j: int,
) -> Option<int> {
    match f.eval_spec(e.0, params) {
        None => None,
        Some(fx) => match f.grad_spec(e.0, params, j) {
            None => None,
            Some(g) => {
                if !fits_i64(fx - e.1) {
                    None
                } else {
                    chk(mul_val(fx - e.1, g))
                }
            },
        },
    }
}

/// Checked sum of the first `k` gradient contributions.
pub open spec fn grad_prefix<F: Function>(
    f: F,
    data: Seq<(int, int)>,
    params: Seq<int>,
    j: int,
    k: nat,
) -> Option<int>
    decreases k,
{
    if k == 0 {
        Some(0)
    } else {
        match (grad_prefix(f, data, params, j, (k - 1) as nat), grad_term_spec(
            f,
            data[k - 1],
            params,
            j,
        )) {
            (Some(s), Some(t)) => chk(s + t),
            _ => None,
        }
    }
}

pub proof fn lemma_grad_prefix_none<F: Function>(
    f: F,
    data: Seq<(int, int)>,
    params: Seq<int>,
    j: int,
    k1: nat,
    k2: nat,
)
    requires
        k1 <= k2,
        grad_prefix(f, data, params, j, k1) is None,
    ensures
        grad_prefix(f, data, params, j, k2) is None,
    decreases k2,
{
    if k1 < k2 {
        lemma_grad_prefix_none(f, data, params, j, k1, (k2 - 1) as nat);
    }
}

/// The loss gradient at parameter `j`: twice the summed contributions.
pub open spec fn grad_at_spec<F: Function>(
    f: F,
    data: Seq<(int, int)>,
    params: Seq<int>,
    j: int,
) -> Option<int> {
    match grad_prefix(f, data, params, j, data.len()) {
        None => None,
        Some(s) => chk(2 * s),
    }
}

/// Parameter `j` after one descent step: `params[j] - lr * gradient`.
pub open spec fn updated_param_spec<F: Function>(
    f: F,
    data: Seq<(int, int)>,
    params: Seq<int>,
    lr: int,
    j: int,
) -> Option<int> {
    match grad_at_spec(f, data, params, j) {
        None => None,
        Some(g) => {
            if !fits_i64(mul_val(lr, g)) {
                None
            } else {
                chk(params[j] - mul_val(lr, g))
            }
        },
    }
}

/// The first `k` parameters after one descent step; the whole gradient is
/// taken at the incoming `params`.
pub open spec fn step_prefix<F: Function>(
    f: F,
    data: Seq<(int, int)>,
    params: Seq<int>,
    lr: int,
    k: nat,
) -> Option<Seq<int>>
    decreases k,
{
    if k == 0 {
        Some(Seq::empty())
    } else {
        match (step_prefix(f, data, params, lr, (k - 1) as nat), updated_param_spec(
            f,
            data,
            params,
            lr,
            k - 1,
        )) {
            (Some(s), Some(v)) => Some(s.push(v)),
            _ => None,
        }
    }
}

/// One full gradient-descent step.
pub open spec fn step_spec<F: Function>(
    f: F,
    data: Seq<(int, int)>,
    params: Seq<int>,
    lr: int,
) -> Option<Seq<int>> {
    step_prefix(f, data, params, lr, params.len())
}

pub proof fn lemma_step_prefix_none<F: Function>(
    f: F,
    data: Seq<(int, int)>,
    params: Seq<int>,
    lr: int,
    k1: nat,
    k2: nat,
)
    requires
        k1 <= k2,
        step_prefix(f, data, params, lr, k1) is None,
    ensures
        step_prefix(f, data, params, lr, k2) is None,
    decreases k2,
{
    if k1 < k2 {
        lemma_step_prefix_none(f, data, params, lr, k1, (k2 - 1) as nat);
    }
}

pub proof fn lemma_step_prefix_len<F: Function>(
    f: F,
    data: Seq<(int, int)>,
    params: Seq<int>,
    lr: int,
    k: nat,
)
    requires
        step_prefix(f, data, params, lr, k) is Some,
    ensures
        step_prefix(f, data, params, lr, k)->Some_0.len() == k,
    decreases k,
{
    if k > 0 {
        lemma_step_prefix_len(f, data, params, lr, (k - 1) as nat);
    }
}

/// The parameters after `iters` descent steps; `None` if any step left
/// the representable range.
pub open spec fn fit_spec<F: Function>(
    f: F,
    data: Seq<(int, int)>,
    params: Seq<int>,
    lr: int,
    iters: nat,
) -> Option<Seq<int>>
    decreases iters,
{
    if iters == 0 {
        Some(params)
    } else {
        match step_spec(f, data, params, lr) {
            None => None,
            Some(p) => fit_spec(f, data, p, lr, (iters - 1) as nat),
        }
    }
}

/// The loss gradient at parameter `j`, over the whole dataset.
#[verifier::loop_isolation(false)]
fn grad_at<F: Function>(dataset: &Vec<(i64, i64)>, f: &F, params: &Vec<i64>, j: usize) -> (r:
    Option<i64>)
    requires
        params@.len() == f.dim(),
        (j as nat) < f.dim(),
    ensures
        opt_eq(r, grad_at_spec(*f, pairs(dataset@), ints(params@), j as int)),
{
    let mut acc: i64 = 0;
    let mut i: usize = 0;
    while i < dataset.len()
        invariant
            i <= dataset@.len(),
            grad_prefix(*f, pairs(dataset@), ints(params@), j as int, i as nat) == Some(
                acc as int,
            ),
        decreases dataset@.len() - i,
    {
        let e = dataset[i];
        let fx = match f.eval(e.0, params) {
            Some(v) => v,
            None => {
                proof {
                    lemma_grad_prefix_none(
                        *f, pairs(dataset@), ints(params@), j as int, (i + 1) as nat,
                        dataset@.len());
                }
                return None;
            },
        };
        let g = match f.grad(e.0, params, j) {
            Some(v) => v,
            None => {
                proof {
                    lemma_grad_prefix_none(
                        *f, pairs(dataset@), ints(params@), j as int, (i + 1) as nat,
                        dataset@.len());
                }
                return None;
            },
        };
        let res = match fx.checked_sub(e.1) {
            Some(v) => v,
            None => {
                proof {
                    lemma_grad_prefix_none(
                        *f, pairs(dataset@), ints(params@), j as int, (i + 1) as nat,
                        dataset@.len());
                }
                return None;
            },
        };
        let t = match fx_mul(res, g) {
            Some(v) => v,
            None => {
                proof {
                    lemma_grad_prefix_none(
                        *f, pairs(dataset@), ints(params@), j as int, (i + 1) as nat,
                        dataset@.len());
                }
                return None;
            },
        };
        acc = match acc.checked_add(t) {
            Some(v) => v,
            None => {
                proof {
                    lemma_grad_prefix_none(
                        *f, pairs(dataset@), ints(params@), j as int, (i + 1) as nat,
                        dataset@.len());
                }
                return None;
            },
        };
        i = i + 1;
    }
    acc.checked_mul(2)
}

/// One gradient-descent step over all parameters.
#[verifier::loop_isolation(false)]
fn fit_step<F: Function>(dataset: &Vec<(i64, i64)>, f: &F, lr: i64, params: &Vec<i64>) -> (r:
    Option<Vec<i64>>)
    requires
        params@.len() == f.dim(),
    ensures
        match r {
            Some(p) => p@.len() == params@.len() && step_spec(
                *f,
                pairs(dataset@),
                ints(params@),
                lr as int,
            ) == Some(ints(p@)),
            None => step_spec(*f, pairs(dataset@), ints(params@), lr as int) is None,
        },
{
    let mut out: Vec<i64> = Vec::new();
    let mut j: usize = 0;
    while j < params.len()
        invariant
            j <= params@.len(),
            out@.len() == j,
            step_prefix(*f, pairs(dataset@), ints(params@), lr as int, j as nat) == Some(
                ints(out@),
            ),
        decreases params@.len() - j,
    {
        let g = match grad_at(dataset, f, params, j) {
            Some(g) => g,
            None => {
                proof {
                    lemma_step_prefix_none(
                        *f, pairs(dataset@), ints(params@), lr as int, (j + 1) as nat,
                        params@.len());
                }
                return None;
            },
        };
        let d = match fx_mul(lr, g) {
            Some(d) => d,
            None => {
                proof {
                    lemma_step_prefix_none(
                        *f, pairs(dataset@), ints(params@), lr as int, (j + 1) as nat,
                        params@.len());
                }
                return None;
            },
        };
        let np = match params[j].checked_sub(d) {
            Some(v) => v,
            None => {
                proof {
                    lemma_step_prefix_none(
                        *f, pairs(dataset@), ints(params@), lr as int, (j + 1) as nat,
                        params@.len());
                }
                return None;
            },
        };
        proof {
            lemma_ints_push(out@, np);
        }
        out.push(np);
        j = j + 1;
    }
    Some(out)
}

/// Fit the model to the dataset: `training_iterations` gradient-descent
/// steps on the summed squared residuals, starting from `initial`. An
/// update step that leaves the representable range is `OptimizerFailure`.
/// A positive iteration budget demands at least one observation: a
/// descent step has no residuals to follow on an empty dataset, so
/// callers pre-validate.
#[verifier::loop_isolation(false)]
pub fn fit<F: Function>(
    dataset: &Vec<(i64, i64)>,
    f: &F,
    training_iterations: usize,
    sgd_config: SgdConfig,
    initial: Vec<i64>,
) -> (r: Result<Vec<i64>, FitError>)
    requires
        initial@.len() == f.dim(),
        training_iterations >= 1 ==> dataset@.len() >= 1,
    ensures
        match r {
            Ok(p) => p@.len() == f.dim() && fit_spec(
                *f,
                pairs(dataset@),
                ints(initial@),
                sgd_config.learning_rate as int,
                training_iterations as nat,
            ) == Some(ints(p@)),
            Err(e) => e == FitError::OptimizerFailure && fit_spec(
                *f,
                pairs(dataset@),
                ints(initial@),
                sgd_config.learning_rate as int,
                training_iterations as nat,
            ) is None,
        },
{
    let lr = sgd_config.learning_rate;
    let mut params = initial;
    let mut it: usize = 0;
    while it < training_iterations
        invariant
            it <= training_iterations,
            params@.len() == f.dim(),
            fit_spec(
                *f,
                pairs(dataset@),
                ints(params@),
                lr as int,
                (training_iterations - it) as nat,
            ) == fit_spec(
                *f,
                pairs(dataset@),
                ints(initial@),
                lr as int,
                training_iterations as nat,
            ),
        decreases training_iterations - it,
    {
        let next = match fit_step(dataset, f, lr, &params) {
            Some(p) => p,
            None => {
                return Err(FitError::OptimizerFailure);
            },
        };
        params = next;
        it = it + 1;
    }
    Ok(params)
}

} // verus!
