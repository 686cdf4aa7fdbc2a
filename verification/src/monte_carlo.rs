//! Monte Carlo estimation of parameter uncertainty.
//!
//! Each trial perturbs every observation by noise scaled to its reported
//! standard deviation, refits from its own starting point, and the fitted
//! parameter vectors are aggregated into a per-parameter mean and standard
//! deviation. `fit_trials` is the deterministic core, taking the randomness
//! of every trial as an argument; `fit_with_std_dev` draws that randomness
//! and calls it. A single failing fit aborts the whole estimation.

use vstd::prelude::*;
use crate::error::FitError;
use crate::fixed::{
    chk, div_count, div_trunc, fits_i64, fx_mul, mul_val, sqrt_fx, sqrt_val, SCALE,
    lemma_div_trunc_bound,
};
use crate::uncertainties::{fit, fit_spec, ints, pairs, DataEntry, Function, SgdConfig};

verus! {

/// The randomness one trial consumes: its starting parameter vector and
/// one pair of standard-normal draws per observation (for x and for y).
pub struct TrialInput {
    pub initial: Vec<i64>,
    pub noise: Vec<(i64, i64)>,
}

/// Mean and standard deviation of one fitted parameter across the trials.
#[derive(Debug, Clone, Copy)]
pub struct ParamStats {
    pub mean: i64,
    pub std_dev: i64,
}

/// Collected per-parameter statistics viewed as integer pairs.
pub open spec fn stats_view(s: Seq<ParamStats>) -> Seq<(int, int)> {
    s.map_values(|p: ParamStats| (p.mean as int, p.std_dev as int))
}

/// Collected fitted parameter vectors viewed as integer sequences.
pub open spec fn fitted_view(s: Seq<Vec<i64>>) -> Seq<Seq<int>> {
    s.map_values(|v: Vec<i64>| ints(v@))
}

/// One observation perturbed by its noise draws: each coordinate moves by
/// its reported standard deviation times its draw.
pub open spec fn perturb_entry_spec(e: DataEntry, n: (i64, i64)) -> Option<(int, int)> {
    let dx = mul_val(e.x.1 as int, n.0 as int);
    let dy = mul_val(e.y.1 as int, n.1 as int);
    if !fits_i64(dx) {
        None
    } else if !fits_i64(e.x.0 + dx) {
        None
    } else if !fits_i64(dy) {
        None
    } else if !fits_i64(e.y.0 + dy) {
        None
    } else {
        Some((e.x.0 + dx, e.y.0 + dy))
    }
}

/// The first `k` observations perturbed.
pub open spec fn perturb_prefix(data: Seq<DataEntry>, noise: Seq<(i64, i64)>, k: nat) -> Option<
    Seq<(int, int)>,
>
    decreases k,
{
    if k == 0 {
        Some(Seq::empty())
    } else {
        match (perturb_prefix(data, noise, (k - 1) as nat), perturb_entry_spec(
            data[k - 1],
            noise[k - 1],
        )) {
            (Some(s), Some(p)) => Some(s.push(p)),
            _ => None,
        }
    }
}

pub proof fn lemma_perturb_prefix_none(data: Seq<DataEntry>, noise: Seq<(i64, i64)>, k1: nat, k2: nat)
    requires
        k1 <= k2,
        perturb_prefix(data, noise, k1) is None,
    ensures
        perturb_prefix(data, noise, k2) is None,
    decreases k2,
{
    if k1 < k2 {
        lemma_perturb_prefix_none(data, noise, k1, (k2 - 1) as nat);
    }
}

/// The fitted parameters of one trial: the dataset perturbed by the
/// trial's draws, then fitted from the trial's starting point.
pub open spec fn trial_fit_spec<F: Function>(
    f: F,
    data: Seq<DataEntry>,
    t: TrialInput,
    lr: int,
    iters: nat,
) -> Option<Seq<int>> {
    match perturb_prefix(data, t.noise@, data.len()) {
        None => None,
        Some(pd) => fit_spec(f, pd, ints(t.initial@), lr, iters),
    }
}

/// The fitted parameter vectors of the first `k` trials.
pub open spec fn trials_prefix<F: Function>(
    f: F,
    data: Seq<DataEntry>,
    trials: Seq<TrialInput>,
    lr: int,
    iters: nat,
    k: nat,
) -> Option<Seq<Seq<int>>>
    decreases k,
{
    if k == 0 {
        Some(Seq::empty())
    } else {
        match (trials_prefix(f, data, trials, lr, iters, (k - 1) as nat), trial_fit_spec(
            f,
            data,
            trials[k - 1],
            lr,
            iters,
        )) {
            (Some(s), Some(p)) => Some(s.push(p)),
            _ => None,
        }
    }
}

pub proof fn lemma_trials_prefix_none<F: Function>(
    f: F,
    data: Seq<DataEntry>,
    trials: Seq<TrialInput>,
    lr: int,
    iters: nat,
    k1: nat,
    k2: nat,
)
    requires
        k1 <= k2,
        trials_prefix(f, data, trials, lr, iters, k1) is None,
    ensures
        trials_prefix(f, data, trials, lr, iters, k2) is None,
    decreases k2,
{
    if k1 < k2 {
        lemma_trials_prefix_none(f, data, trials, lr, iters, k1, (k2 - 1) as nat);
    }
}

/// Sum of component `j` over the first `k` fitted vectors. The sum of
/// `k` values from the `i64` range always fits a 128-bit accumulator, so
/// no overflow check belongs here and the mean below is always defined.
pub open spec fn component_sum(fitted: Seq<Seq<int>>, j: int, k: nat) -> int
    decreases k,
{
    if k == 0 {
        0
    } else {
        component_sum(fitted, j, (k - 1) as nat) + fitted[k - 1][j]
    }
}

/// Checked sum of squared deviations from `mean` of component `j` over
/// the first `k` fitted vectors.
pub open spec fn devsq_at(fitted: Seq<Seq<int>>, j: int, mean: int, k: nat) -> Option<int>
    decreases k,
{
    if k == 0 {
        Some(0)
    } else {
        match devsq_at(fitted, j, mean, (k - 1) as nat) {
            None => None,
            Some(s) => {
                let d = fitted[k - 1][j] - mean;
                if !fits_i64(d) {
                    None
                } else if !fits_i64(mul_val(d, d)) {
                    None
                } else {
                    chk(s + mul_val(d, d))
                }
            },
        }
    }
}

pub proof fn lemma_devsq_at_none(fitted: Seq<Seq<int>>, j: int, mean: int, k1: nat, k2: nat)
    requires
        k1 <= k2,
        devsq_at(fitted, j, mean, k1) is None,
    ensures
        devsq_at(fitted, j, mean, k2) is None,
    decreases k2,
{
    if k1 < k2 {
        lemma_devsq_at_none(fitted, j, mean, k1, (k2 - 1) as nat);
    }
}

/// A sum of squared deviations is never negative.
pub proof fn lemma_devsq_at_nonneg(fitted: Seq<Seq<int>>, j: int, mean: int, k: nat)
    requires
        devsq_at(fitted, j, mean, k) is Some,
    ensures
        devsq_at(fitted, j, mean, k)->Some_0 >= 0,
    decreases k,
{
    if k > 0 {
        lemma_devsq_at_nonneg(fitted, j, mean, (k - 1) as nat);
        let d = fitted[k - 1][j] - mean;
        assert(d * d >= 0) by (nonlinear_arith);
        lemma_div_trunc_bound(d * d, SCALE as int);
    }
}

/// Mean and standard deviation of component `j` across `t_count` trials:
/// the sample mean (always defined), the population variance, and its
/// fixed-point root. `None` reports the one machine limit that remains:
/// a sum of squared deviations beyond the representable range.
pub open spec fn stat_at(fitted: Seq<Seq<int>>, j: int, t_count: nat) -> Option<(int, int)>
    recommends
        t_count >= 1,
{
    let mean = div_trunc(component_sum(fitted, j, t_count), t_count as int);
    match devsq_at(fitted, j, mean, t_count) {
        None => None,
        Some(ds) => Some((mean, sqrt_val(div_trunc(ds, t_count as int) * (SCALE as int)))),
    }
}

/// The statistics of the first `k` parameter components.
pub open spec fn stats_prefix(fitted: Seq<Seq<int>>, t_count: nat, k: nat) -> Option<
    Seq<(int, int)>,
>
    decreases k,
{
    if k == 0 {
        Some(Seq::empty())
    } else {
        match (stats_prefix(fitted, t_count, (k - 1) as nat), stat_at(fitted, k - 1, t_count)) {
            (Some(s), Some(p)) => Some(s.push(p)),
            _ => None,
        }
    }
}

pub proof fn lemma_stats_prefix_none(fitted: Seq<Seq<int>>, t_count: nat, k1: nat, k2: nat)
    requires
        k1 <= k2,
        stats_prefix(fitted, t_count, k1) is None,
    ensures
        stats_prefix(fitted, t_count, k2) is None,
    decreases k2,
{
    if k1 < k2 {
        lemma_stats_prefix_none(fitted, t_count, k1, (k2 - 1) as nat);
    }
}

/// What `fit_trials` computes: every trial refitted on its own perturbed
/// dataset, then per-parameter mean and standard deviation across trials.
pub open spec fn trials_stats_spec<F: Function>(
    f: F,
    data: Seq<DataEntry>,
    trials: Seq<TrialInput>,
    lr: int,
    iters: nat,
    dim: nat,
) -> Option<Seq<(int, int)>> {
    match trials_prefix(f, data, trials, lr, iters, trials.len()) {
        None => None,
        Some(fitted) => stats_prefix(fitted, trials.len(), dim),
    }
}

/// Some trial's fit left the representable range: the fail-fast condition
/// spec-named for `fit_trials`' contract.
pub open spec fn a_fit_fails<F: Function>(
    f: F,
    data: Seq<DataEntry>,
    trials: Seq<TrialInput>,
    lr: int,
    iters: nat,
) -> bool {
    trials_prefix(f, data, trials, lr, iters, trials.len()) is None
}

/// Every fit succeeded, but some parameter's squared deviations from its
/// mean leave the representable range: the one machine limit that still
/// fails the aggregation.
pub open spec fn spread_out_of_range<F: Function>(
    f: F,
    data: Seq<DataEntry>,
    trials: Seq<TrialInput>,
    lr: int,
    iters: nat,
    dim: nat,
) -> bool {
    trials_prefix(f, data, trials, lr, iters, trials.len()) matches Some(fitted)
        && stats_prefix(fitted, trials.len(), dim) is None
}

/// A dataset stripped to its measured values.
pub open spec fn plain_pairs(data: Seq<DataEntry>) -> Seq<(int, int)> {
    data.map_values(|e: DataEntry| (e.x.0 as int, e.y.0 as int))
}

/// Perturbing observations that report zero uncertainty changes nothing,
/// whatever was drawn.
pub proof fn lemma_perturb_zero(data: Seq<DataEntry>, noise: Seq<(i64, i64)>, k: nat)
    requires
        k <= data.len(),
        forall|i: int| 0 <= i < data.len() ==> (#[trigger] data[i]).x.1 == 0 && data[i].y.1 == 0,
    ensures
        perturb_prefix(data, noise, k) == Some(plain_pairs(data).take(k as int)),
    decreases k,
{
    if k == 0 {
        assert(plain_pairs(data).take(0) =~= Seq::<(int, int)>::empty());
    } else {
        lemma_perturb_zero(data, noise, (k - 1) as nat);
        let e = data[k - 1];
        let n = noise[k - 1];
        crate::fixed::lemma_div_trunc_small(0, SCALE as int);
        assert(mul_val(e.x.1 as int, n.0 as int) == 0);
        assert(mul_val(e.y.1 as int, n.1 as int) == 0);
        assert(perturb_entry_spec(e, n) == Some((e.x.0 as int, e.y.0 as int)));
        assert(plain_pairs(data).take(k as int) =~= plain_pairs(data).take(k as int - 1).push(
            (e.x.0 as int, e.y.0 as int),
        ));
    }
}

/// When every trial starts from the same point and the data carry zero
/// uncertainty, every trial fits to the same parameters.
pub proof fn lemma_trials_constant<F: Function>(
    f: F,
    data: Seq<DataEntry>,
    trials: Seq<TrialInput>,
    lr: int,
    iters: nat,
    p: Seq<int>,
    k: nat,
)
    requires
        k <= trials.len(),
        forall|i: int| 0 <= i < data.len() ==> (#[trigger] data[i]).x.1 == 0 && data[i].y.1 == 0,
        forall|t: int|
            0 <= t < trials.len() ==> (#[trigger] trials[t]).initial@ == trials[0].initial@
                && trials[t].noise@.len() == data.len(),
        trials.len() >= 1,
        trial_fit_spec(f, data, trials[0], lr, iters) == Some(p),
    ensures
        trials_prefix(f, data, trials, lr, iters, k) == Some(Seq::new(k, |i: int| p)),
    decreases k,
{
    if k == 0 {
        assert(Seq::new(0, |i: int| p) =~= Seq::<Seq<int>>::empty());
    } else {
        lemma_trials_constant(f, data, trials, lr, iters, p, (k - 1) as nat);
        lemma_perturb_zero(data, trials[k - 1].noise@, data.len());
        lemma_perturb_zero(data, trials[0].noise@, data.len());
        assert(trial_fit_spec(f, data, trials[k - 1], lr, iters) == Some(p));
        assert(Seq::new(k, |i: int| p) =~= Seq::new((k - 1) as nat, |i: int| p).push(p));
    }
}

/// The sum of `k` equal values is `k` times the value.
pub proof fn lemma_sum_constant(fitted: Seq<Seq<int>>, j: int, v: int, k: nat)
    requires
        k <= fitted.len(),
        forall|t: int| 0 <= t < fitted.len() ==> #[trigger] fitted[t][j] == v,
    ensures
        component_sum(fitted, j, k) == k * v,
    decreases k,
{
    if k == 0 {
        assert(k * v == 0) by (nonlinear_arith)
            requires
                k == 0,
        ;
    } else {
        lemma_sum_constant(fitted, j, v, (k - 1) as nat);
        assert(fitted[k - 1][j] == v);
        assert((k - 1) * v + v == k * v) by (nonlinear_arith);
    }
}

/// Equal values deviate from their mean by nothing: the sum of squared
/// deviations is zero.
pub proof fn lemma_devsq_zero(fitted: Seq<Seq<int>>, j: int, v: int, k: nat)
    requires
        k <= fitted.len(),
        forall|t: int| 0 <= t < fitted.len() ==> #[trigger] fitted[t][j] == v,
    ensures
        devsq_at(fitted, j, v, k) == Some(0int),
    decreases k,
{
    if k > 0 {
        lemma_devsq_zero(fitted, j, v, (k - 1) as nat);
        crate::fixed::lemma_div_trunc_small(0, SCALE as int);
        assert(mul_val(0, 0) == 0);
    }
}

/// A defined statistics prefix determines each of its entries.
pub proof fn lemma_stats_prefix_index(
    fitted: Seq<Seq<int>>,
    t_count: nat,
    k: nat,
    stats: Seq<(int, int)>,
)
    requires
        stats_prefix(fitted, t_count, k) == Some(stats),
    ensures
        stats.len() == k,
        forall|j: int| 0 <= j < k ==> stat_at(fitted, j, t_count) == Some(#[trigger] stats[j]),
    decreases k,
{
    if k > 0 {
        let prev = stats_prefix(fitted, t_count, (k - 1) as nat);
        assert(prev is Some);
        lemma_stats_prefix_index(fitted, t_count, (k - 1) as nat, prev->Some_0);
    }
}

/// No noise, no spread: when every observation reports zero uncertainty
/// and every trial starts from the same parameter vector, the Monte Carlo
/// statistics have standard deviation exactly zero in every component,
/// and each mean is the corresponding parameter of the common fit.
pub proof fn law_no_noise_no_spread<F: Function>(
    f: F,
    data: Seq<DataEntry>,
    trials: Seq<TrialInput>,
    lr: int,
    iters: nat,
    dim: nat,
    stats: Seq<(int, int)>,
)
    requires
        trials.len() >= 1,
        forall|i: int| 0 <= i < data.len() ==> (#[trigger] data[i]).x.1 == 0 && data[i].y.1 == 0,
        forall|t: int|
            0 <= t < trials.len() ==> (#[trigger] trials[t]).initial@ == trials[0].initial@
                && trials[t].noise@.len() == data.len(),
        trials_stats_spec(f, data, trials, lr, iters, dim) == Some(stats),
    ensures
        stats.len() == dim,
        trial_fit_spec(f, data, trials[0], lr, iters) matches Some(p) && forall|j: int|
            0 <= j < dim ==> #[trigger] stats[j] == (p[j], 0int),
{
    let t_count = trials.len();
    let first = trial_fit_spec(f, data, trials[0], lr, iters);
    if first is None {
        assert(trials_prefix(f, data, trials, lr, iters, 1nat) is None);
        lemma_trials_prefix_none(f, data, trials, lr, iters, 1nat, t_count);
        assert(false);
    }
    let p = first->Some_0;
    lemma_trials_constant(f, data, trials, lr, iters, p, t_count);
    let fitted = Seq::new(t_count, |i: int| p);
    assert(trials_stats_spec(f, data, trials, lr, iters, dim) == stats_prefix(
        fitted,
        t_count,
        dim,
    ));
    lemma_stats_prefix_index(fitted, t_count, dim, stats);
    assert forall|j: int| 0 <= j < dim implies #[trigger] stats[j] == (p[j], 0int) by {
        assert(stat_at(fitted, j, t_count) == Some(stats[j]));
        assert(forall|t: int| 0 <= t < fitted.len() ==> #[trigger] fitted[t][j] == p[j]);
        let s = component_sum(fitted, j, t_count);
        lemma_sum_constant(fitted, j, p[j], t_count);
        assert(s == t_count * p[j]);
        crate::fixed::lemma_div_trunc_multiple(p[j], t_count as int);
        let mean = div_trunc(s, t_count as int);
        assert(mean == p[j]);
        lemma_devsq_zero(fitted, j, mean, t_count);
        crate::fixed::lemma_div_trunc_small(0, t_count as int);
        assert(div_trunc(0, t_count as int) == 0);
        crate::fixed::lemma_sqrt_unique(0, 0);
        assert(sqrt_val(0 * (SCALE as int)) == 0);
    }
}

/// A copy of a parameter vector.
fn copy_params(v: &Vec<i64>) -> (r: Vec<i64>)
    ensures
        r@ == v@,
{
    let mut out: Vec<i64> = Vec::new();
    let mut i: usize = 0;
    while i < v.len()
        invariant
            i <= v@.len(),
            out@ == v@.subrange(0, i as int),
        decreases v@.len() - i,
    {
        out.push(v[i]);
        proof {
            assert(out@ =~= v@.subrange(0, i + 1));
        }
        i = i + 1;
    }
    proof {
        assert(out@ =~= v@);
    }
    out
}

/// The dataset perturbed by one trial's noise draws.
#[verifier::loop_isolation(false)]
fn perturb(dataset: &Vec<DataEntry>, noise: &Vec<(i64, i64)>) -> (r: Option<Vec<(i64, i64)>>)
    requires
        noise@.len() == dataset@.len(),
    ensures
        match r {
            Some(v) => v@.len() == dataset@.len() && perturb_prefix(
                dataset@,
                noise@,
                dataset@.len(),
            ) == Some(pairs(v@)),
            None => perturb_prefix(dataset@, noise@, dataset@.len()) is None,
        },
{
    let mut out: Vec<(i64, i64)> = Vec::new();
    let mut i: usize = 0;
    while i < dataset.len()
        invariant
            i <= dataset@.len(),
            out@.len() == i,
            perturb_prefix(dataset@, noise@, i as nat) == Some(pairs(out@)),
        decreases dataset@.len() - i,
    {
        let e = dataset[i];
        let n = noise[i];
        let dx = match fx_mul(e.x.1, n.0) {
            Some(v) => v,
            None => {
                proof {
                    lemma_perturb_prefix_none(dataset@, noise@, (i + 1) as nat, dataset@.len());
                }
                return None;
            },
        };
        let px = match e.x.0.checked_add(dx) {
            Some(v) => v,
            None => {
                proof {
                    lemma_perturb_prefix_none(dataset@, noise@, (i + 1) as nat, dataset@.len());
                }
                return None;
            },
        };
        let dy = match fx_mul(e.y.1, n.1) {
            Some(v) => v,
            None => {
                proof {
                    lemma_perturb_prefix_none(dataset@, noise@, (i + 1) as nat, dataset@.len());
                }
                return None;
            },
        };
        let py = match e.y.0.checked_add(dy) {
            Some(v) => v,
            None => {
                proof {
                    lemma_perturb_prefix_none(dataset@, noise@, (i + 1) as nat, dataset@.len());
                }
                return None;
            },
        };
        out.push((px, py));
        proof {
            assert(pairs(out@) =~= pairs(out@.subrange(0, out@.len() - 1)).push(
                (px as int, py as int),
            ));
        }
        i = i + 1;
    }
    Some(out)
}

/// Fit every trial on its own perturbed dataset and aggregate the fitted
/// parameter vectors into a per-parameter mean and standard deviation.
/// A single failing fit fails the whole estimation, fail-fast, with no
/// partial aggregation. The sum behind each mean is carried in 128 bits,
/// so the mean itself can never fail; the one residual machine limit,
/// named `spread_out_of_range` in the contract, is a sum of squared
/// deviations beyond the representable range, and it too is reported as
/// `OptimizerFailure` rather than masked.
#[verifier::loop_isolation(false)]
pub fn fit_trials<F: Function>(
    dataset: &Vec<DataEntry>,
    trials: &Vec<TrialInput>,
    f: &F,
    training_iterations: usize,
    sgd_config: SgdConfig,
) -> (r: Result<Vec<ParamStats>, FitError>)
    requires
        trials@.len() >= 1,
        training_iterations >= 1 ==> dataset@.len() >= 1,
        forall|t: int|
            0 <= t < trials@.len() ==> (#[trigger] trials@[t]).initial@.len() == f.dim()
                && trials@[t].noise@.len() == dataset@.len(),
    ensures
        match r {
            Ok(v) => v@.len() == f.dim() && trials_stats_spec(
                *f,
                dataset@,
                trials@,
                sgd_config.learning_rate as int,
                training_iterations as nat,
                f.dim(),
            ) == Some(stats_view(v@)),
            Err(e) => e == FitError::OptimizerFailure && trials_stats_spec(
                *f,
                dataset@,
                trials@,
                sgd_config.learning_rate as int,
                training_iterations as nat,
                f.dim(),
            ) is None,
        },
        r is Err <==> a_fit_fails(
            *f,
            dataset@,
            trials@,
            sgd_config.learning_rate as int,
            training_iterations as nat,
        ) || spread_out_of_range(
            *f,
            dataset@,
            trials@,
            sgd_config.learning_rate as int,
            training_iterations as nat,
            f.dim(),
        ),
{
    let ghost lr = sgd_config.learning_rate as int;
    let ghost iters = training_iterations as nat;
    let t_count = trials.len();
    let mut fitted: Vec<Vec<i64>> = Vec::new();
    let mut t: usize = 0;
    while t < t_count
        invariant
            t <= t_count,
            fitted@.len() == t,
            trials_prefix(*f, dataset@, trials@, lr, iters, t as nat) == Some(
                fitted_view(fitted@),
            ),
            forall|i: int| 0 <= i < t ==> (#[trigger] fitted@[i])@.len() == f.dim(),
        decreases t_count - t,
    {
        let trial = &trials[t];
        let pd = match perturb(dataset, &trial.noise) {
            Some(v) => v,
            None => {
                proof {
                    lemma_trials_prefix_none(
                        *f, dataset@, trials@, lr, iters, (t + 1) as nat, trials@.len());
                }
                return Err(FitError::OptimizerFailure);
            },
        };
        let initial = copy_params(&trial.initial);
        let fitted_t = match fit(&pd, f, training_iterations, sgd_config, initial) {
            Ok(p) => p,
            Err(_) => {
                proof {
                    lemma_trials_prefix_none(
                        *f, dataset@, trials@, lr, iters, (t + 1) as nat, trials@.len());
                }
                return Err(FitError::OptimizerFailure);
            },
        };
        fitted.push(fitted_t);
        proof {
            assert(fitted_view(fitted@) =~= fitted_view(fitted@.subrange(0, fitted@.len() - 1))
                .push(ints(fitted_t@)));
        }
        t = t + 1;
    }
    let dim = f.dim_exec();
    let mut out: Vec<ParamStats> = Vec::new();
    let mut j: usize = 0;
    while j < dim
        invariant
            j <= dim,
            out@.len() == j,
            stats_prefix(fitted_view(fitted@), t_count as nat, j as nat) == Some(
                stats_view(out@),
            ),
        decreases dim - j,
    {
        let ghost fview = fitted_view(fitted@);
        let mut s: i128 = 0;
        let mut t2: usize = 0;
        while t2 < t_count
            invariant
                t2 <= t_count,
                s as int == component_sum(fitted_view(fitted@), j as int, t2 as nat),
                -((t2 as int) * 0x8000_0000_0000_0000) <= s as int <= (t2 as int)
                    * 0x7fff_ffff_ffff_ffff,
            decreases t_count - t2,
        {
            let v = fitted[t2][j];
            proof {
                assert((t2 as int) * 0x8000_0000_0000_0000 + 0x8000_0000_0000_0000 == (t2 + 1)
                    * 0x8000_0000_0000_0000) by (nonlinear_arith);
                assert((t2 as int) * 0x7fff_ffff_ffff_ffff + 0x7fff_ffff_ffff_ffff == (t2 + 1)
                    * 0x7fff_ffff_ffff_ffff) by (nonlinear_arith);
                assert((t2 + 1) * 0x8000_0000_0000_0000 <= 0x1_0000_0000_0000_0000int
                    * 0x8000_0000_0000_0000) by (nonlinear_arith)
                    requires
                        0 <= t2 + 1 <= 0x1_0000_0000_0000_0000int,
                ;
                assert((t2 + 1) * 0x7fff_ffff_ffff_ffff <= 0x1_0000_0000_0000_0000int
                    * 0x7fff_ffff_ffff_ffff) by (nonlinear_arith)
                    requires
                        0 <= t2 + 1 <= 0x1_0000_0000_0000_0000int,
                ;
            }
            s = s + (v as i128);
            t2 = t2 + 1;
        }
        proof {
            crate::fixed::lemma_mean_fits(s as int, t_count as int);
        }
        let mean = crate::fixed::div_trunc128(s, t_count as u64) as i64;
        let mut ds: i64 = 0;
        let mut t3: usize = 0;
        while t3 < t_count
            invariant
                t3 <= t_count,
                devsq_at(fitted_view(fitted@), j as int, mean as int, t3 as nat) == Some(
                    ds as int,
                ),
            decreases t_count - t3,
        {
            let d = match fitted[t3][j].checked_sub(mean) {
                Some(v) => v,
                None => {
                    proof {
                        lemma_devsq_at_none(
                            fview, j as int, mean as int, (t3 + 1) as nat, t_count as nat);
                        lemma_stats_prefix_none(fview, t_count as nat, (j + 1) as nat, dim as nat);
                    }
                    return Err(FitError::OptimizerFailure);
                },
            };
            let m = match fx_mul(d, d) {
                Some(v) => v,
                None => {
                    proof {
                        lemma_devsq_at_none(
                            fview, j as int, mean as int, (t3 + 1) as nat, t_count as nat);
                        lemma_stats_prefix_none(fview, t_count as nat, (j + 1) as nat, dim as nat);
                    }
                    return Err(FitError::OptimizerFailure);
                },
            };
            ds = match ds.checked_add(m) {
                Some(v) => v,
                None => {
                    proof {
                        lemma_devsq_at_none(
                            fview, j as int, mean as int, (t3 + 1) as nat, t_count as nat);
                        lemma_stats_prefix_none(fview, t_count as nat, (j + 1) as nat, dim as nat);
                    }
                    return Err(FitError::OptimizerFailure);
                },
            };
            t3 = t3 + 1;
        }
        let var = div_count(ds, t_count as u64);
        proof {
            lemma_devsq_at_nonneg(fview, j as int, mean as int, t_count as nat);
            lemma_div_trunc_bound(ds as int, t_count as int);
        }
        let sd = sqrt_fx(var);
        out.push(ParamStats { mean, std_dev: sd });
        proof {
            assert(stats_view(out@) =~= stats_view(out@.subrange(0, out@.len() - 1)).push(
                (mean as int, sd as int),
            ));
        }
        j = j + 1;
    }
    Ok(out)
}

/// Relies on rand::random::<u64>: one draw from the thread-local
/// generator. Nothing can be promised of a random value.
#[verifier::external_body]
fn random_u64() -> (r: u64) {
    rand::random::<u64>()
}

/// A uniform draw from [0, 1): a raw value in [0, SCALE).
fn uniform_draw() -> (r: i64)
    ensures
        0 <= r < SCALE,
{
    let u = random_u64();
    (u % (SCALE as u64)) as i64
}

/// An approximately standard-normal draw: the sum of twelve uniform draws
/// on [0, 1), centered, which has zero mean and unit variance.
fn normal_draw() -> (r: i64)
    ensures
        -6 * SCALE <= r <= 6 * SCALE,
{
    let mut s: i64 = 0;
    let mut k: u64 = 0;
    while k < 12
        invariant
            k <= 12,
            0 <= s <= (k as int) * (SCALE as int),
        decreases 12 - k,
    {
        let u = uniform_draw();
        s = s + u;
        k = k + 1;
    }
    s - 6 * SCALE
}

/// The shape of trial inputs `fit_with_std_dev` draws: `count` trials,
/// each with a starting point of the model's dimension and one pair of
/// draws per observation.
pub open spec fn wf_trials(trials: Seq<TrialInput>, data_len: nat, dim: nat, count: nat) -> bool {
    trials.len() == count && forall|t: int|
        0 <= t < trials.len() ==> (#[trigger] trials[t]).initial@.len() == dim
            && trials[t].noise@.len() == data_len
}

/// The drawn randomness stays in the ranges the draws promise: every
/// starting component in [0, 1) and every noise component in [-6, 6].
pub open spec fn bounded_draws(trials: Seq<TrialInput>) -> bool {
    forall|t: int|
        0 <= t < trials.len() ==> (forall|q: int|
            0 <= q < (#[trigger] trials[t]).initial@.len() ==> 0 <= #[trigger] trials[t].initial@[q]
                < SCALE) && (forall|e: int|
            0 <= e < trials[t].noise@.len() ==> -6 * SCALE <= (#[trigger] trials[t].noise@[e]).0
                <= 6 * SCALE && -6 * SCALE <= trials[t].noise@[e].1 <= 6 * SCALE)
}

/// Estimate each parameter's value and uncertainty by Monte Carlo
/// resampling: `monte_carlo_fits` independent trials, each starting from
/// a fresh uniform parameter vector and perturbing every observation by
/// fresh normal draws scaled to its reported standard deviation, refitted
/// independently and aggregated per parameter. Whatever was drawn, the
/// result is the exact `fit_trials` outcome of some well-formed,
/// range-bounded set of trial inputs: statistics on success, and an error
/// only where `fit_trials` fails on those drawn inputs — a failing fit
/// aborts the whole estimation, fail-fast.
#[verifier::loop_isolation(false)]
pub fn fit_with_std_dev<F: Function>(
    dataset: &Vec<DataEntry>,
    monte_carlo_fits: usize,
    f: &F,
    training_iterations: usize,
    sgd_config: SgdConfig,
) -> (r: Result<Vec<ParamStats>, FitError>)
    requires
        monte_carlo_fits >= 1,
        training_iterations >= 1 ==> dataset@.len() >= 1,
    ensures
        r matches Ok(v) ==> v@.len() == f.dim() && exists|ts: Seq<TrialInput>|
            wf_trials(ts, dataset@.len(), f.dim(), monte_carlo_fits as nat) && bounded_draws(ts)
                && trials_stats_spec(
                *f,
                dataset@,
                ts,
                sgd_config.learning_rate as int,
                training_iterations as nat,
                f.dim(),
            ) == Some(stats_view(v@)),
        r matches Err(e) ==> e == FitError::OptimizerFailure && exists|ts: Seq<TrialInput>|
            wf_trials(ts, dataset@.len(), f.dim(), monte_carlo_fits as nat) && bounded_draws(ts)
                && trials_stats_spec(
                *f,
                dataset@,
                ts,
                sgd_config.learning_rate as int,
                training_iterations as nat,
                f.dim(),
            ) is None,
{
    let dim = f.dim_exec();
    let n_len = dataset.len();
    let mut trials: Vec<TrialInput> = Vec::new();
    let mut t: usize = 0;
    while t < monte_carlo_fits
        invariant
            t <= monte_carlo_fits,
            trials@.len() == t,
            forall|i: int|
                0 <= i < t ==> (#[trigger] trials@[i]).initial@.len() == f.dim()
                    && trials@[i].noise@.len() == dataset@.len(),
            bounded_draws(trials@),
        decreases monte_carlo_fits - t,
    {
        let mut initial: Vec<i64> = Vec::new();
        let mut q: usize = 0;
        while q < dim
            invariant
                q <= dim,
                initial@.len() == q,
                forall|i: int| 0 <= i < q ==> 0 <= #[trigger] initial@[i] < SCALE,
            decreases dim - q,
        {
            initial.push(uniform_draw());
            q = q + 1;
        }
        let mut noise: Vec<(i64, i64)> = Vec::new();
        let mut e: usize = 0;
        while e < n_len
            invariant
                e <= n_len,
                noise@.len() == e,
                forall|i: int|
                    0 <= i < e ==> -6 * SCALE <= (#[trigger] noise@[i]).0 <= 6 * SCALE && -6
                        * SCALE <= noise@[i].1 <= 6 * SCALE,
            decreases n_len - e,
        {
            let nx = normal_draw();
            let ny = normal_draw();
            noise.push((nx, ny));
            e = e + 1;
        }
        trials.push(TrialInput { initial, noise });
        t = t + 1;
    }
    let ghost drawn = trials@;
    proof {
        assert(wf_trials(drawn, dataset@.len(), f.dim(), monte_carlo_fits as nat));
        assert(bounded_draws(drawn));
    }
    match fit_trials(dataset, &trials, f, training_iterations, sgd_config) {
        Ok(v) => {
            proof {
                assert(trials_stats_spec(
                    *f,
                    dataset@,
                    drawn,
                    sgd_config.learning_rate as int,
                    training_iterations as nat,
                    f.dim(),
                ) == Some(stats_view(v@)));
            }
            Ok(v)
        },
        Err(e) => {
            proof {
                assert(trials_stats_spec(
                    *f,
                    dataset@,
                    drawn,
                    sgd_config.learning_rate as int,
                    training_iterations as nat,
                    f.dim(),
                ) is None);
            }
            Err(e)
        },
    }
}

} // verus!
