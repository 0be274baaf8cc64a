//! The shape rules of a least-squares fit and the pseudo-inverse step with its
//! truncation of negligible singular values.

use vstd::prelude::*;
use crate::design::{MAX_ORDER, design_accepts};
use crate::error::RegressionError;
use crate::matrix::Matrix;

verus! {

/// The error that a fit of `n_xs` x-values and `n_ys` y-values at the given
/// order meets, if any. A setting that can never work (no samples, an order past
/// the cap, a matrix too large to hold) is a configuration error; it is checked
/// first. Lengths that differ, or fewer samples than coefficients, are a
/// dimension error.
pub open spec fn fit_error(n_xs: nat, n_ys: nat, order: nat) -> Option<RegressionError> {
    if !design_accepts(n_xs, order) {
        Some(RegressionError::ConfigurationError)
    } else if n_xs != n_ys || n_xs < order + 1 {
        Some(RegressionError::DimensionError)
    } else {
        None
    }
}

/// Checks that a fit of `n_xs` x-values and `n_ys` y-values at the given order
/// is well posed, and returns the number of coefficients, `order + 1`.
pub fn check_fit(n_xs: usize, n_ys: usize, order: usize) -> (r: Result<usize, RegressionError>)
    ensures
        match fit_error(n_xs as nat, n_ys as nat, order as nat) {
            Some(e) => r == Err::<usize, RegressionError>(e),
            None => r == Ok::<usize, RegressionError>((order + 1) as usize),
        },
{
    if n_xs == 0 || order > MAX_ORDER {
        return Err(RegressionError::ConfigurationError);
    }
    let cols = order + 1;
    if n_xs > usize::MAX / cols {
        proof {
            assert(n_xs * cols > usize::MAX) by (nonlinear_arith)
                requires
                    n_xs > usize::MAX / cols,
                    cols > 0,
            ;
        }
        return Err(RegressionError::ConfigurationError);
    }
    proof {
        assert(n_xs * cols <= usize::MAX) by (nonlinear_arith)
            requires
                n_xs <= usize::MAX / cols,
                cols > 0,
        ;
    }
    if n_xs != n_ys || n_xs < cols {
        return Err(RegressionError::DimensionError);
    }
    Ok(cols)
}

/// Term `j` of the pseudo-inverse step is right: when `negligible` judged the
/// singular value `s_j` negligible next to the largest one `s_0`, the term is
/// dropped (`kept` is false and the value is `zero`); otherwise it is kept and
/// the value is `div(a_j, s_j)`.
pub open spec fn is_scaled_term<T, N: Fn(T, T) -> bool, D: Fn(T, T) -> T>(
    negligible: N,
    div: D,
    zero: T,
    a_j: T,
    s_j: T,
    s_0: T,
    kept: bool,
    v: T,
) -> bool {
    &&& negligible.ensures((s_j, s_0), !kept)
    &&& kept ==> div.ensures((a_j, s_j), v)
    &&& !kept ==> v == zero
}

/// The pseudo-inverse step of a least-squares fit: divides each of the first
/// `sigma.len()` components of `alpha = U^T y` by its singular value, except
/// where `negligible(sigma[j], sigma[0])` holds; such a term contributes `zero`
/// instead of a division by a value near zero.
///
/// Returns the scaled terms and, for each, whether it was kept.
pub fn pseudo_inverse_scale<T: Copy, N: Fn(T, T) -> bool, D: Fn(T, T) -> T>(
    alpha: &Vec<T>,
    sigma: &Vec<T>,
    zero: T,
    negligible: N,
    div: D,
) -> (r: (Vec<T>, Vec<bool>))
    requires
        sigma@.len() > 0,
        alpha@.len() >= sigma@.len(),
        forall|a: T, b: T| negligible.requires((a, b)),
        forall|a: T, b: T| div.requires((a, b)),
    ensures
        r.0@.len() == sigma@.len(),
        r.1@.len() == sigma@.len(),
        forall|j: int|
            0 <= j < sigma@.len() ==> is_scaled_term(
                negligible,
                div,
                zero,
                alpha@[j],
                sigma@[j],
                sigma@[0],
                r.1@[j],
                #[trigger] r.0@[j],
            ),
{
    let n = sigma.len();
    let s0 = sigma[0];
    let mut values: Vec<T> = Vec::new();
    let mut kept: Vec<bool> = Vec::new();
    let mut j: usize = 0;
    while j < n
        invariant
            n == sigma@.len(),
            alpha@.len() >= n,
            s0 == sigma@[0],
            j <= n,
            values@.len() == j,
            kept@.len() == j,
            forall|a: T, b: T| negligible.requires((a, b)),
            forall|a: T, b: T| div.requires((a, b)),
            forall|p: int|
                0 <= p < j ==> is_scaled_term(
                    negligible,
                    div,
                    zero,
                    alpha@[p],
                    sigma@[p],
                    sigma@[0],
                    kept@[p],
                    #[trigger] values@[p],
                ),
        decreases n - j,
    {
        let s = sigma[j];
        if negligible(s, s0) {
            values.push(zero);
            kept.push(false);
        } else {
            values.push(div(alpha[j], s));
            kept.push(true);
        }
        j = j + 1;
    }
    (values, kept)
}

/// A fit with fewer samples than coefficients is refused as a dimension error,
/// whenever the setting itself is acceptable (some samples, an order within the
/// cap), and whatever the number of y-values.
pub proof fn lemma_underdetermined_rejected(n_xs: nat, n_ys: nat, order: nat)
    requires
        0 < n_xs < order + 1,
        order <= MAX_ORDER,
    ensures
        fit_error(n_xs, n_ys, order) == Some(RegressionError::DimensionError),
{
    assert(n_xs * (order + 1) <= usize::MAX) by (nonlinear_arith)
        requires
            n_xs < order + 1,
            order <= MAX_ORDER,
    ;
}

/// Checks that a matrix can be decomposed: it has at least as many rows as
/// columns. A wide matrix is a dimension error.
pub fn check_decomposable<T: Copy>(a: &Matrix<T>) -> (r: Result<(), RegressionError>)
    ensures
        r.is_ok() <==> a.nrows() >= a.ncols(),
        r.is_err() ==> r == Err::<(), RegressionError>(RegressionError::DimensionError),
{
    if a.rows() >= a.cols() {
        Ok(())
    } else {
        Err(RegressionError::DimensionError)
    }
}

/// Whether the pseudo-inverse step dropped any term, given the flags that
/// `pseudo_inverse_scale` returned. A fit that dropped a term is rank-deficient
/// and its coefficients may be unreliable, though they are still returned.
pub fn any_dropped(kept: &Vec<bool>) -> (r: bool)
    ensures
        r == exists|j: int| 0 <= j < kept@.len() && !#[trigger] kept@[j],
{
    let mut j: usize = 0;
    while j < kept.len()
        invariant
            j <= kept@.len(),
            forall|p: int| 0 <= p < j ==> #[trigger] kept@[p],
        decreases kept@.len() - j,
    {
        if !kept[j] {
            return true;
        }
        j = j + 1;
    }
    false
}

} // verus!
