//! The design matrix of a polynomial fit: one row per sample, one column per
//! power of x.

use vstd::prelude::*;
use vstd::arithmetic::div_mod::{lemma_fundamental_div_mod, lemma_fundamental_div_mod_converse};
use crate::error::RegressionError;
use crate::matrix::Matrix;

verus! {

/// The highest polynomial order that a fit accepts.
pub const MAX_ORDER: usize = 100;

/// `v` is a correct entry in column `c` for the sample `x`: the constant `one`
/// in column 0, and what `pow` gives for `x` and `c` in every other column.
pub open spec fn is_power_entry<T, F: Fn(T, usize) -> T>(
    pow: F,
    one: T,
    x: T,
    c: int,
    v: T,
) -> bool {
    if c == 0 {
        v == one
    } else {
        pow.ensures((x, c as usize), v)
    }
}

/// On which inputs a design matrix can be built: some samples, an order within
/// the cap, and a matrix whose size fits in memory.
pub open spec fn design_accepts(n: nat, order: nat) -> bool {
    &&& n > 0
    &&& order <= MAX_ORDER
    &&& n * (order + 1) <= usize::MAX
}

/// Builds the design matrix of a fit of the given order: row `i` is
/// `[1, x_i, x_i^2, ..., x_i^order]`, where `one` is the unit of the scalar
/// type and `pow(x, j)` gives `x` to the power `j` for `j >= 1`.
///
/// Column 0 holds `one` in every row, whatever `xs` and `order` are.
pub fn build_design_matrix<T: Copy, F: Fn(T, usize) -> T>(
    xs: &Vec<T>,
    order: usize,
    one: T,
    pow: F,
) -> (r: Result<Matrix<T>, RegressionError>)
    requires
        forall|x: T, j: usize| pow.requires((x, j)),
    ensures
        r.is_ok() <==> design_accepts(xs@.len(), order as nat),
        r.is_err() ==> r == Err::<Matrix<T>, RegressionError>(
            RegressionError::ConfigurationError,
        ),
        r matches Ok(m) ==> {
            &&& m.nrows() == xs@.len()
            &&& m.ncols() == order + 1
            &&& forall|i: int| 0 <= i < m.nrows() ==> #[trigger] m.entry(i, 0) == one
            &&& forall|i: int, j: int|
                0 <= i < m.nrows() && 0 <= j < m.ncols() ==> is_power_entry(
                    pow,
                    one,
                    xs@[i],
                    j,
                    #[trigger] m.entry(i, j),
                )
        },
{
    let n = xs.len();
    if n == 0 || order > MAX_ORDER {
        return Err(RegressionError::ConfigurationError);
    }
    let cols = order + 1;
    if n > usize::MAX / cols {
        proof {
            assert(n * cols > usize::MAX) by (nonlinear_arith)
                requires
                    n > usize::MAX / cols,
                    cols > 0,
            ;
        }
        return Err(RegressionError::ConfigurationError);
    }
    assert(n * cols <= usize::MAX) by (nonlinear_arith)
        requires
            n <= usize::MAX / cols,
            cols > 0,
    ;
    let total = n * cols;
    let mut data: Vec<T> = Vec::new();
    let mut k: usize = 0;
    while k < total
        invariant
            n == xs@.len(),
            cols == order + 1,
            total == n * cols,
            k <= total,
            data@.len() == k,
            forall|x: T, j: usize| pow.requires((x, j)),
            forall|p: int|
                0 <= p < k ==> is_power_entry(
                    pow,
                    one,
                    xs@[p / cols as int],
                    p % cols as int,
                    #[trigger] data@[p],
                ),
        decreases total - k,
    {
        let i = k / cols;
        let c = k % cols;
        proof {
            lemma_fundamental_div_mod(k as int, cols as int);
            assert(i < n) by (nonlinear_arith)
                requires
                    k == cols * i + c,
                    0 <= c,
                    k < n * cols,
                    cols > 0,
            ;
        }
        let v = if c == 0 {
            one
        } else {
            pow(xs[i], c)
        };
        data.push(v);
        k = k + 1;
    }
    let m = Matrix::new(n, cols, data);
    assert forall|i: int, j: int| 0 <= i < n && 0 <= j < cols implies is_power_entry(
        pow,
        one,
        xs@[i],
        j,
        #[trigger] m.entry(i, j),
    ) by {
        crate::matrix::lemma_index_in_bounds(i, j, n as int, cols as int);
        lemma_fundamental_div_mod_converse(i * cols + j, cols as int, i, j);
    }
    assert forall|i: int| 0 <= i < n implies #[trigger] m.entry(i, 0) == one by {
        assert(is_power_entry(pow, one, xs@[i], 0, m.entry(i, 0)));
    }
    Ok(m)
}

} // verus!
