//! Categorical cross-entropy from raw scores.

use vstd::prelude::*;
use crate::scalar::{zero, Scalar};
use crate::shape::{flat, lemma_flat};

verus! {

/// What a loss function hands back: one loss per example, and the gradient of
/// the loss with respect to every value of the batch it was given.
pub struct NllOutput<T> {
    pub loss: Vec<T>,
    pub input_grads: Vec<T>,
}

/// The categorical cross-entropy of a batch of raw scores, `n` to an
/// example, against one class index per example.
pub struct Nll<T> {
    /// The number of classes.
    pub n: usize,
    /// One loss per example.
    pub loss: Vec<T>,
    /// The gradient with respect to each score.
    pub input_grads: Vec<T>,
}

/// The running softmax denominator of example `b`: over its first `m`
/// scores, in ascending order and starting from zero, of `e^score`.
pub open spec fn exp_sum<T: Scalar>(x: Seq<T>, b: int, n: nat, m: nat) -> T
    decreases m,
{
    if m == 0 {
        zero::<T>()
    } else {
        exp_sum(x, b, n, (m - 1) as nat).plus_spec(x[flat(b, m - 1, n as int)].exp_spec())
    }
}

/// The share of class `c` in the softmax of example `b`:
/// `e^score[b, c]` over the sum of `e^score[b, _]`.
pub open spec fn softmax<T: Scalar>(x: Seq<T>, b: int, c: int, n: nat) -> T {
    x[flat(b, c, n as int)].exp_spec().over_spec(exp_sum(x, b, n, n))
}

/// The loss of example `b` whose class is `target`: minus one times the
/// logarithm of that class's softmax share.
pub open spec fn cross_entropy<T: Scalar>(x: Seq<T>, b: int, target: int, n: nat) -> T {
    T::count_spec(1).negated_spec().times_spec(softmax(x, b, target, n).ln_spec())
}

/// The gradient of the loss of example `b` with respect to its score for
/// class `c`: the softmax share of `c`, less one where `c` is the target.
pub open spec fn cross_entropy_grad<T: Scalar>(x: Seq<T>, b: int, c: int, target: int, n: nat) -> T {
    if c == target {
        softmax(x, b, c, n).minus_spec(T::count_spec(1))
    } else {
        softmax(x, b, c, n)
    }
}

/// The loss of every example of the batch.
pub open spec fn cross_entropy_losses<T: Scalar>(x: Seq<T>, targets: Seq<u8>, n: nat) -> Seq<T> {
    Seq::new(targets.len(), |b: int| cross_entropy(x, b, targets[b] as int, n))
}

/// The gradient with respect to every score of the batch.
pub open spec fn cross_entropy_grads<T: Scalar>(x: Seq<T>, targets: Seq<u8>, n: nat) -> Seq<T> {
    Seq::new(
        (targets.len() * n) as nat,
        |k: int|
            cross_entropy_grad(
                x,
                k / (n as int),
                k % (n as int),
                targets[k / (n as int)] as int,
                n,
            ),
    )
}

/// Every target names one of the `n` classes.
pub open spec fn classes_below(targets: Seq<u8>, n: nat) -> bool {
    forall|b: int| 0 <= b < targets.len() ==> #[trigger] targets[b] < n
}

impl<T: Scalar> Nll<T> {
    /// The cross-entropy of the scores `inputs`, `n` to an example, against
    /// the class indices `targets`; the batch size is the number of targets.
    ///
    /// Scores are exponentiated as they are: nothing is subtracted first, so
    /// the caller keeps them in a range where `e^score` is finite.
    pub fn new(n: usize, inputs: Vec<T>, targets: &[u8]) -> (r: Self)
        requires
            inputs@.len() == targets@.len() * n,
            classes_below(targets@, n as nat),
        ensures
            r.n == n,
            r.loss@ == cross_entropy_losses(inputs@, targets@, n as nat),
            r.input_grads@ == cross_entropy_grads(inputs@, targets@, n as nat),
            r.loss@.len() == targets@.len(),
            r.input_grads@.len() == inputs@.len(),
    {
        let batch: usize = targets.len();
        let ghost x = inputs@;
        let ghost t = targets@;
        let mut sums: Vec<T> = Vec::with_capacity(batch);
        let mut b: usize = 0;
        while b < batch
            invariant
                b <= batch,
                x == inputs@,
                t == targets@,
                batch == t.len(),
                x.len() == batch * n,
                sums@.len() == b,
                forall|j: int|
                    0 <= j < b ==> #[trigger] sums@[j] == exp_sum(x, j, n as nat, n as nat),
            decreases batch - b,
        {
            let mut sum: T = T::count(0);
            let mut i: usize = 0;
            while i < n
                invariant
                    b < batch,
                    i <= n,
                    x == inputs@,
                    x.len() == batch * n,
                    sum == exp_sum(x, b as int, n as nat, i as nat),
                decreases n - i,
            {
                proof {
                    lemma_flat(b as int, i as int, batch as int, n as int);
                    assert(inputs.len() == x.len());
                }
                sum = sum.plus(inputs[b * n + i].exp());
                i += 1;
            }
            sums.push(sum);
            b += 1;
        }
        let mut loss: Vec<T> = Vec::with_capacity(batch);
        let mut b: usize = 0;
        while b < batch
            invariant
                b <= batch,
                x == inputs@,
                t == targets@,
                batch == t.len(),
                x.len() == batch * n,
                classes_below(t, n as nat),
                sums@.len() == batch,
                forall|j: int|
                    0 <= j < batch ==> #[trigger] sums@[j] == exp_sum(x, j, n as nat, n as nat),
                loss@.len() == b,
                forall|j: int|
                    0 <= j < b ==> #[trigger] loss@[j] == cross_entropy(
                        x,
                        j,
                        t[j] as int,
                        n as nat,
                    ),
            decreases batch - b,
        {
            let target: usize = targets[b] as usize;
            proof {
                lemma_flat(b as int, target as int, batch as int, n as int);
                assert(inputs.len() == x.len());
            }
            let share: T = inputs[b * n + target].exp().over(sums[b]);
            loss.push(T::count(1).negated().times(share.ln()));
            b += 1;
        }
        let mut input_grads: Vec<T> = Vec::new();
        let mut b: usize = 0;
        while b < batch
            invariant
                b <= batch,
                x == inputs@,
                t == targets@,
                batch == t.len(),
                x.len() == batch * n,
                sums@.len() == batch,
                forall|j: int|
                    0 <= j < batch ==> #[trigger] sums@[j] == exp_sum(x, j, n as nat, n as nat),
                input_grads@.len() == b * n,
                forall|k: int|
                    0 <= k < input_grads@.len() ==> #[trigger] input_grads@[k]
                        == cross_entropy_grad(
                        x,
                        k / (n as int),
                        k % (n as int),
                        t[k / (n as int)] as int,
                        n as nat,
                    ),
            decreases batch - b,
        {
            let target: usize = targets[b] as usize;
            let mut i: usize = 0;
            while i < n
                invariant
                    b < batch,
                    i <= n,
                    x == inputs@,
                    t == targets@,
                    batch == t.len(),
                    x.len() == batch * n,
                    target == t[b as int],
                    sums@.len() == batch,
                    forall|j: int|
                        0 <= j < batch ==> #[trigger] sums@[j] == exp_sum(
                            x,
                            j,
                            n as nat,
                            n as nat,
                        ),
                    input_grads@.len() == b * n + i,
                    forall|k: int|
                        0 <= k < input_grads@.len() ==> #[trigger] input_grads@[k]
                            == cross_entropy_grad(
                            x,
                            k / (n as int),
                            k % (n as int),
                            t[k / (n as int)] as int,
                            n as nat,
                        ),
                decreases n - i,
            {
                proof {
                    lemma_flat(b as int, i as int, batch as int, n as int);
                    assert(inputs.len() == x.len());
                }
                let share: T = inputs[b * n + i].exp().over(sums[b]);
                let grad: T = if i == target {
                    share.minus(T::count(1))
                } else {
                    share
                };
                input_grads.push(grad);
                i += 1;
            }
            proof {
                assert(b * n + n == (b + 1) * n) by (nonlinear_arith);
            }
            b += 1;
        }
        proof {
            assert(loss@ =~= cross_entropy_losses(x, t, n as nat));
            assert(input_grads@ =~= cross_entropy_grads(x, t, n as nat));
        }
        Nll { n, loss, input_grads }
    }
}

} // verus!
