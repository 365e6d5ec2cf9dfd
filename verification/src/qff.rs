//! Regression on continuous targets: the dataset, its deviation score and
//! its loss.

use vstd::prelude::*;
use std::ops::Range;
use crate::error::ConfigError;
use crate::nll::NllOutput;
use crate::scalar::{zero, Scalar};
use crate::shape::lemma_same_length;
use crate::training::labelled;
use crate::{Dataset, DatasetView};

verus! {

/// Records per training batch.
pub const BATCH_SIZE: usize = 2;

/// What the regression gradient is divided by, so that it does not outweigh
/// the fixed step size.
pub const DAMPING: usize = 1000;

/// A regression dataset: flat matrices, and for each a vector of continuous
/// targets as wide as the network's result.
pub struct Qff<T> {
    pub train_data: Vec<T>,
    pub train_labels: Vec<T>,
    pub test_data: Vec<T>,
    pub test_labels: Vec<T>,
    /// Values per matrix.
    pub input_size: usize,
    /// Targets per record.
    pub label_size: usize,
    /// Values per result of the network.
    pub output_size: usize,
    /// Records in the training set.
    pub data_size: usize,
}

/// The loss of each prediction: the magnitude of prediction less target.
pub open spec fn absolute_errors<T: Scalar>(inputs: Seq<T>, targets: Seq<T>) -> Seq<T> {
    Seq::new(targets.len(), |k: int| inputs[k].minus_spec(targets[k]).magnitude_spec())
}

/// The gradient of the loss with respect to each prediction: prediction less
/// target, over [`DAMPING`].
pub open spec fn damped_residuals<T: Scalar>(inputs: Seq<T>, targets: Seq<T>) -> Seq<T> {
    Seq::new(
        inputs.len(),
        |k: int| inputs[k].minus_spec(targets[k]).over_spec(T::count_spec(DAMPING)),
    )
}

/// The running sum of squared deviations: over the first `m` values, in
/// ascending order and starting from zero, of `(want - got)` squared.
pub open spec fn squared_error<T: Scalar>(got: Seq<T>, want: Seq<T>, m: nat) -> T
    decreases m,
{
    if m == 0 {
        zero::<T>()
    } else {
        let diff = want[m - 1].minus_spec(got[m - 1]);
        squared_error(got, want, (m - 1) as nat).plus_spec(diff.times_spec(diff))
    }
}

/// The root-mean-square deviation of `got` from `want`: the square root of
/// the sum of squared deviations over the number of values.
pub open spec fn rmsd_spec<T: Scalar>(got: Seq<T>, want: Seq<T>) -> T {
    squared_error(got, want, want.len()).over_spec(
        T::count_spec(want.len() as usize),
    ).sqrt_spec()
}

/// The regression loss of the predictions `inputs` against the targets
/// `targets`, value by value: the loss is the absolute error, and the
/// gradient is the signed error over [`DAMPING`].
pub fn absolute_error<T: Scalar>(inputs: Vec<T>, targets: &[T]) -> (r: NllOutput<T>)
    requires
        inputs@.len() == targets@.len(),
    ensures
        r.loss@ == absolute_errors(inputs@, targets@),
        r.input_grads@ == damped_residuals(inputs@, targets@),
        r.input_grads@.len() == inputs@.len(),
{
    let count: usize = targets.len();
    let damping: T = T::count(DAMPING);
    let mut loss: Vec<T> = Vec::with_capacity(count);
    let mut input_grads: Vec<T> = Vec::with_capacity(count);
    let mut k: usize = 0;
    while k < count
        invariant
            k <= count,
            count == targets@.len(),
            count == inputs@.len(),
            damping == T::count_spec(DAMPING),
            loss@.len() == k,
            input_grads@.len() == k,
            forall|j: int|
                0 <= j < k ==> #[trigger] loss@[j] == inputs@[j].minus_spec(
                    targets@[j],
                ).magnitude_spec(),
            forall|j: int|
                0 <= j < k ==> #[trigger] input_grads@[j] == inputs@[j].minus_spec(
                    targets@[j],
                ).over_spec(damping),
        decreases count - k,
    {
        let diff: T = inputs[k].minus(targets[k]);
        loss.push(diff.magnitude());
        input_grads.push(diff.over(damping));
        k += 1;
    }
    proof {
        assert(loss@ =~= absolute_errors(inputs@, targets@));
        assert(input_grads@ =~= damped_residuals(inputs@, targets@));
    }
    NllOutput { loss, input_grads }
}

/// Scores the predictions `got` against the targets `want` by their
/// root-mean-square deviation. There is no deviation of no values.
pub fn rmsd<T: Scalar>(got: &[T], want: &[T]) -> (r: Result<T, ConfigError>)
    requires
        got@.len() == want@.len(),
    ensures
        want@.len() == 0 ==> r == Err::<T, ConfigError>(ConfigError::EmptyValidation),
        want@.len() > 0 ==> r == Ok::<T, ConfigError>(rmsd_spec(got@, want@)),
{
    let count: usize = want.len();
    if count == 0 {
        return Err(ConfigError::EmptyValidation);
    }
    let mut sum: T = T::count(0);
    let mut k: usize = 0;
    while k < count
        invariant
            k <= count,
            count == want@.len(),
            count == got@.len(),
            sum == squared_error(got@, want@, k as nat),
        decreases count - k,
    {
        let diff: T = want[k].minus(got[k]);
        sum = sum.plus(diff.times(diff));
        k += 1;
    }
    Ok(sum.over(T::count(count)).sqrt())
}

impl<T: Scalar> Qff<T> {
    /// The invariant of the dataset: it meets the data contract, and a
    /// record has as many targets as the network has results.
    pub open spec fn wf(&self) -> bool {
        &&& self.model().wf()
        &&& self.label_size == self.output_size
    }

    /// Decides whether the dataset keeps its invariant. One that does can be
    /// trained on.
    pub fn valid(&self) -> (r: bool)
        ensures
            r == self.wf(),
            r ==> self.model().wf() && labelled(self),
    {
        proof {
            assert(self.train_data.len() == self.train_data@.len());
            assert(self.train_labels.len() == self.train_labels@.len());
            assert(self.test_data.len() == self.test_data@.len());
            assert(self.test_labels.len() == self.test_labels@.len());
        }
        if self.label_size == 0 || self.label_size != self.output_size {
            return false;
        }
        match self.data_size.checked_mul(self.input_size) {
            Some(count) => {
                if self.train_data.len() != count {
                    return false;
                }
            },
            None => {
                return false;
            },
        }
        match self.data_size.checked_mul(self.label_size) {
            Some(count) => {
                if self.train_labels.len() != count {
                    return false;
                }
            },
            None => {
                return false;
            },
        }
        let examples: usize = if self.input_size == 0 {
            0
        } else {
            self.test_data.len() / self.input_size
        };
        match examples.checked_mul(self.input_size) {
            Some(count) => {
                if self.test_data.len() != count {
                    return false;
                }
            },
            None => {
                return false;
            },
        }
        match examples.checked_mul(self.label_size) {
            Some(count) => self.test_labels.len() == count,
            None => false,
        }
    }
}

impl<T: Scalar> Dataset<T, T> for Qff<T> {
    open spec fn model(&self) -> DatasetView<T, T> {
        DatasetView {
            input_size: self.input_size as nat,
            output_size: self.output_size as nat,
            batch_size: BATCH_SIZE as nat,
            label_size: self.label_size as nat,
            data_size: self.data_size as nat,
            train_data: self.train_data@,
            train_labels: self.train_labels@,
            test_data: self.test_data@,
            test_labels: self.test_labels@,
        }
    }

    open spec fn wf(&self) -> bool {
        Qff::wf(self)
    }

    open spec fn labels_ok(&self, targets: Seq<T>) -> bool {
        true
    }

    open spec fn losses_spec(&self, inputs: Seq<T>, targets: Seq<T>) -> Seq<T> {
        absolute_errors(inputs, targets)
    }

    open spec fn loss_grads_spec(&self, inputs: Seq<T>, targets: Seq<T>) -> Seq<T> {
        damped_residuals(inputs, targets)
    }

    open spec fn score_spec(&self, got: Seq<T>, want: Seq<T>) -> T {
        rmsd_spec(got, want)
    }

    /// The size of the input matrices, padded to the largest.
    fn input_size(&self) -> (r: usize) {
        self.input_size
    }

    /// Also the size of the target vectors.
    fn output_size(&self) -> (r: usize) {
        self.output_size
    }

    fn batch_size(&self) -> (r: usize) {
        BATCH_SIZE
    }

    fn data_size(&self) -> (r: usize) {
        self.data_size
    }

    /// The size of the target vectors, padded to the longest.
    fn label_size(&self) -> (r: usize) {
        self.label_size
    }

    fn train_data(&self, r: Range<usize>) -> (out: &[T]) {
        &self.train_data.as_slice()[r]
    }

    fn train_labels(&self, r: Range<usize>) -> (out: &[T]) {
        &self.train_labels.as_slice()[r]
    }

    fn test_data(&self) -> (out: &[T]) {
        self.test_data.as_slice()
    }

    fn test_labels(&self) -> (out: &[T]) {
        self.test_labels.as_slice()
    }

    /// The root-mean-square deviation of the results from the targets.
    fn check_output(&self, got: &[T], want: &[T]) -> (r: Result<T, ConfigError>) {
        proof {
            lemma_same_length(want@.len(), self.label_size as nat);
        }
        rmsd(got, want)
    }

    /// The absolute error of the results against the targets, with its
    /// damped gradient.
    fn nll(&self, inputs: Vec<T>, targets: &[T]) -> (r: NllOutput<T>) {
        proof {
            lemma_same_length(targets@.len(), self.label_size as nat);
        }
        absolute_error(inputs, targets)
    }
}

} // verus!
