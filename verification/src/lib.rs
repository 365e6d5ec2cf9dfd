//! A small feed-forward training engine: dense layers with hand-derived
//! gradients, an elementwise activation, two loss functions and the
//! epoch/batch loop that chains them.
//!
//! Everything is generic over the scalar type, so the arithmetic itself is a
//! parameter; see [`scalar::Scalar`] for what is asked of it.

use vstd::prelude::*;
use std::ops::Range;
use crate::error::ConfigError;
use crate::network::initial_network;
use crate::nll::NllOutput;
use crate::relu::LossFn;
use crate::scalar::Scalar;

pub mod error;
pub mod fields;
pub mod layer;
pub mod mnist;
pub mod network;
pub mod nll;
pub mod pahdb;
pub mod qff;
pub mod relu;
pub mod scalar;
pub mod shape;
pub mod training;

verus! {

/// The mathematical content of a dataset: its four dimensions, the batch
/// size it is trained with, and its four flat buffers.
pub struct DatasetView<T, Label> {
    /// Values per example.
    pub input_size: nat,
    /// Values per result of the network.
    pub output_size: nat,
    /// Examples per training batch.
    pub batch_size: nat,
    /// Label entries per example.
    pub label_size: nat,
    /// Examples in the training set.
    pub data_size: nat,
    pub train_data: Seq<T>,
    pub train_labels: Seq<Label>,
    pub test_data: Seq<T>,
    pub test_labels: Seq<Label>,
}

impl<T, Label> DatasetView<T, Label> {
    /// The data contract: the buffers hold whole examples, as many as the
    /// dimensions say, every example has its label, and each buffer is one
    /// the machine can hold.
    pub open spec fn wf(self) -> bool {
        &&& self.label_size > 0
        &&& self.train_data.len() <= usize::MAX
        &&& self.train_labels.len() <= usize::MAX
        &&& self.test_data.len() <= usize::MAX
        &&& self.test_labels.len() <= usize::MAX
        &&& self.train_data.len() == self.data_size * self.input_size
        &&& self.train_labels.len() == self.data_size * self.label_size
        &&& self.test_data.len() == self.test_size() * self.input_size
        &&& self.test_labels.len() == self.test_size() * self.label_size
    }

    /// Examples in the validation set.
    pub open spec fn test_size(self) -> nat {
        if self.input_size == 0 {
            0
        } else {
            self.test_data.len() / self.input_size
        }
    }

    /// How many batches one epoch trains on: the whole batches that fit. The
    /// examples left over are not trained on.
    pub open spec fn batches(self) -> nat {
        if self.batch_size == 0 {
            0
        } else {
            self.data_size / self.batch_size
        }
    }

    /// The examples of batch `i`.
    pub open spec fn batch_data(self, i: nat) -> Seq<T> {
        self.train_data.subrange(
            (i * self.input_size * self.batch_size) as int,
            ((i + 1) * self.input_size * self.batch_size) as int,
        )
    }

    /// The labels of batch `i`.
    pub open spec fn batch_labels(self, i: nat) -> Seq<Label> {
        self.train_labels.subrange(
            (i * self.label_size * self.batch_size) as int,
            ((i + 1) * self.label_size * self.batch_size) as int,
        )
    }
}

/// A dataset together with the loss function and the scoring function that
/// suit its labels.
///
/// Whatever implements this can be trained on, see [`Train`].
pub trait Dataset<T: Scalar, Label: Copy>: Sized {
    /// What the dataset holds.
    spec fn model(&self) -> DatasetView<T, Label>;

    /// The invariant of the implementing type.
    spec fn wf(&self) -> bool;

    /// Whether the loss function accepts these labels.
    spec fn labels_ok(&self, targets: Seq<Label>) -> bool;

    /// The loss of each example, given the network's results for a batch and
    /// the labels of that batch.
    spec fn losses_spec(&self, inputs: Seq<T>, targets: Seq<Label>) -> Seq<T>;

    /// The gradient of the loss with respect to each of the network's
    /// results for a batch.
    spec fn loss_grads_spec(&self, inputs: Seq<T>, targets: Seq<Label>) -> Seq<T>;

    /// The score of the network's results `got` against the labels `want`.
    spec fn score_spec(&self, got: Seq<T>, want: Seq<Label>) -> T;

    fn input_size(&self) -> (r: usize)
        requires
            self.wf(),
        ensures
            r == self.model().input_size,
    ;

    fn output_size(&self) -> (r: usize)
        requires
            self.wf(),
        ensures
            r == self.model().output_size,
    ;

    fn batch_size(&self) -> (r: usize)
        requires
            self.wf(),
        ensures
            r == self.model().batch_size,
    ;

    /// The total size of the training set, in examples.
    fn data_size(&self) -> (r: usize)
        requires
            self.wf(),
        ensures
            r == self.model().data_size,
    ;

    /// The length of each label value.
    fn label_size(&self) -> (r: usize)
        requires
            self.wf(),
        ensures
            r == self.model().label_size,
    ;

    /// Returns a slice of the training data.
    fn train_data(&self, r: Range<usize>) -> (out: &[T])
        requires
            self.wf(),
            r.start <= r.end <= self.model().train_data.len(),
        ensures
            out@ == self.model().train_data.subrange(r.start as int, r.end as int),
    ;

    /// Returns a slice of the training labels.
    fn train_labels(&self, r: Range<usize>) -> (out: &[Label])
        requires
            self.wf(),
            r.start <= r.end <= self.model().train_labels.len(),
        ensures
            out@ == self.model().train_labels.subrange(r.start as int, r.end as int),
    ;

    /// Returns a reference to the validation data.
    fn test_data(&self) -> (out: &[T])
        requires
            self.wf(),
        ensures
            out@ == self.model().test_data,
    ;

    /// Returns a reference to the validation labels.
    fn test_labels(&self) -> (out: &[Label])
        requires
            self.wf(),
        ensures
            out@ == self.model().test_labels,
    ;

    /// Assesses the network's results `got` for some examples against the
    /// labels `want` of those examples. There is no score for no examples.
    fn check_output(&self, got: &[T], want: &[Label]) -> (r: Result<T, ConfigError>)
        requires
            self.wf(),
            self.model().wf(),
            want@.len() % self.model().label_size == 0,
            got@.len() == (want@.len() / self.model().label_size) * self.model().output_size,
            self.labels_ok(want@),
        ensures
            want@.len() == 0 ==> r == Err::<T, ConfigError>(ConfigError::EmptyValidation),
            want@.len() > 0 ==> r == Ok::<T, ConfigError>(self.score_spec(got@, want@)),
    ;

    /// The loss function for the model: the network's results `inputs` for a
    /// batch against the labels `targets` of that batch.
    fn nll(&self, inputs: Vec<T>, targets: &[Label]) -> (r: NllOutput<T>)
        requires
            self.wf(),
            self.model().wf(),
            targets@.len() % self.model().label_size == 0,
            inputs@.len() == (targets@.len() / self.model().label_size) * self.model().output_size,
            self.labels_ok(targets@),
        ensures
            r.loss@ == self.losses_spec(inputs@, targets@),
            r.input_grads@ == self.loss_grads_spec(inputs@, targets@),
            r.input_grads@.len() == inputs@.len(),
    ;
}

/// The training loop over a [`Dataset`].
pub trait Train<T: Scalar, Label: Copy>: Dataset<T, Label> {
    /// Performs the actual training: builds the network from `draws`, runs
    /// `epochs` epochs and returns the validation score of each, in order.
    ///
    /// What stands in the way of the run is found before the first batch and
    /// reported; see [`training::train_error`].
    fn train(&self, epochs: usize, fun: LossFn, draws: &[T]) -> (r: Result<Vec<T>, ConfigError>)
        requires
            self.wf(),
            self.model().wf(),
            training::labelled(self),
        ensures
            match training::train_error(self, draws@.len()) {
                Some(e) => r == Err::<Vec<T>, ConfigError>(e),
                None => r is Ok && r->Ok_0@ == training::scores(
                    self,
                    initial_network(self.model().input_size, self.model().output_size, fun, draws@),
                    epochs as nat,
                ),
            },
    ;
}

impl<T: Scalar, Label: Copy, D: Dataset<T, Label>> Train<T, Label> for D {
    fn train(&self, epochs: usize, fun: LossFn, draws: &[T]) -> (r: Result<Vec<T>, ConfigError>) {
        training::run(self, epochs, fun, draws)
    }
}

} // verus!
