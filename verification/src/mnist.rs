//! Image classification: the dataset, its accuracy score and its loss.

use vstd::prelude::*;
use std::ops::Range;
use crate::error::ConfigError;
use crate::nll::{classes_below, cross_entropy_grads, cross_entropy_losses, Nll, NllOutput};
use crate::scalar::Scalar;
use crate::shape::{copy_of, flat, lemma_flat, lemma_whole_rows};
use crate::training::{labelled, lemma_batch_range};
use crate::{Dataset, DatasetView};

verus! {

/// Values per image.
pub const INPUT_SIZE: usize = 784;

/// Classes an image can belong to.
pub const OUTPUT_SIZE: usize = 10;

/// Images per training batch.
pub const BATCH_SIZE: usize = 32;

/// The brightest a pixel can be.
pub const PIXEL_MAX: usize = 255;

/// Bytes that come before the first pixel in a file of images.
pub const IMAGE_HEADER: usize = 16;

/// Bytes that come before the first label in a file of labels.
pub const LABEL_HEADER: usize = 8;

/// An image-classification dataset: flat images, one class index per image.
pub struct Data<T> {
    pub training_data: Vec<T>,
    pub train_labels: Vec<u8>,
    pub test_images: Vec<T>,
    pub test_labels: Vec<u8>,
    /// Values per image.
    pub input_size: usize,
    /// Classes an image can belong to.
    pub output_size: usize,
    /// Images per training batch.
    pub batch_size: usize,
}

/// A pixel as a scalar between zero and one.
pub open spec fn pixel<T: Scalar>(byte: u8) -> T {
    T::count_spec(byte as usize).over_spec(T::count_spec(PIXEL_MAX))
}

/// Every pixel as a scalar between zero and one.
pub open spec fn pixels<T: Scalar>(bytes: Seq<u8>) -> Seq<T> {
    Seq::new(bytes.len(), |k: int| pixel::<T>(bytes[k]))
}

/// Computes [`pixels`].
pub fn scale_pixels<T: Scalar>(bytes: &[u8]) -> (r: Vec<T>)
    ensures
        r@ == pixels::<T>(bytes@),
{
    let count: usize = bytes.len();
    let top: T = T::count(PIXEL_MAX);
    let mut r: Vec<T> = Vec::with_capacity(count);
    let mut k: usize = 0;
    while k < count
        invariant
            k <= count,
            count == bytes@.len(),
            top == T::count_spec(PIXEL_MAX),
            r@ == pixels::<T>(bytes@.take(k as int)),
        decreases count - k,
    {
        r.push(T::count(bytes[k] as usize).over(top));
        assert(r@ =~= pixels::<T>(bytes@.take(k + 1)));
        k += 1;
    }
    assert(bytes@.take(count as int) =~= bytes@);
    r
}

/// What a file holds after its first `skip` bytes; nothing where the file is
/// no longer than that.
pub open spec fn payload_spec(file: Seq<u8>, skip: nat) -> Seq<u8> {
    if skip <= file.len() {
        file.skip(skip as int)
    } else {
        Seq::empty()
    }
}

/// Computes [`payload_spec`].
pub fn payload(file: &[u8], skip: usize) -> (r: &[u8])
    ensures
        r@ == payload_spec(file@, skip as nat),
{
    let end: usize = file.len();
    if skip <= end {
        let r = &file[skip..end];
        assert(r@ =~= file@.skip(skip as int));
        r
    } else {
        let r = &file[end..end];
        assert(r@ =~= Seq::<u8>::empty());
        r
    }
}

/// The class the network picks for example `b`, looking at the first `m` of
/// its `n` scores: the position of the largest score, and of the last such
/// where several are equally large. A score takes the place of the best so
/// far unless it is below it.
pub open spec fn argmax<T: Scalar>(got: Seq<T>, b: int, n: nat, m: nat) -> int
    decreases m,
{
    if m <= 1 {
        0
    } else {
        let best = argmax(got, b, n, (m - 1) as nat);
        if got[flat(b, m - 1, n as int)].below_spec(got[flat(b, best, n as int)]) {
            best
        } else {
            m - 1
        }
    }
}

/// How many of the first `m` examples the network classifies as their label
/// says.
pub open spec fn hits<T: Scalar>(got: Seq<T>, want: Seq<u8>, n: nat, m: nat) -> nat
    decreases m,
{
    if m == 0 {
        0
    } else {
        hits(got, want, n, (m - 1) as nat) + if argmax(got, m - 1, n, n) == want[m - 1] {
            1nat
        } else {
            0nat
        }
    }
}

/// The share of examples classified as their label says, as a percentage:
/// the number of hits, times one hundred, over the number of examples.
pub open spec fn accuracy_spec<T: Scalar>(got: Seq<T>, want: Seq<u8>, n: nat) -> T {
    T::count_spec(hits(got, want, n, want.len()) as usize).times_spec(
        T::count_spec(100),
    ).over_spec(T::count_spec(want.len() as usize))
}

/// The pick lies among the scores looked at.
pub proof fn lemma_argmax_bound<T: Scalar>(got: Seq<T>, b: int, n: nat, m: nat)
    ensures
        0 <= argmax(got, b, n, m),
        m > 0 ==> argmax(got, b, n, m) < m,
    decreases m,
{
    if m > 1 {
        lemma_argmax_bound(got, b, n, (m - 1) as nat);
    }
}

/// `below` orders the first `m` scores of example `b` as `<` orders numbers
/// that can all be compared: nothing is below itself, of two scores at most
/// one is below the other, and a score that is not below a second, which is
/// not below a third, is not below the third.
pub open spec fn comparable<T: Scalar>(got: Seq<T>, b: int, n: nat, m: nat) -> bool {
    &&& forall|i: int, j: int|
        0 <= i < m && 0 <= j < m && (#[trigger] got[flat(b, i, n as int)]).below_spec(
            #[trigger] got[flat(b, j, n as int)],
        ) ==> !got[flat(b, j, n as int)].below_spec(got[flat(b, i, n as int)])
    &&& forall|i: int, j: int, k: int|
        0 <= i < m && 0 <= j < m && 0 <= k < m && !(#[trigger] got[flat(
            b,
            i,
            n as int,
        )]).below_spec(#[trigger] got[flat(b, j, n as int)]) && !got[flat(b, j, n as int)].below_spec(
            #[trigger] got[flat(b, k, n as int)],
        ) ==> !got[flat(b, i, n as int)].below_spec(got[flat(b, k, n as int)])
}

/// Where the scores can all be compared, the pick is a largest score, and
/// the last of the largest: no score is above it, and every score after it
/// is below it.
pub proof fn lemma_argmax_is_largest<T: Scalar>(got: Seq<T>, b: int, n: nat, m: nat)
    requires
        m > 0,
        comparable(got, b, n, m),
    ensures
        forall|j: int|
            0 <= j < m ==> !got[flat(b, argmax(got, b, n, m), n as int)].below_spec(
                #[trigger] got[flat(b, j, n as int)],
            ),
        forall|j: int|
            argmax(got, b, n, m) < j < m ==> (#[trigger] got[flat(b, j, n as int)]).below_spec(
                got[flat(b, argmax(got, b, n, m), n as int)],
            ),
    decreases m,
{
    lemma_argmax_bound(got, b, n, m);
    if m > 1 {
        let before = (m - 1) as nat;
        assert(comparable(got, b, n, before));
        lemma_argmax_is_largest(got, b, n, before);
        lemma_argmax_bound(got, b, n, before);
        let best = argmax(got, b, n, before);
        let last = got[flat(b, m - 1, n as int)];
        let held = got[flat(b, best, n as int)];
        if last.below_spec(held) {
            assert forall|j: int| 0 <= j < m implies !held.below_spec(
                #[trigger] got[flat(b, j, n as int)],
            ) by {
                if j == m - 1 {
                    assert(!got[flat(b, best, n as int)].below_spec(got[flat(b, m - 1, n as int)]));
                }
            }
        } else {
            assert forall|j: int| 0 <= j < m implies !last.below_spec(
                #[trigger] got[flat(b, j, n as int)],
            ) by {
                if j < m - 1 {
                    assert(!got[flat(b, m - 1, n as int)].below_spec(got[flat(b, best, n as int)]));
                    assert(!got[flat(b, best, n as int)].below_spec(got[flat(b, j, n as int)]));
                } else {
                    assert(!got[flat(b, m - 1, n as int)].below_spec(got[flat(b, m - 1, n as int)]));
                }
            }
        }
    } else {
        assert(!got[flat(b, 0, n as int)].below_spec(got[flat(b, 0, n as int)]));
    }
}

/// Scores the results `got`, `n` scores to an example, against the class
/// indices `want`: the percentage of examples whose largest score stands at
/// their label. There is no percentage of no examples.
pub fn accuracy<T: Scalar>(got: &[T], want: &[u8], n: usize) -> (r: Result<T, ConfigError>)
    requires
        n > 0,
        got@.len() == want@.len() * n,
    ensures
        want@.len() == 0 ==> r == Err::<T, ConfigError>(ConfigError::EmptyValidation),
        want@.len() > 0 ==> r == Ok::<T, ConfigError>(accuracy_spec(got@, want@, n as nat)),
{
    let examples: usize = want.len();
    if examples == 0 {
        return Err(ConfigError::EmptyValidation);
    }
    let mut correct: usize = 0;
    let mut b: usize = 0;
    while b < examples
        invariant
            b <= examples,
            n > 0,
            examples == want@.len(),
            got@.len() == examples * n,
            correct == hits(got@, want@, n as nat, b as nat),
            correct <= b,
        decreases examples - b,
    {
        let mut best: usize = 0;
        let mut j: usize = 1;
        while j < n
            invariant
                b < examples,
                1 <= j <= n,
                best < j,
                got@.len() == examples * n,
                best == argmax(got@, b as int, n as nat, j as nat),
            decreases n - j,
        {
            proof {
                lemma_flat(b as int, j as int, examples as int, n as int);
                lemma_flat(b as int, best as int, examples as int, n as int);
                assert(got.len() == got@.len());
            }
            if !got[b * n + j].below(got[b * n + best]) {
                best = j;
            }
            j += 1;
        }
        if best == want[b] as usize {
            correct += 1;
        }
        b += 1;
    }
    Ok(T::count(correct).times(T::count(100)).over(T::count(examples)))
}

impl<T: Scalar> Data<T> {
    /// The invariant of the dataset: every image has its `input_size`
    /// values and its label, there is a class to pick, and every label names
    /// a class. Images of no values cannot be counted, so a dataset of such
    /// has no validation labels either.
    pub open spec fn wf(&self) -> bool {
        &&& self.output_size > 0
        &&& self.training_data@.len() == self.train_labels@.len() * self.input_size
        &&& self.test_images@.len() == self.test_labels@.len() * self.input_size
        &&& classes_below(self.train_labels@, self.output_size as nat)
        &&& classes_below(self.test_labels@, self.output_size as nat)
        &&& self.input_size == 0 ==> self.test_labels@.len() == 0
    }

    /// A dataset of handwritten digits from the raw pixels of its images:
    /// [`INPUT_SIZE`] pixels to an image, [`OUTPUT_SIZE`] classes, batches of
    /// [`BATCH_SIZE`]. Every pixel is scaled into `[0, 1]`, see [`pixels`].
    pub fn from_pixels(
        train_pixels: &[u8],
        train_labels: Vec<u8>,
        test_pixels: &[u8],
        test_labels: Vec<u8>,
    ) -> (r: Self)
        ensures
            r.training_data@ == pixels::<T>(train_pixels@),
            r.train_labels == train_labels,
            r.test_images@ == pixels::<T>(test_pixels@),
            r.test_labels == test_labels,
            r.input_size == INPUT_SIZE,
            r.output_size == OUTPUT_SIZE,
            r.batch_size == BATCH_SIZE,
    {
        Data {
            training_data: scale_pixels(train_pixels),
            train_labels,
            test_images: scale_pixels(test_pixels),
            test_labels,
            input_size: INPUT_SIZE,
            output_size: OUTPUT_SIZE,
            batch_size: BATCH_SIZE,
        }
    }

    /// A dataset of handwritten digits from the contents of its four files:
    /// what follows the header of a file of images is its pixels, and what
    /// follows the header of a file of labels is its labels. See
    /// [`Data::from_pixels`].
    pub fn from_idx(
        train_images: &[u8],
        train_labels: &[u8],
        test_images: &[u8],
        test_labels: &[u8],
    ) -> (r: Self)
        ensures
            r.training_data@ == pixels::<T>(payload_spec(train_images@, IMAGE_HEADER as nat)),
            r.train_labels@ == payload_spec(train_labels@, LABEL_HEADER as nat),
            r.test_images@ == pixels::<T>(payload_spec(test_images@, IMAGE_HEADER as nat)),
            r.test_labels@ == payload_spec(test_labels@, LABEL_HEADER as nat),
            r.input_size == INPUT_SIZE,
            r.output_size == OUTPUT_SIZE,
            r.batch_size == BATCH_SIZE,
    {
        Self::from_pixels(
            payload(train_images, IMAGE_HEADER),
            copy_of(payload(train_labels, LABEL_HEADER)),
            payload(test_images, IMAGE_HEADER),
            copy_of(payload(test_labels, LABEL_HEADER)),
        )
    }

    /// Decides whether the dataset keeps its invariant. One that does can be
    /// trained on.
    pub fn valid(&self) -> (r: bool)
        ensures
            r == self.wf(),
            r ==> self.model().wf() && labelled(self),
    {
        proof {
            assert(self.training_data.len() == self.training_data@.len());
            assert(self.test_images.len() == self.test_images@.len());
            if self.wf() {
                self.lemma_trainable();
            }
        }
        if self.output_size == 0 {
            return false;
        }
        if self.input_size == 0 && self.test_labels.len() != 0 {
            return false;
        }
        match self.train_labels.len().checked_mul(self.input_size) {
            Some(count) => {
                if self.training_data.len() != count {
                    return false;
                }
            },
            None => {
                return false;
            },
        }
        match self.test_labels.len().checked_mul(self.input_size) {
            Some(count) => {
                if self.test_images.len() != count {
                    return false;
                }
            },
            None => {
                return false;
            },
        }
        all_below(self.train_labels.as_slice(), self.output_size) && all_below(
            self.test_labels.as_slice(),
            self.output_size,
        )
    }

    /// A dataset that keeps its invariant meets the data contract, and the
    /// loss function accepts the labels of each of its batches.
    pub proof fn lemma_trainable(&self)
        requires
            self.wf(),
        ensures
            self.model().wf(),
            labelled(self),
    {
        let m = self.model();
        assert(self.training_data.len() == self.training_data@.len());
        assert(self.test_images.len() == self.test_images@.len());
        assert(self.train_labels.len() == self.train_labels@.len());
        assert(self.test_labels.len() == self.test_labels@.len());
        if self.input_size > 0 {
            lemma_whole_rows(self.test_labels@.len(), self.input_size as nat);
        }
        assert(m.test_size() == self.test_labels@.len());
        assert(m.train_data.len() == m.data_size * m.input_size) by (nonlinear_arith)
            requires
                m.train_data.len() == self.train_labels@.len() * self.input_size,
                m.data_size == self.train_labels@.len(),
                m.input_size == self.input_size,
        ;
        assert forall|i: nat| i < m.batches() implies self.labels_ok(
            #[trigger] m.batch_labels(i),
        ) by {
            lemma_batch_range(i, 1, m.batch_size, m.data_size);
        }
    }
}

/// Decides whether every target names one of the `n` classes.
pub fn all_below(targets: &[u8], n: usize) -> (r: bool)
    ensures
        r == classes_below(targets@, n as nat),
{
    let count: usize = targets.len();
    let mut k: usize = 0;
    while k < count
        invariant
            k <= count,
            count == targets@.len(),
            forall|j: int| 0 <= j < k ==> #[trigger] targets@[j] < n,
        decreases count - k,
    {
        if targets[k] as usize >= n {
            return false;
        }
        k += 1;
    }
    true
}

impl<T: Scalar> Dataset<T, u8> for Data<T> {
    open spec fn model(&self) -> DatasetView<T, u8> {
        DatasetView {
            input_size: self.input_size as nat,
            output_size: self.output_size as nat,
            batch_size: self.batch_size as nat,
            label_size: 1,
            data_size: self.train_labels@.len(),
            train_data: self.training_data@,
            train_labels: self.train_labels@,
            test_data: self.test_images@,
            test_labels: self.test_labels@,
        }
    }

    open spec fn wf(&self) -> bool {
        Data::wf(self)
    }

    open spec fn labels_ok(&self, targets: Seq<u8>) -> bool {
        classes_below(targets, self.output_size as nat)
    }

    open spec fn losses_spec(&self, inputs: Seq<T>, targets: Seq<u8>) -> Seq<T> {
        cross_entropy_losses(inputs, targets, self.output_size as nat)
    }

    open spec fn loss_grads_spec(&self, inputs: Seq<T>, targets: Seq<u8>) -> Seq<T> {
        cross_entropy_grads(inputs, targets, self.output_size as nat)
    }

    open spec fn score_spec(&self, got: Seq<T>, want: Seq<u8>) -> T {
        accuracy_spec(got, want, self.output_size as nat)
    }

    fn input_size(&self) -> (r: usize) {
        self.input_size
    }

    fn output_size(&self) -> (r: usize) {
        self.output_size
    }

    fn batch_size(&self) -> (r: usize) {
        self.batch_size
    }

    fn data_size(&self) -> (r: usize) {
        self.train_labels.len()
    }

    fn label_size(&self) -> (r: usize) {
        1
    }

    fn train_data(&self, r: Range<usize>) -> (out: &[T]) {
        &self.training_data.as_slice()[r]
    }

    fn train_labels(&self, r: Range<usize>) -> (out: &[u8]) {
        &self.train_labels.as_slice()[r]
    }

    fn test_data(&self) -> (out: &[T]) {
        self.test_images.as_slice()
    }

    fn test_labels(&self) -> (out: &[u8]) {
        self.test_labels.as_slice()
    }

    /// The percentage of examples classified as their label says.
    fn check_output(&self, got: &[T], want: &[u8]) -> (r: Result<T, ConfigError>) {
        accuracy(got, want, self.output_size)
    }

    /// The categorical cross-entropy of the scores against the class indices.
    fn nll(&self, inputs: Vec<T>, targets: &[u8]) -> (r: NllOutput<T>) {
        let found = Nll::new(self.output_size, inputs, targets);
        NllOutput { loss: found.loss, input_grads: found.input_grads }
    }
}

} // verus!
