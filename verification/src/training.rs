//! Epochs and batches: what a training run computes, and the loop that
//! computes it.

use vstd::prelude::*;
use crate::error::ConfigError;
use crate::network::{initial_network, network_error, Network, NetworkView, EDGES};
use crate::scalar::{zero, Scalar};
use crate::shape::{copy_of, lemma_whole_rows};
use crate::relu::LossFn;
use crate::{Dataset, DatasetView};

verus! {

/// What one epoch yields.
pub struct Epoch<T> {
    /// The network's results for the whole validation set.
    pub outputs: Vec<T>,
    /// The score of those results against the validation labels.
    pub score: T,
    /// The scores of the training batches, each taken before the batch was
    /// learnt from, added up in order.
    pub pred_error: T,
}

/// The network after it has trained on batch `i`: a forward pass over the
/// batch, the loss gradients for what came out, and the backward pass with
/// both updates.
pub open spec fn after_batch<T: Scalar, Label: Copy, D: Dataset<T, Label>>(
    d: &D,
    v: NetworkView<T>,
    i: nat,
) -> NetworkView<T> {
    let x = d.model().batch_data(i);
    v.after_step(x, d.loss_grads_spec(v.output(x), d.model().batch_labels(i)))
}

/// The score of the network's results for batch `i`, before it trains on it.
pub open spec fn batch_score<T: Scalar, Label: Copy, D: Dataset<T, Label>>(
    d: &D,
    v: NetworkView<T>,
    i: nat,
) -> T {
    d.score_spec(v.output(d.model().batch_data(i)), d.model().batch_labels(i))
}

/// The network after it has trained on the first `n` batches, one after the
/// other: each batch meets the weights the one before it left.
pub open spec fn after_batches<T: Scalar, Label: Copy, D: Dataset<T, Label>>(
    d: &D,
    v: NetworkView<T>,
    n: nat,
) -> NetworkView<T>
    decreases n,
{
    if n == 0 {
        v
    } else {
        after_batch(d, after_batches(d, v, (n - 1) as nat), (n - 1) as nat)
    }
}

/// The running sum of the scores of the first `n` training batches.
pub open spec fn pred_error<T: Scalar, Label: Copy, D: Dataset<T, Label>>(
    d: &D,
    v: NetworkView<T>,
    n: nat,
) -> T
    decreases n,
{
    if n == 0 {
        zero::<T>()
    } else {
        pred_error(d, v, (n - 1) as nat).plus_spec(
            batch_score(d, after_batches(d, v, (n - 1) as nat), (n - 1) as nat),
        )
    }
}

/// The network after the training phase of one epoch.
pub open spec fn after_training<T: Scalar, Label: Copy, D: Dataset<T, Label>>(
    d: &D,
    v: NetworkView<T>,
) -> NetworkView<T> {
    after_batches(d, v, d.model().batches())
}

/// The results for the validation set of a network `v`, no training in
/// between.
pub open spec fn validation_outputs<T: Scalar, Label: Copy, D: Dataset<T, Label>>(
    d: &D,
    v: NetworkView<T>,
) -> Seq<T> {
    v.output(d.model().test_data)
}

/// The validation score of a network `v`, no training in between.
pub open spec fn validation_score<T: Scalar, Label: Copy, D: Dataset<T, Label>>(
    d: &D,
    v: NetworkView<T>,
) -> T {
    d.score_spec(validation_outputs(d, v), d.model().test_labels)
}

/// The network after one whole epoch that started from `v`: the training
/// phase, then the forward pass of the validation phase.
pub open spec fn after_epoch<T: Scalar, Label: Copy, D: Dataset<T, Label>>(
    d: &D,
    v: NetworkView<T>,
) -> NetworkView<T> {
    after_training(d, v).after_forward(d.model().test_data)
}

/// The network after `e` epochs.
pub open spec fn after_epochs<T: Scalar, Label: Copy, D: Dataset<T, Label>>(
    d: &D,
    v: NetworkView<T>,
    e: nat,
) -> NetworkView<T>
    decreases e,
{
    if e == 0 {
        v
    } else {
        after_epoch(d, after_epochs(d, v, (e - 1) as nat))
    }
}

/// The validation score that the epoch starting from `v` reports: that of
/// the network as its training phase leaves it.
pub open spec fn epoch_score<T: Scalar, Label: Copy, D: Dataset<T, Label>>(
    d: &D,
    v: NetworkView<T>,
) -> T {
    validation_score(d, after_training(d, v))
}

/// The validation scores of `e` epochs in a row.
pub open spec fn scores<T: Scalar, Label: Copy, D: Dataset<T, Label>>(
    d: &D,
    v: NetworkView<T>,
    e: nat,
) -> Seq<T> {
    Seq::new(e, |k: int| epoch_score(d, after_epochs(d, v, k as nat)))
}

/// The loss function accepts the labels of every training batch and those
/// of the validation set.
pub open spec fn labelled<T: Scalar, Label: Copy, D: Dataset<T, Label>>(d: &D) -> bool {
    &&& forall|i: nat| i < d.model().batches() ==> d.labels_ok(#[trigger] d.model().batch_labels(i))
    &&& d.labels_ok(d.model().test_labels)
}

/// The network `v` can be trained on the dataset: the widths agree, a batch
/// has examples, and the buffers of one batch fit the machine word.
pub open spec fn fits<T: Scalar, Label: Copy, D: Dataset<T, Label>>(
    d: &D,
    v: NetworkView<T>,
) -> bool {
    &&& v.wf()
    &&& v.layer1.inputs == d.model().input_size
    &&& v.layer2.outputs == d.model().output_size
    &&& d.model().batch_size > 0
    &&& d.model().batch_size * v.layer1.outputs <= usize::MAX
    &&& d.model().batch_size * d.model().output_size <= usize::MAX
}

/// The network `v` can be validated on the dataset: there is an example to
/// score, and the buffers of the whole validation set fit the machine word.
pub open spec fn validates<T: Scalar, Label: Copy, D: Dataset<T, Label>>(
    d: &D,
    v: NetworkView<T>,
) -> bool {
    &&& v.wf()
    &&& v.layer1.inputs == d.model().input_size
    &&& v.layer2.outputs == d.model().output_size
    &&& d.model().test_size() > 0
    &&& d.model().test_size() * v.layer1.outputs <= usize::MAX
    &&& d.model().test_size() * d.model().output_size <= usize::MAX
}

/// The error, if any, that stops a training run on the dataset with `draws`
/// initial draws. It depends on the configuration alone and is found before
/// the first batch.
pub open spec fn train_error<T: Scalar, Label: Copy, D: Dataset<T, Label>>(
    d: &D,
    draws: nat,
) -> Option<ConfigError> {
    let m = d.model();
    if network_error(m.input_size, m.output_size, draws) is Some {
        network_error(m.input_size, m.output_size, draws)
    } else if m.batch_size == 0 {
        Some(ConfigError::EmptyBatch)
    } else if m.test_size() == 0 {
        Some(ConfigError::EmptyValidation)
    } else if m.batch_size * EDGES > usize::MAX || m.batch_size * m.output_size > usize::MAX
        || m.test_size() * EDGES > usize::MAX || m.test_size() * m.output_size > usize::MAX {
        Some(ConfigError::TooLarge)
    } else {
        None
    }
}

/// Batch `i` of `total / batch` lies inside a buffer of `total` rows of
/// `width` values, and is `batch` rows long.
pub proof fn lemma_batch_range(i: nat, width: nat, batch: nat, total: nat)
    requires
        batch > 0,
        i < total / batch,
    ensures
        i * width <= i * width * batch,
        (i + 1) * width <= (i + 1) * width * batch,
        i * width * batch <= (i + 1) * width * batch,
        (i + 1) * width * batch <= total * width,
        (i + 1) * width * batch - i * width * batch == batch * width,
        (i + 1) * batch <= total,
{
    vstd::arithmetic::div_mod::lemma_fundamental_div_mod(total as int, batch as int);
    vstd::arithmetic::div_mod::lemma_mod_bound(total as int, batch as int);
    let q = total / batch;
    assert((i + 1) * batch <= total) by (nonlinear_arith)
        requires
            i + 1 <= q,
            total == batch * q + total % batch,
            0 <= total % batch,
            batch > 0,
    ;
    assert((i + 1) * width * batch <= total * width) by (nonlinear_arith)
        requires
            (i + 1) * batch <= total,
    ;
    assert(i * width <= i * width * batch) by (nonlinear_arith)
        requires
            batch > 0,
    ;
    assert((i + 1) * width <= (i + 1) * width * batch) by (nonlinear_arith)
        requires
            batch > 0,
    ;
    assert((i + 1) * width * batch - i * width * batch == batch * width) by (nonlinear_arith);
}

/// The training phase takes whole batches only: what it trains on is the
/// training set less its last `data_size % batch_size` examples, and batch
/// `i` is the `i`-th run of `batch_size` examples in a row, with their labels.
pub proof fn lemma_batches_drop_remainder<T, Label>(m: DatasetView<T, Label>, i: nat)
    requires
        m.wf(),
        m.batch_size > 0,
        i < m.batches(),
    ensures
        m.batches() * m.batch_size == m.data_size - m.data_size % m.batch_size,
        (i + 1) * m.batch_size <= m.batches() * m.batch_size,
        m.batch_data(i) == m.train_data.subrange(
            (i * m.batch_size * m.input_size) as int,
            ((i + 1) * m.batch_size * m.input_size) as int,
        ),
        m.batch_labels(i) == m.train_labels.subrange(
            (i * m.batch_size * m.label_size) as int,
            ((i + 1) * m.batch_size * m.label_size) as int,
        ),
        (i + 1) * m.batch_size * m.input_size <= m.train_data.len(),
        (i + 1) * m.batch_size * m.label_size <= m.train_labels.len(),
{
    let b = m.batch_size;
    let n = m.batches();
    vstd::arithmetic::div_mod::lemma_fundamental_div_mod(m.data_size as int, b as int);
    assert(n * b == b * n) by (nonlinear_arith);
    assert((i + 1) * b <= n * b) by (nonlinear_arith)
        requires
            i + 1 <= n,
    ;
    lemma_batch_range(i, m.input_size, b, m.data_size);
    lemma_batch_range(i, m.label_size, b, m.data_size);
    assert(i * m.input_size * b == i * b * m.input_size) by (nonlinear_arith);
    assert((i + 1) * m.input_size * b == (i + 1) * b * m.input_size) by (nonlinear_arith);
    assert(i * m.label_size * b == i * b * m.label_size) by (nonlinear_arith);
    assert((i + 1) * m.label_size * b == (i + 1) * b * m.label_size) by (nonlinear_arith);
}

/// Two datasets of one shape that agree on the examples in whole batches,
/// on their labels, and on the loss function train a network to the same
/// weights: the examples left over after the last whole batch play no part.
pub proof fn lemma_remainder_never_trained<T: Scalar, Label: Copy, D: Dataset<T, Label>>(
    d1: &D,
    d2: &D,
    v: NetworkView<T>,
    n: nat,
)
    requires
        d1.model().wf(),
        d2.model().wf(),
        d1.model().batch_size > 0,
        d1.model().input_size == d2.model().input_size,
        d1.model().label_size == d2.model().label_size,
        d1.model().batch_size == d2.model().batch_size,
        d1.model().data_size == d2.model().data_size,
        n <= d1.model().batches(),
        d1.model().train_data.take(
            (d1.model().batches() * d1.model().batch_size * d1.model().input_size) as int,
        ) == d2.model().train_data.take(
            (d1.model().batches() * d1.model().batch_size * d1.model().input_size) as int,
        ),
        d1.model().train_labels.take(
            (d1.model().batches() * d1.model().batch_size * d1.model().label_size) as int,
        ) == d2.model().train_labels.take(
            (d1.model().batches() * d1.model().batch_size * d1.model().label_size) as int,
        ),
        forall|outputs: Seq<T>, targets: Seq<Label>|
            d1.loss_grads_spec(outputs, targets) == d2.loss_grads_spec(outputs, targets),
    ensures
        after_batches(d1, v, n) == after_batches(d2, v, n),
    decreases n,
{
    if n > 0 {
        let i = (n - 1) as nat;
        lemma_remainder_never_trained(d1, d2, v, i);
        let m1 = d1.model();
        let m2 = d2.model();
        let kept = m1.batches() * m1.batch_size;
        lemma_batches_drop_remainder(m1, i);
        lemma_batches_drop_remainder(m2, i);
        assert((i + 1) * m1.batch_size * m1.input_size <= kept * m1.input_size) by (nonlinear_arith)
            requires
                (i + 1) * m1.batch_size <= kept,
        ;
        assert((i + 1) * m1.batch_size * m1.label_size <= kept * m1.label_size) by (nonlinear_arith)
            requires
                (i + 1) * m1.batch_size <= kept,
        ;
        assert(i * m1.batch_size * m1.input_size <= (i + 1) * m1.batch_size * m1.input_size)
            by (nonlinear_arith);
        assert(i * m1.batch_size * m1.label_size <= (i + 1) * m1.batch_size * m1.label_size)
            by (nonlinear_arith);
        assert(kept <= m1.data_size);
        assert(kept * m1.input_size <= m1.data_size * m1.input_size) by (nonlinear_arith)
            requires
                kept <= m1.data_size,
        ;
        assert(kept * m1.label_size <= m1.data_size * m1.label_size) by (nonlinear_arith)
            requires
                kept <= m1.data_size,
        ;
        let lo = (i * m1.batch_size * m1.input_size) as int;
        let hi = ((i + 1) * m1.batch_size * m1.input_size) as int;
        let cut = (kept * m1.input_size) as int;
        assert(m1.train_data.subrange(lo, hi) =~= m1.train_data.take(cut).subrange(lo, hi));
        assert(m2.train_data.subrange(lo, hi) =~= m2.train_data.take(cut).subrange(lo, hi));
        let llo = (i * m1.batch_size * m1.label_size) as int;
        let lhi = ((i + 1) * m1.batch_size * m1.label_size) as int;
        let lcut = (kept * m1.label_size) as int;
        assert(m1.train_labels.subrange(llo, lhi) =~= m1.train_labels.take(lcut).subrange(
            llo,
            lhi,
        ));
        assert(m2.train_labels.subrange(llo, lhi) =~= m2.train_labels.take(lcut).subrange(
            llo,
            lhi,
        ));
        assert(m1.batch_data(i) == m2.batch_data(i));
        assert(m1.batch_labels(i) == m2.batch_labels(i));
    }
}

/// Validation leaves no trace in what the network computes: a forward pass
/// moves no weight, so the results for any batch are the same after it as
/// before it.
pub proof fn lemma_forward_keeps_output<T: Scalar>(v: NetworkView<T>, seen: Seq<T>, x: Seq<T>)
    ensures
        v.after_forward(seen).output(x) == v.output(x),
        v.after_forward(seen).layer1.weights == v.layer1.weights,
        v.after_forward(seen).layer2.weights == v.layer2.weights,
{
}

/// Validating twice in a row, with no training in between, gives the same
/// results and the same score both times.
pub proof fn lemma_validation_idempotent<T: Scalar, Label: Copy, D: Dataset<T, Label>>(
    d: &D,
    v: NetworkView<T>,
)
    ensures
        validation_outputs(d, v.after_forward(d.model().test_data)) == validation_outputs(d, v),
        validation_score(d, v.after_forward(d.model().test_data)) == validation_score(d, v),
{
    lemma_forward_keeps_output(v, d.model().test_data, d.model().test_data);
}

/// Trains the network on batch `i` of the dataset: forward, loss, backward,
/// update. Returns the score of the batch's results, taken before the update.
pub fn fit_batch<T: Scalar, Label: Copy, D: Dataset<T, Label>>(
    d: &D,
    net: &mut Network<T>,
    i: usize,
) -> (r: T)
    requires
        d.wf(),
        d.model().wf(),
        labelled(d),
        fits(d, old(net)@),
        i < d.model().batches(),
    ensures
        fits(d, final(net)@),
        final(net)@ == after_batch(d, old(net)@, i as nat),
        r == batch_score(d, old(net)@, i as nat),
{
    let width: usize = d.input_size();
    let batch: usize = d.batch_size();
    let label: usize = d.label_size();
    let total: usize = d.data_size();
    proof {
        lemma_batch_range(i as nat, width as nat, batch as nat, total as nat);
        lemma_batch_range(i as nat, label as nat, batch as nat, total as nat);
        lemma_whole_rows(batch as nat, label as nat);
        assert(d.model().batch_data(i as nat).len() == batch * width);
        assert(d.model().batch_labels(i as nat).len() == batch * label);
        if width > 0 {
            lemma_whole_rows(batch as nat, width as nat);
        }
    }
    let inputs = d.train_data(i * width * batch..(i + 1) * width * batch);
    let targets = d.train_labels(i * label * batch..(i + 1) * label * batch);
    let outputs3 = net.forward(copy_of(inputs));
    let score = match d.check_output(outputs3.as_slice(), targets) {
        Ok(score) => score,
        Err(_) => unreached(),
    };
    let loss = d.nll(outputs3, targets);
    match net.backward(loss.input_grads) {
        Ok(()) => {},
        Err(_) => unreached(),
    }
    score
}

/// Runs the validation set forward through the network and scores what
/// comes out. Returns the results and their score. No weight moves.
pub fn validate<T: Scalar, Label: Copy, D: Dataset<T, Label>>(d: &D, net: &mut Network<T>) -> (r: (
    Vec<T>,
    T,
))
    requires
        d.wf(),
        d.model().wf(),
        labelled(d),
        validates(d, old(net)@),
    ensures
        final(net)@ == old(net)@.after_forward(d.model().test_data),
        validates(d, final(net)@),
        r.0@ == validation_outputs(d, old(net)@),
        r.1 == validation_score(d, old(net)@),
{
    let width: usize = d.input_size();
    let ghost examples = d.model().test_size();
    proof {
        lemma_whole_rows(examples, width as nat);
        lemma_whole_rows(examples, d.model().label_size);
    }
    let outputs3 = net.forward(copy_of(d.test_data()));
    let score = match d.check_output(outputs3.as_slice(), d.test_labels()) {
        Ok(score) => score,
        Err(_) => unreached(),
    };
    (outputs3, score)
}

/// One epoch: trains on every whole batch of the training set, in order,
/// then validates.
pub fn run_epoch<T: Scalar, Label: Copy, D: Dataset<T, Label>>(d: &D, net: &mut Network<T>) -> (r:
    Epoch<T>)
    requires
        d.wf(),
        d.model().wf(),
        labelled(d),
        fits(d, old(net)@),
        validates(d, old(net)@),
    ensures
        fits(d, final(net)@),
        validates(d, final(net)@),
        final(net)@ == after_epoch(d, old(net)@),
        r.outputs@ == validation_outputs(d, after_training(d, old(net)@)),
        r.score == epoch_score(d, old(net)@),
        r.pred_error == pred_error(d, old(net)@, d.model().batches()),
{
    let batches: usize = d.data_size() / d.batch_size();
    let ghost start = net@;
    let mut sum: T = T::count(0);
    let mut i: usize = 0;
    while i < batches
        invariant
            i <= batches,
            batches == d.model().batches(),
            d.wf(),
            d.model().wf(),
            labelled(d),
            fits(d, net@),
            validates(d, net@),
            net@ == after_batches(d, start, i as nat),
            sum == pred_error(d, start, i as nat),
        decreases batches - i,
    {
        let score = fit_batch(d, net, i);
        sum = sum.plus(score);
        i += 1;
    }
    let (outputs, score) = validate(d, net);
    Epoch { outputs, score, pred_error: sum }
}

/// Builds the network for the dataset and checks, before any batch is
/// touched, that a training run can go through: see [`train_error`]. The
/// network that comes back fits the dataset and can be validated on it.
pub fn prepare<T: Scalar, Label: Copy, D: Dataset<T, Label>>(
    d: &D,
    fun: LossFn,
    draws: &[T],
) -> (r: Result<Network<T>, ConfigError>)
    requires
        d.wf(),
        d.model().wf(),
    ensures
        match train_error(d, draws@.len()) {
            Some(e) => r == Err::<Network<T>, ConfigError>(e),
            None => r is Ok && fits(d, r->Ok_0@) && validates(d, r->Ok_0@) && r->Ok_0@
                == initial_network(
                d.model().input_size,
                d.model().output_size,
                fun,
                draws@,
            ),
        },
{
    let width: usize = d.input_size();
    let outs: usize = d.output_size();
    let net = match Network::new(width, outs, fun, draws) {
        Ok(net) => net,
        Err(e) => {
            return Err(e);
        },
    };
    let batch: usize = d.batch_size();
    if batch == 0 {
        return Err(ConfigError::EmptyBatch);
    }
    let examples: usize = d.test_data().len() / width;
    if examples == 0 {
        return Err(ConfigError::EmptyValidation);
    }
    if batch.checked_mul(EDGES).is_none() || batch.checked_mul(outs).is_none()
        || examples.checked_mul(EDGES).is_none() || examples.checked_mul(outs).is_none() {
        return Err(ConfigError::TooLarge);
    }
    Ok(net)
}

/// The whole run: builds the network from `draws`, runs `epochs` epochs and
/// returns the validation score of each, in order.
pub fn run<T: Scalar, Label: Copy, D: Dataset<T, Label>>(
    d: &D,
    epochs: usize,
    fun: LossFn,
    draws: &[T],
) -> (r: Result<Vec<T>, ConfigError>)
    requires
        d.wf(),
        d.model().wf(),
        labelled(d),
    ensures
        match train_error(d, draws@.len()) {
            Some(e) => r == Err::<Vec<T>, ConfigError>(e),
            None => r is Ok && r->Ok_0@ == scores(
                d,
                initial_network(
                    d.model().input_size,
                    d.model().output_size,
                    fun,
                    draws@,
                ),
                epochs as nat,
            ),
        },
{
    let mut net = match prepare(d, fun, draws) {
        Ok(net) => net,
        Err(e) => {
            return Err(e);
        },
    };
    let ghost start = net@;
    let mut results: Vec<T> = Vec::with_capacity(epochs);
    let mut e: usize = 0;
    while e < epochs
        invariant
            e <= epochs,
            d.wf(),
            d.model().wf(),
            labelled(d),
            fits(d, net@),
            validates(d, net@),
            net@ == after_epochs(d, start, e as nat),
            results@ == scores(d, start, e as nat),
        decreases epochs - e,
    {
        let epoch = run_epoch(d, &mut net);
        results.push(epoch.score);
        assert(results@ =~= scores(d, start, (e + 1) as nat));
        e += 1;
    }
    Ok(results)
}

} // verus!
