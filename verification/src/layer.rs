//! The dense layer: batched linear maps, their gradients, and the
//! gradient-descent update.

use vstd::prelude::*;
use crate::error::ConfigError;
use crate::scalar::{make_ratio, ratio, zero, Scalar};
use crate::shape::{flat, lemma_flat};

verus! {

/// What one backward pass through a dense layer yields.
pub struct LayerGrads<T> {
    /// Gradient with respect to the weights, shaped like the weight table.
    pub weight_grads: Vec<T>,
    /// Gradient with respect to the inputs, shaped like the input batch.
    pub input_grads: Vec<T>,
}

impl<T> LayerGrads<T> {
    /// Bundles the two gradients of one backward pass.
    pub fn new(weight_grads: Vec<T>, input_grads: Vec<T>) -> (r: Self)
        ensures
            r.weight_grads == weight_grads,
            r.input_grads == input_grads,
    {
        Self { weight_grads, input_grads }
    }
}

/// A dense layer: a table of `inputs` rows and `outputs` columns of weights,
/// stored row-major, and the input batch of the latest forward pass.
pub struct Layer<T: Scalar> {
    inputs: usize,
    outputs: usize,
    weights: Vec<T>,
    last_inputs: Option<Vec<T>>,
}

/// The mathematical content of a [`Layer`].
pub struct LayerView<T> {
    pub inputs: nat,
    pub outputs: nat,
    pub weights: Seq<T>,
    /// The batch of the latest forward pass; `None` until there was one.
    pub last_inputs: Option<Seq<T>>,
}

/// Numerator and denominator of the factor that turns a draw from
/// `[-1, 1]` into an initial weight.
pub const SCALE_NUM: usize = 2;

pub const SCALE_DEN: usize = 10;

/// Numerator and denominator of the step size of a gradient-descent update.
pub const STEP_NUM: usize = 1;

pub const STEP_DEN: usize = 100;

/// The factor applied to each initial draw.
pub open spec fn init_scale<T: Scalar>() -> T {
    ratio::<T>(SCALE_NUM, SCALE_DEN)
}

/// The step size of a gradient-descent update.
pub open spec fn step_size<T: Scalar>() -> T {
    ratio::<T>(STEP_NUM, STEP_DEN)
}

/// The weights a layer starts with: the first `len` draws, each scaled.
pub open spec fn initial_weights<T: Scalar>(draws: Seq<T>, len: nat) -> Seq<T> {
    Seq::new(len, |k: int| init_scale::<T>().times_spec(draws[k]))
}

/// The running sum behind one output of the forward pass: over the first `n`
/// input features `i`, in ascending order and starting from zero, of
/// `x[b, i] * w[i, o]`.
pub open spec fn dot<T: Scalar>(
    x: Seq<T>,
    w: Seq<T>,
    b: int,
    o: int,
    ins: nat,
    outs: nat,
    n: nat,
) -> T
    decreases n,
{
    if n == 0 {
        zero::<T>()
    } else {
        dot(x, w, b, o, ins, outs, (n - 1) as nat).plus_spec(
            x[flat(b, n - 1, ins as int)].times_spec(w[flat(n - 1, o, outs as int)]),
        )
    }
}

/// The batch a layer of weights `w` maps the batch `x` to: entry `[b, o]` is
/// the full sum [`dot`] over all `ins` input features.
pub open spec fn forward_values<T: Scalar>(w: Seq<T>, ins: nat, outs: nat, x: Seq<T>) -> Seq<T> {
    Seq::new(
        ((x.len() / ins) * outs) as nat,
        |k: int| dot(x, w, k / (outs as int), k % (outs as int), ins, outs, ins),
    )
}

/// The running sum behind one weight gradient: over the first `n` examples
/// `b`, in ascending order and starting from zero, of
/// `(g[b, o] * x[b, i]) / divisor`.
pub open spec fn weight_grad<T: Scalar>(
    x: Seq<T>,
    g: Seq<T>,
    i: int,
    o: int,
    ins: nat,
    outs: nat,
    divisor: T,
    n: nat,
) -> T
    decreases n,
{
    if n == 0 {
        zero::<T>()
    } else {
        weight_grad(x, g, i, o, ins, outs, divisor, (n - 1) as nat).plus_spec(
            g[flat(n - 1, o, outs as int)].times_spec(x[flat(n - 1, i, ins as int)]).over_spec(divisor),
        )
    }
}

/// The weight gradients for the cached batch `x` and the output gradients
/// `g`: entry `[i, o]` is [`weight_grad`] over the whole batch, each term
/// divided by the batch size.
pub open spec fn weight_grad_values<T: Scalar>(x: Seq<T>, g: Seq<T>, ins: nat, outs: nat) -> Seq<
    T,
> {
    let batch = x.len() / ins;
    Seq::new(
        (ins * outs) as nat,
        |k: int|
            weight_grad(
                x,
                g,
                k / (outs as int),
                k % (outs as int),
                ins,
                outs,
                T::count_spec(batch as usize),
                batch,
            ),
    )
}

/// The running sum behind one input gradient: over the first `n` output
/// features `o`, in ascending order and starting from zero, of
/// `g[b, o] * w[i, o]`.
pub open spec fn input_grad<T: Scalar>(
    w: Seq<T>,
    g: Seq<T>,
    b: int,
    i: int,
    ins: nat,
    outs: nat,
    n: nat,
) -> T
    decreases n,
{
    if n == 0 {
        zero::<T>()
    } else {
        input_grad(w, g, b, i, ins, outs, (n - 1) as nat).plus_spec(
            g[flat(b, n - 1, outs as int)].times_spec(w[flat(i, n - 1, outs as int)]),
        )
    }
}

/// The input gradients for a batch of `batch` examples: entry `[b, i]` is
/// [`input_grad`] over all `outs` output features.
pub open spec fn input_grad_values<T: Scalar>(
    w: Seq<T>,
    g: Seq<T>,
    ins: nat,
    outs: nat,
    batch: nat,
) -> Seq<T> {
    Seq::new(
        (batch * ins) as nat,
        |k: int| input_grad(w, g, k / (ins as int), k % (ins as int), ins, outs, outs),
    )
}

/// The weights after one gradient-descent step: each weight less the step
/// size times its gradient.
pub open spec fn descended<T: Scalar>(w: Seq<T>, g: Seq<T>) -> Seq<T> {
    Seq::new(w.len(), |k: int| w[k].minus_spec(step_size::<T>().times_spec(g[k])))
}

/// A batch of `batch` examples, each `ins` wide, comes out of the forward
/// pass as `batch` examples, each `outs` wide, whatever the weights.
pub proof fn lemma_forward_shape<T: Scalar>(w: Seq<T>, ins: nat, outs: nat, batch: nat, x: Seq<T>)
    requires
        ins > 0,
        x.len() == batch * ins,
    ensures
        forward_values(w, ins, outs, x).len() == batch * outs,
{
    vstd::arithmetic::div_mod::lemma_fundamental_div_mod_converse(
        x.len() as int,
        ins as int,
        batch as int,
        0,
    );
}

impl<T> LayerView<T> {
    /// How many examples the cached batch holds; zero before any forward
    /// pass.
    pub open spec fn batch(self) -> nat {
        match self.last_inputs {
            Some(x) => x.len() / self.inputs,
            None => 0,
        }
    }

    /// The shape bookkeeping every layer keeps: at least one input feature,
    /// one weight per pair of input and output feature, and a cached batch
    /// made of whole examples.
    pub open spec fn wf(self) -> bool {
        &&& self.inputs > 0
        &&& self.weights.len() == self.inputs * self.outputs
        &&& match self.last_inputs {
            Some(x) => x.len() % self.inputs == 0,
            None => true,
        }
    }
}

impl<T: Scalar> View for Layer<T> {
    type V = LayerView<T>;

    closed spec fn view(&self) -> LayerView<T> {
        LayerView {
            inputs: self.inputs as nat,
            outputs: self.outputs as nat,
            weights: self.weights@,
            last_inputs: match self.last_inputs {
                Some(x) => Some(x@),
                None => None,
            },
        }
    }
}

impl<T: Scalar> Layer<T> {
    /// The invariant of a layer, see [`LayerView::wf`].
    pub open spec fn wf(&self) -> bool {
        self@.wf()
    }

    /// Builds a layer of `inputs` by `outputs` weights from the first
    /// `inputs * outputs` of `draws`, which the caller draws uniformly from
    /// `[-1, 1]`; each is scaled by [`init_scale`]. No batch is cached yet.
    ///
    /// The shape is validated here, once: a layer needs an input feature, a
    /// weight count that fits the machine word, and a draw for every weight.
    pub fn new(inputs: usize, outputs: usize, draws: &[T]) -> (r: Result<Self, ConfigError>)
        ensures
            inputs == 0 ==> r == Err::<Self, ConfigError>(ConfigError::ZeroWidth),
            inputs > 0 && inputs * outputs > usize::MAX ==> r == Err::<Self, ConfigError>(
                ConfigError::TooLarge,
            ),
            inputs > 0 && inputs * outputs <= usize::MAX && draws@.len() < inputs * outputs ==> r
                == Err::<Self, ConfigError>(ConfigError::TooFewDraws),
            inputs > 0 && inputs * outputs <= draws@.len() ==> r is Ok,
            r matches Ok(layer) ==> layer.wf() && layer@ == (LayerView {
                inputs: inputs as nat,
                outputs: outputs as nat,
                weights: initial_weights(draws@, (inputs * outputs) as nat),
                last_inputs: None,
            }),
    {
        let supplied: usize = draws.len();
        if inputs == 0 {
            return Err(ConfigError::ZeroWidth);
        }
        let count: usize = match inputs.checked_mul(outputs) {
            Some(count) => count,
            None => {
                return Err(ConfigError::TooLarge);
            },
        };
        if supplied < count {
            return Err(ConfigError::TooFewDraws);
        }
        let scale: T = make_ratio::<T>(SCALE_NUM, SCALE_DEN);
        let mut weights: Vec<T> = Vec::with_capacity(count);
        let mut k: usize = 0;
        while k < count
            invariant
                k <= count <= draws@.len(),
                scale == init_scale::<T>(),
                weights@ == initial_weights(draws@, k as nat),
            decreases count - k,
        {
            weights.push(scale.times(draws[k]));
            assert(weights@ =~= initial_weights(draws@, (k + 1) as nat));
            k += 1;
        }
        Ok(Layer { inputs, outputs, weights, last_inputs: None })
    }

    /// The number of input features.
    pub fn inputs(&self) -> (r: usize)
        ensures
            r == self@.inputs,
    {
        self.inputs
    }

    /// The number of output features.
    pub fn outputs(&self) -> (r: usize)
        ensures
            r == self@.outputs,
    {
        self.outputs
    }

    /// The weight table, row-major: the weight from input `i` to output `o`
    /// is at `i * outputs + o`.
    pub fn weights(&self) -> (r: &Vec<T>)
        ensures
            r@ == self@.weights,
    {
        &self.weights
    }

    /// Maps a batch of examples, each `inputs` wide, to a batch of examples,
    /// each `outputs` wide: entry `[b, o]` of the result is the sum over `i`
    /// of `batch[b, i] * weight[i, o]`. The batch is cached for
    /// [`Layer::backward`]; the weights are left alone.
    pub fn forward(&mut self, inputs: Vec<T>) -> (out: Vec<T>)
        requires
            old(self).wf(),
            inputs@.len() % old(self)@.inputs == 0,
            (inputs@.len() / old(self)@.inputs) * old(self)@.outputs <= usize::MAX,
        ensures
            final(self).wf(),
            final(self)@ == (LayerView { last_inputs: Some(inputs@), ..old(self)@ }),
            out@ == forward_values(
                old(self)@.weights,
                old(self)@.inputs,
                old(self)@.outputs,
                inputs@,
            ),
            out@.len() == (inputs@.len() / old(self)@.inputs) * old(self)@.outputs,
    {
        let ins: usize = self.inputs;
        let outs: usize = self.outputs;
        let batch: usize = inputs.len() / ins;
        let ghost x = inputs@;
        let ghost w = self.weights@;
        proof {
            vstd::arithmetic::div_mod::lemma_fundamental_div_mod(x.len() as int, ins as int);
            assert(x.len() == batch * ins) by (nonlinear_arith)
                requires
                    x.len() == ins * (x.len() as int / ins as int) + x.len() as int % (ins as int),
                    x.len() as int % (ins as int) == 0,
                    batch == x.len() as int / ins as int,
            ;
        }
        let mut out: Vec<T> = Vec::new();
        let mut b: usize = 0;
        while b < batch
            invariant
                b <= batch,
                ins > 0,
                x == inputs@,
                w == self.weights@,
                x.len() == batch * ins,
                w.len() == ins * outs,
                batch * outs <= usize::MAX,
                out@.len() == b * outs,
                forall|k: int|
                    0 <= k < out@.len() ==> #[trigger] out@[k] == dot(
                        x,
                        w,
                        k / (outs as int),
                        k % (outs as int),
                        ins as nat,
                        outs as nat,
                        ins as nat,
                    ),
            decreases batch - b,
        {
            let mut o: usize = 0;
            while o < outs
                invariant
                    b < batch,
                    o <= outs,
                    ins > 0,
                    x == inputs@,
                    w == self.weights@,
                    x.len() == batch * ins,
                    w.len() == ins * outs,
                    batch * outs <= usize::MAX,
                    out@.len() == b * outs + o,
                    forall|k: int|
                        0 <= k < out@.len() ==> #[trigger] out@[k] == dot(
                            x,
                            w,
                            k / (outs as int),
                            k % (outs as int),
                            ins as nat,
                            outs as nat,
                            ins as nat,
                        ),
                decreases outs - o,
            {
                let mut sum: T = T::count(0);
                let mut i: usize = 0;
                while i < ins
                    invariant
                        b < batch,
                        o < outs,
                        i <= ins,
                        x == inputs@,
                        w == self.weights@,
                        x.len() == batch * ins,
                        w.len() == ins * outs,
                        sum == dot(x, w, b as int, o as int, ins as nat, outs as nat, i as nat),
                    decreases ins - i,
                {
                    proof {
                        lemma_flat(b as int, i as int, batch as int, ins as int);
                        lemma_flat(i as int, o as int, ins as int, outs as int);
                        assert(inputs.len() == x.len());
                        assert(self.weights.len() == w.len());
                    }
                    sum = sum.plus(inputs[b * ins + i].times(self.weights[i * outs + o]));
                    i += 1;
                }
                proof {
                    lemma_flat(b as int, o as int, batch as int, outs as int);
                }
                out.push(sum);
                o += 1;
            }
            proof {
                assert(b * outs + outs == (b + 1) * outs) by (nonlinear_arith);
            }
            b += 1;
        }
        proof {
            assert(out@ =~= forward_values(w, ins as nat, outs as nat, x));
        }
        self.last_inputs = Some(inputs);
        out
    }

    /// The gradients that the output gradients `grads` give for the batch of
    /// the latest forward pass. Weight gradients are averaged over the batch:
    /// entry `[i, o]` is the sum over examples `b` of
    /// `(grads[b, o] * batch[b, i]) / batch_size`. Input gradients are plain
    /// sums: entry `[b, i]` is the sum over `o` of `grads[b, o] * weight[i, o]`.
    ///
    /// The batch size is that of the cached batch, and `grads` has to agree
    /// with it. A cached batch of no examples has no average.
    pub fn backward(&self, grads: Vec<T>) -> (r: Result<LayerGrads<T>, ConfigError>)
        requires
            self.wf(),
            self@.last_inputs is Some,
            grads@.len() == self@.batch() * self@.outputs,
        ensures
            self@.batch() == 0 ==> r == Err::<LayerGrads<T>, ConfigError>(ConfigError::EmptyBatch),
            self@.batch() > 0 ==> r is Ok,
            r matches Ok(found) ==> {
                &&& found.weight_grads@.len() == self@.weights.len()
                &&& found.input_grads@.len() == self@.last_inputs->0.len()
                &&& found.weight_grads@ == weight_grad_values(
                    self@.last_inputs->0,
                    grads@,
                    self@.inputs,
                    self@.outputs,
                )
                &&& found.input_grads@ == input_grad_values(
                    self@.weights,
                    grads@,
                    self@.inputs,
                    self@.outputs,
                    self@.batch(),
                )
            },
    {
        let ins: usize = self.inputs;
        let outs: usize = self.outputs;
        let cached: &Vec<T> = match &self.last_inputs {
            Some(cached) => cached,
            None => unreached(),
        };
        let batch: usize = cached.len() / ins;
        if batch == 0 {
            return Err(ConfigError::EmptyBatch);
        }
        let ghost x = cached@;
        let ghost w = self.weights@;
        let ghost g = grads@;
        proof {
            vstd::arithmetic::div_mod::lemma_fundamental_div_mod(x.len() as int, ins as int);
            assert(x.len() == batch * ins) by (nonlinear_arith)
                requires
                    x.len() == ins * (x.len() as int / ins as int) + x.len() as int % (ins as int),
                    x.len() as int % (ins as int) == 0,
                    batch == x.len() as int / ins as int,
            ;
        }
        let divisor: T = T::count(batch);
        let mut weight_grads: Vec<T> = Vec::new();
        let mut i: usize = 0;
        while i < ins
            invariant
                i <= ins,
                x == cached@,
                g == grads@,
                x.len() == batch * ins,
                g.len() == batch * outs,
                ins * outs == self.weights.len(),
                divisor == T::count_spec(batch),
                weight_grads@.len() == i * outs,
                forall|k: int|
                    0 <= k < weight_grads@.len() ==> #[trigger] weight_grads@[k] == weight_grad(
                        x,
                        g,
                        k / (outs as int),
                        k % (outs as int),
                        ins as nat,
                        outs as nat,
                        divisor,
                        batch as nat,
                    ),
            decreases ins - i,
        {
            let mut o: usize = 0;
            while o < outs
                invariant
                    i < ins,
                    o <= outs,
                    x == cached@,
                    g == grads@,
                    x.len() == batch * ins,
                    g.len() == batch * outs,
                    ins * outs == self.weights.len(),
                    divisor == T::count_spec(batch),
                    weight_grads@.len() == i * outs + o,
                    forall|k: int|
                        0 <= k < weight_grads@.len() ==> #[trigger] weight_grads@[k] == weight_grad(
                            x,
                            g,
                            k / (outs as int),
                            k % (outs as int),
                            ins as nat,
                            outs as nat,
                            divisor,
                            batch as nat,
                        ),
                decreases outs - o,
            {
                let mut sum: T = T::count(0);
                let mut b: usize = 0;
                while b < batch
                    invariant
                        i < ins,
                        o < outs,
                        b <= batch,
                        x == cached@,
                        g == grads@,
                        x.len() == batch * ins,
                        g.len() == batch * outs,
                        sum == weight_grad(
                            x,
                            g,
                            i as int,
                            o as int,
                            ins as nat,
                            outs as nat,
                            divisor,
                            b as nat,
                        ),
                    decreases batch - b,
                {
                    proof {
                        lemma_flat(b as int, i as int, batch as int, ins as int);
                        lemma_flat(b as int, o as int, batch as int, outs as int);
                        assert(cached.len() == x.len());
                        assert(grads.len() == g.len());
                    }
                    sum = sum.plus(grads[b * outs + o].times(cached[b * ins + i]).over(divisor));
                    b += 1;
                }
                proof {
                    lemma_flat(i as int, o as int, ins as int, outs as int);
                }
                weight_grads.push(sum);
                o += 1;
            }
            proof {
                assert(i * outs + outs == (i + 1) * outs) by (nonlinear_arith);
            }
            i += 1;
        }
        let mut input_grads: Vec<T> = Vec::new();
        let mut b: usize = 0;
        while b < batch
            invariant
                b <= batch,
                ins > 0,
                w == self.weights@,
                g == grads@,
                cached.len() == batch * ins,
                g.len() == batch * outs,
                w.len() == ins * outs,
                input_grads@.len() == b * ins,
                forall|k: int|
                    0 <= k < input_grads@.len() ==> #[trigger] input_grads@[k] == input_grad(
                        w,
                        g,
                        k / (ins as int),
                        k % (ins as int),
                        ins as nat,
                        outs as nat,
                        outs as nat,
                    ),
            decreases batch - b,
        {
            let mut i: usize = 0;
            while i < ins
                invariant
                    b < batch,
                    i <= ins,
                    w == self.weights@,
                    g == grads@,
                    cached.len() == batch * ins,
                    g.len() == batch * outs,
                    w.len() == ins * outs,
                    input_grads@.len() == b * ins + i,
                    forall|k: int|
                        0 <= k < input_grads@.len() ==> #[trigger] input_grads@[k] == input_grad(
                            w,
                            g,
                            k / (ins as int),
                            k % (ins as int),
                            ins as nat,
                            outs as nat,
                            outs as nat,
                        ),
                decreases ins - i,
            {
                let mut sum: T = T::count(0);
                let mut o: usize = 0;
                while o < outs
                    invariant
                        b < batch,
                        i < ins,
                        o <= outs,
                        w == self.weights@,
                        g == grads@,
                        g.len() == batch * outs,
                        w.len() == ins * outs,
                        sum == input_grad(
                            w,
                            g,
                            b as int,
                            i as int,
                            ins as nat,
                            outs as nat,
                            o as nat,
                        ),
                    decreases outs - o,
                {
                    proof {
                        lemma_flat(b as int, o as int, batch as int, outs as int);
                        lemma_flat(i as int, o as int, ins as int, outs as int);
                        assert(self.weights.len() == w.len());
                        assert(grads.len() == g.len());
                    }
                    sum = sum.plus(grads[b * outs + o].times(self.weights[i * outs + o]));
                    o += 1;
                }
                proof {
                    lemma_flat(b as int, i as int, batch as int, ins as int);
                }
                input_grads.push(sum);
                i += 1;
            }
            proof {
                assert(b * ins + ins == (b + 1) * ins) by (nonlinear_arith);
            }
            b += 1;
        }
        proof {
            assert(weight_grads@ =~= weight_grad_values(x, g, ins as nat, outs as nat));
            assert(input_grads@ =~= input_grad_values(w, g, ins as nat, outs as nat, batch as nat));
        }
        Ok(LayerGrads::new(weight_grads, input_grads))
    }

    /// One step of gradient descent: every weight loses [`step_size`] times
    /// its gradient. Nothing else about the layer changes.
    pub fn apply_gradients(&mut self, grads: Vec<T>)
        requires
            old(self).wf(),
            grads@.len() == old(self)@.weights.len(),
        ensures
            final(self).wf(),
            final(self)@ == (LayerView {
                weights: descended(old(self)@.weights, grads@),
                ..old(self)@
            }),
    {
        let step: T = make_ratio::<T>(STEP_NUM, STEP_DEN);
        let count: usize = self.weights.len();
        let ghost before = self.weights@;
        let mut k: usize = 0;
        while k < count
            invariant
                k <= count,
                count == before.len(),
                grads@.len() == count,
                step == step_size::<T>(),
                self.weights@.len() == count,
                self.inputs == old(self).inputs,
                self.outputs == old(self).outputs,
                self.last_inputs == old(self).last_inputs,
                forall|j: int|
                    0 <= j < k ==> #[trigger] self.weights@[j] == before[j].minus_spec(
                        step.times_spec(grads@[j]),
                    ),
                forall|j: int| k <= j < count ==> #[trigger] self.weights@[j] == before[j],
            decreases count - k,
        {
            let updated: T = self.weights[k].minus(step.times(grads[k]));
            self.weights[k] = updated;
            k += 1;
        }
        proof {
            assert(self.weights@ =~= descended(before, grads@));
        }
    }
}

} // verus!
