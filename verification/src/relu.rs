//! The activation layer and its two nonlinearities.

use vstd::prelude::*;
use crate::scalar::{make_ratio, ratio, zero, Scalar};

verus! {

/// Numerator and denominator of the slope of the leaky rectifier below zero.
pub const LEAK_NUM: usize = 1;

pub const LEAK_DEN: usize = 100;

/// The slope of the leaky rectifier below zero.
pub open spec fn leak<T: Scalar>() -> T {
    ratio::<T>(LEAK_NUM, LEAK_DEN)
}

/// The leaky rectifier: `x` itself unless `x` is below zero, where it is
/// `x` scaled by [`leak`].
pub open spec fn leaky_relu_spec<T: Scalar>(x: T) -> T {
    if x.below_spec(zero::<T>()) {
        leak::<T>().times_spec(x)
    } else {
        x
    }
}

/// The logistic function, `1 / (1 + e^-x)`.
pub open spec fn sigmoid_spec<T: Scalar>(x: T) -> T {
    T::count_spec(1).over_spec(T::count_spec(1).plus_spec(x.negated_spec().exp_spec()))
}

/// What the leaky rectifier passes back of the gradient `g` at the input
/// `x`: `g` itself unless `x` is below zero, where it is `g` scaled by
/// [`leak`].
pub open spec fn leaky_relu_grad_spec<T: Scalar>(x: T, g: T) -> T {
    if x.below_spec(zero::<T>()) {
        leak::<T>().times_spec(g)
    } else {
        g
    }
}

/// What the logistic function passes back of the gradient `g` at the input
/// `x`: `g * (s * (1 - s))`, where `s` is the logistic function of `x`.
pub open spec fn sigmoid_grad_spec<T: Scalar>(x: T, g: T) -> T {
    let s = sigmoid_spec(x);
    g.times_spec(s.times_spec(T::count_spec(1).minus_spec(s)))
}

/// Computes the leaky rectifier of `x`.
pub fn leaky_relu<T: Scalar>(x: T) -> (r: T)
    ensures
        r == leaky_relu_spec(x),
{
    if x.below(T::count(0)) {
        make_ratio::<T>(LEAK_NUM, LEAK_DEN).times(x)
    } else {
        x
    }
}

/// Computes the logistic function of `x`.
pub fn sigmoid<T: Scalar>(x: T) -> (r: T)
    ensures
        r == sigmoid_spec(x),
{
    T::count(1).over(T::count(1).plus(x.negated().exp()))
}

/// The nonlinearity an activation layer applies.
#[derive(Clone, Copy, Debug, PartialEq, Eq, Structural)]
pub enum LossFn {
    LeakyRelu,
    Sigmoid,
}

impl LossFn {
    /// The value of the nonlinearity at `x`.
    pub open spec fn value<T: Scalar>(self, x: T) -> T {
        match self {
            LossFn::LeakyRelu => leaky_relu_spec(x),
            LossFn::Sigmoid => sigmoid_spec(x),
        }
    }

    /// What the nonlinearity passes back of the gradient `g` at the input
    /// `x`. Each nonlinearity is paired with its own derivative.
    pub open spec fn grad<T: Scalar>(self, x: T, g: T) -> T {
        match self {
            LossFn::LeakyRelu => leaky_relu_grad_spec(x, g),
            LossFn::Sigmoid => sigmoid_grad_spec(x, g),
        }
    }
}

/// A batch with the nonlinearity applied to every value.
pub open spec fn activated<T: Scalar>(fun: LossFn, x: Seq<T>) -> Seq<T> {
    Seq::new(x.len(), |k: int| fun.value(x[k]))
}

/// The gradients an activation layer passes back: value by value, what the
/// nonlinearity passes back of `g[k]` at the cached input `x[k]`.
pub open spec fn activation_grads<T: Scalar>(fun: LossFn, x: Seq<T>, g: Seq<T>) -> Seq<T> {
    Seq::new(x.len(), |k: int| fun.grad(x[k], g[k]))
}

/// An activation layer: one nonlinearity, applied value by value, and the
/// input batch of the latest forward pass. It has nothing to learn.
pub struct Loss<T: Scalar> {
    last_inputs: Option<Vec<T>>,
    fun: LossFn,
}

/// The mathematical content of a [`Loss`].
pub struct LossView<T> {
    pub fun: LossFn,
    /// The batch of the latest forward pass; `None` until there was one.
    pub last_inputs: Option<Seq<T>>,
}

impl<T: Scalar> View for Loss<T> {
    type V = LossView<T>;

    closed spec fn view(&self) -> LossView<T> {
        LossView {
            fun: self.fun,
            last_inputs: match self.last_inputs {
                Some(x) => Some(x@),
                None => None,
            },
        }
    }
}

impl<T: Scalar> Loss<T> {
    /// An activation layer for `fun` that has not seen a batch yet.
    pub fn new(fun: LossFn) -> (r: Self)
        ensures
            r@ == (LossView::<T> { fun, last_inputs: None }),
    {
        Loss { last_inputs: None, fun }
    }

    /// The nonlinearity this layer applies.
    pub fn fun(&self) -> (r: LossFn)
        ensures
            r == self@.fun,
    {
        self.fun
    }

    /// Applies the nonlinearity to every value of the batch. The batch as it
    /// came in, not the result, is cached for [`Loss::backward`].
    pub fn forward(&mut self, inputs: Vec<T>) -> (out: Vec<T>)
        ensures
            final(self)@ == (LossView { fun: old(self)@.fun, last_inputs: Some(inputs@) }),
            out@ == activated(old(self)@.fun, inputs@),
            out@.len() == inputs@.len(),
    {
        let fun: LossFn = self.fun;
        let count: usize = inputs.len();
        let mut out: Vec<T> = Vec::with_capacity(count);
        let mut k: usize = 0;
        while k < count
            invariant
                k <= count,
                count == inputs@.len(),
                out@ == activated(fun, inputs@.take(k as int)),
            decreases count - k,
        {
            let value: T = match fun {
                LossFn::LeakyRelu => leaky_relu(inputs[k]),
                LossFn::Sigmoid => sigmoid(inputs[k]),
            };
            out.push(value);
            assert(out@ =~= activated(fun, inputs@.take(k + 1)));
            k += 1;
        }
        assert(inputs@.take(count as int) =~= inputs@);
        self.last_inputs = Some(inputs);
        out
    }

    /// Passes the gradients `grads` back through the nonlinearity, value by
    /// value. Which way each value goes is decided by the cached input, not
    /// by what the forward pass returned for it: under the leaky rectifier a
    /// gradient is scaled by [`leak`] exactly where the cached input is below
    /// zero and passed on unchanged elsewhere.
    pub fn backward(&self, grads: Vec<T>) -> (out: Vec<T>)
        requires
            self@.last_inputs is Some,
            grads@.len() == self@.last_inputs->0.len(),
        ensures
            out@ == activation_grads(self@.fun, self@.last_inputs->0, grads@),
            out@.len() == grads@.len(),
            self@.fun == LossFn::LeakyRelu ==> forall|k: int|
                0 <= k < out@.len() ==> #[trigger] out@[k] == (if (self@.last_inputs->0)[k].below_spec(
                    zero::<T>(),
                ) {
                    leak::<T>().times_spec(grads@[k])
                } else {
                    grads@[k]
                }),
    {
        let fun: LossFn = self.fun;
        let cached: &Vec<T> = match &self.last_inputs {
            Some(cached) => cached,
            None => unreached(),
        };
        let count: usize = cached.len();
        let mut out: Vec<T> = Vec::with_capacity(count);
        let mut k: usize = 0;
        while k < count
            invariant
                k <= count,
                count == cached@.len(),
                count == grads@.len(),
                out@ == activation_grads(fun, cached@.take(k as int), grads@),
            decreases count - k,
        {
            let at: T = cached[k];
            let g: T = grads[k];
            let value: T = match fun {
                LossFn::LeakyRelu => {
                    if at.below(T::count(0)) {
                        make_ratio::<T>(LEAK_NUM, LEAK_DEN).times(g)
                    } else {
                        g
                    }
                },
                LossFn::Sigmoid => {
                    let s: T = sigmoid(at);
                    g.times(s.times(T::count(1).minus(s)))
                },
            };
            out.push(value);
            assert(out@ =~= activation_grads(fun, cached@.take(k + 1), grads@));
            k += 1;
        }
        assert(cached@.take(count as int) =~= cached@);
        out
    }
}

} // verus!
