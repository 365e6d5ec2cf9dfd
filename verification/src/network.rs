//! The pipeline of a dense layer, an activation layer and a dense layer.

use vstd::prelude::*;
use crate::error::ConfigError;
use crate::layer::{
    descended, forward_values, initial_weights, input_grad_values, weight_grad_values, Layer,
    LayerView,
};
use crate::relu::{activated, activation_grads, Loss, LossFn, LossView};
use crate::scalar::Scalar;
use crate::shape::lemma_whole_rows;

verus! {

/// The width of the hidden layer.
pub const EDGES: usize = 100;

/// The fixed pipeline: a dense layer, an activation layer, a dense layer.
pub struct Network<T: Scalar> {
    layer1: Layer<T>,
    relu1: Loss<T>,
    layer2: Layer<T>,
}

/// The mathematical content of a [`Network`].
pub struct NetworkView<T> {
    pub layer1: LayerView<T>,
    pub relu1: LossView<T>,
    pub layer2: LayerView<T>,
}

impl<T: Scalar> NetworkView<T> {
    /// The stages fit together: both dense layers keep their own
    /// bookkeeping, and what the first puts out is what the second takes in.
    pub open spec fn wf(self) -> bool {
        &&& self.layer1.wf()
        &&& self.layer2.wf()
        &&& self.layer1.outputs == self.layer2.inputs
    }

    /// What the first dense layer makes of the batch `x`.
    pub open spec fn hidden(self, x: Seq<T>) -> Seq<T> {
        forward_values(self.layer1.weights, self.layer1.inputs, self.layer1.outputs, x)
    }

    /// What the network makes of the batch `x`: the second dense layer of the
    /// activation of the first dense layer.
    pub open spec fn output(self, x: Seq<T>) -> Seq<T> {
        forward_values(
            self.layer2.weights,
            self.layer2.inputs,
            self.layer2.outputs,
            activated(self.relu1.fun, self.hidden(x)),
        )
    }

    /// The network after a forward pass over `x`: every stage has cached what
    /// it was given, and no weight has moved.
    pub open spec fn after_forward(self, x: Seq<T>) -> NetworkView<T> {
        NetworkView {
            layer1: LayerView { last_inputs: Some(x), ..self.layer1 },
            relu1: LossView { last_inputs: Some(self.hidden(x)), ..self.relu1 },
            layer2: LayerView {
                last_inputs: Some(activated(self.relu1.fun, self.hidden(x))),
                ..self.layer2
            },
        }
    }

    /// Every stage holds a batch, and the three batches are of one size.
    pub open spec fn primed(self) -> bool {
        &&& self.layer1.last_inputs is Some
        &&& self.relu1.last_inputs is Some
        &&& self.layer2.last_inputs is Some
        &&& self.relu1.last_inputs->0.len() == self.layer1.batch() * self.layer1.outputs
        &&& self.layer2.last_inputs->0.len() == self.layer1.batch() * self.layer1.outputs
    }

    /// The gradients for the second dense layer's weights, given the
    /// gradients `g` of the loss with respect to the network's output.
    pub open spec fn weight_grads2(self, g: Seq<T>) -> Seq<T> {
        weight_grad_values(
            self.layer2.last_inputs->0,
            g,
            self.layer2.inputs,
            self.layer2.outputs,
        )
    }

    /// The gradients that reach the first dense layer: those the second
    /// dense layer hands to its inputs, passed back through the activation.
    pub open spec fn hidden_grads(self, g: Seq<T>) -> Seq<T> {
        activation_grads(
            self.relu1.fun,
            self.relu1.last_inputs->0,
            input_grad_values(
                self.layer2.weights,
                g,
                self.layer2.inputs,
                self.layer2.outputs,
                self.layer2.batch(),
            ),
        )
    }

    /// The gradients for the first dense layer's weights.
    pub open spec fn weight_grads1(self, g: Seq<T>) -> Seq<T> {
        weight_grad_values(
            self.layer1.last_inputs->0,
            self.hidden_grads(g),
            self.layer1.inputs,
            self.layer1.outputs,
        )
    }

    /// The network after the backward pass for `g`: both dense layers have
    /// taken one gradient-descent step, each with its own weight gradients,
    /// all of them computed before either layer moved.
    pub open spec fn after_backward(self, g: Seq<T>) -> NetworkView<T> {
        NetworkView {
            layer1: LayerView {
                weights: descended(self.layer1.weights, self.weight_grads1(g)),
                ..self.layer1
            },
            relu1: self.relu1,
            layer2: LayerView {
                weights: descended(self.layer2.weights, self.weight_grads2(g)),
                ..self.layer2
            },
        }
    }

    /// The network after one training step on the batch `x`, where `g` is
    /// the gradient of the loss with respect to the network's output for `x`.
    pub open spec fn after_step(self, x: Seq<T>, g: Seq<T>) -> NetworkView<T> {
        self.after_forward(x).after_backward(g)
    }
}

/// The network that [`Network::new`] builds: both dense layers start from
/// the front of the same draws.
pub open spec fn initial_network<T: Scalar>(
    inputs: nat,
    outputs: nat,
    fun: LossFn,
    draws: Seq<T>,
) -> NetworkView<T> {
    NetworkView {
        layer1: LayerView {
            inputs,
            outputs: EDGES as nat,
            weights: initial_weights(draws, inputs * EDGES as nat),
            last_inputs: None,
        },
        relu1: LossView { fun, last_inputs: None },
        layer2: LayerView {
            inputs: EDGES as nat,
            outputs,
            weights: initial_weights(draws, EDGES as nat * outputs),
            last_inputs: None,
        },
    }
}

/// The error, if any, that stands in the way of a network of `inputs`
/// input features and `outputs` output features built from `draws` draws.
pub open spec fn network_error(inputs: nat, outputs: nat, draws: nat) -> Option<ConfigError> {
    if inputs == 0 {
        Some(ConfigError::ZeroWidth)
    } else if inputs * EDGES > usize::MAX {
        Some(ConfigError::TooLarge)
    } else if draws < inputs * EDGES {
        Some(ConfigError::TooFewDraws)
    } else if EDGES * outputs > usize::MAX {
        Some(ConfigError::TooLarge)
    } else if draws < EDGES * outputs {
        Some(ConfigError::TooFewDraws)
    } else {
        None
    }
}

impl<T: Scalar> View for Network<T> {
    type V = NetworkView<T>;

    closed spec fn view(&self) -> NetworkView<T> {
        NetworkView { layer1: self.layer1@, relu1: self.relu1@, layer2: self.layer2@ }
    }
}

impl<T: Scalar> Network<T> {
    /// The invariant of a network, see [`NetworkView::wf`].
    pub open spec fn wf(&self) -> bool {
        self@.wf()
    }

    /// Builds the pipeline for examples `inputs` wide and results `outputs`
    /// wide, with [`EDGES`] hidden features and the nonlinearity `fun`. Both
    /// dense layers take their initial weights from the front of `draws`.
    pub fn new(inputs: usize, outputs: usize, fun: LossFn, draws: &[T]) -> (r: Result<
        Self,
        ConfigError,
    >)
        ensures
            match network_error(inputs as nat, outputs as nat, draws@.len()) {
                Some(e) => r == Err::<Self, ConfigError>(e),
                None => r is Ok && r->Ok_0.wf() && r->Ok_0@ == initial_network(
                    inputs as nat,
                    outputs as nat,
                    fun,
                    draws@,
                ),
            },
    {
        let layer1 = match Layer::new(inputs, EDGES, draws) {
            Ok(layer) => layer,
            Err(e) => {
                return Err(e);
            },
        };
        let layer2 = match Layer::new(EDGES, outputs, draws) {
            Ok(layer) => layer,
            Err(e) => {
                return Err(e);
            },
        };
        Ok(Network { layer1, relu1: Loss::new(fun), layer2 })
    }

    /// The first dense layer.
    pub fn layer1(&self) -> (r: &Layer<T>)
        ensures
            r@ == self@.layer1,
    {
        &self.layer1
    }

    /// The second dense layer.
    pub fn layer2(&self) -> (r: &Layer<T>)
        ensures
            r@ == self@.layer2,
    {
        &self.layer2
    }

    /// Runs the batch `inputs` forward through the three stages. Every stage
    /// caches what it was given; no weight moves.
    pub fn forward(&mut self, inputs: Vec<T>) -> (out: Vec<T>)
        requires
            old(self).wf(),
            inputs@.len() % old(self)@.layer1.inputs == 0,
            (inputs@.len() / old(self)@.layer1.inputs) * old(self)@.layer1.outputs <= usize::MAX,
            (inputs@.len() / old(self)@.layer1.inputs) * old(self)@.layer2.outputs <= usize::MAX,
        ensures
            final(self).wf(),
            final(self)@.primed(),
            final(self)@ == old(self)@.after_forward(inputs@),
            out@ == old(self)@.output(inputs@),
            out@.len() == (inputs@.len() / old(self)@.layer1.inputs) * old(self)@.layer2.outputs,
    {
        let ghost batch = inputs@.len() / self@.layer1.inputs;
        let ghost hid = self@.layer1.outputs;
        let outputs1 = self.layer1.forward(inputs);
        proof {
            lemma_whole_rows(batch, hid);
        }
        let outputs2 = self.relu1.forward(outputs1);
        self.layer2.forward(outputs2)
    }

    /// Propagates the gradients `grads` of the loss with respect to the
    /// latest output back through the stages, in reverse order, and then lets
    /// both dense layers take their gradient-descent step.
    ///
    /// A batch of no examples has no gradient; the network is then left as it
    /// was.
    pub fn backward(&mut self, grads: Vec<T>) -> (r: Result<(), ConfigError>)
        requires
            old(self).wf(),
            old(self)@.primed(),
            grads@.len() == old(self)@.layer1.batch() * old(self)@.layer2.outputs,
        ensures
            final(self).wf(),
            old(self)@.layer1.batch() == 0 ==> r == Err::<(), ConfigError>(ConfigError::EmptyBatch)
                && final(self)@ == old(self)@,
            old(self)@.layer1.batch() > 0 ==> r is Ok && final(self)@ == old(self)@.after_backward(
                grads@,
            ),
    {
        proof {
            lemma_whole_rows(self@.layer1.batch(), self@.layer1.outputs);
        }
        let grads1 = match self.layer2.backward(grads) {
            Ok(found) => found,
            Err(e) => {
                return Err(e);
            },
        };
        let grads2 = self.relu1.backward(grads1.input_grads);
        let grads3 = match self.layer1.backward(grads2) {
            Ok(found) => found,
            Err(e) => {
                return Err(e);
            },
        };
        self.layer1.apply_gradients(grads3.weight_grads);
        self.layer2.apply_gradients(grads1.weight_grads);
        Ok(())
    }
}

} // verus!
