use dnnosaur::error::ConfigError;
use dnnosaur::layer::Layer;
use dnnosaur::scalar::Scalar;
use rand::rngs::StdRng;
use rand::{Rng, SeedableRng};

/// Double-precision numbers as the engine's scalar. Outside the verifier the
/// model functions are ordinary methods; each is the operation it models.
#[derive(Clone, Copy, Debug, PartialEq)]
struct Real(f64);

impl Scalar for Real {
    fn count_spec(n: usize) -> Self {
        Self::count(n)
    }
    fn plus_spec(self, rhs: Self) -> Self {
        self.plus(rhs)
    }
    fn minus_spec(self, rhs: Self) -> Self {
        self.minus(rhs)
    }
    fn times_spec(self, rhs: Self) -> Self {
        self.times(rhs)
    }
    fn over_spec(self, rhs: Self) -> Self {
        self.over(rhs)
    }
    fn negated_spec(self) -> Self {
        self.negated()
    }
    fn magnitude_spec(self) -> Self {
        self.magnitude()
    }
    fn exp_spec(self) -> Self {
        Scalar::exp(self)
    }
    fn ln_spec(self) -> Self {
        Scalar::ln(self)
    }
    fn sqrt_spec(self) -> Self {
        Scalar::sqrt(self)
    }
    fn below_spec(self, rhs: Self) -> bool {
        self.below(rhs)
    }
    fn count(n: usize) -> Self {
        Real(n as f64)
    }
    fn plus(self, rhs: Self) -> Self {
        Real(self.0 + rhs.0)
    }
    fn minus(self, rhs: Self) -> Self {
        Real(self.0 - rhs.0)
    }
    fn times(self, rhs: Self) -> Self {
        Real(self.0 * rhs.0)
    }
    fn over(self, rhs: Self) -> Self {
        Real(self.0 / rhs.0)
    }
    fn negated(self) -> Self {
        Real(-self.0)
    }
    fn magnitude(self) -> Self {
        Real(self.0.abs())
    }
    fn exp(self) -> Self {
        Real(self.0.exp())
    }
    fn ln(self) -> Self {
        Real(self.0.ln())
    }
    fn sqrt(self) -> Self {
        Real(self.0.sqrt())
    }
    fn below(self, rhs: Self) -> bool {
        self.0 < rhs.0
    }
}

fn reals(values: &[f64]) -> Vec<Real> {
    values.iter().map(|&v| Real(v)).collect()
}

fn floats(values: &[Real]) -> Vec<f64> {
    values.iter().map(|v| v.0).collect()
}

/// `count` draws from `[-1, 1]`, from a generator seeded with `seed`.
fn draws(seed: u64, count: usize) -> Vec<Real> {
    let mut rng = StdRng::seed_from_u64(seed);
    (0..count).map(|_| Real(rng.gen_range(-1.0..=1.0))).collect()
}

/// A layer whose weights are `0.2 * draw`, draw by draw.
fn layer_of(inputs: usize, outputs: usize, draw: &[f64]) -> Layer<Real> {
    Layer::new(inputs, outputs, &reals(draw)).unwrap()
}

/// The sum of `terms`, added in order to a sum that starts at zero.
fn running_sum(terms: &[f64]) -> f64 {
    let mut sum = 0.0;
    for t in terms {
        sum += t;
    }
    sum
}

#[test]
fn new_scales_each_draw() {
    let layer = layer_of(2, 3, &[1.0, -1.0, 0.5, 0.25, -0.5, 0.0, 0.75]);
    assert_eq!(layer.inputs(), 2);
    assert_eq!(layer.outputs(), 3);
    let want: Vec<f64> = [1.0, -1.0, 0.5, 0.25, -0.5, 0.0].iter().map(|d| 0.2 * d).collect();
    assert_eq!(floats(layer.weights()), want);
}

#[test]
fn new_weights_lie_within_the_scale() {
    let layer = Layer::new(7, 5, &draws(3, 35)).unwrap();
    assert_eq!(layer.weights().len(), 35);
    assert!(layer.weights().iter().all(|w| -0.2 <= w.0 && w.0 <= 0.2));
    assert!(layer.weights().iter().any(|w| w.0 != 0.0));
}

#[test]
fn new_is_reproducible_from_a_seed() {
    let a = Layer::new(4, 3, &draws(410, 12)).unwrap();
    let b = Layer::new(4, 3, &draws(410, 12)).unwrap();
    let c = Layer::new(4, 3, &draws(411, 12)).unwrap();
    assert_eq!(floats(a.weights()), floats(b.weights()));
    assert_ne!(floats(a.weights()), floats(c.weights()));
}

#[test]
fn new_refuses_bad_shapes() {
    let draw = reals(&[0.5; 6]);
    assert!(matches!(Layer::new(0, 3, &draw), Err(ConfigError::ZeroWidth)));
    assert!(matches!(Layer::new(usize::MAX, 2, &draw), Err(ConfigError::TooLarge)));
    assert!(matches!(Layer::new(2, 4, &draw), Err(ConfigError::TooFewDraws)));
    assert!(Layer::new(2, 3, &draw).is_ok());
    assert!(Layer::new(3, 0, &draw).is_ok());
}

#[test]
fn forward_is_the_batched_product() {
    // weights 0.2 * [[1, 2, 3], [4, 5, 6]]
    let mut layer = layer_of(2, 3, &[1.0, 2.0, 3.0, 4.0, 5.0, 6.0]);
    let out = layer.forward(reals(&[1.0, 1.0, 2.0, -1.0]));
    let w: Vec<f64> = [1.0, 2.0, 3.0, 4.0, 5.0, 6.0].iter().map(|d| 0.2 * d).collect();
    let want = vec![
        running_sum(&[1.0 * w[0], 1.0 * w[3]]),
        running_sum(&[1.0 * w[1], 1.0 * w[4]]),
        running_sum(&[1.0 * w[2], 1.0 * w[5]]),
        running_sum(&[2.0 * w[0], -1.0 * w[3]]),
        running_sum(&[2.0 * w[1], -1.0 * w[4]]),
        running_sum(&[2.0 * w[2], -1.0 * w[5]]),
    ];
    assert_eq!(floats(&out), want);
}

#[test]
fn forward_of_one_weight_is_a_product() {
    // one weight, 0.2 * 5 = 1
    let mut layer = layer_of(1, 1, &[5.0]);
    assert_eq!(floats(layer.weights()), vec![1.0]);
    assert_eq!(floats(&layer.forward(reals(&[3.0, -4.5]))), vec![3.0, -4.5]);
}

#[test]
fn forward_keeps_the_shape() {
    for (ins, outs) in [(1usize, 1usize), (3, 2), (2, 5), (4, 4), (5, 0)] {
        for batch in [0usize, 1, 2, 7] {
            let mut layer = Layer::new(ins, outs, &draws(9, ins * outs)).unwrap();
            let out = layer.forward(draws(10, batch * ins));
            assert_eq!(out.len(), batch * outs);
        }
    }
}

#[test]
fn forward_leaves_the_weights_alone() {
    let mut layer = Layer::new(3, 2, &draws(1, 6)).unwrap();
    let before = floats(layer.weights());
    let first = layer.forward(draws(2, 6));
    let second = layer.forward(draws(2, 6));
    assert_eq!(floats(layer.weights()), before);
    assert_eq!(floats(&first), floats(&second));
}

#[test]
fn backward_averages_weight_gradients_and_sums_input_gradients() {
    let (ins, outs, batch) = (3usize, 2usize, 4usize);
    let mut layer = Layer::new(ins, outs, &draws(5, ins * outs)).unwrap();
    let x = floats(&draws(6, batch * ins));
    let g = floats(&draws(7, batch * outs));
    let w = floats(layer.weights());
    layer.forward(reals(&x));
    let found = layer.backward(reals(&g)).unwrap();

    // every gradient accumulated in place, batch by batch
    let mut weight_grads = vec![0.0; ins * outs];
    let mut input_grads = vec![0.0; batch * ins];
    for b in 0..batch {
        for i in 0..ins {
            for o in 0..outs {
                weight_grads[i * outs + o] += (g[b * outs + o] * x[b * ins + i]) / batch as f64;
                input_grads[b * ins + i] += g[b * outs + o] * w[i * outs + o];
            }
        }
    }
    assert_eq!(floats(&found.weight_grads), weight_grads);
    assert_eq!(floats(&found.input_grads), input_grads);
}

#[test]
fn backward_of_a_known_batch() {
    // weights [[1, 2]], batch [[1], [3]], output gradients [[1, 0], [1, 2]]
    let mut layer = layer_of(1, 2, &[5.0, 10.0]);
    layer.forward(reals(&[1.0, 3.0]));
    let found = layer.backward(reals(&[1.0, 0.0, 1.0, 2.0])).unwrap();
    // weight gradients: (1*1)/2 + (1*3)/2 = 2 and (0*1)/2 + (2*3)/2 = 3
    assert_eq!(floats(&found.weight_grads), vec![2.0, 3.0]);
    // input gradients: 1*1 + 0*2 = 1 and 1*1 + 2*2 = 5
    assert_eq!(floats(&found.input_grads), vec![1.0, 5.0]);
}

#[test]
fn backward_refuses_an_empty_batch() {
    let mut layer = Layer::new(3, 2, &draws(5, 6)).unwrap();
    layer.forward(Vec::new());
    assert!(matches!(layer.backward(Vec::new()), Err(ConfigError::EmptyBatch)));
}

#[test]
fn backward_uses_the_batch_of_the_latest_forward() {
    let mut layer = layer_of(1, 1, &[5.0]);
    layer.forward(reals(&[1.0, 1.0]));
    layer.forward(reals(&[4.0]));
    let found = layer.backward(reals(&[2.0])).unwrap();
    assert_eq!(floats(&found.weight_grads), vec![8.0]);
    assert_eq!(floats(&found.input_grads), vec![2.0]);
}

#[test]
fn apply_gradients_steps_against_the_gradient() {
    let mut layer = layer_of(2, 2, &[5.0, -5.0, 0.0, 2.5]);
    let before = floats(layer.weights());
    let grads = [1.0, -2.0, 0.5, 0.0];
    layer.apply_gradients(reals(&grads));
    let want: Vec<f64> = before.iter().zip(grads).map(|(w, g)| w - 0.01 * g).collect();
    assert_eq!(floats(layer.weights()), want);
    assert_eq!(floats(layer.weights()), vec![1.0 - 0.01, -1.0 + 0.02, 0.0 - 0.005, 0.5]);
}

/// The mean over the batch of a fixed weighted sum of squares of the outputs.
fn downstream_loss(out: &[f64], batch: usize) -> f64 {
    let mut sum = 0.0;
    for (k, o) in out.iter().enumerate() {
        sum += (1.0 + k as f64) * o * o / 2.0;
    }
    sum / batch as f64
}

#[test]
fn gradients_match_finite_differences() {
    let (ins, outs, batch) = (3usize, 2usize, 2usize);
    let draw = floats(&draws(21, ins * outs));
    let x = floats(&draws(22, batch * ins));
    let eps = 1e-6;

    let mut layer = layer_of(ins, outs, &draw);
    let out = floats(&layer.forward(reals(&x)));
    // the gradient of each example's own loss with respect to its outputs
    let g: Vec<f64> = out.iter().enumerate().map(|(k, o)| (1.0 + k as f64) * o).collect();
    let found = layer.backward(reals(&g)).unwrap();

    let loss_at = |draw: &[f64], x: &[f64]| {
        let mut layer = layer_of(ins, outs, draw);
        downstream_loss(&floats(&layer.forward(reals(x))), batch)
    };
    for k in 0..ins * outs {
        // a weight is 0.2 times its draw
        let mut up = draw.clone();
        let mut down = draw.clone();
        up[k] += eps / 0.2;
        down[k] -= eps / 0.2;
        let numeric = (loss_at(&up, &x) - loss_at(&down, &x)) / (2.0 * eps);
        assert!((found.weight_grads[k].0 - numeric).abs() < 1e-4);
    }
    for k in 0..batch * ins {
        let mut up = x.clone();
        let mut down = x.clone();
        up[k] += eps;
        down[k] -= eps;
        // input gradients are not averaged over the batch
        let numeric = batch as f64 * (loss_at(&draw, &up) - loss_at(&draw, &down)) / (2.0 * eps);
        assert!((found.input_grads[k].0 - numeric).abs() < 1e-4);
    }
}
