use dnnosaur::error::ConfigError;
use dnnosaur::mnist::accuracy;
use dnnosaur::nll::Nll;
use dnnosaur::qff::{absolute_error, rmsd};
use dnnosaur::scalar::Scalar;

/// Double-precision numbers as the engine's scalar. Outside the verifier the
/// model functions are ordinary methods; each is the operation it models.
#[derive(Clone, Copy, Debug, PartialEq)]
struct Real(f64);

impl Scalar for Real {
    fn count_spec(n: usize) -> Self {
        Self::count(n)
    }
    fn plus_spec(self, rhs: Self) -> Self {
        self.plus(rhs)
    }
    fn minus_spec(self, rhs: Self) -> Self {
        self.minus(rhs)
    }
    fn times_spec(self, rhs: Self) -> Self {
        self.times(rhs)
    }
    fn over_spec(self, rhs: Self) -> Self {
        self.over(rhs)
    }
    fn negated_spec(self) -> Self {
        self.negated()
    }
    fn magnitude_spec(self) -> Self {
        self.magnitude()
    }
    fn exp_spec(self) -> Self {
        Scalar::exp(self)
    }
    fn ln_spec(self) -> Self {
        Scalar::ln(self)
    }
    fn sqrt_spec(self) -> Self {
        Scalar::sqrt(self)
    }
    fn below_spec(self, rhs: Self) -> bool {
        self.below(rhs)
    }
    fn count(n: usize) -> Self {
        Real(n as f64)
    }
    fn plus(self, rhs: Self) -> Self {
        Real(self.0 + rhs.0)
    }
    fn minus(self, rhs: Self) -> Self {
        Real(self.0 - rhs.0)
    }
    fn times(self, rhs: Self) -> Self {
        Real(self.0 * rhs.0)
    }
    fn over(self, rhs: Self) -> Self {
        Real(self.0 / rhs.0)
    }
    fn negated(self) -> Self {
        Real(-self.0)
    }
    fn magnitude(self) -> Self {
        Real(self.0.abs())
    }
    fn exp(self) -> Self {
        Real(self.0.exp())
    }
    fn ln(self) -> Self {
        Real(self.0.ln())
    }
    fn sqrt(self) -> Self {
        Real(self.0.sqrt())
    }
    fn below(self, rhs: Self) -> bool {
        self.0 < rhs.0
    }
}

fn reals(values: &[f64]) -> Vec<Real> {
    values.iter().map(|&v| Real(v)).collect()
}

fn floats(values: &[Real]) -> Vec<f64> {
    values.iter().map(|v| v.0).collect()
}

#[test]
fn cross_entropy_of_one_example() {
    let found = Nll::new(3, reals(&[1.0, 2.0, 3.0]), &[2]);
    let sum = 0.0 + 1f64.exp() + 2f64.exp() + 3f64.exp();
    assert_eq!(found.n, 3);
    assert_eq!(floats(&found.loss), vec![-1.0 * (3f64.exp() / sum).ln()]);
    assert_eq!(
        floats(&found.input_grads),
        vec![1f64.exp() / sum, 2f64.exp() / sum, 3f64.exp() / sum - 1.0]
    );
    // the loss is -log(softmax[2]), about 0.4076
    assert!((found.loss[0].0 - 0.40760596444438).abs() < 1e-12);
    assert!((found.input_grads[2].0 - (0.66524095577482 - 1.0)).abs() < 1e-12);
}

#[test]
fn cross_entropy_of_a_batch() {
    let scores = [0.5, -1.0, 2.0, 0.0, 0.0, 0.0];
    let found = Nll::new(3, reals(&scores), &[0, 1]);
    let first = 0.0 + 0.5f64.exp() + (-1f64).exp() + 2f64.exp();
    assert_eq!(found.loss.len(), 2);
    assert_eq!(found.input_grads.len(), 6);
    assert_eq!(found.loss[0].0, -1.0 * (0.5f64.exp() / first).ln());
    // equal scores share the softmax equally
    assert_eq!(found.loss[1].0, -1.0 * (1.0f64 / 3.0).ln());
    assert_eq!(found.input_grads[0].0, 0.5f64.exp() / first - 1.0);
    assert_eq!(found.input_grads[1].0, (-1f64).exp() / first);
    assert_eq!(found.input_grads[2].0, 2f64.exp() / first);
    assert_eq!(floats(&found.input_grads[3..]), vec![1.0 / 3.0, 1.0 / 3.0 - 1.0, 1.0 / 3.0]);
    for row in found.input_grads.chunks(3) {
        let total: f64 = row.iter().map(|g| g.0).sum();
        assert!(total.abs() < 1e-12);
    }
}

#[test]
fn cross_entropy_of_no_examples() {
    let found: Nll<Real> = Nll::new(4, Vec::new(), &[]);
    assert!(found.loss.is_empty());
    assert!(found.input_grads.is_empty());
}

#[test]
fn absolute_error_and_its_damped_gradient() {
    let found = absolute_error(reals(&[1.0, 5.0, -2.0, 3.0]), &reals(&[3.0, 5.0, -4.5, 1000.0]));
    assert_eq!(floats(&found.loss), vec![2.0, 0.0, 2.5, 997.0]);
    assert_eq!(
        floats(&found.input_grads),
        vec![-2.0 / 1000.0, 0.0, 2.5 / 1000.0, -997.0 / 1000.0]
    );
}

#[test]
fn rmsd_of_known_values() {
    let got = reals(&[1.0, 2.0, 3.0]);
    let want = reals(&[1.0, 2.0, 5.0]);
    assert_eq!(rmsd(&got, &want), Ok(Real((4.0f64 / 3.0).sqrt())));
    assert_eq!(rmsd(&want, &want), Ok(Real(0.0)));
    assert_eq!(rmsd(&reals(&[3.0, 0.0]), &reals(&[0.0, 4.0])), Ok(Real(12.5f64.sqrt())));
}

#[test]
fn rmsd_of_nothing_is_refused() {
    assert_eq!(rmsd::<Real>(&[], &[]), Err(ConfigError::EmptyValidation));
}

#[test]
fn accuracy_is_a_percentage() {
    // picks: 2, 0, 1, 1
    let got = reals(&[0.1, 0.2, 0.7, 0.9, 0.0, 0.1, 0.3, 0.4, 0.3, -3.0, -1.0, -2.0]);
    assert_eq!(accuracy(&got, &[2, 0, 1, 1], 3), Ok(Real(100.0)));
    assert_eq!(accuracy(&got, &[2, 0, 1, 0], 3), Ok(Real(75.0)));
    assert_eq!(accuracy(&got, &[0, 1, 2, 0], 3), Ok(Real(0.0)));
    assert_eq!(accuracy(&got, &[2, 1, 0, 1], 3), Ok(Real(2.0 * 100.0 / 4.0)));
}

#[test]
fn accuracy_counts_as_the_hundredth_of_ten_thousand() {
    // 10000 examples of two scores; the first 8888 are classified right
    let mut got = Vec::new();
    let mut want = Vec::new();
    for k in 0..10_000 {
        got.push(Real(1.0));
        got.push(Real(0.0));
        want.push(if k < 8888 { 0u8 } else { 1u8 });
    }
    assert_eq!(accuracy(&got, &want, 2), Ok(Real(8888.0 / 100.0)));
    assert_eq!(accuracy(&got, &want, 2), Ok(Real(88.88)));
}

#[test]
fn accuracy_picks_the_last_of_equal_scores() {
    let got = reals(&[1.0, 1.0, 1.0, 0.5, 2.0, 2.0]);
    assert_eq!(accuracy(&got, &[2, 2], 3), Ok(Real(100.0)));
    assert_eq!(accuracy(&got, &[0, 1], 3), Ok(Real(0.0)));
}

#[test]
fn accuracy_of_one_class_is_always_right() {
    assert_eq!(accuracy(&reals(&[0.3, -0.3]), &[0, 0], 1), Ok(Real(100.0)));
}

#[test]
fn accuracy_of_nothing_is_refused() {
    assert_eq!(accuracy::<Real>(&[], &[], 3), Err(ConfigError::EmptyValidation));
}
