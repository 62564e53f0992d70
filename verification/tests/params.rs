use gradtape::device::{Cpu, DeviceStorage};
use gradtape::dtype::Dtype;
use gradtape::error::Error;
use gradtape::gradients::Gradients;
use gradtape::ids::UniqueIds;
use gradtape::linear::Linear;
use gradtape::nn::{BuildModule, Embedding, Residual, ResetParams, ToDevice};
use gradtape::optim::{GradientCheck, GradientUpdate};
use gradtape::tensor::Tensor;
use gradtape::unused::UnusedTensors;
use rand::rngs::StdRng;
use rand::SeedableRng;
use rand_distr::{Distribution, Uniform};

/// Single-precision elements.
#[derive(Clone, Copy, Debug, PartialEq)]
struct F(f32);

impl Dtype for F {
    fn spec_zero() -> F {
        F(0.0)
    }

    fn spec_one() -> F {
        F(1.0)
    }

    fn spec_sum(self, rhs: F) -> F {
        F(self.0 + rhs.0)
    }

    fn zero() -> F {
        F(0.0)
    }

    fn one() -> F {
        F(1.0)
    }

    fn add(self, rhs: F) -> F {
        F(self.0 + rhs.0)
    }
}

/// Another device with memory of its own.
#[derive(Clone, Copy, Debug, PartialEq)]
struct Other(u8);

impl DeviceStorage for Other {
    fn dependable(&self) -> bool {
        true
    }

    fn try_zeros<E: Dtype>(&self, len: usize) -> Result<Vec<E>, Error> {
        Ok(vec![E::zero(); len])
    }
}

/// Draws `n` values uniformly between `-1 / sqrt(fan_in)` and
/// `1 / sqrt(fan_in)`.
fn draw(fan_in: usize, n: usize) -> Vec<F> {
    let mut rng = StdRng::seed_from_u64(0);
    let bound: f32 = 1.0 / (fan_in as f32).sqrt();
    let distr = Uniform::new(-bound, bound);
    (0..n).map(|_| F(distr.sample(&mut rng))).collect()
}

fn floats(t: &Tensor<F, Cpu>) -> Vec<f32> {
    t.data().iter().map(|v| v.0).collect()
}

fn ramp(n: usize) -> Vec<i64> {
    (0..n as i64).collect()
}

#[test]
fn test_embedding_initialize() {
    let mut ids = UniqueIds::new();
    let m: Embedding<F, Cpu> =
        BuildModule::try_build(Cpu, &mut ids, (2000, 1), draw(2000, 2000)).unwrap();
    let bound = 1.0 / 2000.0f32.sqrt();
    for v in floats(&m.weight) {
        assert!(-bound <= v && v <= bound && v != 0.0);
    }
}

#[test]
fn test_linear_initialize() {
    let mut ids = UniqueIds::new();
    let m: Linear<F, Cpu> =
        BuildModule::try_build(Cpu, &mut ids, (2000, 1), draw(2000, 2001)).unwrap();
    let bound = 1.0 / 2000.0f32.sqrt();
    for v in floats(&m.weight) {
        assert!(-bound <= v && v <= bound && v != 0.0);
    }
    for v in floats(&m.bias) {
        assert!(-bound <= v && v <= bound && v != 0.0);
    }
}

#[test]
fn test_residual_reset() {
    let mut ids = UniqueIds::new();
    let model: Residual<Linear<F, Cpu>> =
        BuildModule::try_build(Cpu, &mut ids, (2, 5), draw(2, 15)).unwrap();
    assert_ne!(floats(&model.0.weight), [[0.0; 2]; 5].concat());
    assert_ne!(floats(&model.0.bias), [0.0; 5]);
}

#[test]
fn test_embedding_missing_gradients() {
    let mut ids = UniqueIds::new();
    let mut model: Embedding<F, Cpu> =
        BuildModule::try_build(Cpu, &mut ids, (5, 3), draw(5, 15)).unwrap();
    let mut g = GradientCheck { grads: Gradients::<F>::new() };

    // no gradients present
    let mut unused = UnusedTensors::new();
    model.update(&mut g, &mut unused).unwrap();
    assert_eq!(unused.ids(), &[model.weight.id()]);

    g.grads.get_or_alloc(&Cpu, model.weight.id(), 15).unwrap();

    // weight gradient is present
    let mut unused = UnusedTensors::new();
    model.update(&mut g, &mut unused).unwrap();
    assert!(unused.is_empty());
}

#[test]
fn test_linear_missing_gradients() {
    let mut ids = UniqueIds::new();
    let mut model: Linear<F, Cpu> =
        BuildModule::try_build(Cpu, &mut ids, (5, 3), draw(5, 18)).unwrap();
    let mut g = GradientCheck { grads: Gradients::<F>::new() };

    // no gradients present
    let mut unused = UnusedTensors::new();
    model.update(&mut g, &mut unused).unwrap();
    assert_eq!(unused.ids(), &[model.weight.id(), model.bias.id()]);

    g.grads.get_or_alloc(&Cpu, model.weight.id(), 15).unwrap();

    // weight gradient is present
    let mut unused = UnusedTensors::new();
    model.update(&mut g, &mut unused).unwrap();
    assert_eq!(unused.ids(), &[model.bias.id()]);

    g.grads.get_or_alloc(&Cpu, model.weight.id(), 15).unwrap();
    g.grads.get_or_alloc(&Cpu, model.bias.id(), 3).unwrap();

    // both gradients present
    let mut unused = UnusedTensors::new();
    model.update(&mut g, &mut unused).unwrap();
    assert!(unused.is_empty());
}

#[test]
fn a_linear_layer_takes_the_weight_first_and_then_the_bias() {
    let mut ids = UniqueIds::new();
    ids.fresh();
    let m: Linear<i64, Cpu> = BuildModule::try_build(Cpu, &mut ids, (3, 2), ramp(8)).unwrap();
    assert_eq!(m.weight.shape().dims(), &vec![2, 3]);
    assert_eq!(m.weight.data(), &vec![0, 1, 2, 3, 4, 5]);
    assert_eq!(m.bias.shape().dims(), &vec![2]);
    assert_eq!(m.bias.data(), &vec![6, 7]);
    assert_eq!(m.weight.id(), 1);
    assert_eq!(m.bias.id(), 2);
    assert_eq!(ids.fresh(), 3);
    assert!(!m.weight.is_traced() && !m.bias.is_traced());
}

#[test]
fn a_layer_needs_exactly_as_many_values_as_it_has_parameters() {
    let mut ids = UniqueIds::new();
    let r: Result<Linear<i64, Cpu>, Error> = BuildModule::try_build(Cpu, &mut ids, (3, 2), ramp(7));
    assert_eq!(r.err(), Some(Error::ShapeMismatch));
    let r: Result<Linear<i64, Cpu>, Error> = BuildModule::try_build(Cpu, &mut ids, (3, 2), ramp(9));
    assert_eq!(r.err(), Some(Error::ShapeMismatch));
    let r: Result<Linear<i64, Cpu>, Error> = BuildModule::try_build(Cpu, &mut ids, (3, 2), ramp(5));
    assert_eq!(r.err(), Some(Error::ShapeMismatch));
    let r: Result<Embedding<i64, Cpu>, Error> =
        BuildModule::try_build(Cpu, &mut ids, (3, 2), ramp(5));
    assert_eq!(r.err(), Some(Error::ShapeMismatch));
    let r: Result<Residual<Embedding<i64, Cpu>>, Error> =
        BuildModule::try_build(Cpu, &mut ids, (3, 2), ramp(7));
    assert_eq!(r.err(), Some(Error::ShapeMismatch));
    // no failure used up an identity
    assert_eq!(ids.fresh(), 0);
}

#[test]
fn a_layer_too_large_to_address_is_an_allocation_failure() {
    let mut ids = UniqueIds::new();
    let r: Result<Linear<i64, Cpu>, Error> =
        BuildModule::try_build(Cpu, &mut ids, (usize::MAX, 2), vec![]);
    assert_eq!(r.err(), Some(Error::AllocationFailure));
    let r: Result<Embedding<i64, Cpu>, Error> =
        BuildModule::try_build(Cpu, &mut ids, (2, usize::MAX), vec![]);
    assert_eq!(r.err(), Some(Error::AllocationFailure));
    assert_eq!(ids.fresh(), 0);
}

#[test]
fn an_embedding_holds_its_values_row_by_row() {
    let mut ids = UniqueIds::new();
    let m: Embedding<i64, Cpu> = BuildModule::try_build(Cpu, &mut ids, (3, 2), ramp(6)).unwrap();
    assert_eq!(m.weight.shape().dims(), &vec![3, 2]);
    assert_eq!(m.weight.data(), &vec![0, 1, 2, 3, 4, 5]);
    assert_eq!(m.weight.id(), 0);
}

#[test]
fn resetting_keeps_identities_and_shapes() {
    let mut ids = UniqueIds::new();
    let mut m: Linear<i64, Cpu> = BuildModule::try_build(Cpu, &mut ids, (3, 2), ramp(8)).unwrap();
    m.try_reset_params(vec![10, 11, 12, 13, 14, 15, 16, 17]).unwrap();
    assert_eq!(m.weight.data(), &vec![10, 11, 12, 13, 14, 15]);
    assert_eq!(m.bias.data(), &vec![16, 17]);
    assert_eq!((m.weight.id(), m.bias.id()), (0, 1));
    assert_eq!(m.weight.shape().dims(), &vec![2, 3]);
    // a wrong count changes nothing
    assert_eq!(m.try_reset_params(vec![1; 7]), Err(Error::ShapeMismatch));
    assert_eq!(m.try_reset_params(vec![1; 9]), Err(Error::ShapeMismatch));
    assert_eq!(m.weight.data(), &vec![10, 11, 12, 13, 14, 15]);
    assert_eq!(m.bias.data(), &vec![16, 17]);

    let mut e: Residual<Embedding<i64, Cpu>> =
        BuildModule::try_build(Cpu, &mut ids, (2, 2), ramp(4)).unwrap();
    e.try_reset_params(vec![9, 8, 7, 6]).unwrap();
    assert_eq!(e.0.weight.data(), &vec![9, 8, 7, 6]);
    assert_eq!(e.try_reset_params(vec![9, 8, 7]), Err(Error::ShapeMismatch));
    assert_eq!(e.0.weight.data(), &vec![9, 8, 7, 6]);
}

#[test]
fn a_copy_on_another_device_has_new_identities() {
    let mut ids = UniqueIds::new();
    let m: Residual<Linear<i64, Cpu>> =
        BuildModule::try_build(Cpu, &mut ids, (3, 2), ramp(8)).unwrap();
    let copy: Residual<Linear<i64, Other>> = m.to_device(Other(7), &mut ids);
    assert_eq!(copy.0.weight.data(), m.0.weight.data());
    assert_eq!(copy.0.bias.data(), m.0.bias.data());
    assert_eq!(copy.0.weight.shape().dims(), &vec![2, 3]);
    assert_eq!(copy.0.bias.shape().dims(), &vec![2]);
    assert_eq!((copy.0.weight.id(), copy.0.bias.id()), (2, 3));
    assert_eq!(copy.0.weight.device_ref(), &Other(7));

    let e: Embedding<i64, Cpu> = BuildModule::try_build(Cpu, &mut ids, (2, 2), ramp(4)).unwrap();
    let copy: Embedding<i64, Other> = e.to_device(Other(1), &mut ids);
    assert_eq!(copy.weight.data(), &vec![0, 1, 2, 3]);
    assert_eq!((e.weight.id(), copy.weight.id()), (4, 5));
}

#[test]
fn a_traced_tensor_is_copied_without_its_tape() {
    let mut ids = UniqueIds::new();
    let m: Embedding<i64, Cpu> = BuildModule::try_build(Cpu, &mut ids, (2, 2), ramp(4)).unwrap();
    let copy = m.weight.trace().to_device(Other(0), &mut ids);
    assert!(!copy.is_traced());
    assert_eq!(copy.data(), &vec![0, 1, 2, 3]);
}

#[test]
fn the_gradient_check_changes_no_parameter() {
    let mut ids = UniqueIds::new();
    let mut m: Residual<Linear<i64, Cpu>> =
        BuildModule::try_build(Cpu, &mut ids, (3, 2), ramp(8)).unwrap();
    let mut g = GradientCheck { grads: Gradients::<i64>::new() };
    g.grads.insert(1, vec![5, 5]);
    let mut unused = UnusedTensors::new();
    unused.add(99);
    assert_eq!(m.update(&mut g, &mut unused), Ok(()));
    assert_eq!(unused.ids(), &vec![99, 0]);
    assert_eq!(m.0.weight.data(), &vec![0, 1, 2, 3, 4, 5]);
    assert_eq!(m.0.bias.data(), &vec![6, 7]);
    assert_eq!(g.grads.get(1), Some(&vec![5, 5]));
}
