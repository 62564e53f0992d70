use gradtape::device::Cpu;
use gradtape::dtype::Dtype;
use gradtape::ids::UniqueIds;
use gradtape::select_and_gather::{GatherTo, SelectTo};
use gradtape::shapes::Shape;
use gradtape::tensor::Tensor;

/// Double-precision elements.
#[derive(Clone, Copy, Debug, PartialEq)]
struct F(f64);

impl Dtype for F {
    fn spec_zero() -> F {
        F(0.0)
    }

    fn spec_one() -> F {
        F(1.0)
    }

    fn spec_sum(self, rhs: F) -> F {
        F(self.0 + rhs.0)
    }

    fn zero() -> F {
        F(0.0)
    }

    fn one() -> F {
        F(1.0)
    }

    fn add(self, rhs: F) -> F {
        F(self.0 + rhs.0)
    }
}

fn shape(dims: &[usize]) -> Shape {
    Shape::new(dims.to_vec()).unwrap()
}

fn tensor(ids: &mut UniqueIds, dims: &[usize], values: &[f64]) -> Tensor<F, Cpu> {
    let data: Vec<F> = values.iter().map(|v| F(*v)).collect();
    Tensor::new(Cpu, ids, shape(dims), data).unwrap()
}

fn index(ids: &mut UniqueIds, dims: &[usize], values: &[usize]) -> Tensor<usize, Cpu> {
    Tensor::new(Cpu, ids, shape(dims), values.to_vec()).unwrap()
}

fn floats(values: &Vec<F>) -> Vec<f64> {
    values.iter().map(|v| v.0).collect()
}

#[test]
fn gather_then_mean_of_exp() {
    let x = [0.25, -1.5, 2.0, 0.75, -0.125];
    let mut ids = UniqueIds::new();
    let t = tensor(&mut ids, &[5], &x);
    let idx = index(&mut ids, &[4], &[0, 1, 1, 3]);
    let r = t.trace().gather(0, idx, &mut ids);
    assert_eq!(floats(r.data()), [x[0], x[1], x[1], x[3]]);
    // the loss is mean(exp(r)): its gradient at r is exp(r) / 4
    let upstream: Vec<F> = r.data().iter().map(|v| F(v.0.exp() / 4.0)).collect();
    let g = r.backward_with(upstream).unwrap();
    assert_eq!(
        floats(g.get(t.id()).unwrap()),
        [
            x[0].exp() / 4.0,
            2.0 * x[1].exp() / 4.0,
            0.0,
            x[3].exp() / 4.0,
            0.0
        ]
    );
}

#[test]
fn batched_gather_then_sum() {
    let x: Vec<f64> = (0..20).map(|k| k as f64 * 0.5 - 3.0).collect();
    let mut ids = UniqueIds::new();
    let t = tensor(&mut ids, &[4, 5], &x);
    let idx = index(&mut ids, &[2, 3], &[2, 0, 3, 0, 0, 3]);
    let r = t.trace().gather(0, idx, &mut ids);
    assert_eq!(r.shape().dims(), &vec![2, 3, 5]);
    let rows = [2, 0, 3, 0, 0, 3];
    for (k, row) in rows.iter().enumerate() {
        assert_eq!(floats(r.data())[5 * k..5 * k + 5], x[5 * row..5 * row + 5]);
    }
    // the loss is sum(r): its gradient at r is one everywhere
    let g = r.backward_with(vec![F(1.0); 30]).unwrap();
    let per_row = [3.0, 0.0, 1.0, 2.0];
    let expected: Vec<f64> = per_row.iter().flat_map(|v| [*v; 5]).collect();
    assert_eq!(floats(g.get(t.id()).unwrap()), expected);
}

#[test]
fn select_then_exp() {
    let x = [0.5, 1.5, -2.0, 3.0, 0.0];
    let mut ids = UniqueIds::new();
    let t = tensor(&mut ids, &[5], &x);
    let idx = index(&mut ids, &[], &[0]);
    let r = t.trace().select(0, idx, &mut ids);
    assert_eq!(r.shape().dims(), &Vec::<usize>::new());
    assert_eq!(floats(r.data()), [x[0]]);
    // the loss is exp(r): its gradient at r is exp(r)
    let g = r.backward_with(vec![F(x[0].exp())]).unwrap();
    assert_eq!(
        floats(g.get(t.id()).unwrap()),
        [x[0].exp(), 0.0, 0.0, 0.0, 0.0]
    );
}

#[test]
fn a_scalar_is_its_own_loss() {
    let mut ids = UniqueIds::new();
    let t = tensor(&mut ids, &[3], &[4.0, 5.0, 6.0]);
    let idx = index(&mut ids, &[], &[2]);
    let r = t.trace().select(0, idx, &mut ids);
    let out = r.id();
    let g = r.backward().unwrap();
    assert_eq!(floats(g.get(out).unwrap()), [1.0]);
    assert_eq!(floats(g.get(t.id()).unwrap()), [0.0, 0.0, 1.0]);
}

#[test]
fn without_a_tape_nothing_is_recorded() {
    let mut ids = UniqueIds::new();
    let t = tensor(&mut ids, &[3], &[4.0, 5.0, 6.0]);
    let idx = index(&mut ids, &[2], &[2, 2]);
    let r = t.with_empty_tape().gather(0, idx, &mut ids);
    assert!(!r.is_traced());
    assert_eq!(floats(r.data()), [6.0, 6.0]);
    let out = r.id();
    let g = r.backward_with(vec![F(1.0), F(1.0)]).unwrap();
    assert_eq!(g.len(), 1);
    assert!(g.get(t.id()).is_none());
    assert_eq!(floats(g.get(out).unwrap()), [1.0, 1.0]);
}
