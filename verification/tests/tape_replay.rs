use gradtape::device::{Cpu, DeviceStorage};
use gradtape::dtype::Dtype;
use gradtape::error::Error;
use gradtape::gradients::Gradients;
use gradtape::ids::UniqueIds;
use gradtape::kernels::{cpu_backward, cpu_forward, RemoveDimKernel, ReplaceDimKernel};
use gradtape::plan::IndexPlan;
use gradtape::select_and_gather::{GatherTo, SelectTo};
use gradtape::shapes::Shape;
use gradtape::tape::{BackwardOp, IndexedCopy, Sum, Tape};
use gradtape::tensor::Tensor;

fn shape(dims: &[usize]) -> Shape {
    Shape::new(dims.to_vec()).unwrap()
}

fn tensor(ids: &mut UniqueIds, dims: &[usize], values: &[i64]) -> Tensor<i64, Cpu> {
    Tensor::new(Cpu, ids, shape(dims), values.to_vec()).unwrap()
}

fn index(ids: &mut UniqueIds, dims: &[usize], values: &[usize]) -> Tensor<usize, Cpu> {
    Tensor::new(Cpu, ids, shape(dims), values.to_vec()).unwrap()
}

fn vector_gather(inp: u64, out: u64, extent: usize, idx: &[usize]) -> BackwardOp {
    BackwardOp::Gather(IndexedCopy {
        inp,
        out,
        plan: IndexPlan { lead: 1, extent, tail: 1, per: idx.len() },
        idx: idx.to_vec(),
    })
}

/// A device without memory to give.
#[derive(Clone, Copy)]
struct Exhausted;

impl DeviceStorage for Exhausted {
    fn dependable(&self) -> bool {
        false
    }

    fn try_zeros<E: Dtype>(&self, _len: usize) -> Result<Vec<E>, Error> {
        Err(Error::AllocationFailure)
    }
}

impl RemoveDimKernel<i64> for Exhausted {
    fn forward(&self, plan: &IndexPlan, inp: &Vec<i64>, idx: &Vec<usize>) -> Result<Vec<i64>, Error> {
        cpu_forward(plan, inp, idx)
    }

    fn backward(
        &self,
        plan: &IndexPlan,
        grad_inp: &mut Vec<i64>,
        idx: &Vec<usize>,
        grad_out: &Vec<i64>,
    ) -> Result<(), Error> {
        cpu_backward(plan, grad_inp, idx, grad_out)
    }
}

impl ReplaceDimKernel<i64> for Exhausted {
    fn forward(&self, _: &IndexPlan, _: &Vec<i64>, _: &Vec<usize>) -> Result<Vec<i64>, Error> {
        Err(Error::AllocationFailure)
    }

    fn backward(
        &self,
        plan: &IndexPlan,
        grad_inp: &mut Vec<i64>,
        idx: &Vec<usize>,
        grad_out: &Vec<i64>,
    ) -> Result<(), Error> {
        cpu_backward(plan, grad_inp, idx, grad_out)
    }
}

#[test]
fn steps_replay_last_recorded_first() {
    // gather 1 -> 2, then gather 2 -> 3: the gradient of 3 must reach 2
    // before the step from 2 to 1 is replayed
    let mut tape = Tape::new();
    tape.add_backward_op(vector_gather(1, 2, 3, &[0, 2]));
    tape.add_backward_op(vector_gather(2, 3, 2, &[1, 1, 0]));
    assert_eq!(tape.len(), 2);
    let mut g: Gradients<i64> = Gradients::new();
    g.insert(3, vec![1, 10, 100]);
    tape.execute(&Cpu, &mut g).unwrap();
    assert_eq!(g.get(2), Some(&vec![100, 11]));
    assert_eq!(g.get(1), Some(&vec![100, 0, 11]));
}

#[test]
fn in_the_other_order_the_gradient_would_not_arrive() {
    let mut tape = Tape::new();
    tape.add_backward_op(vector_gather(2, 3, 2, &[1, 1, 0]));
    tape.add_backward_op(vector_gather(1, 2, 3, &[0, 2]));
    let mut g: Gradients<i64> = Gradients::new();
    g.insert(3, vec![1, 10, 100]);
    tape.execute(&Cpu, &mut g).unwrap();
    assert_eq!(g.get(1), Some(&vec![0, 0, 0]));
    assert_eq!(g.get(2), Some(&vec![100, 11]));
}

#[test]
fn each_step_is_replayed_once() {
    // three steps that all add the gradient of 9 onto that of 1
    let mut tape = Tape::new();
    tape.add_backward_op(vector_gather(1, 9, 1, &[0]));
    tape.add_backward_op(vector_gather(1, 9, 1, &[0]));
    tape.add_backward_op(vector_gather(1, 9, 1, &[0]));
    let mut g: Gradients<i64> = Gradients::new();
    g.insert(9, vec![5]);
    tape.execute(&Cpu, &mut g).unwrap();
    assert_eq!(g.get(1), Some(&vec![15]));
}

#[test]
fn merged_tapes_keep_every_step_in_order() {
    let mut a = Tape::new();
    a.add_backward_op(vector_gather(1, 2, 3, &[0, 2]));
    let mut b = Tape::new();
    b.add_backward_op(vector_gather(4, 5, 2, &[1]));
    b.add_backward_op(vector_gather(5, 6, 1, &[0, 0]));
    let merged = a.merge(b);
    assert_eq!(merged.len(), 3);
    let mut g: Gradients<i64> = Gradients::new();
    g.insert(2, vec![7, 8]);
    g.insert(6, vec![1, 2]);
    merged.execute(&Cpu, &mut g).unwrap();
    assert_eq!(g.get(1), Some(&vec![7, 0, 8]));
    assert_eq!(g.get(5), Some(&vec![3]));
    assert_eq!(g.get(4), Some(&vec![0, 3]));
}

#[test]
fn a_tensor_read_twice_collects_both_gradients() {
    let mut ids = UniqueIds::new();
    let t = tensor(&mut ids, &[4], &[1, 2, 3, 4]);
    let a = index(&mut ids, &[2], &[0, 3]);
    let b = index(&mut ids, &[2], &[3, 3]);
    let left = t.trace().gather(0, a, &mut ids);
    let right = t.trace().gather(0, b, &mut ids);
    let both = left.add(right, &mut ids);
    assert_eq!(both.data(), &vec![1 + 4, 4 + 4]);
    let g = both.backward_with(vec![10, 100]).unwrap();
    assert_eq!(g.get(t.id()), Some(&vec![10, 0, 0, 100 + 10 + 100]));
}

#[test]
fn a_sum_hands_its_gradient_to_both_operands() {
    let mut ids = UniqueIds::new();
    let x = tensor(&mut ids, &[2], &[1, 2]);
    let y = tensor(&mut ids, &[2], &[10, 20]);
    let z = x.trace().add(y.trace(), &mut ids);
    assert_eq!(z.data(), &vec![11, 22]);
    let g = z.backward_with(vec![3, 4]).unwrap();
    assert_eq!(g.get(x.id()), Some(&vec![3, 4]));
    assert_eq!(g.get(y.id()), Some(&vec![3, 4]));
}

#[test]
fn a_tensor_added_to_itself_gets_the_gradient_twice() {
    let mut ids = UniqueIds::new();
    let x = tensor(&mut ids, &[2], &[1, 2]);
    let z = x.trace().add(x.trace(), &mut ids);
    assert_eq!(z.data(), &vec![2, 4]);
    let g = z.backward_with(vec![3, 4]).unwrap();
    assert_eq!(g.get(x.id()), Some(&vec![6, 8]));
}

#[test]
fn tensors_of_different_shapes_do_not_add() {
    let mut ids = UniqueIds::new();
    let x = tensor(&mut ids, &[2, 1], &[1, 2]);
    let y = tensor(&mut ids, &[1, 2], &[1, 2]);
    assert_eq!(x.try_add(y, &mut ids).err(), Some(Error::ShapeMismatch));
}

#[test]
fn a_step_from_a_tensor_to_itself_is_an_aliasing_violation() {
    let mut g: Gradients<i64> = Gradients::new();
    g.insert(1, vec![1, 2]);
    let op = vector_gather(1, 1, 2, &[0, 1]);
    assert_eq!(op.replay(&Cpu, &mut g), Err(Error::AliasingViolation));
    let op = BackwardOp::Add(Sum { lhs: 2, rhs: 1, out: 1, len: 2 });
    assert_eq!(op.replay(&Cpu, &mut g), Err(Error::AliasingViolation));
    assert_eq!(g.get(1), Some(&vec![1, 2]));
}

#[test]
fn a_gradient_of_the_wrong_length_is_a_shape_mismatch() {
    let mut g: Gradients<i64> = Gradients::new();
    g.insert(2, vec![1, 2, 3]);
    let op = vector_gather(1, 2, 4, &[0, 1]);
    assert_eq!(op.replay(&Cpu, &mut g), Err(Error::ShapeMismatch));
    let mut g: Gradients<i64> = Gradients::new();
    g.insert(9, vec![1, 2, 3]);
    let op = BackwardOp::Add(Sum { lhs: 1, rhs: 2, out: 9, len: 2 });
    assert_eq!(op.replay(&Cpu, &mut g), Err(Error::ShapeMismatch));
}

#[test]
fn a_step_with_an_index_out_of_range_is_trapped_at_replay() {
    let mut g: Gradients<i64> = Gradients::new();
    g.insert(2, vec![1, 2]);
    let op = vector_gather(1, 2, 4, &[0, 4]);
    assert_eq!(op.replay(&Cpu, &mut g), Err(Error::IndexOutOfRange));
    let mut g: Gradients<i64> = Gradients::new();
    g.insert(2, vec![1, 2]);
    let op = BackwardOp::Select(IndexedCopy {
        inp: 1,
        out: 2,
        plan: IndexPlan { lead: 2, extent: 4, tail: 1, per: 1 },
        idx: vec![4, 0],
    });
    assert_eq!(op.replay(&Cpu, &mut g), Err(Error::IndexOutOfRange));
}

#[test]
fn a_failure_ends_the_replay() {
    let mut tape = Tape::new();
    tape.add_backward_op(vector_gather(1, 2, 3, &[0, 2]));
    tape.add_backward_op(vector_gather(2, 2, 2, &[0, 1]));
    let mut g: Gradients<i64> = Gradients::new();
    g.insert(2, vec![7, 8]);
    assert_eq!(tape.execute(&Cpu, &mut g), Err(Error::AliasingViolation));
    // the step recorded first was never reached
    assert!(!g.contains(1));
}

#[test]
fn a_device_without_memory_fails_the_backward_pass() {
    let mut ids = UniqueIds::new();
    let t = Tensor::new(Exhausted, &mut ids, shape(&[3]), vec![1i64, 2, 3]).unwrap();
    let idx = Tensor::new(Exhausted, &mut ids, shape(&[]), vec![1usize]).unwrap();
    let r = t.trace().try_select(0, idx, &mut ids).unwrap();
    assert_eq!(r.data(), &vec![2]);
    assert_eq!(r.backward().err(), Some(Error::AllocationFailure));
}

#[test]
fn a_device_without_memory_fails_the_forward_pass() {
    let mut ids = UniqueIds::new();
    let t = Tensor::new(Exhausted, &mut ids, shape(&[3]), vec![1i64, 2, 3]).unwrap();
    let idx = Tensor::new(Exhausted, &mut ids, shape(&[2]), vec![1usize, 0]).unwrap();
    let r = t.trace().try_gather(0, idx, &mut ids);
    assert_eq!(r.err(), Some(Error::AllocationFailure));
}

#[test]
fn the_tape_travels_with_the_output() {
    let mut ids = UniqueIds::new();
    let t = tensor(&mut ids, &[3], &[1, 2, 3]);
    assert!(!t.is_traced());
    let traced = t.trace();
    assert!(traced.is_traced());
    assert_eq!(traced.id(), t.id());
    let (bare, tape) = traced.split_tape();
    assert!(!bare.is_traced());
    assert_eq!(tape.as_ref().map(|t| t.len()), Some(0));
    let idx = index(&mut ids, &[1], &[2]);
    let out = bare.put_tape(tape).gather(0, idx, &mut ids);
    let (_, tape) = out.split_tape();
    assert_eq!(tape.map(|t| t.len()), Some(1));
}
