use gradtape::device::Cpu;
use gradtape::error::Error;
use gradtape::ids::UniqueIds;
use gradtape::kernels::{
    check_indices, copy_rows, cpu_backward, cpu_forward, scatter_add_rows, RemoveDimKernel,
    ReplaceDimKernel,
};
use gradtape::plan::IndexPlan;
use gradtape::select_and_gather::{GatherTo, SelectTo};
use gradtape::shapes::Shape;
use gradtape::tensor::Tensor;

fn shape(dims: &[usize]) -> Shape {
    Shape::new(dims.to_vec()).unwrap()
}

fn tensor(ids: &mut UniqueIds, dims: &[usize], values: &[i64]) -> Tensor<i64, Cpu> {
    Tensor::new(Cpu, ids, shape(dims), values.to_vec()).unwrap()
}

fn index(ids: &mut UniqueIds, dims: &[usize], values: &[usize]) -> Tensor<usize, Cpu> {
    Tensor::new(Cpu, ids, shape(dims), values.to_vec()).unwrap()
}

#[test]
fn gradient_sums_every_occurrence() {
    // value 1 occurs at places 1 and 2, value 4 at places 4, 5 and 7
    let mut ids = UniqueIds::new();
    let t = tensor(&mut ids, &[5], &[10, 20, 30, 40, 50]);
    let idx = index(&mut ids, &[8], &[0, 1, 1, 3, 4, 4, 2, 4]);
    let r = t.trace().gather(0, idx, &mut ids);
    assert_eq!(r.data(), &vec![10, 20, 20, 40, 50, 50, 30, 50]);
    let upstream = vec![1, 2, 3, 4, 5, 6, 7, 8];
    let g = r.backward_with(upstream).unwrap();
    assert_eq!(g.get(t.id()).unwrap(), &vec![1, 2 + 3, 7, 4, 5 + 6 + 8]);
}

#[test]
fn unaddressed_places_stay_zero() {
    let mut ids = UniqueIds::new();
    let t = tensor(&mut ids, &[6], &[1, 2, 3, 4, 5, 6]);
    let idx = index(&mut ids, &[3], &[5, 5, 0]);
    let r = t.trace().gather(0, idx, &mut ids);
    let g = r.backward_with(vec![100, -7, 9]).unwrap();
    assert_eq!(g.get(t.id()).unwrap(), &vec![9, 0, 0, 0, 0, 93]);
}

#[test]
fn empty_index_gives_all_zero_gradient() {
    let mut ids = UniqueIds::new();
    let t = tensor(&mut ids, &[3], &[1, 2, 3]);
    let idx = index(&mut ids, &[0], &[]);
    let r = t.trace().gather(0, idx, &mut ids);
    assert_eq!(r.shape().dims(), &vec![0]);
    assert_eq!(r.data(), &Vec::<i64>::new());
    let g = r.backward_with(vec![]).unwrap();
    assert_eq!(g.get(t.id()).unwrap(), &vec![0, 0, 0]);
}

#[test]
fn backward_adds_onto_what_the_buffer_holds() {
    let plan = IndexPlan { lead: 1, extent: 4, tail: 1, per: 3 };
    let idx = vec![2, 2, 0];
    let mut grad = vec![1i64, 1, 1, 1];
    scatter_add_rows(&plan, &mut grad, &idx, &vec![10, 20, 30]);
    assert_eq!(grad, vec![31, 1, 31, 1]);
}

#[test]
fn addition_wraps_for_integers() {
    let plan = IndexPlan { lead: 1, extent: 2, tail: 1, per: 2 };
    let idx = vec![1, 1];
    let mut grad = vec![0i64, 0];
    scatter_add_rows(&plan, &mut grad, &idx, &vec![i64::MAX, 1]);
    assert_eq!(grad, vec![0, i64::MIN]);
}

#[test]
fn forward_copies_whole_rows() {
    // source (2, 3, 2), gather along axis 1 with index (2, 2)
    let plan = IndexPlan { lead: 2, extent: 3, tail: 2, per: 2 };
    let src: Vec<i64> = (0..12).collect();
    let idx = vec![2, 0, 1, 1];
    let out = copy_rows(&plan, &src, &idx);
    assert_eq!(out, vec![4, 5, 0, 1, 8, 9, 8, 9]);
}

#[test]
fn backward_scatters_whole_rows() {
    let plan = IndexPlan { lead: 2, extent: 3, tail: 2, per: 2 };
    let idx = vec![2, 0, 1, 1];
    let mut grad = vec![0i64; 12];
    scatter_add_rows(&plan, &mut grad, &idx, &vec![1, 2, 3, 4, 5, 6, 7, 8]);
    assert_eq!(grad, vec![3, 4, 0, 0, 1, 2, 0, 0, 12, 14, 0, 0]);
}

#[test]
fn index_check_is_exact_at_the_extent() {
    assert!(check_indices(&vec![0, 4, 2], 5));
    assert!(!check_indices(&vec![0, 5, 2], 5));
    assert!(check_indices(&vec![], 0));
    assert!(!check_indices(&vec![0], 0));
}

#[test]
fn forward_traps_an_index_out_of_range() {
    let plan = IndexPlan { lead: 1, extent: 3, tail: 1, per: 2 };
    let r = cpu_forward(&plan, &vec![1i64, 2, 3], &vec![0, 3]);
    assert_eq!(r, Err(Error::IndexOutOfRange));
    let ok = cpu_forward(&plan, &vec![1i64, 2, 3], &vec![0, 2]);
    assert_eq!(ok, Ok(vec![1, 3]));
}

#[test]
fn backward_traps_an_index_out_of_range_and_writes_nothing() {
    let plan = IndexPlan { lead: 1, extent: 3, tail: 1, per: 2 };
    let mut grad = vec![7i64, 8, 9];
    let r = cpu_backward(&plan, &mut grad, &vec![0, 3], &vec![1, 1]);
    assert_eq!(r, Err(Error::IndexOutOfRange));
    assert_eq!(grad, vec![7, 8, 9]);
}

#[test]
fn device_kernels_of_select_and_gather_agree() {
    let plan = IndexPlan { lead: 2, extent: 2, tail: 1, per: 1 };
    let src = vec![1i64, 2, 3, 4];
    let idx = vec![1, 0];
    let a = RemoveDimKernel::<i64>::forward(&Cpu, &plan, &src, &idx).unwrap();
    let b = ReplaceDimKernel::<i64>::forward(&Cpu, &plan, &src, &idx).unwrap();
    assert_eq!(a, vec![2, 3]);
    assert_eq!(a, b);
    let mut ga = vec![0i64; 4];
    let mut gb = vec![0i64; 4];
    RemoveDimKernel::<i64>::backward(&Cpu, &plan, &mut ga, &idx, &vec![5, 6]).unwrap();
    ReplaceDimKernel::<i64>::backward(&Cpu, &plan, &mut gb, &idx, &vec![5, 6]).unwrap();
    assert_eq!(ga, vec![0, 5, 6, 0]);
    assert_eq!(ga, gb);
}

#[test]
fn select_along_first_axis_with_a_batch_of_indices() {
    let mut ids = UniqueIds::new();
    let t = tensor(&mut ids, &[3, 2], &[1, 2, 3, 4, 5, 6]);
    let idx = index(&mut ids, &[2, 2], &[2, 0, 0, 1]);
    let r = t.trace().select(0, idx, &mut ids);
    assert_eq!(r.shape().dims(), &vec![2, 2, 2]);
    assert_eq!(r.data(), &vec![5, 6, 1, 2, 1, 2, 3, 4]);
    let g = r.backward_with(vec![1; 8]).unwrap();
    assert_eq!(g.get(t.id()).unwrap(), &vec![2, 2, 1, 1, 1, 1]);
}
