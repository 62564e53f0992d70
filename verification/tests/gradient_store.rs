use gradtape::device::{Cpu, DeviceStorage};
use gradtape::error::Error;
use gradtape::gradients::Gradients;
use gradtape::unused::{missing_gradients, UnusedTensors};

#[test]
fn a_buffer_is_made_of_zeros_on_first_request() {
    let mut g: Gradients<i64> = Gradients::new();
    assert_eq!(g.len(), 0);
    assert!(!g.contains(7));
    assert_eq!(g.get_or_alloc(&Cpu, 7, 3).unwrap(), &mut vec![0, 0, 0]);
    assert!(g.contains(7));
    assert_eq!(g.len(), 1);
    assert_eq!(g.get(7), Some(&vec![0, 0, 0]));
}

#[test]
fn a_second_request_returns_the_same_buffer() {
    let mut g: Gradients<i64> = Gradients::new();
    g.get_or_alloc(&Cpu, 7, 3).unwrap()[1] = 5;
    // the length asked for the second time does not matter
    assert_eq!(g.get_or_alloc(&Cpu, 7, 10).unwrap(), &mut vec![0, 5, 0]);
    assert_eq!(g.len(), 1);
}

#[test]
fn no_gradient_is_not_a_gradient_of_zeros() {
    let mut g: Gradients<i64> = Gradients::new();
    g.get_or_alloc(&Cpu, 1, 2).unwrap();
    assert_eq!(g.get(1), Some(&vec![0, 0]));
    assert_eq!(g.get(2), None);
}

#[test]
fn mutable_and_shared_access_to_two_gradients() {
    let mut g: Gradients<i64> = Gradients::new();
    g.insert(1, vec![1, 2]);
    g.insert(2, vec![10, 20, 30]);
    g.insert(3, vec![100]);
    {
        let (m, r) = g.mut_and_ref(1, 3).unwrap();
        assert_eq!(r, &vec![100]);
        m[0] += r[0];
    }
    {
        let (m, r) = g.mut_and_ref(3, 2).unwrap();
        assert_eq!(r, &vec![10, 20, 30]);
        m[0] += r[2];
    }
    assert_eq!(g.get(1), Some(&vec![101, 2]));
    assert_eq!(g.get(2), Some(&vec![10, 20, 30]));
    assert_eq!(g.get(3), Some(&vec![130]));
}

#[test]
fn one_gradient_cannot_be_had_both_ways() {
    let mut g: Gradients<i64> = Gradients::new();
    g.insert(1, vec![1, 2]);
    assert_eq!(g.mut_and_ref(1, 1).err(), Some(Error::AliasingViolation));
    assert_eq!(g.get(1), Some(&vec![1, 2]));
}

#[test]
fn insert_replaces_what_was_recorded() {
    let mut g: Gradients<i64> = Gradients::new();
    g.insert(4, vec![1]);
    g.insert(4, vec![2, 3]);
    assert_eq!(g.len(), 1);
    assert_eq!(g.get(4), Some(&vec![2, 3]));
}

#[test]
fn the_host_always_has_zeros_to_give() {
    assert_eq!(Cpu.try_zeros::<i64>(4), Ok(vec![0, 0, 0, 0]));
    assert_eq!(Cpu.try_zeros::<usize>(0), Ok(vec![]));
}

#[test]
fn parameters_without_a_gradient_are_listed() {
    let mut g: Gradients<i64> = Gradients::new();
    g.insert(2, vec![0]);
    g.insert(5, vec![0]);
    let unused = missing_gradients(&g, &vec![1, 2, 3, 5, 8]);
    assert_eq!(unused.ids(), &vec![1, 3, 8]);
    assert_eq!(unused.len(), 3);
    assert!(!unused.is_empty());
    assert!(missing_gradients(&g, &vec![5, 2]).is_empty());
}

#[test]
fn unused_tensors_are_noted_in_order() {
    let mut unused = UnusedTensors::new();
    assert!(unused.is_empty());
    unused.add(9);
    unused.add(4);
    assert_eq!(unused.ids(), &vec![9, 4]);
}
