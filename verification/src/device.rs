use vstd::prelude::*;
use crate::dtype::Dtype;
use crate::error::Error;

verus! {

/// A buffer of `len` zeros.
pub open spec fn zeros<E: Dtype>(len: nat) -> Seq<E> {
    Seq::new(len, |i: int| E::spec_zero())
}

/// What a device provides to the engine: storage.
pub trait DeviceStorage {
    /// Whether the device always has a buffer to give. An undependable device
    /// may answer any request for storage with `AllocationFailure`.
    spec fn dependable(&self) -> bool;

    /// Provides a buffer of `len` zeros.
    fn try_zeros<E: Dtype>(&self, len: usize) -> (r: Result<Vec<E>, Error>)
        ensures
            r matches Ok(buf) ==> buf@ == zeros::<E>(len as nat),
            r matches Err(e) ==> e == Error::AllocationFailure && !self.dependable(),
    ;
}

/// The host processor, with buffers in main memory.
#[derive(Clone, Copy, Debug)]
pub struct Cpu;

impl DeviceStorage for Cpu {
    open spec fn dependable(&self) -> bool {
        true
    }

    fn try_zeros<E: Dtype>(&self, len: usize) -> (r: Result<Vec<E>, Error>) {
        let mut buf: Vec<E> = Vec::new();
        let mut i: usize = 0;
        while i < len
            invariant
                i <= len,
                buf@ == zeros::<E>(i as nat),
            decreases len - i,
        {
            buf.push(E::zero());
            i += 1;
        }
        Ok(buf)
    }
}

} // verus!
