//! A fixed-size byte store: the simplest concrete backing for the
//! [`crate::memory::Memory`] capability.

use crate::memory::{Address, Error, Memory};
use vstd::prelude::*;
use vstd::slice::slice_subrange;

verus! {

/// A flat, fixed-size byte store of `SIZE` bytes.  Its view is the
/// sequence of all its bytes.
#[derive(Debug)]
pub struct Stack<const SIZE: usize> {
    memory: Vec<u8>,
}

impl<const SIZE: usize> View for Stack<SIZE> {
    type V = Seq<u8>;

    closed spec fn view(&self) -> Seq<u8> {
        self.memory@
    }
}

impl<const SIZE: usize> Default for Stack<SIZE> {
    /// A zero-filled store of `SIZE` bytes.
    fn default() -> (r: Self)
        ensures
            r@.len() == SIZE,
            forall|j: int| 0 <= j < r@.len() ==> r@[j] == 0u8,
    {
        Stack { memory: vec![0u8; SIZE] }
    }
}

impl<const SIZE: usize> Stack<SIZE> {
    /// A zero-filled store of `SIZE` bytes.
    pub fn new() -> (r: Self)
        ensures
            r@.len() == SIZE,
            forall|j: int| 0 <= j < r@.len() ==> r@[j] == 0u8,
    {
        Stack { memory: vec![0u8; SIZE] }
    }
}

impl<const SIZE: usize> Memory for Stack<SIZE> {
    fn read(&self, address: Address) -> (r: Result<u8, Error>) {
        if (address.0 as usize) < self.memory.len() {
            Ok(self.memory[address.0 as usize])
        } else {
            Err(Error::InvalidAddress(address.0))
        }
    }

    fn write(&mut self, address: Address, byte: u8) -> (r: Result<(), Error>) {
        if (address.0 as usize) < self.memory.len() {
            self.memory[address.0 as usize] = byte;
            Ok(())
        } else {
            Err(Error::InvalidAddress(address.0))
        }
    }

    fn get<'a>(&'a self, start: Address, end: Address) -> (r: Result<&'a [u8], Error>) {
        if start.0 > end.0 {
            Err(Error::InvalidAddress(start.0))
        } else if (end.0 as usize) > self.memory.len() {
            Err(Error::InvalidAddress(end.0))
        } else {
            Ok(slice_subrange(self.memory.as_slice(), start.0 as usize, end.0 as usize))
        }
    }
}

} // verus!
