//! Tests of the flat memory, the address arithmetic, and the paged
//! allocator.

use vm_cpu::memory::{Address, CpuMemory, Error, Memory, Pager, Pointer, PointerLen};
use vm_cpu::stack::Stack;

#[test]
fn ptr_len() {
    let mut ptr = Pointer(0);
    ptr.set_page(10);
    ptr.set_len(PointerLen::from_u32(1));
    assert_eq!(ptr.len().len(), 1);
    assert_eq!(ptr.page(), 10);
}

#[test]
fn memcpy() {
    let mut mem = Pager::default();
    let ptr = mem.allocate(10);
    mem.memcpy(ptr, &[5; 10]);
    for i in 0..10u32 {
        assert_eq!(mem.read_byte(0, i).unwrap(), 5);
    }
}

#[test]
fn write() {
    let mut mem = Pager::default();
    let ptr = mem.allocate(10);
    mem.write(ptr, 5, &[5; 5]);
    let mut page = Vec::new();
    for i in 0..10u32 {
        page.push(mem.read_byte(0, i).unwrap());
    }
    assert_eq!(page, [0, 0, 0, 0, 0, 5, 5, 5, 5, 5]);
}

#[test]
fn max() {
    assert_eq!(PointerLen::max(), 16777215)
}

#[test]
fn address_boundaries() {
    assert_eq!(Address(0).next().unwrap(), Address(1));
    assert_eq!(Address(5).prev().unwrap(), Address(4));
    assert!(matches!(Address(u32::MAX).next(), Err(Error::StackOverflow)));
    assert!(matches!(Address(0).prev(), Err(Error::StackUnderflow)));
    assert_eq!(Address(10).offset(5).unwrap(), Address(15));
    assert!(matches!(
        Address(u32::MAX).offset(1),
        Err(Error::StackOverflow)
    ));
}

#[test]
fn byte_reads_and_writes() {
    let mut mem = CpuMemory::default();
    assert_eq!(mem.len(), 0x10000);
    mem.write(Address(7), 0xAB).unwrap();
    assert_eq!(mem.read(Address(7)).unwrap(), 0xAB);
    assert!(matches!(
        mem.read(Address(0x10000)),
        Err(Error::InvalidAddress(0x10000))
    ));
    assert!(matches!(
        mem.write(Address(0x10000), 1),
        Err(Error::InvalidAddress(0x10000))
    ));
}

#[test]
fn little_endian_helpers() {
    let mut mem = CpuMemory::default();
    mem.write_u16(Address(0), 0x1234).unwrap();
    assert_eq!(mem.read(Address(0)).unwrap(), 0x34);
    assert_eq!(mem.read(Address(1)).unwrap(), 0x12);
    assert_eq!(mem.read_u16(Address(0)).unwrap(), 0x1234);
    mem.write_u32(Address(4), 0xAABBCCDD).unwrap();
    assert_eq!(mem.read(Address(4)).unwrap(), 0xDD);
    assert_eq!(mem.read(Address(7)).unwrap(), 0xAA);
    assert_eq!(mem.read_u32(Address(4)).unwrap(), 0xAABBCCDD);
}

#[test]
fn get_borrows_a_range() {
    let mut mem = CpuMemory::default();
    mem.write_bytes(Address(3), &[1, 2, 3]).unwrap();
    let window = mem.get(Address(3), Address(6)).unwrap();
    assert_eq!(window, &[1, 2, 3]);
    assert!(matches!(
        mem.get(Address(5), Address(2)),
        Err(Error::InvalidAddress(5))
    ));
    assert!(matches!(
        mem.get(Address(0), Address(0x10001)),
        Err(Error::InvalidAddress(0x10001))
    ));
}

#[test]
fn write_bytes_is_atomic() {
    let mut mem = CpuMemory::default();
    // A run that would cross the end of memory writes nothing.
    let r = mem.write_bytes(Address(0xFFFE), &[1, 2, 3, 4]);
    assert!(matches!(r, Err(Error::InvalidAddress(0x10000))));
    assert_eq!(mem.read(Address(0xFFFE)).unwrap(), 0);
}

#[test]
fn stack_is_a_memory() {
    let mut stack = Stack::<65535>::new();
    stack.write(Address(100), 42).unwrap();
    assert_eq!(stack.read(Address(100)).unwrap(), 42);
    assert!(matches!(
        stack.read(Address(65535)),
        Err(Error::InvalidAddress(65535))
    ));
    let window = stack.get(Address(99), Address(102)).unwrap();
    assert_eq!(window, &[0, 42, 0]);
}
