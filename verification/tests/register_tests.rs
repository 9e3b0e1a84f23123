//! Tests of the register file and the word-half helpers.

use vm_cpu::registers::{Register, Registers, WordSize};

#[test]
fn from_u16() {
    let r = Register::from_u8(0).unwrap();
    assert!(r == Register::IP);
}

#[test]
fn upper() {
    let mut regs = Registers::default();
    regs.set(Register::R1, u32::MAX);
    assert!(regs.get_upper(Register::R1) == 65535);
}

#[test]
fn lower() {
    let mut regs = Registers::default();
    regs.set(Register::R1, u16::MAX as u32);
    assert!(regs.get_upper(Register::R1) == 65535);
}

#[test]
fn upper_and_lower() {
    let x: u32 = 0xAAAAEEEE;
    let mut regs = Registers::default();
    regs.set(Register::R1, x);
    let upper = regs.get(Register::R1).upper();
    let lower = regs.get(Register::R1).lower();
    assert_eq!(upper, 0xAAAA);
    assert_eq!(lower, 0xEEEE);
}

#[test]
fn len() {
    assert!(Register::len() == 11);
}

#[test]
fn register_codes_round_trip() {
    let all = [
        Register::IP,
        Register::SP,
        Register::FP,
        Register::R1,
        Register::R2,
        Register::R3,
        Register::R4,
        Register::R5,
        Register::R6,
        Register::R7,
        Register::R8,
    ];
    for (i, r) in all.iter().enumerate() {
        assert_eq!(r.code(), i as u8);
        assert!(Register::from_u8(i as u8).unwrap() == *r);
    }
    assert!(matches!(
        Register::from_u8(11),
        Err(vm_cpu::registers::Error::InvalidRegister(11))
    ));
}

#[test]
fn register_names() {
    assert!(Register::from_str("ip").unwrap() == Register::IP);
    assert!(Register::from_str("sp").unwrap() == Register::SP);
    assert!(Register::from_str("fp").unwrap() == Register::FP);
    assert!(Register::from_str("r7").unwrap() == Register::R7);
    assert!(matches!(
        Register::from_str("zz"),
        Err(vm_cpu::registers::Error::InvalidConversion(_))
    ));
}

#[test]
fn new_initialises_pointers() {
    let regs = Registers::new(100, 65535);
    assert_eq!(regs.get(Register::IP), 100);
    assert_eq!(regs.get(Register::SP), 65535);
    assert_eq!(regs.get(Register::FP), 65533);
    assert_eq!(regs.get(Register::R1), 0);
    assert_eq!(regs.as_slice().len(), 11);
}

#[test]
fn word_halves_of_u16() {
    let x: u16 = 0xAB12;
    assert_eq!(x.upper(), 0xAB);
    assert_eq!(x.lower(), 0x12);
}
