use armageddon::system::instructions::cond_passed;
use armageddon::thumb::decode::{Opcode, B16};
use armageddon::binutils::BitField;
use armageddon::system::instructions::{add_with_carry, asr};

#[test]
pub fn adc_should_detect_unsigned_overflow_with_carry_bit() {
    let (sum, carry, overflow) = add_with_carry::<32>(BitField::<32>(u32::MAX.into()), BitField::<32>(0_u32.into()), 1);

    assert_eq!(sum, 0);
    assert_eq!(carry, true);
    assert_eq!(overflow, false);
}

#[test]
pub fn adc_should_detect_signed_overflow() {
    let a: BitField<32> = 0x7FFFFFFF_u32.into();
    let b: BitField<32> = 0x0_u32.into();

    let (sum, carry, overflow) = add_with_carry(a, b, 1);
    assert_eq!(sum, a.0 + 1);
    assert_eq!(carry, false);
    assert_eq!(overflow, true);
}

#[test]
pub fn adc_within_bound_is_normal() {
    let a: BitField<3> = 0x2_u32.into();
    let b: BitField<3> = 0x1_u32.into();

    let (sum, carry, overflow) = add_with_carry::<3>(a, b, 0);

    assert_eq!(sum, 3);
    assert_eq!(carry, false);
    assert_eq!(overflow, false);
}

#[test]
pub fn asr_test() {
    let (sum, flags) = asr(0b11000, 4, true);

    assert_eq!(sum, 1);
    assert_eq!(flags.negative, false);
    assert_eq!(flags.zero, false);
    assert_eq!(flags.carry, true);
    assert_eq!(flags.overflow, true);
}

fn flags(n: bool, z: bool, c: bool, v: bool) -> [u8; 4] {
    let mut top = 0u8;
    if n {
        top |= 0x80;
    }
    if z {
        top |= 0x40;
    }
    if c {
        top |= 0x20;
    }
    if v {
        top |= 0x10;
    }
    [0, 0, 0, top]
}

#[test]
fn lower_or_same_holds_when_carry_clear_or_zero_set() {
    let ls = Opcode::_16Bit(B16::B_UNSIGNED_LOWER_OR_SAME);
    let hi = Opcode::_16Bit(B16::B_UNSIGNED_HIGHER);
    for (c, z) in [(false, false), (false, true), (true, false), (true, true)] {
        let apsr = flags(false, z, c, false);
        assert_eq!(cond_passed(apsr, &ls), !c || z);
        assert_eq!(cond_passed(apsr, &hi), !cond_passed(apsr, &ls));
    }
}

#[test]
fn less_or_equal_holds_when_zero_set_and_signs_differ() {
    let le = Opcode::_16Bit(B16::B_LTE);
    assert!(!cond_passed(flags(false, false, false, false), &le));
    assert!(!cond_passed(flags(false, true, false, false), &le));
    assert!(!cond_passed(flags(true, false, false, false), &le));
    assert!(!cond_passed(flags(false, false, false, true), &le));
    assert!(cond_passed(flags(true, true, false, false), &le));
    assert!(cond_passed(flags(false, true, false, true), &le));
    assert!(!cond_passed(flags(true, true, false, true), &le));
}
