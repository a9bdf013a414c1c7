//! The decoder on the half words that the GNU assembler gives for single
//! Thumb instructions; each test names the source line it encodes.
use armageddon::binutils::get_set_bits;
use armageddon::system::registers::SpecialRegister;
use armageddon::thumb::decode::{instruction_size, InstructionSize, Opcode, B16, B32};
use armageddon::thumb::decode_operands::{get_operands, get_operands_32b, Operands};
use armageddon::thumb::{PROGRAM_COUNTER, STACK_POINTER};

#[test]
fn should_recognise_adr() {
    // ADR r7,_some_lbl ; NOP ; _some_lbl:
    let instruction: [u8; 2] = [0x00, 0xA7];
    if let Some(Operands::ADR(dest, _literal)) = get_operands(&Opcode::_16Bit(B16::ADR), instruction) {
        assert_eq!(dest.0, 7);
    } else {
        panic!("could not decode adr operands");
    }
    assert_eq!(Opcode::_16Bit(B16::ADR), Opcode::from_hw(&instruction));
}

#[test]
fn should_recognise_bic() {
    // BIC r5,r2
    let hw: [u8; 2] = [0x95, 0x43];
    if let Some(Operands::RegisterPair(dest, reg)) = get_operands(&Opcode::_16Bit(B16::BIT_CLEAR_REGISTER), hw) {
        assert_eq!((dest.0, reg.0), (5, 2));
    } else {
        panic!("could not decode bic operands");
    }
    assert_eq!(Opcode::_16Bit(B16::BIT_CLEAR_REGISTER), Opcode::from_hw(&hw));
}

#[test]
fn should_recognise_breakpoint() {
    // BKPT #255
    let hw: [u8; 2] = [0xFF, 0xBE];
    if let Some(Operands::BREAKPOINT(imm8)) = get_operands(&Opcode::_16Bit(B16::BREAKPOINT), hw) {
        assert_eq!(255, imm8.0);
    } else {
        panic!("could not detect breakpoint arguements");
    }
    assert_eq!(Opcode::_16Bit(B16::BREAKPOINT), Opcode::from_hw(&hw));
}

#[test]
fn should_calculate_labels_correctly() {
    // BEQ.N .
    let bytes: [u8; 2] = [0xFE, 0xD0];
    let opcode = Opcode::from_hw(&bytes);
    if let Some(Operands::COND_BRANCH(literal)) = get_operands(&Opcode::_16Bit(B16::BEQ), bytes) {
        assert_eq!(literal, 0);
    } else {
        panic!("could not decode branch");
    }
    // BEQ.N .+2
    let bytes_1: [u8; 2] = [0xFF, 0xD0];
    if let Some(Operands::COND_BRANCH(literal)) = get_operands(&Opcode::_16Bit(B16::BEQ), bytes_1) {
        assert_eq!(literal, 2);
    } else {
        panic!("could not decode branch");
    }
    // BEQ.N .-20
    let bytes: [u8; 2] = [0xF4, 0xD0];
    if let Some(Operands::COND_BRANCH(literal)) = get_operands(&Opcode::_16Bit(B16::BEQ), bytes) {
        assert_eq!(literal, -20);
    } else {
        panic!("could not decode branch");
    }
    assert_eq!(opcode, Opcode::_16Bit(B16::BEQ));
    // BAL.N .-200
    let bytes: [u8; 2] = [0x9A, 0xE7];
    let opcode = Opcode::from_hw(&bytes);
    assert_eq!(opcode, Opcode::_16Bit(B16::B_ALWAYS));
    if let Some(Operands::B_ALWAYS(literal)) = get_operands(&Opcode::_16Bit(B16::B_ALWAYS), bytes) {
        assert_eq!(literal, -200);
    } else {
        panic!("could not decode branch");
    }
}

#[test]
fn should_recognise_blx() {
    // BLX r11
    let first: [u8; 2] = [0xD8, 0x47];
    if let Some(Operands::BR_LNK_EXCHANGE(reg)) = get_operands(&Opcode::_16Bit(B16::BR_LNK_EXCHANGE), first) {
        assert_eq!(11, reg.0);
    } else {
        panic!("could not detect blx operands");
    }
    assert_eq!(Opcode::_16Bit(B16::BR_LNK_EXCHANGE), Opcode::from_hw(&first));
}

#[test]
fn should_recognise_bx() {
    // BX r7
    let first: [u8; 2] = [0x38, 0x47];
    if let Some(Operands::BR_EXCHANGE(reg)) = get_operands(&Opcode::_16Bit(B16::BR_EXCHANGE), first) {
        assert_eq!(7, reg.0);
    } else {
        panic!("could not detect bx operands");
    }
    assert_eq!(Opcode::_16Bit(B16::BR_EXCHANGE), Opcode::from_hw(&first));
}

#[test]
fn should_recognise_cmn() {
    // CMN r5,r7
    let first: [u8; 2] = [0xFD, 0x42];
    if let Some(Operands::PureRegisterPair(a, b)) = get_operands(&Opcode::_16Bit(B16::CMP_NEG_REG), first) {
        assert_eq!((a.0, b.0), (5, 7));
    } else {
        panic!("could not detect cmn  operands");
    }
    assert_eq!(Opcode::_16Bit(B16::CMP_NEG_REG), Opcode::from_hw(&first));
}

#[test]
fn should_recognise_cps() {
    // CPSIE i ; CPSID i
    let enable: [u8; 2] = [0x62, 0xB6];
    let disable: [u8; 2] = [0x72, 0xB6];
    if let Some(Operands::EnableInterupt(flag)) = get_operands(&Opcode::_16Bit(B16::CPS), enable) {
        assert_eq!(flag, false);
    } else {
        panic!("could not parse CPS");
    }
    if let Some(Operands::EnableInterupt(flag)) = get_operands(&Opcode::_16Bit(B16::CPS), disable) {
        assert_eq!(flag, true);
    } else {
        panic!("could not parse CPS");
    }
    assert_eq!(Opcode::_16Bit(B16::CPS), Opcode::from_hw(&enable));
    assert_eq!(Opcode::_16Bit(B16::CPS), Opcode::from_hw(&disable));
}

#[test]
fn should_recognise_cmp() {
    // CMP r4,#255 ; CMP r3,r6 ; CMP r2,r9
    let imm8_bytes: [u8; 2] = [0xFF, 0x2C];
    let cmp_t1_bytes: [u8; 2] = [0xB3, 0x42];
    let cmp_t2_bytes: [u8; 2] = [0x4A, 0x45];
    if let Some(Operands::CMP_Imm8(reg, imm8)) = get_operands(&Opcode::_16Bit(B16::CMP_Imm8), imm8_bytes) {
        assert_eq!((reg.0, imm8.0), (4, 255));
    } else {
        panic!("cannot detect cmp imm8 operands");
    }
    if let Some(Operands::PureRegisterPair(left, right)) = get_operands(&Opcode::_16Bit(B16::CMP_REG_T1), cmp_t1_bytes) {
        assert_eq!((left.0, right.0), (3, 6));
    } else {
        panic!("cannot detect cmp operands t1");
    }
    if let Some(Operands::PureRegisterPair(left, right)) = get_operands(&Opcode::_16Bit(B16::CMP_REG_T2), cmp_t2_bytes) {
        assert_eq!((left.0, right.0), (2, 9));
    } else {
        panic!("cannot detect cmp operands t2");
    }
    assert_eq!(Opcode::_16Bit(B16::CMP_Imm8), Opcode::from_hw(&imm8_bytes));
    assert_eq!(Opcode::_16Bit(B16::CMP_REG_T1), Opcode::from_hw(&cmp_t1_bytes));
    assert_eq!(Opcode::_16Bit(B16::CMP_REG_T2), Opcode::from_hw(&cmp_t2_bytes));
}

#[test]
fn should_recognise_xor() {
    // EOR r7,r3
    let instr: [u8; 2] = [0x5F, 0x40];
    if let Some(Operands::RegisterPair(left, right)) = get_operands(&Opcode::_16Bit(B16::XOR_REG), instr) {
        assert_eq!((left.0, right.0), (7, 3));
    } else {
        panic!("cannot detect EOR operands");
    }
    assert_eq!(Opcode::_16Bit(B16::XOR_REG), Opcode::from_hw(&instr));
}

#[test]
fn should_recognise_ldm() {
    // LDM r3, {r1,r2,r3} ; LDM r5!,{r1,r2,r3}
    let xmpl_0: [u8; 2] = [0x0E, 0xCB];
    let xmpl_1: [u8; 2] = [0x0E, 0xCD];
    if let Some(Operands::LoadableList(base, list)) = get_operands(&Opcode::_16Bit(B16::LDM), xmpl_0) {
        assert_eq!(base.0, 3);
        assert_eq!(get_set_bits(list), vec![1, 2, 3]);
    } else {
        panic!("could not parse ldm instruction");
    }
    if let Some(Operands::LoadableList(base, list)) = get_operands(&Opcode::_16Bit(B16::LDM), xmpl_1) {
        assert_eq!(base.0, 5);
        assert_eq!(get_set_bits(list), vec![1, 2, 3]);
    } else {
        panic!("could not parse ldm instruction");
    }
    assert_eq!(Opcode::_16Bit(B16::LDM), Opcode::from_hw(&xmpl_0));
    assert_eq!(Opcode::_16Bit(B16::LDM), Opcode::from_hw(&xmpl_1));
}

#[test]
fn should_recognise_ldr() {
    // LDR r0,[r1,#20] ; LDR r4,[SP,#124] ; LDR r6,[PC,#16] ; LDR r1,[r2,r4]
    let imm5_b: [u8; 2] = [0x48, 0x69];
    let imm8_b: [u8; 2] = [0x1F, 0x9C];
    let pc_imm8_alt_b: [u8; 2] = [0x04, 0x4E];
    let reg_b: [u8; 2] = [0x11, 0x59];
    if let Some(Operands::LDR_Imm5(dest, base, offset)) = get_operands(&Opcode::_16Bit(B16::LDR_Imm5), imm5_b) {
        assert_eq!((dest.0, base.0, offset.0), (0, 1, 20));
    } else {
        panic!("could not parse ldr operands");
    }
    if let Some(Operands::LDR_Imm8(dest, src, offset)) = get_operands(&Opcode::_16Bit(B16::LDR_SP_Imm8), imm8_b) {
        assert_eq!((dest.0, src.0, offset.0), (4, STACK_POINTER, 124));
    } else {
        panic!("could not parse ldr operands");
    }
    if let Some(Operands::LDR_Imm8(dest, src, offset)) = get_operands(&Opcode::_16Bit(B16::LDR_PC_Imm8), pc_imm8_alt_b) {
        assert_eq!((dest.0, src.0, offset.0), (6, PROGRAM_COUNTER, 16));
    } else {
        panic!("could not parse ldr operands");
    }
    if let Some(Operands::LDR_REG(dest, base, offset)) = get_operands(&Opcode::_16Bit(B16::LDR_REGS), reg_b) {
        assert_eq!((dest.0, base.0, offset.0), (1, 2, 4));
    } else {
        panic!("could not parse ldr operands");
    }
    assert_eq!(Opcode::_16Bit(B16::LDR_Imm5), Opcode::from_hw(&imm5_b));
    assert_eq!(Opcode::_16Bit(B16::LDR_SP_Imm8), Opcode::from_hw(&imm8_b));
    assert_eq!(Opcode::_16Bit(B16::LDR_PC_Imm8), Opcode::from_hw(&pc_imm8_alt_b));
    assert_eq!(Opcode::_16Bit(B16::LDR_REGS), Opcode::from_hw(&reg_b));
}

#[test]
fn should_recognise_ldrb() {
    // LDRB r0,[r4,#24] ; LDRB r0,[r3,r5]
    let imm5_b: [u8; 2] = [0x20, 0x7E];
    let reg_b: [u8; 2] = [0x58, 0x5D];
    if let Some(Operands::LDR_Imm5(dest, base, offset)) = get_operands(&Opcode::_16Bit(B16::LDRB_Imm5), imm5_b) {
        assert_eq!((dest.0, base.0, offset.0), (0, 4, 24));
    } else {
        panic!("could not parse ldrb operands");
    }
    if let Some(Operands::LDR_REG(dest, base, offset)) = get_operands(&Opcode::_16Bit(B16::LDRB_REGS), reg_b) {
        assert_eq!((dest.0, base.0, offset.0), (0, 3, 5));
    } else {
        panic!("could not parse ldrb operands");
    }
    assert_eq!(Opcode::_16Bit(B16::LDRB_Imm5), Opcode::from_hw(&imm5_b));
    assert_eq!(Opcode::_16Bit(B16::LDRB_REGS), Opcode::from_hw(&reg_b));
}

#[test]
fn should_recognise_ldrh() {
    // LDRH r0,[r1,#58] ; LDRH r2,[r1,r7]
    let imm5_b: [u8; 2] = [0x48, 0x8F];
    let reg_b: [u8; 2] = [0xCA, 0x5B];
    if let Some(Operands::LDR_Imm5(dest, base, offset)) = get_operands(&Opcode::_16Bit(B16::LDRH_Imm5), imm5_b) {
        assert_eq!((dest.0, base.0, offset.0), (0, 1, 58));
    } else {
        panic!("could not parse ldrh operands");
    }
    if let Some(Operands::LDR_REG(dest, base, offset)) = get_operands(&Opcode::_16Bit(B16::LDRH_REGS), reg_b) {
        assert_eq!((dest.0, base.0, offset.0), (2, 1, 7));
    } else {
        panic!("could not parse ldrh operands");
    }
    assert_eq!(Opcode::_16Bit(B16::LDRH_Imm5), Opcode::from_hw(&imm5_b));
    assert_eq!(Opcode::_16Bit(B16::LDRH_REGS), Opcode::from_hw(&reg_b));
}

#[test]
fn should_recognise_ldrsb() {
    // LDRSB r0,[r1,r7]
    let reg_b: [u8; 2] = [0xC8, 0x57];
    if let Some(Operands::LDR_REG(dest, base, offset)) = get_operands(&Opcode::_16Bit(B16::LDRSB_REGS), reg_b) {
        assert_eq!((dest.0, base.0, offset.0), (0, 1, 7));
    } else {
        panic!("could not parse ldrsb operands");
    }
    assert_eq!(Opcode::_16Bit(B16::LDRSB_REGS), Opcode::from_hw(&reg_b));
}

#[test]
fn should_recognise_ldrsh() {
    // LDRSH r0,[r3,r7]
    let reg_b: [u8; 2] = [0xD8, 0x5F];
    if let Some(Operands::LDR_REG(dest, base, offset)) = get_operands(&Opcode::_16Bit(B16::LDRSH_REGS), reg_b) {
        assert_eq!((dest.0, base.0, offset.0), (0, 3, 7));
    } else {
        panic!("could not parse ldrsh operands");
    }
    assert_eq!(Opcode::_16Bit(B16::LDRSH_REGS), Opcode::from_hw(&reg_b));
}

#[test]
fn should_recognise_lsl() {
    // LSL r4,r1,#31 ; LSL r0,r7
    let imm5_b: [u8; 2] = [0xCC, 0x07];
    let reg_b: [u8; 2] = [0xB8, 0x40];
    if let Some(Operands::LS_Imm5(dest, src, imm)) = get_operands(&Opcode::_16Bit(B16::LSL_Imm5), imm5_b) {
        assert_eq!((dest.0, src.0, imm.0), (4, 1, 31));
    } else {
        panic!("could not parse lsl");
    }
    if let Some(Operands::RegisterPair(dest, other)) = get_operands(&Opcode::_16Bit(B16::LSL_REGS), reg_b) {
        assert_eq!((dest.0, other.0), (0, 7));
    } else {
        panic!("could not parse lsl");
    }
    assert_eq!(Opcode::_16Bit(B16::LSL_Imm5), Opcode::from_hw(&imm5_b));
    assert_eq!(Opcode::_16Bit(B16::LSL_REGS), Opcode::from_hw(&reg_b));
}

#[test]
fn should_recognise_lsr() {
    // LSR r2,r5,#31 ; LSR r0,r7
    let imm5_b: [u8; 2] = [0xEA, 0x0F];
    let reg_b: [u8; 2] = [0xF8, 0x40];
    if let Some(Operands::LS_Imm5(dest, src, imm)) = get_operands(&Opcode::_16Bit(B16::LSR_Imm5), imm5_b) {
        assert_eq!((dest.0, src.0, imm.0), (2, 5, 31));
    } else {
        panic!("could not parse lsr");
    }
    if let Some(Operands::RegisterPair(dest, other)) = get_operands(&Opcode::_16Bit(B16::LSR_REGS), reg_b) {
        assert_eq!((dest.0, other.0), (0, 7));
    } else {
        panic!("could not parse lsr");
    }
    assert_eq!(Opcode::_16Bit(B16::LSR_Imm5), Opcode::from_hw(&imm5_b));
    assert_eq!(Opcode::_16Bit(B16::LSR_REGS), Opcode::from_hw(&reg_b));
}

#[test]
fn should_recognise_mov() {
    // MOV r0,#7
    let sanity: [u8; 2] = [0x07, 0x20];
    assert_eq!(Opcode::_16Bit(B16::MOV_Imm8), Opcode::from_hw(&sanity));
    // MOVS.N r7,#255
    let imm8: [u8; 2] = [0xFF, 0x27];
    if let Some(Operands::DestImm8(reg, literal)) = get_operands(&Opcode::_16Bit(B16::MOV_Imm8), imm8) {
        assert_eq!((reg.0, literal.0), (7, 255));
    } else {
        panic!("could not parse mov");
    }
    // MOV r2,r8
    let regs_t1: [u8; 2] = [0x42, 0x46];
    if let Some(Operands::MOV_REG(dest, src)) = get_operands(&Opcode::_16Bit(B16::MOV_REGS_T1), regs_t1) {
        assert_eq!((dest.0, src.0), (2, 8));
    } else {
        panic!("could not parse mov");
    }
    // MOVS.N r4,r7
    let regs_t2: [u8; 2] = [0x3C, 0x00];
    if let Some(Operands::MOV_REG(dest, src)) = get_operands(&Opcode::_16Bit(B16::MOV_REGS_T2), regs_t2) {
        assert_eq!((dest.0, src.0), (4, 7));
    } else {
        panic!("could not parse mov");
    }
    assert_eq!(Opcode::_16Bit(B16::MOV_Imm8), Opcode::from_hw(&imm8));
    assert_eq!(Opcode::_16Bit(B16::MOV_REGS_T1), Opcode::from_hw(&regs_t1));
    assert_eq!(Opcode::_16Bit(B16::MOV_REGS_T2), Opcode::from_hw(&regs_t2));
}

#[test]
fn should_recognise_mul() {
    // MUL r4,r1
    let regs: [u8; 2] = [0x4C, 0x43];
    if let Some(Operands::RegisterPair(dest, other)) = get_operands(&Opcode::_16Bit(B16::MUL), regs) {
        assert_eq!((dest.0, other.0), (4, 1));
    } else {
        panic!("could not parse MUL");
    }
    assert_eq!(Opcode::_16Bit(B16::MUL), Opcode::from_hw(&regs));
}

#[test]
fn should_recognise_mvn() {
    // MVN r1,r3
    let regs: [u8; 2] = [0xD9, 0x43];
    if let Some(Operands::MOV_REG(dest, src)) = get_operands(&Opcode::_16Bit(B16::MVN), regs) {
        assert_eq!((dest.0, src.0), (1, 3));
    } else {
        panic!("could not parse MVN");
    }
    assert_eq!(Opcode::_16Bit(B16::MVN), Opcode::from_hw(&regs));
}

#[test]
fn should_recognise_nop() {
    // NOP
    let encoding_t2: [u8; 2] = [0x00, 0xBF];
    assert_eq!(Opcode::_16Bit(B16::NOP), Opcode::from_hw(&encoding_t2));
    assert!(get_operands(&Opcode::_16Bit(B16::NOP), encoding_t2).is_none());
}

#[test]
fn should_recognise_orr() {
    // ORR r5,r1
    let t1: [u8; 2] = [0x0D, 0x43];
    if let Some(Operands::RegisterPair(dest, other)) = get_operands(&Opcode::_16Bit(B16::ORR), t1) {
        assert_eq!((dest.0, other.0), (5, 1));
    } else {
        panic!("could not parse orr");
    }
    assert_eq!(Opcode::_16Bit(B16::ORR), Opcode::from_hw(&t1));
}

#[test]
fn should_recognise_pop() {
    // POP {r0,r1,r4,r7}
    let t1: [u8; 2] = [0x93, 0xBC];
    if let Some(Operands::RegisterList(list)) = get_operands(&Opcode::_16Bit(B16::POP), t1) {
        assert_eq!(get_set_bits(list), vec![0, 1, 4, 7]);
    } else {
        panic!("could not parse POP");
    }
    // POP {r1,PC}
    let sc: [u8; 2] = [0x02, 0xBD];
    if let Some(Operands::RegisterList(list)) = get_operands(&Opcode::_16Bit(B16::POP), sc) {
        assert_eq!(get_set_bits(list), vec![1, 15]);
    } else {
        panic!("could not parse POP");
    }
    assert_eq!(Opcode::_16Bit(B16::POP), Opcode::from_hw(&t1));
    assert_eq!(Opcode::_16Bit(B16::POP), Opcode::from_hw(&sc));
}

#[test]
fn should_recognise_push() {
    // PUSH {r2,r1,LR}
    let t1: [u8; 2] = [0x06, 0xB5];
    if let Some(Operands::RegisterList(list)) = get_operands(&Opcode::_16Bit(B16::PUSH), t1) {
        assert_eq!(get_set_bits(list), vec![1, 2, 14])
    }
    assert_eq!(Opcode::_16Bit(B16::PUSH), Opcode::from_hw(&t1));
}

#[test]
fn should_recognise_rev() {
    // REV r0,r1
    let t1: [u8; 2] = [0x08, 0xBA];
    if let Some(Operands::RegisterPair(dest, other)) = get_operands(&Opcode::_16Bit(B16::REV), t1) {
        assert_eq!((dest.0, other.0), (0, 1));
    } else {
        panic!("could not parse REV");
    }
    // REV16 r5,r6
    let c16: [u8; 2] = [0x75, 0xBA];
    if let Some(Operands::RegisterPair(dest, other)) = get_operands(&Opcode::_16Bit(B16::REV_16), c16) {
        assert_eq!((dest.0, other.0), (5, 6));
    } else {
        panic!("could not parse REV16");
    }
    // REVSH r3,r2
    let sh: [u8; 2] = [0xD3, 0xBA];
    if let Some(Operands::RegisterPair(dest, other)) = get_operands(&Opcode::_16Bit(B16::REVSH), sh) {
        assert_eq!((dest.0, other.0), (3, 2));
    } else {
        panic!("could not parse REVSH");
    }
    assert_eq!(Opcode::_16Bit(B16::REV), Opcode::from_hw(&t1));
    assert_eq!(Opcode::_16Bit(B16::REV_16), Opcode::from_hw(&c16));
    assert_eq!(Opcode::_16Bit(B16::REVSH), Opcode::from_hw(&sh));
}

#[test]
fn should_recognise_ror() {
    // ROR r0,r7
    let t1: [u8; 2] = [0xF8, 0x41];
    if let Some(Operands::RegisterPair(dest, other)) = get_operands(&Opcode::_16Bit(B16::ROR), t1) {
        assert_eq!((dest.0, other.0), (0, 7));
    } else {
        panic!("could not parse ROR");
    }
    assert_eq!(Opcode::_16Bit(B16::ROR), Opcode::from_hw(&t1));
}

#[test]
fn should_recognise_rsb() {
    // NEG r3,r1
    let t1: [u8; 2] = [0x4B, 0x42];
    if let Some(Operands::RegisterPair(dest, other)) = get_operands(&Opcode::_16Bit(B16::RSB), t1) {
        assert_eq!((dest.0, other.0), (3, 1));
    } else {
        panic!("could not parse RSB");
    }
    assert_eq!(Opcode::_16Bit(B16::RSB), Opcode::from_hw(&t1));
}

#[test]
fn should_recognise_sbc() {
    // SBC r2,r5
    let t1: [u8; 2] = [0xAA, 0x41];
    if let Some(Operands::RegisterPair(dest, other)) = get_operands(&Opcode::_16Bit(B16::SBC), t1) {
        assert_eq!((dest.0, other.0), (2, 5));
    } else {
        panic!("could not parse SBC");
    }
    assert_eq!(Opcode::_16Bit(B16::SBC), Opcode::from_hw(&t1));
}

#[test]
fn should_recognise_sev() {
    // SEV
    let t1: [u8; 2] = [0x40, 0xBF];
    assert_eq!(Opcode::_16Bit(B16::SEV), Opcode::from_hw(&t1));
    assert!(get_operands(&Opcode::_16Bit(B16::SEV), t1).is_none());
}

#[test]
fn should_recognise_stm() {
    // STM r5!,{r1,r3,r7}
    let t1: [u8; 2] = [0x8A, 0xC5];
    if let Some(Operands::LoadableList(base, list)) = get_operands(&Opcode::_16Bit(B16::STM), t1) {
        assert_eq!((base.0, get_set_bits(list)), (5, vec![1, 3, 7]));
    } else {
        panic!("could not parse STM");
    }
    assert_eq!(Opcode::_16Bit(B16::STM), Opcode::from_hw(&t1));
}

#[test]
fn should_recognise_str() {
    // STR r0, [r1,#12] ; STR r0, [SP,#224] ; STR r5, [r1,r2]
    let t1_b: [u8; 2] = [0xC8, 0x60];
    let t2_b: [u8; 2] = [0x38, 0x90];
    let reg_b: [u8; 2] = [0x8D, 0x50];
    if let Some(Operands::STR_Imm5(src, base, literal)) = get_operands(&Opcode::_16Bit(B16::STR_Imm5), t1_b) {
        assert_eq!((src.0, base.0, literal.0), (0, 1, 12));
    } else {
        panic!("could not parse STR");
    }
    if let Some(Operands::STR_Imm8(src, literal)) = get_operands(&Opcode::_16Bit(B16::STR_Imm8), t2_b) {
        assert_eq!((src.0, literal.0), (0, 224));
    } else {
        panic!("could not parse STR");
    }
    if let Some(Operands::STR_REG(src, base, offset)) = get_operands(&Opcode::_16Bit(B16::STR_REG), reg_b) {
        assert_eq!((src.0, base.0, offset.0), (5, 1, 2));
    } else {
        panic!("could not parse STR");
    }
    assert_eq!(Opcode::_16Bit(B16::STR_Imm5), Opcode::from_hw(&t1_b));
    assert_eq!(Opcode::_16Bit(B16::STR_Imm8), Opcode::from_hw(&t2_b));
    assert_eq!(Opcode::_16Bit(B16::STR_REG), Opcode::from_hw(&reg_b));
}

#[test]
fn should_recognise_strb() {
    // STRB r2, [r1,#17]
    let im: [u8; 2] = [0x4A, 0x74];
    if let Some(Operands::STR_Imm5(src, base, literal)) = get_operands(&Opcode::_16Bit(B16::STRB_Imm5), im) {
        assert_eq!((src.0, base.0, literal.0), (2, 1, 17));
    } else {
        panic!("could not parse STRB");
    }
    // STRB r3, [r1,r6]
    let reg: [u8; 2] = [0x8B, 0x55];
    if let Some(Operands::STR_REG(src, base, offset)) = get_operands(&Opcode::_16Bit(B16::STRB_REG), reg) {
        assert_eq!((src.0, base.0, offset.0), (3, 1, 6));
    } else {
        panic!("could not parse STRB");
    }
    assert_eq!(Opcode::_16Bit(B16::STRB_Imm5), Opcode::from_hw(&im));
    assert_eq!(Opcode::_16Bit(B16::STRB_REG), Opcode::from_hw(&reg));
}

#[test]
fn should_recognise_strh() {
    // strh r4, [r3,#62]
    let im: [u8; 2] = [0xDC, 0x87];
    if let Some(Operands::STR_Imm5(src, base, literal)) = get_operands(&Opcode::_16Bit(B16::STRH_Imm5), im) {
        assert_eq!((src.0, base.0, literal.0), (4, 3, 62));
    } else {
        panic!("could not parse STRH");
    }
    // strh r5, [r1,r2]
    let reg: [u8; 2] = [0x8D, 0x52];
    if let Some(Operands::STR_REG(src, base, offset)) = get_operands(&Opcode::_16Bit(B16::STRH_REG), reg) {
        assert_eq!((src.0, base.0, offset.0), (5, 1, 2));
    } else {
        panic!("could not parse STRH");
    }
    assert_eq!(Opcode::_16Bit(B16::STRH_Imm5), Opcode::from_hw(&im));
    assert_eq!(Opcode::_16Bit(B16::STRH_REG), Opcode::from_hw(&reg));
}

#[test]
fn should_recognise_sub() {
    // SUB r3,r4,#5 ; SUB r5,#240 ; SUB r0,r1,r3 ; SUB sp,sp,#16
    let im3: [u8; 2] = [0x63, 0x1F];
    let im8: [u8; 2] = [0xF0, 0x3D];
    let reg: [u8; 2] = [0xC8, 0x1A];
    let sp: [u8; 2] = [0x84, 0xB0];
    if let Some(Operands::RegPairImm3(dest, src, literal)) = get_operands(&Opcode::_16Bit(B16::SUB_Imm3), im3) {
        assert_eq!((dest.0, src.0, literal.0), (3, 4, 5));
    } else {
        panic!("could not parse SUB");
    }
    if let Some(Operands::DestImm8(dest, literal)) = get_operands(&Opcode::_16Bit(B16::SUB_Imm8), im8) {
        assert_eq!((dest.0, literal.0), (5, 240));
    } else {
        panic!("could not parse SUB");
    }
    if let Some(Operands::RegisterTriplet(dest, src, other)) = get_operands(&Opcode::_16Bit(B16::SUB_REG), reg) {
        assert_eq!((dest.0, src.0, other.0), (0, 1, 3));
    } else {
        panic!("could not parse SUB");
    }
    if let Some(Operands::SP_SUB(literal)) = get_operands(&Opcode::_16Bit(B16::SUB_SP_Imm7), sp) {
        assert_eq!(literal.0, 16);
    } else {
        panic!("could not parse SUB");
    }
    assert_eq!(Opcode::_16Bit(B16::SUB_Imm3), Opcode::from_hw(&im3));
    assert_eq!(Opcode::_16Bit(B16::SUB_Imm8), Opcode::from_hw(&im8));
    assert_eq!(Opcode::_16Bit(B16::SUB_REG), Opcode::from_hw(&reg));
    assert_eq!(Opcode::_16Bit(B16::SUB_SP_Imm7), Opcode::from_hw(&sp));
}

#[test]
fn should_recognise_svc() {
    // SVC #15
    let svc: [u8; 2] = [0x0F, 0xDF];
    if let Some(Operands::Byte(literal)) = get_operands(&Opcode::_16Bit(B16::SVC), svc) {
        assert_eq!(literal.0, 15);
    } else {
        panic!("could not parse SVC");
    }
    assert_eq!(Opcode::_16Bit(B16::SVC), Opcode::from_hw(&svc));
}

#[test]
fn should_recognise_sxt() {
    // SXTB r0,r1
    let sxtb: [u8; 2] = [0x48, 0xB2];
    if let Some(Operands::RegisterPair(dest, other)) = get_operands(&Opcode::_16Bit(B16::SXTB), sxtb) {
        assert_eq!((dest.0, other.0), (0, 1));
    } else {
        panic!("could not parse SXTB");
    }
    // SXTH r6,r1
    let sxth: [u8; 2] = [0x0E, 0xB2];
    if let Some(Operands::RegisterPair(dest, other)) = get_operands(&Opcode::_16Bit(B16::SXTH), sxth) {
        assert_eq!((dest.0, other.0), (6, 1));
    } else {
        panic!("could not parse SXTH");
    }
    assert_eq!(Opcode::_16Bit(B16::SXTB), Opcode::from_hw(&sxtb));
    assert_eq!(Opcode::_16Bit(B16::SXTH), Opcode::from_hw(&sxth));
}

#[test]
fn should_recognise_tst() {
    // TST r4,r5
    let t1: [u8; 2] = [0x2C, 0x42];
    if let Some(Operands::PureRegisterPair(a, b)) = get_operands(&Opcode::_16Bit(B16::TST), t1) {
        assert_eq!((a.0, b.0), (4, 5));
    } else {
        panic!("could not parse TST");
    }
    assert_eq!(Opcode::_16Bit(B16::TST), Opcode::from_hw(&t1));
}

#[test]
fn should_recognise_uxt() {
    // UXTB r4,r1
    let uxtb: [u8; 2] = [0xCC, 0xB2];
    if let Some(Operands::RegisterPair(a, b)) = get_operands(&Opcode::_16Bit(B16::UXTB), uxtb) {
        assert_eq!((a.0, b.0), (4, 1));
    } else {
        panic!("could not parse UXTB");
    }
    // UXTH r5,r7
    let uxth: [u8; 2] = [0xBD, 0xB2];
    if let Some(Operands::RegisterPair(a, b)) = get_operands(&Opcode::_16Bit(B16::UXTH), uxth) {
        assert_eq!((a.0, b.0), (5, 7));
    } else {
        panic!("could not parse UXTH");
    }
    assert_eq!(Opcode::_16Bit(B16::UXTB), Opcode::from_hw(&uxtb));
    assert_eq!(Opcode::_16Bit(B16::UXTH), Opcode::from_hw(&uxth));
}

#[test]
fn should_recognise_wf() {
    // WFE ; WFI
    let wfe: [u8; 2] = [0x20, 0xBF];
    let wfi: [u8; 2] = [0x30, 0xBF];
    assert_eq!(Opcode::_16Bit(B16::WFE), Opcode::from_hw(&wfe));
    assert!(get_operands(&Opcode::_16Bit(B16::WFE), wfe).is_none());
    assert_eq!(Opcode::_16Bit(B16::WFI), Opcode::from_hw(&wfi));
    assert!(get_operands(&Opcode::_16Bit(B16::WFI), wfi).is_none());
}

#[test]
fn should_recognise_adc() {
    // ADC r5, r1
    let bin: [u8; 2] = [0x4D, 0x41];
    if let Some(Operands::RegisterPair(dest, src)) = get_operands(&Opcode::_16Bit(B16::ADCS), bin) {
        assert_eq!(5u8, dest.0);
        assert_eq!(1u8, src.0);
    } else {
        panic!("could not parse adc operands");
    }
    assert_eq!(Opcode::_16Bit(B16::ADCS), Opcode::from_hw(&bin));
}

#[test]
fn should_recognise_add_with_immediates() {
    // ADD r0,r1,#7 ; ADD r7,r1,#5 ; ADD r0, #255 ; ADD r2, #255
    let first_inst: [u8; 2] = [0xC8, 0x1D];
    let second_instr: [u8; 2] = [0x4F, 0x1D];
    let third_instr: [u8; 2] = [0xFF, 0x30];
    let fourth_instr: [u8; 2] = [0xFF, 0x32];
    if let Some(Operands::RegPairImm3(dest_0, r0, imm3)) = get_operands(&Opcode::_16Bit(B16::ADD_Imm3), second_instr) {
        assert_eq!(dest_0.0, 7u8);
        assert_eq!(r0.0, 1);
        assert_eq!(imm3.0, 5);
    } else {
        panic!("could not parse add::Imm3 operands");
    }
    if let Some(Operands::DestImm8(dest_1, imm8)) = get_operands(&Opcode::_16Bit(B16::ADD_Imm8), fourth_instr) {
        assert_eq!(dest_1.0, 2u8);
        assert_eq!(imm8.0, 255);
    } else {
        panic!("could not parse add::Imm8 operands");
    }
    assert_eq!(Opcode::_16Bit(B16::ADD_Imm3), Opcode::from_hw(&first_inst));
    assert_eq!(Opcode::_16Bit(B16::ADD_Imm3), Opcode::from_hw(&second_instr));
    assert_eq!(Opcode::_16Bit(B16::ADD_Imm8), Opcode::from_hw(&third_instr));
    assert_eq!(Opcode::_16Bit(B16::ADD_Imm8), Opcode::from_hw(&fourth_instr));
}

#[test]
fn should_recognise_add_with_registers() {
    // ADD r3,r2,r7 ; ADD r8,r12
    let first_instr: [u8; 2] = [0xD3, 0x19];
    let sec_instr: [u8; 2] = [0xE0, 0x44];
    if let Some(Operands::RegisterTriplet(rd0, ra0, ra1)) = get_operands(&Opcode::_16Bit(B16::ADDS_REG), first_instr) {
        assert_eq!((rd0.0, ra0.0, ra1.0), (3, 2, 7));
    } else {
        panic!("could not decode ADD_reg operands");
    }
    if let Some(Operands::RegisterPair(rd1, rb0)) = get_operands(&Opcode::_16Bit(B16::ADDS_REG_T2), sec_instr) {
        assert_eq!((rd1.0, rb0.0), (8, 12));
    } else {
        panic!("could not decode ADD_reg T2 operands");
    }
    assert_eq!(Opcode::_16Bit(B16::ADDS_REG), Opcode::from_hw(&first_instr));
    assert_eq!(Opcode::_16Bit(B16::ADDS_REG_T2), Opcode::from_hw(&sec_instr));
}

#[test]
fn should_recognise_add_sp_and_immediate() {
    // ADD r7,SP,#64 ; ADD SP,SP,#128 ; ADD r3,SP,r3 ; ADD SP,r6
    let first_instr: [u8; 2] = [0x10, 0xAF];
    let sec_instr: [u8; 2] = [0x20, 0xB0];
    let third_instr: [u8; 2] = [0x6B, 0x44];
    let fourth_instr: [u8; 2] = [0xB5, 0x44];
    if let Some(Operands::ADD_REG_SP_IMM8(dest_0, imm8)) = get_operands(&Opcode::_16Bit(B16::ADD_REG_SP_IMM8), first_instr) {
        assert_eq!((dest_0.0, imm8.0), (7, 64));
    } else {
        panic!("could not decode add_rep_sp_imm8 operands");
    }
    if let Some(Operands::INCR_SP_BY_IMM7(imm7)) = get_operands(&Opcode::_16Bit(B16::INCR_SP_BY_IMM7), sec_instr) {
        assert_eq!(128, imm7.0);
    } else {
        panic!("could not decode add_rep_sp_imm7 operands");
    }
    if let Some(Operands::RegisterPair(a, b)) = get_operands(&Opcode::_16Bit(B16::ADDS_REG_T2), third_instr) {
        assert_eq!((a.0, b.0), (3, 13));
    } else {
        panic!("could not decode add ");
    }
    if let Some(Operands::INCR_SP_BY_REG(reg)) = get_operands(&Opcode::_16Bit(B16::INCR_SP_BY_REG), fourth_instr) {
        assert_eq!(reg.0, 6);
    } else {
        panic!("could not decode add");
    }
    assert_eq!(Opcode::_16Bit(B16::ADD_REG_SP_IMM8), Opcode::from_hw(&first_instr));
    assert_eq!(Opcode::_16Bit(B16::INCR_SP_BY_IMM7), Opcode::from_hw(&sec_instr));
    assert_eq!(Opcode::_16Bit(B16::ADDS_REG_T2), Opcode::from_hw(&third_instr));
    assert_eq!(Opcode::_16Bit(B16::ADDS_REG_T2), Opcode::from_hw(&fourth_instr));
}

#[test]
fn should_recognise_adr_with_alternate_syntax() {
    // ADD r0,PC,#8
    let instruction: [u8; 2] = [0x02, 0xA0];
    assert_eq!(Opcode::_16Bit(B16::ADR), Opcode::from_hw(&instruction));
}

#[test]
fn should_recognise_16bit_branch_instructions() {
    // b _l0 ; _l0: beq _l1 ; _l1: bne _l2 ... each branch to the next instruction
    let opcodes: Vec<u8> = [0xE7FFu16, 0xD0FFu16, 0xD1FFu16, 0xD2FFu16, 0xD3FFu16, 0xD4FFu16, 0xD5FFu16, 0xD6FFu16, 0xD7FFu16, 0xD8FFu16, 0xD9FFu16, 0xDAFFu16, 0xDBFFu16, 0xDCFFu16, 0xDDFFu16].iter().flat_map(|h| h.to_le_bytes()).collect();
    let decoded_opcodes: Vec<Opcode> = opcodes.chunks_exact(2).map(|c| Opcode::from_hw(&[c[0], c[1]])).collect();
    assert_eq!(
        decoded_opcodes,
        vec![
            Opcode::_16Bit(B16::B_ALWAYS),
            Opcode::_16Bit(B16::BEQ),
            Opcode::_16Bit(B16::BNEQ),
            Opcode::_16Bit(B16::B_CARRY_IS_SET),
            Opcode::_16Bit(B16::B_CARRY_IS_CLEAR),
            Opcode::_16Bit(B16::B_IF_NEGATIVE),
            Opcode::_16Bit(B16::B_IF_POSITIVE),
            Opcode::_16Bit(B16::B_IF_OVERFLOW),
            Opcode::_16Bit(B16::B_IF_NO_OVERFLOW),
            Opcode::_16Bit(B16::B_UNSIGNED_HIGHER),
            Opcode::_16Bit(B16::B_UNSIGNED_LOWER_OR_SAME),
            Opcode::_16Bit(B16::B_GTE),
            Opcode::_16Bit(B16::B_LT),
            Opcode::_16Bit(B16::B_GT),
            Opcode::_16Bit(B16::B_LTE),
        ]
    );
}

#[test]
fn should_recognise_bl() {
    // BL.W .-252
    let first_instr: [u8; 4] = [0xFF, 0xF7, 0x80, 0xFF];
    if let Some(Operands::BR_LNK(literal)) = get_operands_32b(&Opcode::_32Bit(B32::BR_AND_LNK), first_instr) {
        assert_eq!(-252, literal);
    } else {
        panic!("could not detect literal");
    }
    assert_eq!(Opcode::_32Bit(B32::BR_AND_LNK), Opcode::from_word(&first_instr));
}

#[test]
fn should_recognise_udfw() {
    // UDF.W #101
    let t1: [u8; 4] = [0xF0, 0xF7, 0x65, 0xA0];
    assert_eq!(Opcode::_32Bit(B32::UNDEFINED), Opcode::from_word(&t1));
}

#[test]
fn should_recognise_yield() {
    // YIELD
    let yield_opc: [u8; 2] = [0x10, 0xBF];
    assert_eq!(Opcode::_16Bit(B16::YIELD), Opcode::from_hw(&yield_opc));
}

#[test]
fn should_recognise_dmb() {
    // DMB #12
    let instr: [u8; 4] = [0xBF, 0xF3, 0x5C, 0x8F];
    assert_eq!(Opcode::_32Bit(B32::DMB), Opcode::from_word(&instr));
    if let Some(Operands::Nibble(opt)) = get_operands_32b(&Opcode::_32Bit(B32::DMB), instr) {
        assert_eq!(opt.0, 12);
    } else {
        panic!("could not decode dmb operands");
    }
}

#[test]
fn should_recognise_dsb() {
    // DSB #12
    let instr: [u8; 4] = [0xBF, 0xF3, 0x4C, 0x8F];
    assert_eq!(Opcode::_32Bit(B32::DSB), Opcode::from_word(&instr));
    if let Some(Operands::Nibble(opt)) = get_operands_32b(&Opcode::_32Bit(B32::DSB), instr) {
        assert_eq!(opt.0, 12);
    } else {
        panic!("could not decode dsb operands");
    }
}

#[test]
fn should_recognise_isb() {
    // ISB #13
    let instr: [u8; 4] = [0xBF, 0xF3, 0x6D, 0x8F];
    assert_eq!(Opcode::_32Bit(B32::ISB), Opcode::from_word(&instr));
    if let Some(Operands::Nibble(opt)) = get_operands_32b(&Opcode::_32Bit(B32::ISB), instr) {
        assert_eq!(opt.0, 13);
    } else {
        panic!("could not decode isb operands");
    }
}

#[test]
fn should_recognise_mrs() {
    // MRS R1, APSR
    let instr: [u8; 4] = [0xEF, 0xF3, 0x00, 0x81];
    assert_eq!(Opcode::_32Bit(B32::MRS), Opcode::from_word(&instr));
    if let Some(Operands::MRS(reg, spc)) = get_operands_32b(&Opcode::_32Bit(B32::MRS), instr) {
        assert_eq!((reg.0, spc), (1, SpecialRegister::APSR));
    } else {
        panic!("could not decode isb operands");
    }
}

#[test]
fn should_recognise_msr() {
    // MSR APSR, R7
    let instr: [u8; 4] = [0x87, 0xF3, 0x00, 0x88];
    assert_eq!(Opcode::_32Bit(B32::MSR), Opcode::from_word(&instr));
    if let Some(Operands::MSR(spc, reg)) = get_operands_32b(&Opcode::_32Bit(B32::MSR), instr) {
        assert_eq!((spc, reg.0), (SpecialRegister::APSR, 7));
    } else {
        panic!("could not decode isb operands");
    }
}

#[test]
fn should_recognise_instruction_size() {
    // MSR APSR, r7 ; ADD r0, #7
    let instr_32: [u8; 2] = [0x87, 0xF3];
    let instr_16: [u8; 2] = [0x07, 0x30];
    assert_eq!(instruction_size(instr_32), InstructionSize::B32);
    assert_eq!(instruction_size(instr_16), InstructionSize::B16);
}
