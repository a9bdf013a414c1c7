//! Small Thumb programs run on the simulator. Each test quotes its source,
//! and holds the half words and literal pool words that the GNU assembler
//! makes of it, loaded at address 0.
use armageddon::binutils::{from_arm_bytes, from_arm_bytes_16b};
use armageddon::system::instructions::{carry_flag, negative_flag, overflow_flag, zero_flag};
use armageddon::system::registers::get_carry_bit;
use armageddon::system::{ArmException, ExceptionStatus, Mode, System};

/// The bytes of a program made of half words, then of literal pool words.
fn program(code: &[u16], pool: &[u32]) -> Vec<u8> {
    let mut bytes: Vec<u8> = code.iter().flat_map(|h| h.to_le_bytes()).collect();
    for w in pool {
        bytes.extend_from_slice(&w.to_le_bytes());
    }
    bytes
}

fn load_code_into_system(entry_point: usize, code: &[u8]) -> System {
    let mut sys = System::fill_with(code);
    sys.set_pc(entry_point).unwrap();
    sys
}

fn run(sys: &mut System) {
    let i = sys.step().unwrap();
    sys.offset_pc(i).unwrap();
}

#[test]
pub fn should_do_add() {
    // ADD r0,r1 ; ADD r0,r1,#2 ; ADD r0,#200 ; ADD r0,r1 ; ADD r4,SP,#1004 ; ADD SP,#212
    let code = program(&[0x1840, 0x1C88, 0x30C8, 0x1840, 0xACFB, 0xB035], &[]);
    let mut sys = load_code_into_system(0, &code);
    sys.registers.generic[0] = 20;
    sys.registers.generic[1] = 40;
    sys.step().unwrap();
    assert_eq!(sys.registers.generic[0], 60);

    sys.set_pc(sys.registers.pc + 2).unwrap();
    sys.step().unwrap();
    assert_eq!(sys.registers.generic[0], 42);

    sys.set_pc(sys.registers.pc + 2).unwrap();
    sys.step().unwrap();
    assert_eq!(sys.registers.generic[0], 242);

    sys.registers.generic[0] = 0xF0000000;
    sys.registers.generic[1] = 1;
    sys.set_pc(sys.registers.pc + 2).unwrap();
    sys.step().unwrap();
    assert_eq!(sys.registers.generic[0], 0xF0000000 + 1);

    let sp_value = 320;
    sys.registers.sp_main = sp_value;
    sys.registers.sp_process = sp_value;
    sys.set_pc(sys.registers.pc + 2).unwrap();
    sys.step().unwrap();
    assert_eq!(sys.registers.generic[4], 1004 + sp_value);

    sys.set_pc(sys.registers.pc + 2).unwrap();
    sys.step().unwrap();
    assert_eq!(sys.get_sp(), 212 + sp_value);
}

#[test]
pub fn should_do_mul() {
    // MUL r0,r1
    let code = program(&[0x4348], &[]);
    let mut sys = load_code_into_system(0, &code);
    sys.registers.generic[0] = 7;
    sys.registers.generic[1] = 3;
    let carry = carry_flag(sys.xpsr);
    let overflow = overflow_flag(sys.xpsr);

    sys.step().unwrap();

    assert_eq!(sys.registers.generic[0], 21);
    assert!(!negative_flag(sys.xpsr));
    assert!(!zero_flag(sys.xpsr));
    assert_eq!(carry_flag(sys.xpsr), carry);
    assert_eq!(overflow_flag(sys.xpsr), overflow);
}

#[test]
pub fn should_do_move() {
    // MOV r0,#2 ; MOV r2,#47 ; MOV r1,r2
    let code = program(&[0x2002, 0x222F, 0x1C11], &[]);
    let mut sys = load_code_into_system(0, &code);
    let n = sys.step().unwrap();
    assert_eq!(sys.registers.generic[0], 2);
    sys.offset_pc(n).unwrap();

    let n = sys.step().unwrap();
    assert_eq!(sys.registers.generic[2], 47);
    sys.offset_pc(n).unwrap();

    let n = sys.step().unwrap();
    assert_eq!(sys.registers.generic[1], 47);
    sys.offset_pc(n).unwrap();
}

#[test]
pub fn should_do_rev() {
    // REV r0,r0 ; REV16 r0,r0 ; REVSH r0,r0 ; REVSH r0,r0
    let code = program(&[0xBA00, 0xBA40, 0xBAC0, 0xBAC0], &[]);
    let mut sys = load_code_into_system(0, &code);
    sys.registers.generic[0] = 0x99AA88CC;
    let n = sys.step().unwrap();
    assert_eq!(sys.registers.generic[0], 0xCC88AA99);
    sys.offset_pc(n).unwrap();

    sys.registers.generic[0] = 0xFA82DB14;
    let n = sys.step().unwrap();
    assert_eq!(sys.registers.generic[0], 0x82FA14DB);
    sys.offset_pc(n).unwrap();

    sys.registers.generic[0] = 0x09A3;
    let n = sys.step().unwrap();
    assert_eq!(sys.registers.generic[0], 0xFFFFFF09);
    sys.offset_pc(n).unwrap();

    sys.registers.generic[0] = 0xFA73;
    let n = sys.step().unwrap();
    assert_eq!(sys.registers.generic[0], 0xFA);
    sys.offset_pc(n).unwrap();
}

#[test]
pub fn should_do_sub() {
    // SUB r0,r1,r2 ; SUB r0,r1,#5 ; SUB r1,#120
    let code = program(&[0x1A88, 0x1F48, 0x3978], &[]);
    let mut sys = load_code_into_system(0, &code);
    sys.registers.generic[0] = 0;
    sys.registers.generic[1] = 500;
    sys.registers.generic[2] = 400;
    sys.step().unwrap();
    assert_eq!(sys.registers.generic[0], 100);

    sys.set_pc(sys.registers.pc + 2).unwrap();
    sys.step().unwrap();
    assert_eq!(sys.registers.generic[0], 495);

    sys.set_pc(sys.registers.pc + 2).unwrap();
    sys.step().unwrap();
    assert_eq!(sys.registers.generic[1], 380);
}

#[test]
pub fn should_do_compare() {
    // CMP r0,r1 ; CMP r0,#0 ; CMP r0,#1 ; CMP r0,#2 ; CMP r0,#1 ; CMP r0,#20 ; CMP r0,#1
    let code = program(&[0x4288, 0x2800, 0x2801, 0x2802, 0x2801, 0x2814, 0x2801], &[]);
    let mut sys = load_code_into_system(0, &code);
    sys.registers.generic[0] = 0;
    sys.registers.generic[1] = 100;
    let mut incr = sys.step().unwrap();
    assert!(overflow_flag(sys.xpsr) != negative_flag(sys.xpsr));
    sys.offset_pc(incr).unwrap();

    sys.registers.generic[0] = 0;
    incr = sys.step().unwrap();
    assert_eq!(zero_flag(sys.xpsr), true);
    sys.offset_pc(incr).unwrap();

    incr = sys.step().unwrap();
    assert_eq!(zero_flag(sys.xpsr), false);
    sys.offset_pc(incr).unwrap();

    sys.registers.generic[0] = 20;
    incr = sys.step().unwrap();
    assert_eq!(zero_flag(sys.xpsr), false);
    assert_eq!(zero_flag(sys.xpsr), negative_flag(sys.xpsr));
    sys.offset_pc(incr).unwrap();

    sys.registers.generic[0] = 2;
    incr = sys.step().unwrap();
    assert_eq!(zero_flag(sys.xpsr), false);
    assert_eq!(carry_flag(sys.xpsr), true);
    sys.offset_pc(incr).unwrap();

    sys.registers.generic[0] = 1;
    incr = sys.step().unwrap();
    assert!(!carry_flag(sys.xpsr) || zero_flag(sys.xpsr));
    sys.offset_pc(incr).unwrap();

    sys.registers.generic[0] = 1;
    sys.step().unwrap();
    assert!(!carry_flag(sys.xpsr) || zero_flag(sys.xpsr));
}

#[test]
pub fn should_do_shifts() {
    // MOV r0,#20 ; LSL r0,r0,#2 ; MOV r1,#1 ; MOV r3,r0 ; LSL r3,r1 ; MOV r5,#124
    // LSR r5,r5,#4 ; MOV r6,#2 ; LSR r5,r6 ; MOV r0,#1 ; LSR r0,#1 ; MOV r0,#1
    // LSL r0,#31 ; LSL r0,#1
    let code = program(
        &[0x2014, 0x0080, 0x2101, 0x4603, 0x408B, 0x257C, 0x092D, 0x2602, 0x40F5, 0x2001, 0x0840, 0x2001, 0x07C0, 0x0040],
        &[],
    );
    let mut sys = load_code_into_system(0, &code);
    run(&mut sys);
    run(&mut sys);
    assert_eq!(sys.registers.generic[0], 20 << 2);
    run(&mut sys);
    run(&mut sys);
    run(&mut sys);
    assert_eq!(sys.registers.generic[3], 20 << 3);
    run(&mut sys);
    run(&mut sys);
    assert_eq!(sys.registers.generic[5], 124 >> 4);
    run(&mut sys);
    run(&mut sys);
    assert_eq!(sys.registers.generic[5], 124 >> 6);
    run(&mut sys);
    run(&mut sys);
    assert_eq!(sys.registers.generic[0], 0);
    assert!(get_carry_bit(sys.xpsr));
    run(&mut sys);
    run(&mut sys);
    assert_eq!(sys.registers.generic[0], 1 << 31);
    run(&mut sys);
    assert_eq!(sys.registers.generic[0], 0);
    assert!(get_carry_bit(sys.xpsr));
}

#[test]
pub fn should_support_ctrl_register() {
    // LDR r0, =0xFFFF ; LDR r1, =1024 ; MSR PSP, r1 ; MSR CONTROL,r0 ; PUSH {r0,r1} ; (pool)
    let code = program(&[0x4803, 0x4904, 0xF381, 0x8809, 0xF380, 0x8814, 0xB403, 0x0000], &[0xFFFF, 1024]);
    let mut sys = load_code_into_system(0, &code);
    run(&mut sys);
    run(&mut sys);

    let i = sys.step().unwrap();
    assert_eq!(sys.registers.sp_process, 1024);
    assert!(sys.get_sp() != 1024);
    sys.offset_pc(i).unwrap();

    let i = sys.step().unwrap();
    assert_eq!(sys.get_sp(), 1024);
    sys.offset_pc(i).unwrap();

    let i = sys.step().unwrap();
    assert_eq!(sys.get_sp(), 1024 - (4 * 2));
    assert_eq!(sys.registers.sp_process, 1024 - (4 * 2));
    sys.offset_pc(i).unwrap();
}

#[test]
pub fn should_support_stack() {
    // LDR r0, =1024 ; MSR MSP,r0 ; MOV r0,#5 ; MOV r1,#17 ; MOV r2,#56
    // PUSH {r0,r1,r2} ; POP {r4,r5,r6} ; ADD r0,r4,r5 ; ADD r0,r0,r6 ; .pool
    let code = program(&[0x4804, 0xF380, 0x8808, 0x2005, 0x2111, 0x2238, 0xB407, 0xBC70, 0x1960, 0x1980], &[1024]);
    let mut sys = load_code_into_system(0, &code);
    run(&mut sys);

    let i = sys.step().unwrap();
    assert_eq!(sys.get_sp(), 1024);
    assert_eq!(sys.registers.sp_main, 1024);
    sys.offset_pc(i).unwrap();

    run(&mut sys);
    run(&mut sys);
    run(&mut sys);

    let i = sys.step().unwrap();
    assert_eq!(sys.get_sp(), 1024 - (4 * 3));
    assert_eq!(sys.registers.sp_main, 1024 - (4 * 3));
    sys.offset_pc(i).unwrap();

    let i = sys.step().unwrap();
    assert_eq!(sys.registers.generic[4], 5);
    assert_eq!(sys.registers.generic[5], 17);
    assert_eq!(sys.registers.generic[6], 56);
    sys.offset_pc(i).unwrap();

    let i = sys.step().unwrap();
    assert_eq!(sys.registers.generic[0], 5 + 17);
    sys.offset_pc(i).unwrap();

    let i = sys.step().unwrap();
    assert_eq!(sys.registers.generic[0], 5 + 17 + 56);
    assert_eq!(sys.get_sp(), 1024);
    assert_eq!(sys.registers.sp_main, 1024);
    sys.offset_pc(i).unwrap();
}

#[test]
pub fn vtor_support() {
    // LDR r0, =0xE000ED08 ; MOV r1,#233 ; STR r1,[r0,#0] ; MOV r2,#0 ; MOV r3,#48 ; LDR r3,[r0,r2]
    let code = program(&[0x4802, 0x21E9, 0x6001, 0x2200, 0x2330, 0x5883], &[0xE000ED08]);
    let mut sys = load_code_into_system(0, &code);
    assert_eq!(sys.scs.vtor, 0);
    run(&mut sys);
    run(&mut sys);
    run(&mut sys);
    assert_eq!(sys.scs.vtor, 0);
    run(&mut sys);
    run(&mut sys);
    assert_eq!(sys.registers.generic[3], 48);
    run(&mut sys);
    assert_eq!(sys.registers.generic[3], 0);
}

#[test]
pub fn ccr_test() {
    // LDR r0,=0xE000ED14 ; LDR r1,[r0,#0] ; MOV r2,#1 ; STR r2,[r0,#0] ; LDR r1,[r0,#0]
    let code = program(&[0x4802, 0x6801, 0x2201, 0x6002, 0x6801, 0x0000], &[0xE000ED14]);
    let mut sys = load_code_into_system(0, &code);
    run(&mut sys);
    run(&mut sys);
    assert_eq!(sys.registers.generic[1], 0x208);
    run(&mut sys);
    run(&mut sys);
    assert_ne!(sys.scs.ccr, 1);
    run(&mut sys);
    assert_eq!(sys.registers.generic[1], 0x208, "CCR is readonly");
}

#[test]
pub fn software_interrupt_triggers() {
    // NOP ; LDR r0,=0xE000ED04 ; then each of LDR r1,=0x80000000, =0x10000000,
    // =0x08000000, =0x04000000, =0x02000000 followed by STR r1,[r0,#0]
    let code = program(
        &[0xBF00, 0x4805, 0x4905, 0x6001, 0x4905, 0x6001, 0x4905, 0x6001, 0x4905, 0x6001, 0x4905, 0x6001],
        &[0xE000ED04, 0x80000000, 0x10000000, 0x08000000, 0x04000000, 0x02000000],
    );
    let mut sys = load_code_into_system(0, &code);

    run(&mut sys);
    for status in sys.active_exceptions {
        assert!(matches!(status, ExceptionStatus::Inactive));
    }
    run(&mut sys);
    run(&mut sys);
    run(&mut sys);
    let n = ArmException::Nmi.number() as usize;
    assert!(matches!(sys.active_exceptions[n], ExceptionStatus::Pending));

    run(&mut sys);
    run(&mut sys);
    let n = ArmException::PendSV.number() as usize;
    assert!(matches!(sys.active_exceptions[n], ExceptionStatus::Pending));

    run(&mut sys);
    run(&mut sys);
    let n = ArmException::PendSV.number() as usize;
    assert!(matches!(sys.active_exceptions[n], ExceptionStatus::Inactive));

    run(&mut sys);
    run(&mut sys);
    let n = ArmException::SysTick.number() as usize;
    assert!(matches!(sys.active_exceptions[n], ExceptionStatus::Pending));

    run(&mut sys);
    run(&mut sys);
    let n = ArmException::SysTick.number() as usize;
    assert!(matches!(sys.active_exceptions[n], ExceptionStatus::Inactive));
}

#[test]
pub fn nvic_test() {
    // STR r1,[r0, #0] ; STR r1,[r0, #0] ; NOP ; then five more STR r1,[r0, #0]
    let code = program(&[0x6001, 0x6001, 0xBF00, 0x6001, 0x6001, 0x6001, 0x6001, 0x6001], &[]);
    let mut sys = load_code_into_system(0, &code);

    let nvic_iser: u32 = 0xE000E100;
    let enabled_interrupts: u32 = 0x80000000 | 0b110;
    sys.registers.generic[0] = nvic_iser;
    sys.registers.generic[1] = enabled_interrupts;
    run(&mut sys);
    assert_eq!(sys.scs.is_nvic_interrupt_enabled(1), true);
    assert_eq!(sys.scs.is_nvic_interrupt_enabled(2), true);
    assert_eq!(sys.scs.is_nvic_interrupt_enabled(31), true);
    assert_eq!(sys.scs.enabled_interrupts, enabled_interrupts);

    let nvic_ispr: u32 = 0xE000E200;
    let req_pending = 1;
    sys.registers.generic[0] = nvic_ispr;
    sys.registers.generic[1] = req_pending;
    let i = sys.step().unwrap();
    let _ = sys.check_for_exceptions();
    sys.offset_pc(i).unwrap();
    assert!(matches!(sys.active_exceptions[ArmException::ExternInterrupt(16).number() as usize], ExceptionStatus::Pending));

    let i = sys.step().unwrap();
    let _ = sys.check_for_exceptions();
    sys.offset_pc(i).unwrap();
    assert!(matches!(sys.active_exceptions[ArmException::ExternInterrupt(16).number() as usize], ExceptionStatus::Pending));

    sys.active_exceptions[ArmException::ExternInterrupt(16).number() as usize] = ExceptionStatus::Inactive;

    let pending = 0x80000002;
    sys.registers.generic[1] = pending;
    run(&mut sys);
    assert!(matches!(sys.active_exceptions[16 + 31], ExceptionStatus::Pending));
    assert!(matches!(sys.active_exceptions[16 + 1], ExceptionStatus::Pending));

    let nvic_icpr = 0xE000E280;
    let to_clear = 0x80000000;
    sys.registers.generic[0] = nvic_icpr;
    sys.registers.generic[1] = to_clear;
    run(&mut sys);
    assert!(matches!(sys.active_exceptions[16 + 31], ExceptionStatus::Inactive));

    let nvic_icer = 0xE000E180;
    let to_disable = 0b10;
    sys.registers.generic[0] = nvic_icer;
    sys.registers.generic[1] = to_disable;
    run(&mut sys);
    assert_eq!(sys.scs.is_nvic_interrupt_enabled(1), false);
    assert_eq!(sys.scs.enabled_interrupts, 0x80000004);

    let nvic_ipr7 = 0xE000E41C;
    let priorities = 0xCF8F4F0F;
    sys.registers.generic[0] = nvic_ipr7;
    sys.registers.generic[1] = priorities;
    run(&mut sys);
    assert_eq!(sys.scs.nvic_priority_of(47), 3);
    assert_eq!(sys.scs.nvic_priority_of(46), 2);
    assert_eq!(sys.scs.nvic_priority_of(45), 1);
    assert_eq!(sys.scs.nvic_priority_of(44), 0);
    assert_eq!(sys.scs.ipr[7], 0xC0804000);

    let nvic_ipr0 = 0xE000E400;
    let priorities = 0x40;
    sys.registers.generic[0] = nvic_ipr0;
    sys.registers.generic[1] = priorities;
    run(&mut sys);
    assert_eq!(sys.scs.nvic_priority_of(16), 1);
    assert_eq!(sys.scs.ipr[0], 0x40);
}

#[test]
pub fn control_interrupt_priorities() {
    // NOP ; LDR r0,=0xE000ED1C ; LDR r1,=0x80000000 ; STR r1,[r0,#0]
    // LDR r0,=0xE000ED20 ; LDR r1,=0x80800000 ; STR r1,[r0,#0]
    let code = program(
        &[0xBF00, 0x4803, 0x4903, 0x6001, 0x4803, 0x4904, 0x6001, 0x0000],
        &[0xE000ED1C, 0x80000000, 0xE000ED20, 0x80800000],
    );
    let mut sys = load_code_into_system(0, &code);

    run(&mut sys);
    assert_eq!(ArmException::Svc.priority_group(&sys.scs), 0);
    assert_eq!(ArmException::SysTick.priority_group(&sys.scs), 0);
    assert_eq!(ArmException::PendSV.priority_group(&sys.scs), 0);

    run(&mut sys);
    run(&mut sys);
    run(&mut sys);
    assert_eq!(ArmException::Svc.priority_group(&sys.scs), 0b10);
    assert_eq!(sys.scs.shpr2 & 1 << 31, 1 << 31);

    run(&mut sys);
    run(&mut sys);
    run(&mut sys);
    assert_eq!(ArmException::SysTick.priority_group(&sys.scs), 0b10);
    assert_eq!(ArmException::PendSV.priority_group(&sys.scs), 0b10);
    assert_eq!(sys.scs.shpr3 & 1 << 31, 1 << 31);
    assert_eq!(sys.scs.shpr3 & 1 << 23, 1 << 23);

    sys.registers.sp_main = 1 << 15;
    sys.registers.sp_process = 1 << 15;
    sys.active_exceptions[ArmException::ExternInterrupt(16).number() as usize] = ExceptionStatus::Pending;
    sys.active_exceptions[ArmException::SysTick.number() as usize] = ExceptionStatus::Pending;
    sys.scs.enabled_interrupts = 1;

    let _ = sys.check_for_exceptions();

    assert!(matches!(sys.active_exceptions[ArmException::ExternInterrupt(16).number() as usize], ExceptionStatus::Active));
    assert!(matches!(sys.active_exceptions[ArmException::SysTick.number() as usize], ExceptionStatus::Pending));
}

#[test]
pub fn cps_test() {
    // NOP ; CPSID i ; NOP ; CPSIE i
    let code = program(&[0xBF00, 0xB672, 0xBF00, 0xB662], &[]);
    let mut sys = load_code_into_system(0, &code);
    sys.registers.sp_main = 1 << 15;
    sys.registers.sp_process = 1 << 15;
    run(&mut sys);

    sys.active_exceptions[17] = ExceptionStatus::Pending;
    sys.scs.enabled_interrupts = 2;
    let i = sys.step().unwrap();
    sys.check_for_exceptions();
    sys.offset_pc(i).unwrap();
    assert!(matches!(sys.active_exceptions[17], ExceptionStatus::Pending));

    let i = sys.step().unwrap();
    sys.check_for_exceptions();
    sys.offset_pc(i).unwrap();
    assert!(matches!(sys.active_exceptions[17], ExceptionStatus::Pending));

    sys.step().unwrap();
    sys.check_for_exceptions();
    assert!(matches!(sys.active_exceptions[17], ExceptionStatus::Active));
}

/// `_gcd: CMP r0,r1 ; BEQ .end ; BLT .less ; SUB r0,r0,r1 ; B _gcd`
/// `.less: SUB r1,r1,r0 ; B _gcd` `.end: NOP`
fn run_euclid(r0_value: u32, r1_value: u32) -> (u32, u32) {
    let code = program(&[0x4288, 0xD004, 0xDB01, 0x1A40, 0xE7FA, 0x1A09, 0xE7F8, 0x46C0], &[]);
    let mut sys = load_code_into_system(0, &code);
    sys.registers.generic[0] = r0_value;
    sys.registers.generic[1] = r1_value;
    while sys.registers.pc < code.len() {
        run(&mut sys);
    }
    (sys.registers.generic[0], sys.registers.generic[1])
}

#[test]
pub fn euclid_gcd() {
    assert_eq!(run_euclid(1, 2), (1, 1));
    assert_eq!(run_euclid(4, 2), (2, 2));
    assert_eq!(run_euclid(816, 2260), (4, 4));
    assert_eq!(run_euclid(201, 450), (3, 3));
}

/// `LDR r1, =1024 ; MSR MSP,r1 ; MOV r1,#0 ; MOV r2,#1 ; PUSH {r0,r1,r2} ; BL _fib ; B _done ; .pool`
/// `_fib: POP {r0,r1,r2} ; ADD r3,r1,r2 ; CMP r0,#0 ; BHI _recurse ; BX LR`
/// `_recurse: SUB r0,#1 ; PUSH {r0,r2,r3} ; B _fib` `_done: NOP`
fn run_fibonnaci(nth_term: u32) -> u32 {
    let mut code = program(&[0x4904, 0xF381, 0x8808, 0x2100, 0x2201, 0xB407, 0xF000, 0xF804, 0xE00A, 0x0000], &[1024]);
    code.extend(program(&[0xBC07, 0x188B, 0x2800, 0xD800, 0x4770, 0x3801, 0xB40D, 0xE7F7, 0xBF00], &[]));
    let mut sys = load_code_into_system(0, &code);
    sys.registers.generic[0] = nth_term;
    while sys.registers.pc < code.len() {
        run(&mut sys);
    }
    sys.registers.generic[3]
}

#[test]
pub fn fibonnaci() {
    assert_eq!(run_fibonnaci(0), 1);
    assert_eq!(run_fibonnaci(1), 2);
    assert_eq!(run_fibonnaci(2), 3);
    assert_eq!(run_fibonnaci(3), 5);
    assert_eq!(run_fibonnaci(4), 8);
    assert_eq!(run_fibonnaci(5), 13);
    assert_eq!(run_fibonnaci(6), 21);
}

#[test]
pub fn should_load() {
    // LDR r0, =_some_var ; LDR r1,[r0] ; LDRH r0, =_some_hw ; LDR r1, [r0] ; NOP ; NOP ; NOP
    // .pool ; _some_var: .word 0xBEEF ; _some_hw: .2byte 0x10AA
    let mut code = program(&[0x4803, 0x6801, 0x4803, 0x6801, 0x46C0, 0x46C0, 0x46C0, 0x0000], &[24, 28, 0xBEEF]);
    code.extend_from_slice(&0x10AAu16.to_le_bytes());
    let mut sys = load_code_into_system(0, &code);
    let mut off = sys.step().unwrap();
    let beef_ptr = sys.registers.generic[0];
    let word = sys.alloc.get::<4>(beef_ptr);
    assert_eq!(0xBEEF_u32, from_arm_bytes(word));
    sys.offset_pc(off).unwrap();

    off = sys.step().unwrap();
    assert_eq!(sys.registers.generic[1], 0xBEEF_u32);
    sys.offset_pc(off).unwrap();

    off = sys.step().unwrap();
    let hw_ptr = sys.registers.generic[0];
    let hw = sys.alloc.get::<2>(hw_ptr);
    assert_eq!(0x10AA_u16, from_arm_bytes_16b(hw));
    sys.offset_pc(off).unwrap();

    sys.step().unwrap();
    assert_eq!(sys.registers.generic[1] as u16, 0x10AA_u16);
}

#[test]
pub fn should_store() {
    // LDR r0, =_some_var ; MOV r1, #240 ; STR r1, [r0, #0] ; NOP ; _some_var: .word 0xCCCC ; (pool)
    let code = program(&[0x4802, 0x21F0, 0x6001, 0x46C0], &[0xCCCC, 8]);
    let mut sys = load_code_into_system(0, &code);
    let mut i = sys.step().unwrap();
    let ptr = sys.registers.generic[0] as usize;
    sys.offset_pc(i).unwrap();
    i = sys.step().unwrap();
    sys.offset_pc(i).unwrap();
    i = sys.step().unwrap();
    sys.offset_pc(i).unwrap();
    let written_word = sys.alloc.get::<4>(ptr as u32);
    assert_eq!(240, from_arm_bytes(written_word));
}

/// A program linked at 0: the vector table `vectors`, then the half words
/// `code`.
fn linked(vectors: &[u32], code: &[u16]) -> Vec<u8> {
    let mut bytes = program(&[], vectors);
    bytes.extend(program(code, &[]));
    bytes
}

#[test]
pub fn support_exceptions() {
    // _vector_table: .4byte _SP_RESET_VAL, _reset_handler, _nmi_handler
    // _reset_handler: BKPT   _nmi_handler: MOV r0,#7 ; BX LR
    // _entry_point: MOV r0,#0 ; LDR r0,[r0,#0] ; MSR MSP, r0 ; MSR PSP, r0 ; MOV r0,#56 ; ADD r0,#20
    // then a stack of 0x20 bytes, aligned to 8, whose end is _SP_RESET_VAL
    let mut code = linked(
        &[72, 13, 15],
        &[0xBE00, 0x2007, 0x4770, 0x2000, 0x6800, 0xF380, 0x8808, 0xF380, 0x8809, 0x2038, 0x3014],
    );
    code.resize(72, 0);
    let mut sys = load_code_into_system(18, &code);
    let word = sys.alloc.get::<4>(0);
    assert!(sys.read_raw_ir() != 0);
    let sp_reset = from_arm_bytes(word);
    run(&mut sys);
    assert_eq!(sys.get_ipsr(), 0);

    let i = sys.step().unwrap();
    assert_eq!(sys.registers.generic[0], sp_reset);
    sys.offset_pc(i).unwrap();
    assert_eq!(sys.get_ipsr(), 0);

    run(&mut sys);
    assert_eq!(sys.registers.sp_main, sp_reset);
    assert_eq!(sys.get_ipsr(), 0);

    run(&mut sys);
    assert_eq!(sys.registers.sp_process, sp_reset);
    assert_eq!(sys.get_ipsr(), 0);

    sys.step().unwrap();
    assert_eq!(sys.registers.generic[0], 56);
    assert_eq!(sys.get_ipsr(), 0);

    sys.active_exceptions[2] = ExceptionStatus::Pending;
    sys.check_for_exceptions();
    assert_eq!(sys.get_ipsr(), 2);
    assert!(matches!(sys.mode, Mode::Handler));

    let i = sys.step().unwrap();
    assert_eq!(sys.registers.generic[0], 7);
    assert_eq!(sys.get_ipsr(), 2);
    assert!(matches!(sys.mode, Mode::Handler));
    sys.offset_pc(i).unwrap();

    run(&mut sys);
    assert_eq!(sys.get_ipsr(), 0);
    assert!(matches!(sys.mode, Mode::Thread));

    run(&mut sys);
    assert_eq!(sys.registers.generic[0], 76);
    assert_eq!(sys.get_ipsr(), 0);
    assert!(matches!(sys.mode, Mode::Thread));
}

#[test]
pub fn exception_preemption_test() {
    // _vector_table: _SP_RESET_VAL, _dummy_handler, _nmi_handler, eight more _dummy_handler, _svc_handler
    // _nmi_handler: MOV r0,#7 ; BX LR   _dummy_handler: BKPT
    // _svc_handler: MOV r0,#20 ; MOV r0,#42 ; BX LR
    // _entry_point: MOV r0,#0 ; LDR r0,[r0,#0] ; MSR MSP, r0 ; MSR PSP, r0 ; MOV r0,#56 ; ADD r0,#81
    // then a stack of 0x80 bytes, aligned to 8, whose end is _SP_RESET_VAL
    let mut code = linked(
        &[208, 53, 49, 53, 53, 53, 53, 53, 53, 53, 53, 55],
        &[0x2007, 0x4770, 0xBE00, 0x2014, 0x202A, 0x4770, 0x2000, 0x6800, 0xF380, 0x8808, 0xF380, 0x8809, 0x2038, 0x3051],
    );
    code.resize(208, 0);
    let mut sys = load_code_into_system(60, &code);
    let word = sys.alloc.get::<4>(0);
    assert!(sys.read_raw_ir() != 0);
    let _sp_reset = from_arm_bytes(word);

    for _ in 0..4 {
        run(&mut sys);
        assert_eq!(sys.get_ipsr(), 0);
        assert!(matches!(sys.mode, Mode::Thread));
    }

    sys.step().unwrap();
    assert_eq!(sys.registers.generic[0], 56);

    sys.active_exceptions[11] = ExceptionStatus::Pending;
    sys.check_for_exceptions();
    assert_eq!(sys.get_ipsr(), 11);
    assert!(matches!(sys.active_exceptions[11], ExceptionStatus::Active));
    assert!(matches!(sys.mode, Mode::Handler));

    sys.step().unwrap();
    assert_eq!(sys.registers.generic[0], 20);
    assert_eq!(sys.get_ipsr(), 11);
    assert!(matches!(sys.mode, Mode::Handler));

    sys.active_exceptions[2] = ExceptionStatus::Pending;
    sys.check_for_exceptions();
    assert!(matches!(sys.active_exceptions[2], ExceptionStatus::Active));
    assert_eq!(sys.get_ipsr(), 2);
    assert!(matches!(sys.mode, Mode::Handler));

    let i = sys.step().unwrap();
    assert_eq!(sys.registers.generic[0], 7);
    assert!(matches!(sys.active_exceptions[2], ExceptionStatus::Active));
    assert_eq!(sys.get_ipsr(), 2);
    assert!(matches!(sys.mode, Mode::Handler));
    sys.offset_pc(i).unwrap();

    run(&mut sys);
    assert!(matches!(sys.active_exceptions[2], ExceptionStatus::Inactive));
    assert!(matches!(sys.active_exceptions[11], ExceptionStatus::Active));
    assert_eq!(sys.get_ipsr(), 11);
    assert!(matches!(sys.mode, Mode::Handler));

    run(&mut sys);
    assert_eq!(sys.registers.generic[0], 42);
    assert!(matches!(sys.active_exceptions[11], ExceptionStatus::Active));
    assert_eq!(sys.get_ipsr(), 11);
    assert!(matches!(sys.mode, Mode::Handler));

    run(&mut sys);
    assert!(matches!(sys.active_exceptions[11], ExceptionStatus::Inactive));
    assert_eq!(sys.get_ipsr(), 0);
    assert!(matches!(sys.mode, Mode::Thread));

    run(&mut sys);
    assert_eq!(sys.registers.generic[0], 56 + 81);
    assert!(matches!(sys.active_exceptions[11], ExceptionStatus::Inactive));
    assert_eq!(sys.get_ipsr(), 0);
    assert!(matches!(sys.mode, Mode::Thread));
}
