use armageddon::system::simulator::{DebugRequest, HaltType, LoopAction, Simulator};
use armageddon::system::{ArmException, System};

fn system_with(code: &[u8]) -> System {
    let mut sys = System::fill_with(code);
    sys.set_pc(0).unwrap();
    sys
}

#[test]
fn undefined_instruction_faults() {
    let mut sys = system_with(&[0x00, 0xDE]);
    let r = sys.step();
    assert!(matches!(r, Err(ArmException::HardFault(_))));
}

#[test]
fn misaligned_fetch_faults() {
    let mut sys = system_with(&[0x02, 0x20, 0x2F, 0x22]);
    sys.registers.pc = 1;
    let r = sys.step();
    assert!(matches!(r, Err(ArmException::HardFault(_))));
    assert_eq!(sys.registers.generic[0], 0);
}

#[test]
fn branch_with_link_sets_the_link_register() {
    // BL to the next instruction
    let mut sys = system_with(&[0x00, 0xF0, 0x00, 0xF8]);
    let n = sys.step().unwrap();
    assert_eq!(n, 4);
    assert_eq!(sys.registers.lr, 5);
}

#[test]
fn locked_up_system_does_nothing() {
    let mut sys = system_with(&[0x02, 0x20]);
    sys.locked_up = true;
    assert_eq!(sys.step().unwrap(), 0);
    assert_eq!(sys.registers.generic[0], 0);
    let r = Simulator::step_or_signal_halt(&mut sys);
    assert!(matches!(r, Err(HaltType::lockup)));
}

#[test]
fn simulator_moves_the_program_counter() {
    let mut sys = system_with(&[0x02, 0x20, 0x2F, 0x22]);
    Simulator::step_or_signal_halt(&mut sys).unwrap();
    assert_eq!(sys.registers.generic[0], 2);
    assert_eq!(sys.registers.pc, 2);
    Simulator::step_or_signal_halt_type(&mut sys).unwrap();
    assert_eq!(sys.registers.generic[2], 47);
    assert_eq!(sys.registers.pc, 4);
}

#[test]
fn trace_records_each_instruction() {
    let mut sys = system_with(&[0x02, 0x20]);
    sys.trace_enabled = true;
    sys.step().unwrap();
    assert_eq!(sys.trace, "   0x00000000:   MOVS r0, #2\n");
}

#[test]
fn breakpoints_are_added_once_and_removed() {
    let mut sys = system_with(&[0x02, 0x20]);
    sys.add_breakpoint(8);
    sys.add_breakpoint(8);
    sys.add_breakpoint(12);
    assert!(sys.is_breakpoint(8));
    assert_eq!(sys.breakpoints, vec![8, 12]);
    sys.remove_breakpoint(8);
    assert!(!sys.is_breakpoint(8));
    assert!(sys.is_breakpoint(12));
    assert!(!sys.on_breakpoint());
    sys.add_breakpoint(0);
    assert!(sys.on_breakpoint());
}

#[test]
fn sections_are_loaded_at_their_addresses() {
    let sys = System::with_sections(vec![
        (String::from(".text"), 0x100, vec![1, 2, 3]),
        (String::from(".data"), 0x101, vec![9]),
    ]);
    assert_eq!(sys.alloc.get::<1>(0x100), [1]);
    assert_eq!(sys.alloc.get::<1>(0x101), [9]);
    assert_eq!(sys.alloc.get::<1>(0x102), [3]);
    assert_eq!(sys.alloc.get::<1>(0x103), [0]);
    assert_eq!(sys.alloc.pages(), 1);
}

#[test]
fn section_ending_a_page_allocates_the_next() {
    let sys = System::with_sections(vec![(String::from(".text"), 2046, vec![1, 2])]);
    assert_eq!(sys.alloc.pages(), 2);
}

#[test]
fn free_run_stops_on_a_breakpoint() {
    // MOVS r0,#1 ; MOVS r1,#2 ; MOVS r2,#3
    let mut sys = system_with(&[0x01, 0x20, 0x02, 0x21, 0x03, 0x22]);
    let a = Simulator::serve_request(&mut sys, DebugRequest::CreateBreakpoint(4), false);
    assert!(matches!(a, LoopAction::Wait));
    assert!(sys.is_breakpoint(4));
    assert!(matches!(Simulator::serve_request(&mut sys, DebugRequest::Continue, false), LoopAction::Run));
    assert!(matches!(Simulator::continue_step(&mut sys), LoopAction::Run));
    assert!(matches!(Simulator::continue_step(&mut sys), LoopAction::Stop(HaltType::breakpoint)));
    assert_eq!(sys.registers.pc, 4);
    assert_eq!(sys.registers.generic[1], 2);
}

#[test]
fn requests_change_breakpoints_and_stop_the_loop() {
    let mut sys = system_with(&[0x00, 0xBF]);
    sys.add_breakpoint(8);
    sys.add_breakpoint(12);
    assert!(matches!(Simulator::serve_request(&mut sys, DebugRequest::DeleteBreakpoint(8), true), LoopAction::Run));
    assert!(!sys.is_breakpoint(8));
    assert!(sys.is_breakpoint(12));
    assert!(matches!(Simulator::serve_request(&mut sys, DebugRequest::ClearBreakpoints, true), LoopAction::Run));
    assert!(!sys.is_breakpoint(12));
    assert!(matches!(Simulator::serve_request(&mut sys, DebugRequest::Halt(HaltType::lockup), true), LoopAction::Stop(HaltType::lockup)));
    assert!(matches!(Simulator::serve_request(&mut sys, DebugRequest::Halt(HaltType::usercmd), false), LoopAction::Stop(HaltType::usercmd)));
    assert!(matches!(Simulator::serve_request(&mut sys, DebugRequest::Disconnect, false), LoopAction::Close));
}
