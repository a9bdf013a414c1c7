//! Driving the processor one instruction at a time, and the reasons it
//! halts.
use vstd::prelude::*;
use super::{System, ArmException, reset_defined, reset_post, breakpoint_added, other_than};
use super::exceptions::exception_number;
use super::handlers::{check_defined, check_post, offset_post, pending_set};
use super::step::{step_defined, step_post};

verus! {

/// Why a run of the simulator stopped.
#[allow(non_camel_case_types)]
#[derive(Clone, Debug)]
pub enum HaltType {
    error(ArmException),
    lockup,
    breakpoint,
    usercmd,
}

/// Runs a system one instruction at a time.
pub struct Simulator;

/// Whether recording the exception `e` and then taking any exception that
/// preempts runs on `s` without a simulator error.
pub open spec fn register_defined(s: System, e: ArmException) -> bool {
    &&& exception_number(e) < 48
    &&& forall|s1: System| #[trigger] pending_set(s, s1, exception_number(e)) ==> check_defined(s1)
}

/// `new` is `old` after the exception `e` was made pending and the
/// exception of highest priority was taken where it preempts.
pub open spec fn register_post(old: System, new: System, e: ArmException) -> bool {
    exists|s1: System, c: Option<u32>| #[trigger] pending_set(old, s1, exception_number(e)) && #[trigger] check_post(s1, new, c)
}

/// Whether what follows a step with result `r` runs on `s1` without a
/// simulator error: after an offset, taking exceptions and, where none was
/// taken, moving the program counter; after a failure, registering it.
/// With `faults_only`, the failure must be a HardFault.
pub open spec fn after_step_defined(s1: System, r: Result<i32, ArmException>, faults_only: bool) -> bool {
    match r {
        Ok(off) => {
            &&& check_defined(s1)
            &&& forall|s2: System| #[trigger] check_post(s1, s2, None) && !s2.locked_up ==> 0 <= (s2.registers.pc
                as u32) + off <= u32::MAX
        },
        Err(e) => {
            &&& faults_only ==> e is HardFault
            &&& register_defined(s1, e)
        },
    }
}

/// Whether a step of the simulator runs on `s` without a simulator error.
pub open spec fn sim_step_defined(s: System, faults_only: bool) -> bool {
    !s.locked_up ==> {
        &&& step_defined(s)
        &&& forall|s1: System, r: Result<i32, ArmException>| #[trigger] step_post(s, s1, r) ==> after_step_defined(s1, r, faults_only)
    }
}

/// `new` is `old` after one step of the simulator, with result `r`: a
/// locked up processor halts; otherwise the instruction runs, a failure is
/// registered as a pending exception and taken; after an instruction that
/// ran, a pending exception that preempts is taken, and otherwise the
/// program counter moves on, a misaligned target halting with its fault.
pub open spec fn sim_step_post(old: System, new: System, r: Result<(), HaltType>) -> bool {
    if old.locked_up {
        (r matches Err(h) && h is lockup) && new == old
    } else {
        exists|s1: System, sr: Result<i32, ArmException>| #[trigger] step_post(old, s1, sr) && match sr {
            Ok(off) => exists|s2: System, c: Option<u32>| #[trigger] check_post(s1, s2, c) && match c {
                Some(_) => r is Ok && new == s2,
                None => exists|pr: Result<(), ArmException>| #[trigger] offset_post(s2, new, off, pr) && match pr {
                    Ok(_) => r is Ok,
                    Err(ex) => r == Err::<(), HaltType>(HaltType::error(ex)),
                },
            },
            Err(e) => r is Ok && register_post(s1, new, e),
        }
    }
}

impl Simulator {
    /// Runs one instruction of `sys`, and takes the exceptions it raised;
    /// a failure of the instruction is registered as a pending exception.
    pub fn step_or_signal_halt(sys: &mut System) -> (r: Result<(), HaltType>)
        requires
            sim_step_defined(*old(sys), false),
        ensures
            sim_step_post(*old(sys), *final(sys), r),
    {
        Self::run_step(sys, false)
    }

    /// Records `err` as pending and takes the exception of highest priority
    /// where it preempts.
    pub fn register_exceptions(sys: &mut System, err: ArmException)
        requires
            register_defined(*old(sys), err),
        ensures
            register_post(*old(sys), *final(sys), err),
    {
        let ghost s0 = *sys;
        sys.set_exc_pending(err);
        let ghost s1 = *sys;
        proof {
            assert(pending_set(s0, s1, exception_number(err)));
        }
        let c = sys.check_for_exceptions();
        proof {
            assert(check_post(s1, *sys, c));
        }
    }

    /// Runs one instruction of `sys`, and takes the exceptions it raised;
    /// the instruction may fail with a HardFault only.
    pub fn step_or_signal_halt_type(sys: &mut System) -> (r: Result<(), HaltType>)
        requires
            sim_step_defined(*old(sys), true),
        ensures
            sim_step_post(*old(sys), *final(sys), r),
    {
        Self::run_step(sys, true)
    }

    fn run_step(sys: &mut System, faults_only: bool) -> (r: Result<(), HaltType>)
        requires
            sim_step_defined(*old(sys), faults_only),
        ensures
            sim_step_post(*old(sys), *final(sys), r),
    {
        if sys.is_locked_up() {
            return Err(HaltType::lockup);
        }
        let ghost s0 = *sys;
        let sr = sys.step();
        let ghost s1 = *sys;
        proof {
            assert(step_post(s0, s1, sr));
        }
        match sr {
            Ok(offset) => {
                let c = sys.check_for_exceptions();
                let ghost s2 = *sys;
                proof {
                    assert(check_post(s1, s2, c));
                }
                if c.is_none() {
                    let pr = sys.offset_pc(offset);
                    proof {
                        assert(offset_post(s2, *sys, offset, pr));
                    }
                    match pr {
                        Ok(_) => Ok(()),
                        Err(ex) => Err(HaltType::error(ex)),
                    }
                } else {
                    Ok(())
                }
            },
            Err(e) => {
                Self::register_exceptions(sys, e);
                Ok(())
            },
        }
    }
}

/// A request to the simulator loop.
#[allow(non_camel_case_types)]
#[derive(Clone, Debug)]
pub enum DebugRequest {
    Halt(HaltType),
    Continue,
    Step,
    Disconnect,
    Reset,
    CreateBreakpoint(u32),
    DeleteBreakpoint(u32),
    ClearBreakpoints,
}

/// What the simulator loop does next: wait for a request, run on, stop and
/// report why, or close its channel.
#[derive(Clone, Debug)]
pub enum LoopAction {
    Wait,
    Run,
    Stop(HaltType),
    Close,
}

/// Whether the loop can serve `req` on `s`, while it waits or while it
/// runs: a step, a halt that the user did not ask for while it waits, and
/// a request to run on while it runs are refused; a reset needs reset
/// values it can read.
pub open spec fn request_served(s: System, req: DebugRequest, running: bool) -> bool {
    match req {
        DebugRequest::Step => false,
        DebugRequest::Continue => !running,
        DebugRequest::Halt(h) => running || h is usercmd,
        DebugRequest::Reset => reset_defined(s),
        _ => true,
    }
}

/// `new` is `old` after the loop served `req`, and `a` is what it does
/// next: a reset or a halt stops it, a change of breakpoints leaves it
/// waiting or running, a disconnect closes it and a continue runs it.
pub open spec fn request_post(old: System, new: System, req: DebugRequest, running: bool, a: LoopAction) -> bool {
    let go_on = if running {
        LoopAction::Run
    } else {
        LoopAction::Wait
    };
    match req {
        DebugRequest::Reset => reset_post(old, new) && a == LoopAction::Stop(HaltType::usercmd),
        DebugRequest::Halt(h) => new == old && a == LoopAction::Stop(h),
        DebugRequest::CreateBreakpoint(x) => {
            &&& new == (System { breakpoints: new.breakpoints, ..old })
            &&& new.breakpoints@ == breakpoint_added(old.breakpoints@, x)
            &&& a == go_on
        },
        DebugRequest::DeleteBreakpoint(x) => {
            &&& new == (System { breakpoints: new.breakpoints, ..old })
            &&& new.breakpoints@ == old.breakpoints@.filter(other_than(x))
            &&& a == go_on
        },
        DebugRequest::ClearBreakpoints => {
            &&& new == (System { breakpoints: new.breakpoints, ..old })
            &&& new.breakpoints@ == Seq::<usize>::empty()
            &&& a == go_on
        },
        DebugRequest::Disconnect => new == old && a == LoopAction::Close,
        DebugRequest::Continue => new == old && a == LoopAction::Run,
        DebugRequest::Step => false,
    }
}

impl Simulator {
    /// Serves `req` on `sys`, the loop waiting (`running` false) or running
    /// freely; gives what the loop does next.
    pub fn serve_request(sys: &mut System, req: DebugRequest, running: bool) -> (a: LoopAction)
        requires
            request_served(*old(sys), req, running),
        ensures
            request_post(*old(sys), *final(sys), req, running, a),
    {
        let go_on = if running {
            LoopAction::Run
        } else {
            LoopAction::Wait
        };
        match req {
            DebugRequest::Reset => {
                sys.reset();
                LoopAction::Stop(HaltType::usercmd)
            },
            DebugRequest::Halt(h) => LoopAction::Stop(h),
            DebugRequest::CreateBreakpoint(addr) => {
                sys.add_breakpoint(addr);
                go_on
            },
            DebugRequest::DeleteBreakpoint(addr) => {
                sys.remove_breakpoint(addr);
                go_on
            },
            DebugRequest::ClearBreakpoints => {
                sys.clear_breakpoints();
                go_on
            },
            DebugRequest::Disconnect => LoopAction::Close,
            DebugRequest::Continue => LoopAction::Run,
            DebugRequest::Step => LoopAction::Wait,
        }
    }

    /// One step of a free run of `sys`: the run stops on a breakpoint, or
    /// with the reason the step halted.
    pub fn continue_step(sys: &mut System) -> (a: LoopAction)
        requires
            sim_step_defined(*old(sys), true),
        ensures
            exists|r: Result<(), HaltType>| #[trigger] sim_step_post(*old(sys), *final(sys), r) && match r {
                Ok(_) => a == (if final(sys).breakpoints@.contains(final(sys).registers.pc) {
                    LoopAction::Stop(HaltType::breakpoint)
                } else {
                    LoopAction::Run
                }),
                Err(h) => a == LoopAction::Stop(h),
            },
    {
        let r = Self::step_or_signal_halt_type(sys);
        match r {
            Ok(_) => {
                if sys.on_breakpoint() {
                    LoopAction::Stop(HaltType::breakpoint)
                } else {
                    LoopAction::Run
                }
            },
            Err(e) => LoopAction::Stop(e),
        }
    }
}

} // verus!
