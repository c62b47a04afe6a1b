//! What the hart is running: the current task and its stack bounds, and the
//! kernel stack pointer saved before entering a task.
use vstd::prelude::*;
use vstd::string::*;
use crate::drivers::uart::{self, line_bytes};
use crate::kernel::task::table::TaskId;

verus! {

#[derive(Clone, Copy, Debug, PartialEq, Eq, Structural)]
pub enum TrapExecutionContext {
    Kernel,
    Task,
}

#[derive(Clone, Copy)]
pub struct Cpu {
    pub current: Option<TaskId>,
    pub kernel_sp_before_task: u64,
    pub current_stack_start: u64,
    pub current_stack_top: u64,
}

impl Cpu {
    pub fn new() -> (r: Self)
        ensures
            r.current is None,
            r.kernel_sp_before_task == 0,
            r.current_stack_start == 0,
            r.current_stack_top == 0,
    {
        Self { current: None, kernel_sp_before_task: 0, current_stack_start: 0, current_stack_top: 0 }
    }
}

pub fn current(cpu: &Cpu) -> (r: Option<TaskId>)
    ensures
        r == cpu.current,
{
    cpu.current
}

pub fn set_current(cpu: &mut Cpu, id: TaskId)
    ensures
        *final(cpu) == (Cpu { current: Some(id), ..*old(cpu) }),
{
    cpu.current = Some(id);
}

pub fn clear_current(cpu: &mut Cpu)
    ensures
        *final(cpu) == (Cpu { current: None, ..*old(cpu) }),
{
    cpu.current = None;
}

pub fn trap_execution_context(cpu: &Cpu) -> (r: TrapExecutionContext)
    ensures
        r == if cpu.current is Some {
            TrapExecutionContext::Task
        } else {
            TrapExecutionContext::Kernel
        },
{
    if current(cpu).is_some() {
        TrapExecutionContext::Task
    } else {
        TrapExecutionContext::Kernel
    }
}

/// The console line naming the trap execution context.
pub fn print_trap_execution_context(cpu: &Cpu) -> (r: Vec<u8>)
    ensures
        r@ == if cpu.current is Some {
            line_bytes("trap execution context: task".spec_bytes())
        } else {
            line_bytes("trap execution context: kernel".spec_bytes())
        },
{
    match trap_execution_context(cpu) {
        TrapExecutionContext::Kernel => uart::write_line("trap execution context: kernel"),
        TrapExecutionContext::Task => uart::write_line("trap execution context: task"),
    }
}

pub fn kernel_sp_before_task(cpu: &Cpu) -> (r: u64)
    ensures
        r == cpu.kernel_sp_before_task,
{
    cpu.kernel_sp_before_task
}

pub fn set_kernel_sp_before_task(cpu: &mut Cpu, sp: u64)
    ensures
        *final(cpu) == (Cpu { kernel_sp_before_task: sp, ..*old(cpu) }),
{
    cpu.kernel_sp_before_task = sp;
}

pub fn current_stack_start(cpu: &Cpu) -> (r: u64)
    ensures
        r == cpu.current_stack_start,
{
    cpu.current_stack_start
}

pub fn current_stack_top(cpu: &Cpu) -> (r: u64)
    ensures
        r == cpu.current_stack_top,
{
    cpu.current_stack_top
}

pub fn set_current_stack_bounds(cpu: &mut Cpu, start: u64, top: u64)
    ensures
        *final(cpu) == (Cpu { current_stack_start: start, current_stack_top: top, ..*old(cpu) }),
{
    cpu.current_stack_start = start;
    cpu.current_stack_top = top;
}

} // verus!
