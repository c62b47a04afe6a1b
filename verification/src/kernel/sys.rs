//! System calls: decoding an `ecall` from a U-mode task and deciding how the
//! trap returns.
use vstd::prelude::*;
use vstd::string::*;
use crate::arch::riscv64::cpu::{
    lemma_worker_mstatus, synthesize_mstatus_for_mret_worker, worker_mstatus, MSTATUS_MIE,
    MSTATUS_MPP, MSTATUS_MPP_U,
};
use crate::kernel::cpu::{self, Cpu};
use crate::kernel::ipc;

use crate::kernel::log::{self, log_line};
use crate::kernel::memory::{self, in_user_text, Layout};
use crate::kernel::state::{emit, task_set, Kernel};
use crate::kernel::task::fault::{self, user_fault_switched};
use crate::kernel::task::scheduler::{
    self, dispatched_task, is_fresh, join_reap_noted, noted, switched, DispatchAction,
};
use crate::kernel::task::table::{
    self, blocked_task, id_local, next_dispatchable_spec, preempted_task, resume_frame_safe,
    wake_step, BlockReason, Task, TaskId, TaskReturnKind, TaskState, TaskTable,
};
use crate::kernel::trap_frame::{Riscv64TrapFrame, TrapImage};

verus! {

pub const SYS_YIELD: u64 = 0;

pub const SYS_SLEEP: u64 = 1;

pub const SYS_EXIT: u64 = 2;

pub const SYS_LOG: u64 = 3;

pub const SYS_SPAWN: u64 = 4;

pub const SYS_JOIN: u64 = 5;

pub const SYS_SEND: u64 = 6;

pub const SYS_RECV: u64 = 7;

pub const SYS_GETTID: u64 = 8;

/// The machine CSRs a trap handler reads on entry.
#[derive(Clone, Copy, Debug)]
pub struct TrapCsrs {
    pub mepc: u64,
    pub mstatus: u64,
    pub mcause: u64,
    pub mtval: u64,
}

/// Where an `mret` back into the calling task goes.
#[derive(Clone, Copy, Debug)]
pub struct Resume {
    pub mepc: u64,
    pub mstatus: u64,
}

/// How the trap ends after a system call. Every variant that carries a
/// [`Resume`] returns to the caller with the trap frame as the call left it.
#[derive(Debug)]
pub enum EcallAction {
    /// Return to the caller.
    Return(Resume),
    /// Write `len` bytes of the caller's memory at `ptr` to the console, then
    /// return to the caller.
    Log { ptr: u64, len: u64, resume: Resume },
    /// Copy `len` bytes from `src` to `dst` (both task stacks), then return
    /// to the caller.
    CopyUser { src: u64, dst: u64, len: u64, resume: Resume },
    /// Write the first `len` bytes of `bytes` to `dst` on the caller's stack,
    /// then return to the caller.
    WriteUser { bytes: [u8; 32], dst: u64, len: u64, resume: Resume },
    /// Read `len` bytes at `ptr` on the stack of the blocked sender `id` and
    /// store them with [`ipc::store_pending`], then leave as `then` says.
    StorePending { id: TaskId, ptr: u64, len: u8, then: DispatchAction },
    /// Leave the trap as the scheduler decided.
    Switch(DispatchAction),
}

/// The instruction after the `ecall` at `mepc`.
pub open spec fn after_ecall(mepc: u64) -> u64 {
    ((mepc as int + 4) % 0x1_0000_0000_0000_0000) as u64
}

/// The return into the caller of the `ecall` the CSRs describe.
pub open spec fn resume_of(csrs: TrapCsrs) -> Resume {
    Resume { mepc: after_ecall(csrs.mepc), mstatus: worker_mstatus(csrs.mstatus) }
}

/// The image that resumes the caller after its `ecall`.
pub open spec fn caller_image(frame: Riscv64TrapFrame, csrs: TrapCsrs) -> TrapImage {
    TrapImage { gpr: frame, mepc: after_ecall(csrs.mepc), mstatus: csrs.mstatus }
}

/// The hart stops after logging `message` as a failure.
pub open spec fn halted_with(
    old_k: &Kernel,
    new_k: &Kernel,
    scope: Seq<u8>,
    message: Seq<u8>,
    r: EcallAction,
) -> bool {
    &&& r == EcallAction::Switch(DispatchAction::Halt)
    &&& *new_k == Kernel { out: new_k.out, ..*old_k }
    &&& new_k.out@ == old_k.out@ + log_line("FAIL".spec_bytes(), scope, message)
}

/// The effect of an illegal system call: it is logged and the caller is
/// treated as a faulting task.
pub open spec fn illegal_effect(old_k: &Kernel, new_k: &Kernel, csrs: TrapCsrs, r: EcallAction) -> bool {
    &&& r is Switch
    &&& exists|k1: Kernel|
        #[trigger] user_fault_switched(&k1, new_k, csrs.mcause, csrs.mepc, csrs.mtval, r->Switch_0)
            && k1 == (Kernel { out: k1.out, ..*old_k }) && k1.out@ == old_k.out@ + log_line(
            "FAIL".spec_bytes(),
            "sys".spec_bytes(),
            "illegal ecall".spec_bytes(),
        )
}

/// `[ptr, ptr + len)` lies in the current task's stack.
pub open spec fn user_stack_buffer(cpu: Cpu, ptr: u64, len: u64) -> bool {
    &&& ptr + len <= u64::MAX
    &&& ptr >= cpu.current_stack_start
    &&& ptr + len <= cpu.current_stack_top
    &&& cpu.current_stack_top > cpu.current_stack_start
}

/// `[ptr, ptr + len)` lies in the current task's stack or in `.rodata`.
pub open spec fn user_buffer(cpu: Cpu, layout: Layout, ptr: u64, len: u64) -> bool {
    ||| user_stack_buffer(cpu, ptr, len)
    ||| (ptr + len <= u64::MAX && ptr >= layout.rodata_start && ptr + len <= layout.rodata_end)
}

/// The image that resumes the caller after its `ecall`.
pub fn trap_image_after_ecall(frame: &Riscv64TrapFrame, csrs: TrapCsrs) -> (r: TrapImage)
    ensures
        r == caller_image(*frame, csrs),
{
    TrapImage::from_frame(frame, csrs.mepc.wrapping_add(4), csrs.mstatus)
}

/// Return to the caller after its `ecall`.
pub fn resume_after_ecall(csrs: TrapCsrs) -> (r: Resume)
    ensures
        r == resume_of(csrs),
{
    Resume {
        mepc: csrs.mepc.wrapping_add(4),
        mstatus: synthesize_mstatus_for_mret_worker(csrs.mstatus),
    }
}

/// Return `a0` to the caller.
pub fn same_frame_return_a0(frame: &mut Riscv64TrapFrame, a0: u64, csrs: TrapCsrs) -> (r: EcallAction)
    ensures
        *final(frame) == (Riscv64TrapFrame { a0, ..*old(frame) }),
        r == EcallAction::Return(resume_of(csrs)),
{
    frame.a0 = a0;
    EcallAction::Return(resume_after_ecall(csrs))
}

/// Return `a0` and `a1` to the caller.
pub fn same_frame_return_a0_a1(frame: &mut Riscv64TrapFrame, a0: u64, a1: u64, csrs: TrapCsrs) -> (r:
    EcallAction)
    ensures
        *final(frame) == (Riscv64TrapFrame { a0, a1, ..*old(frame) }),
        r == EcallAction::Return(resume_of(csrs)),
{
    frame.a0 = a0;
    frame.a1 = a1;
    EcallAction::Return(resume_after_ecall(csrs))
}

/// An illegal system call: log it and fault the caller.
pub fn illegal_syscall(k: &mut Kernel, csrs: TrapCsrs) -> (r: EcallAction)
    requires
        old(k).wf(),
    ensures
        final(k).wf(),
        illegal_effect(old(k), final(k), csrs, r),
{
    emit(k, log::fail("sys", "illegal ecall"));
    let ghost k1 = *k;
    let d = fault::record_and_switch_user_fault(k, csrs.mcause, csrs.mepc, csrs.mtval);
    assert(user_fault_switched(&k1, &*k, csrs.mcause, csrs.mepc, csrs.mtval, d));
    EcallAction::Switch(d)
}

/// `[ptr, ptr + len)` lies in the current task's stack.
pub fn user_stack_buffer_ok(cpu: &Cpu, ptr: u64, len: u64) -> (r: bool)
    ensures
        r == user_stack_buffer(*cpu, ptr, len),
{
    let end = match ptr.checked_add(len) {
        Some(e) => e,
        None => {
            return false;
        },
    };
    let stack_start = cpu::current_stack_start(cpu);
    let stack_top = cpu::current_stack_top(cpu);
    ptr >= stack_start && end <= stack_top && stack_top > stack_start
}

/// `[ptr, ptr + len)` lies in the current task's stack or in `.rodata`.
pub fn user_buffer_ok(cpu: &Cpu, layout: &Layout, ptr: u64, len: u64) -> (r: bool)
    ensures
        r == user_buffer(*cpu, *layout, ptr, len),
{
    if user_stack_buffer_ok(cpu, ptr, len) {
        return true;
    }
    let end = match ptr.checked_add(len) {
        Some(e) => e,
        None => {
            return false;
        },
    };
    ptr >= memory::rodata_start(layout) && end <= memory::rodata_end(layout)
}

/// Effect of `gettid`: the caller's id in `a0`.
pub open spec fn gettid_effect(
    old_k: &Kernel,
    new_k: &Kernel,
    old_f: Riscv64TrapFrame,
    new_f: Riscv64TrapFrame,
    csrs: TrapCsrs,
    r: EcallAction,
) -> bool {
    match old_k.cpu.current {
        None => halted_with(
            old_k,
            new_k,
            "sys".spec_bytes(),
            "gettid with no current task".spec_bytes(),
            r,
        ) && new_f == old_f,
        Some(id) => *new_k == *old_k && new_f == (Riscv64TrapFrame { a0: id.0, ..old_f }) && r
            == EcallAction::Return(resume_of(csrs)),
    }
}

pub fn sys_gettid(k: &mut Kernel, frame: &mut Riscv64TrapFrame, csrs: TrapCsrs) -> (r: EcallAction)
    requires
        old(k).wf(),
    ensures
        final(k).wf(),
        gettid_effect(old(k), final(k), *old(frame), *final(frame), csrs, r),
{
    let id = match cpu::current(&k.cpu) {
        Some(id) => id,
        None => {
            emit(k, log::fail("sys", "gettid with no current task"));
            return EcallAction::Switch(DispatchAction::Halt);
        },
    };
    same_frame_return_a0(frame, id.0, csrs)
}

/// The id a spawn returns in `a0`: the new task's, or `u64::MAX`.
pub open spec fn spawn_result(r: Option<TaskId>) -> u64 {
    match r {
        Some(id) => id.0,
        None => u64::MAX,
    }
}

/// Effect of `spawn(entry_pc = a0, arg = a1)`: an entry outside `.usertext`
/// is illegal; otherwise a U-mode task is spawned and its id (or
/// `u64::MAX`) returned in `a0`.
pub open spec fn spawn_effect(
    old_k: &Kernel,
    new_k: &Kernel,
    old_f: Riscv64TrapFrame,
    new_f: Riscv64TrapFrame,
    csrs: TrapCsrs,
    r: EcallAction,
) -> bool {
    if !in_user_text(old_k.layout, old_f.a0) {
        illegal_effect(old_k, new_k, csrs, r) && new_f == old_f
    } else {
        &&& new_k.wf()
        &&& *new_k == Kernel { table: new_k.table, mm: new_k.mm, ..*old_k }
        &&& exists|sr: Option<TaskId>|
            #[trigger] table::spawned(
                &old_k.table,
                &new_k.table,
                old_k.mm@,
                new_k.mm@,
                table::user_task_name(old_k.table.hart_id()),
                old_f.a0,
                old_f.a1,
                sr,
            ) && new_f == (Riscv64TrapFrame { a0: spawn_result(sr), ..old_f })
        &&& r == EcallAction::Return(resume_of(csrs))
    }
}

pub fn sys_spawn(k: &mut Kernel, frame: &mut Riscv64TrapFrame, csrs: TrapCsrs) -> (r: EcallAction)
    requires
        old(k).wf(),
    ensures
        final(k).wf(),
        spawn_effect(old(k), final(k), *old(frame), *final(frame), csrs, r),
{
    let entry_pc = frame.a0;
    let arg = frame.a1;
    if !memory::is_inside_user_text(&k.layout, entry_pc) {
        return illegal_syscall(k, csrs);
    }
    let sr = table::spawn_user(&mut k.table, &mut k.mm, entry_pc, arg);
    let tid = match sr {
        Some(id) => id.0,
        None => u64::MAX,
    };
    same_frame_return_a0(frame, tid, csrs)
}

/// Effect of `log(ptr = a0, len = a1)`: a buffer outside the caller's stack
/// and `.rodata` is illegal; otherwise its bytes go to the console.
pub open spec fn log_effect(
    old_k: &Kernel,
    new_k: &Kernel,
    old_f: Riscv64TrapFrame,
    new_f: Riscv64TrapFrame,
    csrs: TrapCsrs,
    r: EcallAction,
) -> bool {
    &&& new_f == old_f
    &&& if !user_buffer(old_k.cpu, old_k.layout, old_f.a0, old_f.a1) {
        illegal_effect(old_k, new_k, csrs, r)
    } else {
        *new_k == *old_k && r == (EcallAction::Log {
            ptr: old_f.a0,
            len: old_f.a1,
            resume: resume_of(csrs),
        })
    }
}

pub fn sys_log(k: &mut Kernel, frame: &Riscv64TrapFrame, csrs: TrapCsrs) -> (r: EcallAction)
    requires
        old(k).wf(),
    ensures
        final(k).wf(),
        log_effect(old(k), final(k), *frame, *frame, csrs, r),
{
    if !user_buffer_ok(&k.cpu, &k.layout, frame.a0, frame.a1) {
        return illegal_syscall(k, csrs);
    }
    EcallAction::Log { ptr: frame.a0, len: frame.a1, resume: resume_after_ecall(csrs) }
}

/// Effect of `yield`: the caller is saved Ready to resume after its `ecall`
/// and the next dispatchable task after it runs.
pub open spec fn yield_effect(
    old_k: &Kernel,
    new_k: &Kernel,
    frame: Riscv64TrapFrame,
    csrs: TrapCsrs,
    r: EcallAction,
) -> bool {
    match old_k.cpu.current {
        None => halted_with(
            old_k,
            new_k,
            "sys".spec_bytes(),
            "yield with no current task".spec_bytes(),
            r,
        ),
        Some(id) => exists|k1: Kernel, k2: Kernel|
            #![trigger noted(&k1, &k2, TaskReturnKind::Yield)]
            {
                &&& match old_k.table.slot_of(id) {
                    Some(task) => task_set(
                        old_k,
                        &k1,
                        id_local(id),
                        preempted_task(task, caller_image(frame, csrs)),
                    ),
                    None => k1 == *old_k,
                }
                &&& noted(&k1, &k2, TaskReturnKind::Yield)
                &&& r is Switch
                &&& switched(
                    &k2,
                    new_k,
                    next_dispatchable_spec(&k2.table, k2.layout, Some(id)),
                    r->Switch_0,
                )
            },
    }
}

pub fn sys_yield(k: &mut Kernel, frame: &Riscv64TrapFrame, csrs: TrapCsrs) -> (r: EcallAction)
    requires
        old(k).wf(),
    ensures
        final(k).wf(),
        yield_effect(old(k), final(k), *frame, csrs, r),
{
    let id = match cpu::current(&k.cpu) {
        Some(id) => id,
        None => {
            emit(k, log::fail("sys", "yield with no current task"));
            return EcallAction::Switch(DispatchAction::Halt);
        },
    };
    let image = trap_image_after_ecall(frame, csrs);
    let _ = table::save_preempted_trap_image(&mut k.table, id, &image);
    let ghost k1 = *k;
    scheduler::note_default_image_return(k, TaskReturnKind::Yield);
    let ghost k2 = *k;
    let d = scheduler::switch_after(k, Some(id));
    assert(noted(&k1, &k2, TaskReturnKind::Yield));
    EcallAction::Switch(d)
}

/// The tick a sleep of `ticks` from `now` wakes at: at least one tick later,
/// saturating.
pub open spec fn sleep_until(now: u64, ticks: u64) -> u64 {
    let d: int = if ticks == 0 {
        1
    } else {
        ticks as int
    };
    if now + d > u64::MAX {
        u64::MAX
    } else {
        (now + d) as u64
    }
}

/// Effect of `sleep(ticks = a0)`: the caller blocks until the wake tick with
/// its resume image saved, and the next dispatchable task after it runs.
pub open spec fn sleep_effect(
    old_k: &Kernel,
    new_k: &Kernel,
    frame: Riscv64TrapFrame,
    csrs: TrapCsrs,
    r: EcallAction,
) -> bool {
    match old_k.cpu.current {
        None => halted_with(
            old_k,
            new_k,
            "sys".spec_bytes(),
            "sleep with no current task".spec_bytes(),
            r,
        ),
        Some(id) => match old_k.table.slot_of(id) {
            None => halted_with(
                old_k,
                new_k,
                "sys".spec_bytes(),
                "sleep mark blocked failed".spec_bytes(),
                r,
            ),
            Some(task) => exists|k1: Kernel, k2: Kernel|
                #![trigger noted(&k1, &k2, TaskReturnKind::Sleep)]
                {
                    &&& task_set(
                        old_k,
                        &k1,
                        id_local(id),
                        blocked_task(
                            Task { trap_image: Some(caller_image(frame, csrs)), ..task },
                            TaskReturnKind::Sleep,
                            BlockReason::SleepUntil(sleep_until(old_k.ticks.count, frame.a0)),
                        ),
                    )
                    &&& noted(&k1, &k2, TaskReturnKind::Sleep)
                    &&& r is Switch
                    &&& switched(
                        &k2,
                        new_k,
                        next_dispatchable_spec(&k2.table, k2.layout, Some(id)),
                        r->Switch_0,
                    )
                },
        },
    }
}

pub fn sys_sleep(k: &mut Kernel, frame: &Riscv64TrapFrame, csrs: TrapCsrs) -> (r: EcallAction)
    requires
        old(k).wf(),
    ensures
        final(k).wf(),
        sleep_effect(old(k), final(k), *frame, csrs, r),
{
    let id = match cpu::current(&k.cpu) {
        Some(id) => id,
        None => {
            emit(k, log::fail("sys", "sleep with no current task"));
            return EcallAction::Switch(DispatchAction::Halt);
        },
    };
    let ghost k0 = *k;
    let image = trap_image_after_ecall(frame, csrs);
    let _ = table::set_task_trap_image(&mut k.table, id, &image);
    let ticks = frame.a0;
    let delay = if ticks == 0 {
        1
    } else {
        ticks
    };
    let wake_tick = crate::kernel::ticks::get(&k.ticks).saturating_add(delay);
    proof {
        k0.table.lemma_wf_bounds();
        if k0.table.slot_of(id) is Some {
            assert(k.table.tasks()[id_local(id)].id == id);
        }
    }
    if !table::mark_task_blocked_until(&mut k.table, id, wake_tick) {
        emit(k, log::fail("sys", "sleep mark blocked failed"));
        return EcallAction::Switch(DispatchAction::Halt);
    }
    let ghost k1 = *k;
    proof {
        k0.table.lemma_wf_bounds();
        let l = id_local(id);
        let task = k0.table.slot_of(id)->Some_0;
        assert(k1.table.tasks() =~= k0.table.tasks().update(
            l,
            blocked_task(
                Task { trap_image: Some(caller_image(*frame, csrs)), ..task },
                TaskReturnKind::Sleep,
                BlockReason::SleepUntil(sleep_until(k0.ticks.count, frame.a0)),
            ),
        ));
    }
    scheduler::note_default_image_return(k, TaskReturnKind::Sleep);
    let ghost k2 = *k;
    let d = scheduler::switch_after(k, Some(id));
    assert(noted(&k1, &k2, TaskReturnKind::Sleep));
    EcallAction::Switch(d)
}

/// Effect of `exit`: the caller is Finished, its peers are told (see
/// [`ipc::peer_exited`]), and the next dispatchable task after it runs.
pub open spec fn exit_effect(old_k: &Kernel, new_k: &Kernel, r: EcallAction) -> bool {
    match old_k.cpu.current {
        None => halted_with(
            old_k,
            new_k,
            "sys".spec_bytes(),
            "exit with no current task".spec_bytes(),
            r,
        ),
        Some(id) => exists|k1: Kernel, k2: Kernel, k3: Kernel|
            #![trigger noted(&k1, &k2, TaskReturnKind::Exit), ipc::peer_exited(&k2, &k3, id)]
            {
                &&& match old_k.table.slot_of(id) {
                    Some(task) => task_set(old_k, &k1, id_local(id), table::finished_task(task)),
                    None => k1 == *old_k,
                }
                &&& noted(&k1, &k2, TaskReturnKind::Exit)
                &&& ipc::peer_exited(&k2, &k3, id)
                &&& k3.wf()
                &&& r is Switch
                &&& switched(
                    &Kernel { cpu: Cpu { current: None, ..k3.cpu }, ..k3 },
                    new_k,
                    next_dispatchable_spec(&k3.table, k3.layout, Some(id)),
                    r->Switch_0,
                )
            },
    }
}

pub fn sys_exit(k: &mut Kernel) -> (r: EcallAction)
    requires
        old(k).wf(),
    ensures
        final(k).wf(),
        exit_effect(old(k), final(k), r),
{
    let id = match cpu::current(&k.cpu) {
        Some(id) => id,
        None => {
            emit(k, log::fail("sys", "exit with no current task"));
            return EcallAction::Switch(DispatchAction::Halt);
        },
    };
    let _ = table::mark_task_finished(&mut k.table, id);
    let ghost k1 = *k;
    scheduler::note_default_image_return(k, TaskReturnKind::Exit);
    let ghost k2 = *k;
    ipc::on_peer_exit(k, id);
    let ghost k3 = *k;
    cpu::clear_current(&mut k.cpu);
    let d = scheduler::switch_after(k, Some(id));
    assert(noted(&k1, &k2, TaskReturnKind::Exit));
    assert(ipc::peer_exited(&k2, &k3, id));
    EcallAction::Switch(d)
}

/// Effect of `join(target = a0)`.
///
/// Joining itself is illegal. A target that has exited is reaped and its exit
/// status (0 finished, 1 faulted) returned; a target that does not exist, or
/// that another task already joins, returns `u64::MAX`; otherwise the caller
/// blocks until the target exits and the next task runs.
pub open spec fn join_effect(
    old_k: &Kernel,
    new_k: &Kernel,
    old_f: Riscv64TrapFrame,
    new_f: Riscv64TrapFrame,
    csrs: TrapCsrs,
    r: EcallAction,
) -> bool {
    match old_k.cpu.current {
        None => halted_with(
            old_k,
            new_k,
            "sys".spec_bytes(),
            "join with no current task".spec_bytes(),
            r,
        ) && new_f == old_f,
        Some(self_id) => {
            let target = TaskId(old_f.a0);
            if target == self_id {
                illegal_effect(old_k, new_k, csrs, r) && new_f == old_f
            } else {
                match table::join_status_of(&old_k.table, target) {
                    Some(status) => {
                        &&& new_k.wf()
                        &&& *new_k == Kernel {
                            table: new_k.table,
                            mm: new_k.mm,
                            markers: new_k.markers,
                            out: new_k.out,
                            ..*old_k
                        }
                        &&& table::reaped(&old_k.table, &new_k.table, old_k.mm@, new_k.mm@, target)
                        &&& exists|nb: Seq<u8>|
                            #[trigger] join_reap_noted(old_k.markers, new_k.markers, new_k.mm@, nb)
                                && new_k.out@ == old_k.out@ + nb
                        &&& new_f == (Riscv64TrapFrame { a0: status, ..old_f })
                        &&& r == EcallAction::Return(resume_of(csrs))
                    },
                    None => if old_k.table.slot_of(target) is None || exists|j: int|
                        0 <= j < old_k.table.capacity() && table::waits_join(
                            #[trigger] old_k.table.tasks()[j],
                            target,
                        ) {
                        *new_k == *old_k && new_f == (Riscv64TrapFrame { a0: u64::MAX, ..old_f })
                            && r == EcallAction::Return(resume_of(csrs))
                    } else {
                        &&& new_f == old_f
                        &&& match old_k.table.slot_of(self_id) {
                            None => halted_with(
                                old_k,
                                new_k,
                                "sys".spec_bytes(),
                                "join mark blocked failed".spec_bytes(),
                                r,
                            ),
                            Some(me) => r is Switch && exists|k1: Kernel|
                                #[trigger] task_set(
                                    old_k,
                                    &k1,
                                    id_local(self_id),
                                    blocked_task(
                                        Task { trap_image: Some(caller_image(old_f, csrs)), ..me },
                                        TaskReturnKind::Join,
                                        BlockReason::Join(target),
                                    ),
                                ) && switched(
                                    &k1,
                                    new_k,
                                    next_dispatchable_spec(&k1.table, k1.layout, Some(self_id)),
                                    r->Switch_0,
                                ),
                        }
                    },
                }
            }
        },
    }
}

pub fn sys_join(k: &mut Kernel, frame: &mut Riscv64TrapFrame, csrs: TrapCsrs) -> (r: EcallAction)
    requires
        old(k).wf(),
    ensures
        final(k).wf(),
        join_effect(old(k), final(k), *old(frame), *final(frame), csrs, r),
{
    let self_id = match cpu::current(&k.cpu) {
        Some(id) => id,
        None => {
            emit(k, log::fail("sys", "join with no current task"));
            return EcallAction::Switch(DispatchAction::Halt);
        },
    };
    let target = TaskId(frame.a0);
    if target == self_id {
        return illegal_syscall(k, csrs);
    }
    let ghost k0 = *k;
    proof {
        k0.table.lemma_wf_bounds();
    }
    match table::join_status(&k.table, target) {
        Some(status) => {
            let reaped = table::destroy(&mut k.table, &mut k.mm, target);
            assert(reaped);
            let bytes = scheduler::note_join_reap(&mut k.markers, &k.mm);
            let ghost nb = bytes@;
            emit(k, bytes);
            assert(join_reap_noted(k0.markers, k.markers, k.mm@, nb));
            return same_frame_return_a0(frame, status, csrs);
        },
        None => {},
    }
    if table::get_task_state(&k.table, target).is_none() {
        return same_frame_return_a0(frame, u64::MAX, csrs);
    }
    if table::has_join_waiter(&k.table, target) {
        return same_frame_return_a0(frame, u64::MAX, csrs);
    }
    let image = trap_image_after_ecall(frame, csrs);
    let _ = table::set_task_trap_image(&mut k.table, self_id, &image);
    proof {
        if k0.table.slot_of(self_id) is Some {
            assert(k.table.tasks()[id_local(self_id)].id == self_id);
        }
    }
    if !table::mark_task_blocked_join(&mut k.table, self_id, target) {
        emit(k, log::fail("sys", "join mark blocked failed"));
        return EcallAction::Switch(DispatchAction::Halt);
    }
    let ghost k1 = *k;
    let ghost me = k0.table.slot_of(self_id)->Some_0;
    let ghost blocked = blocked_task(
        Task { trap_image: Some(caller_image(*frame, csrs)), ..me },
        TaskReturnKind::Join,
        BlockReason::Join(target),
    );
    assert(k1.table.tasks() =~= k0.table.tasks().update(id_local(self_id), blocked));
    let d = scheduler::switch_after(k, Some(self_id));
    assert(task_set(&k0, &k1, id_local(self_id), blocked));
    EcallAction::Switch(d)
}

/// The effect of the system call a U-mode task made with number `a7`.
pub open spec fn ecall_effect(
    old_k: &Kernel,
    new_k: &Kernel,
    old_f: Riscv64TrapFrame,
    new_f: Riscv64TrapFrame,
    csrs: TrapCsrs,
    r: EcallAction,
) -> bool {
    let nr = old_f.a7;
    if nr == SYS_YIELD {
        yield_effect(old_k, new_k, old_f, csrs, r) && new_f == old_f
    } else if nr == SYS_SLEEP {
        sleep_effect(old_k, new_k, old_f, csrs, r) && new_f == old_f
    } else if nr == SYS_EXIT {
        exit_effect(old_k, new_k, r) && new_f == old_f
    } else if nr == SYS_LOG {
        log_effect(old_k, new_k, old_f, new_f, csrs, r)
    } else if nr == SYS_SPAWN {
        spawn_effect(old_k, new_k, old_f, new_f, csrs, r)
    } else if nr == SYS_JOIN {
        join_effect(old_k, new_k, old_f, new_f, csrs, r)
    } else if nr == SYS_SEND {
        ipc::send_effect(old_k, new_k, old_f, new_f, csrs, r)
    } else if nr == SYS_RECV {
        ipc::recv_spec(old_k, new_k, old_f, new_f, csrs, r)
    } else if nr == SYS_GETTID {
        gettid_effect(old_k, new_k, old_f, new_f, csrs, r)
    } else {
        illegal_effect(old_k, new_k, csrs, r) && new_f == old_f
    }
}

/// Serve the `ecall` of the current U-mode task: the number is in `a7`, the
/// arguments in `a0..a2`, and results go back in `a0`/`a1`.
pub fn handle_ecall(k: &mut Kernel, frame: &mut Riscv64TrapFrame, csrs: TrapCsrs) -> (r: EcallAction)
    requires
        old(k).wf(),
    ensures
        final(k).wf(),
        ecall_effect(old(k), final(k), *old(frame), *final(frame), csrs, r),
{
    let nr = frame.a7;
    if nr == SYS_YIELD {
        sys_yield(k, frame, csrs)
    } else if nr == SYS_SLEEP {
        sys_sleep(k, frame, csrs)
    } else if nr == SYS_EXIT {
        sys_exit(k)
    } else if nr == SYS_LOG {
        sys_log(k, frame, csrs)
    } else if nr == SYS_SPAWN {
        sys_spawn(k, frame, csrs)
    } else if nr == SYS_JOIN {
        sys_join(k, frame, csrs)
    } else if nr == SYS_SEND {
        ipc::sys_send(k, frame, csrs)
    } else if nr == SYS_RECV {
        ipc::sys_recv(k, frame, csrs)
    } else if nr == SYS_GETTID {
        sys_gettid(k, frame, csrs)
    } else {
        illegal_syscall(k, csrs)
    }
}

/// After a yield, the yielding task's slot holds the image that resumes it
/// right after its `ecall`, and the task counts as resumable, whichever task
/// the yield went on to dispatch.
pub proof fn lemma_yield_saves_caller(
    old_k: &Kernel,
    new_k: &Kernel,
    frame: Riscv64TrapFrame,
    csrs: TrapCsrs,
    r: EcallAction,
    id: TaskId,
)
    requires
        old_k.wf(),
        yield_effect(old_k, new_k, frame, csrs, r),
        old_k.cpu.current == Some(id),
        old_k.table.slot_of(id) is Some,
    ensures
        new_k.table.slot_of(id) matches Some(task) && task.trap_image == Some(caller_image(frame, csrs))
            && task.can_resume,
{
    let l = id_local(id);
    let task = old_k.table.slot_of(id)->Some_0;
    let (k1, k2) = choose|k1: Kernel, k2: Kernel|
        {
            &&& task_set(old_k, &k1, l, preempted_task(task, caller_image(frame, csrs)))
            &&& noted(&k1, &k2, TaskReturnKind::Yield)
            &&& r is Switch
            &&& switched(
                &k2,
                new_k,
                next_dispatchable_spec(&k2.table, k2.layout, Some(id)),
                r->Switch_0,
            )
        };
    old_k.table.lemma_wf_bounds();
    assert(k1.table.tasks()[l] == preempted_task(task, caller_image(frame, csrs)));
    assert(k1.table.slot_of(id) == Some(preempted_task(task, caller_image(frame, csrs))));
    assert(k2.table == k1.table);
    let next = next_dispatchable_spec(&k2.table, k2.layout, Some(id));
    if let Some(n) = next {
        if let Some(tn) = k2.table.slot_of(n) {
            if scheduler::dispatch_image_exists(tn) {
                k2.table.lemma_wf_bounds();
                if id_local(n) == l {
                    assert(new_k.table.tasks()[l] == dispatched_task(tn, is_fresh(tn)));
                } else {
                    assert(new_k.table.tasks()[l] == k2.table.tasks()[l]);
                }
            }
        }
    }
}

/// A yield saves where the task stands: when the scheduler later dispatches
/// the task with its slot as the yield left it, it `mret`s into the saved
/// image, the instruction after the `ecall` with the registers of the call.
pub proof fn lemma_yield_then_dispatch_resumes(
    k0: &Kernel,
    k1: &Kernel,
    frame: Riscv64TrapFrame,
    csrs: TrapCsrs,
    r: EcallAction,
    k2: &Kernel,
    k3: &Kernel,
    d: DispatchAction,
    id: TaskId,
)
    requires
        k0.wf(),
        yield_effect(k0, k1, frame, csrs, r),
        k0.cpu.current == Some(id),
        k0.table.slot_of(id) is Some,
        k2.table.slot_of(id) == k1.table.slot_of(id),
        switched(k2, k3, Some(id), d),
    ensures
        d == DispatchAction::Mret(caller_image(frame, csrs)),
{
    lemma_yield_saves_caller(k0, k1, frame, csrs, r, id);
}

/// After `sleep(ticks)` the caller's slot holds it Blocked until
/// [`sleep_until`] with the image that resumes it right after its `ecall`,
/// whichever task the call went on to dispatch.
pub proof fn lemma_sleep_saves_caller(
    old_k: &Kernel,
    new_k: &Kernel,
    frame: Riscv64TrapFrame,
    csrs: TrapCsrs,
    r: EcallAction,
    id: TaskId,
)
    requires
        old_k.wf(),
        sleep_effect(old_k, new_k, frame, csrs, r),
        old_k.cpu.current == Some(id),
        old_k.table.slot_of(id) is Some,
    ensures
        new_k.table.slot_of(id) == Some(
            blocked_task(
                Task { trap_image: Some(caller_image(frame, csrs)), ..old_k.table.slot_of(id)->Some_0 },
                TaskReturnKind::Sleep,
                BlockReason::SleepUntil(sleep_until(old_k.ticks.count, frame.a0)),
            ),
        ),
{
    let l = id_local(id);
    let task = old_k.table.slot_of(id)->Some_0;
    let slept = blocked_task(
        Task { trap_image: Some(caller_image(frame, csrs)), ..task },
        TaskReturnKind::Sleep,
        BlockReason::SleepUntil(sleep_until(old_k.ticks.count, frame.a0)),
    );
    let (k1, k2) = choose|k1: Kernel, k2: Kernel|
        {
            &&& task_set(old_k, &k1, l, slept)
            &&& noted(&k1, &k2, TaskReturnKind::Sleep)
            &&& r is Switch
            &&& switched(
                &k2,
                new_k,
                next_dispatchable_spec(&k2.table, k2.layout, Some(id)),
                r->Switch_0,
            )
        };
    old_k.table.lemma_wf_bounds();
    assert(k1.table.tasks()[l] == slept);
    assert(k2.table == k1.table);
    let next = next_dispatchable_spec(&k2.table, k2.layout, Some(id));
    if let Some(n) = next {
        if let Some(tn) = k2.table.slot_of(n) {
            if scheduler::dispatch_image_exists(tn) {
                k2.table.lemma_wf_bounds();
                if id_local(n) == l {
                    assert(dispatched_task(tn, is_fresh(tn)) == slept);
                    assert(new_k.table.tasks()[l] == slept);
                } else {
                    assert(new_k.table.tasks()[l] == k2.table.tasks()[l]);
                }
            }
        }
    }
}

/// A task that sleeps is woken by the tick it sleeps until and not before:
/// a wake at an earlier tick leaves it Blocked, a wake at that tick or later
/// makes it Ready, resumable exactly when its saved frame is safe. Once woken,
/// dispatching it `mret`s into the image its `sleep` saved: the instruction
/// after the `ecall`, with the registers of the call.
pub proof fn lemma_sleep_wakes_and_resumes(
    k0: &Kernel,
    k1: &Kernel,
    frame: Riscv64TrapFrame,
    csrs: TrapCsrs,
    r: EcallAction,
    id: TaskId,
    t2: &TaskTable,
    t3: &TaskTable,
    layout: Layout,
    tick: u64,
    woke: int,
    k4: &Kernel,
    k5: &Kernel,
    d: DispatchAction,
)
    requires
        k0.wf(),
        sleep_effect(k0, k1, frame, csrs, r),
        k0.cpu.current == Some(id),
        k0.table.slot_of(id) matches Some(task) && task.has_started,
        t2.wf(),
        t2.slot_of(id) == k1.table.slot_of(id),
        wake_step(t2, t3, layout, tick, woke),
    ensures
        tick < sleep_until(k0.ticks.count, frame.a0) ==> (t3.slot_of(id) matches Some(task)
            && task.state == TaskState::Blocked),
        tick >= sleep_until(k0.ticks.count, frame.a0) ==> (t3.slot_of(id) matches Some(task)
            && task.state == TaskState::Ready && task.trap_image == Some(caller_image(frame, csrs))
            && task.can_resume == resume_frame_safe(task, layout)),
        tick >= sleep_until(k0.ticks.count, frame.a0) && k4.table.slot_of(id) == t3.slot_of(id)
            && switched(k4, k5, Some(id), d) ==> d == DispatchAction::Mret(caller_image(frame, csrs)),
{
    lemma_sleep_saves_caller(k0, k1, frame, csrs, r, id);
    let l = id_local(id);
    t2.lemma_wf_bounds();
    t3.lemma_wf_bounds();
    assert(t3.tasks()[l] == table::wake_all(t2.tasks(), tick, layout)[l]);
}

/// A system call that hands control straight back to its caller resumes it
/// right after its `ecall`.
pub open spec fn resumes_caller(r: EcallAction, csrs: TrapCsrs) -> bool {
    match r {
        EcallAction::Return(res) => res == resume_of(csrs),
        EcallAction::Log { resume, .. } => resume == resume_of(csrs),
        EcallAction::CopyUser { resume, .. } => resume == resume_of(csrs),
        EcallAction::WriteUser { resume, .. } => resume == resume_of(csrs),
        _ => true,
    }
}

/// Every system call that returns to its caller resumes it at the
/// instruction after the `ecall`, in U-mode with interrupts masked until the
/// `mret`.
pub proof fn lemma_ecall_resumes_after_ecall(
    old_k: &Kernel,
    new_k: &Kernel,
    old_f: Riscv64TrapFrame,
    new_f: Riscv64TrapFrame,
    csrs: TrapCsrs,
    r: EcallAction,
)
    requires
        ecall_effect(old_k, new_k, old_f, new_f, csrs, r),
    ensures
        resumes_caller(r, csrs),
        resume_of(csrs).mepc == (csrs.mepc as int + 4) % 0x1_0000_0000_0000_0000,
        resume_of(csrs).mstatus & MSTATUS_MPP == MSTATUS_MPP_U,
        resume_of(csrs).mstatus & MSTATUS_MIE == 0,
{
    lemma_worker_mstatus(csrs.mstatus);
    if old_f.a7 == SYS_RECV {
        match old_k.cpu.current {
            Some(self_id) => if user_stack_buffer(old_k.cpu, old_f.a0, old_f.a1) {
                ipc::lemma_recv_resumes_caller(
                    old_k,
                    new_k,
                    self_id,
                    old_f,
                    new_f,
                    old_f.a0,
                    old_f.a1,
                    csrs,
                    r,
                );
            },
            None => {},
        }
    }
}

} // verus!
