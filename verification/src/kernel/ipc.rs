//! Synchronous message passing between the tasks of a hart: a sender meets a
//! receiver, the payload is copied, and both return.
use vstd::prelude::*;
use vstd::string::*;
use crate::drivers::uart::{self, line_bytes};
use crate::kernel::memory::Layout;
use crate::kernel::cpu;
use crate::kernel::log;
use crate::kernel::state::{emit, task_set, Kernel};
use crate::kernel::sys::{
    self, caller_image, halted_with, illegal_effect, resume_of, user_stack_buffer, EcallAction,
    TrapCsrs,
};
use crate::kernel::trap_frame::{Riscv64TrapFrame, TrapImage};
use crate::kernel::task::scheduler::{self, join_reap_noted, switched, DispatchAction};
use crate::kernel::task::table::{
    self, blocked_task, could_send_to, faulted_task, is_first_with, is_vacant, join_woken, joined_task, next_dispatchable_spec,
    reaped, unblocked_task, waits_send_to, BlockReason, Task, TaskId, TaskReturnKind, TaskState, TaskTable,
};

verus! {

/// Largest message, in bytes.
pub const IPC_PAYLOAD_MAX: u64 = 32;

/// The slots after every task Blocked sending to `target` is released with a
/// failed send (`a0 = u64::MAX`).
pub open spec fn senders_released(tasks: Seq<Task>, target: TaskId, layout: Layout) -> Seq<Task> {
    Seq::new(
        tasks.len(),
        |j: int|
            if waits_send_to(tasks[j], target) {
                unblocked_task(tasks[j], u64::MAX, 0, TaskReturnKind::Send, layout)
            } else {
                tasks[j]
            },
    )
}

/// `tasks[j]` is Blocked in a receive that no task can complete any more.
pub open spec fn stranded(tasks: Seq<Task>, j: int) -> bool {
    &&& tasks[j].state == TaskState::Blocked
    &&& tasks[j].block matches Some(BlockReason::Recv { .. })
    &&& !exists|i: int| 0 <= i < tasks.len() && could_send_to(#[trigger] tasks[i], tasks[j].id)
}

/// The slots after scanning the first `n` of them in order and releasing each
/// stranded receiver with a failed receive (`a0 = a1 = u64::MAX`) as it is
/// found. A released receiver is Ready, so it may keep a later one from being
/// stranded.
pub open spec fn stranded_released(tasks: Seq<Task>, layout: Layout, n: int) -> Seq<Task>
    decreases n,
{
    if n <= 0 {
        tasks
    } else {
        let prev = stranded_released(tasks, layout, n - 1);
        if stranded(prev, n - 1) {
            prev.update(
                n - 1,
                unblocked_task(prev[n - 1], u64::MAX, u64::MAX, TaskReturnKind::Recv, layout),
            )
        } else {
            prev
        }
    }
}

/// No slot waits to send to anyone unless it already did.
pub open spec fn no_new_send_waiters(before: Seq<Task>, after: Seq<Task>) -> bool {
    &&& after.len() == before.len()
    &&& forall|j: int, x: TaskId|
        0 <= j < after.len() && #[trigger] waits_send_to(after[j], x) ==> waits_send_to(before[j], x)
}

/// The effect of task `target` leaving (exit or fault): senders blocked on it
/// fail, a task joining it is released and `target` reaped (printing the leak
/// check), then receivers nobody can serve any more fail.
pub open spec fn peer_exited(old_k: &Kernel, new_k: &Kernel, target: TaskId) -> bool {
    exists|k1: Kernel, jr: bool, k2: Kernel, nb: Seq<u8>|
        #![trigger join_woken(&k1.table, &k2.table, k1.mm@, k2.mm@, k1.layout, target, jr), k1.out@.add(nb)]
        {
            &&& k1 == (Kernel { table: k1.table, ..*old_k })
            &&& k1.table.wf()
            &&& k1.table.same_meta(&old_k.table)
            &&& k1.table.tasks() == senders_released(old_k.table.tasks(), target, old_k.layout)
            &&& k2.table.wf()
            &&& k2.mm.wf()
            &&& join_woken(&k1.table, &k2.table, k1.mm@, k2.mm@, k1.layout, target, jr)
            &&& k2 == (Kernel { table: k2.table, mm: k2.mm, markers: k2.markers, out: k2.out, ..k1 })
            &&& k2.out@ == k1.out@.add(nb)
            &&& if jr {
                join_reap_noted(k1.markers, k2.markers, k2.mm@, nb)
            } else {
                k2.markers == k1.markers && nb == Seq::<u8>::empty()
            }
            &&& *new_k == Kernel { table: new_k.table, ..k2 }
            &&& new_k.table.same_meta(&k2.table)
            &&& new_k.table.tasks() == stranded_released(
                k2.table.tasks(),
                k2.layout,
                k2.table.capacity(),
            )
        }
}

fn wake_senders_to(k: &mut Kernel, target: TaskId)
    requires
        old(k).wf(),
    ensures
        final(k).wf(),
        *final(k) == (Kernel { table: final(k).table, ..*old(k) }),
        final(k).table.same_meta(&old(k).table),
        final(k).table.tasks() == senders_released(old(k).table.tasks(), target, old(k).layout),
{
    let ghost orig = k.table.tasks();
    let ghost released = senders_released(orig, target, k.layout);
    proof {
        k.table.lemma_wf_bounds();
    }
    let cap = table::table_capacity(&k.table);
    let mut local: usize = 0;
    while local < cap
        invariant
            k.wf(),
            *k == (Kernel { table: k.table, ..*old(k) }),
            k.table.same_meta(&old(k).table),
            orig == old(k).table.tasks(),
            released == senders_released(orig, target, old(k).layout),
            cap == old(k).table.capacity(),
            orig.len() == cap,
            local <= cap,
            k.table.tasks().len() == cap,
            forall|j: int|
                0 <= j < cap ==> #[trigger] k.table.tasks()[j] == if j < local {
                    released[j]
                } else {
                    orig[j]
                },
        decreases cap - local,
    {
        proof {
            k.table.lemma_wf_bounds();
        }
        let ghost before = k.table.tasks();
        match table::get_task_by_local_index(&k.table, local) {
            Some(t) => {
                let mut wakes = false;
                if t.state == TaskState::Blocked {
                    match t.block {
                        Some(BlockReason::Send { to, len: _ }) => {
                            wakes = to == target;
                        },
                        _ => {},
                    }
                }
                if wakes {
                    assert(k.table.slot_of(t.id) == Some(before[local as int]));
                    let _ = table::ready_from_block(
                        &mut k.table,
                        &k.layout,
                        t.id,
                        u64::MAX,
                        0,
                        TaskReturnKind::Send,
                    );
                }
                assert(wakes == waits_send_to(orig[local as int], target));
            },
            None => {},
        }
        local = local + 1;
    }
    assert(k.table.tasks() =~= released);
}

proof fn lemma_stranded_released(tasks: Seq<Task>, layout: Layout, n: int)
    requires
        0 <= n <= tasks.len(),
    ensures
        stranded_released(tasks, layout, n).len() == tasks.len(),
        no_new_send_waiters(tasks, stranded_released(tasks, layout, n)),
        forall|j: int|
            n <= j < tasks.len() ==> #[trigger] stranded_released(tasks, layout, n)[j] == tasks[j],
    decreases n,
{
    if n > 0 {
        lemma_stranded_released(tasks, layout, n - 1);
    }
}

fn wake_stranded_recvs(k: &mut Kernel)
    requires
        old(k).wf(),
    ensures
        final(k).wf(),
        *final(k) == (Kernel { table: final(k).table, ..*old(k) }),
        final(k).table.same_meta(&old(k).table),
        final(k).table.tasks() == stranded_released(
            old(k).table.tasks(),
            old(k).layout,
            old(k).table.capacity(),
        ),
{
    let ghost orig = k.table.tasks();
    proof {
        k.table.lemma_wf_bounds();
    }
    let cap = table::table_capacity(&k.table);
    let mut local: usize = 0;
    while local < cap
        invariant
            k.wf(),
            *k == (Kernel { table: k.table, ..*old(k) }),
            k.table.same_meta(&old(k).table),
            orig == old(k).table.tasks(),
            cap == old(k).table.capacity(),
            orig.len() == cap,
            local <= cap,
            k.table.tasks() == stranded_released(orig, old(k).layout, local as int),
        decreases cap - local,
    {
        proof {
            k.table.lemma_wf_bounds();
            lemma_stranded_released(orig, old(k).layout, local as int);
        }
        let ghost before = k.table.tasks();
        match table::get_task_by_local_index(&k.table, local) {
            Some(t) => {
                assert(k.table.slot_of(t.id) == Some(before[local as int]));
                let wakes = t.state == TaskState::Blocked && table::recv_buf(&k.table, t.id).is_some()
                    && !table::has_potential_ipc_sender(&k.table, t.id);
                assert(wakes == stranded(before, local as int));
                if wakes {
                    let _ = table::ready_from_block(
                        &mut k.table,
                        &k.layout,
                        t.id,
                        u64::MAX,
                        u64::MAX,
                        TaskReturnKind::Recv,
                    );
                }
            },
            None => {},
        }
        local = local + 1;
    }
}

/// Task `target` has left (exited or faulted): fail the senders blocked on
/// it, release a task joining it and reap it, then fail the receivers nobody
/// can serve any more.
pub fn on_peer_exit(k: &mut Kernel, target: TaskId)
    requires
        old(k).wf(),
    ensures
        final(k).wf(),
        peer_exited(old(k), final(k), target),
        final(k).table.capacity() == old(k).table.capacity(),
        no_new_send_waiters(old(k).table.tasks(), final(k).table.tasks()),
{
    wake_senders_to(k, target);
    let ghost k1 = *k;
    let jr = table::join_wake(&mut k.table, &mut k.mm, &k.layout, target);
    let ghost mut nb = Seq::<u8>::empty();
    if jr {
        let bytes = scheduler::note_join_reap(&mut k.markers, &k.mm);
        proof {
            nb = bytes@;
        }
        emit(k, bytes);
    }
    let ghost k2 = *k;
    wake_stranded_recvs(k);
    proof {
        assert(k2.out@ =~= k1.out@.add(nb));
        assert(join_woken(&k1.table, &k2.table, k1.mm@, k2.mm@, k1.layout, target, jr));
        k1.table.lemma_wf_bounds();
        k2.table.lemma_wf_bounds();
        lemma_stranded_released(k2.table.tasks(), k2.layout, k2.table.capacity());
        let a = old(k).table.tasks();
        let b = k1.table.tasks();
        let c = k2.table.tasks();
        assert(no_new_send_waiters(a, b));
        if jr {
            let (jw, t1) = choose|jw: int, t1: TaskTable|
                #![trigger reaped(&t1, &k2.table, k1.mm@, k2.mm@, target), b[jw]]
                {
                    &&& table::is_first_with(b, k1.table.capacity(), |task: Task| table::waits_join(task, target), jw)
                    &&& jw != table::id_local(target)
                    &&& t1.same_meta(&k1.table)
                    &&& t1.tasks() == b.update(
                        jw,
                        joined_task(b[jw], table::join_status_of(&k1.table, target)->Some_0, k1.layout),
                    )
                    &&& reaped(&t1, &k2.table, k1.mm@, k2.mm@, target)
                };
            assert(is_vacant(c[table::id_local(target)]));
            assert(no_new_send_waiters(b, c));
        } else {
            assert(no_new_send_waiters(b, c));
        }
    }
}

/// Console bytes of the first completed rendezvous.
pub open spec fn rendezvous_bytes(printed: bool) -> Seq<u8> {
    if printed {
        Seq::<u8>::empty()
    } else {
        line_bytes("ipc rendezvous: OK".spec_bytes())
    }
}

fn note_rendezvous(k: &mut Kernel)
    ensures
        *final(k) == (Kernel { rendezvous_printed: true, out: final(k).out, ..*old(k) }),
        final(k).out@ == old(k).out@ + rendezvous_bytes(old(k).rendezvous_printed),
{
    let already = k.rendezvous_printed;
    k.rendezvous_printed = true;
    if !already {
        emit(k, uart::write_line("ipc rendezvous: OK"));
    } else {
        assert(k.out@ =~= old(k).out@ + rendezvous_bytes(true));
    }
}

/// A message was delivered: slot `l` becomes `task` and the first rendezvous
/// is announced.
pub open spec fn delivered(old_k: &Kernel, new_k: &Kernel, l: int, task: Task) -> bool {
    &&& new_k.wf()
    &&& new_k.table.same_meta(&old_k.table)
    &&& new_k.table.tasks() == old_k.table.tasks().update(l, task)
    &&& *new_k == Kernel { table: new_k.table, rendezvous_printed: true, out: new_k.out, ..*old_k }
    &&& new_k.out@ == old_k.out@ + rendezvous_bytes(old_k.rendezvous_printed)
}

/// Store the `len`-byte message that the blocked sender `id` carries.
pub fn store_pending(k: &mut Kernel, id: TaskId, bytes: [u8; 32], len: u8) -> (r: bool)
    requires
        old(k).wf(),
        len <= IPC_PAYLOAD_MAX,
    ensures
        final(k).wf(),
        r == old(k).table.slot_of(id) is Some,
        !r ==> *final(k) == *old(k),
        r ==> task_set(
            old(k),
            final(k),
            table::id_local(id),
            Task { ipc_pending: bytes, ipc_len: len, ..old(k).table.tasks()[table::id_local(id)] },
        ),
{
    table::set_ipc_pending(&mut k.table, id, bytes, len)
}

/// The receive buffer of a task Blocked in `recv`.
pub open spec fn recv_request(task: Task) -> Option<(u64, u64)> {
    if task.state == TaskState::Blocked {
        match task.block {
            Some(BlockReason::Recv { ptr, max }) => Some((ptr, max)),
            _ => None,
        }
    } else {
        None
    }
}

/// `[ptr, ptr + len)` lies in the stack of `task`.
pub open spec fn stack_holds(task: Task, ptr: u64, len: u64) -> bool {
    ptr + len <= u64::MAX && ptr >= task.stack_start && ptr + len <= task.stack_top
}

/// Effect of `send(dest = a0, ptr = a1, len = a2)`.
///
/// A send to itself, of no or too many bytes, to an invalid id, or from a
/// buffer outside the caller's stack is illegal. A destination that is gone
/// returns `u64::MAX`. A destination waiting in `recv` gets the message at
/// once (the caller returns `len`); otherwise the caller blocks carrying the
/// message and the next task runs.
pub open spec fn send_effect(
    old_k: &Kernel,
    new_k: &Kernel,
    old_f: Riscv64TrapFrame,
    new_f: Riscv64TrapFrame,
    csrs: TrapCsrs,
    r: EcallAction,
) -> bool {
    match old_k.cpu.current {
        None => halted_with(
            old_k,
            new_k,
            "ipc".spec_bytes(),
            "send with no current task".spec_bytes(),
            r,
        ) && new_f == old_f,
        Some(self_id) => {
            let dest = TaskId(old_f.a0);
            let ptr = old_f.a1;
            let len = old_f.a2;
            if dest == self_id || len == 0 || len > IPC_PAYLOAD_MAX || !table::id_valid(dest)
                || !user_stack_buffer(old_k.cpu, ptr, len) {
                illegal_effect(old_k, new_k, csrs, r) && new_f == old_f
            } else {
                match old_k.table.slot_of(dest) {
                    Some(d) if d.state != TaskState::Finished && d.state != TaskState::Faulted => {
                        match recv_request(d) {
                            Some((rptr, rmax)) => if len > rmax || !stack_holds(d, rptr, len) {
                                illegal_effect(old_k, new_k, csrs, r) && new_f == old_f
                            } else {
                                &&& delivered(
                                    old_k,
                                    new_k,
                                    table::id_local(dest),
                                    unblocked_task(
                                        d,
                                        len,
                                        self_id.0,
                                        TaskReturnKind::Recv,
                                        old_k.layout,
                                    ),
                                )
                                &&& new_f == (Riscv64TrapFrame { a0: len, ..old_f })
                                &&& r == (EcallAction::CopyUser {
                                    src: ptr,
                                    dst: rptr,
                                    len,
                                    resume: resume_of(csrs),
                                })
                            },
                            None => match old_k.table.slot_of(self_id) {
                                None => halted_with(
                                    old_k,
                                    new_k,
                                    "ipc".spec_bytes(),
                                    "send mark blocked failed".spec_bytes(),
                                    r,
                                ) && new_f == old_f,
                                Some(st) => {
                                    &&& new_f == old_f
                                    &&& r matches EcallAction::StorePending { id, ptr: p, len: n, then }
                                        && id == self_id && p == ptr && n == len as u8
                                    &&& exists|k1: Kernel|
                                        #[trigger] task_set(
                                            old_k,
                                            &k1,
                                            table::id_local(self_id),
                                            blocked_task(
                                                Task {
                                                    trap_image: Some(caller_image(old_f, csrs)),
                                                    ..st
                                                },
                                                TaskReturnKind::Send,
                                                BlockReason::Send { to: dest, len: len as u8 },
                                            ),
                                        ) && switched(
                                            &k1,
                                            new_k,
                                            next_dispatchable_spec(&k1.table, k1.layout, Some(self_id)),
                                            r->then,
                                        )
                                },
                            },
                        }
                    },
                    _ => *new_k == *old_k && new_f == (Riscv64TrapFrame { a0: u64::MAX, ..old_f })
                        && r == EcallAction::Return(resume_of(csrs)),
                }
            }
        },
    }
}

pub fn sys_send(k: &mut Kernel, frame: &mut Riscv64TrapFrame, csrs: TrapCsrs) -> (r: EcallAction)
    requires
        old(k).wf(),
    ensures
        final(k).wf(),
        send_effect(old(k), final(k), *old(frame), *final(frame), csrs, r),
{
    let self_id = match cpu::current(&k.cpu) {
        Some(id) => id,
        None => {
            emit(k, log::fail("ipc", "send with no current task"));
            return EcallAction::Switch(DispatchAction::Halt);
        },
    };
    let dest = TaskId(frame.a0);
    let ptr = frame.a1;
    let len = frame.a2;
    if dest == self_id || len == 0 || len > IPC_PAYLOAD_MAX || !dest.is_valid() {
        return sys::illegal_syscall(k, csrs);
    }
    if !sys::user_stack_buffer_ok(&k.cpu, ptr, len) {
        return sys::illegal_syscall(k, csrs);
    }
    let len_u8 = len as u8;
    let live = match table::get_task_state(&k.table, dest) {
        Some(st) => st != TaskState::Empty && st != TaskState::Finished && st != TaskState::Faulted,
        None => false,
    };
    if !live {
        return sys::same_frame_return_a0(frame, u64::MAX, csrs);
    }
    match table::recv_buf(&k.table, dest) {
        Some((rptr, rmax)) => complete_send(k, frame, csrs, self_id, dest, ptr, len_u8, rptr, rmax),
        None => block_send(k, frame, csrs, self_id, dest, ptr, len_u8),
    }
}

fn complete_send(
    k: &mut Kernel,
    frame: &mut Riscv64TrapFrame,
    csrs: TrapCsrs,
    self_id: TaskId,
    dest: TaskId,
    ptr: u64,
    len: u8,
    rptr: u64,
    rmax: u64,
) -> (r: EcallAction)
    requires
        old(k).wf(),
        old(k).table.slot_of(dest) matches Some(d) && recv_request(d) == Some((rptr, rmax)),
    ensures
        final(k).wf(),
        ({
            let d = old(k).table.slot_of(dest)->Some_0;
            if len > rmax || !stack_holds(d, rptr, len as u64) {
                illegal_effect(old(k), final(k), csrs, r) && *final(frame) == *old(frame)
            } else {
                &&& delivered(
                    old(k),
                    final(k),
                    table::id_local(dest),
                    unblocked_task(d, len as u64, self_id.0, TaskReturnKind::Recv, old(k).layout),
                )
                &&& *final(frame) == (Riscv64TrapFrame { a0: len as u64, ..*old(frame) })
                &&& r == (EcallAction::CopyUser {
                    src: ptr,
                    dst: rptr,
                    len: len as u64,
                    resume: resume_of(csrs),
                })
            }
        }),
{
    let n = len as u64;
    if n > rmax {
        return sys::illegal_syscall(k, csrs);
    }
    if !table::stack_contains(&k.table, dest, rptr, n) {
        return sys::illegal_syscall(k, csrs);
    }
    note_rendezvous(k);
    let ghost k1 = *k;
    let _ = table::ready_from_block(&mut k.table, &k.layout, dest, n, self_id.0, TaskReturnKind::Recv);
    let _ = sys::same_frame_return_a0(frame, n, csrs);
    EcallAction::CopyUser { src: ptr, dst: rptr, len: n, resume: sys::resume_after_ecall(csrs) }
}

fn block_send(
    k: &mut Kernel,
    frame: &Riscv64TrapFrame,
    csrs: TrapCsrs,
    self_id: TaskId,
    dest: TaskId,
    ptr: u64,
    len: u8,
) -> (r: EcallAction)
    requires
        old(k).wf(),
    ensures
        final(k).wf(),
        match old(k).table.slot_of(self_id) {
            None => halted_with(
                old(k),
                final(k),
                "ipc".spec_bytes(),
                "send mark blocked failed".spec_bytes(),
                r,
            ),
            Some(st) => {
                &&& r matches EcallAction::StorePending { id, ptr: p, len: n, then } && id == self_id
                    && p == ptr && n == len
                &&& exists|k1: Kernel|
                    #[trigger] task_set(
                        old(k),
                        &k1,
                        table::id_local(self_id),
                        blocked_task(
                            Task { trap_image: Some(caller_image(*frame, csrs)), ..st },
                            TaskReturnKind::Send,
                            BlockReason::Send { to: dest, len },
                        ),
                    ) && switched(
                        &k1,
                        final(k),
                        next_dispatchable_spec(&k1.table, k1.layout, Some(self_id)),
                        r->then,
                    )
            },
        },
{
    let ghost k0 = *k;
    let image = sys::trap_image_after_ecall(frame, csrs);
    let _ = table::set_task_trap_image(&mut k.table, self_id, &image);
    proof {
        k0.table.lemma_wf_bounds();
        if k0.table.slot_of(self_id) is Some {
            assert(k.table.tasks()[table::id_local(self_id)].id == self_id);
        }
    }
    if !table::mark_task_blocked_send(&mut k.table, self_id, dest, len) {
        emit(k, log::fail("ipc", "send mark blocked failed"));
        return EcallAction::Switch(DispatchAction::Halt);
    }
    let ghost k1 = *k;
    proof {
        let l = table::id_local(self_id);
        let st = k0.table.slot_of(self_id)->Some_0;
        assert(k1.table.tasks() =~= k0.table.tasks().update(
            l,
            blocked_task(
                Task { trap_image: Some(caller_image(*frame, csrs)), ..st },
                TaskReturnKind::Send,
                BlockReason::Send { to: dest, len },
            ),
        ));
    }
    let then = scheduler::switch_after(k, Some(self_id));
    proof {
        let st = k0.table.slot_of(self_id)->Some_0;
        assert(task_set(
            &k0,
            &k1,
            table::id_local(self_id),
            blocked_task(
                Task { trap_image: Some(caller_image(*frame, csrs)), ..st },
                TaskReturnKind::Send,
                BlockReason::Send { to: dest, len },
            ),
        ));
    }
    EcallAction::StorePending { id: self_id, ptr, len, then }
}

/// How many of the first `n` slots are Blocked sending to `to`.
pub open spec fn count_send_waiters(tasks: Seq<Task>, to: TaskId, n: int) -> nat
    decreases n,
{
    if n <= 0 {
        0
    } else {
        count_send_waiters(tasks, to, n - 1) + if waits_send_to(tasks[n - 1], to) {
            1nat
        } else {
            0nat
        }
    }
}

/// How many slots are Blocked sending to `to`.
pub open spec fn send_waiters(tasks: Seq<Task>, to: TaskId) -> nat {
    count_send_waiters(tasks, to, tasks.len() as int)
}

proof fn lemma_send_waiters_shrink(a: Seq<Task>, b: Seq<Task>, to: TaskId, j0: int, n: int)
    requires
        no_new_send_waiters(a, b),
        0 <= n <= a.len(),
    ensures
        count_send_waiters(b, to, n) <= count_send_waiters(a, to, n),
        0 <= j0 < n && waits_send_to(a[j0], to) && !waits_send_to(b[j0], to) ==> count_send_waiters(
            b,
            to,
            n,
        ) < count_send_waiters(a, to, n),
    decreases n,
{
    if n > 0 {
        lemma_send_waiters_shrink(a, b, to, j0, n - 1);
        if waits_send_to(b[n - 1], to) {
            assert(waits_send_to(a[n - 1], to));
        }
    }
}

/// Slot `j` holds the lowest-slot task Blocked sending to `to`.
pub open spec fn first_send_waiter(tasks: Seq<Task>, cap: int, to: TaskId, j: int) -> bool {
    is_first_with(tasks, cap, |t: Task| waits_send_to(t, to), j)
}

/// The receive buffer `[ptr, ptr + len)` lies in the stack of task `id`.
pub open spec fn slot_stack_holds(t: &TaskTable, id: TaskId, ptr: u64, len: u64) -> bool {
    t.slot_of(id) matches Some(task) && stack_holds(task, ptr, len)
}

/// Effect of task `self_id` receiving at most `max` bytes into `ptr`.
///
/// The lowest-slot sender waiting on it delivers: its message is written to
/// the buffer, the caller returns the length and the sender's id, and the
/// sender returns the length. A waiting sender whose message does not fit is
/// faulted (as if it had left) and the receive goes on with the next one. With
/// no sender waiting, the caller blocks while some task could still send to
/// it, and returns `u64::MAX` twice otherwise.
pub open spec fn recv_effect(
    old_k: &Kernel,
    new_k: &Kernel,
    self_id: TaskId,
    old_f: Riscv64TrapFrame,
    new_f: Riscv64TrapFrame,
    ptr: u64,
    max: u64,
    csrs: TrapCsrs,
    r: EcallAction,
) -> bool
    decreases send_waiters(old_k.table.tasks(), self_id),
{
    let tasks = old_k.table.tasks();
    let cap = old_k.table.capacity();
    if exists|j: int| first_send_waiter(tasks, cap, self_id, j) {
        let j = choose|j: int| first_send_waiter(tasks, cap, self_id, j);
        let sender = tasks[j];
        let n = sender.ipc_len as u64;
        if n > max {
            exists|k1: Kernel, k2: Kernel|
                #![trigger peer_exited(&k1, &k2, sender.id)]
                {
                    &&& task_set(old_k, &k1, j, faulted_task(sender))
                    &&& peer_exited(&k1, &k2, sender.id)
                    &&& k2.wf()
                    &&& send_waiters(k2.table.tasks(), self_id) < send_waiters(tasks, self_id)
                    &&& recv_effect(&k2, new_k, self_id, old_f, new_f, ptr, max, csrs, r)
                }
        } else if !slot_stack_holds(&old_k.table, self_id, ptr, n) {
            illegal_effect(old_k, new_k, csrs, r) && new_f == old_f
        } else {
            &&& delivered(
                old_k,
                new_k,
                j,
                unblocked_task(sender, n, 0, TaskReturnKind::Send, old_k.layout),
            )
            &&& new_f == (Riscv64TrapFrame { a0: n, a1: sender.id.0, ..old_f })
            &&& r == (EcallAction::WriteUser {
                bytes: sender.ipc_pending,
                dst: ptr,
                len: n,
                resume: resume_of(csrs),
            })
        }
    } else if exists|i: int| 0 <= i < cap && could_send_to(#[trigger] tasks[i], self_id) {
        &&& new_f == old_f
        &&& match old_k.table.slot_of(self_id) {
            None => halted_with(
                old_k,
                new_k,
                "ipc".spec_bytes(),
                "recv mark blocked failed".spec_bytes(),
                r,
            ),
            Some(me) => r is Switch && exists|k1: Kernel|
                #[trigger] task_set(
                    old_k,
                    &k1,
                    table::id_local(self_id),
                    blocked_task(
                        Task { trap_image: Some(caller_image(old_f, csrs)), ..me },
                        TaskReturnKind::Recv,
                        BlockReason::Recv { ptr, max },
                    ),
                ) && switched(
                    &k1,
                    new_k,
                    next_dispatchable_spec(&k1.table, k1.layout, Some(self_id)),
                    r->Switch_0,
                ),
        }
    } else {
        *new_k == *old_k && new_f == (Riscv64TrapFrame { a0: u64::MAX, a1: u64::MAX, ..old_f }) && r
            == EcallAction::Return(resume_of(csrs))
    }
}

/// Effect of `recv(ptr = a0, max = a1)`: a buffer outside the caller's stack
/// is illegal; otherwise see [`recv_effect`].
pub open spec fn recv_spec(
    old_k: &Kernel,
    new_k: &Kernel,
    old_f: Riscv64TrapFrame,
    new_f: Riscv64TrapFrame,
    csrs: TrapCsrs,
    r: EcallAction,
) -> bool {
    match old_k.cpu.current {
        None => halted_with(
            old_k,
            new_k,
            "ipc".spec_bytes(),
            "recv with no current task".spec_bytes(),
            r,
        ) && new_f == old_f,
        Some(self_id) => if !user_stack_buffer(old_k.cpu, old_f.a0, old_f.a1) {
            illegal_effect(old_k, new_k, csrs, r) && new_f == old_f
        } else {
            recv_effect(old_k, new_k, self_id, old_f, new_f, old_f.a0, old_f.a1, csrs, r)
        },
    }
}

pub fn sys_recv(k: &mut Kernel, frame: &mut Riscv64TrapFrame, csrs: TrapCsrs) -> (r: EcallAction)
    requires
        old(k).wf(),
    ensures
        final(k).wf(),
        recv_spec(old(k), final(k), *old(frame), *final(frame), csrs, r),
{
    let self_id = match cpu::current(&k.cpu) {
        Some(id) => id,
        None => {
            emit(k, log::fail("ipc", "recv with no current task"));
            return EcallAction::Switch(DispatchAction::Halt);
        },
    };
    let ptr = frame.a0;
    let max = frame.a1;
    if !sys::user_stack_buffer_ok(&k.cpu, ptr, max) {
        return sys::illegal_syscall(k, csrs);
    }
    receive(k, frame, csrs, self_id, ptr, max)
}

fn receive(
    k: &mut Kernel,
    frame: &mut Riscv64TrapFrame,
    csrs: TrapCsrs,
    self_id: TaskId,
    ptr: u64,
    max: u64,
) -> (r: EcallAction)
    requires
        old(k).wf(),
    ensures
        final(k).wf(),
        recv_effect(old(k), final(k), self_id, *old(frame), *final(frame), ptr, max, csrs, r),
    decreases send_waiters(old(k).table.tasks(), self_id),
{
    let ghost k0 = *k;
    let ghost tasks = k0.table.tasks();
    proof {
        k0.table.lemma_wf_bounds();
    }
    match table::find_send_waiter_to(&k.table, self_id) {
        Some(sender) => {
            let ghost j = choose|j: int|
                is_first_with(tasks, k0.table.capacity(), |t: Task| waits_send_to(t, self_id), j)
                    && sender == #[trigger] tasks[j].id;
            proof {
                assert(first_send_waiter(tasks, k0.table.capacity(), self_id, j));
                let jj = choose|jj: int| first_send_waiter(tasks, k0.table.capacity(), self_id, jj);
                if jj < j {
                    assert(waits_send_to(tasks[jj], self_id));
                } else if j < jj {
                    assert(waits_send_to(tasks[j], self_id));
                }
                assert(jj == j);
                assert(k0.table.slot_of(sender) == Some(tasks[j]));
            }
            let n = match table::ipc_pending_len(&k.table, sender) {
                Some(n) => n as u64,
                None => {
                    assert(false);
                    return EcallAction::Switch(DispatchAction::Halt);
                },
            };
            if n > max {
                let _ = table::mark_task_faulted(&mut k.table, sender);
                let ghost k1 = *k;
                on_peer_exit(k, sender);
                let ghost k2 = *k;
                proof {
                    assert(task_set(&k0, &k1, j, faulted_task(tasks[j])));
                    assert(no_new_send_waiters(tasks, k2.table.tasks())) by {
                        assert forall|i: int, x: TaskId|
                            0 <= i < k2.table.tasks().len() && #[trigger] waits_send_to(
                                k2.table.tasks()[i],
                                x,
                            ) implies waits_send_to(tasks[i], x) by {
                            assert(waits_send_to(k1.table.tasks()[i], x));
                        }
                    }
                    lemma_send_waiters_shrink(tasks, k2.table.tasks(), self_id, j, tasks.len() as int);
                }
                let r = receive(k, frame, csrs, self_id, ptr, max);
                proof {
                    assert(peer_exited(&k1, &k2, sender));
                    assert(recv_effect(&k2, &*k, self_id, *old(frame), *frame, ptr, max, csrs, r));
                    assert(recv_effect(&k0, &*k, self_id, *old(frame), *frame, ptr, max, csrs, r));
                }
                return r;
            }
            if !table::stack_contains(&k.table, self_id, ptr, n) {
                let r = sys::illegal_syscall(k, csrs);
                assert(recv_effect(&k0, &*k, self_id, *old(frame), *frame, ptr, max, csrs, r));
                return r;
            }
            let (bytes, _) = match table::take_ipc_pending(&mut k.table, sender) {
                Some(x) => x,
                None => {
                    assert(false);
                    return EcallAction::Switch(DispatchAction::Halt);
                },
            };
            note_rendezvous(k);
            let _ = table::ready_from_block(&mut k.table, &k.layout, sender, n, 0, TaskReturnKind::Send);
            proof {
                assert(k.table.tasks() =~= tasks.update(
                    j,
                    unblocked_task(tasks[j], n, 0, TaskReturnKind::Send, k0.layout),
                ));
            }
            let _ = sys::same_frame_return_a0_a1(frame, n, sender.0, csrs);
            let r = EcallAction::WriteUser { bytes, dst: ptr, len: n, resume: sys::resume_after_ecall(csrs) };
            assert(delivered(&k0, &*k, j, unblocked_task(tasks[j], n, 0, TaskReturnKind::Send, k0.layout)));
            assert(recv_effect(&k0, &*k, self_id, *old(frame), *frame, ptr, max, csrs, r));
            r
        },
        None => {
            assert(!exists|j: int| first_send_waiter(tasks, k0.table.capacity(), self_id, j));
            if table::has_potential_ipc_sender(&k.table, self_id) {
                return block_recv(k, frame, csrs, self_id, ptr, max);
            }
            sys::same_frame_return_a0_a1(frame, u64::MAX, u64::MAX, csrs)
        },
    }
}

fn block_recv(
    k: &mut Kernel,
    frame: &Riscv64TrapFrame,
    csrs: TrapCsrs,
    self_id: TaskId,
    ptr: u64,
    max: u64,
) -> (r: EcallAction)
    requires
        old(k).wf(),
    ensures
        final(k).wf(),
        match old(k).table.slot_of(self_id) {
            None => halted_with(
                old(k),
                final(k),
                "ipc".spec_bytes(),
                "recv mark blocked failed".spec_bytes(),
                r,
            ),
            Some(me) => r is Switch && exists|k1: Kernel|
                #[trigger] task_set(
                    old(k),
                    &k1,
                    table::id_local(self_id),
                    blocked_task(
                        Task { trap_image: Some(caller_image(*frame, csrs)), ..me },
                        TaskReturnKind::Recv,
                        BlockReason::Recv { ptr, max },
                    ),
                ) && switched(
                    &k1,
                    final(k),
                    next_dispatchable_spec(&k1.table, k1.layout, Some(self_id)),
                    r->Switch_0,
                ),
        },
{
    let ghost k0 = *k;
    let image = sys::trap_image_after_ecall(frame, csrs);
    let _ = table::set_task_trap_image(&mut k.table, self_id, &image);
    proof {
        k0.table.lemma_wf_bounds();
        if k0.table.slot_of(self_id) is Some {
            assert(k.table.tasks()[table::id_local(self_id)].id == self_id);
        }
    }
    if !table::mark_task_blocked_recv(&mut k.table, self_id, ptr, max) {
        emit(k, log::fail("ipc", "recv mark blocked failed"));
        return EcallAction::Switch(DispatchAction::Halt);
    }
    let ghost k1 = *k;
    let ghost me = k0.table.slot_of(self_id)->Some_0;
    let ghost blocked = blocked_task(
        Task { trap_image: Some(caller_image(*frame, csrs)), ..me },
        TaskReturnKind::Recv,
        BlockReason::Recv { ptr, max },
    );
    assert(k1.table.tasks() =~= k0.table.tasks().update(table::id_local(self_id), blocked));
    let d = scheduler::switch_after(k, Some(self_id));
    assert(task_set(&k0, &k1, table::id_local(self_id), blocked));
    EcallAction::Switch(d)
}

} // verus!

verus! {

/// A receive that hands control straight back to its caller resumes it right
/// after the `ecall`.
pub proof fn lemma_recv_resumes_caller(
    old_k: &Kernel,
    new_k: &Kernel,
    self_id: TaskId,
    old_f: Riscv64TrapFrame,
    new_f: Riscv64TrapFrame,
    ptr: u64,
    max: u64,
    csrs: TrapCsrs,
    r: EcallAction,
)
    requires
        recv_effect(old_k, new_k, self_id, old_f, new_f, ptr, max, csrs, r),
    ensures
        sys::resumes_caller(r, csrs),
    decreases send_waiters(old_k.table.tasks(), self_id),
{
    let tasks = old_k.table.tasks();
    let cap = old_k.table.capacity();
    if exists|j: int| first_send_waiter(tasks, cap, self_id, j) {
        let j = choose|j: int| first_send_waiter(tasks, cap, self_id, j);
        let sender = tasks[j];
        let n = sender.ipc_len as u64;
        if n > max {
            let (k1, k2) = choose|k1: Kernel, k2: Kernel|
                #![trigger peer_exited(&k1, &k2, sender.id)]
                {
                    &&& task_set(old_k, &k1, j, faulted_task(sender))
                    &&& peer_exited(&k1, &k2, sender.id)
                    &&& k2.wf()
                    &&& send_waiters(k2.table.tasks(), self_id) < send_waiters(tasks, self_id)
                    &&& recv_effect(&k2, new_k, self_id, old_f, new_f, ptr, max, csrs, r)
                };
            lemma_recv_resumes_caller(&k2, new_k, self_id, old_f, new_f, ptr, max, csrs, r);
        }
    }
}

/// A receive fails at once, changing nothing, when no task could still send
/// to the caller: no task is Blocked sending to it, and every other task is
/// neither Ready nor Running (it is free, finished, faulted, or Blocked for
/// something else: a receive, a sleep, a join or a send elsewhere). The
/// caller gets `a0 = a1 = u64::MAX` right after its `ecall`.
pub proof fn lemma_recv_without_senders_fails(
    old_k: &Kernel,
    new_k: &Kernel,
    self_id: TaskId,
    old_f: Riscv64TrapFrame,
    new_f: Riscv64TrapFrame,
    ptr: u64,
    max: u64,
    csrs: TrapCsrs,
    r: EcallAction,
)
    requires
        old_k.wf(),
        recv_effect(old_k, new_k, self_id, old_f, new_f, ptr, max, csrs, r),
        forall|i: int|
            0 <= i < old_k.table.capacity() ==> match (#[trigger] old_k.table.tasks()[i]).block {
                Some(BlockReason::Send { to, len: _ }) => old_k.table.tasks()[i].state
                    == TaskState::Blocked ==> to != self_id,
                _ => true,
            },
        forall|i: int|
            0 <= i < old_k.table.capacity() && (#[trigger] old_k.table.tasks()[i]).id != self_id
                ==> old_k.table.tasks()[i].state != TaskState::Ready && old_k.table.tasks()[i].state
                != TaskState::Running,
    ensures
        *new_k == *old_k,
        new_f == (Riscv64TrapFrame { a0: u64::MAX, a1: u64::MAX, ..old_f }),
        r == EcallAction::Return(resume_of(csrs)),
{
    let tasks = old_k.table.tasks();
    let cap = old_k.table.capacity();
    if exists|j: int| first_send_waiter(tasks, cap, self_id, j) {
        let j = choose|j: int| first_send_waiter(tasks, cap, self_id, j);
        assert(waits_send_to(tasks[j], self_id));
        assert(false);
    }
    if exists|i: int| 0 <= i < cap && could_send_to(#[trigger] tasks[i], self_id) {
        let i = choose|i: int| 0 <= i < cap && could_send_to(#[trigger] tasks[i], self_id);
        assert(could_send_to(tasks[i], self_id));
        assert(false);
    }
}

/// A receive with no message waiting blocks while some other live task is
/// Ready or Running (it may still send): the caller is left Blocked in
/// its receive of `max` bytes into `ptr`, its trap frame untouched.
pub proof fn lemma_recv_waits_for_a_live_task(
    old_k: &Kernel,
    new_k: &Kernel,
    self_id: TaskId,
    old_f: Riscv64TrapFrame,
    new_f: Riscv64TrapFrame,
    ptr: u64,
    max: u64,
    csrs: TrapCsrs,
    r: EcallAction,
    i: int,
)
    requires
        old_k.wf(),
        recv_effect(old_k, new_k, self_id, old_f, new_f, ptr, max, csrs, r),
        old_k.table.slot_of(self_id) is Some,
        forall|j: int|
            0 <= j < old_k.table.capacity() ==> match (#[trigger] old_k.table.tasks()[j]).block {
                Some(BlockReason::Send { to, len: _ }) => old_k.table.tasks()[j].state
                    == TaskState::Blocked ==> to != self_id,
                _ => true,
            },
        0 <= i < old_k.table.capacity(),
        old_k.table.tasks()[i].id != self_id,
        old_k.table.tasks()[i].state == TaskState::Ready || old_k.table.tasks()[i].state
            == TaskState::Running,
    ensures
        r is Switch,
        new_f == old_f,
        new_k.table.tasks()[table::id_local(self_id)].state == TaskState::Blocked,
        new_k.table.tasks()[table::id_local(self_id)].block == Some(BlockReason::Recv { ptr, max }),
{
    let tasks = old_k.table.tasks();
    let cap = old_k.table.capacity();
    old_k.table.lemma_wf_bounds();
    if exists|j: int| first_send_waiter(tasks, cap, self_id, j) {
        let j = choose|j: int| first_send_waiter(tasks, cap, self_id, j);
        assert(waits_send_to(tasks[j], self_id));
        assert(false);
    }
    assert(could_send_to(tasks[i], self_id));
    let me = old_k.table.slot_of(self_id)->Some_0;
    let l = table::id_local(self_id);
    let blocked = blocked_task(
        Task { trap_image: Some(caller_image(old_f, csrs)), ..me },
        TaskReturnKind::Recv,
        BlockReason::Recv { ptr, max },
    );
    let k1 = choose|k1: Kernel|
        #[trigger] task_set(old_k, &k1, l, blocked) && switched(
            &k1,
            new_k,
            next_dispatchable_spec(&k1.table, k1.layout, Some(self_id)),
            r->Switch_0,
        );
    assert(k1.table.tasks()[l] == blocked);
    let next = next_dispatchable_spec(&k1.table, k1.layout, Some(self_id));
    if let Some(n) = next {
        if let Some(tn) = k1.table.slot_of(n) {
            if scheduler::dispatch_image_exists(tn) {
                k1.table.lemma_wf_bounds();
                if table::id_local(n) == l {
                    assert(scheduler::dispatched_task(tn, scheduler::is_fresh(tn)) == blocked);
                } else {
                    assert(new_k.table.tasks()[l] == k1.table.tasks()[l]);
                }
            }
        }
    }
}

proof fn lemma_stranded_released_keeps(tasks: Seq<Task>, layout: Layout, n: int, j: int)
    requires
        0 <= j < tasks.len(),
        n <= tasks.len(),
        tasks[j].state != TaskState::Blocked,
    ensures
        stranded_released(tasks, layout, n).len() == tasks.len(),
        stranded_released(tasks, layout, n)[j] == tasks[j],
    decreases n,
{
    if n > 0 {
        lemma_stranded_released_keeps(tasks, layout, n - 1, j);
    }
}

/// When a task leaves (exits or faults), every task Blocked sending to it is
/// made Ready with its send failed: its saved image returns `a0 = u64::MAX`
/// (and `a1 = 0`) right where the `ecall` left it, every other register kept.
pub proof fn lemma_peer_exit_fails_senders(old_k: &Kernel, new_k: &Kernel, target: TaskId, j: int)
    requires
        old_k.wf(),
        peer_exited(old_k, new_k, target),
        old_k.table.slot_of(target) matches Some(t) && (t.state == TaskState::Finished || t.state
            == TaskState::Faulted),
        0 <= j < old_k.table.capacity(),
        old_k.table.tasks()[j].state == TaskState::Blocked,
        match old_k.table.tasks()[j].block {
            Some(BlockReason::Send { to, len: _ }) => to == target,
            _ => false,
        },
    ensures
        new_k.table.tasks()[j].state == TaskState::Ready,
        new_k.table.tasks()[j].block is None,
        match old_k.table.tasks()[j].trap_image {
            Some(img) => new_k.table.tasks()[j].trap_image == Some(
                TrapImage { gpr: Riscv64TrapFrame { a0: u64::MAX, a1: 0, ..img.gpr }, ..img },
            ),
            None => new_k.table.tasks()[j].trap_image is None,
        },
{
    let tasks = old_k.table.tasks();
    old_k.table.lemma_wf_bounds();
    let (k1, jr, k2, nb) = choose|k1: Kernel, jr: bool, k2: Kernel, nb: Seq<u8>|
        {
            &&& k1 == (Kernel { table: k1.table, ..*old_k })
            &&& k1.table.wf()
            &&& k1.table.same_meta(&old_k.table)
            &&& k1.table.tasks() == senders_released(old_k.table.tasks(), target, old_k.layout)
            &&& k2.table.wf()
            &&& k2.mm.wf()
            &&& join_woken(&k1.table, &k2.table, k1.mm@, k2.mm@, k1.layout, target, jr)
            &&& k2 == (Kernel { table: k2.table, mm: k2.mm, markers: k2.markers, out: k2.out, ..k1 })
            &&& k2.out@ == k1.out@.add(nb)
            &&& if jr {
                join_reap_noted(k1.markers, k2.markers, k2.mm@, nb)
            } else {
                k2.markers == k1.markers && nb == Seq::<u8>::empty()
            }
            &&& *new_k == Kernel { table: new_k.table, ..k2 }
            &&& new_k.table.same_meta(&k2.table)
            &&& new_k.table.tasks() == stranded_released(
                k2.table.tasks(),
                k2.layout,
                k2.table.capacity(),
            )
        };
    assert(waits_send_to(tasks[j], target));
    let released = unblocked_task(tasks[j], u64::MAX, 0, TaskReturnKind::Send, old_k.layout);
    assert(k1.table.tasks()[j] == released);
    let lt = table::id_local(target);
    assert(lt != j);
    k1.table.lemma_wf_bounds();
    k2.table.lemma_wf_bounds();
    if jr {
        let (jw, t1) = choose|jw: int, t1: TaskTable|
            {
                &&& is_first_with(
                    k1.table.tasks(),
                    k1.table.capacity(),
                    |task: Task| table::waits_join(task, target),
                    jw,
                )
                &&& jw != table::id_local(target)
                &&& t1.same_meta(&k1.table)
                &&& t1.tasks() == k1.table.tasks().update(
                    jw,
                    joined_task(
                        k1.table.tasks()[jw],
                        table::join_status_of(&k1.table, target)->Some_0,
                        k1.layout,
                    ),
                )
                &&& reaped(&t1, &k2.table, k1.mm@, k2.mm@, target)
            };
        assert(jw != j);
        assert(t1.tasks()[j] == released);
        assert(k2.table.tasks()[j] == released);
    } else {
        assert(k2.table.tasks()[j] == released);
    }
    lemma_stranded_released_keeps(k2.table.tasks(), k2.layout, k2.table.capacity(), j);
}

/// The message a receive writes is the one the first waiting sender stored:
/// after `store_pending` put `bytes` (of `len` bytes) in that sender's slot,
/// a receive with room for them writes exactly those bytes to its buffer and
/// returns the length and the sender's id.
pub proof fn lemma_recv_delivers_stored(
    k0: &Kernel,
    k1: &Kernel,
    k2: &Kernel,
    j: int,
    bytes: [u8; 32],
    len: u8,
    self_id: TaskId,
    old_f: Riscv64TrapFrame,
    new_f: Riscv64TrapFrame,
    ptr: u64,
    max: u64,
    csrs: TrapCsrs,
    r: EcallAction,
)
    requires
        k0.wf(),
        task_set(k0, k1, j, Task { ipc_pending: bytes, ipc_len: len, ..k0.table.tasks()[j] }),
        first_send_waiter(k1.table.tasks(), k1.table.capacity(), self_id, j),
        len <= max,
        slot_stack_holds(&k1.table, self_id, ptr, len as u64),
        recv_effect(k1, k2, self_id, old_f, new_f, ptr, max, csrs, r),
    ensures
        r == (EcallAction::WriteUser { bytes, dst: ptr, len: len as u64, resume: resume_of(csrs) }),
        new_f.a0 == len,
        new_f.a1 == k0.table.tasks()[j].id.0,
{
    let tasks = k1.table.tasks();
    let cap = k1.table.capacity();
    k0.table.lemma_wf_bounds();
    k1.table.lemma_wf_bounds();
    assert(tasks[j].ipc_pending == bytes && tasks[j].ipc_len == len);
    let jj = choose|jj: int| first_send_waiter(tasks, cap, self_id, jj);
    if jj < j {
        assert(waits_send_to(tasks[jj], self_id));
    } else if j < jj {
        assert(waits_send_to(tasks[j], self_id));
    }
    assert(jj == j);
}

} // verus!
