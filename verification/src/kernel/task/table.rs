//! Per-hart task table: fixed-capacity slots with an intrusive free list,
//! packed generation/hart/slot task ids, task state transitions and the
//! queries the scheduler and IPC make.
use vstd::prelude::*;
use crate::kernel::memory::{
    self, alloc_outcome, free_outcome, in_user_text, Layout, PageAllocator, PhysPage, PoolView, PAGE_SIZE,
};
use crate::kernel::trap_frame::{image_valid, TrapImage};
use crate::platform::HART_SLOTS;
use crate::drivers::uart::{self, crlf, dec_text, hex_text, line_bytes};
use vstd::string::*;

verus! {

pub const TASK_NAME_LEN: usize = 16;

pub const IPC_BUF_LEN: usize = 32;

/// Largest table a hart builds.
pub const MAX_TABLE_CAP: usize = 512;

/// Smallest table a hart builds.
pub const MIN_TABLE_CAP: usize = 4;

/// Packed task id: generation in bits 32..48, hart in bits 16..32, slot index
/// in bits 0..16. Id 0 is reserved (generations start at 1).
#[derive(Clone, Copy, Debug, PartialEq, Eq, Structural)]
pub struct TaskId(pub u64);

pub open spec fn pack_id(generation: int, hart: int, local: int) -> int {
    generation * 0x1_0000_0000 + hart * 0x1_0000 + local
}

pub open spec fn id_generation(id: TaskId) -> int {
    (id.0 / 0x1_0000_0000) as int % 0x1_0000
}

pub open spec fn id_hart(id: TaskId) -> int {
    (id.0 / 0x1_0000) as int % 0x1_0000
}

pub open spec fn id_local(id: TaskId) -> int {
    id.0 as int % 0x1_0000
}

pub open spec fn id_valid(id: TaskId) -> bool {
    id.0 != 0 && id.0 != u64::MAX
}

impl TaskId {
    pub fn new(generation: u16, hart: u16, local: u16) -> (r: Self)
        ensures
            r.0 == pack_id(generation as int, hart as int, local as int),
            id_generation(r) == generation,
            id_hart(r) == hart,
            id_local(r) == local,
    {
        let g = generation as u64;
        let h = hart as u64;
        let l = local as u64;
        let v = (g << 32u64) | (h << 16u64) | l;
        assert(v == g * 0x1_0000_0000 + h * 0x1_0000 + l) by (bit_vector)
            requires
                g < 0x1_0000,
                h < 0x1_0000,
                l < 0x1_0000,
                v == (g << 32u64) | (h << 16u64) | l,
        ;
        Self(v)
    }

    pub fn hart(self) -> (r: u16)
        ensures
            r == id_hart(self),
    {
        let x = self.0;
        assert(((x >> 16u64) as u16) as int == (x / 0x1_0000) as int % 0x1_0000) by (bit_vector);
        (x >> 16u64) as u16
    }

    pub fn local(self) -> (r: u16)
        ensures
            r == id_local(self),
    {
        let x = self.0;
        assert((x as u16) as int == x as int % 0x1_0000) by (bit_vector);
        x as u16
    }

    pub fn is_valid(self) -> (r: bool)
        ensures
            r == id_valid(self),
    {
        self.0 != 0 && self.0 != u64::MAX
    }
}

/// A packed id names the generation, hart and slot it was built from, and it
/// is a valid id whenever its generation is not zero.
pub proof fn lemma_task_id_roundtrip(generation: u16, hart: u16, local: u16)
    ensures
        ({
            let id = TaskId(pack_id(generation as int, hart as int, local as int) as u64);
            &&& id_generation(id) == generation
            &&& id_hart(id) == hart
            &&& id_local(id) == local
            &&& generation != 0 ==> id_valid(id)
        }),
{
    let g = generation as u64;
    let h = hart as u64;
    let l = local as u64;
    let v = (g * 0x1_0000_0000 + h * 0x1_0000 + l) as u64;
    assert(v == g * 0x1_0000_0000 + h * 0x1_0000 + l) by (bit_vector)
        requires
            g < 0x1_0000,
            h < 0x1_0000,
            l < 0x1_0000,
            v == (g * 0x1_0000_0000 + h * 0x1_0000 + l) as u64,
    ;
    assert(v / 0x1_0000_0000 % 0x1_0000 == g && v / 0x1_0000 % 0x1_0000 == h && v % 0x1_0000 == l
        && (g != 0 ==> v != 0 && v != 0xffff_ffff_ffff_ffff)) by (bit_vector)
        requires
            g < 0x1_0000,
            h < 0x1_0000,
            l < 0x1_0000,
            v == g * 0x1_0000_0000 + h * 0x1_0000 + l,
    ;
}

#[derive(Clone, Copy, Debug, PartialEq, Eq, Structural)]
pub enum TaskState {
    Empty,
    Ready,
    Running,
    Blocked,
    Finished,
    Faulted,
}

#[derive(Clone, Copy, Debug, PartialEq, Eq, Structural)]
pub enum TaskReturnKind {
    NoReturn,
    Exit,
    Yield,
    Sleep,
    Fault,
    Join,
    Send,
    Recv,
}

#[derive(Clone, Copy, Debug, PartialEq, Eq, Structural)]
pub enum BlockReason {
    SleepUntil(u64),
    Join(TaskId),
    Send { to: TaskId, len: u8 },
    Recv { ptr: u64, max: u64 },
}

#[derive(Clone, Copy, Debug, PartialEq, Eq, Structural)]
pub enum TaskFaultReason {
    Breakpoint,
    InstructionAccessFault,
    LoadAccessFault,
    StoreAccessFault,
    IllegalInstruction,
    Unknown(u64),
}

pub open spec fn fault_reason_of(cause: u64) -> TaskFaultReason {
    if cause == 1 {
        TaskFaultReason::InstructionAccessFault
    } else if cause == 2 {
        TaskFaultReason::IllegalInstruction
    } else if cause == 3 {
        TaskFaultReason::Breakpoint
    } else if cause == 5 {
        TaskFaultReason::LoadAccessFault
    } else if cause == 7 {
        TaskFaultReason::StoreAccessFault
    } else {
        TaskFaultReason::Unknown(cause)
    }
}

impl TaskFaultReason {
    /// Fault reason of a synchronous exception code.
    pub fn from_mcause(cause: u64) -> (r: Self)
        ensures
            r == fault_reason_of(cause),
    {
        match cause {
            1 => Self::InstructionAccessFault,
            2 => Self::IllegalInstruction,
            3 => Self::Breakpoint,
            5 => Self::LoadAccessFault,
            7 => Self::StoreAccessFault,
            other => Self::Unknown(other),
        }
    }
}

#[derive(Clone, Copy)]
pub struct Task {
    pub id: TaskId,
    pub state: TaskState,
    pub name: [u8; 16],
    pub stack_start: u64,
    pub stack_top: u64,
    pub initial_sp: u64,
    pub initial_pc: u64,
    pub trap_image: Option<TrapImage>,
    pub has_started: bool,
    pub can_resume: bool,
    pub last_return_kind: TaskReturnKind,
    pub block: Option<BlockReason>,
    pub spawn_arg: u64,
    pub ipc_pending: [u8; 32],
    pub ipc_len: u8,
    pub next_free: Option<u16>,
}

/// The empty slot value.
pub open spec fn is_empty_task(t: Task) -> bool {
    is_vacant(t) && t.next_free is None
}

/// Every field of an empty slot but its free-list link.
pub open spec fn is_vacant(t: Task) -> bool {
    &&& t.id == TaskId(0)
    &&& t.state == TaskState::Empty
    &&& t.name@ == Seq::new(16, |i: int| 0u8)
    &&& t.stack_start == 0 && t.stack_top == 0 && t.initial_sp == 0 && t.initial_pc == 0
    &&& t.trap_image is None
    &&& !t.has_started && !t.can_resume
    &&& t.last_return_kind == TaskReturnKind::NoReturn
    &&& t.block is None
    &&& t.spawn_arg == 0
    &&& t.ipc_pending@ == Seq::new(32, |i: int| 0u8)
    &&& t.ipc_len == 0
}

impl Task {
    pub fn empty() -> (r: Self)
        ensures
            is_empty_task(r),
    {
        let r = Self {
            id: TaskId(0),
            state: TaskState::Empty,
            name: [0u8; 16],
            stack_start: 0,
            stack_top: 0,
            initial_sp: 0,
            initial_pc: 0,
            trap_image: None,
            has_started: false,
            can_resume: false,
            last_return_kind: TaskReturnKind::NoReturn,
            block: None,
            spawn_arg: 0,
            ipc_pending: [0u8; 32],
            ipc_len: 0,
            next_free: None,
        };
        assert(r.name@ =~= Seq::new(16, |i: int| 0u8));
        assert(r.ipc_pending@ =~= Seq::new(32, |i: int| 0u8));
        r
    }
}

/// Facts every occupied slot `j` of hart `hart`'s table satisfies.
pub open spec fn occupied_ok(t: Task, hart: int, j: int) -> bool {
    &&& id_local(t.id) == j
    &&& id_hart(t.id) == hart
    &&& id_generation(t.id) >= 1
    &&& t.id.0 < 0x1_0000_0000_0000
    &&& t.next_free is None
    &&& t.stack_start % PAGE_SIZE == 0
    &&& t.stack_top == t.stack_start + PAGE_SIZE
}

/// One hart's task table.
pub struct TaskTable {
    slots: Vec<Task>,
    cap: usize,
    used: usize,
    generation: u16,
    free_head: Option<u16>,
    hart: u16,
    free_list: Ghost<Seq<int>>,
}

impl TaskTable {
    /// The slots, by local index.
    pub closed spec fn tasks(&self) -> Seq<Task> {
        self.slots@
    }

    pub closed spec fn capacity(&self) -> int {
        self.cap as int
    }

    pub closed spec fn used_slots(&self) -> int {
        self.used as int
    }

    /// Generation stamped into the next spawned id.
    pub closed spec fn current_generation(&self) -> int {
        self.generation as int
    }

    /// Hart whose ids this table issues.
    pub closed spec fn hart_id(&self) -> int {
        self.hart as int
    }

    /// Free slots in the order `spawn` takes them.
    pub closed spec fn free_slots(&self) -> Seq<int> {
        self.free_list@
    }

    pub closed spec fn wf(&self) -> bool {
        let fl = self.free_list@;
        &&& self.slots@.len() == self.cap
        &&& self.cap <= MAX_TABLE_CAP
        &&& self.generation >= 1
        &&& self.hart < HART_SLOTS
        &&& fl.no_duplicates()
        &&& forall|i: int| 0 <= i < fl.len() ==> 0 <= #[trigger] fl[i] < self.cap
        &&& self.free_head == if fl.len() == 0 {
            None::<u16>
        } else {
            Some(fl[0] as u16)
        }
        &&& forall|i: int|
            0 <= i < fl.len() ==> #[trigger] self.slots@[fl[i]].next_free == if i + 1 < fl.len() {
                Some(fl[i + 1] as u16)
            } else {
                None::<u16>
            }
        &&& forall|j: int|
            0 <= j < self.cap ==> (#[trigger] self.slots@[j].state == TaskState::Empty
                <==> fl.contains(j))
        &&& self.used == self.cap - fl.len()
        &&& forall|j: int|
            0 <= j < self.cap && self.slots@[j].state != TaskState::Empty ==> occupied_ok(
                #[trigger] self.slots@[j],
                self.hart as int,
                j,
            )
        &&& forall|j: int|
            0 <= j < self.cap && self.slots@[j].state != TaskState::Empty ==> id_generation(
                #[trigger] self.slots@[j].id,
            ) == self.generation
    }

    /// Tables agree on everything but the slot contents.
    pub open spec fn same_meta(&self, other: &Self) -> bool {
        &&& self.capacity() == other.capacity()
        &&& self.used_slots() == other.used_slots()
        &&& self.current_generation() == other.current_generation()
        &&& self.hart_id() == other.hart_id()
        &&& self.free_slots() == other.free_slots()
    }

    /// The occupied slot that `id` names, if any.
    pub open spec fn slot_of(&self, id: TaskId) -> Option<Task> {
        let i = id_local(id);
        if i < self.capacity() && self.tasks()[i].state != TaskState::Empty && self.tasks()[i].id
            == id {
            Some(self.tasks()[i])
        } else {
            None
        }
    }

    /// Bounds every well-formed table satisfies.
    pub proof fn lemma_wf_bounds(&self)
        requires
            self.wf(),
        ensures
            0 <= self.hart_id() < HART_SLOTS,
            0 <= self.capacity() <= MAX_TABLE_CAP,
            self.tasks().len() == self.capacity(),
            1 <= self.current_generation() < 0x1_0000,
            self.used_slots() == self.capacity() - self.free_slots().len(),
            forall|i: int|
                0 <= i < self.free_slots().len() ==> 0 <= #[trigger] self.free_slots()[i]
                    < self.capacity(),
            forall|j: int|
                0 <= j < self.capacity() && self.tasks()[j].state != TaskState::Empty ==> occupied_ok(
                    #[trigger] self.tasks()[j],
                    self.hart_id(),
                    j,
                ),
            forall|j: int|
                0 <= j < self.capacity() && self.tasks()[j].state != TaskState::Empty ==> id_generation(
                    #[trigger] self.tasks()[j].id,
                ) == self.current_generation(),
    {
    }

    /// `id` names a Finished or Faulted task of this hart.
    pub open spec fn is_reapable(&self, id: TaskId) -> bool {
        &&& id_hart(id) == self.hart_id()
        &&& match self.slot_of(id) {
            Some(task) => task.state == TaskState::Finished || task.state == TaskState::Faulted,
            None => false,
        }
    }

    /// A table with no slots, issuing ids for `hart`; [`init`] sizes it.
    pub fn uninit(hart: u16) -> (r: Self)
        requires
            hart < HART_SLOTS,
        ensures
            r.wf(),
            r.capacity() == 0,
            r.used_slots() == 0,
            r.current_generation() == 1,
            r.hart_id() == hart,
            r.free_slots() == Seq::<int>::empty(),
    {
        TaskTable {
            slots: Vec::new(),
            cap: 0,
            used: 0,
            generation: 1,
            free_head: None,
            hart,
            free_list: Ghost(Seq::empty()),
        }
    }

    fn slot_index(&self, id: TaskId) -> (r: Option<usize>)
        requires
            self.wf(),
        ensures
            r == (if self.slot_of(id) is Some {
                Some(id_local(id) as usize)
            } else {
                None::<usize>
            }),
    {
        let idx = id.local() as usize;
        if idx >= self.cap {
            return None;
        }
        let slot = &self.slots[idx];
        if slot.state == TaskState::Empty || slot.id != id {
            None
        } else {
            Some(idx)
        }
    }
}

} // verus!

verus! {

/// The 16-byte name field stored for `name`: its first 15 bytes, zero padded.
pub open spec fn name_field(name: Seq<u8>) -> Seq<u8> {
    Seq::new(
        16,
        |i: int|
            if i < name.len() && i < TASK_NAME_LEN - 1 {
                name[i]
            } else {
                0u8
            },
    )
}

/// The slot written for a newly spawned task.
pub open spec fn is_spawned(
    t: Task,
    id: TaskId,
    name: Seq<u8>,
    stack: int,
    entry_pc: u64,
    arg: u64,
) -> bool {
    &&& t.id == id
    &&& t.state == TaskState::Ready
    &&& t.name@ == name_field(name)
    &&& t.stack_start == stack
    &&& t.stack_top == stack + PAGE_SIZE
    &&& t.initial_sp == stack + PAGE_SIZE
    &&& t.initial_pc == entry_pc
    &&& t.trap_image is None
    &&& !t.has_started && !t.can_resume
    &&& t.last_return_kind == TaskReturnKind::NoReturn
    &&& t.block is None
    &&& t.spawn_arg == arg
    &&& t.ipc_pending@ == Seq::new(32, |i: int| 0u8)
    &&& t.ipc_len == 0
    &&& t.next_free is None
}

/// Table capacity for a hart with `free_pages` free pages: one slot per 8
/// free pages, at least `MIN_TABLE_CAP` and at most `MAX_TABLE_CAP`.
pub open spec fn table_cap_for(free_pages: int) -> int {
    let c = free_pages / 8;
    if c < MIN_TABLE_CAP {
        MIN_TABLE_CAP as int
    } else if c > MAX_TABLE_CAP {
        MAX_TABLE_CAP as int
    } else {
        c
    }
}

/// Pages backing `cap` slots of `task_size` bytes.
pub open spec fn table_pages(cap: int, task_size: int) -> int {
    let bytes = cap * task_size;
    bytes / (PAGE_SIZE as int) + if bytes % (PAGE_SIZE as int) != 0 {
        1int
    } else {
        0int
    }
}

/// The effect of sizing and backing a hart's table: the capacity follows the
/// number of free pages in the hart's pool, the slots come from one run of pages of its
/// pool, and every slot is free; nothing changes when the pool cannot back
/// it.
pub open spec fn initialized(
    old_t: &TaskTable,
    new_t: &TaskTable,
    old_mm: Seq<PoolView>,
    new_mm: Seq<PoolView>,
    task_size: int,
    r: Option<(usize, usize)>,
) -> bool {
    let h = old_t.hart_id();
    let cap = table_cap_for(old_mm[h].valid_bits - old_mm[h].used);
    let pages = table_pages(cap, task_size);
    match alloc_outcome(old_mm[h], pages) {
        None => r is None && new_mm == old_mm && new_t.tasks() == old_t.tasks()
            && new_t.same_meta(old_t),
        Some((s, np)) => {
            &&& r == Some((cap as usize, pages as usize))
            &&& new_mm == old_mm.update(h, np)
            &&& new_t.capacity() == cap
            &&& new_t.used_slots() == 0
            &&& new_t.current_generation() == 1
            &&& new_t.hart_id() == h
            &&& new_t.free_slots() == Seq::new(cap as nat, |i: int| i)
            &&& forall|j: int| 0 <= j < cap ==> #[trigger] is_vacant(new_t.tasks()[j])
        },
    }
}

/// Size the table from the hart's free memory, back it with pages from the
/// hart's pool and mark every slot free. Returns the capacity and the page
/// count, or `None` (nothing changed) when the pool cannot back it.
pub fn init(t: &mut TaskTable, mm: &mut PageAllocator, task_size: usize) -> (r: Option<(usize, usize)>)
    requires
        old(t).wf(),
        old(mm).wf(),
        task_size <= 0x10_0000,
    ensures
        final(t).wf(),
        final(mm).wf(),
        initialized(old(t), final(t), old(mm)@, final(mm)@, task_size as int, r),
{
    let hart = t.hart as usize;
    let local_free = memory::free_page_count(mm, hart);
    let c = local_free / 8;
    let computed_cap: usize = if c < MIN_TABLE_CAP as u64 {
        MIN_TABLE_CAP
    } else if c > MAX_TABLE_CAP as u64 {
        MAX_TABLE_CAP
    } else {
        c as usize
    };
    assert(computed_cap * task_size <= MAX_TABLE_CAP * 0x10_0000) by (nonlinear_arith)
        requires
            computed_cap <= MAX_TABLE_CAP,
            task_size <= 0x10_0000,
    ;
    let bytes_needed = computed_cap * task_size;
    let pages_needed = bytes_needed / (PAGE_SIZE as usize) + if bytes_needed % (PAGE_SIZE as usize)
        != 0 {
        1
    } else {
        0
    };
    let page = memory::alloc_pages(mm, hart, pages_needed);
    if page.is_none() {
        return None;
    }
    let mut slots: Vec<Task> = Vec::new();
    let mut i: usize = 0;
    while i < computed_cap
        invariant
            i <= computed_cap <= MAX_TABLE_CAP,
            slots@.len() == i,
            forall|j: int| 0 <= j < i ==> #[trigger] is_vacant(slots@[j]),
            forall|j: int|
                0 <= j < i ==> (#[trigger] slots@[j]).next_free == if j + 1 < computed_cap {
                    Some((j + 1) as u16)
                } else {
                    None::<u16>
                },
        decreases computed_cap - i,
    {
        let mut slot = Task::empty();
        slot.next_free = if i + 1 < computed_cap {
            Some((i + 1) as u16)
        } else {
            None
        };
        assert(is_vacant(slot));
        let ghost before = slots@;
        slots.push(slot);
        assert(slots@ == before.push(slot));
        assert(slots@[i as int] == slot);
        i = i + 1;
    }
    let ghost fl = Seq::new(computed_cap as nat, |i: int| i);
    assert(computed_cap >= MIN_TABLE_CAP);
    t.slots = slots;
    t.cap = computed_cap;
    t.used = 0;
    t.generation = 1;
    t.free_head = Some(0);
    t.free_list = Ghost(fl);
    proof {
        assert forall|j: int| 0 <= j < t.cap implies (#[trigger] t.slots@[j].state
            == TaskState::Empty <==> fl.contains(j)) by {
            assert(is_vacant(t.slots@[j]));
            assert(fl[j] == j);
        }
        assert forall|i: int| 0 <= i < fl.len() implies #[trigger] t.slots@[fl[i]].next_free
            == if i + 1 < fl.len() {
            Some(fl[i + 1] as u16)
        } else {
            None::<u16>
        } by {
            assert(fl[i] == i);
        }
        assert forall|j: int|
            0 <= j < t.cap && t.slots@[j].state != TaskState::Empty implies occupied_ok(
            #[trigger] t.slots@[j],
            t.hart as int,
            j,
        ) by {
            assert(is_vacant(t.slots@[j]));
        }
        assert forall|j: int|
            0 <= j < t.cap && t.slots@[j].state != TaskState::Empty implies id_generation(
            #[trigger] t.slots@[j].id,
        ) == t.generation by {
            assert(is_vacant(t.slots@[j]));
        }
        assert forall|a: int, b: int|
            0 <= a < fl.len() && 0 <= b < fl.len() && a != b implies fl[a] != fl[b] by {}
    }
    Some((computed_cap, pages_needed))
}

/// What setting up hart `h`'s table prints, given what [`init`] returned:
/// the capacity and page count on hart 0, the failure line (the hart then
/// halts) when the pool cannot back the table.
pub open spec fn init_text(h: int, r: Option<(usize, usize)>) -> Seq<u8> {
    match r {
        None => line_bytes("mm: hart pool too small for table".spec_bytes()),
        Some((cap, pages)) => if h == 0 {
            crlf("task table hart 0: cap ".spec_bytes()) + dec_text(cap as u64) + crlf(
                " pages ".spec_bytes(),
            ) + dec_text(pages as u64) + line_bytes("".spec_bytes())
        } else {
            Seq::empty()
        },
    }
}

/// The console report of setting up `t`, given what [`init`] returned.
pub fn print_init(t: &TaskTable, r: Option<(usize, usize)>) -> (out: Vec<u8>)
    requires
        t.wf(),
    ensures
        out@ == init_text(t.hart_id(), r),
{
    match r {
        None => uart::write_line("mm: hart pool too small for table"),
        Some((cap, pages)) => {
            if t.hart == 0 {
                let mut out = uart::write_str("task table hart 0: cap ");
                let mut a = uart::write_dec_u64(cap as u64);
                out.append(&mut a);
                let mut b = uart::write_str(" pages ");
                out.append(&mut b);
                let mut c = uart::write_dec_u64(pages as u64);
                out.append(&mut c);
                let mut d = uart::write_line("");
                out.append(&mut d);
                out
            } else {
                Vec::new()
            }
        },
    }
}

proof fn lemma_free_list_short(fl: Seq<int>, cap: int, x: int)
    requires
        fl.no_duplicates(),
        forall|i: int| 0 <= i < fl.len() ==> 0 <= #[trigger] fl[i] < cap,
        0 <= x < cap,
        !fl.contains(x),
    ensures
        fl.len() < cap,
{
    broadcast use vstd::set::group_set_axioms;

    fl.unique_seq_to_set();
    vstd::set_lib::lemma_int_range(0, cap);
    let r = vstd::set_lib::set_int_range(0, cap).remove(x);
    assert forall|v: int| fl.to_set().contains(v) implies r.contains(v) by {
        let k = choose|k: int| 0 <= k < fl.len() && fl[k] == v;
    }
    vstd::set_lib::lemma_len_subset(fl.to_set(), r);
}

/// Copy a task name into the fixed name field: at most 15 bytes, zero padded.
fn copy_name(dst: &mut [u8; 16], name: &[u8])
    ensures
        final(dst)@ == name_field(name@),
{
    let len = if name.len() < TASK_NAME_LEN - 1 {
        name.len()
    } else {
        TASK_NAME_LEN - 1
    };
    let mut i: usize = 0;
    while i < TASK_NAME_LEN
        invariant
            i <= TASK_NAME_LEN,
            len <= name@.len(),
            len == if name@.len() < TASK_NAME_LEN - 1 {
                name@.len()
            } else {
                (TASK_NAME_LEN - 1) as nat
            },
            dst@.len() == 16,
            forall|j: int| 0 <= j < i ==> dst@[j] == name_field(name@)[j],
        decreases TASK_NAME_LEN - i,
    {
        if i < len {
            dst[i] = name[i];
        } else {
            dst[i] = 0;
        }
        i = i + 1;
    }
    assert(dst@ =~= name_field(name@));
}

/// The effect of spawning a task named `name`: the first free slot holds it,
/// with a one-page stack taken from this hart's pool; nothing changes when no
/// slot or no page is free.
pub open spec fn spawned(
    old_t: &TaskTable,
    new_t: &TaskTable,
    old_mm: Seq<PoolView>,
    new_mm: Seq<PoolView>,
    name: Seq<u8>,
    entry_pc: u64,
    arg: u64,
    r: Option<TaskId>,
) -> bool {
    let h = old_t.hart_id();
    if old_t.free_slots().len() == 0 {
        r is None && new_mm == old_mm && new_t.tasks() == old_t.tasks()
            && new_t.same_meta(old_t)
    } else {
        let local = old_t.free_slots()[0];
        let id = TaskId(pack_id(old_t.current_generation(), h, local) as u64);
        match alloc_outcome(old_mm[h], 1) {
            None => r is None && new_mm == old_mm && new_t.tasks() == old_t.tasks() && new_t.same_meta(old_t),
            Some((s, np)) => {
                &&& r == Some(id)
                &&& new_mm == old_mm.update(h, np)
                &&& new_t.tasks().len() == old_t.tasks().len()
                &&& is_spawned(
                    new_t.tasks()[local],
                    id,
                    name,
                    old_mm[h].base + s * PAGE_SIZE,
                    entry_pc,
                    arg,
                )
                &&& forall|j: int|
                    0 <= j < old_t.capacity() && j != local ==> #[trigger] new_t.tasks()[j] == old_t.tasks()[j]
                &&& new_t.capacity() == old_t.capacity()
                &&& new_t.used_slots() == old_t.used_slots() + 1
                &&& new_t.current_generation() == old_t.current_generation()
                &&& new_t.hart_id() == h
                &&& new_t.free_slots() == old_t.free_slots().drop_first()
            },
        }
    }
}

/// Spawn a Ready task named `name` that starts at `entry_pc` with `arg`, on a
/// fresh one-page stack from this hart's pool. Takes the first free slot.
pub fn spawn(
    t: &mut TaskTable,
    mm: &mut PageAllocator,
    name: &[u8],
    entry_pc: u64,
    arg: u64,
) -> (r: Option<TaskId>)
    requires
        old(t).wf(),
        old(mm).wf(),
    ensures
        final(t).wf(),
        final(mm).wf(),
        spawned(old(t), final(t), old(mm)@, final(mm)@, name@, entry_pc, arg, r),
{
    let ghost fl = t.free_list@;
    let local = match t.free_head {
        Some(l) => l,
        None => {
            return None;
        },
    };
    let idx = local as usize;
    proof {
        assert(fl.contains(fl[0]));
    }
    let id = TaskId::new(t.generation, t.hart, local);
    let hart = t.hart as usize;
    let ghost pool = mm@[hart as int];
    let stack_start = match memory::allocate_page(mm, hart) {
        Some(s) => s,
        None => {
            return None;
        },
    };
    proof {
        assert(memory::pool_wf(pool));
        let s = alloc_outcome(pool, 1)->Some_0.0;
        assert(0 <= s < pool.valid_bits);
        assert((pool.base + s * PAGE_SIZE) % (PAGE_SIZE as int) == 0) by (nonlinear_arith)
            requires
                pool.base % (PAGE_SIZE as int) == 0,
        ;
        assert(pool.base + s * PAGE_SIZE + PAGE_SIZE <= pool.base + pool.valid_bits * PAGE_SIZE)
            by (nonlinear_arith)
            requires
                0 <= s < pool.valid_bits,
        ;
    }
    let stack_top = stack_start + PAGE_SIZE;
    let mut printed_name = [0u8; 16];
    copy_name(&mut printed_name, name);
    let slot = Task {
        id,
        state: TaskState::Ready,
        name: printed_name,
        stack_start,
        stack_top,
        initial_sp: stack_top,
        initial_pc: entry_pc,
        trap_image: None,
        has_started: false,
        can_resume: false,
        last_return_kind: TaskReturnKind::NoReturn,
        block: None,
        spawn_arg: arg,
        ipc_pending: [0u8; 32],
        ipc_len: 0,
        next_free: None,
    };
    let next = t.slots[idx].next_free;
    t.slots.set(idx, slot);
    t.free_head = next;
    t.used = t.used + 1;
    t.free_list = Ghost(fl.drop_first());
    proof {
        assert(slot.ipc_pending@ =~= Seq::new(32, |i: int| 0u8));
        let nfl = fl.drop_first();
        assert forall|i: int| 0 <= i < nfl.len() implies #[trigger] t.slots@[nfl[i]].next_free
            == if i + 1 < nfl.len() {
            Some(nfl[i + 1] as u16)
        } else {
            None::<u16>
        } by {
            assert(nfl[i] == fl[i + 1]);
            assert(fl[i + 1] != fl[0]);
        }
        assert forall|j: int| 0 <= j < t.cap implies (#[trigger] t.slots@[j].state
            == TaskState::Empty <==> nfl.contains(j)) by {
            if j == idx {
                if nfl.contains(j) {
                    let k = choose|k: int| 0 <= k < nfl.len() && nfl[k] == j;
                    assert(fl[k + 1] == fl[0]);
                }
            } else {
                if fl.contains(j) {
                    let k = choose|k: int| 0 <= k < fl.len() && fl[k] == j;
                    assert(k != 0);
                    assert(nfl[k - 1] == j);
                }
                if nfl.contains(j) {
                    let k = choose|k: int| 0 <= k < nfl.len() && nfl[k] == j;
                    assert(fl[k + 1] == j);
                }
            }
        }
        lemma_task_id_roundtrip(t.generation, t.hart, local);
    }
    Some(id)
}

/// Spawn a U-mode task named `u-<hart digit>` at `entry_pc` with `arg`.
pub fn spawn_user(t: &mut TaskTable, mm: &mut PageAllocator, entry_pc: u64, arg: u64) -> (r:
    Option<TaskId>)
    requires
        old(t).wf(),
        old(mm).wf(),
    ensures
        final(t).wf(),
        final(mm).wf(),
        spawned(
            old(t),
            final(t),
            old(mm)@,
            final(mm)@,
            user_task_name(old(t).hart_id()),
            entry_pc,
            arg,
            r,
        ),
{
    let mut name = [0u8; 16];
    assert(name@ =~= Seq::new(16, |i: int| 0u8));
    format_user_task_name(&mut name, t.hart);
    spawn(t, mm, &name, entry_pc, arg)
}

/// Name of the user tasks of hart `h`: `u-`, the hart's last decimal digit, NUL.
pub open spec fn user_task_name(h: int) -> Seq<u8> {
    Seq::new(
        16,
        |i: int|
            if i == 0 {
                0x75u8
            } else if i == 1 {
                0x2du8
            } else if i == 2 {
                (0x30 + h % 10) as u8
            } else {
                0u8
            },
    )
}

fn format_user_task_name(dst: &mut [u8; 16], hart: u16)
    requires
        old(dst)@ == Seq::new(16, |i: int| 0u8),
        hart < HART_SLOTS,
    ensures
        final(dst)@ == user_task_name(hart as int),
{
    dst[0] = 0x75;
    dst[1] = 0x2d;
    let h = hart as u8;
    dst[2] = 0x30 + (h % 10);
    dst[3] = 0;
    assert(dst@ =~= user_task_name(hart as int));
}

/// The effect of reaping task `id`: its slot is vacant and first on the
/// free list, the generation stays, and its stack page is back in the
/// hart's pool.
pub open spec fn reaped(
    old_t: &TaskTable,
    new_t: &TaskTable,
    old_mm: Seq<PoolView>,
    new_mm: Seq<PoolView>,
    id: TaskId,
) -> bool {
    let local = id_local(id);
    let h = old_t.hart_id();
    let stack = old_t.tasks()[local].stack_start;
    &&& new_t.tasks().len() == old_t.tasks().len()
    &&& is_vacant(new_t.tasks()[local])
    &&& new_t.tasks()[local].next_free == if old_t.free_slots().len() == 0 {
        None::<u16>
    } else {
        Some(old_t.free_slots()[0] as u16)
    }
    &&& forall|j: int|
        0 <= j < old_t.capacity() && j != local ==> #[trigger] new_t.tasks()[j] == old_t.tasks()[j]
    &&& new_t.capacity() == old_t.capacity()
    &&& new_t.used_slots() == old_t.used_slots() - 1
    &&& new_t.current_generation() == old_t.current_generation()
    &&& new_t.hart_id() == h
    &&& new_t.free_slots() == seq![local].add(old_t.free_slots())
    &&& match free_outcome(old_mm[h], stack as int, 1) {
        None => new_mm == old_mm,
        Some(np) => new_mm == old_mm.update(h, np),
    }
}

/// Reap a Finished or Faulted task of this hart: its slot becomes the first
/// free slot, so the next spawn gets the reaped id back, and its stack page
/// returns to the hart's pool.
pub fn destroy(t: &mut TaskTable, mm: &mut PageAllocator, id: TaskId) -> (r: bool)
    requires
        old(t).wf(),
        old(mm).wf(),
    ensures
        final(t).wf(),
        final(mm).wf(),
        r == old(t).is_reapable(id),
        !r ==> final(mm)@ == old(mm)@ && final(t).tasks() == old(t).tasks() && final(t).same_meta(
            old(t),
        ),
        r ==> reaped(old(t), final(t), old(mm)@, final(mm)@, id),
{
    if id.hart() != t.hart {
        return false;
    }
    let local_idx = id.local() as usize;
    if local_idx >= t.cap {
        return false;
    }
    let old_slot = t.slots[local_idx];
    if old_slot.id != id || !(old_slot.state == TaskState::Finished || old_slot.state
        == TaskState::Faulted) {
        return false;
    }
    let ghost fl = t.free_list@;
    let stack = old_slot.stack_start;
    let mut slot = Task::empty();
    slot.next_free = t.free_head;
    t.slots.set(local_idx, slot);
    t.free_head = Some(local_idx as u16);
    t.used = t.used.saturating_sub(1);
    let ghost nfl = seq![local_idx as int].add(fl);
    t.free_list = Ghost(nfl);
    proof {
        assert(!fl.contains(local_idx as int));
        lemma_free_list_short(fl, old(t).cap as int, local_idx as int);
        assert(t.used == t.cap - nfl.len());
        assert(nfl.no_duplicates()) by {
            assert forall|a: int, b: int|
                0 <= a < nfl.len() && 0 <= b < nfl.len() && a != b implies nfl[a] != nfl[b] by {
                if a == 0 {
                    assert(nfl[b] == fl[b - 1]);
                } else if b == 0 {
                    assert(nfl[a] == fl[a - 1]);
                } else {
                    assert(nfl[a] == fl[a - 1] && nfl[b] == fl[b - 1]);
                }
            }
        }
        assert forall|i: int| 0 <= i < nfl.len() implies #[trigger] t.slots@[nfl[i]].next_free
            == if i + 1 < nfl.len() {
            Some(nfl[i + 1] as u16)
        } else {
            None::<u16>
        } by {
            if i > 0 {
                assert(nfl[i] == fl[i - 1]);
                assert(nfl[i] != local_idx);
            }
        }
        assert forall|j: int| 0 <= j < t.cap implies (#[trigger] t.slots@[j].state
            == TaskState::Empty <==> nfl.contains(j)) by {
            if j == local_idx {
                assert(nfl[0] == j);
            } else {
                if fl.contains(j) {
                    let k = choose|k: int| 0 <= k < fl.len() && fl[k] == j;
                    assert(nfl[k + 1] == j);
                }
                if nfl.contains(j) {
                    let k = choose|k: int| 0 <= k < nfl.len() && nfl[k] == j;
                    assert(k != 0);
                    assert(fl[k - 1] == j);
                }
            }
        }
    }
    match PhysPage::new(stack) {
        Some(page) => {
            memory::free_pages(mm, t.hart as usize, page, 1);
        },
        None => {},
    }
    true
}

} // verus!

verus! {

/// The saved image of `t` can be resumed: it is valid, its stack pointer lies
/// in the task's stack and its PC lies in `.usertext`.
pub open spec fn resume_frame_safe(t: Task, layout: Layout) -> bool {
    match t.trap_image {
        Some(img) => image_valid(img) && t.stack_start <= img.gpr.sp && img.gpr.sp <= t.stack_top
            && in_user_text(layout, img.mepc),
        None => false,
    }
}

/// The scheduler may run `t`: Ready, and either never started or resumable.
pub open spec fn dispatchable(t: Task, layout: Layout) -> bool {
    &&& t.state == TaskState::Ready
    &&& (!t.has_started && !t.can_resume) || (t.can_resume && resume_frame_safe(t, layout))
}

fn is_resume_frame_safe(task: &Task, layout: &Layout) -> (r: bool)
    ensures
        r == resume_frame_safe(*task, *layout),
{
    match &task.trap_image {
        Some(image) => image.is_valid() && task.stack_start <= image.gpr.sp && image.gpr.sp
            <= task.stack_top && memory::is_inside_user_text(layout, image.mepc),
        None => false,
    }
}

fn is_dispatchable_task_ref(task: &Task, layout: &Layout) -> (r: bool)
    ensures
        r == dispatchable(*task, *layout),
{
    if task.state != TaskState::Ready {
        return false;
    }
    if !task.has_started && !task.can_resume {
        return true;
    }
    task.can_resume && is_resume_frame_safe(task, layout)
}

pub open spec fn with_state(t: Task, s: TaskState) -> Task {
    Task { state: s, ..t }
}

pub open spec fn finished_task(t: Task) -> Task {
    Task {
        state: TaskState::Finished,
        last_return_kind: TaskReturnKind::Exit,
        can_resume: false,
        block: None,
        ..t
    }
}

pub open spec fn faulted_task(t: Task) -> Task {
    Task {
        state: TaskState::Faulted,
        last_return_kind: TaskReturnKind::Fault,
        can_resume: false,
        block: None,
        ..t
    }
}

pub open spec fn preempted_task(t: Task, image: TrapImage) -> Task {
    Task {
        trap_image: Some(image),
        state: TaskState::Ready,
        last_return_kind: TaskReturnKind::Yield,
        can_resume: true,
        block: None,
        ..t
    }
}

pub open spec fn blocked_task(t: Task, kind: TaskReturnKind, reason: BlockReason) -> Task {
    Task {
        state: TaskState::Blocked,
        last_return_kind: kind,
        can_resume: false,
        block: Some(reason),
        ..t
    }
}

/// A saved image with `a0`/`a1` replaced.
pub open spec fn image_with_ret(img: Option<TrapImage>, a0: Option<u64>, a1: Option<u64>) -> Option<
    TrapImage,
> {
    match img {
        Some(i) => Some(
            TrapImage {
                gpr: crate::kernel::trap_frame::Riscv64TrapFrame {
                    a0: match a0 {
                        Some(v) => v,
                        None => i.gpr.a0,
                    },
                    a1: match a1 {
                        Some(v) => v,
                        None => i.gpr.a1,
                    },
                    ..i.gpr
                },
                ..i
            },
        ),
        None => None,
    }
}

/// An all-zero message buffer.
pub open spec fn zero_payload() -> [u8; 32] {
    vstd::array::spec_array_fill_for_copy_type::<u8, 32>(0u8)
}

/// A Blocked task made Ready again, its syscall returning `a0`/`a1` and its
/// pending message dropped.
pub open spec fn unblocked_task(t: Task, a0: u64, a1: u64, kind: TaskReturnKind, layout: Layout) -> Task {
    let t2 = Task {
        trap_image: image_with_ret(t.trap_image, Some(a0), Some(a1)),
        state: TaskState::Ready,
        block: None,
        ipc_pending: zero_payload(),
        ipc_len: 0,
        ..t
    };
    let safe = resume_frame_safe(t2, layout);
    Task {
        can_resume: safe,
        last_return_kind: if safe {
            kind
        } else {
            TaskReturnKind::NoReturn
        },
        ..t2
    }
}

/// A sleeping task woken by the tick.
pub open spec fn woken_task(t: Task, layout: Layout) -> Task {
    let safe = resume_frame_safe(t, layout);
    Task {
        state: TaskState::Ready,
        block: None,
        can_resume: safe,
        last_return_kind: if safe {
            TaskReturnKind::Sleep
        } else {
            TaskReturnKind::NoReturn
        },
        ..t
    }
}

/// `t` sleeps until a tick that `tick` has reached.
pub open spec fn wakes_at(t: Task, tick: u64) -> bool {
    &&& t.state == TaskState::Blocked
    &&& match t.block {
        Some(BlockReason::SleepUntil(w)) => tick >= w,
        _ => false,
    }
}

impl TaskTable {
    /// Replace an occupied slot by a task that keeps its identity and stack.
    fn update_slot(&mut self, idx: usize, task: Task)
        requires
            old(self).wf(),
            idx < old(self).capacity(),
            old(self).tasks()[idx as int].state != TaskState::Empty,
            task.state != TaskState::Empty,
            task.id == old(self).tasks()[idx as int].id,
            task.next_free == old(self).tasks()[idx as int].next_free,
            task.stack_start == old(self).tasks()[idx as int].stack_start,
            task.stack_top == old(self).tasks()[idx as int].stack_top,
        ensures
            final(self).wf(),
            final(self).same_meta(old(self)),
            final(self).tasks() == old(self).tasks().update(idx as int, task),
    {
        let ghost fl = self.free_list@;
        proof {
            if fl.contains(idx as int) {
            }
        }
        self.slots.set(idx, task);
        proof {
            assert forall|i: int| 0 <= i < fl.len() implies #[trigger] self.slots@[fl[i]].next_free
                == if i + 1 < fl.len() {
                Some(fl[i + 1] as u16)
            } else {
                None::<u16>
            } by {
                if fl[i] == idx {
                    assert(fl.contains(idx as int));
                }
            }
        }
    }
}

/// Store a preempted or yielding task's image and make it Ready to resume.
pub fn save_preempted_trap_image(t: &mut TaskTable, id: TaskId, image: &TrapImage) -> (r: bool)
    requires
        old(t).wf(),
    ensures
        !r ==> *final(t) == *old(t),
        final(t).wf(),
        final(t).same_meta(old(t)),
        r == old(t).slot_of(id) is Some,
        final(t).tasks() == if r {
            old(t).tasks().update(id_local(id), preempted_task(old(t).tasks()[id_local(id)], *image))
        } else {
            old(t).tasks()
        },
{
    match t.slot_index(id) {
        Some(idx) => {
            let mut task = t.slots[idx];
            task.trap_image = Some(*image);
            task.state = TaskState::Ready;
            task.last_return_kind = TaskReturnKind::Yield;
            task.can_resume = true;
            task.block = None;
            t.update_slot(idx, task);
            true
        },
        None => false,
    }
}

pub fn mark_task_running(t: &mut TaskTable, id: TaskId) -> (r: bool)
    requires
        old(t).wf(),
    ensures
        !r ==> *final(t) == *old(t),
        final(t).wf(),
        final(t).same_meta(old(t)),
        r == (old(t).slot_of(id) matches Some(task) && (task.state == TaskState::Ready || task.state
            == TaskState::Running)),
        final(t).tasks() == if r {
            old(t).tasks().update(
                id_local(id),
                with_state(old(t).tasks()[id_local(id)], TaskState::Running),
            )
        } else {
            old(t).tasks()
        },
{
    match t.slot_index(id) {
        Some(idx) => {
            let mut task = t.slots[idx];
            if task.state == TaskState::Ready || task.state == TaskState::Running {
                task.state = TaskState::Running;
                t.update_slot(idx, task);
                true
            } else {
                false
            }
        },
        None => false,
    }
}

pub fn mark_task_finished(t: &mut TaskTable, id: TaskId) -> (r: bool)
    requires
        old(t).wf(),
    ensures
        !r ==> *final(t) == *old(t),
        final(t).wf(),
        final(t).same_meta(old(t)),
        r == old(t).slot_of(id) is Some,
        final(t).tasks() == if r {
            old(t).tasks().update(id_local(id), finished_task(old(t).tasks()[id_local(id)]))
        } else {
            old(t).tasks()
        },
{
    match t.slot_index(id) {
        Some(idx) => {
            let mut task = t.slots[idx];
            task.state = TaskState::Finished;
            task.last_return_kind = TaskReturnKind::Exit;
            task.can_resume = false;
            task.block = None;
            t.update_slot(idx, task);
            true
        },
        None => false,
    }
}

pub fn mark_task_faulted(t: &mut TaskTable, id: TaskId) -> (r: bool)
    requires
        old(t).wf(),
    ensures
        !r ==> *final(t) == *old(t),
        final(t).wf(),
        final(t).same_meta(old(t)),
        r == old(t).slot_of(id) is Some,
        final(t).tasks() == if r {
            old(t).tasks().update(id_local(id), faulted_task(old(t).tasks()[id_local(id)]))
        } else {
            old(t).tasks()
        },
{
    match t.slot_index(id) {
        Some(idx) => {
            let mut task = t.slots[idx];
            task.state = TaskState::Faulted;
            task.last_return_kind = TaskReturnKind::Fault;
            task.can_resume = false;
            task.block = None;
            t.update_slot(idx, task);
            true
        },
        None => false,
    }
}

/// Mark `id` Faulted and classify the exception code.
pub fn record_task_fault(t: &mut TaskTable, id: TaskId, mcause: u64) -> (r: Option<
    TaskFaultReason,
>)
    requires
        old(t).wf(),
    ensures
        r is None ==> *final(t) == *old(t),
        final(t).wf(),
        final(t).same_meta(old(t)),
        r == if old(t).slot_of(id) is Some {
            Some(fault_reason_of(mcause))
        } else {
            None::<TaskFaultReason>
        },
        final(t).tasks() == if old(t).slot_of(id) is Some {
            old(t).tasks().update(id_local(id), faulted_task(old(t).tasks()[id_local(id)]))
        } else {
            old(t).tasks()
        },
{
    if mark_task_faulted(t, id) {
        Some(TaskFaultReason::from_mcause(mcause))
    } else {
        None
    }
}

pub fn set_task_trap_image(t: &mut TaskTable, id: TaskId, image: &TrapImage) -> (r: bool)
    requires
        old(t).wf(),
    ensures
        !r ==> *final(t) == *old(t),
        final(t).wf(),
        final(t).same_meta(old(t)),
        r == old(t).slot_of(id) is Some,
        final(t).tasks() == if r {
            old(t).tasks().update(
                id_local(id),
                Task { trap_image: Some(*image), ..old(t).tasks()[id_local(id)] },
            )
        } else {
            old(t).tasks()
        },
{
    match t.slot_index(id) {
        Some(idx) => {
            let mut task = t.slots[idx];
            task.trap_image = Some(*image);
            t.update_slot(idx, task);
            true
        },
        None => false,
    }
}

pub fn mark_task_started(t: &mut TaskTable, id: TaskId) -> (r: bool)
    requires
        old(t).wf(),
    ensures
        !r ==> *final(t) == *old(t),
        final(t).wf(),
        final(t).same_meta(old(t)),
        r == (old(t).slot_of(id) matches Some(task) && (task.state == TaskState::Ready || task.state
            == TaskState::Running)),
        final(t).tasks() == if r {
            old(t).tasks().update(
                id_local(id),
                Task { has_started: true, ..old(t).tasks()[id_local(id)] },
            )
        } else {
            old(t).tasks()
        },
{
    match t.slot_index(id) {
        Some(idx) => {
            let mut task = t.slots[idx];
            if task.state == TaskState::Ready || task.state == TaskState::Running {
                task.has_started = true;
                t.update_slot(idx, task);
                true
            } else {
                false
            }
        },
        None => false,
    }
}

fn mark_task_blocked(t: &mut TaskTable, id: TaskId, kind: TaskReturnKind, reason: BlockReason) -> (r:
    bool)
    requires
        old(t).wf(),
    ensures
        !r ==> *final(t) == *old(t),
        final(t).wf(),
        final(t).same_meta(old(t)),
        r == old(t).slot_of(id) is Some,
        final(t).tasks() == if r {
            old(t).tasks().update(
                id_local(id),
                blocked_task(old(t).tasks()[id_local(id)], kind, reason),
            )
        } else {
            old(t).tasks()
        },
{
    match t.slot_index(id) {
        Some(idx) => {
            let mut task = t.slots[idx];
            task.state = TaskState::Blocked;
            task.last_return_kind = kind;
            task.can_resume = false;
            task.block = Some(reason);
            t.update_slot(idx, task);
            true
        },
        None => false,
    }
}

/// Block `id` in a sleep until tick `wake_tick`.
pub fn mark_task_blocked_until(t: &mut TaskTable, id: TaskId, wake_tick: u64) -> (r: bool)
    requires
        old(t).wf(),
    ensures
        !r ==> *final(t) == *old(t),
        final(t).wf(),
        final(t).same_meta(old(t)),
        r == old(t).slot_of(id) is Some,
        final(t).tasks() == if r {
            old(t).tasks().update(
                id_local(id),
                blocked_task(
                    old(t).tasks()[id_local(id)],
                    TaskReturnKind::Sleep,
                    BlockReason::SleepUntil(wake_tick),
                ),
            )
        } else {
            old(t).tasks()
        },
{
    mark_task_blocked(t, id, TaskReturnKind::Sleep, BlockReason::SleepUntil(wake_tick))
}

/// Block `id` until `target` exits.
pub fn mark_task_blocked_join(t: &mut TaskTable, id: TaskId, target: TaskId) -> (r: bool)
    requires
        old(t).wf(),
    ensures
        !r ==> *final(t) == *old(t),
        final(t).wf(),
        final(t).same_meta(old(t)),
        r == old(t).slot_of(id) is Some,
        final(t).tasks() == if r {
            old(t).tasks().update(
                id_local(id),
                blocked_task(
                    old(t).tasks()[id_local(id)],
                    TaskReturnKind::Join,
                    BlockReason::Join(target),
                ),
            )
        } else {
            old(t).tasks()
        },
{
    mark_task_blocked(t, id, TaskReturnKind::Join, BlockReason::Join(target))
}

/// Block `id` sending `len` bytes to `to`.
pub fn mark_task_blocked_send(t: &mut TaskTable, id: TaskId, to: TaskId, len: u8) -> (r: bool)
    requires
        old(t).wf(),
    ensures
        !r ==> *final(t) == *old(t),
        final(t).wf(),
        final(t).same_meta(old(t)),
        r == old(t).slot_of(id) is Some,
        final(t).tasks() == if r {
            old(t).tasks().update(
                id_local(id),
                blocked_task(
                    old(t).tasks()[id_local(id)],
                    TaskReturnKind::Send,
                    BlockReason::Send { to, len },
                ),
            )
        } else {
            old(t).tasks()
        },
{
    mark_task_blocked(t, id, TaskReturnKind::Send, BlockReason::Send { to, len })
}

/// Block `id` receiving into `max` bytes at `ptr`.
pub fn mark_task_blocked_recv(t: &mut TaskTable, id: TaskId, ptr: u64, max: u64) -> (r: bool)
    requires
        old(t).wf(),
    ensures
        !r ==> *final(t) == *old(t),
        final(t).wf(),
        final(t).same_meta(old(t)),
        r == old(t).slot_of(id) is Some,
        final(t).tasks() == if r {
            old(t).tasks().update(
                id_local(id),
                blocked_task(
                    old(t).tasks()[id_local(id)],
                    TaskReturnKind::Recv,
                    BlockReason::Recv { ptr, max },
                ),
            )
        } else {
            old(t).tasks()
        },
{
    mark_task_blocked(t, id, TaskReturnKind::Recv, BlockReason::Recv { ptr, max })
}

/// Wake a Blocked task: its syscall returns `a0`/`a1`, its pending message is
/// dropped, and it resumes only when its saved frame is safe.
pub fn ready_from_block(
    t: &mut TaskTable,
    layout: &Layout,
    id: TaskId,
    a0: u64,
    a1: u64,
    kind: TaskReturnKind,
) -> (r: bool)
    requires
        old(t).wf(),
    ensures
        !r ==> *final(t) == *old(t),
        final(t).wf(),
        final(t).same_meta(old(t)),
        r == (old(t).slot_of(id) matches Some(task) && task.state == TaskState::Blocked),
        final(t).tasks() == if r {
            old(t).tasks().update(
                id_local(id),
                unblocked_task(old(t).tasks()[id_local(id)], a0, a1, kind, *layout),
            )
        } else {
            old(t).tasks()
        },
{
    match t.slot_index(id) {
        Some(idx) => {
            let mut task = t.slots[idx];
            if task.state != TaskState::Blocked {
                return false;
            }
            match task.trap_image {
                Some(mut image) => {
                    image.gpr.a0 = a0;
                    image.gpr.a1 = a1;
                    task.trap_image = Some(image);
                },
                None => {},
            }
            task.state = TaskState::Ready;
            task.block = None;
            task.ipc_pending = [0u8; 32];
            task.ipc_len = 0;
            task.can_resume = is_resume_frame_safe(&task, layout);
            task.last_return_kind = if task.can_resume {
                kind
            } else {
                TaskReturnKind::NoReturn
            };
            t.update_slot(idx, task);
            true
        },
        None => false,
    }
}

} // verus!

verus! {

pub fn get_task_state(t: &TaskTable, id: TaskId) -> (r: Option<TaskState>)
    requires
        t.wf(),
    ensures
        r == match t.slot_of(id) {
            Some(task) => Some(task.state),
            None => None::<TaskState>,
        },
{
    match t.slot_index(id) {
        Some(idx) => Some(t.slots[idx].state),
        None => None,
    }
}

pub fn get_task_stack_start(t: &TaskTable, id: TaskId) -> (r: Option<u64>)
    requires
        t.wf(),
    ensures
        r == match t.slot_of(id) {
            Some(task) => Some(task.stack_start),
            None => None::<u64>,
        },
{
    match t.slot_index(id) {
        Some(idx) => Some(t.slots[idx].stack_start),
        None => None,
    }
}

pub fn get_task_stack_top(t: &TaskTable, id: TaskId) -> (r: Option<u64>)
    requires
        t.wf(),
    ensures
        r == match t.slot_of(id) {
            Some(task) => Some(task.stack_top),
            None => None::<u64>,
        },
{
    match t.slot_index(id) {
        Some(idx) => Some(t.slots[idx].stack_top),
        None => None,
    }
}

pub fn get_task_initial_sp(t: &TaskTable, id: TaskId) -> (r: Option<u64>)
    requires
        t.wf(),
    ensures
        r == match t.slot_of(id) {
            Some(task) => Some(task.initial_sp),
            None => None::<u64>,
        },
{
    match t.slot_index(id) {
        Some(idx) => Some(t.slots[idx].initial_sp),
        None => None,
    }
}

pub fn get_task_initial_pc(t: &TaskTable, id: TaskId) -> (r: Option<u64>)
    requires
        t.wf(),
    ensures
        r == match t.slot_of(id) {
            Some(task) => Some(task.initial_pc),
            None => None::<u64>,
        },
{
    match t.slot_index(id) {
        Some(idx) => Some(t.slots[idx].initial_pc),
        None => None,
    }
}

pub fn get_task_spawn_arg(t: &TaskTable, id: TaskId) -> (r: Option<u64>)
    requires
        t.wf(),
    ensures
        r == match t.slot_of(id) {
            Some(task) => Some(task.spawn_arg),
            None => None::<u64>,
        },
{
    match t.slot_index(id) {
        Some(idx) => Some(t.slots[idx].spawn_arg),
        None => None,
    }
}

pub fn get_task_trap_image(t: &TaskTable, id: TaskId) -> (r: Option<TrapImage>)
    requires
        t.wf(),
    ensures
        r == match t.slot_of(id) {
            Some(task) => task.trap_image,
            None => None::<TrapImage>,
        },
{
    match t.slot_index(id) {
        Some(idx) => t.slots[idx].trap_image,
        None => None,
    }
}

pub fn can_task_resume(t: &TaskTable, id: TaskId) -> (r: Option<bool>)
    requires
        t.wf(),
    ensures
        r == match t.slot_of(id) {
            Some(task) => Some(task.can_resume),
            None => None::<bool>,
        },
{
    match t.slot_index(id) {
        Some(idx) => Some(t.slots[idx].can_resume),
        None => None,
    }
}

pub fn get_task_return_kind(t: &TaskTable, id: TaskId) -> (r: Option<TaskReturnKind>)
    requires
        t.wf(),
    ensures
        r == match t.slot_of(id) {
            Some(task) => Some(task.last_return_kind),
            None => None::<TaskReturnKind>,
        },
{
    match t.slot_index(id) {
        Some(idx) => Some(t.slots[idx].last_return_kind),
        None => None,
    }
}

pub fn ipc_pending_len(t: &TaskTable, id: TaskId) -> (r: Option<u8>)
    requires
        t.wf(),
    ensures
        r == match t.slot_of(id) {
            Some(task) => Some(task.ipc_len),
            None => None::<u8>,
        },
{
    match t.slot_index(id) {
        Some(idx) => Some(t.slots[idx].ipc_len),
        None => None,
    }
}

/// `id` is Ready and has never run nor saved a resume image.
pub fn is_fresh_ready_task(t: &TaskTable, id: TaskId) -> (r: bool)
    requires
        t.wf(),
    ensures
        r == (t.slot_of(id) matches Some(task) && task.state == TaskState::Ready
            && !task.has_started && !task.can_resume),
{
    match t.slot_index(id) {
        Some(idx) => {
            let task = &t.slots[idx];
            task.state == TaskState::Ready && !task.has_started && !task.can_resume
        },
        None => false,
    }
}

/// Exit status for joining `id`: 0 when it Finished, 1 when it Faulted.
pub open spec fn join_status_of(t: &TaskTable, id: TaskId) -> Option<u64> {
    match t.slot_of(id) {
        Some(task) => if task.state == TaskState::Finished {
            Some(0u64)
        } else if task.state == TaskState::Faulted {
            Some(1u64)
        } else {
            None
        },
        None => None,
    }
}

pub fn join_status(t: &TaskTable, id: TaskId) -> (r: Option<u64>)
    requires
        t.wf(),
    ensures
        r == join_status_of(t, id),
{
    match get_task_state(t, id) {
        Some(TaskState::Finished) => Some(0),
        Some(TaskState::Faulted) => Some(1),
        _ => None,
    }
}

/// Receive buffer of a task Blocked in `recv`.
pub fn recv_buf(t: &TaskTable, id: TaskId) -> (r: Option<(u64, u64)>)
    requires
        t.wf(),
    ensures
        r == match t.slot_of(id) {
            Some(task) => if task.state == TaskState::Blocked {
                match task.block {
                    Some(BlockReason::Recv { ptr, max }) => Some((ptr, max)),
                    _ => None::<(u64, u64)>,
                }
            } else {
                None::<(u64, u64)>
            },
            None => None::<(u64, u64)>,
        },
{
    match t.slot_index(id) {
        Some(idx) => {
            let task = &t.slots[idx];
            if task.state == TaskState::Blocked {
                match task.block {
                    Some(BlockReason::Recv { ptr, max }) => Some((ptr, max)),
                    _ => None,
                }
            } else {
                None
            }
        },
        None => None,
    }
}

/// Store the message a blocked sender carries.
pub fn set_ipc_pending(t: &mut TaskTable, id: TaskId, bytes: [u8; 32], len: u8) -> (r: bool)
    requires
        old(t).wf(),
    ensures
        !r ==> *final(t) == *old(t),
        final(t).wf(),
        final(t).same_meta(old(t)),
        r == old(t).slot_of(id) is Some,
        final(t).tasks() == if r {
            old(t).tasks().update(
                id_local(id),
                Task { ipc_pending: bytes, ipc_len: len, ..old(t).tasks()[id_local(id)] },
            )
        } else {
            old(t).tasks()
        },
{
    match t.slot_index(id) {
        Some(idx) => {
            let mut task = t.slots[idx];
            task.ipc_pending = bytes;
            task.ipc_len = len;
            t.update_slot(idx, task);
            true
        },
        None => false,
    }
}

/// Take (and clear) the message a blocked sender carries.
pub fn take_ipc_pending(t: &mut TaskTable, id: TaskId) -> (r: Option<([u8; 32], u8)>)
    requires
        old(t).wf(),
    ensures
        final(t).wf(),
        final(t).same_meta(old(t)),
        r is Some == old(t).slot_of(id) is Some,
        r matches Some((bytes, len)) ==> {
            let old_task = old(t).tasks()[id_local(id)];
            &&& bytes == old_task.ipc_pending
            &&& len == old_task.ipc_len
            &&& final(t).tasks() == old(t).tasks().update(
                id_local(id),
                Task { ipc_pending: zero_payload(), ipc_len: 0, ..old_task },
            )
        },
        r is None ==> final(t).tasks() == old(t).tasks(),
{
    match t.slot_index(id) {
        Some(idx) => {
            let mut task = t.slots[idx];
            let out = (task.ipc_pending, task.ipc_len);
            task.ipc_pending = [0u8; 32];
            task.ipc_len = 0;
            t.update_slot(idx, task);
            Some(out)
        },
        None => None,
    }
}

/// `[ptr, ptr + len)` lies inside the stack of task `id`.
pub fn stack_contains(t: &TaskTable, id: TaskId, ptr: u64, len: u64) -> (r: bool)
    requires
        t.wf(),
    ensures
        r == (t.slot_of(id) matches Some(task) && ptr + len <= u64::MAX && ptr >= task.stack_start
            && ptr + len <= task.stack_top),
{
    let end = match ptr.checked_add(len) {
        Some(e) => e,
        None => {
            return false;
        },
    };
    match t.slot_index(id) {
        Some(idx) => ptr >= t.slots[idx].stack_start && end <= t.slots[idx].stack_top,
        None => false,
    }
}

pub fn table_capacity(t: &TaskTable) -> (r: usize)
    requires
        t.wf(),
    ensures
        r == t.capacity(),
{
    t.cap
}

/// The occupied slot at `local`, by value.
pub fn get_task_by_local_index(t: &TaskTable, local: usize) -> (r: Option<Task>)
    requires
        t.wf(),
    ensures
        r == if local < t.capacity() && t.tasks()[local as int].state != TaskState::Empty {
            Some(t.tasks()[local as int])
        } else {
            None::<Task>
        },
{
    if local >= t.cap {
        return None;
    }
    let slot = t.slots[local];
    if slot.state == TaskState::Empty {
        None
    } else {
        Some(slot)
    }
}

/// The bytes of a name field before its first NUL.
pub open spec fn name_prefix(name: Seq<u8>) -> Seq<u8>
    decreases name.len(),
{
    if name.len() == 0 || name[0] == 0 {
        Seq::empty()
    } else {
        seq![name[0]].add(name_prefix(name.drop_first()))
    }
}

proof fn lemma_name_prefix_step(name: Seq<u8>, i: int)
    requires
        0 <= i < name.len(),
        forall|j: int| 0 <= j < i ==> name[j] != 0,
    ensures
        name_prefix(name) == name.subrange(0, i).add(name_prefix(name.subrange(i, name.len() as int))),
    decreases i,
{
    if i > 0 {
        lemma_name_prefix_step(name.drop_first(), i - 1);
        assert(name.drop_first().subrange(0, i - 1) =~= name.subrange(1, i));
        assert(name.drop_first().subrange(i - 1, name.len() - 1) =~= name.subrange(
            i,
            name.len() as int,
        ));
        assert(seq![name[0]].add(name.subrange(1, i)) =~= name.subrange(0, i));
        assert(seq![name[0]].add(name.subrange(1, i).add(name_prefix(name.subrange(i, name.len() as int))))
            =~= name.subrange(0, i).add(name_prefix(name.subrange(i, name.len() as int))));
    } else {
        assert(name.subrange(0, 0) =~= Seq::<u8>::empty());
        assert(name.subrange(0, name.len() as int) =~= name);
    }
}

/// The name of task `id` as written on the console: bytes before the first NUL.
pub fn print_task_name_by_id(t: &TaskTable, id: TaskId) -> (r: Vec<u8>)
    requires
        t.wf(),
    ensures
        r@ == match t.slot_of(id) {
            Some(task) => name_prefix(task.name@),
            None => Seq::<u8>::empty(),
        },
{
    let mut out: Vec<u8> = Vec::new();
    let idx = match t.slot_index(id) {
        Some(i) => i,
        None => {
            return out;
        },
    };
    let name = t.slots[idx].name;
    let mut i: usize = 0;
    while i < TASK_NAME_LEN
        invariant
            i <= TASK_NAME_LEN,
            name@.len() == 16,
            t.slot_of(id) == Some(t.tasks()[idx as int]),
            name == t.tasks()[idx as int].name,
            out@ == name@.subrange(0, i as int),
            forall|j: int| 0 <= j < i ==> name@[j] != 0,
        decreases TASK_NAME_LEN - i,
    {
        let byte = name[i];
        if byte == 0 {
            proof {
                lemma_name_prefix_step(name@, i as int);
                assert(name@.subrange(i as int, 16)[0] == 0);
                assert(name_prefix(name@.subrange(i as int, 16)) == Seq::<u8>::empty());
                assert(out@.add(Seq::<u8>::empty()) =~= out@);
            }
            return out;
        }
        out.push(byte);
        i = i + 1;
    }
    proof {
        assert(name@.subrange(0, 16) =~= name@);
        lemma_name_prefix_all(name@);
    }
    out
}

proof fn lemma_name_prefix_all(name: Seq<u8>)
    requires
        forall|j: int| 0 <= j < name.len() ==> name[j] != 0,
    ensures
        name_prefix(name) == name,
    decreases name.len(),
{
    if name.len() > 0 {
        lemma_name_prefix_all(name.drop_first());
        assert(seq![name[0]].add(name.drop_first()) =~= name);
    }
}

pub fn print_yes_no(value: bool) -> (r: &'static str)
    ensures
        r == if value {
            "yes"
        } else {
            "no"
        },
{
    if value {
        "yes"
    } else {
        "no"
    }
}

} // verus!

verus! {

/// `j` is the first slot below `cap` whose task satisfies `pred`.
pub open spec fn is_first_with(tasks: Seq<Task>, cap: int, pred: spec_fn(Task) -> bool, j: int) -> bool {
    &&& 0 <= j < cap
    &&& pred(tasks[j])
    &&& forall|k: int| 0 <= k < j ==> !pred(#[trigger] tasks[k])
}

/// Where the round-robin scan starts: the slot after `current` when it is a
/// task of this hart, else slot 0.
pub open spec fn scan_start(t: &TaskTable, current: Option<TaskId>) -> int {
    match current {
        Some(id) => if id_hart(id) == t.hart_id() {
            (id_local(id) + 1) % t.capacity()
        } else {
            0
        },
        None => 0,
    }
}

/// Offset `o` of the scan from `start` reaches the first dispatchable slot.
pub open spec fn is_next_dispatchable(tasks: Seq<Task>, cap: int, layout: Layout, start: int, o: int) -> bool {
    &&& 0 <= o < cap
    &&& dispatchable(tasks[(start + o) % cap], layout)
    &&& forall|p: int| 0 <= p < o ==> !dispatchable(#[trigger] tasks[(start + p) % cap], layout)
}

/// The task a round-robin scan from `scan_start` reaches first.
pub open spec fn next_dispatchable_spec(t: &TaskTable, layout: Layout, current: Option<TaskId>) -> Option<
    TaskId,
> {
    let cap = t.capacity();
    let start = scan_start(t, current);
    if cap > 0 && exists|o: int| is_next_dispatchable(t.tasks(), cap, layout, start, o) {
        let o = choose|o: int| is_next_dispatchable(t.tasks(), cap, layout, start, o);
        Some(t.tasks()[(start + o) % cap].id)
    } else {
        None
    }
}

proof fn lemma_next_dispatchable_unique(tasks: Seq<Task>, cap: int, layout: Layout, start: int, o: int, o2: int)
    requires
        is_next_dispatchable(tasks, cap, layout, start, o),
        is_next_dispatchable(tasks, cap, layout, start, o2),
    ensures
        o == o2,
{
    if o < o2 {
        assert(!dispatchable(tasks[(start + o) % cap], layout));
    }
    if o2 < o {
        assert(!dispatchable(tasks[(start + o2) % cap], layout));
    }
}

/// The first dispatchable task in slot order starting after `current`
/// (wrapping around), or `None` when no task is dispatchable.
pub fn find_next_dispatchable_after(t: &TaskTable, layout: &Layout, current: Option<TaskId>) -> (r:
    Option<TaskId>)
    requires
        t.wf(),
    ensures
        r == next_dispatchable_spec(t, *layout, current),
        r is None ==> forall|j: int| 0 <= j < t.capacity() ==> !dispatchable(#[trigger] t.tasks()[j], *layout),
        r matches Some(id) ==> exists|o: int|
            is_next_dispatchable(t.tasks(), t.capacity(), *layout, scan_start(t, current), o) && id
                == #[trigger] t.tasks()[(scan_start(t, current) + o) % t.capacity()].id,
{
    if t.cap == 0 {
        return None;
    }
    let start = match current {
        Some(id) => if id.hart() == t.hart {
            (id.local() as usize + 1) % t.cap
        } else {
            0
        },
        None => 0,
    };
    assert(start == scan_start(t, current));
    let mut offset: usize = 0;
    while offset < t.cap
        invariant
            t.wf(),
            t.cap > 0,
            start < t.cap,
            start == scan_start(t, current),
            offset <= t.cap,
            forall|p: int|
                0 <= p < offset ==> !dispatchable(#[trigger] t.tasks()[(start + p) % t.capacity()], *layout),
        decreases t.cap - offset,
    {
        let idx = (start + offset) % t.cap;
        if is_dispatchable_task_ref(&t.slots[idx], layout) {
            assert(is_next_dispatchable(t.tasks(), t.capacity(), *layout, start as int, offset as int));
            proof {
                let o = choose|o: int| is_next_dispatchable(t.tasks(), t.capacity(), *layout, start as int, o);
                lemma_next_dispatchable_unique(t.tasks(), t.capacity(), *layout, start as int, o, offset as int);
            }
            return Some(t.slots[idx].id);
        }
        offset = offset + 1;
    }
    proof {
        assert forall|j: int| 0 <= j < t.capacity() implies !dispatchable(#[trigger] t.tasks()[j], *layout) by {
            let p = if j >= start {
                j - start
            } else {
                j + t.cap - start
            };
            vstd::arithmetic::div_mod::lemma_small_mod(j as nat, t.cap as nat);
            if j < start {
                vstd::arithmetic::div_mod::lemma_mod_add_multiples_vanish(j, t.cap as int);
            }
            assert((start + p) % (t.cap as int) == j);
            assert(!dispatchable(t.tasks()[(start + p) % t.capacity()], *layout));
        }
        if exists|o: int| is_next_dispatchable(t.tasks(), t.capacity(), *layout, start as int, o) {
            let o = choose|o: int| is_next_dispatchable(t.tasks(), t.capacity(), *layout, start as int, o);
            assert(dispatchable(t.tasks()[(start + o) % t.capacity()], *layout));
            assert(0 <= (start + o) % t.capacity() < t.capacity());
        }
    }
    None
}

/// Some task of this hart is dispatchable.
pub fn has_dispatchable_tasks(t: &TaskTable, layout: &Layout) -> (r: bool)
    requires
        t.wf(),
    ensures
        r == exists|j: int| 0 <= j < t.capacity() && dispatchable(#[trigger] t.tasks()[j], *layout),
{
    let mut idx: usize = 0;
    while idx < t.cap
        invariant
            t.wf(),
            idx <= t.cap,
            forall|j: int| 0 <= j < idx ==> !dispatchable(#[trigger] t.tasks()[j], *layout),
        decreases t.cap - idx,
    {
        if is_dispatchable_task_ref(&t.slots[idx], layout) {
            return true;
        }
        idx = idx + 1;
    }
    false
}

/// Ready, resumable, with a safe frame.
pub open spec fn resumable(task: Task, layout: Layout) -> bool {
    task.state == TaskState::Ready && task.can_resume && resume_frame_safe(task, layout)
}

/// The id of the lowest-slot task at or after slot `j` that can be resumed.
pub open spec fn first_resumable_from(tasks: Seq<Task>, cap: int, layout: Layout, j: int) -> Option<TaskId>
    decreases cap - j,
{
    if j < 0 || j >= cap {
        None
    } else if resumable(tasks[j], layout) {
        Some(tasks[j].id)
    } else {
        first_resumable_from(tasks, cap, layout, j + 1)
    }
}

/// The lowest-slot task that can be resumed from its saved frame.
pub fn find_first_resumable_task(t: &TaskTable, layout: &Layout) -> (r: Option<TaskId>)
    requires
        t.wf(),
    ensures
        r == first_resumable_from(t.tasks(), t.capacity(), *layout, 0),
        r is None ==> forall|j: int| 0 <= j < t.capacity() ==> !resumable(#[trigger] t.tasks()[j], *layout),
        r matches Some(id) ==> exists|j: int|
            is_first_with(t.tasks(), t.capacity(), |task: Task| resumable(task, *layout), j) && id
                == #[trigger] t.tasks()[j].id,
{
    let mut idx: usize = 0;
    while idx < t.cap
        invariant
            t.wf(),
            idx <= t.cap,
            forall|j: int| 0 <= j < idx ==> !resumable(#[trigger] t.tasks()[j], *layout),
            first_resumable_from(t.tasks(), t.capacity(), *layout, 0) == first_resumable_from(
                t.tasks(),
                t.capacity(),
                *layout,
                idx as int,
            ),
        decreases t.cap - idx,
    {
        let slot = &t.slots[idx];
        if slot.state == TaskState::Ready && slot.can_resume && is_resume_frame_safe(slot, layout) {
            assert(is_first_with(t.tasks(), t.capacity(), |task: Task| resumable(task, *layout), idx as int));
            return Some(slot.id);
        }
        idx = idx + 1;
    }
    None
}

/// Count of the first `k` slots that the tick wakes.
pub open spec fn count_wakes(tasks: Seq<Task>, tick: u64, k: int) -> int
    decreases k,
{
    if k <= 0 {
        0
    } else {
        count_wakes(tasks, tick, k - 1) + if wakes_at(tasks[k - 1], tick) {
            1int
        } else {
            0int
        }
    }
}

/// Every task that sleeps until `tick` or earlier, woken.
pub open spec fn wake_all(tasks: Seq<Task>, tick: u64, layout: Layout) -> Seq<Task> {
    Seq::new(
        tasks.len(),
        |j: int|
            if wakes_at(tasks[j], tick) {
                woken_task(tasks[j], layout)
            } else {
                tasks[j]
            },
    )
}

/// The effect of `wake_sleeping_tasks(tick)`, returning `r`.
pub open spec fn wake_step(old_t: &TaskTable, new_t: &TaskTable, layout: Layout, tick: u64, r: int) -> bool {
    &&& new_t.wf()
    &&& new_t.same_meta(old_t)
    &&& new_t.tasks() == wake_all(old_t.tasks(), tick, layout)
    &&& r == count_wakes(old_t.tasks(), tick, old_t.capacity())
}

/// Wake every task sleeping until a tick at or before `current_tick`;
/// returns how many woke.
pub fn wake_sleeping_tasks(t: &mut TaskTable, layout: &Layout, current_tick: u64) -> (r: usize)
    requires
        old(t).wf(),
    ensures
        final(t).wf(),
        final(t).same_meta(old(t)),
        final(t).tasks().len() == old(t).tasks().len(),
        forall|j: int|
            0 <= j < old(t).capacity() ==> #[trigger] final(t).tasks()[j] == if wakes_at(
                old(t).tasks()[j],
                current_tick,
            ) {
                woken_task(old(t).tasks()[j], *layout)
            } else {
                old(t).tasks()[j]
            },
        r == count_wakes(old(t).tasks(), current_tick, old(t).capacity()),
        wake_step(old(t), final(t), *layout, current_tick, r as int),
{
    let ghost old_t = *t;
    let mut woke: usize = 0;
    let mut idx: usize = 0;
    while idx < t.cap
        invariant
            t.wf(),
            t.same_meta(&old_t),
            old_t.wf(),
            idx <= t.cap,
            t.tasks().len() == old_t.tasks().len(),
            woke == count_wakes(old_t.tasks(), current_tick, idx as int),
            woke <= idx,
            forall|j: int|
                0 <= j < idx ==> #[trigger] t.tasks()[j] == if wakes_at(old_t.tasks()[j], current_tick) {
                    woken_task(old_t.tasks()[j], *layout)
                } else {
                    old_t.tasks()[j]
                },
            forall|j: int| idx <= j < t.cap ==> #[trigger] t.tasks()[j] == old_t.tasks()[j],
        decreases t.cap - idx,
    {
        let slot = t.slots[idx];
        if slot.state == TaskState::Blocked {
            match slot.block {
                Some(BlockReason::SleepUntil(wake_tick)) => {
                    if current_tick >= wake_tick {
                        let mut task = slot;
                        task.state = TaskState::Ready;
                        task.block = None;
                        let can_resume = is_resume_frame_safe(&task, layout);
                        task.can_resume = can_resume;
                        task.last_return_kind = if can_resume {
                            TaskReturnKind::Sleep
                        } else {
                            TaskReturnKind::NoReturn
                        };
                        t.update_slot(idx, task);
                        woke = woke + 1;
                    }
                },
                _ => {},
            }
        }
        idx = idx + 1;
    }
    proof {
        old_t.lemma_wf_bounds();
        assert(t.tasks() =~= wake_all(old_t.tasks(), current_tick, *layout));
    }
    woke
}

/// `task` is Blocked joining `target`.
pub open spec fn waits_join(task: Task, target: TaskId) -> bool {
    task.state == TaskState::Blocked && task.block == Some(BlockReason::Join(target))
}

/// Some task of this hart is Blocked joining `target`.
pub fn has_join_waiter(t: &TaskTable, target: TaskId) -> (r: bool)
    requires
        t.wf(),
    ensures
        r == exists|j: int| 0 <= j < t.capacity() && waits_join(#[trigger] t.tasks()[j], target),
{
    let mut idx: usize = 0;
    while idx < t.cap
        invariant
            t.wf(),
            idx <= t.cap,
            forall|j: int| 0 <= j < idx ==> !waits_join(#[trigger] t.tasks()[j], target),
        decreases t.cap - idx,
    {
        let slot = &t.slots[idx];
        if slot.state == TaskState::Blocked && slot.block == Some(BlockReason::Join(target)) {
            return true;
        }
        idx = idx + 1;
    }
    false
}

/// `task` is Blocked sending to `to`.
pub open spec fn waits_send_to(task: Task, to: TaskId) -> bool {
    task.state == TaskState::Blocked && match task.block {
        Some(BlockReason::Send { to: dest, len: _ }) => dest == to,
        _ => false,
    }
}

/// The lowest-slot task Blocked sending to `to`.
pub fn find_send_waiter_to(t: &TaskTable, to: TaskId) -> (r: Option<TaskId>)
    requires
        t.wf(),
    ensures
        r is None ==> forall|j: int| 0 <= j < t.capacity() ==> !waits_send_to(#[trigger] t.tasks()[j], to),
        r matches Some(id) ==> exists|j: int|
            is_first_with(t.tasks(), t.capacity(), |task: Task| waits_send_to(task, to), j) && id
                == #[trigger] t.tasks()[j].id,
{
    let mut idx: usize = 0;
    while idx < t.cap
        invariant
            t.wf(),
            idx <= t.cap,
            forall|j: int| 0 <= j < idx ==> !waits_send_to(#[trigger] t.tasks()[j], to),
        decreases t.cap - idx,
    {
        let slot = &t.slots[idx];
        if slot.state == TaskState::Blocked {
            match slot.block {
                Some(BlockReason::Send { to: dest, len: _ }) => {
                    if dest == to {
                        assert(is_first_with(t.tasks(), t.capacity(), |task: Task| waits_send_to(task, to), idx as int));
                        return Some(slot.id);
                    }
                },
                _ => {},
            }
        }
        idx = idx + 1;
    }
    None
}

/// `task` could still send to `recv_id`: another live task that is runnable,
/// or one already Blocked sending to it.
pub open spec fn could_send_to(task: Task, recv_id: TaskId) -> bool {
    &&& task.id != recv_id
    &&& task.state != TaskState::Empty
    &&& (task.state == TaskState::Ready || task.state == TaskState::Running || waits_send_to(task, recv_id))
}

pub fn has_potential_ipc_sender(t: &TaskTable, recv_id: TaskId) -> (r: bool)
    requires
        t.wf(),
    ensures
        r == exists|j: int| 0 <= j < t.capacity() && could_send_to(#[trigger] t.tasks()[j], recv_id),
{
    let mut idx: usize = 0;
    while idx < t.cap
        invariant
            t.wf(),
            idx <= t.cap,
            forall|j: int| 0 <= j < idx ==> !could_send_to(#[trigger] t.tasks()[j], recv_id),
        decreases t.cap - idx,
    {
        let slot = &t.slots[idx];
        if slot.id == recv_id || slot.state == TaskState::Empty {
            idx = idx + 1;
            continue;
        }
        match slot.state {
            TaskState::Ready | TaskState::Running => {
                return true;
            },
            TaskState::Blocked => {
                match slot.block {
                    Some(BlockReason::Send { to, len: _ }) => {
                        if to == recv_id {
                            return true;
                        }
                    },
                    _ => {},
                }
            },
            _ => {},
        }
        idx = idx + 1;
    }
    false
}

} // verus!

verus! {

/// A joiner released with exit status `status` in `a0`.
pub open spec fn joined_task(t: Task, status: u64, layout: Layout) -> Task {
    let t2 = Task {
        trap_image: image_with_ret(t.trap_image, Some(status), None),
        state: TaskState::Ready,
        block: None,
        last_return_kind: TaskReturnKind::Join,
        ..t
    };
    Task { can_resume: resume_frame_safe(t2, layout), ..t2 }
}

fn first_join_waiter(t: &TaskTable, target: TaskId) -> (r: Option<usize>)
    requires
        t.wf(),
    ensures
        r is None ==> forall|j: int| 0 <= j < t.capacity() ==> !waits_join(#[trigger] t.tasks()[j], target),
        r matches Some(j) ==> is_first_with(t.tasks(), t.capacity(), |task: Task| waits_join(task, target), j as int),
{
    let mut idx: usize = 0;
    while idx < t.cap
        invariant
            t.wf(),
            idx <= t.cap,
            forall|j: int| 0 <= j < idx ==> !waits_join(#[trigger] t.tasks()[j], target),
        decreases t.cap - idx,
    {
        let slot = &t.slots[idx];
        if slot.state == TaskState::Blocked && slot.block == Some(BlockReason::Join(target)) {
            assert(is_first_with(t.tasks(), t.capacity(), |task: Task| waits_join(task, target), idx as int));
            return Some(idx);
        }
        idx = idx + 1;
    }
    None
}

/// The effect of `join_wake`: when `target` has exited and some task is
/// Blocked joining it, the lowest-slot joiner is released with `target`'s exit
/// status and `target` is reaped; otherwise nothing changes.
pub open spec fn join_woken(
    old_t: &TaskTable,
    new_t: &TaskTable,
    old_mm: Seq<PoolView>,
    new_mm: Seq<PoolView>,
    layout: Layout,
    target: TaskId,
    r: bool,
) -> bool {
    &&& r == (join_status_of(old_t, target) is Some && exists|j: int|
        0 <= j < old_t.capacity() && waits_join(#[trigger] old_t.tasks()[j], target))
    &&& !r ==> new_mm == old_mm && new_t.tasks() == old_t.tasks() && new_t.same_meta(old_t)
    &&& r ==> exists|jw: int, t1: TaskTable|
        #![trigger reaped(&t1, new_t, old_mm, new_mm, target), old_t.tasks()[jw]]
        {
            &&& is_first_with(old_t.tasks(), old_t.capacity(), |task: Task| waits_join(task, target), jw)
            &&& jw != id_local(target)
            &&& t1.same_meta(old_t)
            &&& t1.tasks() == old_t.tasks().update(
                jw,
                joined_task(old_t.tasks()[jw], join_status_of(old_t, target)->Some_0, layout),
            )
            &&& reaped(&t1, new_t, old_mm, new_mm, target)
        }
}

/// When `target` has exited and a task is Blocked joining it: release the
/// lowest-slot joiner with `target`'s exit status and reap `target`.
pub fn join_wake(t: &mut TaskTable, mm: &mut PageAllocator, layout: &Layout, target: TaskId) -> (r:
    bool)
    requires
        old(t).wf(),
        old(mm).wf(),
    ensures
        final(t).wf(),
        final(mm).wf(),
        join_woken(old(t), final(t), old(mm)@, final(mm)@, *layout, target, r),
{
    let status = match join_status(t, target) {
        Some(s) => s,
        None => {
            return false;
        },
    };
    let found = first_join_waiter(t, target);
    let jidx = match found {
        Some(j) => j,
        None => {
            return false;
        },
    };
    let ghost t0 = *t;
    assert(is_first_with(t0.tasks(), t0.capacity(), |task: Task| waits_join(task, target), jidx as int));
    let mut task = t.slots[jidx];
    match task.trap_image {
        Some(mut image) => {
            image.gpr.a0 = status;
            task.trap_image = Some(image);
        },
        None => {},
    }
    task.state = TaskState::Ready;
    task.block = None;
    task.last_return_kind = TaskReturnKind::Join;
    task.can_resume = is_resume_frame_safe(&task, layout);
    assert(task == joined_task(t0.tasks()[jidx as int], status, *layout));
    t.update_slot(jidx, task);
    let ghost t1 = *t;
    assert(t1.slot_of(target) == t0.slot_of(target));
    let ghost mm1 = mm@;
    let r = destroy(t, mm, target);
    assert(r);
    proof {
        let tl = id_local(target);
        assert(jidx != tl);
        assert(join_status_of(&t0, target)->Some_0 == status);
        assert(reaped(&t1, &*t, mm1, mm@, target));
        assert(t0.tasks()[jidx as int] == old(t).tasks()[jidx as int]);
    }
    r
}

} // verus!

verus! {

/// Console text of a fault reason.
pub open spec fn fault_reason_text(reason: TaskFaultReason) -> Seq<u8> {
    match reason {
        TaskFaultReason::Breakpoint => crlf("breakpoint".spec_bytes()),
        TaskFaultReason::InstructionAccessFault => crlf("instruction access fault".spec_bytes()),
        TaskFaultReason::LoadAccessFault => crlf("load access fault".spec_bytes()),
        TaskFaultReason::StoreAccessFault => crlf("store access fault".spec_bytes()),
        TaskFaultReason::IllegalInstruction => crlf("illegal instruction".spec_bytes()),
        TaskFaultReason::Unknown(code) => crlf("unknown (code: ".spec_bytes()) + hex_text(code) + crlf(
            ")".spec_bytes(),
        ),
    }
}

pub fn print_task_fault_reason(reason: TaskFaultReason) -> (r: Vec<u8>)
    ensures
        r@ == fault_reason_text(reason),
{
    match reason {
        TaskFaultReason::Breakpoint => uart::write_str("breakpoint"),
        TaskFaultReason::InstructionAccessFault => uart::write_str("instruction access fault"),
        TaskFaultReason::LoadAccessFault => uart::write_str("load access fault"),
        TaskFaultReason::StoreAccessFault => uart::write_str("store access fault"),
        TaskFaultReason::IllegalInstruction => uart::write_str("illegal instruction"),
        TaskFaultReason::Unknown(code) => {
            let mut out = uart::write_str("unknown (code: ");
            let mut hex = uart::write_hex_u64(code);
            let mut close = uart::write_str(")");
            out.append(&mut hex);
            out.append(&mut close);
            out
        },
    }
}

} // verus!

verus! {

/// A spawned task gets a valid id (never 0, never `u64::MAX`) that names
/// this hart and the slot it took.
pub proof fn lemma_spawned_id_valid(
    old_t: &TaskTable,
    new_t: &TaskTable,
    old_mm: Seq<PoolView>,
    new_mm: Seq<PoolView>,
    name: Seq<u8>,
    entry_pc: u64,
    arg: u64,
    id: TaskId,
)
    requires
        old_t.wf(),
        spawned(old_t, new_t, old_mm, new_mm, name, entry_pc, arg, Some(id)),
    ensures
        id_valid(id),
        id_hart(id) == old_t.hart_id(),
        id_local(id) == old_t.free_slots()[0],
        new_t.slot_of(id) is Some,
{
    old_t.lemma_wf_bounds();
    let local = old_t.free_slots()[0];
    lemma_task_id_roundtrip(
        old_t.current_generation() as u16,
        old_t.hart_id() as u16,
        local as u16,
    );
}

/// A task that is spawned, then finished or faulted, then reaped leaves the
/// page pools as they were before the spawn, but for the peak count: reaping
/// leaks no page.
pub proof fn lemma_spawn_reap_no_leak(
    t0: &TaskTable,
    t1: &TaskTable,
    t2: &TaskTable,
    t3: &TaskTable,
    mm0: Seq<PoolView>,
    mm1: Seq<PoolView>,
    mm3: Seq<PoolView>,
    name: Seq<u8>,
    entry_pc: u64,
    arg: u64,
    id: TaskId,
    ended: Task,
)
    requires
        t0.wf(),
        memory::pools_wf(mm0),
        spawned(t0, t1, mm0, mm1, name, entry_pc, arg, Some(id)),
        t2.same_meta(t1),
        ended.stack_start == t1.tasks()[id_local(id)].stack_start,
        ended.state == TaskState::Finished || ended.state == TaskState::Faulted,
        t2.tasks() == t1.tasks().update(id_local(id), ended),
        reaped(t2, t3, mm1, mm3, id),
    ensures
        ({
            let h = t0.hart_id();
            &&& mm3.len() == mm0.len()
            &&& mm3[h].map == mm0[h].map
            &&& mm3[h].used == mm0[h].used
            &&& mm3[h].base == mm0[h].base
            &&& mm3[h].valid_bits == mm0[h].valid_bits
            &&& forall|g: int| 0 <= g < mm0.len() && g != h ==> #[trigger] mm3[g] == mm0[g]
        }),
{
    lemma_spawned_id_valid(t0, t1, mm0, mm1, name, entry_pc, arg, id);
    t0.lemma_wf_bounds();
    let h = t0.hart_id();
    let p = mm0[h];
    assert(memory::pool_wf(p));
    memory::lemma_alloc_free_roundtrip(p, 1);
}

} // verus!

verus! {

/// A reaped id names no task until its slot is spawned again.
pub proof fn lemma_reaped_id_stale(
    old_t: &TaskTable,
    new_t: &TaskTable,
    old_mm: Seq<PoolView>,
    new_mm: Seq<PoolView>,
    id: TaskId,
)
    requires
        reaped(old_t, new_t, old_mm, new_mm, id),
    ensures
        new_t.slot_of(id) is None,
{
}

/// The task spawned right after a reap gets the reaped id back: it takes the
/// reaped slot, first on the free list, in the same generation.
pub proof fn lemma_reaped_id_reused(
    t2: &TaskTable,
    t3: &TaskTable,
    t4: &TaskTable,
    mm2: Seq<PoolView>,
    mm3: Seq<PoolView>,
    mm4: Seq<PoolView>,
    id: TaskId,
    name: Seq<u8>,
    entry_pc: u64,
    arg: u64,
    id2: TaskId,
)
    requires
        t2.wf(),
        t2.is_reapable(id),
        reaped(t2, t3, mm2, mm3, id),
        spawned(t3, t4, mm3, mm4, name, entry_pc, arg, Some(id2)),
    ensures
        id2 == id,
{
    t2.lemma_wf_bounds();
    let l = id_local(id);
    let x = id.0;
    let g = id_generation(id);
    let h = id_hart(id);
    assert(t2.tasks()[l].id == id);
    assert(x < 0x1_0000_0000_0000);
    assert(x == (x / 0x1_0000_0000) % 0x1_0000 * 0x1_0000_0000 + (x / 0x1_0000) % 0x1_0000
        * 0x1_0000 + x % 0x1_0000) by (bit_vector)
        requires
            x < 0x1_0000_0000_0000,
    ;
    assert(id2.0 == pack_id(g, h, l) as u64);
}

proof fn lemma_first_offset(tasks: Seq<Task>, cap: int, layout: Layout, start: int, b: int)
    requires
        0 <= b <= cap,
        exists|p: int| 0 <= p < b && dispatchable(#[trigger] tasks[(start + p) % cap], layout),
    ensures
        exists|o: int| is_next_dispatchable(tasks, cap, layout, start, o),
    decreases b,
{
    if exists|p: int| 0 <= p < b - 1 && dispatchable(#[trigger] tasks[(start + p) % cap], layout) {
        lemma_first_offset(tasks, cap, layout, start, b - 1);
    } else {
        assert(is_next_dispatchable(tasks, cap, layout, start, b - 1));
    }
}

/// The scheduler finds a task exactly when some task is dispatchable, and the
/// task it finds is an occupied, dispatchable slot of the table.
pub proof fn lemma_next_dispatchable_found(t: &TaskTable, layout: Layout, current: Option<TaskId>)
    requires
        t.wf(),
    ensures
        next_dispatchable_spec(t, layout, current) is None <==> !exists|j: int|
            0 <= j < t.capacity() && dispatchable(#[trigger] t.tasks()[j], layout),
        next_dispatchable_spec(t, layout, current) matches Some(id) ==> t.slot_of(id) matches Some(
            task,
        ) && dispatchable(task, layout),
{
    t.lemma_wf_bounds();
    let cap = t.capacity();
    let start = scan_start(t, current);
    let tasks = t.tasks();
    if cap > 0 {
        assert(0 <= start < cap) by {
            match current {
                Some(id) => if id_hart(id) == t.hart_id() {
                    vstd::arithmetic::div_mod::lemma_mod_bound(id_local(id) + 1, cap);
                },
                None => {},
            }
        }
    }
    if exists|j: int| 0 <= j < cap && dispatchable(#[trigger] tasks[j], layout) {
        let j = choose|j: int| 0 <= j < cap && dispatchable(#[trigger] tasks[j], layout);
        let o = if j >= start {
            j - start
        } else {
            j - start + cap
        };
        assert((start + o) % cap == j) by {
            if j >= start {
                vstd::arithmetic::div_mod::lemma_small_mod(j as nat, cap as nat);
            } else {
                vstd::arithmetic::div_mod::lemma_mod_add_multiples_vanish(j, cap);
                vstd::arithmetic::div_mod::lemma_small_mod(j as nat, cap as nat);
            }
        }
        assert(dispatchable(tasks[(start + o) % cap], layout));
        lemma_first_offset(tasks, cap, layout, start, o + 1);
    }
    if next_dispatchable_spec(t, layout, current) is Some {
        let o = choose|o: int| is_next_dispatchable(tasks, cap, layout, start, o);
        let idx = (start + o) % cap;
        vstd::arithmetic::div_mod::lemma_mod_bound(start + o, cap);
        assert(dispatchable(tasks[idx], layout));
        assert(occupied_ok(tasks[idx], t.hart_id(), idx));
    }
}

} // verus!

verus! {

/// The task-list line of an occupied slot.
pub open spec fn task_line(task: Task) -> Seq<u8> {
    crlf("id: ".spec_bytes()) + hex_text(task.id.0) + crlf(" state: Ready name: ".spec_bytes())
        + name_prefix(task.name@) + uart::line_bytes("".spec_bytes())
}

/// The task-list lines of the occupied slots among the first `n`.
pub open spec fn task_list_text(tasks: Seq<Task>, n: int) -> Seq<u8>
    decreases n,
{
    if n <= 0 {
        Seq::<u8>::empty()
    } else {
        task_list_text(tasks, n - 1) + if tasks[n - 1].state == TaskState::Empty {
            Seq::<u8>::empty()
        } else {
            task_line(tasks[n - 1])
        }
    }
}

/// The task list: one line per occupied slot with its id and name.
pub fn print_tasks(t: &TaskTable) -> (r: Vec<u8>)
    requires
        t.wf(),
    ensures
        r@ == uart::line_bytes("task list:".spec_bytes()) + task_list_text(t.tasks(), t.capacity()),
{
    proof {
        t.lemma_wf_bounds();
    }
    let mut out = uart::write_line("task list:");
    let ghost head = out@;
    let mut idx: usize = 0;
    while idx < t.cap
        invariant
            t.wf(),
            idx <= t.cap,
            t.tasks().len() == t.cap,
            out@ == head + task_list_text(t.tasks(), idx as int),
            forall|j: int|
                0 <= j < t.capacity() && t.tasks()[j].state != TaskState::Empty ==> occupied_ok(
                    #[trigger] t.tasks()[j],
                    t.hart_id(),
                    j,
                ),
        decreases t.cap - idx,
    {
        let slot = &t.slots[idx];
        if slot.state != TaskState::Empty {
            let id = slot.id;
            assert(t.slot_of(id) == Some(t.tasks()[idx as int]));
            let mut a = uart::write_str("id: ");
            let mut b = uart::write_hex_u64(id.0);
            let mut c = uart::write_str(" state: Ready name: ");
            let mut d = print_task_name_by_id(t, id);
            let mut e = uart::write_line("");
            a.append(&mut b);
            a.append(&mut c);
            a.append(&mut d);
            a.append(&mut e);
            assert(a@ =~= task_line(t.tasks()[idx as int]));
            out.append(&mut a);
        }
        proof {
            assert(out@ =~= head + task_list_text(t.tasks(), idx + 1));
        }
        idx = idx + 1;
    }
    out
}

} // verus!
