//! Tasks: the table, scheduling, faults, and their console reports.
pub mod bootstrap;
pub mod context;
pub mod cpu_context;
pub mod fault;
pub mod image;
pub mod scheduler;
pub mod table;

use vstd::prelude::*;
use vstd::string::*;
use crate::drivers::uart::{self, crlf, hex_text};
use crate::kernel::task::table::{TaskId, TaskTable};

verus! {

/// Console text of a saved stack pointer and PC.
pub open spec fn context_values_text(saved_sp: u64, saved_pc: u64) -> Seq<u8> {
    crlf(" saved_sp: ".spec_bytes()) + hex_text(saved_sp) + crlf(" saved_pc: ".spec_bytes())
        + hex_text(saved_pc)
}

pub fn print_task_context_values(saved_sp: u64, saved_pc: u64) -> (r: Vec<u8>)
    ensures
        r@ == context_values_text(saved_sp, saved_pc),
{
    let mut out = uart::write_str(" saved_sp: ");
    let mut a = uart::write_hex_u64(saved_sp);
    let mut b = uart::write_str(" saved_pc: ");
    let mut c = uart::write_hex_u64(saved_pc);
    out.append(&mut a);
    out.append(&mut b);
    out.append(&mut c);
    out
}

/// Console text of a value that may be missing.
pub open spec fn hex_or_none(v: Option<u64>) -> Seq<u8> {
    match v {
        Some(x) => hex_text(x),
        None => crlf("none".spec_bytes()),
    }
}

/// Console text of task `id`'s initial stack pointer and PC.
pub open spec fn full_context_text(t: &TaskTable, id: TaskId) -> Seq<u8> {
    let slot = t.slot_of(id);
    crlf(" initial_sp: ".spec_bytes()) + hex_or_none(
        match slot {
            Some(task) => Some(task.initial_sp),
            None => None,
        },
    ) + crlf(" initial_pc: ".spec_bytes()) + hex_or_none(
        match slot {
            Some(task) => Some(task.initial_pc),
            None => None,
        },
    )
}

fn print_hex_or_none(v: Option<u64>) -> (r: Vec<u8>)
    ensures
        r@ == hex_or_none(v),
{
    match v {
        Some(x) => uart::write_hex_u64(x),
        None => uart::write_str("none"),
    }
}

pub fn print_task_full_context_by_id(t: &TaskTable, id: TaskId) -> (r: Vec<u8>)
    requires
        t.wf(),
    ensures
        r@ == full_context_text(t, id),
{
    let mut out = uart::write_str(" initial_sp: ");
    let mut a = print_hex_or_none(table::get_task_initial_sp(t, id));
    let mut b = uart::write_str(" initial_pc: ");
    let mut c = print_hex_or_none(table::get_task_initial_pc(t, id));
    out.append(&mut a);
    out.append(&mut b);
    out.append(&mut c);
    out
}

} // verus!
