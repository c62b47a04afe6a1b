//! The two-word record at the top of a fresh task's stack.
use vstd::prelude::*;
use vstd::string::*;
use crate::drivers::uart::{self, crlf, hex_text};

verus! {

/// Entry point and stack top of a task that has not run yet.
#[derive(Clone, Copy)]
pub struct InitialTaskContext {
    pub entry: u64,
    pub stack_top: u64,
}

/// Bytes of an [`InitialTaskContext`]: two words.
pub const INITIAL_TASK_CONTEXT_SIZE: u64 = 16;

fn align_down_16(value: u64) -> (r: u64)
    ensures
        r == value - value % 16,
{
    assert(value & !15u64 == value - value % 16) by (bit_vector);
    value & !15u64
}

/// Where the initial context of a task whose stack ends at `stack_top` goes:
/// the highest 16-byte aligned slot below `stack_top`, with the record to
/// store there; `None` when the stack top is below the record size.
pub fn prepare_initial_stack(stack_top: u64, entry: u64) -> (r: Option<(u64, InitialTaskContext)>)
    ensures
        r == if stack_top < INITIAL_TASK_CONTEXT_SIZE {
            None
        } else {
            let below = stack_top - INITIAL_TASK_CONTEXT_SIZE;
            Some(
                (
                    (below - below % 16) as u64,
                    InitialTaskContext { entry, stack_top },
                ),
            )
        },
{
    let size = INITIAL_TASK_CONTEXT_SIZE;
    let below = match stack_top.checked_sub(size) {
        Some(b) => b,
        None => {
            return None;
        },
    };
    let context_sp = align_down_16(below);
    match context_sp.checked_add(size) {
        Some(end) => {
            if end > stack_top {
                return None;
            }
        },
        None => {
            return None;
        },
    }
    Some((context_sp, InitialTaskContext { entry, stack_top }))
}

/// Console text of a prepared initial context.
pub open spec fn initial_context_text(context: InitialTaskContext) -> Seq<u8> {
    crlf(" prepared_entry: ".spec_bytes()) + hex_text(context.entry) + crlf(
        " prepared_stack_top: ".spec_bytes(),
    ) + hex_text(context.stack_top)
}

pub fn print_initial_context(context: InitialTaskContext) -> (r: Vec<u8>)
    ensures
        r@ == initial_context_text(context),
{
    let mut out = uart::write_str(" prepared_entry: ");
    let mut a = uart::write_hex_u64(context.entry);
    let mut b = uart::write_str(" prepared_stack_top: ");
    let mut c = uart::write_hex_u64(context.stack_top);
    out.append(&mut a);
    out.append(&mut b);
    out.append(&mut c);
    out
}

} // verus!
