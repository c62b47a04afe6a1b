//! Callee-saved register context of a cooperative yield.
use vstd::prelude::*;
use vstd::string::*;
use crate::drivers::uart::{self, crlf, hex_text};

verus! {

#[derive(Clone, Copy)]
pub struct TaskCpuContext {
    pub sp: u64,
    pub return_pc: u64,
    pub resume_pc: u64,
    pub ra: u64,
    pub s: [u64; 12],
}

impl TaskCpuContext {
    pub fn empty() -> (r: Self)
        ensures
            r.sp == 0,
            r.return_pc == 0,
            r.resume_pc == 0,
            r.ra == 0,
            r.s@ == Seq::new(12, |i: int| 0u64),
    {
        Self::initial(0, 0)
    }

    /// A fresh context: stack `sp`, entered at `return_pc` (also its resume
    /// PC and `ra`), callee-saved registers zero.
    pub fn initial(sp: u64, return_pc: u64) -> (r: Self)
        ensures
            r.sp == sp,
            r.return_pc == return_pc,
            r.resume_pc == return_pc,
            r.ra == return_pc,
            r.s@ == Seq::new(12, |i: int| 0u64),
    {
        let r = Self { sp, return_pc, resume_pc: return_pc, ra: return_pc, s: [0u64; 12] };
        assert(r.s@ =~= Seq::new(12, |i: int| 0u64));
        r
    }

    pub fn is_valid(&self) -> (r: bool)
        ensures
            r == (self.sp != 0 && self.return_pc != 0 && self.resume_pc != 0),
    {
        self.sp != 0 && self.return_pc != 0 && self.resume_pc != 0
    }
}

/// Console text of a cooperative context: `sp`, both PCs, `ra`, and `s0`,
/// `s1`, `s2`, `s11`.
pub open spec fn cpu_context_text(c: TaskCpuContext) -> Seq<u8> {
    crlf(" cpu_context: sp: ".spec_bytes()) + hex_text(c.sp) + crlf(" return_pc: ".spec_bytes())
        + hex_text(c.return_pc) + crlf(" resume_pc: ".spec_bytes()) + hex_text(c.resume_pc) + crlf(
        " ra: ".spec_bytes(),
    ) + hex_text(c.ra) + crlf(" s0: ".spec_bytes()) + hex_text(c.s@[0]) + crlf(" s1: ".spec_bytes())
        + hex_text(c.s@[1]) + crlf(" s2: ".spec_bytes()) + hex_text(c.s@[2]) + crlf(
        " s11: ".spec_bytes(),
    ) + hex_text(c.s@[11])
}

pub fn print_cpu_context(context: TaskCpuContext) -> (r: Vec<u8>)
    ensures
        r@ == cpu_context_text(context),
{
    let mut out = uart::write_str(" cpu_context: sp: ");
    let mut a = uart::write_hex_u64(context.sp);
    out.append(&mut a);
    let mut b = uart::write_str(" return_pc: ");
    out.append(&mut b);
    let mut c = uart::write_hex_u64(context.return_pc);
    out.append(&mut c);
    let mut d = uart::write_str(" resume_pc: ");
    out.append(&mut d);
    let mut e = uart::write_hex_u64(context.resume_pc);
    out.append(&mut e);
    let mut f = uart::write_str(" ra: ");
    out.append(&mut f);
    let mut g = uart::write_hex_u64(context.ra);
    out.append(&mut g);
    let mut h = uart::write_str(" s0: ");
    out.append(&mut h);
    let mut i = uart::write_hex_u64(context.s[0]);
    out.append(&mut i);
    let mut j = uart::write_str(" s1: ");
    out.append(&mut j);
    let mut l = uart::write_hex_u64(context.s[1]);
    out.append(&mut l);
    let mut m = uart::write_str(" s2: ");
    out.append(&mut m);
    let mut n = uart::write_hex_u64(context.s[2]);
    out.append(&mut n);
    let mut o = uart::write_str(" s11: ");
    out.append(&mut o);
    let mut p = uart::write_hex_u64(context.s[11]);
    out.append(&mut p);
    out
}

} // verus!
