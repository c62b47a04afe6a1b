//! Saved RISC-V register images: the GPR frame that the trap entry stores and
//! the full resume image (GPRs plus `mepc`/`mstatus`).
use vstd::prelude::*;
use crate::kernel::task::cpu_context::TaskCpuContext;

verus! {

/// In-memory GPR image saved on trap entry (248 bytes: `sp`, `ra`, `t0..t6`,
/// `a0..a7`, `s0..s11`, `gp`, `tp`).
#[derive(Clone, Copy, Debug)]
pub struct Riscv64TrapFrame {
    pub sp: u64,
    pub ra: u64,
    pub t0: u64,
    pub t1: u64,
    pub t2: u64,
    pub t3: u64,
    pub t4: u64,
    pub t5: u64,
    pub t6: u64,
    pub a0: u64,
    pub a1: u64,
    pub a2: u64,
    pub a3: u64,
    pub a4: u64,
    pub a5: u64,
    pub a6: u64,
    pub a7: u64,
    pub s0: u64,
    pub s1: u64,
    pub s2: u64,
    pub s3: u64,
    pub s4: u64,
    pub s5: u64,
    pub s6: u64,
    pub s7: u64,
    pub s8: u64,
    pub s9: u64,
    pub s10: u64,
    pub s11: u64,
    pub gp: u64,
    pub tp: u64,
}

pub const TRAP_FRAME_SIZE: usize = 248;

/// Every register of the frame is zero.
pub open spec fn frame_is_zero(f: Riscv64TrapFrame) -> bool {
    &&& f.sp == 0 && f.ra == 0 && f.gp == 0 && f.tp == 0
    &&& f.t0 == 0 && f.t1 == 0 && f.t2 == 0 && f.t3 == 0 && f.t4 == 0 && f.t5 == 0 && f.t6 == 0
    &&& f.a0 == 0 && f.a1 == 0 && f.a2 == 0 && f.a3 == 0 && f.a4 == 0 && f.a5 == 0 && f.a6 == 0
        && f.a7 == 0
    &&& f.s0 == 0 && f.s1 == 0 && f.s2 == 0 && f.s3 == 0 && f.s4 == 0 && f.s5 == 0 && f.s6 == 0
        && f.s7 == 0 && f.s8 == 0 && f.s9 == 0 && f.s10 == 0 && f.s11 == 0
}

/// The callee-saved registers `s0..s11` of a frame, in order.
pub open spec fn s_regs_of(f: Riscv64TrapFrame) -> Seq<u64> {
    seq![f.s0, f.s1, f.s2, f.s3, f.s4, f.s5, f.s6, f.s7, f.s8, f.s9, f.s10, f.s11]
}

impl Riscv64TrapFrame {
    pub fn empty() -> (r: Self)
        ensures
            frame_is_zero(r),
    {
        Self {
            sp: 0,
            ra: 0,
            t0: 0,
            t1: 0,
            t2: 0,
            t3: 0,
            t4: 0,
            t5: 0,
            t6: 0,
            a0: 0,
            a1: 0,
            a2: 0,
            a3: 0,
            a4: 0,
            a5: 0,
            a6: 0,
            a7: 0,
            s0: 0,
            s1: 0,
            s2: 0,
            s3: 0,
            s4: 0,
            s5: 0,
            s6: 0,
            s7: 0,
            s8: 0,
            s9: 0,
            s10: 0,
            s11: 0,
            gp: 0,
            tp: 0,
        }
    }

    pub fn s_regs(self) -> (r: [u64; 12])
        ensures
            r@ == s_regs_of(self),
    {
        let r = [
            self.s0,
            self.s1,
            self.s2,
            self.s3,
            self.s4,
            self.s5,
            self.s6,
            self.s7,
            self.s8,
            self.s9,
            self.s10,
            self.s11,
        ];
        assert(r@ =~= s_regs_of(self));
        r
    }
}

/// Full resume image: GPRs plus the CSRs the trap entry does not store.
#[derive(Clone, Copy, Debug)]
pub struct TrapImage {
    pub gpr: Riscv64TrapFrame,
    pub mepc: u64,
    pub mstatus: u64,
}

impl TrapImage {
    pub fn empty() -> (r: Self)
        ensures
            frame_is_zero(r.gpr),
            r.mepc == 0,
            r.mstatus == 0,
    {
        Self { gpr: Riscv64TrapFrame::empty(), mepc: 0, mstatus: 0 }
    }

    pub fn from_frame(frame: &Riscv64TrapFrame, mepc: u64, mstatus: u64) -> (r: Self)
        ensures
            r.gpr == *frame,
            r.mepc == mepc,
            r.mstatus == mstatus,
    {
        Self { gpr: *frame, mepc, mstatus }
    }

    /// An `mret` image from a cooperative yield save (callee-saved registers,
    /// `sp`, `ra`; every other register zero, `mstatus` zero).
    pub fn from_yield_context(ctx: TaskCpuContext) -> (r: Self)
        ensures
            r.gpr.sp == ctx.sp,
            r.gpr.ra == ctx.ra,
            s_regs_of(r.gpr) == ctx.s@,
            r.gpr.t0 == 0 && r.gpr.t1 == 0 && r.gpr.t2 == 0 && r.gpr.t3 == 0 && r.gpr.t4 == 0
                && r.gpr.t5 == 0 && r.gpr.t6 == 0,
            r.gpr.a0 == 0 && r.gpr.a1 == 0 && r.gpr.a2 == 0 && r.gpr.a3 == 0 && r.gpr.a4 == 0
                && r.gpr.a5 == 0 && r.gpr.a6 == 0 && r.gpr.a7 == 0,
            r.gpr.gp == 0 && r.gpr.tp == 0,
            r.mepc == ctx.resume_pc,
            r.mstatus == 0,
    {
        let mut gpr = Riscv64TrapFrame::empty();
        gpr.sp = ctx.sp;
        gpr.ra = ctx.ra;
        gpr.s0 = ctx.s[0];
        gpr.s1 = ctx.s[1];
        gpr.s2 = ctx.s[2];
        gpr.s3 = ctx.s[3];
        gpr.s4 = ctx.s[4];
        gpr.s5 = ctx.s[5];
        gpr.s6 = ctx.s[6];
        gpr.s7 = ctx.s[7];
        gpr.s8 = ctx.s[8];
        gpr.s9 = ctx.s[9];
        gpr.s10 = ctx.s[10];
        gpr.s11 = ctx.s[11];
        let r = Self { gpr, mepc: ctx.resume_pc, mstatus: 0 };
        assert(s_regs_of(r.gpr) =~= ctx.s@);
        r
    }

    /// The cooperative context that resumes this image: `sp`, `ra`, `s0..s11`,
    /// and `mepc` as both return and resume PC.
    pub fn to_yield_context(self) -> (r: TaskCpuContext)
        ensures
            r.sp == self.gpr.sp,
            r.return_pc == self.mepc,
            r.resume_pc == self.mepc,
            r.ra == self.gpr.ra,
            r.s@ == s_regs_of(self.gpr),
    {
        TaskCpuContext {
            sp: self.gpr.sp,
            return_pc: self.mepc,
            resume_pc: self.mepc,
            ra: self.gpr.ra,
            s: self.gpr.s_regs(),
        }
    }

    /// Resumable: a stack pointer and a resume PC are present.
    pub fn is_valid(&self) -> (r: bool)
        ensures
            r == image_valid(*self),
    {
        self.gpr.sp != 0 && self.mepc != 0
    }
}

pub open spec fn image_valid(img: TrapImage) -> bool {
    img.gpr.sp != 0 && img.mepc != 0
}

} // verus!
