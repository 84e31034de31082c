//! RISC-V (RV64) machine-mode trap frame for preemptive multitasking.
//!
//! Every thread owns one. On a trap the assembly vector saves the running
//! thread's integer registers plus `mepc` and `mstatus` here; the kernel reads
//! syscall arguments from it and writes return values into it.
use vstd::prelude::*;

verus! {

/// Previous privilege = Machine.
pub const MSTATUS_MPP_M: usize = 0x1800;

/// Enable interrupts after `mret`.
pub const MSTATUS_MPIE: usize = 0x80;

/// FPU on.
pub const MSTATUS_FS_DIRTY: usize = 0x6000;

/// Initial `mstatus` of a fresh thread: M-mode, interrupts on, FPU on.
pub const MSTATUS_INIT: usize = MSTATUS_MPP_M | MSTATUS_MPIE | MSTATUS_FS_DIRTY;

/// The integer registers x1..x31 by ABI name, then `mepc` and `mstatus`.
#[derive(Clone, Copy, Debug, PartialEq, Eq, Structural)]
pub struct TrapFrame {
    pub ra: usize,
    pub sp: usize,
    pub gp: usize,
    pub tp: usize,
    pub t0: usize,
    pub t1: usize,
    pub t2: usize,
    pub s0: usize,
    pub s1: usize,
    pub a0: usize,
    pub a1: usize,
    pub a2: usize,
    pub a3: usize,
    pub a4: usize,
    pub a5: usize,
    pub a6: usize,
    pub a7: usize,
    pub s2: usize,
    pub s3: usize,
    pub s4: usize,
    pub s5: usize,
    pub s6: usize,
    pub s7: usize,
    pub s8: usize,
    pub s9: usize,
    pub s10: usize,
    pub s11: usize,
    pub t3: usize,
    pub t4: usize,
    pub t5: usize,
    pub t6: usize,
    /// Program counter to resume at.
    pub mepc: usize,
    /// Saved `mstatus`.
    pub mstatus: usize,
}

/// The all-zero frame.
pub open spec fn zero_frame() -> TrapFrame {
    TrapFrame {
        ra: 0,
        sp: 0,
        gp: 0,
        tp: 0,
        t0: 0,
        t1: 0,
        t2: 0,
        s0: 0,
        s1: 0,
        a0: 0,
        a1: 0,
        a2: 0,
        a3: 0,
        a4: 0,
        a5: 0,
        a6: 0,
        a7: 0,
        s2: 0,
        s3: 0,
        s4: 0,
        s5: 0,
        s6: 0,
        s7: 0,
        s8: 0,
        s9: 0,
        s10: 0,
        s11: 0,
        t3: 0,
        t4: 0,
        t5: 0,
        t6: 0,
        mepc: 0,
        mstatus: 0,
    }
}

impl TrapFrame {
    /// The frame after an IPC completes: status in a0, the three message
    /// words in a1..a3, the sender in a4.
    pub open spec fn with_ipc_return(
        self,
        status: usize,
        w0: usize,
        w1: usize,
        w2: usize,
        sender: usize,
    ) -> TrapFrame {
        TrapFrame { a0: status, a1: w0, a2: w1, a3: w2, a4: sender, ..self }
    }

    pub fn zero() -> (r: TrapFrame)
        ensures
            r == zero_frame(),
    {
        TrapFrame {
            ra: 0,
            sp: 0,
            gp: 0,
            tp: 0,
            t0: 0,
            t1: 0,
            t2: 0,
            s0: 0,
            s1: 0,
            a0: 0,
            a1: 0,
            a2: 0,
            a3: 0,
            a4: 0,
            a5: 0,
            a6: 0,
            a7: 0,
            s2: 0,
            s3: 0,
            s4: 0,
            s5: 0,
            s6: 0,
            s7: 0,
            s8: 0,
            s9: 0,
            s10: 0,
            s11: 0,
            t3: 0,
            t4: 0,
            t5: 0,
            t6: 0,
            mepc: 0,
            mstatus: 0,
        }
    }

    /// A fresh kernel thread: zeroed, resuming at `entry` on stack `sp`.
    pub fn init_kernel(&mut self, entry: usize, sp: usize)
        ensures
            *final(self) == (TrapFrame { mepc: entry, sp, mstatus: MSTATUS_INIT, ..zero_frame() }),
    {
        *self = TrapFrame::zero();
        self.mepc = entry;
        self.sp = sp;
        self.mstatus = MSTATUS_INIT;
    }

    /// Step past the 4-byte `ecall` instruction.
    pub fn advance_pc(&mut self)
        ensures
            *final(self) == (TrapFrame {
                mepc: vstd::wrapping::usize_specs::wrapping_add(old(self).mepc, 4),
                ..*old(self)
            }),
    {
        self.mepc = self.mepc.wrapping_add(4);
    }

    /// The syscall number, passed in a7.
    pub fn syscall_number(&self) -> (r: usize)
        ensures
            r == self.a7,
    {
        self.a7
    }

    pub fn arg0(&self) -> (r: usize)
        ensures
            r == self.a0,
    {
        self.a0
    }

    pub fn arg1(&self) -> (r: usize)
        ensures
            r == self.a1,
    {
        self.a1
    }

    pub fn arg2(&self) -> (r: usize)
        ensures
            r == self.a2,
    {
        self.a2
    }

    pub fn arg3(&self) -> (r: usize)
        ensures
            r == self.a3,
    {
        self.a3
    }

    /// The syscall result, returned in a0.
    pub fn set_return(&mut self, value: usize)
        ensures
            *final(self) == (TrapFrame { a0: value, ..*old(self) }),
    {
        self.a0 = value;
    }

    pub fn set_ipc_return(&mut self, status: usize, w0: usize, w1: usize, w2: usize, sender: usize)
        ensures
            *final(self) == old(self).with_ipc_return(status, w0, w1, w2, sender),
    {
        self.a0 = status;
        self.a1 = w0;
        self.a2 = w1;
        self.a3 = w2;
        self.a4 = sender;
    }
}

} // verus!
