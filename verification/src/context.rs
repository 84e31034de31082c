//! Callee-saved kernel context. The trap frame holds the rest of the registers.
use vstd::prelude::*;
use crate::trapframe::{TrapFrame, zero_frame};

verus! {

#[derive(Clone, Copy, Debug, Default, PartialEq, Eq, Structural)]
pub struct Context {
    pub ra: usize,
    pub sp: usize,
    pub s0: usize,
    pub s1: usize,
    pub s2: usize,
    pub s3: usize,
    pub s4: usize,
    pub s5: usize,
    pub s6: usize,
    pub s7: usize,
    pub s8: usize,
    pub s9: usize,
    pub s10: usize,
    pub s11: usize,
}

/// The all-zero context.
pub open spec fn zero_context() -> Context {
    Context {
        ra: 0,
        sp: 0,
        s0: 0,
        s1: 0,
        s2: 0,
        s3: 0,
        s4: 0,
        s5: 0,
        s6: 0,
        s7: 0,
        s8: 0,
        s9: 0,
        s10: 0,
        s11: 0,
    }
}

impl Context {
    pub fn zero() -> (r: Context)
        ensures
            r == zero_context(),
    {
        Context {
            ra: 0,
            sp: 0,
            s0: 0,
            s1: 0,
            s2: 0,
            s3: 0,
            s4: 0,
            s5: 0,
            s6: 0,
            s7: 0,
            s8: 0,
            s9: 0,
            s10: 0,
            s11: 0,
        }
    }

    /// A zeroed context that returns to `entry` on the stack at `stack_top`.
    pub fn init(&mut self, entry: usize, stack_top: usize)
        ensures
            *final(self) == (Context { ra: entry, sp: stack_top, ..zero_context() }),
    {
        *self = Context::zero();
        self.ra = entry;
        self.sp = stack_top;
    }
}

pub struct ExecutionContext {
    pub context: Context,
    pub trapframe: TrapFrame,
}

impl ExecutionContext {
    pub fn empty() -> (r: ExecutionContext)
        ensures
            r.context == zero_context(),
            r.trapframe == zero_frame(),
    {
        ExecutionContext { context: Context::zero(), trapframe: TrapFrame::zero() }
    }
}

} // verus!
