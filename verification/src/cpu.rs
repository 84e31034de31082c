//! Per-hart CPU local state.
use vstd::prelude::*;
use crate::thread::{Thread, ThreadId};
use crate::trapframe::TrapFrame;

verus! {

pub struct Cpu {
    pub hartid: usize,
    pub current: ThreadId,
    pub interrupt_depth: usize,
    pub scheduler_enabled: bool,
}

impl Cpu {
    pub fn new() -> (c: Cpu)
        ensures
            c.hartid == 0,
            c.current == 0,
            c.interrupt_depth == 0,
            !c.scheduler_enabled,
    {
        Cpu { hartid: 0, current: 0, interrupt_depth: 0, scheduler_enabled: false }
    }

    /// The trap frame of the thread running on this hart, if its id is in `threads`.
    pub fn current_tf<'a>(&self, threads: &'a mut [Thread]) -> (r: Option<&'a mut TrapFrame>)
        ensures
            self.current < old(threads)@.len() ==> r is Some && *r->Some_0 == old(
                threads,
            )@[self.current as int].trapframe && final(threads)@ == old(threads)@.update(
                self.current as int,
                Thread { trapframe: *final(r->Some_0), ..old(threads)@[self.current as int] },
            ),
            self.current >= old(threads)@.len() ==> r is None && final(threads)@ == old(threads)@,
    {
        if self.current < threads.len() {
            Some(&mut threads[self.current].trapframe)
        } else {
            None
        }
    }
}

} // verus!
