//! Process object: owns a capability table and a primary thread.
use vstd::prelude::*;
use crate::capability::{CapabilityTable, empty_cap};
use crate::config::{MAX_CAPS, MAX_PROCESSES};
use crate::thread::ThreadId;

verus! {

pub type ProcessId = usize;

#[derive(Clone, Copy)]
pub struct Process {
    pub pid: ProcessId,
    pub used: bool,
    pub alive: bool,
    pub caps: CapabilityTable,
    pub primary_tid: ThreadId,
}

/// A table with every slot empty.
pub open spec fn empty_caps() -> Seq<crate::capability::Capability> {
    Seq::new(MAX_CAPS as nat, |i: int| empty_cap())
}

impl Process {
    pub fn empty() -> (p: Process)
        ensures
            p.pid == 0,
            !p.used,
            !p.alive,
            p.caps@ == empty_caps(),
            p.primary_tid == 0,
    {
        Process { pid: 0, used: false, alive: false, caps: CapabilityTable::new(), primary_tid: 0 }
    }
}

/// The lowest unused process slot from 1 on, if there is one.
pub open spec fn first_unused_process(s: Seq<Process>) -> Option<int> {
    if exists|i: int| 1 <= i < MAX_PROCESSES && !(#[trigger] s[i]).used {
        Some(
            choose|i: int|
                1 <= i < MAX_PROCESSES && !(#[trigger] s[i]).used && forall|j: int|
                    1 <= j < i ==> (#[trigger] s[j]).used,
        )
    } else {
        None
    }
}

pub struct ProcessTable {
    pub slots: [Process; MAX_PROCESSES],
}

impl ProcessTable {
    pub fn new() -> (t: ProcessTable)
        ensures
            forall|i: int|
                0 <= i < MAX_PROCESSES ==> !(#[trigger] t.slots@[i]).used && !t.slots@[i].alive
                    && t.slots@[i].caps@ == empty_caps() && t.slots@[i].pid == 0
                    && t.slots@[i].primary_tid == 0,
    {
        ProcessTable { slots: [Process::empty(); MAX_PROCESSES] }
    }

    /// Claims the lowest unused slot from 1 on for a fresh, live process.
    pub fn allocate(&mut self) -> (r: Option<ProcessId>)
        ensures
            match first_unused_process(old(self).slots@) {
                Some(i) => r == Some(i as usize) && final(self).slots@.len() == MAX_PROCESSES
                    && (forall|j: int| 0 <= j < MAX_PROCESSES && j != i ==> final(self).slots@[j]
                    == old(self).slots@[j]) && final(self).slots@[i].pid == i
                    && final(self).slots@[i].used && final(self).slots@[i].alive
                    && final(self).slots@[i].caps@ == empty_caps()
                    && final(self).slots@[i].primary_tid == 0,
                None => r is None && final(self).slots@ == old(self).slots@,
            },
    {
        let mut i: usize = 1;
        while i < MAX_PROCESSES
            invariant
                1 <= i <= MAX_PROCESSES,
                self.slots@ == old(self).slots@,
                forall|j: int| 1 <= j < i ==> (#[trigger] self.slots@[j]).used,
            decreases MAX_PROCESSES - i,
        {
            if !self.slots[i].used {
                proof {
                    let k = i as int;
                    let c = choose|c: int|
                        1 <= c < MAX_PROCESSES && !(#[trigger] self.slots@[c]).used && forall|
                            j: int,
                        | 1 <= j < c ==> (#[trigger] self.slots@[j]).used;
                    assert(!self.slots@[k].used);
                    assert(c == k) by {
                        if c > k {
                            assert(self.slots@[k].used);
                        }
                    }
                }
                let mut p = Process::empty();
                p.used = true;
                p.alive = true;
                p.pid = i;
                self.slots[i] = p;
                return Some(i);
            }
            i = i + 1;
        }
        None
    }

    pub open spec fn in_use(&self, pid: int) -> bool {
        0 <= pid < MAX_PROCESSES && self.slots@[pid].used
    }

    pub fn get(&self, pid: ProcessId) -> (r: Option<&Process>)
        ensures
            self.in_use(pid as int) ==> r == Some(&self.slots@[pid as int]),
            !self.in_use(pid as int) ==> r is None,
    {
        if pid < MAX_PROCESSES && self.slots[pid].used {
            Some(&self.slots[pid])
        } else {
            None
        }
    }

    pub fn get_mut(&mut self, pid: ProcessId) -> (r: Option<&mut Process>)
        ensures
            old(self).in_use(pid as int) ==> r is Some && *r->Some_0 == old(self).slots@[pid as int]
                && final(self).slots@ == old(self).slots@.update(pid as int, *final(r->Some_0)),
            !old(self).in_use(pid as int) ==> r is None && final(self).slots@ == old(self).slots@,
    {
        if pid < MAX_PROCESSES && self.slots[pid].used {
            Some(&mut self.slots[pid])
        } else {
            None
        }
    }
}

} // verus!
