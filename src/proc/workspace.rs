//! Reading and writing the process metadata kept below a workspace pointer.
use crate::mem::{Mem, MemView};
use vstd::prelude::*;
use vstd::wrapping::i32_specs::wrapping_add;

verus! {

/// Values of the alternation state slot.
pub struct EventState {}

impl EventState {
    pub const ENABLING: i32 = i32::MIN + 1;
    pub const WAITING: i32 = i32::MIN + 2;
    pub const READY: i32 = i32::MIN + 3;
}

/// Priority bit of a workspace descriptor.
pub struct ProcPriority {}

impl ProcPriority {
    pub const HIGH: i32 = 0;
    pub const LOW: i32 = 1;
}

/// Offset of the guard slot.
pub const GUARD: i32 = 0;

/// Offset of the saved instruction pointer.
pub const IPTR: i32 = -4;

/// Offset of the link to the next process in a queue.
pub const LINK: i32 = -8;

/// Offset of the alternation state.
pub const STATE: i32 = -12;

/// Offset of the timer link.
pub const TLINK: i32 = -16;

/// Offset of the wake-up time.
pub const TIME: i32 = -20;

/// Access to the metadata slots of workspaces in a memory.
pub struct WorkspaceCache {
    mem: Mem,
}

impl WorkspaceCache {
    /// The memory the slots live in.
    pub closed spec fn view_mem(&self) -> MemView {
        self.mem@
    }

    pub fn new(mem: Mem) -> (r: Self)
        ensures
            r.view_mem() == mem@,
    {
        WorkspaceCache { mem }
    }

    /// The memory, for inspection.
    pub fn mem(&self) -> (r: &Mem)
        ensures
            r@ == self.view_mem(),
    {
        &self.mem
    }

    fn set_slot(&mut self, wp: i32, offset: i32, v: i32)
        requires
            old(self).view_mem().word_valid(wrapping_add(wp, offset) as u32),
        ensures
            final(self).view_mem() == old(self).view_mem().with_word(
                wrapping_add(wp, offset) as u32,
                v,
            ),
    {
        self.mem.write(wp.wrapping_add(offset), v);
    }

    fn get_slot(&self, wp: i32, offset: i32) -> (r: i32)
        requires
            self.view_mem().word_valid(wrapping_add(wp, offset) as u32),
        ensures
            r == self.view_mem().word(wrapping_add(wp, offset) as u32),
    {
        self.mem.read(wp.wrapping_add(offset))
    }

    /// Sets the guard offset, the offset from the end of an alternation.
    pub fn set_guard_offset(&mut self, wp: i32, offset: i32)
        requires
            old(self).view_mem().word_valid(wrapping_add(wp, GUARD) as u32),
        ensures
            final(self).view_mem() == old(self).view_mem().with_word(
                wrapping_add(wp, GUARD) as u32,
                offset,
            ),
    {
        self.set_slot(wp, GUARD, offset);
    }

    /// The guard offset; -1 while no message has arrived.
    pub fn get_guard_offset(&self, wp: i32) -> (r: i32)
        requires
            self.view_mem().word_valid(wrapping_add(wp, GUARD) as u32),
        ensures
            r == self.view_mem().word(wrapping_add(wp, GUARD) as u32),
    {
        self.get_slot(wp, GUARD)
    }

    /// Sets the instruction pointer of a descheduled process.
    pub fn set_iptr(&mut self, wp: i32, ip: i32)
        requires
            old(self).view_mem().word_valid(wrapping_add(wp, IPTR) as u32),
        ensures
            final(self).view_mem() == old(self).view_mem().with_word(
                wrapping_add(wp, IPTR) as u32,
                ip,
            ),
    {
        self.set_slot(wp, IPTR, ip);
    }

    /// The instruction pointer of a descheduled process.
    pub fn get_iptr(&self, wp: i32) -> (r: i32)
        requires
            self.view_mem().word_valid(wrapping_add(wp, IPTR) as u32),
        ensures
            r == self.view_mem().word(wrapping_add(wp, IPTR) as u32),
    {
        self.get_slot(wp, IPTR)
    }

    /// Sets the workspace descriptor of the next process in the queue.
    pub fn set_link(&mut self, wp: i32, wpd: i32)
        requires
            old(self).view_mem().word_valid(wrapping_add(wp, LINK) as u32),
        ensures
            final(self).view_mem() == old(self).view_mem().with_word(
                wrapping_add(wp, LINK) as u32,
                wpd,
            ),
    {
        self.set_slot(wp, LINK, wpd);
    }

    /// The workspace descriptor of the next process in the queue.
    pub fn get_link(&self, wp: i32) -> (r: i32)
        requires
            self.view_mem().word_valid(wrapping_add(wp, LINK) as u32),
        ensures
            r == self.view_mem().word(wrapping_add(wp, LINK) as u32),
    {
        self.get_slot(wp, LINK)
    }

    /// Sets the alternation state.
    pub fn set_state(&mut self, wp: i32, state: i32)
        requires
            old(self).view_mem().word_valid(wrapping_add(wp, STATE) as u32),
        ensures
            final(self).view_mem() == old(self).view_mem().with_word(
                wrapping_add(wp, STATE) as u32,
                state,
            ),
    {
        self.set_slot(wp, STATE, state);
    }

    /// The alternation state.
    pub fn get_state(&self, wp: i32) -> (r: i32)
        requires
            self.view_mem().word_valid(wrapping_add(wp, STATE) as u32),
        ensures
            r == self.view_mem().word(wrapping_add(wp, STATE) as u32),
    {
        self.get_slot(wp, STATE)
    }

    /// Sets the timer link flag.
    pub fn set_tlink(&mut self, wp: i32, flag: i32)
        requires
            old(self).view_mem().word_valid(wrapping_add(wp, TLINK) as u32),
        ensures
            final(self).view_mem() == old(self).view_mem().with_word(
                wrapping_add(wp, TLINK) as u32,
                flag,
            ),
    {
        self.set_slot(wp, TLINK, flag);
    }

    /// The timer link flag.
    pub fn get_tlink(&self, wp: i32) -> (r: i32)
        requires
            self.view_mem().word_valid(wrapping_add(wp, TLINK) as u32),
        ensures
            r == self.view_mem().word(wrapping_add(wp, TLINK) as u32),
    {
        self.get_slot(wp, TLINK)
    }

    /// Sets the time the process waits for.
    pub fn set_time(&mut self, wp: i32, time: i32)
        requires
            old(self).view_mem().word_valid(wrapping_add(wp, TIME) as u32),
        ensures
            final(self).view_mem() == old(self).view_mem().with_word(
                wrapping_add(wp, TIME) as u32,
                time,
            ),
    {
        self.set_slot(wp, TIME, time);
    }

    /// The time the process waits for.
    pub fn get_time(&self, wp: i32) -> (r: i32)
        requires
            self.view_mem().word_valid(wrapping_add(wp, TIME) as u32),
        ensures
            r == self.view_mem().word(wrapping_add(wp, TIME) as u32),
    {
        self.get_slot(wp, TIME)
    }
}

} // verus!
