//! The processor: registers, flags and the direct-instruction engine.
pub mod opcodes;
pub mod secondary;
pub mod semantics;
pub mod workspace;

use crate::mem::{Mem, Stack, BACK_PTR_0, BACK_PTR_1, FRONT_PTR_0, FRONT_PTR_1, STACK_SIZE};
use crate::proc::opcodes::IndirectOp;
use crate::proc::semantics::{
    access_error, activate_spec, call_spec, dequeue_spec, deschedule_spec, direct_spec,
    dispatch_spec, enqueue_spec, fail, restore_spec, run_process_spec,
    run_spec, step_spec, words, ProcView,
};
use vstd::prelude::*;
use vstd::wrapping::i32_specs::{wrapping_add, wrapping_sub};

verus! {

/// Marks "no process": an empty queue, an idle channel.
pub const NOT_PROCESS_P: i32 = i32::MIN;

/// The sixteen direct instructions, in the order of their codes.
#[derive(Clone, Copy, Debug, PartialEq, Eq, Structural, Hash)]
pub enum DirectOp {
    JUMP,
    LDLP,
    PFIX,
    LDNL,
    LDC,
    LDNLP,
    NFIX,
    LDL,
    ADC,
    CALL,
    CJ,
    AJW,
    EQC,
    STL,
    STNL,
    OPR,
}

/// Failures the host sees; each stops the process that met it.
#[derive(Clone, Copy, Debug, PartialEq, Eq, Structural)]
pub enum OpErr {
    /// A word access at an address that is not a multiple of four.
    Misaligned,
    /// An access outside RAM and the register blocks.
    OutOfRange,
    /// A reserved instruction that the machine does not carry out.
    Unimplemented,
    /// An operand of `OPR` that selects no instruction.
    UnknownOp,
}

/// Flags that can be inspected.
#[derive(Clone, Copy, Debug, PartialEq, Eq, Structural)]
pub enum Flag {
    ERROR,
}

/// What the processor is doing after its last instruction.
#[derive(Clone, Copy, Debug, PartialEq, Eq, Structural)]
pub enum ProcState {
    ACTIVE,
    ENABLING,
    WAITING,
    READY,
    IDLE,
    HALTED,
}

/// Scheduling priority of a process.
#[derive(Clone, Copy, Debug, PartialEq, Eq, Structural)]
pub enum Priority {
    High,
    Low,
}

/// The processor and the memory it runs on.
pub struct Proc {
    stack: Stack,
    pc: i32,
    workspace: i32,
    operand: i32,
    pri: Priority,
    error: bool,
    halt_on_error: bool,
    state: ProcState,
    mem: Mem,
}

impl View for Proc {
    type V = ProcView;

    closed spec fn view(&self) -> ProcView {
        ProcView {
            a: self.stack@.0,
            b: self.stack@.1,
            c: self.stack@.2,
            iptr: self.pc,
            wptr: self.workspace,
            oreg: self.operand,
            pri: self.pri,
            error: self.error,
            halt_on_error: self.halt_on_error,
            state: self.state,
            mem: self.mem@,
        }
    }
}

/// The register blocks can always be accessed.
pub proof fn lemma_registers_valid(m: crate::mem::MemView)
    ensures
        m.word_valid(FRONT_PTR_0 as u32),
        m.word_valid(FRONT_PTR_1 as u32),
        m.word_valid(BACK_PTR_0 as u32),
        m.word_valid(BACK_PTR_1 as u32),
        m.word_valid(crate::mem::CLOCK_REG_0 as u32),
        m.word_valid(crate::mem::CLOCK_REG_1 as u32),
        m.word_valid(crate::mem::TPTR_0 as u32),
        m.word_valid(crate::mem::TPTR_1 as u32),
        m.word_valid(crate::mem::REGISTER_CACHE as u32),
        m.word_valid((crate::mem::REGISTER_CACHE as u32 + 4) as u32),
        m.word_valid((crate::mem::REGISTER_CACHE as u32 + 8) as u32),
        m.word_valid((crate::mem::REGISTER_CACHE as u32 + 12) as u32),
        m.word_valid((crate::mem::REGISTER_CACHE as u32 + 16) as u32),
        m.word_valid((crate::mem::REGISTER_CACHE as u32 + 20) as u32),
{
    assert(crate::mem::REGISTER_CACHE as u32 == 0x8000_002C) by (bit_vector);
}

impl Proc {
    /// A processor on memory `m`: registers zero, workspace 0, low priority,
    /// HaltOnError set; both process queues, both timer queues and the
    /// register cache empty.
    pub fn new(m: Mem) -> (p: Self)
        ensures
            p@.a == 0 && p@.b == 0 && p@.c == 0,
            p@.iptr == 0 && p@.wptr == 0 && p@.oreg == 0,
            p@.pri == Priority::Low,
            !p@.error && p@.halt_on_error,
            p@.state == ProcState::ACTIVE,
            p@.mem == m@.with_word(FRONT_PTR_0 as u32, NOT_PROCESS_P).with_word(
                BACK_PTR_0 as u32,
                NOT_PROCESS_P,
            ).with_word(FRONT_PTR_1 as u32, NOT_PROCESS_P).with_word(
                BACK_PTR_1 as u32,
                NOT_PROCESS_P,
            ).with_word(crate::mem::REGISTER_CACHE as u32, NOT_PROCESS_P).with_word(
                crate::mem::TPTR_0 as u32,
                NOT_PROCESS_P,
            ).with_word(crate::mem::TPTR_1 as u32, NOT_PROCESS_P),
    {
        let mut m = m;
        proof {
            lemma_registers_valid(m@);
        }
        m.write(FRONT_PTR_0, NOT_PROCESS_P);
        proof {
            lemma_registers_valid(m@);
        }
        m.write(BACK_PTR_0, NOT_PROCESS_P);
        proof {
            lemma_registers_valid(m@);
        }
        m.write(FRONT_PTR_1, NOT_PROCESS_P);
        proof {
            lemma_registers_valid(m@);
        }
        m.write(BACK_PTR_1, NOT_PROCESS_P);
        proof {
            lemma_registers_valid(m@);
        }
        m.write(crate::mem::REGISTER_CACHE, NOT_PROCESS_P);
        proof {
            lemma_registers_valid(m@);
        }
        m.write(crate::mem::TPTR_0, NOT_PROCESS_P);
        proof {
            lemma_registers_valid(m@);
        }
        m.write(crate::mem::TPTR_1, NOT_PROCESS_P);
        Proc {
            stack: Stack::new(),
            pc: 0,
            workspace: 0,
            operand: 0,
            pri: Priority::Low,
            error: false,
            halt_on_error: true,
            state: ProcState::ACTIVE,
            mem: m,
        }
    }
}

impl Proc {
    /// Register A, B or C by index.
    pub fn peek(&self, index: usize) -> (r: i32)
        requires
            index < STACK_SIZE,
        ensures
            r == self@.reg(index as int),
    {
        self.stack.get(index)
    }

    /// Sets register A, B or C by index.
    pub fn poke(&mut self, index: usize, value: i32)
        requires
            index < STACK_SIZE,
        ensures
            final(self)@ == old(self)@.with_reg(index as int, value),
    {
        self.stack.set(index, value);
    }

    /// Register A, B or C by index.
    pub fn get_reg(&self, i: usize) -> (r: i32)
        requires
            i < STACK_SIZE,
        ensures
            r == self@.reg(i as int),
    {
        self.stack.get(i)
    }

    /// Sets register A, B or C by index.
    pub fn set_reg(&mut self, i: usize, value: i32)
        requires
            i < STACK_SIZE,
        ensures
            final(self)@ == old(self)@.with_reg(i as int, value),
    {
        self.stack.set(i, value);
    }

    /// The registers A, B and C, in that order.
    pub fn get_stack(&self) -> (r: Vec<i32>)
        ensures
            r@ == seq![self@.a, self@.b, self@.c],
    {
        let mut v = Vec::new();
        v.push(self.stack.a());
        v.push(self.stack.b());
        v.push(self.stack.c());
        v
    }

    pub fn set_workspace_pointer(&mut self, value: i32)
        ensures
            final(self)@ == (ProcView { wptr: value, ..old(self)@ }),
    {
        self.workspace = value;
    }

    pub fn flag(&self, f: Flag) -> (r: bool)
        ensures
            r == self@.error,
    {
        match f {
            Flag::ERROR => self.error,
        }
    }

    /// Clears the Error flag.
    pub fn clear(&mut self)
        ensures
            final(self)@ == (ProcView { error: false, ..old(self)@ }),
    {
        self.error = false;
    }

    /// Raises the Error flag on behalf of a failure `e`, halting the process
    /// when HaltOnError is set.
    pub fn throw_error(&mut self, e: OpErr)
        ensures
            final(self)@ == old(self)@.raise_error(),
    {
        let _ = e;
        self.error = true;
        if self.halt_on_error {
            self.state = ProcState::HALTED;
        }
    }

    /// The instruction pointer.
    pub fn program_counter(&self) -> (r: i32)
        ensures
            r == self@.iptr,
    {
        self.pc
    }

    /// The workspace pointer.
    pub fn workspace_pointer(&self) -> (r: i32)
        ensures
            r == self@.wptr,
    {
        self.workspace
    }

    pub fn priority(&self) -> (r: Priority)
        ensures
            r == self@.pri,
    {
        self.pri
    }

    pub fn state(&self) -> (r: ProcState)
        ensures
            r == self@.state,
    {
        self.state
    }

    /// The mnemonic and code of every secondary instruction, in order of code.
    pub fn get_indirect_ops(&self) -> (r: Vec<(String, usize)>)
        ensures
            r@.len() == opcodes::all_ops().len(),
            forall|i: int|
                0 <= i < r@.len() ==> (#[trigger] r@[i]).0@ == opcodes::all_ops()[i].name_spec()
                    && r@[i].1 == opcodes::all_ops()[i].code_spec() as usize,
    {
        let all = IndirectOp::all();
        let mut maps: Vec<(String, usize)> = Vec::new();
        let mut i: usize = 0;
        while i < all.len()
            invariant
                all@ == opcodes::all_ops(),
                i <= all.len(),
                maps@.len() == i,
                forall|j: int|
                    0 <= j < i ==> (#[trigger] maps@[j]).0@ == opcodes::all_ops()[j].name_spec()
                        && maps@[j].1 == opcodes::all_ops()[j].code_spec() as usize,
            decreases all.len() - i,
        {
            let op = all[i];
            let code = op.code();
            assert(0 <= code < 256);
            maps.push((op.name().to_owned(), code as usize));
            i = i + 1;
        }
        maps
    }

    /// A copy of memory as it is now.
    pub fn mem_reference(&self) -> (r: Mem)
        ensures
            r@ == self@.mem,
    {
        self.mem.clone()
    }

    /// A read-only view of memory.
    pub fn mem(&self) -> (r: &Mem)
        ensures
            r@ == self@.mem,
    {
        &self.mem
    }

    /// Hands over the bytes the guest sent to the terminal.
    pub fn take_output(&mut self) -> (r: Vec<u8>)
        ensures
            r@ == old(self)@.mem.output,
            final(self)@ == (ProcView {
                mem: crate::mem::MemView { output: Seq::empty(), ..old(self)@.mem },
                ..old(self)@
            }),
    {
        self.mem.take_output()
    }

    /// Restarts at instruction 0 with workspace `workspace` and the registers
    /// cleared.
    pub fn reset(&mut self, workspace: i32)
        ensures
            final(self)@ == (ProcView { iptr: 0, wptr: workspace, a: 0, b: 0, c: 0, ..old(self)@ }),
    {
        self.pc = 0;
        self.workspace = workspace;
        self.stack.set(0, 0);
        self.stack.set(1, 0);
        self.stack.set(2, 0);
    }

    /// Adds `op` to the operand register and returns the sum, clearing the
    /// register.
    pub fn shift_operand(&mut self, op: u8) -> (r: i32)
        ensures
            r == wrapping_add(old(self)@.oreg, op as i32),
            final(self)@ == (ProcView { oreg: 0, ..old(self)@ }),
    {
        let o = self.operand.wrapping_add(op as i32);
        self.operand = 0;
        o
    }

    /// Stops the process with a host-visible failure.
    pub(crate) fn fail(&mut self, e: OpErr) -> (r: Result<(), OpErr>)
        ensures
            (final(self)@, r) == fail(old(self)@, e),
    {
        self.state = ProcState::HALTED;
        Err(e)
    }

    /// Refuses an operate code: sets the Error flag and stops the process.
    pub(crate) fn refuse(&mut self, e: OpErr) -> (r: Result<(), OpErr>)
        ensures
            (final(self)@, r) == semantics::refuse(old(self)@, e),
    {
        self.error = true;
        self.state = ProcState::HALTED;
        Err(e)
    }

    pub(crate) fn access_error(a: i32) -> (r: OpErr)
        ensures
            r == access_error(a as u32),
    {
        if (a as u32) % 4 != 0 {
            OpErr::Misaligned
        } else {
            OpErr::OutOfRange
        }
    }

    pub(crate) fn raise_error(&mut self)
        ensures
            final(self)@ == old(self)@.raise_error(),
    {
        self.error = true;
        if self.halt_on_error {
            self.state = ProcState::HALTED;
        }
    }

    /// A two-operand result: `v` in A, C moved into B.
    pub(crate) fn fold(&mut self, v: i32)
        ensures
            final(self)@ == old(self)@.fold(v),
    {
        let c = self.stack.c();
        self.stack.set(0, v);
        self.stack.set(1, c);
    }

    pub(crate) fn word_ok(&self, a: i32) -> (r: bool)
        ensures
            r == self@.word_ok(a),
    {
        self.mem.is_word_valid(a)
    }

    pub(crate) fn read_word(&self, a: i32) -> (r: i32)
        requires
            self@.word_ok(a),
        ensures
            r == self@.word(a),
    {
        self.mem.read(a)
    }

    pub(crate) fn write_word(&mut self, a: i32, v: i32)
        requires
            old(self)@.word_ok(a),
        ensures
            final(self)@ == old(self)@.with_mem(old(self)@.mem.with_word(a as u32, v)),
    {
        self.mem.write(a, v);
    }

    fn front_reg(p: Priority) -> (r: i32)
        ensures
            r == semantics::front_reg(p),
    {
        match p {
            Priority::Low => FRONT_PTR_1,
            Priority::High => FRONT_PTR_0,
        }
    }

    fn back_reg(p: Priority) -> (r: i32)
        ensures
            r == semantics::back_reg(p),
    {
        match p {
            Priority::Low => BACK_PTR_1,
            Priority::High => BACK_PTR_0,
        }
    }

    /// The front pointer of the queue of priority `p`.
    pub fn get_front_pointer(&self, p: Priority) -> (r: i32)
        ensures
            r == self@.word(semantics::front_reg(p)),
    {
        proof {
            lemma_registers_valid(self@.mem);
        }
        self.mem.read(Self::front_reg(p))
    }

    /// The back pointer of the queue of priority `p`.
    pub fn get_back_pointer(&self, p: Priority) -> (r: i32)
        ensures
            r == self@.word(semantics::back_reg(p)),
    {
        proof {
            lemma_registers_valid(self@.mem);
        }
        self.mem.read(Self::back_reg(p))
    }

    pub(crate) fn set_front_pointer(&mut self, p: Priority, v: i32)
        ensures
            final(self)@ == old(self)@.with_mem(
                old(self)@.mem.with_word(semantics::front_reg(p) as u32, v),
            ),
    {
        proof {
            lemma_registers_valid(self@.mem);
        }
        self.mem.write(Self::front_reg(p), v);
    }

    pub(crate) fn set_back_pointer(&mut self, p: Priority, v: i32)
        ensures
            final(self)@ == old(self)@.with_mem(
                old(self)@.mem.with_word(semantics::back_reg(p) as u32, v),
            ),
    {
        proof {
            lemma_registers_valid(self@.mem);
        }
        self.mem.write(Self::back_reg(p), v);
    }

    /// Appends workspace `w` to the tail of the queue of priority `p`.
    pub(crate) fn enqueue(&mut self, p: Priority, w: i32) -> (r: Result<(), OpErr>)
        ensures
            match enqueue_spec(old(self)@.mem, p, w) {
                Ok(m) => r is Ok && final(self)@ == old(self)@.with_mem(m),
                Err(e) => r == Err::<(), OpErr>(e) && final(self)@ == old(self)@,
            },
    {
        if self.get_front_pointer(p) == NOT_PROCESS_P {
            self.set_front_pointer(p, w);
            self.set_back_pointer(p, w);
            Ok(())
        } else {
            let link = self.get_back_pointer(p).wrapping_sub(8);
            if !self.word_ok(link) {
                return Err(Self::access_error(link));
            }
            self.write_word(link, w);
            self.set_back_pointer(p, w);
            Ok(())
        }
    }

    /// Takes the front process off the queue of priority `p`, which must not
    /// be empty; gives its workspace.
    fn dequeue(&mut self, p: Priority) -> (r: Result<i32, OpErr>)
        ensures
            match dequeue_spec(old(self)@.mem, p) {
                Ok((m, w)) => r == Ok::<i32, OpErr>(w) && final(self)@ == old(self)@.with_mem(m),
                Err(e) => r == Err::<i32, OpErr>(e) && final(self)@ == old(self)@,
            },
    {
        let front = self.get_front_pointer(p);
        let back = self.get_back_pointer(p);
        if front == back {
            self.set_front_pointer(p, NOT_PROCESS_P);
            self.set_back_pointer(p, NOT_PROCESS_P);
            Ok(front)
        } else {
            let link = front.wrapping_sub(8);
            if !self.word_ok(link) {
                return Err(Self::access_error(link));
            }
            let next = self.read_word(link);
            self.set_front_pointer(p, next);
            Ok(front)
        }
    }

    fn activate(&mut self, w: i32, p: Priority) -> (r: Result<(), OpErr>)
        ensures
            (final(self)@, r) == activate_spec(
                ProcView { mem: old(self)@.mem, ..old(self)@ },
                old(self)@.mem,
                w,
                p,
            ),
    {
        let entry = w.wrapping_sub(4);
        if !self.word_ok(entry) {
            return self.fail(Self::access_error(entry));
        }
        self.workspace = w;
        self.pri = p;
        self.pc = self.read_word(entry);
        self.operand = 0;
        self.state = ProcState::ACTIVE;
        Ok(())
    }

    fn restore_registers(&mut self)
        ensures
            final(self)@ == restore_spec(old(self)@).0,
    {
        let base = crate::mem::REGISTER_CACHE;
        proof {
            lemma_registers_valid(self@.mem);
            assert(base as u32 == 0x8000_002C && (base + 4) as u32 == 0x8000_0030 && (base + 8) as u32
                == 0x8000_0034 && (base + 12) as u32 == 0x8000_0038 && (base + 16) as u32
                == 0x8000_003C && (base + 20) as u32 == 0x8000_0040) by (bit_vector)
                requires
                    base == -0x7FFF_FFD4i32,
            ;
        }
        let desc = self.mem.read(base);
        let pc = self.mem.read(base + 4);
        let a = self.mem.read(base + 8);
        let b = self.mem.read(base + 12);
        let c = self.mem.read(base + 16);
        let status = self.mem.read(base + 20);
        self.mem.write(base, NOT_PROCESS_P);
        self.workspace = desc & !3i32;
        self.pri = Priority::Low;
        self.pc = pc;
        self.stack.set(0, a);
        self.stack.set(1, b);
        self.stack.set(2, c);
        self.error = status < 0;
        self.halt_on_error = status & 0x80 != 0;
        self.operand = 0;
        self.state = ProcState::ACTIVE;
    }

    /// A clock tick from the host: sets the clock of priority `p` to `now`
    /// and moves the processes whose time has come from the timer queue to
    /// the tail of their process queue.
    pub fn timer_tick(&mut self, p: Priority, now: i32) -> (r: Result<(), OpErr>)
        ensures
            (final(self)@, r) == semantics::tick_spec(old(self)@, p, now),
    {
        proof {
            lemma_registers_valid(self@.mem);
        }
        let clock = match p {
            Priority::Low => crate::mem::CLOCK_REG_0,
            Priority::High => crate::mem::CLOCK_REG_1,
        };
        let head_at = match p {
            Priority::Low => crate::mem::TPTR_1,
            Priority::High => crate::mem::TPTR_0,
        };
        self.write_word(clock, now);
        let mut fuel: u32 = semantics::TIMER_WALK_LIMIT;
        while fuel > 0
            invariant
                semantics::tick_spec(old(self)@, p, now) == semantics::wake_spec(
                    self@,
                    p,
                    now,
                    fuel as nat,
                ),
                head_at == semantics::timer_reg(p),
            decreases fuel,
        {
            proof {
                lemma_registers_valid(self@.mem);
            }
            let head = self.read_word(head_at);
            if head == NOT_PROCESS_P {
                return Ok(());
            }
            let time_at = head.wrapping_sub(20);
            let link_at = head.wrapping_sub(16);
            if !self.word_ok(time_at) {
                return self.fail(Self::access_error(time_at));
            }
            if !self.word_ok(link_at) {
                return self.fail(Self::access_error(link_at));
            }
            if self.read_word(time_at).wrapping_sub(now) > 0 {
                return Ok(());
            }
            let next = self.read_word(link_at);
            proof {
                lemma_registers_valid(self@.mem);
            }
            self.write_word(head_at, next);
            match self.enqueue(p, head) {
                Ok(()) => {},
                Err(e) => {
                    return self.fail(e);
                },
            }
            fuel = fuel - 1;
        }
        Ok(())
    }

    /// Chooses the process to run. A running low priority process is
    /// preempted, its registers saved, when a high priority process is
    /// queued. Once the running process has given up the processor (idle or
    /// waiting), the next one starts: the front of the high priority queue,
    /// else the preempted low priority process, else the front of the low
    /// priority queue. With nothing to run, or a halted process, nothing
    /// changes.
    pub fn dispatch(&mut self) -> (r: Result<(), OpErr>)
        ensures
            (final(self)@, r) == dispatch_spec(old(self)@),
    {
        proof {
            lemma_registers_valid(self@.mem);
        }
        if self.state == ProcState::ACTIVE {
            if self.pri == Priority::Low && self.get_front_pointer(Priority::High) != NOT_PROCESS_P {
                self.save_registers();
                return match self.dequeue(Priority::High) {
                    Ok(w) => self.activate(w, Priority::High),
                    Err(e) => self.fail(e),
                };
            }
            return Ok(());
        }
        if self.state != ProcState::IDLE && self.state != ProcState::WAITING {
            return Ok(());
        }
        if self.get_front_pointer(Priority::High) != NOT_PROCESS_P {
            match self.dequeue(Priority::High) {
                Ok(w) => self.activate(w, Priority::High),
                Err(e) => self.fail(e),
            }
        } else if self.read_word(crate::mem::REGISTER_CACHE) != NOT_PROCESS_P {
            self.restore_registers();
            Ok(())
        } else if self.get_front_pointer(Priority::Low) != NOT_PROCESS_P {
            match self.dequeue(Priority::Low) {
                Ok(w) => self.activate(w, Priority::Low),
                Err(e) => self.fail(e),
            }
        } else {
            Ok(())
        }
    }

    /// Saves IPtr at `W-4`, appends the workspace to its queue and gives up
    /// the processor.
    pub(crate) fn deschedule(&mut self) -> (r: Result<(), OpErr>)
        ensures
            (final(self)@, r) == deschedule_spec(old(self)@),
    {
        let slot = self.workspace.wrapping_sub(4);
        if !self.word_ok(slot) {
            return self.fail(Self::access_error(slot));
        }
        self.write_word(slot, self.pc);
        let w = self.workspace;
        match self.enqueue(self.pri, w) {
            Ok(()) => {
                self.state = ProcState::IDLE;
                Ok(())
            },
            Err(e) => self.fail(e),
        }
    }
}

impl Proc {
    /// Schedules the process with workspace descriptor `wdesc`: a high
    /// priority process preempts a running low priority one, saving the
    /// interrupted registers in the register cache; anything else joins the
    /// tail of its queue.
    pub fn run_process(&mut self, wdesc: i32) -> (r: Result<(), OpErr>)
        ensures
            (final(self)@, r) == run_process_spec(old(self)@, wdesc),
    {
        let p = if wdesc & 1 != 0 {
            Priority::Low
        } else {
            Priority::High
        };
        let w = wdesc & !3i32;
        if self.pri == Priority::Low && p == Priority::High {
            self.save_registers();
            let entry = w.wrapping_sub(4);
            if !self.word_ok(entry) {
                return self.fail(Self::access_error(entry));
            }
            self.workspace = w;
            self.pri = Priority::High;
            self.pc = self.read_word(entry);
            self.state = ProcState::ACTIVE;
            Ok(())
        } else {
            match self.enqueue(p, w) {
                Ok(()) => Ok(()),
                Err(e) => self.fail(e),
            }
        }
    }

    /// The status word kept in the register cache.
    fn status_word(&self) -> (r: i32)
        ensures
            r == semantics::status_word(self@),
    {
        if self.error && self.halt_on_error {
            -0x7FFF_FF80
        } else if self.error {
            i32::MIN
        } else if self.halt_on_error {
            0x80
        } else {
            0
        }
    }

    /// Writes descriptor, IPtr, A, B, C and status to the register cache.
    fn save_registers(&mut self)
        ensures
            final(self)@ == old(self)@.with_mem(semantics::saved_registers(old(self)@)),
    {
        let status = self.status_word();
        let base = crate::mem::REGISTER_CACHE;
        proof {
            lemma_registers_valid(self@.mem);
            assert(base as u32 == 0x8000_002C && (base + 4) as u32 == 0x8000_0030 && (base + 8) as u32
                == 0x8000_0034 && (base + 12) as u32 == 0x8000_0038 && (base + 16) as u32
                == 0x8000_003C && (base + 20) as u32 == 0x8000_0040) by (bit_vector)
                requires
                    base == -0x7FFF_FFD4i32,
            ;
        }
        self.mem.write(base, self.workspace | 1i32);
        proof {
            lemma_registers_valid(self@.mem);
        }
        self.mem.write(base + 4, self.pc);
        proof {
            lemma_registers_valid(self@.mem);
        }
        self.mem.write(base + 8, self.stack.a());
        proof {
            lemma_registers_valid(self@.mem);
        }
        self.mem.write(base + 12, self.stack.b());
        proof {
            lemma_registers_valid(self@.mem);
        }
        self.mem.write(base + 16, self.stack.c());
        proof {
            lemma_registers_valid(self@.mem);
        }
        self.mem.write(base + 20, status);
    }

    /// Saves C, B, A and IPtr below the workspace, lowers it by four words
    /// and jumps by `e`.
    fn call(&mut self, e: i32) -> (r: Result<(), OpErr>)
        ensures
            (final(self)@, r) == call_spec(old(self)@, e),
    {
        let w = self.workspace;
        let s1 = w.wrapping_sub(4);
        let s2 = w.wrapping_sub(8);
        let s3 = w.wrapping_sub(12);
        let s4 = w.wrapping_sub(16);
        if !self.word_ok(s1) {
            return self.fail(Self::access_error(s1));
        }
        if !self.word_ok(s2) {
            return self.fail(Self::access_error(s2));
        }
        if !self.word_ok(s3) {
            return self.fail(Self::access_error(s3));
        }
        if !self.word_ok(s4) {
            return self.fail(Self::access_error(s4));
        }
        let a = self.stack.a();
        let b = self.stack.b();
        let c = self.stack.c();
        self.write_word(s1, c);
        self.write_word(s2, b);
        self.write_word(s3, a);
        self.write_word(s4, self.pc);
        self.workspace = s4;
        self.pc = self.pc.wrapping_add(e);
        Ok(())
    }

    /// Carries out direct instruction `op` with effective operand `e`.
    fn direct(&mut self, op: DirectOp, e: i32) -> (r: Result<(), OpErr>)
        ensures
            (final(self)@, r) == direct_spec(old(self)@, op, e),
    {
        match op {
            DirectOp::JUMP => {
                self.pc = self.pc.wrapping_add(e);
                if self.pri == Priority::Low {
                    self.deschedule()
                } else {
                    Ok(())
                }
            },
            DirectOp::LDLP => {
                self.stack.push(self.workspace.wrapping_add(e.wrapping_mul(4)));
                Ok(())
            },
            DirectOp::LDNL => {
                let a = self.stack.a().wrapping_add(e.wrapping_mul(4));
                if !self.word_ok(a) {
                    return self.fail(Self::access_error(a));
                }
                let v = self.read_word(a);
                self.stack.set(0, v);
                Ok(())
            },
            DirectOp::LDC => {
                self.stack.push(e);
                Ok(())
            },
            DirectOp::LDNLP => {
                let a = self.stack.a().wrapping_add(e.wrapping_mul(4));
                self.stack.set(0, a);
                Ok(())
            },
            DirectOp::LDL => {
                let a = self.workspace.wrapping_add(e.wrapping_mul(4));
                if !self.word_ok(a) {
                    return self.fail(Self::access_error(a));
                }
                let v = self.read_word(a);
                self.stack.push(v);
                Ok(())
            },
            DirectOp::ADC => {
                let a = self.stack.a();
                self.stack.set(0, a.wrapping_add(e));
                if a.checked_add(e).is_none() {
                    self.raise_error();
                }
                Ok(())
            },
            DirectOp::CALL => self.call(e),
            DirectOp::CJ => {
                if self.stack.a() == 0 {
                    self.pc = self.pc.wrapping_add(e);
                } else {
                    self.stack.pop();
                }
                Ok(())
            },
            DirectOp::AJW => {
                self.workspace = self.workspace.wrapping_add(e.wrapping_mul(4));
                Ok(())
            },
            DirectOp::EQC => {
                let v = if self.stack.a() == e {
                    1
                } else {
                    0
                };
                self.stack.push(v);
                Ok(())
            },
            DirectOp::STL => {
                let a = self.workspace.wrapping_add(e.wrapping_mul(4));
                if !self.word_ok(a) {
                    return self.fail(Self::access_error(a));
                }
                self.write_word(a, self.stack.a());
                Ok(())
            },
            DirectOp::STNL => {
                let a = self.stack.a().wrapping_add(e.wrapping_mul(4));
                if !self.word_ok(a) {
                    return self.fail(Self::access_error(a));
                }
                self.write_word(a, self.stack.b());
                Ok(())
            },
            DirectOp::OPR => self.operate(e),
            _ => Ok(()),
        }
    }

    /// Executes direct instruction `op` with operand nibble `value`: IPtr
    /// moves past the instruction, a prefix accumulates into the operand
    /// register, and any other instruction uses the accumulated operand and
    /// clears the register.
    pub fn run(&mut self, op: DirectOp, value: i32) -> (r: Result<(), OpErr>)
        ensures
            (final(self)@, r) == run_spec(old(self)@, op, value),
    {
        self.state = ProcState::ACTIVE;
        self.pc = self.pc.wrapping_add(1);
        match op {
            DirectOp::PFIX => {
                self.operand = self.operand.wrapping_add(value) << 4u32;
                Ok(())
            },
            DirectOp::NFIX => {
                self.operand = (!self.operand.wrapping_add(value)) << 4u32;
                Ok(())
            },
            _ => {
                let e = self.operand.wrapping_add(value);
                self.operand = 0;
                self.direct(op, e)
            },
        }
    }

    /// Executes one instruction byte: the high nibble selects the direct
    /// instruction, the low nibble is its operand.
    pub fn step(&mut self, instruction: u8) -> (r: Result<(), OpErr>)
        ensures
            (final(self)@, r) == step_spec(old(self)@, instruction),
    {
        let (op, v) = crate::parse::parse_op_from_hex(instruction);
        self.run(op, v as i32)
    }
}

} // verus!
