//! The machine's behaviour as functions on its state: what one instruction
//! does to the registers, the flags and memory.
use crate::mem::{
    MemView, BACK_PTR_0, BACK_PTR_1, CLOCK_REG_0, CLOCK_REG_1, FRONT_PTR_0, FRONT_PTR_1,
    REGISTER_CACHE, TPTR_0, TPTR_1,
};
use crate::proc::opcodes::IndirectOp;
use crate::proc::{DirectOp, OpErr, Priority, ProcState, NOT_PROCESS_P};
use vstd::arithmetic::power2::pow2;
use vstd::prelude::*;
use vstd::wrapping::i32_specs::{wrapping_add, wrapping_mul, wrapping_sub};

verus! {

/// Everything an instruction can read or change.
pub struct ProcView {
    pub a: i32,
    pub b: i32,
    pub c: i32,
    pub iptr: i32,
    pub wptr: i32,
    pub oreg: i32,
    pub pri: Priority,
    pub error: bool,
    pub halt_on_error: bool,
    pub state: ProcState,
    pub mem: MemView,
}

/// The state after an instruction, and whether the host sees a failure.
pub type Outcome = (ProcView, Result<(), OpErr>);

/// `e << 2`, the byte offset of word `e`.
pub open spec fn words(e: i32) -> i32 {
    wrapping_mul(e, 4)
}

/// Whether a mathematical result falls outside the word range.
pub open spec fn overflows(x: int) -> bool {
    x < i32::MIN || x > i32::MAX
}

/// The failure reported for a word access at `a` that cannot be made.
pub open spec fn access_error(a: u32) -> OpErr {
    if a % 4 != 0 {
        OpErr::Misaligned
    } else {
        OpErr::OutOfRange
    }
}

pub open spec fn ok(s: ProcView) -> Outcome {
    (s, Ok(()))
}

/// A host-visible failure stops the process.
pub open spec fn fail(s: ProcView, e: OpErr) -> Outcome {
    (ProcView { state: ProcState::HALTED, ..s }, Err(e))
}

/// An operand of `OPR` that the machine does not carry out (unknown or
/// reserved) sets the Error flag and stops the process.
pub open spec fn refuse(s: ProcView, e: OpErr) -> Outcome {
    (ProcView { state: ProcState::HALTED, error: true, ..s }, Err(e))
}

pub open spec fn front_reg(p: Priority) -> i32 {
    if p == Priority::Low {
        FRONT_PTR_1
    } else {
        FRONT_PTR_0
    }
}

pub open spec fn back_reg(p: Priority) -> i32 {
    if p == Priority::Low {
        BACK_PTR_1
    } else {
        BACK_PTR_0
    }
}

pub open spec fn clock_reg(p: Priority) -> i32 {
    if p == Priority::Low {
        CLOCK_REG_0
    } else {
        CLOCK_REG_1
    }
}

/// The priority bit of a workspace descriptor: 1 for low, 0 for high.
pub open spec fn priority_bit(p: Priority) -> i32 {
    if p == Priority::Low {
        1
    } else {
        0
    }
}

impl ProcView {
    /// A takes `v`, B the old A, C the old B.
    pub open spec fn push(self, v: i32) -> ProcView {
        ProcView { a: v, b: self.a, c: self.b, ..self }
    }

    /// B moves to A and C to B; C keeps its value.
    pub open spec fn pop(self) -> ProcView {
        ProcView { a: self.b, b: self.c, ..self }
    }

    /// Register `i`: 0 is A, 1 is B, 2 is C.
    pub open spec fn reg(self, i: int) -> i32 {
        if i == 0 {
            self.a
        } else if i == 1 {
            self.b
        } else {
            self.c
        }
    }

    /// The state with register `i` (0 is A, 1 is B, 2 is C) set to `v`.
    pub open spec fn with_reg(self, i: int, v: i32) -> ProcView {
        if i == 0 {
            ProcView { a: v, ..self }
        } else if i == 1 {
            ProcView { b: v, ..self }
        } else {
            ProcView { c: v, ..self }
        }
    }

    pub open spec fn with_a(self, v: i32) -> ProcView {
        ProcView { a: v, ..self }
    }

    /// A two-operand result: A and B are consumed, `v` lands in A and C
    /// moves into B.
    pub open spec fn fold(self, v: i32) -> ProcView {
        ProcView { a: v, b: self.c, ..self }
    }

    pub open spec fn with_mem(self, m: MemView) -> ProcView {
        ProcView { mem: m, ..self }
    }

    /// Sets the Error flag, and halts when HaltOnError is set.
    pub open spec fn raise_error(self) -> ProcView {
        ProcView {
            error: true,
            state: if self.halt_on_error {
                ProcState::HALTED
            } else {
                self.state
            },
            ..self
        }
    }

    pub open spec fn error_if(self, cond: bool) -> ProcView {
        if cond {
            self.raise_error()
        } else {
            self
        }
    }

    /// The word at address `a`.
    pub open spec fn word(self, a: i32) -> i32 {
        self.mem.word(a as u32)
    }

    pub open spec fn word_ok(self, a: i32) -> bool {
        self.mem.word_valid(a as u32)
    }
}

/// Appends workspace `w` to the tail of the queue of priority `p`.
pub open spec fn enqueue_spec(m: MemView, p: Priority, w: i32) -> Result<MemView, OpErr> {
    let front = front_reg(p) as u32;
    let back = back_reg(p) as u32;
    if m.word(front) == NOT_PROCESS_P {
        Ok(m.with_word(front, w).with_word(back, w))
    } else {
        let link = wrapping_sub(m.word(back), 8) as u32;
        if m.word_valid(link) {
            Ok(m.with_word(link, w).with_word(back, w))
        } else {
            Err(access_error(link))
        }
    }
}

/// Saves IPtr at `W-4`, appends the workspace to its queue and gives up
/// the processor.
pub open spec fn deschedule_spec(s: ProcView) -> Outcome {
    let slot = wrapping_sub(s.wptr, 4);
    if !s.word_ok(slot) {
        fail(s, access_error(slot as u32))
    } else {
        let t = s.with_mem(s.mem.with_word(slot as u32, s.iptr));
        match enqueue_spec(t.mem, t.pri, t.wptr) {
            Ok(m) => ok(ProcView { mem: m, state: ProcState::IDLE, ..t }),
            Err(e) => fail(t, e),
        }
    }
}

/// The status word kept in the register cache: bit 31 for Error, bit 7 for
/// HaltOnError.
pub open spec fn status_word(s: ProcView) -> i32 {
    if s.error && s.halt_on_error {
        -0x7FFF_FF80i32
    } else if s.error {
        i32::MIN
    } else if s.halt_on_error {
        0x80
    } else {
        0
    }
}

/// Memory after saving the registers of a running low priority process in
/// the register cache: descriptor, IPtr, A, B, C and status.
pub open spec fn saved_registers(s: ProcView) -> MemView {
    let cache = REGISTER_CACHE as u32;
    s.mem.with_word(cache, s.wptr | 1i32).with_word((cache + 4) as u32, s.iptr).with_word(
        (cache + 8) as u32,
        s.a,
    ).with_word((cache + 12) as u32, s.b).with_word((cache + 16) as u32, s.c).with_word(
        (cache + 20) as u32,
        status_word(s),
    )
}

/// Schedules the process with workspace descriptor `wdesc`: a high priority
/// process preempts a running low priority one, anything else joins its queue.
pub open spec fn run_process_spec(s: ProcView, wdesc: i32) -> Outcome {
    let p = if wdesc & 1 != 0 {
        Priority::Low
    } else {
        Priority::High
    };
    let w = wdesc & !3i32;
    if s.pri == Priority::Low && p == Priority::High {
        let m = saved_registers(s);
        let entry = wrapping_sub(w, 4);
        if !m.word_valid(entry as u32) {
            fail(s.with_mem(m), access_error(entry as u32))
        } else {
            ok(
                ProcView {
                    mem: m,
                    wptr: w,
                    pri: Priority::High,
                    iptr: m.word(entry as u32),
                    state: ProcState::ACTIVE,
                    ..s
                },
            )
        }
    } else {
        match enqueue_spec(s.mem, p, w) {
            Ok(m) => ok(s.with_mem(m)),
            Err(e) => fail(s, e),
        }
    }
}

/// Takes the front process off the queue of priority `p`: its successor,
/// linked at `W-8`, becomes the front, and a queue whose front was its back
/// becomes empty. Gives the memory and the workspace taken.
pub open spec fn dequeue_spec(m: MemView, p: Priority) -> Result<(MemView, i32), OpErr> {
    let front = m.word(front_reg(p) as u32);
    let back = m.word(back_reg(p) as u32);
    if front == back {
        Ok(
            (
                m.with_word(front_reg(p) as u32, NOT_PROCESS_P).with_word(
                    back_reg(p) as u32,
                    NOT_PROCESS_P,
                ),
                front,
            ),
        )
    } else {
        let link = wrapping_sub(front, 8);
        if m.word_valid(link as u32) {
            Ok((m.with_word(front_reg(p) as u32, m.word(link as u32)), front))
        } else {
            Err(access_error(link as u32))
        }
    }
}

/// Starts the process with workspace `w` and priority `p` at the
/// instruction pointer saved in its workspace.
pub open spec fn activate_spec(s: ProcView, m: MemView, w: i32, p: Priority) -> Outcome {
    let entry = wrapping_sub(w, 4);
    if !m.word_valid(entry as u32) {
        fail(s.with_mem(m), access_error(entry as u32))
    } else {
        ok(
            ProcView {
                mem: m,
                wptr: w,
                pri: p,
                iptr: m.word(entry as u32),
                oreg: 0,
                state: ProcState::ACTIVE,
                ..s
            },
        )
    }
}

/// Resumes the low priority process whose registers were saved in the
/// register cache when it was preempted, and marks the cache empty.
pub open spec fn restore_spec(s: ProcView) -> Outcome {
    let cache = REGISTER_CACHE as u32;
    let m = s.mem;
    let status = m.word((cache + 20) as u32);
    ok(
        ProcView {
            mem: m.with_word(cache, NOT_PROCESS_P),
            wptr: m.word(cache) & !3i32,
            pri: Priority::Low,
            iptr: m.word((cache + 4) as u32),
            a: m.word((cache + 8) as u32),
            b: m.word((cache + 12) as u32),
            c: m.word((cache + 16) as u32),
            error: status < 0,
            halt_on_error: status & 0x80 != 0,
            oreg: 0,
            state: ProcState::ACTIVE,
            ..s
        },
    )
}

/// Chooses the process to run. A running low priority process is
/// preempted, its registers saved, when a high priority process is queued.
/// Once the running process has given up the processor (idle or waiting),
/// the next one starts: the front of the high priority queue, else the
/// preempted low priority process, else the front of the low priority
/// queue. With nothing to run, or a halted process, nothing changes.
pub open spec fn dispatch_spec(s: ProcView) -> Outcome {
    if s.state == ProcState::ACTIVE {
        if s.pri == Priority::Low && s.word(front_reg(Priority::High)) != NOT_PROCESS_P {
            let t = s.with_mem(saved_registers(s));
            match dequeue_spec(t.mem, Priority::High) {
                Ok((m, w)) => activate_spec(t, m, w, Priority::High),
                Err(e) => fail(t, e),
            }
        } else {
            ok(s)
        }
    } else if s.state != ProcState::IDLE && s.state != ProcState::WAITING {
        ok(s)
    } else if s.word(front_reg(Priority::High)) != NOT_PROCESS_P {
        match dequeue_spec(s.mem, Priority::High) {
            Ok((m, w)) => activate_spec(s, m, w, Priority::High),
            Err(e) => fail(s, e),
        }
    } else if s.word(REGISTER_CACHE) != NOT_PROCESS_P {
        restore_spec(s)
    } else if s.word(front_reg(Priority::Low)) != NOT_PROCESS_P {
        match dequeue_spec(s.mem, Priority::Low) {
            Ok((m, w)) => activate_spec(s, m, w, Priority::Low),
            Err(e) => fail(s, e),
        }
    } else {
        ok(s)
    }
}

/// What a direct instruction does with effective operand `e`, once IPtr has
/// moved past it and the operand register is clear.
pub open spec fn direct_spec(s: ProcView, op: DirectOp, e: i32) -> Outcome {
    match op {
        DirectOp::JUMP => {
            let t = ProcView { iptr: wrapping_add(s.iptr, e), ..s };
            if t.pri == Priority::Low {
                deschedule_spec(t)
            } else {
                ok(t)
            }
        },
        DirectOp::LDLP => ok(s.push(wrapping_add(s.wptr, words(e)))),
        DirectOp::LDNL => {
            let a = wrapping_add(s.a, words(e));
            if s.word_ok(a) {
                ok(s.with_a(s.word(a)))
            } else {
                fail(s, access_error(a as u32))
            }
        },
        DirectOp::LDC => ok(s.push(e)),
        DirectOp::LDNLP => ok(s.with_a(wrapping_add(s.a, words(e)))),
        DirectOp::LDL => {
            let a = wrapping_add(s.wptr, words(e));
            if s.word_ok(a) {
                ok(s.push(s.word(a)))
            } else {
                fail(s, access_error(a as u32))
            }
        },
        DirectOp::ADC => ok(s.with_a(wrapping_add(s.a, e)).error_if(overflows(s.a + e))),
        DirectOp::CALL => call_spec(s, e),
        DirectOp::CJ => if s.a == 0 {
            ok(ProcView { iptr: wrapping_add(s.iptr, e), ..s })
        } else {
            ok(s.pop())
        },
        DirectOp::AJW => ok(ProcView { wptr: wrapping_add(s.wptr, words(e)), ..s }),
        DirectOp::EQC => ok(s.push(bool_word(s.a == e))),
        DirectOp::STL => {
            let a = wrapping_add(s.wptr, words(e));
            if s.word_ok(a) {
                ok(s.with_mem(s.mem.with_word(a as u32, s.a)))
            } else {
                fail(s, access_error(a as u32))
            }
        },
        // The stack is left as it is: the store's result is the address
        // already in A.
        DirectOp::STNL => {
            let a = wrapping_add(s.a, words(e));
            if s.word_ok(a) {
                ok(s.with_mem(s.mem.with_word(a as u32, s.b)))
            } else {
                fail(s, access_error(a as u32))
            }
        },
        DirectOp::OPR => indirect_spec(s, e),
        _ => ok(s),
    }
}

/// The four frame slots below the workspace that `CALL` fills.
pub open spec fn frame_slot(w: i32, k: int) -> i32 {
    wrapping_sub(w, (4 * k) as i32)
}

/// Saves C, B, A and IPtr at `W-4`, `W-8`, `W-12` and `W-16`, lowers the
/// workspace by four words and jumps by `e`.
pub open spec fn call_spec(s: ProcView, e: i32) -> Outcome {
    let w = s.wptr;
    if !s.word_ok(frame_slot(w, 1)) {
        fail(s, access_error(frame_slot(w, 1) as u32))
    } else if !s.word_ok(frame_slot(w, 2)) {
        fail(s, access_error(frame_slot(w, 2) as u32))
    } else if !s.word_ok(frame_slot(w, 3)) {
        fail(s, access_error(frame_slot(w, 3) as u32))
    } else if !s.word_ok(frame_slot(w, 4)) {
        fail(s, access_error(frame_slot(w, 4) as u32))
    } else {
        let m = s.mem.with_word(frame_slot(w, 1) as u32, s.c).with_word(
            frame_slot(w, 2) as u32,
            s.b,
        ).with_word(frame_slot(w, 3) as u32, s.a).with_word(frame_slot(w, 4) as u32, s.iptr);
        ok(
            ProcView {
                mem: m,
                wptr: frame_slot(w, 4),
                iptr: wrapping_add(s.iptr, e),
                ..s
            },
        )
    }
}

/// Restores IPtr, A, B and C from the frame at the workspace and raises the
/// workspace by four words.
pub open spec fn ret_spec(s: ProcView) -> Outcome {
    let w = s.wptr;
    if !s.word_ok(w) {
        fail(s, access_error(w as u32))
    } else if !s.word_ok(wrapping_add(w, 4)) {
        fail(s, access_error(wrapping_add(w, 4) as u32))
    } else if !s.word_ok(wrapping_add(w, 8)) {
        fail(s, access_error(wrapping_add(w, 8) as u32))
    } else if !s.word_ok(wrapping_add(w, 12)) {
        fail(s, access_error(wrapping_add(w, 12) as u32))
    } else {
        ok(
            ProcView {
                iptr: s.word(w),
                a: s.word(wrapping_add(w, 4)),
                b: s.word(wrapping_add(w, 8)),
                c: s.word(wrapping_add(w, 12)),
                wptr: wrapping_add(w, 16),
                ..s
            },
        )
    }
}

/// Number of set bits of `x`.
pub open spec fn popcount(x: nat) -> nat
    decreases x,
{
    if x == 0 {
        0
    } else {
        x % 2 + popcount(x / 2)
    }
}

/// The low `n` bits of `x` in reverse order.
pub open spec fn reverse_bits(x: nat, n: nat) -> nat
    decreases n,
{
    if n == 0 {
        0
    } else {
        (x % 2) * pow2((n - 1) as nat) + reverse_bits(x / 2, (n - 1) as nat)
    }
}

/// `x` with its low `n` bits reversed and the others kept.
pub open spec fn reverse_low_bits(x: u32, n: nat) -> u32 {
    ((x as nat / pow2(n)) * pow2(n) + reverse_bits(x as nat % pow2(n), n)) as u32
}

/// Normalises the 64-bit value `v` after `n` shifts: shifts left until the
/// top bit is set or 64 shifts have been made; gives the value and the
/// number of shifts.
pub open spec fn normalise(v: nat, n: nat) -> (nat, nat)
    decreases 64 - n,
{
    if n >= 64 || v >= 0x8000_0000_0000_0000 {
        (v, n)
    } else {
        normalise(2 * v, n + 1)
    }
}

/// `B:A` as a 64-bit value, B the high word.
pub open spec fn double_of(hi: i32, lo: i32) -> nat {
    (hi as u32) as nat * 0x1_0000_0000 + (lo as u32) as nat
}

/// Low bits of `x` read as a signed number of `n` bits.
pub open spec fn sign_extend(x: i32, n: nat) -> i32 {
    let m = (x as u32) as nat % pow2(n);
    if m >= pow2((n - 1) as nat) {
        (m - pow2(n)) as i32
    } else {
        m as i32
    }
}

/// Division that rounds toward zero, as the machine divides.
pub open spec fn div_toward_zero(b: int, a: int) -> int {
    let q = abs(b) / abs(a);
    if (b < 0) == (a < 0) {
        q
    } else {
        -q
    }
}

/// Remainder that takes the sign of the dividend.
pub open spec fn rem_toward_zero(b: int, a: int) -> int {
    let r = abs(b) % abs(a);
    if b < 0 {
        -r
    } else {
        r
    }
}

pub open spec fn abs(x: int) -> int {
    if x < 0 {
        -x
    } else {
        x
    }
}

/// Copies `n` bytes from `src` to `dst`, one at a time from the lowest;
/// stops at the first address that cannot be accessed.
pub open spec fn move_spec(m: MemView, src: u32, dst: u32, n: nat) -> (MemView, Result<(), OpErr>)
    decreases n,
{
    if n == 0 {
        (m, Ok(()))
    } else if !m.valid(src) || !m.valid(dst) {
        (m, Err(OpErr::OutOfRange))
    } else {
        move_spec(
            m.with_byte(dst, m.byte(src)),
            vstd::wrapping::u32_specs::wrapping_add(src, 1),
            vstd::wrapping::u32_specs::wrapping_add(dst, 1),
            (n - 1) as nat,
        )
    }
}

/// Copies A bytes from address C to address B; A and B take the value of C.
pub open spec fn move_op_spec(s: ProcView) -> Outcome {
    let n: nat = if s.a > 0 {
        s.a as nat
    } else {
        0
    };
    let res = move_spec(s.mem, s.c as u32, s.b as u32, n);
    let t = ProcView { a: s.c, b: s.c, mem: res.0, ..s };
    match res.1 {
        Ok(_) => ok(t),
        Err(e) => fail(t, e),
    }
}

/// What `OPR e` does.
pub open spec fn indirect_spec(s: ProcView, e: i32) -> Outcome {
    match IndirectOp::from_code_spec(e) {
        Some(op) => secondary_spec(s, op),
        None => refuse(s, OpErr::UnknownOp),
    }
}

pub open spec fn bool_word(b: bool) -> i32 {
    if b {
        1
    } else {
        0
    }
}

/// What a secondary instruction does.
pub open spec fn secondary_spec(s: ProcView, op: IndirectOp) -> Outcome {
    match op {
        IndirectOp::REV => ok(ProcView { a: s.b, b: s.a, ..s }),
        IndirectOp::LB => if s.mem.valid(s.a as u32) {
            ok(s.with_a(s.mem.byte(s.a as u32) as i32))
        } else {
            fail(s, OpErr::OutOfRange)
        },
        IndirectOp::BSUB => ok(s.fold(wrapping_add(s.a, s.b))),
        IndirectOp::ENDP => endp_spec(s),
        IndirectOp::DIFF => ok(s.fold(wrapping_sub(s.b, s.a))),
        IndirectOp::ADD => ok(s.fold(wrapping_add(s.a, s.b)).error_if(overflows(s.a + s.b))),
        IndirectOp::GCALL => ok(ProcView { a: s.iptr, iptr: s.a, ..s }),
        IndirectOp::PROD | IndirectOp::MUL => ok(s.fold(wrapping_mul(s.a, s.b))),
        IndirectOp::GT => ok(s.push(bool_word(s.b > s.a))),
        IndirectOp::WSUB => ok(s.fold(wrapping_add(s.a, words(s.b)))),
        IndirectOp::SUB => ok(s.fold(wrapping_sub(s.b, s.a)).error_if(overflows(s.b - s.a))),
        IndirectOp::STARTP => startp_spec(s),
        IndirectOp::SETERR => ok(s.raise_error()),
        IndirectOp::RESETCH => if s.word_ok(s.a) {
            ok(s.with_a(s.word(s.a)).with_mem(s.mem.with_word(s.a as u32, NOT_PROCESS_P)))
        } else {
            fail(s, access_error(s.a as u32))
        },
        IndirectOp::CSUB0 => ok(s.fold(s.b).error_if(s.b as u32 >= s.a as u32)),
        IndirectOp::STOPP => deschedule_spec(s),
        IndirectOp::LADD => {
            let r = s.b + s.a + (s.c & 1);
            ok(s.fold(r as i32).error_if(overflows(r)))
        },
        IndirectOp::STLB => ok(s.pop().with_mem(s.mem.with_word(BACK_PTR_1 as u32, s.a))),
        IndirectOp::STHF => ok(s.pop().with_mem(s.mem.with_word(FRONT_PTR_0 as u32, s.a))),
        IndirectOp::STLF => ok(s.pop().with_mem(s.mem.with_word(FRONT_PTR_1 as u32, s.a))),
        IndirectOp::STHB => ok(s.pop().with_mem(s.mem.with_word(BACK_PTR_0 as u32, s.a))),
        IndirectOp::NORM => {
            let (v, n) = normalise(double_of(s.b, s.a), 0);
            ok(
                ProcView {
                    a: (v % 0x1_0000_0000) as u32 as i32,
                    b: (v / 0x1_0000_0000) as u32 as i32,
                    c: n as i32,
                    ..s
                },
            )
        },
        IndirectOp::LDPI => ok(s.with_a(wrapping_add(s.a, s.iptr))),
        IndirectOp::XDBLE => ok(
            ProcView {
                b: if s.a < 0 {
                    -1i32
                } else {
                    0
                },
                c: s.b,
                ..s
            },
        ),
        IndirectOp::LDPRI => ok(s.push(priority_bit(s.pri))),
        IndirectOp::REM => if s.a == 0 {
            ok(s.raise_error())
        } else {
            ok(s.fold(rem_toward_zero(s.b as int, s.a as int) as i32))
        },
        IndirectOp::RET => ret_spec(s),
        IndirectOp::LEND => lend_spec(s),
        IndirectOp::LDTIMER => ok(s.push(s.word(clock_reg(s.pri)))),
        IndirectOp::CLRHALTERR => ok(ProcView { halt_on_error: false, ..s }),
        IndirectOp::TESTERR => ok(ProcView { error: false, ..s.push(bool_word(s.error)) }),
        IndirectOp::TIN => tin_spec(s),
        IndirectOp::DIV => if s.a == 0 {
            ok(s.raise_error())
        } else if s.b == i32::MIN && s.a == -1 {
            ok(s.fold(i32::MIN).raise_error())
        } else {
            ok(s.fold(div_toward_zero(s.b as int, s.a as int) as i32))
        },
        IndirectOp::NOT => ok(s.with_a(!s.a)),
        IndirectOp::XOR => ok(s.fold(s.a ^ s.b)),
        IndirectOp::AND => ok(s.fold(s.a & s.b)),
        IndirectOp::BCNT => ok(s.with_a(words(s.a))),
        IndirectOp::RUNP => run_process_spec(s.pop(), s.a),
        IndirectOp::XWORD => if 1 <= s.a && s.a <= 31 {
            ok(s.fold(sign_extend(s.b, s.a as nat)))
        } else {
            ok(s.fold(s.b))
        },
        IndirectOp::SB => if s.mem.valid(s.a as u32) {
            ok(s.pop().pop().with_mem(s.mem.with_byte(s.a as u32, s.b as u8)))
        } else {
            fail(s, OpErr::OutOfRange)
        },
        IndirectOp::GAJW => if s.a & 3 != 0 {
            fail(s, OpErr::Misaligned)
        } else {
            ok(ProcView { a: s.wptr, wptr: s.a, ..s })
        },
        IndirectOp::SAVEL => save_queue_spec(s, Priority::Low),
        IndirectOp::SAVEH => save_queue_spec(s, Priority::High),
        IndirectOp::WCNT => ok(ProcView { a: s.a >> 2u32, b: s.a & 3, c: s.b, ..s }),
        IndirectOp::SHR => ok(
            s.fold(
                if s.a as u32 >= 32 {
                    0
                } else {
                    ((s.b as u32) >> (s.a as u32)) as i32
                },
            ),
        ),
        IndirectOp::SHL => ok(
            s.fold(
                if s.a as u32 >= 32 {
                    0
                } else {
                    ((s.b as u32) << (s.a as u32)) as i32
                },
            ),
        ),
        IndirectOp::MINT => ok(s.push(i32::MIN)),
        IndirectOp::MOVE => move_op_spec(s),
        IndirectOp::CSNGL => ok(
            s.fold(s.a).error_if((s.a < 0 && s.b != -1) || (s.a >= 0 && s.b != 0)),
        ),
        IndirectOp::CCNT1 => ok(s.fold(s.b).error_if(s.b == 0 || s.b as u32 > s.a as u32)),
        IndirectOp::CWORD => ok(s.fold(s.b).error_if(s.b >= s.a || s.b < -s.a)),
        IndirectOp::SUM => ok(s.fold(wrapping_add(s.a, s.b))),
        IndirectOp::DUP => ok(s.push(s.a)),
        IndirectOp::BITCNT => ok(s.fold(wrapping_add(s.b, popcount((s.a as u32) as nat) as i32))),
        IndirectOp::BITREVWORD => ok(s.with_a(reverse_low_bits(s.a as u32, 32) as i32)),
        IndirectOp::BITREVNBITS => if 0 <= s.a && s.a <= 32 {
            ok(s.fold(reverse_low_bits(s.b as u32, s.a as nat) as i32))
        } else {
            ok(s.fold(s.b).raise_error())
        },
        _ => refuse(s, OpErr::Unimplemented),
    }
}

/// Ends a process whose parent has workspace A: the last child to end
/// resumes the parent, the others count down the join counter at `A+4`.
pub open spec fn endp_spec(s: ProcView) -> Outcome {
    let p = s.a;
    let count_at = wrapping_add(p, 4);
    if !s.word_ok(p) {
        fail(s, access_error(p as u32))
    } else if !s.word_ok(count_at) {
        fail(s, access_error(count_at as u32))
    } else {
        let t = s.pop();
        let count = s.word(count_at);
        if count == 1 {
            ok(ProcView { iptr: s.word(p), wptr: p, ..t })
        } else {
            ok(
                ProcView {
                    mem: s.mem.with_word(count_at as u32, wrapping_sub(count, 1)),
                    state: ProcState::IDLE,
                    ..t
                },
            )
        }
    }
}

/// Starts a process with workspace A and entry `IPtr + B` at the caller's
/// priority.
pub open spec fn startp_spec(s: ProcView) -> Outcome {
    let w = s.a;
    let slot = wrapping_sub(w, 4);
    if !s.word_ok(slot) {
        fail(s, access_error(slot as u32))
    } else {
        let t = ProcView { a: s.c, b: s.c, ..s }.with_mem(
            s.mem.with_word(slot as u32, wrapping_add(s.iptr, s.b)),
        );
        run_process_spec(t, w | priority_bit(s.pri))
    }
}

/// Decrements the loop counter at `B+4`; while it is not zero, jumps back
/// by A, and a low priority process gives up the processor.
pub open spec fn lend_spec(s: ProcView) -> Outcome {
    let count_at = wrapping_add(s.b, 4);
    if !s.word_ok(count_at) {
        fail(s, access_error(count_at as u32))
    } else {
        let count = wrapping_sub(s.word(count_at), 1);
        let t = s.with_mem(s.mem.with_word(count_at as u32, count));
        if count == 0 {
            ok(t)
        } else {
            let u = ProcView { iptr: wrapping_sub(s.iptr, s.a), ..t };
            if u.pri == Priority::Low {
                deschedule_spec(u)
            } else {
                ok(u)
            }
        }
    }
}

/// Stores the front and back pointers of a queue at `A` and `A+4`.
pub open spec fn save_queue_spec(s: ProcView, p: Priority) -> Outcome {
    let at = s.a;
    let next = wrapping_add(at, 4);
    if !s.word_ok(at) {
        fail(s, access_error(at as u32))
    } else if !s.word_ok(next) {
        fail(s, access_error(next as u32))
    } else {
        let front = s.word(front_reg(p));
        let back = s.word(back_reg(p));
        ok(s.pop().with_mem(s.mem.with_word(at as u32, front).with_word(next as u32, back)))
    }
}

/// Upper bound on the number of timer queue entries visited in one walk.
pub const TIMER_WALK_LIMIT: u32 = 0x0100_0000;

pub open spec fn timer_reg(p: Priority) -> i32 {
    if p == Priority::Low {
        TPTR_1
    } else {
        TPTR_0
    }
}

/// Whether time `a` comes after time `b` on the wrapping clock.
pub open spec fn later(a: i32, b: i32) -> bool {
    wrapping_sub(a, b) > 0
}

/// Links workspace `w`, waiting for time `t`, into the timer queue whose
/// link word is at `slot` and whose next entry is `cur`: it goes before the
/// first entry that waits for a later time, each entry's link at `W-16` and
/// time at `W-20`.
pub open spec fn timer_insert_spec(m: MemView, slot: i32, cur: i32, w: i32, t: i32, fuel: nat) -> Result<
    MemView,
    OpErr,
>
    decreases fuel,
{
    let link_here = if m.word_valid(wrapping_sub(w, 16) as u32) {
        Ok(m.with_word(wrapping_sub(w, 16) as u32, cur).with_word(slot as u32, w))
    } else {
        Err(access_error(wrapping_sub(w, 16) as u32))
    };
    if fuel == 0 || cur == NOT_PROCESS_P {
        link_here
    } else if !m.word_valid(wrapping_sub(cur, 20) as u32) {
        Err(access_error(wrapping_sub(cur, 20) as u32))
    } else if !m.word_valid(wrapping_sub(cur, 16) as u32) {
        Err(access_error(wrapping_sub(cur, 16) as u32))
    } else if later(m.word(wrapping_sub(cur, 20) as u32), t) {
        link_here
    } else {
        timer_insert_spec(
            m,
            wrapping_sub(cur, 16),
            m.word(wrapping_sub(cur, 16) as u32),
            w,
            t,
            (fuel - 1) as nat,
        )
    }
}

/// Waits until the clock passes A: a time still in the future saves IPtr at
/// `W-4` and the wake time at `W-20`, links the process into the timer
/// queue of its priority, and the process waits.
pub open spec fn tin_spec(s: ProcView) -> Outcome {
    let t = s.pop();
    let now = s.word(clock_reg(s.pri));
    if !later(s.a, now) {
        ok(t)
    } else {
        let ip_slot = wrapping_sub(s.wptr, 4);
        let time_slot = wrapping_sub(s.wptr, 20);
        if !s.word_ok(ip_slot) {
            fail(s, access_error(ip_slot as u32))
        } else if !s.word_ok(time_slot) {
            fail(s, access_error(time_slot as u32))
        } else {
            let m = s.mem.with_word(ip_slot as u32, s.iptr).with_word(time_slot as u32, s.a);
            let head = timer_reg(s.pri);
            match timer_insert_spec(m, head, m.word(head as u32), s.wptr, s.a, TIMER_WALK_LIMIT as nat) {
                Ok(m2) => ok(ProcView { mem: m2, state: ProcState::WAITING, ..t }),
                Err(e) => fail(t.with_mem(m), e),
            }
        }
    }
}

/// Wakes the processes at the head of the timer queue of priority `p`
/// whose time has come by `now`, moving each to the tail of its process
/// queue.
pub open spec fn wake_spec(s: ProcView, p: Priority, now: i32, fuel: nat) -> Outcome
    decreases fuel,
{
    let head = s.word(timer_reg(p));
    if fuel == 0 || head == NOT_PROCESS_P {
        ok(s)
    } else if !s.word_ok(wrapping_sub(head, 20)) {
        fail(s, access_error(wrapping_sub(head, 20) as u32))
    } else if !s.word_ok(wrapping_sub(head, 16)) {
        fail(s, access_error(wrapping_sub(head, 16) as u32))
    } else if later(s.word(wrapping_sub(head, 20)), now) {
        ok(s)
    } else {
        let m = s.mem.with_word(timer_reg(p) as u32, s.word(wrapping_sub(head, 16)));
        match enqueue_spec(m, p, head) {
            Ok(m2) => wake_spec(s.with_mem(m2), p, now, (fuel - 1) as nat),
            Err(e) => fail(s.with_mem(m), e),
        }
    }
}

/// A clock tick from the host: sets the clock of priority `p` to `now` and
/// wakes the processes whose time has come.
pub open spec fn tick_spec(s: ProcView, p: Priority, now: i32) -> Outcome {
    wake_spec(s.with_mem(s.mem.with_word(clock_reg(p) as u32, now)), p, now, TIMER_WALK_LIMIT as nat)
}

/// What executing direct instruction `op` with operand nibble `value` does:
/// IPtr moves past the instruction; a prefix accumulates into the operand
/// register, anything else uses and clears it.
pub open spec fn run_spec(s: ProcView, op: DirectOp, value: i32) -> Outcome {
    let t = ProcView { state: ProcState::ACTIVE, iptr: wrapping_add(s.iptr, 1), ..s };
    match op {
        DirectOp::PFIX => ok(ProcView { oreg: wrapping_add(s.oreg, value) << 4u32, ..t }),
        DirectOp::NFIX => ok(ProcView { oreg: (!wrapping_add(s.oreg, value)) << 4u32, ..t }),
        _ => direct_spec(ProcView { oreg: 0, ..t }, op, wrapping_add(s.oreg, value)),
    }
}

/// The direct opcode in the high nibble of an instruction byte.
pub open spec fn decode_spec(byte: u8) -> DirectOp {
    let o = byte / 16;
    if o == 0 {
        DirectOp::JUMP
    } else if o == 1 {
        DirectOp::LDLP
    } else if o == 2 {
        DirectOp::PFIX
    } else if o == 3 {
        DirectOp::LDNL
    } else if o == 4 {
        DirectOp::LDC
    } else if o == 5 {
        DirectOp::LDNLP
    } else if o == 6 {
        DirectOp::NFIX
    } else if o == 7 {
        DirectOp::LDL
    } else if o == 8 {
        DirectOp::ADC
    } else if o == 9 {
        DirectOp::CALL
    } else if o == 10 {
        DirectOp::CJ
    } else if o == 11 {
        DirectOp::AJW
    } else if o == 12 {
        DirectOp::EQC
    } else if o == 13 {
        DirectOp::STL
    } else if o == 14 {
        DirectOp::STNL
    } else {
        DirectOp::OPR
    }
}

/// What executing one instruction byte does.
pub open spec fn step_spec(s: ProcView, byte: u8) -> Outcome {
    run_spec(s, decode_spec(byte), (byte % 16) as i32)
}

} // verus!
