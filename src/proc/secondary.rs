//! The secondary instructions selected by `OPR`.
use crate::bits::{bit_count, div_word, normalise_double, rem_word, reverse_low, sign_extend_bits};
use crate::mem::{CLOCK_REG_0, CLOCK_REG_1, TPTR_0, TPTR_1};
use crate::proc::opcodes::IndirectOp;
use crate::proc::semantics::{
    clock_reg, endp_spec, indirect_spec, later, lend_spec, move_op_spec, move_spec, ret_spec,
    save_queue_spec, secondary_spec, startp_spec, timer_insert_spec, timer_reg, tin_spec, ProcView,
    TIMER_WALK_LIMIT,
};
use crate::proc::{lemma_registers_valid, OpErr, Priority, Proc, ProcState, NOT_PROCESS_P};
use vstd::prelude::*;
use vstd::wrapping::i32_specs::wrapping_sub;

verus! {

impl Proc {
    /// Carries out `OPR e`.
    pub(crate) fn operate(&mut self, e: i32) -> (r: Result<(), OpErr>)
        ensures
            (final(self)@, r) == indirect_spec(old(self)@, e),
    {
        match IndirectOp::from_code(e) {
            Some(op) => self.secondary(op),
            None => self.refuse(OpErr::UnknownOp),
        }
    }

    fn secondary(&mut self, op: IndirectOp) -> (r: Result<(), OpErr>)
        ensures
            (final(self)@, r) == secondary_spec(old(self)@, op),
    {
        match op {
            IndirectOp::REV
            | IndirectOp::BSUB
            | IndirectOp::SUM
            | IndirectOp::DIFF
            | IndirectOp::ADD
            | IndirectOp::GCALL
            | IndirectOp::PROD
            | IndirectOp::MUL
            | IndirectOp::GT
            | IndirectOp::WSUB
            | IndirectOp::SUB
            | IndirectOp::SETERR
            | IndirectOp::CSUB0
            | IndirectOp::LADD
            | IndirectOp::LDPI
            | IndirectOp::XDBLE => self.stack_op(op),
            IndirectOp::LDPRI
            | IndirectOp::CLRHALTERR
            | IndirectOp::TESTERR
            | IndirectOp::NOT
            | IndirectOp::XOR
            | IndirectOp::AND
            | IndirectOp::BCNT
            | IndirectOp::WCNT
            | IndirectOp::MINT
            | IndirectOp::CSNGL
            | IndirectOp::CCNT1
            | IndirectOp::CWORD
            | IndirectOp::DUP => self.logic_op(op),
            IndirectOp::LB
            | IndirectOp::ENDP
            | IndirectOp::STARTP
            | IndirectOp::RESETCH
            | IndirectOp::STOPP
            | IndirectOp::STLB
            | IndirectOp::STHF
            | IndirectOp::STLF
            | IndirectOp::STHB
            | IndirectOp::RET
            | IndirectOp::LEND
            | IndirectOp::LDTIMER
            | IndirectOp::TIN
            | IndirectOp::REM
            | IndirectOp::DIV
            | IndirectOp::RUNP
            | IndirectOp::SB
            | IndirectOp::GAJW
            | IndirectOp::SAVEL
            | IndirectOp::SAVEH => self.memory_op(op),
            _ => self.secondary_more(op),
        }
    }

    /// Arithmetic and comparisons on the evaluation stack.
    fn stack_op(&mut self, op: IndirectOp) -> (r: Result<(), OpErr>)
        requires
            op is REV || op is BSUB || op is SUM || op is DIFF || op is ADD || op is GCALL
                || op is PROD || op is MUL || op is GT || op is WSUB || op is SUB || op is SETERR
                || op is CSUB0 || op is LADD || op is LDPI || op is XDBLE,
        ensures
            (final(self)@, r) == secondary_spec(old(self)@, op),
    {
        let a = self.stack.a();
        let b = self.stack.b();
        let c = self.stack.c();
        match op {
            IndirectOp::REV => {
                self.stack.swap();
                Ok(())
            },
            IndirectOp::BSUB | IndirectOp::SUM => {
                self.fold(a.wrapping_add(b));
                Ok(())
            },
            IndirectOp::DIFF => {
                self.fold(b.wrapping_sub(a));
                Ok(())
            },
            IndirectOp::ADD => {
                self.fold(a.wrapping_add(b));
                if a.checked_add(b).is_none() {
                    self.raise_error();
                }
                Ok(())
            },
            IndirectOp::GCALL => {
                self.stack.set(0, self.pc);
                self.pc = a;
                Ok(())
            },
            IndirectOp::PROD | IndirectOp::MUL => {
                self.fold(a.wrapping_mul(b));
                Ok(())
            },
            IndirectOp::GT => {
                self.stack.push(
                    if b > a {
                        1
                    } else {
                        0
                    },
                );
                Ok(())
            },
            IndirectOp::WSUB => {
                self.fold(a.wrapping_add(b.wrapping_mul(4)));
                Ok(())
            },
            IndirectOp::SUB => {
                self.fold(b.wrapping_sub(a));
                if b.checked_sub(a).is_none() {
                    self.raise_error();
                }
                Ok(())
            },
            IndirectOp::SETERR => {
                self.raise_error();
                Ok(())
            },
            IndirectOp::CSUB0 => {
                self.fold(b);
                if b as u32 >= a as u32 {
                    self.raise_error();
                }
                Ok(())
            },
            IndirectOp::LADD => {
                let r = b as i64 + a as i64 + (c & 1) as i64;
                self.fold(r as i32);
                if r < i32::MIN as i64 || r > i32::MAX as i64 {
                    self.raise_error();
                }
                Ok(())
            },
            IndirectOp::LDPI => {
                self.stack.set(0, a.wrapping_add(self.pc));
                Ok(())
            },
            IndirectOp::XDBLE => {
                self.stack.set(
                    1,
                    if a < 0 {
                        -1
                    } else {
                        0
                    },
                );
                self.stack.set(2, b);
                Ok(())
            },
            _ => Ok(()),
        }
    }

    /// Bitwise operations, flags, checks and stack shuffles.
    fn logic_op(&mut self, op: IndirectOp) -> (r: Result<(), OpErr>)
        requires
            op is LDPRI || op is CLRHALTERR || op is TESTERR || op is NOT || op is XOR || op is AND
                || op is BCNT || op is WCNT || op is MINT || op is CSNGL || op is CCNT1
                || op is CWORD || op is DUP,
        ensures
            (final(self)@, r) == secondary_spec(old(self)@, op),
    {
        let a = self.stack.a();
        let b = self.stack.b();
        let c = self.stack.c();
        match op {
            IndirectOp::LDPRI => {
                self.stack.push(
                    if self.pri == Priority::Low {
                        1
                    } else {
                        0
                    },
                );
                Ok(())
            },
            IndirectOp::CLRHALTERR => {
                self.halt_on_error = false;
                Ok(())
            },
            IndirectOp::TESTERR => {
                self.stack.push(
                    if self.error {
                        1
                    } else {
                        0
                    },
                );
                self.error = false;
                Ok(())
            },
            IndirectOp::NOT => {
                self.stack.set(0, !a);
                Ok(())
            },
            IndirectOp::XOR => {
                self.fold(a ^ b);
                Ok(())
            },
            IndirectOp::AND => {
                self.fold(a & b);
                Ok(())
            },
            IndirectOp::BCNT => {
                self.stack.set(0, a.wrapping_mul(4));
                Ok(())
            },
            IndirectOp::WCNT => {
                self.stack.set(0, a >> 2u32);
                self.stack.set(1, a & 3);
                self.stack.set(2, b);
                Ok(())
            },
            IndirectOp::MINT => {
                self.stack.push(i32::MIN);
                Ok(())
            },
            IndirectOp::CSNGL => {
                self.fold(a);
                if (a < 0 && b != -1) || (a >= 0 && b != 0) {
                    self.raise_error();
                }
                Ok(())
            },
            IndirectOp::CCNT1 => {
                self.fold(b);
                if b == 0 || b as u32 > a as u32 {
                    self.raise_error();
                }
                Ok(())
            },
            IndirectOp::CWORD => {
                self.fold(b);
                if b as i64 >= a as i64 || (b as i64) < -(a as i64) {
                    self.raise_error();
                }
                Ok(())
            },
            IndirectOp::DUP => {
                self.stack.push(a);
                Ok(())
            },
            _ => Ok(()),
        }
    }

    /// Instructions that touch memory, the queues or the workspace.
    fn memory_op(&mut self, op: IndirectOp) -> (r: Result<(), OpErr>)
        requires
            op is LB || op is ENDP || op is STARTP || op is RESETCH || op is STOPP || op is STLB
                || op is STHF || op is STLF || op is STHB || op is RET || op is LEND
                || op is LDTIMER || op is TIN || op is REM || op is DIV || op is RUNP || op is SB
                || op is GAJW || op is SAVEL || op is SAVEH,
        ensures
            (final(self)@, r) == secondary_spec(old(self)@, op),
    {
        let a = self.stack.a();
        let b = self.stack.b();
        let c = self.stack.c();
        match op {
            IndirectOp::LB => {
                if !self.mem.is_valid(a) {
                    return self.fail(OpErr::OutOfRange);
                }
                let v = self.mem.read_byte(a);
                self.stack.set(0, v as i32);
                Ok(())
            },
            IndirectOp::ENDP => self.endp(),
            IndirectOp::STARTP => self.startp(),
            IndirectOp::RESETCH => {
                if !self.word_ok(a) {
                    return self.fail(Self::access_error(a));
                }
                let v = self.read_word(a);
                self.stack.set(0, v);
                self.write_word(a, NOT_PROCESS_P);
                Ok(())
            },
            IndirectOp::STOPP => self.deschedule(),
            IndirectOp::STLB => {
                self.stack.pop();
                self.set_back_pointer(Priority::Low, a);
                Ok(())
            },
            IndirectOp::STHF => {
                self.stack.pop();
                self.set_front_pointer(Priority::High, a);
                Ok(())
            },
            IndirectOp::STLF => {
                self.stack.pop();
                self.set_front_pointer(Priority::Low, a);
                Ok(())
            },
            IndirectOp::STHB => {
                self.stack.pop();
                self.set_back_pointer(Priority::High, a);
                Ok(())
            },
            IndirectOp::RET => self.ret(),
            IndirectOp::LEND => self.lend(),
            IndirectOp::LDTIMER => {
                let t = self.clock();
                self.stack.push(t);
                Ok(())
            },
            IndirectOp::TIN => self.tin(),
            IndirectOp::REM | IndirectOp::DIV => self.divide(op),
            IndirectOp::RUNP => {
                self.stack.pop();
                self.run_process(a)
            },
            IndirectOp::SB => {
                if !self.mem.is_valid(a) {
                    return self.fail(OpErr::OutOfRange);
                }
                self.stack.pop();
                self.stack.pop();
                self.mem.write_byte(a, b as u8);
                Ok(())
            },
            IndirectOp::GAJW => {
                if a & 3 != 0 {
                    return self.fail(OpErr::Misaligned);
                }
                self.stack.set(0, self.workspace);
                self.workspace = a;
                Ok(())
            },
            IndirectOp::SAVEL => self.save_queue(Priority::Low),
            IndirectOp::SAVEH => self.save_queue(Priority::High),
            _ => Ok(()),
        }
    }
}

impl Proc {
    /// The secondary instructions on bits, shifts and blocks of bytes, and
    /// the reserved ones.
    fn secondary_more(&mut self, op: IndirectOp) -> (r: Result<(), OpErr>)
        requires
            op is NORM || op is SHR || op is SHL || op is MOVE || op is XWORD || op is BITCNT
                || op is BITREVWORD || op is BITREVNBITS || op.is_reserved(),
        ensures
            (final(self)@, r) == secondary_spec(old(self)@, op),
    {
        let a = self.stack.a();
        let b = self.stack.b();
        match op {
            IndirectOp::NORM => {
                let (lo, hi, n) = normalise_double(b, a);
                self.stack.set(0, lo);
                self.stack.set(1, hi);
                self.stack.set(2, n);
                Ok(())
            },
            IndirectOp::SHR => {
                let v = if a as u32 >= 32 {
                    0
                } else {
                    ((b as u32) >> (a as u32)) as i32
                };
                self.fold(v);
                Ok(())
            },
            IndirectOp::SHL => {
                let v = if a as u32 >= 32 {
                    0
                } else {
                    ((b as u32) << (a as u32)) as i32
                };
                self.fold(v);
                Ok(())
            },
            IndirectOp::MOVE => self.move_bytes(),
            IndirectOp::XWORD => {
                let v = if 1 <= a && a <= 31 {
                    sign_extend_bits(b, a as u32)
                } else {
                    b
                };
                self.fold(v);
                Ok(())
            },
            IndirectOp::BITCNT => {
                let n = bit_count(a as u32);
                self.fold(b.wrapping_add(n as i32));
                Ok(())
            },
            IndirectOp::BITREVWORD => {
                let v = reverse_low(a as u32, 32);
                self.stack.set(0, v as i32);
                Ok(())
            },
            IndirectOp::BITREVNBITS => {
                if 0 <= a && a <= 32 {
                    let v = reverse_low(b as u32, a as u32);
                    self.fold(v as i32);
                } else {
                    self.fold(b);
                    self.raise_error();
                }
                Ok(())
            },
            _ => self.refuse(OpErr::Unimplemented),
        }
    }

    /// The clock of the current priority.
    fn clock(&self) -> (r: i32)
        ensures
            r == self@.word(clock_reg(self@.pri)),
    {
        proof {
            lemma_registers_valid(self@.mem);
        }
        match self.pri {
            Priority::Low => self.read_word(CLOCK_REG_0),
            Priority::High => self.read_word(CLOCK_REG_1),
        }
    }

    fn endp(&mut self) -> (r: Result<(), OpErr>)
        ensures
            (final(self)@, r) == endp_spec(old(self)@),
    {
        let p = self.stack.a();
        let count_at = p.wrapping_add(4);
        if !self.word_ok(p) {
            return self.fail(Self::access_error(p));
        }
        if !self.word_ok(count_at) {
            return self.fail(Self::access_error(count_at));
        }
        let count = self.read_word(count_at);
        let resume = self.read_word(p);
        self.stack.pop();
        if count == 1 {
            self.pc = resume;
            self.workspace = p;
        } else {
            self.write_word(count_at, count.wrapping_sub(1));
            self.state = ProcState::IDLE;
        }
        Ok(())
    }

    fn startp(&mut self) -> (r: Result<(), OpErr>)
        ensures
            (final(self)@, r) == startp_spec(old(self)@),
    {
        let w = self.stack.a();
        let offset = self.stack.b();
        let slot = w.wrapping_sub(4);
        if !self.word_ok(slot) {
            return self.fail(Self::access_error(slot));
        }
        self.stack.pop();
        self.stack.pop();
        self.write_word(slot, self.pc.wrapping_add(offset));
        let bit = if self.pri == Priority::Low {
            1i32
        } else {
            0i32
        };
        self.run_process(w | bit)
    }

    fn ret(&mut self) -> (r: Result<(), OpErr>)
        ensures
            (final(self)@, r) == ret_spec(old(self)@),
    {
        let w = self.workspace;
        if !self.word_ok(w) {
            return self.fail(Self::access_error(w));
        }
        if !self.word_ok(w.wrapping_add(4)) {
            return self.fail(Self::access_error(w.wrapping_add(4)));
        }
        if !self.word_ok(w.wrapping_add(8)) {
            return self.fail(Self::access_error(w.wrapping_add(8)));
        }
        if !self.word_ok(w.wrapping_add(12)) {
            return self.fail(Self::access_error(w.wrapping_add(12)));
        }
        self.pc = self.read_word(w);
        let a = self.read_word(w.wrapping_add(4));
        let b = self.read_word(w.wrapping_add(8));
        let c = self.read_word(w.wrapping_add(12));
        self.stack.set(0, a);
        self.stack.set(1, b);
        self.stack.set(2, c);
        self.workspace = w.wrapping_add(16);
        Ok(())
    }

    fn lend(&mut self) -> (r: Result<(), OpErr>)
        ensures
            (final(self)@, r) == lend_spec(old(self)@),
    {
        let count_at = self.stack.b().wrapping_add(4);
        if !self.word_ok(count_at) {
            return self.fail(Self::access_error(count_at));
        }
        let count = self.read_word(count_at).wrapping_sub(1);
        self.write_word(count_at, count);
        if count == 0 {
            return Ok(());
        }
        self.pc = self.pc.wrapping_sub(self.stack.a());
        if self.pri == Priority::Low {
            self.deschedule()
        } else {
            Ok(())
        }
    }

    fn tin(&mut self) -> (r: Result<(), OpErr>)
        ensures
            (final(self)@, r) == tin_spec(old(self)@),
    {
        let t = self.stack.a();
        let now = self.clock();
        if t.wrapping_sub(now) <= 0 {
            self.stack.pop();
            return Ok(());
        }
        let ip_slot = self.workspace.wrapping_sub(4);
        let time_slot = self.workspace.wrapping_sub(20);
        if !self.word_ok(ip_slot) {
            return self.fail(Self::access_error(ip_slot));
        }
        if !self.word_ok(time_slot) {
            return self.fail(Self::access_error(time_slot));
        }
        self.stack.pop();
        self.write_word(ip_slot, self.pc);
        self.write_word(time_slot, t);
        let w = self.workspace;
        match self.timer_insert(self.pri, w, t) {
            Ok(()) => {
                self.state = ProcState::WAITING;
                Ok(())
            },
            Err(e) => self.fail(e),
        }
    }

    /// Links workspace `w`, waiting for time `t`, into the timer queue of
    /// priority `p`.
    fn timer_insert(&mut self, p: Priority, w: i32, t: i32) -> (r: Result<(), OpErr>)
        ensures
            match timer_insert_spec(
                old(self)@.mem,
                timer_reg(p),
                old(self)@.word(timer_reg(p)),
                w,
                t,
                TIMER_WALK_LIMIT as nat,
            ) {
                Ok(m) => r is Ok && final(self)@ == old(self)@.with_mem(m),
                Err(e) => r == Err::<(), OpErr>(e) && final(self)@ == old(self)@,
            },
    {
        proof {
            lemma_registers_valid(self@.mem);
            assert(TPTR_0 as u32 == 0x1000_0018 && TPTR_1 as u32 == 0x1000_001C);
        }
        let mut slot = match p {
            Priority::Low => TPTR_1,
            Priority::High => TPTR_0,
        };
        let mut cur = self.read_word(slot);
        let mut fuel: u32 = TIMER_WALK_LIMIT;
        let ghost start = self@;
        let mut found = false;
        while fuel > 0 && cur != NOT_PROCESS_P && !found
            invariant
                found ==> fuel > 0 && cur != NOT_PROCESS_P && self@.word_ok(wrapping_sub(cur, 20))
                    && self@.word_ok(wrapping_sub(cur, 16)) && later(
                    self@.word(wrapping_sub(cur, 20)),
                    t,
                ),
                self@ == start,
                start == old(self)@,
                self@.word_ok(slot),
                timer_insert_spec(
                    start.mem,
                    timer_reg(p),
                    start.word(timer_reg(p)),
                    w,
                    t,
                    TIMER_WALK_LIMIT as nat,
                ) == timer_insert_spec(self@.mem, slot, cur, w, t, fuel as nat),
            decreases fuel, if found {
                0int
            } else {
                1int
            },
        {
            let time_at = cur.wrapping_sub(20);
            let link_at = cur.wrapping_sub(16);
            if !self.word_ok(time_at) {
                return Err(Self::access_error(time_at));
            }
            if !self.word_ok(link_at) {
                return Err(Self::access_error(link_at));
            }
            if self.read_word(time_at).wrapping_sub(t) > 0 {
                found = true;
            } else {
                slot = link_at;
                cur = self.read_word(link_at);
                fuel = fuel - 1;
            }
        }
        let own_link = w.wrapping_sub(16);
        if !self.word_ok(own_link) {
            return Err(Self::access_error(own_link));
        }
        self.write_word(own_link, cur);
        self.write_word(slot, w);
        Ok(())
    }

    fn divide(&mut self, op: IndirectOp) -> (r: Result<(), OpErr>)
        requires
            op is REM || op is DIV,
        ensures
            (final(self)@, r) == secondary_spec(old(self)@, op),
    {
        let a = self.stack.a();
        let b = self.stack.b();
        if a == 0 {
            self.raise_error();
        } else if op == IndirectOp::REM {
            self.fold(rem_word(b, a));
        } else if b == i32::MIN && a == -1 {
            self.fold(i32::MIN);
            self.raise_error();
        } else {
            self.fold(div_word(b, a));
        }
        Ok(())
    }

    fn save_queue(&mut self, p: Priority) -> (r: Result<(), OpErr>)
        ensures
            (final(self)@, r) == save_queue_spec(old(self)@, p),
    {
        let at = self.stack.a();
        let next = at.wrapping_add(4);
        if !self.word_ok(at) {
            return self.fail(Self::access_error(at));
        }
        if !self.word_ok(next) {
            return self.fail(Self::access_error(next));
        }
        let front = self.get_front_pointer(p);
        let back = self.get_back_pointer(p);
        self.stack.pop();
        self.write_word(at, front);
        self.write_word(next, back);
        Ok(())
    }

    /// Copies A bytes from address C to address B.
    fn move_bytes(&mut self) -> (r: Result<(), OpErr>)
        ensures
            (final(self)@, r) == move_op_spec(old(self)@),
    {
        let count = self.stack.a();
        let mut dst = self.stack.b() as u32;
        let mut src = self.stack.c() as u32;
        let c = self.stack.c();
        self.stack.set(0, c);
        self.stack.set(1, c);
        let ghost n0: nat = if count > 0 {
            count as nat
        } else {
            0
        };
        let ghost start = old(self)@;
        let mut left: u32 = if count > 0 {
            count as u32
        } else {
            0
        };
        while left > 0
            invariant
                move_spec(start.mem, start.c as u32, start.b as u32, n0) == move_spec(
                    self@.mem,
                    src,
                    dst,
                    left as nat,
                ),
                self@ == (ProcView { a: start.c, b: start.c, mem: self@.mem, ..start }),
                start == old(self)@,
                n0 == (if start.a > 0 {
                    start.a as nat
                } else {
                    0
                }),
            decreases left,
        {
            assert(src as i32 as u32 == src && dst as i32 as u32 == dst) by (bit_vector);
            if !self.mem.is_valid(src as i32) || !self.mem.is_valid(dst as i32) {
                assert(move_spec(self@.mem, src, dst, left as nat) == (
                    self@.mem,
                    Err::<(), OpErr>(OpErr::OutOfRange),
                ));
                return self.fail(OpErr::OutOfRange);
            }
            let v = self.mem.read_byte(src as i32);
            self.mem.write_byte(dst as i32, v);
            src = src.wrapping_add(1);
            dst = dst.wrapping_add(1);
            left = left - 1;
        }
        Ok(())
    }
}

} // verus!
