//! Properties of the instruction set that hold for every machine state.
use crate::assembler::{prefix_spec, slot_bytes, SLOT};
use crate::mem::{lemma_read_after_write, lemma_write_other_word, TERMINAL_OUT};
use crate::proc::opcodes::IndirectOp;
use crate::proc::semantics::{
    decode_spec, direct_spec, run_spec, secondary_spec, step_spec, words, Outcome, ProcView,
};
use crate::proc::DirectOp;
use vstd::prelude::*;
use vstd::wrapping::i32_specs::{wrapping_add, wrapping_sub};

verus! {

/// A secondary instruction leaves the operand register alone.
proof fn lemma_secondary_keeps_operand(s: ProcView, op: IndirectOp)
    ensures
        secondary_spec(s, op).0.oreg == s.oreg,
{
    match op {
        IndirectOp::REV => {},
        IndirectOp::LB => {},
        IndirectOp::BSUB => {},
        IndirectOp::ENDP => {},
        IndirectOp::DIFF => {},
        IndirectOp::ADD => {},
        IndirectOp::GCALL => {},
        IndirectOp::PROD => {},
        IndirectOp::GT => {},
        IndirectOp::WSUB => {},
        IndirectOp::SUB => {},
        IndirectOp::STARTP => {},
        IndirectOp::SETERR => {},
        IndirectOp::RESETCH => {},
        IndirectOp::CSUB0 => {},
        IndirectOp::STOPP => {},
        IndirectOp::LADD => {},
        IndirectOp::STLB => {},
        IndirectOp::STHF => {},
        IndirectOp::NORM => {},
        IndirectOp::LDPI => {},
        IndirectOp::STLF => {},
        IndirectOp::XDBLE => {},
        IndirectOp::LDPRI => {},
        IndirectOp::REM => {},
        IndirectOp::RET => {},
        IndirectOp::LEND => {},
        IndirectOp::LDTIMER => {},
        IndirectOp::CLRHALTERR => {},
        IndirectOp::TESTERR => {},
        IndirectOp::TIN => {},
        IndirectOp::DIV => {},
        IndirectOp::DIST => {},
        IndirectOp::DISC => {},
        IndirectOp::DISS => {},
        IndirectOp::NOT => {},
        IndirectOp::XOR => {},
        IndirectOp::BCNT => {},
        IndirectOp::RUNP => {},
        IndirectOp::XWORD => {},
        IndirectOp::SB => {},
        IndirectOp::GAJW => {},
        IndirectOp::SAVEL => {},
        IndirectOp::SAVEH => {},
        IndirectOp::WCNT => {},
        IndirectOp::SHR => {},
        IndirectOp::SHL => {},
        IndirectOp::MINT => {},
        IndirectOp::ALT => {},
        IndirectOp::ALTWT => {},
        IndirectOp::ALTEND => {},
        IndirectOp::AND => {},
        IndirectOp::ENBT => {},
        IndirectOp::ENBC => {},
        IndirectOp::ENBS => {},
        IndirectOp::MOVE => {},
        IndirectOp::CSNGL => {},
        IndirectOp::CCNT1 => {},
        IndirectOp::TALT => {},
        IndirectOp::STHB => {},
        IndirectOp::TALTWT => {},
        IndirectOp::SUM => {},
        IndirectOp::MUL => {},
        IndirectOp::CWORD => {},
        IndirectOp::DUP => {},
        IndirectOp::CRCWORD => {},
        IndirectOp::CRCBYTE => {},
        IndirectOp::BITCNT => {},
        IndirectOp::BITREVWORD => {},
        IndirectOp::BITREVNBITS => {},
    }
}

/// After any instruction other than `PFIX` and `NFIX` the operand register
/// is zero.
pub proof fn lemma_operand_cleared(s: ProcView, op: DirectOp, value: i32)
    requires
        op != DirectOp::PFIX,
        op != DirectOp::NFIX,
    ensures
        run_spec(s, op, value).0.oreg == 0,
{
    let t = ProcView {
        state: crate::proc::ProcState::ACTIVE,
        iptr: wrapping_add(s.iptr, 1),
        oreg: 0,
        ..s
    };
    let e = wrapping_add(s.oreg, value);
    if op == DirectOp::OPR {
        match IndirectOp::from_code_spec(e) {
            Some(o) => lemma_secondary_keeps_operand(t, o),
            None => {},
        }
    }
}

/// `PFIX n` followed by `op m` has the effect of `op` with operand
/// `(n << 4) + m`, started one byte further on.
pub proof fn lemma_prefix_then_op(s: ProcView, n: i32, op: DirectOp, m: i32)
    requires
        s.oreg == 0,
        0 <= n < 16,
        0 <= m < 16,
        op != DirectOp::PFIX,
        op != DirectOp::NFIX,
    ensures
        run_spec(run_spec(s, DirectOp::PFIX, n).0, op, m) == run_spec(
            ProcView { iptr: wrapping_add(s.iptr, 1), ..s },
            op,
            (n * 16 + m) as i32,
        ),
{
    assert(n << 4u32 == n * 16) by (bit_vector)
        requires
            0 <= n < 16,
    ;
}

/// `NFIX n; LDC m` pushes `(~n << 4) + m`.
pub proof fn lemma_negative_prefix_load(s: ProcView, n: i32, m: i32)
    requires
        s.oreg == 0,
    ensures
        ({
            let (t, r) = run_spec(run_spec(s, DirectOp::NFIX, n).0, DirectOp::LDC, m);
            &&& r is Ok
            &&& t.a == wrapping_add((!n) << 4u32, m)
            &&& t.b == s.a
            &&& t.c == s.b
        }),
{
}

/// `REV; REV` leaves A, B and C as they were.
pub proof fn lemma_reverse_twice(s: ProcView)
    requires
        s.oreg == 0,
    ensures
        ({
            let (s1, r1) = run_spec(s, DirectOp::OPR, 0);
            let (s2, r2) = run_spec(s1, DirectOp::OPR, 0);
            &&& r1 is Ok
            &&& r2 is Ok
            &&& s2.a == s.a
            &&& s2.b == s.b
            &&& s2.c == s.c
        }),
{
}

/// `LDC v; EQC v` pushes 1 on top: A is 1, B the `v` that `EQC` compared,
/// C the A from before.
pub proof fn lemma_load_then_compare(s: ProcView, v: i32)
    requires
        s.oreg == 0,
    ensures
        ({
            let (s1, r1) = run_spec(s, DirectOp::LDC, v);
            let (s2, r2) = run_spec(s1, DirectOp::EQC, v);
            &&& r1 is Ok
            &&& r2 is Ok
            &&& s2.a == 1
            &&& s2.b == v
            &&& s2.c == s.a
            &&& s2.oreg == 0
        }),
{
}

/// `STL k; LDL k` leaves A as it was, unless the local is the terminal
/// address, whose writes are not stored.
pub proof fn lemma_store_then_load_local(s: ProcView, k: i32)
    requires
        s.oreg == 0,
        wrapping_add(s.wptr, words(k)) != TERMINAL_OUT,
    ensures
        run_spec(run_spec(s, DirectOp::STL, k).0, DirectOp::LDL, k).0.a == s.a,
{
    let addr = wrapping_add(s.wptr, words(k));
    assert(addr != TERMINAL_OUT ==> addr as u32 != TERMINAL_OUT as u32) by (bit_vector);
    if s.word_ok(addr) {
        lemma_read_after_write(s.mem, addr as u32, s.a);
    }
}

/// Wrapping offsets within a frame compose as plain arithmetic.
proof fn lemma_frame_offsets(w: i32)
    ensures
        wrapping_add(wrapping_sub(w, 16), 0) == wrapping_sub(w, 16),
        wrapping_add(wrapping_sub(w, 16), 4) == wrapping_sub(w, 12),
        wrapping_add(wrapping_sub(w, 16), 8) == wrapping_sub(w, 8),
        wrapping_add(wrapping_sub(w, 16), 12) == wrapping_sub(w, 4),
        wrapping_add(wrapping_sub(w, 16), 16) == w,
        wrapping_sub(w, 4) as u32 != wrapping_sub(w, 8) as u32,
        wrapping_sub(w, 4) as u32 != wrapping_sub(w, 12) as u32,
        wrapping_sub(w, 4) as u32 != wrapping_sub(w, 16) as u32,
        wrapping_sub(w, 8) as u32 != wrapping_sub(w, 12) as u32,
        wrapping_sub(w, 8) as u32 != wrapping_sub(w, 16) as u32,
        wrapping_sub(w, 12) as u32 != wrapping_sub(w, 16) as u32,
{
    let w4 = wrapping_sub(w, 4);
    let w8 = wrapping_sub(w, 8);
    let w12 = wrapping_sub(w, 12);
    let w16 = wrapping_sub(w, 16);
    assert(w4 != w8 && w4 != w12 && w4 != w16 && w8 != w12 && w8 != w16 && w12 != w16);
    assert(forall|x: i32, y: i32| x != y ==> #[trigger] (x as u32) != #[trigger] (y as u32)) by {
        assert forall|x: i32, y: i32| x != y implies #[trigger] (x as u32) != #[trigger] (y as u32) by {
            assert(x != y ==> x as u32 != y as u32) by (bit_vector);
        }
    }
}

/// The bytes `PFIX 2; OPR 0` carry out `RET`.
proof fn lemma_return_bytes(s: ProcView)
    requires
        s.oreg == 0,
    ensures
        step_spec(step_spec(s, 0x22).0, 0xF0) == crate::proc::semantics::ret_spec(
            ProcView {
                state: crate::proc::ProcState::ACTIVE,
                iptr: wrapping_add(wrapping_add(s.iptr, 1), 1),
                ..s
            },
        ),
{
    assert((2i32) << 4u32 == 32i32) by (bit_vector);
    assert(IndirectOp::from_code_spec(32) == Some(IndirectOp::RET));
    let u = ProcView {
        state: crate::proc::ProcState::ACTIVE,
        iptr: wrapping_add(wrapping_add(s.iptr, 1), 1),
        ..s
    };
    assert(secondary_spec(u, IndirectOp::RET) == crate::proc::semantics::ret_spec(u));
}

/// What `CALL k` leaves behind.
proof fn lemma_call_effect(s: ProcView, k: i32)
    requires
        s.oreg == 0,
    ensures
        run_spec(s, DirectOp::CALL, k) == crate::proc::semantics::call_spec(
            ProcView {
                state: crate::proc::ProcState::ACTIVE,
                iptr: wrapping_add(s.iptr, 1),
                ..s
            },
            k,
        ),
{
}

/// `CALL k` and, later, `RET` (`PFIX 2; OPR 0`) with the frame still in
/// place restore A, B, C and the workspace, and resume after the `CALL`.
#[verifier::rlimit(60)]
pub proof fn lemma_call_then_return(s: ProcView, k: i32, later: ProcView)
    requires
        s.oreg == 0,
        run_spec(s, DirectOp::CALL, k).1 is Ok,
        later.oreg == 0,
        later.mem.capacity == s.mem.capacity,
        later.wptr == run_spec(s, DirectOp::CALL, k).0.wptr,
        later.word(later.wptr) == run_spec(s, DirectOp::CALL, k).0.word(later.wptr),
        later.word(wrapping_add(later.wptr, 4)) == run_spec(s, DirectOp::CALL, k).0.word(
            wrapping_add(later.wptr, 4),
        ),
        later.word(wrapping_add(later.wptr, 8)) == run_spec(s, DirectOp::CALL, k).0.word(
            wrapping_add(later.wptr, 8),
        ),
        later.word(wrapping_add(later.wptr, 12)) == run_spec(s, DirectOp::CALL, k).0.word(
            wrapping_add(later.wptr, 12),
        ),
        wrapping_sub(s.wptr, 4) != TERMINAL_OUT,
        wrapping_sub(s.wptr, 8) != TERMINAL_OUT,
        wrapping_sub(s.wptr, 12) != TERMINAL_OUT,
        wrapping_sub(s.wptr, 16) != TERMINAL_OUT,
    ensures
        ({
            let (t, r) = step_spec(step_spec(later, 0x22).0, 0xF0);
            &&& r is Ok
            &&& t.a == s.a
            &&& t.b == s.b
            &&& t.c == s.c
            &&& t.wptr == s.wptr
            &&& t.iptr == wrapping_add(s.iptr, 1)
        }),
{
    let w = s.wptr;
    lemma_frame_offsets(w);
    let w4 = wrapping_sub(w, 4);
    let w8 = wrapping_sub(w, 8);
    let w12 = wrapping_sub(w, 12);
    let w16 = wrapping_sub(w, 16);
    assert(forall|x: i32| x != TERMINAL_OUT ==> #[trigger] (x as u32) != TERMINAL_OUT as u32) by {
        assert forall|x: i32| x != TERMINAL_OUT implies #[trigger] (x as u32) != TERMINAL_OUT as u32 by {
            assert(x != 0x0001_0000 ==> x as u32 != 0x0001_0000u32) by (bit_vector);
        }
    }
    let t = ProcView {
        state: crate::proc::ProcState::ACTIVE,
        iptr: wrapping_add(s.iptr, 1),
        oreg: 0,
        ..s
    };
    let m0 = s.mem;
    let m1 = m0.with_word(w4 as u32, s.c);
    let m2 = m1.with_word(w8 as u32, s.b);
    let m3 = m2.with_word(w12 as u32, s.a);
    let m4 = m3.with_word(w16 as u32, t.iptr);
    lemma_read_after_write(m0, w4 as u32, s.c);
    lemma_read_after_write(m1, w8 as u32, s.b);
    lemma_read_after_write(m2, w12 as u32, s.a);
    lemma_read_after_write(m3, w16 as u32, t.iptr);
    lemma_write_other_word(m1, w8 as u32, w4 as u32, s.b);
    lemma_write_other_word(m2, w12 as u32, w4 as u32, s.a);
    lemma_write_other_word(m3, w16 as u32, w4 as u32, t.iptr);
    lemma_write_other_word(m2, w12 as u32, w8 as u32, s.a);
    lemma_write_other_word(m3, w16 as u32, w8 as u32, t.iptr);
    lemma_write_other_word(m3, w16 as u32, w12 as u32, t.iptr);
    lemma_call_effect(s, k);
    lemma_return_bytes(later);
    assert(run_spec(s, DirectOp::CALL, k).0.mem == m4);
}

/// The state after executing `bytes` in order, stopping at the first
/// failure.
pub open spec fn run_bytes(s: ProcView, bytes: Seq<u8>) -> Outcome
    decreases bytes.len(),
{
    if bytes.len() == 0 {
        (s, Ok(()))
    } else {
        let (t, r) = run_bytes(s, bytes.drop_last());
        if r is Ok {
            step_spec(t, bytes.last())
        } else {
            (t, r)
        }
    }
}

/// Whether a byte is `PFIX` or `NFIX`.
pub open spec fn is_prefix_byte(b: u8) -> bool {
    decode_spec(b) == DirectOp::PFIX || decode_spec(b) == DirectOp::NFIX
}

/// The operand register after the prefix bytes `bytes`, starting from `o`.
pub open spec fn oreg_after(o: i32, bytes: Seq<u8>) -> i32
    decreases bytes.len(),
{
    if bytes.len() == 0 {
        o
    } else {
        let p = wrapping_add(oreg_after(o, bytes.drop_last()), (bytes.last() % 16) as i32);
        if decode_spec(bytes.last()) == DirectOp::PFIX {
            p << 4u32
        } else {
            (!p) << 4u32
        }
    }
}

/// Prefix bytes only build up the operand register.
proof fn lemma_run_prefix_bytes(s: ProcView, bytes: Seq<u8>)
    requires
        forall|i: int| 0 <= i < bytes.len() ==> is_prefix_byte(#[trigger] bytes[i]),
    ensures
        ({
            let (t, r) = run_bytes(s, bytes);
            &&& r is Ok
            &&& t.oreg == oreg_after(s.oreg, bytes)
            &&& t.a == s.a
            &&& t.b == s.b
            &&& t.c == s.c
            &&& t.wptr == s.wptr
            &&& t.mem == s.mem
        }),
    decreases bytes.len(),
{
    if bytes.len() > 0 {
        let init = bytes.drop_last();
        assert forall|i: int| 0 <= i < init.len() implies is_prefix_byte(#[trigger] init[i]) by {
            assert(init[i] == bytes[i]);
        }
        lemma_run_prefix_bytes(s, init);
        assert(is_prefix_byte(bytes[bytes.len() - 1]));
    }
}

/// `16^k`.
pub open spec fn nibble_range(k: nat) -> int
    decreases k,
{
    if k == 0 {
        1
    } else {
        16 * nibble_range((k - 1) as nat)
    }
}

/// An operand in `0..16^k` takes at most `k` bytes.
proof fn lemma_prefix_length(op: u8, v: int, k: nat)
    requires
        op < 16,
        k >= 1,
        0 <= v < nibble_range(k),
    ensures
        prefix_spec(op, v).len() <= k,
    decreases k,
{
    if v >= 16 {
        assert(nibble_range(k) == 16 * nibble_range((k - 1) as nat));
        assert(v / 16 < nibble_range((k - 1) as nat));
        lemma_prefix_length(2, v / 16, (k - 1) as nat);
    }
}

/// The encoding of `op` with operand `v`: at most eight bytes, prefix bytes
/// then `op` with the low nibble of `v`, the prefixes leaving in the operand
/// register what makes the operand `v`.
pub proof fn lemma_prefix_encoding(op: u8, v: int)
    requires
        op < 16,
        i32::MIN <= v <= i32::MAX,
    ensures
        prefix_spec(op, v).len() >= 1,
        prefix_spec(op, v).len() <= 8,
        prefix_spec(op, v).last() == (op * 16 + v % 16) as u8,
        forall|i: int|
            0 <= i < prefix_spec(op, v).len() - 1 ==> is_prefix_byte(
                #[trigger] prefix_spec(op, v)[i],
            ),
        wrapping_add(oreg_after(0, prefix_spec(op, v).drop_last()), (v % 16) as i32) == v as i32,
    decreases (if v >= 0 {
        v
    } else {
        -v
    }),
{
    let bs = prefix_spec(op, v);
    assert(nibble_range(0) == 1);
    assert(nibble_range(1) == 16);
    assert(nibble_range(2) == 0x100);
    assert(nibble_range(3) == 0x1000);
    assert(nibble_range(4) == 0x1_0000);
    assert(nibble_range(5) == 0x10_0000);
    assert(nibble_range(6) == 0x100_0000);
    assert(nibble_range(7) == 0x1000_0000);
    assert(nibble_range(8) == 0x1_0000_0000);
    if v >= 0 {
        lemma_prefix_length(op, v, 8);
    } else {
        lemma_prefix_length(6, (-v - 1) / 16, 7);
    }
    if 0 <= v && v < 16 {
        assert(bs.drop_last() =~= Seq::<u8>::empty());
    } else {
        let (f, w) = if v >= 16 {
            (2u8, v / 16)
        } else {
            (6u8, (-v - 1) / 16)
        };
        let inner = prefix_spec(f, w);
        lemma_prefix_encoding(f, w);
        assert(bs == inner.push((op * 16 + v % 16) as u8));
        assert(bs.drop_last() =~= inner);
        let last = inner.last();
        assert(last / 16 == f);
        assert(last % 16 == w % 16);
        assert forall|i: int| 0 <= i < bs.len() - 1 implies is_prefix_byte(#[trigger] bs[i]) by {
            assert(bs[i] == inner[i]);
        }
        let p = wrapping_add(oreg_after(0, inner.drop_last()), (last % 16) as i32);
        assert(p == w);
        let wi = w as i32;
        if v >= 16 {
            assert(0 < wi < 0x0800_0000);
            assert(wi << 4u32 == wi * 16) by (bit_vector)
                requires
                    0 < wi < 0x0800_0000,
            ;
            assert(oreg_after(0, inner) == wi * 16);
            assert(16 * w + v % 16 == v);
        } else {
            assert(0 <= wi < 0x0800_0000);
            assert((!wi) << 4u32 == (-wi - 1) * 16) by (bit_vector)
                requires
                    0 <= wi < 0x0800_0000,
            ;
            assert(oreg_after(0, inner) == (-wi - 1) * 16);
            assert(16 * (-w - 1) + v % 16 == v) by (nonlinear_arith)
                requires
                    v < 0,
                    w == (-v - 1) / 16,
            ;
        }
    }
}

/// The bytes the assembler produces for `LDC v`, executed from a clear
/// operand register, push `v`, clear the operand register again and leave
/// the workspace and memory as they were.
pub proof fn lemma_load_constant_encoding(s: ProcView, v: i32)
    requires
        s.oreg == 0,
    ensures
        ({
            let (t, r) = run_bytes(s, prefix_spec(4, v as int));
            &&& r is Ok
            &&& t.a == v
            &&& t.b == s.a
            &&& t.c == s.b
            &&& t.oreg == 0
            &&& t.wptr == s.wptr
            &&& t.mem == s.mem
        }),
{
    let bs = prefix_spec(4, v as int);
    lemma_prefix_encoding(4, v as int);
    let init = bs.drop_last();
    assert forall|i: int| 0 <= i < init.len() implies is_prefix_byte(#[trigger] init[i]) by {
        assert(init[i] == bs[i]);
    }
    lemma_run_prefix_bytes(s, init);
    let last = bs.last();
    assert(last / 16 == 4);
    assert(last % 16 == v % 16);
}

/// The operand register after `a` then `b` is that after `b` started from
/// where `a` left it.
proof fn lemma_oreg_after_concat(o: i32, a: Seq<u8>, b: Seq<u8>)
    ensures
        oreg_after(o, a + b) == oreg_after(oreg_after(o, a), b),
    decreases b.len(),
{
    if b.len() == 0 {
        assert(a + b =~= a);
    } else {
        lemma_oreg_after_concat(o, a, b.drop_last());
        assert((a + b).drop_last() =~= a + b.drop_last());
        assert((a + b).last() == b.last());
    }
}

/// `PFIX 0` bytes leave a clear operand register clear.
proof fn lemma_pad_keeps_operand_clear(n: nat)
    ensures
        oreg_after(0, Seq::new(n, |k: int| 0x20u8)) == 0,
    decreases n,
{
    let pad = Seq::new(n, |k: int| 0x20u8);
    if n > 0 {
        lemma_pad_keeps_operand_clear((n - 1) as nat);
        assert(pad.drop_last() =~= Seq::new((n - 1) as nat, |k: int| 0x20u8));
        assert(decode_spec(0x20u8) == DirectOp::PFIX);
        assert((0i32) << 4u32 == 0i32) by (bit_vector);
    }
}

/// The slot that the second pass fills for `LDC label`, executed from a
/// clear operand register, pushes the label's value like the plain
/// encoding does.
pub proof fn lemma_slot_load_constant(s: ProcView, v: i32)
    requires
        s.oreg == 0,
    ensures
        ({
            let (t, r) = run_bytes(s, slot_bytes(4, v as int));
            &&& r is Ok
            &&& t.a == v
            &&& t.b == s.a
            &&& t.c == s.b
            &&& t.oreg == 0
            &&& t.wptr == s.wptr
            &&& t.mem == s.mem
        }),
{
    let enc = prefix_spec(4, v as int);
    lemma_prefix_encoding(4, v as int);
    let n = (SLOT - enc.len()) as nat;
    let pad = Seq::new(n, |k: int| 0x20u8);
    let bs = slot_bytes(4, v as int);
    assert(bs == pad + enc);
    lemma_pad_keeps_operand_clear(n);
    let init = bs.drop_last();
    assert(init =~= pad + enc.drop_last());
    lemma_oreg_after_concat(0, pad, enc.drop_last());
    assert forall|i: int| 0 <= i < init.len() implies is_prefix_byte(#[trigger] init[i]) by {
        if i < pad.len() {
            assert(init[i] == pad[i]);
            assert(is_prefix_byte(0x20u8));
        } else {
            assert(init[i] == enc[i - pad.len()]);
        }
    }
    lemma_run_prefix_bytes(s, init);
    let last = bs.last();
    assert(last == enc.last());
    assert(last / 16 == 4);
    assert(last % 16 == v % 16);
}

} // verus!
