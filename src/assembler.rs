//! A line-oriented two-pass assembler: mnemonics, labels and integer
//! operands in, instruction bytes out, with prefixes for operands outside
//! `0..16`. Operands naming labels defined further on are filled in by the
//! second pass.
use crate::proc::opcodes::all_ops;
use crate::proc::Proc;
use crate::text::{line_words, parse_int, parse_int_spec, tokenize};
use vstd::hash_map::StringHashMap;
use vstd::prelude::*;

verus! {

/// Why a line could not be assembled.
#[derive(Clone, Copy, Debug, PartialEq, Eq, Structural)]
pub enum AsmError {
    /// A word that is neither a label, a mnemonic nor an operand.
    UnknownMnemonic,
    /// A direct mnemonic at the end of the line, without its operand.
    MissingOperand,
    /// A label operand whose label is still undefined at the second pass.
    UnresolvedLabel,
    /// The program would run past the largest word offset.
    TooLarge,
}

/// An operand left for the second pass: the offset of its slot, the
/// opcode, and the label it names.
pub type Deferred = (nat, u8, Seq<char>);

/// The assembler's tables and output.
pub struct AsmView {
    /// Label name to byte offset.
    pub labels: Map<Seq<char>, i32>,
    /// Direct mnemonic to opcode.
    pub ops: Map<Seq<char>, u8>,
    /// Secondary mnemonic to operate code.
    pub iops: Map<Seq<char>, u8>,
    /// Bytes emitted so far, with a placeholder slot for each deferred operand.
    pub program: Seq<u8>,
    /// Operands naming labels not yet defined when they were read.
    pub deferred: Seq<Deferred>,
}

impl AsmView {
    /// The offset of the next byte.
    pub open spec fn offset(self) -> nat {
        self.program.len()
    }
}

/// Largest byte offset a program may reach.
pub const MAX_OFFSET: usize = 0x7FFF_FFFF;

/// Size of the slot kept for an operand that names a label defined later:
/// the longest encoding of a word.
pub const SLOT: usize = 8;

/// The slot emitted for a deferred operand until the second pass fills it.
pub open spec fn placeholder() -> Seq<u8> {
    Seq::new(SLOT as nat, |k: int| 0x20u8)
}

/// What fills the slot of a deferred operand: `PFIX 0` bytes, which leave
/// a clear operand register clear, then the encoding of `op` with `v`.
pub open spec fn slot_bytes(op: u8, v: int) -> Seq<u8> {
    Seq::new((SLOT - prefix_spec(op, v).len()) as nat, |k: int| 0x20u8) + prefix_spec(op, v)
}

/// `p` with `b` written from offset `at`, bytes past the end dropped.
pub open spec fn patch(p: Seq<u8>, at: int, b: Seq<u8>) -> Seq<u8> {
    Seq::new(p.len(), |i: int| if at <= i < at + b.len() { b[i - at] } else { p[i] })
}

/// The second pass from deferred operand `k` on: each slot gets the
/// encoding of its opcode with the value its label has at the end. (An
/// opcode above 15 cannot be recorded by `read_line`; it is refused.)
pub open spec fn resolve_from(
    p: Seq<u8>,
    ds: Seq<Deferred>,
    labels: Map<Seq<char>, i32>,
    k: int,
) -> Result<Seq<u8>, AsmError>
    decreases ds.len() - k,
{
    if k < 0 || k >= ds.len() {
        Ok(p)
    } else {
        let (at, op, name) = ds[k];
        if op >= 16 {
            Err(AsmError::UnknownMnemonic)
        } else if !labels.contains_key(name) {
            Err(AsmError::UnresolvedLabel)
        } else {
            resolve_from(patch(p, at as int, slot_bytes(op, labels[name] as int)), ds, labels, k + 1)
        }
    }
}

/// The finished program: the bytes emitted, every deferred operand filled
/// in, or `UnresolvedLabel` for a label that was never defined.
pub open spec fn resolve(st: AsmView) -> Result<Seq<u8>, AsmError> {
    resolve_from(st.program, st.deferred, st.labels, 0)
}

/// The deferred operand, if any, recorded at offset `at`.
pub open spec fn deferred_entry(at: nat, later: Option<(u8, String)>) -> Seq<Deferred> {
    match later {
        Some(d) => seq![(at, d.0, d.1@)],
        None => seq![],
    }
}

/// The direct mnemonics added to `m`.
pub open spec fn with_direct_mnemonics(m: Map<Seq<char>, u8>) -> Map<Seq<char>, u8> {
    m.insert("j"@, 0x0).insert("ldlp"@, 0x1).insert("pfix"@, 0x2).insert("ldnl"@, 0x3).insert(
        "ldc"@,
        0x4,
    ).insert("ldnlp"@, 0x5).insert("nfix"@, 0x6).insert("ldl"@, 0x7).insert("adc"@, 0x8).insert(
        "call"@,
        0x9,
    ).insert("cj"@, 0xA).insert("ajw"@, 0xB).insert("eqc"@, 0xC).insert("stl"@, 0xD).insert(
        "stnl"@,
        0xE,
    ).insert("opr"@, 0xF)
}

/// Appends `bytes` and the deferred operands `extra`, unless that runs past
/// the largest offset, then goes on from word `next`.
pub open spec fn emit(
    st: AsmView,
    bytes: Seq<u8>,
    extra: Seq<Deferred>,
    ws: Seq<Seq<char>>,
    next: int,
) -> (AsmView, Result<Seq<u8>, AsmError>)
    decreases ws.len() - next, 2int,
{
    if st.offset() + bytes.len() > MAX_OFFSET {
        (st, Err(AsmError::TooLarge))
    } else {
        let st1 = AsmView { program: st.program + bytes, deferred: st.deferred + extra, ..st };
        if next >= ws.len() {
            (st1, Ok(bytes))
        } else {
            let (st2, r) = assemble_from(st1, ws, next);
            (
                st2,
                match r {
                    Ok(rest) => Ok(bytes + rest),
                    Err(e) => Err(e),
                },
            )
        }
    }
}

/// Assembles the words `ws` from index `i` on: a word ending in `:` defines
/// a label at the current offset; a direct mnemonic takes the next word as
/// its operand (an integer literal or a label); a secondary mnemonic
/// becomes `OPR` with its code. A label not defined yet gets a placeholder
/// slot, filled in by the second pass. Gives the tables after the last word
/// that was handled, and the bytes or the first failure.
pub open spec fn assemble_from(st: AsmView, ws: Seq<Seq<char>>, i: int) -> (
    AsmView,
    Result<Seq<u8>, AsmError>,
)
    decreases ws.len() - i, 1int,
{
    if i < 0 || i >= ws.len() {
        (st, Ok(seq![]))
    } else {
        let w = ws[i];
        if w.len() > 0 && w.last() == ':' {
            assemble_from(
                AsmView { labels: st.labels.insert(w.drop_last(), st.offset() as i32), ..st },
                ws,
                i + 1,
            )
        } else if st.ops.contains_key(w) && st.ops[w] < 16 {
            if i + 1 >= ws.len() {
                (st, Err(AsmError::MissingOperand))
            } else {
                let arg = ws[i + 1];
                match parse_int_spec(arg) {
                    Some(v) => emit(st, prefix_spec(st.ops[w], v as int), seq![], ws, i + 2),
                    None => if st.labels.contains_key(arg) {
                        emit(st, prefix_spec(st.ops[w], st.labels[arg] as int), seq![], ws, i + 2)
                    } else {
                        emit(st, placeholder(), seq![(st.offset(), st.ops[w], arg)], ws, i + 2)
                    },
                }
            }
        } else if st.iops.contains_key(w) {
            emit(st, prefix_spec(15, st.iops[w] as int), seq![], ws, i + 1)
        } else {
            (st, Err(AsmError::UnknownMnemonic))
        }
    }
}

/// Assembles `lines` from index `k` on, stopping at the first failure.
pub open spec fn lines_from(st: AsmView, lines: Seq<Seq<char>>, k: int) -> (
    AsmView,
    Result<(), AsmError>,
)
    decreases lines.len() - k,
{
    if k < 0 || k >= lines.len() {
        (st, Ok(()))
    } else {
        let (st2, r) = assemble_from(st, line_words(lines[k]), 0);
        match r {
            Ok(_) => lines_from(st2, lines, k + 1),
            Err(e) => (st2, Err(e)),
        }
    }
}

/// The program that the source `lines` assemble to, both passes done.
pub open spec fn program_spec(st: AsmView, lines: Seq<Seq<char>>) -> Result<Seq<u8>, AsmError> {
    let (st2, r) = lines_from(st, lines, 0);
    match r {
        Ok(_) => resolve(st2),
        Err(e) => Err(e),
    }
}

/// The bytes that encode direct instruction `op` with operand `v`: one byte
/// for `0 <= v < 16`; otherwise `PFIX` (for `v >= 16`) or `NFIX` (for
/// `v < 0`) prefixes carrying the higher nibbles, then the instruction with
/// the low nibble.
pub open spec fn prefix_spec(op: u8, v: int) -> Seq<u8>
    decreases (if v >= 0 {
        v
    } else {
        -v
    }),
{
    if 0 <= v && v < 16 {
        seq![(op * 16 + v) as u8]
    } else if v >= 16 {
        prefix_spec(2, v / 16).push((op * 16 + v % 16) as u8)
    } else {
        prefix_spec(6, (-v - 1) / 16).push((op * 16 + v % 16) as u8)
    }
}

/// Encodes direct instruction `op` with operand `v`, prefixed as needed.
pub fn prefix_constant(op: u8, v: i32) -> (r: Vec<u8>)
    requires
        op < 16,
    ensures
        r@ == prefix_spec(op, v as int),
    decreases (if v >= 0 {
        v as int
    } else {
        -v
    }),
{
    if 0 <= v && v < 16 {
        let mut p = Vec::new();
        p.push(op * 16 + v as u8);
        proof {
            assert(p@ =~= seq![(op * 16 + v) as u8]);
        }
        p
    } else if v >= 16 {
        let mut p = prefix_constant(0x2, v / 16);
        p.push(op * 16 + (v % 16) as u8);
        p
    } else {
        let w = (-(v as i64) - 1) / 16;
        let low = (v as i64 + 16 * (w + 1)) as u8;
        proof {
            assert(low == v % 16) by (nonlinear_arith)
                requires
                    v < 0,
                    w == (-(v as int) - 1) / 16,
                    low == v + 16 * (w + 1),
            ;
        }
        let mut p = prefix_constant(0x6, w as i32);
        p.push(op * 16 + low);
        p
    }
}

/// Puts `bytes` in front of the bytes of an assembly result.
pub open spec fn prepend(bytes: Seq<u8>, res: (AsmView, Result<Seq<u8>, AsmError>)) -> (
    AsmView,
    Result<Seq<u8>, AsmError>,
) {
    (
        res.0,
        match res.1 {
            Ok(b) => Ok(bytes + b),
            Err(e) => Err(e),
        },
    )
}

/// A two-pass assembler fed one line at a time. An operand may name a label
/// defined earlier or later; `finish` fills in the later ones.
pub struct Assemble {
    labels: StringHashMap<i32>,
    op: StringHashMap<u8>,
    iop: StringHashMap<u8>,
    program: Vec<u8>,
    deferred: Vec<(usize, u8, String)>,
}

impl View for Assemble {
    type V = AsmView;

    closed spec fn view(&self) -> AsmView {
        AsmView {
            labels: self.labels@,
            ops: self.op@,
            iops: self.iop@,
            program: self.program@,
            deferred: self.deferred@.map_values(
                |d: (usize, u8, String)| (d.0 as nat, d.1, d.2@),
            ),
        }
    }
}

impl Assemble {
    /// An assembler with no mnemonics, no labels and no output.
    pub fn new() -> (r: Self)
        ensures
            r@.labels == Map::<Seq<char>, i32>::empty(),
            r@.ops == Map::<Seq<char>, u8>::empty(),
            r@.iops == Map::<Seq<char>, u8>::empty(),
            r@.program == Seq::<u8>::empty(),
            r@.deferred == Seq::<Deferred>::empty(),
    {
        let r = Assemble {
            labels: StringHashMap::new(),
            op: StringHashMap::new(),
            iop: StringHashMap::new(),
            program: Vec::new(),
            deferred: Vec::new(),
        };
        assert(r@.deferred =~= Seq::<Deferred>::empty());
        r
    }

    /// Loads the sixteen direct mnemonics and every secondary mnemonic of
    /// the processor.
    pub fn setup(&mut self, proc: &Proc)
        ensures
            final(self)@.ops == with_direct_mnemonics(old(self)@.ops),
            final(self)@.labels == old(self)@.labels,
            final(self)@.program == old(self)@.program,
            final(self)@.deferred == old(self)@.deferred,
            forall|i: int|
                0 <= i < all_ops().len() ==> final(self)@.iops.contains_key(
                    (#[trigger] all_ops()[i]).name_spec(),
                ),
            forall|k: Seq<char>|
                #[trigger] final(self)@.iops.contains_key(k) ==> old(self)@.iops.contains_key(k)
                    || exists|i: int|
                    0 <= i < all_ops().len() && k == (#[trigger] all_ops()[i]).name_spec()
                        && final(self)@.iops[k] == all_ops()[i].code_spec(),
    {
        self.define_op("j", 0x0);
        self.define_op("ldlp", 0x1);
        self.define_op("pfix", 0x2);
        self.define_op("ldnl", 0x3);
        self.define_op("ldc", 0x4);
        self.define_op("ldnlp", 0x5);
        self.define_op("nfix", 0x6);
        self.define_op("ldl", 0x7);
        self.define_op("adc", 0x8);
        self.define_op("call", 0x9);
        self.define_op("cj", 0xA);
        self.define_op("ajw", 0xB);
        self.define_op("eqc", 0xC);
        self.define_op("stl", 0xD);
        self.define_op("stnl", 0xE);
        self.define_op("opr", 0xF);
        let ops = proc.get_indirect_ops();
        let ghost start = self@;
        let mut i: usize = 0;
        while i < ops.len()
            invariant
                ops@.len() == all_ops().len(),
                forall|j: int|
                    0 <= j < ops@.len() ==> (#[trigger] ops@[j]).0@ == all_ops()[j].name_spec()
                        && ops@[j].1 == all_ops()[j].code_spec() as usize,
                i <= ops.len(),
                self@.ops == with_direct_mnemonics(old(self)@.ops),
                self@.labels == old(self)@.labels,
                self@.program == old(self)@.program,
                self@.deferred == old(self)@.deferred,
                start.iops == old(self)@.iops,
                forall|j: int|
                    0 <= j < i ==> self@.iops.contains_key((#[trigger] all_ops()[j]).name_spec()),
                forall|k: Seq<char>|
                    #[trigger] self@.iops.contains_key(k) ==> start.iops.contains_key(k)
                        || exists|j: int|
                        0 <= j < all_ops().len() && k == (#[trigger] all_ops()[j]).name_spec()
                            && self@.iops[k] == all_ops()[j].code_spec(),
            decreases ops.len() - i,
        {
            let (name, code) = &ops[i];
            proof {
                let op = all_ops()[i as int];
                assert(0 <= op.code_spec() < 256) by {
                    assert(op.code_spec() < 256);
                }
            }
            self.define_iop(name.clone(), *code as u8);
            proof {
                assert(self@.iops.contains_key(all_ops()[i as int].name_spec()));
            }
            i = i + 1;
        }
    }

    /// Assembles one source line, defining the labels it declares. Gives
    /// the line's bytes, with a placeholder slot for each operand naming a
    /// label not defined yet, or nothing for a line without instructions.
    pub fn read_line(&mut self, line: &str) -> (r: Result<Option<Vec<u8>>, AsmError>)
        ensures
            ({
                let (st, res) = assemble_from(old(self)@, line_words(line@), 0);
                &&& final(self)@ == st
                &&& match (res, r) {
                    (Ok(bytes), Ok(Some(v))) => bytes.len() > 0 && v@ == bytes,
                    (Ok(bytes), Ok(None)) => bytes.len() == 0,
                    (Err(e), Err(e2)) => e == e2,
                    _ => false,
                }
            }),
    {
        let words = tokenize(line);
        let ghost ws = line_words(line@);
        let mut out: Vec<u8> = Vec::new();
        let mut i: usize = 0;
        proof {
            assert(prepend(out@, assemble_from(self@, ws, 0)) == assemble_from(self@, ws, 0)) by {
                let res = assemble_from(self@, ws, 0);
                match res.1 {
                    Ok(b) => assert(out@ + b =~= b),
                    Err(_) => {},
                }
            }
        }
        while i < words.len()
            invariant
                words@.map_values(|w: String| w@) == ws,
                ws == line_words(line@),
                i <= words.len(),
                assemble_from(old(self)@, ws, 0) == prepend(out@, assemble_from(self@, ws, i as int)),
            decreases words.len() - i,
        {
            let w = words[i].as_str();
            assert(w@ == ws[i as int]);
            let n = w.unicode_len();
            if n > 0 && w.get_char(n - 1) == ':' {
                let name = w.substring_char(0, n - 1).to_owned();
                assert(name@ =~= w@.drop_last());
                self.labels.insert(name, self.program.len() as i32);
                i = i + 1;
            } else {
                let ghost i0 = i as int;
                let ghost st0 = self@;
                let direct = match self.op.get(w) {
                    Some(opcode) => if *opcode < 16 {
                        Some(*opcode)
                    } else {
                        None
                    },
                    None => None,
                };
                let mut later: Option<(u8, String)> = None;
                let bytes = match direct {
                    Some(opcode) => {
                        if i + 1 >= words.len() {
                            return Err(AsmError::MissingOperand);
                        }
                        let arg = words[i + 1].as_str();
                        assert(arg@ == ws[i + 1]);
                        i = i + 2;
                        match parse_int(arg) {
                            Some(v) => prefix_constant(opcode, v),
                            None => match self.labels.get(arg) {
                                Some(v) => prefix_constant(opcode, *v),
                                None => {
                                    later = Some((opcode, arg.to_owned()));
                                    let mut slot: Vec<u8> = Vec::new();
                                    let mut k: usize = 0;
                                    while k < SLOT
                                        invariant
                                            k <= SLOT,
                                            slot@ == Seq::new(k as nat, |j: int| 0x20u8),
                                        decreases SLOT - k,
                                    {
                                        slot.push(0x20);
                                        k = k + 1;
                                        assert(slot@ =~= Seq::new(k as nat, |j: int| 0x20u8));
                                    }
                                    slot
                                },
                            },
                        }
                    },
                    None => match self.iop.get(w) {
                        Some(code) => {
                            i = i + 1;
                            prefix_constant(15, *code as i32)
                        },
                        None => {
                            return Err(AsmError::UnknownMnemonic);
                        },
                    },
                };
                let ghost extra: Seq<Deferred> = deferred_entry(st0.offset(), later);
                assert(assemble_from(st0, ws, i0) == emit(st0, bytes@, extra, ws, i as int));
                let at = self.program.len();
                if at > MAX_OFFSET || bytes.len() > MAX_OFFSET - at {
                    return Err(AsmError::TooLarge);
                }
                let ghost before = out@;
                let ghost emitted = bytes@;
                let mut copy = bytes.clone();
                assert(copy@ =~= emitted);
                let mut bytes = bytes;
                out.append(&mut bytes);
                self.program.append(&mut copy);
                match later {
                    Some((opcode, name)) => {
                        self.deferred.push((at, opcode, name));
                    },
                    None => {},
                }
                proof {
                    assert(self@.deferred =~= st0.deferred + extra);
                    assert(self@ == (AsmView {
                        program: st0.program + emitted,
                        deferred: st0.deferred + extra,
                        ..st0
                    }));
                    let rest = assemble_from(self@, ws, i as int);
                    if i >= ws.len() {
                        assert(before + emitted =~= out@);
                        assert(prepend(before, emit(st0, emitted, extra, ws, i as int)) == prepend(
                            out@,
                            rest,
                        )) by {
                            assert(out@ + Seq::<u8>::empty() =~= out@);
                        }
                    } else {
                        match rest.1 {
                            Ok(b) => {
                                assert(before + (emitted + b) =~= out@ + b);
                            },
                            Err(_) => {},
                        }
                        assert(prepend(before, emit(st0, emitted, extra, ws, i as int)) == prepend(
                            out@,
                            rest,
                        ));
                    }
                }
            }
        }
        proof {
            assert(out@ + Seq::<u8>::empty() =~= out@);
        }
        if out.len() > 0 {
            Ok(Some(out))
        } else {
            Ok(None)
        }
    }

    /// The second pass: the program so far with every deferred operand
    /// encoded with the value its label has now.
    pub fn finish(&self) -> (r: Result<Vec<u8>, AsmError>)
        ensures
            match (resolve(self@), r) {
                (Ok(bytes), Ok(v)) => v@ == bytes,
                (Err(e), Err(e2)) => e == e2,
                _ => false,
            },
    {
        let mut p = self.program.clone();
        assert(p@ =~= self@.program);
        let ghost ds = self@.deferred;
        let mut k: usize = 0;
        while k < self.deferred.len()
            invariant
                ds == self@.deferred,
                k <= self.deferred.len(),
                resolve(self@) == resolve_from(p@, ds, self@.labels, k as int),
            decreases self.deferred.len() - k,
        {
            let (at, op, name) = &self.deferred[k];
            assert(ds[k as int] == (*at as nat, *op, name@));
            if *op >= 16 {
                return Err(AsmError::UnknownMnemonic);
            }
            let v = match self.labels.get(name.as_str()) {
                Some(v) => *v,
                None => {
                    return Err(AsmError::UnresolvedLabel);
                },
            };
            let enc = prefix_constant(*op, v);
            proof {
                crate::laws::lemma_prefix_encoding(*op, v as int);
            }
            let mut fill: Vec<u8> = Vec::new();
            let pad = SLOT - enc.len();
            let mut j: usize = 0;
            while j < pad
                invariant
                    j <= pad,
                    fill@ == Seq::new(j as nat, |x: int| 0x20u8),
                decreases pad - j,
            {
                fill.push(0x20);
                j = j + 1;
                assert(fill@ =~= Seq::new(j as nat, |x: int| 0x20u8));
            }
            let mut enc = enc;
            fill.append(&mut enc);
            let ghost b = slot_bytes(*op, v as int);
            assert(fill@ =~= b);
            let ghost p0 = p@;
            let mut j: usize = 0;
            while j < fill.len()
                invariant
                    fill@ == b,
                    j <= fill.len(),
                    p@ == patch(p0, *at as int, b.take(j as int)),
                decreases fill.len() - j,
            {
                if *at < p.len() && j < p.len() - *at {
                    p.set(*at + j, fill[j]);
                }
                j = j + 1;
                assert(p@ =~= patch(p0, *at as int, b.take(j as int)));
            }
            proof {
                assert(p0 =~= patch(p0, *at as int, b.take(0)));
                assert(b.take(b.len() as int) =~= b);
            }
            k = k + 1;
        }
        Ok(p)
    }

    /// Assembles the source `lines` and then finishes the program.
    pub fn assemble_source(&mut self, lines: &Vec<String>) -> (r: Result<Vec<u8>, AsmError>)
        ensures
            match (program_spec(old(self)@, lines@.map_values(|l: String| l@)), r) {
                (Ok(bytes), Ok(v)) => v@ == bytes,
                (Err(e), Err(e2)) => e == e2,
                _ => false,
            },
    {
        let ghost ls = lines@.map_values(|l: String| l@);
        let mut k: usize = 0;
        while k < lines.len()
            invariant
                ls == lines@.map_values(|l: String| l@),
                k <= lines.len(),
                lines_from(old(self)@, ls, 0) == lines_from(self@, ls, k as int),
            decreases lines.len() - k,
        {
            assert(ls[k as int] == lines@[k as int]@);
            match self.read_line(lines[k].as_str()) {
                Ok(_) => {},
                Err(e) => {
                    return Err(e);
                },
            }
            k = k + 1;
        }
        self.finish()
    }

    fn define_op(&mut self, word: &str, value: u8)
        ensures
            final(self)@ == (AsmView { ops: old(self)@.ops.insert(word@, value), ..old(self)@ }),
    {
        self.op.insert(word.to_owned(), value);
    }

    fn define_iop(&mut self, word: String, value: u8)
        ensures
            final(self)@ == (AsmView { iops: old(self)@.iops.insert(word@, value), ..old(self)@ }),
    {
        self.iop.insert(word, value);
    }
}

} // verus!
