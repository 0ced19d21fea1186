//! The secondary instructions selected by the operand of `OPR`: their codes
//! and their mnemonics.
use vstd::prelude::*;

verus! {

/// A secondary (operate) instruction.
///
/// There is no OR: operand 0x4B selects AND (as does 0x46), so that
/// `PFIX 4; OPR 0xB` computes the bitwise AND of A and B.
#[derive(Clone, Copy, Debug, PartialEq, Eq, Structural)]
pub enum IndirectOp {
    REV,
    LB,
    BSUB,
    ENDP,
    DIFF,
    ADD,
    GCALL,
    PROD,
    GT,
    WSUB,
    SUB,
    STARTP,
    SETERR,
    RESETCH,
    CSUB0,
    STOPP,
    LADD,
    STLB,
    STHF,
    NORM,
    LDPI,
    STLF,
    XDBLE,
    LDPRI,
    REM,
    RET,
    LEND,
    LDTIMER,
    CLRHALTERR,
    TESTERR,
    TIN,
    DIV,
    DIST,
    DISC,
    DISS,
    NOT,
    XOR,
    BCNT,
    RUNP,
    XWORD,
    SB,
    GAJW,
    SAVEL,
    SAVEH,
    WCNT,
    SHR,
    SHL,
    MINT,
    ALT,
    ALTWT,
    ALTEND,
    AND,
    ENBT,
    ENBC,
    ENBS,
    MOVE,
    CSNGL,
    CCNT1,
    TALT,
    STHB,
    TALTWT,
    SUM,
    MUL,
    CWORD,
    DUP,
    CRCWORD,
    CRCBYTE,
    BITCNT,
    BITREVWORD,
    BITREVNBITS,
}

impl IndirectOp {
    /// The instruction that operand `e` selects, if any.
    pub open spec fn from_code_spec(e: i32) -> Option<IndirectOp> {
        if e == 0x00 {
            Some(IndirectOp::REV)
        } else if e == 0x01 {
            Some(IndirectOp::LB)
        } else if e == 0x02 {
            Some(IndirectOp::BSUB)
        } else if e == 0x03 {
            Some(IndirectOp::ENDP)
        } else if e == 0x04 {
            Some(IndirectOp::DIFF)
        } else if e == 0x05 {
            Some(IndirectOp::ADD)
        } else if e == 0x06 {
            Some(IndirectOp::GCALL)
        } else if e == 0x08 {
            Some(IndirectOp::PROD)
        } else if e == 0x09 {
            Some(IndirectOp::GT)
        } else if e == 0x0A {
            Some(IndirectOp::WSUB)
        } else if e == 0x0C {
            Some(IndirectOp::SUB)
        } else if e == 0x0D {
            Some(IndirectOp::STARTP)
        } else if e == 0x10 {
            Some(IndirectOp::SETERR)
        } else if e == 0x12 {
            Some(IndirectOp::RESETCH)
        } else if e == 0x13 {
            Some(IndirectOp::CSUB0)
        } else if e == 0x15 {
            Some(IndirectOp::STOPP)
        } else if e == 0x16 {
            Some(IndirectOp::LADD)
        } else if e == 0x17 {
            Some(IndirectOp::STLB)
        } else if e == 0x18 {
            Some(IndirectOp::STHF)
        } else if e == 0x19 {
            Some(IndirectOp::NORM)
        } else if e == 0x1B {
            Some(IndirectOp::LDPI)
        } else if e == 0x1C {
            Some(IndirectOp::STLF)
        } else if e == 0x1D {
            Some(IndirectOp::XDBLE)
        } else if e == 0x1E {
            Some(IndirectOp::LDPRI)
        } else if e == 0x1F {
            Some(IndirectOp::REM)
        } else if e == 0x20 {
            Some(IndirectOp::RET)
        } else if e == 0x21 {
            Some(IndirectOp::LEND)
        } else if e == 0x22 {
            Some(IndirectOp::LDTIMER)
        } else if e == 0x27 {
            Some(IndirectOp::CLRHALTERR)
        } else if e == 0x29 {
            Some(IndirectOp::TESTERR)
        } else if e == 0x2B {
            Some(IndirectOp::TIN)
        } else if e == 0x2C {
            Some(IndirectOp::DIV)
        } else if e == 0x2E {
            Some(IndirectOp::DIST)
        } else if e == 0x2F {
            Some(IndirectOp::DISC)
        } else if e == 0x30 {
            Some(IndirectOp::DISS)
        } else if e == 0x32 {
            Some(IndirectOp::NOT)
        } else if e == 0x33 {
            Some(IndirectOp::XOR)
        } else if e == 0x34 {
            Some(IndirectOp::BCNT)
        } else if e == 0x39 {
            Some(IndirectOp::RUNP)
        } else if e == 0x3A {
            Some(IndirectOp::XWORD)
        } else if e == 0x3B {
            Some(IndirectOp::SB)
        } else if e == 0x3C {
            Some(IndirectOp::GAJW)
        } else if e == 0x3D {
            Some(IndirectOp::SAVEL)
        } else if e == 0x3E {
            Some(IndirectOp::SAVEH)
        } else if e == 0x3F {
            Some(IndirectOp::WCNT)
        } else if e == 0x40 {
            Some(IndirectOp::SHR)
        } else if e == 0x41 {
            Some(IndirectOp::SHL)
        } else if e == 0x42 {
            Some(IndirectOp::MINT)
        } else if e == 0x43 {
            Some(IndirectOp::ALT)
        } else if e == 0x44 {
            Some(IndirectOp::ALTWT)
        } else if e == 0x45 {
            Some(IndirectOp::ALTEND)
        } else if e == 0x46 {
            Some(IndirectOp::AND)
        } else if e == 0x47 {
            Some(IndirectOp::ENBT)
        } else if e == 0x48 {
            Some(IndirectOp::ENBC)
        } else if e == 0x49 {
            Some(IndirectOp::ENBS)
        } else if e == 0x4A {
            Some(IndirectOp::MOVE)
        } else if e == 0x4B {
            Some(IndirectOp::AND)
        } else if e == 0x4C {
            Some(IndirectOp::CSNGL)
        } else if e == 0x4D {
            Some(IndirectOp::CCNT1)
        } else if e == 0x4E {
            Some(IndirectOp::TALT)
        } else if e == 0x50 {
            Some(IndirectOp::STHB)
        } else if e == 0x51 {
            Some(IndirectOp::TALTWT)
        } else if e == 0x52 {
            Some(IndirectOp::SUM)
        } else if e == 0x53 {
            Some(IndirectOp::MUL)
        } else if e == 0x56 {
            Some(IndirectOp::CWORD)
        } else if e == 0x5A {
            Some(IndirectOp::DUP)
        } else if e == 0x74 {
            Some(IndirectOp::CRCWORD)
        } else if e == 0x75 {
            Some(IndirectOp::CRCBYTE)
        } else if e == 0x76 {
            Some(IndirectOp::BITCNT)
        } else if e == 0x77 {
            Some(IndirectOp::BITREVWORD)
        } else if e == 0x78 {
            Some(IndirectOp::BITREVNBITS)
        } else if e == 0xF2 {
            Some(IndirectOp::BSUB)
        } else if e == 0xF6 {
            Some(IndirectOp::BITCNT)
        } else if e == 0xF7 {
            Some(IndirectOp::BITREVWORD)
        } else if e == 0xF8 {
            Some(IndirectOp::BITREVNBITS)
        } else {
            None
        }
    }

    /// Decodes the operand of `OPR`.
    pub fn from_code(e: i32) -> (r: Option<IndirectOp>)
        ensures
            r == IndirectOp::from_code_spec(e),
    {
        if e == 0x00 {
            Some(IndirectOp::REV)
        } else if e == 0x01 {
            Some(IndirectOp::LB)
        } else if e == 0x02 {
            Some(IndirectOp::BSUB)
        } else if e == 0x03 {
            Some(IndirectOp::ENDP)
        } else if e == 0x04 {
            Some(IndirectOp::DIFF)
        } else if e == 0x05 {
            Some(IndirectOp::ADD)
        } else if e == 0x06 {
            Some(IndirectOp::GCALL)
        } else if e == 0x08 {
            Some(IndirectOp::PROD)
        } else if e == 0x09 {
            Some(IndirectOp::GT)
        } else if e == 0x0A {
            Some(IndirectOp::WSUB)
        } else if e == 0x0C {
            Some(IndirectOp::SUB)
        } else if e == 0x0D {
            Some(IndirectOp::STARTP)
        } else if e == 0x10 {
            Some(IndirectOp::SETERR)
        } else if e == 0x12 {
            Some(IndirectOp::RESETCH)
        } else if e == 0x13 {
            Some(IndirectOp::CSUB0)
        } else if e == 0x15 {
            Some(IndirectOp::STOPP)
        } else if e == 0x16 {
            Some(IndirectOp::LADD)
        } else if e == 0x17 {
            Some(IndirectOp::STLB)
        } else if e == 0x18 {
            Some(IndirectOp::STHF)
        } else if e == 0x19 {
            Some(IndirectOp::NORM)
        } else if e == 0x1B {
            Some(IndirectOp::LDPI)
        } else if e == 0x1C {
            Some(IndirectOp::STLF)
        } else if e == 0x1D {
            Some(IndirectOp::XDBLE)
        } else if e == 0x1E {
            Some(IndirectOp::LDPRI)
        } else if e == 0x1F {
            Some(IndirectOp::REM)
        } else if e == 0x20 {
            Some(IndirectOp::RET)
        } else if e == 0x21 {
            Some(IndirectOp::LEND)
        } else if e == 0x22 {
            Some(IndirectOp::LDTIMER)
        } else if e == 0x27 {
            Some(IndirectOp::CLRHALTERR)
        } else if e == 0x29 {
            Some(IndirectOp::TESTERR)
        } else if e == 0x2B {
            Some(IndirectOp::TIN)
        } else if e == 0x2C {
            Some(IndirectOp::DIV)
        } else if e == 0x2E {
            Some(IndirectOp::DIST)
        } else if e == 0x2F {
            Some(IndirectOp::DISC)
        } else if e == 0x30 {
            Some(IndirectOp::DISS)
        } else if e == 0x32 {
            Some(IndirectOp::NOT)
        } else if e == 0x33 {
            Some(IndirectOp::XOR)
        } else if e == 0x34 {
            Some(IndirectOp::BCNT)
        } else if e == 0x39 {
            Some(IndirectOp::RUNP)
        } else if e == 0x3A {
            Some(IndirectOp::XWORD)
        } else if e == 0x3B {
            Some(IndirectOp::SB)
        } else if e == 0x3C {
            Some(IndirectOp::GAJW)
        } else if e == 0x3D {
            Some(IndirectOp::SAVEL)
        } else if e == 0x3E {
            Some(IndirectOp::SAVEH)
        } else if e == 0x3F {
            Some(IndirectOp::WCNT)
        } else if e == 0x40 {
            Some(IndirectOp::SHR)
        } else if e == 0x41 {
            Some(IndirectOp::SHL)
        } else if e == 0x42 {
            Some(IndirectOp::MINT)
        } else if e == 0x43 {
            Some(IndirectOp::ALT)
        } else if e == 0x44 {
            Some(IndirectOp::ALTWT)
        } else if e == 0x45 {
            Some(IndirectOp::ALTEND)
        } else if e == 0x46 {
            Some(IndirectOp::AND)
        } else if e == 0x47 {
            Some(IndirectOp::ENBT)
        } else if e == 0x48 {
            Some(IndirectOp::ENBC)
        } else if e == 0x49 {
            Some(IndirectOp::ENBS)
        } else if e == 0x4A {
            Some(IndirectOp::MOVE)
        } else if e == 0x4B {
            Some(IndirectOp::AND)
        } else if e == 0x4C {
            Some(IndirectOp::CSNGL)
        } else if e == 0x4D {
            Some(IndirectOp::CCNT1)
        } else if e == 0x4E {
            Some(IndirectOp::TALT)
        } else if e == 0x50 {
            Some(IndirectOp::STHB)
        } else if e == 0x51 {
            Some(IndirectOp::TALTWT)
        } else if e == 0x52 {
            Some(IndirectOp::SUM)
        } else if e == 0x53 {
            Some(IndirectOp::MUL)
        } else if e == 0x56 {
            Some(IndirectOp::CWORD)
        } else if e == 0x5A {
            Some(IndirectOp::DUP)
        } else if e == 0x74 {
            Some(IndirectOp::CRCWORD)
        } else if e == 0x75 {
            Some(IndirectOp::CRCBYTE)
        } else if e == 0x76 {
            Some(IndirectOp::BITCNT)
        } else if e == 0x77 {
            Some(IndirectOp::BITREVWORD)
        } else if e == 0x78 {
            Some(IndirectOp::BITREVNBITS)
        } else if e == 0xF2 {
            Some(IndirectOp::BSUB)
        } else if e == 0xF6 {
            Some(IndirectOp::BITCNT)
        } else if e == 0xF7 {
            Some(IndirectOp::BITREVWORD)
        } else if e == 0xF8 {
            Some(IndirectOp::BITREVNBITS)
        } else {
            None
        }
    }

    /// The operand that selects this instruction.
    pub open spec fn code_spec(self) -> i32 {
        match self {
            IndirectOp::REV => 0x00,
            IndirectOp::LB => 0x01,
            IndirectOp::BSUB => 0x02,
            IndirectOp::ENDP => 0x03,
            IndirectOp::DIFF => 0x04,
            IndirectOp::ADD => 0x05,
            IndirectOp::GCALL => 0x06,
            IndirectOp::PROD => 0x08,
            IndirectOp::GT => 0x09,
            IndirectOp::WSUB => 0x0A,
            IndirectOp::SUB => 0x0C,
            IndirectOp::STARTP => 0x0D,
            IndirectOp::SETERR => 0x10,
            IndirectOp::RESETCH => 0x12,
            IndirectOp::CSUB0 => 0x13,
            IndirectOp::STOPP => 0x15,
            IndirectOp::LADD => 0x16,
            IndirectOp::STLB => 0x17,
            IndirectOp::STHF => 0x18,
            IndirectOp::NORM => 0x19,
            IndirectOp::LDPI => 0x1B,
            IndirectOp::STLF => 0x1C,
            IndirectOp::XDBLE => 0x1D,
            IndirectOp::LDPRI => 0x1E,
            IndirectOp::REM => 0x1F,
            IndirectOp::RET => 0x20,
            IndirectOp::LEND => 0x21,
            IndirectOp::LDTIMER => 0x22,
            IndirectOp::CLRHALTERR => 0x27,
            IndirectOp::TESTERR => 0x29,
            IndirectOp::TIN => 0x2B,
            IndirectOp::DIV => 0x2C,
            IndirectOp::DIST => 0x2E,
            IndirectOp::DISC => 0x2F,
            IndirectOp::DISS => 0x30,
            IndirectOp::NOT => 0x32,
            IndirectOp::XOR => 0x33,
            IndirectOp::BCNT => 0x34,
            IndirectOp::RUNP => 0x39,
            IndirectOp::XWORD => 0x3A,
            IndirectOp::SB => 0x3B,
            IndirectOp::GAJW => 0x3C,
            IndirectOp::SAVEL => 0x3D,
            IndirectOp::SAVEH => 0x3E,
            IndirectOp::WCNT => 0x3F,
            IndirectOp::SHR => 0x40,
            IndirectOp::SHL => 0x41,
            IndirectOp::MINT => 0x42,
            IndirectOp::ALT => 0x43,
            IndirectOp::ALTWT => 0x44,
            IndirectOp::ALTEND => 0x45,
            IndirectOp::AND => 0x46,
            IndirectOp::ENBT => 0x47,
            IndirectOp::ENBC => 0x48,
            IndirectOp::ENBS => 0x49,
            IndirectOp::MOVE => 0x4A,
            IndirectOp::CSNGL => 0x4C,
            IndirectOp::CCNT1 => 0x4D,
            IndirectOp::TALT => 0x4E,
            IndirectOp::STHB => 0x50,
            IndirectOp::TALTWT => 0x51,
            IndirectOp::SUM => 0x52,
            IndirectOp::MUL => 0x53,
            IndirectOp::CWORD => 0x56,
            IndirectOp::DUP => 0x5A,
            IndirectOp::CRCWORD => 0x74,
            IndirectOp::CRCBYTE => 0x75,
            IndirectOp::BITCNT => 0x76,
            IndirectOp::BITREVWORD => 0x77,
            IndirectOp::BITREVNBITS => 0x78,
        }
    }

    /// The operand that selects this instruction.
    pub fn code(&self) -> (r: i32)
        ensures
            r == self.code_spec(),
    {
        match self {
            IndirectOp::REV => 0x00,
            IndirectOp::LB => 0x01,
            IndirectOp::BSUB => 0x02,
            IndirectOp::ENDP => 0x03,
            IndirectOp::DIFF => 0x04,
            IndirectOp::ADD => 0x05,
            IndirectOp::GCALL => 0x06,
            IndirectOp::PROD => 0x08,
            IndirectOp::GT => 0x09,
            IndirectOp::WSUB => 0x0A,
            IndirectOp::SUB => 0x0C,
            IndirectOp::STARTP => 0x0D,
            IndirectOp::SETERR => 0x10,
            IndirectOp::RESETCH => 0x12,
            IndirectOp::CSUB0 => 0x13,
            IndirectOp::STOPP => 0x15,
            IndirectOp::LADD => 0x16,
            IndirectOp::STLB => 0x17,
            IndirectOp::STHF => 0x18,
            IndirectOp::NORM => 0x19,
            IndirectOp::LDPI => 0x1B,
            IndirectOp::STLF => 0x1C,
            IndirectOp::XDBLE => 0x1D,
            IndirectOp::LDPRI => 0x1E,
            IndirectOp::REM => 0x1F,
            IndirectOp::RET => 0x20,
            IndirectOp::LEND => 0x21,
            IndirectOp::LDTIMER => 0x22,
            IndirectOp::CLRHALTERR => 0x27,
            IndirectOp::TESTERR => 0x29,
            IndirectOp::TIN => 0x2B,
            IndirectOp::DIV => 0x2C,
            IndirectOp::DIST => 0x2E,
            IndirectOp::DISC => 0x2F,
            IndirectOp::DISS => 0x30,
            IndirectOp::NOT => 0x32,
            IndirectOp::XOR => 0x33,
            IndirectOp::BCNT => 0x34,
            IndirectOp::RUNP => 0x39,
            IndirectOp::XWORD => 0x3A,
            IndirectOp::SB => 0x3B,
            IndirectOp::GAJW => 0x3C,
            IndirectOp::SAVEL => 0x3D,
            IndirectOp::SAVEH => 0x3E,
            IndirectOp::WCNT => 0x3F,
            IndirectOp::SHR => 0x40,
            IndirectOp::SHL => 0x41,
            IndirectOp::MINT => 0x42,
            IndirectOp::ALT => 0x43,
            IndirectOp::ALTWT => 0x44,
            IndirectOp::ALTEND => 0x45,
            IndirectOp::AND => 0x46,
            IndirectOp::ENBT => 0x47,
            IndirectOp::ENBC => 0x48,
            IndirectOp::ENBS => 0x49,
            IndirectOp::MOVE => 0x4A,
            IndirectOp::CSNGL => 0x4C,
            IndirectOp::CCNT1 => 0x4D,
            IndirectOp::TALT => 0x4E,
            IndirectOp::STHB => 0x50,
            IndirectOp::TALTWT => 0x51,
            IndirectOp::SUM => 0x52,
            IndirectOp::MUL => 0x53,
            IndirectOp::CWORD => 0x56,
            IndirectOp::DUP => 0x5A,
            IndirectOp::CRCWORD => 0x74,
            IndirectOp::CRCBYTE => 0x75,
            IndirectOp::BITCNT => 0x76,
            IndirectOp::BITREVWORD => 0x77,
            IndirectOp::BITREVNBITS => 0x78,
        }
    }

    /// The mnemonic of this instruction.
    pub open spec fn name_spec(self) -> Seq<char> {
        match self {
            IndirectOp::REV => "rev"@,
            IndirectOp::LB => "lb"@,
            IndirectOp::BSUB => "bsub"@,
            IndirectOp::ENDP => "endp"@,
            IndirectOp::DIFF => "diff"@,
            IndirectOp::ADD => "add"@,
            IndirectOp::GCALL => "gcall"@,
            IndirectOp::PROD => "prod"@,
            IndirectOp::GT => "gt"@,
            IndirectOp::WSUB => "wsub"@,
            IndirectOp::SUB => "sub"@,
            IndirectOp::STARTP => "startp"@,
            IndirectOp::SETERR => "seterr"@,
            IndirectOp::RESETCH => "resetch"@,
            IndirectOp::CSUB0 => "csub0"@,
            IndirectOp::STOPP => "stopp"@,
            IndirectOp::LADD => "ladd"@,
            IndirectOp::STLB => "stlb"@,
            IndirectOp::STHF => "sthf"@,
            IndirectOp::NORM => "norm"@,
            IndirectOp::LDPI => "ldpi"@,
            IndirectOp::STLF => "stlf"@,
            IndirectOp::XDBLE => "xdble"@,
            IndirectOp::LDPRI => "ldpri"@,
            IndirectOp::REM => "rem"@,
            IndirectOp::RET => "ret"@,
            IndirectOp::LEND => "lend"@,
            IndirectOp::LDTIMER => "ldtimer"@,
            IndirectOp::CLRHALTERR => "clrhalterr"@,
            IndirectOp::TESTERR => "testerr"@,
            IndirectOp::TIN => "tin"@,
            IndirectOp::DIV => "div"@,
            IndirectOp::DIST => "dist"@,
            IndirectOp::DISC => "disc"@,
            IndirectOp::DISS => "diss"@,
            IndirectOp::NOT => "not"@,
            IndirectOp::XOR => "xor"@,
            IndirectOp::BCNT => "bcnt"@,
            IndirectOp::RUNP => "runp"@,
            IndirectOp::XWORD => "xword"@,
            IndirectOp::SB => "sb"@,
            IndirectOp::GAJW => "gajw"@,
            IndirectOp::SAVEL => "savel"@,
            IndirectOp::SAVEH => "saveh"@,
            IndirectOp::WCNT => "wcnt"@,
            IndirectOp::SHR => "shr"@,
            IndirectOp::SHL => "shl"@,
            IndirectOp::MINT => "mint"@,
            IndirectOp::ALT => "alt"@,
            IndirectOp::ALTWT => "altwt"@,
            IndirectOp::ALTEND => "altend"@,
            IndirectOp::AND => "and"@,
            IndirectOp::ENBT => "enbt"@,
            IndirectOp::ENBC => "enbc"@,
            IndirectOp::ENBS => "enbs"@,
            IndirectOp::MOVE => "move"@,
            IndirectOp::CSNGL => "csngl"@,
            IndirectOp::CCNT1 => "ccnt1"@,
            IndirectOp::TALT => "talt"@,
            IndirectOp::STHB => "sthb"@,
            IndirectOp::TALTWT => "taltwt"@,
            IndirectOp::SUM => "sum"@,
            IndirectOp::MUL => "mul"@,
            IndirectOp::CWORD => "cword"@,
            IndirectOp::DUP => "dup"@,
            IndirectOp::CRCWORD => "crcword"@,
            IndirectOp::CRCBYTE => "crcbyte"@,
            IndirectOp::BITCNT => "bitcnt"@,
            IndirectOp::BITREVWORD => "bitrevword"@,
            IndirectOp::BITREVNBITS => "bitrevnbits"@,
        }
    }

    /// The mnemonic of this instruction.
    pub fn name(&self) -> (r: &'static str)
        ensures
            r@ == self.name_spec(),
    {
        match self {
            IndirectOp::REV => "rev",
            IndirectOp::LB => "lb",
            IndirectOp::BSUB => "bsub",
            IndirectOp::ENDP => "endp",
            IndirectOp::DIFF => "diff",
            IndirectOp::ADD => "add",
            IndirectOp::GCALL => "gcall",
            IndirectOp::PROD => "prod",
            IndirectOp::GT => "gt",
            IndirectOp::WSUB => "wsub",
            IndirectOp::SUB => "sub",
            IndirectOp::STARTP => "startp",
            IndirectOp::SETERR => "seterr",
            IndirectOp::RESETCH => "resetch",
            IndirectOp::CSUB0 => "csub0",
            IndirectOp::STOPP => "stopp",
            IndirectOp::LADD => "ladd",
            IndirectOp::STLB => "stlb",
            IndirectOp::STHF => "sthf",
            IndirectOp::NORM => "norm",
            IndirectOp::LDPI => "ldpi",
            IndirectOp::STLF => "stlf",
            IndirectOp::XDBLE => "xdble",
            IndirectOp::LDPRI => "ldpri",
            IndirectOp::REM => "rem",
            IndirectOp::RET => "ret",
            IndirectOp::LEND => "lend",
            IndirectOp::LDTIMER => "ldtimer",
            IndirectOp::CLRHALTERR => "clrhalterr",
            IndirectOp::TESTERR => "testerr",
            IndirectOp::TIN => "tin",
            IndirectOp::DIV => "div",
            IndirectOp::DIST => "dist",
            IndirectOp::DISC => "disc",
            IndirectOp::DISS => "diss",
            IndirectOp::NOT => "not",
            IndirectOp::XOR => "xor",
            IndirectOp::BCNT => "bcnt",
            IndirectOp::RUNP => "runp",
            IndirectOp::XWORD => "xword",
            IndirectOp::SB => "sb",
            IndirectOp::GAJW => "gajw",
            IndirectOp::SAVEL => "savel",
            IndirectOp::SAVEH => "saveh",
            IndirectOp::WCNT => "wcnt",
            IndirectOp::SHR => "shr",
            IndirectOp::SHL => "shl",
            IndirectOp::MINT => "mint",
            IndirectOp::ALT => "alt",
            IndirectOp::ALTWT => "altwt",
            IndirectOp::ALTEND => "altend",
            IndirectOp::AND => "and",
            IndirectOp::ENBT => "enbt",
            IndirectOp::ENBC => "enbc",
            IndirectOp::ENBS => "enbs",
            IndirectOp::MOVE => "move",
            IndirectOp::CSNGL => "csngl",
            IndirectOp::CCNT1 => "ccnt1",
            IndirectOp::TALT => "talt",
            IndirectOp::STHB => "sthb",
            IndirectOp::TALTWT => "taltwt",
            IndirectOp::SUM => "sum",
            IndirectOp::MUL => "mul",
            IndirectOp::CWORD => "cword",
            IndirectOp::DUP => "dup",
            IndirectOp::CRCWORD => "crcword",
            IndirectOp::CRCBYTE => "crcbyte",
            IndirectOp::BITCNT => "bitcnt",
            IndirectOp::BITREVWORD => "bitrevword",
            IndirectOp::BITREVNBITS => "bitrevnbits",
        }
    }

    /// Instructions whose opcode is reserved but which the machine does not carry out.
    pub open spec fn is_reserved(self) -> bool {
        match self {
            IndirectOp::DIST
            | IndirectOp::DISC
            | IndirectOp::DISS
            | IndirectOp::ALT
            | IndirectOp::ALTWT
            | IndirectOp::ALTEND
            | IndirectOp::ENBT
            | IndirectOp::ENBC
            | IndirectOp::ENBS
            | IndirectOp::TALT
            | IndirectOp::TALTWT
            | IndirectOp::CRCWORD
            | IndirectOp::CRCBYTE => true,
            _ => false,
        }
    }
}

impl IndirectOp {
    /// Every secondary instruction, in order of its code.
    pub fn all() -> (r: Vec<IndirectOp>)
        ensures
            r@ == all_ops(),
    {
        let r = vec![
            IndirectOp::REV,
            IndirectOp::LB,
            IndirectOp::BSUB,
            IndirectOp::ENDP,
            IndirectOp::DIFF,
            IndirectOp::ADD,
            IndirectOp::GCALL,
            IndirectOp::PROD,
            IndirectOp::GT,
            IndirectOp::WSUB,
            IndirectOp::SUB,
            IndirectOp::STARTP,
            IndirectOp::SETERR,
            IndirectOp::RESETCH,
            IndirectOp::CSUB0,
            IndirectOp::STOPP,
            IndirectOp::LADD,
            IndirectOp::STLB,
            IndirectOp::STHF,
            IndirectOp::NORM,
            IndirectOp::LDPI,
            IndirectOp::STLF,
            IndirectOp::XDBLE,
            IndirectOp::LDPRI,
            IndirectOp::REM,
            IndirectOp::RET,
            IndirectOp::LEND,
            IndirectOp::LDTIMER,
            IndirectOp::CLRHALTERR,
            IndirectOp::TESTERR,
            IndirectOp::TIN,
            IndirectOp::DIV,
            IndirectOp::DIST,
            IndirectOp::DISC,
            IndirectOp::DISS,
            IndirectOp::NOT,
            IndirectOp::XOR,
            IndirectOp::BCNT,
            IndirectOp::RUNP,
            IndirectOp::XWORD,
            IndirectOp::SB,
            IndirectOp::GAJW,
            IndirectOp::SAVEL,
            IndirectOp::SAVEH,
            IndirectOp::WCNT,
            IndirectOp::SHR,
            IndirectOp::SHL,
            IndirectOp::MINT,
            IndirectOp::ALT,
            IndirectOp::ALTWT,
            IndirectOp::ALTEND,
            IndirectOp::AND,
            IndirectOp::ENBT,
            IndirectOp::ENBC,
            IndirectOp::ENBS,
            IndirectOp::MOVE,
            IndirectOp::CSNGL,
            IndirectOp::CCNT1,
            IndirectOp::TALT,
            IndirectOp::STHB,
            IndirectOp::TALTWT,
            IndirectOp::SUM,
            IndirectOp::MUL,
            IndirectOp::CWORD,
            IndirectOp::DUP,
            IndirectOp::CRCWORD,
            IndirectOp::CRCBYTE,
            IndirectOp::BITCNT,
            IndirectOp::BITREVWORD,
            IndirectOp::BITREVNBITS
        ];
        assert(r@ =~= all_ops());
        r
    }
}

/// Every secondary instruction, in order of its code.
pub open spec fn all_ops() -> Seq<IndirectOp> {
    seq![
        IndirectOp::REV,
        IndirectOp::LB,
        IndirectOp::BSUB,
        IndirectOp::ENDP,
        IndirectOp::DIFF,
        IndirectOp::ADD,
        IndirectOp::GCALL,
        IndirectOp::PROD,
        IndirectOp::GT,
        IndirectOp::WSUB,
        IndirectOp::SUB,
        IndirectOp::STARTP,
        IndirectOp::SETERR,
        IndirectOp::RESETCH,
        IndirectOp::CSUB0,
        IndirectOp::STOPP,
        IndirectOp::LADD,
        IndirectOp::STLB,
        IndirectOp::STHF,
        IndirectOp::NORM,
        IndirectOp::LDPI,
        IndirectOp::STLF,
        IndirectOp::XDBLE,
        IndirectOp::LDPRI,
        IndirectOp::REM,
        IndirectOp::RET,
        IndirectOp::LEND,
        IndirectOp::LDTIMER,
        IndirectOp::CLRHALTERR,
        IndirectOp::TESTERR,
        IndirectOp::TIN,
        IndirectOp::DIV,
        IndirectOp::DIST,
        IndirectOp::DISC,
        IndirectOp::DISS,
        IndirectOp::NOT,
        IndirectOp::XOR,
        IndirectOp::BCNT,
        IndirectOp::RUNP,
        IndirectOp::XWORD,
        IndirectOp::SB,
        IndirectOp::GAJW,
        IndirectOp::SAVEL,
        IndirectOp::SAVEH,
        IndirectOp::WCNT,
        IndirectOp::SHR,
        IndirectOp::SHL,
        IndirectOp::MINT,
        IndirectOp::ALT,
        IndirectOp::ALTWT,
        IndirectOp::ALTEND,
        IndirectOp::AND,
        IndirectOp::ENBT,
        IndirectOp::ENBC,
        IndirectOp::ENBS,
        IndirectOp::MOVE,
        IndirectOp::CSNGL,
        IndirectOp::CCNT1,
        IndirectOp::TALT,
        IndirectOp::STHB,
        IndirectOp::TALTWT,
        IndirectOp::SUM,
        IndirectOp::MUL,
        IndirectOp::CWORD,
        IndirectOp::DUP,
        IndirectOp::CRCWORD,
        IndirectOp::CRCBYTE,
        IndirectOp::BITCNT,
        IndirectOp::BITREVWORD,
        IndirectOp::BITREVNBITS
    ]
}

} // verus!
