//! Short names of the direct instructions, for listings.
use crate::proc::DirectOp;
use vstd::prelude::*;

verus! {

/// The short name of a direct instruction.
pub open spec fn direct_op_name(op: DirectOp) -> Seq<char> {
    match op {
        DirectOp::JUMP => "jump"@,
        DirectOp::CJ => "cj"@,
        DirectOp::LDLP => "ldlp"@,
        DirectOp::PFIX => "pfix"@,
        DirectOp::LDNL => "ldnl"@,
        DirectOp::LDC => "ldc"@,
        DirectOp::LDNLP => "ldnlp"@,
        DirectOp::NFIX => "nfix"@,
        DirectOp::LDL => "ldl"@,
        DirectOp::AJW => "ajw"@,
        DirectOp::CALL => "call"@,
        DirectOp::EQC => "eqc"@,
        DirectOp::STL => "stl"@,
        DirectOp::ADC => "adc"@,
        DirectOp::STNL => "stnl"@,
        DirectOp::OPR => "opr"@,
    }
}

/// The short name of a direct instruction.
pub fn direct_op_short_name(op: DirectOp) -> (r: String)
    ensures
        r@ == direct_op_name(op),
{
    let name = match op {
        DirectOp::JUMP => "jump",
        DirectOp::CJ => "cj",
        DirectOp::LDLP => "ldlp",
        DirectOp::PFIX => "pfix",
        DirectOp::LDNL => "ldnl",
        DirectOp::LDC => "ldc",
        DirectOp::LDNLP => "ldnlp",
        DirectOp::NFIX => "nfix",
        DirectOp::LDL => "ldl",
        DirectOp::AJW => "ajw",
        DirectOp::CALL => "call",
        DirectOp::EQC => "eqc",
        DirectOp::STL => "stl",
        DirectOp::ADC => "adc",
        DirectOp::STNL => "stnl",
        DirectOp::OPR => "opr",
    };
    name.to_owned()
}

} // verus!
