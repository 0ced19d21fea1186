//! Splitting an instruction byte into its direct opcode and operand nibble.
use crate::proc::semantics::decode_spec;
use crate::proc::DirectOp;
use vstd::prelude::*;

verus! {

/// The direct instruction in the high nibble of `v` and the operand nibble
/// in its low nibble.
pub fn parse_op_from_hex(v: u8) -> (r: (DirectOp, u8))
    ensures
        r.0 == decode_spec(v),
        r.1 == v % 16,
{
    let value = v & 0b1111;
    let o = v >> 4u8;
    assert(v & 0b1111 == v % 16 && v >> 4u8 == v / 16) by (bit_vector);
    let op = if o == 0 {
        DirectOp::JUMP
    } else if o == 1 {
        DirectOp::LDLP
    } else if o == 2 {
        DirectOp::PFIX
    } else if o == 3 {
        DirectOp::LDNL
    } else if o == 4 {
        DirectOp::LDC
    } else if o == 5 {
        DirectOp::LDNLP
    } else if o == 6 {
        DirectOp::NFIX
    } else if o == 7 {
        DirectOp::LDL
    } else if o == 8 {
        DirectOp::ADC
    } else if o == 9 {
        DirectOp::CALL
    } else if o == 10 {
        DirectOp::CJ
    } else if o == 11 {
        DirectOp::AJW
    } else if o == 12 {
        DirectOp::EQC
    } else if o == 13 {
        DirectOp::STL
    } else if o == 14 {
        DirectOp::STNL
    } else {
        DirectOp::OPR
    };
    (op, value)
}

} // verus!
