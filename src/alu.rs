//! The 16-bit arithmetic/logic unit.

use vstd::prelude::*;

use crate::types::{AluOperation, AluOutput};

verus! {

/// Bit 15 of a word: the sign bit.
pub open spec fn sign_bit(w: u16) -> bool {
    w & 0x8000 != 0
}

/// `a` shifted right by `b` with sign extension: the vacated high bits take
/// the value of bit 15 of `a`; from 16 on every bit does.
pub open spec fn shift_right_arithmetic(a: u16, b: u16) -> u16 {
    if b >= 16 {
        if sign_bit(a) {
            0xFFFF
        } else {
            0
        }
    } else if sign_bit(a) {
        (a >> b) | !(0xFFFFu16 >> b)
    } else {
        a >> b
    }
}

/// The 16-bit result of `op` on `a` and `b`.
pub open spec fn alu_result(a: u16, b: u16, op: AluOperation) -> u16 {
    match op {
        AluOperation::Add => ((a + b) % 0x10000) as u16,
        AluOperation::Subtract => ((a - b) % 0x10000) as u16,
        AluOperation::And => a & b,
        AluOperation::Or => a | b,
        AluOperation::ShiftLeft => if b < 16 {
            a << b
        } else {
            0
        },
        AluOperation::ShiftRightLogical => if b < 16 {
            a >> b
        } else {
            0
        },
        AluOperation::ShiftRightArithmetic => shift_right_arithmetic(a, b),
        AluOperation::Inactive => 0,
    }
}

/// The carry flag: unsigned overflow of an addition, borrow of a
/// subtraction; no other operation sets it.
pub open spec fn alu_carry(a: u16, b: u16, op: AluOperation) -> bool {
    match op {
        AluOperation::Add => a + b >= 0x10000,
        AluOperation::Subtract => a < b,
        _ => false,
    }
}

/// Result and flags of `op` on `a` and `b`. An inactive ALU outputs zero
/// with every flag clear.
pub open spec fn alu_output_of(a: u16, b: u16, op: AluOperation) -> AluOutput {
    let result = alu_result(a, b, op);
    if op == AluOperation::Inactive {
        AluOutput { result: 0, zero: false, negative: false, carry: false }
    } else {
        AluOutput {
            result,
            zero: result == 0,
            negative: sign_bit(result),
            carry: alu_carry(a, b, op),
        }
    }
}

/// The ALU for an AYU processor
pub struct Alu {}

impl Alu {
    /// The ALU holds no state.
    pub fn new() -> (r: Alu) {
        Alu {}
    }

    /// Carry out an operation on 2 values
    pub fn execute_operation(&self, source_a: u16, source_b: u16, operation: &AluOperation) -> (r:
        AluOutput)
        ensures
            r == alu_output_of(source_a, source_b, *operation),
    {
        let result: u16 = match operation {
            AluOperation::Add => source_a.wrapping_add(source_b),
            AluOperation::Subtract => source_a.wrapping_sub(source_b),
            AluOperation::And => source_a & source_b,
            AluOperation::Or => source_a | source_b,
            AluOperation::ShiftLeft => {
                if source_b < 16 {
                    source_a << source_b
                } else {
                    0
                }
            },
            AluOperation::ShiftRightLogical => {
                if source_b < 16 {
                    source_a >> source_b
                } else {
                    0
                }
            },
            AluOperation::ShiftRightArithmetic => {
                let negative_input: bool = source_a & 0x8000 != 0;
                if source_b >= 16 {
                    if negative_input {
                        0xFFFF
                    } else {
                        0
                    }
                } else if negative_input {
                    (source_a >> source_b) | !(0xFFFFu16 >> source_b)
                } else {
                    source_a >> source_b
                }
            },
            AluOperation::Inactive => {
                return AluOutput { result: 0, zero: false, negative: false, carry: false };
            },
        };
        let carry: bool = match operation {
            AluOperation::Add => source_a as u32 + source_b as u32 >= 0x10000,
            AluOperation::Subtract => source_a < source_b,
            _ => false,
        };
        AluOutput { result, zero: result == 0, negative: result & 0x8000 != 0, carry }
    }
}

} // verus!
