//! Instruction encoding, control-signal bundle and the other plain values
//! that flow between the decoder, the state machine and the datapath.

use vstd::prelude::*;

verus! {

/// Opcode representations
#[derive(Clone, Copy, PartialEq, Eq, Structural, Debug)]
pub enum Opcode {
    Add,
    Subtract,
    And,
    Or,
    SetIfLess,
    SetIfEqual,
    ShiftLeft,
    ShiftRightLogical,
    ShiftRightArithmetic,
    SetLower,
    SetUpper,
    LoadWord,
    SaveWord,
    Special,
    SetPcIf,
    Invalid,
}

/// The opcode that the 4-bit value `value` encodes; every value outside the
/// table is `Invalid`.
pub open spec fn opcode_of(value: u8) -> Opcode {
    match value {
        0x0 => Opcode::Add,
        0x1 => Opcode::Subtract,
        0x2 => Opcode::And,
        0x3 => Opcode::Or,
        0x4 => Opcode::SetIfLess,
        0x5 => Opcode::SetIfEqual,
        0x6 => Opcode::ShiftLeft,
        0x7 => Opcode::ShiftRightLogical,
        0x8 => Opcode::ShiftRightArithmetic,
        0x9 => Opcode::SetLower,
        0xA => Opcode::SetUpper,
        0xB => Opcode::LoadWord,
        0xC => Opcode::SaveWord,
        0xD => Opcode::SetPcIf,
        0xF => Opcode::Special,
        _ => Opcode::Invalid,
    }
}

impl Opcode {
    /// Convert a u8 (such as the first nibble of an instruction) to its opcode representation
    pub fn from_u8(value: u8) -> (r: Opcode)
        ensures
            r == opcode_of(value),
    {
        match value {
            0x00 => Opcode::Add,
            0x01 => Opcode::Subtract,
            0x02 => Opcode::And,
            0x03 => Opcode::Or,
            0x04 => Opcode::SetIfLess,
            0x05 => Opcode::SetIfEqual,
            0x06 => Opcode::ShiftLeft,
            0x07 => Opcode::ShiftRightLogical,
            0x08 => Opcode::ShiftRightArithmetic,
            0x09 => Opcode::SetLower,
            0x0A => Opcode::SetUpper,
            0x0B => Opcode::LoadWord,
            0x0C => Opcode::SaveWord,
            0x0D => Opcode::SetPcIf,
            0x0F => Opcode::Special,
            _ => Opcode::Invalid,
        }
    }

    /// Register-to-register instructions whose result the ALU computes and
    /// the arithmetic write-back stores.
    pub open spec fn is_arithmetic(self) -> bool {
        match self {
            Opcode::Add | Opcode::Subtract | Opcode::And | Opcode::Or | Opcode::ShiftLeft
            | Opcode::ShiftRightLogical | Opcode::ShiftRightArithmetic => true,
            _ => false,
        }
    }

    /// Opcodes for which the ALU has an operation: the arithmetic ones and
    /// the two comparisons, which subtract.
    pub open spec fn has_alu_operation(self) -> bool {
        self.is_arithmetic() || self == Opcode::SetIfLess || self == Opcode::SetIfEqual
    }
}

/// Type of instruction
#[derive(Clone, Copy, PartialEq, Eq, Structural, Debug)]
pub enum InstructionType {
    Register,
    SetByte,
    Memory,
    Special,
    Invalid,
}

/// The coarse class of each opcode.
pub open spec fn instruction_type_of(opcode: Opcode) -> InstructionType {
    match opcode {
        Opcode::Add | Opcode::Subtract | Opcode::And | Opcode::Or | Opcode::SetIfLess
        | Opcode::SetIfEqual | Opcode::ShiftLeft | Opcode::ShiftRightLogical
        | Opcode::ShiftRightArithmetic => InstructionType::Register,
        Opcode::SetLower | Opcode::SetUpper => InstructionType::SetByte,
        Opcode::LoadWord | Opcode::SaveWord => InstructionType::Memory,
        Opcode::Special | Opcode::SetPcIf => InstructionType::Special,
        Opcode::Invalid => InstructionType::Invalid,
    }
}

impl InstructionType {
    /// Get an InstructionType from an Opcode
    pub fn from_opcode(opcode: &Opcode) -> (r: InstructionType)
        ensures
            r == instruction_type_of(*opcode),
    {
        match opcode {
            Opcode::Add => InstructionType::Register,
            Opcode::Subtract => InstructionType::Register,
            Opcode::And => InstructionType::Register,
            Opcode::Or => InstructionType::Register,
            Opcode::SetIfLess => InstructionType::Register,
            Opcode::SetIfEqual => InstructionType::Register,
            Opcode::ShiftLeft => InstructionType::Register,
            Opcode::ShiftRightLogical => InstructionType::Register,
            Opcode::ShiftRightArithmetic => InstructionType::Register,
            Opcode::SetLower => InstructionType::SetByte,
            Opcode::SetUpper => InstructionType::SetByte,
            Opcode::LoadWord => InstructionType::Memory,
            Opcode::SaveWord => InstructionType::Memory,
            Opcode::Special => InstructionType::Special,
            Opcode::SetPcIf => InstructionType::Special,
            Opcode::Invalid => InstructionType::Invalid,
        }
    }
}

/// Current state of the FSM governing control signals
#[derive(Clone, Copy, PartialEq, Eq, Structural, Debug)]
pub enum State {
    PcRead,
    InstructionFetch,
    Decode,
    SetLower,
    SetUpper,
    ArithmeticOperation,
    ArithmeticWriteBack,
    SetIf,
    SetIfLess,
    SetIfEqual,
    Memory,
    MemoryRead,
    MemoryReadRegisterWriteback,
    MemoryWrite,
    SetPcTest,
    SetPcWriteback,
    Special,
    Terminate,
}

/// Instruction that has been broken into more useable pieces
#[derive(Clone, Copy, PartialEq, Eq, Structural, Debug)]
pub struct InstructionToken {
    pub opcode: Opcode,
    pub nibble_2: u8,
    pub nibble_3: u8,
    pub nibble_4: u8,
    pub instruction_type: InstructionType,
}

impl InstructionToken {
    /// Every nibble is a 4-bit value, so it can index the register file.
    pub open spec fn wf(self) -> bool {
        self.nibble_2 < 16 && self.nibble_3 < 16 && self.nibble_4 < 16
    }
}

/// The token of the instruction word `word`: its top four bits select the
/// opcode, the three lower nibbles follow in order.
pub open spec fn token_of(word: u16) -> InstructionToken {
    InstructionToken {
        opcode: opcode_of((word >> 12) as u8),
        nibble_2: ((word >> 8) & 0xF) as u8,
        nibble_3: ((word >> 4) & 0xF) as u8,
        nibble_4: (word & 0xF) as u8,
        instruction_type: instruction_type_of(opcode_of((word >> 12) as u8)),
    }
}

/// Memory access address source
#[derive(Clone, Copy, PartialEq, Eq, Structural, Debug)]
pub enum AddressSource {
    Alu,
    ProgramCounter,
}

/// Where the value written to a register is taken from
#[derive(Clone, Copy, PartialEq, Eq, Structural, Debug)]
pub enum RegisterWriteSource {
    InstructionByte2,
    Memory,
    Alu,
    AluZero,
    AluNegative,
    AluCarry,
    InstructionNibble2,
}

/// Operation for the ALU to perform
#[derive(Clone, Copy, PartialEq, Eq, Structural, Debug)]
pub enum AluOperation {
    Add,
    Subtract,
    And,
    Or,
    ShiftLeft,
    ShiftRightLogical,
    ShiftRightArithmetic,
    Inactive,
}

/// The ALU operation that carries out `opcode`; the comparisons subtract.
pub open spec fn alu_operation_of(opcode: Opcode) -> AluOperation
    recommends
        opcode.has_alu_operation(),
{
    match opcode {
        Opcode::Add => AluOperation::Add,
        Opcode::Subtract | Opcode::SetIfLess | Opcode::SetIfEqual => AluOperation::Subtract,
        Opcode::And => AluOperation::And,
        Opcode::Or => AluOperation::Or,
        Opcode::ShiftLeft => AluOperation::ShiftLeft,
        Opcode::ShiftRightLogical => AluOperation::ShiftRightLogical,
        Opcode::ShiftRightArithmetic => AluOperation::ShiftRightArithmetic,
        _ => AluOperation::Inactive,
    }
}

impl AluOperation {
    /// Determine appropriate ALU operation based on Opcode
    pub fn from_opcode(opcode: &Opcode) -> (r: AluOperation)
        requires
            opcode.has_alu_operation(),
        ensures
            r == alu_operation_of(*opcode),
            r != AluOperation::Inactive,
    {
        match opcode {
            Opcode::Add => AluOperation::Add,
            Opcode::Subtract => AluOperation::Subtract,
            Opcode::And => AluOperation::And,
            Opcode::Or => AluOperation::Or,
            Opcode::ShiftLeft => AluOperation::ShiftLeft,
            Opcode::ShiftRightLogical => AluOperation::ShiftRightLogical,
            Opcode::ShiftRightArithmetic => AluOperation::ShiftRightArithmetic,
            Opcode::SetIfEqual => AluOperation::Subtract,
            Opcode::SetIfLess => AluOperation::Subtract,
            _ => AluOperation::Inactive,
        }
    }
}

/// Where ALU input A is taken from
#[derive(Clone, Copy, PartialEq, Eq, Structural, Debug)]
pub enum AluSource {
    Register,
    Constant1,
    MemoryOffset,
}

/// Which nibble in the instruction is the target register to be written to
#[derive(Clone, Copy, PartialEq, Eq, Structural, Debug)]
pub enum RegisterWriteTarget {
    Nibble2,
    Nibble3,
}

/// Processor either runs or stops
#[derive(Clone, Copy, PartialEq, Eq, Structural, Debug)]
pub enum RunState {
    Stop,
    Continue,
}

/// Results of an ALU operation
#[derive(Clone, Copy, PartialEq, Eq, Structural, Debug)]
pub struct AluOutput {
    pub result: u16,
    pub zero: bool,
    pub negative: bool,
    /// Unsigned carry out of an addition; for a subtraction, set when it
    /// borrows, that is when the first operand is below the second.
    pub carry: bool,
}

/// Values of all intermediate pipeline registers
#[derive(Clone, Copy, PartialEq, Eq, Structural, Debug)]
pub struct PipelineRegisters {
    pub memory_data: u16,
    pub register_read_a: u16,
    pub register_read_b: u16,
    pub alu_output: u16,
    pub alu_negative: bool,
    pub alu_zero: bool,
    pub alu_carry: bool,
}

/// Values for all control signals
#[derive(Clone, Copy, PartialEq, Eq, Structural, Debug)]
pub struct ControlSignals {
    pub terminate: bool,
    pub decode: bool,
    pub address_source: AddressSource,
    pub memory_read: bool,
    pub memory_write: bool,
    pub instruction_register_write: bool,
    pub register_write: bool,
    pub register_write_source: RegisterWriteSource,
    pub write_upper: bool,
    pub write_long: bool,
    pub read_pc: bool,
    pub write_pc: bool,
    pub alu_operation: AluOperation,
    pub alu_source: AluSource,
    pub process_special: bool,
    pub write_register_target: RegisterWriteTarget,
}

} // verus!
