//! The control state machine: one state per clock, a bundle of control
//! signals for each state, and the transition to the next state.

use vstd::prelude::*;

use crate::types::{
    alu_operation_of, AddressSource, AluOperation, AluSource, ControlSignals, InstructionToken,
    Opcode, RegisterWriteSource, RegisterWriteTarget, State,
};

verus! {

/// What the state machine holds: its state and the opcode latched at decode.
pub struct FsmView {
    pub state: State,
    pub opcode: Opcode,
}

impl FsmView {
    /// The arithmetic state is only entered for an arithmetic opcode, which
    /// is what selects its ALU operation.
    pub open spec fn wf(self) -> bool {
        self.state == State::ArithmeticOperation ==> self.opcode.is_arithmetic()
    }
}

/// Every signal inactive: no read, no write, ALU idle.
pub open spec fn idle_signals() -> ControlSignals {
    ControlSignals {
        terminate: false,
        decode: false,
        address_source: AddressSource::ProgramCounter,
        memory_read: false,
        memory_write: false,
        instruction_register_write: false,
        register_write: false,
        register_write_source: RegisterWriteSource::InstructionByte2,
        write_upper: false,
        write_long: false,
        read_pc: false,
        write_pc: false,
        alu_operation: AluOperation::Inactive,
        alu_source: AluSource::Register,
        process_special: false,
        write_register_target: RegisterWriteTarget::Nibble2,
    }
}

/// The control signals asserted in `state`; `opcode` is the latched opcode,
/// which selects the ALU operation of the arithmetic state.
pub open spec fn signals_of(state: State, opcode: Opcode) -> ControlSignals {
    let idle = idle_signals();
    match state {
        State::PcRead => ControlSignals { read_pc: true, ..idle },
        State::InstructionFetch => ControlSignals {
            memory_read: true,
            instruction_register_write: true,
            alu_operation: AluOperation::Add,
            alu_source: AluSource::Constant1,
            ..idle
        },
        State::Decode => ControlSignals {
            decode: true,
            write_pc: true,
            register_write_source: RegisterWriteSource::Alu,
            ..idle
        },
        State::SetLower => ControlSignals { register_write: true, ..idle },
        State::SetUpper => ControlSignals { register_write: true, write_upper: true, ..idle },
        State::ArithmeticOperation => ControlSignals {
            alu_operation: alu_operation_of(opcode),
            ..idle
        },
        State::ArithmeticWriteBack => ControlSignals {
            register_write: true,
            register_write_source: RegisterWriteSource::Alu,
            ..idle
        },
        State::SetIf => ControlSignals { alu_operation: AluOperation::Subtract, ..idle },
        // the comparison is unsigned: it stores the subtraction's borrow
        State::SetIfLess => ControlSignals {
            register_write: true,
            register_write_source: RegisterWriteSource::AluCarry,
            ..idle
        },
        State::SetIfEqual => ControlSignals {
            register_write: true,
            register_write_source: RegisterWriteSource::AluZero,
            ..idle
        },
        State::Memory => ControlSignals {
            alu_operation: AluOperation::Add,
            alu_source: AluSource::MemoryOffset,
            ..idle
        },
        State::MemoryRead => ControlSignals {
            address_source: AddressSource::Alu,
            memory_read: true,
            ..idle
        },
        State::MemoryReadRegisterWriteback => ControlSignals {
            register_write: true,
            register_write_source: RegisterWriteSource::Memory,
            write_register_target: RegisterWriteTarget::Nibble3,
            ..idle
        },
        State::MemoryWrite => ControlSignals {
            address_source: AddressSource::Alu,
            memory_write: true,
            ..idle
        },
        State::SetPcTest => ControlSignals { alu_operation: AluOperation::Subtract, ..idle },
        State::SetPcWriteback => ControlSignals {
            register_write: true,
            register_write_source: RegisterWriteSource::InstructionNibble2,
            write_pc: true,
            ..idle
        },
        State::Special => ControlSignals { process_special: true, ..idle },
        State::Terminate => ControlSignals { terminate: true, ..idle },
    }
}

/// The state that decode dispatches to for `opcode`.
pub open spec fn dispatch_of(opcode: Opcode) -> State {
    match opcode {
        Opcode::SetLower => State::SetLower,
        Opcode::SetUpper => State::SetUpper,
        Opcode::SetIfLess | Opcode::SetIfEqual => State::SetIf,
        Opcode::LoadWord | Opcode::SaveWord => State::Memory,
        Opcode::SetPcIf => State::SetPcTest,
        Opcode::Special => State::Special,
        Opcode::Invalid => State::Terminate,
        _ => State::ArithmeticOperation,
    }
}

/// The transition taken from `f`, given the current instruction token and
/// the ALU's zero flag. Decode latches the token's opcode; later branches go
/// by that latched opcode.
pub open spec fn fsm_next(f: FsmView, token: InstructionToken, alu_zero: bool) -> FsmView {
    let to = |s: State| FsmView { state: s, opcode: f.opcode };
    match f.state {
        State::PcRead => to(State::InstructionFetch),
        State::InstructionFetch => to(State::Decode),
        State::Decode => FsmView { state: dispatch_of(token.opcode), opcode: token.opcode },
        State::ArithmeticOperation => to(State::ArithmeticWriteBack),
        State::SetIf => to(
            match f.opcode {
                Opcode::SetIfLess => State::SetIfLess,
                Opcode::SetIfEqual => State::SetIfEqual,
                _ => State::Terminate,
            },
        ),
        State::Memory => to(
            match f.opcode {
                Opcode::LoadWord => State::MemoryRead,
                Opcode::SaveWord => State::MemoryWrite,
                _ => State::Terminate,
            },
        ),
        State::MemoryRead => to(State::MemoryReadRegisterWriteback),
        State::SetPcTest => to(
            if f.opcode == Opcode::SetPcIf && alu_zero {
                State::SetPcWriteback
            } else {
                State::PcRead
            },
        ),
        State::Terminate => f,
        _ => to(State::PcRead),
    }
}

/// The control unit: the current state and the opcode latched at decode.
pub struct StateMachine {
    state: State,
    opcode: Opcode,
}

impl View for StateMachine {
    type V = FsmView;

    closed spec fn view(&self) -> FsmView {
        FsmView { state: self.state, opcode: self.opcode }
    }
}

impl StateMachine {
    /// A state machine at the start of an instruction fetch.
    pub fn new() -> (r: StateMachine)
        ensures
            r@ == (FsmView { state: State::PcRead, opcode: Opcode::Invalid }),
    {
        StateMachine { state: State::PcRead, opcode: Opcode::Invalid }
    }

    /// The control signals of the current state.
    pub fn get_control_signals(&self) -> (r: ControlSignals)
        requires
            self@.wf(),
        ensures
            r == signals_of(self@.state, self@.opcode),
    {
        let idle = ControlSignals {
            terminate: false,
            decode: false,
            address_source: AddressSource::ProgramCounter,
            memory_read: false,
            memory_write: false,
            instruction_register_write: false,
            register_write: false,
            register_write_source: RegisterWriteSource::InstructionByte2,
            write_upper: false,
            write_long: false,
            read_pc: false,
            write_pc: false,
            alu_operation: AluOperation::Inactive,
            alu_source: AluSource::Register,
            process_special: false,
            write_register_target: RegisterWriteTarget::Nibble2,
        };
        match self.state {
            State::PcRead => ControlSignals { read_pc: true, ..idle },
            State::InstructionFetch => ControlSignals {
                memory_read: true,
                instruction_register_write: true,
                alu_operation: AluOperation::Add,
                alu_source: AluSource::Constant1,
                ..idle
            },
            State::Decode => ControlSignals {
                decode: true,
                write_pc: true,
                register_write_source: RegisterWriteSource::Alu,
                ..idle
            },
            State::SetLower => ControlSignals { register_write: true, ..idle },
            State::SetUpper => ControlSignals { register_write: true, write_upper: true, ..idle },
            State::ArithmeticOperation => ControlSignals {
                alu_operation: AluOperation::from_opcode(&self.opcode),
                ..idle
            },
            State::ArithmeticWriteBack => ControlSignals {
                register_write: true,
                register_write_source: RegisterWriteSource::Alu,
                ..idle
            },
            State::SetIf => ControlSignals { alu_operation: AluOperation::Subtract, ..idle },
            State::SetIfLess => ControlSignals {
                register_write: true,
                register_write_source: RegisterWriteSource::AluCarry,
                ..idle
            },
            State::SetIfEqual => ControlSignals {
                register_write: true,
                register_write_source: RegisterWriteSource::AluZero,
                ..idle
            },
            State::Memory => ControlSignals {
                alu_operation: AluOperation::Add,
                alu_source: AluSource::MemoryOffset,
                ..idle
            },
            State::MemoryRead => ControlSignals {
                address_source: AddressSource::Alu,
                memory_read: true,
                ..idle
            },
            State::MemoryReadRegisterWriteback => ControlSignals {
                register_write: true,
                register_write_source: RegisterWriteSource::Memory,
                write_register_target: RegisterWriteTarget::Nibble3,
                ..idle
            },
            State::MemoryWrite => ControlSignals {
                address_source: AddressSource::Alu,
                memory_write: true,
                ..idle
            },
            State::SetPcTest => ControlSignals { alu_operation: AluOperation::Subtract, ..idle },
            State::SetPcWriteback => ControlSignals {
                register_write: true,
                register_write_source: RegisterWriteSource::InstructionNibble2,
                write_pc: true,
                ..idle
            },
            State::Special => ControlSignals { process_special: true, ..idle },
            State::Terminate => ControlSignals { terminate: true, ..idle },
        }
    }

    /// Take the transition out of the current state.
    pub fn next_state(&mut self, instruction_token: &InstructionToken, alu_zero: bool)
        requires
            old(self)@.wf(),
        ensures
            final(self)@ == fsm_next(old(self)@, *instruction_token, alu_zero),
            final(self)@.wf(),
    {
        match self.state {
            State::PcRead => self.state = State::InstructionFetch,
            State::InstructionFetch => self.state = State::Decode,
            State::Decode => self.decode(instruction_token),
            State::ArithmeticOperation => self.state = State::ArithmeticWriteBack,
            State::SetIf => match self.opcode {
                Opcode::SetIfLess => self.state = State::SetIfLess,
                Opcode::SetIfEqual => self.state = State::SetIfEqual,
                _ => self.state = State::Terminate,
            },
            State::Memory => match self.opcode {
                Opcode::LoadWord => self.state = State::MemoryRead,
                Opcode::SaveWord => self.state = State::MemoryWrite,
                _ => self.state = State::Terminate,
            },
            State::MemoryRead => self.state = State::MemoryReadRegisterWriteback,
            State::SetPcTest => {
                if self.opcode == Opcode::SetPcIf && alu_zero {
                    self.state = State::SetPcWriteback;
                } else {
                    self.state = State::PcRead;
                }
            },
            State::Terminate => {},
            State::SetLower | State::SetUpper | State::ArithmeticWriteBack | State::SetIfLess
            | State::SetIfEqual | State::MemoryWrite | State::MemoryReadRegisterWriteback
            | State::SetPcWriteback | State::Special => self.state = State::PcRead,
        }
    }

    /// Latch the token's opcode and dispatch on it.
    fn decode(&mut self, instruction_token: &InstructionToken)
        ensures
            final(self)@ == (FsmView {
                state: dispatch_of(instruction_token.opcode),
                opcode: instruction_token.opcode,
            }),
    {
        self.opcode = instruction_token.opcode;
        match instruction_token.opcode {
            Opcode::SetLower => self.state = State::SetLower,
            Opcode::SetUpper => self.state = State::SetUpper,
            Opcode::SetIfLess => self.state = State::SetIf,
            Opcode::SetIfEqual => self.state = State::SetIf,
            Opcode::LoadWord => self.state = State::Memory,
            Opcode::SaveWord => self.state = State::Memory,
            Opcode::Special => self.state = State::Special,
            Opcode::SetPcIf => self.state = State::SetPcTest,
            Opcode::Invalid => self.state = State::Terminate,
            _ => self.state = State::ArithmeticOperation,
        }
    }
}

} // verus!
