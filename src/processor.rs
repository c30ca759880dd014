//! The datapath: register file, memory, instruction register and pipeline
//! latches, driven one clock at a time by the control state machine.

use vstd::prelude::*;
use vstd::string::StringSliceAdditionalSpecFns;

use crate::alu::{alu_output_of, Alu};
use crate::instructions::{lines, parse_program, program_of, LoadError};
use crate::statemachine::{fsm_next, signals_of, FsmView, StateMachine};
use crate::types::{
    token_of, AddressSource, AluOperation, AluSource, ControlSignals, InstructionToken,
    InstructionType, Opcode, PipelineRegisters, RegisterWriteSource, RegisterWriteTarget, RunState,
    State,
};

verus! {

/// Number of general-purpose registers.
pub const REGISTER_COUNT: usize = 16;

/// Number of words of memory.
pub const MEMORY_WORDS: usize = 65536;

/// The register that holds the program counter.
pub const PC: usize = 1;

/// Everything a processor holds, as plain mathematical values.
pub struct ProcessorState {
    pub clock_cycle: u64,
    pub registers: Seq<u16>,
    pub memory: Seq<u16>,
    pub instruction_register: u16,
    pub instruction_token: InstructionToken,
    pub control_signals: ControlSignals,
    pub fsm: FsmView,
    pub pipeline: PipelineRegisters,
    pub breakpoint: u64,
    pub dump_to_file: bool,
}

/// The token held before the first instruction is decoded.
pub open spec fn blank_token() -> InstructionToken {
    InstructionToken {
        opcode: Opcode::Invalid,
        nibble_2: 0,
        nibble_3: 0,
        nibble_4: 0,
        instruction_type: InstructionType::Invalid,
    }
}

/// The latches before the first clock: all zero.
pub open spec fn cleared_latches() -> PipelineRegisters {
    PipelineRegisters {
        memory_data: 0,
        register_read_a: 0,
        register_read_b: 0,
        alu_output: 0,
        alu_negative: false,
        alu_zero: false,
        alu_carry: false,
    }
}

impl ProcessorState {
    /// Register file and memory have their fixed sizes, the token's nibbles
    /// index registers, and the state machine is well formed.
    pub open spec fn wf(self) -> bool {
        &&& self.registers.len() == REGISTER_COUNT
        &&& self.memory.len() == MEMORY_WORDS
        &&& self.instruction_token.wf()
        &&& self.fsm.wf()
    }

    /// A processor about to run its first clock with the given register file
    /// and memory image: state machine in `PcRead`, latches cleared, no
    /// breakpoint.
    pub open spec fn initial(registers: Seq<u16>, memory: Seq<u16>, dump_to_file: bool) -> Self {
        ProcessorState {
            clock_cycle: 0,
            registers,
            memory,
            instruction_register: 0,
            instruction_token: blank_token(),
            control_signals: signals_of(State::Terminate, Opcode::Invalid),
            fsm: FsmView { state: State::PcRead, opcode: Opcode::Invalid },
            pipeline: cleared_latches(),
            breakpoint: u64::MAX,
            dump_to_file,
        }
    }

    /// Advance the state machine (not on the very first clock) and take the
    /// control signals of the state entered.
    pub open spec fn advance(self) -> Self {
        let fsm = if self.clock_cycle == 0 {
            self.fsm
        } else {
            fsm_next(self.fsm, self.instruction_token, self.pipeline.alu_zero)
        };
        ProcessorState { fsm, control_signals: signals_of(fsm.state, fsm.opcode), ..self }
    }

    /// The ALU's first operand, as the ALU source signal selects it.
    pub open spec fn alu_source_a(self) -> u16 {
        match self.control_signals.alu_source {
            AluSource::Register => self.pipeline.register_read_a,
            AluSource::Constant1 => 1,
            AluSource::MemoryOffset => self.instruction_token.nibble_2 as u16,
        }
    }

    /// When the ALU is active, its output and flags go to the latches.
    pub open spec fn alu_stage(self) -> Self {
        let op = self.control_signals.alu_operation;
        if op == AluOperation::Inactive {
            self
        } else {
            let out = alu_output_of(self.alu_source_a(), self.pipeline.register_read_b, op);
            ProcessorState {
                pipeline: PipelineRegisters {
                    alu_output: out.result,
                    alu_zero: out.zero,
                    alu_negative: out.negative,
                    alu_carry: out.carry,
                    ..self.pipeline
                },
                ..self
            }
        }
    }

    /// When decode is asserted, the instruction register is split into a new token.
    pub open spec fn decode_stage(self) -> Self {
        if self.control_signals.decode {
            ProcessorState { instruction_token: token_of(self.instruction_register), ..self }
        } else {
            self
        }
    }

    /// The memory address: the program counter latch or the ALU output.
    pub open spec fn memory_address(self) -> u16 {
        match self.control_signals.address_source {
            AddressSource::ProgramCounter => self.pipeline.register_read_b,
            AddressSource::Alu => self.pipeline.alu_output,
        }
    }

    /// A memory read fills the memory-data latch, and the instruction
    /// register too when that is asserted.
    pub open spec fn memory_read_stage(self) -> Self {
        if self.control_signals.memory_read {
            let data = self.memory[self.memory_address() as int];
            ProcessorState {
                pipeline: PipelineRegisters { memory_data: data, ..self.pipeline },
                instruction_register: if self.control_signals.instruction_register_write {
                    data
                } else {
                    self.instruction_register
                },
                ..self
            }
        } else {
            self
        }
    }

    /// A memory write stores the first read latch at the selected address.
    pub open spec fn memory_write_stage(self) -> Self {
        if self.control_signals.memory_write {
            ProcessorState {
                memory: self.memory.update(
                    self.memory_address() as int,
                    self.pipeline.register_read_a,
                ),
                ..self
            }
        } else {
            self
        }
    }

    /// The value that a register write-back stores.
    pub open spec fn write_value(self) -> u16 {
        let t = self.instruction_token;
        match self.control_signals.register_write_source {
            RegisterWriteSource::Alu => self.pipeline.alu_output,
            RegisterWriteSource::Memory => self.pipeline.memory_data,
            RegisterWriteSource::AluZero => if self.pipeline.alu_zero {
                1
            } else {
                0
            },
            RegisterWriteSource::AluNegative => if self.pipeline.alu_negative {
                1
            } else {
                0
            },
            RegisterWriteSource::AluCarry => if self.pipeline.alu_carry {
                1
            } else {
                0
            },
            RegisterWriteSource::InstructionByte2 => ((t.nibble_3 as u16) << 4u16) | (t.nibble_4 as u16),
            RegisterWriteSource::InstructionNibble2 => t.nibble_2 as u16,
        }
    }

    /// The register a write-back goes to: the program counter when
    /// `write_pc` is asserted, else the nibble that the target signal names.
    pub open spec fn write_target(self) -> int {
        if self.control_signals.write_pc {
            PC as int
        } else {
            match self.control_signals.write_register_target {
                RegisterWriteTarget::Nibble2 => self.instruction_token.nibble_2 as int,
                RegisterWriteTarget::Nibble3 => self.instruction_token.nibble_3 as int,
            }
        }
    }

    /// Register write-back: overwrite the target, or OR the value into its
    /// upper byte when `write_upper` is asserted.
    pub open spec fn write_back_stage(self) -> Self {
        if self.control_signals.register_write || self.control_signals.write_pc {
            let t = self.write_target();
            let v = self.write_value();
            let new_value = if self.control_signals.write_upper {
                self.registers[t] | ((v << 8u16) as u16)
            } else {
                v
            };
            ProcessorState { registers: self.registers.update(t, new_value), ..self }
        } else {
            self
        }
    }

    /// The read latches take the registers that the token names (the
    /// program counter in place of the fourth nibble when `read_pc` is
    /// asserted); they feed the next clock.
    pub open spec fn refresh_stage(self) -> Self {
        let b = if self.control_signals.read_pc {
            PC as int
        } else {
            self.instruction_token.nibble_4 as int
        };
        ProcessorState {
            pipeline: PipelineRegisters {
                register_read_b: self.registers[b],
                register_read_a: self.registers[self.instruction_token.nibble_3 as int],
                ..self.pipeline
            },
            ..self
        }
    }

    /// One clock: the processor after it, and whether to go on. The clock
    /// stops at a terminate signal (before anything but the ALU acts), at a
    /// special instruction, and once the clock count exceeds the breakpoint.
    #[verifier::opaque]
    pub open spec fn clock(self) -> (Self, RunState) {
        let s = self.advance().alu_stage();
        if s.control_signals.terminate {
            (s, RunState::Stop)
        } else {
            let s = s.decode_stage().memory_read_stage().memory_write_stage().write_back_stage().refresh_stage();
            if s.control_signals.process_special || s.clock_cycle > s.breakpoint {
                (s, RunState::Stop)
            } else {
                (
                    ProcessorState {
                        clock_cycle: if s.clock_cycle < u64::MAX {
                            (s.clock_cycle + 1) as u64
                        } else {
                            s.clock_cycle
                        },
                        ..s
                    },
                    RunState::Continue,
                )
            }
        }
    }
}

/// An AYU processor simulation
pub struct Processor {
    alu: Alu,
    clock_cycle: u64,
    registers: [u16; 16],
    memory: [u16; 65536],
    instruction_register: u16,
    instruction_token: InstructionToken,
    control_signals: ControlSignals,
    state_machine: StateMachine,
    pipeline_registers: PipelineRegisters,
    breakpoint: u64,
    dump_to_file: bool,
}

impl View for Processor {
    type V = ProcessorState;

    closed spec fn view(&self) -> ProcessorState {
        ProcessorState {
            clock_cycle: self.clock_cycle,
            registers: self.registers@,
            memory: self.memory@,
            instruction_register: self.instruction_register,
            instruction_token: self.instruction_token,
            control_signals: self.control_signals,
            fsm: self.state_machine@,
            pipeline: self.pipeline_registers,
            breakpoint: self.breakpoint,
            dump_to_file: self.dump_to_file,
        }
    }
}

/// Memory holding `words` from address 0 on, zero elsewhere.
pub open spec fn memory_image(words: Seq<u16>) -> Seq<u16> {
    Seq::new(MEMORY_WORDS as nat, |i: int| if i < words.len() { words[i] } else { 0 })
}

impl Processor {
    /// Create a processor from a program text: its words are loaded from
    /// address 0 on, every register is zero, and the processor stops once
    /// the clock count exceeds `breakpoint`
    pub fn new_from_source(source: &str, breakpoint: u64, dump_to_file: bool) -> (r: Result<Processor, LoadError>)
        ensures
            match program_of(lines(source.spec_bytes())) {
                Err(i) => r matches Err(e) && e == LoadError::MalformedLine((i + 1) as usize),
                Ok(words) => if words.len() > MEMORY_WORDS {
                    r matches Err(e) && e == LoadError::TooLarge
                } else {
                    r matches Ok(p) && p@ == (ProcessorState {
                        breakpoint,
                        ..ProcessorState::initial(Seq::new(16, |i: int| 0u16), memory_image(words), dump_to_file)
                    }) && p@.wf()
                },
            },
    {
        let words = match parse_program(source) {
            Ok(words) => words,
            Err(e) => {
                return Err(e);
            },
        };
        if words.len() > MEMORY_WORDS {
            return Err(LoadError::TooLarge);
        }
        let mut memory_array: [u16; 65536] = [0u16; 65536];
        let mut i: usize = 0;
        while i < MEMORY_WORDS
            invariant
                words@.len() <= MEMORY_WORDS,
                i <= MEMORY_WORDS,
                memory_array@.len() == MEMORY_WORDS,
                forall|j: int| 0 <= j < i ==> memory_array@[j] == memory_image(words@)[j],
            decreases MEMORY_WORDS - i,
        {
            if i < words.len() {
                memory_array[i] = words[i];
            } else {
                memory_array[i] = 0;
            }
            i = i + 1;
        }
        assert(memory_array@ =~= memory_image(words@));
        let register_array: [u16; 16] = [0u16; 16];
        assert(register_array@ =~= Seq::new(16, |i: int| 0u16));
        Ok(Processor::with_image(register_array, memory_array, breakpoint, dump_to_file))
    }

    /// Create a processor by initialising registers and memory to provided arrays,
    /// therefore can be used to load a processor that has already partially executed a program
    pub fn new_from_array(register_array: [u16; 16], memory_array: [u16; 65536], dump_to_file: bool) -> (r:
        Processor)
        ensures
            r@ == ProcessorState::initial(register_array@, memory_array@, dump_to_file),
            r@.wf(),
    {
        Processor::with_image(register_array, memory_array, u64::MAX, dump_to_file)
    }

    fn with_image(
        register_array: [u16; 16],
        memory_array: [u16; 65536],
        breakpoint: u64,
        dump_to_file: bool,
    ) -> (r: Processor)
        ensures
            r@ == (ProcessorState {
                breakpoint,
                ..ProcessorState::initial(register_array@, memory_array@, dump_to_file)
            }),
            r@.wf(),
    {
        let idle = ControlSignals {
            terminate: true,
            decode: false,
            address_source: AddressSource::ProgramCounter,
            memory_read: false,
            memory_write: false,
            instruction_register_write: false,
            register_write: false,
            register_write_source: RegisterWriteSource::InstructionByte2,
            write_upper: false,
            write_long: false,
            read_pc: false,
            write_pc: false,
            alu_operation: AluOperation::Inactive,
            alu_source: AluSource::Register,
            process_special: false,
            write_register_target: RegisterWriteTarget::Nibble2,
        };
        Processor {
            alu: Alu::new(),
            clock_cycle: 0,
            registers: register_array,
            memory: memory_array,
            instruction_register: 0,
            instruction_token: InstructionToken {
                instruction_type: InstructionType::Invalid,
                opcode: Opcode::Invalid,
                nibble_2: 0,
                nibble_3: 0,
                nibble_4: 0,
            },
            control_signals: idle,
            state_machine: StateMachine::new(),
            pipeline_registers: PipelineRegisters {
                memory_data: 0,
                register_read_b: 0,
                register_read_a: 0,
                alu_output: 0,
                alu_negative: false,
                alu_zero: false,
                alu_carry: false,
            },
            breakpoint,
            dump_to_file,
        }
    }

    /// Runs 1 clock cycle, returns whether the processor should continue running for another cycle
    pub fn run(&mut self) -> (r: RunState)
        requires
            old(self)@.wf(),
        ensures
            (final(self)@, r) == old(self)@.clock(),
            final(self)@.wf(),
    {
        let ghost start = self@;
        reveal(ProcessorState::clock);
        self.advance();
        self.alu_stage();
        if self.control_signals.terminate {
            return RunState::Stop;
        }
        self.decode_stage();
        self.memory_read_stage();
        self.memory_write_stage();
        self.write_back_stage();
        self.refresh_stage();
        let ghost done = self@;
        assert(done == start.advance().alu_stage().decode_stage().memory_read_stage().memory_write_stage().write_back_stage().refresh_stage());
        if self.control_signals.process_special {
            return RunState::Stop;
        }
        if self.clock_cycle > self.breakpoint {
            return RunState::Stop;
        }
        if self.clock_cycle < u64::MAX {
            self.clock_cycle = self.clock_cycle + 1;
        }
        RunState::Continue
    }

    fn advance(&mut self)
        requires
            old(self)@.wf(),
        ensures
            final(self)@ == old(self)@.advance(),
            final(self)@.wf(),
    {
        let ghost start = self@;
        // state machine shouldn't advance on first cycle
        if self.clock_cycle != 0 {
            self.state_machine.next_state(&self.instruction_token, self.pipeline_registers.alu_zero);
        }
        let ghost fsm = self.state_machine@;
        let signals = self.state_machine.get_control_signals();
        self.control_signals = signals;
        assert(self@ == ProcessorState { fsm, control_signals: signals, ..start });
    }

    fn decode_stage(&mut self)
        requires
            old(self)@.wf(),
        ensures
            final(self)@ == old(self)@.decode_stage(),
            final(self)@.wf(),
    {
        if self.control_signals.decode {
            self.instruction_token = Processor::decode_instruction(self.instruction_register);
        }
    }

    fn alu_stage(&mut self)
        requires
            old(self)@.wf(),
        ensures
            final(self)@ == old(self)@.alu_stage(),
            final(self)@.wf(),
    {
        if self.control_signals.alu_operation != AluOperation::Inactive {
            let source_a: u16 = match self.control_signals.alu_source {
                AluSource::Register => self.pipeline_registers.register_read_a,
                AluSource::Constant1 => 1,
                AluSource::MemoryOffset => self.instruction_token.nibble_2 as u16,
            };
            let source_b: u16 = self.pipeline_registers.register_read_b;
            let alu_result = self.alu.execute_operation(
                source_a,
                source_b,
                &self.control_signals.alu_operation,
            );
            self.pipeline_registers.alu_output = alu_result.result;
            self.pipeline_registers.alu_zero = alu_result.zero;
            self.pipeline_registers.alu_negative = alu_result.negative;
            self.pipeline_registers.alu_carry = alu_result.carry;
        }
    }

    fn memory_address(&self) -> (r: u16)
        ensures
            r == self@.memory_address(),
    {
        match self.control_signals.address_source {
            AddressSource::ProgramCounter => self.pipeline_registers.register_read_b,
            AddressSource::Alu => self.pipeline_registers.alu_output,
        }
    }

    fn memory_read_stage(&mut self)
        requires
            old(self)@.wf(),
        ensures
            final(self)@ == old(self)@.memory_read_stage(),
            final(self)@.wf(),
    {
        if self.control_signals.memory_read {
            let address = self.memory_address();
            let data = self.memory[address as usize];
            self.pipeline_registers.memory_data = data;
            if self.control_signals.instruction_register_write {
                self.instruction_register = data;
            }
        }
    }

    fn memory_write_stage(&mut self)
        requires
            old(self)@.wf(),
        ensures
            final(self)@ == old(self)@.memory_write_stage(),
            final(self)@.wf(),
    {
        if self.control_signals.memory_write {
            let address = self.memory_address();
            let data = self.pipeline_registers.register_read_a;
            self.memory[address as usize] = data;
        }
    }

    fn write_back_stage(&mut self)
        requires
            old(self)@.wf(),
        ensures
            final(self)@ == old(self)@.write_back_stage(),
            final(self)@.wf(),
    {
        if self.control_signals.register_write || self.control_signals.write_pc {
            let token = self.instruction_token;
            let value_to_write: u16 = match self.control_signals.register_write_source {
                RegisterWriteSource::Alu => self.pipeline_registers.alu_output,
                RegisterWriteSource::InstructionByte2 => ((token.nibble_3 as u16) << 4u16) | (
                token.nibble_4 as u16),
                RegisterWriteSource::AluNegative => if self.pipeline_registers.alu_negative {
                    1
                } else {
                    0
                },
                RegisterWriteSource::AluZero => if self.pipeline_registers.alu_zero {
                    1
                } else {
                    0
                },
                RegisterWriteSource::AluCarry => if self.pipeline_registers.alu_carry {
                    1
                } else {
                    0
                },
                RegisterWriteSource::Memory => self.pipeline_registers.memory_data,
                RegisterWriteSource::InstructionNibble2 => token.nibble_2 as u16,
            };
            let register_to_write: usize = if self.control_signals.write_pc {
                PC
            } else {
                match self.control_signals.write_register_target {
                    RegisterWriteTarget::Nibble2 => token.nibble_2 as usize,
                    RegisterWriteTarget::Nibble3 => token.nibble_3 as usize,
                }
            };
            if self.control_signals.write_upper {
                let upper: u16 = value_to_write << 8u16;
                self.registers[register_to_write] = self.registers[register_to_write] | upper;
            } else {
                self.registers[register_to_write] = value_to_write;
            }
        }
    }

    fn refresh_stage(&mut self)
        requires
            old(self)@.wf(),
        ensures
            final(self)@ == old(self)@.refresh_stage(),
            final(self)@.wf(),
    {
        let b_index: usize = if self.control_signals.read_pc {
            PC
        } else {
            self.instruction_token.nibble_4 as usize
        };
        self.pipeline_registers.register_read_b = self.registers[b_index];
        self.pipeline_registers.register_read_a = self.registers[self.instruction_token.nibble_3 as usize];
    }

    /// Convert an instruction to an InstructionToken
    fn decode_instruction(instruction: u16) -> (r: InstructionToken)
        ensures
            r == token_of(instruction),
            r.wf(),
    {
        let opcode: Opcode = Opcode::from_u8((instruction >> 12u16) as u8);
        let nibble_2: u8 = ((instruction >> 8u16) & 0xF) as u8;
        let nibble_3: u8 = ((instruction >> 4u16) & 0xF) as u8;
        let nibble_4: u8 = (instruction & 0xF) as u8;
        assert(((instruction >> 8u16) & 0xF) < 16) by (bit_vector);
        assert(((instruction >> 4u16) & 0xF) < 16) by (bit_vector);
        assert((instruction & 0xF) < 16) by (bit_vector);
        let instruction_type: InstructionType = InstructionType::from_opcode(&opcode);
        InstructionToken { opcode, nibble_2, nibble_3, nibble_4, instruction_type }
    }

    /// The current register file and memory, as a pair of word sequences
    pub fn coredump(&self) -> (r: (Vec<u16>, Vec<u16>))
        ensures
            r.0@ == self@.registers,
            r.1@ == self@.memory,
    {
        let mut dump_registers: Vec<u16> = Vec::new();
        let mut i: usize = 0;
        while i < REGISTER_COUNT
            invariant
                i <= REGISTER_COUNT,
                dump_registers@ == self.registers@.subrange(0, i as int),
            decreases REGISTER_COUNT - i,
        {
            dump_registers.push(self.registers[i]);
            i = i + 1;
            assert(dump_registers@ =~= self.registers@.subrange(0, i as int));
        }
        let mut dump_memory: Vec<u16> = Vec::new();
        let mut j: usize = 0;
        while j < MEMORY_WORDS
            invariant
                j <= MEMORY_WORDS,
                dump_memory@ == self.memory@.subrange(0, j as int),
            decreases MEMORY_WORDS - j,
        {
            dump_memory.push(self.memory[j]);
            j = j + 1;
            assert(dump_memory@ =~= self.memory@.subrange(0, j as int));
        }
        assert(dump_registers@ =~= self.registers@);
        assert(dump_memory@ =~= self.memory@);
        (dump_registers, dump_memory)
    }

    /// Number of clocks completed so far
    pub fn clock_cycle(&self) -> (r: u64)
        ensures
            r == self@.clock_cycle,
    {
        self.clock_cycle
    }

    /// Whether a core dump should also be written out as a file
    pub fn dump_to_file(&self) -> (r: bool)
        ensures
            r == self@.dump_to_file,
    {
        self.dump_to_file
    }
}

} // verus!
