//! What executing one instruction does, clock by clock, stated at the level
//! of the instruction set and proved from the clock-level semantics.

use vstd::prelude::*;

use crate::alu::{alu_result, shift_right_arithmetic, sign_bit};
use crate::processor::{ProcessorState, PC};
use crate::types::{alu_operation_of, token_of, AluOperation, Opcode, RunState, State};

verus! {

/// The processor after `n` clocks.
pub open spec fn run_clocks(s: ProcessorState, n: nat) -> ProcessorState
    decreases n,
{
    if n == 0 {
        s
    } else {
        run_clocks(s.clock().0, (n - 1) as nat)
    }
}

/// Each of the next `n` clocks reports that the processor continues.
pub open spec fn keeps_running(s: ProcessorState, n: nat) -> bool
    decreases n,
{
    n == 0 || (s.clock().1 == RunState::Continue && keeps_running(s.clock().0, (n - 1) as nat))
}

/// The register file once the program counter has moved past the fetched
/// instruction.
pub open spec fn after_fetch(registers: Seq<u16>) -> Seq<u16> {
    registers.update(PC as int, ((registers[PC as int] + 1) % 0x10000) as u16)
}

/// The instruction word at the program counter.
pub open spec fn current_word(registers: Seq<u16>, memory: Seq<u16>) -> u16 {
    memory[registers[PC as int] as int]
}

proof fn lemma_token_wf(word: u16)
    ensures
        token_of(word).wf(),
{
    assert(((word >> 8u16) & 0xF) < 16) by (bit_vector);
    assert(((word >> 4u16) & 0xF) < 16) by (bit_vector);
    assert((word & 0xF) < 16) by (bit_vector);
}

proof fn lemma_run_clocks_split(s: ProcessorState, a: nat, b: nat)
    ensures
        run_clocks(s, a + b) == run_clocks(run_clocks(s, a), b),
        keeps_running(s, a + b) == (keeps_running(s, a) && keeps_running(run_clocks(s, a), b)),
    decreases a,
{
    if a > 0 {
        lemma_run_clocks_split(s.clock().0, (a - 1) as nat, b);
        assert((a + b - 1) as nat == (a - 1) as nat + b);
    }
}

/// Three clocks fetch and decode the instruction at the program counter:
/// the program counter has advanced, the token is latched, the read
/// latches hold the registers that it names, and the state machine is in
/// `Decode`, ready to dispatch on the token's opcode.
proof fn lemma_fetch_decode(registers: Seq<u16>, memory: Seq<u16>, dump: bool)
    requires
        registers.len() == 16,
        memory.len() == 65536,
    ensures
        ({
            let s0 = ProcessorState::initial(registers, memory, dump);
            let t = token_of(current_word(registers, memory));
            let s3 = run_clocks(s0, 3);
            let r = after_fetch(registers);
            &&& keeps_running(s0, 3)
            &&& s3.wf()
            &&& s3.clock_cycle == 3
            &&& s3.breakpoint == u64::MAX
            &&& s3.fsm.state == State::Decode
            &&& s3.instruction_token == t
            &&& s3.registers == r
            &&& s3.memory == memory
            &&& s3.pipeline.register_read_a == r[t.nibble_3 as int]
            &&& s3.pipeline.register_read_b == r[t.nibble_4 as int]
        }),
{
    let s0 = ProcessorState::initial(registers, memory, dump);
    let w = current_word(registers, memory);
    lemma_token_wf(w);
    reveal(ProcessorState::clock);
    let s1 = s0.clock().0;
    assert(s0.clock().1 == RunState::Continue);
    assert(s1.pipeline.register_read_b == registers[PC as int]);
    let s2 = s1.clock().0;
    assert(s1.clock().1 == RunState::Continue);
    assert(s2.instruction_register == w);
    assert(s2.pipeline.alu_output == ((registers[PC as int] + 1) % 0x10000) as u16);
    let s3 = s2.clock().0;
    assert(s2.clock().1 == RunState::Continue);
    assert(s3.registers == after_fetch(registers));
    let t = token_of(w);
    assert(s3.wf());
    assert(s3.clock_cycle == 3);
    assert(s3.fsm.state == State::Decode);
    assert(s3.instruction_token == t);
    assert(s3.memory == memory);
    assert(s3.pipeline.register_read_a == after_fetch(registers)[t.nibble_3 as int]);
    assert(s3.pipeline.register_read_b == after_fetch(registers)[t.nibble_4 as int]);
    assert(run_clocks(s0, 3) == s3) by {
        reveal_with_fuel(run_clocks, 4);
    }
    assert(keeps_running(s0, 3)) by {
        reveal_with_fuel(keeps_running, 4);
    }
}

/// A clock in the middle of an instruction: the state machine advances,
/// and neither a terminate nor a special signal stops the processor.
proof fn lemma_mid_clock(s: ProcessorState)
    requires
        s.wf(),
        0 < s.clock_cycle < s.breakpoint,
        !s.advance().control_signals.terminate,
        !s.advance().control_signals.process_special,
    ensures
        s.clock() == (ProcessorState {
            clock_cycle: (s.clock_cycle + 1) as u64,
            ..s.advance().alu_stage().decode_stage().memory_read_stage().memory_write_stage().write_back_stage().refresh_stage()
        }, RunState::Continue),
{
    reveal(ProcessorState::clock);
}

/// A clock whose only effects are the ALU stage and the refresh of the read
/// latches from the token's nibbles.
proof fn lemma_alu_clock(s: ProcessorState)
    requires
        s.wf(),
        0 < s.clock_cycle < s.breakpoint,
        ({
            let c = s.advance().control_signals;
            &&& !c.terminate && !c.process_special && !c.decode && !c.read_pc
            &&& !c.memory_read && !c.memory_write && !c.register_write && !c.write_pc
        }),
    ensures
        ({
            let a = s.advance();
            let n = s.clock().0;
            &&& s.clock().1 == RunState::Continue
            &&& n.wf()
            &&& n.clock_cycle == s.clock_cycle + 1
            &&& n.breakpoint == s.breakpoint
            &&& n.fsm == a.fsm
            &&& n.registers == s.registers
            &&& n.memory == s.memory
            &&& n.instruction_token == s.instruction_token
            &&& n.pipeline.alu_output == a.alu_stage().pipeline.alu_output
            &&& n.pipeline.alu_zero == a.alu_stage().pipeline.alu_zero
            &&& n.pipeline.alu_carry == a.alu_stage().pipeline.alu_carry
            &&& n.pipeline.register_read_a == s.registers[s.instruction_token.nibble_3 as int]
            &&& n.pipeline.register_read_b == s.registers[s.instruction_token.nibble_4 as int]
        }),
{
    lemma_mid_clock(s);
    let b = s.advance().alu_stage();
    assert(b.decode_stage() == b);
    assert(b.memory_read_stage() == b);
    assert(b.memory_write_stage() == b);
    assert(b.write_back_stage() == b);
}

/// A clock whose only effects are a register write-back and the refresh of
/// the read latches.
proof fn lemma_write_clock(s: ProcessorState)
    requires
        s.wf(),
        0 < s.clock_cycle < s.breakpoint,
        ({
            let c = s.advance().control_signals;
            &&& !c.terminate && !c.process_special && !c.decode
            &&& !c.memory_read && !c.memory_write && c.alu_operation == AluOperation::Inactive
        }),
    ensures
        ({
            let a = s.advance();
            let n = s.clock().0;
            &&& s.clock().1 == RunState::Continue
            &&& n.wf()
            &&& n.clock_cycle == s.clock_cycle + 1
            &&& n.breakpoint == s.breakpoint
            &&& n.fsm == a.fsm
            &&& n.registers == a.write_back_stage().registers
            &&& n.memory == s.memory
            &&& n.instruction_token == s.instruction_token
            &&& n.pipeline.alu_output == s.pipeline.alu_output
            &&& n.pipeline.memory_data == s.pipeline.memory_data
            &&& a.control_signals.read_pc ==> n.pipeline.register_read_b == n.registers[PC as int]
        }),
{
    lemma_mid_clock(s);
    let a = s.advance();
    assert(a.alu_stage() == a);
    assert(a.decode_stage() == a);
    assert(a.memory_read_stage() == a);
    assert(a.memory_write_stage() == a);
}

/// A clock whose only effects are a memory read or write at the address
/// that the address source selects, and the refresh of the read latches.
proof fn lemma_memory_clock(s: ProcessorState)
    requires
        s.wf(),
        0 < s.clock_cycle < s.breakpoint,
        ({
            let c = s.advance().control_signals;
            &&& !c.terminate && !c.process_special && !c.decode && !c.instruction_register_write
            &&& !c.register_write && !c.write_pc && c.alu_operation == AluOperation::Inactive
        }),
    ensures
        ({
            let a = s.advance();
            let c = a.control_signals;
            let address = a.memory_address() as int;
            let n = s.clock().0;
            &&& s.clock().1 == RunState::Continue
            &&& n.wf()
            &&& n.clock_cycle == s.clock_cycle + 1
            &&& n.breakpoint == s.breakpoint
            &&& n.fsm == a.fsm
            &&& n.registers == s.registers
            &&& n.memory == if c.memory_write {
                s.memory.update(address, s.pipeline.register_read_a)
            } else {
                s.memory
            }
            &&& n.pipeline.memory_data == if c.memory_read {
                s.memory[address]
            } else {
                s.pipeline.memory_data
            }
            &&& n.instruction_token == s.instruction_token
        }),
{
    lemma_mid_clock(s);
    let a = s.advance();
    assert(a.alu_stage() == a);
    assert(a.decode_stage() == a);
    let m = a.memory_read_stage().memory_write_stage();
    assert(m.write_back_stage() == m);
}

/// An arithmetic instruction takes five clocks and stores the ALU's result
/// on the registers that nibbles 3 and 4 name (read once the program counter
/// has advanced) into the register that nibble 2 names; memory is untouched.
proof fn lemma_arithmetic(registers: Seq<u16>, memory: Seq<u16>, dump: bool)
    requires
        registers.len() == 16,
        memory.len() == 65536,
        token_of(current_word(registers, memory)).opcode.is_arithmetic(),
    ensures
        ({
            let s0 = ProcessorState::initial(registers, memory, dump);
            let t = token_of(current_word(registers, memory));
            let r = after_fetch(registers);
            let v = alu_result(r[t.nibble_3 as int], r[t.nibble_4 as int], alu_operation_of(t.opcode));
            &&& keeps_running(s0, 5)
            &&& run_clocks(s0, 5).registers == r.update(t.nibble_2 as int, v)
            &&& run_clocks(s0, 5).memory == memory
        }),
{
    let s0 = ProcessorState::initial(registers, memory, dump);
    lemma_fetch_decode(registers, memory, dump);
    let s3 = run_clocks(s0, 3);
    let t = token_of(current_word(registers, memory));
    assert(s3.advance().fsm.state == State::ArithmeticOperation);
    lemma_alu_clock(s3);
    let s4 = s3.clock().0;
    assert(s4.advance().fsm.state == State::ArithmeticWriteBack);
    lemma_write_clock(s4);
    let s5 = s4.clock().0;
    assert(run_clocks(s3, 2) == s5) by {
        reveal_with_fuel(run_clocks, 3);
    }
    assert(keeps_running(s3, 2)) by {
        reveal_with_fuel(keeps_running, 3);
    }
    lemma_run_clocks_split(s0, 3, 2);
}

/// The processor built from a register file and memory image, after `n`
/// clocks.
pub open spec fn after_clocks(registers: Seq<u16>, memory: Seq<u16>, dump: bool, n: nat) -> ProcessorState {
    run_clocks(ProcessorState::initial(registers, memory, dump), n)
}

/// The image is a full register file and a full memory.
pub open spec fn full_image(registers: Seq<u16>, memory: Seq<u16>) -> bool {
    registers.len() == 16 && memory.len() == 65536
}

/// Add `0_A_B_C` runs for five clocks and leaves in register A the sum of
/// registers B and C modulo 2^16 (read once the program counter has moved
/// past the instruction); where A is B and neither B nor C is the program
/// counter, that is register B's old value plus register C's.
pub proof fn add_law(registers: Seq<u16>, memory: Seq<u16>, dump: bool)
    requires
        full_image(registers, memory),
        token_of(current_word(registers, memory)).opcode == Opcode::Add,
    ensures
        ({
            let t = token_of(current_word(registers, memory));
            let (a, b, c) = (t.nibble_2 as int, t.nibble_3 as int, t.nibble_4 as int);
            let r = after_fetch(registers);
            let out = after_clocks(registers, memory, dump, 5).registers;
            &&& keeps_running(ProcessorState::initial(registers, memory, dump), 5)
            &&& out[a] == (r[b] + r[c]) % 0x10000
            &&& (a == b && b != PC && c != PC) ==> out[b] == (registers[b] + registers[c]) % 0x10000
        }),
{
    lemma_arithmetic(registers, memory, dump);
    lemma_token_wf(current_word(registers, memory));
}

/// Subtract `1_A_B_C` leaves in register A register B minus register C,
/// wrapped modulo 2^16; where A is B and neither is the program counter,
/// that is register B's old value minus register C's.
pub proof fn subtract_law(registers: Seq<u16>, memory: Seq<u16>, dump: bool)
    requires
        full_image(registers, memory),
        token_of(current_word(registers, memory)).opcode == Opcode::Subtract,
    ensures
        ({
            let t = token_of(current_word(registers, memory));
            let (a, b, c) = (t.nibble_2 as int, t.nibble_3 as int, t.nibble_4 as int);
            let r = after_fetch(registers);
            let out = after_clocks(registers, memory, dump, 5).registers;
            &&& keeps_running(ProcessorState::initial(registers, memory, dump), 5)
            &&& out[a] == (r[b] - r[c]) % 0x10000
            &&& (a == b && b != PC && c != PC) ==> out[b] == (registers[b] - registers[c]) % 0x10000
        }),
{
    lemma_arithmetic(registers, memory, dump);
    lemma_token_wf(current_word(registers, memory));
}

/// And `2_A_B_C` and Or `3_A_B_C` leave in register A the bitwise and, or
/// the bitwise or, of registers B and C.
pub proof fn and_or_law(registers: Seq<u16>, memory: Seq<u16>, dump: bool)
    requires
        full_image(registers, memory),
        token_of(current_word(registers, memory)).opcode == Opcode::And
            || token_of(current_word(registers, memory)).opcode == Opcode::Or,
    ensures
        ({
            let t = token_of(current_word(registers, memory));
            let (a, b, c) = (t.nibble_2 as int, t.nibble_3 as int, t.nibble_4 as int);
            let r = after_fetch(registers);
            let out = after_clocks(registers, memory, dump, 5).registers;
            &&& keeps_running(ProcessorState::initial(registers, memory, dump), 5)
            &&& t.opcode == Opcode::And ==> out[a] == r[b] & r[c]
            &&& t.opcode == Opcode::Or ==> out[a] == r[b] | r[c]
        }),
{
    lemma_arithmetic(registers, memory, dump);
    lemma_token_wf(current_word(registers, memory));
}

/// ShiftLeft `6_A_B_C` leaves in register A register B shifted left by the
/// value of register C, truncated to 16 bits; from a shift of 16 on, zero.
pub proof fn shift_left_law(registers: Seq<u16>, memory: Seq<u16>, dump: bool)
    requires
        full_image(registers, memory),
        token_of(current_word(registers, memory)).opcode == Opcode::ShiftLeft,
    ensures
        ({
            let t = token_of(current_word(registers, memory));
            let (a, b, c) = (t.nibble_2 as int, t.nibble_3 as int, t.nibble_4 as int);
            let r = after_fetch(registers);
            let out = after_clocks(registers, memory, dump, 5).registers;
            &&& keeps_running(ProcessorState::initial(registers, memory, dump), 5)
            &&& r[c] < 16 ==> out[a] == r[b] << r[c]
            &&& r[c] >= 16 ==> out[a] == 0
        }),
{
    lemma_arithmetic(registers, memory, dump);
    lemma_token_wf(current_word(registers, memory));
}

/// ShiftRightLogical `7_A_B_C` leaves in register A register B shifted
/// right by the value of register C with zero fill; from 16 on, zero.
pub proof fn shift_right_logical_law(registers: Seq<u16>, memory: Seq<u16>, dump: bool)
    requires
        full_image(registers, memory),
        token_of(current_word(registers, memory)).opcode == Opcode::ShiftRightLogical,
    ensures
        ({
            let t = token_of(current_word(registers, memory));
            let (a, b, c) = (t.nibble_2 as int, t.nibble_3 as int, t.nibble_4 as int);
            let r = after_fetch(registers);
            let out = after_clocks(registers, memory, dump, 5).registers;
            &&& keeps_running(ProcessorState::initial(registers, memory, dump), 5)
            &&& r[c] < 16 ==> out[a] == r[b] >> r[c]
            &&& r[c] >= 16 ==> out[a] == 0
        }),
{
    lemma_arithmetic(registers, memory, dump);
    lemma_token_wf(current_word(registers, memory));
}

/// Bit `i` of a word.
pub open spec fn bit(w: u16, i: u16) -> bool {
    (w >> i) & 1 == 1
}

/// An arithmetic right shift keeps bit 15 in every vacated high bit and
/// moves each other bit down by the shift.
pub proof fn shift_right_arithmetic_bits(a: u16, b: u16, i: u16)
    requires
        i < 16,
    ensures
        i + b < 16 ==> bit(shift_right_arithmetic(a, b), i) == bit(a, (i + b) as u16),
        i + b >= 16 ==> bit(shift_right_arithmetic(a, b), i) == bit(a, 15),
{
    let r = shift_right_arithmetic(a, b);
    if b >= 16 {
        assert(bit(0xFFFF, i) && !bit(0, i)) by (bit_vector)
            requires i < 16;
        assert(sign_bit(a) == bit(a, 15)) by (bit_vector);
    } else if sign_bit(a) {
        assert(a & 0x8000 != 0 && b < 16 && i < 16 ==> {
            let r = (a >> b) | !(0xFFFFu16 >> b);
            &&& (i + b < 16 ==> ((r >> i) & 1 == 1) == ((a >> ((i + b) as u16)) & 1 == 1))
            &&& (i + b >= 16 ==> ((r >> i) & 1 == 1))
        }) by (bit_vector);
        assert(sign_bit(a) == bit(a, 15)) by (bit_vector);
    } else {
        assert(a & 0x8000 == 0 && b < 16 && i < 16 ==> {
            let r = a >> b;
            &&& (i + b < 16 ==> ((r >> i) & 1 == 1) == ((a >> ((i + b) as u16)) & 1 == 1))
            &&& (i + b >= 16 ==> ((r >> i) & 1 == 0))
        }) by (bit_vector);
        assert(sign_bit(a) == bit(a, 15)) by (bit_vector);
    }
}

/// ShiftRightArithmetic `8_A_B_C` leaves in register A register B shifted
/// right by the value of register C, with bit 15 of register B copied into
/// every vacated high bit.
pub proof fn shift_right_arithmetic_law(registers: Seq<u16>, memory: Seq<u16>, dump: bool)
    requires
        full_image(registers, memory),
        token_of(current_word(registers, memory)).opcode == Opcode::ShiftRightArithmetic,
    ensures
        ({
            let t = token_of(current_word(registers, memory));
            let (a, b, c) = (t.nibble_2 as int, t.nibble_3 as int, t.nibble_4 as int);
            let r = after_fetch(registers);
            let out = after_clocks(registers, memory, dump, 5).registers;
            &&& keeps_running(ProcessorState::initial(registers, memory, dump), 5)
            &&& out[a] == shift_right_arithmetic(r[b], r[c])
            &&& forall|i: u16|
                i < 16 ==> (if i + r[c] < 16 {
                    bit(out[a], i) == bit(r[b], (i + r[c]) as u16)
                } else {
                    bit(out[a], i) == bit(r[b], 15)
                })
        }),
{
    lemma_arithmetic(registers, memory, dump);
    let t = token_of(current_word(registers, memory));
    lemma_token_wf(current_word(registers, memory));
    let r = after_fetch(registers);
    assert forall|i: u16| i < 16 implies (if i + r[t.nibble_4 as int] < 16 {
        bit(shift_right_arithmetic(r[t.nibble_3 as int], r[t.nibble_4 as int]), i)
            == bit(r[t.nibble_3 as int], (i + r[t.nibble_4 as int]) as u16)
    } else {
        bit(shift_right_arithmetic(r[t.nibble_3 as int], r[t.nibble_4 as int]), i)
            == bit(r[t.nibble_3 as int], 15)
    }) by {
        shift_right_arithmetic_bits(r[t.nibble_3 as int], r[t.nibble_4 as int], i);
    }
}

/// SetIfLess `4_A_B_C` and SetIfEqual `5_A_B_C` run for five clocks and
/// leave 1 in register A when register B is below (unsigned), or equal to,
/// register C, and 0 otherwise; where A is B and neither is the program
/// counter, that compares the old values of B and C.
pub proof fn set_if_law(registers: Seq<u16>, memory: Seq<u16>, dump: bool)
    requires
        full_image(registers, memory),
        token_of(current_word(registers, memory)).opcode == Opcode::SetIfLess
            || token_of(current_word(registers, memory)).opcode == Opcode::SetIfEqual,
    ensures
        ({
            let t = token_of(current_word(registers, memory));
            let (a, b, c) = (t.nibble_2 as int, t.nibble_3 as int, t.nibble_4 as int);
            let r = after_fetch(registers);
            let out = after_clocks(registers, memory, dump, 5).registers;
            let holds = if t.opcode == Opcode::SetIfLess {
                r[b] < r[c]
            } else {
                r[b] == r[c]
            };
            &&& keeps_running(ProcessorState::initial(registers, memory, dump), 5)
            &&& out == r.update(a, if holds { 1u16 } else { 0u16 })
            &&& (a == b && b != PC && c != PC) ==> (out[b] == 1 <==> (if t.opcode == Opcode::SetIfLess {
                registers[b] < registers[c]
            } else {
                registers[b] == registers[c]
            }))
            &&& out[a] == 0 || out[a] == 1
        }),
{
    let s0 = ProcessorState::initial(registers, memory, dump);
    lemma_fetch_decode(registers, memory, dump);
    let s3 = run_clocks(s0, 3);
    assert(s3.advance().fsm.state == State::SetIf);
    lemma_alu_clock(s3);
    let s4 = s3.clock().0;
    lemma_write_clock(s4);
    let s5 = s4.clock().0;
    assert(run_clocks(s3, 2) == s5) by {
        reveal_with_fuel(run_clocks, 3);
    }
    assert(keeps_running(s3, 2)) by {
        reveal_with_fuel(keeps_running, 3);
    }
    lemma_run_clocks_split(s0, 3, 2);
}

/// The low byte of an instruction word, as the byte write-back source
/// rebuilds it from the token's last two nibbles.
proof fn lemma_byte(w: u16)
    ensures
        ((token_of(w).nibble_3 as u16) << 4u16) | (token_of(w).nibble_4 as u16) == w & 0xFF,
{
    lemma_token_wf(w);
    let n3 = (w >> 4u16) & 0xF;
    let n4 = w & 0xF;
    assert(((w >> 4u16) & 0xF) < 16) by (bit_vector);
    assert((w & 0xF) < 16) by (bit_vector);
    assert(token_of(w).nibble_3 as u16 == n3);
    assert(token_of(w).nibble_4 as u16 == n4);
    assert((((w >> 4u16) & 0xF) << 4u16) | (w & 0xF) == w & 0xFF) by (bit_vector);
}

/// SetLower `9_A_H_L` runs for four clocks and leaves in register A the
/// byte `HL`, upper byte clear.
pub proof fn set_lower_law(registers: Seq<u16>, memory: Seq<u16>, dump: bool)
    requires
        full_image(registers, memory),
        token_of(current_word(registers, memory)).opcode == Opcode::SetLower,
    ensures
        ({
            let t = token_of(current_word(registers, memory));
            let out = after_clocks(registers, memory, dump, 4).registers;
            &&& keeps_running(ProcessorState::initial(registers, memory, dump), 4)
            &&& out == after_fetch(registers).update(t.nibble_2 as int, current_word(registers, memory) & 0xFF)
        }),
{
    let s0 = ProcessorState::initial(registers, memory, dump);
    let w = current_word(registers, memory);
    lemma_fetch_decode(registers, memory, dump);
    let s3 = run_clocks(s0, 3);
    lemma_write_clock(s3);
    let s4 = s3.clock().0;
    lemma_byte(w);
    assert(run_clocks(s3, 1) == s4) by {
        reveal_with_fuel(run_clocks, 2);
    }
    assert(keeps_running(s3, 1)) by {
        reveal_with_fuel(keeps_running, 2);
    }
    lemma_run_clocks_split(s0, 3, 1);
}

/// SetUpper `A_A_H_L` runs for four clocks and ORs the byte `HL`, shifted
/// into the upper byte, into register A.
pub proof fn set_upper_law(registers: Seq<u16>, memory: Seq<u16>, dump: bool)
    requires
        full_image(registers, memory),
        token_of(current_word(registers, memory)).opcode == Opcode::SetUpper,
    ensures
        ({
            let t = token_of(current_word(registers, memory));
            let a = t.nibble_2 as int;
            let r = after_fetch(registers);
            let byte = (current_word(registers, memory) & 0xFF) as u16;
            let out = after_clocks(registers, memory, dump, 4).registers;
            &&& keeps_running(ProcessorState::initial(registers, memory, dump), 4)
            &&& out == r.update(a, (byte << 8u16) | r[a])
            &&& a != PC ==> out[a] == (byte << 8u16) | registers[a]
        }),
{
    let s0 = ProcessorState::initial(registers, memory, dump);
    let w = current_word(registers, memory);
    lemma_fetch_decode(registers, memory, dump);
    let s3 = run_clocks(s0, 3);
    lemma_write_clock(s3);
    let s4 = s3.clock().0;
    lemma_byte(w);
    let t = token_of(w);
    let v = w & 0xFF;
    let x = s3.registers[t.nibble_2 as int];
    assert(x | (v << 8u16) == (v << 8u16) | x) by (bit_vector);
    assert(run_clocks(s3, 1) == s4) by {
        reveal_with_fuel(run_clocks, 2);
    }
    assert(keeps_running(s3, 1)) by {
        reveal_with_fuel(keeps_running, 2);
    }
    lemma_run_clocks_split(s0, 3, 1);
}

/// LoadWord `B_O_D_S` runs for six clocks and loads into register D the
/// word at the address register S plus the offset O (wrapping at 2^16);
/// memory is untouched. Where D and S are one register other than the
/// program counter, that is the word at its old value plus O.
pub proof fn load_word_law(registers: Seq<u16>, memory: Seq<u16>, dump: bool)
    requires
        full_image(registers, memory),
        token_of(current_word(registers, memory)).opcode == Opcode::LoadWord,
    ensures
        ({
            let t = token_of(current_word(registers, memory));
            let (o, d, src) = (t.nibble_2 as int, t.nibble_3 as int, t.nibble_4 as int);
            let r = after_fetch(registers);
            let p = after_clocks(registers, memory, dump, 6);
            &&& keeps_running(ProcessorState::initial(registers, memory, dump), 6)
            &&& p.registers == r.update(d, memory[(r[src] + o) % 0x10000])
            &&& p.memory == memory
            &&& (d == src && d != PC) ==> p.registers[d] == memory[(registers[d] + o) % 0x10000]
        }),
{
    let s0 = ProcessorState::initial(registers, memory, dump);
    lemma_fetch_decode(registers, memory, dump);
    let s3 = run_clocks(s0, 3);
    assert(s3.advance().fsm.state == State::Memory);
    lemma_alu_clock(s3);
    let s4 = s3.clock().0;
    assert(s4.advance().fsm.state == State::MemoryRead);
    lemma_memory_clock(s4);
    let s5 = s4.clock().0;
    assert(s5.advance().fsm.state == State::MemoryReadRegisterWriteback);
    lemma_write_clock(s5);
    let s6 = s5.clock().0;
    assert(run_clocks(s3, 3) == s6) by {
        reveal_with_fuel(run_clocks, 4);
    }
    assert(keeps_running(s3, 3)) by {
        reveal_with_fuel(keeps_running, 4);
    }
    lemma_run_clocks_split(s0, 3, 3);
}

/// SaveWord `C_O_D_S` runs for five clocks and stores register D at the
/// address register S plus the offset O (wrapping at 2^16); the registers
/// keep their values.
pub proof fn save_word_law(registers: Seq<u16>, memory: Seq<u16>, dump: bool)
    requires
        full_image(registers, memory),
        token_of(current_word(registers, memory)).opcode == Opcode::SaveWord,
    ensures
        ({
            let t = token_of(current_word(registers, memory));
            let (o, d, a) = (t.nibble_2 as int, t.nibble_3 as int, t.nibble_4 as int);
            let r = after_fetch(registers);
            let p = after_clocks(registers, memory, dump, 5);
            &&& keeps_running(ProcessorState::initial(registers, memory, dump), 5)
            &&& p.memory == memory.update((r[a] + o) % 0x10000, r[d])
            &&& p.registers == r
            &&& (d != PC && a != PC) ==> p.memory[(registers[a] + o) % 0x10000] == registers[d]
        }),
{
    let s0 = ProcessorState::initial(registers, memory, dump);
    lemma_fetch_decode(registers, memory, dump);
    let s3 = run_clocks(s0, 3);
    assert(s3.advance().fsm.state == State::Memory);
    lemma_alu_clock(s3);
    let s4 = s3.clock().0;
    assert(s4.advance().fsm.state == State::MemoryWrite);
    lemma_memory_clock(s4);
    let s5 = s4.clock().0;
    assert(run_clocks(s3, 2) == s5) by {
        reveal_with_fuel(run_clocks, 3);
    }
    assert(keeps_running(s3, 2)) by {
        reveal_with_fuel(keeps_running, 3);
    }
    lemma_run_clocks_split(s0, 3, 2);
}

/// SetPcIf `D_T_A_B`: when registers A and B are equal the program counter
/// becomes T, the nibble itself, else it stays past the instruction. Either
/// way the next instruction fetch starts from the program counter: the
/// state machine is back in `PcRead` with the program counter latched as
/// the fetch address, after six clocks when taken and five when not.
pub proof fn set_pc_if_law(registers: Seq<u16>, memory: Seq<u16>, dump: bool)
    requires
        full_image(registers, memory),
        token_of(current_word(registers, memory)).opcode == Opcode::SetPcIf,
    ensures
        ({
            let t = token_of(current_word(registers, memory));
            let r = after_fetch(registers);
            let taken = r[t.nibble_3 as int] == r[t.nibble_4 as int];
            let n: nat = if taken { 6 } else { 5 };
            let p = after_clocks(registers, memory, dump, n);
            let target = if taken { t.nibble_2 as u16 } else { r[PC as int] };
            &&& keeps_running(ProcessorState::initial(registers, memory, dump), n)
            &&& p.fsm.state == State::PcRead
            &&& p.registers == r.update(PC as int, target)
            &&& p.pipeline.register_read_b == target
            &&& p.memory == memory
        }),
{
    let s0 = ProcessorState::initial(registers, memory, dump);
    let t = token_of(current_word(registers, memory));
    let r = after_fetch(registers);
    lemma_fetch_decode(registers, memory, dump);
    let s3 = run_clocks(s0, 3);
    assert(s3.advance().fsm.state == State::SetPcTest);
    lemma_alu_clock(s3);
    let s4 = s3.clock().0;
    assert(s4.pipeline.alu_zero == (r[t.nibble_3 as int] == r[t.nibble_4 as int]));
    lemma_write_clock(s4);
    let s5 = s4.clock().0;
    if r[t.nibble_3 as int] == r[t.nibble_4 as int] {
        assert(s4.advance().fsm.state == State::SetPcWriteback);
        assert(s5.fsm.state == State::SetPcWriteback);
        lemma_write_clock(s5);
        let s6 = s5.clock().0;
        assert(s6.registers =~= r.update(PC as int, t.nibble_2 as u16));
        assert(run_clocks(s3, 3) == s6) by {
            reveal_with_fuel(run_clocks, 4);
        }
        assert(keeps_running(s3, 3)) by {
            reveal_with_fuel(keeps_running, 4);
        }
        lemma_run_clocks_split(s0, 3, 3);
    } else {
        assert(s4.advance().fsm.state == State::PcRead);
        assert(s5.registers =~= r.update(PC as int, r[PC as int]));
        assert(run_clocks(s3, 2) == s5) by {
            reveal_with_fuel(run_clocks, 3);
        }
        assert(keeps_running(s3, 2)) by {
            reveal_with_fuel(keeps_running, 3);
        }
        lemma_run_clocks_split(s0, 3, 2);
    }
}

/// From a processor between instructions (its next clock enters `PcRead`),
/// three clocks fetch and decode the instruction at the program counter.
proof fn lemma_next_fetch(s: ProcessorState)
    requires
        s.wf(),
        0 < s.clock_cycle,
        s.clock_cycle + 3 < s.breakpoint,
        s.advance().fsm.state == State::PcRead,
    ensures
        ({
            let t = token_of(current_word(s.registers, s.memory));
            let s3 = run_clocks(s, 3);
            let r = after_fetch(s.registers);
            &&& keeps_running(s, 3)
            &&& s3.wf()
            &&& s3.clock_cycle == s.clock_cycle + 3
            &&& s3.breakpoint == s.breakpoint
            &&& s3.fsm.state == State::Decode
            &&& s3.instruction_token == t
            &&& s3.registers == r
            &&& s3.memory == s.memory
            &&& s3.pipeline.register_read_a == r[t.nibble_3 as int]
            &&& s3.pipeline.register_read_b == r[t.nibble_4 as int]
        }),
{
    let w = current_word(s.registers, s.memory);
    lemma_token_wf(w);
    lemma_write_clock(s);
    let s1 = s.clock().0;
    assert(s1.pipeline.register_read_b == s.registers[PC as int]);
    lemma_mid_clock(s1);
    let a2 = s1.advance().alu_stage();
    assert(a2.pipeline.alu_output == ((s.registers[PC as int] + 1) % 0x10000) as u16);
    let b2 = a2.decode_stage().memory_read_stage();
    assert(b2.instruction_register == w);
    assert(b2.memory_write_stage() == b2);
    assert(b2.write_back_stage() == b2);
    let s2 = s1.clock().0;
    assert(s2.instruction_register == w);
    lemma_mid_clock(s2);
    let a3 = s2.advance();
    assert(a3.fsm.state == State::Decode);
    assert(a3.alu_stage() == a3);
    let b3 = a3.decode_stage();
    assert(b3.instruction_token == token_of(w));
    assert(b3.memory_read_stage() == b3);
    assert(b3.memory_write_stage() == b3);
    let c3 = b3.write_back_stage();
    assert(c3.registers == after_fetch(s.registers));
    let s3 = s2.clock().0;
    assert(run_clocks(s, 3) == s3) by {
        reveal_with_fuel(run_clocks, 4);
    }
    assert(keeps_running(s, 3)) by {
        reveal_with_fuel(keeps_running, 4);
    }
}

/// A SaveWord followed by a LoadWord at the same effective address loads
/// the value saved: eleven clocks after the start, the load's destination
/// holds the register that the save stored. The save must not overwrite
/// the load instruction itself.
pub proof fn save_load_round_trip(registers: Seq<u16>, memory: Seq<u16>, dump: bool)
    requires
        full_image(registers, memory),
        token_of(current_word(registers, memory)).opcode == Opcode::SaveWord,
        ({
            let r1 = after_fetch(registers);
            let save = token_of(current_word(registers, memory));
            let address = (r1[save.nibble_4 as int] + save.nibble_2) % 0x10000;
            let load = token_of(memory[r1[PC as int] as int]);
            let r2 = after_fetch(r1);
            &&& address != r1[PC as int]
            &&& load.opcode == Opcode::LoadWord
            &&& (r2[load.nibble_4 as int] + load.nibble_2) % 0x10000 == address
        }),
    ensures
        ({
            let r1 = after_fetch(registers);
            let save = token_of(current_word(registers, memory));
            let load = token_of(memory[r1[PC as int] as int]);
            &&& keeps_running(ProcessorState::initial(registers, memory, dump), 11)
            &&& after_clocks(registers, memory, dump, 11).registers[load.nibble_3 as int]
                == r1[save.nibble_3 as int]
        }),
{
    let s0 = ProcessorState::initial(registers, memory, dump);
    let r1 = after_fetch(registers);
    let save = token_of(current_word(registers, memory));
    let address = (r1[save.nibble_4 as int] + save.nibble_2) % 0x10000;
    lemma_fetch_decode(registers, memory, dump);
    let s3 = run_clocks(s0, 3);
    lemma_alu_clock(s3);
    let s4 = s3.clock().0;
    assert(s4.advance().fsm.state == State::MemoryWrite);
    lemma_memory_clock(s4);
    let s5 = s4.clock().0;
    let m1 = memory.update(address, r1[save.nibble_3 as int]);
    assert(s5.memory == m1);
    assert(s5.registers == r1);
    assert(s5.advance().fsm.state == State::PcRead);
    assert(m1[r1[PC as int] as int] == memory[r1[PC as int] as int]);
    lemma_next_fetch(s5);
    let s8 = run_clocks(s5, 3);
    let load = token_of(memory[r1[PC as int] as int]);
    lemma_token_wf(memory[r1[PC as int] as int]);
    assert(s8.instruction_token == load);
    assert(s8.advance().fsm.state == State::Memory);
    lemma_alu_clock(s8);
    let s9 = s8.clock().0;
    assert(s9.advance().fsm.state == State::MemoryRead);
    lemma_memory_clock(s9);
    let s10 = s9.clock().0;
    assert(s10.pipeline.memory_data == r1[save.nibble_3 as int]);
    assert(s10.advance().fsm.state == State::MemoryReadRegisterWriteback);
    lemma_write_clock(s10);
    let s11 = s10.clock().0;
    assert(s11.registers[load.nibble_3 as int] == r1[save.nibble_3 as int]);
    assert(run_clocks(s3, 2) == s5 && keeps_running(s3, 2)) by {
        reveal_with_fuel(run_clocks, 3);
        reveal_with_fuel(keeps_running, 3);
    }
    assert(run_clocks(s8, 3) == s11 && keeps_running(s8, 3)) by {
        reveal_with_fuel(run_clocks, 4);
        reveal_with_fuel(keeps_running, 4);
    }
    lemma_run_clocks_split(s0, 3, 2);
    lemma_run_clocks_split(s0, 5, 3);
    lemma_run_clocks_split(s0, 8, 3);
}

} // verus!
