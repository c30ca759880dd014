use simulator::alu::Alu;
use simulator::instructions::{parse_instruction, parse_line, parse_program, LineContent, LoadError};
use simulator::processor::Processor;
use simulator::statemachine::StateMachine;
use simulator::types::{
    AddressSource, AluOperation, AluSource, InstructionToken, InstructionType, Opcode,
    RegisterWriteSource, RegisterWriteTarget, RunState,
};

#[test]
fn alu_add_sets_carry_and_zero() {
    let out = Alu::new().execute_operation(0xFFFF, 1, &AluOperation::Add);
    assert_eq!(out.result, 0);
    assert!(out.zero);
    assert!(out.carry);
    assert!(!out.negative);
}

#[test]
fn alu_negative_is_bit_fifteen() {
    let alu = Alu::new();
    let out = alu.execute_operation(0x7FFF, 1, &AluOperation::Add);
    assert_eq!(out.result, 0x8000);
    assert!(out.negative);
    let out = alu.execute_operation(0x8000, 0xFFFF, &AluOperation::And);
    assert!(out.negative);
    let out = alu.execute_operation(0x0001, 0x8000, &AluOperation::Or);
    assert!(out.negative);
    let out = alu.execute_operation(1, 15, &AluOperation::ShiftLeft);
    assert!(out.negative);
    let out = alu.execute_operation(0x8000, 1, &AluOperation::ShiftRightLogical);
    assert!(!out.negative);
}

#[test]
fn alu_subtract_borrows() {
    let out = Alu::new().execute_operation(1, 2, &AluOperation::Subtract);
    assert_eq!(out.result, 0xFFFF);
    assert!(out.negative);
    assert!(out.carry);
    assert!(!out.zero);
    let out = Alu::new().execute_operation(5, 5, &AluOperation::Subtract);
    assert_eq!(out.result, 0);
    assert!(out.zero);
    assert!(!out.carry);
}

#[test]
fn alu_shift_right_arithmetic() {
    let alu = Alu::new();
    assert_eq!(alu.execute_operation(0x8000, 4, &AluOperation::ShiftRightArithmetic).result, 0xF800);
    assert_eq!(alu.execute_operation(0x8000, 16, &AluOperation::ShiftRightArithmetic).result, 0xFFFF);
    assert_eq!(alu.execute_operation(0x7000, 4, &AluOperation::ShiftRightArithmetic).result, 0x0700);
    assert_eq!(alu.execute_operation(0x7000, 40, &AluOperation::ShiftRightArithmetic).result, 0);
}

#[test]
fn alu_inactive_outputs_zero() {
    let out = Alu::new().execute_operation(3, 4, &AluOperation::Inactive);
    assert_eq!(out.result, 0);
    assert!(!out.zero && !out.negative && !out.carry);
}

#[test]
fn opcode_table() {
    assert_eq!(Opcode::from_u8(0x0), Opcode::Add);
    assert_eq!(Opcode::from_u8(0x8), Opcode::ShiftRightArithmetic);
    assert_eq!(Opcode::from_u8(0xB), Opcode::LoadWord);
    assert_eq!(Opcode::from_u8(0xD), Opcode::SetPcIf);
    assert_eq!(Opcode::from_u8(0xE), Opcode::Invalid);
    assert_eq!(Opcode::from_u8(0xF), Opcode::Special);
    assert_eq!(Opcode::from_u8(0x1F), Opcode::Invalid);
}

#[test]
fn instruction_types() {
    assert_eq!(InstructionType::from_opcode(&Opcode::SetIfLess), InstructionType::Register);
    assert_eq!(InstructionType::from_opcode(&Opcode::SetUpper), InstructionType::SetByte);
    assert_eq!(InstructionType::from_opcode(&Opcode::SaveWord), InstructionType::Memory);
    assert_eq!(InstructionType::from_opcode(&Opcode::SetPcIf), InstructionType::Special);
    assert_eq!(InstructionType::from_opcode(&Opcode::Invalid), InstructionType::Invalid);
}

#[test]
fn alu_operation_of_opcode() {
    assert_eq!(AluOperation::from_opcode(&Opcode::SetIfLess), AluOperation::Subtract);
    assert_eq!(AluOperation::from_opcode(&Opcode::SetIfEqual), AluOperation::Subtract);
    assert_eq!(AluOperation::from_opcode(&Opcode::Or), AluOperation::Or);
}

fn token(opcode: Opcode) -> InstructionToken {
    InstructionToken {
        opcode,
        nibble_2: 0,
        nibble_3: 0,
        nibble_4: 0,
        instruction_type: InstructionType::from_opcode(&opcode),
    }
}

#[test]
fn state_machine_fetch_and_dispatch() {
    let mut fsm = StateMachine::new();
    let signals = fsm.get_control_signals();
    assert!(signals.read_pc && !signals.memory_read);
    fsm.next_state(&token(Opcode::LoadWord), false);
    let signals = fsm.get_control_signals();
    assert!(signals.memory_read && signals.instruction_register_write);
    assert_eq!(signals.alu_operation, AluOperation::Add);
    assert_eq!(signals.alu_source, AluSource::Constant1);
    fsm.next_state(&token(Opcode::LoadWord), false);
    let signals = fsm.get_control_signals();
    assert!(signals.decode && signals.write_pc);
    assert_eq!(signals.register_write_source, RegisterWriteSource::Alu);
    fsm.next_state(&token(Opcode::LoadWord), false);
    let signals = fsm.get_control_signals();
    assert_eq!(signals.alu_source, AluSource::MemoryOffset);
    fsm.next_state(&token(Opcode::LoadWord), false);
    let signals = fsm.get_control_signals();
    assert!(signals.memory_read);
    assert_eq!(signals.address_source, AddressSource::Alu);
    fsm.next_state(&token(Opcode::LoadWord), false);
    let signals = fsm.get_control_signals();
    assert_eq!(signals.register_write_source, RegisterWriteSource::Memory);
    assert_eq!(signals.write_register_target, RegisterWriteTarget::Nibble3);
    fsm.next_state(&token(Opcode::LoadWord), false);
    assert!(fsm.get_control_signals().read_pc);
}

#[test]
fn state_machine_set_pc_test_branches_on_zero() {
    let mut fsm = StateMachine::new();
    let t = token(Opcode::SetPcIf);
    fsm.next_state(&t, false);
    fsm.next_state(&t, false);
    fsm.next_state(&t, false);
    assert_eq!(fsm.get_control_signals().alu_operation, AluOperation::Subtract);
    fsm.next_state(&t, true);
    let signals = fsm.get_control_signals();
    assert!(signals.write_pc);
    assert_eq!(signals.register_write_source, RegisterWriteSource::InstructionNibble2);

    let mut fsm = StateMachine::new();
    fsm.next_state(&t, false);
    fsm.next_state(&t, false);
    fsm.next_state(&t, false);
    fsm.next_state(&t, false);
    assert!(fsm.get_control_signals().read_pc);
}

#[test]
fn state_machine_invalid_terminates_for_good() {
    let mut fsm = StateMachine::new();
    let t = token(Opcode::Invalid);
    fsm.next_state(&t, false);
    fsm.next_state(&t, false);
    fsm.next_state(&t, false);
    assert!(fsm.get_control_signals().terminate);
    fsm.next_state(&t, true);
    assert!(fsm.get_control_signals().terminate);
}

#[test]
fn parse_instruction_strips_blanks_and_comments() {
    assert_eq!(parse_instruction("12 34 # comment"), Some(0x1234));
    assert_eq!(parse_instruction("f100"), Some(0xF100));
    assert_eq!(parse_instruction("  AbC  "), Some(0x0ABC));
    assert_eq!(parse_instruction("\t# indented comment"), None);
    assert_eq!(parse_instruction("\x0c"), None);
    assert_eq!(parse_instruction("# only a comment"), None);
    assert_eq!(parse_instruction("   "), None);
    assert_eq!(parse_instruction(""), None);
}

#[test]
fn parse_line_classifies() {
    let text = "0x12";
    assert_eq!(parse_line(text.as_bytes(), 0, text.len()), LineContent::Malformed);
    let text = "12345";
    assert_eq!(parse_line(text.as_bytes(), 0, text.len()), LineContent::Malformed);
    let text = "ab#cd";
    assert_eq!(parse_line(text.as_bytes(), 0, text.len()), LineContent::Word(0xAB));
    assert_eq!(parse_line(text.as_bytes(), 3, 5), LineContent::Word(0xCD));
    assert_eq!(parse_line(text.as_bytes(), 2, 5), LineContent::Blank);
}

#[test]
fn parse_program_skips_blank_lines() {
    let words = parse_program("0223\n# comment\n\n   \nF100 # halt\n").unwrap();
    assert_eq!(words, vec![0x0223, 0xF100]);
    assert_eq!(parse_program("").unwrap(), Vec::<u16>::new());
    assert_eq!(parse_program("1\n2\n3").unwrap(), vec![1, 2, 3]);
}

#[test]
fn whitespace_only_lines_are_ignored() {
    let words = parse_program("\x0c\n\t\n\x0b \r\n  # note\n\t# note\n1\n").unwrap();
    assert_eq!(words, vec![1]);
}

#[test]
fn whitespace_other_than_spaces_inside_an_instruction_is_malformed() {
    assert_eq!(parse_program("1\t"), Err(LoadError::MalformedLine(1)));
    assert_eq!(parse_program("0\n2\r\n3"), Err(LoadError::MalformedLine(2)));
    assert_eq!(parse_program("\t1"), Err(LoadError::MalformedLine(1)));
    let text = "1 2\t";
    assert_eq!(parse_line(text.as_bytes(), 0, text.len()), LineContent::Malformed);
    assert_eq!(parse_line(text.as_bytes(), 0, 3), LineContent::Word(0x12));
}

#[test]
fn parse_program_reports_the_malformed_line() {
    assert_eq!(parse_program("0223\nzz\nF100"), Err(LoadError::MalformedLine(2)));
    assert_eq!(parse_program("12345"), Err(LoadError::MalformedLine(1)));
}

#[test]
fn load_from_source_and_run() {
    let mut processor = Processor::new_from_source("9205 # R2 = 5\nF100\n", u64::MAX, false).unwrap();
    assert!(!processor.dump_to_file());
    while processor.run() == RunState::Continue {}
    let (registers, memory) = processor.coredump();
    assert_eq!(registers[2], 5);
    assert_eq!(memory[0], 0x9205);
    assert_eq!(memory[1], 0xF100);
    assert_eq!(memory[2], 0);
}

#[test]
fn load_rejects_malformed_and_oversized_programs() {
    assert!(matches!(
        Processor::new_from_source("9205\nnope\n", 0, false),
        Err(LoadError::MalformedLine(2))
    ));
    let big = "0\n".repeat(65537);
    assert!(matches!(Processor::new_from_source(&big, 0, false), Err(LoadError::TooLarge)));
    let full = "0\n".repeat(65536);
    assert!(Processor::new_from_source(&full, 0, false).is_ok());
}

#[test]
fn breakpoint_stops_after_the_clock_passes_it() {
    // memory of zeros is an endless stream of adds
    let mut processor = Processor::new_from_source("", 10, true).unwrap();
    assert!(processor.dump_to_file());
    let mut clocks = 0;
    while processor.run() == RunState::Continue {
        clocks += 1;
    }
    assert_eq!(clocks, 11);
    assert_eq!(processor.clock_cycle(), 11);
}
