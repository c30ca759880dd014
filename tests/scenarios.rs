use simulator::processor::Processor;
use simulator::types::RunState;

/// Runs a program from the given registers and memory words until it stops,
/// returning the register and memory snapshots.
fn execute(registers: &[(usize, u16)], memory: &[(usize, u16)]) -> (Vec<u16>, Vec<u16>) {
    let mut register_state = [0u16; 16];
    for &(i, v) in registers {
        register_state[i] = v;
    }
    let mut memory_state = [0u16; 65536];
    for &(i, v) in memory {
        memory_state[i] = v;
    }
    let mut processor = Processor::new_from_array(register_state, memory_state, false);
    let mut running = RunState::Continue;
    while running == RunState::Continue {
        running = processor.run();
    }
    processor.coredump()
}

#[test]
fn scenario_add() {
    let (r, _) = execute(&[(2, 17), (3, 132)], &[(0, 0x0223), (1, 0xF100)]);
    assert_eq!(r[2], 149);
}

#[test]
fn scenario_subtract() {
    let (r, _) = execute(&[(2, 75), (3, 66)], &[(0, 0x1223), (1, 0xF100)]);
    assert_eq!(r[2], 9);
}

#[test]
fn scenario_and() {
    let (r, _) = execute(&[(2, 0b10101010), (3, 0b11110000)], &[(0, 0x2223), (1, 0xF100)]);
    assert_eq!(r[2], 0b10100000);
}

#[test]
fn scenario_or() {
    let (r, _) = execute(&[(2, 0b10101010), (3, 0b11110000)], &[(0, 0x3223), (1, 0xF100)]);
    assert_eq!(r[2], 0b11111010);
}

#[test]
fn scenario_shift_right_arithmetic() {
    let (r, _) = execute(&[(2, 0b1010101000000000), (3, 2)], &[(0, 0x8223), (1, 0xF100)]);
    assert_eq!(r[2], 0b1110101010000000);
}

#[test]
fn scenario_set_upper() {
    let (r, _) = execute(&[(2, 0x1F)], &[(0, 0xA21F), (1, 0xF100)]);
    assert_eq!(r[2], 0x1F1F);
}

#[test]
fn scenario_load_with_offset() {
    let (r, _) = execute(&[(2, 0x1F)], &[(0x20, 0x1234), (0, 0xB122), (1, 0xF100)]);
    assert_eq!(r[2], 0x1234);
}

#[test]
fn subtract_wraps_below_zero() {
    let (r, _) = execute(&[(2, 3), (3, 5)], &[(0, 0x1223), (1, 0xF100)]);
    assert_eq!(r[2], 0xFFFE);
}

#[test]
fn add_wraps_past_the_top() {
    let (r, _) = execute(&[(2, 0xFFFF), (3, 2)], &[(0, 0x0223), (1, 0xF100)]);
    assert_eq!(r[2], 1);
}

#[test]
fn set_if_less_is_unsigned_across_the_sign_bit() {
    let (r, _) = execute(&[(2, 0x0001), (3, 0x8001)], &[(0, 0x4223), (1, 0xF100)]);
    assert_eq!(r[2], 1);
    let (r, _) = execute(&[(2, 0x8001), (3, 0x0001)], &[(0, 0x4223), (1, 0xF100)]);
    assert_eq!(r[2], 0);
    let (r, _) = execute(&[(2, 7), (3, 7)], &[(0, 0x4223), (1, 0xF100)]);
    assert_eq!(r[2], 0);
}

#[test]
fn result_goes_to_the_second_nibble() {
    // Add with A = 5: R5 <- R2 + R3, R2 untouched
    let (r, _) = execute(&[(2, 10), (3, 20)], &[(0, 0x0523), (1, 0xF100)]);
    assert_eq!(r[5], 30);
    assert_eq!(r[2], 10);
}

#[test]
fn shift_left_by_sixteen_or_more_is_zero() {
    let (r, _) = execute(&[(2, 0xFFFF), (3, 16)], &[(0, 0x6223), (1, 0xF100)]);
    assert_eq!(r[2], 0);
    let (r, _) = execute(&[(2, 0x00FF), (3, 4)], &[(0, 0x6223), (1, 0xF100)]);
    assert_eq!(r[2], 0x0FF0);
}

#[test]
fn shift_right_arithmetic_of_a_positive_word_zero_fills() {
    let (r, _) = execute(&[(2, 0x0010), (3, 0)], &[(0, 0x8223), (1, 0xF100)]);
    assert_eq!(r[2], 0x0010);
    let (r, _) = execute(&[(2, 0x8000), (3, 20)], &[(0, 0x8223), (1, 0xF100)]);
    assert_eq!(r[2], 0xFFFF);
    let (r, _) = execute(&[(2, 0x4000), (3, 20)], &[(0, 0x8223), (1, 0xF100)]);
    assert_eq!(r[2], 0);
}

#[test]
fn set_lower_clears_the_upper_byte() {
    let (r, _) = execute(&[(4, 0xABCD)], &[(0, 0x9412), (1, 0xF100)]);
    assert_eq!(r[4], 0x0012);
}

#[test]
fn save_then_load_round_trip() {
    // save R3 at R2 + 1, then load R4 from R2 + 1
    let (r, m) = execute(&[(2, 0x300), (3, 0xBEEF)], &[(0, 0xC132), (1, 0xB142), (2, 0xF100)]);
    assert_eq!(m[0x301], 0xBEEF);
    assert_eq!(r[4], 0xBEEF);
}

#[test]
fn set_pc_if_falls_through_when_unequal() {
    let (r, _) = execute(&[(2, 1), (3, 2)], &[(0, 0xD523), (1, 0x9607), (2, 0xF100)]);
    assert_eq!(r[6], 7);
}

#[test]
fn set_pc_if_jumps_to_the_nibble_when_equal() {
    // jump to address 5, skipping the SetLower at 1
    let (r, _) = execute(
        &[(2, 9), (3, 9)],
        &[(0, 0xD523), (1, 0x9607), (2, 0xF100), (5, 0x9708), (6, 0xF100)],
    );
    assert_eq!(r[6], 0);
    assert_eq!(r[7], 8);
}

#[test]
fn invalid_opcode_terminates() {
    let (r, _) = execute(&[(2, 4)], &[(0, 0xE223), (1, 0x9299)]);
    assert_eq!(r[2], 4);
    assert_eq!(r[1], 1);
}

#[test]
fn unimplemented_special_stops() {
    let (r, _) = execute(&[], &[(0, 0xF200), (1, 0x9299)]);
    assert_eq!(r[2], 0);
}

#[test]
fn program_counter_starts_from_register_one() {
    let (r, _) = execute(&[(1, 0x10)], &[(0x10, 0x9233), (0x11, 0xF100)]);
    assert_eq!(r[2], 0x33);
    assert_eq!(r[1], 0x12);
}

#[test]
fn coredump_covers_registers_and_memory() {
    let (r, m) = execute(&[(9, 99)], &[(0, 0xF100), (0xFFFF, 7)]);
    assert_eq!(r.len(), 16);
    assert_eq!(m.len(), 65536);
    assert_eq!(r[9], 99);
    assert_eq!(m[0xFFFF], 7);
    assert_eq!(m[0], 0xF100);
}
