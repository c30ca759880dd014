use rand::{thread_rng, Rng};
use simulator::processor::Processor;
use simulator::types::RunState;

fn run_to_stop(processor: &mut Processor) {
    let mut running = RunState::Continue;
    while running == RunState::Continue {
        running = processor.run();
    }
}

#[test]
fn add() {
    let mut rng = thread_rng();
    for _ in 0..100 {
        let a: u16 = rng.gen_range(0..65535);
        let b: u16 = rng.gen_range(0..65535);
        let mut register_state = [0; 16];
        register_state[2] = a;
        register_state[3] = b;
        let mut memory_state = [0; 65536];
        memory_state[0] = 0x0223;
        memory_state[1] = 0xF100;
        let mut processor = Processor::new_from_array(register_state, memory_state, false);
        run_to_stop(&mut processor);
        let (dump_registers, _dump_memory) = processor.coredump();
        assert_eq!(dump_registers[2], a.wrapping_add(b));
    }
}

#[test]
fn subtract() {
    let mut rng = thread_rng();
    for _ in 0..100 {
        let a: u16 = rng.gen_range(0..65535);
        let b: u16 = rng.gen_range(0..65535);
        let mut register_state = [0; 16];
        register_state[2] = a;
        register_state[3] = b;
        let mut memory_state = [0; 65536];
        memory_state[0] = 0x1223;
        memory_state[1] = 0xF100;
        let mut processor = Processor::new_from_array(register_state, memory_state, false);
        run_to_stop(&mut processor);
        let (dump_registers, _dump_memory) = processor.coredump();
        if a < b {
            assert_eq!(dump_registers[2], (a as i16).wrapping_sub(b as i16) as u16);
        } else {
            assert_eq!(dump_registers[2], a.wrapping_sub(b));
        }
    }
}

#[test]
fn and() {
    let mut rng = thread_rng();
    for _ in 0..100 {
        let a: u16 = rng.gen_range(0..65535);
        let b: u16 = rng.gen_range(0..65535);
        let mut register_state = [0; 16];
        register_state[2] = a;
        register_state[3] = b;
        let mut memory_state = [0; 65536];
        memory_state[0] = 0x2223;
        memory_state[1] = 0xF100;
        let mut processor = Processor::new_from_array(register_state, memory_state, false);
        run_to_stop(&mut processor);
        let (dump_registers, _dump_memory) = processor.coredump();
        assert_eq!(dump_registers[2], a & b);
    }
}

#[test]
fn or() {
    let mut rng = thread_rng();
    for _ in 0..100 {
        let a: u16 = rng.gen_range(0..65535);
        let b: u16 = rng.gen_range(0..65535);
        let mut register_state = [0; 16];
        register_state[2] = a;
        register_state[3] = b;
        let mut memory_state = [0; 65536];
        memory_state[0] = 0x3223;
        memory_state[1] = 0xF100;
        let mut processor = Processor::new_from_array(register_state, memory_state, false);
        run_to_stop(&mut processor);
        let (dump_registers, _dump_memory) = processor.coredump();
        assert_eq!(dump_registers[2], a | b);
    }
}

#[test]
fn set_if_less() {
    let mut rng = thread_rng();
    for _ in 0..100 {
        let a: u16 = rng.gen_range(0..65535);
        let b: u16 = rng.gen_range(0..65535);
        let mut register_state = [0; 16];
        register_state[2] = a;
        register_state[3] = b;
        let mut memory_state = [0; 65536];
        memory_state[0] = 0x4223;
        memory_state[1] = 0xF100;
        let mut processor = Processor::new_from_array(register_state, memory_state, false);
        run_to_stop(&mut processor);
        let (dump_registers, _dump_memory) = processor.coredump();
        if (a < b) != (dump_registers[2] == 1) {
            println!("a: {:016b}, b: {:016b}", a, b);
        }
        assert_eq!(dump_registers[2], (a < b) as u16);
    }
}

#[test]
fn set_if_equal() {
    let mut rng = thread_rng();
    for _ in 0..100 {
        let a: u16 = rng.gen_range(0..65535);
        let is_equal = rng.gen_bool(0.5);
        let b: u16 = match is_equal {
            true => a,
            false => rng.gen_range(0..65535),
        };
        let mut register_state = [0; 16];
        register_state[2] = a;
        register_state[3] = b;
        let mut memory_state = [0; 65536];
        memory_state[0] = 0x5223;
        memory_state[1] = 0xF100;
        let mut processor = Processor::new_from_array(register_state, memory_state, false);
        run_to_stop(&mut processor);
        let (dump_registers, _dump_memory) = processor.coredump();
        if (a == b) != (dump_registers[2] == 1) {
            println!("a: {}, b: {}", a, b);
        }
        assert_eq!(dump_registers[2], (a == b) as u16);
    }
}

#[test]
fn shift_left() {
    let mut rng = thread_rng();
    for _ in 0..100 {
        let a: u16 = rng.gen_range(0..65535);
        let b: u16 = rng.gen_range(0..32); // 32 means 50% shifts are valid, 50% overflow
        let mut register_state = [0; 16];
        register_state[2] = a;
        register_state[3] = b;
        let mut memory_state = [0; 65536];
        memory_state[0] = 0x6223;
        memory_state[1] = 0xF100;
        let mut processor = Processor::new_from_array(register_state, memory_state, false);
        run_to_stop(&mut processor);
        let (dump_registers, _dump_memory) = processor.coredump();
        assert_eq!(dump_registers[2], a.checked_shl(b as u32).unwrap_or(0));
    }
}

#[test]
fn shift_right_logical() {
    let mut rng = thread_rng();
    for _ in 0..100 {
        let a: u16 = rng.gen_range(0..65535);
        let b: u16 = rng.gen_range(0..32); // 32 means 50% shifts are valid, 50% overflow
        let mut register_state = [0; 16];
        register_state[2] = a;
        register_state[3] = b;
        let mut memory_state = [0; 65536];
        memory_state[0] = 0x7223;
        memory_state[1] = 0xF100;
        let mut processor = Processor::new_from_array(register_state, memory_state, false);
        run_to_stop(&mut processor);
        let (dump_registers, _dump_memory) = processor.coredump();
        assert_eq!(dump_registers[2], a.checked_shr(b as u32).unwrap_or(0));
    }
}

#[test]
fn shift_right_arithmetic() {
    let mut rng = thread_rng();
    for _ in 0..100 {
        let a: u16 = rng.gen_range(0..65535);
        let b: u16 = rng.gen_range(0..32); // 32 means 50% shifts are valid, 50% overflow
        let mut register_state = [0; 16];
        register_state[2] = a;
        register_state[3] = b;
        let mut memory_state = [0; 65536];
        memory_state[0] = 0x8223;
        memory_state[1] = 0xF100;
        let mut processor = Processor::new_from_array(register_state, memory_state, false);
        run_to_stop(&mut processor);
        let (dump_registers, _dump_memory) = processor.coredump();
        // sign extension: every vacated high bit copies bit 15 of `a`
        let result: u16 = ((a as i16) >> b.min(15)) as u16;
        assert_eq!(dump_registers[2], result);
    }
}

#[test]
fn set_lower() {
    let mut rng = thread_rng();
    for _ in 0..100 {
        let a: u16 = rng.gen_range(0..256);
        let register_state = [0; 16];
        let mut memory_state = [0; 65536];
        memory_state[0] = 0x9200 | a;
        memory_state[1] = 0xF100;
        let mut processor = Processor::new_from_array(register_state, memory_state, false);
        run_to_stop(&mut processor);
        let (dump_registers, _dump_memory) = processor.coredump();
        assert_eq!(dump_registers[2], a);
    }
}

#[test]
fn set_upper() {
    let mut rng = thread_rng();
    for _ in 0..100 {
        let a: u16 = rng.gen_range(0..255);
        let b: u16 = rng.gen_range(0..255);
        let mut register_state = [0; 16];
        register_state[2] = a;
        let mut memory_state = [0; 65536];
        memory_state[0] = 0xA200 + b;
        memory_state[1] = 0xF100;
        let mut processor = Processor::new_from_array(register_state, memory_state, false);
        run_to_stop(&mut processor);
        let (dump_registers, _dump_memory) = processor.coredump();
        assert_eq!(dump_registers[2], b << 8 | a);
    }
}

#[test]
fn load_word() {
    let mut rng = thread_rng();
    for _ in 0..100 {
        let word: u16 = rng.gen_range(0..65535);
        // address + offset < 65536 to fit in u16, and clear of the program
        let address: u16 = rng.gen_range(2..65520);
        let offset: u16 = rng.gen_range(0..16);
        let mut register_state = [0; 16];
        register_state[2] = address;
        let mut memory_state = [0; 65536];
        memory_state[0] = 0xB032 | (offset << 8);
        memory_state[1] = 0xF100;
        memory_state[(address + offset) as usize] = word;
        let mut processor = Processor::new_from_array(register_state, memory_state, false);
        run_to_stop(&mut processor);
        let (dump_registers, _dump_memory) = processor.coredump();
        if dump_registers[3] != word {
            println!("word: {}, address: {}, offset: {}", word, address, offset);
            println!("expected: {}, actual: {}", word, dump_registers[3]);
        }
        assert_eq!(dump_registers[3], word);
    }
}

#[test]
fn save_word() {
    let mut rng = thread_rng();
    for _ in 0..100 {
        let word: u16 = rng.gen_range(0..65535);
        // address + offset < 65536 to fit in u16, and clear of the program
        let address: u16 = rng.gen_range(2..65520);
        let offset: u16 = rng.gen_range(0..16);
        let mut register_state = [0; 16];
        register_state[2] = address;
        register_state[3] = word;
        let mut memory_state = [0; 65536];
        memory_state[0] = 0xC032 | (offset << 8);
        memory_state[1] = 0xF100;
        let mut processor = Processor::new_from_array(register_state, memory_state, false);
        run_to_stop(&mut processor);
        let (_dump_registers, dump_memory) = processor.coredump();
        assert_eq!(dump_memory[(address + offset) as usize], word);
    }
}

#[test]
fn set_pc_if() {
    let mut rng = thread_rng();
    for _ in 0..100 {
        let a: u16 = rng.gen_range(0..65535);
        let is_equal = rng.gen_bool(0.5);
        let b: u16 = match is_equal {
            true => a,
            false => rng.gen_range(0..65535),
        };
        let mut register_state = [0; 16];
        register_state[2] = a;
        register_state[3] = b;
        let mut memory_state = [0; 65536];
        memory_state[0] = 0xD223;
        memory_state[1] = 0x9301;
        memory_state[2] = 0xF100;
        let mut processor = Processor::new_from_array(register_state, memory_state, false);
        run_to_stop(&mut processor);
        let (dump_registers, _dump_memory) = processor.coredump();
        // taken: the jump to address 2 skips the SetLower that writes 1 into R3
        let expected: u16 = if a == b { b } else { 1 };
        assert_eq!(dump_registers[3], expected);
    }
}
