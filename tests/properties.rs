use chip8::{decode, Chip8, Chip8Error, Instruction};

const TICK_NANOS: u64 = 16_666_667;

fn machine_with(opcodes: &[u16]) -> Chip8 {
    let mut bytes: Vec<u8> = Vec::new();
    for op in opcodes {
        bytes.push((op >> 8) as u8);
        bytes.push((op & 0xFF) as u8);
    }
    let mut m = Chip8::new();
    m.load_program(&bytes).unwrap();
    m
}

#[test]
fn load_immediate_reads_back_in_every_register() {
    for x in 0..16u16 {
        let mut m = machine_with(&[0x6000 | (x << 8) | 0xA7]);
        assert_eq!(m.step(0, 0), Ok(false));
        assert_eq!(m.register(x as usize), 0xA7);
        assert_eq!(m.program_counter(), 0x202);
    }
}

#[test]
fn jump_by_opcode() {
    let mut m = machine_with(&[0x124E]);
    assert_eq!(m.step(0, 0), Ok(false));
    assert_eq!(m.program_counter(), 0x24E);
}

#[test]
fn call_then_return() {
    let mut m = machine_with(&[0x2EEE]);
    m.load_program(&vec![0x22, 0x04, 0x00, 0x00, 0x00, 0xEE]).unwrap();
    assert_eq!(m.step(0, 0), Ok(false));
    assert_eq!(m.program_counter(), 0x204);
    assert_eq!(m.stack_pointer(), 1);
    assert_eq!(m.stack_entry(1), 0x200);
    assert_eq!(m.step(0, 0), Ok(false));
    assert_eq!(m.program_counter(), 0x202);
    assert_eq!(m.stack_pointer(), 0);
}

#[test]
fn call_to_far_address_then_return() {
    let mut m = machine_with(&[0x2EEE]);
    assert_eq!(m.step(0, 0), Ok(false));
    assert_eq!(m.program_counter(), 0xEEE);
    assert_eq!(m.stack_pointer(), 1);
    assert_eq!(m.stack_entry(1), 0x200);
    m.return_from_subroutine();
    assert_eq!(m.program_counter(), 0x202);
    assert_eq!(m.stack_pointer(), 0);
}

#[test]
fn skip_if_equal_by_opcode() {
    let mut m = machine_with(&[0x6014, 0x3014]);
    m.step(0, 0).unwrap();
    assert_eq!(m.step(0, 0), Ok(false));
    assert_eq!(m.program_counter(), 0x202 + 4);

    let mut m = machine_with(&[0x6014, 0x3013]);
    m.step(0, 0).unwrap();
    assert_eq!(m.step(0, 0), Ok(false));
    assert_eq!(m.program_counter(), 0x202 + 2);
}

#[test]
fn add_with_carry_by_opcode() {
    let mut m = machine_with(&[0x8014]);
    m.set_register(0, 0xFF);
    m.set_register(1, 0x02);
    m.step(0, 0).unwrap();
    assert_eq!(m.register(0), 0x01);
    assert_eq!(m.register(0xF), 1);

    let mut m = machine_with(&[0x8014]);
    m.set_register(0, 0x01);
    m.set_register(1, 0x01);
    m.step(0, 0).unwrap();
    assert_eq!(m.register(0), 0x02);
    assert_eq!(m.register(0xF), 0);
}

#[test]
fn subtract_no_borrow_flag() {
    let mut m = machine_with(&[0x8015]);
    m.set_register(0, 0x01);
    m.set_register(1, 0x01);
    m.step(0, 0).unwrap();
    assert_eq!(m.register(0), 0x00);
    assert_eq!(m.register(0xF), 1);

    let mut m = machine_with(&[0x8015]);
    m.set_register(0, 0x00);
    m.set_register(1, 0x01);
    m.step(0, 0).unwrap();
    assert_eq!(m.register(0), 0xFF);
    assert_eq!(m.register(0xF), 0);
}

#[test]
fn shift_right_by_opcode() {
    let mut m = machine_with(&[0x8016]);
    m.set_register(0, 0x0F);
    m.step(0, 0).unwrap();
    assert_eq!(m.register(0), 0x07);
    assert_eq!(m.register(0xF), 1);

    let mut m = machine_with(&[0x8016]);
    m.set_register(0, 0x0E);
    m.step(0, 0).unwrap();
    assert_eq!(m.register(0), 0x07);
    assert_eq!(m.register(0xF), 0);
}

#[test]
fn flag_wins_when_target_is_vf() {
    let mut m = machine_with(&[0x8F14]);
    m.set_register(0xF, 0xFF);
    m.set_register(1, 0x02);
    m.step(0, 0).unwrap();
    assert_eq!(m.register(0xF), 1);
}

#[test]
fn bcd_digits() {
    let mut m = machine_with(&[0x6A9D, 0xA300, 0xFA33]);
    for _ in 0..3 {
        m.step(0, 0).unwrap();
    }
    assert_eq!(m.memory_at(0x300), 1);
    assert_eq!(m.memory_at(0x301), 5);
    assert_eq!(m.memory_at(0x302), 7);
    assert_eq!(m.program_counter(), 0x206);
}

#[test]
fn store_and_load_registers() {
    let mut m = machine_with(&[0xA400, 0xF255, 0x6000, 0x6100, 0x6200, 0xF265]);
    m.set_register(0, 11);
    m.set_register(1, 22);
    m.set_register(2, 33);
    m.set_register(3, 44);
    m.step(0, 0).unwrap();
    m.step(0, 0).unwrap();
    assert_eq!(m.memory_at(0x400), 11);
    assert_eq!(m.memory_at(0x401), 22);
    assert_eq!(m.memory_at(0x402), 33);
    assert_eq!(m.memory_at(0x403), 0);
    for _ in 0..3 {
        m.step(0, 0).unwrap();
    }
    assert_eq!(m.register(0), 0);
    m.step(0, 0).unwrap();
    assert_eq!(m.register(0), 11);
    assert_eq!(m.register(1), 22);
    assert_eq!(m.register(2), 33);
    assert_eq!(m.register(3), 44);
}

#[test]
fn draw_glyph_zero_sets_pixels() {
    // I points at glyph 0 (F0 90 90 90 F0), drawn at (0, 0).
    let mut m = machine_with(&[0x6000, 0xF029, 0xD005]);
    for _ in 0..3 {
        m.step(0, 0).unwrap();
    }
    assert_eq!(m.index_register(), 0);
    for c in 0..4 {
        assert_eq!(m.pixel(c), 1);
    }
    assert_eq!(m.pixel(4), 0);
    assert_eq!(m.pixel(64), 1);
    assert_eq!(m.pixel(65), 0);
    assert_eq!(m.pixel(66), 0);
    assert_eq!(m.pixel(67), 1);
    assert_eq!(m.pixel(4 * 64 + 3), 1);
    assert_eq!(m.register(0xF), 0);
}

#[test]
fn draw_wraps_each_axis_separately() {
    // Glyph 0 drawn at (62, 31): columns 62, 63, 0, 1; rows 31, 0, 1, ...
    let mut m = machine_with(&[0x603E, 0x611F, 0xA000, 0xD015]);
    for _ in 0..4 {
        m.step(0, 0).unwrap();
    }
    assert_eq!(m.pixel(31 * 64 + 62), 1);
    assert_eq!(m.pixel(31 * 64 + 63), 1);
    assert_eq!(m.pixel(31 * 64), 1);
    assert_eq!(m.pixel(31 * 64 + 1), 1);
    assert_eq!(m.pixel(31 * 64 + 2), 0);
    // row 1 of the glyph (0x90) lands on display row 0
    assert_eq!(m.pixel(62), 1);
    assert_eq!(m.pixel(1), 1);
    assert_eq!(m.pixel(63), 0);
    assert_eq!(m.pixel(0), 0);
}

#[test]
fn draw_twice_restores_display_and_reports_collision() {
    let mut m = machine_with(&[0x6005, 0x6107, 0xA00A, 0xD015, 0xD015]);
    for _ in 0..4 {
        m.step(0, 0).unwrap();
    }
    assert_eq!(m.register(0xF), 0);
    let mut lit = 0;
    for c in 0..2048 {
        lit += m.pixel(c) as u32;
    }
    assert!(lit > 0);
    m.step(0, 0).unwrap();
    assert_eq!(m.register(0xF), 1);
    for c in 0..2048 {
        assert_eq!(m.pixel(c), 0);
    }
}

#[test]
fn clear_screen_by_opcode() {
    let mut m = machine_with(&[0xA000, 0xD005, 0x00E0]);
    for _ in 0..3 {
        m.step(0, 0).unwrap();
    }
    for c in 0..2048 {
        assert_eq!(m.pixel(c), 0);
    }
    assert_eq!(m.program_counter(), 0x206);
}

#[test]
fn timers_run_on_wall_clock() {
    let mut m = machine_with(&[0x6005, 0xF015, 0xF018, 0x1206]);
    for _ in 0..3 {
        m.step(0, 0).unwrap();
    }
    assert_eq!(m.delay_timer(), 5);
    assert_eq!(m.sound_timer(), 5);
    // 1000 steps within less than a sixtieth of a second.
    for _ in 0..1000 {
        m.step(16_000, 0).unwrap();
    }
    assert!(m.delay_timer() == 5 || m.delay_timer() == 4);
    assert_eq!(m.delay_timer(), 5);
    m.step(TICK_NANOS, 0).unwrap();
    assert_eq!(m.delay_timer(), 4);
    assert_eq!(m.sound_timer(), 4);
    m.step(3 * TICK_NANOS, 0).unwrap();
    assert_eq!(m.delay_timer(), 1);
    assert_eq!(m.step(TICK_NANOS, 0), Ok(true));
    assert_eq!(m.sound_timer(), 0);
    assert_eq!(m.delay_timer(), 0);
    assert_eq!(m.step(10 * TICK_NANOS, 0), Ok(false));
    assert_eq!(m.delay_timer(), 0);
}

#[test]
fn tick_timers_carries_partial_intervals() {
    let mut m = machine_with(&[0x6009, 0xF015]);
    m.step(0, 0).unwrap();
    m.step(0, 0).unwrap();
    assert_eq!(m.tick_timers(10_000_000), false);
    assert_eq!(m.delay_timer(), 9);
    assert_eq!(m.tick_timers(10_000_000), false);
    assert_eq!(m.delay_timer(), 8);
    assert_eq!(m.tick_timers(u64::MAX), false);
    assert_eq!(m.delay_timer(), 0);
}

#[test]
fn load_delay_into_register() {
    let mut m = machine_with(&[0x6007, 0xF015, 0xF307]);
    for _ in 0..3 {
        m.step(0, 0).unwrap();
    }
    assert_eq!(m.register(3), 7);
}

#[test]
fn add_to_index_and_glyph_address() {
    let mut m = machine_with(&[0xAFFF, 0x6003, 0xF01E, 0x600F, 0xF029]);
    for _ in 0..3 {
        m.step(0, 0).unwrap();
    }
    assert_eq!(m.index_register(), 0x1002);
    m.step(0, 0).unwrap();
    m.step(0, 0).unwrap();
    assert_eq!(m.index_register(), 75);
}

#[test]
fn load_program_round_trip() {
    let bytes: Vec<u8> = (0..300u32).map(|b| (b * 7 % 256) as u8).collect();
    let mut m = Chip8::new();
    assert_eq!(m.load_program(&bytes), Ok(()));
    for (k, b) in bytes.iter().enumerate() {
        assert_eq!(m.memory_at(0x200 + k), *b);
    }
    assert_eq!(m.memory_at(0x200 + 300), 0);
}

#[test]
fn load_program_largest_and_too_large() {
    let mut m = Chip8::new();
    assert_eq!(m.load_program(&vec![0xAB; 4096 - 0x200]), Ok(()));
    assert_eq!(m.memory_at(4095), 0xAB);
    let mut m = Chip8::new();
    assert_eq!(m.load_program(&vec![0xAB; 4096 - 0x200 + 1]), Err(Chip8Error::ProgramTooLarge));
    assert_eq!(m.memory_at(0x200), 0);
}

#[test]
fn new_installs_glyphs() {
    let m = Chip8::new();
    assert_eq!(m.memory_at(0), 0xF0);
    assert_eq!(m.memory_at(5), 0x20);
    assert_eq!(m.memory_at(79), 0x80);
    assert_eq!(m.memory_at(80), 0);
    assert_eq!(m.program_counter(), 0x200);
}

#[test]
fn invalid_opcode_is_fatal() {
    let mut m = machine_with(&[0x5121]);
    assert_eq!(m.step(0, 0), Err(Chip8Error::InvalidOpcode { opcode: 0x5121, pc: 0x200 }));
    assert_eq!(m.program_counter(), 0x200);
    for op in [0x0123u16, 0x8008, 0x9001, 0xE000, 0xF000, 0xF00A] {
        let mut m = machine_with(&[op]);
        assert_eq!(m.step(0, 0), Err(Chip8Error::InvalidOpcode { opcode: op, pc: 0x200 }));
        assert_eq!(m.program_counter(), 0x200);
    }
}

#[test]
fn stack_overflow_and_underflow() {
    let mut m = machine_with(&[0x2200]);
    for depth in 1..16u16 {
        assert_eq!(m.step(0, 0), Ok(false));
        assert_eq!(m.stack_pointer(), depth);
    }
    assert_eq!(m.step(0, 0), Err(Chip8Error::StackOverflow));
    assert_eq!(m.stack_pointer(), 15);

    let mut m = machine_with(&[0x00EE]);
    assert_eq!(m.step(0, 0), Err(Chip8Error::StackUnderflow));
    assert_eq!(m.program_counter(), 0x200);
}

#[test]
fn memory_faults() {
    let mut m = Chip8::new();
    m.set_program_counter(4095);
    assert_eq!(m.step(0, 0), Err(Chip8Error::MemoryFault { address: 4096 }));
    m.set_program_counter(5000);
    assert_eq!(m.step(0, 0), Err(Chip8Error::MemoryFault { address: 5000 }));

    let mut m = machine_with(&[0xAFFE, 0xF033]);
    m.step(0, 0).unwrap();
    assert_eq!(m.step(0, 0), Err(Chip8Error::MemoryFault { address: 4096 }));
    assert_eq!(m.program_counter(), 0x202);

    // I = 0x1000, past memory
    let mut m2 = machine_with(&[0xAFFF, 0x6001, 0xF01E, 0xD005, 0xFF55]);
    for _ in 0..3 {
        m2.step(0, 0).unwrap();
    }
    assert_eq!(m2.index_register(), 0x1000);
    assert_eq!(m2.step(0, 0), Err(Chip8Error::MemoryFault { address: 0x1000 }));
    m2.set_program_counter(0x208);
    assert_eq!(m2.step(0, 0), Err(Chip8Error::MemoryFault { address: 0x1000 }));
}

#[test]
fn random_uses_given_byte_and_mask() {
    let mut m = machine_with(&[0xC30F]);
    m.step(0, 0xAB).unwrap();
    assert_eq!(m.register(3), 0x0B);
}

#[test]
fn random_from_generator_respects_mask() {
    for _ in 0..50 {
        let mut m = Chip8::new();
        m.process_c_command(2, 0x0F);
        assert!(m.register(2) <= 0x0F);
        assert_eq!(m.program_counter(), 0x202);
    }
    let mut m = Chip8::new();
    m.set_register(2, 0xEE);
    m.process_c_command(2, 0x00);
    assert_eq!(m.register(2), 0);
}

#[test]
fn key_skips_by_opcode() {
    let mut m = machine_with(&[0x6A07, 0xEA9E]);
    m.set_keys(&vec![7, 200]);
    m.step(0, 0).unwrap();
    m.step(0, 0).unwrap();
    assert_eq!(m.program_counter(), 0x206);

    let mut m = machine_with(&[0x6A07, 0xEAA1]);
    m.set_keys(&vec![7]);
    m.step(0, 0).unwrap();
    m.step(0, 0).unwrap();
    assert_eq!(m.program_counter(), 0x204);

    // A register value past the pad names no key.
    let mut m = machine_with(&[0x6A20, 0xEAA1]);
    m.step(0, 0).unwrap();
    m.step(0, 0).unwrap();
    assert_eq!(m.program_counter(), 0x206);
}

#[test]
fn set_keys_replaces_previous_state() {
    let mut m = Chip8::new();
    m.set_keys(&vec![1, 2, 15]);
    assert!(m.key(1) && m.key(2) && m.key(15));
    m.set_keys(&vec![3]);
    assert!(!m.key(1) && !m.key(2) && !m.key(15));
    assert!(m.key(3));
}

#[test]
fn draw_to_buffer_only_when_dirty() {
    let mut m = machine_with(&[0xA000, 0xD001]);
    let mut buffer: Vec<u32> = vec![7; 2048];
    assert!(!m.draw_to_buffer(&mut buffer));
    assert_eq!(buffer[0], 7);
    m.step(0, 0).unwrap();
    m.step(0, 0).unwrap();
    assert!(m.draw_to_buffer(&mut buffer));
    assert_eq!(buffer[0], 0x0FFF);
    assert_eq!(buffer[3], 0x0FFF);
    assert_eq!(buffer[4], 0);
    assert!(!m.draw_to_buffer(&mut buffer));
}

#[test]
fn skip_not_equal_registers_by_opcode() {
    let mut m = machine_with(&[0x6001, 0x9010]);
    m.step(0, 0).unwrap();
    m.step(0, 0).unwrap();
    assert_eq!(m.program_counter(), 0x206);
}

#[test]
fn decode_fields() {
    assert_eq!(decode(0xD123), Some(Instruction::Draw { x: 1, y: 2, n: 3 }));
    assert_eq!(decode(0x8ABE), Some(Instruction::Arith { op: 0xE, x: 0xA, y: 0xB }));
    assert_eq!(decode(0x7F42), Some(Instruction::AddImm { x: 0xF, nn: 0x42 }));
    assert_eq!(decode(0xB123), Some(Instruction::JumpOffset { nnn: 0x123 }));
    assert_eq!(decode(0x00E0), Some(Instruction::ClearScreen));
    assert_eq!(decode(0x00EE), Some(Instruction::Return));
    assert_eq!(decode(0x8AB8), None);
}

#[test]
fn add_immediate_wraps_without_flag() {
    let mut m = machine_with(&[0x70FF]);
    m.set_register(0, 2);
    m.step(0, 0).unwrap();
    assert_eq!(m.register(0), 1);
    assert_eq!(m.register(0xF), 0);
}

#[test]
fn flush_reports_change_once() {
    let mut m = machine_with(&[0x00E0]);
    assert!(!m.flush());
    m.step(0, 0).unwrap();
    assert!(m.flush());
    assert!(!m.flush());
}
