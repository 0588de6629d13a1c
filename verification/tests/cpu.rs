use chip8::cpu::Cpu;
use chip8::display::Display;
use chip8::errors::Fault;
use chip8::instr::{combine_nibbles, split_byte};
use chip8::memory::Memory;

fn initialize(program: &[u8]) -> (Cpu, Memory, Display) {
    let cpu = Cpu::new();
    let memory = Memory::new(program).unwrap();
    let display = Display::new();
    (cpu, memory, display)
}

#[test]
fn test_combine_nibbles() {
    assert_eq!(combine_nibbles(0xA, 0xB, 0xC), 0xABC);
}

#[test]
fn test_split_byte() {
    assert_eq!(split_byte(0xAB), (0xA, 0xB));
}

#[test]
fn test_return() {
    let (mut cpu, mut memory, mut display) = initialize(&[0x00, 0xEE]);
    cpu.set_stack_entry(0, 0x100);
    cpu.set_sp(1);

    cpu.step(&mut memory, &mut display, 0).unwrap();
    assert_eq!(cpu.get_sp(), 0);
    assert_eq!(cpu.get_pc(), 0x100);
}

#[test]
fn test_jump() {
    let (mut cpu, mut memory, mut display) = initialize(&[0x12, 0x00]);

    cpu.step(&mut memory, &mut display, 0).unwrap();
    assert_eq!(cpu.get_pc(), 0x200);
}

#[test]
fn test_call() {
    let (mut cpu, mut memory, mut display) = initialize(&[0x23, 0x00]);

    cpu.step(&mut memory, &mut display, 0).unwrap();
    assert_eq!(cpu.get_stack_entry(0), 0x202);
    assert_eq!(cpu.get_sp(), 1);
    assert_eq!(cpu.get_pc(), 0x300);
}

#[test]
fn test_skip_if_equal() {
    let (mut cpu, mut memory, mut display) = initialize(&[0x30, 0x42, 0x00, 0x00, 0x30, 0x41]);
    cpu.set_register(0, 0x42);

    cpu.step(&mut memory, &mut display, 0).unwrap();
    assert_eq!(cpu.get_pc(), 0x204);
    cpu.step(&mut memory, &mut display, 0).unwrap();
    assert_eq!(cpu.get_pc(), 0x206);
}

#[test]
fn test_skip_if_not_equal() {
    let (mut cpu, mut memory, mut display) = initialize(&[0x40, 0x41, 0x00, 0x00, 0x40, 0x42]);
    cpu.set_register(0, 0x42);

    cpu.step(&mut memory, &mut display, 0).unwrap();
    assert_eq!(cpu.get_pc(), 0x204);
    cpu.step(&mut memory, &mut display, 0).unwrap();
    assert_eq!(cpu.get_pc(), 0x206);
}

#[test]
fn test_load_value() {
    let (mut cpu, mut memory, mut display) = initialize(&[0x62, 0xFF]);

    cpu.step(&mut memory, &mut display, 0).unwrap();
    assert_eq!(cpu.get_register(2), 0xFF);
    assert_eq!(cpu.get_pc(), 0x202);
}

#[test]
fn test_add_value() {
    let (mut cpu, mut memory, mut display) = initialize(&[0x73, 0x0F]);
    cpu.set_register(3, 0xF0);

    cpu.step(&mut memory, &mut display, 0).unwrap();
    assert_eq!(cpu.get_register(3), 0xFF);
    assert_eq!(cpu.get_pc(), 0x202);
}

#[test]
fn test_load_register() {
    let (mut cpu, mut memory, mut display) = initialize(&[0x85, 0x30]);
    cpu.set_register(3, 0xAB);

    cpu.step(&mut memory, &mut display, 0).unwrap();
    assert_eq!(cpu.get_register(5), 0xAB);
    assert_eq!(cpu.get_pc(), 0x202);
}

#[test]
fn test_or_register() {
    let (mut cpu, mut memory, mut display) = initialize(&[0x82, 0x31]);
    cpu.set_register(2, 0b10101010);
    cpu.set_register(3, 0b11001100);

    cpu.step(&mut memory, &mut display, 0).unwrap();
    assert_eq!(cpu.get_register(2), 0b11101110);
    assert_eq!(cpu.get_pc(), 0x202);
}

#[test]
fn test_and_register() {
    let (mut cpu, mut memory, mut display) = initialize(&[0x82, 0x32]);
    cpu.set_register(2, 0b10101010);
    cpu.set_register(3, 0b11001100);

    cpu.step(&mut memory, &mut display, 0).unwrap();
    assert_eq!(cpu.get_register(2), 0b10001000);
    assert_eq!(cpu.get_pc(), 0x202);
}

#[test]
fn test_xor_register() {
    let (mut cpu, mut memory, mut display) = initialize(&[0x82, 0x33]);
    cpu.set_register(2, 0b10101010);
    cpu.set_register(3, 0b11001100);

    cpu.step(&mut memory, &mut display, 0).unwrap();
    assert_eq!(cpu.get_register(2), 0b01100110);
    assert_eq!(cpu.get_pc(), 0x202);
}

#[test]
fn test_add_register_with_carry() {
    let (mut cpu, mut memory, mut display) = initialize(&[0x84, 0x54, 0x86, 0x74]);
    cpu.set_register(4, 200);
    cpu.set_register(5, 100);
    cpu.set_register(6, 1);
    cpu.set_register(7, 2);

    cpu.step(&mut memory, &mut display, 0).unwrap();
    assert_eq!(cpu.get_register(4), 44);
    assert_eq!(cpu.get_register(0xF), 1);
    assert_eq!(cpu.get_pc(), 0x202);
    cpu.step(&mut memory, &mut display, 0).unwrap();
    assert_eq!(cpu.get_register(6), 3);
    assert_eq!(cpu.get_register(0xF), 0);
    assert_eq!(cpu.get_pc(), 0x204);
}

#[test]
fn test_sub_register_with_borrow() {
    let (mut cpu, mut memory, mut display) = initialize(&[0x84, 0x55, 0x86, 0x75]);
    cpu.set_register(4, 50);
    cpu.set_register(5, 100);
    cpu.set_register(6, 200);
    cpu.set_register(7, 150);

    cpu.step(&mut memory, &mut display, 0).unwrap();
    assert_eq!(cpu.get_register(4), 206);
    assert_eq!(cpu.get_register(0xF), 0);
    assert_eq!(cpu.get_pc(), 0x202);
    cpu.step(&mut memory, &mut display, 0).unwrap();
    assert_eq!(cpu.get_register(6), 50);
    assert_eq!(cpu.get_register(0xF), 1);
    assert_eq!(cpu.get_pc(), 0x204);
}

#[test]
fn test_right_shift() {
    let (mut cpu, mut memory, mut display) = initialize(&[0x82, 0x06, 0x82, 0x06]);
    cpu.set_register(2, 0b00000101);

    cpu.step(&mut memory, &mut display, 0).unwrap();
    assert_eq!(cpu.get_register(2), 0b00000010);
    assert_eq!(cpu.get_register(0xF), 1);
    assert_eq!(cpu.get_pc(), 0x202);
    cpu.step(&mut memory, &mut display, 0).unwrap();
    assert_eq!(cpu.get_register(2), 0b00000001);
    assert_eq!(cpu.get_register(0xF), 0);
    assert_eq!(cpu.get_pc(), 0x204);
}

#[test]
fn test_subn_register_with_borrow() {
    let (mut cpu, mut memory, mut display) = initialize(&[0x84, 0x57, 0x86, 0x77]);
    cpu.set_register(4, 100);
    cpu.set_register(5, 50);
    cpu.set_register(6, 150);
    cpu.set_register(7, 200);

    cpu.step(&mut memory, &mut display, 0).unwrap();
    assert_eq!(cpu.get_register(4), 206); // 256 - 50 = 206
    assert_eq!(cpu.get_register(0xF), 0);
    assert_eq!(cpu.get_pc(), 0x202);
    cpu.step(&mut memory, &mut display, 0).unwrap();
    assert_eq!(cpu.get_register(6), 50);
    assert_eq!(cpu.get_register(0xF), 1);
    assert_eq!(cpu.get_pc(), 0x204);
}

#[test]
fn test_left_shift() {
    let (mut cpu, mut memory, mut display) = initialize(&[0x82, 0x0E, 0x82, 0x0E]);
    cpu.set_register(2, 0b10000001);

    cpu.step(&mut memory, &mut display, 0).unwrap();
    assert_eq!(cpu.get_register(2), 0b00000010);
    assert_eq!(cpu.get_register(0xF), 1);
    assert_eq!(cpu.get_pc(), 0x202);
    cpu.step(&mut memory, &mut display, 0).unwrap();
    assert_eq!(cpu.get_register(2), 0b00000100);
    assert_eq!(cpu.get_register(0xF), 0);
    assert_eq!(cpu.get_pc(), 0x204);
}

#[test]
fn test_skip_if_registers_not_equal() {
    let (mut cpu, mut memory, mut display) = initialize(&[0x90, 0x10, 0x00, 0x00, 0x91, 0x20]);
    cpu.set_register(0, 0x42);
    cpu.set_register(1, 0x43);
    cpu.set_register(2, 0x43);

    cpu.step(&mut memory, &mut display, 0).unwrap();
    assert_eq!(cpu.get_pc(), 0x204);
    cpu.step(&mut memory, &mut display, 0).unwrap();
    assert_eq!(cpu.get_pc(), 0x206);
}

#[test]
fn test_set_index() {
    let (mut cpu, mut memory, mut display) = initialize(&[0xA2, 0xF0]);

    cpu.step(&mut memory, &mut display, 0).unwrap();
    assert_eq!(cpu.get_index(), 0x2F0);
    assert_eq!(cpu.get_pc(), 0x202);
}

#[test]
fn test_jump_with_offset() {
    let (mut cpu, mut memory, mut display) = initialize(&[0xB2, 0x00]);
    cpu.set_register(0, 0x10);

    cpu.step(&mut memory, &mut display, 0).unwrap();
    assert_eq!(cpu.get_pc(), 0x210);
}

#[test]
fn test_random_and() {
    let (mut cpu, mut memory, mut display) = initialize(&[0xC3, 0x0F]);

    cpu.step(&mut memory, &mut display, 0).unwrap();
    assert_eq!(cpu.get_register(3) & 0x0F, cpu.get_register(3));
    assert_eq!(cpu.get_pc(), 0x202);
}

#[test]
fn test_draw_sprite() {
    let (mut cpu, mut memory, mut display) = initialize(&[0xD0, 0x15, 0xD0, 0x15]);
    cpu.set_register(0, 1);
    cpu.set_index(0x05);

    cpu.step(&mut memory, &mut display, 0).unwrap();
    for (i, data) in [
        [false, false, true, false],
        [false, true, true, false],
        [false, false, true, false],
        [false, false, true, false],
        [false, true, true, true],
    ]
    .iter()
    .enumerate()
    {
        for (j, expected) in data.iter().enumerate() {
            assert_eq!(display.get_pixel(1 + j, i), *expected);
        }
    }
    assert_eq!(cpu.get_register(0xF), 0);
    assert_eq!(cpu.get_pc(), 0x202);
    cpu.set_index(0x0A);
    cpu.step(&mut memory, &mut display, 0).unwrap();
    for (i, data) in [
        [true, true, false, true],
        [false, true, true, true],
        [true, true, false, true],
        [true, false, true, false],
        [true, false, false, false],
    ]
    .iter()
    .enumerate()
    {
        for (j, expected) in data.iter().enumerate() {
            assert_eq!(display.get_pixel(1 + j, i), *expected);
        }
    }
    assert_eq!(cpu.get_register(0xF), 1);
    assert_eq!(cpu.get_pc(), 0x204);
}

#[test]
fn test_skip_if_key_is_pressed() {
    let (mut cpu, mut memory, mut display) = initialize(&[0xE1, 0x9E, 0x00, 0x00, 0xE2, 0x9E]);
    cpu.set_register(1, 0x2);
    cpu.set_register(2, 0xF);

    cpu.step(&mut memory, &mut display, 0b0100).unwrap(); // Key 2 pressed
    assert_eq!(cpu.get_pc(), 0x204);
    cpu.step(&mut memory, &mut display, 0b0000).unwrap(); // Key F not pressed
    assert_eq!(cpu.get_pc(), 0x206);
}

#[test]
fn test_skip_if_key_is_not_pressed() {
    let (mut cpu, mut memory, mut display) = initialize(&[0xE1, 0xA1, 0x00, 0x00, 0xE2, 0xA1]);
    cpu.set_register(1, 0x3);
    cpu.set_register(2, 0xE);

    cpu.step(&mut memory, &mut display, 0b0000).unwrap();
    assert_eq!(cpu.get_pc(), 0x204);
    cpu.step(&mut memory, &mut display, 0b0100000000000000).unwrap();
    assert_eq!(cpu.get_pc(), 0x206);
}

#[test]
fn test_load_delay_timer() {
    let (mut cpu, mut memory, mut display) = initialize(&[0xF2, 0x07]);
    cpu.set_delay_timer(0x55);

    cpu.step(&mut memory, &mut display, 0).unwrap();
    assert_eq!(cpu.get_register(2), 0x55);
    assert_eq!(cpu.get_pc(), 0x202);
}

#[test]
fn test_wait_for_key_press() {
    let (mut cpu, mut memory, mut display) = initialize(&[0xF6, 0x0A]);

    cpu.step(&mut memory, &mut display, 0b0000).unwrap();
    assert_eq!(cpu.get_pc(), 0x200);
    cpu.step(&mut memory, &mut display, 0b0100).unwrap();
    assert_eq!(cpu.get_register(6), 0x02);
    assert_eq!(cpu.get_pc(), 0x202);
}

#[test]
fn test_set_delay_timer() {
    let (mut cpu, mut memory, mut display) = initialize(&[0xF6, 0x15]);
    cpu.set_register(6, 0xAA);

    cpu.step(&mut memory, &mut display, 0).unwrap();
    assert_eq!(cpu.get_delay_timer(), 0xAA);
    assert_eq!(cpu.get_pc(), 0x202);
}

#[test]
fn test_set_sound_timer() {
    let (mut cpu, mut memory, mut display) = initialize(&[0xFA, 0x18]);
    cpu.set_register(0xA, 0xBB);

    cpu.step(&mut memory, &mut display, 0).unwrap();
    assert_eq!(cpu.get_sound_timer(), 0xBB);
    assert_eq!(cpu.get_pc(), 0x202);
}

#[test]
fn test_add_to_index() {
    let (mut cpu, mut memory, mut display) = initialize(&[0xF5, 0x1E]);
    cpu.set_index(0x300);
    cpu.set_register(5, 0x20);

    cpu.step(&mut memory, &mut display, 0).unwrap();
    assert_eq!(cpu.get_index(), 0x320);
    assert_eq!(cpu.get_pc(), 0x202);
}

#[test]
fn test_load_sprite_address() {
    let (mut cpu, mut memory, mut display) = initialize(&[0xF4, 0x29]);
    cpu.set_register(4, 0x5);

    cpu.step(&mut memory, &mut display, 0).unwrap();
    assert_eq!(cpu.get_index(), 0x19);
    assert_eq!(cpu.get_pc(), 0x202);
}

#[test]
fn test_bcd_conversion() {
    let (mut cpu, mut memory, mut display) = initialize(&[0xF3, 0x33]);
    cpu.set_register(3, 254);
    cpu.set_index(0x300);

    cpu.step(&mut memory, &mut display, 0).unwrap();
    assert_eq!(memory.read(0x300).unwrap(), 2);
    assert_eq!(memory.read(0x301).unwrap(), 5);
    assert_eq!(memory.read(0x302).unwrap(), 4);
    assert_eq!(cpu.get_pc(), 0x202);
}

#[test]
fn test_registers_to_memory() {
    let (mut cpu, mut memory, mut display) = initialize(&[0xF2, 0x55]);
    cpu.set_register(0, 0x10);
    cpu.set_register(1, 0x20);
    cpu.set_register(2, 0x30);
    cpu.set_index(0x400);

    cpu.step(&mut memory, &mut display, 0).unwrap();
    assert_eq!(memory.read(0x400).unwrap(), 0x10);
    assert_eq!(memory.read(0x401).unwrap(), 0x20);
    assert_eq!(memory.read(0x402).unwrap(), 0x30);
    assert_eq!(cpu.get_pc(), 0x202);
}

#[test]
fn test_memory_to_registers() {
    let (mut cpu, mut memory, mut display) = initialize(&[0xF2, 0x65]);
    memory.write(0x500, 0x11).unwrap();
    memory.write(0x501, 0x22).unwrap();
    memory.write(0x502, 0x33).unwrap();
    cpu.set_index(0x500);

    cpu.step(&mut memory, &mut display, 0).unwrap();
    assert_eq!(cpu.get_register(0), 0x11);
    assert_eq!(cpu.get_register(1), 0x22);
    assert_eq!(cpu.get_register(2), 0x33);
    assert_eq!(cpu.get_pc(), 0x202);
}

#[test]
fn test_decrement_delay_timer() {
    let mut cpu = Cpu::new();
    cpu.set_delay_timer(1);

    cpu.dec_delay_timer();
    assert_eq!(cpu.get_delay_timer(), 0);
    cpu.dec_delay_timer();
    assert_eq!(cpu.get_delay_timer(), 0);
}

#[test]
fn test_decrement_sound_timer() {
    let mut cpu = Cpu::new();
    cpu.set_sound_timer(1);

    cpu.dec_sound_timer();
    assert_eq!(cpu.get_sound_timer(), 0);
    cpu.dec_sound_timer();
    assert_eq!(cpu.get_sound_timer(), 0);
}

#[test]
fn test_get_sound_timer() {
    let mut cpu = Cpu::new();
    cpu.set_sound_timer(42);

    assert_eq!(cpu.get_sound_timer(), 42);
}

#[test]
fn test_stack_overflow_fault() {
    let (mut cpu, mut memory, mut display) = initialize(&[0x23, 0x00]);
    cpu.set_sp(16);

    assert_eq!(
        cpu.step(&mut memory, &mut display, 0),
        Err(Fault::StackOverflow)
    );
    assert_eq!(cpu.get_pc(), 0x200);
    assert_eq!(cpu.get_sp(), 16);
}

#[test]
fn test_stack_underflow_fault() {
    let (mut cpu, mut memory, mut display) = initialize(&[0x00, 0xEE]);

    assert_eq!(
        cpu.step(&mut memory, &mut display, 0),
        Err(Fault::StackUnderflow)
    );
    assert_eq!(cpu.get_pc(), 0x200);
    assert_eq!(cpu.get_sp(), 0);
}

#[test]
fn test_fetch_out_of_range_fault() {
    // Jump to the last byte of memory: the next fetch cannot read a whole
    // instruction word and faults without changing anything.
    let (mut cpu, mut memory, mut display) = initialize(&[0x1F, 0xFF]);

    cpu.step(&mut memory, &mut display, 0).unwrap();
    assert_eq!(cpu.get_pc(), 0xFFF);
    assert_eq!(
        cpu.step(&mut memory, &mut display, 0),
        Err(Fault::AddressOutOfRange)
    );
    assert_eq!(cpu.get_pc(), 0xFFF);
}

#[test]
fn test_bcd_out_of_range_fault() {
    let (mut cpu, mut memory, mut display) = initialize(&[0xF3, 0x33]);
    cpu.set_register(3, 254);
    cpu.set_index(0xFFE);

    assert_eq!(
        cpu.step(&mut memory, &mut display, 0),
        Err(Fault::AddressOutOfRange)
    );
    assert_eq!(memory.read(0xFFE).unwrap(), 0);
    assert_eq!(cpu.get_pc(), 0x200);
}

#[test]
fn test_call_return_round_trip() {
    // 0x200: call 0x300; 0x300: return. The program counter comes back to
    // 0x202 with the stack pointer restored.
    let mut program = [0u8; 0x102];
    program[0] = 0x23;
    program[1] = 0x00;
    program[0x100] = 0x00;
    program[0x101] = 0xEE;
    let (mut cpu, mut memory, mut display) = initialize(&program);

    cpu.step(&mut memory, &mut display, 0).unwrap();
    assert_eq!(cpu.get_pc(), 0x300);
    cpu.step(&mut memory, &mut display, 0).unwrap();
    assert_eq!(cpu.get_pc(), 0x202);
    assert_eq!(cpu.get_sp(), 0);
}

#[test]
fn test_unknown_opcode_is_noop() {
    let (mut cpu, mut memory, mut display) = initialize(&[0x8A, 0xBF]);

    cpu.step(&mut memory, &mut display, 0).unwrap();
    assert_eq!(cpu.get_pc(), 0x202);
    assert_eq!(cpu.get_register(0xA), 0);
    assert_eq!(cpu.get_register(0xB), 0);
}

#[test]
fn test_index_wraps_as_16_bit_register() {
    let (mut cpu, mut memory, mut display) = initialize(&[0xF5, 0x1E]);
    cpu.set_index(0xFFFF);
    cpu.set_register(5, 3);

    cpu.step(&mut memory, &mut display, 0).unwrap();
    assert_eq!(cpu.get_index(), 2);
}
