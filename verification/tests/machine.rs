use chip8::errors::{Fault, LoadError};
use chip8::memory::{Memory, MAX_PROGRAM_LEN, PROGRAM_START};
use chip8::Chip8;

#[test]
fn test_machine_runs_add_program() {
    // V4 = 200, V5 = 100, add V5 into V4, then expose V4 and VF through the
    // sound and delay timers.
    let program = [0x64, 0xC8, 0x65, 0x64, 0x84, 0x54, 0xF4, 0x18, 0xFF, 0x15];
    let mut machine = Chip8::new(&program).unwrap();
    for _ in 0..5 {
        machine.step(0).unwrap();
    }
    // 200 + 100 = 300 = 44 mod 256, with the carry flag set.
    assert_eq!(machine.get_sound_timer(), 44);
}

#[test]
fn test_machine_draws_glyph() {
    // I = glyph '2' (address 10), draw 5 rows at (V0, V1) = (0, 0).
    let program = [0xA0, 0x0A, 0xD0, 0x15];
    let mut machine = Chip8::new(&program).unwrap();
    machine.step(0).unwrap();
    machine.step(0).unwrap();
    let expected = [
        [true, true, true, true],
        [false, false, false, true],
        [true, true, true, true],
        [true, false, false, false],
        [true, true, true, true],
    ];
    let display = machine.get_display();
    for (y, row) in expected.iter().enumerate() {
        for (x, pixel) in row.iter().enumerate() {
            assert_eq!(display.get_pixel(x, y), *pixel);
        }
    }
}

#[test]
fn test_machine_rejects_oversized_program() {
    let program = vec![0u8; MAX_PROGRAM_LEN + 1];
    assert!(matches!(
        Chip8::new(&program),
        Err(LoadError::ProgramTooLong)
    ));
    let largest = vec![0u8; MAX_PROGRAM_LEN];
    assert!(Chip8::new(&largest).is_ok());
}

#[test]
fn test_machine_timers_saturate() {
    // Load V0 = 1 and move it into the sound timer, then tick past zero.
    let program = [0x60, 0x01, 0xF0, 0x18];
    let mut machine = Chip8::new(&program).unwrap();
    machine.step(0).unwrap();
    machine.step(0).unwrap();
    assert_eq!(machine.get_sound_timer(), 1);
    machine.dec_sound_timer();
    assert_eq!(machine.get_sound_timer(), 0);
    machine.dec_sound_timer();
    assert_eq!(machine.get_sound_timer(), 0);
    machine.dec_delay_timer();
    machine.dec_delay_timer();
    machine.step(0).unwrap();
}

#[test]
fn test_machine_surfaces_faults() {
    // 00EE with an empty stack is a stack underflow, and the machine is left
    // unchanged so the fault is reproducible.
    let mut machine = Chip8::new(&[0x00, 0xEE]).unwrap();
    assert_eq!(machine.step(0), Err(Fault::StackUnderflow));
    assert_eq!(machine.step(0), Err(Fault::StackUnderflow));
}

#[test]
fn test_memory_image_layout() {
    let program = [0xAB, 0xCD];
    let memory = Memory::new(&program).unwrap();
    // The font's first glyph row and last glyph row.
    assert_eq!(memory.read(0).unwrap(), 0xF0);
    assert_eq!(memory.read(79).unwrap(), 0x80);
    // Bytes between the font and the program are zero.
    assert_eq!(memory.read(80).unwrap(), 0);
    assert_eq!(memory.read(PROGRAM_START - 1).unwrap(), 0);
    // The program image sits at the load offset.
    assert_eq!(memory.read(PROGRAM_START).unwrap(), 0xAB);
    assert_eq!(memory.read(PROGRAM_START + 1).unwrap(), 0xCD);
    // Bytes above the program are zero.
    assert_eq!(memory.read(PROGRAM_START + 2).unwrap(), 0);
    assert_eq!(memory.read(4095).unwrap(), 0);
}

#[test]
fn test_memory_checked_access() {
    let mut memory = Memory::new(&[]).unwrap();
    assert_eq!(memory.read(4096), Err(Fault::AddressOutOfRange));
    assert_eq!(memory.write(4096, 1), Err(Fault::AddressOutOfRange));
    memory.write(0x400, 0x7E).unwrap();
    assert_eq!(memory.read(0x400).unwrap(), 0x7E);
}

#[test]
fn test_machine_key_wait_blocks() {
    // Wait for a key, then expose V6 through the sound timer. While no key
    // is held the wait does not advance, so the second instruction only runs
    // after key 3 is seen and stored.
    let program = [0xF6, 0x0A, 0xF6, 0x18];
    let mut machine = Chip8::new(&program).unwrap();
    machine.step(0).unwrap();
    machine.step(0).unwrap();
    assert_eq!(machine.get_sound_timer(), 0);
    machine.step(0b1000).unwrap();
    machine.step(0).unwrap();
    assert_eq!(machine.get_sound_timer(), 3);
}
