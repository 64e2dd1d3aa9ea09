use chippi::decode::Instruction;
use chippi::error::Chip8Error;
use chippi::machine::{Chip8, Computer, DISPLAY_HEIGHT, DISPLAY_WIDTH};

/// A machine with the given instruction words loaded at 0x200.
fn machine(words: &[u16]) -> Chip8 {
    let mut rom: Vec<u8> = Vec::new();
    for w in words {
        rom.push((w >> 8) as u8);
        rom.push((w & 0xFF) as u8);
    }
    Chip8::from_rom(Computer::Normal, &rom)
}

fn run(chip: &mut Chip8, cycles: usize) {
    for _ in 0..cycles {
        assert_eq!(chip.step(0), Ok(()));
    }
}

fn lit_pixels(chip: &Chip8) -> Vec<(u8, u8)> {
    let mut lit = Vec::new();
    for y in 0..DISPLAY_HEIGHT {
        for x in 0..DISPLAY_WIDTH {
            if chip.pixel(x, y) {
                lit.push((x, y));
            }
        }
    }
    lit
}

#[test]
fn new_machine_state() {
    let chip = Chip8::new(Computer::Normal);
    assert_eq!(chip.pc(), 0x200);
    assert_eq!(chip.i_register(), 0);
    assert_eq!(chip.stack_pointer(), 0);
    assert_eq!(chip.delay_timer(), 0);
    assert_eq!(chip.sound_timer(), 0);
    for x in 0..16 {
        assert_eq!(chip.register(x), 0);
    }
    assert_eq!(chip.memory(0), 0xf0);
    assert_eq!(chip.memory(5), 0x20);
    assert_eq!(chip.memory(0x200), 0);
    assert!(lit_pixels(&chip).is_empty());

    let eti = Chip8::new(Computer::Eti);
    assert_eq!(eti.pc(), 0x600);
    assert_eq!(Computer::Normal.program_start(), 0x200);
    assert_eq!(Computer::Eti.program_start(), 0x600);
}

#[test]
fn load_places_program_at_start() {
    let eti = Chip8::from_rom(Computer::Eti, &[0x12, 0x34]);
    assert_eq!(eti.memory(0x600), 0x12);
    assert_eq!(eti.memory(0x601), 0x34);
    assert_eq!(eti.memory(0x200), 0);
}

#[test]
fn load_truncates_at_end_of_memory() {
    let rom: Vec<u8> = (0..(4096 - 0x600 + 10)).map(|i| (i % 251) as u8 + 1).collect();
    let chip = Chip8::from_rom(Computer::Eti, &rom);
    assert_eq!(chip.memory(0xFFF), rom[4096 - 0x600 - 1]);
    assert_eq!(chip.memory(0), 0xf0);
    assert_eq!(chip.memory(0x5FF), 0);
}

#[test]
fn memory_addresses_wrap() {
    let chip = Chip8::new(Computer::Normal);
    assert_eq!(chip.memory(0x1000), chip.memory(0));
}

#[test]
fn add_byte_wraps_without_flag() {
    let mut chip = machine(&[0x6F07, 0x60FA, 0x700A]);
    run(&mut chip, 3);
    assert_eq!(chip.register(0), 4);
    assert_eq!(chip.register(0xF), 7);
    assert_eq!(chip.pc(), 0x206);
}

#[test]
fn add_registers_sets_carry() {
    let mut chip = machine(&[0x60C8, 0x6164, 0x8014]);
    run(&mut chip, 3);
    assert_eq!(chip.register(0), 44);
    assert_eq!(chip.register(0xF), 1);

    let mut chip = machine(&[0x600A, 0x6105, 0x8014]);
    run(&mut chip, 3);
    assert_eq!(chip.register(0), 15);
    assert_eq!(chip.register(0xF), 0);
}

#[test]
fn sub_registers_sets_no_borrow() {
    let mut chip = machine(&[0x6005, 0x610A, 0x8015]);
    run(&mut chip, 3);
    assert_eq!(chip.register(0), 251);
    assert_eq!(chip.register(0xF), 0);

    let mut chip = machine(&[0x600A, 0x6105, 0x8015]);
    run(&mut chip, 3);
    assert_eq!(chip.register(0), 5);
    assert_eq!(chip.register(0xF), 1);
}

#[test]
fn subn_and_shifts() {
    let mut chip = machine(&[0x6005, 0x610A, 0x8017]);
    run(&mut chip, 3);
    assert_eq!(chip.register(0), 5);
    assert_eq!(chip.register(0xF), 1);

    let mut chip = machine(&[0x6081, 0x8006]);
    run(&mut chip, 2);
    assert_eq!(chip.register(0), 0x40);
    assert_eq!(chip.register(0xF), 1);

    let mut chip = machine(&[0x6081, 0x800E]);
    run(&mut chip, 2);
    assert_eq!(chip.register(0), 0x02);
    assert_eq!(chip.register(0xF), 1);

    let mut chip = machine(&[0x6040, 0x800E]);
    run(&mut chip, 2);
    assert_eq!(chip.register(0), 0x80);
    assert_eq!(chip.register(0xF), 0);
}

#[test]
fn logic_and_copy() {
    let mut chip = machine(&[0x60F0, 0x613C, 0x8011, 0x6290, 0x8122, 0x6355, 0x8333, 0x8430]);
    run(&mut chip, 8);
    assert_eq!(chip.register(0), 0xFC);
    assert_eq!(chip.register(1), 0x10);
    assert_eq!(chip.register(3), 0x00);
    assert_eq!(chip.register(4), 0x00);
}

#[test]
fn skips() {
    let mut chip = machine(&[0x6005, 0x3005]);
    run(&mut chip, 2);
    assert_eq!(chip.pc(), 0x206);

    let mut chip = machine(&[0x6005, 0x3006]);
    run(&mut chip, 2);
    assert_eq!(chip.pc(), 0x204);

    let mut chip = machine(&[0x6005, 0x4006]);
    run(&mut chip, 2);
    assert_eq!(chip.pc(), 0x206);

    let mut chip = machine(&[0x6005, 0x6105, 0x5010]);
    run(&mut chip, 3);
    assert_eq!(chip.pc(), 0x208);

    let mut chip = machine(&[0x6005, 0x6105, 0x9010]);
    run(&mut chip, 3);
    assert_eq!(chip.pc(), 0x206);
}

#[test]
fn jumps() {
    let mut chip = machine(&[0x1345]);
    run(&mut chip, 1);
    assert_eq!(chip.pc(), 0x345);

    let mut chip = machine(&[0x6004, 0xB300]);
    run(&mut chip, 2);
    assert_eq!(chip.pc(), 0x304);

    let mut chip = Chip8::new(Computer::Normal);
    chip.JP(0x456);
    assert_eq!(chip.pc(), 0x456);
}

#[test]
fn call_then_return() {
    let mut rom = vec![0u8; 0x102];
    rom[0] = 0x23;
    rom[1] = 0x00;
    rom[0x100] = 0x00;
    rom[0x101] = 0xEE;
    let mut chip = Chip8::from_rom(Computer::Normal, &rom);
    run(&mut chip, 1);
    assert_eq!(chip.pc(), 0x300);
    assert_eq!(chip.stack_pointer(), 1);
    run(&mut chip, 1);
    assert_eq!(chip.pc(), 0x202);
    assert_eq!(chip.stack_pointer(), 0);
}

#[test]
fn return_without_call_fails() {
    let mut chip = machine(&[0x00EE]);
    assert_eq!(chip.step(0), Err(Chip8Error::StackUnderflow));
    assert_eq!(chip.pc(), 0x200);
    assert_eq!(chip.stack_pointer(), 0);
}

#[test]
fn call_past_stack_limit_fails() {
    let mut chip = machine(&[0x2200]);
    run(&mut chip, 15);
    assert_eq!(chip.stack_pointer(), 15);
    assert_eq!(chip.step(0), Err(Chip8Error::StackOverflow));
    assert_eq!(chip.stack_pointer(), 15);
    assert_eq!(chip.pc(), 0x200);
}

#[test]
fn unknown_instruction_fails_and_changes_nothing() {
    let mut chip = machine(&[0x6005, 0xF015, 0x8008]);
    run(&mut chip, 2);
    assert_eq!(chip.delay_timer(), 5);
    assert_eq!(chip.step(0), Err(Chip8Error::UnknownInstruction(0x8008)));
    assert_eq!(chip.pc(), 0x204);
    assert_eq!(chip.delay_timer(), 5);
}

#[test]
fn draw_twice_restores_and_collides() {
    let mut chip = machine(&[0xA000, 0x6005, 0x6106, 0xD015, 0xD015]);
    run(&mut chip, 4);
    let lit = lit_pixels(&chip);
    assert_eq!(lit.len(), 14);
    assert!(lit.contains(&(5, 6)));
    assert_eq!(chip.register(0xF), 0);
    run(&mut chip, 1);
    assert!(lit_pixels(&chip).is_empty());
    assert_eq!(chip.register(0xF), 1);
}

#[test]
fn draw_wraps_around_the_edges() {
    let mut chip = machine(&[0x603C, 0x6100, 0xA20A, 0xD011, 0x0000, 0xFF00]);
    run(&mut chip, 4);
    let lit = lit_pixels(&chip);
    let expected: Vec<(u8, u8)> = vec![(0, 0), (1, 0), (2, 0), (3, 0), (60, 0), (61, 0), (62, 0), (63, 0)];
    assert_eq!(lit, expected);
    assert_eq!(chip.register(0xF), 0);

    let mut chip = machine(&[0x6000, 0x611F, 0xA000, 0xD012]);
    run(&mut chip, 4);
    assert!(chip.pixel(0, 31));
    assert!(chip.pixel(0, 0));
    assert!(!chip.pixel(0, 1));
}

#[test]
fn clear_screen() {
    let mut chip = machine(&[0xA000, 0xD005, 0x00E0]);
    run(&mut chip, 2);
    assert!(!lit_pixels(&chip).is_empty());
    run(&mut chip, 1);
    assert!(lit_pixels(&chip).is_empty());
    assert_eq!(chip.pc(), 0x206);
}

#[test]
fn delay_timer_decays_to_zero() {
    let mut chip = machine(&[0x6005, 0xF015, 0, 0, 0, 0, 0, 0, 0]);
    run(&mut chip, 2);
    assert_eq!(chip.delay_timer(), 5);
    for expected in [4u8, 3, 2, 1, 0] {
        run(&mut chip, 1);
        assert_eq!(chip.delay_timer(), expected);
    }
    run(&mut chip, 2);
    assert_eq!(chip.delay_timer(), 0);
}

#[test]
fn timers_read_and_sound() {
    let mut chip = machine(&[0x6003, 0xF018, 0xF015, 0xF107]);
    run(&mut chip, 3);
    assert_eq!(chip.sound_timer(), 2);
    run(&mut chip, 1);
    assert_eq!(chip.register(1), 2);
    assert_eq!(chip.sound_timer(), 1);
}

#[test]
fn wait_for_key_blocks_until_pressed() {
    let mut chip = machine(&[0xF30A]);
    run(&mut chip, 3);
    assert_eq!(chip.pc(), 0x200);
    chip.set_key(9, true);
    chip.set_key(7, true);
    run(&mut chip, 1);
    assert_eq!(chip.register(3), 7);
    assert_eq!(chip.pc(), 0x202);
}

#[test]
fn key_skips() {
    let mut chip = machine(&[0x600A, 0xE09E, 0, 0xE0A1]);
    let mut keys = [false; 16];
    keys[0xA] = true;
    chip.set_keys(keys);
    run(&mut chip, 2);
    assert_eq!(chip.pc(), 0x206);
    run(&mut chip, 1);
    assert_eq!(chip.pc(), 0x208);

    let mut chip = machine(&[0x600A, 0xE0A1]);
    run(&mut chip, 2);
    assert_eq!(chip.pc(), 0x206);
}

#[test]
fn index_register_ops() {
    let mut chip = machine(&[0xAFFF, 0x60FF, 0xF01E]);
    run(&mut chip, 3);
    assert_eq!(chip.i_register(), 0x10FE);

    let mut chip = machine(&[0x6A0A, 0xFA29]);
    run(&mut chip, 2);
    assert_eq!(chip.i_register(), 50);
}

#[test]
fn bcd_store() {
    let mut chip = machine(&[0x60FE, 0xA300, 0xF033]);
    run(&mut chip, 3);
    assert_eq!(chip.memory(0x300), 2);
    assert_eq!(chip.memory(0x301), 5);
    assert_eq!(chip.memory(0x302), 4);
}

#[test]
fn store_and_load_registers() {
    let mut chip = machine(&[0x6001, 0x6102, 0x6203, 0x6309, 0xA300, 0xF255, 0x6000, 0x6100, 0x6200, 0xF265]);
    run(&mut chip, 6);
    assert_eq!(chip.memory(0x300), 1);
    assert_eq!(chip.memory(0x301), 2);
    assert_eq!(chip.memory(0x302), 3);
    assert_eq!(chip.memory(0x303), 0);
    run(&mut chip, 4);
    assert_eq!(chip.register(0), 1);
    assert_eq!(chip.register(1), 2);
    assert_eq!(chip.register(2), 3);
    assert_eq!(chip.register(3), 9);
    assert_eq!(chip.i_register(), 0x300);
}

#[test]
fn execute_decoded_instruction() {
    let mut chip = Chip8::new(Computer::Normal);
    assert_eq!(chip.execute(Instruction::Ld(2, 0x33), 0), Ok(()));
    assert_eq!(chip.register(2), 0x33);
    assert_eq!(chip.pc(), 0x202);
    assert_eq!(chip.execute(Instruction::Ret, 0), Err(Chip8Error::StackUnderflow));
    assert_eq!(chip.pc(), 0x202);
}

#[test]
fn random_byte_is_masked() {
    let mut chip = machine(&[0xC000, 0xC50F]);
    assert_eq!(chip.step(0xAB), Ok(()));
    assert_eq!(chip.register(0), 0);
    assert_eq!(chip.step(0xAB), Ok(()));
    assert_eq!(chip.register(5), 0x0B);

    let mut chip = machine(&[0xC00F, 0x6107]);
    assert_eq!(chip.tick(), Ok(()));
    assert!(chip.register(0) <= 0x0F);
    assert_eq!(chip.tick(), Ok(()));
    assert_eq!(chip.register(1), 7);
    assert_eq!(chip.pc(), 0x204);
}
