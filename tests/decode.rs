use chippi::decode::{decode, g_nib, get_bits, get_nibble, Instruction, Nibble};
use chippi::error::Chip8Error;
use chippi::font::load_text;

#[test]
fn tests() {
    let addr: u16 = 0xABCD;

    assert_eq!(get_nibble(0, addr), 0xA);
    assert_eq!(get_nibble(1, addr), 0xB);
    assert_eq!(get_nibble(2, addr), 0xC);
    assert_eq!(get_nibble(3, addr), 0xD);
}

#[test]
fn test_g_nibs() {
    let addr: u16 = 0xABCD;
    assert_eq!(g_nib(Nibble::Second, addr), 0xB);
    assert_eq!(g_nib(Nibble::Third, addr), 0xC);
    assert_eq!(g_nib(Nibble::Last, addr), 0xD);
    assert_eq!(g_nib(Nibble::Byte, addr), 0xCD);
    assert_eq!(g_nib(Nibble::Address, addr), 0xBCD);

    let addr: u16 = 0x6B1A;

    let second = g_nib(Nibble::Second, addr);
    let byte = g_nib(Nibble::Byte, addr);
    let thing = (second, byte);

    assert_eq!(thing, (0xb, 0x1a));
}

#[test]
fn get_nibble_past_two_is_last() {
    assert_eq!(get_nibble(7, 0x1234), 0x4);
}

#[test]
fn get_bits_splits_every_field() {
    assert_eq!(get_bits(0xABCD), (0xA, 0xD, 0xB, 0xC, 0xD, 0xCD, 0xBCD));
    assert_eq!(get_bits(0x0000), (0, 0, 0, 0, 0, 0, 0));
    assert_eq!(get_bits(0xFFFF), (0xF, 0xF, 0xF, 0xF, 0xF, 0xFF, 0xFFF));
}

#[test]
fn decode_each_family() {
    assert_eq!(decode(0x00E0), Ok(Instruction::Cls));
    assert_eq!(decode(0x00EE), Ok(Instruction::Ret));
    assert_eq!(decode(0x0123), Ok(Instruction::Sys(0x123)));
    assert_eq!(decode(0x1ABC), Ok(Instruction::Jp(0xABC)));
    assert_eq!(decode(0x2ABC), Ok(Instruction::Call(0xABC)));
    assert_eq!(decode(0x3A12), Ok(Instruction::Se(0xA, 0x12)));
    assert_eq!(decode(0x4A12), Ok(Instruction::Sne(0xA, 0x12)));
    assert_eq!(decode(0x5AB0), Ok(Instruction::Ser(0xA, 0xB)));
    assert_eq!(decode(0x6A12), Ok(Instruction::Ld(0xA, 0x12)));
    assert_eq!(decode(0x7A12), Ok(Instruction::Add(0xA, 0x12)));
    assert_eq!(decode(0x8AB0), Ok(Instruction::Ldr(0xA, 0xB)));
    assert_eq!(decode(0x8AB1), Ok(Instruction::Or(0xA, 0xB)));
    assert_eq!(decode(0x8AB2), Ok(Instruction::And(0xA, 0xB)));
    assert_eq!(decode(0x8AB3), Ok(Instruction::Xor(0xA, 0xB)));
    assert_eq!(decode(0x8AB4), Ok(Instruction::Addr(0xA, 0xB)));
    assert_eq!(decode(0x8AB5), Ok(Instruction::Sub(0xA, 0xB)));
    assert_eq!(decode(0x8AB6), Ok(Instruction::Shr(0xA, 0xB)));
    assert_eq!(decode(0x8AB7), Ok(Instruction::Subn(0xA, 0xB)));
    assert_eq!(decode(0x8ABE), Ok(Instruction::Shl(0xA, 0xB)));
    assert_eq!(decode(0x9AB0), Ok(Instruction::Sner(0xA, 0xB)));
    assert_eq!(decode(0xA123), Ok(Instruction::Ldi(0x123)));
    assert_eq!(decode(0xB123), Ok(Instruction::Jpo(0x123)));
    assert_eq!(decode(0xC312), Ok(Instruction::Rnd(3, 0x12)));
    assert_eq!(decode(0xD125), Ok(Instruction::Drw(1, 2, 5)));
    assert_eq!(decode(0xE49E), Ok(Instruction::Skpk(4)));
    assert_eq!(decode(0xE4A1), Ok(Instruction::Sknpk(4)));
    assert_eq!(decode(0xF507), Ok(Instruction::Ldt(5)));
    assert_eq!(decode(0xF50A), Ok(Instruction::Ldk(5)));
    assert_eq!(decode(0xF515), Ok(Instruction::Ldd(5)));
    assert_eq!(decode(0xF518), Ok(Instruction::Lds(5)));
    assert_eq!(decode(0xF51E), Ok(Instruction::Addi(5)));
    assert_eq!(decode(0xF529), Ok(Instruction::Ldf(5)));
    assert_eq!(decode(0xF533), Ok(Instruction::Ldb(5)));
    assert_eq!(decode(0xF555), Ok(Instruction::Ldix(5)));
    assert_eq!(decode(0xF565), Ok(Instruction::Ldrx(5)));
}

#[test]
fn decode_rejects_unknown_words() {
    assert_eq!(decode(0x8AB8), Err(Chip8Error::UnknownInstruction(0x8AB8)));
    assert_eq!(decode(0xE400), Err(Chip8Error::UnknownInstruction(0xE400)));
    assert_eq!(decode(0xF5FF), Err(Chip8Error::UnknownInstruction(0xF5FF)));
}

#[test]
fn load_text_places_the_font() {
    let ram = load_text(0);
    assert_eq!(&ram[0..5], &[0xf0, 0x90, 0x90, 0x90, 0xf0]);
    assert_eq!(&ram[75..80], &[0xf0, 0x80, 0xf0, 0x80, 0x80]);
    assert!(ram[80..].iter().all(|b| *b == 0));

    let moved = load_text(0x100);
    assert_eq!(moved[0], 0);
    assert_eq!(&moved[0x100..0x105], &[0xf0, 0x90, 0x90, 0x90, 0xf0]);
    assert_eq!(moved[0x150], 0);
}

#[test]
fn error_messages() {
    assert_eq!(Chip8Error::FileNotFound.message(), "File not found");
    assert_eq!(Chip8Error::StackOverflow.message(), "Stack overflow");
    assert_eq!(Chip8Error::StackUnderflow.message(), "Stack underflow");
    assert_eq!(Chip8Error::UnknownInstruction(1).message(), "Unknown instruction");
}
