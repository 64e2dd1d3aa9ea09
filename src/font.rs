//! The built-in hexadecimal font and the memory image that holds it.
use vstd::prelude::*;

verus! {

/// Bytes in the font table: 16 glyphs of 5 rows each.
pub const FONT_LEN: usize = 80;

/// Bytes of addressable memory.
pub const MEMORY_SIZE: usize = 4096;

/// The font table: glyph `d` occupies bytes `5 * d .. 5 * d + 5`, one byte
/// per row of a 4×5 bitmap held in the high nibble.
pub open spec fn font_spec() -> Seq<u8> {
    seq![
        0xf0u8, 0x90, 0x90, 0x90, 0xf0, // 0
        0x20, 0x60, 0x20, 0x20, 0x70, // 1
        0xf0, 0x10, 0xf0, 0x80, 0xf0, // 2
        0xf0, 0x10, 0xf0, 0x10, 0xf0, // 3
        0x90, 0x90, 0xf0, 0x10, 0x10, // 4
        0xf0, 0x80, 0xf0, 0x10, 0xf0, // 5
        0xf0, 0x80, 0xf0, 0x90, 0xf0, // 6
        0xf0, 0x10, 0x20, 0x40, 0x40, // 7
        0xf0, 0x90, 0xf0, 0x90, 0xf0, // 8
        0xf0, 0x90, 0xf0, 0x10, 0xf0, // 9
        0xf0, 0x90, 0xf0, 0x90, 0x90, // A
        0xe0, 0x90, 0xe0, 0x90, 0xe0, // B
        0xf0, 0x80, 0x80, 0x80, 0xf0, // C
        0xe0, 0x90, 0x90, 0x90, 0xe0, // D
        0xf0, 0x80, 0xf0, 0x80, 0xf0, // E
        0xf0, 0x80, 0xf0, 0x80, 0x80, // F
    ]
}

/// A zeroed memory image with the font table placed at `offset`.
pub open spec fn text_image(offset: int) -> Seq<u8> {
    Seq::new(
        MEMORY_SIZE as nat,
        |a: int|
            if offset <= a < offset + FONT_LEN {
                font_spec()[a - offset]
            } else {
                0u8
            },
    )
}

fn font_table() -> (r: [u8; 80])
    ensures
        r@ == font_spec(),
{
    let r: [u8; 80] = [
        0xf0, 0x90, 0x90, 0x90, 0xf0, // 0
        0x20, 0x60, 0x20, 0x20, 0x70, // 1
        0xf0, 0x10, 0xf0, 0x80, 0xf0, // 2
        0xf0, 0x10, 0xf0, 0x10, 0xf0, // 3
        0x90, 0x90, 0xf0, 0x10, 0x10, // 4
        0xf0, 0x80, 0xf0, 0x10, 0xf0, // 5
        0xf0, 0x80, 0xf0, 0x90, 0xf0, // 6
        0xf0, 0x10, 0x20, 0x40, 0x40, // 7
        0xf0, 0x90, 0xf0, 0x90, 0xf0, // 8
        0xf0, 0x90, 0xf0, 0x10, 0xf0, // 9
        0xf0, 0x90, 0xf0, 0x90, 0x90, // A
        0xe0, 0x90, 0xe0, 0x90, 0xe0, // B
        0xf0, 0x80, 0x80, 0x80, 0xf0, // C
        0xe0, 0x90, 0x90, 0x90, 0xe0, // D
        0xf0, 0x80, 0xf0, 0x80, 0xf0, // E
        0xf0, 0x80, 0xf0, 0x80, 0x80, // F
    ];
    assert(r@ =~= font_spec());
    r
}

/// A zeroed 4096-byte memory with the font table written at `offset`.
pub fn load_text(offset: usize) -> (ram: [u8; 4096])
    requires
        offset + FONT_LEN <= MEMORY_SIZE,
    ensures
        ram@ == text_image(offset as int),
{
    let text = font_table();
    let mut ram: [u8; 4096] = [0u8; 4096];
    let mut i: usize = 0;
    while i < FONT_LEN
        invariant
            offset + FONT_LEN <= MEMORY_SIZE,
            text@ == font_spec(),
            i <= FONT_LEN,
            forall|a: int|
                0 <= a < MEMORY_SIZE ==> #[trigger] ram@[a] == if offset <= a < offset + i {
                    font_spec()[a - offset]
                } else {
                    0u8
                },
        decreases FONT_LEN - i,
    {
        ram[offset + i] = text[i];
        i = i + 1;
    }
    assert(ram@ =~= text_image(offset as int));
    ram
}

} // verus!
