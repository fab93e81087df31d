use vstd::prelude::*;

verus! {

/// Where a program is loaded, and where execution starts.
pub const START_POS: usize = 0x200;

/// The 4 KiB of memory of the machine.
pub struct Memory {
    pub memory: [u8; 4096],
}

impl View for Memory {
    type V = Seq<u8>;

    open spec fn view(&self) -> Seq<u8> {
        self.memory@
    }
}

impl Memory {
    /// Memory with every byte zero.
    pub fn new() -> (memory: Memory)
        ensures
            memory@ == Seq::new(4096, |k: int| 0u8),
    {
        let memory = Memory { memory: [0u8; 4096] };
        assert(memory@ =~= Seq::new(4096, |k: int| 0u8));
        memory
    }
}

/// The built-in font: sixteen glyphs, for the hex digits `0` to `F`, each of
/// five rows of four pixels (the high nibble of each byte).
pub open spec fn font() -> Seq<u8> {
    seq![
        0xf0u8, 0x90u8, 0x90u8, 0x90u8, 0xf0u8,  // 0
        0x70u8, 0x20u8, 0x20u8, 0x60u8, 0x20u8,  // 1
        0xf0u8, 0x80u8, 0xf0u8, 0x10u8, 0xf0u8,  // 2
        0xf0u8, 0x10u8, 0xf0u8, 0x10u8, 0xf0u8,  // 3
        0x10u8, 0x10u8, 0xf0u8, 0x90u8, 0x90u8,  // 4
        0xf0u8, 0x10u8, 0xf0u8, 0x80u8, 0xf0u8,  // 5
        0xf0u8, 0x90u8, 0xf0u8, 0x80u8, 0xf0u8,  // 6
        0x40u8, 0x40u8, 0x20u8, 0x10u8, 0xf0u8,  // 7
        0xf0u8, 0x90u8, 0xf0u8, 0x90u8, 0xf0u8,  // 8
        0xf0u8, 0x10u8, 0xf0u8, 0x90u8, 0xf0u8,  // 9
        0x90u8, 0x90u8, 0xf0u8, 0x90u8, 0xf0u8,  // A
        0xe0u8, 0x90u8, 0xe0u8, 0x90u8, 0xe0u8,  // B
        0xf0u8, 0x80u8, 0x80u8, 0x80u8, 0xf0u8,  // C
        0xe0u8, 0x90u8, 0x90u8, 0x90u8, 0xe0u8,  // D
        0xf0u8, 0x80u8, 0xf0u8, 0x80u8, 0xf0u8,  // E
        0x80u8, 0x80u8, 0xf0u8, 0x80u8, 0xf0u8,  // F
    ]
}

/// The five rows of the glyph for hex digit `digit`.
pub open spec fn glyph(digit: int) -> Seq<u8> {
    font().subrange(5 * digit, 5 * digit + 5)
}

/// Whether `memory` holds the built-in font at its start.
pub open spec fn fonts_loaded(memory: Seq<u8>) -> bool {
    memory.len() == 4096 && memory.subrange(0, 80) == font()
}

/// Writes the built-in font to the first 80 bytes of memory, glyph `d` at
/// address `5 * d`; the rest of memory is kept.
#[verifier::rlimit(60)]
pub fn load_fonts(memory: &mut Memory)
    ensures
        final(memory)@ == font() + old(memory)@.subrange(80, 4096),
        fonts_loaded(final(memory)@),
{
    memory.memory[0] = 0xf0;  // 0
    memory.memory[1] = 0x90;
    memory.memory[2] = 0x90;
    memory.memory[3] = 0x90;
    memory.memory[4] = 0xf0;
    memory.memory[5] = 0x70;  // 1
    memory.memory[6] = 0x20;
    memory.memory[7] = 0x20;
    memory.memory[8] = 0x60;
    memory.memory[9] = 0x20;
    memory.memory[10] = 0xf0;  // 2
    memory.memory[11] = 0x80;
    memory.memory[12] = 0xf0;
    memory.memory[13] = 0x10;
    memory.memory[14] = 0xf0;
    memory.memory[15] = 0xf0;  // 3
    memory.memory[16] = 0x10;
    memory.memory[17] = 0xf0;
    memory.memory[18] = 0x10;
    memory.memory[19] = 0xf0;
    memory.memory[20] = 0x10;  // 4
    memory.memory[21] = 0x10;
    memory.memory[22] = 0xf0;
    memory.memory[23] = 0x90;
    memory.memory[24] = 0x90;
    memory.memory[25] = 0xf0;  // 5
    memory.memory[26] = 0x10;
    memory.memory[27] = 0xf0;
    memory.memory[28] = 0x80;
    memory.memory[29] = 0xf0;
    memory.memory[30] = 0xf0;  // 6
    memory.memory[31] = 0x90;
    memory.memory[32] = 0xf0;
    memory.memory[33] = 0x80;
    memory.memory[34] = 0xf0;
    memory.memory[35] = 0x40;  // 7
    memory.memory[36] = 0x40;
    memory.memory[37] = 0x20;
    memory.memory[38] = 0x10;
    memory.memory[39] = 0xf0;
    memory.memory[40] = 0xf0;  // 8
    memory.memory[41] = 0x90;
    memory.memory[42] = 0xf0;
    memory.memory[43] = 0x90;
    memory.memory[44] = 0xf0;
    memory.memory[45] = 0xf0;  // 9
    memory.memory[46] = 0x10;
    memory.memory[47] = 0xf0;
    memory.memory[48] = 0x90;
    memory.memory[49] = 0xf0;
    memory.memory[50] = 0x90;  // A
    memory.memory[51] = 0x90;
    memory.memory[52] = 0xf0;
    memory.memory[53] = 0x90;
    memory.memory[54] = 0xf0;
    memory.memory[55] = 0xe0;  // B
    memory.memory[56] = 0x90;
    memory.memory[57] = 0xe0;
    memory.memory[58] = 0x90;
    memory.memory[59] = 0xe0;
    memory.memory[60] = 0xf0;  // C
    memory.memory[61] = 0x80;
    memory.memory[62] = 0x80;
    memory.memory[63] = 0x80;
    memory.memory[64] = 0xf0;
    memory.memory[65] = 0xe0;  // D
    memory.memory[66] = 0x90;
    memory.memory[67] = 0x90;
    memory.memory[68] = 0x90;
    memory.memory[69] = 0xe0;
    memory.memory[70] = 0xf0;  // E
    memory.memory[71] = 0x80;
    memory.memory[72] = 0xf0;
    memory.memory[73] = 0x80;
    memory.memory[74] = 0xf0;
    memory.memory[75] = 0x80;  // F
    memory.memory[76] = 0x80;
    memory.memory[77] = 0xf0;
    memory.memory[78] = 0x80;
    memory.memory[79] = 0xf0;
    assert(memory@ =~= font() + old(memory)@.subrange(80, 4096));
    assert(memory@.subrange(0, 80) =~= font());
}

/// Copies a program image into memory from `START_POS` on; the rest of
/// memory is kept.
pub fn load_rom(memory: &mut Memory, rom: &Vec<u8>)
    requires
        rom.len() <= 4096 - START_POS,
    ensures
        final(memory)@ == old(memory)@.subrange(0, START_POS as int) + rom@
            + old(memory)@.subrange(START_POS + rom.len(), 4096),
{
    let mut i: usize = 0;
    while i < rom.len()
        invariant
            i <= rom.len(),
            rom.len() <= 4096 - START_POS,
            memory@.len() == 4096,
            forall|k: int| 0 <= k < START_POS ==> memory@[k] == old(memory)@[k],
            forall|k: int| 0 <= k < i ==> memory@[START_POS + k] == rom@[k],
            forall|k: int| START_POS + i <= k < 4096 ==> memory@[k] == old(memory)@[k],
        decreases rom.len() - i,
    {
        memory.memory[START_POS + i] = rom[i];
        i = i + 1;
    }
    assert(memory@ =~= old(memory)@.subrange(0, START_POS as int) + rom@
        + old(memory)@.subrange(START_POS + rom.len(), 4096));
}

/// The font draws with the left four pixels of each row only (every byte a
/// multiple of 16), its sixteen glyphs differ from each other, and every
/// glyph has its top row lit.
pub proof fn law_font_shape()
    ensures
        font().len() == 80,
        forall|k: int| 0 <= k < 80 ==> #[trigger] font()[k] % 16 == 0,
        forall|d: int| 0 <= d < 16 ==> #[trigger] font()[5 * d] != 0,
        forall|d: int, e: int| 0 <= d < e < 16 ==> #[trigger] glyph(d) != #[trigger] glyph(e),
{
    assert forall|d: int, e: int| 0 <= d < e < 16 implies #[trigger] glyph(d) != #[trigger] glyph(e) by {
        assert(glyph(d)[0] == font()[5 * d]);
        assert(glyph(e)[0] == font()[5 * e]);
        assert(glyph(d)[1] == font()[5 * d + 1]);
        assert(glyph(e)[1] == font()[5 * e + 1]);
        assert(glyph(d)[2] == font()[5 * d + 2]);
        assert(glyph(e)[2] == font()[5 * e + 2]);
        assert(glyph(d)[3] == font()[5 * d + 3]);
        assert(glyph(e)[3] == font()[5 * e + 3]);
        assert(glyph(d)[4] == font()[5 * d + 4]);
        assert(glyph(e)[4] == font()[5 * e + 4]);
    }
}

} // verus!
