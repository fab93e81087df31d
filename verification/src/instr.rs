use vstd::prelude::*;

verus! {

/// A decoded instruction. `x` and `y` name byte registers (`V0` to `VF`),
/// `nn` is an immediate byte, `addr` a 12-bit address and `n` a 4-bit count.
#[derive(Clone, Copy, Debug, PartialEq, Eq, Structural)]
pub enum Instr {
    /// `00E0`: clear the screen.
    ClearScreen,
    /// `00EE`: return from a subroutine.
    Return,
    /// `0NNN`: machine-code routine; treated as a jump.
    Sys { addr: u16 },
    /// `1NNN`: jump.
    Jump { addr: u16 },
    /// `2NNN`: call a subroutine.
    Call { addr: u16 },
    /// `3XNN`: skip the next instruction if `VX == NN`.
    SkipEqImm { x: u16, nn: u8 },
    /// `4XNN`: skip the next instruction if `VX != NN`.
    SkipNeImm { x: u16, nn: u8 },
    /// `5XY0`: skip the next instruction if `VX == VY`.
    SkipEqReg { x: u16, y: u16 },
    /// `6XNN`: `VX = NN`.
    LoadImm { x: u16, nn: u8 },
    /// `7XNN`: `VX += NN`, without carry.
    AddImm { x: u16, nn: u8 },
    /// `8XY0`: `VX = VY`.
    Move { x: u16, y: u16 },
    /// `8XY1`: `VX |= VY`.
    Or { x: u16, y: u16 },
    /// `8XY2`: `VX &= VY`.
    And { x: u16, y: u16 },
    /// `8XY3`: `VX ^= VY`.
    Xor { x: u16, y: u16 },
    /// `8XY4`: `VX += VY`, carry into `VF`.
    AddReg { x: u16, y: u16 },
    /// `8XY5`: `VX -= VY`, `VF` = no borrow.
    SubReg { x: u16, y: u16 },
    /// `8XY6`: `VX >>= 1`, the bit shifted out into `VF`.
    ShiftRight { x: u16 },
    /// `8XY7`: `VX = VY - VX`, `VF` = no borrow.
    SubNeg { x: u16, y: u16 },
    /// `8XYE`: `VX <<= 1`, the bit shifted out into `VF`.
    ShiftLeft { x: u16 },
    /// `9XY0`: skip the next instruction if `VX != VY`.
    SkipNeReg { x: u16, y: u16 },
    /// `ANNN`: `I = NNN`.
    LoadIndex { addr: u16 },
    /// `BNNN`: jump to `NNN + V0`.
    JumpV0 { addr: u16 },
    /// `CXNN`: `VX` = a random byte `& NN`.
    Random { x: u16, nn: u8 },
    /// `DXYN`: draw the `N`-row sprite at `I` at (`VX`, `VY`), `VF` = collision.
    Draw { x: u16, y: u16, n: u16 },
    /// `EX9E`: skip the next instruction if key `VX` is down.
    SkipKey { x: u16 },
    /// `EXA1`: skip the next instruction if key `VX` is up.
    SkipNoKey { x: u16 },
    /// `FX07`: `VX` = delay timer.
    LoadDelay { x: u16 },
    /// `FX0A`: wait for a key; `VX` = 0.
    WaitKey { x: u16 },
    /// `FX15`: delay timer = `VX`.
    SetDelay { x: u16 },
    /// `FX18`: sound timer = `VX`.
    SetSound { x: u16 },
    /// `FX1E`: `I += VX`.
    AddIndex { x: u16 },
    /// `FX29`: `I` = address of the font glyph for digit `VX`.
    LoadFont { x: u16 },
    /// `FX33`: store the three decimal digits of `VX` at `I`, `I+1`, `I+2`.
    StoreBcd { x: u16 },
    /// `FX55`: store `V0` to `VX` at `I` onwards.
    StoreRegs { x: u16 },
    /// `FX65`: load `V0` to `VX` from `I` onwards.
    LoadRegs { x: u16 },
    /// No instruction of the machine.
    Unknown,
}

/// The top nibble of an opcode: its instruction group.
pub open spec fn op_group(o: u16) -> int {
    o as int / 4096
}

/// The second nibble of an opcode: register `X`.
pub open spec fn op_x(o: u16) -> u16 {
    ((o as int / 256) % 16) as u16
}

/// The third nibble of an opcode: register `Y`.
pub open spec fn op_y(o: u16) -> u16 {
    ((o as int / 16) % 16) as u16
}

/// The low nibble of an opcode.
pub open spec fn op_n(o: u16) -> u16 {
    (o as int % 16) as u16
}

/// The low byte of an opcode.
pub open spec fn op_nn(o: u16) -> u8 {
    (o as int % 256) as u8
}

/// The low twelve bits of an opcode: an address.
pub open spec fn op_nnn(o: u16) -> u16 {
    (o as int % 4096) as u16
}

/// The instruction that opcode `o` encodes.
pub open spec fn spec_decode(o: u16) -> Instr {
    let g = op_group(o);
    let x = op_x(o);
    let y = op_y(o);
    let n = op_n(o);
    let nn = op_nn(o);
    let addr = op_nnn(o);
    if o == 0x00E0 {
        Instr::ClearScreen
    } else if o == 0x00EE {
        Instr::Return
    } else if g == 0x0 {
        Instr::Sys { addr }
    } else if g == 0x1 {
        Instr::Jump { addr }
    } else if g == 0x2 {
        Instr::Call { addr }
    } else if g == 0x3 {
        Instr::SkipEqImm { x, nn }
    } else if g == 0x4 {
        Instr::SkipNeImm { x, nn }
    } else if g == 0x5 && n == 0x0 {
        Instr::SkipEqReg { x, y }
    } else if g == 0x6 {
        Instr::LoadImm { x, nn }
    } else if g == 0x7 {
        Instr::AddImm { x, nn }
    } else if g == 0x8 && n == 0x0 {
        Instr::Move { x, y }
    } else if g == 0x8 && n == 0x1 {
        Instr::Or { x, y }
    } else if g == 0x8 && n == 0x2 {
        Instr::And { x, y }
    } else if g == 0x8 && n == 0x3 {
        Instr::Xor { x, y }
    } else if g == 0x8 && n == 0x4 {
        Instr::AddReg { x, y }
    } else if g == 0x8 && n == 0x5 {
        Instr::SubReg { x, y }
    } else if g == 0x8 && n == 0x6 {
        Instr::ShiftRight { x }
    } else if g == 0x8 && n == 0x7 {
        Instr::SubNeg { x, y }
    } else if g == 0x8 && n == 0xE {
        Instr::ShiftLeft { x }
    } else if g == 0x9 && n == 0x0 {
        Instr::SkipNeReg { x, y }
    } else if g == 0xA {
        Instr::LoadIndex { addr }
    } else if g == 0xB {
        Instr::JumpV0 { addr }
    } else if g == 0xC {
        Instr::Random { x, nn }
    } else if g == 0xD {
        Instr::Draw { x, y, n }
    } else if g == 0xE && nn == 0x9E {
        Instr::SkipKey { x }
    } else if g == 0xE && nn == 0xA1 {
        Instr::SkipNoKey { x }
    } else if g == 0xF && nn == 0x07 {
        Instr::LoadDelay { x }
    } else if g == 0xF && nn == 0x0A {
        Instr::WaitKey { x }
    } else if g == 0xF && nn == 0x15 {
        Instr::SetDelay { x }
    } else if g == 0xF && nn == 0x18 {
        Instr::SetSound { x }
    } else if g == 0xF && nn == 0x1E {
        Instr::AddIndex { x }
    } else if g == 0xF && nn == 0x29 {
        Instr::LoadFont { x }
    } else if g == 0xF && nn == 0x33 {
        Instr::StoreBcd { x }
    } else if g == 0xF && nn == 0x55 {
        Instr::StoreRegs { x }
    } else if g == 0xF && nn == 0x65 {
        Instr::LoadRegs { x }
    } else {
        Instr::Unknown
    }
}

/// The register numbers that a decoded instruction names are below 16, its
/// addresses below 4096 and its counts below 16.
pub open spec fn fields_in_range(ins: Instr) -> bool {
    match ins {
        Instr::Sys { addr } | Instr::Jump { addr } | Instr::Call { addr }
        | Instr::LoadIndex { addr } | Instr::JumpV0 { addr } => addr < 4096,
        Instr::SkipEqImm { x, .. } | Instr::SkipNeImm { x, .. } | Instr::LoadImm { x, .. }
        | Instr::AddImm { x, .. } | Instr::Random { x, .. } => x < 16,
        Instr::SkipEqReg { x, y } | Instr::Move { x, y } | Instr::Or { x, y }
        | Instr::And { x, y } | Instr::Xor { x, y } | Instr::AddReg { x, y }
        | Instr::SubReg { x, y } | Instr::SubNeg { x, y } | Instr::SkipNeReg { x, y } => x < 16 && y < 16,
        Instr::Draw { x, y, n } => x < 16 && y < 16 && n < 16,
        Instr::ShiftRight { x } | Instr::ShiftLeft { x } | Instr::SkipKey { x }
        | Instr::SkipNoKey { x } | Instr::LoadDelay { x } | Instr::WaitKey { x }
        | Instr::SetDelay { x } | Instr::SetSound { x } | Instr::AddIndex { x }
        | Instr::LoadFont { x } | Instr::StoreBcd { x } | Instr::StoreRegs { x }
        | Instr::LoadRegs { x } => x < 16,
        _ => true,
    }
}

proof fn lemma_nibbles(o: u16)
    by (bit_vector)
    ensures
        o >> 12u16 == o / 4096,
        (o >> 8u16) & 0x0fu16 == (o / 256) % 16,
        (o >> 4u16) & 0x00fu16 == (o / 16) % 16,
        o & 0x000fu16 == o % 16,
        o & 0x00ffu16 == o % 256,
        o & 0x0fffu16 == o % 4096,
{
}

/// Decodes an opcode.
pub fn decode(opcode: u16) -> (ins: Instr)
    ensures
        ins == spec_decode(opcode),
        fields_in_range(ins),
{
    proof {
        lemma_nibbles(opcode);
    }
    let g = opcode >> 12;
    let x = (opcode >> 8) & 0x0f;
    let y = (opcode >> 4) & 0x00f;
    let n = opcode & 0x000f;
    let nn = (opcode & 0x00ff) as u8;
    let addr = opcode & 0x0fff;
    if opcode == 0x00E0 {
        Instr::ClearScreen
    } else if opcode == 0x00EE {
        Instr::Return
    } else if g == 0x0 {
        Instr::Sys { addr }
    } else if g == 0x1 {
        Instr::Jump { addr }
    } else if g == 0x2 {
        Instr::Call { addr }
    } else if g == 0x3 {
        Instr::SkipEqImm { x, nn }
    } else if g == 0x4 {
        Instr::SkipNeImm { x, nn }
    } else if g == 0x5 && n == 0x0 {
        Instr::SkipEqReg { x, y }
    } else if g == 0x6 {
        Instr::LoadImm { x, nn }
    } else if g == 0x7 {
        Instr::AddImm { x, nn }
    } else if g == 0x8 && n == 0x0 {
        Instr::Move { x, y }
    } else if g == 0x8 && n == 0x1 {
        Instr::Or { x, y }
    } else if g == 0x8 && n == 0x2 {
        Instr::And { x, y }
    } else if g == 0x8 && n == 0x3 {
        Instr::Xor { x, y }
    } else if g == 0x8 && n == 0x4 {
        Instr::AddReg { x, y }
    } else if g == 0x8 && n == 0x5 {
        Instr::SubReg { x, y }
    } else if g == 0x8 && n == 0x6 {
        Instr::ShiftRight { x }
    } else if g == 0x8 && n == 0x7 {
        Instr::SubNeg { x, y }
    } else if g == 0x8 && n == 0xE {
        Instr::ShiftLeft { x }
    } else if g == 0x9 && n == 0x0 {
        Instr::SkipNeReg { x, y }
    } else if g == 0xA {
        Instr::LoadIndex { addr }
    } else if g == 0xB {
        Instr::JumpV0 { addr }
    } else if g == 0xC {
        Instr::Random { x, nn }
    } else if g == 0xD {
        Instr::Draw { x, y, n }
    } else if g == 0xE && nn == 0x9E {
        Instr::SkipKey { x }
    } else if g == 0xE && nn == 0xA1 {
        Instr::SkipNoKey { x }
    } else if g == 0xF && nn == 0x07 {
        Instr::LoadDelay { x }
    } else if g == 0xF && nn == 0x0A {
        Instr::WaitKey { x }
    } else if g == 0xF && nn == 0x15 {
        Instr::SetDelay { x }
    } else if g == 0xF && nn == 0x18 {
        Instr::SetSound { x }
    } else if g == 0xF && nn == 0x1E {
        Instr::AddIndex { x }
    } else if g == 0xF && nn == 0x29 {
        Instr::LoadFont { x }
    } else if g == 0xF && nn == 0x33 {
        Instr::StoreBcd { x }
    } else if g == 0xF && nn == 0x55 {
        Instr::StoreRegs { x }
    } else if g == 0xF && nn == 0x65 {
        Instr::LoadRegs { x }
    } else {
        Instr::Unknown
    }
}

} // verus!
