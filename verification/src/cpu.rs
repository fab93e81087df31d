use vstd::prelude::*;

verus! {

/// The registers of the machine: the sixteen byte registers `V0` to `VF`
/// (`VF` also holds the flag that some instructions set) and the address
/// register `I`.
#[derive(Clone, Copy)]
pub struct Cpu {
    pub v: [u8; 16],
    pub i: u16,
}

/// What `get_reg` reads for a register number: that register, and for a
/// number past `VF` the register `V0`.
pub open spec fn spec_get_reg(v: Seq<u8>, reg: u16) -> u8 {
    if reg < 16 { v[reg as int] } else { v[0] }
}

/// The byte registers after `set_reg`: register `reg` holds `value`; a number
/// past `VF` changes nothing.
pub open spec fn spec_set_reg(v: Seq<u8>, reg: u16, value: u8) -> Seq<u8> {
    if reg < 16 { v.update(reg as int, value) } else { v }
}

impl Cpu {
    /// The byte registers, `V0` first.
    pub open spec fn regs(&self) -> Seq<u8> {
        self.v@
    }

    /// All registers zero.
    pub fn new() -> (cpu: Cpu)
        ensures
            cpu.regs() == Seq::new(16, |k: int| 0u8),
            cpu.i == 0,
    {
        let cpu = Cpu { v: [0u8; 16], i: 0 };
        assert(cpu.regs() =~= Seq::new(16, |k: int| 0u8));
        cpu
    }

    /// Sets the address register `I`.
    pub fn set_add_reg(&mut self, value: u16)
        ensures
            final(self).i == value,
            final(self).regs() == old(self).regs(),
    {
        self.i = value;
    }

    /// Sets byte register `reg` to `value`; a number past `VF` changes
    /// nothing.
    pub fn set_reg(&mut self, reg: u16, value: u8)
        ensures
            final(self).regs() == spec_set_reg(old(self).regs(), reg, value),
            final(self).i == old(self).i,
    {
        if reg < 16 {
            self.v[reg as usize] = value;
        }
    }

    /// The address register `I`.
    pub fn get_add_reg(&self) -> (value: u16)
        ensures
            value == self.i,
    {
        self.i
    }

    /// Byte register `reg`; a number past `VF` reads `V0`.
    pub fn get_reg(&self, reg: u16) -> (value: u8)
        ensures
            value == spec_get_reg(self.regs(), reg),
    {
        if reg < 16 {
            self.v[reg as usize]
        } else {
            self.v[0]
        }
    }
}

/// A register written by `set_reg` reads back, through `get_reg`, the value
/// written, and every other register reads what it read before.
pub proof fn law_register_read_after_write(v: Seq<u8>, reg: u16, value: u8, other: u16)
    requires
        v.len() == 16,
        reg < 16,
        other != reg,
        other < 16,
    ensures
        spec_get_reg(spec_set_reg(v, reg, value), reg) == value,
        spec_get_reg(spec_set_reg(v, reg, value), other) == spec_get_reg(v, other),
{
}

/// A register number past `VF` reads `V0`, and writing to one changes no
/// register.
pub proof fn law_register_numbers_past_vf(v: Seq<u8>, reg: u16, value: u8)
    requires
        v.len() == 16,
        reg >= 16,
    ensures
        spec_get_reg(v, reg) == v[0],
        spec_set_reg(v, reg, value) == v,
{
}

} // verus!
