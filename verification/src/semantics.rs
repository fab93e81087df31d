use vstd::prelude::*;
use crate::instr::{Instr, op_group, op_n, op_nn, op_nnn, op_x, op_y, spec_decode};
use crate::machine::{MachineView, ScreenUpdate, spec_execute, spec_screen_update, view_wf};
use crate::gfx::{draw_row, draw_sprite, draw_sprite_upto, law_sprite_collision_is_any_row, spec_wrap};

verus! {

/// The opcode whose four nibbles are, from the top, `g`, `x`, `y` and `n`.
pub open spec fn opcode(g: int, x: int, y: int, n: int) -> u16 {
    (g * 4096 + x * 256 + y * 16 + n) as u16
}

/// The nibbles of `opcode(g, x, y, n)` read back as `g`, `x`, `y`, `n`.
pub proof fn lemma_opcode_fields(g: int, x: int, y: int, n: int)
    requires
        0 <= g < 16,
        0 <= x < 16,
        0 <= y < 16,
        0 <= n < 16,
    ensures
        opcode(g, x, y, n) as int == g * 4096 + x * 256 + y * 16 + n,
        op_group(opcode(g, x, y, n)) == g,
        op_x(opcode(g, x, y, n)) == x,
        op_y(opcode(g, x, y, n)) == y,
        op_n(opcode(g, x, y, n)) == n,
        op_nn(opcode(g, x, y, n)) == y * 16 + n,
        op_nnn(opcode(g, x, y, n)) == x * 256 + y * 16 + n,
{
    let o = g * 4096 + x * 256 + y * 16 + n;
    assert(0 <= o < 65536);
    assert(o / 4096 == g) by (nonlinear_arith)
        requires o == g * 4096 + x * 256 + y * 16 + n, 0 <= x < 16, 0 <= y < 16, 0 <= n < 16;
    assert(o / 256 == g * 16 + x) by (nonlinear_arith)
        requires o == g * 4096 + x * 256 + y * 16 + n, 0 <= y < 16, 0 <= n < 16;
    assert((g * 16 + x) % 16 == x) by (nonlinear_arith)
        requires 0 <= x < 16, 0 <= g;
    assert(o / 16 == g * 256 + x * 16 + y) by (nonlinear_arith)
        requires o == g * 4096 + x * 256 + y * 16 + n, 0 <= n < 16;
    assert((g * 256 + x * 16 + y) % 16 == y) by (nonlinear_arith)
        requires 0 <= y < 16, 0 <= g, 0 <= x;
    assert(o % 16 == n) by (nonlinear_arith)
        requires o == g * 4096 + x * 256 + y * 16 + n, 0 <= n < 16;
    assert(o % 256 == y * 16 + n) by (nonlinear_arith)
        requires o == g * 4096 + x * 256 + y * 16 + n, 0 <= y < 16, 0 <= n < 16;
    assert(o % 4096 == x * 256 + y * 16 + n) by (nonlinear_arith)
        requires o == g * 4096 + x * 256 + y * 16 + n, 0 <= x < 16, 0 <= y < 16, 0 <= n < 16;
}

/// The opcode table for the register instructions: `8XY0` to `8XY7` and
/// `8XYE` decode to move, or, and, xor, add, subtract, shift right,
/// reverse subtract and shift left, of registers `X` and `Y`.
pub proof fn law_decode_8xyn(x: u16, y: u16)
    requires
        x < 16,
        y < 16,
    ensures
        spec_decode(opcode(8, x as int, y as int, 0)) == (Instr::Move { x, y }),
        spec_decode(opcode(8, x as int, y as int, 1)) == (Instr::Or { x, y }),
        spec_decode(opcode(8, x as int, y as int, 2)) == (Instr::And { x, y }),
        spec_decode(opcode(8, x as int, y as int, 3)) == (Instr::Xor { x, y }),
        spec_decode(opcode(8, x as int, y as int, 4)) == (Instr::AddReg { x, y }),
        spec_decode(opcode(8, x as int, y as int, 5)) == (Instr::SubReg { x, y }),
        spec_decode(opcode(8, x as int, y as int, 6)) == (Instr::ShiftRight { x }),
        spec_decode(opcode(8, x as int, y as int, 7)) == (Instr::SubNeg { x, y }),
        spec_decode(opcode(8, x as int, y as int, 14)) == (Instr::ShiftLeft { x }),
{
    lemma_opcode_fields(8, x as int, y as int, 0);
    lemma_opcode_fields(8, x as int, y as int, 1);
    lemma_opcode_fields(8, x as int, y as int, 2);
    lemma_opcode_fields(8, x as int, y as int, 3);
    lemma_opcode_fields(8, x as int, y as int, 4);
    lemma_opcode_fields(8, x as int, y as int, 5);
    lemma_opcode_fields(8, x as int, y as int, 6);
    lemma_opcode_fields(8, x as int, y as int, 7);
    lemma_opcode_fields(8, x as int, y as int, 14);
}

/// The opcode table for flow control: `00E0` clears the screen, `00EE`
/// returns, and `0NNN` (any other), `1NNN`, `2NNN`, `ANNN`, `BNNN` name the
/// address `NNN`.
pub proof fn law_decode_addresses(x: u16, y: u16, n: u16)
    requires
        x < 16,
        y < 16,
        n < 16,
    ensures
        spec_decode(0x00E0u16) == Instr::ClearScreen,
        spec_decode(0x00EEu16) == Instr::Return,
        x * 256 + y * 16 + n != 0xE0 && x * 256 + y * 16 + n != 0xEE
            ==> spec_decode(opcode(0, x as int, y as int, n as int)) == (Instr::Sys { addr: (x * 256 + y * 16 + n) as u16 }),
        spec_decode(opcode(1, x as int, y as int, n as int)) == (Instr::Jump { addr: (x * 256 + y * 16 + n) as u16 }),
        spec_decode(opcode(2, x as int, y as int, n as int)) == (Instr::Call { addr: (x * 256 + y * 16 + n) as u16 }),
        spec_decode(opcode(0xA, x as int, y as int, n as int)) == (Instr::LoadIndex { addr: (x * 256 + y * 16 + n) as u16 }),
        spec_decode(opcode(0xB, x as int, y as int, n as int)) == (Instr::JumpV0 { addr: (x * 256 + y * 16 + n) as u16 }),
{
    lemma_opcode_fields(0, x as int, y as int, n as int);
    lemma_opcode_fields(1, x as int, y as int, n as int);
    lemma_opcode_fields(2, x as int, y as int, n as int);
    lemma_opcode_fields(0xA, x as int, y as int, n as int);
    lemma_opcode_fields(0xB, x as int, y as int, n as int);
}

/// The opcode table for the forms with a register and a byte `NN`: `3XNN`,
/// `4XNN`, `6XNN`, `7XNN`, `CXNN`; and the forms with two registers `5XY0`,
/// `9XY0` and the sprite form `DXYN`.
pub proof fn law_decode_registers(x: u16, y: u16, n: u16)
    requires
        x < 16,
        y < 16,
        n < 16,
    ensures
        spec_decode(opcode(3, x as int, y as int, n as int)) == (Instr::SkipEqImm { x, nn: (y * 16 + n) as u8 }),
        spec_decode(opcode(4, x as int, y as int, n as int)) == (Instr::SkipNeImm { x, nn: (y * 16 + n) as u8 }),
        spec_decode(opcode(5, x as int, y as int, 0)) == (Instr::SkipEqReg { x, y }),
        spec_decode(opcode(6, x as int, y as int, n as int)) == (Instr::LoadImm { x, nn: (y * 16 + n) as u8 }),
        spec_decode(opcode(7, x as int, y as int, n as int)) == (Instr::AddImm { x, nn: (y * 16 + n) as u8 }),
        spec_decode(opcode(9, x as int, y as int, 0)) == (Instr::SkipNeReg { x, y }),
        spec_decode(opcode(0xC, x as int, y as int, n as int)) == (Instr::Random { x, nn: (y * 16 + n) as u8 }),
        spec_decode(opcode(0xD, x as int, y as int, n as int)) == (Instr::Draw { x, y, n }),
{
    lemma_opcode_fields(3, x as int, y as int, n as int);
    lemma_opcode_fields(4, x as int, y as int, n as int);
    lemma_opcode_fields(5, x as int, y as int, 0);
    lemma_opcode_fields(6, x as int, y as int, n as int);
    lemma_opcode_fields(7, x as int, y as int, n as int);
    lemma_opcode_fields(9, x as int, y as int, 0);
    lemma_opcode_fields(0xC, x as int, y as int, n as int);
    lemma_opcode_fields(0xD, x as int, y as int, n as int);
}

/// The opcode table for the `EX..` and `FX..` forms.
pub proof fn law_decode_keys_timers_memory(x: u16)
    requires
        x < 16,
    ensures
        spec_decode(opcode(0xE, x as int, 9, 0xE)) == (Instr::SkipKey { x }),
        spec_decode(opcode(0xE, x as int, 0xA, 1)) == (Instr::SkipNoKey { x }),
        spec_decode(opcode(0xF, x as int, 0, 7)) == (Instr::LoadDelay { x }),
        spec_decode(opcode(0xF, x as int, 0, 0xA)) == (Instr::WaitKey { x }),
        spec_decode(opcode(0xF, x as int, 1, 5)) == (Instr::SetDelay { x }),
        spec_decode(opcode(0xF, x as int, 1, 8)) == (Instr::SetSound { x }),
        spec_decode(opcode(0xF, x as int, 1, 0xE)) == (Instr::AddIndex { x }),
        spec_decode(opcode(0xF, x as int, 2, 9)) == (Instr::LoadFont { x }),
        spec_decode(opcode(0xF, x as int, 3, 3)) == (Instr::StoreBcd { x }),
        spec_decode(opcode(0xF, x as int, 5, 5)) == (Instr::StoreRegs { x }),
        spec_decode(opcode(0xF, x as int, 6, 5)) == (Instr::LoadRegs { x }),
{
    lemma_opcode_fields(0xE, x as int, 9, 0xE);
    lemma_opcode_fields(0xE, x as int, 0xA, 1);
    lemma_opcode_fields(0xF, x as int, 0, 7);
    lemma_opcode_fields(0xF, x as int, 0, 0xA);
    lemma_opcode_fields(0xF, x as int, 1, 5);
    lemma_opcode_fields(0xF, x as int, 1, 8);
    lemma_opcode_fields(0xF, x as int, 1, 0xE);
    lemma_opcode_fields(0xF, x as int, 2, 9);
    lemma_opcode_fields(0xF, x as int, 3, 3);
    lemma_opcode_fields(0xF, x as int, 5, 5);
    lemma_opcode_fields(0xF, x as int, 6, 5);
}

/// The state after opcode `o` ran in state `s`, `r` being the random byte.
pub open spec fn run_op(s: MachineView, o: u16, r: u8) -> MachineView {
    spec_execute(s, spec_decode(o), r)
}

/// Bit `i` of byte `a` (bit 0 the least significant) is set.
pub open spec fn bit(a: u8, i: int) -> bool {
    (a >> (i as u8)) & 1u8 == 1u8
}

/// Every byte register but `x` and `z` reads as it did.
pub open spec fn regs_kept(t: MachineView, s: MachineView, x: int, z: int) -> bool {
    forall|j: int| 0 <= j < 16 && j != x && j != z ==> #[trigger] t.v[j] == s.v[j]
}

proof fn lemma_bits(a: u8, b: u8, i: u8)
    by (bit_vector)
    requires
        i < 8,
    ensures
        ((a & b) >> i) & 1u8 == 1u8 <==> ((a >> i) & 1u8 == 1u8 && (b >> i) & 1u8 == 1u8),
        ((a | b) >> i) & 1u8 == 1u8 <==> ((a >> i) & 1u8 == 1u8 || (b >> i) & 1u8 == 1u8),
        ((a ^ b) >> i) & 1u8 == 1u8 <==> ((a >> i) & 1u8 == 1u8) != ((b >> i) & 1u8 == 1u8),
        a & b <= a,
        a & b <= b,
        a | b >= a,
        a | b >= b,
{
}

/// `8XY1`, `8XY2`, `8XY3` set `VX` to the bitwise or, and, exclusive or of
/// `VX` and `VY`: each bit of the result is set where that bit is set in
/// either, in both, in exactly one of them. They touch no other register.
pub proof fn law_exec_logic(s: MachineView, x: u16, y: u16, r: u8)
    requires
        view_wf(s),
        x < 16,
        y < 16,
        s.pc + 4 <= usize::MAX,
    ensures
        forall|i: int| 0 <= i < 8 ==> (#[trigger] bit(run_op(s, opcode(8, x as int, y as int, 1), r).v[x as int], i)
            <==> (bit(s.v[x as int], i) || bit(s.v[y as int], i))),
        forall|i: int| 0 <= i < 8 ==> (#[trigger] bit(run_op(s, opcode(8, x as int, y as int, 2), r).v[x as int], i)
            <==> (bit(s.v[x as int], i) && bit(s.v[y as int], i))),
        forall|i: int| 0 <= i < 8 ==> (#[trigger] bit(run_op(s, opcode(8, x as int, y as int, 3), r).v[x as int], i)
            <==> (bit(s.v[x as int], i) != bit(s.v[y as int], i))),
        run_op(s, opcode(8, x as int, y as int, 1), r).v[x as int] >= s.v[x as int],
        run_op(s, opcode(8, x as int, y as int, 1), r).v[x as int] >= s.v[y as int],
        run_op(s, opcode(8, x as int, y as int, 2), r).v[x as int] <= s.v[x as int],
        run_op(s, opcode(8, x as int, y as int, 2), r).v[x as int] <= s.v[y as int],
        regs_kept(run_op(s, opcode(8, x as int, y as int, 1), r), s, x as int, x as int),
        regs_kept(run_op(s, opcode(8, x as int, y as int, 2), r), s, x as int, x as int),
        regs_kept(run_op(s, opcode(8, x as int, y as int, 3), r), s, x as int, x as int),
        run_op(s, opcode(8, x as int, y as int, 2), r).pc == s.pc + 2,
{
    law_decode_8xyn(x, y);
    let a = s.v[x as int];
    let b = s.v[y as int];
    assert forall|i: int| 0 <= i < 8 implies
        (#[trigger] bit(run_op(s, opcode(8, x as int, y as int, 1), r).v[x as int], i)
            <==> (bit(a, i) || bit(b, i))) by {
        lemma_bits(a, b, i as u8);
    }
    assert forall|i: int| 0 <= i < 8 implies
        (#[trigger] bit(run_op(s, opcode(8, x as int, y as int, 2), r).v[x as int], i)
            <==> (bit(a, i) && bit(b, i))) by {
        lemma_bits(a, b, i as u8);
    }
    assert forall|i: int| 0 <= i < 8 implies
        (#[trigger] bit(run_op(s, opcode(8, x as int, y as int, 3), r).v[x as int], i)
            <==> (bit(a, i) != bit(b, i))) by {
        lemma_bits(a, b, i as u8);
    }
    lemma_bits(a, b, 0);
}

/// `6XNN` puts `NN` in `VX` and `8XY0` copies `VY` into `VX`; neither
/// touches another register.
pub proof fn law_exec_load_move(s: MachineView, x: u16, y: u16, n: u16, r: u8)
    requires
        view_wf(s),
        x < 16,
        y < 16,
        n < 16,
        s.pc + 4 <= usize::MAX,
    ensures
        run_op(s, opcode(6, x as int, y as int, n as int), r).v[x as int] == y * 16 + n,
        regs_kept(run_op(s, opcode(6, x as int, y as int, n as int), r), s, x as int, x as int),
        run_op(s, opcode(6, x as int, y as int, n as int), r).pc == s.pc + 2,
        run_op(s, opcode(8, x as int, y as int, 0), r).v[x as int] == s.v[y as int],
        regs_kept(run_op(s, opcode(8, x as int, y as int, 0), r), s, x as int, x as int),
{
    law_decode_8xyn(x, y);
    law_decode_registers(x, y, n);
    let nn = (y * 16 + n) as u8;
    assert(nn == y * 16 + n);
    let t = spec_execute(s, Instr::LoadImm { x, nn }, r);
    assert(t.v == s.v.update(x as int, nn));
    let u = spec_execute(s, Instr::Move { x, y }, r);
    assert(u.v == s.v.update(x as int, s.v[y as int]));
}

/// `7XNN` adds `NN` to `VX` modulo 256, without touching `VF` or another
/// register.
pub proof fn law_exec_add_immediate(s: MachineView, x: u16, y: u16, n: u16, r: u8)
    requires
        view_wf(s),
        x < 16,
        y < 16,
        n < 16,
        s.pc + 4 <= usize::MAX,
    ensures
        (run_op(s, opcode(7, x as int, y as int, n as int), r).v[x as int] - s.v[x as int] - (y * 16 + n)) % 256 == 0,
        regs_kept(run_op(s, opcode(7, x as int, y as int, n as int), r), s, x as int, x as int),
        run_op(s, opcode(7, x as int, y as int, n as int), r).pc == s.pc + 2,
{
    law_decode_registers(x, y, n);
    let nn = (y * 16 + n) as u8;
    assert(nn == y * 16 + n);
    let a = s.v[x as int];
    let sum = a + nn;
    let t = spec_execute(s, Instr::AddImm { x, nn }, r);
    assert(t.v == s.v.update(x as int, (sum % 256) as u8));
    assert(sum % 256 == if sum >= 256 { sum - 256 } else { sum });
}

/// `8XY4` adds `VY` to `VX`: the new `VX` and the carry in `VF` (0 or 1)
/// together make the full sum. (Where `X` is `F` the flag overwrites the
/// sum.)
pub proof fn law_exec_add(s: MachineView, x: u16, y: u16, r: u8)
    requires
        view_wf(s),
        x < 15,
        y < 16,
        s.pc + 4 <= usize::MAX,
    ensures
        ({
            let t = run_op(s, opcode(8, x as int, y as int, 4), r);
            &&& t.v[x as int] + 256 * t.v[15] == s.v[x as int] + s.v[y as int]
            &&& t.v[15] <= 1
            &&& regs_kept(t, s, x as int, 15)
        }),
{
    lemma_decode_one(8, x, y, 4);
    lemma_add(s, x, y, r);
}

proof fn lemma_add(s: MachineView, x: u16, y: u16, r: u8)
    requires
        view_wf(s),
        x < 15,
        y < 16,
    ensures
        ({
            let t = spec_execute(s, Instr::AddReg { x, y }, r);
            &&& t.v[x as int] + 256 * t.v[15] == s.v[x as int] + s.v[y as int]
            &&& t.v[15] <= 1
            &&& regs_kept(t, s, x as int, 15)
        }),
{
    let a = s.v[x as int];
    let b = s.v[y as int];
    let sum = a + b;
    assert(sum % 256 == if sum >= 256 { sum - 256 } else { sum });
}

proof fn lemma_decode_one(g: int, x: u16, y: u16, n: int)
    requires
        g == 8,
        x < 16,
        y < 16,
        0 <= n < 16,
    ensures
        spec_decode(opcode(g, x as int, y as int, n)) == (if n == 0 { Instr::Move { x, y } }
            else if n == 1 { Instr::Or { x, y } }
            else if n == 2 { Instr::And { x, y } }
            else if n == 3 { Instr::Xor { x, y } }
            else if n == 4 { Instr::AddReg { x, y } }
            else if n == 5 { Instr::SubReg { x, y } }
            else if n == 6 { Instr::ShiftRight { x } }
            else if n == 7 { Instr::SubNeg { x, y } }
            else if n == 14 { Instr::ShiftLeft { x } }
            else { Instr::Unknown }),
{
    lemma_opcode_fields(g, x as int, y as int, n);
}

/// `8XY5` subtracts `VY` from `VX`: the new `VX` plus `VY` is the old `VX`
/// modulo 256, and `VF` is 1 exactly where no borrow was needed. `8XY7`
/// likewise sets `VX` to `VY - VX`.
pub proof fn law_exec_sub(s: MachineView, x: u16, y: u16, r: u8)
    requires
        view_wf(s),
        x < 15,
        y < 16,
        s.pc + 4 <= usize::MAX,
    ensures
        ({
            let t = run_op(s, opcode(8, x as int, y as int, 5), r);
            &&& (t.v[x as int] + s.v[y as int]) % 256 == s.v[x as int]
            &&& t.v[15] == (if s.v[x as int] >= s.v[y as int] { 1int } else { 0int })
            &&& regs_kept(t, s, x as int, 15)
        }),
        ({
            let t = run_op(s, opcode(8, x as int, y as int, 7), r);
            &&& (t.v[x as int] + s.v[x as int]) % 256 == s.v[y as int]
            &&& t.v[15] == (if s.v[y as int] >= s.v[x as int] { 1int } else { 0int })
            &&& regs_kept(t, s, x as int, 15)
        }),
{
    lemma_decode_one(8, x, y, 5);
    lemma_decode_one(8, x, y, 7);
    lemma_sub(s, x, y, r);
    lemma_sub_neg(s, x, y, r);
}

proof fn lemma_sub(s: MachineView, x: u16, y: u16, r: u8)
    requires
        view_wf(s),
        x < 15,
        y < 16,
    ensures
        ({
            let t = spec_execute(s, Instr::SubReg { x, y }, r);
            &&& (t.v[x as int] + s.v[y as int]) % 256 == s.v[x as int]
            &&& t.v[15] == (if s.v[x as int] >= s.v[y as int] { 1int } else { 0int })
            &&& regs_kept(t, s, x as int, 15)
        }),
{
    let a = s.v[x as int];
    let b = s.v[y as int];
    assert((a - b) % 256 == if a >= b { a - b } else { a - b + 256 });
}

proof fn lemma_sub_neg(s: MachineView, x: u16, y: u16, r: u8)
    requires
        view_wf(s),
        x < 15,
        y < 16,
    ensures
        ({
            let t = spec_execute(s, Instr::SubNeg { x, y }, r);
            &&& (t.v[x as int] + s.v[x as int]) % 256 == s.v[y as int]
            &&& t.v[15] == (if s.v[y as int] >= s.v[x as int] { 1int } else { 0int })
            &&& regs_kept(t, s, x as int, 15)
        }),
{
    let a = s.v[x as int];
    let b = s.v[y as int];
    assert((b - a) % 256 == if b >= a { b - a } else { b - a + 256 });
}

/// `8XY6` halves `VX`: twice the new `VX` plus the bit shifted out, left in
/// `VF`, is the old `VX`. `8XYE` doubles `VX`: the new `VX` plus 256 times
/// the bit shifted out, left in `VF`, is twice the old `VX`.
pub proof fn law_exec_shifts(s: MachineView, x: u16, y: u16, r: u8)
    requires
        view_wf(s),
        x < 15,
        y < 16,
        s.pc + 4 <= usize::MAX,
    ensures
        ({
            let t = run_op(s, opcode(8, x as int, y as int, 6), r);
            &&& 2 * t.v[x as int] + t.v[15] == s.v[x as int]
            &&& t.v[15] <= 1
            &&& regs_kept(t, s, x as int, 15)
        }),
        ({
            let t = run_op(s, opcode(8, x as int, y as int, 14), r);
            &&& t.v[x as int] + 256 * t.v[15] == 2 * s.v[x as int]
            &&& t.v[15] <= 1
            &&& regs_kept(t, s, x as int, 15)
        }),
{
    lemma_decode_one(8, x, y, 6);
    lemma_decode_one(8, x, y, 14);
    lemma_shifts(s, x, r);
}

proof fn lemma_shifts(s: MachineView, x: u16, r: u8)
    requires
        view_wf(s),
        x < 15,
    ensures
        ({
            let t = spec_execute(s, Instr::ShiftRight { x }, r);
            &&& 2 * t.v[x as int] + t.v[15] == s.v[x as int]
            &&& t.v[15] <= 1
            &&& regs_kept(t, s, x as int, 15)
        }),
        ({
            let t = spec_execute(s, Instr::ShiftLeft { x }, r);
            &&& t.v[x as int] + 256 * t.v[15] == 2 * s.v[x as int]
            &&& t.v[15] <= 1
            &&& regs_kept(t, s, x as int, 15)
        }),
{
    let a = s.v[x as int];
    assert((a * 2) % 256 + 256 * (a / 128) == 2 * a);
}

/// The skips: `3XNN` skips the next instruction (moves the program counter
/// by 4, not 2) exactly where `VX == NN`, `4XNN` exactly where not; `5XY0`
/// exactly where `VX == VY`, `9XY0` exactly where not. None changes a
/// register.
pub proof fn law_exec_skips(s: MachineView, x: u16, y: u16, n: u16, r: u8)
    requires
        view_wf(s),
        x < 16,
        y < 16,
        n < 16,
        s.pc + 4 <= usize::MAX,
    ensures
        run_op(s, opcode(3, x as int, y as int, n as int), r).pc
            == s.pc + (if s.v[x as int] == y * 16 + n { 4int } else { 2int }),
        run_op(s, opcode(4, x as int, y as int, n as int), r).pc
            == s.pc + (if s.v[x as int] != y * 16 + n { 4int } else { 2int }),
        run_op(s, opcode(5, x as int, y as int, 0), r).pc
            == s.pc + (if s.v[x as int] == s.v[y as int] { 4int } else { 2int }),
        run_op(s, opcode(9, x as int, y as int, 0), r).pc
            == s.pc + (if s.v[x as int] != s.v[y as int] { 4int } else { 2int }),
        run_op(s, opcode(5, x as int, y as int, 0), r).pc + run_op(s, opcode(9, x as int, y as int, 0), r).pc
            == 2 * s.pc + 6,
        run_op(s, opcode(3, x as int, y as int, n as int), r).pc + run_op(s, opcode(4, x as int, y as int, n as int), r).pc
            == 2 * s.pc + 6,
        run_op(s, opcode(3, x as int, y as int, n as int), r).v == s.v,
        run_op(s, opcode(4, x as int, y as int, n as int), r).v == s.v,
        run_op(s, opcode(5, x as int, y as int, 0), r).v == s.v,
        run_op(s, opcode(9, x as int, y as int, 0), r).v == s.v,
{
    law_decode_registers(x, y, n);
}

/// `EX9E` skips the next instruction exactly where the key numbered `VX` is
/// down, `EXA1` exactly where it is up.
pub proof fn law_exec_key_skips(s: MachineView, x: u16, r: u8)
    requires
        view_wf(s),
        x < 16,
        s.v[x as int] < 16,
        s.pc + 4 <= usize::MAX,
    ensures
        run_op(s, opcode(0xE, x as int, 9, 0xE), r).pc == s.pc + (if s.keys[s.v[x as int] as int] { 4int } else { 2int }),
        run_op(s, opcode(0xE, x as int, 0xA, 1), r).pc == s.pc + (if s.keys[s.v[x as int] as int] { 2int } else { 4int }),
{
    law_decode_keys_timers_memory(x);
}

/// Jumps and calls: `1NNN` and `0NNN` go to `NNN`, `BNNN` to `NNN + V0`;
/// `2NNN` goes to `NNN` and pushes the address of the next instruction;
/// `00EE` goes to the address on top of the stack and pops it.
pub proof fn law_exec_jumps(s: MachineView, x: u16, y: u16, n: u16, r: u8)
    requires
        view_wf(s),
        x < 16,
        y < 16,
        n < 16,
        s.pc + 4 <= usize::MAX,
    ensures
        run_op(s, opcode(1, x as int, y as int, n as int), r).pc == x * 256 + y * 16 + n,
        run_op(s, opcode(1, x as int, y as int, n as int), r).stack == s.stack,
        x * 256 + y * 16 + n != 0xE0 && x * 256 + y * 16 + n != 0xEE
            ==> run_op(s, opcode(0, x as int, y as int, n as int), r).pc == x * 256 + y * 16 + n,
        run_op(s, opcode(0xB, x as int, y as int, n as int), r).pc == x * 256 + y * 16 + n + s.v[0],
        run_op(s, opcode(2, x as int, y as int, n as int), r).pc == x * 256 + y * 16 + n,
        run_op(s, opcode(2, x as int, y as int, n as int), r).stack == s.stack.push((s.pc + 2) as usize),
        s.stack.len() > 0 ==> run_op(s, 0x00EEu16, r).pc == s.stack.last(),
        s.stack.len() > 0 ==> run_op(s, 0x00EEu16, r).stack == s.stack.drop_last(),
        forall|k: int| 0 <= k < 2048 ==> #[trigger] run_op(s, 0x00E0u16, r).screen[k] == 0,
        run_op(s, 0x00E0u16, r).screen.len() == 2048,
{
    law_decode_addresses(x, y, n);
}

/// The address register and the timers: `ANNN` sets `I` to `NNN`, `FX1E`
/// adds `VX` to `I`, `FX29` points `I` at the glyph of digit `VX` (five bytes
/// a glyph; a value past `F` points it at 0); `FX07` reads the delay timer into `VX`, `FX15` and `FX18` set
/// the delay and the sound timer to `VX`.
pub proof fn law_exec_index_timers(s: MachineView, x: u16, y: u16, n: u16, r: u8)
    requires
        view_wf(s),
        x < 16,
        y < 16,
        n < 16,
        s.pc + 4 <= usize::MAX,
    ensures
        run_op(s, opcode(0xA, x as int, y as int, n as int), r).i == x * 256 + y * 16 + n,
        s.i + s.v[x as int] <= u16::MAX ==> run_op(s, opcode(0xF, x as int, 1, 0xE), r).i == s.i + s.v[x as int],
        s.v[x as int] < 16 ==> run_op(s, opcode(0xF, x as int, 2, 9), r).i == 5 * s.v[x as int],
        s.v[x as int] >= 16 ==> run_op(s, opcode(0xF, x as int, 2, 9), r).i == 0,
        run_op(s, opcode(0xF, x as int, 0, 7), r).v[x as int] == s.delay,
        regs_kept(run_op(s, opcode(0xF, x as int, 0, 7), r), s, x as int, x as int),
        run_op(s, opcode(0xF, x as int, 1, 5), r).delay == s.v[x as int],
        run_op(s, opcode(0xF, x as int, 1, 5), r).sound == s.sound,
        run_op(s, opcode(0xF, x as int, 1, 8), r).sound == s.v[x as int],
        run_op(s, opcode(0xF, x as int, 1, 8), r).delay == s.delay,
{
    law_decode_addresses(x, y, n);
    law_decode_keys_timers_memory(x);
}

/// `FX0A` waits for a key: where a key is down it puts a key that is down in
/// `VX` (no lower-numbered key being down) and goes on; where none is down it
/// changes nothing, and runs again.
pub proof fn law_exec_wait_key(s: MachineView, x: u16, r: u8)
    requires
        view_wf(s),
        x < 16,
        s.pc + 4 <= usize::MAX,
    ensures
        ({
            let t = run_op(s, opcode(0xF, x as int, 0, 0xA), r);
            &&& (forall|k: int| 0 <= k < 16 ==> !s.keys[k]) ==> t == s
            &&& (exists|k: int| 0 <= k < 16 && s.keys[k]) ==> {
                &&& t.v[x as int] < 16
                &&& s.keys[t.v[x as int] as int]
                &&& forall|j: int| 0 <= j < t.v[x as int] ==> !s.keys[j]
                &&& t.pc == s.pc + 2
                &&& regs_kept(t, s, x as int, x as int)
            }
        }),
{
    law_decode_keys_timers_memory(x);
    lemma_first_down_from(s.keys, 0);
}

proof fn lemma_first_down_from(keys: Seq<bool>, k: int)
    requires
        keys.len() == 16,
        0 <= k <= 16,
    ensures
        crate::keys::first_down_from(keys, k) matches Some(key) ==> k <= key < 16 && keys[key as int]
            && forall|j: int| k <= j < key ==> !keys[j],
        crate::keys::first_down_from(keys, k) is None ==> forall|j: int| k <= j < 16 ==> !keys[j],
    decreases 16 - k,
{
    if k < 16 {
        lemma_first_down_from(keys, k + 1);
    }
}

/// `CXNN` puts in `VX` the random byte masked by `NN`: each bit of the result
/// is set where it is set both in `NN` and in the random byte.
pub proof fn law_exec_random(s: MachineView, x: u16, y: u16, n: u16, r: u8)
    requires
        view_wf(s),
        x < 16,
        y < 16,
        n < 16,
        s.pc + 4 <= usize::MAX,
    ensures
        forall|i: int| 0 <= i < 8 ==> (#[trigger] bit(run_op(s, opcode(0xC, x as int, y as int, n as int), r).v[x as int], i)
            <==> (bit((y * 16 + n) as u8, i) && bit(r, i))),
        regs_kept(run_op(s, opcode(0xC, x as int, y as int, n as int), r), s, x as int, x as int),
{
    law_decode_registers(x, y, n);
    assert forall|i: int| 0 <= i < 8 implies
        (#[trigger] bit(run_op(s, opcode(0xC, x as int, y as int, n as int), r).v[x as int], i)
            <==> (bit((y * 16 + n) as u8, i) && bit(r, i))) by {
        lemma_bits((y * 16 + n) as u8, r, i as u8);
    }
}

/// Registers and memory: `FX55` writes `V0` to `VX` to memory at `I`
/// onwards and leaves the rest of memory alone; `FX65` reads them back from
/// there and leaves the other registers alone; `FX33` writes the three
/// decimal digits of `VX`, most significant first.
pub proof fn law_exec_memory(s: MachineView, x: u16, r: u8)
    requires
        view_wf(s),
        x < 16,
        s.i + 15 < 4096,
        s.pc + 4 <= usize::MAX,
    ensures
        forall|k: int| 0 <= k <= x ==> #[trigger] run_op(s, opcode(0xF, x as int, 5, 5), r).memory[s.i + k] == s.v[k],
        forall|k: int| 0 <= k < 4096 && !(s.i <= k <= s.i + x)
            ==> #[trigger] run_op(s, opcode(0xF, x as int, 5, 5), r).memory[k] == s.memory[k],
        forall|k: int| 0 <= k <= x ==> #[trigger] run_op(s, opcode(0xF, x as int, 6, 5), r).v[k] == s.memory[s.i + k],
        forall|k: int| x < k < 16 ==> #[trigger] run_op(s, opcode(0xF, x as int, 6, 5), r).v[k] == s.v[k],
        ({
            let m = run_op(s, opcode(0xF, x as int, 3, 3), r).memory;
            &&& m[s.i as int] < 10 && m[s.i + 1] < 10 && m[s.i + 2] < 10
            &&& 100 * m[s.i as int] + 10 * m[s.i + 1] + m[s.i + 2] == s.v[x as int]
        }),
{
    lemma_opcode_fields(0xF, x as int, 5, 5);
    lemma_opcode_fields(0xF, x as int, 6, 5);
    lemma_opcode_fields(0xF, x as int, 3, 3);
    assert(spec_decode(opcode(0xF, x as int, 5, 5)) == (Instr::StoreRegs { x }));
    assert(spec_decode(opcode(0xF, x as int, 6, 5)) == (Instr::LoadRegs { x }));
    assert(spec_decode(opcode(0xF, x as int, 3, 3)) == (Instr::StoreBcd { x }));
    lemma_store_load(s, x, r);
}

proof fn lemma_store_load(s: MachineView, x: u16, r: u8)
    requires
        view_wf(s),
        x < 16,
        s.i + 15 < 4096,
    ensures
        forall|k: int| 0 <= k <= x ==> #[trigger] spec_execute(s, Instr::StoreRegs { x }, r).memory[s.i + k] == s.v[k],
        forall|k: int| 0 <= k < 4096 && !(s.i <= k <= s.i + x)
            ==> #[trigger] spec_execute(s, Instr::StoreRegs { x }, r).memory[k] == s.memory[k],
        forall|k: int| 0 <= k <= x ==> #[trigger] spec_execute(s, Instr::LoadRegs { x }, r).v[k] == s.memory[s.i + k],
        forall|k: int| x < k < 16 ==> #[trigger] spec_execute(s, Instr::LoadRegs { x }, r).v[k] == s.v[k],
        ({
            let m = spec_execute(s, Instr::StoreBcd { x }, r).memory;
            &&& m[s.i as int] < 10 && m[s.i + 1] < 10 && m[s.i + 2] < 10
            &&& 100 * m[s.i as int] + 10 * m[s.i + 1] + m[s.i + 2] == s.v[x as int]
        }),
{
    lemma_store(s, x, r);
    lemma_load(s, x, r);
    lemma_bcd(s, x, r);
}

proof fn lemma_store(s: MachineView, x: u16, r: u8)
    requires
        view_wf(s),
        x < 16,
        s.i + 15 < 4096,
    ensures
        forall|k: int| 0 <= k <= x ==> #[trigger] spec_execute(s, Instr::StoreRegs { x }, r).memory[s.i + k] == s.v[k],
        forall|k: int| 0 <= k < 4096 && !(s.i <= k <= s.i + x)
            ==> #[trigger] spec_execute(s, Instr::StoreRegs { x }, r).memory[k] == s.memory[k],
{
    let i = s.i as int;
    let st = spec_execute(s, Instr::StoreRegs { x }, r).memory;
    assert(st == Seq::new(s.memory.len(), |k: int| if i <= k <= i + x { s.v[k - i] } else { s.memory[k] }));
    assert forall|k: int| 0 <= k <= x implies #[trigger] st[i + k] == s.v[k] by {
        assert(st[i + k] == s.v[(i + k) - i]);
    }
}

proof fn lemma_load(s: MachineView, x: u16, r: u8)
    requires
        view_wf(s),
        x < 16,
        s.i + 15 < 4096,
    ensures
        forall|k: int| 0 <= k <= x ==> #[trigger] spec_execute(s, Instr::LoadRegs { x }, r).v[k] == s.memory[s.i + k],
        forall|k: int| x < k < 16 ==> #[trigger] spec_execute(s, Instr::LoadRegs { x }, r).v[k] == s.v[k],
{
    let i = s.i as int;
    let ld = spec_execute(s, Instr::LoadRegs { x }, r).v;
    assert(ld == Seq::new(s.v.len(), |k: int| if k <= x { s.memory[i + k] } else { s.v[k] }));
}

proof fn lemma_bcd(s: MachineView, x: u16, r: u8)
    requires
        view_wf(s),
        x < 16,
        s.i + 15 < 4096,
    ensures
        ({
            let m = spec_execute(s, Instr::StoreBcd { x }, r).memory;
            &&& m[s.i as int] < 10 && m[s.i + 1] < 10 && m[s.i + 2] < 10
            &&& 100 * m[s.i as int] + 10 * m[s.i + 1] + m[s.i + 2] == s.v[x as int]
        }),
{
    let i = s.i as int;
    let v = s.v[x as int];
    let m = spec_execute(s, Instr::StoreBcd { x }, r).memory;
    assert(m == s.memory.update(i, v / 100).update(i + 1, (v / 10) % 10).update(i + 2, v % 10));
    assert(m[i] == v / 100);
    assert(m[i + 1] == (v / 10) % 10);
    assert(m[i + 2] == v % 10);
}

/// `DXYN` draws the `N` rows read from memory at `I` as a sprite at
/// (`VX`, `VY`), and sets `VF` to 1 exactly where the drawing of some row
/// reported a collision, to 0 otherwise; it touches no other register.
pub proof fn law_exec_draw_flag(s: MachineView, x: u16, y: u16, n: u16, r: u8)
    requires
        view_wf(s),
        x < 16,
        y < 16,
        n < 16,
        s.pc + 4 <= usize::MAX,
    ensures
        ({
            let t = run_op(s, opcode(0xD, x as int, y as int, n as int), r);
            let rows = Seq::new(n as nat, |k: int| s.memory[s.i + k]);
            &&& t.v[15] <= 1
            &&& (t.v[15] == 1 <==> exists|j: int| 0 <= j < n && (#[trigger] draw_row(
                draw_sprite_upto(s.screen, s.v[x as int], s.v[y as int], rows, j as nat).0,
                s.v[x as int],
                spec_wrap(s.v[y as int], j as u8, 32) as u8,
                rows[j],
            )).1)
            &&& t.screen == draw_sprite(s.screen, s.v[x as int], s.v[y as int], rows).0
            &&& regs_kept(t, s, 15, 15)
        }),
{
    lemma_opcode_fields(0xD, x as int, y as int, n as int);
    assert(spec_decode(opcode(0xD, x as int, y as int, n as int)) == (Instr::Draw { x, y, n }));
    let rows = Seq::new(n as nat, |k: int| s.memory[s.i + k]);
    assert(rows == crate::machine::sprite_rows(s.memory, s.i, n));
    law_sprite_collision_is_any_row(s.screen, s.v[x as int], s.v[y as int], rows, n as nat);
}

/// Where `X` is `F`, the flag that `8FY4`, `8FY5`, `8FY6`, `8FY7`, `8FYE`
/// produce is what `VF` holds afterwards: the carry, the absence of a
/// borrow, the bit shifted out.
pub proof fn law_flag_overwrites_vf(s: MachineView, y: u16, r: u8)
    requires
        view_wf(s),
        y < 16,
        s.pc + 4 <= usize::MAX,
    ensures
        run_op(s, opcode(8, 15, y as int, 4), r).v[15] == (if s.v[15] + s.v[y as int] >= 256 { 1int } else { 0int }),
        run_op(s, opcode(8, 15, y as int, 5), r).v[15] == (if s.v[15] >= s.v[y as int] { 1int } else { 0int }),
        run_op(s, opcode(8, 15, y as int, 6), r).v[15] == s.v[15] % 2,
        run_op(s, opcode(8, 15, y as int, 7), r).v[15] == (if s.v[y as int] >= s.v[15] { 1int } else { 0int }),
        run_op(s, opcode(8, 15, y as int, 14), r).v[15] == s.v[15] / 128,
{
    lemma_decode_one(8, 15, y, 4);
    lemma_decode_one(8, 15, y, 5);
    lemma_decode_one(8, 15, y, 6);
    lemma_decode_one(8, 15, y, 7);
    lemma_decode_one(8, 15, y, 14);
}

/// The screen update that an instruction reports tells the front end when
/// the screen may have changed: an instruction that reports none leaves the
/// screen as it was; `00E0` reports a clearing and `DXYN` a drawing.
pub proof fn law_screen_update_reports_changes(s: MachineView, o: u16, r: u8)
    requires
        view_wf(s),
    ensures
        spec_screen_update(spec_decode(o)) == ScreenUpdate::Unchanged ==> run_op(s, o, r).screen == s.screen,
        spec_screen_update(spec_decode(0x00E0u16)) == ScreenUpdate::Cleared,
        forall|x: u16, y: u16, n: u16| x < 16 && y < 16 && n < 16
            ==> spec_screen_update(#[trigger] spec_decode(opcode(0xD, x as int, y as int, n as int))) == ScreenUpdate::Drawn,
{
    assert forall|x: u16, y: u16, n: u16| x < 16 && y < 16 && n < 16
        implies spec_screen_update(#[trigger] spec_decode(opcode(0xD, x as int, y as int, n as int))) == ScreenUpdate::Drawn by {
        lemma_opcode_fields(0xD, x as int, y as int, n as int);
    }
}

} // verus!
