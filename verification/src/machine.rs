use vstd::prelude::*;
use rand::RngCore;
use rand::rngs::OsRng;
use crate::cpu::Cpu;
use crate::gfx::{Gfx, coord_fits, coord_ok, draw_sprite, draw_sprite_upto, law_draw_sprite_twice_restores, screen_wf, wrapY};
use crate::instr::{Instr, decode, fields_in_range, spec_decode};
use crate::keys::{KeyEvent, Keys, apply_events, first_key_down, key_state};
use crate::memory::{Memory, START_POS, fonts_loaded, font, glyph};
use crate::stack::Stack;

verus! {

/// Why an opcode cannot be executed in a given state.
#[derive(Clone, Copy, Debug, PartialEq, Eq, Structural)]
pub enum Fault {
    /// The opcode encodes no instruction of the machine.
    UnknownOpcode,
    /// A return with no subroutine running.
    EmptyStack,
    /// An address or a coordinate that the instruction computes leaves its
    /// range: memory past 4 KiB, an overflowing address register, program
    /// counter or signed screen coordinate.
    OutOfBounds,
    /// The program counter is past the last opcode that memory holds.
    FetchOutOfBounds,
    /// `CXNN` found no random byte: the operating system's random source
    /// reported an error.
    NoRandomness,
}

/// What an instruction did to the screen, for whoever shows it.
#[derive(Clone, Copy, Debug, PartialEq, Eq, Structural)]
pub enum ScreenUpdate {
    /// The screen is as it was.
    Unchanged,
    /// The screen was cleared.
    Cleared,
    /// A sprite was drawn.
    Drawn,
}

/// The state of the whole machine, as values.
#[verifier::ext_equal]
pub struct MachineView {
    pub memory: Seq<u8>,
    pub v: Seq<u8>,
    pub i: u16,
    pub screen: Seq<u8>,
    pub stack: Seq<usize>,
    pub pc: usize,
    pub delay: u8,
    pub sound: u8,
    pub keys: Seq<bool>,
    pub clock: u32,
}

/// The machine: memory, registers, screen, call stack, program counter,
/// timers, keypad, and the tick counter of the clock that drives it.
pub struct Machine {
    pub memory: Memory,
    pub cpu: Cpu,
    pub gfx: Gfx,
    pub stack: Stack,
    pub position: usize,
    pub delay_timer: u8,
    pub sound_timer: u8,
    pub keys: Keys,
    pub clock_count: u32,
}

impl View for Machine {
    type V = MachineView;

    open spec fn view(&self) -> MachineView {
        MachineView {
            memory: self.memory@,
            v: self.cpu.regs(),
            i: self.cpu.i,
            screen: self.gfx@,
            stack: self.stack@,
            pc: self.position,
            delay: self.delay_timer,
            sound: self.sound_timer,
            keys: self.keys@,
            clock: self.clock_count,
        }
    }
}

/// The shape of a machine state: 4 KiB of memory, sixteen byte registers, a
/// screen of 2048 pixels each 0 or 1, sixteen keys, and a tick counter that
/// stays at most 340.
pub open spec fn view_wf(s: MachineView) -> bool {
    &&& s.memory.len() == 4096
    &&& s.v.len() == 16
    &&& screen_wf(s.screen)
    &&& s.keys.len() == 16
    &&& s.clock <= 340
}

/// Whether a skip instruction skips in state `s`.
pub open spec fn spec_skips(s: MachineView, ins: Instr) -> bool {
    match ins {
        Instr::SkipEqImm { x, nn } => s.v[x as int] == nn,
        Instr::SkipNeImm { x, nn } => s.v[x as int] != nn,
        Instr::SkipEqReg { x, y } => s.v[x as int] == s.v[y as int],
        Instr::SkipNeReg { x, y } => s.v[x as int] != s.v[y as int],
        Instr::SkipKey { x } => key_state(s.keys, s.v[x as int]),
        Instr::SkipNoKey { x } => !key_state(s.keys, s.v[x as int]),
        _ => false,
    }
}

/// The address of the next instruction after `ins` ran in state `s`: a jump
/// or call goes to its target, a return to the address on top of the stack,
/// a skip that skips passes over the next instruction, a wait for a key stays
/// where it is until a key is down, and every other instruction goes on with
/// the next one.
pub open spec fn spec_next_pc(s: MachineView, ins: Instr) -> int {
    match ins {
        Instr::Return => s.stack.last() as int,
        Instr::Sys { addr } => addr as int,
        Instr::Jump { addr } => addr as int,
        Instr::Call { addr } => addr as int,
        Instr::JumpV0 { addr } => addr + s.v[0],
        Instr::WaitKey { .. } => if first_key_down(s.keys) is Some { s.pc + 2 } else { s.pc as int },
        _ => if spec_skips(s, ins) { s.pc + 4 } else { s.pc + 2 },
    }
}

/// Whether every address, counter and coordinate that `ins` computes in
/// state `s` stays in its range.
pub open spec fn spec_in_bounds(s: MachineView, ins: Instr) -> bool {
    &&& match ins {
        Instr::Call { .. } => s.pc + 2 <= usize::MAX,
        Instr::Return | Instr::Sys { .. } | Instr::Jump { .. } | Instr::JumpV0 { .. } | Instr::Unknown => true,
        _ => spec_next_pc(s, ins) <= usize::MAX,
    }
    &&& match ins {
        Instr::Draw { x, y, n } => n == 0 || (s.i + n <= 4096 && coord_ok(s.v[x as int], 8)
            && coord_ok(s.v[y as int], n as int)),
        Instr::AddIndex { x } => s.i + s.v[x as int] <= u16::MAX,
        Instr::StoreBcd { .. } => s.i + 2 < 4096,
        Instr::StoreRegs { x } => s.i + x < 4096,
        Instr::LoadRegs { x } => s.i + x < 4096,
        _ => true,
    }
}

/// Why `opcode` cannot run in state `s`, or `None` where it can.
pub open spec fn spec_fault(s: MachineView, opcode: u16) -> Option<Fault> {
    let ins = spec_decode(opcode);
    if ins is Unknown {
        Some(Fault::UnknownOpcode)
    } else if ins is Return && s.stack.len() == 0 {
        Some(Fault::EmptyStack)
    } else if !spec_in_bounds(s, ins) {
        Some(Fault::OutOfBounds)
    } else {
        None
    }
}

/// The opcode at the program counter: the byte there is its high byte, the
/// next its low byte; `None` where they are not both in memory.
pub open spec fn spec_fetch(s: MachineView) -> Option<u16> {
    if s.pc + 1 < 4096 {
        Some((s.memory[s.pc as int] * 256 + s.memory[s.pc + 1]) as u16)
    } else {
        None
    }
}

/// Byte register `x` of state `s`.
pub open spec fn reg(s: MachineView, x: u16) -> u8 {
    s.v[x as int]
}

/// The byte registers after an operation that writes `value` to `VX` and
/// then `flag` to `VF`.
pub open spec fn with_flag(s: MachineView, x: u16, value: u8, flag: u8) -> Seq<u8> {
    s.v.update(x as int, value).update(15, flag)
}

/// The state after instruction `ins` ran in state `s`; `random` is the random
/// byte that `CXNN` masks.
pub open spec fn spec_execute(s: MachineView, ins: Instr, random: u8) -> MachineView {
    let t = MachineView { pc: spec_next_pc(s, ins) as usize, ..s };
    match ins {
        Instr::ClearScreen => MachineView { screen: Seq::new(2048, |k: int| 0u8), ..t },
        Instr::Return => MachineView { stack: s.stack.drop_last(), ..t },
        Instr::Call { .. } => MachineView { stack: s.stack.push((s.pc + 2) as usize), ..t },
        Instr::LoadImm { x, nn } => MachineView { v: s.v.update(x as int, nn), ..t },
        Instr::AddImm { x, nn } => MachineView { v: s.v.update(x as int, ((reg(s, x) + nn) % 256) as u8), ..t },
        Instr::Move { x, y } => MachineView { v: s.v.update(x as int, reg(s, y)), ..t },
        Instr::Or { x, y } => MachineView { v: s.v.update(x as int, reg(s, x) | reg(s, y)), ..t },
        Instr::And { x, y } => MachineView { v: s.v.update(x as int, reg(s, x) & reg(s, y)), ..t },
        Instr::Xor { x, y } => MachineView { v: s.v.update(x as int, reg(s, x) ^ reg(s, y)), ..t },
        Instr::AddReg { x, y } => {
            let sum = reg(s, x) + reg(s, y);
            MachineView { v: with_flag(s, x, (sum % 256) as u8, if sum >= 256 { 1u8 } else { 0u8 }), ..t }
        },
        Instr::SubReg { x, y } => MachineView {
            v: with_flag(s, x, ((reg(s, x) - reg(s, y)) % 256) as u8, if reg(s, x) < reg(s, y) { 0u8 } else { 1u8 }),
            ..t
        },
        Instr::ShiftRight { x } => MachineView { v: with_flag(s, x, reg(s, x) / 2, reg(s, x) % 2), ..t },
        Instr::SubNeg { x, y } => MachineView {
            v: with_flag(s, x, ((reg(s, y) - reg(s, x)) % 256) as u8, if reg(s, y) < reg(s, x) { 0u8 } else { 1u8 }),
            ..t
        },
        Instr::ShiftLeft { x } => MachineView {
            v: with_flag(s, x, ((reg(s, x) * 2) % 256) as u8, reg(s, x) / 128),
            ..t
        },
        Instr::LoadIndex { addr } => MachineView { i: addr, ..t },
        Instr::Random { x, nn } => MachineView { v: s.v.update(x as int, nn & random), ..t },
        Instr::Draw { x, y, n } => {
            let drawn = draw_sprite(s.screen, reg(s, x), reg(s, y), sprite_rows(s.memory, s.i, n));
            MachineView { screen: drawn.0, v: s.v.update(15, if drawn.1 { 1u8 } else { 0u8 }), ..t }
        },
        Instr::LoadDelay { x } => MachineView { v: s.v.update(x as int, s.delay), ..t },
        Instr::WaitKey { x } => match first_key_down(s.keys) {
            Some(k) => MachineView { v: s.v.update(x as int, k), ..t },
            None => t,
        },
        Instr::SetDelay { x } => MachineView { delay: reg(s, x), ..t },
        Instr::SetSound { x } => MachineView { sound: reg(s, x), ..t },
        Instr::AddIndex { x } => MachineView { i: (s.i + reg(s, x)) as u16, ..t },
        Instr::LoadFont { x } => MachineView {
            i: if reg(s, x) < 16 { (5 * reg(s, x)) as u16 } else { 0u16 },
            ..t
        },
        Instr::StoreBcd { x } => MachineView {
            memory: s.memory.update(s.i as int, reg(s, x) / 100)
                .update(s.i + 1, (reg(s, x) / 10) % 10)
                .update(s.i + 2, reg(s, x) % 10),
            ..t
        },
        Instr::StoreRegs { x } => MachineView {
            memory: Seq::new(s.memory.len(), |k: int| if s.i <= k <= s.i + x { s.v[k - s.i] } else { s.memory[k] }),
            ..t
        },
        Instr::LoadRegs { x } => MachineView {
            v: Seq::new(s.v.len(), |k: int| if k <= x { s.memory[s.i + k] } else { s.v[k] }),
            ..t
        },
        _ => t,
    }
}

/// The `n` sprite rows that `DXYN` reads from memory at address `i` on.
pub open spec fn sprite_rows(memory: Seq<u8>, i: u16, n: u16) -> Seq<u8> {
    Seq::new(n as nat, |k: int| memory[i + k])
}

/// A timer after the tick with counter `clock`: on a multiple of 17 it
/// counts down by one, never below zero.
pub open spec fn count_down(timer: u8, clock: u32) -> u8 {
    if clock % 17 == 0 && timer > 0 { (timer - 1) as u8 } else { timer }
}

/// What a tick of the clock came to.
#[derive(Clone, Copy, Debug, PartialEq, Eq, Structural)]
pub enum Tick {
    /// The CPU did not run on this tick.
    Idle,
    /// The CPU ran the opcode `opcode`.
    Ran { opcode: u16, update: ScreenUpdate },
    /// A quit request came among the events.
    Quit,
    /// The opcode at the program counter cannot run, for the reason given.
    Halted(Fault),
}

/// The state at the start of a tick: the tick counter goes back to 0 once it
/// has reached 340.
pub open spec fn tick_start(s: MachineView) -> MachineView {
    MachineView { clock: if s.clock >= 340 { 0u32 } else { s.clock }, ..s }
}

/// The state at the end of a tick: the timers count down where the counter
/// is a multiple of 17, and the counter moves on.
pub open spec fn tick_end(s: MachineView) -> MachineView {
    MachineView {
        clock: (s.clock + 1) as u32,
        delay: count_down(s.delay, s.clock),
        sound: count_down(s.sound, s.clock),
        ..s
    }
}

/// Whether the CPU runs on the tick that starts in state `s`: on every other
/// tick, those with an even counter.
pub open spec fn cpu_runs(s: MachineView) -> bool {
    tick_start(s).clock % 2 == 0
}

/// The state after the start of a tick and the events polled in it, and
/// whether a quit request came among them.
pub open spec fn polled(s: MachineView, events: Seq<KeyEvent>) -> (MachineView, bool) {
    let s0 = tick_start(s);
    let keys = apply_events(s0.keys, events);
    (MachineView { keys: keys.0, ..s0 }, keys.1)
}

/// A tick of the 1 ms clock from state `s`, with `events` the keyboard events
/// polled in it and `random` what the random source gave (`None`: it
/// failed). On a tick where the CPU runs, the events are taken, then the
/// opcode at the program counter is fetched, checked and run, and the tick
/// ends; on the other ticks it only ends.
pub open spec fn spec_tick(s: MachineView, events: Seq<KeyEvent>, random: Option<u8>) -> (MachineView, Tick) {
    let s0 = tick_start(s);
    if !cpu_runs(s) {
        (tick_end(s0), Tick::Idle)
    } else {
        let p = polled(s, events);
        let s1 = p.0;
        if p.1 {
            (s1, Tick::Quit)
        } else {
            match spec_fetch(s1) {
                None => (s1, Tick::Halted(Fault::FetchOutOfBounds)),
                Some(op) => match spec_fault(s1, op) {
                    Some(f) => (s1, Tick::Halted(f)),
                    None => {
                        let ins = spec_decode(op);
                        if ins is Random && random is None {
                            (s1, Tick::Halted(Fault::NoRandomness))
                        } else {
                            let b = match random { Some(b) => b, None => 0u8 };
                            (tick_end(spec_execute(s1, ins, b)),
                                Tick::Ran { opcode: op, update: spec_screen_update(ins) })
                        }
                    },
                },
            }
        }
    }
}

/// The state after `n` ticks from `s`, tick `k` polling `events[k]` and
/// drawing `randoms[k]` from the random source.
pub open spec fn run_ticks(s: MachineView, events: Seq<Seq<KeyEvent>>, randoms: Seq<Option<u8>>, n: nat) -> MachineView
    decreases n,
{
    if n == 0 {
        s
    } else {
        spec_tick(run_ticks(s, events, randoms, (n - 1) as nat), events[n - 1], randoms[n - 1]).0
    }
}

/// What tick `k` of such a run came to.
pub open spec fn tick_outcome(s: MachineView, events: Seq<Seq<KeyEvent>>, randoms: Seq<Option<u8>>, k: nat) -> Tick {
    spec_tick(run_ticks(s, events, randoms, k), events[k as int], randoms[k as int]).1
}

/// What instruction `ins` does to the screen.
pub open spec fn spec_screen_update(ins: Instr) -> ScreenUpdate {
    match ins {
        Instr::ClearScreen => ScreenUpdate::Cleared,
        Instr::Draw { .. } => ScreenUpdate::Drawn,
        _ => ScreenUpdate::Unchanged,
    }
}

/// Reads one byte from the operating system's random source through
/// `rand`'s `OsRng::try_fill_bytes` (`rand_core` 0.6, which hands on the
/// result of `getrandom`): `Some` byte where the source delivered one, `None`
/// where it reported an error. `try_fill_bytes` returns that error rather
/// than panicking. Which byte comes, and whether the source fails, rest on
/// chance and the machine: nothing is stated of the result.
#[verifier::external_body]
fn random_byte() -> (r: Option<u8>) {
    let mut buf = [0u8; 1];
    match OsRng.try_fill_bytes(&mut buf) {
        Ok(()) => Some(buf[0]),
        Err(_) => None,
    }
}

proof fn lemma_fetch_bits(hi: u16, lo: u16)
    by (bit_vector)
    requires
        hi < 256,
        lo < 256,
    ensures
        (hi << 8u16) | lo == hi * 256 + lo,
{
}

proof fn lemma_shift_bits(a: u8)
    by (bit_vector)
    ensures
        a & 1u8 == a % 2,
        a >> 1u8 == a / 2,
        a >> 7u8 == a / 128,
        a << 1u8 == ((a as int * 2) % 256) as u8,
{
}

impl Machine {
    /// The machine state has the shape that `view_wf` describes.
    pub open spec fn wf(&self) -> bool {
        view_wf(self@)
    }

    /// A machine with `memory` loaded, every register zero, a dark screen,
    /// no subroutine running, the program counter at `START_POS`, the timers
    /// and the tick counter at zero, and no key down.
    pub fn new(memory: Memory) -> (m: Machine)
        ensures
            m.wf(),
            m@ == (MachineView {
                memory: memory@,
                v: Seq::new(16, |k: int| 0u8),
                i: 0,
                screen: Seq::new(2048, |k: int| 0u8),
                stack: Seq::<usize>::empty(),
                pc: START_POS,
                delay: 0,
                sound: 0,
                keys: Seq::new(16, |k: int| false),
                clock: 0,
            }),
    {
        let m = Machine {
            memory,
            cpu: Cpu::new(),
            gfx: Gfx::new(),
            stack: Stack::new(),
            position: START_POS,
            delay_timer: 0,
            sound_timer: 0,
            keys: Keys::new(),
            clock_count: 0,
        };
        m
    }

    /// The opcode at the program counter, where both its bytes are in memory.
    pub fn fetch(&self) -> (opcode: Option<u16>)
        requires
            self.wf(),
        ensures
            opcode == spec_fetch(self@),
    {
        if self.position < 4095 {
            let hi = self.memory.memory[self.position] as u16;
            let lo = self.memory.memory[self.position + 1] as u16;
            proof {
                lemma_fetch_bits(hi, lo);
            }
            Some(hi << 8 | lo)
        } else {
            None
        }
    }

    /// Whether skip instruction `ins` skips.
    fn skips(&self, ins: Instr) -> (b: bool)
        requires
            self.wf(),
            fields_in_range(ins),
        ensures
            b == spec_skips(self@, ins),
    {
        match ins {
            Instr::SkipEqImm { x, nn } => self.cpu.get_reg(x) == nn,
            Instr::SkipNeImm { x, nn } => self.cpu.get_reg(x) != nn,
            Instr::SkipEqReg { x, y } => self.cpu.get_reg(x) == self.cpu.get_reg(y),
            Instr::SkipNeReg { x, y } => self.cpu.get_reg(x) != self.cpu.get_reg(y),
            Instr::SkipKey { x } => self.keys.check_key(self.cpu.get_reg(x)),
            Instr::SkipNoKey { x } => !self.keys.check_key(self.cpu.get_reg(x)),
            _ => false,
        }
    }

    /// Whether every address, counter and coordinate that `ins` computes
    /// stays in its range.
    fn in_bounds(&self, ins: Instr) -> (ok: bool)
        requires
            self.wf(),
            fields_in_range(ins),
        ensures
            ok == spec_in_bounds(self@, ins),
    {
        let pc_fits = match ins {
            Instr::Call { .. } => self.position <= usize::MAX - 2,
            Instr::Return | Instr::Sys { .. } | Instr::Jump { .. } | Instr::JumpV0 { .. } | Instr::Unknown => true,
            Instr::WaitKey { .. } => self.keys.first_key_down().is_none() || self.position <= usize::MAX - 2,
            _ => if self.skips(ins) {
                self.position <= usize::MAX - 4
            } else {
                self.position <= usize::MAX - 2
            },
        };
        let i = self.cpu.get_add_reg();
        let ranges = match ins {
            Instr::Draw { x, y, n } => n == 0 || (i as u32 + n as u32 <= 4096
                && coord_fits(self.cpu.get_reg(x), 8) && coord_fits(self.cpu.get_reg(y), n)),
            Instr::AddIndex { x } => i as u32 + self.cpu.get_reg(x) as u32 <= 65535,
            Instr::StoreBcd { .. } => (i as u32) + 2 < 4096,
            Instr::StoreRegs { x } => (i as u32) + (x as u32) < 4096,
            Instr::LoadRegs { x } => (i as u32) + (x as u32) < 4096,
            _ => true,
        };
        pc_fits && ranges
    }

    /// Runs a flow instruction: clear, return, jump, call or skip.
    fn exec_flow(&mut self, ins: Instr)
        requires
            old(self).wf(),
            fields_in_range(ins),
            spec_in_bounds(old(self)@, ins),
            ins is ClearScreen || ins is Return || ins is Sys || ins is Jump || ins is Call
                || ins is JumpV0 || ins is SkipEqImm || ins is SkipNeImm || ins is SkipEqReg
                || ins is SkipNeReg || ins is SkipKey || ins is SkipNoKey,
            ins is Return ==> old(self)@.stack.len() > 0,
        ensures
            final(self).wf(),
            final(self)@ == spec_execute(old(self)@, ins, 0),
    {
        match ins {
            Instr::ClearScreen => {
                self.gfx.screen = [0u8; 2048];
                assert(self.gfx@ =~= Seq::new(2048, |k: int| 0u8));
                self.position = self.position + 2;
            },
            Instr::Return => {
                self.position = self.stack.stack.pop().unwrap();
            },
            Instr::Sys { addr } => {
                self.position = addr as usize;
            },
            Instr::Jump { addr } => {
                self.position = addr as usize;
            },
            Instr::Call { addr } => {
                self.stack.stack.push(self.position + 2);
                self.position = addr as usize;
            },
            Instr::JumpV0 { addr } => {
                self.position = (addr + self.cpu.get_reg(0x0) as u16) as usize;
            },
            _ => {
                if self.skips(ins) {
                    self.position = self.position + 4;
                } else {
                    self.position = self.position + 2;
                }
            },
        }
    }

    /// Runs an instruction that works on registers and timers.
    #[verifier::rlimit(40)]
    fn exec_registers(&mut self, ins: Instr, random: u8)
        requires
            old(self).wf(),
            fields_in_range(ins),
            spec_in_bounds(old(self)@, ins),
            ins is LoadImm || ins is AddImm || ins is Move || ins is Or || ins is And || ins is Xor
                || ins is AddReg || ins is SubReg || ins is ShiftRight || ins is SubNeg
                || ins is ShiftLeft || ins is Random || ins is LoadDelay || ins is WaitKey
                || ins is SetDelay || ins is SetSound || ins is LoadIndex || ins is AddIndex
                || ins is LoadFont,
        ensures
            final(self).wf(),
            final(self)@ == spec_execute(old(self)@, ins, random),
    {
        match ins {
            Instr::LoadImm { x, nn } => {
                self.cpu.set_reg(x, nn);
            },
            Instr::AddImm { x, nn } => {
                let value: u16 = (nn as u16) + (self.cpu.get_reg(x) as u16);
                self.cpu.set_reg(x, (value % 256) as u8);
            },
            Instr::Move { x, y } => {
                let value = self.cpu.get_reg(y);
                self.cpu.set_reg(x, value);
            },
            Instr::Or { x, y } => {
                let value = self.cpu.get_reg(x) | self.cpu.get_reg(y);
                self.cpu.set_reg(x, value);
            },
            Instr::And { x, y } => {
                let value = self.cpu.get_reg(x) & self.cpu.get_reg(y);
                self.cpu.set_reg(x, value);
            },
            Instr::Xor { x, y } => {
                let value = self.cpu.get_reg(x) ^ self.cpu.get_reg(y);
                self.cpu.set_reg(x, value);
            },
            Instr::AddReg { x, y } => {
                let value: u16 = (self.cpu.get_reg(x) as u16) + (self.cpu.get_reg(y) as u16);
                let carry: u8 = if value >= 0x100 { 1 } else { 0 };
                self.cpu.set_reg(x, (value % 256) as u8);
                self.cpu.set_reg(0xf, carry);
            },
            Instr::SubReg { x, y } => {
                let value: i32 = (self.cpu.get_reg(x) as i32) - (self.cpu.get_reg(y) as i32);
                if value < 0 {
                    self.cpu.set_reg(x, (value + 256) as u8);
                    self.cpu.set_reg(0xf, 0);
                } else {
                    self.cpu.set_reg(x, value as u8);
                    self.cpu.set_reg(0xf, 1);
                }
            },
            Instr::ShiftRight { x } => {
                let reg_x_value = self.cpu.get_reg(x);
                proof {
                    lemma_shift_bits(reg_x_value);
                }
                let bit = reg_x_value & 1;
                self.cpu.set_reg(x, reg_x_value >> 1);
                self.cpu.set_reg(0xf, bit);
            },
            Instr::SubNeg { x, y } => {
                let value: i32 = (self.cpu.get_reg(y) as i32) - (self.cpu.get_reg(x) as i32);
                if value < 0 {
                    self.cpu.set_reg(x, (value + 256) as u8);
                    self.cpu.set_reg(0xf, 0);
                } else {
                    self.cpu.set_reg(x, value as u8);
                    self.cpu.set_reg(0xf, 1);
                }
            },
            Instr::ShiftLeft { x } => {
                let reg_x_value = self.cpu.get_reg(x);
                proof {
                    lemma_shift_bits(reg_x_value);
                }
                let bit = reg_x_value >> 7;
                self.cpu.set_reg(x, reg_x_value << 1);
                self.cpu.set_reg(0xf, bit);
            },
            Instr::Random { x, nn } => {
                self.cpu.set_reg(x, nn & random);
            },
            Instr::LoadDelay { x } => {
                self.cpu.set_reg(x, self.delay_timer);
            },
            Instr::WaitKey { x } => {
                match self.keys.first_key_down() {
                    Some(keypress) => {
                        self.cpu.set_reg(x, keypress);
                    },
                    None => {
                        return;
                    },
                }
            },
            Instr::SetDelay { x } => {
                self.delay_timer = self.cpu.get_reg(x);
            },
            Instr::SetSound { x } => {
                self.sound_timer = self.cpu.get_reg(x);
            },
            Instr::LoadIndex { addr } => {
                self.cpu.set_add_reg(addr);
            },
            Instr::AddIndex { x } => {
                let i = self.cpu.get_add_reg();
                let vx = self.cpu.get_reg(x) as u16;
                self.cpu.set_add_reg(i + vx);
            },
            Instr::LoadFont { x } => {
                let letter = self.cpu.get_reg(x);
                let letter_position: u16 = if letter < 16 { letter as u16 * 5 } else { 0 };
                self.cpu.set_add_reg(letter_position);
            },
            _ => {},
        }
        self.position = self.position + 2;
    }

    /// Runs an instruction that moves register values to or from memory.
    fn exec_memory(&mut self, ins: Instr)
        requires
            old(self).wf(),
            fields_in_range(ins),
            spec_in_bounds(old(self)@, ins),
            ins is StoreBcd || ins is StoreRegs || ins is LoadRegs,
        ensures
            final(self).wf(),
            final(self)@ == spec_execute(old(self)@, ins, 0),
    {
        let ghost s = old(self)@;
        match ins {
            Instr::StoreBcd { x } => {
                let address = self.cpu.get_add_reg();
                let value = self.cpu.get_reg(x);
                self.memory.memory[address as usize] = value / 100;
                self.memory.memory[(address + 1) as usize] = (value / 10) % 10;
                self.memory.memory[(address + 2) as usize] = value % 10;
            },
            Instr::StoreRegs { x } => {
                let mut start_reg: u16 = 0x0;
                let mut start_address = self.cpu.get_add_reg();
                while start_reg <= x
                    invariant
                        x < 16,
                        s.i + x < 4096,
                        start_reg <= x + 1,
                        start_address == s.i + start_reg,
                        self@ == (MachineView {
                            memory: Seq::new(4096, |k: int| if s.i <= k < s.i + start_reg { s.v[k - s.i] } else { s.memory[k] }),
                            ..s
                        }),
                    decreases x + 1 - start_reg,
                {
                    self.memory.memory[start_address as usize] = self.cpu.get_reg(start_reg);
                    start_reg = start_reg + 1;
                    start_address = start_address + 1;
                    assert(self.memory@ =~= Seq::new(4096, |k: int| if s.i <= k < s.i + start_reg { s.v[k - s.i] } else { s.memory[k] }));
                }
                assert(self.memory@ =~= Seq::new(s.memory.len(), |k: int| if s.i <= k <= s.i + x { s.v[k - s.i] } else { s.memory[k] }));
            },
            Instr::LoadRegs { x } => {
                let mut start_reg: u16 = 0x0;
                let mut start_address = self.cpu.get_add_reg();
                while start_reg <= x
                    invariant
                        x < 16,
                        s.i + x < 4096,
                        start_reg <= x + 1,
                        start_address == s.i + start_reg,
                        self@ == (MachineView {
                            v: Seq::new(16, |k: int| if k < start_reg { s.memory[s.i + k] } else { s.v[k] }),
                            ..s
                        }),
                    decreases x + 1 - start_reg,
                {
                    let value = self.memory.memory[start_address as usize];
                    self.cpu.set_reg(start_reg, value);
                    start_reg = start_reg + 1;
                    start_address = start_address + 1;
                    assert(self.cpu.regs() =~= Seq::new(16, |k: int| if k < start_reg { s.memory[s.i + k] } else { s.v[k] }));
                }
                assert(self.cpu.regs() =~= Seq::new(s.v.len(), |k: int| if k <= x { s.memory[s.i + k] } else { s.v[k] }));
            },
            _ => {},
        }
        self.position = self.position + 2;
    }

    /// Runs `DXYN`: draws the `n`-row sprite at `I` at (`VX`, `VY`), row `k`
    /// on line `wrapY(VY, k)`, and sets `VF` to whether a pixel went off.
    fn exec_draw(&mut self, ins: Instr)
        requires
            old(self).wf(),
            fields_in_range(ins),
            spec_in_bounds(old(self)@, ins),
            ins is Draw,
        ensures
            final(self).wf(),
            final(self)@ == spec_execute(old(self)@, ins, 0),
    {
        let ghost s = old(self)@;
        if let Instr::Draw { x: xr, y: yr, n: height } = ins {
            let x = self.cpu.get_reg(xr);
            let y = self.cpu.get_reg(yr);
            let start = self.cpu.get_add_reg();
            let ghost rows = sprite_rows(s.memory, s.i, height);
            let mut collision = false;
            let mut n: u16 = 0;
            while n < height
                invariant
                    height < 16,
                    n <= height,
                    start == s.i,
                    x == s.v[xr as int],
                    y == s.v[yr as int],
                    height > 0 ==> (s.i + height <= 4096 && coord_ok(x, 8) && coord_ok(y, height as int)),
                    rows == sprite_rows(s.memory, s.i, height),
                    self.gfx.wf(),
                    (self.gfx@, collision) == draw_sprite_upto(s.screen, x, y, rows, n as nat),
                    self@ == (MachineView { screen: self.gfx@, ..s }),
                decreases height - n,
            {
                let row = self.memory.memory[(start + n) as usize];
                proof {
                    crate::gfx::lemma_coord_ok(y, height as int, n as u8);
                }
                let line = wrapY(y, n as u8);
                if self.gfx.draw(x, line, row) {
                    collision = true;
                }
                n = n + 1;
            }
            if collision {
                self.cpu.set_reg(0xf, 1);
            } else {
                self.cpu.set_reg(0xf, 0);
            }
            self.position = self.position + 2;
        }
    }

    /// Runs `opcode`, with `random` as the random byte that `CXNN` masks.
    pub fn execute_with_random(&mut self, opcode: u16, random: u8) -> (update: ScreenUpdate)
        requires
            old(self).wf(),
            spec_fault(old(self)@, opcode) is None,
        ensures
            final(self).wf(),
            final(self)@ == spec_execute(old(self)@, spec_decode(opcode), random),
            update == spec_screen_update(spec_decode(opcode)),
    {
        let ins = decode(opcode);
        match ins {
            Instr::ClearScreen | Instr::Return | Instr::Sys { .. } | Instr::Jump { .. }
            | Instr::Call { .. } | Instr::JumpV0 { .. } | Instr::SkipEqImm { .. }
            | Instr::SkipNeImm { .. } | Instr::SkipEqReg { .. } | Instr::SkipNeReg { .. }
            | Instr::SkipKey { .. } | Instr::SkipNoKey { .. } => {
                self.exec_flow(ins);
            },
            Instr::StoreBcd { .. } | Instr::StoreRegs { .. } | Instr::LoadRegs { .. } => {
                self.exec_memory(ins);
            },
            Instr::Draw { .. } => {
                self.exec_draw(ins);
            },
            Instr::Unknown => {},
            _ => {
                self.exec_registers(ins, random);
            },
        }
        match ins {
            Instr::ClearScreen => ScreenUpdate::Cleared,
            Instr::Draw { .. } => ScreenUpdate::Drawn,
            _ => ScreenUpdate::Unchanged,
        }
    }

    /// Runs `opcode`. `CXNN` masks a byte read from the operating system's
    /// random source, and where the source fails it runs not and reports
    /// `NoRandomness`; every other instruction runs as `execute_with_random`
    /// runs it with any byte.
    pub fn execute_opcode(&mut self, opcode: u16) -> (result: Result<ScreenUpdate, Fault>)
        requires
            old(self).wf(),
            spec_fault(old(self)@, opcode) is None,
        ensures
            final(self).wf(),
            !(spec_decode(opcode) is Random) ==> result is Ok,
            result matches Ok(update) ==> update == spec_screen_update(spec_decode(opcode)),
            result is Ok && spec_decode(opcode) is Random
                ==> exists|r: u8| final(self)@ == spec_execute(old(self)@, spec_decode(opcode), r),
            !(spec_decode(opcode) is Random) ==> final(self)@ == spec_execute(old(self)@, spec_decode(opcode), 0),
            result matches Err(f) ==> f == Fault::NoRandomness && final(self)@ == old(self)@,
    {
        let ins = decode(opcode);
        let random: u8 = match ins {
            Instr::Random { .. } => match random_byte() {
                Some(r) => r,
                None => {
                    return Err(Fault::NoRandomness);
                },
            },
            _ => 0,
        };
        Ok(self.execute_with_random(opcode, random))
    }

    /// Whether the CPU runs on the next tick.
    pub fn runs_cpu_next_tick(&self) -> (runs: bool)
        requires
            self.wf(),
        ensures
            runs == cpu_runs(self@),
    {
        let clock = if self.clock_count >= 340 { 0 } else { self.clock_count };
        clock % 2 == 0
    }

    /// Runs one tick of the 1 ms clock, with `events` the keyboard events
    /// polled in it (none are taken on a tick where the CPU does not run).
    pub fn tick(&mut self, events: &Vec<KeyEvent>) -> (outcome: Tick)
        requires
            old(self).wf(),
        ensures
            final(self).wf(),
            exists|r: Option<u8>| (final(self)@, outcome) == spec_tick(old(self)@, events@, r),
    {
        let ghost s = old(self)@;
        let run_cpu = self.begin_cycle();
        if !run_cpu {
            self.end_cycle();
            assert((self@, Tick::Idle) == spec_tick(s, events@, None));
            return Tick::Idle;
        }
        if self.keys.apply_events(events) {
            assert((self@, Tick::Quit) == spec_tick(s, events@, None));
            return Tick::Quit;
        }
        assert(self@ == polled(s, events@).0);
        let opcode = match self.fetch() {
            Some(opcode) => opcode,
            None => {
                assert((self@, Tick::Halted(Fault::FetchOutOfBounds)) == spec_tick(s, events@, None));
                return Tick::Halted(Fault::FetchOutOfBounds);
            },
        };
        match self.fault(opcode) {
            Some(f) => {
                assert((self@, Tick::Halted(f)) == spec_tick(s, events@, None));
                return Tick::Halted(f);
            },
            None => {},
        }
        let ghost s1 = self@;
        match self.execute_opcode(opcode) {
            Ok(update) => {
                let ghost mid = self@;
                self.end_cycle();
                let outcome = Tick::Ran { opcode, update };
                proof {
                    if spec_decode(opcode) is Random {
                        let b = choose|b: u8| mid == spec_execute(s1, spec_decode(opcode), b);
                        assert((self@, outcome) == spec_tick(s, events@, Some(b)));
                    } else {
                        assert((self@, outcome) == spec_tick(s, events@, None));
                    }
                }
                outcome
            },
            Err(f) => {
                assert((self@, Tick::Halted(f)) == spec_tick(s, events@, None));
                Tick::Halted(f)
            },
        }
    }

    /// Starts a tick of the 1 ms clock: the tick counter goes back to 0 once
    /// it has reached 340, and the CPU runs an instruction on the ticks with
    /// an even counter.
    pub fn begin_cycle(&mut self) -> (run_cpu: bool)
        requires
            old(self).wf(),
        ensures
            final(self).wf(),
            final(self)@ == (MachineView {
                clock: if old(self)@.clock >= 340 { 0u32 } else { old(self)@.clock },
                ..old(self)@
            }),
            final(self)@.clock < 340,
            run_cpu == (final(self)@.clock % 2 == 0),
    {
        if self.clock_count >= 340 {
            self.clock_count = 0;
        }
        self.clock_count % 2 == 0
    }

    /// Ends a tick of the clock: on the ticks whose counter is a multiple of
    /// 17 each timer that is above zero counts down by one; then the counter
    /// moves on.
    pub fn end_cycle(&mut self)
        requires
            old(self).wf(),
            old(self)@.clock < 340,
        ensures
            final(self).wf(),
            final(self)@ == (MachineView {
                clock: (old(self)@.clock + 1) as u32,
                delay: count_down(old(self)@.delay, old(self)@.clock),
                sound: count_down(old(self)@.sound, old(self)@.clock),
                ..old(self)@
            }),
    {
        if self.clock_count % 17 == 0 {
            if self.delay_timer > 0 {
                self.delay_timer = self.delay_timer - 1;
            }
            if self.sound_timer > 0 {
                self.sound_timer = self.sound_timer - 1;
            }
        }
        self.clock_count = self.clock_count + 1;
    }

    /// Why `opcode` cannot run now, or `None` where it can.
    pub fn fault(&self, opcode: u16) -> (f: Option<Fault>)
        requires
            self.wf(),
        ensures
            f == spec_fault(self@, opcode),
    {
        let ins = decode(opcode);
        match ins {
            Instr::Unknown => Some(Fault::UnknownOpcode),
            Instr::Return => if self.stack.stack.len() == 0 {
                Some(Fault::EmptyStack)
            } else if self.in_bounds(ins) {
                None
            } else {
                Some(Fault::OutOfBounds)
            },
            _ => if self.in_bounds(ins) {
                None
            } else {
                Some(Fault::OutOfBounds)
            },
        }
    }
}

/// A subroutine call followed by a return comes back to the instruction after
/// the call, with the call stack as it was.
pub proof fn law_call_then_return(s: MachineView, addr: u16, r1: u8, r2: u8)
    requires
        s.pc + 2 <= usize::MAX,
    ensures
        spec_execute(spec_execute(s, Instr::Call { addr }, r1), Instr::Return, r2)
            == (MachineView { pc: (s.pc + 2) as usize, ..s }),
{
    let c = spec_execute(s, Instr::Call { addr }, r1);
    assert(c.stack.drop_last() =~= s.stack);
}

/// Registers stored to memory by `FX55` and loaded back by `FX65` from the
/// same address are the registers that were stored: a read gives back what a
/// write wrote.
pub proof fn law_store_then_load_registers(s: MachineView, x: u16, r1: u8, r2: u8)
    requires
        view_wf(s),
        x < 16,
        s.i + x < 4096,
    ensures
        spec_execute(spec_execute(s, Instr::StoreRegs { x }, r1), Instr::LoadRegs { x }, r2).v == s.v,
        spec_execute(spec_execute(s, Instr::StoreRegs { x }, r1), Instr::LoadRegs { x }, r2).memory
            == spec_execute(s, Instr::StoreRegs { x }, r1).memory,
{
    let a = spec_execute(s, Instr::StoreRegs { x }, r1);
    let b = spec_execute(a, Instr::LoadRegs { x }, r2);
    assert(b.v =~= s.v);
}

/// `FX33` stores the decimal digits of `VX` at `I`, `I+1` and `I+2`, most
/// significant first: each is a digit, and together they spell `VX`.
pub proof fn law_bcd_digits(s: MachineView, x: u16, r: u8)
    requires
        view_wf(s),
        x < 16,
        s.i + 2 < 4096,
    ensures
        ({
            let m = spec_execute(s, Instr::StoreBcd { x }, r).memory;
            &&& m[s.i as int] < 10 && m[s.i + 1] < 10 && m[s.i + 2] < 10
            &&& 100 * m[s.i as int] + 10 * m[s.i + 1] + m[s.i + 2] == s.v[x as int]
        }),
{
}

/// With the font loaded, `FX29` points `I` at the glyph of the hex digit in
/// `VX`.
pub proof fn law_font_lookup(s: MachineView, x: u16, r: u8)
    requires
        view_wf(s),
        fonts_loaded(s.memory),
        x < 16,
        s.v[x as int] < 16,
    ensures
        ({
            let t = spec_execute(s, Instr::LoadFont { x }, r);
            t.memory.subrange(t.i as int, t.i + 5) == glyph(s.v[x as int] as int)
        }),
{
    let t = spec_execute(s, Instr::LoadFont { x }, r);
    let d = s.v[x as int] as int;
    assert(s.memory.subrange(0, 80) == font());
    assert forall|k: int| 0 <= k < 5 implies t.memory.subrange(t.i as int, t.i + 5)[k] == glyph(d)[k] by {
        assert(s.memory.subrange(0, 80)[5 * d + k] == s.memory[5 * d + k]);
    }
    assert(t.memory.subrange(t.i as int, t.i + 5) =~= glyph(d));
}

/// Running the same `DXYN` twice leaves the screen as it was, where neither
/// coordinate register is `VF` (which the first drawing overwrites).
pub proof fn law_draw_twice_restores_screen(s: MachineView, x: u16, y: u16, n: u16, r1: u8, r2: u8)
    requires
        view_wf(s),
        x < 15,
        y < 15,
        n < 16,
    ensures
        spec_execute(spec_execute(s, Instr::Draw { x, y, n }, r1), Instr::Draw { x, y, n }, r2).screen == s.screen,
{
    let a = spec_execute(s, Instr::Draw { x, y, n }, r1);
    assert(a.v[x as int] == s.v[x as int]);
    assert(a.v[y as int] == s.v[y as int]);
    assert(sprite_rows(a.memory, a.i, n) == sprite_rows(s.memory, s.i, n));
    law_draw_sprite_twice_restores(s.screen, s.v[x as int], s.v[y as int], sprite_rows(s.memory, s.i, n));
}

/// Running an instruction that can run never touches the keypad or the tick counter, and
/// writes memory only through `FX33` and `FX55`, and then only the sixteen
/// bytes from `I` on.
pub proof fn law_execution_frame(s: MachineView, ins: Instr, r: u8)
    requires
        view_wf(s),
        fields_in_range(ins),
        spec_in_bounds(s, ins),
    ensures
        spec_execute(s, ins, r).keys == s.keys,
        spec_execute(s, ins, r).clock == s.clock,
        !(ins is StoreBcd || ins is StoreRegs) ==> spec_execute(s, ins, r).memory == s.memory,
        forall|k: int| 0 <= k < 4096 && !(s.i <= k < s.i + 16)
            ==> #[trigger] spec_execute(s, ins, r).memory[k] == s.memory[k],
{
    let t = spec_execute(s, ins, r);
    if ins is StoreBcd || ins is StoreRegs {
        assert(t.memory.len() == 4096);
    } else {
        assert(t.memory == s.memory);
    }
}

/// The random source matters to a tick only where the tick runs `CXNN`.
pub proof fn law_tick_random_only_for_cxnn(s: MachineView, events: Seq<KeyEvent>, r1: Option<u8>, r2: Option<u8>)
    requires
        !(spec_fetch(polled(s, events).0) matches Some(op) && spec_decode(op) is Random),
    ensures
        spec_tick(s, events, r1) == spec_tick(s, events, r2),
{
}

/// In a run of ticks, the CPU runs on every other tick; each tick on which it
/// runs takes that tick's events first, then executes the big-endian word at
/// the program counter, and the next tick starts at the address that
/// instruction goes on to, with memory as that instruction left it.
pub proof fn law_run_executes_fetched_opcodes(
    s: MachineView,
    events: Seq<Seq<KeyEvent>>,
    randoms: Seq<Option<u8>>,
    k: nat,
)
    requires
        k < events.len(),
        k < randoms.len(),
    ensures
        (tick_outcome(s, events, randoms, k) is Idle) <==> !cpu_runs(run_ticks(s, events, randoms, k)),
        ({
            let pre = polled(run_ticks(s, events, randoms, k), events[k as int]).0;
            let next = run_ticks(s, events, randoms, k + 1);
            tick_outcome(s, events, randoms, k) matches Tick::Ran { opcode, .. } ==> {
                &&& pre.keys == apply_events(run_ticks(s, events, randoms, k).keys, events[k as int]).0
                &&& spec_fetch(pre) == Some(opcode)
                &&& next.pc == spec_next_pc(pre, spec_decode(opcode)) as usize
                &&& next.memory == spec_execute(pre, spec_decode(opcode), 0).memory
            }
        }),
{
    assert(run_ticks(s, events, randoms, k + 1) == spec_tick(run_ticks(s, events, randoms, k), events[k as int], randoms[k as int]).0);
}

/// The timers at the end of a tick: on a tick whose counter is not a
/// multiple of 17 they stay as they are; on a multiple of 17 each timer above
/// zero goes down by exactly one, and a timer at zero stays at zero.
pub proof fn law_timers_count_down_every_17_ticks(s: MachineView)
    ensures
        s.clock % 17 != 0 ==> tick_end(s).delay == s.delay && tick_end(s).sound == s.sound,
        s.clock % 17 == 0 && s.delay > 0 ==> tick_end(s).delay == s.delay - 1,
        s.clock % 17 == 0 && s.sound > 0 ==> tick_end(s).sound == s.sound - 1,
        s.delay == 0 ==> tick_end(s).delay == 0,
        s.sound == 0 ==> tick_end(s).sound == 0,
{
}

/// The state after `n` tick ends from `s`.
pub open spec fn tick_ends(s: MachineView, n: nat) -> MachineView
    decreases n,
{
    if n == 0 { s } else { tick_end(tick_ends(s, (n - 1) as nat)) }
}

/// Over the first `n` ticks after the counter starts at 0, each timer goes
/// down once per multiple of 17 among the counters `0 .. n`, that is
/// `(n + 16) / 17` times, and stops at zero.
pub proof fn law_timers_over_ticks(s: MachineView, n: nat)
    requires
        s.clock == 0,
        n <= 340,
    ensures
        tick_ends(s, n).clock == n,
        tick_ends(s, n).delay == (if s.delay >= (n + 16) / 17 { s.delay - (n + 16) / 17 } else { 0 }),
        tick_ends(s, n).sound == (if s.sound >= (n + 16) / 17 { s.sound - (n + 16) / 17 } else { 0 }),
    decreases n,
{
    if n > 0 {
        law_timers_over_ticks(s, (n - 1) as nat);
        let m = n - 1;
        assert((n + 16) / 17 == (m + 16) / 17 + (if m % 17 == 0 { 1int } else { 0int })) by (nonlinear_arith)
            requires m == n - 1, m >= 0;
    }
}

/// The opcode fetched at the program counter has the byte there as its high
/// byte and the next byte as its low byte; it is fetched exactly where both
/// bytes are in memory.
pub proof fn law_fetch_big_endian(s: MachineView)
    requires
        view_wf(s),
    ensures
        spec_fetch(s) is Some <==> s.pc + 1 < 4096,
        spec_fetch(s) matches Some(o) ==> o / 256 == s.memory[s.pc as int] && o % 256 == s.memory[s.pc + 1],
{
}

/// The tick counter runs through `0 ..= 340`, going back to 0 at the start
/// of the tick after it reached 340, and the CPU runs on the ticks with an
/// even counter: a full tick moves the counter from `c` to `c % 340 + 1`.
pub proof fn law_clock_cycle(s: MachineView)
    requires
        s.clock <= 340,
    ensures
        tick_end(tick_start(s)).clock == s.clock % 340 + 1,
        cpu_runs(s) <==> (s.clock % 340) % 2 == 0,
{
}

/// Where an opcode encodes an instruction and every address, register number
/// and coordinate it uses is comfortably in range, it has no fault: a return
/// with a subroutine running; a sprite of `n` rows in memory at a column up
/// to 120 and lines up to 127; `FX1E` without overflow of `I`; `FX33`,
/// `FX55`, `FX65` within memory.
pub proof fn law_success_owed(s: MachineView, o: u16)
    requires
        view_wf(s),
        s.pc + 4 <= usize::MAX,
        !(spec_decode(o) is Unknown),
        spec_decode(o) is Return ==> s.stack.len() > 0,
        spec_decode(o) matches Instr::Draw { x, y, n } ==> s.i + n <= 4096 && s.v[x as int] <= 120
            && s.v[y as int] + n <= 128,
        spec_decode(o) matches Instr::AddIndex { x } ==> s.i + s.v[x as int] <= u16::MAX,
        spec_decode(o) is StoreBcd ==> s.i + 2 < 4096,
        spec_decode(o) matches Instr::StoreRegs { x } ==> s.i + x < 4096,
        spec_decode(o) matches Instr::LoadRegs { x } ==> s.i + x < 4096,
    ensures
        spec_fault(s, o) is None,
{
}

} // verus!
