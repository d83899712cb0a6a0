use vstd::prelude::*;

use crate::opcode::{decode, decode_spec, is_arith_op, operands_in_range, Instruction};

verus! {

/// Size of the address space in bytes.
pub const MEMORY_SIZE: usize = 4096;

/// Address at which programs are loaded and execution starts.
pub const PROGRAM_START: usize = 0x200;

/// Display width in cells.
pub const DISPLAY_WIDTH: usize = 64;

/// Display height in cells.
pub const DISPLAY_HEIGHT: usize = 32;

/// Number of display cells.
pub const DISPLAY_CELLS: usize = 2048;

/// Number of return-address slots.
pub const STACK_SLOTS: usize = 16;

/// Number of keys on the pad.
pub const KEY_COUNT: usize = 16;

/// Index of the flag register VF.
pub const FLAG: usize = 15;

/// Colour written to a host buffer for a lit cell.
pub const LIT_COLOUR: u32 = 0x0FFF;

/// A fatal condition met while executing; the machine is left as it was
/// before the failing operation.
#[derive(Clone, Copy, Debug, PartialEq, Eq, Structural)]
pub enum Chip8Error {
    /// The fetched bit pattern encodes no instruction.
    InvalidOpcode { opcode: u16, pc: u16 },
    /// An access reached past the end of memory; `address` is the first
    /// address out of range.
    MemoryFault { address: u32 },
    /// A call with every stack slot in use.
    StackOverflow,
    /// A return with an empty stack.
    StackUnderflow,
    /// A program that does not fit between the load address and the end of memory.
    ProgramTooLarge,
}

/// The mathematical state of a machine.
pub struct MachineState {
    pub memory: Seq<u8>,
    /// The registers V0..VF.
    pub v: Seq<u8>,
    /// The index register I.
    pub i: u16,
    pub pc: u16,
    pub stack: Seq<u16>,
    pub sp: u16,
    pub delay: u8,
    pub sound: u8,
    /// Display cells, row by row, each 0 or 1.
    pub gfx: Seq<u8>,
    pub keys: Seq<bool>,
    /// Whether the display changed since it was last flushed.
    pub dirty: bool,
    /// Elapsed time not yet turned into timer ticks, in sixtieths of a nanosecond.
    pub residue: u64,
}

/// Sixtieths of a nanosecond in one tick of the timers (a sixtieth of a second).
pub const TICK_LENGTH: u64 = 1_000_000_000;

/// The built-in glyphs for the hexadecimal digits, five rows each.
pub open spec fn glyphs() -> Seq<u8> {
    seq![
        0xF0u8, 0x90, 0x90, 0x90, 0xF0, 0x20, 0x60, 0x20, 0x20, 0x70,
        0xF0, 0x10, 0xF0, 0x80, 0xF0, 0xF0, 0x10, 0xF0, 0x10, 0xF0,
        0x90, 0x90, 0xF0, 0x10, 0x10, 0xF0, 0x80, 0xF0, 0x10, 0xF0,
        0xF0, 0x80, 0xF0, 0x90, 0xF0, 0xF0, 0x10, 0x20, 0x40, 0x40,
        0xF0, 0x90, 0xF0, 0x90, 0xF0, 0xF0, 0x90, 0xF0, 0x10, 0xF0,
        0xF0, 0x90, 0xF0, 0x90, 0x90, 0xE0, 0x90, 0xE0, 0x90, 0xE0,
        0xF0, 0x80, 0x80, 0x80, 0xF0, 0xE0, 0x90, 0x90, 0x90, 0xE0,
        0xF0, 0x80, 0xF0, 0x80, 0xF0, 0xF0, 0x80, 0xF0, 0x80, 0x80,
    ]
}

impl MachineState {
    pub open spec fn wf(self) -> bool {
        &&& self.memory.len() == MEMORY_SIZE
        &&& self.v.len() == 16
        &&& self.stack.len() == STACK_SLOTS
        &&& self.sp < STACK_SLOTS
        &&& self.gfx.len() == DISPLAY_CELLS
        &&& forall|c: int| 0 <= c < DISPLAY_CELLS ==> #[trigger] self.gfx[c] <= 1
        &&& self.keys.len() == KEY_COUNT
        &&& self.residue < TICK_LENGTH
    }

    /// The state right after construction.
    pub open spec fn initial() -> MachineState {
        MachineState {
            memory: Seq::new(MEMORY_SIZE as nat, |a: int| if a < 80 { glyphs()[a] } else { 0u8 }),
            v: Seq::new(16, |r: int| 0u8),
            i: 0,
            pc: PROGRAM_START as u16,
            stack: Seq::new(STACK_SLOTS as nat, |k: int| 0u16),
            sp: 0,
            delay: 0,
            sound: 0,
            gfx: Seq::new(DISPLAY_CELLS as nat, |c: int| 0u8),
            keys: Seq::new(KEY_COUNT as nat, |k: int| false),
            dirty: false,
            residue: 0,
        }
    }

    /// Moves the program counter `k` bytes on, wrapping at 16 bits.
    pub open spec fn advance(self, k: int) -> MachineState {
        MachineState { pc: ((self.pc + k) % 0x10000) as u16, ..self }
    }

    /// The next instruction, or the one after it where `cond` holds.
    pub open spec fn skip_if(self, cond: bool) -> MachineState {
        self.advance(if cond { 4 } else { 2 })
    }

    pub open spec fn set_v(self, x: int, val: u8) -> MachineState {
        MachineState { v: self.v.update(x, val), ..self }
    }

    pub open spec fn key_pressed(self, k: u8) -> bool {
        k < KEY_COUNT && self.keys[k as int]
    }
}

/// The result of a register-to-register operation `8xyk`: VX is written
/// first, then VF where the operation sets a flag, so the flag wins when X is F.
pub open spec fn arith_spec(s: MachineState, k: u16, x: int, y: int) -> MachineState {
    let vx = s.v[x];
    let vy = s.v[y];
    let after = if k == 0 {
        s.set_v(x, vy)
    } else if k == 1 {
        s.set_v(x, vx | vy)
    } else if k == 2 {
        s.set_v(x, vx & vy)
    } else if k == 3 {
        s.set_v(x, vx ^ vy)
    } else if k == 4 {
        s.set_v(x, ((vx + vy) % 256) as u8).set_v(FLAG as int, if vx + vy > 255 { 1 } else { 0 })
    } else if k == 5 {
        s.set_v(x, ((vx - vy + 256) % 256) as u8).set_v(FLAG as int, if vx >= vy { 1 } else { 0 })
    } else if k == 6 {
        s.set_v(x, vx / 2).set_v(FLAG as int, vx % 2)
    } else if k == 7 {
        s.set_v(x, ((vy - vx + 256) % 256) as u8).set_v(FLAG as int, if vy >= vx { 1 } else { 0 })
    } else {
        s.set_v(x, ((vx * 2) % 256) as u8).set_v(FLAG as int, vx / 128)
    };
    after.advance(2)
}

/// The fault raised by an access to the `len` bytes starting at `start`, if
/// any of them lies past the end of memory.
pub open spec fn span_fault(start: u16, len: int) -> Option<Chip8Error> {
    if len > 0 && start + len > MEMORY_SIZE {
        Some(Chip8Error::MemoryFault {
            address: if start >= MEMORY_SIZE { start as u32 } else { MEMORY_SIZE as u32 },
        })
    } else {
        None
    }
}

/// Whether sprite row `byte` lights column `col` (the most significant bit is column 0).
pub open spec fn pixel_set(byte: u8, col: int) -> bool {
    byte & (0x80u8 >> (col as u8)) != 0
}

/// Column of the sprite that lands on display cell `cell` when drawn at x = `px`.
pub open spec fn sprite_col(px: u8, cell: int) -> int {
    (cell % 64 + 64 - px % 64) % 64
}

/// Row of the sprite that lands on display cell `cell` when drawn at y = `py`.
pub open spec fn sprite_row(py: u8, cell: int) -> int {
    (cell / 64 + 32 - py % 32) % 32
}

/// Whether drawing the `n`-row sprite at memory[`i`..] at (`px`, `py`)
/// toggles display cell `cell`; coordinates wrap on each axis on its own.
pub open spec fn draw_hits(memory: Seq<u8>, i: u16, px: u8, py: u8, n: u16, cell: int) -> bool {
    let col = sprite_col(px, cell);
    let row = sprite_row(py, cell);
    col < 8 && row < n && pixel_set(memory[i + row], col)
}

/// The display after drawing: every cell that the sprite hits is flipped.
pub open spec fn drawn(gfx: Seq<u8>, memory: Seq<u8>, i: u16, px: u8, py: u8, n: u16) -> Seq<u8> {
    Seq::new(
        gfx.len(),
        |c: int| if draw_hits(memory, i, px, py, n, c) { (1 - gfx[c]) as u8 } else { gfx[c] },
    )
}

/// Whether drawing clears a lit cell.
pub open spec fn collides(gfx: Seq<u8>, memory: Seq<u8>, i: u16, px: u8, py: u8, n: u16) -> bool {
    exists|c: int| 0 <= c < gfx.len() && #[trigger] draw_hits(memory, i, px, py, n, c) && gfx[c] == 1
}

/// The effect of `Dxyn`: a sprite drawn at (VX, VY), VF set to whether it collided.
pub open spec fn draw_spec(s: MachineState, x: int, y: int, n: u16) -> MachineState {
    let px = s.v[x];
    let py = s.v[y];
    MachineState {
        gfx: drawn(s.gfx, s.memory, s.i, px, py, n),
        dirty: true,
        ..s
    }.set_v(FLAG as int, if collides(s.gfx, s.memory, s.i, px, py, n) { 1 } else { 0 }).advance(2)
}

/// Memory after storing V0..=VX from address I on.
pub open spec fn stored_regs(s: MachineState, x: int) -> Seq<u8> {
    Seq::new(
        s.memory.len(),
        |a: int| if s.i <= a <= s.i + x { s.v[a - s.i] } else { s.memory[a] },
    )
}

/// Registers after loading V0..=VX from address I on.
pub open spec fn loaded_regs(s: MachineState, x: int) -> Seq<u8> {
    Seq::new(s.v.len(), |r: int| if r <= x { s.memory[s.i + r] } else { s.v[r] })
}

/// The decimal digits of VX written to memory at I, I+1 and I+2.
pub open spec fn bcd_spec(s: MachineState, x: int) -> MachineState {
    let vx = s.v[x];
    MachineState {
        memory: s.memory.update(s.i as int, vx / 100).update(s.i + 1, (vx / 10) % 10).update(
            s.i + 2,
            vx % 10,
        ),
        ..s
    }.advance(2)
}

/// What executing `ins` does to `s`, where `rnd` is the random byte that
/// `Cxnn` draws; an error leaves the state as it was.
pub open spec fn exec_spec(s: MachineState, ins: Instruction, rnd: u8) -> Result<MachineState, Chip8Error> {
    match ins {
        Instruction::ClearScreen => Ok(
            MachineState { gfx: Seq::new(DISPLAY_CELLS as nat, |c: int| 0u8), dirty: true, ..s }.advance(2),
        ),
        Instruction::Return => if s.sp == 0 {
            Err(Chip8Error::StackUnderflow)
        } else {
            Ok(MachineState { pc: s.stack[s.sp as int], sp: (s.sp - 1) as u16, ..s }.advance(2))
        },
        Instruction::Jump { nnn } => Ok(MachineState { pc: nnn, ..s }),
        Instruction::Call { nnn } => if s.sp + 1 >= STACK_SLOTS {
            Err(Chip8Error::StackOverflow)
        } else {
            Ok(
                MachineState {
                    sp: (s.sp + 1) as u16,
                    stack: s.stack.update(s.sp + 1, s.pc),
                    pc: nnn,
                    ..s
                },
            )
        },
        Instruction::SkipEqImm { x, nn } => Ok(s.skip_if(s.v[x as int] == nn)),
        Instruction::SkipNeImm { x, nn } => Ok(s.skip_if(s.v[x as int] != nn)),
        Instruction::SkipEqReg { x, y } => Ok(s.skip_if(s.v[x as int] == s.v[y as int])),
        Instruction::LoadImm { x, nn } => Ok(s.set_v(x as int, nn).advance(2)),
        Instruction::AddImm { x, nn } => Ok(
            s.set_v(x as int, ((s.v[x as int] + nn) % 256) as u8).advance(2),
        ),
        Instruction::Arith { op, x, y } => Ok(arith_spec(s, op, x as int, y as int)),
        Instruction::SkipNeReg { x, y } => Ok(s.skip_if(s.v[x as int] != s.v[y as int])),
        Instruction::SetIndex { nnn } => Ok(MachineState { i: nnn, ..s }.advance(2)),
        Instruction::JumpOffset { nnn } => Ok(MachineState { pc: (nnn + s.v[0]) as u16, ..s }),
        Instruction::Random { x, nn } => Ok(s.set_v(x as int, rnd & nn).advance(2)),
        Instruction::Draw { x, y, n } => match span_fault(s.i, n as int) {
            Some(e) => Err(e),
            None => Ok(draw_spec(s, x as int, y as int, n)),
        },
        Instruction::SkipKey { x } => Ok(s.skip_if(s.key_pressed(s.v[x as int]))),
        Instruction::SkipNoKey { x } => Ok(s.skip_if(!s.key_pressed(s.v[x as int]))),
        Instruction::LoadDelay { x } => Ok(s.set_v(x as int, s.delay).advance(2)),
        Instruction::SetDelay { x } => Ok(MachineState { delay: s.v[x as int], ..s }.advance(2)),
        Instruction::SetSound { x } => Ok(MachineState { sound: s.v[x as int], ..s }.advance(2)),
        Instruction::AddIndex { x } => Ok(
            MachineState { i: ((s.i + s.v[x as int]) % 0x10000) as u16, ..s }.advance(2),
        ),
        Instruction::Glyph { x } => Ok(MachineState { i: (s.v[x as int] * 5) as u16, ..s }.advance(2)),
        Instruction::Bcd { x } => match span_fault(s.i, 3) {
            Some(e) => Err(e),
            None => Ok(bcd_spec(s, x as int)),
        },
        Instruction::StoreRegs { x } => match span_fault(s.i, x + 1) {
            Some(e) => Err(e),
            None => Ok(MachineState { memory: stored_regs(s, x as int), ..s }.advance(2)),
        },
        Instruction::LoadRegs { x } => match span_fault(s.i, x + 1) {
            Some(e) => Err(e),
            None => Ok(MachineState { v: loaded_regs(s, x as int), ..s }.advance(2)),
        },
    }
}

/// Timer ticks that fall due when `elapsed` nanoseconds pass with `residue` carried over.
pub open spec fn ticks_due(residue: u64, elapsed: u64) -> int {
    (residue + elapsed * 60) / TICK_LENGTH as int
}

/// The display cell that sprite pixel (`row`, `col`) lands on when drawn at (`px`, `py`).
pub open spec fn cell_of(px: u8, py: u8, row: int, col: int) -> int {
    (px + col) % 64 + ((py + row) % 32) * 64
}

proof fn lemma_cell_of(px: u8, py: u8, row: int, col: int)
    requires
        0 <= row < 32,
        0 <= col < 64,
    ensures
        0 <= cell_of(px, py, row, col) < DISPLAY_CELLS,
        sprite_col(px, cell_of(px, py, row, col)) == col,
        sprite_row(py, cell_of(px, py, row, col)) == row,
{
    let c = cell_of(px, py, row, col);
    let a = (px + col) % 64;
    let b = (py + row) % 32;
    assert(c % 64 == a && c / 64 == b) by {
        vstd::arithmetic::div_mod::lemma_fundamental_div_mod_converse(c, 64, b, a);
    }
}

proof fn lemma_cell_back(px: u8, py: u8, c: int)
    requires
        0 <= c < DISPLAY_CELLS,
    ensures
        c == cell_of(px, py, sprite_row(py, c), sprite_col(px, c)),
        0 <= sprite_row(py, c) < 32,
        0 <= sprite_col(px, c) < 64,
{
    let col = sprite_col(px, c);
    let row = sprite_row(py, c);
    assert((px + col) % 64 == c % 64);
    assert((py + row) % 32 == c / 64);
    vstd::arithmetic::div_mod::lemma_fundamental_div_mod(c, 64);
}

/// Whether a draw that has gone through its first `k` pixels (row by row) has hit `cell`.
spec fn hit_before(memory: Seq<u8>, i: u16, px: u8, py: u8, n: u16, cell: int, k: int) -> bool {
    draw_hits(memory, i, px, py, n, cell) && sprite_row(py, cell) * 8 + sprite_col(px, cell) < k
}

proof fn lemma_draw_step(memory: Seq<u8>, i: u16, px: u8, py: u8, n: u16, k: int)
    requires
        0 <= k < n * 8,
        n < 16,
        i + n <= memory.len(),
    ensures
        0 <= cell_of(px, py, k / 8, k % 8) < DISPLAY_CELLS,
        !hit_before(memory, i, px, py, n, cell_of(px, py, k / 8, k % 8), k),
        forall|c: int| 0 <= c < DISPLAY_CELLS ==> #[trigger] hit_before(memory, i, px, py, n, c, k + 1) == (
        hit_before(memory, i, px, py, n, c, k) || (c == cell_of(px, py, k / 8, k % 8) && pixel_set(
            memory[i + k / 8],
            k % 8,
        ))),
{
    let row = k / 8;
    let col = k % 8;
    let idx = cell_of(px, py, row, col);
    lemma_cell_of(px, py, row, col);
    assert forall|c: int| 0 <= c < DISPLAY_CELLS implies #[trigger] hit_before(memory, i, px, py, n, c, k + 1) == (
    hit_before(memory, i, px, py, n, c, k) || (c == idx && pixel_set(memory[i + row], col))) by {
        lemma_cell_back(px, py, c);
        if sprite_row(py, c) * 8 + sprite_col(px, c) == k && sprite_col(px, c) < 8 {
            assert(sprite_row(py, c) == row && sprite_col(px, c) == col);
        }
    }
}

/// A countdown timer after `ticks` ticks: one less per tick, never below zero.
pub open spec fn count_down(t: u8, ticks: int) -> u8 {
    if ticks >= t { 0 } else { (t - ticks) as u8 }
}

/// The timers after `elapsed` nanoseconds, and whether the sound timer
/// reached zero from one in that time.
pub open spec fn tick_spec(s: MachineState, elapsed: u64) -> (MachineState, bool) {
    let ticks = ticks_due(s.residue, elapsed);
    (
        MachineState {
            delay: count_down(s.delay, ticks),
            sound: count_down(s.sound, ticks),
            residue: ((s.residue + elapsed * 60) % TICK_LENGTH as int) as u64,
            ..s
        },
        s.sound > 0 && ticks >= s.sound,
    )
}

/// Whether a cycle from `s` that returned `r` and left `t` behind is the one
/// that `step_spec` describes: the new state and beep on success, the old
/// state and the error otherwise.
pub open spec fn stepped(s: MachineState, elapsed: u64, rnd: u8, r: Result<bool, Chip8Error>, t: MachineState) -> bool {
    match step_spec(s, elapsed, rnd) {
        Ok((next, beep)) => r == Ok::<bool, Chip8Error>(beep) && t == next,
        Err(e) => r == Err::<bool, Chip8Error>(e) && t == s,
    }
}

/// The state after `bytes` are copied into memory from the load address on.
pub open spec fn loaded(s: MachineState, bytes: Seq<u8>) -> MachineState {
    MachineState { memory: s.memory.update_subrange_with(PROGRAM_START as int, bytes), ..s }
}

/// Whether logical key `k` appears in `pressed`.
pub open spec fn listed(pressed: Seq<u8>, k: int) -> bool {
    exists|j: int| 0 <= j < pressed.len() && pressed[j] == k
}

/// What a host buffer shows of a display: one colour per cell, for as many
/// cells as the buffer holds.
pub open spec fn rendered(gfx: Seq<u8>, len: nat) -> Seq<u32> {
    Seq::new(len, |c: int| if gfx[c] == 0 { 0u32 } else { LIT_COLOUR })
}

/// The opcode at `pc`, most significant byte first.
pub open spec fn opcode_at(memory: Seq<u8>, pc: u16) -> u16 {
    (memory[pc as int] * 256 + memory[pc + 1]) as u16
}

/// One full cycle: fetch, decode, execute, then let `elapsed` nanoseconds
/// pass on the timers. On success, the new state and whether a beep is due.
pub open spec fn step_spec(s: MachineState, elapsed: u64, rnd: u8) -> Result<(MachineState, bool), Chip8Error> {
    if s.pc + 1 >= MEMORY_SIZE {
        Err(
            Chip8Error::MemoryFault {
                address: if s.pc >= MEMORY_SIZE { s.pc as u32 } else { (s.pc + 1) as u32 },
            },
        )
    } else {
        let op = opcode_at(s.memory, s.pc);
        match decode_spec(op) {
            None => Err(Chip8Error::InvalidOpcode { opcode: op, pc: s.pc }),
            Some(ins) => match exec_spec(s, ins, rnd) {
                Err(e) => Err(e),
                Ok(t) => Ok(tick_spec(t, elapsed)),
            },
        }
    }
}

/// Relies on rand's `thread_rng` and `Rng::gen::<u8>`: some byte, with
/// nothing promised about which.
#[verifier::external_body]
fn random_byte() -> (r: u8) {
    rand::Rng::gen::<u8>(&mut rand::thread_rng())
}

/// The memory fault of an access to the `len` bytes from `start` on, if any.
fn check_span(start: u16, len: usize) -> (r: Option<Chip8Error>)
    requires
        len <= 16,
    ensures
        r == span_fault(start, len as int),
{
    if len > 0 && start as usize + len > MEMORY_SIZE {
        Some(Chip8Error::MemoryFault {
            address: if start as usize >= MEMORY_SIZE { start as u32 } else { MEMORY_SIZE as u32 },
        })
    } else {
        None
    }
}

/// A running machine. Its fields are reachable only through its methods;
/// contracts speak of its view, a `MachineState`.
pub struct Chip8 {
    memory: Vec<u8>,
    cpu_registers: Vec<u8>,
    index_register: u16,
    program_counter: u16,
    gfx: Vec<u8>,
    delay_timer: u8,
    sound_timer: u8,
    stack: Vec<u16>,
    stack_pointer: u16,
    keys: Vec<bool>,
    draw_flag: bool,
    tick_residue: u64,
}

impl View for Chip8 {
    type V = MachineState;

    closed spec fn view(&self) -> MachineState {
        MachineState {
            memory: self.memory@,
            v: self.cpu_registers@,
            i: self.index_register,
            pc: self.program_counter,
            stack: self.stack@,
            sp: self.stack_pointer,
            delay: self.delay_timer,
            sound: self.sound_timer,
            gfx: self.gfx@,
            keys: self.keys@,
            dirty: self.draw_flag,
            residue: self.tick_residue,
        }
    }
}

fn glyph_table() -> (r: Vec<u8>)
    ensures
        r@ == glyphs(),
{
    let r: Vec<u8> = vec![
        0xF0u8, 0x90, 0x90, 0x90, 0xF0, 0x20, 0x60, 0x20, 0x20, 0x70,
        0xF0, 0x10, 0xF0, 0x80, 0xF0, 0xF0, 0x10, 0xF0, 0x10, 0xF0,
        0x90, 0x90, 0xF0, 0x10, 0x10, 0xF0, 0x80, 0xF0, 0x10, 0xF0,
        0xF0, 0x80, 0xF0, 0x90, 0xF0, 0xF0, 0x10, 0x20, 0x40, 0x40,
        0xF0, 0x90, 0xF0, 0x90, 0xF0, 0xF0, 0x90, 0xF0, 0x10, 0xF0,
        0xF0, 0x90, 0xF0, 0x90, 0x90, 0xE0, 0x90, 0xE0, 0x90, 0xE0,
        0xF0, 0x80, 0x80, 0x80, 0xF0, 0xE0, 0x90, 0x90, 0x90, 0xE0,
        0xF0, 0x80, 0xF0, 0x80, 0xF0, 0xF0, 0x80, 0xF0, 0x80, 0x80,
    ];
    assert(r@ =~= glyphs());
    r
}

impl Chip8 {
    pub open spec fn wf(&self) -> bool {
        self@.wf()
    }

    /// A machine with memory cleared, the glyphs installed at address 0 and
    /// the program counter at the load address.
    pub fn new() -> (r: Chip8)
        ensures
            r.wf(),
            r@ == MachineState::initial(),
    {
        let mut memory: Vec<u8> = vec![0u8; MEMORY_SIZE];
        let font = glyph_table();
        let mut a: usize = 0;
        while a < font.len()
            invariant
                font@ == glyphs(),
                a <= font.len(),
                memory@.len() == MEMORY_SIZE,
                forall|j: int| 0 <= j < MEMORY_SIZE ==> #[trigger] memory@[j] == if j < a { glyphs()[j] } else { 0u8 },
            decreases font.len() - a,
        {
            memory.set(a, font[a]);
            a += 1;
        }
        let r = Chip8 {
            memory,
            cpu_registers: vec![0u8; 16],
            index_register: 0,
            program_counter: PROGRAM_START as u16,
            gfx: vec![0u8; DISPLAY_CELLS],
            delay_timer: 0,
            sound_timer: 0,
            stack: vec![0u16; STACK_SLOTS],
            stack_pointer: 0,
            keys: vec![false; KEY_COUNT],
            draw_flag: false,
            tick_residue: 0,
        };
        assert(r@.memory =~= MachineState::initial().memory);
        assert(r@.v =~= MachineState::initial().v);
        assert(r@.stack =~= MachineState::initial().stack);
        assert(r@.gfx =~= MachineState::initial().gfx);
        assert(r@.keys =~= MachineState::initial().keys);
        r
    }

    /// Copies `program_buffer` into memory from the load address on.
    pub fn load_program(&mut self, program_buffer: &Vec<u8>) -> (r: Result<(), Chip8Error>)
        requires
            old(self).wf(),
        ensures
            final(self).wf(),
            program_buffer@.len() + PROGRAM_START > MEMORY_SIZE ==> r == Err::<(), Chip8Error>(
                Chip8Error::ProgramTooLarge,
            ) && final(self)@ == old(self)@,
            program_buffer@.len() + PROGRAM_START <= MEMORY_SIZE ==> r is Ok && final(self)@ == loaded(
                old(self)@,
                program_buffer@,
            ),
    {
        if program_buffer.len() > MEMORY_SIZE - PROGRAM_START {
            return Err(Chip8Error::ProgramTooLarge);
        }
        let ghost before = self@;
        let mut k: usize = 0;
        while k < program_buffer.len()
            invariant
                k <= program_buffer@.len(),
                program_buffer@.len() + PROGRAM_START <= MEMORY_SIZE,
                self@ == (MachineState { memory: self@.memory, ..before }),
                self@.memory.len() == MEMORY_SIZE,
                forall|j: int| 0 <= j < MEMORY_SIZE ==> #[trigger] self@.memory[j] == if PROGRAM_START <= j < PROGRAM_START + k {
                    program_buffer@[j - PROGRAM_START]
                } else {
                    before.memory[j]
                },
            decreases program_buffer.len() - k,
        {
            self.memory.set(PROGRAM_START + k, program_buffer[k]);
            k += 1;
        }
        assert(self@.memory =~= before.memory.update_subrange_with(PROGRAM_START as int, program_buffer@));
        Ok(())
    }

    fn advance(&mut self, k: u16)
        requires
            k <= 4,
        ensures
            final(self)@ == old(self)@.advance(k as int),
    {
        self.program_counter = self.program_counter.wrapping_add(k);
    }

    /// Sets register VX to `val`.
    pub fn set_register(&mut self, x: usize, val: u8)
        requires
            old(self).wf(),
            x < 16,
        ensures
            final(self).wf(),
            final(self)@ == old(self)@.set_v(x as int, val),
    {
        self.cpu_registers.set(x, val);
    }

    /// `00E0`: clears every display cell.
    pub fn clear_screen(&mut self)
        requires
            old(self).wf(),
        ensures
            final(self).wf(),
            exec_spec(old(self)@, Instruction::ClearScreen, 0) == Ok::<MachineState, Chip8Error>(final(self)@),
    {
        let mut c: usize = 0;
        let ghost before = self@;
        while c < self.gfx.len()
            invariant
                self@ == (MachineState { gfx: self@.gfx, ..before }),
                self@.gfx.len() == DISPLAY_CELLS,
                c <= DISPLAY_CELLS,
                forall|j: int| 0 <= j < DISPLAY_CELLS ==> #[trigger] self@.gfx[j] == if j < c { 0u8 } else { before.gfx[j] },
            decreases DISPLAY_CELLS - c,
        {
            self.gfx.set(c, 0);
            c += 1;
        }
        self.draw_flag = true;
        self.advance(2);
        assert(self@.gfx =~= Seq::new(DISPLAY_CELLS as nat, |c: int| 0u8));
    }

    /// `00EE`: returns to the instruction after the most recent call.
    pub fn return_from_subroutine(&mut self)
        requires
            old(self).wf(),
            old(self)@.sp > 0,
        ensures
            final(self).wf(),
            exec_spec(old(self)@, Instruction::Return, 0) == Ok::<MachineState, Chip8Error>(final(self)@),
    {
        self.program_counter = self.stack[self.stack_pointer as usize];
        self.stack_pointer = self.stack_pointer - 1;
        self.advance(2);
    }

    /// `1nnn`: jumps to `nnn`.
    pub fn process_1_command(&mut self, nnn: u16)
        requires
            old(self).wf(),
        ensures
            final(self).wf(),
            exec_spec(old(self)@, Instruction::Jump { nnn }, 0) == Ok::<MachineState, Chip8Error>(final(self)@),
    {
        self.program_counter = nnn;
    }

    /// `2nnn`: pushes the program counter and jumps to `nnn`.
    pub fn process_2_command(&mut self, nnn: u16)
        requires
            old(self).wf(),
            old(self)@.sp + 1 < STACK_SLOTS,
        ensures
            final(self).wf(),
            exec_spec(old(self)@, Instruction::Call { nnn }, 0) == Ok::<MachineState, Chip8Error>(final(self)@),
    {
        self.stack_pointer = self.stack_pointer + 1;
        self.stack.set(self.stack_pointer as usize, self.program_counter);
        self.program_counter = nnn;
    }

    /// `3xnn`: skips the next instruction where VX equals `nn`.
    pub fn process_3_command(&mut self, v_x: usize, nn: u8)
        requires
            old(self).wf(),
            v_x < 16,
        ensures
            final(self).wf(),
            exec_spec(old(self)@, Instruction::SkipEqImm { x: v_x, nn }, 0) == Ok::<MachineState, Chip8Error>(final(self)@),
    {
        let k: u16 = if self.cpu_registers[v_x] == nn { 4 } else { 2 };
        self.advance(k);
    }

    /// `4xnn`: skips the next instruction where VX differs from `nn`.
    pub fn process_4_command(&mut self, v_x: usize, nn: u8)
        requires
            old(self).wf(),
            v_x < 16,
        ensures
            final(self).wf(),
            exec_spec(old(self)@, Instruction::SkipNeImm { x: v_x, nn }, 0) == Ok::<MachineState, Chip8Error>(final(self)@),
    {
        let k: u16 = if self.cpu_registers[v_x] != nn { 4 } else { 2 };
        self.advance(k);
    }

    /// `5xy0`: skips the next instruction where VX equals VY.
    pub fn process_5_command(&mut self, v_x: usize, v_y: usize)
        requires
            old(self).wf(),
            v_x < 16,
            v_y < 16,
        ensures
            final(self).wf(),
            exec_spec(old(self)@, Instruction::SkipEqReg { x: v_x, y: v_y }, 0) == Ok::<MachineState, Chip8Error>(final(self)@),
    {
        let k: u16 = if self.cpu_registers[v_x] == self.cpu_registers[v_y] { 4 } else { 2 };
        self.advance(k);
    }

    /// `6xnn`: loads `nn` into VX.
    pub fn process_6_command(&mut self, v_x: usize, nn: u8)
        requires
            old(self).wf(),
            v_x < 16,
        ensures
            final(self).wf(),
            exec_spec(old(self)@, Instruction::LoadImm { x: v_x, nn }, 0) == Ok::<MachineState, Chip8Error>(final(self)@),
    {
        self.set_register(v_x, nn);
        self.advance(2);
    }

    /// `7xnn`: adds `nn` to VX, wrapping, with VF untouched.
    pub fn process_7_command(&mut self, v_x: usize, nn: u8)
        requires
            old(self).wf(),
            v_x < 16,
        ensures
            final(self).wf(),
            exec_spec(old(self)@, Instruction::AddImm { x: v_x, nn }, 0) == Ok::<MachineState, Chip8Error>(final(self)@),
    {
        let val = self.cpu_registers[v_x].wrapping_add(nn);
        self.set_register(v_x, val);
        self.advance(2);
    }

    /// `8xyk`: copy, OR, AND, XOR, add with carry, the two subtractions with
    /// no-borrow flag, and the two shifts with the bit shifted out in VF.
    pub fn process_8_command(&mut self, operator: u16, v_x: usize, v_y: usize)
        requires
            old(self).wf(),
            v_x < 16,
            v_y < 16,
            is_arith_op(operator),
        ensures
            final(self).wf(),
            exec_spec(old(self)@, Instruction::Arith { op: operator, x: v_x, y: v_y }, 0) == Ok::<MachineState, Chip8Error>(final(self)@),
    {
        let vx = self.cpu_registers[v_x];
        let vy = self.cpu_registers[v_y];
        if operator == 0 {
            self.set_register(v_x, vy);
        } else if operator == 1 {
            self.set_register(v_x, vx | vy);
        } else if operator == 2 {
            self.set_register(v_x, vx & vy);
        } else if operator == 3 {
            self.set_register(v_x, vx ^ vy);
        } else if operator == 4 {
            self.set_register(v_x, vx.wrapping_add(vy));
            self.set_register(FLAG, if vx as u16 + vy as u16 > 255 { 1 } else { 0 });
        } else if operator == 5 {
            self.set_register(v_x, vx.wrapping_sub(vy));
            self.set_register(FLAG, if vx >= vy { 1 } else { 0 });
        } else if operator == 6 {
            self.set_register(v_x, vx / 2);
            self.set_register(FLAG, vx % 2);
        } else if operator == 7 {
            self.set_register(v_x, vy.wrapping_sub(vx));
            self.set_register(FLAG, if vy >= vx { 1 } else { 0 });
        } else {
            self.set_register(v_x, ((vx as u16 * 2) % 256) as u8);
            self.set_register(FLAG, vx / 128);
        }
        self.advance(2);
    }

    /// `9xy0`: skips the next instruction where VX differs from VY.
    pub fn process_9_command(&mut self, v_x: usize, v_y: usize)
        requires
            old(self).wf(),
            v_x < 16,
            v_y < 16,
        ensures
            final(self).wf(),
            exec_spec(old(self)@, Instruction::SkipNeReg { x: v_x, y: v_y }, 0) == Ok::<MachineState, Chip8Error>(final(self)@),
    {
        let k: u16 = if self.cpu_registers[v_x] != self.cpu_registers[v_y] { 4 } else { 2 };
        self.advance(k);
    }

    /// `Annn`: sets the index register to `nnn`.
    pub fn process_a_command(&mut self, nnn: u16)
        requires
            old(self).wf(),
        ensures
            final(self).wf(),
            exec_spec(old(self)@, Instruction::SetIndex { nnn }, 0) == Ok::<MachineState, Chip8Error>(final(self)@),
    {
        self.index_register = nnn;
        self.advance(2);
    }

    /// `Bnnn`: jumps to `nnn` plus V0.
    pub fn process_b_command(&mut self, nnn: u16)
        requires
            old(self).wf(),
            nnn < 0x1000,
        ensures
            final(self).wf(),
            exec_spec(old(self)@, Instruction::JumpOffset { nnn }, 0) == Ok::<MachineState, Chip8Error>(final(self)@),
    {
        self.program_counter = nnn + self.cpu_registers[0] as u16;
    }

    /// `Ex9E`: skips the next instruction where the key named by VX is down.
    pub fn process_ex9e_command(&mut self, v_x: usize)
        requires
            old(self).wf(),
            v_x < 16,
        ensures
            final(self).wf(),
            exec_spec(old(self)@, Instruction::SkipKey { x: v_x }, 0) == Ok::<MachineState, Chip8Error>(final(self)@),
    {
        let k: u16 = if self.key_down(self.cpu_registers[v_x]) { 4 } else { 2 };
        self.advance(k);
    }

    /// `ExA1`: skips the next instruction where the key named by VX is up.
    pub fn process_exa1_command(&mut self, v_x: usize)
        requires
            old(self).wf(),
            v_x < 16,
        ensures
            final(self).wf(),
            exec_spec(old(self)@, Instruction::SkipNoKey { x: v_x }, 0) == Ok::<MachineState, Chip8Error>(final(self)@),
    {
        let k: u16 = if !self.key_down(self.cpu_registers[v_x]) { 4 } else { 2 };
        self.advance(k);
    }

    /// Whether key `k` is down; a number past the pad names no key.
    fn key_down(&self, k: u8) -> (r: bool)
        requires
            self.wf(),
        ensures
            r == self@.key_pressed(k),
    {
        (k as usize) < KEY_COUNT && self.keys[k as usize]
    }

    /// `Dxyn` where memory holds the whole sprite: XORs the sprite onto the
    /// display at (VX, VY) and sets VF to whether a lit cell was cleared.
    pub fn draw_sprite(&mut self, v_x: usize, v_y: usize, n: u16)
        requires
            old(self).wf(),
            v_x < 16,
            v_y < 16,
            n < 16,
            n == 0 || old(self)@.i + n <= MEMORY_SIZE,
        ensures
            final(self).wf(),
            exec_spec(old(self)@, Instruction::Draw { x: v_x, y: v_y, n }, 0) == Ok::<MachineState, Chip8Error>(final(self)@),
    {
        let ghost s0 = self@;
        let px = self.cpu_registers[v_x];
        let py = self.cpu_registers[v_y];
        let i = self.index_register;
        let mut collided = false;
        let total: usize = n as usize * 8;
        let mut k: usize = 0;
        while k < total
            invariant
                s0.wf(),
                v_x < 16,
                v_y < 16,
                px == s0.v[v_x as int],
                py == s0.v[v_y as int],
                i == s0.i,
                n < 16,
                n == 0 || s0.i + n <= MEMORY_SIZE,
                total == n * 8,
                k <= total,
                self@ == (MachineState { gfx: self@.gfx, ..s0 }),
                self@.gfx.len() == DISPLAY_CELLS,
                forall|c: int| 0 <= c < DISPLAY_CELLS ==> #[trigger] self@.gfx[c] == if hit_before(s0.memory, i, px, py, n, c, k as int) {
                    (1 - s0.gfx[c]) as u8
                } else {
                    s0.gfx[c]
                },
                collided == exists|c: int| 0 <= c < DISPLAY_CELLS && #[trigger] hit_before(s0.memory, i, px, py, n, c, k as int) && s0.gfx[c] == 1,
            decreases total - k,
        {
            let row: usize = k / 8;
            let col: usize = k % 8;
            let byte = self.memory[i as usize + row];
            let lit = byte & (0x80u8 >> (col as u8)) != 0;
            let ghost was_collided = collided;
            let idx: usize = (px as usize + col) % 64 + ((py as usize + row) % 32) * 64;
            proof {
                lemma_draw_step(s0.memory, i, px, py, n, k as int);
            }
            if lit {
                let cur = self.gfx[idx];
                if cur == 1 {
                    collided = true;
                    assert(hit_before(s0.memory, i, px, py, n, idx as int, k + 1));
                }
                self.gfx.set(idx, 1 - cur);
            }
            proof {
                assert forall|c: int| 0 <= c < DISPLAY_CELLS && #[trigger] hit_before(s0.memory, i, px, py, n, c, k + 1) && s0.gfx[c] == 1 implies collided by {
                    if !hit_before(s0.memory, i, px, py, n, c, k as int) {
                        assert(c == idx && lit);
                    }
                }
                if was_collided {
                    let w = choose|c: int| 0 <= c < DISPLAY_CELLS && #[trigger] hit_before(s0.memory, i, px, py, n, c, k as int) && s0.gfx[c] == 1;
                    assert(hit_before(s0.memory, i, px, py, n, w, k + 1));
                }
            }
            k += 1;
        }
        proof {
            assert forall|c: int| 0 <= c < DISPLAY_CELLS implies #[trigger] hit_before(s0.memory, i, px, py, n, c, total as int) == draw_hits(s0.memory, i, px, py, n, c) by {
                lemma_cell_back(px, py, c);
            }
            assert(self@.gfx =~= drawn(s0.gfx, s0.memory, i, px, py, n));
            if collided {
                let w = choose|c: int| 0 <= c < DISPLAY_CELLS && #[trigger] hit_before(s0.memory, i, px, py, n, c, total as int) && s0.gfx[c] == 1;
                assert(draw_hits(s0.memory, i, px, py, n, w));
            }
            if collides(s0.gfx, s0.memory, i, px, py, n) {
                let w = choose|c: int| 0 <= c < s0.gfx.len() && #[trigger] draw_hits(s0.memory, i, px, py, n, c) && s0.gfx[c] == 1;
                assert(hit_before(s0.memory, i, px, py, n, w, total as int));
            }
        }
        self.draw_flag = true;
        self.set_register(FLAG, if collided { 1 } else { 0 });
        self.advance(2);
    }

    /// `Cxnn`: sets VX to a random byte ANDed with `nn`.
    pub fn process_c_command(&mut self, v_x: usize, nn: u8)
        requires
            old(self).wf(),
            v_x < 16,
        ensures
            final(self).wf(),
            exists|rnd: u8| exec_spec(old(self)@, Instruction::Random { x: v_x, nn }, rnd) == Ok::<MachineState, Chip8Error>(final(self)@),
    {
        let rnd = random_byte();
        self.set_register(v_x, rnd & nn);
        self.advance(2);
        assert(exec_spec(old(self)@, Instruction::Random { x: v_x, nn }, rnd) == Ok::<MachineState, Chip8Error>(self@));
    }

    /// `Fx33`: writes the hundreds, tens and ones digits of VX at I, I+1 and I+2.
    pub fn store_bcd(&mut self, v_x: usize)
        requires
            old(self).wf(),
            v_x < 16,
            old(self)@.i + 3 <= MEMORY_SIZE,
        ensures
            final(self).wf(),
            exec_spec(old(self)@, Instruction::Bcd { x: v_x }, 0) == Ok::<MachineState, Chip8Error>(final(self)@),
    {
        let vx = self.cpu_registers[v_x];
        let i = self.index_register as usize;
        self.memory.set(i, vx / 100);
        self.memory.set(i + 1, (vx / 10) % 10);
        self.memory.set(i + 2, vx % 10);
        self.advance(2);
    }

    /// `Fx55`: stores V0..=VX in memory from I on.
    pub fn store_registers(&mut self, v_x: usize)
        requires
            old(self).wf(),
            v_x < 16,
            old(self)@.i + v_x + 1 <= MEMORY_SIZE,
        ensures
            final(self).wf(),
            exec_spec(old(self)@, Instruction::StoreRegs { x: v_x }, 0) == Ok::<MachineState, Chip8Error>(final(self)@),
    {
        let ghost s0 = self@;
        let i = self.index_register as usize;
        let mut r: usize = 0;
        while r <= v_x
            invariant
                s0.wf(),
                v_x < 16,
                i == s0.i,
                i + v_x + 1 <= MEMORY_SIZE,
                r <= v_x + 1,
                self@ == (MachineState { memory: self@.memory, ..s0 }),
                self@.memory.len() == MEMORY_SIZE,
                forall|a: int| 0 <= a < MEMORY_SIZE ==> #[trigger] self@.memory[a] == if i <= a < i + r {
                    s0.v[a - i]
                } else {
                    s0.memory[a]
                },
            decreases v_x + 1 - r,
        {
            let val = self.cpu_registers[r];
            self.memory.set(i + r, val);
            r += 1;
        }
        assert(self@.memory =~= stored_regs(s0, v_x as int));
        self.advance(2);
    }

    /// `Fx65`: loads V0..=VX from memory from I on.
    pub fn load_registers(&mut self, v_x: usize)
        requires
            old(self).wf(),
            v_x < 16,
            old(self)@.i + v_x + 1 <= MEMORY_SIZE,
        ensures
            final(self).wf(),
            exec_spec(old(self)@, Instruction::LoadRegs { x: v_x }, 0) == Ok::<MachineState, Chip8Error>(final(self)@),
    {
        let ghost s0 = self@;
        let i = self.index_register as usize;
        let mut r: usize = 0;
        while r <= v_x
            invariant
                s0.wf(),
                v_x < 16,
                i == s0.i,
                i + v_x + 1 <= MEMORY_SIZE,
                r <= v_x + 1,
                self@ == (MachineState { v: self@.v, ..s0 }),
                self@.v.len() == 16,
                forall|j: int| 0 <= j < 16 ==> #[trigger] self@.v[j] == if j < r {
                    s0.memory[i + j]
                } else {
                    s0.v[j]
                },
            decreases v_x + 1 - r,
        {
            let val = self.memory[i + r];
            self.cpu_registers.set(r, val);
            r += 1;
        }
        assert(self@.v =~= loaded_regs(s0, v_x as int));
        self.advance(2);
    }

    /// Executes one decoded instruction, with `rnd` as the byte that `Cxnn`
    /// draws. On an error nothing changes.
    pub fn execute(&mut self, ins: Instruction, rnd: u8) -> (r: Result<(), Chip8Error>)
        requires
            old(self).wf(),
            operands_in_range(ins),
        ensures
            final(self).wf(),
            match exec_spec(old(self)@, ins, rnd) {
                Ok(t) => r is Ok && final(self)@ == t,
                Err(e) => r == Err::<(), Chip8Error>(e) && final(self)@ == old(self)@,
            },
    {
        match ins {
            Instruction::ClearScreen => self.clear_screen(),
            Instruction::Return => {
                if self.stack_pointer == 0 {
                    return Err(Chip8Error::StackUnderflow);
                }
                self.return_from_subroutine();
            },
            Instruction::Jump { nnn } => self.process_1_command(nnn),
            Instruction::Call { nnn } => {
                if self.stack_pointer as usize + 1 >= STACK_SLOTS {
                    return Err(Chip8Error::StackOverflow);
                }
                self.process_2_command(nnn);
            },
            Instruction::SkipEqImm { x, nn } => self.process_3_command(x, nn),
            Instruction::SkipNeImm { x, nn } => self.process_4_command(x, nn),
            Instruction::SkipEqReg { x, y } => self.process_5_command(x, y),
            Instruction::LoadImm { x, nn } => self.process_6_command(x, nn),
            Instruction::AddImm { x, nn } => self.process_7_command(x, nn),
            Instruction::Arith { op, x, y } => self.process_8_command(op, x, y),
            Instruction::SkipNeReg { x, y } => self.process_9_command(x, y),
            Instruction::SetIndex { nnn } => self.process_a_command(nnn),
            Instruction::JumpOffset { nnn } => self.process_b_command(nnn),
            Instruction::Random { x, nn } => {
                self.set_register(x, rnd & nn);
                self.advance(2);
            },
            Instruction::Draw { x, y, n } => {
                if let Some(e) = check_span(self.index_register, n as usize) {
                    return Err(e);
                }
                self.draw_sprite(x, y, n);
            },
            Instruction::SkipKey { x } => self.process_ex9e_command(x),
            Instruction::SkipNoKey { x } => self.process_exa1_command(x),
            Instruction::LoadDelay { x } => {
                let t = self.delay_timer;
                self.set_register(x, t);
                self.advance(2);
            },
            Instruction::SetDelay { x } => {
                self.delay_timer = self.cpu_registers[x];
                self.advance(2);
            },
            Instruction::SetSound { x } => {
                self.sound_timer = self.cpu_registers[x];
                self.advance(2);
            },
            Instruction::AddIndex { x } => {
                self.index_register = self.index_register.wrapping_add(self.cpu_registers[x] as u16);
                self.advance(2);
            },
            Instruction::Glyph { x } => {
                self.index_register = self.cpu_registers[x] as u16 * 5;
                self.advance(2);
            },
            Instruction::Bcd { x } => {
                if let Some(e) = check_span(self.index_register, 3) {
                    return Err(e);
                }
                self.store_bcd(x);
            },
            Instruction::StoreRegs { x } => {
                if let Some(e) = check_span(self.index_register, x + 1) {
                    return Err(e);
                }
                self.store_registers(x);
            },
            Instruction::LoadRegs { x } => {
                if let Some(e) = check_span(self.index_register, x + 1) {
                    return Err(e);
                }
                self.load_registers(x);
            },
        }
        Ok(())
    }

    /// Lets `elapsed_nanos` of wall-clock time pass on the two timers: each
    /// loses one per whole sixtieth of a second, carried over between calls,
    /// and stops at zero. Returns whether the sound timer went from one to zero.
    pub fn tick_timers(&mut self, elapsed_nanos: u64) -> (beep: bool)
        requires
            old(self).wf(),
        ensures
            final(self).wf(),
            (final(self)@, beep) == tick_spec(old(self)@, elapsed_nanos),
    {
        let total: u128 = self.tick_residue as u128 + elapsed_nanos as u128 * 60;
        let ticks: u128 = total / TICK_LENGTH as u128;
        self.tick_residue = (total % TICK_LENGTH as u128) as u64;
        let beep = self.sound_timer > 0 && ticks >= self.sound_timer as u128;
        self.delay_timer = if ticks >= self.delay_timer as u128 {
            0
        } else {
            (self.delay_timer as u128 - ticks) as u8
        };
        self.sound_timer = if ticks >= self.sound_timer as u128 {
            0
        } else {
            (self.sound_timer as u128 - ticks) as u8
        };
        beep
    }

    /// One cycle: fetches the opcode at the program counter, decodes and
    /// executes it with `random` as the byte that `Cxnn` draws, then lets
    /// `elapsed_nanos` pass on the timers. Returns whether a beep is due. On
    /// an error nothing changes, the program counter included.
    pub fn step(&mut self, elapsed_nanos: u64, random: u8) -> (r: Result<bool, Chip8Error>)
        requires
            old(self).wf(),
        ensures
            final(self).wf(),
            stepped(old(self)@, elapsed_nanos, random, r, final(self)@),
    {
        let pc = self.program_counter as usize;
        if pc + 1 >= MEMORY_SIZE {
            return Err(
                Chip8Error::MemoryFault {
                    address: if pc >= MEMORY_SIZE { pc as u32 } else { (pc + 1) as u32 },
                },
            );
        }
        let op: u16 = self.memory[pc] as u16 * 256 + self.memory[pc + 1] as u16;
        match decode(op) {
            None => Err(Chip8Error::InvalidOpcode { opcode: op, pc: self.program_counter }),
            Some(ins) => {
                match self.execute(ins, random) {
                    Err(e) => Err(e),
                    Ok(()) => Ok(self.tick_timers(elapsed_nanos)),
                }
            },
        }
    }

    /// One cycle as `step` does it, with the byte for `Cxnn` drawn from the
    /// thread's random number generator.
    pub fn emulate_cycle(&mut self, elapsed_nanos: u64) -> (r: Result<bool, Chip8Error>)
        requires
            old(self).wf(),
        ensures
            final(self).wf(),
            exists|random: u8| #[trigger] stepped(old(self)@, elapsed_nanos, random, r, final(self)@),
    {
        let random = random_byte();
        self.step(elapsed_nanos, random)
    }

    /// Where the display changed since the last call, writes it to `buffer`
    /// (0 for a dark cell, `LIT_COLOUR` for a lit one) and returns true;
    /// otherwise leaves `buffer` alone and returns false. Clears the change flag.
    pub fn draw_to_buffer(&mut self, buffer: &mut Vec<u32>) -> (r: bool)
        requires
            old(self).wf(),
            old(buffer)@.len() <= DISPLAY_CELLS,
        ensures
            final(self).wf(),
            r == old(self)@.dirty,
            final(self)@ == (MachineState { dirty: false, ..old(self)@ }),
            r ==> final(buffer)@ == rendered(old(self)@.gfx, old(buffer)@.len()),
            !r ==> final(buffer)@ == old(buffer)@,
    {
        let should_draw = self.draw_flag;
        if should_draw {
            let ghost len = buffer@.len();
            let mut c: usize = 0;
            while c < buffer.len()
                invariant
                    self.wf(),
                    buffer@.len() == len,
                    len <= DISPLAY_CELLS,
                    c <= len,
                    forall|j: int| 0 <= j < c ==> #[trigger] buffer@[j] == rendered(self@.gfx, len)[j],
                decreases len - c,
            {
                let colour: u32 = if self.gfx[c] == 0 { 0 } else { LIT_COLOUR };
                buffer.set(c, colour);
                c += 1;
            }
            assert(buffer@ =~= rendered(self@.gfx, len));
        }
        self.draw_flag = false;
        should_draw
    }

    /// Returns whether the display changed since the last flush, and clears
    /// the change flag.
    pub fn flush(&mut self) -> (r: bool)
        requires
            old(self).wf(),
        ensures
            final(self).wf(),
            r == old(self)@.dirty,
            final(self)@ == (MachineState { dirty: false, ..old(self)@ }),
    {
        let changed = self.draw_flag;
        self.draw_flag = false;
        changed
    }

    /// Replaces the key state: exactly the logical keys listed in `pressed`
    /// are down; numbers past the pad are ignored.
    pub fn set_keys(&mut self, pressed: &Vec<u8>)
        requires
            old(self).wf(),
        ensures
            final(self).wf(),
            final(self)@ == (MachineState {
                keys: Seq::new(KEY_COUNT as nat, |k: int| listed(pressed@, k)),
                ..old(self)@
            }),
    {
        let ghost s0 = self@;
        let mut k: usize = 0;
        while k < KEY_COUNT
            invariant
                k <= KEY_COUNT,
                self@ == (MachineState { keys: self@.keys, ..s0 }),
                self@.keys.len() == KEY_COUNT,
                forall|j: int| 0 <= j < k ==> !#[trigger] self@.keys[j],
            decreases KEY_COUNT - k,
        {
            self.keys.set(k, false);
            k += 1;
        }
        let mut j: usize = 0;
        while j < pressed.len()
            invariant
                j <= pressed@.len(),
                self@ == (MachineState { keys: self@.keys, ..s0 }),
                self@.keys.len() == KEY_COUNT,
                forall|q: int| 0 <= q < KEY_COUNT ==> #[trigger] self@.keys[q] == listed(pressed@.subrange(0, j as int), q),
            decreases pressed.len() - j,
        {
            let key = pressed[j];
            proof {
                assert forall|q: int| 0 <= q < KEY_COUNT implies #[trigger] listed(pressed@.subrange(0, j + 1), q) == (
                listed(pressed@.subrange(0, j as int), q) || key == q) by {
                    let pre = pressed@.subrange(0, j as int);
                    let post = pressed@.subrange(0, j + 1);
                    if listed(pre, q) {
                        let w = choose|w: int| 0 <= w < pre.len() && pre[w] == q;
                        assert(post[w] == q);
                    }
                    if key == q {
                        assert(post[j as int] == q);
                    }
                    if listed(post, q) {
                        let w = choose|w: int| 0 <= w < post.len() && post[w] == q;
                        if w < j {
                            assert(pre[w] == q);
                        }
                    }
                }
            }
            if (key as usize) < KEY_COUNT {
                self.keys.set(key as usize, true);
            }
            j += 1;
        }
        assert(pressed@.subrange(0, pressed@.len() as int) == pressed@);
        assert(self@.keys =~= Seq::new(KEY_COUNT as nat, |q: int| listed(pressed@, q)));
    }

    /// The value of register VX.
    pub fn register(&self, x: usize) -> (r: u8)
        requires
            self.wf(),
            x < 16,
        ensures
            r == self@.v[x as int],
    {
        self.cpu_registers[x]
    }

    pub fn program_counter(&self) -> (r: u16)
        ensures
            r == self@.pc,
    {
        self.program_counter
    }

    /// Moves execution to `pc`.
    pub fn set_program_counter(&mut self, pc: u16)
        requires
            old(self).wf(),
        ensures
            final(self).wf(),
            final(self)@ == (MachineState { pc, ..old(self)@ }),
    {
        self.program_counter = pc;
    }

    pub fn index_register(&self) -> (r: u16)
        ensures
            r == self@.i,
    {
        self.index_register
    }

    pub fn stack_pointer(&self) -> (r: u16)
        ensures
            r == self@.sp,
    {
        self.stack_pointer
    }

    /// The return address in stack slot `k`.
    pub fn stack_entry(&self, k: usize) -> (r: u16)
        requires
            self.wf(),
            k < STACK_SLOTS,
        ensures
            r == self@.stack[k as int],
    {
        self.stack[k]
    }

    /// The byte at `address`.
    pub fn memory_at(&self, address: usize) -> (r: u8)
        requires
            self.wf(),
            address < MEMORY_SIZE,
        ensures
            r == self@.memory[address as int],
    {
        self.memory[address]
    }

    /// Whether key `k` is down.
    pub fn key(&self, k: usize) -> (r: bool)
        requires
            self.wf(),
            k < KEY_COUNT,
        ensures
            r == self@.keys[k as int],
    {
        self.keys[k]
    }

    /// Display cell `cell` (row by row): 1 where lit, 0 where dark.
    pub fn pixel(&self, cell: usize) -> (r: u8)
        requires
            self.wf(),
            cell < DISPLAY_CELLS,
        ensures
            r == self@.gfx[cell as int],
    {
        self.gfx[cell]
    }

    pub fn delay_timer(&self) -> (r: u8)
        ensures
            r == self@.delay,
    {
        self.delay_timer
    }

    pub fn sound_timer(&self) -> (r: u8)
        ensures
            r == self@.sound,
    {
        self.sound_timer
    }
}

} // verus!
