use vstd::prelude::*;

use crate::machine::{
    collides, count_down, draw_hits, drawn, exec_spec, loaded, opcode_at, span_fault, stepped,
    tick_spec, Chip8Error, MachineState, FLAG, MEMORY_SIZE, PROGRAM_START,
    TICK_LENGTH,
};
use crate::opcode::{decode_spec, Instruction};

verus! {

/// Loading an immediate into any register and reading that register back
/// gives the immediate.
pub proof fn lemma_load_immediate_reads_back(s: MachineState, x: usize, nn: u8, rnd: u8)
    requires
        s.wf(),
        x < 16,
    ensures
        exec_spec(s, Instruction::LoadImm { x, nn }, rnd) is Ok,
        exec_spec(s, Instruction::LoadImm { x, nn }, rnd)->Ok_0.v[x as int] == nn,
{
}

/// Drawing the same sprite at the same place twice leaves the display as it
/// was, and the second draw collides exactly where the first one lit a cell.
pub proof fn lemma_draw_twice_restores(gfx: Seq<u8>, memory: Seq<u8>, i: u16, px: u8, py: u8, n: u16)
    requires
        forall|c: int| 0 <= c < gfx.len() ==> #[trigger] gfx[c] <= 1,
    ensures
        drawn(drawn(gfx, memory, i, px, py, n), memory, i, px, py, n) == gfx,
        collides(drawn(gfx, memory, i, px, py, n), memory, i, px, py, n) == exists|c: int|
            0 <= c < gfx.len() && #[trigger] draw_hits(memory, i, px, py, n, c) && gfx[c] == 0,
{
    let once = drawn(gfx, memory, i, px, py, n);
    assert(drawn(once, memory, i, px, py, n) =~= gfx);
}

/// The same at the level of whole instructions: two `Dxyn` in a row whose
/// coordinates are not in VF restore the display, and the second leaves in VF
/// whether the first lit any cell.
pub proof fn lemma_draw_instruction_twice(s: MachineState, x: usize, y: usize, n: u16, rnd: u8)
    requires
        s.wf(),
        x < 16,
        y < 16,
        n < 16,
        x != FLAG,
        y != FLAG,
        span_fault(s.i, n as int) is None,
    ensures
        ({
            let ins = Instruction::Draw { x, y, n };
            let first = exec_spec(s, ins, rnd)->Ok_0;
            let second = exec_spec(first, ins, rnd)->Ok_0;
            &&& exec_spec(s, ins, rnd) is Ok
            &&& exec_spec(first, ins, rnd) is Ok
            &&& second.gfx == s.gfx
            &&& second.v[FLAG as int] == if exists|c: int|
                0 <= c < s.gfx.len() && #[trigger] draw_hits(s.memory, s.i, s.v[x as int], s.v[y as int], n, c)
                    && s.gfx[c] == 0 { 1u8 } else { 0u8 }
        }),
{
    lemma_draw_twice_restores(s.gfx, s.memory, s.i, s.v[x as int], s.v[y as int], n);
}

/// Applies `tick_spec` for each elapsed time in `es`, in order.
pub open spec fn ticked(s: MachineState, es: Seq<u64>) -> MachineState
    decreases es.len(),
{
    if es.len() == 0 {
        s
    } else {
        ticked(tick_spec(s, es[0]).0, es.drop_first())
    }
}

/// The sum of the elapsed times in `es`.
pub open spec fn total_elapsed(es: Seq<u64>) -> int
    decreases es.len(),
{
    if es.len() == 0 {
        0
    } else {
        es[0] + total_elapsed(es.drop_first())
    }
}

proof fn lemma_count_down_twice(t: u8, a: int, b: int)
    requires
        a >= 0,
        b >= 0,
    ensures
        count_down(count_down(t, a), b) == count_down(t, a + b),
{
}

/// However the time is split among calls, the timers count down by the
/// whole sixtieths of a second that elapsed in total (with what the
/// machine had carried over), and never below zero.
pub proof fn lemma_timers_follow_wall_clock(s: MachineState, es: Seq<u64>)
    requires
        s.wf(),
    ensures
        total_elapsed(es) >= 0,
        ticked(s, es).delay == count_down(s.delay, (s.residue + 60 * total_elapsed(es)) / TICK_LENGTH as int),
        ticked(s, es).sound == count_down(s.sound, (s.residue + 60 * total_elapsed(es)) / TICK_LENGTH as int),
        ticked(s, es).residue == (s.residue + 60 * total_elapsed(es)) % TICK_LENGTH as int,
        ticked(s, es).wf(),
    decreases es.len(),
{
    if es.len() > 0 {
        let e = es[0];
        let rest = es.drop_first();
        let s1 = tick_spec(s, e).0;
        let big_l = TICK_LENGTH as int;
        let x1 = s.residue + 60 * e;
        let q1 = x1 / big_l;
        let r1 = x1 % big_l;
        vstd::arithmetic::div_mod::lemma_fundamental_div_mod(x1, big_l);
        assert(s1.residue == r1);
        lemma_timers_follow_wall_clock(s1, rest);
        let x2 = r1 + 60 * total_elapsed(rest);
        let q2 = x2 / big_l;
        let r2 = x2 % big_l;
        vstd::arithmetic::div_mod::lemma_fundamental_div_mod(x2, big_l);
        let whole = s.residue + 60 * total_elapsed(es);
        assert(whole == (q1 + q2) * big_l + r2) by (nonlinear_arith)
            requires
                whole == s.residue + 60 * total_elapsed(es),
                total_elapsed(es) == e + total_elapsed(rest),
                x1 == s.residue + 60 * e,
                x1 == big_l * q1 + r1,
                x2 == r1 + 60 * total_elapsed(rest),
                x2 == big_l * q2 + r2,
        ;
        vstd::arithmetic::div_mod::lemma_fundamental_div_mod_converse(whole, big_l, q1 + q2, r2);
        assert(q1 >= 0 && q2 >= 0) by (nonlinear_arith)
            requires
                x1 >= 0,
                x2 >= 0,
                q1 == x1 / big_l,
                q2 == x2 / big_l,
                big_l > 0,
        ;
        lemma_count_down_twice(s.delay, q1, q2);
        lemma_count_down_twice(s.sound, q1, q2);
    }
}

/// Calls whose elapsed times add up to less than a sixtieth of a second
/// take at most one from each timer.
pub proof fn lemma_timers_within_one_interval(s: MachineState, es: Seq<u64>)
    requires
        s.wf(),
        60 * total_elapsed(es) < TICK_LENGTH,
    ensures
        s.delay - ticked(s, es).delay <= 1,
        s.sound - ticked(s, es).sound <= 1,
        ticked(s, es).delay <= s.delay,
        ticked(s, es).sound <= s.sound,
{
    lemma_timers_follow_wall_clock(s, es);
    let big_l = TICK_LENGTH as int;
    let whole = s.residue + 60 * total_elapsed(es);
    assert(whole < 2 * big_l);
    assert(whole / big_l <= 1) by {
        vstd::arithmetic::div_mod::lemma_fundamental_div_mod(whole, big_l);
    }
}

/// Loading a program and reading back the bytes from the load address on
/// gives the program.
pub proof fn lemma_load_round_trip(s: MachineState, bytes: Seq<u8>)
    requires
        s.wf(),
        bytes.len() + PROGRAM_START <= MEMORY_SIZE,
    ensures
        loaded(s, bytes).memory.subrange(PROGRAM_START as int, PROGRAM_START + bytes.len()) == bytes,
        loaded(s, bytes).memory.len() == MEMORY_SIZE,
{
    assert(loaded(s, bytes).memory.subrange(PROGRAM_START as int, PROGRAM_START + bytes.len()) =~= bytes);
}

/// A bit pattern that encodes no instruction stops the cycle with
/// `InvalidOpcode`, carrying that pattern and the program counter, and the
/// machine stays as it was: the program counter does not move.
pub proof fn lemma_invalid_opcode_halts(s: MachineState, elapsed: u64, rnd: u8, r: Result<bool, Chip8Error>, t: MachineState)
    requires
        s.wf(),
        s.pc + 1 < MEMORY_SIZE,
        decode_spec(opcode_at(s.memory, s.pc)) is None,
        stepped(s, elapsed, rnd, r, t),
    ensures
        r == Err::<bool, Chip8Error>(Chip8Error::InvalidOpcode { opcode: opcode_at(s.memory, s.pc), pc: s.pc }),
        t == s,
        t.pc == s.pc,
{
}

} // verus!
