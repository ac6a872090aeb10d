//! General properties of the instruction semantics, stated and proved over
//! the spec-level model that the step contract is written in.
use vstd::prelude::*;

use crate::model::Instr;
use crate::model::MachineV;
use crate::model::ScreenV;
use crate::model::TICK_MS;
use crate::model::add16;
use crate::model::draw_hit;
use crate::model::draw_pixels;
use crate::model::drawn_upto;
use crate::model::hit_upto;
use crate::model::key_down;
use crate::model::machine_wf;
use crate::model::spec_decode;
use crate::model::spec_op_at;
use crate::model::spec_step;
use crate::model::spec_tick;
use crate::model::sprite_bit;
use crate::model::xor_bit;

verus! {

/// Loading an immediate into any register leaves exactly that value in it:
/// after a step whose instruction is `load x, v`, register x holds v.
pub proof fn lemma_load_immediate(m: MachineV, s: ScreenV, r: u8, x: u8, v: u8)
    requires
        machine_wf(m),
        x < 16,
        spec_decode(spec_op_at(m)) == Instr::LoadImm(x, v),
    ensures
        spec_step(m, s, r).0.v[x as int] == v,
{
}

/// The bitwise register operations (or, and, xor) always leave the flag
/// register at zero, whatever the operand values were.
pub proof fn lemma_logical_ops_clear_flag(m: MachineV, s: ScreenV, r: u8, x: u8, y: u8)
    requires
        machine_wf(m),
        x < 16,
        y < 16,
        spec_decode(spec_op_at(m)) == Instr::OrReg(x, y) || spec_decode(spec_op_at(m))
            == Instr::AndReg(x, y) || spec_decode(spec_op_at(m)) == Instr::XorReg(x, y),
    ensures
        spec_step(m, s, r).0.v[15] == 0,
{
}

/// A call followed later by a return, with the two pushed stack bytes and the
/// stack pointer carried over unchanged, brings the program counter to the
/// address immediately after the call and the stack pointer back to its
/// pre-call value.
pub proof fn lemma_call_then_return(
    m: MachineV,
    s1: ScreenV,
    r1: u8,
    m2: MachineV,
    s2: ScreenV,
    r2: u8,
    nnn: u16,
)
    requires
        machine_wf(m),
        machine_wf(m2),
        spec_decode(spec_op_at(m)) == Instr::Call(nnn),
        spec_decode(spec_op_at(m2)) == Instr::Return,
        m2.sp == spec_step(m, s1, r1).0.sp,
        m2.ram[m.sp as int % 4096] == spec_step(m, s1, r1).0.ram[m.sp as int % 4096],
        m2.ram[add16(m.sp, 1) as int % 4096] == spec_step(m, s1, r1).0.ram[add16(m.sp, 1) as int
            % 4096],
    ensures
        spec_step(m2, s2, r2).0.pc == add16(m.pc, 2),
        spec_step(m2, s2, r2).0.sp == m.sp,
{
    let pcr = add16(m.pc, 2);
    assert(pcr == (pcr / 256) * 256 + (pcr % 256));
}

/// The six conditional skip instructions.
pub open spec fn is_skip(i: Instr) -> bool {
    match i {
        Instr::SkipEqImm(_, _) => true,
        Instr::SkipNeImm(_, _) => true,
        Instr::SkipEqReg(_, _) => true,
        Instr::SkipNeReg(_, _) => true,
        Instr::SkipKeyDown(_) => true,
        Instr::SkipKeyUp(_) => true,
        _ => false,
    }
}

/// The condition under which a skip instruction skips.
pub open spec fn skip_condition(m: MachineV, s: ScreenV, i: Instr) -> bool {
    match i {
        Instr::SkipEqImm(x, nn) => m.v[x as int] == nn,
        Instr::SkipNeImm(x, nn) => m.v[x as int] != nn,
        Instr::SkipEqReg(x, y) => m.v[x as int] == m.v[y as int],
        Instr::SkipNeReg(x, y) => m.v[x as int] != m.v[y as int],
        Instr::SkipKeyDown(x) => key_down(s, m.v[x as int]),
        Instr::SkipKeyUp(x) => !key_down(s, m.v[x as int]),
        _ => false,
    }
}

/// A skip instruction advances the program counter by exactly 4 (one skipped
/// instruction) when its condition holds, and by the usual 2 otherwise.
pub proof fn lemma_skip_stride(m: MachineV, s: ScreenV, r: u8)
    requires
        machine_wf(m),
        is_skip(spec_decode(spec_op_at(m))),
    ensures
        spec_step(m, s, r).0.pc == if skip_condition(m, s, spec_decode(spec_op_at(m))) {
            add16(m.pc, 4)
        } else {
            add16(m.pc, 2)
        },
{
    assert(add16(add16(m.pc, 2), 2) == add16(m.pc, 4));
}

/// Drawing the same sprite twice at the same location, with nothing in
/// between, restores the pixel buffer exactly.
pub proof fn lemma_draw_twice_restores(
    p0: Seq<u8>,
    ram: Seq<u8>,
    index: u16,
    x0: u8,
    y0: u8,
    n: u8,
)
    requires
        p0.len() == 2048,
        forall|k: int| 0 <= k < 2048 ==> p0[k] <= 1,
        x0 < 64,
        y0 < 32,
        n < 16,
    ensures
        draw_pixels(draw_pixels(p0, ram, index, x0, y0, n), ram, index, x0, y0, n) == p0,
{
    let q = draw_pixels(p0, ram, index, x0, y0, n);
    let qq = draw_pixels(q, ram, index, x0, y0, n);
    assert forall|k: int| 0 <= k < 2048 implies qq[k] == p0[k] by {
        if drawn_upto(x0, y0, n as int, 0, k % 64, k / 64) {
            let b = sprite_bit(ram, index, k / 64 - y0, k % 64 - x0);
            assert(qq[k] == xor_bit(xor_bit(p0[k], b), b));
        }
    };
    assert(qq =~= p0);
}

/// Whether the sprite has a set bit anywhere inside the clipped drawing area.
pub open spec fn sprite_visible_bit(ram: Seq<u8>, index: u16, x0: u8, y0: u8, n: u8) -> bool {
    exists|px: int, py: int|
        #[trigger] drawn_upto(x0, y0, n as int, 0, px, py) && sprite_bit(
            ram,
            index,
            py - y0,
            px - x0,
        ) == 1
}

/// When the drawing area started all dark, a draw followed by the same draw
/// again reports a collision on the second draw exactly when the sprite has
/// a set bit inside that area.
pub proof fn lemma_second_draw_collision(
    p0: Seq<u8>,
    ram: Seq<u8>,
    index: u16,
    x0: u8,
    y0: u8,
    n: u8,
)
    requires
        p0.len() == 2048,
        forall|k: int| 0 <= k < 2048 ==> p0[k] <= 1,
        x0 < 64,
        y0 < 32,
        n < 16,
        forall|px: int, py: int|
            #[trigger] drawn_upto(x0, y0, n as int, 0, px, py) ==> p0[py * 64 + px] == 0,
    ensures
        draw_hit(draw_pixels(p0, ram, index, x0, y0, n), ram, index, x0, y0, n)
            == sprite_visible_bit(ram, index, x0, y0, n),
{
    let q = draw_pixels(p0, ram, index, x0, y0, n);
    if draw_hit(q, ram, index, x0, y0, n) {
        let (px, py) = choose|px: int, py: int|
            #[trigger] drawn_upto(x0, y0, n as int, 0, px, py) && q[py * 64 + px] == 1
                && sprite_bit(ram, index, py - y0, px - x0) == 1;
        assert(sprite_visible_bit(ram, index, x0, y0, n));
    }
    if sprite_visible_bit(ram, index, x0, y0, n) {
        let (px, py) = choose|px: int, py: int|
            #[trigger] drawn_upto(x0, y0, n as int, 0, px, py) && sprite_bit(
                ram,
                index,
                py - y0,
                px - x0,
            ) == 1;
        let k0 = py * 64 + px;
        assert(0 <= k0 < 2048);
        assert(k0 / 64 == py && k0 % 64 == px) by (nonlinear_arith)
            requires
                0 <= px < 64,
                0 <= py,
                k0 == py * 64 + px,
        ;
        assert(q[k0] == xor_bit(p0[k0], sprite_bit(ram, index, py - y0, px - x0)));
        assert(q[k0] == 1);
        assert(hit_upto(q, ram, index, x0, y0, n as int, 0));
    }
}

/// Within one quantum the timers do not move: accounting less than a whole
/// quantum only grows the accumulator.
pub proof fn lemma_tick_below_quantum(m: MachineV, e: u64)
    requires
        m.since_tick_ms + e < TICK_MS,
    ensures
        spec_tick(m, e) == (MachineV { since_tick_ms: (m.since_tick_ms + e) as u64, ..m }),
{
    assert(spec_tick(m, e) =~= (MachineV { since_tick_ms: (m.since_tick_ms + e) as u64, ..m }));
}

/// Several timer updates inside one quantum are no-ops for the timers.
pub proof fn lemma_tick_twice_within_quantum(m: MachineV, e1: u64, e2: u64)
    requires
        m.since_tick_ms + e1 + e2 < TICK_MS,
    ensures
        spec_tick(spec_tick(m, e1), e2).delay == m.delay,
        spec_tick(spec_tick(m, e1), e2).sound == m.sound,
{
}

/// Once a whole quantum has accumulated, one update decrements both timers
/// by exactly one (saturating at zero) and resets the accumulator.
pub proof fn lemma_tick_at_quantum(m: MachineV, e: u64)
    requires
        m.since_tick_ms + e >= TICK_MS,
    ensures
        spec_tick(m, e).delay == if m.delay > 0 {
            (m.delay - 1) as u8
        } else {
            0
        },
        spec_tick(m, e).sound == if m.sound > 0 {
            (m.sound - 1) as u8
        } else {
            0
        },
        spec_tick(m, e).since_tick_ms == 0,
{
}

} // verus!
