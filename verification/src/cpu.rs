//! The interpreter engine: machine state and the fetch-decode-execute step.
use vstd::prelude::*;

use crate::model::Instr;
use crate::model::MachineV;
use crate::model::N_REGS;
use crate::model::RAM_SIZE;
use crate::model::SCREEN_H;
use crate::model::SCREEN_W;
use crate::model::START_FONT;
use crate::model::START_PGM;
use crate::model::TICK_MS;
use crate::model::add16;
use crate::model::blank_screen;
use crate::model::font_seq;
use crate::model::initial_machine;
use crate::model::instr_touches_screen;
use crate::model::instr_wf;
use crate::model::machine_wf;
use crate::model::spec_decode;
use crate::model::spec_op_at;
use crate::model::spec_step;
use crate::model::spec_tick;
use crate::model::spec_load;
use crate::model::spec_wall_tick;
use crate::model::spec_exec;
use crate::model::ScreenV;
use crate::model::draw_hit;
use crate::model::draw_partial;
use crate::model::draw_pixels;
use crate::model::drawn_upto;
use crate::model::hit_upto;
use crate::model::ram_at;
use crate::model::sprite_bit;
use crate::model::xor_bit;
use crate::model::store_regs_upto;
use crate::model::load_regs_upto;
use crate::screen::Screen;

verus! {

/// Relies on rand::random: a byte from the thread-local random generator;
/// nothing is assumed of the value.
#[verifier::external_body]
fn random_byte() -> u8 {
    rand::random::<u8>()
}

/// Relies on std::time::SystemTime::now: the wall clock, read as whole
/// milliseconds since the epoch; nothing is assumed of the value.
#[verifier::external_body]
fn now_millis() -> u64 {
    match std::time::SystemTime::now().duration_since(std::time::UNIX_EPOCH) {
        Ok(d) => d.as_millis() as u64,
        Err(_) => 0,
    }
}

/// The machine state: program counter, stack pointer, index register, the
/// sixteen general registers, memory, the two timers, and the bookkeeping
/// for the blocking key wait and the per-step display flag.
pub struct Cpu {
    pc: u16,
    sp: u16,
    index: u16,
    v_reg: Vec<u8>,
    delay_timer: u8,
    sound_timer: u8,
    ram: Vec<u8>,
    since_tick_ms: u64,
    clock_ms: u64,
    last_key: Option<u8>,
    has_drawn: bool,
    unknown_op: Option<u16>,
}

impl View for Cpu {
    type V = MachineV;

    closed spec fn view(&self) -> MachineV {
        MachineV {
            pc: self.pc,
            sp: self.sp,
            index: self.index,
            v: self.v_reg@,
            ram: self.ram@,
            delay: self.delay_timer,
            sound: self.sound_timer,
            awaited_key: self.last_key,
            drew: self.has_drawn,
            unknown_op: self.unknown_op,
            since_tick_ms: self.since_tick_ms,
            clock_ms: self.clock_ms,
        }
    }
}

/// A vector of `n` zero bytes.
fn zero_bytes(n: usize) -> (v: Vec<u8>)
    ensures
        v@ == Seq::new(n as nat, |i: int| 0u8),
{
    let mut v: Vec<u8> = Vec::new();
    let mut i: usize = 0;
    while i < n
        invariant
            i <= n,
            v@ == Seq::new(i as nat, |k: int| 0u8),
        decreases n - i,
    {
        v.push(0);
        proof {
            assert(v@ =~= Seq::new((i + 1) as nat, |k: int| 0u8));
        }
        i = i + 1;
    }
    v
}

/// Decode one opcode into an instruction.
pub fn decode(op: u16) -> (i: Instr)
    ensures
        i == spec_decode(op),
        instr_wf(i),
{
    let hi: u16 = op / 0x1000;
    let x: u8 = ((op / 0x100) % 16) as u8;
    let y: u8 = ((op / 16) % 16) as u8;
    let n: u8 = (op % 16) as u8;
    let nn: u8 = (op % 0x100) as u8;
    let nnn: u16 = op % 0x1000;
    if hi == 0x0 {
        if nn == 0xE0 {
            Instr::ClearScreen
        } else if nn == 0xEE {
            Instr::Return
        } else {
            Instr::Unknown(op)
        }
    } else if hi == 0x1 {
        Instr::Jump(nnn)
    } else if hi == 0x2 {
        Instr::Call(nnn)
    } else if hi == 0x3 {
        Instr::SkipEqImm(x, nn)
    } else if hi == 0x4 {
        Instr::SkipNeImm(x, nn)
    } else if hi == 0x5 {
        Instr::SkipEqReg(x, y)
    } else if hi == 0x6 {
        Instr::LoadImm(x, nn)
    } else if hi == 0x7 {
        Instr::AddImm(x, nn)
    } else if hi == 0x8 {
        let k: u16 = op % 16;
        if k == 0x0 {
            Instr::Assign(x, y)
        } else if k == 0x1 {
            Instr::OrReg(x, y)
        } else if k == 0x2 {
            Instr::AndReg(x, y)
        } else if k == 0x3 {
            Instr::XorReg(x, y)
        } else if k == 0x4 {
            Instr::AddReg(x, y)
        } else if k == 0x5 {
            Instr::SubReg(x, y)
        } else if k == 0x6 {
            Instr::ShiftRight(x, y)
        } else if k == 0x7 {
            Instr::SubRev(x, y)
        } else if k == 0xE {
            Instr::ShiftLeft(x, y)
        } else {
            Instr::Unknown(op)
        }
    } else if hi == 0x9 {
        Instr::SkipNeReg(x, y)
    } else if hi == 0xA {
        Instr::SetIndex(nnn)
    } else if hi == 0xB {
        Instr::JumpOffset(nnn)
    } else if hi == 0xC {
        Instr::Random(x, nn)
    } else if hi == 0xD {
        Instr::Draw(x, y, n)
    } else if hi == 0xE {
        if nn == 0x9E {
            Instr::SkipKeyDown(x)
        } else if nn == 0xA1 {
            Instr::SkipKeyUp(x)
        } else {
            Instr::Unknown(op)
        }
    } else {
        if nn == 0x07 {
            Instr::ReadDelay(x)
        } else if nn == 0x15 {
            Instr::SetDelay(x)
        } else if nn == 0x18 {
            Instr::SetSound(x)
        } else if nn == 0x1E {
            Instr::AddIndex(x)
        } else if nn == 0x29 {
            Instr::FontAddr(x)
        } else if nn == 0x33 {
            Instr::StoreBcd(x)
        } else if nn == 0x55 {
            Instr::StoreRegs(x)
        } else if nn == 0x65 {
            Instr::LoadRegs(x)
        } else if nn == 0x0A {
            Instr::WaitKey(x)
        } else {
            Instr::Unknown(op)
        }
    }
}

/// One drawn pixel extends the partially drawn region by exactly one point:
/// the buffer gains one xor-combined pixel and the collision condition gains
/// one candidate.
proof fn lemma_partial_step(
    p0: Seq<u8>,
    ram: Seq<u8>,
    index: u16,
    x0: u8,
    y0: u8,
    i: int,
    j: int,
)
    requires
        x0 < 64,
        y0 < 32,
        0 <= i,
        0 <= j < 8,
        x0 + j < 64,
        y0 + i < 32,
        p0.len() == 2048,
    ensures
        draw_partial(p0, ram, index, x0, y0, i, j + 1) == draw_partial(
            p0,
            ram,
            index,
            x0,
            y0,
            i,
            j,
        ).update((y0 + i) * 64 + (x0 + j), xor_bit(p0[(y0 + i) * 64 + (x0 + j)], sprite_bit(ram, index, i, j))),
        hit_upto(p0, ram, index, x0, y0, i, j + 1) == (hit_upto(p0, ram, index, x0, y0, i, j) || (
        p0[(y0 + i) * 64 + (x0 + j)] == 1 && sprite_bit(ram, index, i, j) == 1)),
        !drawn_upto(x0, y0, i, j, x0 + j, y0 + i),
        drawn_upto(x0, y0, i, j + 1, x0 + j, y0 + i),
        draw_partial(p0, ram, index, x0, y0, i, j)[(y0 + i) * 64 + (x0 + j)] == p0[(y0 + i) * 64
            + (x0 + j)],
{
    let k0 = (y0 + i) * 64 + (x0 + j);
    assert(k0 / 64 == y0 + i && k0 % 64 == x0 + j) by (nonlinear_arith)
        requires
            0 <= x0 + j < 64,
            0 <= y0 + i,
            k0 == (y0 + i) * 64 + (x0 + j),
    ;
    let a = draw_partial(p0, ram, index, x0, y0, i, j + 1);
    let b = draw_partial(p0, ram, index, x0, y0, i, j).update(
        k0,
        xor_bit(p0[k0], sprite_bit(ram, index, i, j)),
    );
    assert forall|k: int| 0 <= k < 2048 implies a[k] == b[k] by {
        assert(k == 64 * (k / 64) + (k % 64));
        if k != k0 {
            assert(!(k % 64 == x0 + j && k / 64 == y0 + i));
        }
    };
    assert(a =~= b);
    let np_hit = p0[k0] == 1 && sprite_bit(ram, index, i, j) == 1;
    if hit_upto(p0, ram, index, x0, y0, i, j + 1) {
        let (px, py) = choose|px: int, py: int|
            #[trigger] drawn_upto(x0, y0, i, j + 1, px, py) && p0[py * 64 + px] == 1 && sprite_bit(
                ram,
                index,
                py - y0,
                px - x0,
            ) == 1;
        if drawn_upto(x0, y0, i, j, px, py) {
            assert(hit_upto(p0, ram, index, x0, y0, i, j));
        } else {
            assert(px == x0 + j && py == y0 + i);
            assert(np_hit);
        }
    }
    if hit_upto(p0, ram, index, x0, y0, i, j) {
        let (px, py) = choose|px: int, py: int|
            #[trigger] drawn_upto(x0, y0, i, j, px, py) && p0[py * 64 + px] == 1 && sprite_bit(
                ram,
                index,
                py - y0,
                px - x0,
            ) == 1;
        assert(drawn_upto(x0, y0, i, j + 1, px, py));
        assert(hit_upto(p0, ram, index, x0, y0, i, j + 1));
    }
    if np_hit {
        assert(drawn_upto(x0, y0, i, j + 1, x0 + j, y0 + i) && p0[(y0 + i) * 64 + (x0 + j)] == 1
            && sprite_bit(ram, index, (y0 + i) - y0, (x0 + j) - x0) == 1);
        assert(hit_upto(p0, ram, index, x0, y0, i, j + 1));
    }
}

/// Two partial-draw extents that cover the same pixels give the same buffer
/// and the same collision condition.
proof fn lemma_draw_region_shift(
    p0: Seq<u8>,
    ram: Seq<u8>,
    index: u16,
    x0: u8,
    y0: u8,
    ra: int,
    ca: int,
    rb: int,
    cb: int,
)
    requires
        p0.len() == 2048,
        forall|px: int, py: int|
            #![trigger drawn_upto(x0, y0, ra, ca, px, py)]
            #![trigger drawn_upto(x0, y0, rb, cb, px, py)]
            drawn_upto(x0, y0, ra, ca, px, py) == drawn_upto(x0, y0, rb, cb, px, py),
    ensures
        draw_partial(p0, ram, index, x0, y0, ra, ca) == draw_partial(p0, ram, index, x0, y0, rb, cb),
        hit_upto(p0, ram, index, x0, y0, ra, ca) == hit_upto(p0, ram, index, x0, y0, rb, cb),
{
    assert(draw_partial(p0, ram, index, x0, y0, ra, ca) =~= draw_partial(
        p0,
        ram,
        index,
        x0,
        y0,
        rb,
        cb,
    ));
    if hit_upto(p0, ram, index, x0, y0, ra, ca) {
        let (px, py) = choose|px: int, py: int|
            #[trigger] drawn_upto(x0, y0, ra, ca, px, py) && p0[py * 64 + px] == 1 && sprite_bit(
                ram,
                index,
                py - y0,
                px - x0,
            ) == 1;
        assert(drawn_upto(x0, y0, rb, cb, px, py));
        assert(hit_upto(p0, ram, index, x0, y0, rb, cb));
    }
    if hit_upto(p0, ram, index, x0, y0, rb, cb) {
        let (px, py) = choose|px: int, py: int|
            #[trigger] drawn_upto(x0, y0, rb, cb, px, py) && p0[py * 64 + px] == 1 && sprite_bit(
                ram,
                index,
                py - y0,
                px - x0,
            ) == 1;
        assert(drawn_upto(x0, y0, ra, ca, px, py));
        assert(hit_upto(p0, ram, index, x0, y0, ra, ca));
    }
}

impl Cpu {
    pub open spec fn wf(&self) -> bool {
        machine_wf(self@)
    }

    /// A machine with all state zeroed and the program counter at the load
    /// address.
    pub fn new() -> (c: Cpu)
        ensures
            c.wf(),
            c@ == initial_machine(),
    {
        let c = Cpu {
            pc: START_PGM,
            sp: 0,
            index: 0,
            v_reg: zero_bytes(N_REGS),
            delay_timer: 0,
            sound_timer: 0,
            ram: zero_bytes(RAM_SIZE),
            since_tick_ms: 0,
            clock_ms: 0,
            last_key: None,
            has_drawn: false,
            unknown_op: None,
        };
        proof {
            assert(c@ =~= initial_machine());
        }
        c
    }

    /// Copy a program into memory at the load address and place the font
    /// table at its fixed offset. The program must fit below the end of
    /// memory.
    pub fn load_rom(&mut self, rom: &[u8])
        requires
            old(self).wf(),
            rom@.len() <= 3584,
        ensures
            final(self).wf(),
            final(self)@ == (MachineV { ram: spec_load(old(self)@.ram, rom@), ..old(self)@ }),
    {
        let n: usize = rom.len();
        let mut i: usize = 0;
        while i < n
            invariant
                old(self).wf(),
                i <= n,
                n == rom@.len(),
                n <= 3584,
                self.ram@.len() == 4096,
                self.v_reg@ == old(self)@.v,
                self.pc == old(self)@.pc,
                self.sp == old(self)@.sp,
                self.index == old(self)@.index,
                self.delay_timer == old(self)@.delay,
                self.sound_timer == old(self)@.sound,
                self.last_key == old(self)@.awaited_key,
                self.has_drawn == old(self)@.drew,
                self.unknown_op == old(self)@.unknown_op,
                self.since_tick_ms == old(self)@.since_tick_ms,
                self.clock_ms == old(self)@.clock_ms,
                forall|k: int|
                    0 <= k < 4096 ==> self.ram@[k] == if 0x200 <= k < 0x200 + i {
                        rom@[k - 0x200]
                    } else {
                        old(self)@.ram[k]
                    },
            decreases n - i,
        {
            self.ram.set(0x200 + i, rom[i]);
            i = i + 1;
        }
        let font: Vec<u8> = make_font();
        let mut j: usize = 0;
        while j < 80
            invariant
                old(self).wf(),
                j <= 80,
                n == rom@.len(),
                n <= 3584,
                font@ == font_seq(),
                self.ram@.len() == 4096,
                self.v_reg@ == old(self)@.v,
                self.pc == old(self)@.pc,
                self.sp == old(self)@.sp,
                self.index == old(self)@.index,
                self.delay_timer == old(self)@.delay,
                self.sound_timer == old(self)@.sound,
                self.last_key == old(self)@.awaited_key,
                self.has_drawn == old(self)@.drew,
                self.unknown_op == old(self)@.unknown_op,
                self.since_tick_ms == old(self)@.since_tick_ms,
                self.clock_ms == old(self)@.clock_ms,
                forall|k: int|
                    0 <= k < 4096 ==> self.ram@[k] == if 0x50 <= k < 0x50 + j {
                        font_seq()[k - 0x50]
                    } else if 0x200 <= k < 0x200 + n {
                        rom@[k - 0x200]
                    } else {
                        old(self)@.ram[k]
                    },
            decreases 80 - j,
        {
            self.ram.set(START_FONT as usize + j, font[j]);
            j = j + 1;
        }
        proof {
            assert(self@.ram =~= spec_load(old(self)@.ram, rom@));
            assert(self@ =~= (MachineV { ram: spec_load(old(self)@.ram, rom@), ..old(self)@ }));
        }
    }

    /// Read the big-endian opcode at the program counter and advance the
    /// program counter past it.
    pub fn fetch(&mut self) -> (op: u16)
        requires
            old(self).wf(),
        ensures
            final(self).wf(),
            op == spec_op_at(old(self)@),
            final(self)@ == (MachineV { pc: add16(old(self)@.pc, 2), ..old(self)@ }),
    {
        let hi: u8 = self.ram[(self.pc as usize) % 4096];
        let lo: u8 = self.ram[((self.pc as usize) + 1) % 4096];
        let op: u16 = (hi as u16) * 256 + (lo as u16);
        self.pc = self.pc.wrapping_add(2);
        proof {
            assert(self@ =~= (MachineV { pc: add16(old(self)@.pc, 2), ..old(self)@ }));
        }
        op
    }

    /// Account `elapsed_ms` further milliseconds toward the timer quantum;
    /// when a whole quantum has accumulated, both timers decrement
    /// (saturating at zero) and the accumulator resets.
    pub fn tick_timers(&mut self, elapsed_ms: u64)
        requires
            old(self).wf(),
        ensures
            final(self).wf(),
            final(self)@ == spec_tick(old(self)@, elapsed_ms),
    {
        let acc: u64 = if elapsed_ms > u64::MAX - self.since_tick_ms {
            u64::MAX
        } else {
            self.since_tick_ms + elapsed_ms
        };
        if acc >= TICK_MS {
            if self.delay_timer > 0 {
                self.delay_timer = self.delay_timer - 1;
            }
            if self.sound_timer > 0 {
                self.sound_timer = self.sound_timer - 1;
            }
            self.since_tick_ms = 0;
        } else {
            self.since_tick_ms = acc;
        }
        proof {
            assert(self@ =~= spec_tick(old(self)@, elapsed_ms));
        }
    }

    /// Driver-paced timer update: read the wall clock and feed the time since
    /// the previous update to the quantum accounting.
    pub fn update_timers(&mut self)
        requires
            old(self).wf(),
        ensures
            final(self).wf(),
            exists|now: u64| final(self)@ == spec_wall_tick(old(self)@, now),
    {
        let now: u64 = now_millis();
        let delta: u64 = if self.clock_ms != 0 && now >= self.clock_ms {
            now - self.clock_ms
        } else {
            0
        };
        self.clock_ms = now;
        self.tick_timers(delta);
        proof {
            assert(self@ =~= spec_wall_tick(old(self)@, now));
        }
    }

    pub fn get_sound_timer(&self) -> (t: u8)
        ensures
            t == self@.sound,
    {
        self.sound_timer
    }

    /// Whether the most recent step visibly changed the display.
    pub fn has_drawn(&self) -> (d: bool)
        ensures
            d == self@.drew,
    {
        self.has_drawn
    }

    /// The opcode of the most recent step, when it was not a recognized
    /// instruction; the driver may report it.
    pub fn last_unknown_opcode(&self) -> (u: Option<u16>)
        ensures
            u == self@.unknown_op,
    {
        self.unknown_op
    }

    pub fn pc(&self) -> (r: u16)
        ensures
            r == self@.pc,
    {
        self.pc
    }

    pub fn sp(&self) -> (r: u16)
        ensures
            r == self@.sp,
    {
        self.sp
    }

    pub fn index(&self) -> (r: u16)
        ensures
            r == self@.index,
    {
        self.index
    }

    /// The value of general register `x`.
    pub fn reg(&self, x: u8) -> (r: u8)
        requires
            self.wf(),
            x < 16,
        ensures
            r == self@.v[x as int],
    {
        self.v_reg[x as usize]
    }

    /// The memory byte at `addr`.
    pub fn ram_byte(&self, addr: u16) -> (b: u8)
        requires
            self.wf(),
            addr < 4096,
        ensures
            b == self@.ram[addr as int],
    {
        self.ram[addr as usize]
    }

    /// Draw an `n`-row sprite read from memory at the index register onto the
    /// screen at (x0, y0), xor-combining pixels and clipping at the screen
    /// edges; register 15 reports whether any drawn pixel was already on.
    #[verifier::rlimit(30)]
    fn draw_sprite(&mut self, scr: &mut Screen, x0: u8, y0: u8, n: u8)
        requires
            old(self).wf(),
            old(scr).wf(),
            x0 < 64,
            y0 < 32,
            n < 16,
        ensures
            final(self).wf(),
            final(scr).wf(),
            final(self)@ == (MachineV {
                v: old(self)@.v.update(
                    15,
                    if draw_hit(old(scr)@.pixels, old(self)@.ram, old(self)@.index, x0, y0, n) {
                        1u8
                    } else {
                        0u8
                    },
                ),
                ..old(self)@
            }),
            final(scr)@ == (ScreenV {
                pixels: draw_pixels(old(scr)@.pixels, old(self)@.ram, old(self)@.index, x0, y0, n),
                ..old(scr)@
            }),
    {
        let ghost m0 = old(self)@;
        let ghost s0 = old(scr)@;
        let ghost p0 = s0.pixels;
        self.v_reg.set(15, 0);
        proof {
            assert(scr@.pixels =~= draw_partial(p0, m0.ram, m0.index, x0, y0, 0, 0));
            assert(self@ =~= (MachineV {
                v: m0.v.update(15, if hit_upto(p0, m0.ram, m0.index, x0, y0, 0, 0) {
                    1u8
                } else {
                    0u8
                }),
                ..m0
            }));
        }
        let mut i: u8 = 0;
        while i < n && y0 + i < 32
            invariant
                old(self).wf(),
                old(scr).wf(),
                x0 < 64,
                y0 < 32,
                n < 16,
                i <= n,
                self.wf(),
                scr.wf(),
                m0 == old(self)@,
                s0 == old(scr)@,
                p0 == s0.pixels,
                self@ == (MachineV {
                    v: m0.v.update(
                        15,
                        if hit_upto(p0, m0.ram, m0.index, x0, y0, i as int, 0) {
                            1u8
                        } else {
                            0u8
                        },
                    ),
                    ..m0
                }),
                scr@ == (ScreenV {
                    pixels: draw_partial(p0, m0.ram, m0.index, x0, y0, i as int, 0),
                    ..s0
                }),
            decreases n - i,
        {
            let row_byte: u8 = self.ram[((self.index as usize) + (i as usize)) % 4096];
            proof {
                assert(row_byte == ram_at(m0.ram, m0.index as int + i as int));
            }
            let mut j: u8 = 0;
            while j < 8 && x0 + j < 64
                invariant
                    old(self).wf(),
                    old(scr).wf(),
                    x0 < 64,
                    y0 < 32,
                    n < 16,
                    i < n,
                    y0 + i < 32,
                    j <= 8,
                    self.wf(),
                    scr.wf(),
                    m0 == old(self)@,
                    s0 == old(scr)@,
                    p0 == s0.pixels,
                    row_byte == ram_at(m0.ram, m0.index as int + i as int),
                    self@ == (MachineV {
                        v: m0.v.update(
                            15,
                            if hit_upto(p0, m0.ram, m0.index, x0, y0, i as int, j as int) {
                                1u8
                            } else {
                                0u8
                            },
                        ),
                        ..m0
                    }),
                    scr@ == (ScreenV {
                        pixels: draw_partial(p0, m0.ram, m0.index, x0, y0, i as int, j as int),
                        ..s0
                    }),
                decreases 8 - j,
            {
                let sh: u8 = 7 - j;
                let b: u8 = if (row_byte >> sh) & 1 == 1 {
                    1
                } else {
                    0
                };
                let px: u8 = x0 + j;
                let py: u8 = y0 + i;
                proof {
                    lemma_partial_step(p0, m0.ram, m0.index, x0, y0, i as int, j as int);
                    assert(b == sprite_bit(m0.ram, m0.index, i as int, j as int));
                }
                let prev: u8 = scr.draw_pixel(px, py, b);
                proof {
                    assert(prev == p0[py as int * 64 + px as int]);
                    assert(scr@.pixels =~= draw_partial(
                        p0,
                        m0.ram,
                        m0.index,
                        x0,
                        y0,
                        i as int,
                        j as int + 1,
                    ));
                }
                if prev == 1 && b == 1 {
                    self.v_reg.set(15, 1);
                    proof {
                        assert(hit_upto(p0, m0.ram, m0.index, x0, y0, i as int, j as int + 1));
                        assert(self@ =~= (MachineV { v: m0.v.update(15, 1u8), ..m0 }));
                    }
                } else {
                    proof {
                        assert(hit_upto(p0, m0.ram, m0.index, x0, y0, i as int, j as int + 1)
                            == hit_upto(p0, m0.ram, m0.index, x0, y0, i as int, j as int));
                    }
                }
                j = j + 1;
            }
            proof {
                assert forall|px: int, py: int|
                    #![trigger drawn_upto(x0, y0, i as int, j as int, px, py)]
                    #![trigger drawn_upto(x0, y0, i as int + 1, 0, px, py)]
                    drawn_upto(x0, y0, i as int, j as int, px, py) == drawn_upto(
                        x0,
                        y0,
                        i as int + 1,
                        0,
                        px,
                        py,
                    ) by {};
                lemma_draw_region_shift(
                    p0,
                    m0.ram,
                    m0.index,
                    x0,
                    y0,
                    i as int,
                    j as int,
                    i as int + 1,
                    0,
                );
            }
            i = i + 1;
        }
        proof {
            assert forall|px: int, py: int|
                #![trigger drawn_upto(x0, y0, i as int, 0, px, py)]
                #![trigger drawn_upto(x0, y0, n as int, 0, px, py)]
                drawn_upto(x0, y0, i as int, 0, px, py) == drawn_upto(
                    x0,
                    y0,
                    n as int,
                    0,
                    px,
                    py,
                ) by {};
            lemma_draw_region_shift(p0, m0.ram, m0.index, x0, y0, i as int, 0, n as int, 0);
            assert(self@ =~= (MachineV {
                v: m0.v.update(15, if draw_hit(p0, m0.ram, m0.index, x0, y0, n) {
                    1u8
                } else {
                    0u8
                }),
                ..m0
            }));
            assert(scr@ =~= (ScreenV {
                pixels: draw_pixels(p0, m0.ram, m0.index, x0, y0, n),
                ..s0
            }));
        }
    }

    /// Execute one decoded instruction against the machine and the screen.
    #[verifier::rlimit(60)]
    fn exec_instr(&mut self, scr: &mut Screen, instr: Instr)
        requires
            old(self).wf(),
            old(scr).wf(),
            instr_wf(instr),
        ensures
            final(self).wf(),
            final(scr).wf(),
            exists|r: u8|
                final(self)@ == spec_exec(old(self)@, old(scr)@, instr, r).0 && final(scr)@
                    == spec_exec(old(self)@, old(scr)@, instr, r).1,
    {
        let ghost m0 = old(self)@;
        let ghost s0 = old(scr)@;
        let ghost mut rwit: u8 = 0;
        match instr {
            Instr::ClearScreen => {
                self.has_drawn = true;
                scr.clear();
            },
            Instr::Return => {
                let sp1: u16 = self.sp.wrapping_sub(1);
                let sp2: u16 = self.sp.wrapping_sub(2);
                let hi: u8 = self.ram[(sp1 as usize) % 4096];
                let lo: u8 = self.ram[(sp2 as usize) % 4096];
                self.pc = (hi as u16) * 256 + (lo as u16);
                self.sp = sp2;
            },
            Instr::Jump(nnn) => {
                self.pc = nnn;
            },
            Instr::Call(nnn) => {
                let lowb: u8 = (self.pc % 256) as u8;
                let highb: u8 = (self.pc / 256) as u8;
                let s1: u16 = self.sp.wrapping_add(1);
                let s2: u16 = self.sp.wrapping_add(2);
                self.ram.set((self.sp as usize) % 4096, lowb);
                self.ram.set((s1 as usize) % 4096, highb);
                self.sp = s2;
                self.pc = nnn;
            },
            Instr::SkipEqImm(x, nn) => {
                if self.v_reg[x as usize] == nn {
                    self.pc = self.pc.wrapping_add(2);
                }
            },
            Instr::SkipNeImm(x, nn) => {
                if self.v_reg[x as usize] != nn {
                    self.pc = self.pc.wrapping_add(2);
                }
            },
            Instr::SkipEqReg(x, y) => {
                if self.v_reg[x as usize] == self.v_reg[y as usize] {
                    self.pc = self.pc.wrapping_add(2);
                }
            },
            Instr::SkipNeReg(x, y) => {
                if self.v_reg[x as usize] != self.v_reg[y as usize] {
                    self.pc = self.pc.wrapping_add(2);
                }
            },
            Instr::LoadImm(x, nn) => {
                self.v_reg.set(x as usize, nn);
            },
            Instr::AddImm(x, nn) => {
                let vx: u8 = self.v_reg[x as usize];
                self.v_reg.set(x as usize, vx.wrapping_add(nn));
            },
            Instr::Assign(x, y) => {
                let vy: u8 = self.v_reg[y as usize];
                self.v_reg.set(x as usize, vy);
            },
            Instr::OrReg(x, y) => {
                let vx: u8 = self.v_reg[x as usize];
                let vy: u8 = self.v_reg[y as usize];
                self.v_reg.set(x as usize, vx | vy);
                self.v_reg.set(15, 0);
            },
            Instr::AndReg(x, y) => {
                let vx: u8 = self.v_reg[x as usize];
                let vy: u8 = self.v_reg[y as usize];
                self.v_reg.set(x as usize, vx & vy);
                self.v_reg.set(15, 0);
            },
            Instr::XorReg(x, y) => {
                let vx: u8 = self.v_reg[x as usize];
                let vy: u8 = self.v_reg[y as usize];
                self.v_reg.set(x as usize, vx ^ vy);
                self.v_reg.set(15, 0);
            },
            Instr::AddReg(x, y) => {
                let vx: u8 = self.v_reg[x as usize];
                let vy: u8 = self.v_reg[y as usize];
                let flag: u8 = if (vx as u16) + (vy as u16) > 255 {
                    1
                } else {
                    0
                };
                self.v_reg.set(x as usize, vx.wrapping_add(vy));
                self.v_reg.set(15, flag);
            },
            Instr::SubReg(x, y) => {
                let vx: u8 = self.v_reg[x as usize];
                let vy: u8 = self.v_reg[y as usize];
                let flag: u8 = if vx >= vy {
                    1
                } else {
                    0
                };
                self.v_reg.set(x as usize, vx.wrapping_sub(vy));
                self.v_reg.set(15, flag);
            },
            Instr::SubRev(x, y) => {
                let vx: u8 = self.v_reg[x as usize];
                let vy: u8 = self.v_reg[y as usize];
                let flag: u8 = if vy >= vx {
                    1
                } else {
                    0
                };
                self.v_reg.set(x as usize, vy.wrapping_sub(vx));
                self.v_reg.set(15, flag);
            },
            Instr::ShiftRight(x, y) => {
                let vy: u8 = self.v_reg[y as usize];
                let flag: u8 = vy % 2;
                self.v_reg.set(x as usize, vy / 2);
                self.v_reg.set(15, flag);
            },
            Instr::ShiftLeft(x, y) => {
                let vy: u8 = self.v_reg[y as usize];
                let flag: u8 = vy / 128;
                self.v_reg.set(x as usize, vy.wrapping_mul(2));
                self.v_reg.set(15, flag);
            },
            Instr::SetIndex(nnn) => {
                self.index = nnn;
            },
            Instr::JumpOffset(nnn) => {
                self.pc = nnn + (self.v_reg[0] as u16);
            },
            Instr::Random(x, nn) => {
                let r: u8 = random_byte();
                proof {
                    rwit = r;
                }
                self.v_reg.set(x as usize, r & nn);
            },
            Instr::Draw(x, y, n) => {
                self.has_drawn = true;
                let x0: u8 = self.v_reg[x as usize] % (SCREEN_W as u8);
                let y0: u8 = self.v_reg[y as usize] % (SCREEN_H as u8);
                self.draw_sprite(scr, x0, y0, n);
            },
            Instr::SkipKeyDown(x) => {
                let vx: u8 = self.v_reg[x as usize];
                if scr.is_key_pressed(vx) {
                    self.pc = self.pc.wrapping_add(2);
                }
            },
            Instr::SkipKeyUp(x) => {
                let vx: u8 = self.v_reg[x as usize];
                if !scr.is_key_pressed(vx) {
                    self.pc = self.pc.wrapping_add(2);
                }
            },
            Instr::ReadDelay(x) => {
                let t: u8 = self.delay_timer;
                self.v_reg.set(x as usize, t);
            },
            Instr::SetDelay(x) => {
                self.delay_timer = self.v_reg[x as usize];
            },
            Instr::SetSound(x) => {
                self.sound_timer = self.v_reg[x as usize];
            },
            Instr::AddIndex(x) => {
                let vx: u8 = self.v_reg[x as usize];
                self.index = self.index.wrapping_add(vx as u16);
            },
            Instr::FontAddr(x) => {
                let vx: u8 = self.v_reg[x as usize];
                self.index = 0x50 + (vx.wrapping_mul(5) as u16);
            },
            Instr::StoreBcd(x) => {
                let b: u8 = self.v_reg[x as usize];
                let i0: usize = self.index as usize;
                self.ram.set(i0 % 4096, b / 100);
                self.ram.set((i0 + 1) % 4096, (b / 10) % 10);
                self.ram.set((i0 + 2) % 4096, b % 10);
            },
            Instr::StoreRegs(x) => {
                let mut t: usize = 0;
                while t <= x as usize
                    invariant
                        old(self).wf(),
                        x < 16,
                        t <= x as usize + 1,
                        m0 == old(self)@,
                        self.ram@.len() == 4096,
                        self.v_reg@ == m0.v,
                        self.pc == m0.pc,
                        self.sp == m0.sp,
                        self.delay_timer == m0.delay,
                        self.sound_timer == m0.sound,
                        self.last_key == m0.awaited_key,
                        self.has_drawn == m0.drew,
                        self.unknown_op == m0.unknown_op,
                        self.since_tick_ms == m0.since_tick_ms,
                        self.clock_ms == m0.clock_ms,
                        self.ram@ == store_regs_upto(m0.ram, m0.v, m0.index, t as int).0,
                        self.index == store_regs_upto(m0.ram, m0.v, m0.index, t as int).1,
                    decreases x as usize + 1 - t,
                {
                    let idx: usize = (self.index as usize) % 4096;
                    let val: u8 = self.v_reg[t];
                    self.ram.set(idx, val);
                    self.index = self.index.wrapping_add(1);
                    proof {
                        assert(self.ram@ =~= store_regs_upto(m0.ram, m0.v, m0.index, t as int + 1).0);
                    }
                    t = t + 1;
                }
            },
            Instr::LoadRegs(x) => {
                let mut t: usize = 0;
                while t <= x as usize
                    invariant
                        old(self).wf(),
                        x < 16,
                        t <= x as usize + 1,
                        m0 == old(self)@,
                        self.ram@ == m0.ram,
                        self.ram@.len() == 4096,
                        self.v_reg@.len() == 16,
                        self.pc == m0.pc,
                        self.sp == m0.sp,
                        self.delay_timer == m0.delay,
                        self.sound_timer == m0.sound,
                        self.last_key == m0.awaited_key,
                        self.has_drawn == m0.drew,
                        self.unknown_op == m0.unknown_op,
                        self.since_tick_ms == m0.since_tick_ms,
                        self.clock_ms == m0.clock_ms,
                        self.v_reg@ == load_regs_upto(m0.ram, m0.v, m0.index, t as int).0,
                        self.index == load_regs_upto(m0.ram, m0.v, m0.index, t as int).1,
                    decreases x as usize + 1 - t,
                {
                    let val: u8 = self.ram[(self.index as usize) % 4096];
                    self.v_reg.set(t, val);
                    self.index = self.index.wrapping_add(1);
                    proof {
                        assert(self.v_reg@ =~= load_regs_upto(m0.ram, m0.v, m0.index, t as int + 1).0);
                    }
                    t = t + 1;
                }
            },
            Instr::WaitKey(x) => {
                match self.last_key {
                    Some(k) => {
                        if scr.is_key_pressed(k) {
                            self.pc = self.pc.wrapping_sub(2);
                        } else {
                            self.v_reg.set(x as usize, k);
                            self.last_key = None;
                        }
                    },
                    None => {
                        self.pc = self.pc.wrapping_sub(2);
                        self.last_key = scr.get_key_pressed();
                    },
                }
            },
            Instr::Unknown(op) => {
                self.unknown_op = Some(op);
            },
        }
        proof {
            assert(self@ =~= spec_exec(m0, s0, instr, rwit).0);
            assert(scr@ =~= spec_exec(m0, s0, instr, rwit).1);
        }
    }

    /// One fetch-decode-execute step against a screen.
    pub fn step_with(&mut self, scr: &mut Screen)
        requires
            old(self).wf(),
            old(scr).wf(),
        ensures
            final(self).wf(),
            final(scr).wf(),
            exists|r: u8|
                final(self)@ == spec_step(old(self)@, old(scr)@, r).0 && final(scr)@ == spec_step(
                    old(self)@,
                    old(scr)@,
                    r,
                ).1,
    {
        self.has_drawn = false;
        self.unknown_op = None;
        let op: u16 = self.fetch();
        let instr: Instr = decode(op);
        let ghost m1 = self@;
        let ghost s1 = scr@;
        self.exec_instr(scr, instr);
        proof {
            let r = choose|r: u8|
                self@ == spec_exec(m1, s1, instr, r).0 && scr@ == spec_exec(m1, s1, instr, r).1;
            assert(op == spec_op_at(old(self)@));
            assert(m1 =~= (MachineV {
                pc: add16(old(self)@.pc, 2),
                drew: false,
                unknown_op: None,
                ..old(self)@
            }));
            assert(self@ == spec_step(old(self)@, old(scr)@, r).0 && scr@ == spec_step(
                old(self)@,
                old(scr)@,
                r,
            ).1);
        }
    }

    /// One fetch-decode-execute step. A screen must be supplied whenever the
    /// fetched instruction consults or changes it; without one, the step acts
    /// on a blank throwaway screen.
    pub fn step(&mut self, screen: Option<&mut Screen>)
        requires
            old(self).wf(),
            screen.is_some() ==> (*screen.unwrap()).wf(),
            screen.is_none() ==> !instr_touches_screen(
                spec_decode(spec_op_at(old(self)@)),
            ),
        ensures
            final(self).wf(),
            screen.is_some() ==> (*final(screen.unwrap())).wf(),
            screen.is_some() ==> exists|r: u8|
                final(self)@ == spec_step(old(self)@, (*screen.unwrap())@, r).0
                    && (*final(screen.unwrap()))@ == spec_step(old(self)@, (*screen.unwrap())@, r).1,
            screen.is_none() ==> exists|r: u8|
                final(self)@ == spec_step(old(self)@, blank_screen(), r).0,
    {
        match screen {
            Some(scr) => {
                self.step_with(scr);
            },
            None => {
                let mut scratch: Screen = Screen::new();
                self.step_with(&mut scratch);
            },
        }
    }
}

/// The built-in font table as a vector.
fn make_font() -> (v: Vec<u8>)
    ensures
        v@ == font_seq(),
{
    let v: Vec<u8> = vec![
        0xF0, 0x90, 0x90, 0x90, 0xF0,
        0x20, 0x60, 0x20, 0x20, 0x70,
        0xF0, 0x10, 0xF0, 0x80, 0xF0,
        0xF0, 0x10, 0xF0, 0x10, 0xF0,
        0x90, 0x90, 0xF0, 0x10, 0x10,
        0xF0, 0x80, 0xF0, 0x10, 0xF0,
        0xF0, 0x80, 0xF0, 0x90, 0xF0,
        0xF0, 0x10, 0x20, 0x40, 0x40,
        0xF0, 0x90, 0xF0, 0x90, 0xF0,
        0xF0, 0x90, 0xF0, 0x10, 0xF0,
        0xF0, 0x90, 0xF0, 0x90, 0x90,
        0xE0, 0x90, 0xE0, 0x90, 0xE0,
        0xF0, 0x80, 0x80, 0x80, 0xF0,
        0xE0, 0x90, 0x90, 0x90, 0xE0,
        0xF0, 0x80, 0xF0, 0x80, 0xF0,
        0xF0, 0x80, 0xF0, 0x80, 0x80,
    ];
    proof {
        assert(v@ =~= font_seq());
    }
    v
}

} // verus!
