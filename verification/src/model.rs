//! Mathematical model of the machine: ghost state, instruction decoding and
//! the meaning of every instruction, written as spec functions.
use vstd::prelude::*;

verus! {

/// Size of the machine's flat byte-addressable memory.
pub const RAM_SIZE: usize = 4096;

/// Number of general-purpose 8-bit registers.
pub const N_REGS: usize = 16;

/// Address at which loaded programs begin.
pub const START_PGM: u16 = 0x200;

/// Address at which the built-in font table begins.
pub const START_FONT: u16 = 0x50;

/// Screen width in pixels.
pub const SCREEN_W: usize = 64;

/// Screen height in pixels.
pub const SCREEN_H: usize = 32;

/// Number of pixels in the screen buffer.
pub const N_PIXELS: usize = 2048;

/// Number of keys on the keypad.
pub const N_KEYS: usize = 16;

/// Milliseconds per timer quantum (about 1/60 second).
pub const TICK_MS: u64 = 16;

/// Ghost view of the whole interpreter state.
#[verifier::ext_equal]
pub ghost struct MachineV {
    pub pc: u16,
    pub sp: u16,
    pub index: u16,
    pub v: Seq<u8>,
    pub ram: Seq<u8>,
    pub delay: u8,
    pub sound: u8,
    /// Key remembered by the blocking key-wait instruction, awaiting release.
    pub awaited_key: Option<u8>,
    /// True when the last step visibly changed the display.
    pub drew: bool,
    /// Opcode of the last step, when it was not a recognized instruction.
    pub unknown_op: Option<u16>,
    /// Milliseconds accumulated since the last timer decrement.
    pub since_tick_ms: u64,
    /// Wall-clock sample at the last driver-paced timer update; 0 before the first.
    pub clock_ms: u64,
}

/// Ghost view of the screen state the interpreter reads and writes.
#[verifier::ext_equal]
pub ghost struct ScreenV {
    /// Row-major 64x32 pixel buffer; every entry is 0 or 1.
    pub pixels: Seq<u8>,
    pub keypad: Seq<bool>,
}

pub open spec fn machine_wf(m: MachineV) -> bool {
    &&& m.v.len() == 16
    &&& m.ram.len() == 4096
}

pub open spec fn screen_wf(s: ScreenV) -> bool {
    &&& s.pixels.len() == 2048
    &&& s.keypad.len() == 16
    &&& forall|k: int| 0 <= k < 2048 ==> s.pixels[k] <= 1
}

/// The machine as it is created: everything zero, the program counter at the
/// load address.
pub open spec fn initial_machine() -> MachineV {
    MachineV {
        pc: 0x200,
        sp: 0,
        index: 0,
        v: Seq::new(16, |i: int| 0u8),
        ram: Seq::new(4096, |i: int| 0u8),
        delay: 0,
        sound: 0,
        awaited_key: None,
        drew: false,
        unknown_op: None,
        since_tick_ms: 0,
        clock_ms: 0,
    }
}

/// A screen with all pixels off and no key held.
pub open spec fn blank_screen() -> ScreenV {
    ScreenV { pixels: Seq::new(2048, |i: int| 0u8), keypad: Seq::new(16, |i: int| false) }
}

/// Wrap-around addition on 16-bit words.
pub open spec fn add16(a: u16, b: u16) -> u16 {
    if a + b > 0xFFFF {
        (a + b - 0x10000) as u16
    } else {
        (a + b) as u16
    }
}

/// Wrap-around subtraction on 16-bit words.
pub open spec fn sub16(a: u16, b: u16) -> u16 {
    if a - b < 0 {
        (a - b + 0x10000) as u16
    } else {
        (a - b) as u16
    }
}

/// Wrap-around addition on bytes.
pub open spec fn add8(a: u8, b: u8) -> u8 {
    if a + b > 0xFF {
        (a + b - 0x100) as u8
    } else {
        (a + b) as u8
    }
}

/// Wrap-around subtraction on bytes.
pub open spec fn sub8(a: u8, b: u8) -> u8 {
    if a - b < 0 {
        (a - b + 0x100) as u8
    } else {
        (a - b) as u8
    }
}

/// Saturating addition on 64-bit counters.
pub open spec fn sat_add64(a: u64, b: u64) -> u64 {
    if a + b > u64::MAX {
        u64::MAX
    } else {
        (a + b) as u64
    }
}

/// Memory read; every address is taken modulo the memory size, so reads are
/// total (a deliberate robustness choice for malformed operands).
pub open spec fn ram_at(ram: Seq<u8>, a: int) -> u8 {
    ram[a % 4096]
}

/// Memory write, total in the same way as `ram_at`.
pub open spec fn ram_set(ram: Seq<u8>, a: int, val: u8) -> Seq<u8> {
    ram.update(a % 4096, val)
}

/// The 16-bit big-endian opcode stored at the program counter.
pub open spec fn spec_op_at(m: MachineV) -> u16 {
    (ram_at(m.ram, m.pc as int) * 256 + ram_at(m.ram, m.pc as int + 1)) as u16
}

/// One decoded instruction. Field order follows the opcode layout:
/// register selectors x and y, then the immediate.
#[derive(Clone, Copy, Debug)]
pub enum Instr {
    ClearScreen,
    Return,
    Jump(u16),
    Call(u16),
    SkipEqImm(u8, u8),
    SkipNeImm(u8, u8),
    SkipEqReg(u8, u8),
    SkipNeReg(u8, u8),
    LoadImm(u8, u8),
    AddImm(u8, u8),
    Assign(u8, u8),
    OrReg(u8, u8),
    AndReg(u8, u8),
    XorReg(u8, u8),
    AddReg(u8, u8),
    SubReg(u8, u8),
    SubRev(u8, u8),
    ShiftRight(u8, u8),
    ShiftLeft(u8, u8),
    SetIndex(u16),
    JumpOffset(u16),
    Random(u8, u8),
    Draw(u8, u8, u8),
    SkipKeyDown(u8),
    SkipKeyUp(u8),
    ReadDelay(u8),
    SetDelay(u8),
    SetSound(u8),
    AddIndex(u8),
    FontAddr(u8),
    StoreBcd(u8),
    StoreRegs(u8),
    LoadRegs(u8),
    WaitKey(u8),
    Unknown(u16),
}

/// First register selector of an opcode.
pub open spec fn op_x(op: u16) -> u8 {
    ((op / 0x100) % 16) as u8
}

/// Second register selector of an opcode.
pub open spec fn op_y(op: u16) -> u8 {
    ((op / 16) % 16) as u8
}

/// Low nibble of an opcode.
pub open spec fn op_n(op: u16) -> u8 {
    (op % 16) as u8
}

/// Low byte of an opcode.
pub open spec fn op_nn(op: u16) -> u8 {
    (op % 0x100) as u8
}

/// Low 12 bits of an opcode: an address field.
pub open spec fn op_nnn(op: u16) -> u16 {
    (op % 0x1000) as u16
}

pub open spec fn spec_decode(op: u16) -> Instr {
    let hi = op / 0x1000;
    if hi == 0x0 {
        if op_nn(op) == 0xE0 {
            Instr::ClearScreen
        } else if op_nn(op) == 0xEE {
            Instr::Return
        } else {
            Instr::Unknown(op)
        }
    } else if hi == 0x1 {
        Instr::Jump(op_nnn(op))
    } else if hi == 0x2 {
        Instr::Call(op_nnn(op))
    } else if hi == 0x3 {
        Instr::SkipEqImm(op_x(op), op_nn(op))
    } else if hi == 0x4 {
        Instr::SkipNeImm(op_x(op), op_nn(op))
    } else if hi == 0x5 {
        Instr::SkipEqReg(op_x(op), op_y(op))
    } else if hi == 0x6 {
        Instr::LoadImm(op_x(op), op_nn(op))
    } else if hi == 0x7 {
        Instr::AddImm(op_x(op), op_nn(op))
    } else if hi == 0x8 {
        let k = op % 16;
        if k == 0x0 {
            Instr::Assign(op_x(op), op_y(op))
        } else if k == 0x1 {
            Instr::OrReg(op_x(op), op_y(op))
        } else if k == 0x2 {
            Instr::AndReg(op_x(op), op_y(op))
        } else if k == 0x3 {
            Instr::XorReg(op_x(op), op_y(op))
        } else if k == 0x4 {
            Instr::AddReg(op_x(op), op_y(op))
        } else if k == 0x5 {
            Instr::SubReg(op_x(op), op_y(op))
        } else if k == 0x6 {
            Instr::ShiftRight(op_x(op), op_y(op))
        } else if k == 0x7 {
            Instr::SubRev(op_x(op), op_y(op))
        } else if k == 0xE {
            Instr::ShiftLeft(op_x(op), op_y(op))
        } else {
            Instr::Unknown(op)
        }
    } else if hi == 0x9 {
        Instr::SkipNeReg(op_x(op), op_y(op))
    } else if hi == 0xA {
        Instr::SetIndex(op_nnn(op))
    } else if hi == 0xB {
        Instr::JumpOffset(op_nnn(op))
    } else if hi == 0xC {
        Instr::Random(op_x(op), op_nn(op))
    } else if hi == 0xD {
        Instr::Draw(op_x(op), op_y(op), op_n(op))
    } else if hi == 0xE {
        if op_nn(op) == 0x9E {
            Instr::SkipKeyDown(op_x(op))
        } else if op_nn(op) == 0xA1 {
            Instr::SkipKeyUp(op_x(op))
        } else {
            Instr::Unknown(op)
        }
    } else {
        if op_nn(op) == 0x07 {
            Instr::ReadDelay(op_x(op))
        } else if op_nn(op) == 0x15 {
            Instr::SetDelay(op_x(op))
        } else if op_nn(op) == 0x18 {
            Instr::SetSound(op_x(op))
        } else if op_nn(op) == 0x1E {
            Instr::AddIndex(op_x(op))
        } else if op_nn(op) == 0x29 {
            Instr::FontAddr(op_x(op))
        } else if op_nn(op) == 0x33 {
            Instr::StoreBcd(op_x(op))
        } else if op_nn(op) == 0x55 {
            Instr::StoreRegs(op_x(op))
        } else if op_nn(op) == 0x65 {
            Instr::LoadRegs(op_x(op))
        } else if op_nn(op) == 0x0A {
            Instr::WaitKey(op_x(op))
        } else {
            Instr::Unknown(op)
        }
    }
}

/// Every register selector a decoded instruction carries is in range.
pub open spec fn instr_wf(i: Instr) -> bool {
    match i {
        Instr::ClearScreen => true,
        Instr::Return => true,
        Instr::Jump(nnn) => nnn < 0x1000,
        Instr::Call(nnn) => nnn < 0x1000,
        Instr::SkipEqImm(x, _) => x < 16,
        Instr::SkipNeImm(x, _) => x < 16,
        Instr::SkipEqReg(x, y) => x < 16 && y < 16,
        Instr::SkipNeReg(x, y) => x < 16 && y < 16,
        Instr::LoadImm(x, _) => x < 16,
        Instr::AddImm(x, _) => x < 16,
        Instr::Assign(x, y) => x < 16 && y < 16,
        Instr::OrReg(x, y) => x < 16 && y < 16,
        Instr::AndReg(x, y) => x < 16 && y < 16,
        Instr::XorReg(x, y) => x < 16 && y < 16,
        Instr::AddReg(x, y) => x < 16 && y < 16,
        Instr::SubReg(x, y) => x < 16 && y < 16,
        Instr::SubRev(x, y) => x < 16 && y < 16,
        Instr::ShiftRight(x, y) => x < 16 && y < 16,
        Instr::ShiftLeft(x, y) => x < 16 && y < 16,
        Instr::SetIndex(nnn) => nnn < 0x1000,
        Instr::JumpOffset(nnn) => nnn < 0x1000,
        Instr::Random(x, _) => x < 16,
        Instr::Draw(x, y, n) => x < 16 && y < 16 && n < 16,
        Instr::SkipKeyDown(x) => x < 16,
        Instr::SkipKeyUp(x) => x < 16,
        Instr::ReadDelay(x) => x < 16,
        Instr::SetDelay(x) => x < 16,
        Instr::SetSound(x) => x < 16,
        Instr::AddIndex(x) => x < 16,
        Instr::FontAddr(x) => x < 16,
        Instr::StoreBcd(x) => x < 16,
        Instr::StoreRegs(x) => x < 16,
        Instr::LoadRegs(x) => x < 16,
        Instr::WaitKey(x) => x < 16,
        Instr::Unknown(_) => true,
    }
}

/// Instructions that consult or change the screen capability.
pub open spec fn instr_touches_screen(i: Instr) -> bool {
    match i {
        Instr::ClearScreen => true,
        Instr::Draw(_, _, _) => true,
        Instr::SkipKeyDown(_) => true,
        Instr::SkipKeyUp(_) => true,
        Instr::WaitKey(_) => true,
        _ => false,
    }
}

/// Whether key `k` is currently held; keys outside the keypad are never held.
pub open spec fn key_down(s: ScreenV, k: u8) -> bool {
    k < 16 && s.keypad[k as int]
}

/// The lowest-numbered held key at or above position `i`, if any.
pub open spec fn first_key(keypad: Seq<bool>, i: int) -> Option<u8>
    decreases 16 - i,
{
    if i < 0 || i >= 16 {
        None
    } else if keypad[i] {
        Some(i as u8)
    } else {
        first_key(keypad, i + 1)
    }
}

/// Exclusive-or of two pixel bits, each 0 or 1.
pub open spec fn xor_bit(p: u8, b: u8) -> u8 {
    if b == 1 {
        if p == 1 {
            0
        } else {
            1
        }
    } else {
        p
    }
}

/// Bit `col` (from the left) of sprite row `row`, read from memory.
pub open spec fn sprite_bit(ram: Seq<u8>, index: u16, row: int, col: int) -> u8 {
    if (ram_at(ram, index as int + row) >> ((7 - col) as u8)) & 1 == 1 {
        1
    } else {
        0
    }
}

/// Whether pixel (px, py) has been written after `rows` complete sprite rows
/// and `cols` pixels of the next row, for a sprite drawn at (x0, y0).
/// Drawing clips at the right and bottom screen edges.
pub open spec fn drawn_upto(x0: u8, y0: u8, rows: int, cols: int, px: int, py: int) -> bool {
    &&& x0 <= px < x0 + 8
    &&& px < 64
    &&& y0 <= py
    &&& py < 32
    &&& (py - y0 < rows || (py - y0 == rows && px - x0 < cols))
}

/// The pixel buffer after the first `rows` rows and `cols` further pixels of
/// a sprite draw: touched pixels are xor-combined with the sprite bit.
pub open spec fn draw_partial(
    p0: Seq<u8>,
    ram: Seq<u8>,
    index: u16,
    x0: u8,
    y0: u8,
    rows: int,
    cols: int,
) -> Seq<u8> {
    Seq::new(
        2048,
        |k: int|
            if drawn_upto(x0, y0, rows, cols, k % 64, k / 64) {
                xor_bit(p0[k], sprite_bit(ram, index, k / 64 - y0, k % 64 - x0))
            } else {
                p0[k]
            },
    )
}

/// Whether the partial draw has turned off some pixel that was on: the
/// collision condition, evaluated against the buffer before the draw.
pub open spec fn hit_upto(
    p0: Seq<u8>,
    ram: Seq<u8>,
    index: u16,
    x0: u8,
    y0: u8,
    rows: int,
    cols: int,
) -> bool {
    exists|px: int, py: int|
        #[trigger] drawn_upto(x0, y0, rows, cols, px, py) && p0[py * 64 + px] == 1 && sprite_bit(
            ram,
            index,
            py - y0,
            px - x0,
        ) == 1
}

/// The pixel buffer after a complete draw of an `n`-row sprite at (x0, y0).
pub open spec fn draw_pixels(p0: Seq<u8>, ram: Seq<u8>, index: u16, x0: u8, y0: u8, n: u8) -> Seq<
    u8,
> {
    draw_partial(p0, ram, index, x0, y0, n as int, 0)
}

/// The collision flag of a complete draw.
pub open spec fn draw_hit(p0: Seq<u8>, ram: Seq<u8>, index: u16, x0: u8, y0: u8, n: u8) -> bool {
    hit_upto(p0, ram, index, x0, y0, n as int, 0)
}

/// Memory and index register after storing registers 0 ..= k-1 to memory,
/// the index register advancing by one per register.
pub open spec fn store_regs_upto(ram: Seq<u8>, v: Seq<u8>, idx: u16, k: int) -> (Seq<u8>, u16)
    decreases k,
{
    if k <= 0 {
        (ram, idx)
    } else {
        let (r2, i2) = store_regs_upto(ram, v, idx, k - 1);
        (ram_set(r2, i2 as int, v[k - 1]), add16(i2, 1))
    }
}

/// Registers and index register after loading registers 0 ..= k-1 from memory.
pub open spec fn load_regs_upto(ram: Seq<u8>, v: Seq<u8>, idx: u16, k: int) -> (Seq<u8>, u16)
    decreases k,
{
    if k <= 0 {
        (v, idx)
    } else {
        let (v2, i2) = load_regs_upto(ram, v, idx, k - 1);
        (v2.update(k - 1, ram_at(ram, i2 as int)), add16(i2, 1))
    }
}

/// The effect of one decoded instruction on the machine and the screen.
/// `m` is the state after the fetch: the program counter has already advanced
/// past the instruction. `rnd` stands for the byte the random source produced.
pub open spec fn spec_exec(m: MachineV, s: ScreenV, i: Instr, rnd: u8) -> (MachineV, ScreenV) {
    match i {
        Instr::ClearScreen => (
            MachineV { drew: true, ..m },
            ScreenV { pixels: Seq::new(2048, |k: int| 0u8), ..s },
        ),
        Instr::Return => {
            let sp1 = sub16(m.sp, 1);
            let sp2 = sub16(m.sp, 2);
            let hi = ram_at(m.ram, sp1 as int);
            let lo = ram_at(m.ram, sp2 as int);
            (MachineV { pc: (hi * 256 + lo) as u16, sp: sp2, ..m }, s)
        },
        Instr::Jump(nnn) => (MachineV { pc: nnn, ..m }, s),
        Instr::Call(nnn) => {
            let ram2 = ram_set(m.ram, m.sp as int, (m.pc % 256) as u8);
            let ram3 = ram_set(ram2, add16(m.sp, 1) as int, (m.pc / 256) as u8);
            (MachineV { pc: nnn, sp: add16(m.sp, 2), ram: ram3, ..m }, s)
        },
        Instr::SkipEqImm(x, nn) => (
            if m.v[x as int] == nn {
                MachineV { pc: add16(m.pc, 2), ..m }
            } else {
                m
            },
            s,
        ),
        Instr::SkipNeImm(x, nn) => (
            if m.v[x as int] != nn {
                MachineV { pc: add16(m.pc, 2), ..m }
            } else {
                m
            },
            s,
        ),
        Instr::SkipEqReg(x, y) => (
            if m.v[x as int] == m.v[y as int] {
                MachineV { pc: add16(m.pc, 2), ..m }
            } else {
                m
            },
            s,
        ),
        Instr::SkipNeReg(x, y) => (
            if m.v[x as int] != m.v[y as int] {
                MachineV { pc: add16(m.pc, 2), ..m }
            } else {
                m
            },
            s,
        ),
        Instr::LoadImm(x, nn) => (MachineV { v: m.v.update(x as int, nn), ..m }, s),
        Instr::AddImm(x, nn) => (
            MachineV { v: m.v.update(x as int, add8(m.v[x as int], nn)), ..m },
            s,
        ),
        Instr::Assign(x, y) => (MachineV { v: m.v.update(x as int, m.v[y as int]), ..m }, s),
        Instr::OrReg(x, y) => (
            MachineV { v: m.v.update(x as int, m.v[x as int] | m.v[y as int]).update(15, 0), ..m },
            s,
        ),
        Instr::AndReg(x, y) => (
            MachineV { v: m.v.update(x as int, m.v[x as int] & m.v[y as int]).update(15, 0), ..m },
            s,
        ),
        Instr::XorReg(x, y) => (
            MachineV { v: m.v.update(x as int, m.v[x as int] ^ m.v[y as int]).update(15, 0), ..m },
            s,
        ),
        Instr::AddReg(x, y) => {
            let flag: u8 = if m.v[x as int] + m.v[y as int] > 255 {
                1
            } else {
                0
            };
            (
                MachineV {
                    v: m.v.update(x as int, add8(m.v[x as int], m.v[y as int])).update(15, flag),
                    ..m
                },
                s,
            )
        },
        Instr::SubReg(x, y) => {
            let flag: u8 = if m.v[x as int] >= m.v[y as int] {
                1
            } else {
                0
            };
            (
                MachineV {
                    v: m.v.update(x as int, sub8(m.v[x as int], m.v[y as int])).update(15, flag),
                    ..m
                },
                s,
            )
        },
        Instr::SubRev(x, y) => {
            let flag: u8 = if m.v[y as int] >= m.v[x as int] {
                1
            } else {
                0
            };
            (
                MachineV {
                    v: m.v.update(x as int, sub8(m.v[y as int], m.v[x as int])).update(15, flag),
                    ..m
                },
                s,
            )
        },
        Instr::ShiftRight(x, y) => {
            let flag: u8 = (m.v[y as int] % 2) as u8;
            (
                MachineV {
                    v: m.v.update(x as int, (m.v[y as int] / 2) as u8).update(15, flag),
                    ..m
                },
                s,
            )
        },
        Instr::ShiftLeft(x, y) => {
            let flag: u8 = (m.v[y as int] / 128) as u8;
            (
                MachineV {
                    v: m.v.update(x as int, ((m.v[y as int] * 2) % 256) as u8).update(15, flag),
                    ..m
                },
                s,
            )
        },
        Instr::SetIndex(nnn) => (MachineV { index: nnn, ..m }, s),
        Instr::JumpOffset(nnn) => (MachineV { pc: (nnn + m.v[0]) as u16, ..m }, s),
        Instr::Random(x, nn) => (MachineV { v: m.v.update(x as int, rnd & nn), ..m }, s),
        Instr::Draw(x, y, n) => {
            let x0: u8 = (m.v[x as int] % 64) as u8;
            let y0: u8 = (m.v[y as int] % 32) as u8;
            let flag: u8 = if draw_hit(s.pixels, m.ram, m.index, x0, y0, n) {
                1
            } else {
                0
            };
            (
                MachineV { v: m.v.update(15, flag), drew: true, ..m },
                ScreenV { pixels: draw_pixels(s.pixels, m.ram, m.index, x0, y0, n), ..s },
            )
        },
        Instr::SkipKeyDown(x) => (
            if key_down(s, m.v[x as int]) {
                MachineV { pc: add16(m.pc, 2), ..m }
            } else {
                m
            },
            s,
        ),
        Instr::SkipKeyUp(x) => (
            if !key_down(s, m.v[x as int]) {
                MachineV { pc: add16(m.pc, 2), ..m }
            } else {
                m
            },
            s,
        ),
        Instr::ReadDelay(x) => (MachineV { v: m.v.update(x as int, m.delay), ..m }, s),
        Instr::SetDelay(x) => (MachineV { delay: m.v[x as int], ..m }, s),
        Instr::SetSound(x) => (MachineV { sound: m.v[x as int], ..m }, s),
        Instr::AddIndex(x) => (MachineV { index: add16(m.index, m.v[x as int] as u16), ..m }, s),
        Instr::FontAddr(x) => (
            MachineV { index: (0x50 + (m.v[x as int] * 5) % 256) as u16, ..m },
            s,
        ),
        Instr::StoreBcd(x) => {
            let b = m.v[x as int];
            let ram2 = ram_set(m.ram, m.index as int, (b / 100) as u8);
            let ram3 = ram_set(ram2, m.index as int + 1, ((b / 10) % 10) as u8);
            let ram4 = ram_set(ram3, m.index as int + 2, (b % 10) as u8);
            (MachineV { ram: ram4, ..m }, s)
        },
        Instr::StoreRegs(x) => {
            let (ram2, idx2) = store_regs_upto(m.ram, m.v, m.index, x as int + 1);
            (MachineV { ram: ram2, index: idx2, ..m }, s)
        },
        Instr::LoadRegs(x) => {
            let (v2, idx2) = load_regs_upto(m.ram, m.v, m.index, x as int + 1);
            (MachineV { v: v2, index: idx2, ..m }, s)
        },
        Instr::WaitKey(x) => {
            match m.awaited_key {
                Some(k) => {
                    if key_down(s, k) {
                        (MachineV { pc: sub16(m.pc, 2), ..m }, s)
                    } else {
                        (MachineV { v: m.v.update(x as int, k), awaited_key: None, ..m }, s)
                    }
                },
                None => (
                    MachineV { pc: sub16(m.pc, 2), awaited_key: first_key(s.keypad, 0), ..m },
                    s,
                ),
            }
        },
        Instr::Unknown(op) => (MachineV { unknown_op: Some(op), ..m }, s),
    }
}

/// The effect of one whole step: fetch the opcode, advance the program
/// counter, reset the per-step flags, then execute the decoded instruction.
pub open spec fn spec_step(m: MachineV, s: ScreenV, rnd: u8) -> (MachineV, ScreenV) {
    let op = spec_op_at(m);
    let m1 = MachineV { pc: add16(m.pc, 2), drew: false, unknown_op: None, ..m };
    spec_exec(m1, s, spec_decode(op), rnd)
}

/// The timer state after `elapsed` further milliseconds: once a whole quantum
/// has accumulated, both timers decrement (saturating at zero) and the
/// accumulator resets; otherwise nothing but the accumulator changes.
pub open spec fn spec_tick(m: MachineV, elapsed: u64) -> MachineV {
    let acc = sat_add64(m.since_tick_ms, elapsed);
    if acc >= TICK_MS {
        MachineV {
            delay: if m.delay > 0 {
                (m.delay - 1) as u8
            } else {
                0
            },
            sound: if m.sound > 0 {
                (m.sound - 1) as u8
            } else {
                0
            },
            since_tick_ms: 0,
            ..m
        }
    } else {
        MachineV { since_tick_ms: acc, ..m }
    }
}

/// A driver-paced timer update at wall-clock time `now`: the time since the
/// previous update is fed to the quantum accounting of `spec_tick`.
pub open spec fn spec_wall_tick(m: MachineV, now: u64) -> MachineV {
    let d: u64 = if m.clock_ms != 0 && now >= m.clock_ms {
        (now - m.clock_ms) as u64
    } else {
        0
    };
    spec_tick(MachineV { clock_ms: now, ..m }, d)
}

/// The built-in font table: 16 glyphs of 5 rows each.
pub open spec fn font_seq() -> Seq<u8> {
    seq![
        0xF0u8, 0x90, 0x90, 0x90, 0xF0,
        0x20, 0x60, 0x20, 0x20, 0x70,
        0xF0, 0x10, 0xF0, 0x80, 0xF0,
        0xF0, 0x10, 0xF0, 0x10, 0xF0,
        0x90, 0x90, 0xF0, 0x10, 0x10,
        0xF0, 0x80, 0xF0, 0x10, 0xF0,
        0xF0, 0x80, 0xF0, 0x90, 0xF0,
        0xF0, 0x10, 0x20, 0x40, 0x40,
        0xF0, 0x90, 0xF0, 0x90, 0xF0,
        0xF0, 0x90, 0xF0, 0x10, 0xF0,
        0xF0, 0x90, 0xF0, 0x90, 0x90,
        0xE0, 0x90, 0xE0, 0x90, 0xE0,
        0xF0, 0x80, 0x80, 0x80, 0xF0,
        0xE0, 0x90, 0x90, 0x90, 0xE0,
        0xF0, 0x80, 0xF0, 0x80, 0xF0,
        0xF0, 0x80, 0xF0, 0x80, 0x80,
    ]
}

/// Memory after a program load: the font table at its fixed offset, the
/// program bytes from the load address up, everything else untouched.
pub open spec fn spec_load(ram: Seq<u8>, rom: Seq<u8>) -> Seq<u8> {
    Seq::new(
        4096,
        |i: int|
            if 0x50 <= i < 0xA0 {
                font_seq()[i - 0x50]
            } else if 0x200 <= i < 0x200 + rom.len() {
                rom[i - 0x200]
            } else {
                ram[i]
            },
    )
}

} // verus!
