//! The machine state and its fetch-decode-execute step.
use vstd::prelude::*;

use crate::display::{filled, on_screen, Display};
use crate::instruction::{decode, decoded, operands_in_range, Instruction};

verus! {

/// Size of the addressable memory in bytes.
pub const MEMORY_SIZE: usize = 4096;

/// Address at which programs are loaded and execution starts.
pub const PROGRAM_START: usize = 0x200;

/// Longest program that fits between `PROGRAM_START` and the end of memory.
pub const MAX_PROGRAM_LEN: usize = 3584;

/// Address of the built-in font: 16 glyphs of 5 bytes, digits 0 to F.
pub const FONT_START: usize = 0x50;

/// Register that receives carry, borrow, shifted-out and collision flags.
pub const FLAG_REGISTER: usize = 15;

/// Value of the sound timer in a fresh machine.
pub const STARTUP_SOUND_TIMER: u8 = 5;

/// Which historical variant each quirky instruction follows; `true` selects
/// the older behaviour.
#[derive(Clone, Copy, Debug)]
pub struct OldBehaviourConfig {
    /// FX65 leaves I just past the last register loaded.
    pub fx65: bool,
    /// FX55 leaves I just past the last register stored.
    pub fx55: bool,
    /// 8XY6 copies VY into VX before shifting.
    pub i_8xy6: bool,
    /// 8XYE copies VY into VX before shifting.
    pub i_8xye: bool,
    /// BNNN adds V0 rather than VX.
    pub bnnn: bool,
    /// FX1E leaves VF untouched rather than reporting overflow.
    pub fx1e: bool,
}

/// A key of the 16-key keypad.
#[derive(Clone, Copy, Debug, PartialEq, Eq, Structural)]
pub enum InputKey {
    D0,
    D1,
    D2,
    D3,
    D4,
    D5,
    D6,
    D7,
    D8,
    D9,
    A,
    B,
    C,
    D,
    E,
    F,
}

/// The keypad code of `k`, 0x0 to 0xF.
pub open spec fn key_code(k: InputKey) -> u8 {
    match k {
        InputKey::D0 => 0x0,
        InputKey::D1 => 0x1,
        InputKey::D2 => 0x2,
        InputKey::D3 => 0x3,
        InputKey::D4 => 0x4,
        InputKey::D5 => 0x5,
        InputKey::D6 => 0x6,
        InputKey::D7 => 0x7,
        InputKey::D8 => 0x8,
        InputKey::D9 => 0x9,
        InputKey::A => 0xA,
        InputKey::B => 0xB,
        InputKey::C => 0xC,
        InputKey::D => 0xD,
        InputKey::E => 0xE,
        InputKey::F => 0xF,
    }
}

impl InputKey {
    /// The keypad code of this key.
    pub fn code(&self) -> (r: u8)
        ensures
            r == key_code(*self),
            r < 16,
    {
        match self {
            InputKey::D0 => 0x0,
            InputKey::D1 => 0x1,
            InputKey::D2 => 0x2,
            InputKey::D3 => 0x3,
            InputKey::D4 => 0x4,
            InputKey::D5 => 0x5,
            InputKey::D6 => 0x6,
            InputKey::D7 => 0x7,
            InputKey::D8 => 0x8,
            InputKey::D9 => 0x9,
            InputKey::A => 0xA,
            InputKey::B => 0xB,
            InputKey::C => 0xC,
            InputKey::D => 0xD,
            InputKey::E => 0xE,
            InputKey::F => 0xF,
        }
    }
}

/// What the keypad reports for one cycle: the keys held down, indexed by
/// keypad code, and the key released during the cycle, if any.
#[derive(Clone, Copy, Debug)]
pub struct CHIP8Input {
    pub pressed_keys: [bool; 16],
    pub released_key: Option<InputKey>,
}

/// What one cycle reports back.
#[derive(Clone, Copy, Debug, PartialEq, Eq, Structural)]
pub struct CHIP8Output {
    /// The screen changed: it was cleared or drawn on.
    pub request_redraw: bool,
}

/// Why a program could not be loaded or a step could not be taken. A failed
/// step leaves the machine and the screen as they were.
#[derive(Clone, Copy, Debug, PartialEq, Eq, Structural)]
pub enum Chip8Error {
    /// The fetched word is outside the instruction table.
    UnknownOpcode(u16),
    /// 00EE was executed with an empty call stack.
    StackUnderflow,
    /// The program counter does not leave room for a two-byte instruction.
    ProgramCounterOutOfRange,
    /// The instruction would read or write memory past its end.
    AddressOutOfRange,
    /// The program does not fit between `PROGRAM_START` and the end of memory.
    ProgramTooLarge,
}

/// The machine as a mathematical value.
pub ghost struct MachineState {
    pub pc: int,
    pub memory: Seq<u8>,
    pub stack: Seq<u16>,
    /// The address register I.
    pub index: u16,
    /// The registers V0 to VF.
    pub v: Seq<u8>,
    pub delay_timer: u8,
    pub sound_timer: u8,
    pub quirks: OldBehaviourConfig,
}

/// The built-in font, glyph by glyph.
pub open spec fn font() -> Seq<u8> {
    seq![
        0xF0u8, 0x90, 0x90, 0x90, 0xF0,
        0x20, 0x60, 0x20, 0x20, 0x70,
        0xF0, 0x10, 0xF0, 0x80, 0xF0,
        0xF0, 0x10, 0xF0, 0x10, 0xF0,
        0x90, 0x90, 0xF0, 0x10, 0x10,
        0xF0, 0x80, 0xF0, 0x10, 0xF0,
        0xF0, 0x80, 0xF0, 0x90, 0xF0,
        0xF0, 0x10, 0x20, 0x40, 0x40,
        0xF0, 0x90, 0xF0, 0x90, 0xF0,
        0xF0, 0x90, 0xF0, 0x10, 0xF0,
        0xF0, 0x90, 0xF0, 0x90, 0x90,
        0xE0, 0x90, 0xE0, 0x90, 0xE0,
        0xF0, 0x80, 0x80, 0x80, 0xF0,
        0xE0, 0x90, 0x90, 0x90, 0xE0,
        0xF0, 0x80, 0xF0, 0x80, 0xF0,
        0xF0, 0x80, 0xF0, 0x80, 0x80,
    ]
}

/// Memory of a fresh machine: the font at `FONT_START`, zero elsewhere.
pub open spec fn initial_memory() -> Seq<u8> {
    Seq::new(4096, |a: int| if 0x50 <= a < 0xA0 { font()[a - 0x50] } else { 0u8 })
}

/// A fresh machine with the given quirks.
pub open spec fn initial_state(quirks: OldBehaviourConfig) -> MachineState {
    MachineState {
        pc: 0x200,
        memory: initial_memory(),
        stack: Seq::empty(),
        index: 0,
        v: Seq::new(16, |r: int| 0u8),
        delay_timer: 0,
        sound_timer: 5,
        quirks,
    }
}

/// `memory` with `program` placed from `PROGRAM_START` on.
pub open spec fn with_program(memory: Seq<u8>, program: Seq<u8>) -> Seq<u8> {
    Seq::new(
        memory.len(),
        |a: int| if 0x200 <= a < 0x200 + program.len() { program[a - 0x200] } else { memory[a] },
    )
}

/// The instruction word at `pc`, big-endian.
pub open spec fn opcode_at(memory: Seq<u8>, pc: int) -> u16 {
    (memory[pc] * 256 + memory[pc + 1]) as u16
}

/// 1 for a set flag, 0 otherwise.
pub open spec fn flag(b: bool) -> u8 {
    if b {
        1
    } else {
        0
    }
}

/// Whether key `k` is held down; a value past 0xF names no key and is never held.
pub open spec fn key_held(keys: Seq<bool>, k: u8) -> bool {
    k < 16 && keys[k as int]
}

/// `s` with one more instruction skipped when `c` holds.
pub open spec fn skip_if(s: MachineState, c: bool) -> MachineState {
    if c {
        MachineState { pc: s.pc + 2, ..s }
    } else {
        s
    }
}

/// `s` with its registers replaced by `v`.
pub open spec fn with_v(s: MachineState, v: Seq<u8>) -> MachineState {
    MachineState { v, ..s }
}

/// Number of sprite rows that fall on the screen when `n` rows are drawn
/// from row `y0` down.
pub open spec fn visible_rows(y0: int, n: int) -> int {
    if n < 32 - y0 {
        n
    } else {
        32 - y0
    }
}

/// Whether bit `col` of a sprite row, counted from the most significant, is set.
pub open spec fn row_bit(byte: u8, col: int) -> bool {
    (byte >> ((7 - col) as u8)) & 1u8 == 1u8
}

/// Whether the `n`-row sprite stored at `memory[i..]`, drawn with its top
/// left corner at `(x0, y0)`, has a set bit on pixel `(a, b)`. Columns and
/// rows past the edges of the screen are clipped.
pub open spec fn sprite_covers(
    memory: Seq<u8>,
    i: int,
    x0: int,
    y0: int,
    n: int,
    a: int,
    b: int,
) -> bool {
    &&& on_screen(a, b)
    &&& x0 <= a < x0 + 8
    &&& y0 <= b < y0 + n
    &&& row_bit(memory[i + (b - y0)], a - x0)
}

/// Whether drawing that sprite turns off a pixel lit on `d`.
pub open spec fn sprite_collides(d: Display, memory: Seq<u8>, i: int, x0: int, y0: int, n: int) -> bool {
    exists|a: int, b: int| #[trigger] sprite_covers(memory, i, x0, y0, n, a, b) && d.lit(a, b)
}

/// Whether pixel `(a, b)` is lit after drawing that sprite on `d`: a covered
/// pixel is flipped, an uncovered one kept.
pub open spec fn lit_after_draw(
    d: Display,
    memory: Seq<u8>,
    i: int,
    x0: int,
    y0: int,
    n: int,
    a: int,
    b: int,
) -> bool {
    if sprite_covers(memory, i, x0, y0, n, a, b) {
        !d.lit(a, b) && d.on_visible()
    } else {
        d.lit(a, b)
    }
}

/// Whether `ins`, executed on `s`, draws a sprite that collides with `d`.
pub open spec fn draw_collides(s: MachineState, ins: Instruction, d: Display) -> bool {
    match ins {
        Instruction::Draw { x, y, n } => sprite_collides(
            d,
            s.memory,
            s.index as int,
            (s.v[x as int] % 64) as int,
            (s.v[y as int] % 32) as int,
            n as int,
        ),
        _ => false,
    }
}

/// `memory` with registers V0..=Vx written from `i` on.
pub open spec fn stored_registers(memory: Seq<u8>, v: Seq<u8>, i: int, x: int) -> Seq<u8> {
    Seq::new(memory.len(), |a: int| if i <= a <= i + x { v[a - i] } else { memory[a] })
}

/// Registers V0..=Vx read from `memory` from `i` on, the others kept.
pub open spec fn loaded_registers(memory: Seq<u8>, v: Seq<u8>, i: int, x: int) -> Seq<u8> {
    Seq::new(v.len(), |r: int| if r <= x { memory[i + r] } else { v[r] })
}

/// The effect of executing `ins`, fetched from `s0.pc`, on the machine: the
/// next state and whether the screen changed, or why it cannot be executed.
/// `keys` and `released` are the cycle's input, `random` the byte drawn for
/// CXNN, `collided` whether a DXYN sprite turns off a lit pixel.
pub open spec fn execute(
    s0: MachineState,
    ins: Instruction,
    keys: Seq<bool>,
    released: Option<InputKey>,
    random: u8,
    collided: bool,
) -> Result<(MachineState, bool), Chip8Error> {
    let s = MachineState { pc: s0.pc + 2, ..s0 };
    let v = s.v;
    let i = s.index as int;
    match ins {
        Instruction::ClearScreen => Ok((s, true)),
        Instruction::Return => if s.stack.len() == 0 {
            Err(Chip8Error::StackUnderflow)
        } else {
            Ok((MachineState { pc: s.stack.last() as int, stack: s.stack.drop_last(), ..s }, false))
        },
        Instruction::Jump { nnn } => Ok((MachineState { pc: nnn as int, ..s }, false)),
        Instruction::Call { nnn } => Ok(
            (MachineState { pc: nnn as int, stack: s.stack.push(s.pc as u16), ..s }, false),
        ),
        Instruction::SkipIfEqual { x, nn } => Ok((skip_if(s, v[x as int] == nn), false)),
        Instruction::SkipIfNotEqual { x, nn } => Ok((skip_if(s, v[x as int] != nn), false)),
        Instruction::SkipIfRegistersEqual { x, y } => Ok(
            (skip_if(s, v[x as int] == v[y as int]), false),
        ),
        Instruction::SetImmediate { x, nn } => Ok((with_v(s, v.update(x as int, nn)), false)),
        Instruction::AddImmediate { x, nn } => Ok(
            (with_v(s, v.update(x as int, ((v[x as int] + nn) % 256) as u8)), false),
        ),
        Instruction::Move { x, y } => Ok((with_v(s, v.update(x as int, v[y as int])), false)),
        Instruction::Or { x, y } => Ok(
            (with_v(s, v.update(x as int, v[x as int] | v[y as int])), false),
        ),
        Instruction::And { x, y } => Ok(
            (with_v(s, v.update(x as int, v[x as int] & v[y as int])), false),
        ),
        Instruction::Xor { x, y } => Ok(
            (with_v(s, v.update(x as int, v[x as int] ^ v[y as int])), false),
        ),
        Instruction::Add { x, y } => {
            let sum = v[x as int] + v[y as int];
            Ok((with_v(s, v.update(x as int, (sum % 256) as u8).update(15, flag(sum > 255))), false))
        },
        Instruction::Sub { x, y } => Ok(
            (
                with_v(
                    s,
                    v.update(x as int, ((v[x as int] - v[y as int]) % 256) as u8).update(
                        15,
                        flag(v[x as int] > v[y as int]),
                    ),
                ),
                false,
            ),
        ),
        Instruction::ShiftRight { x, y } => {
            let val = if s.quirks.i_8xy6 {
                v[y as int]
            } else {
                v[x as int]
            };
            Ok((with_v(s, v.update(x as int, val / 2).update(15, val % 2)), false))
        },
        Instruction::SubReverse { x, y } => Ok(
            (
                with_v(
                    s,
                    v.update(x as int, ((v[y as int] - v[x as int]) % 256) as u8).update(
                        15,
                        flag(v[y as int] > v[x as int]),
                    ),
                ),
                false,
            ),
        ),
        Instruction::ShiftLeft { x, y } => {
            let val = if s.quirks.i_8xye {
                v[y as int]
            } else {
                v[x as int]
            };
            Ok((with_v(s, v.update(x as int, ((val * 2) % 256) as u8).update(15, val / 128)), false))
        },
        Instruction::SkipIfRegistersNotEqual { x, y } => Ok(
            (skip_if(s, v[x as int] != v[y as int]), false),
        ),
        Instruction::SetIndex { nnn } => Ok((MachineState { index: nnn, ..s }, false)),
        Instruction::JumpWithOffset { nnn, x } => {
            let offset = if s.quirks.bnnn {
                v[0]
            } else {
                v[x as int]
            };
            Ok((MachineState { pc: nnn + offset, ..s }, false))
        },
        Instruction::Random { x, nn } => Ok((with_v(s, v.update(x as int, random & nn)), false)),
        Instruction::Draw { x, y, n } => if i + visible_rows((v[y as int] % 32) as int, n as int)
            > 4096 {
            Err(Chip8Error::AddressOutOfRange)
        } else {
            Ok((with_v(s, v.update(15, flag(collided))), true))
        },
        Instruction::SkipIfKeyPressed { x } => Ok((skip_if(s, key_held(keys, v[x as int])), false)),
        Instruction::SkipIfKeyNotPressed { x } => Ok(
            (skip_if(s, !key_held(keys, v[x as int])), false),
        ),
        Instruction::GetDelayTimer { x } => Ok(
            (with_v(s, v.update(x as int, s.delay_timer)), false),
        ),
        Instruction::WaitForKey { x } => match released {
            None => Ok((s0, false)),
            Some(k) => Ok((with_v(s, v.update(x as int, key_code(k))), false)),
        },
        Instruction::SetDelayTimer { x } => Ok(
            (MachineState { delay_timer: v[x as int], ..s }, false),
        ),
        Instruction::SetSoundTimer { x } => Ok(
            (MachineState { sound_timer: v[x as int], ..s }, false),
        ),
        Instruction::AddToIndex { x } => {
            let sum = s.index + v[x as int];
            let v2 = if s.quirks.fx1e {
                v
            } else {
                v.update(15, flag(sum > 0xFFFF))
            };
            Ok((MachineState { index: (sum % 0x10000) as u16, v: v2, ..s }, false))
        },
        Instruction::FontGlyph { x } => Ok(
            (MachineState { index: (0x50 + (v[x as int] % 16) * 5) as u16, ..s }, false),
        ),
        Instruction::StoreDecimal { x } => if i + 3 > 4096 {
            Err(Chip8Error::AddressOutOfRange)
        } else {
            let d = v[x as int];
            Ok(
                (
                    MachineState {
                        memory: s.memory.update(i, d / 100).update(i + 1, (d / 10) % 10).update(
                            i + 2,
                            d % 10,
                        ),
                        ..s
                    },
                    false,
                ),
            )
        },
        Instruction::StoreRegisters { x } => if i + x + 1 > 4096 {
            Err(Chip8Error::AddressOutOfRange)
        } else {
            Ok(
                (
                    MachineState {
                        memory: stored_registers(s.memory, v, i, x as int),
                        index: if s.quirks.fx55 {
                            (i + x + 1) as u16
                        } else {
                            s.index
                        },
                        ..s
                    },
                    false,
                ),
            )
        },
        Instruction::LoadRegisters { x } => if i + x + 1 > 4096 {
            Err(Chip8Error::AddressOutOfRange)
        } else {
            Ok(
                (
                    MachineState {
                        v: loaded_registers(s.memory, v, i, x as int),
                        index: if s.quirks.fx65 {
                            (i + x + 1) as u16
                        } else {
                            s.index
                        },
                        ..s
                    },
                    false,
                ),
            )
        },
    }
}

/// The instruction fetched from `s.pc`, or why none can be: the program
/// counter leaves no room for two bytes, or the word is not an instruction.
pub open spec fn fetched(s: MachineState) -> Result<Instruction, Chip8Error> {
    if s.pc < 0 || s.pc + 1 >= 4096 {
        Err(Chip8Error::ProgramCounterOutOfRange)
    } else {
        match decoded(opcode_at(s.memory, s.pc)) {
            Some(ins) => Ok(ins),
            None => Err(Chip8Error::UnknownOpcode(opcode_at(s.memory, s.pc))),
        }
    }
}

/// One fetch-decode-execute step on `s` with the screen `d`.
pub open spec fn step_result(
    s: MachineState,
    d: Display,
    keys: Seq<bool>,
    released: Option<InputKey>,
    random: u8,
) -> Result<(MachineState, bool), Chip8Error> {
    match fetched(s) {
        Ok(ins) => execute(s, ins, keys, released, random, draw_collides(s, ins, d)),
        Err(e) => Err(e),
    }
}

/// How the screen relates before (`d0`) and after (`d1`) a step on `s` that
/// fetched `ins` and succeeded.
pub open spec fn screen_after(s: MachineState, ins: Instruction, d0: Display, d1: Display) -> bool {
    match ins {
        Instruction::ClearScreen => filled(d1.frame@, d0.colors.fg_off_color) && forall|a: int, b: int|
            on_screen(a, b) ==> !#[trigger] d1.lit(a, b),
        Instruction::Draw { x, y, n } => forall|a: int, b: int|
            on_screen(a, b) ==> #[trigger] d1.lit(a, b) == lit_after_draw(
                d0,
                s.memory,
                s.index as int,
                (s.v[x as int] % 64) as int,
                (s.v[y as int] % 32) as int,
                n as int,
                a,
                b,
            ),
        _ => d1.frame@ == d0.frame@,
    }
}

/// Whether pixel `(a, b)` comes before column `col` of row `row` of a sprite
/// drawn from `(x0, y0)`, row by row and column by column.
pub open spec fn drawn_before(x0: int, y0: int, row: int, col: int, a: int, b: int) -> bool {
    b < y0 + row || (b == y0 + row && a < x0 + col)
}

/// `lit_after_draw` for a drawing that has reached column `col` of row `row`.
pub open spec fn lit_part_drawn(
    d: Display,
    memory: Seq<u8>,
    i: int,
    x0: int,
    y0: int,
    n: int,
    row: int,
    col: int,
    a: int,
    b: int,
) -> bool {
    if sprite_covers(memory, i, x0, y0, n, a, b) && drawn_before(x0, y0, row, col, a, b) {
        !d.lit(a, b) && d.on_visible()
    } else {
        d.lit(a, b)
    }
}

/// `sprite_collides` for a drawing that has reached column `col` of row `row`.
pub open spec fn collides_part_drawn(
    d: Display,
    memory: Seq<u8>,
    i: int,
    x0: int,
    y0: int,
    n: int,
    row: int,
    col: int,
) -> bool {
    exists|a: int, b: int|
        #[trigger] sprite_covers(memory, i, x0, y0, n, a, b) && drawn_before(x0, y0, row, col, a, b)
            && d.lit(a, b)
}

/// Draws the `n`-row sprite stored at `memory[i..]` with its top left corner
/// at `(x0, y0)`: each set bit flips its pixel, and columns and rows past the
/// edges are clipped. Returns whether a lit pixel was turned off.
pub fn draw_sprite(display: &mut Display, memory: &Vec<u8>, i: usize, x0: u8, y0: u8, n: u8) -> (collided: bool)
    requires
        old(display).wf(),
        x0 < 64,
        y0 < 32,
        memory@.len() == 4096,
        i + visible_rows(y0 as int, n as int) <= 4096,
    ensures
        final(display).wf(),
        final(display).colors == old(display).colors,
        forall|a: int, b: int|
            on_screen(a, b) ==> #[trigger] final(display).lit(a, b) == lit_after_draw(
                *old(display),
                memory@,
                i as int,
                x0 as int,
                y0 as int,
                n as int,
                a,
                b,
            ),
        collided == sprite_collides(*old(display), memory@, i as int, x0 as int, y0 as int, n as int),
{
    let ghost d0 = *old(display);
    let ghost (mem, gi, gx, gy, gn) = (memory@, i as int, x0 as int, y0 as int, n as int);
    let rows: u8 = if n < 32 - y0 {
        n
    } else {
        32 - y0
    };
    let cols: u8 = if 8 < 64 - x0 {
        8
    } else {
        64 - x0
    };
    let mut collided = false;
    for row in 0..rows
        invariant
            d0 == *old(display),
            mem == memory@,
            gi == i,
            gx == x0,
            gy == y0,
            gn == n,
            rows == visible_rows(gy, gn),
            cols as int == if 8 < 64 - x0 { 8 } else { 64 - x0 },
            memory@.len() == 4096,
            i + rows <= 4096,
            x0 < 64,
            y0 < 32,
            display.wf(),
            display.colors == d0.colors,
            forall|a: int, b: int|
                on_screen(a, b) ==> #[trigger] display.lit(a, b) == lit_part_drawn(
                    d0, mem, gi, gx, gy, gn, row as int, 0, a, b),
            collided == collides_part_drawn(d0, mem, gi, gx, gy, gn, row as int, 0),
    {
        let byte = memory[i + row as usize];
        let py: u8 = y0 + row;
        for col in 0..cols
            invariant
                d0 == *old(display),
                mem == memory@,
                gi == i,
                gx == x0,
                gy == y0,
                gn == n,
                rows == visible_rows(gy, gn),
                cols as int == if 8 < 64 - x0 { 8 } else { 64 - x0 },
                row < rows,
                memory@.len() == 4096,
                i + rows <= 4096,
                byte == memory@[i + row],
                py == y0 + row,
                x0 < 64,
                y0 < 32,
                display.wf(),
                display.colors == d0.colors,
                forall|a: int, b: int|
                    on_screen(a, b) ==> #[trigger] display.lit(a, b) == lit_part_drawn(
                        d0, mem, gi, gx, gy, gn, row as int, col as int, a, b),
                collided == collides_part_drawn(d0, mem, gi, gx, gy, gn, row as int, col as int),
        {
            let px: u8 = x0 + col;
            let ghost before = *display;
            let bit = (byte >> (7 - col)) & 1 == 1;
            assert(bit == sprite_covers(mem, gi, gx, gy, gn, px as int, py as int));
            assert(before.lit(px as int, py as int) == d0.lit(px as int, py as int));
            if bit {
                if display.get_pixel(px, py) {
                    display.unset_pixel(px, py);
                    collided = true;
                } else {
                    display.set_pixel(px, py);
                }
            }
            assert forall|a: int, b: int| on_screen(a, b) implies #[trigger] display.lit(a, b)
                == lit_part_drawn(d0, mem, gi, gx, gy, gn, row as int, col + 1, a, b) by {
                if a != px || b != py {
                    assert(before.lit(a, b) == lit_part_drawn(
                        d0, mem, gi, gx, gy, gn, row as int, col as int, a, b));
                }
            }
            proof {
                if bit && d0.lit(px as int, py as int) {
                    assert(sprite_covers(mem, gi, gx, gy, gn, px as int, py as int)
                        && drawn_before(gx, gy, row as int, col + 1, px as int, py as int)
                        && d0.lit(px as int, py as int));
                }
            }
            assert(collided == collides_part_drawn(d0, mem, gi, gx, gy, gn, row as int, col + 1));
        }
        assert forall|a: int, b: int| on_screen(a, b) implies #[trigger] display.lit(a, b)
            == lit_part_drawn(d0, mem, gi, gx, gy, gn, row + 1, 0, a, b) by {
            assert(lit_part_drawn(d0, mem, gi, gx, gy, gn, row as int, cols as int, a, b)
                == lit_part_drawn(d0, mem, gi, gx, gy, gn, row + 1, 0, a, b));
        }
        assert(collided == collides_part_drawn(d0, mem, gi, gx, gy, gn, row + 1, 0)) by {
            if collided {
                let (a, b) = choose|a: int, b: int|
                    #[trigger] sprite_covers(mem, gi, gx, gy, gn, a, b) && drawn_before(
                        gx, gy, row as int, cols as int, a, b) && d0.lit(a, b);
                assert(drawn_before(gx, gy, row + 1, 0, a, b));
            }
            if collides_part_drawn(d0, mem, gi, gx, gy, gn, row + 1, 0) {
                let (a, b) = choose|a: int, b: int|
                    #[trigger] sprite_covers(mem, gi, gx, gy, gn, a, b) && drawn_before(
                        gx, gy, row + 1, 0, a, b) && d0.lit(a, b);
                assert(drawn_before(gx, gy, row as int, cols as int, a, b));
            }
        }
    }
    assert forall|a: int, b: int| on_screen(a, b) implies #[trigger] display.lit(a, b)
        == lit_after_draw(d0, mem, gi, gx, gy, gn, a, b) by {
        assert(lit_part_drawn(d0, mem, gi, gx, gy, gn, rows as int, 0, a, b)
            == lit_after_draw(d0, mem, gi, gx, gy, gn, a, b));
    }
    assert(collided == sprite_collides(d0, mem, gi, gx, gy, gn)) by {
        if collided {
            let (a, b) = choose|a: int, b: int|
                #[trigger] sprite_covers(mem, gi, gx, gy, gn, a, b) && drawn_before(
                    gx, gy, rows as int, 0, a, b) && d0.lit(a, b);
            assert(sprite_covers(mem, gi, gx, gy, gn, a, b) && d0.lit(a, b));
        }
        if sprite_collides(d0, mem, gi, gx, gy, gn) {
            let (a, b) = choose|a: int, b: int|
                #[trigger] sprite_covers(mem, gi, gx, gy, gn, a, b) && d0.lit(a, b);
            assert(drawn_before(gx, gy, rows as int, 0, a, b));
        }
    }
    collided
}

/// Whether `r`, and the state `after` left behind, report the outcome `res`
/// of a step taken from `before`: on failure nothing changed.
pub open spec fn reports(
    before: MachineState,
    after: MachineState,
    res: Result<(MachineState, bool), Chip8Error>,
    r: Result<CHIP8Output, Chip8Error>,
) -> bool {
    match res {
        Ok((s, redraw)) => r == Ok::<CHIP8Output, Chip8Error>(CHIP8Output { request_redraw: redraw })
            && after == s,
        Err(e) => r == Err::<CHIP8Output, Chip8Error>(e) && after == before,
    }
}

/// Instructions that only move the program counter or the call stack, or wait for a key.
pub open spec fn is_control(ins: Instruction) -> bool {
    ins is Return || ins is Jump || ins is Call || ins is SkipIfEqual || ins is SkipIfNotEqual
        || ins is SkipIfRegistersEqual || ins is SkipIfRegistersNotEqual || ins is JumpWithOffset
        || ins is SkipIfKeyPressed || ins is SkipIfKeyNotPressed || ins is WaitForKey
}

/// Instructions that read or write memory through I.
pub open spec fn is_memory(ins: Instruction) -> bool {
    ins is StoreDecimal || ins is StoreRegisters || ins is LoadRegisters
}

/// The 8XYN register-to-register instructions.
pub open spec fn is_alu(ins: Instruction) -> bool {
    ins is Move || ins is Or || ins is And || ins is Xor || ins is Add || ins is Sub
        || ins is ShiftRight || ins is SubReverse || ins is ShiftLeft
}

/// The other instructions that only change registers, I or the timers.
pub open spec fn is_register(ins: Instruction) -> bool {
    !is_control(ins) && !is_memory(ins) && !is_alu(ins) && !(ins is ClearScreen) && !(ins is Draw)
}

/// Relies on `rand::random` (a byte from the thread-local generator); any
/// byte may come back.
#[verifier::external_body]
fn random_byte() -> (r: u8) {
    rand::random::<u8>()
}


/// The CHIP-8 machine: memory, registers, call stack and timers.
pub struct CHIP8 {
    pc: usize,
    ram: Vec<u8>,
    stack: Vec<u16>,
    pub delay_timer: u8,
    pub sound_timer: u8,
    i_reg: u16,
    vx_reg: Vec<u8>,
    old_behaviour_conf: OldBehaviourConfig,
}

impl View for CHIP8 {
    type V = MachineState;

    closed spec fn view(&self) -> MachineState {
        MachineState {
            pc: self.pc as int,
            memory: self.ram@,
            stack: self.stack@,
            index: self.i_reg,
            v: self.vx_reg@,
            delay_timer: self.delay_timer,
            sound_timer: self.sound_timer,
            quirks: self.old_behaviour_conf,
        }
    }
}

impl CHIP8 {
    pub open spec fn wf(&self) -> bool {
        self@.memory.len() == 4096 && self@.v.len() == 16
    }

    /// A fresh machine: font loaded, registers and I zero, stack empty, the
    /// program counter at `PROGRAM_START`.
    pub fn new(old_behaviour_conf: OldBehaviourConfig) -> (r: CHIP8)
        ensures
            r.wf(),
            r@ == initial_state(old_behaviour_conf),
    {
        let glyphs: Vec<u8> = vec![
            0xF0, 0x90, 0x90, 0x90, 0xF0,
            0x20, 0x60, 0x20, 0x20, 0x70,
            0xF0, 0x10, 0xF0, 0x80, 0xF0,
            0xF0, 0x10, 0xF0, 0x10, 0xF0,
            0x90, 0x90, 0xF0, 0x10, 0x10,
            0xF0, 0x80, 0xF0, 0x10, 0xF0,
            0xF0, 0x80, 0xF0, 0x90, 0xF0,
            0xF0, 0x10, 0x20, 0x40, 0x40,
            0xF0, 0x90, 0xF0, 0x90, 0xF0,
            0xF0, 0x90, 0xF0, 0x10, 0xF0,
            0xF0, 0x90, 0xF0, 0x90, 0x90,
            0xE0, 0x90, 0xE0, 0x90, 0xE0,
            0xF0, 0x80, 0x80, 0x80, 0xF0,
            0xE0, 0x90, 0x90, 0x90, 0xE0,
            0xF0, 0x80, 0xF0, 0x80, 0xF0,
            0xF0, 0x80, 0xF0, 0x80, 0x80,
        ];
        assert(glyphs@ =~= font());
        let mut ram: Vec<u8> = vec![0u8; MEMORY_SIZE];
        for k in 0..glyphs.len()
            invariant
                glyphs@ == font(),
                ram@ =~= Seq::new(
                    4096,
                    |a: int| if 0x50 <= a < 0x50 + k { font()[a - 0x50] } else { 0u8 },
                ),
        {
            ram[FONT_START + k] = glyphs[k];
        }
        assert(ram@ =~= initial_memory());
        let r = CHIP8 {
            pc: PROGRAM_START,
            ram,
            stack: Vec::new(),
            delay_timer: 0,
            sound_timer: STARTUP_SOUND_TIMER,
            i_reg: 0,
            vx_reg: vec![0u8; 16],
            old_behaviour_conf,
        };
        assert(r@.v =~= Seq::new(16, |q: int| 0u8));
        assert(r@.stack =~= Seq::<u16>::empty());
        r
    }

    /// Places `program` in memory from `PROGRAM_START` on; fails, changing
    /// nothing, when it is longer than `MAX_PROGRAM_LEN`.
    pub fn load_program(&mut self, program: &[u8]) -> (r: Result<(), Chip8Error>)
        requires
            old(self).wf(),
        ensures
            final(self).wf(),
            program@.len() <= 3584 ==> r is Ok && final(self)@ == (MachineState {
                memory: with_program(old(self)@.memory, program@),
                ..old(self)@
            }),
            program@.len() > 3584 ==> r == Err::<(), Chip8Error>(Chip8Error::ProgramTooLarge)
                && final(self)@ == old(self)@,
    {
        if program.len() > MAX_PROGRAM_LEN {
            return Err(Chip8Error::ProgramTooLarge);
        }
        assert(self@.memory =~= Seq::new(
            4096,
            |a: int| if 0x200 <= a < 0x200 { program@[a - 0x200] } else { old(self)@.memory[a] },
        ));
        for k in 0..program.len()
            invariant
                program@.len() <= 3584,
                self.wf(),
                self@ == (MachineState {
                    memory: Seq::new(
                        4096,
                        |a: int|
                            if 0x200 <= a < 0x200 + k {
                                program@[a - 0x200]
                            } else {
                                old(self)@.memory[a]
                            },
                    ),
                    ..old(self)@
                }),
        {
            let ghost pre = self@;
            self.ram[PROGRAM_START + k] = program[k];
            assert(self@.memory =~= Seq::new(
                4096,
                |a: int|
                    if 0x200 <= a < 0x200 + k + 1 {
                        program@[a - 0x200]
                    } else {
                        old(self)@.memory[a]
                    },
            ));
        }
        assert(self@.memory =~= with_program(old(self)@.memory, program@));
        Ok(())
    }

    fn execute_instruction(
        &mut self,
        ins: Instruction,
        input: &CHIP8Input,
        display: &mut Display,
        random: u8,
    ) -> (r: Result<CHIP8Output, Chip8Error>)
        requires
            old(self).wf(),
            old(display).wf(),
            operands_in_range(ins),
            0 <= old(self)@.pc <= 4094,
        ensures
            final(self).wf(),
            final(display).wf(),
            final(display).colors == old(display).colors,
            reports(
                old(self)@,
                final(self)@,
                execute(
                    old(self)@,
                    ins,
                    input.pressed_keys@,
                    input.released_key,
                    random,
                    draw_collides(old(self)@, ins, *old(display)),
                ),
                r,
            ),
            r is Ok ==> screen_after(old(self)@, ins, *old(display), *final(display)),
            r is Err ==> final(display).frame@ == old(display).frame@,
    {
        let ghost s0 = self@;
        let ghost keys = input.pressed_keys@;
        let ghost released = input.released_key;
        let ghost collided = draw_collides(s0, ins, *old(display));
        match ins {
            Instruction::ClearScreen => {
                display.clear_screen();
                self.pc = self.pc + 2;
                Ok(CHIP8Output { request_redraw: true })
            },
            Instruction::Draw { x, y, n } => {
                let x0 = self.vx_reg[x as usize] % 64;
                let y0 = self.vx_reg[y as usize] % 32;
                let rows: u8 = if n < 32 - y0 {
                    n
                } else {
                    32 - y0
                };
                if self.i_reg as usize + rows as usize > MEMORY_SIZE {
                    return Err(Chip8Error::AddressOutOfRange);
                }
                let collided = draw_sprite(display, &self.ram, self.i_reg as usize, x0, y0, n);
                self.vx_reg[FLAG_REGISTER] = if collided { 1 } else { 0 };
                self.pc = self.pc + 2;
                Ok(CHIP8Output { request_redraw: true })
            },
            Instruction::Return | Instruction::Jump { .. } | Instruction::Call { .. }
            | Instruction::SkipIfEqual { .. } | Instruction::SkipIfNotEqual { .. }
            | Instruction::SkipIfRegistersEqual { .. } | Instruction::SkipIfRegistersNotEqual { .. }
            | Instruction::JumpWithOffset { .. } | Instruction::SkipIfKeyPressed { .. }
            | Instruction::SkipIfKeyNotPressed { .. } | Instruction::WaitForKey { .. } => {
                assert(execute(s0, ins, keys, released, random, collided) == execute(
                    s0, ins, keys, released, 0, false));
                self.execute_control(ins, input)
            },
            Instruction::StoreDecimal { .. } | Instruction::StoreRegisters { .. }
            | Instruction::LoadRegisters { .. } => {
                assert(execute(s0, ins, keys, released, random, collided) == execute(
                    s0, ins, Seq::empty(), None, 0, false));
                self.execute_memory(ins)
            },
            Instruction::Move { .. } | Instruction::Or { .. } | Instruction::And { .. }
            | Instruction::Xor { .. } | Instruction::Add { .. } | Instruction::Sub { .. }
            | Instruction::ShiftRight { .. } | Instruction::SubReverse { .. }
            | Instruction::ShiftLeft { .. } => {
                assert(execute(s0, ins, keys, released, random, collided) == execute(
                    s0, ins, Seq::empty(), None, 0, false));
                self.execute_alu(ins)
            },
            _ => {
                assert(execute(s0, ins, keys, released, random, collided) == execute(
                    s0, ins, Seq::empty(), None, random, false));
                self.execute_registers(ins, random)
            },
        }
    }

    /// One fetch-decode-execute step, with `random` as the byte that CXNN
    /// draws. On success the program counter has moved past the instruction
    /// (or where it jumped), and the result says whether the screen changed;
    /// on failure neither the machine nor the screen changed.
    pub fn step(&mut self, input: &CHIP8Input, display: &mut Display, random: u8) -> (r: Result<
        CHIP8Output,
        Chip8Error,
    >)
        requires
            old(self).wf(),
            old(display).wf(),
        ensures
            final(self).wf(),
            final(display).wf(),
            final(display).colors == old(display).colors,
            reports(
                old(self)@,
                final(self)@,
                step_result(
                    old(self)@,
                    *old(display),
                    input.pressed_keys@,
                    input.released_key,
                    random,
                ),
                r,
            ),
            r is Ok ==> screen_after(
                old(self)@,
                fetched(old(self)@)->Ok_0,
                *old(display),
                *final(display),
            ),
            r is Err ==> final(display).frame@ == old(display).frame@,
    {
        if self.pc > MEMORY_SIZE - 2 {
            return Err(Chip8Error::ProgramCounterOutOfRange);
        }
        let op: u16 = self.ram[self.pc] as u16 * 256 + self.ram[self.pc + 1] as u16;
        match decode(op) {
            None => Err(Chip8Error::UnknownOpcode(op)),
            Some(ins) => self.execute_instruction(ins, input, display, random),
        }
    }

    /// One fetch-decode-execute step, drawing a random byte for CXNN. It is
    /// `step` for some byte.
    pub fn update(&mut self, input: CHIP8Input, display: &mut Display) -> (r: Result<
        CHIP8Output,
        Chip8Error,
    >)
        requires
            old(self).wf(),
            old(display).wf(),
        ensures
            final(self).wf(),
            final(display).wf(),
            final(display).colors == old(display).colors,
            exists|random: u8|
                reports(
                    old(self)@,
                    final(self)@,
                    #[trigger] step_result(
                        old(self)@,
                        *old(display),
                        input.pressed_keys@,
                        input.released_key,
                        random,
                    ),
                    r,
                ),
            r is Ok ==> screen_after(
                old(self)@,
                fetched(old(self)@)->Ok_0,
                *old(display),
                *final(display),
            ),
            r is Err ==> final(display).frame@ == old(display).frame@,
    {
        let random = random_byte();
        self.step(&input, display, random)
    }

    /// One tick of the 60 Hz timers: each counts down by one, stopping at zero.
    pub fn tick_timers(&mut self)
        requires
            old(self).wf(),
        ensures
            final(self).wf(),
            final(self)@ == (MachineState {
                delay_timer: if old(self)@.delay_timer > 0 {
                    (old(self)@.delay_timer - 1) as u8
                } else {
                    0
                },
                sound_timer: if old(self)@.sound_timer > 0 {
                    (old(self)@.sound_timer - 1) as u8
                } else {
                    0
                },
                ..old(self)@
            }),
    {
        self.delay_timer = self.delay_timer.saturating_sub(1);
        self.sound_timer = self.sound_timer.saturating_sub(1);
    }

    /// The program counter.
    pub fn pc(&self) -> (r: usize)
        ensures
            r == self@.pc,
    {
        self.pc
    }

    /// Register V`idx`.
    pub fn register(&self, idx: usize) -> (r: u8)
        requires
            self.wf(),
            idx < 16,
        ensures
            r == self@.v[idx as int],
    {
        self.vx_reg[idx]
    }

    /// The address register I.
    pub fn index_register(&self) -> (r: u16)
        ensures
            r == self@.index,
    {
        self.i_reg
    }

    /// The byte at `addr`.
    pub fn memory_byte(&self, addr: usize) -> (r: u8)
        requires
            self.wf(),
            addr < 4096,
        ensures
            r == self@.memory[addr as int],
    {
        self.ram[addr]
    }

    /// The number of return addresses on the call stack.
    pub fn stack_depth(&self) -> (r: usize)
        ensures
            r == self@.stack.len(),
    {
        self.stack.len()
    }

    fn execute_control(&mut self, ins: Instruction, input: &CHIP8Input) -> (r: Result<CHIP8Output, Chip8Error>)
        requires
            old(self).wf(),
            operands_in_range(ins),
            0 <= old(self)@.pc <= 4094,
            is_control(ins),
        ensures
            final(self).wf(),
            reports(
                old(self)@,
                final(self)@,
                execute(old(self)@, ins, input.pressed_keys@, input.released_key, 0, false),
                r,
            ),
    {
        let next: usize = self.pc + 2;
        match ins {
            Instruction::Return => match self.stack.pop() {
                Some(address) => self.pc = address as usize,
                None => return Err(Chip8Error::StackUnderflow),
            },
            Instruction::Jump { nnn } => self.pc = nnn as usize,
            Instruction::Call { nnn } => {
                self.stack.push(next as u16);
                self.pc = nnn as usize;
            },
            Instruction::SkipIfEqual { x, nn } => {
                self.pc = if self.vx_reg[x as usize] == nn { next + 2 } else { next };
            },
            Instruction::SkipIfNotEqual { x, nn } => {
                self.pc = if self.vx_reg[x as usize] != nn { next + 2 } else { next };
            },
            Instruction::SkipIfRegistersEqual { x, y } => {
                self.pc = if self.vx_reg[x as usize] == self.vx_reg[y as usize] {
                    next + 2
                } else {
                    next
                };
            },
            Instruction::SkipIfRegistersNotEqual { x, y } => {
                self.pc = if self.vx_reg[x as usize] != self.vx_reg[y as usize] {
                    next + 2
                } else {
                    next
                };
            },
            Instruction::JumpWithOffset { nnn, x } => {
                let offset = if self.old_behaviour_conf.bnnn {
                    self.vx_reg[0]
                } else {
                    self.vx_reg[x as usize]
                };
                self.pc = nnn as usize + offset as usize;
            },
            Instruction::SkipIfKeyPressed { x } => {
                let k = self.vx_reg[x as usize];
                let held = k < 16 && input.pressed_keys[k as usize];
                self.pc = if held { next + 2 } else { next };
            },
            Instruction::SkipIfKeyNotPressed { x } => {
                let k = self.vx_reg[x as usize];
                let held = k < 16 && input.pressed_keys[k as usize];
                self.pc = if !held { next + 2 } else { next };
            },
            Instruction::WaitForKey { x } => match input.released_key {
                None => {},
                Some(key) => {
                    self.vx_reg[x as usize] = key.code();
                    self.pc = next;
                },
            },
            _ => {},
        }
        Ok(CHIP8Output { request_redraw: false })
    }

    fn execute_registers(&mut self, ins: Instruction, random: u8) -> (r: Result<CHIP8Output, Chip8Error>)
        requires
            old(self).wf(),
            operands_in_range(ins),
            0 <= old(self)@.pc <= 4094,
            is_register(ins),
        ensures
            final(self).wf(),
            reports(
                old(self)@,
                final(self)@,
                execute(old(self)@, ins, Seq::empty(), None, random, false),
                r,
            ),
    {
        match ins {
            Instruction::SetImmediate { x, nn } => self.vx_reg[x as usize] = nn,
            Instruction::AddImmediate { x, nn } => {
                let a = self.vx_reg[x as usize];
                self.vx_reg[x as usize] = a.wrapping_add(nn);
            },
            Instruction::Random { x, nn } => self.vx_reg[x as usize] = random & nn,
            Instruction::GetDelayTimer { x } => {
                let t = self.delay_timer;
                self.vx_reg[x as usize] = t;
            },
            Instruction::SetDelayTimer { x } => self.delay_timer = self.vx_reg[x as usize],
            Instruction::SetSoundTimer { x } => self.sound_timer = self.vx_reg[x as usize],
            Instruction::SetIndex { nnn } => self.i_reg = nnn,
            Instruction::AddToIndex { x } => {
                let sum: u32 = self.i_reg as u32 + self.vx_reg[x as usize] as u32;
                self.i_reg = (sum % 0x10000) as u16;
                if !self.old_behaviour_conf.fx1e {
                    self.vx_reg[FLAG_REGISTER] = if sum > 0xFFFF { 1 } else { 0 };
                }
            },
            Instruction::FontGlyph { x } => {
                self.i_reg = FONT_START as u16 + (self.vx_reg[x as usize] % 16) as u16 * 5;
            },
            _ => {},
        }
        self.pc = self.pc + 2;
        Ok(CHIP8Output { request_redraw: false })
    }

    #[verifier::spinoff_prover]
    #[verifier::rlimit(50)]
    fn execute_alu(&mut self, ins: Instruction) -> (r: Result<CHIP8Output, Chip8Error>)
        requires
            old(self).wf(),
            operands_in_range(ins),
            0 <= old(self)@.pc <= 4094,
            is_alu(ins),
        ensures
            final(self).wf(),
            reports(
                old(self)@,
                final(self)@,
                execute(old(self)@, ins, Seq::empty(), None, 0, false),
                r,
            ),
    {
        match ins {
            Instruction::Move { x, y } => {
                let b = self.vx_reg[y as usize];
                self.vx_reg[x as usize] = b;
            },
            Instruction::Or { x, y } => {
                let (a, b) = (self.vx_reg[x as usize], self.vx_reg[y as usize]);
                self.vx_reg[x as usize] = a | b;
            },
            Instruction::And { x, y } => {
                let (a, b) = (self.vx_reg[x as usize], self.vx_reg[y as usize]);
                self.vx_reg[x as usize] = a & b;
            },
            Instruction::Xor { x, y } => {
                let (a, b) = (self.vx_reg[x as usize], self.vx_reg[y as usize]);
                self.vx_reg[x as usize] = a ^ b;
            },
            Instruction::Add { x, y } => {
                let (a, b) = (self.vx_reg[x as usize], self.vx_reg[y as usize]);
                self.vx_reg[x as usize] = a.wrapping_add(b);
                self.vx_reg[FLAG_REGISTER] = if a as u16 + b as u16 > 255 { 1 } else { 0 };
            },
            Instruction::Sub { x, y } => {
                let (a, b) = (self.vx_reg[x as usize], self.vx_reg[y as usize]);
                self.vx_reg[x as usize] = a.wrapping_sub(b);
                self.vx_reg[FLAG_REGISTER] = if a > b { 1 } else { 0 };
            },
            Instruction::ShiftRight { x, y } => {
                let val = if self.old_behaviour_conf.i_8xy6 {
                    self.vx_reg[y as usize]
                } else {
                    self.vx_reg[x as usize]
                };
                assert(val >> 1u8 == val / 2 && val & 1u8 == val % 2) by (bit_vector);
                self.vx_reg[x as usize] = val >> 1;
                self.vx_reg[FLAG_REGISTER] = val & 1;
            },
            Instruction::SubReverse { x, y } => {
                let (a, b) = (self.vx_reg[y as usize], self.vx_reg[x as usize]);
                self.vx_reg[x as usize] = a.wrapping_sub(b);
                self.vx_reg[FLAG_REGISTER] = if a > b { 1 } else { 0 };
            },
            Instruction::ShiftLeft { x, y } => {
                let val = if self.old_behaviour_conf.i_8xye {
                    self.vx_reg[y as usize]
                } else {
                    self.vx_reg[x as usize]
                };
                assert((val << 1u8) as u16 == (val as u16 * 2) % 256 && val >> 7u8 == val / 128)
                    by (bit_vector);
                self.vx_reg[x as usize] = val << 1;
                self.vx_reg[FLAG_REGISTER] = val >> 7;
            },
            _ => {},
        }
        self.pc = self.pc + 2;
        Ok(CHIP8Output { request_redraw: false })
    }

    fn execute_memory(&mut self, ins: Instruction) -> (r: Result<CHIP8Output, Chip8Error>)
        requires
            old(self).wf(),
            operands_in_range(ins),
            0 <= old(self)@.pc <= 4094,
            is_memory(ins),
        ensures
            final(self).wf(),
            reports(
                old(self)@,
                final(self)@,
                execute(old(self)@, ins, Seq::empty(), None, 0, false),
                r,
            ),
    {
        let i = self.i_reg as usize;
        match ins {
            Instruction::StoreDecimal { x } => {
                if i + 3 > MEMORY_SIZE {
                    return Err(Chip8Error::AddressOutOfRange);
                }
                let d = self.vx_reg[x as usize];
                self.ram[i] = d / 100;
                self.ram[i + 1] = (d / 10) % 10;
                self.ram[i + 2] = d % 10;
            },
            Instruction::StoreRegisters { x } => {
                if i + x as usize + 1 > MEMORY_SIZE {
                    return Err(Chip8Error::AddressOutOfRange);
                }
                let ghost s0 = self@;
                assert(s0.memory =~= Seq::new(
                    4096,
                    |a: int| if i <= a < i + 0 { s0.v[a - i] } else { s0.memory[a] },
                ));
                for k in 0..x as usize + 1
                    invariant
                        self.wf(),
                        i + x + 1 <= 4096,
                        x < 16,
                        i == s0.index,
                        self@ == (MachineState {
                            memory: Seq::new(
                                4096,
                                |a: int| if i <= a < i + k { s0.v[a - i] } else { s0.memory[a] },
                            ),
                            ..s0
                        }),
                {
                    self.ram[i + k] = self.vx_reg[k];
                    assert(self@.memory =~= Seq::new(
                        4096,
                        |a: int| if i <= a < i + k + 1 { s0.v[a - i] } else { s0.memory[a] },
                    ));
                }
                assert(self@.memory =~= stored_registers(s0.memory, s0.v, i as int, x as int));
                if self.old_behaviour_conf.fx55 {
                    self.i_reg = (i + x as usize + 1) as u16;
                }
            },
            Instruction::LoadRegisters { x } => {
                if i + x as usize + 1 > MEMORY_SIZE {
                    return Err(Chip8Error::AddressOutOfRange);
                }
                let ghost s0 = self@;
                assert(s0.v =~= Seq::new(16, |r: int| if r < 0 { s0.memory[i + r] } else { s0.v[r] }));
                for k in 0..x as usize + 1
                    invariant
                        self.wf(),
                        i + x + 1 <= 4096,
                        x < 16,
                        i == s0.index,
                        self@ == (MachineState {
                            v: Seq::new(16, |r: int| if r < k { s0.memory[i + r] } else { s0.v[r] }),
                            ..s0
                        }),
                {
                    self.vx_reg[k] = self.ram[i + k];
                    assert(self@.v =~= Seq::new(
                        16,
                        |r: int| if r < k + 1 { s0.memory[i + r] } else { s0.v[r] },
                    ));
                }
                assert(self@.v =~= loaded_registers(s0.memory, s0.v, i as int, x as int));
                if self.old_behaviour_conf.fx65 {
                    self.i_reg = (i + x as usize + 1) as u16;
                }
            },
            _ => {},
        }
        self.pc = self.pc + 2;
        Ok(CHIP8Output { request_redraw: false })
    }
}

} // verus!
