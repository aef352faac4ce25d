//! Decoding of two-byte instructions into a closed set of instruction kinds.
use vstd::prelude::*;

verus! {

/// One decoded instruction with its operands. `x` and `y` name registers
/// (always below 16), `nn` is an 8-bit immediate, `nnn` a 12-bit address and
/// `n` a 4-bit sprite height.
#[derive(Clone, Copy, Debug, PartialEq, Eq, Structural)]
pub enum Instruction {
    /// 00E0
    ClearScreen,
    /// 00EE
    Return,
    /// 1NNN
    Jump { nnn: u16 },
    /// 2NNN
    Call { nnn: u16 },
    /// 3XNN
    SkipIfEqual { x: u8, nn: u8 },
    /// 4XNN
    SkipIfNotEqual { x: u8, nn: u8 },
    /// 5XY0
    SkipIfRegistersEqual { x: u8, y: u8 },
    /// 6XNN
    SetImmediate { x: u8, nn: u8 },
    /// 7XNN
    AddImmediate { x: u8, nn: u8 },
    /// 8XY0
    Move { x: u8, y: u8 },
    /// 8XY1
    Or { x: u8, y: u8 },
    /// 8XY2
    And { x: u8, y: u8 },
    /// 8XY3
    Xor { x: u8, y: u8 },
    /// 8XY4
    Add { x: u8, y: u8 },
    /// 8XY5
    Sub { x: u8, y: u8 },
    /// 8XY6
    ShiftRight { x: u8, y: u8 },
    /// 8XY7
    SubReverse { x: u8, y: u8 },
    /// 8XYE
    ShiftLeft { x: u8, y: u8 },
    /// 9XY0
    SkipIfRegistersNotEqual { x: u8, y: u8 },
    /// ANNN
    SetIndex { nnn: u16 },
    /// BNNN; `x` is the second nibble, the register added when not in V0 mode
    JumpWithOffset { nnn: u16, x: u8 },
    /// CXNN
    Random { x: u8, nn: u8 },
    /// DXYN
    Draw { x: u8, y: u8, n: u8 },
    /// EX9E
    SkipIfKeyPressed { x: u8 },
    /// EXA1
    SkipIfKeyNotPressed { x: u8 },
    /// FX07
    GetDelayTimer { x: u8 },
    /// FX0A
    WaitForKey { x: u8 },
    /// FX15
    SetDelayTimer { x: u8 },
    /// FX18
    SetSoundTimer { x: u8 },
    /// FX1E
    AddToIndex { x: u8 },
    /// FX29
    FontGlyph { x: u8 },
    /// FX33
    StoreDecimal { x: u8 },
    /// FX55
    StoreRegisters { x: u8 },
    /// FX65
    LoadRegisters { x: u8 },
}

/// The first (most significant) nibble.
pub open spec fn kind_of(op: u16) -> u16 {
    op / 4096
}

/// The second nibble.
pub open spec fn x_of(op: u16) -> u8 {
    ((op / 256) % 16) as u8
}

/// The third nibble.
pub open spec fn y_of(op: u16) -> u8 {
    ((op / 16) % 16) as u8
}

/// The fourth (least significant) nibble.
pub open spec fn n_of(op: u16) -> u8 {
    (op % 16) as u8
}

/// The low byte.
pub open spec fn nn_of(op: u16) -> u8 {
    (op % 256) as u8
}

/// The low twelve bits.
pub open spec fn nnn_of(op: u16) -> u16 {
    (op % 4096) as u16
}

/// The instruction that `op` encodes, or `None` for a pattern outside the
/// instruction table.
pub open spec fn decoded(op: u16) -> Option<Instruction> {
    let (x, y, n, nn, nnn) = (x_of(op), y_of(op), n_of(op), nn_of(op), nnn_of(op));
    let k = kind_of(op);
    if k == 0x0 {
        if nn == 0xE0 {
            Some(Instruction::ClearScreen)
        } else if nn == 0xEE {
            Some(Instruction::Return)
        } else {
            None
        }
    } else if k == 0x1 {
        Some(Instruction::Jump { nnn })
    } else if k == 0x2 {
        Some(Instruction::Call { nnn })
    } else if k == 0x3 {
        Some(Instruction::SkipIfEqual { x, nn })
    } else if k == 0x4 {
        Some(Instruction::SkipIfNotEqual { x, nn })
    } else if k == 0x5 {
        if n == 0 {
            Some(Instruction::SkipIfRegistersEqual { x, y })
        } else {
            None
        }
    } else if k == 0x6 {
        Some(Instruction::SetImmediate { x, nn })
    } else if k == 0x7 {
        Some(Instruction::AddImmediate { x, nn })
    } else if k == 0x8 {
        if n == 0x0 {
            Some(Instruction::Move { x, y })
        } else if n == 0x1 {
            Some(Instruction::Or { x, y })
        } else if n == 0x2 {
            Some(Instruction::And { x, y })
        } else if n == 0x3 {
            Some(Instruction::Xor { x, y })
        } else if n == 0x4 {
            Some(Instruction::Add { x, y })
        } else if n == 0x5 {
            Some(Instruction::Sub { x, y })
        } else if n == 0x6 {
            Some(Instruction::ShiftRight { x, y })
        } else if n == 0x7 {
            Some(Instruction::SubReverse { x, y })
        } else if n == 0xE {
            Some(Instruction::ShiftLeft { x, y })
        } else {
            None
        }
    } else if k == 0x9 {
        if n == 0 {
            Some(Instruction::SkipIfRegistersNotEqual { x, y })
        } else {
            None
        }
    } else if k == 0xA {
        Some(Instruction::SetIndex { nnn })
    } else if k == 0xB {
        Some(Instruction::JumpWithOffset { nnn, x })
    } else if k == 0xC {
        Some(Instruction::Random { x, nn })
    } else if k == 0xD {
        Some(Instruction::Draw { x, y, n })
    } else if k == 0xE {
        if nn == 0x9E {
            Some(Instruction::SkipIfKeyPressed { x })
        } else if nn == 0xA1 {
            Some(Instruction::SkipIfKeyNotPressed { x })
        } else {
            None
        }
    } else {
        if nn == 0x07 {
            Some(Instruction::GetDelayTimer { x })
        } else if nn == 0x0A {
            Some(Instruction::WaitForKey { x })
        } else if nn == 0x15 {
            Some(Instruction::SetDelayTimer { x })
        } else if nn == 0x18 {
            Some(Instruction::SetSoundTimer { x })
        } else if nn == 0x1E {
            Some(Instruction::AddToIndex { x })
        } else if nn == 0x29 {
            Some(Instruction::FontGlyph { x })
        } else if nn == 0x33 {
            Some(Instruction::StoreDecimal { x })
        } else if nn == 0x55 {
            Some(Instruction::StoreRegisters { x })
        } else if nn == 0x65 {
            Some(Instruction::LoadRegisters { x })
        } else {
            None
        }
    }
}

/// Every register operand of a decoded instruction names one of the 16 registers.
pub open spec fn operands_in_range(ins: Instruction) -> bool {
    match ins {
        Instruction::SkipIfEqual { x, .. } | Instruction::SkipIfNotEqual { x, .. }
        | Instruction::SetImmediate { x, .. } | Instruction::AddImmediate { x, .. }
        | Instruction::JumpWithOffset { x, .. } | Instruction::Random { x, .. }
        | Instruction::SkipIfKeyPressed { x } | Instruction::SkipIfKeyNotPressed { x }
        | Instruction::GetDelayTimer { x } | Instruction::WaitForKey { x }
        | Instruction::SetDelayTimer { x } | Instruction::SetSoundTimer { x }
        | Instruction::AddToIndex { x } | Instruction::FontGlyph { x }
        | Instruction::StoreDecimal { x } | Instruction::StoreRegisters { x }
        | Instruction::LoadRegisters { x } => x < 16,
        Instruction::SkipIfRegistersEqual { x, y } | Instruction::Move { x, y }
        | Instruction::Or { x, y } | Instruction::And { x, y } | Instruction::Xor { x, y }
        | Instruction::Add { x, y } | Instruction::Sub { x, y }
        | Instruction::ShiftRight { x, y } | Instruction::SubReverse { x, y }
        | Instruction::ShiftLeft { x, y } | Instruction::SkipIfRegistersNotEqual { x, y } => x
            < 16 && y < 16,
        Instruction::Draw { x, y, n } => x < 16 && y < 16 && n < 16,
        _ => true,
    }
}

/// Decodes the big-endian instruction word `op`.
pub fn decode(op: u16) -> (r: Option<Instruction>)
    ensures
        r == decoded(op),
        r matches Some(ins) ==> operands_in_range(ins),
{
    let k: u16 = op / 4096;
    let x: u8 = ((op / 256) % 16) as u8;
    let y: u8 = ((op / 16) % 16) as u8;
    let n: u8 = (op % 16) as u8;
    let nn: u8 = (op % 256) as u8;
    let nnn: u16 = op % 4096;
    if k == 0x0 {
        if nn == 0xE0 {
            Some(Instruction::ClearScreen)
        } else if nn == 0xEE {
            Some(Instruction::Return)
        } else {
            None
        }
    } else if k == 0x1 {
        Some(Instruction::Jump { nnn })
    } else if k == 0x2 {
        Some(Instruction::Call { nnn })
    } else if k == 0x3 {
        Some(Instruction::SkipIfEqual { x, nn })
    } else if k == 0x4 {
        Some(Instruction::SkipIfNotEqual { x, nn })
    } else if k == 0x5 {
        if n == 0 {
            Some(Instruction::SkipIfRegistersEqual { x, y })
        } else {
            None
        }
    } else if k == 0x6 {
        Some(Instruction::SetImmediate { x, nn })
    } else if k == 0x7 {
        Some(Instruction::AddImmediate { x, nn })
    } else if k == 0x8 {
        if n == 0x0 {
            Some(Instruction::Move { x, y })
        } else if n == 0x1 {
            Some(Instruction::Or { x, y })
        } else if n == 0x2 {
            Some(Instruction::And { x, y })
        } else if n == 0x3 {
            Some(Instruction::Xor { x, y })
        } else if n == 0x4 {
            Some(Instruction::Add { x, y })
        } else if n == 0x5 {
            Some(Instruction::Sub { x, y })
        } else if n == 0x6 {
            Some(Instruction::ShiftRight { x, y })
        } else if n == 0x7 {
            Some(Instruction::SubReverse { x, y })
        } else if n == 0xE {
            Some(Instruction::ShiftLeft { x, y })
        } else {
            None
        }
    } else if k == 0x9 {
        if n == 0 {
            Some(Instruction::SkipIfRegistersNotEqual { x, y })
        } else {
            None
        }
    } else if k == 0xA {
        Some(Instruction::SetIndex { nnn })
    } else if k == 0xB {
        Some(Instruction::JumpWithOffset { nnn, x })
    } else if k == 0xC {
        Some(Instruction::Random { x, nn })
    } else if k == 0xD {
        Some(Instruction::Draw { x, y, n })
    } else if k == 0xE {
        if nn == 0x9E {
            Some(Instruction::SkipIfKeyPressed { x })
        } else if nn == 0xA1 {
            Some(Instruction::SkipIfKeyNotPressed { x })
        } else {
            None
        }
    } else {
        if nn == 0x07 {
            Some(Instruction::GetDelayTimer { x })
        } else if nn == 0x0A {
            Some(Instruction::WaitForKey { x })
        } else if nn == 0x15 {
            Some(Instruction::SetDelayTimer { x })
        } else if nn == 0x18 {
            Some(Instruction::SetSoundTimer { x })
        } else if nn == 0x1E {
            Some(Instruction::AddToIndex { x })
        } else if nn == 0x29 {
            Some(Instruction::FontGlyph { x })
        } else if nn == 0x33 {
            Some(Instruction::StoreDecimal { x })
        } else if nn == 0x55 {
            Some(Instruction::StoreRegisters { x })
        } else if nn == 0x65 {
            Some(Instruction::LoadRegisters { x })
        } else {
            None
        }
    }
}

} // verus!
