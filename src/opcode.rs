use vstd::prelude::*;

verus! {

/// One decoded instruction. Register operands are indices below 16.
#[derive(Clone, Copy, Debug, PartialEq, Eq, Structural)]
pub enum Instruction {
    /// `00E0`
    ClearScreen,
    /// `00EE`
    Return,
    /// `1nnn`
    Jump { nnn: u16 },
    /// `2nnn`
    Call { nnn: u16 },
    /// `3xnn`
    SkipEqImm { x: usize, nn: u8 },
    /// `4xnn`
    SkipNeImm { x: usize, nn: u8 },
    /// `5xy0`
    SkipEqReg { x: usize, y: usize },
    /// `6xnn`
    LoadImm { x: usize, nn: u8 },
    /// `7xnn`
    AddImm { x: usize, nn: u8 },
    /// `8xyk` for `k` in 0..=7 and `E`
    Arith { op: u16, x: usize, y: usize },
    /// `9xy0`
    SkipNeReg { x: usize, y: usize },
    /// `Annn`
    SetIndex { nnn: u16 },
    /// `Bnnn`
    JumpOffset { nnn: u16 },
    /// `Cxnn`
    Random { x: usize, nn: u8 },
    /// `Dxyn`
    Draw { x: usize, y: usize, n: u16 },
    /// `Ex9E`
    SkipKey { x: usize },
    /// `ExA1`
    SkipNoKey { x: usize },
    /// `Fx07`
    LoadDelay { x: usize },
    /// `Fx15`
    SetDelay { x: usize },
    /// `Fx18`
    SetSound { x: usize },
    /// `Fx1E`
    AddIndex { x: usize },
    /// `Fx29`
    Glyph { x: usize },
    /// `Fx33`
    Bcd { x: usize },
    /// `Fx55`
    StoreRegs { x: usize },
    /// `Fx65`
    LoadRegs { x: usize },
}

/// The high nibble: the operation family.
pub open spec fn family(op: u16) -> u16 {
    op / 0x1000
}

/// Bits 8..12: the first register operand.
pub open spec fn field_x(op: u16) -> usize {
    ((op / 0x100) % 0x10) as usize
}

/// Bits 4..8: the second register operand.
pub open spec fn field_y(op: u16) -> usize {
    ((op / 0x10) % 0x10) as usize
}

/// The low nibble.
pub open spec fn field_n(op: u16) -> u16 {
    op % 0x10
}

/// The low byte.
pub open spec fn field_nn(op: u16) -> u8 {
    (op % 0x100) as u8
}

/// The low twelve bits: an address.
pub open spec fn field_nnn(op: u16) -> u16 {
    op % 0x1000
}

/// Whether `k` selects one of the register-to-register operations of family 8.
pub open spec fn is_arith_op(k: u16) -> bool {
    k <= 7 || k == 0xE
}

/// The instruction that an opcode encodes, or `None` where the bit pattern is
/// not in the instruction set.
pub open spec fn decode_spec(op: u16) -> Option<Instruction> {
    let x = field_x(op);
    let y = field_y(op);
    let n = field_n(op);
    let nn = field_nn(op);
    let nnn = field_nnn(op);
    let f = family(op);
    if op == 0x00E0 {
        Some(Instruction::ClearScreen)
    } else if op == 0x00EE {
        Some(Instruction::Return)
    } else if f == 1 {
        Some(Instruction::Jump { nnn })
    } else if f == 2 {
        Some(Instruction::Call { nnn })
    } else if f == 3 {
        Some(Instruction::SkipEqImm { x, nn })
    } else if f == 4 {
        Some(Instruction::SkipNeImm { x, nn })
    } else if f == 5 && n == 0 {
        Some(Instruction::SkipEqReg { x, y })
    } else if f == 6 {
        Some(Instruction::LoadImm { x, nn })
    } else if f == 7 {
        Some(Instruction::AddImm { x, nn })
    } else if f == 8 && is_arith_op(n) {
        Some(Instruction::Arith { op: n, x, y })
    } else if f == 9 && n == 0 {
        Some(Instruction::SkipNeReg { x, y })
    } else if f == 0xA {
        Some(Instruction::SetIndex { nnn })
    } else if f == 0xB {
        Some(Instruction::JumpOffset { nnn })
    } else if f == 0xC {
        Some(Instruction::Random { x, nn })
    } else if f == 0xD {
        Some(Instruction::Draw { x, y, n })
    } else if f == 0xE && nn == 0x9E {
        Some(Instruction::SkipKey { x })
    } else if f == 0xE && nn == 0xA1 {
        Some(Instruction::SkipNoKey { x })
    } else if f == 0xF && nn == 0x07 {
        Some(Instruction::LoadDelay { x })
    } else if f == 0xF && nn == 0x15 {
        Some(Instruction::SetDelay { x })
    } else if f == 0xF && nn == 0x18 {
        Some(Instruction::SetSound { x })
    } else if f == 0xF && nn == 0x1E {
        Some(Instruction::AddIndex { x })
    } else if f == 0xF && nn == 0x29 {
        Some(Instruction::Glyph { x })
    } else if f == 0xF && nn == 0x33 {
        Some(Instruction::Bcd { x })
    } else if f == 0xF && nn == 0x55 {
        Some(Instruction::StoreRegs { x })
    } else if f == 0xF && nn == 0x65 {
        Some(Instruction::LoadRegs { x })
    } else {
        None
    }
}

/// Register operands of a decoded instruction are always below 16, and the
/// sub-operation of family 8 is one that exists.
pub open spec fn operands_in_range(ins: Instruction) -> bool {
    match ins {
        Instruction::SkipEqImm { x, .. } | Instruction::SkipNeImm { x, .. }
        | Instruction::LoadImm { x, .. } | Instruction::AddImm { x, .. }
        | Instruction::Random { x, .. } | Instruction::SkipKey { x }
        | Instruction::SkipNoKey { x } | Instruction::LoadDelay { x }
        | Instruction::SetDelay { x } | Instruction::SetSound { x }
        | Instruction::AddIndex { x } | Instruction::Glyph { x } | Instruction::Bcd { x }
        | Instruction::StoreRegs { x } | Instruction::LoadRegs { x } => x < 16,
        Instruction::SkipEqReg { x, y } | Instruction::SkipNeReg { x, y } => x < 16 && y < 16,
        Instruction::Arith { op, x, y } => x < 16 && y < 16 && is_arith_op(op),
        Instruction::Draw { x, y, n } => x < 16 && y < 16 && n < 16,
        Instruction::Jump { nnn } | Instruction::Call { nnn } | Instruction::SetIndex { nnn }
        | Instruction::JumpOffset { nnn } => nnn < 0x1000,
        _ => true,
    }
}

/// Splits an opcode into its fields and names the instruction it encodes.
pub fn decode(op: u16) -> (r: Option<Instruction>)
    ensures
        r == decode_spec(op),
        r matches Some(ins) ==> operands_in_range(ins),
{
    let x: usize = ((op / 0x100) % 0x10) as usize;
    let y: usize = ((op / 0x10) % 0x10) as usize;
    let n: u16 = op % 0x10;
    let nn: u8 = (op % 0x100) as u8;
    let nnn: u16 = op % 0x1000;
    let f: u16 = op / 0x1000;
    if op == 0x00E0 {
        Some(Instruction::ClearScreen)
    } else if op == 0x00EE {
        Some(Instruction::Return)
    } else if f == 1 {
        Some(Instruction::Jump { nnn })
    } else if f == 2 {
        Some(Instruction::Call { nnn })
    } else if f == 3 {
        Some(Instruction::SkipEqImm { x, nn })
    } else if f == 4 {
        Some(Instruction::SkipNeImm { x, nn })
    } else if f == 5 && n == 0 {
        Some(Instruction::SkipEqReg { x, y })
    } else if f == 6 {
        Some(Instruction::LoadImm { x, nn })
    } else if f == 7 {
        Some(Instruction::AddImm { x, nn })
    } else if f == 8 && (n <= 7 || n == 0xE) {
        Some(Instruction::Arith { op: n, x, y })
    } else if f == 9 && n == 0 {
        Some(Instruction::SkipNeReg { x, y })
    } else if f == 0xA {
        Some(Instruction::SetIndex { nnn })
    } else if f == 0xB {
        Some(Instruction::JumpOffset { nnn })
    } else if f == 0xC {
        Some(Instruction::Random { x, nn })
    } else if f == 0xD {
        Some(Instruction::Draw { x, y, n })
    } else if f == 0xE && nn == 0x9E {
        Some(Instruction::SkipKey { x })
    } else if f == 0xE && nn == 0xA1 {
        Some(Instruction::SkipNoKey { x })
    } else if f == 0xF && nn == 0x07 {
        Some(Instruction::LoadDelay { x })
    } else if f == 0xF && nn == 0x15 {
        Some(Instruction::SetDelay { x })
    } else if f == 0xF && nn == 0x18 {
        Some(Instruction::SetSound { x })
    } else if f == 0xF && nn == 0x1E {
        Some(Instruction::AddIndex { x })
    } else if f == 0xF && nn == 0x29 {
        Some(Instruction::Glyph { x })
    } else if f == 0xF && nn == 0x33 {
        Some(Instruction::Bcd { x })
    } else if f == 0xF && nn == 0x55 {
        Some(Instruction::StoreRegs { x })
    } else if f == 0xF && nn == 0x65 {
        Some(Instruction::LoadRegs { x })
    } else {
        None
    }
}

} // verus!
