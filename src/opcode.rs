use vstd::prelude::*;

use crate::nibble::{lemma_u4_view_injective, u4};

verus! {

/// CHIP-8 instructions.
///
/// The fields (x, y, n, nn, nnn) are the operands encoded in the instruction word.
#[derive(Clone, Copy, Debug)]
pub enum Opcode {
    /// 1nnn - Jump to location nnn.
    Jump { nnn: u16 },
    /// Bnnn - Jump to location nnn + V0.
    JumpWithOffset { nnn: u16 },
    /// 2nnn - Call subroutine at nnn.
    Call { nnn: u16 },
    /// 00EE - Return from a subroutine.
    Return,
    /// 3xnn - Skip next instruction if Vx == nn.
    SkipRegEqualImm { x: u4, nn: u8 },
    /// 4xnn - Skip next instruction if Vx != nn.
    SkipRegNotEqualImm { x: u4, nn: u8 },
    /// 5xy0 - Skip next instruction if Vx == Vy.
    SkipRegEqualReg { x: u4, y: u4 },
    /// 9xy0 - Skip next instruction if Vx != Vy.
    SkipRegNotEqualReg { x: u4, y: u4 },
    /// 6xnn - Set Vx = nn.
    SetRegImm { x: u4, nn: u8 },
    /// 7xnn - Set Vx = Vx + nn.
    AddRegImm { x: u4, nn: u8 },
    /// Annn - Set I = nnn.
    SetIndexImm { nnn: u16 },
    /// Fx1E - Set I = I + Vx.
    AddIndexReg { x: u4 },
    /// 8xyN - ALU operations.
    ALU { x: u4, y: u4, op: OpcodeALU },
    /// Cxnn - Set Vx = random byte AND nn.
    Random { x: u4, nn: u8 },
    /// 00E0 - Clear the display.
    ClearDisplay,
    /// Dxyn - Display an n-byte sprite.
    Draw { x: u4, y: u4, n: u4 },
    /// Ex9E - Skip next instruction if the key with the value of Vx is pressed.
    SkipIfPressed { x: u4 },
    /// ExA1 - Skip next instruction if the key with the value of Vx is not pressed.
    SkipIfNotPressed { x: u4 },
    /// Fx0A - Wait for a key press and release, store the value of the key in Vx.
    WaitForKey { x: u4 },
    /// Fx07 - Set Vx = delay timer value.
    ReadDelayTimer { x: u4 },
    /// Fx15 - Set delay timer = Vx.
    SetDelayTimer { x: u4 },
    /// Fx18 - Set sound timer = Vx.
    SetSoundTimer { x: u4 },
    /// Fx29 - Set I = location of the font glyph for digit Vx.
    FontChar { x: u4 },
    /// Fx33 - Store the BCD representation of Vx at I, I+1 and I+2.
    BCD { x: u4 },
    /// Fx55 - Store registers V0 through Vx in memory starting at location I.
    StoreRegs { x: u4 },
    /// Fx65 - Read registers V0 through Vx from memory starting at location I.
    LoadRegs { x: u4 },
    /// A word that names no instruction.
    Unknown(u16),
    /// An `8xyN` word whose `N` names no ALU operation.
    UnknownALU(u16),
}

/// ALU operations of the `8xyN` instruction.
#[derive(Clone, Copy, Debug, PartialEq, Eq, Structural)]
pub enum OpcodeALU {
    /// 8xy0 - Vx = Vy
    Assign,
    /// 8xy1 - Vx = Vx OR Vy
    Or,
    /// 8xy2 - Vx = Vx AND Vy
    And,
    /// 8xy3 - Vx = Vx XOR Vy
    Xor,
    /// 8xy4 - Vx = Vx + Vy
    Add,
    /// 8xy5 - Vx = Vx - Vy
    Sub,
    /// 8xy6 - Vx = Vy SHR 1
    ShiftRight,
    /// 8xy7 - Vx = Vy - Vx
    SubReverse,
    /// 8xyE - Vx = Vy SHL 1
    ShiftLeft,
}

/// The high nibble of a word: the instruction family.
pub open spec fn family(w: u16) -> int {
    w as int / 0x1000
}

/// The second nibble of a word: the `x` operand.
pub open spec fn operand_x(w: u16) -> int {
    (w as int / 0x100) % 0x10
}

/// The third nibble of a word: the `y` operand.
pub open spec fn operand_y(w: u16) -> int {
    (w as int / 0x10) % 0x10
}

/// The low nibble of a word: the `n` operand.
pub open spec fn operand_n(w: u16) -> int {
    w as int % 0x10
}

/// The low byte of a word: the `nn` operand.
pub open spec fn operand_nn(w: u16) -> int {
    w as int % 0x100
}

/// The low twelve bits of a word: the `nnn` operand.
pub open spec fn operand_nnn(w: u16) -> int {
    w as int % 0x1000
}

/// The low nibble that selects an ALU operation in `8xyN`.
pub open spec fn alu_code(op: OpcodeALU) -> int {
    match op {
        OpcodeALU::Assign => 0x0,
        OpcodeALU::Or => 0x1,
        OpcodeALU::And => 0x2,
        OpcodeALU::Xor => 0x3,
        OpcodeALU::Add => 0x4,
        OpcodeALU::Sub => 0x5,
        OpcodeALU::ShiftRight => 0x6,
        OpcodeALU::SubReverse => 0x7,
        OpcodeALU::ShiftLeft => 0xE,
    }
}

/// Whether a low nibble selects an ALU operation.
pub open spec fn is_alu_code(n: int) -> bool {
    0 <= n <= 7 || n == 0xE
}

/// Whether the second byte of an `Fx..` word names an instruction.
pub open spec fn is_f_code(nn: int) -> bool {
    nn == 0x0A || nn == 0x07 || nn == 0x15 || nn == 0x18 || nn == 0x1E || nn == 0x29 || nn
        == 0x33 || nn == 0x55 || nn == 0x65
}

/// Whether a word belongs to one of the known instruction patterns
/// (a word of family `8` always does: it is an ALU operation or an unknown one).
pub open spec fn is_known_word(w: u16) -> bool {
    let f = family(w);
    ||| w == 0x00E0
    ||| w == 0x00EE
    ||| f == 0x1 || f == 0x2 || f == 0x3 || f == 0x4 || f == 0x6 || f == 0x7 || f == 0x8
    ||| f == 0xA || f == 0xB || f == 0xC || f == 0xD
    ||| (f == 0x5 || f == 0x9) && operand_n(w) == 0
    ||| f == 0xE && (operand_nn(w) == 0x9E || operand_nn(w) == 0xA1)
    ||| f == 0xF && is_f_code(operand_nn(w))
}

/// `op` is what the instruction word `w` means.
pub open spec fn decodes_to(w: u16, op: Opcode) -> bool {
    let f = family(w);
    let x = operand_x(w);
    let y = operand_y(w);
    let nn = operand_nn(w);
    let nnn = operand_nnn(w);
    match op {
        Opcode::ClearDisplay => w == 0x00E0,
        Opcode::Return => w == 0x00EE,
        Opcode::Jump { nnn: a } => f == 0x1 && a == nnn,
        Opcode::Call { nnn: a } => f == 0x2 && a == nnn,
        Opcode::SkipRegEqualImm { x: r, nn: k } => f == 0x3 && r@ == x && k == nn,
        Opcode::SkipRegNotEqualImm { x: r, nn: k } => f == 0x4 && r@ == x && k == nn,
        Opcode::SkipRegEqualReg { x: r, y: s } => f == 0x5 && operand_n(w) == 0 && r@ == x && s@
            == y,
        Opcode::SetRegImm { x: r, nn: k } => f == 0x6 && r@ == x && k == nn,
        Opcode::AddRegImm { x: r, nn: k } => f == 0x7 && r@ == x && k == nn,
        Opcode::ALU { x: r, y: s, op: a } => f == 0x8 && r@ == x && s@ == y && alu_code(a)
            == operand_n(w),
        Opcode::SkipRegNotEqualReg { x: r, y: s } => f == 0x9 && operand_n(w) == 0 && r@ == x
            && s@ == y,
        Opcode::SetIndexImm { nnn: a } => f == 0xA && a == nnn,
        Opcode::JumpWithOffset { nnn: a } => f == 0xB && a == nnn,
        Opcode::Random { x: r, nn: k } => f == 0xC && r@ == x && k == nn,
        Opcode::Draw { x: r, y: s, n: k } => f == 0xD && r@ == x && s@ == y && k@ == operand_n(w),
        Opcode::SkipIfPressed { x: r } => f == 0xE && nn == 0x9E && r@ == x,
        Opcode::SkipIfNotPressed { x: r } => f == 0xE && nn == 0xA1 && r@ == x,
        Opcode::WaitForKey { x: r } => f == 0xF && nn == 0x0A && r@ == x,
        Opcode::ReadDelayTimer { x: r } => f == 0xF && nn == 0x07 && r@ == x,
        Opcode::SetDelayTimer { x: r } => f == 0xF && nn == 0x15 && r@ == x,
        Opcode::SetSoundTimer { x: r } => f == 0xF && nn == 0x18 && r@ == x,
        Opcode::AddIndexReg { x: r } => f == 0xF && nn == 0x1E && r@ == x,
        Opcode::FontChar { x: r } => f == 0xF && nn == 0x29 && r@ == x,
        Opcode::BCD { x: r } => f == 0xF && nn == 0x33 && r@ == x,
        Opcode::StoreRegs { x: r } => f == 0xF && nn == 0x55 && r@ == x,
        Opcode::LoadRegs { x: r } => f == 0xF && nn == 0x65 && r@ == x,
        Opcode::UnknownALU(raw) => raw == w && f == 0x8 && !is_alu_code(operand_n(w)),
        Opcode::Unknown(raw) => raw == w && !is_known_word(w),
    }
}

impl Opcode {
    /// Decodes a 16-bit instruction word.
    pub fn decode(opcode: u16) -> (r: Opcode)
        ensures
            decodes_to(opcode, r),
    {
        let f = opcode / 0x1000;
        let xv = ((opcode / 0x100) % 0x10) as u8;
        let yv = ((opcode / 0x10) % 0x10) as u8;
        let nv = (opcode % 0x10) as u8;
        let nn = (opcode % 0x100) as u8;
        let nnn = opcode % 0x1000;
        let x = u4::new(xv);
        let y = u4::new(yv);
        let n = u4::new(nv);

        if opcode == 0x00E0 {
            Opcode::ClearDisplay
        } else if opcode == 0x00EE {
            Opcode::Return
        } else if f == 0x1 {
            Opcode::Jump { nnn }
        } else if f == 0x2 {
            Opcode::Call { nnn }
        } else if f == 0x3 {
            Opcode::SkipRegEqualImm { x, nn }
        } else if f == 0x4 {
            Opcode::SkipRegNotEqualImm { x, nn }
        } else if f == 0x5 && nv == 0x0 {
            Opcode::SkipRegEqualReg { x, y }
        } else if f == 0x6 {
            Opcode::SetRegImm { x, nn }
        } else if f == 0x7 {
            Opcode::AddRegImm { x, nn }
        } else if f == 0x8 {
            match nv {
                0x0 => Opcode::ALU { x, y, op: OpcodeALU::Assign },
                0x1 => Opcode::ALU { x, y, op: OpcodeALU::Or },
                0x2 => Opcode::ALU { x, y, op: OpcodeALU::And },
                0x3 => Opcode::ALU { x, y, op: OpcodeALU::Xor },
                0x4 => Opcode::ALU { x, y, op: OpcodeALU::Add },
                0x5 => Opcode::ALU { x, y, op: OpcodeALU::Sub },
                0x6 => Opcode::ALU { x, y, op: OpcodeALU::ShiftRight },
                0x7 => Opcode::ALU { x, y, op: OpcodeALU::SubReverse },
                0xE => Opcode::ALU { x, y, op: OpcodeALU::ShiftLeft },
                _ => Opcode::UnknownALU(opcode),
            }
        } else if f == 0x9 && nv == 0x0 {
            Opcode::SkipRegNotEqualReg { x, y }
        } else if f == 0xA {
            Opcode::SetIndexImm { nnn }
        } else if f == 0xB {
            Opcode::JumpWithOffset { nnn }
        } else if f == 0xC {
            Opcode::Random { x, nn }
        } else if f == 0xD {
            Opcode::Draw { x, y, n }
        } else if f == 0xE && nn == 0x9E {
            Opcode::SkipIfPressed { x }
        } else if f == 0xE && nn == 0xA1 {
            Opcode::SkipIfNotPressed { x }
        } else if f == 0xF {
            match nn {
                0x0A => Opcode::WaitForKey { x },
                0x07 => Opcode::ReadDelayTimer { x },
                0x15 => Opcode::SetDelayTimer { x },
                0x18 => Opcode::SetSoundTimer { x },
                0x1E => Opcode::AddIndexReg { x },
                0x29 => Opcode::FontChar { x },
                0x33 => Opcode::BCD { x },
                0x55 => Opcode::StoreRegs { x },
                0x65 => Opcode::LoadRegs { x },
                _ => Opcode::Unknown(opcode),
            }
        } else {
            Opcode::Unknown(opcode)
        }
    }
}

/// Decoding is a function: a word means at most one instruction, so the one
/// that `decode` returns is the only one; in particular a word of family `8`
/// whose low nibble names no ALU operation means only the unknown-ALU variant.
pub proof fn lemma_decode_unique(w: u16, a: Opcode, b: Opcode)
    requires
        decodes_to(w, a),
        decodes_to(w, b),
    ensures
        a == b,
        family(w) == 0x8 && !is_alu_code(operand_n(w)) ==> a == Opcode::UnknownALU(w),
{
    match (a, b) {
        (Opcode::SkipRegEqualImm { x: p, .. }, Opcode::SkipRegEqualImm { x: q, .. }) => {
            lemma_u4_view_injective(p, q);
        },
        (Opcode::SkipRegNotEqualImm { x: p, .. }, Opcode::SkipRegNotEqualImm { x: q, .. }) => {
            lemma_u4_view_injective(p, q);
        },
        (Opcode::SkipRegEqualReg { x: p, y: s }, Opcode::SkipRegEqualReg { x: q, y: t }) => {
            lemma_u4_view_injective(p, q);
            lemma_u4_view_injective(s, t);
        },
        (Opcode::SkipRegNotEqualReg { x: p, y: s }, Opcode::SkipRegNotEqualReg { x: q, y: t }) => {
            lemma_u4_view_injective(p, q);
            lemma_u4_view_injective(s, t);
        },
        (Opcode::SetRegImm { x: p, .. }, Opcode::SetRegImm { x: q, .. }) => {
            lemma_u4_view_injective(p, q);
        },
        (Opcode::AddRegImm { x: p, .. }, Opcode::AddRegImm { x: q, .. }) => {
            lemma_u4_view_injective(p, q);
        },
        (Opcode::ALU { x: p, y: s, .. }, Opcode::ALU { x: q, y: t, .. }) => {
            lemma_u4_view_injective(p, q);
            lemma_u4_view_injective(s, t);
        },
        (Opcode::Random { x: p, .. }, Opcode::Random { x: q, .. }) => {
            lemma_u4_view_injective(p, q);
        },
        (Opcode::Draw { x: p, y: s, n: k }, Opcode::Draw { x: q, y: t, n: l }) => {
            lemma_u4_view_injective(p, q);
            lemma_u4_view_injective(s, t);
            lemma_u4_view_injective(k, l);
        },
        (Opcode::SkipIfPressed { x: p }, Opcode::SkipIfPressed { x: q }) => {
            lemma_u4_view_injective(p, q);
        },
        (Opcode::SkipIfNotPressed { x: p }, Opcode::SkipIfNotPressed { x: q }) => {
            lemma_u4_view_injective(p, q);
        },
        (Opcode::WaitForKey { x: p }, Opcode::WaitForKey { x: q }) => {
            lemma_u4_view_injective(p, q);
        },
        (Opcode::ReadDelayTimer { x: p }, Opcode::ReadDelayTimer { x: q }) => {
            lemma_u4_view_injective(p, q);
        },
        (Opcode::SetDelayTimer { x: p }, Opcode::SetDelayTimer { x: q }) => {
            lemma_u4_view_injective(p, q);
        },
        (Opcode::SetSoundTimer { x: p }, Opcode::SetSoundTimer { x: q }) => {
            lemma_u4_view_injective(p, q);
        },
        (Opcode::AddIndexReg { x: p }, Opcode::AddIndexReg { x: q }) => {
            lemma_u4_view_injective(p, q);
        },
        (Opcode::FontChar { x: p }, Opcode::FontChar { x: q }) => {
            lemma_u4_view_injective(p, q);
        },
        (Opcode::BCD { x: p }, Opcode::BCD { x: q }) => {
            lemma_u4_view_injective(p, q);
        },
        (Opcode::StoreRegs { x: p }, Opcode::StoreRegs { x: q }) => {
            lemma_u4_view_injective(p, q);
        },
        (Opcode::LoadRegs { x: p }, Opcode::LoadRegs { x: q }) => {
            lemma_u4_view_injective(p, q);
        },
        _ => {},
    }
}

} // verus!
