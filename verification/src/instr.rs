//! Decoding the 16-bit instruction word into a closed set of instruction
//! variants, each carrying its decoded operand fields. An unrecognised
//! pattern becomes the structurally distinct [`Instruction::Unknown`] variant,
//! which executes as a no-op that still advances the program counter.

use vstd::prelude::*;

verus! {

/// One decoded instruction. `x` and `y` are register numbers (one nibble
/// each), `nn` an immediate byte, `nnn` a 12-bit address, `n` a nibble.
#[derive(Clone, Copy, Debug, PartialEq, Eq, Structural)]
pub enum Instruction {
    /// 00E0: clear the display.
    ClearScreen,
    /// 00EE: return: pop the program counter from the call stack.
    Return,
    /// 1nnn: jump to nnn.
    Jump { nnn: u16 },
    /// 2nnn: push the return address, then jump to nnn.
    Call { nnn: u16 },
    /// 3xnn: skip the next instruction if Vx == nn.
    SkipIfEqual { x: u8, nn: u8 },
    /// 4xnn: skip the next instruction if Vx != nn.
    SkipIfNotEqual { x: u8, nn: u8 },
    /// 5xy0: skip the next instruction if Vx == Vy.
    SkipIfRegistersEqual { x: u8, y: u8 },
    /// 6xnn: Vx = nn.
    LoadValue { x: u8, nn: u8 },
    /// 7xnn: Vx = Vx + nn mod 256, flags untouched.
    AddValue { x: u8, nn: u8 },
    /// 8xy0: Vx = Vy.
    LoadRegister { x: u8, y: u8 },
    /// 8xy1: Vx |= Vy.
    OrRegister { x: u8, y: u8 },
    /// 8xy2: Vx &= Vy.
    AndRegister { x: u8, y: u8 },
    /// 8xy3: Vx ^= Vy.
    XorRegister { x: u8, y: u8 },
    /// 8xy4: Vx = Vx + Vy mod 256; VF = 1 on carry else 0.
    AddRegister { x: u8, y: u8 },
    /// 8xy5: Vx = Vx - Vy mod 256; VF = 0 on borrow else 1.
    SubRegister { x: u8, y: u8 },
    /// 8xy6: VF = pre-shift least-significant bit of Vx; Vx >>= 1.
    ShiftRight { x: u8 },
    /// 8xy7: Vx = Vy - Vx mod 256; VF = 0 on borrow else 1.
    SubnRegister { x: u8, y: u8 },
    /// 8xyE: VF = pre-shift most-significant bit of Vx; Vx <<= 1 mod 256.
    ShiftLeft { x: u8 },
    /// 9xy0: skip the next instruction if Vx != Vy.
    SkipIfRegistersNotEqual { x: u8, y: u8 },
    /// Annn: I = nnn.
    SetIndex { nnn: u16 },
    /// Bnnn: jump to nnn + V0.
    JumpWithOffset { nnn: u16 },
    /// Cxnn: Vx = random byte & nn.
    Random { x: u8, nn: u8 },
    /// Dxyn: draw the n-byte sprite at memory[I..] at (Vx, Vy); VF = collision.
    Draw { x: u8, y: u8, n: u8 },
    /// Ex9E: skip the next instruction if key Vx is held.
    SkipIfKeyPressed { x: u8 },
    /// ExA1: skip the next instruction if key Vx is not held.
    SkipIfKeyNotPressed { x: u8 },
    /// Fx07: Vx = delay timer.
    LoadDelayTimer { x: u8 },
    /// Fx0A: block until a key is held, then Vx = lowest held key index.
    WaitForKey { x: u8 },
    /// Fx15: delay timer = Vx.
    SetDelayTimer { x: u8 },
    /// Fx18: sound timer = Vx.
    SetSoundTimer { x: u8 },
    /// Fx1E: I = I + Vx mod 2^16, no flag.
    AddToIndex { x: u8 },
    /// Fx29: I = Vx * 5, the font glyph base address for digit Vx.
    LoadSpriteAddress { x: u8 },
    /// Fx33: write the BCD digits of Vx to memory[I..I+3].
    StoreBcd { x: u8 },
    /// Fx55: copy V0..=Vx into memory[I..].
    StoreRegisters { x: u8 },
    /// Fx65: copy memory[I..] into V0..=Vx.
    LoadRegisters { x: u8 },
    /// A pattern that matches no instruction: a no-op that advances pc.
    Unknown { word: u16 },
}

/// The decode table, a function of the two instruction bytes. `hi` is the
/// byte at the program counter, `lo` the byte after it.
pub open spec fn spec_decode(hi: u8, lo: u8) -> Instruction {
    let a = hi >> 4;
    let x = hi & 0x0F;
    let c = lo >> 4;
    let d = lo & 0x0F;
    let nn = lo;
    let nnn = (((hi & 0x0F) as u16) << 8) | (lo as u16);
    if hi == 0x00 && lo == 0xE0 {
        Instruction::ClearScreen
    } else if hi == 0x00 && lo == 0xEE {
        Instruction::Return
    } else if a == 0x1 {
        Instruction::Jump { nnn }
    } else if a == 0x2 {
        Instruction::Call { nnn }
    } else if a == 0x3 {
        Instruction::SkipIfEqual { x, nn }
    } else if a == 0x4 {
        Instruction::SkipIfNotEqual { x, nn }
    } else if a == 0x5 && d == 0x0 {
        Instruction::SkipIfRegistersEqual { x, y: c }
    } else if a == 0x6 {
        Instruction::LoadValue { x, nn }
    } else if a == 0x7 {
        Instruction::AddValue { x, nn }
    } else if a == 0x8 && d == 0x0 {
        Instruction::LoadRegister { x, y: c }
    } else if a == 0x8 && d == 0x1 {
        Instruction::OrRegister { x, y: c }
    } else if a == 0x8 && d == 0x2 {
        Instruction::AndRegister { x, y: c }
    } else if a == 0x8 && d == 0x3 {
        Instruction::XorRegister { x, y: c }
    } else if a == 0x8 && d == 0x4 {
        Instruction::AddRegister { x, y: c }
    } else if a == 0x8 && d == 0x5 {
        Instruction::SubRegister { x, y: c }
    } else if a == 0x8 && d == 0x6 {
        Instruction::ShiftRight { x }
    } else if a == 0x8 && d == 0x7 {
        Instruction::SubnRegister { x, y: c }
    } else if a == 0x8 && d == 0xE {
        Instruction::ShiftLeft { x }
    } else if a == 0x9 && d == 0x0 {
        Instruction::SkipIfRegistersNotEqual { x, y: c }
    } else if a == 0xA {
        Instruction::SetIndex { nnn }
    } else if a == 0xB {
        Instruction::JumpWithOffset { nnn }
    } else if a == 0xC {
        Instruction::Random { x, nn }
    } else if a == 0xD {
        Instruction::Draw { x, y: c, n: d }
    } else if a == 0xE && lo == 0x9E {
        Instruction::SkipIfKeyPressed { x }
    } else if a == 0xE && lo == 0xA1 {
        Instruction::SkipIfKeyNotPressed { x }
    } else if a == 0xF && lo == 0x07 {
        Instruction::LoadDelayTimer { x }
    } else if a == 0xF && lo == 0x0A {
        Instruction::WaitForKey { x }
    } else if a == 0xF && lo == 0x15 {
        Instruction::SetDelayTimer { x }
    } else if a == 0xF && lo == 0x18 {
        Instruction::SetSoundTimer { x }
    } else if a == 0xF && lo == 0x1E {
        Instruction::AddToIndex { x }
    } else if a == 0xF && lo == 0x29 {
        Instruction::LoadSpriteAddress { x }
    } else if a == 0xF && lo == 0x33 {
        Instruction::StoreBcd { x }
    } else if a == 0xF && lo == 0x55 {
        Instruction::StoreRegisters { x }
    } else if a == 0xF && lo == 0x65 {
        Instruction::LoadRegisters { x }
    } else {
        Instruction::Unknown { word: (((hi as u16) << 8) | (lo as u16)) }
    }
}

/// Every register operand of a decoded instruction is a nibble, every
/// address 12 bits, every sprite height a nibble.
pub open spec fn spec_inst_wf(inst: Instruction) -> bool {
    match inst {
        Instruction::Jump { nnn } => nnn < 0x1000,
        Instruction::Call { nnn } => nnn < 0x1000,
        Instruction::SkipIfEqual { x, .. } => x < 16,
        Instruction::SkipIfNotEqual { x, .. } => x < 16,
        Instruction::SkipIfRegistersEqual { x, y } => x < 16 && y < 16,
        Instruction::LoadValue { x, .. } => x < 16,
        Instruction::AddValue { x, .. } => x < 16,
        Instruction::LoadRegister { x, y } => x < 16 && y < 16,
        Instruction::OrRegister { x, y } => x < 16 && y < 16,
        Instruction::AndRegister { x, y } => x < 16 && y < 16,
        Instruction::XorRegister { x, y } => x < 16 && y < 16,
        Instruction::AddRegister { x, y } => x < 16 && y < 16,
        Instruction::SubRegister { x, y } => x < 16 && y < 16,
        Instruction::ShiftRight { x } => x < 16,
        Instruction::SubnRegister { x, y } => x < 16 && y < 16,
        Instruction::ShiftLeft { x } => x < 16,
        Instruction::SkipIfRegistersNotEqual { x, y } => x < 16 && y < 16,
        Instruction::SetIndex { nnn } => nnn < 0x1000,
        Instruction::JumpWithOffset { nnn } => nnn < 0x1000,
        Instruction::Random { x, .. } => x < 16,
        Instruction::Draw { x, y, n } => x < 16 && y < 16 && n < 16,
        Instruction::SkipIfKeyPressed { x } => x < 16,
        Instruction::SkipIfKeyNotPressed { x } => x < 16,
        Instruction::LoadDelayTimer { x } => x < 16,
        Instruction::WaitForKey { x } => x < 16,
        Instruction::SetDelayTimer { x } => x < 16,
        Instruction::SetSoundTimer { x } => x < 16,
        Instruction::AddToIndex { x } => x < 16,
        Instruction::LoadSpriteAddress { x } => x < 16,
        Instruction::StoreBcd { x } => x < 16,
        Instruction::StoreRegisters { x } => x < 16,
        Instruction::LoadRegisters { x } => x < 16,
        _ => true,
    }
}

/// Everything [`spec_decode`] produces is well-formed: nibble fields are
/// below 16 and addresses below 0x1000.
pub proof fn lemma_decode_wf(hi: u8, lo: u8)
    ensures
        spec_inst_wf(spec_decode(hi, lo)),
{
    assert(hi & 0x0F < 16) by (bit_vector);
    assert(lo >> 4 < 16) by (bit_vector);
    assert(lo & 0x0F < 16) by (bit_vector);
    assert((((hi & 0x0F) as u16) << 8) | (lo as u16) < 0x1000) by (bit_vector);
}

/// Splits a byte into its high and low nibbles.
pub fn split_byte(byte: u8) -> (r: (u8, u8))
    ensures
        r.0 == byte >> 4,
        r.1 == byte & 0x0F,
        r.0 < 16,
        r.1 < 16,
{
    proof {
        assert(byte >> 4 < 16 && byte & 0x0F < 16) by (bit_vector);
    }
    (byte >> 4, byte & 0x0F)
}

/// Combines three nibbles into a 12-bit value, high nibble first.
pub fn combine_nibbles(a: u8, b: u8, c: u8) -> (r: u16)
    requires
        a < 16,
        b < 16,
        c < 16,
    ensures
        r == ((a as u16) << 8) | ((b as u16) << 4) | (c as u16),
        r < 0x1000,
{
    proof {
        assert(a < 16 && b < 16 && c < 16 ==> ((a as u16) << 8) | ((b as u16) << 4) | (c as u16)
            < 0x1000) by (bit_vector);
    }
    ((a as u16) << 8) | ((b as u16) << 4) | (c as u16)
}

/// Decodes the two fetched instruction bytes.
pub fn decode(hi: u8, lo: u8) -> (inst: Instruction)
    ensures
        inst == spec_decode(hi, lo),
        spec_inst_wf(inst),
{
    proof {
        lemma_decode_wf(hi, lo);
    }
    let a = hi >> 4;
    let x = hi & 0x0F;
    let c = lo >> 4;
    let d = lo & 0x0F;
    let nn = lo;
    let nnn = (((hi & 0x0F) as u16) << 8) | (lo as u16);
    if hi == 0x00 && lo == 0xE0 {
        Instruction::ClearScreen
    } else if hi == 0x00 && lo == 0xEE {
        Instruction::Return
    } else if a == 0x1 {
        Instruction::Jump { nnn }
    } else if a == 0x2 {
        Instruction::Call { nnn }
    } else if a == 0x3 {
        Instruction::SkipIfEqual { x, nn }
    } else if a == 0x4 {
        Instruction::SkipIfNotEqual { x, nn }
    } else if a == 0x5 && d == 0x0 {
        Instruction::SkipIfRegistersEqual { x, y: c }
    } else if a == 0x6 {
        Instruction::LoadValue { x, nn }
    } else if a == 0x7 {
        Instruction::AddValue { x, nn }
    } else if a == 0x8 && d == 0x0 {
        Instruction::LoadRegister { x, y: c }
    } else if a == 0x8 && d == 0x1 {
        Instruction::OrRegister { x, y: c }
    } else if a == 0x8 && d == 0x2 {
        Instruction::AndRegister { x, y: c }
    } else if a == 0x8 && d == 0x3 {
        Instruction::XorRegister { x, y: c }
    } else if a == 0x8 && d == 0x4 {
        Instruction::AddRegister { x, y: c }
    } else if a == 0x8 && d == 0x5 {
        Instruction::SubRegister { x, y: c }
    } else if a == 0x8 && d == 0x6 {
        Instruction::ShiftRight { x }
    } else if a == 0x8 && d == 0x7 {
        Instruction::SubnRegister { x, y: c }
    } else if a == 0x8 && d == 0xE {
        Instruction::ShiftLeft { x }
    } else if a == 0x9 && d == 0x0 {
        Instruction::SkipIfRegistersNotEqual { x, y: c }
    } else if a == 0xA {
        Instruction::SetIndex { nnn }
    } else if a == 0xB {
        Instruction::JumpWithOffset { nnn }
    } else if a == 0xC {
        Instruction::Random { x, nn }
    } else if a == 0xD {
        Instruction::Draw { x, y: c, n: d }
    } else if a == 0xE && lo == 0x9E {
        Instruction::SkipIfKeyPressed { x }
    } else if a == 0xE && lo == 0xA1 {
        Instruction::SkipIfKeyNotPressed { x }
    } else if a == 0xF && lo == 0x07 {
        Instruction::LoadDelayTimer { x }
    } else if a == 0xF && lo == 0x0A {
        Instruction::WaitForKey { x }
    } else if a == 0xF && lo == 0x15 {
        Instruction::SetDelayTimer { x }
    } else if a == 0xF && lo == 0x18 {
        Instruction::SetSoundTimer { x }
    } else if a == 0xF && lo == 0x1E {
        Instruction::AddToIndex { x }
    } else if a == 0xF && lo == 0x29 {
        Instruction::LoadSpriteAddress { x }
    } else if a == 0xF && lo == 0x33 {
        Instruction::StoreBcd { x }
    } else if a == 0xF && lo == 0x55 {
        Instruction::StoreRegisters { x }
    } else if a == 0xF && lo == 0x65 {
        Instruction::LoadRegisters { x }
    } else {
        Instruction::Unknown { word: (((hi as u16) << 8) | (lo as u16)) }
    }
}

} // verus!
