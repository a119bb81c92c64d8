//! The CHIP-8 instruction set and its decoder.
//!
//! An instruction word is sixteen bits, read as four hexadecimal digits.
//! The letters used below are the customary ones:
//!
//! * `NNN`: a 12-bit address,
//! * `NN`: an 8-bit constant,
//! * `N`: a 4-bit constant,
//! * `X` and `Y`: 4-bit register identifiers.
use crate::text::{
    hex_text, push_hex, push_register, push_separator, register_text, separator,
};
use vstd::prelude::*;

verus! {

/// One decoded instruction. Each variant carries only the operands that its
/// opcode has.
#[derive(Clone, Copy, Debug, PartialEq, Eq, Structural)]
pub enum Instruction {
    /// `0NNN`: call the machine-code program at address NNN.
    CallProgram { addr: u16 },
    /// `00E0`: clear the screen.
    Clear,
    /// `00EE`: return from a subroutine.
    Return,
    /// `1NNN`: jump to address NNN.
    Goto { addr: u16 },
    /// `2NNN`: call the subroutine at NNN.
    CallSubroutine { addr: u16 },
    /// `3XNN`: skip the next instruction if VX equals NN.
    SkipEqualU8 { x: u8, value: u8 },
    /// `4XNN`: skip the next instruction if VX differs from NN.
    SkipNotEqualU8 { x: u8, value: u8 },
    /// `5XY0`: skip the next instruction if VX equals VY.
    SkipEqualReg { x: u8, y: u8 },
    /// `6XNN`: set VX to NN.
    SetFromU8 { x: u8, value: u8 },
    /// `7XNN`: add NN to VX, wrapping, without touching VF.
    AddU8 { x: u8, value: u8 },
    /// `8XY0`: set VX to the value of VY.
    SetFromReg { x: u8, y: u8 },
    /// `8XY1`: set VX to VX or VY.
    OrReg { x: u8, y: u8 },
    /// `8XY2`: set VX to VX and VY.
    AndReg { x: u8, y: u8 },
    /// `8XY3`: set VX to VX xor VY.
    XorReg { x: u8, y: u8 },
    /// `8XY4`: add VY to VX; VF is 1 when there is a carry and 0 when there is not.
    AddReg { x: u8, y: u8 },
    /// `8XY5`: subtract VY from VX; VF is 0 when there is a borrow and 1 when there is not.
    SubReg { x: u8, y: u8 },
    /// `8XY6`: store the least significant bit of VX in VF, then shift VX right by one.
    ShiftRight { x: u8 },
    /// `8XY7`: set VX to VY minus VX; VF is 0 when there is a borrow and 1 when there is not.
    RevSubReg { x: u8, y: u8 },
    /// `8XYE`: store the most significant bit of VX in VF, then shift VX left by one.
    ShiftLeft { x: u8 },
    /// `9XY0`: skip the next instruction if VX differs from VY.
    SkipNotEqualReg { x: u8, y: u8 },
    /// `ANNN`: set I to the address NNN.
    StoreAddress { addr: u16 },
    /// `BNNN`: jump to the address NNN plus V0.
    JumpToAddress { addr: u16 },
    /// `CXNN`: set VX to a random byte and NN.
    Rand { x: u8, value: u8 },
    /// `DXYN`: draw a sprite at (VX, VY), 8 pixels wide and N pixels high.
    Draw { x: u8, y: u8, n: u8 },
    /// `EX9E`: skip the next instruction if the key stored in VX is pressed.
    SkipIfKeyPressed { x: u8 },
    /// `EXA1`: skip the next instruction if the key stored in VX is not pressed.
    SkipIfNotKeyPressed { x: u8 },
    /// `FX07`: set VX to the value of the delay timer.
    SetFromDelayTimer { x: u8 },
    /// `FX0A`: await a key press and store the key in VX.
    AwaitKeyPressed { x: u8 },
    /// `FX15`: set the delay timer to VX.
    SetDelayTimer { x: u8 },
    /// `FX18`: set the sound timer to VX.
    SetSoundTimer { x: u8 },
    /// `FX1E`: add VX to I.
    AddToI { x: u8 },
    /// `FX29`: set I to the location of the sprite for the digit in VX.
    SetIToSpriteAddress { x: u8 },
    /// `FX33`: store the decimal digits of VX at I, I+1 and I+2.
    StoreAtIAsDecimal { x: u8 },
    /// `FX55`: dump V0 to VX to memory at I.
    DumpToMemory { x: u8 },
    /// `FX65`: load V0 to VX from memory at I.
    LoadFromMemory { x: u8 },
    /// `0000`: end of program.
    EndOfProgram,
    /// Any word that is none of the above.
    UnknownInstruction,
}

/// The hexadecimal digit of `word` at `place`, where place 0 is the most
/// significant digit and place 3 the least.
pub open spec fn hex_digit(word: u16, place: int) -> u8 {
    if place == 0 {
        (word / 0x1000) as u8
    } else if place == 1 {
        ((word / 0x100) % 0x10) as u8
    } else if place == 2 {
        ((word / 0x10) % 0x10) as u8
    } else {
        (word % 0x10) as u8
    }
}

/// The 8-bit constant `NN` of a word: its low byte.
pub open spec fn low_byte(word: u16) -> u8 {
    (word % 0x100) as u8
}

/// The 12-bit address `NNN` of a word: its low three digits.
pub open spec fn low_address(word: u16) -> u16 {
    word % 0x1000
}

/// The word made of a high and a low byte.
pub open spec fn word_of(high: u8, low: u8) -> u16 {
    (high * 0x100 + low) as u16
}

/// The byte whose high digit is `n1` and whose low digit is `n2`; only the
/// low four bits of each argument count.
pub open spec fn spec_value_from(n1: u8, n2: u8) -> u8 {
    ((n1 % 0x10) * 0x10 + n2 % 0x10) as u8
}

/// The 12-bit address whose digits are `n1`, `n2`, `n3` from the most
/// significant down; only the low four bits of each argument count.
pub open spec fn spec_address_from(n1: u8, n2: u8, n3: u8) -> u16 {
    ((n1 % 0x10) * 0x100 + (n2 % 0x10) * 0x10 + n3 % 0x10) as u16
}

/// The instruction that a word stands for: the opcode table, read by the
/// word's hexadecimal digits.
pub open spec fn decode(word: u16) -> Instruction {
    let op = hex_digit(word, 0);
    let x = hex_digit(word, 1);
    let y = hex_digit(word, 2);
    let n = hex_digit(word, 3);
    let value = low_byte(word);
    let addr = low_address(word);
    if word == 0x0000 {
        Instruction::EndOfProgram
    } else if word == 0x00E0 {
        Instruction::Clear
    } else if word == 0x00EE {
        Instruction::Return
    } else if op == 0x0 {
        Instruction::CallProgram { addr }
    } else if op == 0x1 {
        Instruction::Goto { addr }
    } else if op == 0x2 {
        Instruction::CallSubroutine { addr }
    } else if op == 0x3 {
        Instruction::SkipEqualU8 { x, value }
    } else if op == 0x4 {
        Instruction::SkipNotEqualU8 { x, value }
    } else if op == 0x5 && n == 0x0 {
        Instruction::SkipEqualReg { x, y }
    } else if op == 0x6 {
        Instruction::SetFromU8 { x, value }
    } else if op == 0x7 {
        Instruction::AddU8 { x, value }
    } else if op == 0x8 && n == 0x0 {
        Instruction::SetFromReg { x, y }
    } else if op == 0x8 && n == 0x1 {
        Instruction::OrReg { x, y }
    } else if op == 0x8 && n == 0x2 {
        Instruction::AndReg { x, y }
    } else if op == 0x8 && n == 0x3 {
        Instruction::XorReg { x, y }
    } else if op == 0x8 && n == 0x4 {
        Instruction::AddReg { x, y }
    } else if op == 0x8 && n == 0x5 {
        Instruction::SubReg { x, y }
    } else if op == 0x8 && n == 0x6 {
        Instruction::ShiftRight { x }
    } else if op == 0x8 && n == 0x7 {
        Instruction::RevSubReg { x, y }
    } else if op == 0x8 && n == 0xE {
        Instruction::ShiftLeft { x }
    } else if op == 0x9 && n == 0x0 {
        Instruction::SkipNotEqualReg { x, y }
    } else if op == 0xA {
        Instruction::StoreAddress { addr }
    } else if op == 0xB {
        Instruction::JumpToAddress { addr }
    } else if op == 0xC {
        Instruction::Rand { x, value }
    } else if op == 0xD {
        Instruction::Draw { x, y, n }
    } else if op == 0xE && value == 0x9E {
        Instruction::SkipIfKeyPressed { x }
    } else if op == 0xE && value == 0xA1 {
        Instruction::SkipIfNotKeyPressed { x }
    } else if op == 0xF && value == 0x07 {
        Instruction::SetFromDelayTimer { x }
    } else if op == 0xF && value == 0x0A {
        Instruction::AwaitKeyPressed { x }
    } else if op == 0xF && value == 0x15 {
        Instruction::SetDelayTimer { x }
    } else if op == 0xF && value == 0x18 {
        Instruction::SetSoundTimer { x }
    } else if op == 0xF && value == 0x1E {
        Instruction::AddToI { x }
    } else if op == 0xF && value == 0x29 {
        Instruction::SetIToSpriteAddress { x }
    } else if op == 0xF && value == 0x33 {
        Instruction::StoreAtIAsDecimal { x }
    } else if op == 0xF && value == 0x55 {
        Instruction::DumpToMemory { x }
    } else if op == 0xF && value == 0x65 {
        Instruction::LoadFromMemory { x }
    } else {
        Instruction::UnknownInstruction
    }
}

/// The word that encodes an instruction. Where an opcode ignores a digit
/// (the `Y` of the two shifts), the digit is written as zero. The word of
/// `UnknownInstruction`, which no single word stands for, is `FFFF`.
pub open spec fn encode(instruction: Instruction) -> u16 {
    match instruction {
        Instruction::EndOfProgram => 0x0000,
        Instruction::Clear => 0x00E0,
        Instruction::Return => 0x00EE,
        Instruction::CallProgram { addr } => addr,
        Instruction::Goto { addr } => (0x1000 + addr) as u16,
        Instruction::CallSubroutine { addr } => (0x2000 + addr) as u16,
        Instruction::SkipEqualU8 { x, value } => (0x3000 + x * 0x100 + value) as u16,
        Instruction::SkipNotEqualU8 { x, value } => (0x4000 + x * 0x100 + value) as u16,
        Instruction::SkipEqualReg { x, y } => (0x5000 + x * 0x100 + y * 0x10) as u16,
        Instruction::SetFromU8 { x, value } => (0x6000 + x * 0x100 + value) as u16,
        Instruction::AddU8 { x, value } => (0x7000 + x * 0x100 + value) as u16,
        Instruction::SetFromReg { x, y } => (0x8000 + x * 0x100 + y * 0x10) as u16,
        Instruction::OrReg { x, y } => (0x8001 + x * 0x100 + y * 0x10) as u16,
        Instruction::AndReg { x, y } => (0x8002 + x * 0x100 + y * 0x10) as u16,
        Instruction::XorReg { x, y } => (0x8003 + x * 0x100 + y * 0x10) as u16,
        Instruction::AddReg { x, y } => (0x8004 + x * 0x100 + y * 0x10) as u16,
        Instruction::SubReg { x, y } => (0x8005 + x * 0x100 + y * 0x10) as u16,
        Instruction::ShiftRight { x } => (0x8006 + x * 0x100) as u16,
        Instruction::RevSubReg { x, y } => (0x8007 + x * 0x100 + y * 0x10) as u16,
        Instruction::ShiftLeft { x } => (0x800E + x * 0x100) as u16,
        Instruction::SkipNotEqualReg { x, y } => (0x9000 + x * 0x100 + y * 0x10) as u16,
        Instruction::StoreAddress { addr } => (0xA000 + addr) as u16,
        Instruction::JumpToAddress { addr } => (0xB000 + addr) as u16,
        Instruction::Rand { x, value } => (0xC000 + x * 0x100 + value) as u16,
        Instruction::Draw { x, y, n } => (0xD000 + x * 0x100 + y * 0x10 + n) as u16,
        Instruction::SkipIfKeyPressed { x } => (0xE09E + x * 0x100) as u16,
        Instruction::SkipIfNotKeyPressed { x } => (0xE0A1 + x * 0x100) as u16,
        Instruction::SetFromDelayTimer { x } => (0xF007 + x * 0x100) as u16,
        Instruction::AwaitKeyPressed { x } => (0xF00A + x * 0x100) as u16,
        Instruction::SetDelayTimer { x } => (0xF015 + x * 0x100) as u16,
        Instruction::SetSoundTimer { x } => (0xF018 + x * 0x100) as u16,
        Instruction::AddToI { x } => (0xF01E + x * 0x100) as u16,
        Instruction::SetIToSpriteAddress { x } => (0xF029 + x * 0x100) as u16,
        Instruction::StoreAtIAsDecimal { x } => (0xF033 + x * 0x100) as u16,
        Instruction::DumpToMemory { x } => (0xF055 + x * 0x100) as u16,
        Instruction::LoadFromMemory { x } => (0xF065 + x * 0x100) as u16,
        Instruction::UnknownInstruction => 0xFFFF,
    }
}

impl Instruction {
    /// Every register identifier and 4-bit constant is below 16 and every
    /// address below `0x1000`: the operands fit the digits of a word.
    pub open spec fn operands_fit(self) -> bool {
        match self {
            Instruction::CallProgram { addr }
            | Instruction::Goto { addr }
            | Instruction::CallSubroutine { addr }
            | Instruction::StoreAddress { addr }
            | Instruction::JumpToAddress { addr } => addr < 0x1000,
            Instruction::SkipEqualU8 { x, .. }
            | Instruction::SkipNotEqualU8 { x, .. }
            | Instruction::SetFromU8 { x, .. }
            | Instruction::AddU8 { x, .. }
            | Instruction::Rand { x, .. }
            | Instruction::ShiftRight { x }
            | Instruction::ShiftLeft { x }
            | Instruction::SkipIfKeyPressed { x }
            | Instruction::SkipIfNotKeyPressed { x }
            | Instruction::SetFromDelayTimer { x }
            | Instruction::AwaitKeyPressed { x }
            | Instruction::SetDelayTimer { x }
            | Instruction::SetSoundTimer { x }
            | Instruction::AddToI { x }
            | Instruction::SetIToSpriteAddress { x }
            | Instruction::StoreAtIAsDecimal { x }
            | Instruction::DumpToMemory { x }
            | Instruction::LoadFromMemory { x } => x < 16,
            Instruction::SkipEqualReg { x, y }
            | Instruction::SetFromReg { x, y }
            | Instruction::OrReg { x, y }
            | Instruction::AndReg { x, y }
            | Instruction::XorReg { x, y }
            | Instruction::AddReg { x, y }
            | Instruction::SubReg { x, y }
            | Instruction::RevSubReg { x, y }
            | Instruction::SkipNotEqualReg { x, y } => x < 16 && y < 16,
            Instruction::Draw { x, y, n } => x < 16 && y < 16 && n < 16,
            Instruction::Clear
            | Instruction::Return
            | Instruction::EndOfProgram
            | Instruction::UnknownInstruction => true,
        }
    }

    /// The instruction is the one that its own word decodes to: it is not
    /// `UnknownInstruction`, its operands fit, and it is no `CallProgram`
    /// whose address makes the word one of the three fixed words `0000`,
    /// `00E0`, `00EE`.
    pub open spec fn has_word(self) -> bool {
        &&& self.operands_fit()
        &&& self != Instruction::UnknownInstruction
        &&& match self {
            Instruction::CallProgram { addr } => addr != 0x000 && addr != 0x0E0 && addr != 0x0EE,
            _ => true,
        }
    }

    /// The name of the instruction's kind, as text: the name of its variant.
    pub open spec fn spec_name(self) -> Seq<char> {
        match self {
            Instruction::CallProgram { .. } => "CallProgram"@,
            Instruction::Clear => "Clear"@,
            Instruction::Return => "Return"@,
            Instruction::Goto { .. } => "Goto"@,
            Instruction::CallSubroutine { .. } => "CallSubroutine"@,
            Instruction::SkipEqualU8 { .. } => "SkipEqualU8"@,
            Instruction::SkipNotEqualU8 { .. } => "SkipNotEqualU8"@,
            Instruction::SkipEqualReg { .. } => "SkipEqualReg"@,
            Instruction::SetFromU8 { .. } => "SetFromU8"@,
            Instruction::AddU8 { .. } => "AddU8"@,
            Instruction::SetFromReg { .. } => "SetFromReg"@,
            Instruction::OrReg { .. } => "OrReg"@,
            Instruction::AndReg { .. } => "AndReg"@,
            Instruction::XorReg { .. } => "XorReg"@,
            Instruction::AddReg { .. } => "AddReg"@,
            Instruction::SubReg { .. } => "SubReg"@,
            Instruction::ShiftRight { .. } => "ShiftRight"@,
            Instruction::RevSubReg { .. } => "RevSubReg"@,
            Instruction::ShiftLeft { .. } => "ShiftLeft"@,
            Instruction::SkipNotEqualReg { .. } => "SkipNotEqualReg"@,
            Instruction::StoreAddress { .. } => "StoreAddress"@,
            Instruction::JumpToAddress { .. } => "JumpToAddress"@,
            Instruction::Rand { .. } => "Rand"@,
            Instruction::Draw { .. } => "Draw"@,
            Instruction::SkipIfKeyPressed { .. } => "SkipIfKeyPressed"@,
            Instruction::SkipIfNotKeyPressed { .. } => "SkipIfNotKeyPressed"@,
            Instruction::SetFromDelayTimer { .. } => "SetFromDelayTimer"@,
            Instruction::AwaitKeyPressed { .. } => "AwaitKeyPressed"@,
            Instruction::SetDelayTimer { .. } => "SetDelayTimer"@,
            Instruction::SetSoundTimer { .. } => "SetSoundTimer"@,
            Instruction::AddToI { .. } => "AddToI"@,
            Instruction::SetIToSpriteAddress { .. } => "SetIToSpriteAddress"@,
            Instruction::StoreAtIAsDecimal { .. } => "StoreAtIAsDecimal"@,
            Instruction::DumpToMemory { .. } => "DumpToMemory"@,
            Instruction::LoadFromMemory { .. } => "LoadFromMemory"@,
            Instruction::EndOfProgram => "EndOfProgram"@,
            Instruction::UnknownInstruction => "UnknownInstruction"@,
        }
    }

    /// The name of the instruction's kind: the name of its variant.
    pub fn name(&self) -> (name: &'static str)
        ensures
            name@ == self.spec_name(),
    {
        match self {
            Instruction::CallProgram { .. } => "CallProgram",
            Instruction::Clear => "Clear",
            Instruction::Return => "Return",
            Instruction::Goto { .. } => "Goto",
            Instruction::CallSubroutine { .. } => "CallSubroutine",
            Instruction::SkipEqualU8 { .. } => "SkipEqualU8",
            Instruction::SkipNotEqualU8 { .. } => "SkipNotEqualU8",
            Instruction::SkipEqualReg { .. } => "SkipEqualReg",
            Instruction::SetFromU8 { .. } => "SetFromU8",
            Instruction::AddU8 { .. } => "AddU8",
            Instruction::SetFromReg { .. } => "SetFromReg",
            Instruction::OrReg { .. } => "OrReg",
            Instruction::AndReg { .. } => "AndReg",
            Instruction::XorReg { .. } => "XorReg",
            Instruction::AddReg { .. } => "AddReg",
            Instruction::SubReg { .. } => "SubReg",
            Instruction::ShiftRight { .. } => "ShiftRight",
            Instruction::RevSubReg { .. } => "RevSubReg",
            Instruction::ShiftLeft { .. } => "ShiftLeft",
            Instruction::SkipNotEqualReg { .. } => "SkipNotEqualReg",
            Instruction::StoreAddress { .. } => "StoreAddress",
            Instruction::JumpToAddress { .. } => "JumpToAddress",
            Instruction::Rand { .. } => "Rand",
            Instruction::Draw { .. } => "Draw",
            Instruction::SkipIfKeyPressed { .. } => "SkipIfKeyPressed",
            Instruction::SkipIfNotKeyPressed { .. } => "SkipIfNotKeyPressed",
            Instruction::SetFromDelayTimer { .. } => "SetFromDelayTimer",
            Instruction::AwaitKeyPressed { .. } => "AwaitKeyPressed",
            Instruction::SetDelayTimer { .. } => "SetDelayTimer",
            Instruction::SetSoundTimer { .. } => "SetSoundTimer",
            Instruction::AddToI { .. } => "AddToI",
            Instruction::SetIToSpriteAddress { .. } => "SetIToSpriteAddress",
            Instruction::StoreAtIAsDecimal { .. } => "StoreAtIAsDecimal",
            Instruction::DumpToMemory { .. } => "DumpToMemory",
            Instruction::LoadFromMemory { .. } => "LoadFromMemory",
            Instruction::EndOfProgram => "EndOfProgram",
            Instruction::UnknownInstruction => "UnknownInstruction",
        }
    }

    /// The instruction as text: the name of its variant, without operands.
    pub fn to_string(&self) -> (text: String)
        ensures
            text@ == self.spec_name(),
    {
        self.name().to_owned()
    }

    /// The operands as text, each register as `V` and its digit, each
    /// constant and address in hexadecimal with as many digits as it has in
    /// the word; a space goes before the first operand, a comma and a space
    /// between two. Empty for an instruction without operands.
    pub open spec fn operands_text(self) -> Seq<char> {
        match self {
            Instruction::CallProgram { addr }
            | Instruction::Goto { addr }
            | Instruction::CallSubroutine { addr }
            | Instruction::StoreAddress { addr }
            | Instruction::JumpToAddress { addr } => seq![' '] + hex_text(addr as int, 3),
            Instruction::SkipEqualU8 { x, value }
            | Instruction::SkipNotEqualU8 { x, value }
            | Instruction::SetFromU8 { x, value }
            | Instruction::AddU8 { x, value }
            | Instruction::Rand { x, value } => seq![' '] + register_text(x) + separator()
                + hex_text(value as int, 2),
            Instruction::ShiftRight { x }
            | Instruction::ShiftLeft { x }
            | Instruction::SkipIfKeyPressed { x }
            | Instruction::SkipIfNotKeyPressed { x }
            | Instruction::SetFromDelayTimer { x }
            | Instruction::AwaitKeyPressed { x }
            | Instruction::SetDelayTimer { x }
            | Instruction::SetSoundTimer { x }
            | Instruction::AddToI { x }
            | Instruction::SetIToSpriteAddress { x }
            | Instruction::StoreAtIAsDecimal { x }
            | Instruction::DumpToMemory { x }
            | Instruction::LoadFromMemory { x } => seq![' '] + register_text(x),
            Instruction::SkipEqualReg { x, y }
            | Instruction::SetFromReg { x, y }
            | Instruction::OrReg { x, y }
            | Instruction::AndReg { x, y }
            | Instruction::XorReg { x, y }
            | Instruction::AddReg { x, y }
            | Instruction::SubReg { x, y }
            | Instruction::RevSubReg { x, y }
            | Instruction::SkipNotEqualReg { x, y } => seq![' '] + register_text(x) + separator()
                + register_text(y),
            Instruction::Draw { x, y, n } => seq![' '] + register_text(x) + separator()
                + register_text(y) + separator() + hex_text(n as int, 1),
            Instruction::Clear
            | Instruction::Return
            | Instruction::EndOfProgram
            | Instruction::UnknownInstruction => Seq::empty(),
        }
    }

    /// The instruction as a line of a listing: its name, then its operands.
    pub open spec fn asm_text(self) -> Seq<char> {
        self.spec_name() + self.operands_text()
    }

    /// The instruction as a line of a listing: its name, then its operands,
    /// as in `SetFromU8 VA, 0x15`.
    pub fn to_asm(&self) -> (text: String)
        requires
            self.operands_fit(),
        ensures
            text@ == self.asm_text(),
    {
        let mut text = self.to_string();
        let ghost name = text@;
        match *self {
            Instruction::CallProgram { addr }
            | Instruction::Goto { addr }
            | Instruction::CallSubroutine { addr }
            | Instruction::StoreAddress { addr }
            | Instruction::JumpToAddress { addr } => {
                text.push(' ');
                push_hex(&mut text, addr, 3);
                assert(text@ =~= name + (seq![' '] + hex_text(addr as int, 3)));
            },
            Instruction::SkipEqualU8 { x, value }
            | Instruction::SkipNotEqualU8 { x, value }
            | Instruction::SetFromU8 { x, value }
            | Instruction::AddU8 { x, value }
            | Instruction::Rand { x, value } => {
                text.push(' ');
                push_register(&mut text, x);
                push_separator(&mut text);
                push_hex(&mut text, value as u16, 2);
                assert(text@ =~= name + (seq![' '] + register_text(x) + separator() + hex_text(
                    value as int,
                    2,
                )));
            },
            Instruction::ShiftRight { x }
            | Instruction::ShiftLeft { x }
            | Instruction::SkipIfKeyPressed { x }
            | Instruction::SkipIfNotKeyPressed { x }
            | Instruction::SetFromDelayTimer { x }
            | Instruction::AwaitKeyPressed { x }
            | Instruction::SetDelayTimer { x }
            | Instruction::SetSoundTimer { x }
            | Instruction::AddToI { x }
            | Instruction::SetIToSpriteAddress { x }
            | Instruction::StoreAtIAsDecimal { x }
            | Instruction::DumpToMemory { x }
            | Instruction::LoadFromMemory { x } => {
                text.push(' ');
                push_register(&mut text, x);
                assert(text@ =~= name + (seq![' '] + register_text(x)));
            },
            Instruction::SkipEqualReg { x, y }
            | Instruction::SetFromReg { x, y }
            | Instruction::OrReg { x, y }
            | Instruction::AndReg { x, y }
            | Instruction::XorReg { x, y }
            | Instruction::AddReg { x, y }
            | Instruction::SubReg { x, y }
            | Instruction::RevSubReg { x, y }
            | Instruction::SkipNotEqualReg { x, y } => {
                text.push(' ');
                push_register(&mut text, x);
                push_separator(&mut text);
                push_register(&mut text, y);
                assert(text@ =~= name + (seq![' '] + register_text(x) + separator()
                    + register_text(y)));
            },
            Instruction::Draw { x, y, n } => {
                text.push(' ');
                push_register(&mut text, x);
                push_separator(&mut text);
                push_register(&mut text, y);
                push_separator(&mut text);
                push_hex(&mut text, n as u16, 1);
                assert(text@ =~= name + (seq![' '] + register_text(x) + separator()
                    + register_text(y) + separator() + hex_text(n as int, 1)));
            },
            Instruction::Clear
            | Instruction::Return
            | Instruction::EndOfProgram
            | Instruction::UnknownInstruction => {
                assert(text@ =~= name + Seq::<char>::empty());
            },
        }
        text
    }

    /// Joins two 4-bit digits into a byte, `n1` on the high side.
    pub fn value_from(n1: u8, n2: u8) -> (value: u8)
        ensures
            value == spec_value_from(n1, n2),
    {
        assert((((n1 << 4) & 0xF0) | (n2 & 0xF)) == ((n1 % 0x10) * 0x10 + n2 % 0x10) as u8)
            by (bit_vector);
        ((n1 << 4) & 0xF0) | (n2 & 0xF)
    }

    /// Joins three 4-bit digits into a 12-bit address, `n1` on the high side.
    pub fn address_from(n1: u8, n2: u8, n3: u8) -> (addr: u16)
        ensures
            addr == spec_address_from(n1, n2, n3),
            addr < 0x1000,
    {
        let low = Instruction::value_from(n2, n3);
        assert(((((n1 as u16) << 8) & 0xF00) | (low as u16)) == ((n1 as u16) % 0x10) * 0x100 + (
        low as u16)) by (bit_vector);
        (((n1 as u16) << 8) & 0xF00) | (low as u16)
    }
}

impl From<(u8, u8)> for Instruction {
    /// Decodes the word whose high byte is `bytes.0` and whose low byte is
    /// `bytes.1`.
    fn from(bytes: (u8, u8)) -> (instruction: Self) {
        let b0 = bytes.0;
        let b1 = bytes.1;
        let splitted = ((b0 & 0xF0) >> 4, b0 & 0x0F, (b1 & 0xF0) >> 4, b1 & 0x000F);
        proof {
            assert((b0 & 0xF0) >> 4 == b0 / 0x10) by (bit_vector);
            assert(b0 & 0x0F == b0 % 0x10) by (bit_vector);
            assert((b1 & 0xF0) >> 4 == b1 / 0x10) by (bit_vector);
            assert(b1 & 0x000F == b1 % 0x10) by (bit_vector);
            lemma_digits_of_bytes(b0, b1);
        }
        match splitted {
            (0x0, 0x0, 0x0, 0x0) => Instruction::EndOfProgram,
            (0x0, 0x0, 0xE, 0x0) => Instruction::Clear,
            (0x0, 0x0, 0xE, 0xE) => Instruction::Return,
            (0x0, n1, n2, n3) => Instruction::CallProgram {
                addr: Instruction::address_from(n1, n2, n3),
            },
            (0x1, n1, n2, n3) => Instruction::Goto { addr: Instruction::address_from(n1, n2, n3) },
            (0x2, n1, n2, n3) => Instruction::CallSubroutine {
                addr: Instruction::address_from(n1, n2, n3),
            },
            (0x3, x, n1, n2) => Instruction::SkipEqualU8 {
                x,
                value: Instruction::value_from(n1, n2),
            },
            (0x4, x, n1, n2) => Instruction::SkipNotEqualU8 {
                x,
                value: Instruction::value_from(n1, n2),
            },
            (0x5, x, y, 0x0) => Instruction::SkipEqualReg { x, y },
            (0x6, x, n1, n2) => Instruction::SetFromU8 { x, value: Instruction::value_from(n1, n2) },
            (0x7, x, n1, n2) => Instruction::AddU8 { x, value: Instruction::value_from(n1, n2) },
            (0x8, x, y, 0x0) => Instruction::SetFromReg { x, y },
            (0x8, x, y, 0x1) => Instruction::OrReg { x, y },
            (0x8, x, y, 0x2) => Instruction::AndReg { x, y },
            (0x8, x, y, 0x3) => Instruction::XorReg { x, y },
            (0x8, x, y, 0x4) => Instruction::AddReg { x, y },
            (0x8, x, y, 0x5) => Instruction::SubReg { x, y },
            (0x8, x, _, 0x6) => Instruction::ShiftRight { x },
            (0x8, x, y, 0x7) => Instruction::RevSubReg { x, y },
            (0x8, x, _, 0xE) => Instruction::ShiftLeft { x },
            (0x9, x, y, 0x0) => Instruction::SkipNotEqualReg { x, y },
            (0xA, n1, n2, n3) => Instruction::StoreAddress {
                addr: Instruction::address_from(n1, n2, n3),
            },
            (0xB, n1, n2, n3) => Instruction::JumpToAddress {
                addr: Instruction::address_from(n1, n2, n3),
            },
            (0xC, x, n1, n2) => Instruction::Rand { x, value: Instruction::value_from(n1, n2) },
            (0xD, x, y, n) => Instruction::Draw { x, y, n },
            (0xE, x, 0x9, 0xE) => Instruction::SkipIfKeyPressed { x },
            (0xE, x, 0xA, 0x1) => Instruction::SkipIfNotKeyPressed { x },
            (0xF, x, 0x0, 0x7) => Instruction::SetFromDelayTimer { x },
            (0xF, x, 0x0, 0xA) => Instruction::AwaitKeyPressed { x },
            (0xF, x, 0x1, 0x5) => Instruction::SetDelayTimer { x },
            (0xF, x, 0x1, 0x8) => Instruction::SetSoundTimer { x },
            (0xF, x, 0x1, 0xE) => Instruction::AddToI { x },
            (0xF, x, 0x2, 0x9) => Instruction::SetIToSpriteAddress { x },
            (0xF, x, 0x3, 0x3) => Instruction::StoreAtIAsDecimal { x },
            (0xF, x, 0x5, 0x5) => Instruction::DumpToMemory { x },
            (0xF, x, 0x6, 0x5) => Instruction::LoadFromMemory { x },
            _ => Instruction::UnknownInstruction,
        }
    }
}

impl vstd::std_specs::convert::FromSpecImpl<(u8, u8)> for Instruction {
    open spec fn obeys_from_spec() -> bool {
        true
    }

    open spec fn from_spec(bytes: (u8, u8)) -> Self {
        decode(word_of(bytes.0, bytes.1))
    }
}

impl From<u16> for Instruction {
    /// Decodes a word.
    fn from(bytes: u16) -> (instruction: Self) {
        let high = ((bytes & 0xFF00) >> 8) as u8;
        let low = (bytes & 0x00FF) as u8;
        proof {
            assert(((bytes & 0xFF00) >> 8) == bytes / 0x100) by (bit_vector);
            assert((bytes & 0x00FF) == bytes % 0x100) by (bit_vector);
            assert(word_of(high, low) == bytes);
        }
        Instruction::from((high, low))
    }
}

impl vstd::std_specs::convert::FromSpecImpl<u16> for Instruction {
    open spec fn obeys_from_spec() -> bool {
        true
    }

    open spec fn from_spec(bytes: u16) -> Self {
        decode(bytes)
    }
}

/// Decoding never yields an operand that does not fit: register identifiers
/// and 4-bit constants are below 16, addresses below `0x1000`.
pub proof fn lemma_decode_operands_fit(word: u16)
    ensures
        decode(word).operands_fit(),
{
}

/// The two ways of handing a word over agree: a word decodes as its high
/// and its low byte do.
pub proof fn lemma_decode_bytes_agree(word: u16)
    ensures
        word_of((word / 0x100) as u8, (word % 0x100) as u8) == word,
        <Instruction as vstd::std_specs::convert::FromSpec<(u8, u8)>>::from_spec(
            ((word / 0x100) as u8, (word % 0x100) as u8),
        ) == <Instruction as vstd::std_specs::convert::FromSpec<u16>>::from_spec(word),
{
}

/// The digits of the word made of two bytes are the digits of the bytes.
proof fn lemma_digits_of_bytes(high: u8, low: u8)
    ensures
        hex_digit(word_of(high, low), 0) == high / 0x10,
        hex_digit(word_of(high, low), 1) == high % 0x10,
        hex_digit(word_of(high, low), 2) == low / 0x10,
        hex_digit(word_of(high, low), 3) == low % 0x10,
        low_byte(word_of(high, low)) == low,
        low_byte(word_of(high, low)) == spec_value_from(low / 0x10, low % 0x10),
        low_address(word_of(high, low)) == spec_address_from(
            high % 0x10,
            low / 0x10,
            low % 0x10,
        ),
{
    let h = high as u16;
    let l = low as u16;
    let word = word_of(high, low);
    assert(word == h * 0x100 + l);
    assert((h * 0x100 + l) / 0x1000 == h / 0x10 && ((h * 0x100 + l) / 0x100) % 0x10 == h % 0x10
        && ((h * 0x100 + l) / 0x10) % 0x10 == l / 0x10 && (h * 0x100 + l) % 0x10 == l % 0x10 && (h
        * 0x100 + l) % 0x100 == l && (h * 0x100 + l) % 0x1000 == (h % 0x10) * 0x100 + l) by {
        assert(h < 0x100 && l < 0x100 ==> (h * 0x100 + l) / 0x1000 == h / 0x10 && ((h * 0x100 + l)
            / 0x100) % 0x10 == h % 0x10 && ((h * 0x100 + l) / 0x10) % 0x10 == l / 0x10 && (h
            * 0x100 + l) % 0x10 == l % 0x10 && (h * 0x100 + l) % 0x100 == l && (h * 0x100 + l)
            % 0x1000 == (h % 0x10) * 0x100 + l) by (bit_vector);
    }
    assert(l == (l / 0x10) * 0x10 + l % 0x10);
}

/// The digits of a word put together from four digits are those digits.
proof fn lemma_digits_of_word(op: u8, x: u8, y: u8, n: u8)
    requires
        op < 16,
        x < 16,
        y < 16,
        n < 16,
    ensures
        ({
            let word = (op * 0x1000 + x * 0x100 + y * 0x10 + n) as u16;
            &&& word == op * 0x1000 + x * 0x100 + y * 0x10 + n
            &&& hex_digit(word, 0) == op
            &&& hex_digit(word, 1) == x
            &&& hex_digit(word, 2) == y
            &&& hex_digit(word, 3) == n
            &&& low_byte(word) == y * 0x10 + n
            &&& low_address(word) == x * 0x100 + y * 0x10 + n
        }),
{
    let a = op as u16;
    let b = x as u16;
    let c = y as u16;
    let d = n as u16;
    assert(a < 16 && b < 16 && c < 16 && d < 16 ==> {
        let w = a * 0x1000 + b * 0x100 + c * 0x10 + d;
        &&& w <= 0xFFFF
        &&& w / 0x1000 == a
        &&& (w / 0x100) % 0x10 == b
        &&& (w / 0x10) % 0x10 == c
        &&& w % 0x10 == d
        &&& w % 0x100 == c * 0x10 + d
        &&& w % 0x1000 == b * 0x100 + c * 0x10 + d
    }) by (bit_vector);
}

/// An address below `0x1000` is made of its three digits.
proof fn lemma_address_digits(addr: u16)
    requires
        addr < 0x1000,
    ensures
        addr == (addr / 0x100) * 0x100 + ((addr / 0x10) % 0x10) * 0x10 + addr % 0x10,
        addr / 0x100 < 16,
{
}

/// Round trip: an instruction that has a word is what its word decodes to.
pub proof fn lemma_decode_encode(instruction: Instruction)
    requires
        instruction.has_word(),
    ensures
        decode(encode(instruction)) == instruction,
{
    match instruction {
        Instruction::EndOfProgram => {},
        Instruction::Clear => {
            lemma_digits_of_word(0, 0, 0xE, 0);
        },
        Instruction::Return => {
            lemma_digits_of_word(0, 0, 0xE, 0xE);
        },
        Instruction::CallProgram { addr } => {
            lemma_address_digits(addr);
            lemma_digits_of_word(
                0,
                (addr / 0x100) as u8,
                ((addr / 0x10) % 0x10) as u8,
                (addr % 0x10) as u8,
            );
        },
        Instruction::Goto { addr } => {
            lemma_round_trip_address(1, addr);
        },
        Instruction::CallSubroutine { addr } => {
            lemma_round_trip_address(2, addr);
        },
        Instruction::StoreAddress { addr } => {
            lemma_round_trip_address(0xA, addr);
        },
        Instruction::JumpToAddress { addr } => {
            lemma_round_trip_address(0xB, addr);
        },
        Instruction::SkipEqualU8 { x, value } => {
            lemma_round_trip_value(3, x, value);
        },
        Instruction::SkipNotEqualU8 { x, value } => {
            lemma_round_trip_value(4, x, value);
        },
        Instruction::SetFromU8 { x, value } => {
            lemma_round_trip_value(6, x, value);
        },
        Instruction::AddU8 { x, value } => {
            lemma_round_trip_value(7, x, value);
        },
        Instruction::Rand { x, value } => {
            lemma_round_trip_value(0xC, x, value);
        },
        Instruction::SkipEqualReg { x, y } => {
            lemma_digits_of_word(5, x, y, 0);
        },
        Instruction::SetFromReg { x, y } => {
            lemma_digits_of_word(8, x, y, 0);
        },
        Instruction::OrReg { x, y } => {
            lemma_digits_of_word(8, x, y, 1);
        },
        Instruction::AndReg { x, y } => {
            lemma_digits_of_word(8, x, y, 2);
        },
        Instruction::XorReg { x, y } => {
            lemma_digits_of_word(8, x, y, 3);
        },
        Instruction::AddReg { x, y } => {
            lemma_digits_of_word(8, x, y, 4);
        },
        Instruction::SubReg { x, y } => {
            lemma_digits_of_word(8, x, y, 5);
        },
        Instruction::ShiftRight { x } => {
            lemma_digits_of_word(8, x, 0, 6);
        },
        Instruction::RevSubReg { x, y } => {
            lemma_digits_of_word(8, x, y, 7);
        },
        Instruction::ShiftLeft { x } => {
            lemma_digits_of_word(8, x, 0, 0xE);
        },
        Instruction::SkipNotEqualReg { x, y } => {
            lemma_digits_of_word(9, x, y, 0);
        },
        Instruction::Draw { x, y, n } => {
            lemma_digits_of_word(0xD, x, y, n);
        },
        Instruction::SkipIfKeyPressed { x } => {
            lemma_digits_of_word(0xE, x, 9, 0xE);
        },
        Instruction::SkipIfNotKeyPressed { x } => {
            lemma_digits_of_word(0xE, x, 0xA, 1);
        },
        Instruction::SetFromDelayTimer { x } => {
            lemma_digits_of_word(0xF, x, 0, 7);
        },
        Instruction::AwaitKeyPressed { x } => {
            lemma_digits_of_word(0xF, x, 0, 0xA);
        },
        Instruction::SetDelayTimer { x } => {
            lemma_digits_of_word(0xF, x, 1, 5);
        },
        Instruction::SetSoundTimer { x } => {
            lemma_digits_of_word(0xF, x, 1, 8);
        },
        Instruction::AddToI { x } => {
            lemma_digits_of_word(0xF, x, 1, 0xE);
        },
        Instruction::SetIToSpriteAddress { x } => {
            lemma_digits_of_word(0xF, x, 2, 9);
        },
        Instruction::StoreAtIAsDecimal { x } => {
            lemma_digits_of_word(0xF, x, 3, 3);
        },
        Instruction::DumpToMemory { x } => {
            lemma_digits_of_word(0xF, x, 5, 5);
        },
        Instruction::LoadFromMemory { x } => {
            lemma_digits_of_word(0xF, x, 6, 5);
        },
        Instruction::UnknownInstruction => {},
    }
}

/// Every word decodes to an instruction that has a word, or to
/// `UnknownInstruction`; either way the word of what a word decodes to
/// decodes to the same again.
pub proof fn lemma_decode_has_word(word: u16)
    ensures
        decode(word) == Instruction::UnknownInstruction || decode(word).has_word(),
        decode(encode(decode(word))) == decode(word),
{
    if decode(word) != Instruction::UnknownInstruction {
        assert(decode(word).has_word());
        lemma_decode_encode(decode(word));
    } else {
        lemma_digits_of_word(0xF, 0xF, 0xF, 0xF);
    }
}

/// A word made of an opcode digit and an address has that digit and that
/// address.
proof fn lemma_round_trip_address(op: u8, addr: u16)
    requires
        0 < op < 16,
        addr < 0x1000,
    ensures
        hex_digit((op * 0x1000 + addr) as u16, 0) == op,
        low_address((op * 0x1000 + addr) as u16) == addr,
{
}

/// A word made of an opcode digit, a register and a byte has those parts.
proof fn lemma_round_trip_value(op: u8, x: u8, value: u8)
    requires
        0 < op < 16,
        x < 16,
    ensures
        hex_digit((op * 0x1000 + x * 0x100 + value) as u16, 0) == op,
        hex_digit((op * 0x1000 + x * 0x100 + value) as u16, 1) == x,
        low_byte((op * 0x1000 + x * 0x100 + value) as u16) == value,
{
}

} // verus!
