use chip8::instructions::Instruction;

#[test]
fn test_u16_to_instruction() {
    let instruction = Instruction::from(0x00E0);
    assert_eq!(instruction, Instruction::Clear);
}

#[test]
fn test_2xu8_to_instruction() {
    let instruction = Instruction::from((0x0, 0xE0));
    assert_eq!(instruction, Instruction::Clear);
}

#[test]
fn decodes_the_documented_examples() {
    assert_eq!(Instruction::from(0x00E0u16), Instruction::Clear);
    assert_eq!(Instruction::from(0xA2F0u16), Instruction::StoreAddress { addr: 0x2F0 });
    assert_eq!(Instruction::from(0x6A15u16), Instruction::SetFromU8 { x: 0xA, value: 0x15 });
}

#[test]
fn decodes_the_fixed_words() {
    assert_eq!(Instruction::from(0x0000u16), Instruction::EndOfProgram);
    assert_eq!(Instruction::from(0x00E0u16), Instruction::Clear);
    assert_eq!(Instruction::from(0x00EEu16), Instruction::Return);
}

#[test]
fn decodes_the_address_opcodes() {
    assert_eq!(Instruction::from(0x0123u16), Instruction::CallProgram { addr: 0x123 });
    assert_eq!(Instruction::from(0x1ABCu16), Instruction::Goto { addr: 0xABC });
    assert_eq!(Instruction::from(0x2FFFu16), Instruction::CallSubroutine { addr: 0xFFF });
    assert_eq!(Instruction::from(0xA000u16), Instruction::StoreAddress { addr: 0x000 });
    assert_eq!(Instruction::from(0xB208u16), Instruction::JumpToAddress { addr: 0x208 });
}

#[test]
fn decodes_the_register_and_constant_opcodes() {
    assert_eq!(Instruction::from(0x3A7Fu16), Instruction::SkipEqualU8 { x: 0xA, value: 0x7F });
    assert_eq!(Instruction::from(0x4B01u16), Instruction::SkipNotEqualU8 { x: 0xB, value: 0x01 });
    assert_eq!(Instruction::from(0x6005u16), Instruction::SetFromU8 { x: 0, value: 5 });
    assert_eq!(Instruction::from(0x7FFFu16), Instruction::AddU8 { x: 0xF, value: 0xFF });
    assert_eq!(Instruction::from(0xC30Fu16), Instruction::Rand { x: 3, value: 0x0F });
}

#[test]
fn decodes_the_two_register_opcodes() {
    assert_eq!(Instruction::from(0x5120u16), Instruction::SkipEqualReg { x: 1, y: 2 });
    assert_eq!(Instruction::from(0x8120u16), Instruction::SetFromReg { x: 1, y: 2 });
    assert_eq!(Instruction::from(0x8121u16), Instruction::OrReg { x: 1, y: 2 });
    assert_eq!(Instruction::from(0x8122u16), Instruction::AndReg { x: 1, y: 2 });
    assert_eq!(Instruction::from(0x8123u16), Instruction::XorReg { x: 1, y: 2 });
    assert_eq!(Instruction::from(0x8014u16), Instruction::AddReg { x: 0, y: 1 });
    assert_eq!(Instruction::from(0x8AB5u16), Instruction::SubReg { x: 0xA, y: 0xB });
    assert_eq!(Instruction::from(0x8AB6u16), Instruction::ShiftRight { x: 0xA });
    assert_eq!(Instruction::from(0x8AB7u16), Instruction::RevSubReg { x: 0xA, y: 0xB });
    assert_eq!(Instruction::from(0x8ABEu16), Instruction::ShiftLeft { x: 0xA });
    assert_eq!(Instruction::from(0x9EF0u16), Instruction::SkipNotEqualReg { x: 0xE, y: 0xF });
    assert_eq!(Instruction::from(0xD12Fu16), Instruction::Draw { x: 1, y: 2, n: 0xF });
}

#[test]
fn decodes_the_key_and_timer_opcodes() {
    assert_eq!(Instruction::from(0xE49Eu16), Instruction::SkipIfKeyPressed { x: 4 });
    assert_eq!(Instruction::from(0xE4A1u16), Instruction::SkipIfNotKeyPressed { x: 4 });
    assert_eq!(Instruction::from(0xF507u16), Instruction::SetFromDelayTimer { x: 5 });
    assert_eq!(Instruction::from(0xF50Au16), Instruction::AwaitKeyPressed { x: 5 });
    assert_eq!(Instruction::from(0xF515u16), Instruction::SetDelayTimer { x: 5 });
    assert_eq!(Instruction::from(0xF518u16), Instruction::SetSoundTimer { x: 5 });
}

#[test]
fn decodes_the_memory_opcodes() {
    assert_eq!(Instruction::from(0xF61Eu16), Instruction::AddToI { x: 6 });
    assert_eq!(Instruction::from(0xF629u16), Instruction::SetIToSpriteAddress { x: 6 });
    assert_eq!(Instruction::from(0xF633u16), Instruction::StoreAtIAsDecimal { x: 6 });
    assert_eq!(Instruction::from(0xF355u16), Instruction::DumpToMemory { x: 3 });
    assert_eq!(Instruction::from(0xF365u16), Instruction::LoadFromMemory { x: 3 });
}

#[test]
fn decodes_everything_else_as_unknown() {
    assert_eq!(Instruction::from(0x5121u16), Instruction::UnknownInstruction);
    assert_eq!(Instruction::from(0x8128u16), Instruction::UnknownInstruction);
    assert_eq!(Instruction::from(0x9121u16), Instruction::UnknownInstruction);
    assert_eq!(Instruction::from(0xE19Fu16), Instruction::UnknownInstruction);
    assert_eq!(Instruction::from(0xF1FFu16), Instruction::UnknownInstruction);
    assert_eq!(Instruction::from(0xFFFFu16), Instruction::UnknownInstruction);
}

#[test]
fn decoding_is_a_function_of_the_word() {
    let mut word: u16 = 0;
    loop {
        let once = Instruction::from(word);
        let again = Instruction::from(word);
        let by_bytes = Instruction::from(((word >> 8) as u8, (word & 0xFF) as u8));
        assert_eq!(once, again);
        assert_eq!(once, by_bytes);
        if word == u16::MAX {
            break;
        }
        word += 1;
    }
}

#[test]
fn equal_means_same_variant_and_same_operands() {
    assert_ne!(Instruction::from(0x6A15u16), Instruction::SetFromU8 { x: 0xA, value: 0x16 });
    assert_ne!(Instruction::from(0x6A15u16), Instruction::AddU8 { x: 0xA, value: 0x15 });
}

#[test]
fn joins_digits() {
    assert_eq!(Instruction::value_from(0x1, 0x5), 0x15);
    assert_eq!(Instruction::value_from(0xF, 0x0), 0xF0);
    assert_eq!(Instruction::value_from(0x21, 0x35), 0x15);
    assert_eq!(Instruction::address_from(0x2, 0xF, 0x0), 0x2F0);
    assert_eq!(Instruction::address_from(0xF, 0xF, 0xF), 0xFFF);
    assert_eq!(Instruction::address_from(0x12, 0x0, 0x1), 0x201);
}

#[test]
fn names_are_the_variant_names() {
    assert_eq!(Instruction::Clear.name(), "Clear");
    assert_eq!(Instruction::SetFromU8 { x: 1, value: 2 }.name(), "SetFromU8");
    assert_eq!(Instruction::UnknownInstruction.to_string(), String::from("UnknownInstruction"));
    assert_eq!(Instruction::from(0x8014u16).to_string(), String::from("AddReg"));
}

#[test]
fn listing_text_has_name_and_operands() {
    assert_eq!(Instruction::Clear.to_asm(), "Clear");
    assert_eq!(Instruction::from(0x0000u16).to_asm(), "EndOfProgram");
    assert_eq!(Instruction::from(0xFFFFu16).to_asm(), "UnknownInstruction");
    assert_eq!(Instruction::from(0xA2F0u16).to_asm(), "StoreAddress 0x2F0");
    assert_eq!(Instruction::from(0x100Au16).to_asm(), "Goto 0x00A");
    assert_eq!(Instruction::from(0x6A15u16).to_asm(), "SetFromU8 VA, 0x15");
    assert_eq!(Instruction::from(0x8AB6u16).to_asm(), "ShiftRight VA");
    assert_eq!(Instruction::from(0x8014u16).to_asm(), "AddReg V0, V1");
    assert_eq!(Instruction::from(0xD12Fu16).to_asm(), "Draw V1, V2, 0xF");
    assert_eq!(Instruction::from(0xF965u16).to_asm(), "LoadFromMemory V9");
}
