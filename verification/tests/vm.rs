use chip8::instructions::Instruction;
use chip8::vm::state::ExecutionError;
use chip8::vm::vm_instructions::VmInstructions;
use chip8::vm::{InputError, RomTooLarge, VM};

fn machine(rom: &[u8]) -> VM {
    match VM::try_from(rom) {
        Ok(vm) => vm,
        Err(e) => panic!("program of {} bytes refused", e.len),
    }
}

fn run_to_halt(vm: &mut VM) {
    let mut steps = 0;
    while vm.run() {
        assert!(vm.execute_next().is_ok());
        steps += 1;
        assert!(steps < 10_000);
    }
}

#[test]
fn a_new_machine_is_zero_but_for_the_program() {
    let vm = machine(&[0x60, 0x05, 0xAB]);
    assert!(vm.run());
    assert!(!vm.is_awaiting_key());
    assert_eq!(vm.pc(), 0x200);
    assert_eq!(vm.index(), 0);
    assert_eq!(vm.stack_depth(), 0);
    assert_eq!(vm.delay_timer(), 0);
    assert_eq!(vm.sound_timer(), 0);
    assert_eq!(vm.registers(), &[0u8; 16]);
    assert_eq!(vm.memory()[0x1FF], 0);
    assert_eq!(vm.memory()[0x200], 0x60);
    assert_eq!(vm.memory()[0x201], 0x05);
    assert_eq!(vm.memory()[0x202], 0xAB);
    assert_eq!(vm.memory()[0x203], 0);
    assert_eq!(vm.memory().len(), 4096);
    assert!(vm.display().iter().all(|row| row.iter().all(|lit| !*lit)));
    assert!((0..16u8).all(|key| !vm.key_down(key)));
}

#[test]
fn a_program_that_does_not_fit_is_refused() {
    let fits = vec![0x12u8; 4096 - 0x200];
    assert!(VM::try_from(&fits).is_ok());
    let too_long = vec![0x12u8; 4096 - 0x200 + 1];
    match VM::try_from(&too_long) {
        Ok(_) => panic!("accepted"),
        Err(e) => assert_eq!(e, RomTooLarge { len: 3585 }),
    }
    assert!(VM::try_from(&[]).is_ok());
}

#[test]
fn end_to_end_addition() {
    let mut vm = machine(&[0x60, 0x05, 0x61, 0x03, 0x80, 0x14, 0x00, 0x00]);
    assert_eq!(vm.execute_next(), Ok(Instruction::SetFromU8 { x: 0, value: 5 }));
    assert_eq!(vm.execute_next(), Ok(Instruction::SetFromU8 { x: 1, value: 3 }));
    assert_eq!(vm.execute_next(), Ok(Instruction::AddReg { x: 0, y: 1 }));
    assert_eq!(vm.pc(), 0x206);
    assert!(vm.run());
    assert_eq!(vm.execute_next(), Ok(Instruction::EndOfProgram));
    assert!(!vm.run());
    assert!(!vm.is_running());
    assert_eq!(vm.pc(), 0x206);
    assert_eq!(vm.register(0), 8);
    assert_eq!(vm.register(1), 3);
    assert_eq!(vm.register(0xF), 0);
}

#[test]
fn end_to_end_run_loop() {
    let mut vm = machine(&[0x60, 0x05, 0x61, 0x03, 0x80, 0x14, 0x00, 0x00]);
    run_to_halt(&mut vm);
    assert_eq!(vm.register(0), 8);
    assert_eq!(vm.register(0xF), 0);
    assert!(!vm.run());
}

#[test]
fn add_with_carry() {
    let mut vm = machine(&[]);
    vm.load(0, 0xFF);
    vm.load(1, 0x01);
    vm.add_reg(0, 1);
    assert_eq!(vm.register(0), 0x00);
    assert_eq!(vm.register(0xF), 1);
    vm.load(0, 0x10);
    vm.add_reg(0, 1);
    assert_eq!(vm.register(0), 0x11);
    assert_eq!(vm.register(0xF), 0);
}

#[test]
fn sub_with_borrow() {
    let mut vm = machine(&[]);
    vm.load(0, 0x05);
    vm.load(1, 0x0A);
    vm.sub(0, 1);
    assert_eq!(vm.register(0), 0xFB);
    assert_eq!(vm.register(0xF), 0);
    vm.load(0, 0x0A);
    vm.load(1, 0x05);
    vm.sub(0, 1);
    assert_eq!(vm.register(0), 0x05);
    assert_eq!(vm.register(0xF), 1);
}

#[test]
fn sub_of_equals_clears_the_flag() {
    let mut vm = machine(&[]);
    vm.load(0, 7);
    vm.load(1, 7);
    vm.load(0xF, 1);
    vm.sub(0, 1);
    assert_eq!(vm.register(0), 0);
    assert_eq!(vm.register(0xF), 0);
}

#[test]
fn reverse_sub() {
    let mut vm = machine(&[]);
    vm.load(0, 0x05);
    vm.load(1, 0x0A);
    vm.revsub(0, 1);
    assert_eq!(vm.register(0), 0x05);
    assert_eq!(vm.register(0xF), 1);
    vm.load(0, 0x0A);
    vm.load(1, 0x05);
    vm.revsub(0, 1);
    assert_eq!(vm.register(0), 0xFB);
    assert_eq!(vm.register(0xF), 0);
}

#[test]
fn the_flag_is_written_last() {
    let mut vm = machine(&[]);
    vm.load(0xF, 0xFF);
    vm.load(1, 0x02);
    vm.add_reg(0xF, 1);
    assert_eq!(vm.register(0xF), 1);
}

#[test]
fn add_constant_wraps_and_leaves_the_flag() {
    let mut vm = machine(&[]);
    vm.load(0xF, 9);
    vm.load(2, 0xF0);
    vm.add(2, 0x20);
    assert_eq!(vm.register(2), 0x10);
    assert_eq!(vm.register(0xF), 9);
}

#[test]
fn bitwise_operations() {
    let mut vm = machine(&[]);
    vm.load(0, 0b1100);
    vm.load(1, 0b1010);
    vm.or(0, 1);
    assert_eq!(vm.register(0), 0b1110);
    vm.load(0, 0b1100);
    vm.and(0, 1);
    assert_eq!(vm.register(0), 0b1000);
    vm.load(0, 0b1100);
    vm.xor(0, 1);
    assert_eq!(vm.register(0), 0b0110);
}

#[test]
fn shift_right_keeps_the_bit_shifted_out() {
    let mut vm = machine(&[]);
    vm.load(1, 0b0000_0011);
    vm.shift_right(1);
    assert_eq!(vm.register(0xF), 1);
    assert_eq!(vm.register(1), 0b0000_0001);
    vm.load(1, 0b0000_0100);
    vm.shift_right(1);
    assert_eq!(vm.register(0xF), 0);
    assert_eq!(vm.register(1), 0b0000_0010);
}

#[test]
fn shift_left_keeps_the_bit_shifted_out() {
    let mut vm = machine(&[]);
    vm.load(1, 0b1000_0001);
    vm.shift_left(1);
    assert_eq!(vm.register(0xF), 1);
    assert_eq!(vm.register(1), 0b0000_0010);
    vm.load(1, 0b0100_0001);
    vm.shift_left(1);
    assert_eq!(vm.register(0xF), 0);
    assert_eq!(vm.register(1), 0b1000_0010);
}

#[test]
fn sixteen_calls_and_no_more() {
    let mut rom = Vec::new();
    for k in 0..17u16 {
        let target = 0x200 + 2 * (k + 1);
        rom.push(0x20 | (target >> 8) as u8);
        rom.push((target & 0xFF) as u8);
    }
    let mut vm = machine(&rom);
    for k in 0..16u16 {
        let target = 0x200 + 2 * (k + 1);
        assert_eq!(vm.execute_next(), Ok(Instruction::CallSubroutine { addr: target }));
        assert_eq!(vm.stack_depth(), (k + 1) as usize);
        assert_eq!(vm.pc(), target);
    }
    assert_eq!(vm.execute_next(), Err(ExecutionError::StackOverflow));
    assert_eq!(vm.stack_depth(), 16);
    assert_eq!(vm.pc(), 0x220);
    assert!(vm.run());
    assert_eq!(vm.call_subroutine(0x300), Err(ExecutionError::StackOverflow));
    assert_eq!(vm.pc(), 0x220);
}

#[test]
fn return_with_an_empty_stack_halts() {
    let mut vm = machine(&[0x00, 0xEE]);
    assert_eq!(vm.execute_next(), Ok(Instruction::Return));
    assert!(!vm.run());
    assert_eq!(vm.pc(), 0x200);
    assert_eq!(vm.stack_depth(), 0);
}

#[test]
fn call_and_return() {
    let mut vm = machine(&[0x22, 0x06, 0x60, 0x05, 0x00, 0x00, 0x61, 0x07, 0x00, 0xEE]);
    assert_eq!(vm.execute_next(), Ok(Instruction::CallSubroutine { addr: 0x206 }));
    assert_eq!(vm.pc(), 0x206);
    assert_eq!(vm.stack_depth(), 1);
    assert_eq!(vm.execute_next(), Ok(Instruction::SetFromU8 { x: 1, value: 7 }));
    assert_eq!(vm.execute_next(), Ok(Instruction::Return));
    assert_eq!(vm.pc(), 0x202);
    assert_eq!(vm.stack_depth(), 0);
    run_to_halt(&mut vm);
    assert_eq!(vm.register(0), 5);
    assert_eq!(vm.register(1), 7);
}

#[test]
fn jumps_set_the_program_counter() {
    let mut vm = machine(&[0x12, 0x04, 0x00, 0x00, 0x60, 0x04, 0xB2, 0x06, 0x00, 0x00, 0x61, 0x09]);
    assert_eq!(vm.execute_next(), Ok(Instruction::Goto { addr: 0x204 }));
    assert_eq!(vm.pc(), 0x204);
    assert_eq!(vm.execute_next(), Ok(Instruction::SetFromU8 { x: 0, value: 4 }));
    assert_eq!(vm.execute_next(), Ok(Instruction::JumpToAddress { addr: 0x206 }));
    assert_eq!(vm.pc(), 0x20A);
    assert_eq!(vm.execute_next(), Ok(Instruction::SetFromU8 { x: 1, value: 9 }));
    assert_eq!(vm.register(1), 9);
}

#[test]
fn skips() {
    let mut vm = machine(&[0x30, 0x00, 0x00, 0x00, 0x40, 0x00, 0x50, 0x10, 0x00, 0x00, 0x90, 0x10]);
    assert_eq!(vm.execute_next(), Ok(Instruction::SkipEqualU8 { x: 0, value: 0 }));
    assert_eq!(vm.pc(), 0x204);
    assert_eq!(vm.execute_next(), Ok(Instruction::SkipNotEqualU8 { x: 0, value: 0 }));
    assert_eq!(vm.pc(), 0x206);
    assert_eq!(vm.execute_next(), Ok(Instruction::SkipEqualReg { x: 0, y: 1 }));
    assert_eq!(vm.pc(), 0x20A);
    assert_eq!(vm.execute_next(), Ok(Instruction::SkipNotEqualReg { x: 0, y: 1 }));
    assert_eq!(vm.pc(), 0x20C);
}

#[test]
fn dump_then_load_restores_the_registers() {
    let mut vm = machine(&[]);
    for (x, value) in [(0u8, 11u8), (1, 22), (2, 33), (3, 44), (4, 55)] {
        vm.load(x, value);
    }
    vm.store_address(0x300);
    assert_eq!(vm.execute(&Instruction::DumpToMemory { x: 3 }, (0xF3, 0x55)), Ok(()));
    assert_eq!(vm.index(), 0x300);
    assert_eq!(&vm.memory()[0x300..0x305], &[11, 22, 33, 44, 0]);
    for x in 0..16u8 {
        vm.load(x, 0);
    }
    assert_eq!(vm.execute(&Instruction::LoadFromMemory { x: 3 }, (0xF3, 0x65)), Ok(()));
    assert_eq!(vm.register(0), 11);
    assert_eq!(vm.register(1), 22);
    assert_eq!(vm.register(2), 33);
    assert_eq!(vm.register(3), 44);
    assert_eq!(vm.register(4), 0);
    assert_eq!(vm.index(), 0x300);
}

#[test]
fn dump_and_load_stay_in_memory() {
    let mut vm = machine(&[]);
    vm.store_address(0xFFF);
    assert_eq!(vm.register_dump(0), Ok(()));
    assert_eq!(vm.register_dump(1), Err(ExecutionError::MemoryOutOfBounds));
    assert_eq!(vm.register_load(0), Ok(()));
    assert_eq!(vm.register_load(1), Err(ExecutionError::MemoryOutOfBounds));
}

#[test]
fn decimal_digits() {
    let mut vm = machine(&[]);
    vm.load(2, 254);
    vm.store_address(0x300);
    assert_eq!(vm.bcd(2), Ok(()));
    assert_eq!(&vm.memory()[0x300..0x303], &[2, 5, 4]);
    vm.load(2, 7);
    assert_eq!(vm.bcd(2), Ok(()));
    assert_eq!(&vm.memory()[0x300..0x303], &[0, 0, 7]);
    vm.store_address(0xFFE);
    assert_eq!(vm.bcd(2), Err(ExecutionError::MemoryOutOfBounds));
    assert_eq!(vm.memory()[0xFFE], 0);
    vm.store_address(0xFFD);
    assert_eq!(vm.bcd(2), Ok(()));
    assert_eq!(vm.memory()[0xFFF], 7);
}

#[test]
fn address_register() {
    let mut vm = machine(&[]);
    vm.store_address(0x2F0);
    assert_eq!(vm.index(), 0x2F0);
    vm.load(1, 0x20);
    vm.increment_addr_reg(1);
    assert_eq!(vm.index(), 0x310);
    vm.load(1, 0x1B);
    vm.store_sprite_addr(1);
    assert_eq!(vm.index(), 55);
}

#[test]
fn timers() {
    let mut vm = machine(&[]);
    vm.load(1, 2);
    vm.set_delay_timer(1);
    vm.load(1, 1);
    vm.set_sound_timer(1);
    assert_eq!(vm.delay_timer(), 2);
    assert_eq!(vm.sound_timer(), 1);
    vm.tick_timers();
    assert_eq!(vm.delay_timer(), 1);
    assert_eq!(vm.sound_timer(), 0);
    vm.store_delay_timer(5);
    assert_eq!(vm.register(5), 1);
    vm.tick_timers();
    vm.tick_timers();
    assert_eq!(vm.delay_timer(), 0);
    assert_eq!(vm.sound_timer(), 0);
}

#[test]
fn keys() {
    let mut vm = machine(&[0xE0, 0x9E, 0x00, 0x00, 0xE0, 0xA1, 0xE1, 0x9E]);
    assert_eq!(vm.update_key_state(16, true), Err(InputError { key: 16 }));
    assert_eq!(vm.update_key_state(5, true), Ok(()));
    assert!(vm.key_down(5));
    assert!(!vm.key_down(4));
    assert!(!vm.key_down(16));
    vm.load(0, 5);
    vm.load(1, 0x15);
    assert_eq!(vm.execute_next(), Ok(Instruction::SkipIfKeyPressed { x: 0 }));
    assert_eq!(vm.pc(), 0x204);
    assert_eq!(vm.execute_next(), Ok(Instruction::SkipIfNotKeyPressed { x: 0 }));
    assert_eq!(vm.pc(), 0x206);
    assert_eq!(vm.execute_next(), Ok(Instruction::SkipIfKeyPressed { x: 1 }));
    assert_eq!(vm.pc(), 0x208);
    assert_eq!(vm.update_key_state(5, false), Ok(()));
    assert!(!vm.key_down(5));
}

#[test]
fn waiting_for_a_key() {
    let mut vm = machine(&[0xF3, 0x0A, 0x00, 0x00]);
    assert_eq!(vm.update_key_state(2, true), Ok(()));
    assert_eq!(vm.execute_next(), Ok(Instruction::AwaitKeyPressed { x: 3 }));
    assert!(vm.is_awaiting_key());
    assert_eq!(vm.pc(), 0x202);
    assert_eq!(vm.execute_next(), Ok(Instruction::AwaitKeyPressed { x: 3 }));
    assert_eq!(vm.pc(), 0x202);
    assert!(vm.run());
    assert_eq!(vm.update_key_state(2, true), Ok(()));
    assert!(vm.is_awaiting_key());
    assert_eq!(vm.update_key_state(9, false), Ok(()));
    assert!(vm.is_awaiting_key());
    assert_eq!(vm.update_key_state(7, true), Ok(()));
    assert!(!vm.is_awaiting_key());
    assert_eq!(vm.register(3), 7);
    assert_eq!(vm.execute_next(), Ok(Instruction::EndOfProgram));
    assert!(!vm.run());
}

#[test]
fn random_byte_is_masked() {
    let mut vm = machine(&[0xC1, 0x0F, 0xC2, 0x00]);
    vm.load(2, 0xAA);
    assert_eq!(vm.execute_next(), Ok(Instruction::Rand { x: 1, value: 0x0F }));
    assert!(vm.register(1) <= 0x0F);
    assert_eq!(vm.execute_next(), Ok(Instruction::Rand { x: 2, value: 0x00 }));
    assert_eq!(vm.register(2), 0);
    vm.rand(3, 0xF0);
    assert_eq!(vm.register(3) & 0x0F, 0);
    vm.rand_with(4, 0x3C, 0xA5);
    assert_eq!(vm.register(4), 0x24);
    assert_eq!(vm.execute_next_with(0x5A), Ok(Instruction::EndOfProgram));
}

#[test]
fn given_random_byte_is_used() {
    let mut vm = machine(&[0xC1, 0xF3]);
    assert_eq!(vm.execute_next_with(0x5A), Ok(Instruction::Rand { x: 1, value: 0xF3 }));
    assert_eq!(vm.register(1), 0x52);
    assert_eq!(vm.pc(), 0x202);
}

#[test]
fn draw_wraps_and_reports_collisions() {
    let mut vm = machine(&[0xA2, 0x0A, 0x60, 0x3E, 0x61, 0x1F, 0xD0, 0x12, 0x00, 0x00, 0xC0, 0x81]);
    for _ in 0..3 {
        assert!(vm.execute_next().is_ok());
    }
    vm.load(0xF, 1);
    assert_eq!(vm.execute_next(), Ok(Instruction::Draw { x: 0, y: 1, n: 2 }));
    assert_eq!(vm.register(0xF), 0);
    let lit: Vec<(usize, usize)> = (0..32)
        .flat_map(|row| (0..64).map(move |col| (row, col)))
        .filter(|(row, col)| vm.pixel(*row, *col))
        .collect();
    assert_eq!(lit, vec![(0, 5), (0, 62), (31, 62), (31, 63)]);
    assert!(vm.display()[31][63]);
    vm.load(2, 63);
    vm.load(3, 31);
    vm.store_address(0x20B);
    assert_eq!(vm.draw(2, 3, 1), Ok(()));
    assert_eq!(vm.register(0xF), 1);
    assert!(!vm.pixel(31, 63));
    assert!(vm.pixel(31, 6));
    assert!(vm.pixel(31, 62));
    vm.clear();
    assert!(vm.display().iter().all(|row| row.iter().all(|lit| !*lit)));
}

#[test]
fn draw_twice_erases() {
    let mut vm = machine(&[0xFF, 0x18, 0x3C]);
    vm.store_address(0x200);
    vm.load(0, 10);
    vm.load(1, 20);
    assert_eq!(vm.draw(0, 1, 3), Ok(()));
    assert_eq!(vm.register(0xF), 0);
    assert!(vm.pixel(20, 10) && vm.pixel(20, 17) && vm.pixel(21, 13) && vm.pixel(22, 12));
    assert!(!vm.pixel(21, 10) && !vm.pixel(20, 18));
    assert_eq!(vm.draw(0, 1, 3), Ok(()));
    assert_eq!(vm.register(0xF), 1);
    assert!(vm.display().iter().all(|row| row.iter().all(|lit| !*lit)));
    assert_eq!(vm.draw(0, 1, 0), Ok(()));
    assert_eq!(vm.register(0xF), 0);
}

#[test]
fn draw_stays_in_memory() {
    let mut vm = machine(&[]);
    vm.store_address(0xFFF);
    vm.load(0xF, 7);
    assert_eq!(vm.draw(0, 0, 2), Err(ExecutionError::MemoryOutOfBounds));
    assert_eq!(vm.register(0xF), 7);
    assert_eq!(vm.draw(0, 0, 1), Ok(()));
    assert_eq!(vm.register(0xF), 0);
}

#[test]
fn an_unknown_word_is_a_bad_instruction() {
    let mut vm = machine(&[0xFF, 0xFF]);
    assert_eq!(
        vm.execute_next(),
        Err(ExecutionError::BadInstruction {
            bytes: (0xFF, 0xFF),
            instruction: Instruction::UnknownInstruction,
        })
    );
    assert_eq!(vm.pc(), 0x200);
    assert!(vm.run());
}

#[test]
fn call_program_does_nothing() {
    let mut vm = machine(&[0x01, 0x23]);
    assert_eq!(vm.execute_next(), Ok(Instruction::CallProgram { addr: 0x123 }));
    assert_eq!(vm.pc(), 0x202);
    assert_eq!(vm.registers(), &[0u8; 16]);
    assert_eq!(vm.stack_depth(), 0);
}

#[test]
fn a_program_counter_outside_memory_is_reported() {
    let mut vm = machine(&[]);
    vm.goto(0xFFF);
    assert_eq!(vm.peek(), None);
    assert_eq!(vm.execute_next(), Err(ExecutionError::MemoryOutOfBounds));
    assert_eq!(vm.pc(), 0xFFF);
    vm.goto(0xFFE);
    assert_eq!(vm.peek(), Some(Instruction::EndOfProgram));
    assert_eq!(vm.execute_next(), Ok(Instruction::EndOfProgram));
}

#[test]
fn the_program_listing() {
    let vm = machine(&[0x60, 0x05, 0x61, 0x03, 0x80, 0x14, 0x00, 0x00, 0x12, 0x00]);
    assert_eq!(
        vm.get_program(),
        vec![
            (0x200, String::from("SetFromU8 V0, 0x05")),
            (0x202, String::from("SetFromU8 V1, 0x03")),
            (0x204, String::from("AddReg V0, V1")),
        ]
    );
    assert_eq!(vm.get_program(), vm.get_program());
    assert!(machine(&[]).get_program().is_empty());
    let full = machine(&vec![0x12u8; 4096 - 0x200]);
    let listing = full.get_program();
    assert_eq!(listing.len(), (4096 - 0x200) / 2);
    assert_eq!(listing[listing.len() - 1], (4094, String::from("Goto 0x212")));
}

#[test]
fn dump_lists_memory_and_registers() {
    let mut vm = machine(&[0xAB, 0x05]);
    vm.load(0, 3);
    vm.load(0xF, 0x1F);
    let mut expected = String::from("Memory:");
    expected.push_str(&"0 ".repeat(0x200));
    expected.push_str("AB 5 ");
    expected.push_str(&"0 ".repeat(4096 - 0x202));
    expected.push_str("\n\nRegisters: 3 ");
    expected.push_str(&"0 ".repeat(14));
    expected.push_str("1F ");
    assert_eq!(vm.dump(), expected);
}
