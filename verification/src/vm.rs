//! The execution engine: a machine that owns its state and executes the
//! program in its memory one instruction at a time.
pub mod state;
pub mod vm_instructions;

use crate::instructions::{lemma_decode_operands_fit, word_of, Instruction};
use crate::text::push_bytes;
use crate::vm::state::{
    ExecutionError, State, DISPLAY_HEIGHT, MEMORY_SIZE, REGISTER_COUNT, STACK_DEPTH, START_ADDR,
};
use crate::vm::vm_instructions::{random_byte, VmInstructions};
use vstd::prelude::*;

verus! {

/// A program that does not fit into memory behind the reserved area.
#[derive(Clone, Copy, Debug, PartialEq, Eq)]
pub struct RomTooLarge {
    /// Length of the program in bytes.
    pub len: usize,
}

/// A key update for a key that the keypad does not have.
#[derive(Clone, Copy, Debug, PartialEq, Eq)]
pub struct InputError {
    /// The key that was named.
    pub key: usize,
}

/// A CHIP-8 machine.
pub struct VM {
    /// 4KB of memory.
    memory: [u8; 4096],
    /// Address of the next instruction.
    pc: u16,
    /// Registers V0 to VF; VF doubles as the carry flag.
    regs: [u8; 16],
    /// Return addresses of the subroutine calls in progress.
    stack: [u16; 16],
    /// Number of return addresses on the stack.
    stack_ptr: usize,
    /// 60Hz timers, counted down from outside: one for events, one for sound.
    delay_timer: u8,
    sound_timer: u8,
    /// The 16 keys, 0 to F.
    input: [bool; 16],
    /// 64x32 pixels, from (0x0, 0x0) to (0x3f, 0x1f), as rows.
    display: [[bool; 64]; 32],
    /// 16-bit address register.
    i: u16,
    /// Whether the machine runs.
    state: bool,
    /// The register that waits for a key press.
    awaiting_key: Option<u8>,
}

impl VM {
    #[verifier::type_invariant]
    spec fn inv(self) -> bool {
        &&& self.stack_ptr <= STACK_DEPTH
        &&& match self.awaiting_key {
            Some(x) => x < REGISTER_COUNT,
            None => true,
        }
    }

    /// The machine's state.
    pub closed spec fn view(&self) -> State {
        State {
            memory: self.memory@,
            registers: self.regs@,
            pc: self.pc,
            index: self.i,
            stack: self.stack@.subrange(0, self.stack_ptr as int),
            delay_timer: self.delay_timer,
            sound_timer: self.sound_timer,
            keys: self.input@,
            display: Seq::new(DISPLAY_HEIGHT as nat, |r: int| self.display[r]@),
            running: self.state,
            awaiting_key: self.awaiting_key,
        }
    }
}

impl VM {
    /// Makes a machine for the program `rom`: everything is zero but the
    /// memory from `START_ADDR` on, which holds the program. A program
    /// longer than the memory behind `START_ADDR` is refused.
    pub fn try_from(rom: &[u8]) -> (made: Result<VM, RomTooLarge>)
        ensures
            made is Err <==> rom@.len() > MEMORY_SIZE - START_ADDR,
            made matches Err(e) ==> e.len == rom@.len(),
            made matches Ok(vm) ==> vm@ == State::initial(rom@) && vm@.wf(),
    {
        let len = rom.len();
        if len > MEMORY_SIZE - START_ADDR {
            return Err(RomTooLarge { len });
        }
        let mut vm_mem = [0u8; 4096];
        let mut i: usize = 0;
        while i < len
            invariant
                i <= len <= MEMORY_SIZE - START_ADDR,
                len == rom@.len(),
                forall|a: int|
                    0 <= a < MEMORY_SIZE ==> vm_mem@[a] == if START_ADDR <= a < START_ADDR + i {
                        rom@[a - START_ADDR]
                    } else {
                        0u8
                    },
            decreases len - i,
        {
            vm_mem[START_ADDR + i] = rom[i];
            i += 1;
        }
        let vm = VM {
            memory: vm_mem,
            pc: 0x200,
            regs: [0; 16],
            stack: [0; 16],
            stack_ptr: 0,
            delay_timer: 0,
            sound_timer: 0,
            input: [false; 16],
            display: [[false; 64]; 32],
            i: 0,
            state: true,
            awaiting_key: None,
        };
        proof {
            assert(vm@ =~~= State::initial(rom@));
        }
        Ok(vm)
    }

    /// Whether the machine runs: `false` once it has halted.
    pub fn run(&self) -> (running: bool)
        ensures
            running == self@.running,
    {
        return self.state;
    }

    /// Whether the machine runs; the same as `run`.
    pub fn is_running(&self) -> (running: bool)
        ensures
            running == self@.running,
    {
        self.state
    }

    /// Whether the machine waits for a key press.
    pub fn is_awaiting_key(&self) -> (waiting: bool)
        ensures
            waiting == self@.awaiting_key.is_some(),
    {
        self.awaiting_key.is_some()
    }

    /// The program counter.
    pub fn pc(&self) -> (pc: u16)
        ensures
            pc == self@.pc,
    {
        self.pc
    }

    /// The address register I.
    pub fn index(&self) -> (index: u16)
        ensures
            index == self@.index,
    {
        self.i
    }

    /// The memory.
    pub fn memory(&self) -> (memory: &[u8; 4096])
        ensures
            memory@ == self@.memory,
    {
        &self.memory
    }

    /// The registers V0 to VF.
    pub fn registers(&self) -> (registers: &[u8; 16])
        ensures
            registers@ == self@.registers,
    {
        &self.regs
    }

    /// Register `x`.
    pub fn register(&self, x: u8) -> (value: u8)
        requires
            x < 16,
        ensures
            value == self@.registers[x as int],
    {
        self.regs[x as usize]
    }

    /// The number of subroutine calls in progress.
    pub fn stack_depth(&self) -> (depth: usize)
        ensures
            depth == self@.stack.len(),
            depth <= STACK_DEPTH,
    {
        proof {
            use_type_invariant(self);
        }
        self.stack_ptr
    }

    /// The delay timer.
    pub fn delay_timer(&self) -> (value: u8)
        ensures
            value == self@.delay_timer,
    {
        self.delay_timer
    }

    /// The sound timer.
    pub fn sound_timer(&self) -> (value: u8)
        ensures
            value == self@.sound_timer,
    {
        self.sound_timer
    }

    /// Whether key `key` is down; no key above 15 ever is.
    pub fn key_down(&self, key: u8) -> (down: bool)
        ensures
            down == self@.key_down(key),
    {
        (key as usize) < REGISTER_COUNT && self.input[key as usize]
    }

    /// The display, as 32 rows of 64 pixels.
    pub fn display(&self) -> (display: &[[bool; 64]; 32])
        ensures
            forall|r: int| 0 <= r < DISPLAY_HEIGHT ==> (#[trigger] display@[r])@ == self@.display[r],
    {
        &self.display
    }

    /// Whether the pixel in row `row` and column `col` is lit.
    pub fn pixel(&self, row: usize, col: usize) -> (lit: bool)
        requires
            row < 32,
            col < 64,
        ensures
            lit == self@.display[row as int][col as int],
    {
        self.display[row][col]
    }

    /// The memory and the registers as text, for logs: every byte of each
    /// in hexadecimal.
    pub fn dump(&self) -> (text: String)
        ensures
            text@ == self@.dump(),
    {
        let mut text = "Memory:".to_owned();
        push_bytes(&mut text, self.memory.as_slice());
        text.push_str("\n\nRegisters: ");
        push_bytes(&mut text, self.regs.as_slice());
        text
    }

    /// One tick of the 60Hz clock: each timer that is not zero goes down by
    /// one. The machine has no clock of its own; whoever drives it calls
    /// this.
    pub fn tick_timers(&mut self)
        ensures
            final(self)@ == old(self)@.tick_timers(),
    {
        proof {
            use_type_invariant(&*self);
        }
        if self.delay_timer > 0 {
            self.delay_timer -= 1;
        }
        if self.sound_timer > 0 {
            self.sound_timer -= 1;
        }
    }

    /// Records that key `key` went down (`state` true) or up. With a
    /// register waiting for a key and the key newly down, the key's number
    /// goes to that register and the wait is over. A key above 15 is
    /// refused and nothing changes.
    pub fn update_key_state(&mut self, key: usize, state: bool) -> (outcome: Result<
        (),
        InputError,
    >)
        ensures
            key > 15 ==> outcome == Err::<(), InputError>(InputError { key }) && final(self)@ == old(
                self,
            )@,
            key <= 15 ==> outcome is Ok && final(self)@ == old(self)@.update_key(key as int, state),
            final(self)@.wf(),
    {
        proof {
            use_type_invariant(&*self);
        }
        if key > 15 {
            return Err(InputError { key });
        }
        let was_down = self.input[key];
        self.input[key] = state;
        if state && !was_down {
            match self.awaiting_key {
                Some(x) => {
                    self.regs[x as usize] = key as u8;
                    self.awaiting_key = None;
                },
                None => {},
            }
        }
        Ok(())
    }

    /// The instruction that the program counter points at, or `None` if its
    /// word does not lie wholly in memory.
    pub fn peek(&self) -> (next: Option<Instruction>)
        ensures
            next == self@.next_instruction(),
    {
        let pc = self.pc as usize;
        if pc + 1 >= MEMORY_SIZE {
            None
        } else {
            Some(Instruction::from((self.memory[pc], self.memory[pc + 1])))
        }
    }

    /// The program in memory, for display: for each instruction from
    /// `START_ADDR` on, its address and its text, up to the end of the
    /// program or the end of memory.
    pub fn get_program(&self) -> (program: Vec<(usize, String)>)
        ensures
            program@.len() == self@.program().len(),
            forall|k: int|
                0 <= k < program@.len() ==> program@[k].0 == self@.program()[k].0
                    && program@[k].1@ == self@.program()[k].1.asm_text(),
    {
        let mut program: Vec<(usize, String)> = Vec::new();
        let ghost mut listed: Seq<(usize, Instruction)> = Seq::empty();
        let mut addr: usize = START_ADDR;
        while addr + 1 < MEMORY_SIZE
            invariant
                START_ADDR <= addr <= MEMORY_SIZE,
                listed + self@.program_from(addr as int) == self@.program(),
                program@.len() == listed.len(),
                forall|k: int|
                    0 <= k < program@.len() ==> program@[k].0 == listed[k].0 && program@[k].1@
                        == listed[k].1.asm_text(),
            decreases MEMORY_SIZE - addr,
        {
            let instruction = Instruction::from((self.memory[addr], self.memory[addr + 1]));
            if instruction == Instruction::EndOfProgram {
                proof {
                    assert(listed + Seq::<(usize, Instruction)>::empty() =~= listed);
                }
                return program;
            }
            proof {
                lemma_decode_operands_fit(word_of(self.memory[addr as int], self.memory[addr + 1]));
            }
            program.push((addr, instruction.to_asm()));
            proof {
                assert(listed.push((addr, instruction)) + self@.program_from(addr + 2) =~= listed
                    + self@.program_from(addr as int));
                listed = listed.push((addr, instruction));
            }
            addr += 2;
        }
        proof {
            assert(listed + Seq::<(usize, Instruction)>::empty() =~= listed);
        }
        program
    }

    /// Executes `instruction`, with `random` as the byte that a `Rand`
    /// draws, and moves the program counter as the instruction asks.
    /// `bytes` is the word that the instruction was decoded from; it goes
    /// into the error for an instruction without a handler. On an error
    /// nothing changes.
    pub fn execute_with(&mut self, instruction: &Instruction, bytes: (u8, u8), random: u8) -> (outcome:
        Result<(), ExecutionError>)
        requires
            instruction.operands_fit(),
            old(self)@.pc <= 0xFFFB,
        ensures
            (final(self)@, outcome) == old(self)@.execute(*instruction, bytes, random),
    {
        proof {
            use_type_invariant(&*self);
        }
        match *instruction {
            Instruction::CallProgram { .. } => {},
            Instruction::Clear => self.clear(),
            Instruction::Return => {
                self.return_subroutine();
                return Ok(());
            },
            Instruction::Goto { addr } => {
                self.goto(addr);
                return Ok(());
            },
            Instruction::CallSubroutine { addr } => {
                if self.stack_ptr >= STACK_DEPTH {
                    return Err(ExecutionError::StackOverflow);
                }
                self.pc += 2;
                return self.call_subroutine(addr);
            },
            Instruction::SkipEqualU8 { x, value } => self.skip_equal(self.regs[x as usize], value),
            Instruction::SkipNotEqualU8 { x, value } => self.skip_not_equal(
                self.regs[x as usize],
                value,
            ),
            Instruction::SkipEqualReg { x, y } => self.skip_equal(
                self.regs[x as usize],
                self.regs[y as usize],
            ),
            Instruction::SetFromU8 { x, value } => self.load(x, value),
            Instruction::AddU8 { x, value } => self.add(x, value),
            Instruction::SetFromReg { x, y } => self.load(x, self.regs[y as usize]),
            Instruction::OrReg { x, y } => self.or(x, y),
            Instruction::AndReg { x, y } => self.and(x, y),
            Instruction::XorReg { x, y } => self.xor(x, y),
            Instruction::AddReg { x, y } => self.add_reg(x, y),
            Instruction::SubReg { x, y } => self.sub(x, y),
            Instruction::RevSubReg { x, y } => self.revsub(x, y),
            Instruction::ShiftRight { x } => self.shift_right(x),
            Instruction::ShiftLeft { x } => self.shift_left(x),
            Instruction::SkipNotEqualReg { x, y } => self.skip_not_equal(
                self.regs[x as usize],
                self.regs[y as usize],
            ),
            Instruction::StoreAddress { addr } => self.store_address(addr),
            Instruction::JumpToAddress { addr } => {
                self.jump(addr);
                return Ok(());
            },
            Instruction::Rand { x, value } => self.rand_with(x, value, random),
            Instruction::Draw { x, y, n } => {
                match self.draw(x, y, n) {
                    Ok(()) => {},
                    Err(e) => {
                        return Err(e);
                    },
                }
            },
            Instruction::SkipIfKeyPressed { x } => self.skip_key_pressed(x),
            Instruction::SkipIfNotKeyPressed { x } => self.skip_not_key_pressed(x),
            Instruction::SetDelayTimer { x } => self.set_delay_timer(x),
            Instruction::SetSoundTimer { x } => self.set_sound_timer(x),
            Instruction::SetFromDelayTimer { x } => self.store_delay_timer(x),
            Instruction::AwaitKeyPressed { x } => self.wait_key_pressed(x),
            Instruction::AddToI { x } => self.increment_addr_reg(x),
            Instruction::SetIToSpriteAddress { x } => self.store_sprite_addr(x),
            Instruction::StoreAtIAsDecimal { x } => {
                match self.bcd(x) {
                    Ok(()) => {},
                    Err(e) => {
                        return Err(e);
                    },
                }
            },
            Instruction::DumpToMemory { x } => {
                match self.register_dump(x) {
                    Ok(()) => {},
                    Err(e) => {
                        return Err(e);
                    },
                }
            },
            Instruction::LoadFromMemory { x } => {
                match self.register_load(x) {
                    Ok(()) => {},
                    Err(e) => {
                        return Err(e);
                    },
                }
            },
            Instruction::EndOfProgram => {
                self.state = false;
                return Ok(());
            },
            Instruction::UnknownInstruction => {
                return Err(ExecutionError::BadInstruction { bytes, instruction: *instruction });
            },
        }
        proof {
            use_type_invariant(&*self);
        }
        self.pc += 2;
        Ok(())
    }

    /// Executes `instruction` as `execute_with` does, drawing the random
    /// byte itself where the instruction is a `Rand`.
    pub fn execute(&mut self, instruction: &Instruction, bytes: (u8, u8)) -> (outcome: Result<
        (),
        ExecutionError,
    >)
        requires
            instruction.operands_fit(),
            old(self)@.pc <= 0xFFFB,
        ensures
            exists|random: u8|
                (final(self)@, outcome) == #[trigger] old(self)@.execute(*instruction, bytes, random),
    {
        let random = match instruction {
            Instruction::Rand { .. } => random_byte(),
            _ => 0,
        };
        let outcome = self.execute_with(instruction, bytes, random);
        proof {
            assert((self@, outcome) == old(self)@.execute(*instruction, bytes, random));
        }
        outcome
    }

    /// One step of the machine, with `random` as the byte that a `Rand`
    /// draws: fetches the word at the program counter, decodes it, executes
    /// it, and reports the instruction. The end of the program halts the
    /// machine. A machine that waits for a key does nothing and reports the
    /// instruction that waits. On an error nothing changes.
    pub fn execute_next_with(&mut self, random: u8) -> (outcome: Result<
        Instruction,
        ExecutionError,
    >)
        ensures
            (final(self)@, outcome) == old(self)@.step(random),
            final(self)@.wf(),
    {
        proof {
            use_type_invariant(&*self);
            State::lemma_step_wf(self@, random);
        }
        match self.awaiting_key {
            Some(x) => {
                return Ok(Instruction::AwaitKeyPressed { x });
            },
            None => {},
        }
        let pc = self.pc as usize;
        if pc + 1 >= MEMORY_SIZE {
            return Err(ExecutionError::MemoryOutOfBounds);
        }
        let bytes = (self.memory[pc], self.memory[pc + 1]);
        let instruction = Instruction::from(bytes);
        proof {
            lemma_decode_operands_fit(word_of(bytes.0, bytes.1));
        }
        match self.execute_with(&instruction, bytes, random) {
            Ok(()) => Ok(instruction),
            Err(e) => Err(e),
        }
    }

    /// One step of the machine, as `execute_next_with` makes it, drawing
    /// the random byte itself where the next instruction is a `Rand`.
    pub fn execute_next(&mut self) -> (outcome: Result<Instruction, ExecutionError>)
        ensures
            exists|random: u8| (final(self)@, outcome) == #[trigger] old(self)@.step(random),
            final(self)@.wf(),
    {
        let random = match self.peek() {
            Some(Instruction::Rand { .. }) => random_byte(),
            _ => 0,
        };
        let outcome = self.execute_next_with(random);
        proof {
            assert((self@, outcome) == old(self)@.step(random));
        }
        outcome
    }
}

} // verus!
