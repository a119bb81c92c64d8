//! The mathematical model of the machine: its state as plain sequences and
//! numbers, and what each instruction does to it.
use crate::instructions::{decode, lemma_decode_operands_fit, word_of, Instruction};
use crate::text::bytes_text;
use vstd::prelude::*;

verus! {

/// Bytes of memory.
pub const MEMORY_SIZE: usize = 4096;

/// Address at which a program is loaded and starts.
pub const START_ADDR: usize = 0x200;

/// Number of general registers, and of keys.
pub const REGISTER_COUNT: usize = 16;

/// Greatest number of return addresses that the call stack holds.
pub const STACK_DEPTH: usize = 16;

/// Width of the display in pixels.
pub const DISPLAY_WIDTH: usize = 64;

/// Height of the display in pixels.
pub const DISPLAY_HEIGHT: usize = 32;

/// Why an instruction could not be executed. The machine is left as it was.
#[derive(Clone, Copy, Debug, PartialEq, Eq)]
pub enum ExecutionError {
    /// The instruction has no handler: the word, as its two bytes, and what
    /// it decoded to.
    BadInstruction { bytes: (u8, u8), instruction: Instruction },
    /// A subroutine call with the call stack full.
    StackOverflow,
    /// A fetch, or a memory operand of the instruction, lies outside memory.
    MemoryOutOfBounds,
}

/// The state of a machine.
#[verifier::ext_equal]
pub struct State {
    /// The 4096 bytes of memory.
    pub memory: Seq<u8>,
    /// The registers V0 to VF.
    pub registers: Seq<u8>,
    /// The program counter.
    pub pc: u16,
    /// The address register I.
    pub index: u16,
    /// The return addresses of the calls in progress, the oldest first.
    pub stack: Seq<u16>,
    /// The delay timer.
    pub delay_timer: u8,
    /// The sound timer.
    pub sound_timer: u8,
    /// For each of the 16 keys, whether it is down.
    pub keys: Seq<bool>,
    /// The display, 32 rows of 64 pixels, `true` for a lit pixel.
    pub display: Seq<Seq<bool>>,
    /// Whether the machine runs; `false` once it has halted.
    pub running: bool,
    /// The register that waits for a key press, if one does.
    pub awaiting_key: Option<u8>,
}

/// Whether bit `k` of a byte is set, bit 0 being the least significant.
pub open spec fn bit_of(byte: u8, k: u8) -> bool
    recommends
        k < 8,
{
    (byte >> k) & 1u8 == 1u8
}

impl State {
    /// The lengths are those of the machine, the call stack is within its
    /// depth, and a register that waits for a key is a register.
    pub open spec fn wf(self) -> bool {
        &&& self.memory.len() == MEMORY_SIZE
        &&& self.registers.len() == REGISTER_COUNT
        &&& self.stack.len() <= STACK_DEPTH
        &&& self.keys.len() == REGISTER_COUNT
        &&& self.display.len() == DISPLAY_HEIGHT
        &&& forall|r: int| 0 <= r < DISPLAY_HEIGHT ==> (#[trigger] self.display[r]).len() == DISPLAY_WIDTH
        &&& match self.awaiting_key {
            Some(x) => x < REGISTER_COUNT,
            None => true,
        }
    }

    /// A display with every pixel off.
    pub open spec fn blank_display() -> Seq<Seq<bool>> {
        Seq::new(DISPLAY_HEIGHT as nat, |r: int| Seq::new(DISPLAY_WIDTH as nat, |c: int| false))
    }

    /// The machine as it is made for a program: everything zero, the program
    /// in memory from `START_ADDR` on, the program counter at its first
    /// byte, running.
    pub open spec fn initial(rom: Seq<u8>) -> State {
        State {
            memory: Seq::new(
                MEMORY_SIZE as nat,
                |a: int|
                    if START_ADDR <= a < START_ADDR + rom.len() {
                        rom[a - START_ADDR]
                    } else {
                        0u8
                    },
            ),
            registers: Seq::new(REGISTER_COUNT as nat, |i: int| 0u8),
            pc: START_ADDR as u16,
            index: 0,
            stack: Seq::empty(),
            delay_timer: 0,
            sound_timer: 0,
            keys: Seq::new(REGISTER_COUNT as nat, |i: int| false),
            display: Self::blank_display(),
            running: true,
            awaiting_key: None,
        }
    }

    /// The same state with another program counter.
    pub open spec fn with_pc(self, pc: int) -> State {
        State { pc: pc as u16, ..self }
    }

    /// The same state with the program counter moved past one instruction.
    pub open spec fn advance(self) -> State {
        self.with_pc(self.pc + 2)
    }

    /// The same state with register `x` set to `value`.
    pub open spec fn with_register(self, x: int, value: u8) -> State {
        State { registers: self.registers.update(x, value), ..self }
    }

    /// The same state with the flag register VF set to `flag`.
    pub open spec fn with_flag(self, flag: bool) -> State {
        self.with_register(15, if flag { 1u8 } else { 0u8 })
    }

    /// `00E0`: every pixel off.
    pub open spec fn clear(self) -> State {
        State { display: Self::blank_display(), ..self }
    }

    /// `00EE`: with no call in progress the machine halts; otherwise the
    /// newest return address leaves the stack and becomes the program
    /// counter.
    pub open spec fn return_subroutine(self) -> State {
        if self.stack.len() == 0 {
            State { running: false, ..self }
        } else {
            State { pc: self.stack.last(), stack: self.stack.drop_last(), ..self }
        }
    }

    /// `1NNN`: the program counter becomes `addr`.
    pub open spec fn goto(self, addr: u16) -> State {
        self.with_pc(addr as int)
    }

    /// `2NNN`: with the stack full, an overflow and no change; otherwise the
    /// program counter goes onto the stack and becomes `addr`.
    pub open spec fn call_subroutine(self, addr: u16) -> (State, Result<(), ExecutionError>) {
        if self.stack.len() >= STACK_DEPTH {
            (self, Err(ExecutionError::StackOverflow))
        } else {
            (State { pc: addr, stack: self.stack.push(self.pc), ..self }, Ok(()))
        }
    }

    /// The extra step of a skip: past one more instruction if `skip` holds.
    pub open spec fn skip_if(self, skip: bool) -> State {
        if skip {
            self.advance()
        } else {
            self
        }
    }

    /// `7XNN`: `value` added to register `x`, modulo 256; VF is not a flag
    /// here.
    pub open spec fn add(self, x: int, value: u8) -> State {
        self.with_register(x, ((self.registers[x] + value) % 256) as u8)
    }

    /// `8XY4`: VY added to VX modulo 256, then VF set to the carry.
    pub open spec fn add_reg(self, x: int, y: int) -> State {
        let vx = self.registers[x];
        let vy = self.registers[y];
        self.with_register(x, ((vx + vy) % 256) as u8).with_flag(vx + vy > 255)
    }

    /// `8XY5`: VY subtracted from VX modulo 256, then VF set to 1 if VX was
    /// greater than VY and to 0 if not.
    pub open spec fn sub(self, x: int, y: int) -> State {
        let vx = self.registers[x];
        let vy = self.registers[y];
        self.with_register(x, ((vx - vy) % 256) as u8).with_flag(vx > vy)
    }

    /// `8XY7`: VX set to VY minus VX modulo 256, then VF set to 1 if VY was
    /// greater than VX and to 0 if not.
    pub open spec fn revsub(self, x: int, y: int) -> State {
        let vx = self.registers[x];
        let vy = self.registers[y];
        self.with_register(x, ((vy - vx) % 256) as u8).with_flag(vy > vx)
    }

    /// `8XY1`.
    pub open spec fn or(self, x: int, y: int) -> State {
        self.with_register(x, self.registers[x] | self.registers[y])
    }

    /// `8XY2`.
    pub open spec fn and(self, x: int, y: int) -> State {
        self.with_register(x, self.registers[x] & self.registers[y])
    }

    /// `8XY3`.
    pub open spec fn xor(self, x: int, y: int) -> State {
        self.with_register(x, self.registers[x] ^ self.registers[y])
    }

    /// `8XY6`: VF set to the lowest bit of VX, then register `x` halved.
    /// With `x` the flag register itself, it is the flag just written that
    /// is halved.
    pub open spec fn shift_right(self, x: int) -> State {
        let flagged = self.with_flag(self.registers[x] % 2 == 1);
        flagged.with_register(x, flagged.registers[x] / 2)
    }

    /// `8XYE`: VF set to the highest bit of VX, then register `x` doubled
    /// modulo 256. With `x` the flag register itself, it is the flag just
    /// written that is doubled.
    pub open spec fn shift_left(self, x: int) -> State {
        let flagged = self.with_flag(self.registers[x] >= 128);
        flagged.with_register(x, ((flagged.registers[x] * 2) % 256) as u8)
    }

    /// `ANNN`.
    pub open spec fn store_address(self, addr: u16) -> State {
        State { index: addr, ..self }
    }

    /// `BNNN`: the program counter becomes V0 plus `addr`.
    pub open spec fn jump(self, addr: u16) -> State {
        self.with_pc(self.registers[0] + addr)
    }

    /// `CXNN`, for the random byte `random`.
    pub open spec fn rand(self, x: int, value: u8, random: u8) -> State {
        self.with_register(x, random & value)
    }

    /// Whether `key` is the number of a key that is down.
    pub open spec fn key_down(self, key: u8) -> bool {
        key < REGISTER_COUNT && self.keys[key as int]
    }

    /// `FX15`.
    pub open spec fn set_delay_timer(self, x: int) -> State {
        State { delay_timer: self.registers[x], ..self }
    }

    /// `FX18`.
    pub open spec fn set_sound_timer(self, x: int) -> State {
        State { sound_timer: self.registers[x], ..self }
    }

    /// `FX0A`: register `x` starts to wait for a key.
    pub open spec fn wait_key_pressed(self, x: u8) -> State {
        State { awaiting_key: Some(x), ..self }
    }

    /// `FX1E`: VX added to I, modulo 65536.
    pub open spec fn increment_addr_reg(self, x: int) -> State {
        State { index: ((self.index + self.registers[x]) % 0x10000) as u16, ..self }
    }

    /// `FX29`: the sprite of digit `d` is taken to lie at address `5 * d`;
    /// the digit is the low four bits of VX.
    pub open spec fn store_sprite_addr(self, x: int) -> State {
        State { index: ((self.registers[x] % 16) * 5) as u16, ..self }
    }

    /// `FX33`: the hundreds, tens and units of VX at I, I+1 and I+2; out of
    /// bounds, and no change, if I+2 is no address.
    pub open spec fn bcd(self, x: int) -> (State, Result<(), ExecutionError>) {
        let vx = self.registers[x];
        let i = self.index as int;
        if i + 2 >= MEMORY_SIZE {
            (self, Err(ExecutionError::MemoryOutOfBounds))
        } else {
            (
                State {
                    memory: self.memory.update(i, vx / 100).update(i + 1, (vx / 10) % 10).update(
                        i + 2,
                        vx % 10,
                    ),
                    ..self
                },
                Ok(()),
            )
        }
    }

    /// `FX55`: V0 to VX, VX included, at I and the addresses after it; out
    /// of bounds, and no change, if I+X is no address. I stays.
    pub open spec fn register_dump(self, x: int) -> (State, Result<(), ExecutionError>) {
        let i = self.index as int;
        if i + x >= MEMORY_SIZE {
            (self, Err(ExecutionError::MemoryOutOfBounds))
        } else {
            (
                State {
                    memory: Seq::new(
                        MEMORY_SIZE as nat,
                        |a: int|
                            if i <= a <= i + x {
                                self.registers[a - i]
                            } else {
                                self.memory[a]
                            },
                    ),
                    ..self
                },
                Ok(()),
            )
        }
    }

    /// `FX65`: V0 to VX, VX included, from I and the addresses after it; out
    /// of bounds, and no change, if I+X is no address. I stays.
    pub open spec fn register_load(self, x: int) -> (State, Result<(), ExecutionError>) {
        let i = self.index as int;
        if i + x >= MEMORY_SIZE {
            (self, Err(ExecutionError::MemoryOutOfBounds))
        } else {
            (
                State {
                    registers: Seq::new(
                        REGISTER_COUNT as nat,
                        |j: int|
                            if j <= x {
                                self.memory[i + j]
                            } else {
                                self.registers[j]
                            },
                    ),
                    ..self
                },
                Ok(()),
            )
        }
    }

    /// Whether the sprite of `n` rows that lies in memory at I, drawn with
    /// its top left corner at column `vx` and row `vy`, covers the pixel at
    /// (`row`, `col`) with a set bit. A sprite row is one byte, its highest
    /// bit leftmost. The sprite wraps round both edges of the display.
    pub open spec fn sprite_pixel(self, vx: u8, vy: u8, n: int, row: int, col: int) -> bool {
        let dr = (row - vy) % (DISPLAY_HEIGHT as int);
        let dc = (col - vx) % (DISPLAY_WIDTH as int);
        dr < n && dc < 8 && bit_of(self.memory[self.index + dr], (7 - dc) as u8)
    }

    /// Whether drawing that sprite turns a lit pixel off.
    pub open spec fn sprite_collides(self, vx: u8, vy: u8, n: int) -> bool {
        exists|row: int, col: int|
            0 <= row < DISPLAY_HEIGHT && 0 <= col < DISPLAY_WIDTH && #[trigger] self.display[row][col]
                && self.sprite_pixel(vx, vy, n, row, col)
    }

    /// The display after that sprite is drawn: every pixel that the sprite
    /// covers with a set bit is flipped.
    pub open spec fn draw_display(self, vx: u8, vy: u8, n: int) -> Seq<Seq<bool>> {
        Seq::new(
            DISPLAY_HEIGHT as nat,
            |r: int|
                Seq::new(
                    DISPLAY_WIDTH as nat,
                    |c: int| self.display[r][c] != self.sprite_pixel(vx, vy, n, r, c),
                ),
        )
    }

    /// `DXYN`: the sprite of `n` rows at I is drawn at column VX and row
    /// VY, then VF is set to 1 if a lit pixel went off and to 0 if none
    /// did; out of bounds, and no change, if the sprite's `n` bytes do not
    /// all lie in memory.
    pub open spec fn draw(self, x: int, y: int, n: int) -> (State, Result<(), ExecutionError>) {
        let vx = self.registers[x];
        let vy = self.registers[y];
        if self.index + n > MEMORY_SIZE {
            (self, Err(ExecutionError::MemoryOutOfBounds))
        } else {
            (
                State { display: self.draw_display(vx, vy, n), ..self }.with_flag(
                    self.sprite_collides(vx, vy, n),
                ),
                Ok(()),
            )
        }
    }

    /// What an update of a key does. With a register waiting and the key
    /// newly down (down now, up before), the key's number goes to that
    /// register and the wait is over. In every case the key's state is
    /// recorded.
    pub open spec fn update_key(self, key: int, down: bool) -> State {
        let recorded = State { keys: self.keys.update(key, down), ..self };
        match self.awaiting_key {
            Some(x) => if down && !self.keys[key] {
                State { awaiting_key: None, ..recorded.with_register(x as int, key as u8) }
            } else {
                recorded
            },
            None => recorded,
        }
    }

    /// Whether executing `instruction` moves the program counter past it
    /// when it succeeds. Jumps, calls and returns set the counter
    /// themselves, and the end of the program leaves it.
    pub open spec fn advances(instruction: Instruction) -> bool {
        match instruction {
            Instruction::Return
            | Instruction::Goto { .. }
            | Instruction::CallSubroutine { .. }
            | Instruction::JumpToAddress { .. }
            | Instruction::EndOfProgram
            | Instruction::UnknownInstruction => false,
            _ => true,
        }
    }

    /// What `instruction` does apart from moving the program counter past
    /// itself. `bytes` is the word that it was decoded from and `random` the
    /// byte that a `Rand` draws.
    pub open spec fn apply(self, instruction: Instruction, bytes: (u8, u8), random: u8) -> (
        State,
        Result<(), ExecutionError>,
    ) {
        match instruction {
            Instruction::CallProgram { addr } => (self, Ok(())),
            Instruction::Clear => (self.clear(), Ok(())),
            Instruction::Return => (self.return_subroutine(), Ok(())),
            Instruction::Goto { addr } => (self.goto(addr), Ok(())),
            Instruction::CallSubroutine { addr } => {
                if self.stack.len() >= STACK_DEPTH {
                    (self, Err(ExecutionError::StackOverflow))
                } else {
                    self.advance().call_subroutine(addr)
                }
            },
            Instruction::SkipEqualU8 { x, value } => (
                self.skip_if(self.registers[x as int] == value),
                Ok(()),
            ),
            Instruction::SkipNotEqualU8 { x, value } => (
                self.skip_if(self.registers[x as int] != value),
                Ok(()),
            ),
            Instruction::SkipEqualReg { x, y } => (
                self.skip_if(self.registers[x as int] == self.registers[y as int]),
                Ok(()),
            ),
            Instruction::SetFromU8 { x, value } => (self.with_register(x as int, value), Ok(())),
            Instruction::AddU8 { x, value } => (self.add(x as int, value), Ok(())),
            Instruction::SetFromReg { x, y } => (
                self.with_register(x as int, self.registers[y as int]),
                Ok(()),
            ),
            Instruction::OrReg { x, y } => (self.or(x as int, y as int), Ok(())),
            Instruction::AndReg { x, y } => (self.and(x as int, y as int), Ok(())),
            Instruction::XorReg { x, y } => (self.xor(x as int, y as int), Ok(())),
            Instruction::AddReg { x, y } => (self.add_reg(x as int, y as int), Ok(())),
            Instruction::SubReg { x, y } => (self.sub(x as int, y as int), Ok(())),
            Instruction::ShiftRight { x } => (self.shift_right(x as int), Ok(())),
            Instruction::RevSubReg { x, y } => (self.revsub(x as int, y as int), Ok(())),
            Instruction::ShiftLeft { x } => (self.shift_left(x as int), Ok(())),
            Instruction::SkipNotEqualReg { x, y } => (
                self.skip_if(self.registers[x as int] != self.registers[y as int]),
                Ok(()),
            ),
            Instruction::StoreAddress { addr } => (self.store_address(addr), Ok(())),
            Instruction::JumpToAddress { addr } => (self.jump(addr), Ok(())),
            Instruction::Rand { x, value } => (self.rand(x as int, value, random), Ok(())),
            Instruction::Draw { x, y, n } => self.draw(x as int, y as int, n as int),
            Instruction::SkipIfKeyPressed { x } => (
                self.skip_if(self.key_down(self.registers[x as int])),
                Ok(()),
            ),
            Instruction::SkipIfNotKeyPressed { x } => (
                self.skip_if(!self.key_down(self.registers[x as int])),
                Ok(()),
            ),
            Instruction::SetFromDelayTimer { x } => (
                self.with_register(x as int, self.delay_timer),
                Ok(()),
            ),
            Instruction::AwaitKeyPressed { x } => (self.wait_key_pressed(x), Ok(())),
            Instruction::SetDelayTimer { x } => (self.set_delay_timer(x as int), Ok(())),
            Instruction::SetSoundTimer { x } => (self.set_sound_timer(x as int), Ok(())),
            Instruction::AddToI { x } => (self.increment_addr_reg(x as int), Ok(())),
            Instruction::SetIToSpriteAddress { x } => (self.store_sprite_addr(x as int), Ok(())),
            Instruction::StoreAtIAsDecimal { x } => self.bcd(x as int),
            Instruction::DumpToMemory { x } => self.register_dump(x as int),
            Instruction::LoadFromMemory { x } => self.register_load(x as int),
            Instruction::EndOfProgram => (State { running: false, ..self }, Ok(())),
            Instruction::UnknownInstruction => (
                self,
                Err(ExecutionError::BadInstruction { bytes, instruction }),
            ),
        }
    }

    /// The whole effect of `instruction`: what it does, and on success the
    /// program counter moved past it where `advances` says so. On an error
    /// the state is the old one.
    pub open spec fn execute(self, instruction: Instruction, bytes: (u8, u8), random: u8) -> (
        State,
        Result<(), ExecutionError>,
    ) {
        let (after, outcome) = self.apply(instruction, bytes, random);
        if outcome.is_ok() && Self::advances(instruction) {
            (after.advance(), outcome)
        } else {
            (after, outcome)
        }
    }

    /// The memory and the registers as text: every byte of each in
    /// hexadecimal, under the headings `Memory:` and `Registers: `.
    pub open spec fn dump(self) -> Seq<char> {
        "Memory:"@ + bytes_text(self.memory) + "\n\nRegisters: "@ + bytes_text(self.registers)
    }

    /// The instruction that the program counter points at, or `None` if
    /// its word does not lie wholly in memory.
    pub open spec fn next_instruction(self) -> Option<Instruction> {
        if self.pc + 1 >= MEMORY_SIZE {
            None
        } else {
            Some(decode(word_of(self.memory[self.pc as int], self.memory[self.pc + 1])))
        }
    }

    /// The program as it stands in memory from `addr` on: the instructions
    /// at `addr`, `addr + 2` and so on, each with its address, up to the
    /// end of the program or the end of memory.
    pub open spec fn program_from(self, addr: int) -> Seq<(usize, Instruction)>
        decreases MEMORY_SIZE - addr,
    {
        if addr < 0 || addr + 1 >= MEMORY_SIZE {
            Seq::empty()
        } else {
            let instruction = decode(word_of(self.memory[addr], self.memory[addr + 1]));
            if instruction == Instruction::EndOfProgram {
                Seq::empty()
            } else {
                seq![(addr as usize, instruction)] + self.program_from(addr + 2)
            }
        }
    }

    /// The program in memory: what stands from `START_ADDR` on.
    pub open spec fn program(self) -> Seq<(usize, Instruction)> {
        self.program_from(START_ADDR as int)
    }

    /// One tick of the timers' clock: each timer that is not zero goes down
    /// by one.
    pub open spec fn tick_timers(self) -> State {
        State {
            delay_timer: if self.delay_timer > 0 {
                (self.delay_timer - 1) as u8
            } else {
                0
            },
            sound_timer: if self.sound_timer > 0 {
                (self.sound_timer - 1) as u8
            } else {
                0
            },
            ..self
        }
    }

    /// One step of the machine. A machine that waits for a key stays as it
    /// is and reports the instruction that waits. Else the word at the
    /// program counter is fetched, decoded and executed; a program counter
    /// whose word is not wholly in memory is out of bounds.
    pub open spec fn step(self, random: u8) -> (State, Result<Instruction, ExecutionError>) {
        match self.awaiting_key {
            Some(x) => (self, Ok(Instruction::AwaitKeyPressed { x })),
            None => {
                if self.pc + 1 >= MEMORY_SIZE {
                    (self, Err(ExecutionError::MemoryOutOfBounds))
                } else {
                    let bytes = (self.memory[self.pc as int], self.memory[self.pc + 1]);
                    let instruction = decode(word_of(bytes.0, bytes.1));
                    let (after, outcome) = self.execute(instruction, bytes, random);
                    match outcome {
                        Ok(_) => (after, Ok(instruction)),
                        Err(e) => (after, Err(e)),
                    }
                }
            },
        }
    }

    /// The machine that is made for a program is well formed.
    pub proof fn lemma_initial_wf(rom: Seq<u8>)
        ensures
            Self::initial(rom).wf(),
    {
    }

    /// Executing an instruction keeps a well-formed machine well formed; in
    /// particular the call stack never grows beyond its depth.
    pub proof fn lemma_execute_wf(s: State, instruction: Instruction, bytes: (u8, u8), random: u8)
        requires
            s.wf(),
            instruction.operands_fit(),
        ensures
            s.execute(instruction, bytes, random).0.wf(),
    {
        let after = s.apply(instruction, bytes, random).0;
        assert(after.wf()) by {
            match instruction {
                Instruction::Draw { x, y, n } => {
                    assert(s.draw(x as int, y as int, n as int).0.wf());
                },
                _ => {},
            }
        }
    }

    /// A step keeps a well-formed machine well formed.
    pub proof fn lemma_step_wf(s: State, random: u8)
        requires
            s.wf(),
        ensures
            s.step(random).0.wf(),
    {
        if s.awaiting_key.is_none() && s.pc + 1 < MEMORY_SIZE {
            let bytes = (s.memory[s.pc as int], s.memory[s.pc + 1]);
            lemma_decode_operands_fit(word_of(bytes.0, bytes.1));
            Self::lemma_execute_wf(s, decode(word_of(bytes.0, bytes.1)), bytes, random);
        }
    }

    /// A key update keeps a well-formed machine well formed.
    pub proof fn lemma_update_key_wf(s: State, key: int, down: bool)
        requires
            s.wf(),
            0 <= key < REGISTER_COUNT,
        ensures
            s.update_key(key, down).wf(),
    {
    }

    /// Only a `Rand` looks at the random byte: a step whose instruction is
    /// no `Rand` is the same for every byte.
    pub proof fn lemma_step_random_only_for_rand(s: State, first: u8, second: u8)
        requires
            !(s.awaiting_key.is_none() && s.next_instruction() matches Some(
                Instruction::Rand { .. },
            )),
        ensures
            s.step(first) == s.step(second),
    {
    }

    /// A step that fails leaves the machine as it was.
    pub proof fn lemma_step_error_changes_nothing(s: State, random: u8)
        requires
            s.step(random).1 is Err,
        ensures
            s.step(random).0 == s,
    {
    }

    /// The call stack takes sixteen calls and no more: a call succeeds
    /// exactly when fewer than sixteen are in progress, and a call that
    /// fails is an overflow that changes nothing. A return after a call
    /// gives back the program counter and the stack from before the call.
    /// A return with no call in progress halts the machine and changes
    /// nothing else.
    pub proof fn lemma_call_stack(s: State, addr: u16)
        ensures
            s.call_subroutine(addr).1 is Ok <==> s.stack.len() < STACK_DEPTH,
            s.stack.len() < STACK_DEPTH ==> s.call_subroutine(addr).0.return_subroutine() == s,
            s.stack.len() >= STACK_DEPTH ==> s.call_subroutine(addr) == (
                s,
                Err::<(), ExecutionError>(ExecutionError::StackOverflow),
            ),
            s.stack.len() == 0 ==> s.return_subroutine() == (State { running: false, ..s }),
    {
        if s.stack.len() < STACK_DEPTH {
            let called = s.call_subroutine(addr).0;
            assert(called.stack.drop_last() =~= s.stack);
        }
    }

    /// `8XY4` adds: the new VX and the carry in VF together are the sum of
    /// the old VX and VY.
    pub proof fn lemma_add_reg_carry(s: State, x: int, y: int)
        requires
            s.wf(),
            0 <= x < 15,
            0 <= y < REGISTER_COUNT,
        ensures
            s.add_reg(x, y).registers[x] + 256 * s.add_reg(x, y).registers[15] == s.registers[x]
                + s.registers[y],
            s.add_reg(x, y).registers[15] <= 1,
    {
    }

    /// `8XY5` subtracts modulo 256, and VF tells whether VX was greater
    /// than VY; `8XY7` does the same with the two exchanged.
    pub proof fn lemma_sub_borrow(s: State, x: int, y: int)
        requires
            s.wf(),
            0 <= x < 15,
            0 <= y < REGISTER_COUNT,
        ensures
            s.sub(x, y).registers[x] == if s.registers[x] >= s.registers[y] {
                s.registers[x] - s.registers[y]
            } else {
                s.registers[x] - s.registers[y] + 256
            },
            s.sub(x, y).registers[15] == if s.registers[x] > s.registers[y] {
                1int
            } else {
                0int
            },
            s.revsub(x, y).registers[x] == if s.registers[y] >= s.registers[x] {
                s.registers[y] - s.registers[x]
            } else {
                s.registers[y] - s.registers[x] + 256
            },
            s.revsub(x, y).registers[15] == if s.registers[y] > s.registers[x] {
                1int
            } else {
                0int
            },
    {
    }

    /// The shifts lose nothing: the new VX and the bit in VF together give
    /// the old VX back.
    pub proof fn lemma_shift_keeps_bit(s: State, x: int)
        requires
            s.wf(),
            0 <= x < 15,
        ensures
            2 * s.shift_right(x).registers[x] + s.shift_right(x).registers[15] == s.registers[x],
            s.shift_left(x).registers[x] + 256 * s.shift_left(x).registers[15] == 2
                * s.registers[x],
            s.shift_right(x).registers[15] <= 1,
            s.shift_left(x).registers[15] <= 1,
    {
    }

    /// The three bytes that `FX33` stores are decimal digits, and they are
    /// the digits of VX.
    pub proof fn lemma_bcd_digits(s: State, x: int)
        requires
            s.wf(),
            0 <= x < REGISTER_COUNT,
            s.index + 2 < MEMORY_SIZE,
        ensures
            s.bcd(x).1 is Ok,
            s.bcd(x).0.memory[s.index as int] < 10,
            s.bcd(x).0.memory[s.index + 1] < 10,
            s.bcd(x).0.memory[s.index + 2] < 10,
            100 * s.bcd(x).0.memory[s.index as int] + 10 * s.bcd(x).0.memory[s.index + 1]
                + s.bcd(x).0.memory[s.index + 2] == s.registers[x],
    {
    }

    /// Drawing is an exclusive or: the same sprite drawn twice at the same
    /// place leaves the display as it was.
    pub proof fn lemma_draw_twice(s: State, x: int, y: int, n: int)
        requires
            s.wf(),
            0 <= x < 15,
            0 <= y < 15,
            0 <= n,
            s.index + n <= MEMORY_SIZE,
        ensures
            s.draw(x, y, n).1 is Ok,
            s.draw(x, y, n).0.draw(x, y, n).1 is Ok,
            s.draw(x, y, n).0.draw(x, y, n).0.display == s.display,
    {
        let once = s.draw(x, y, n).0;
        let twice = once.draw(x, y, n).0;
        let vx = s.registers[x];
        let vy = s.registers[y];
        assert(once.registers[x] == vx && once.registers[y] == vy);
        assert forall|r: int, c: int|
            0 <= r < DISPLAY_HEIGHT && 0 <= c < DISPLAY_WIDTH implies #[trigger] twice.display[r][c]
            == s.display[r][c] by {
            assert(once.sprite_pixel(vx, vy, n, r, c) == s.sprite_pixel(vx, vy, n, r, c));
            assert(once.display[r][c] == (s.display[r][c] != s.sprite_pixel(vx, vy, n, r, c)));
        }
        assert(twice.display =~~= s.display);
    }

    /// Registers dumped to memory and loaded again are the registers that
    /// were dumped, whatever happened to the registers in between: for
    /// every `x`, V0 to VX come back, VX included.
    pub proof fn lemma_dump_then_load(s: State, x: int, scratch: Seq<u8>)
        requires
            s.wf(),
            0 <= x < REGISTER_COUNT,
            scratch.len() == REGISTER_COUNT,
            s.index + x < MEMORY_SIZE,
        ensures
            s.register_dump(x).1 is Ok,
            (State { registers: scratch, ..s.register_dump(x).0 }).register_load(x).1 is Ok,
            forall|j: int|
                0 <= j <= x ==> (State {
                    registers: scratch,
                    ..s.register_dump(x).0
                }).register_load(x).0.registers[j] == s.registers[j],
            forall|j: int|
                x < j < REGISTER_COUNT ==> (State {
                    registers: scratch,
                    ..s.register_dump(x).0
                }).register_load(x).0.registers[j] == scratch[j],
    {
    }
}

} // verus!
