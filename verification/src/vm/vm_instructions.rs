//! The operations behind the instructions, one per handler.
use crate::vm::state::{
    bit_of, ExecutionError, State, DISPLAY_HEIGHT, DISPLAY_WIDTH, MEMORY_SIZE, REGISTER_COUNT,
    STACK_DEPTH,
};
use crate::vm::VM;
use rand::Rng;
use vstd::prelude::*;

verus! {

/// What a machine does to execute the instruction set, one operation per
/// handler, each stated over the machine's state. None of them moves the
/// program counter past the instruction: that is the dispatcher's part.
pub trait VmInstructions {
    /// The state that the operations work on.
    spec fn state(&self) -> State;

    /// `00E0`: turns every pixel off.
    fn clear(&mut self)
        ensures
            final(self).state() == old(self).state().clear(),
    ;

    /// `00EE`: returns from a subroutine, or halts the machine if no call is in
    /// progress.
    fn return_subroutine(&mut self)
        ensures
            final(self).state() == old(self).state().return_subroutine(),
    ;

    /// `1NNN`: jumps to `addr`.
    fn goto(&mut self, addr: u16)
        ensures
            final(self).state() == old(self).state().goto(addr),
    ;

    /// `2NNN`: pushes the program counter and jumps to `addr`; fails, and
    /// changes nothing, if the call stack is full.
    fn call_subroutine(&mut self, addr: u16) -> (outcome: Result<(), ExecutionError>)
        ensures
            (final(self).state(), outcome) == old(self).state().call_subroutine(addr),
    ;

    /// Skips one instruction if `v1` equals `v2`.
    fn skip_equal(&mut self, v1: u8, v2: u8)
        requires
            old(self).state().pc <= 0xFFFD,
        ensures
            final(self).state() == old(self).state().skip_if(v1 == v2),
    ;

    /// Skips one instruction if `v1` differs from `v2`.
    fn skip_not_equal(&mut self, v1: u8, v2: u8)
        requires
            old(self).state().pc <= 0xFFFD,
        ensures
            final(self).state() == old(self).state().skip_if(v1 != v2),
    ;

    /// Sets register `idx` to `value`.
    fn load(&mut self, idx: u8, value: u8)
        requires
            idx < 16,
        ensures
            final(self).state() == old(self).state().with_register(idx as int, value),
    ;

    /// `7XNN`: adds `value` to register `idx`, wrapping; VF is left alone.
    fn add(&mut self, idx: u8, value: u8)
        requires
            idx < 16,
        ensures
            final(self).state() == old(self).state().add(idx as int, value),
    ;

    /// `8XY4`: adds VY to VX, wrapping, then sets VF to the carry.
    fn add_reg(&mut self, x: u8, y: u8)
        requires
            x < 16,
            y < 16,
        ensures
            final(self).state() == old(self).state().add_reg(x as int, y as int),
    ;

    /// `8XY5`: subtracts VY from VX, wrapping, then sets VF to 1 if VX was
    /// greater than VY and to 0 if not.
    fn sub(&mut self, x: u8, y: u8)
        requires
            x < 16,
            y < 16,
        ensures
            final(self).state() == old(self).state().sub(x as int, y as int),
    ;

    /// `8XY7`: sets VX to VY minus VX, wrapping, then sets VF to 1 if VY was
    /// greater than VX and to 0 if not.
    fn revsub(&mut self, x: u8, y: u8)
        requires
            x < 16,
            y < 16,
        ensures
            final(self).state() == old(self).state().revsub(x as int, y as int),
    ;

    /// `8XY1`: sets VX to VX or VY.
    fn or(&mut self, x: u8, y: u8)
        requires
            x < 16,
            y < 16,
        ensures
            final(self).state() == old(self).state().or(x as int, y as int),
    ;

    /// `8XY2`: sets VX to VX and VY.
    fn and(&mut self, x: u8, y: u8)
        requires
            x < 16,
            y < 16,
        ensures
            final(self).state() == old(self).state().and(x as int, y as int),
    ;

    /// `8XY3`: sets VX to VX xor VY.
    fn xor(&mut self, x: u8, y: u8)
        requires
            x < 16,
            y < 16,
        ensures
            final(self).state() == old(self).state().xor(x as int, y as int),
    ;

    /// `8XY6`: sets VF to the lowest bit of VX, then shifts register `x` right
    /// by one.
    fn shift_right(&mut self, x: u8)
        requires
            x < 16,
        ensures
            final(self).state() == old(self).state().shift_right(x as int),
    ;

    /// `8XYE`: sets VF to the highest bit of VX, then shifts register `x` left
    /// by one.
    fn shift_left(&mut self, x: u8)
        requires
            x < 16,
        ensures
            final(self).state() == old(self).state().shift_left(x as int),
    ;

    /// `ANNN`: sets I to `addr`.
    fn store_address(&mut self, addr: u16)
        ensures
            final(self).state() == old(self).state().store_address(addr),
    ;

    /// `BNNN`: jumps to `addr` plus V0.
    fn jump(&mut self, addr: u16)
        requires
            addr < 0x1000,
        ensures
            final(self).state() == old(self).state().jump(addr),
    ;

    /// `CXNN`: sets VX to a random byte and `value`.
    fn rand(&mut self, x: u8, value: u8)
        requires
            x < 16,
        ensures
            exists|random: u8| final(self).state() == old(self).state().rand(x as int, value, random),
    ;

    /// `DXYN`: draws the sprite of `nibble` rows that lies at I with its top
    /// left corner at column VX and row VY, wrapping round the edges, and sets
    /// VF to 1 if a lit pixel went off and to 0 if none did; fails, and changes
    /// nothing, if the sprite does not lie in memory.
    fn draw(&mut self, x: u8, y: u8, nibble: u8) -> (outcome: Result<(), ExecutionError>)
        requires
            x < 16,
            y < 16,
            nibble < 16,
        ensures
            (final(self).state(), outcome) == old(self).state().draw(x as int, y as int, nibble as int),
    ;

    /// `EX9E`: skips one instruction if VX is the number of a key that is down.
    fn skip_key_pressed(&mut self, x: u8)
        requires
            x < 16,
            old(self).state().pc <= 0xFFFD,
        ensures
            final(self).state() == old(self).state().skip_if(old(self).state().key_down(old(self).state().registers[x as int])),
    ;

    /// `EXA1`: skips one instruction unless VX is the number of a key that is
    /// down.
    fn skip_not_key_pressed(&mut self, x: u8)
        requires
            x < 16,
            old(self).state().pc <= 0xFFFD,
        ensures
            final(self).state() == old(self).state().skip_if(!old(self).state().key_down(old(self).state().registers[x as int])),
    ;

    /// `FX15`: sets the delay timer to VX.
    fn set_delay_timer(&mut self, x: u8)
        requires
            x < 16,
        ensures
            final(self).state() == old(self).state().set_delay_timer(x as int),
    ;

    /// `FX0A`: makes register `x` wait for a key press.
    fn wait_key_pressed(&mut self, x: u8)
        requires
            x < 16,
        ensures
            final(self).state() == old(self).state().wait_key_pressed(x),
    ;

    /// `FX18`: sets the sound timer to VX.
    fn set_sound_timer(&mut self, x: u8)
        requires
            x < 16,
        ensures
            final(self).state() == old(self).state().set_sound_timer(x as int),
    ;

    /// `FX07`: sets VX to the delay timer.
    fn store_delay_timer(&mut self, x: u8)
        requires
            x < 16,
        ensures
            final(self).state() == old(self).state().with_register(x as int, old(self).state().delay_timer),
    ;

    /// `FX1E`: adds VX to I, wrapping.
    fn increment_addr_reg(&mut self, x: u8)
        requires
            x < 16,
        ensures
            final(self).state() == old(self).state().increment_addr_reg(x as int),
    ;

    /// `FX29`: sets I to the address of the sprite for the digit in the low
    /// four bits of VX.
    fn store_sprite_addr(&mut self, x: u8)
        requires
            x < 16,
        ensures
            final(self).state() == old(self).state().store_sprite_addr(x as int),
    ;

    /// `FX33`: stores the hundreds, tens and units of VX at I, I+1 and I+2;
    /// fails, and changes nothing, if these are not all addresses.
    fn bcd(&mut self, x: u8) -> (outcome: Result<(), ExecutionError>)
        requires
            x < 16,
        ensures
            (final(self).state(), outcome) == old(self).state().bcd(x as int),
    ;

    /// `FX55`: copies V0 to VX, VX included, to memory from I on; fails, and
    /// changes nothing, if these are not all addresses.
    fn register_dump(&mut self, x: u8) -> (outcome: Result<(), ExecutionError>)
        requires
            x < 16,
        ensures
            (final(self).state(), outcome) == old(self).state().register_dump(x as int),
    ;

    /// `FX65`: copies memory from I on to V0 to VX, VX included; fails, and
    /// changes nothing, if these are not all addresses.
    fn register_load(&mut self, x: u8) -> (outcome: Result<(), ExecutionError>)
        requires
            x < 16,
        ensures
            (final(self).state(), outcome) == old(self).state().register_load(x as int),
    ;
}

/// A byte from the generator that `rand::thread_rng` hands out, drawn with
/// `Rng::gen`. Nothing is claimed of the byte: every value may come.
#[verifier::external_body]
pub(crate) fn random_byte() -> (byte: u8) {
    rand::thread_rng().gen::<u8>()
}

impl VM {
    /// `CXNN` with the random byte given: sets VX to `random` and `value`.
    pub fn rand_with(&mut self, x: u8, value: u8, random: u8)
        requires
            x < 16,
        ensures
            final(self)@ == old(self)@.rand(x as int, value, random),
    {
        proof {
            use_type_invariant(&*self);
        }
        self.regs[x as usize] = random & value;
    }
}

/// Whether the pixel at (`row`, `col`) is one that a sprite at (`vx`, `vy`)
/// reaches before its bit `bit` of sprite row `at`, counting the bits row
/// by row from the top and in a row from the left.
spec fn reached(vx: u8, vy: u8, row: int, col: int, at: int, bit: int) -> bool {
    let dr = (row - vy) % 32;
    let dc = (col - vx) % 64;
    dr < at || (dr == at && dc < bit)
}

/// `shown` is the display of `before` with the sprite's pixels flipped as
/// far as they are reached before bit `bit` of sprite row `at`.
spec fn painted(
    before: State,
    shown: Seq<Seq<bool>>,
    vx: u8,
    vy: u8,
    n: int,
    at: int,
    bit: int,
) -> bool {
    &&& shown.len() == DISPLAY_HEIGHT
    &&& forall|r: int| 0 <= r < DISPLAY_HEIGHT ==> (#[trigger] shown[r]).len() == DISPLAY_WIDTH
    &&& forall|r: int, c: int|
        0 <= r < DISPLAY_HEIGHT && 0 <= c < DISPLAY_WIDTH ==> #[trigger] shown[r][c] == (
        before.display[r][c] != (before.sprite_pixel(vx, vy, n, r, c) && reached(
            vx,
            vy,
            r,
            c,
            at,
            bit,
        )))
}

/// Whether one of the sprite's pixels reached before bit `bit` of sprite
/// row `at` lies on a pixel that is lit in `before`.
spec fn hit_before(before: State, vx: u8, vy: u8, n: int, at: int, bit: int) -> bool {
    exists|r: int, c: int|
        0 <= r < DISPLAY_HEIGHT && 0 <= c < DISPLAY_WIDTH && #[trigger] before.display[r][c]
            && before.sprite_pixel(vx, vy, n, r, c) && reached(vx, vy, r, c, at, bit)
}

/// One bit of the sprite: the display changes at the one pixel that the bit
/// lies on, if the bit is set, and a collision is one more if that pixel
/// was lit.
proof fn lemma_paint_step(
    before: State,
    shown: Seq<Seq<bool>>,
    after: Seq<Seq<bool>>,
    vx: u8,
    vy: u8,
    n: int,
    at: int,
    bit: int,
)
    requires
        before.wf(),
        0 <= at < n <= 16,
        0 <= bit < 8,
        painted(before, shown, vx, vy, n, at, bit),
        ({
            let r = (vy + at) % 32;
            let c = (vx + bit) % 64;
            let set = bit_of(before.memory[before.index + at], (7 - bit) as u8);
            &&& after.len() == DISPLAY_HEIGHT
            &&& forall|k: int| 0 <= k < DISPLAY_HEIGHT && k != r ==> after[k] == shown[k]
            &&& after[r].len() == DISPLAY_WIDTH
            &&& forall|k: int| 0 <= k < DISPLAY_WIDTH && k != c ==> after[r][k] == shown[r][k]
            &&& after[r][c] == (shown[r][c] != set)
        }),
    ensures
        painted(before, after, vx, vy, n, at, bit + 1),
        shown[(vy + at) % 32][(vx + bit) % 64] == before.display[(vy + at) % 32][(vx + bit) % 64],
        hit_before(before, vx, vy, n, at, bit + 1) == (hit_before(before, vx, vy, n, at, bit) || (
        before.display[(vy + at) % 32][(vx + bit) % 64] && bit_of(
            before.memory[before.index + at],
            (7 - bit) as u8,
        ))),
{
    let r0 = (vy + at) % 32;
    let c0 = (vx + bit) % 64;
    let set = bit_of(before.memory[before.index + at], (7 - bit) as u8);
    assert((r0 - vy) % 32 == at);
    assert((c0 - vx) % 64 == bit);
    assert(before.sprite_pixel(vx, vy, n, r0, c0) == set);
    assert(!reached(vx, vy, r0, c0, at, bit));
    assert(reached(vx, vy, r0, c0, at, bit + 1));
    assert forall|r: int, c: int|
        0 <= r < DISPLAY_HEIGHT && 0 <= c < DISPLAY_WIDTH && !(r == r0 && c == c0) implies reached(
        vx,
        vy,
        r,
        c,
        at,
        bit + 1,
    ) == reached(vx, vy, r, c, at, bit) by {
        if (r - vy) % 32 == at && (c - vx) % 64 == bit {
            assert(r == r0);
            assert(c == c0);
        }
    }
    assert forall|r: int| 0 <= r < DISPLAY_HEIGHT implies (#[trigger] after[r]).len()
        == DISPLAY_WIDTH by {
        assert(shown[r].len() == DISPLAY_WIDTH);
    }
    assert forall|r: int, c: int|
        0 <= r < DISPLAY_HEIGHT && 0 <= c < DISPLAY_WIDTH implies #[trigger] after[r][c] == (
    before.display[r][c] != (before.sprite_pixel(vx, vy, n, r, c) && reached(
        vx,
        vy,
        r,
        c,
        at,
        bit + 1,
    ))) by {
        assert(shown[r][c] == (before.display[r][c] != (before.sprite_pixel(vx, vy, n, r, c)
            && reached(vx, vy, r, c, at, bit))));
        if r != r0 {
            assert(after[r] == shown[r]);
        } else if c != c0 {
            assert(after[r][c] == shown[r][c]);
        }
    }
    assert(shown[r0][c0] == before.display[r0][c0]);
    let now = before.display[r0][c0] && set;
    if hit_before(before, vx, vy, n, at, bit + 1) {
        let (r, c) = choose|r: int, c: int|
            0 <= r < DISPLAY_HEIGHT && 0 <= c < DISPLAY_WIDTH && #[trigger] before.display[r][c]
                && before.sprite_pixel(vx, vy, n, r, c) && reached(vx, vy, r, c, at, bit + 1);
        if !(r == r0 && c == c0) {
            assert(before.display[r][c] && reached(vx, vy, r, c, at, bit));
            assert(hit_before(before, vx, vy, n, at, bit));
        }
    }
    if hit_before(before, vx, vy, n, at, bit) {
        let (r, c) = choose|r: int, c: int|
            0 <= r < DISPLAY_HEIGHT && 0 <= c < DISPLAY_WIDTH && #[trigger] before.display[r][c]
                && before.sprite_pixel(vx, vy, n, r, c) && reached(vx, vy, r, c, at, bit);
        assert(before.display[r][c] && reached(vx, vy, r, c, at, bit + 1));
    }
    if now {
        assert(before.display[r0][c0] && before.sprite_pixel(vx, vy, n, r0, c0) && reached(
            vx,
            vy,
            r0,
            c0,
            at,
            bit + 1,
        ));
    }
}

/// A sprite row is eight bits: what is reached after its last bit is what
/// is reached before the first bit of the next row.
proof fn lemma_paint_row(before: State, shown: Seq<Seq<bool>>, vx: u8, vy: u8, n: int, at: int)
    requires
        before.wf(),
        0 <= at < n,
        painted(before, shown, vx, vy, n, at, 8),
    ensures
        painted(before, shown, vx, vy, n, at + 1, 0),
        hit_before(before, vx, vy, n, at + 1, 0) == hit_before(before, vx, vy, n, at, 8),
{
    assert forall|r: int, c: int|
        before.sprite_pixel(vx, vy, n, r, c) implies reached(vx, vy, r, c, at + 1, 0) == reached(
        vx,
        vy,
        r,
        c,
        at,
        8,
    ) by {}
    assert forall|r: int, c: int|
        0 <= r < DISPLAY_HEIGHT && 0 <= c < DISPLAY_WIDTH implies #[trigger] shown[r][c] == (
    before.display[r][c] != (before.sprite_pixel(vx, vy, n, r, c) && reached(
        vx,
        vy,
        r,
        c,
        at + 1,
        0,
    ))) by {
        assert(shown[r][c] == (before.display[r][c] != (before.sprite_pixel(vx, vy, n, r, c)
            && reached(vx, vy, r, c, at, 8))));
    }
    if hit_before(before, vx, vy, n, at + 1, 0) {
        let (r, c) = choose|r: int, c: int|
            0 <= r < DISPLAY_HEIGHT && 0 <= c < DISPLAY_WIDTH && #[trigger] before.display[r][c]
                && before.sprite_pixel(vx, vy, n, r, c) && reached(vx, vy, r, c, at + 1, 0);
        assert(before.display[r][c] && reached(vx, vy, r, c, at, 8));
    }
    if hit_before(before, vx, vy, n, at, 8) {
        let (r, c) = choose|r: int, c: int|
            0 <= r < DISPLAY_HEIGHT && 0 <= c < DISPLAY_WIDTH && #[trigger] before.display[r][c]
                && before.sprite_pixel(vx, vy, n, r, c) && reached(vx, vy, r, c, at, 8);
        assert(before.display[r][c] && reached(vx, vy, r, c, at + 1, 0));
    }
}

/// After the last row every pixel of the sprite has been reached.
proof fn lemma_paint_done(before: State, shown: Seq<Seq<bool>>, vx: u8, vy: u8, n: int)
    requires
        before.wf(),
        0 <= n,
        painted(before, shown, vx, vy, n, n, 0),
    ensures
        shown =~~= before.draw_display(vx, vy, n),
        hit_before(before, vx, vy, n, n, 0) == before.sprite_collides(vx, vy, n),
{
    assert forall|r: int, c: int|
        0 <= r < DISPLAY_HEIGHT && 0 <= c < DISPLAY_WIDTH implies #[trigger] shown[r][c]
        == before.draw_display(vx, vy, n)[r][c] by {
        assert(shown[r][c] == (before.display[r][c] != (before.sprite_pixel(vx, vy, n, r, c)
            && reached(vx, vy, r, c, n, 0))));
    }
    if hit_before(before, vx, vy, n, n, 0) {
        let (r, c) = choose|r: int, c: int|
            0 <= r < DISPLAY_HEIGHT && 0 <= c < DISPLAY_WIDTH && #[trigger] before.display[r][c]
                && before.sprite_pixel(vx, vy, n, r, c) && reached(vx, vy, r, c, n, 0);
        assert(before.display[r][c] && before.sprite_pixel(vx, vy, n, r, c));
    }
    if before.sprite_collides(vx, vy, n) {
        let (r, c) = choose|r: int, c: int|
            0 <= r < DISPLAY_HEIGHT && 0 <= c < DISPLAY_WIDTH && #[trigger] before.display[r][c]
                && before.sprite_pixel(vx, vy, n, r, c);
        assert(before.display[r][c] && reached(vx, vy, r, c, n, 0));
    }
}

impl VmInstructions for VM {
    open spec fn state(&self) -> State {
        self@
    }

    fn clear(&mut self) {
        proof {
            use_type_invariant(&*self);
        }
        self.display = [[false; 64]; 32];
        proof {
            assert(self@ =~~= old(self)@.clear());
        }
    }

    fn return_subroutine(&mut self) {
        proof {
            use_type_invariant(&*self);
        }
        if self.stack_ptr == 0 {
            self.state = false;
        } else {
            self.stack_ptr -= 1;
            self.pc = self.stack[self.stack_ptr];
        }
        proof {
            assert(self@ =~~= old(self)@.return_subroutine());
        }
    }

    fn goto(&mut self, addr: u16) {
        proof {
            use_type_invariant(&*self);
        }
        self.pc = addr;
    }

    fn call_subroutine(&mut self, addr: u16) -> (outcome: Result<(), ExecutionError>) {
        proof {
            use_type_invariant(&*self);
        }
        if self.stack_ptr >= STACK_DEPTH {
            return Err(ExecutionError::StackOverflow);
        }
        self.stack[self.stack_ptr] = self.pc;
        self.stack_ptr += 1;
        self.pc = addr;
        proof {
            assert(self@ =~~= old(self)@.call_subroutine(addr).0);
        }
        Ok(())
    }

    fn skip_equal(&mut self, v1: u8, v2: u8) {
        proof {
            use_type_invariant(&*self);
        }
        if v1 == v2 {
            self.pc += 2;
        }
    }

    fn skip_not_equal(&mut self, v1: u8, v2: u8) {
        proof {
            use_type_invariant(&*self);
        }
        if v1 != v2 {
            self.pc += 2;
        }
    }

    fn load(&mut self, idx: u8, value: u8) {
        proof {
            use_type_invariant(&*self);
        }
        self.regs[idx as usize] = value;
    }

    fn add(&mut self, idx: u8, value: u8) {
        proof {
            use_type_invariant(&*self);
        }
        let sum = self.regs[idx as usize].wrapping_add(value);
        self.regs[idx as usize] = sum;
    }

    fn add_reg(&mut self, x: u8, y: u8) {
        proof {
            use_type_invariant(&*self);
        }
        let vx = self.regs[x as usize];
        let vy = self.regs[y as usize];
        self.regs[x as usize] = vx.wrapping_add(vy);
        self.regs[15] = if vy > 255 - vx {
            1
        } else {
            0
        };
    }

    fn sub(&mut self, x: u8, y: u8) {
        proof {
            use_type_invariant(&*self);
        }
        let vx = self.regs[x as usize];
        let vy = self.regs[y as usize];
        self.regs[x as usize] = vx.wrapping_sub(vy);
        self.regs[15] = if vx > vy {
            1
        } else {
            0
        };
    }

    fn revsub(&mut self, x: u8, y: u8) {
        proof {
            use_type_invariant(&*self);
        }
        let vx = self.regs[x as usize];
        let vy = self.regs[y as usize];
        self.regs[x as usize] = vy.wrapping_sub(vx);
        self.regs[15] = if vy > vx {
            1
        } else {
            0
        };
    }

    fn or(&mut self, x: u8, y: u8) {
        proof {
            use_type_invariant(&*self);
        }
        let idx = x as usize;
        self.regs[idx] = self.regs[idx] | self.regs[y as usize];
    }

    fn and(&mut self, x: u8, y: u8) {
        proof {
            use_type_invariant(&*self);
        }
        let idx = x as usize;
        self.regs[idx] = self.regs[idx] & self.regs[y as usize];
    }

    fn xor(&mut self, x: u8, y: u8) {
        proof {
            use_type_invariant(&*self);
        }
        let idx = x as usize;
        self.regs[idx] = self.regs[idx] ^ self.regs[y as usize];
    }

    fn shift_right(&mut self, x: u8) {
        proof {
            use_type_invariant(&*self);
        }
        let ix = x as usize;
        let vx = self.regs[ix];
        assert(vx & 1 == vx % 2) by (bit_vector);
        self.regs[15] = vx & 1;
        let flagged = self.regs[ix];
        assert(flagged >> 1 == flagged / 2) by (bit_vector);
        self.regs[ix] = flagged >> 1;
    }

    fn shift_left(&mut self, x: u8) {
        proof {
            use_type_invariant(&*self);
        }
        let ix = x as usize;
        let vx = self.regs[ix];
        assert((vx >> 7) == (if vx >= 128 { 1u8 } else { 0u8 })) by (bit_vector);
        self.regs[15] = vx >> 7;
        let flagged = self.regs[ix];
        assert(flagged << 1 == ((flagged as int * 2) % 256) as u8) by (bit_vector);
        self.regs[ix] = flagged << 1;
    }

    fn store_address(&mut self, addr: u16) {
        proof {
            use_type_invariant(&*self);
        }
        self.i = addr;
    }

    fn jump(&mut self, addr: u16) {
        proof {
            use_type_invariant(&*self);
        }
        self.pc = self.regs[0] as u16 + addr;
    }

    fn rand(&mut self, x: u8, value: u8) {
        let random = random_byte();
        self.rand_with(x, value, random);
        proof {
            assert(self.state() == old(self).state().rand(x as int, value, random));
        }
    }

    fn draw(&mut self, x: u8, y: u8, nibble: u8) -> (outcome: Result<(), ExecutionError>) {
        proof {
            use_type_invariant(&*self);
        }
        let base = self.i as usize;
        let rows = nibble as usize;
        if base + rows > MEMORY_SIZE {
            return Err(ExecutionError::MemoryOutOfBounds);
        }
        let vx = self.regs[x as usize];
        let vy = self.regs[y as usize];
        let ghost before = self@;
        let mut collision = false;
        let mut row: usize = 0;
        while row < rows
            invariant
                row <= rows < 16,
                base + rows <= MEMORY_SIZE,
                base == before.index,
                before.wf(),
                self@ == (State { display: self@.display, ..before }),
                painted(before, self@.display, vx, vy, rows as int, row as int, 0),
                collision == hit_before(before, vx, vy, rows as int, row as int, 0),
            decreases rows - row,
        {
            let sprite = self.memory[base + row];
            let r = (vy as usize + row) % DISPLAY_HEIGHT;
            let mut bit: u8 = 0;
            while bit < 8
                invariant
                    row < rows < 16,
                    bit <= 8,
                    base + rows <= MEMORY_SIZE,
                    base == before.index,
                    before.wf(),
                    sprite == before.memory[base + row],
                    r == (vy + row) % 32,
                    self@ == (State { display: self@.display, ..before }),
                    painted(before, self@.display, vx, vy, rows as int, row as int, bit as int),
                    collision == hit_before(before, vx, vy, rows as int, row as int, bit as int),
                decreases 8 - bit,
            {
                proof {
                    use_type_invariant(&*self);
                }
                let c = (vx as usize + bit as usize) % DISPLAY_WIDTH;
                let ghost shown = self@.display;
                if (sprite >> (7 - bit)) & 1 == 1 {
                    if self.display[r][c] {
                        collision = true;
                    }
                    let lit = self.display[r][c];
                    self.display[r][c] = !lit;
                }
                proof {
                    lemma_paint_step(
                        before,
                        shown,
                        self@.display,
                        vx,
                        vy,
                        rows as int,
                        row as int,
                        bit as int,
                    );
                }
                bit += 1;
            }
            proof {
                lemma_paint_row(before, self@.display, vx, vy, rows as int, row as int);
            }
            row += 1;
        }
        proof {
            lemma_paint_done(before, self@.display, vx, vy, rows as int);
            use_type_invariant(&*self);
        }
        self.regs[15] = if collision {
            1
        } else {
            0
        };
        proof {
            assert(self@ =~~= before.draw(x as int, y as int, nibble as int).0);
        }
        Ok(())
    }

    fn skip_key_pressed(&mut self, x: u8) {
        proof {
            use_type_invariant(&*self);
        }
        let idx = self.regs[x as usize] as usize;
        if idx < REGISTER_COUNT && self.input[idx] {
            self.pc += 2;
        }
    }

    fn skip_not_key_pressed(&mut self, x: u8) {
        proof {
            use_type_invariant(&*self);
        }
        let idx = self.regs[x as usize] as usize;
        if !(idx < REGISTER_COUNT && self.input[idx]) {
            self.pc += 2;
        }
    }

    fn set_delay_timer(&mut self, x: u8) {
        proof {
            use_type_invariant(&*self);
        }
        self.delay_timer = self.regs[x as usize];
    }

    fn wait_key_pressed(&mut self, x: u8) {
        proof {
            use_type_invariant(&*self);
        }
        self.awaiting_key = Some(x);
    }

    fn set_sound_timer(&mut self, x: u8) {
        proof {
            use_type_invariant(&*self);
        }
        self.sound_timer = self.regs[x as usize];
    }

    fn store_delay_timer(&mut self, x: u8) {
        proof {
            use_type_invariant(&*self);
        }
        self.regs[x as usize] = self.delay_timer;
    }

    fn increment_addr_reg(&mut self, x: u8) {
        proof {
            use_type_invariant(&*self);
        }
        self.i = self.i.wrapping_add(self.regs[x as usize] as u16);
    }

    fn store_sprite_addr(&mut self, x: u8) {
        proof {
            use_type_invariant(&*self);
        }
        let digit = self.regs[x as usize] % 16;
        self.i = digit as u16 * 5;
    }

    fn bcd(&mut self, x: u8) -> (outcome: Result<(), ExecutionError>) {
        proof {
            use_type_invariant(&*self);
        }
        let vx = self.regs[x as usize];
        let idx = self.i as usize;
        if idx + 2 >= MEMORY_SIZE {
            return Err(ExecutionError::MemoryOutOfBounds);
        }
        self.memory[idx] = vx / 100;
        self.memory[idx + 1] = (vx / 10) % 10;
        self.memory[idx + 2] = vx % 10;
        Ok(())
    }

    fn register_dump(&mut self, x: u8) -> (outcome: Result<(), ExecutionError>) {
        proof {
            use_type_invariant(&*self);
        }
        let base = self.i as usize;
        let last = x as usize;
        if base + last >= MEMORY_SIZE {
            return Err(ExecutionError::MemoryOutOfBounds);
        }
        let ghost before = self@;
        let mut j: usize = 0;
        while j <= last
            invariant
                j <= last + 1,
                last < 16,
                base + last < MEMORY_SIZE,
                base == before.index,
                before.memory.len() == MEMORY_SIZE,
                self@.memory.len() == MEMORY_SIZE,
                self@ == (State { memory: self@.memory, ..before }),
                forall|a: int|
                    0 <= a < MEMORY_SIZE ==> self@.memory[a] == if base <= a < base + j {
                        before.registers[a - base]
                    } else {
                        before.memory[a]
                    },
            decreases last + 1 - j,
        {
            proof {
                use_type_invariant(&*self);
            }
            self.memory[base + j] = self.regs[j];
            j += 1;
        }
        proof {
            assert(self@.memory =~= before.register_dump(x as int).0.memory);
        }
        Ok(())
    }

    fn register_load(&mut self, x: u8) -> (outcome: Result<(), ExecutionError>) {
        proof {
            use_type_invariant(&*self);
        }
        let base = self.i as usize;
        let last = x as usize;
        if base + last >= MEMORY_SIZE {
            return Err(ExecutionError::MemoryOutOfBounds);
        }
        let ghost before = self@;
        let mut j: usize = 0;
        while j <= last
            invariant
                j <= last + 1,
                last < 16,
                base + last < MEMORY_SIZE,
                base == before.index,
                before.registers.len() == REGISTER_COUNT,
                self@.registers.len() == REGISTER_COUNT,
                self@ == (State { registers: self@.registers, ..before }),
                forall|k: int|
                    0 <= k < REGISTER_COUNT ==> self@.registers[k] == if k < j {
                        before.memory[base + k]
                    } else {
                        before.registers[k]
                    },
            decreases last + 1 - j,
        {
            proof {
                use_type_invariant(&*self);
            }
            self.regs[j] = self.memory[base + j];
            j += 1;
        }
        proof {
            assert(self@.registers =~= before.register_load(x as int).0.registers);
        }
        Ok(())
    }
}

} // verus!
