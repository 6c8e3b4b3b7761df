use crate::error::Chip8Error;
use crate::instruction::{decode, Instruction};
use crate::ram::{initial_memory, word_at, RAM_SIZE, START_ADDRESS};
use crate::screen::{dark_pixels, SCREEN_HEIGHT, SCREEN_SIZE, SCREEN_WIDTH};
use vstd::arithmetic::div_mod::{lemma_fundamental_div_mod, lemma_fundamental_div_mod_converse};
use vstd::prelude::*;

verus! {

pub const NUMBER_OF_V_REGISTERS: usize = 16;

pub const STACK_SIZE: usize = 16;

pub const NUMBER_OF_KEYS: usize = 16;

/// Index of VF, the carry, borrow and collision flag.
pub const FLAG_REGISTER: usize = 15;

/// The whole machine as mathematical values.
pub struct MachineState {
    pub pc: u16,
    pub memory: Seq<u8>,
    pub pixels: Seq<bool>,
    pub v: Seq<u8>,
    pub i: u16,
    /// The live return addresses, oldest first.
    pub stack: Seq<u16>,
    pub keys: Seq<bool>,
    pub delay: u8,
    pub sound: u8,
}

/// The machine as constructed: font loaded, counter at the program start, all else zero.
pub open spec fn initial_state() -> MachineState {
    MachineState {
        pc: START_ADDRESS,
        memory: initial_memory(),
        pixels: dark_pixels(),
        v: Seq::new(NUMBER_OF_V_REGISTERS as nat, |k: int| 0u8),
        i: 0,
        stack: Seq::empty(),
        keys: Seq::new(NUMBER_OF_KEYS as nat, |k: int| false),
        delay: 0,
        sound: 0,
    }
}

impl MachineState {
    pub open spec fn well_formed(self) -> bool {
        &&& self.memory.len() == RAM_SIZE
        &&& self.pixels.len() == SCREEN_SIZE
        &&& self.v.len() == NUMBER_OF_V_REGISTERS
        &&& self.stack.len() <= STACK_SIZE
        &&& self.keys.len() == NUMBER_OF_KEYS
    }

    pub open spec fn set_v(self, x: int, value: u8) -> MachineState {
        MachineState { v: self.v.update(x, value), ..self }
    }

    /// VX := `value`, then VF := `flag` (so the flag wins when X is F).
    pub open spec fn set_v_and_flag(self, x: int, value: u8, flag: u8) -> MachineState {
        self.set_v(x, value).set_v(FLAG_REGISTER as int, flag)
    }

    pub open spec fn with_memory(self, memory: Seq<u8>) -> MachineState {
        MachineState { memory, ..self }
    }

    pub open spec fn with_pixels(self, pixels: Seq<bool>) -> MachineState {
        MachineState { pixels, ..self }
    }

    pub open spec fn with_registers(self, v: Seq<u8>) -> MachineState {
        MachineState { v, ..self }
    }

    pub open spec fn with_stack(self, stack: Seq<u16>) -> MachineState {
        MachineState { stack, ..self }
    }

    pub open spec fn with_keys(self, keys: Seq<bool>) -> MachineState {
        MachineState { keys, ..self }
    }

    pub open spec fn with_delay(self, delay: u8) -> MachineState {
        MachineState { delay, ..self }
    }

    pub open spec fn with_sound(self, sound: u8) -> MachineState {
        MachineState { sound, ..self }
    }

    pub open spec fn set_pc(self, pc: u16) -> MachineState {
        MachineState { pc, ..self }
    }

    pub open spec fn set_i(self, i: u16) -> MachineState {
        MachineState { i, ..self }
    }

    /// Passes over the next instruction when `cond` holds.
    pub open spec fn skip_if(self, cond: bool) -> MachineState {
        if cond {
            self.set_pc((self.pc + 2) as u16)
        } else {
            self
        }
    }
}

/// Whether key `k` is one of the sixteen keys.
pub open spec fn is_key(k: int) -> bool {
    0 <= k < NUMBER_OF_KEYS
}

pub open spec fn any_key_pressed(keys: Seq<bool>) -> bool {
    exists|k: int| is_key(k) && #[trigger] keys[k]
}

/// Whether `k` is the lowest-numbered pressed key.
pub open spec fn is_lowest_pressed(keys: Seq<bool>, k: int) -> bool {
    &&& is_key(k)
    &&& keys[k]
    &&& forall|j: int| 0 <= j < k ==> !#[trigger] keys[j]
}

pub open spec fn lowest_pressed_key(keys: Seq<bool>) -> int {
    choose|k: int| is_lowest_pressed(keys, k)
}

/// Whether bit `col` of a sprite row is set, column 0 being the most significant bit.
pub open spec fn sprite_bit(row: u8, col: int) -> bool {
    row & (0x80u8 >> (col as u8)) != 0
}

/// The sprite row that lands on pixel `p` when the sprite's origin row is `y0`,
/// counted with wrap-around at the bottom edge.
pub open spec fn row_offset(p: int, y0: int) -> int {
    (p / SCREEN_WIDTH as int - y0) % (SCREEN_HEIGHT as int)
}

/// The sprite column that lands on pixel `p` when the sprite's origin column is
/// `x0`, counted with wrap-around at the right edge.
pub open spec fn col_offset(p: int, x0: int) -> int {
    (p % SCREEN_WIDTH as int - x0) % (SCREEN_WIDTH as int)
}

/// Whether a set bit of the `n`-row sprite at `memory[i..]`, drawn from
/// origin (x0, y0), lands on pixel `p`.
pub open spec fn sprite_covers(memory: Seq<u8>, i: int, n: int, x0: int, y0: int, p: int) -> bool {
    let r = row_offset(p, y0);
    let c = col_offset(p, x0);
    r < n && c < 8 && sprite_bit(memory[i + r], c)
}

/// Whether drawing the `n`-row sprite from (VX, VY) turns off a lit pixel.
pub open spec fn draw_collides(s: MachineState, x: int, y: int, n: int) -> bool {
    exists|p: int|
        0 <= p < SCREEN_SIZE && #[trigger] sprite_covers(
            s.memory,
            s.i as int,
            n,
            s.v[x] as int,
            s.v[y] as int,
            p,
        ) && s.pixels[p]
}

/// Each pixel the sprite covers flips; VF := 1 exactly when a lit pixel was covered.
pub open spec fn draw(s: MachineState, x: int, y: int, n: int) -> MachineState {
    let pixels = Seq::new(
        SCREEN_SIZE as nat,
        |p: int| s.pixels[p] != sprite_covers(s.memory, s.i as int, n, s.v[x] as int, s.v[y] as int, p),
    );
    MachineState { pixels, ..s }.set_v(
        FLAG_REGISTER as int,
        if draw_collides(s, x, y, n) {
            1
        } else {
            0
        },
    )
}

/// Whether reading the `n` sprite rows from `i` on stays inside memory.
pub open spec fn sprite_in_memory(i: int, n: int) -> bool {
    n == 0 || i + n <= RAM_SIZE
}

/// Memory with the bytes `v[0..=x]` written from address `i` on.
pub open spec fn store_registers(memory: Seq<u8>, v: Seq<u8>, i: int, x: int) -> Seq<u8> {
    Seq::new(memory.len(), |a: int| if i <= a <= i + x { v[a - i] } else { memory[a] })
}

/// Registers with `v[0..=x]` read from memory from address `i` on.
pub open spec fn load_registers(memory: Seq<u8>, v: Seq<u8>, i: int, x: int) -> Seq<u8> {
    Seq::new(v.len(), |j: int| if j <= x { memory[i + j] } else { v[j] })
}

/// Memory with the hundreds, tens and ones digits of `value` at `i`, `i + 1`, `i + 2`.
pub open spec fn store_bcd(memory: Seq<u8>, i: int, value: u8) -> Seq<u8> {
    memory.update(i, value / 100).update(i + 1, (value / 10) % 10).update(i + 2, value % 10)
}

/// The effect of one instruction on a machine whose counter already points
/// past it. `random_byte` is the byte drawn for `CXNN`; nothing else reads it.
pub open spec fn execute(s: MachineState, ins: Instruction, random_byte: u8) -> Result<
    MachineState,
    Chip8Error,
> {
    match ins {
        Instruction::Nop => Ok(s),
        Instruction::ClearScreen => Ok(MachineState { pixels: dark_pixels(), ..s }),
        Instruction::Return => if s.stack.len() == 0 {
            Err(Chip8Error::StackUnderflow)
        } else {
            Ok(MachineState { pc: s.stack.last(), stack: s.stack.drop_last(), ..s })
        },
        Instruction::Jump { addr } => Ok(s.set_pc(addr)),
        Instruction::Call { addr } => if s.stack.len() >= STACK_SIZE {
            Err(Chip8Error::StackOverflow)
        } else {
            Ok(MachineState { pc: addr, stack: s.stack.push(s.pc), ..s })
        },
        Instruction::SkipIfEqualImm { x, nn } => Ok(s.skip_if(s.v[x as int] == nn)),
        Instruction::SkipIfNotEqualImm { x, nn } => Ok(s.skip_if(s.v[x as int] != nn)),
        Instruction::SkipIfEqualReg { x, y } => Ok(s.skip_if(s.v[x as int] == s.v[y as int])),
        Instruction::SetImm { x, nn } => Ok(s.set_v(x as int, nn)),
        Instruction::AddImm { x, nn } => Ok(s.set_v(x as int, ((s.v[x as int] + nn) % 256) as u8)),
        Instruction::Copy { x, y } => Ok(s.set_v(x as int, s.v[y as int])),
        Instruction::Or { x, y } => Ok(s.set_v(x as int, s.v[x as int] | s.v[y as int])),
        Instruction::And { x, y } => Ok(s.set_v(x as int, s.v[x as int] & s.v[y as int])),
        Instruction::Xor { x, y } => Ok(s.set_v(x as int, s.v[x as int] ^ s.v[y as int])),
        Instruction::AddReg { x, y } => {
            let sum = s.v[x as int] + s.v[y as int];
            Ok(s.set_v_and_flag(x as int, (sum % 256) as u8, if sum > 255 { 1 } else { 0 }))
        },
        Instruction::SubReg { x, y } => {
            let (a, b) = (s.v[x as int], s.v[y as int]);
            Ok(s.set_v_and_flag(x as int, ((a - b) % 256) as u8, if a < b { 0 } else { 1 }))
        },
        Instruction::ShiftRight { x } => {
            let a = s.v[x as int];
            Ok(s.set_v_and_flag(x as int, a / 2, a % 2))
        },
        Instruction::SubReversed { x, y } => {
            let (a, b) = (s.v[x as int], s.v[y as int]);
            Ok(s.set_v_and_flag(x as int, ((b - a) % 256) as u8, if b < a { 0 } else { 1 }))
        },
        Instruction::ShiftLeft { x } => {
            let a = s.v[x as int];
            Ok(s.set_v_and_flag(x as int, ((a * 2) % 256) as u8, a / 128))
        },
        Instruction::SkipIfNotEqualReg { x, y } => Ok(s.skip_if(s.v[x as int] != s.v[y as int])),
        Instruction::SetIndex { addr } => Ok(s.set_i(addr)),
        Instruction::JumpPlusV0 { addr } => Ok(s.set_pc(((addr + s.v[0]) % 0x10000) as u16)),
        Instruction::Random { x, nn } => Ok(s.set_v(x as int, random_byte & nn)),
        Instruction::Draw { x, y, n } => if !sprite_in_memory(s.i as int, n as int) {
            Err(Chip8Error::AddressOutOfRange)
        } else {
            Ok(draw(s, x as int, y as int, n as int))
        },
        Instruction::SkipIfKey { x } => if !is_key(s.v[x as int] as int) {
            Err(Chip8Error::AddressOutOfRange)
        } else {
            Ok(s.skip_if(s.keys[s.v[x as int] as int]))
        },
        Instruction::SkipIfNotKey { x } => if !is_key(s.v[x as int] as int) {
            Err(Chip8Error::AddressOutOfRange)
        } else {
            Ok(s.skip_if(!s.keys[s.v[x as int] as int]))
        },
        Instruction::ReadDelay { x } => Ok(s.set_v(x as int, s.delay)),
        Instruction::WaitKey { x } => if any_key_pressed(s.keys) {
            Ok(s.set_v(x as int, lowest_pressed_key(s.keys) as u8))
        } else {
            Ok(s.set_pc((s.pc - 2) as u16))
        },
        Instruction::SetDelay { x } => Ok(MachineState { delay: s.v[x as int], ..s }),
        Instruction::SetSound { x } => Ok(MachineState { sound: s.v[x as int], ..s }),
        Instruction::AddIndex { x } => Ok(s.set_i(((s.i + s.v[x as int]) % 0x10000) as u16)),
        Instruction::FontSprite { x } => Ok(s.set_i((s.v[x as int] * 5) as u16)),
        Instruction::StoreBcd { x } => if s.i + 2 >= RAM_SIZE {
            Err(Chip8Error::AddressOutOfRange)
        } else {
            Ok(MachineState { memory: store_bcd(s.memory, s.i as int, s.v[x as int]), ..s })
        },
        Instruction::StoreRegisters { x } => if s.i + x >= RAM_SIZE {
            Err(Chip8Error::AddressOutOfRange)
        } else {
            Ok(
                MachineState {
                    memory: store_registers(s.memory, s.v, s.i as int, x as int),
                    ..s
                },
            )
        },
        Instruction::LoadRegisters { x } => if s.i + x >= RAM_SIZE {
            Err(Chip8Error::AddressOutOfRange)
        } else {
            Ok(MachineState { v: load_registers(s.memory, s.v, s.i as int, x as int), ..s })
        },
    }
}

/// One cycle: fetch the word at the counter, move the counter past it, decode
/// and execute. A fault leaves no state behind.
pub open spec fn step(s: MachineState, random_byte: u8) -> Result<MachineState, Chip8Error> {
    if s.pc + 1 >= RAM_SIZE {
        Err(Chip8Error::AddressOutOfRange)
    } else {
        match decode(word_at(s.memory, s.pc as int)) {
            Err(e) => Err(e),
            Ok(ins) => execute(s.set_pc((s.pc + 2) as u16), ins, random_byte),
        }
    }
}

/// One timer tick: each timer above zero goes down by one.
pub open spec fn tick(s: MachineState) -> MachineState {
    MachineState {
        delay: if s.delay > 0 { (s.delay - 1) as u8 } else { 0 },
        sound: if s.sound > 0 { (s.sound - 1) as u8 } else { 0 },
        ..s
    }
}

/// The machine after `n` timer ticks.
pub open spec fn ticks(s: MachineState, n: nat) -> MachineState
    decreases n,
{
    if n == 0 {
        s
    } else {
        tick(ticks(s, (n - 1) as nat))
    }
}

/// What a cycle that returned `r` and left the machine in `after` amounts to.
pub open spec fn outcome(r: Result<(), Chip8Error>, after: MachineState) -> Result<
    MachineState,
    Chip8Error,
> {
    match r {
        Ok(_) => Ok(after),
        Err(e) => Err(e),
    }
}

} // verus!

verus! {

/// The pixel that column `c` of sprite row `r` lands on, drawn from origin
/// (x0, y0), lies on the screen and has offsets `(r, c)`; it is the only
/// pixel with those offsets.
pub proof fn lemma_sprite_target(x0: int, y0: int, r: int, c: int)
    requires
        0 <= x0 < 256,
        0 <= y0 < 256,
        0 <= r < SCREEN_HEIGHT,
        0 <= c < SCREEN_WIDTH,
    ensures
        ({
            let t = (x0 + c) % 64 + ((y0 + r) % 32) * 64;
            &&& 0 <= t < SCREEN_SIZE
            &&& row_offset(t, y0) == r
            &&& col_offset(t, x0) == c
            &&& forall|p: int|
                0 <= p < SCREEN_SIZE && #[trigger] row_offset(p, y0) == r && col_offset(p, x0) == c
                    ==> p == t
        }),
{
    let px = (x0 + c) % 64;
    let py = (y0 + r) % 32;
    let t = px + py * 64;
    let qa = (y0 + r) / 32;
    let qb = (x0 + c) / 64;
    lemma_fundamental_div_mod(y0 + r, 32);
    lemma_fundamental_div_mod(x0 + c, 64);
    lemma_fundamental_div_mod_converse(t, 64, py, px);
    lemma_fundamental_div_mod_converse(py - y0, 32, -qa, r);
    lemma_fundamental_div_mod_converse(px - x0, 64, -qb, c);
    assert forall|p: int|
        0 <= p < SCREEN_SIZE && #[trigger] row_offset(p, y0) == r && col_offset(p, x0) == c
            implies p == t by {
        let qy = p / 64;
        let qx = p % 64;
        lemma_fundamental_div_mod(p, 64);
        let ky = (qy - y0) / 32;
        let kx = (qx - x0) / 64;
        lemma_fundamental_div_mod(qy - y0, 32);
        lemma_fundamental_div_mod(qx - x0, 64);
        assert(qy - py == 32 * (qa + ky));
        assert(qx - px == 64 * (qb + kx));
    }
}

} // verus!
