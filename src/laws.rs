//! Properties that relate several operations of the machine, proved over the
//! abstract state.
use crate::error::Chip8Error;
use crate::instruction::{decode, Instruction};
use crate::ram::{program_fits, with_program, word_at, RAM_SIZE, START_ADDRESS};
use crate::screen::SCREEN_SIZE;
use crate::state::{
    any_key_pressed, draw, execute, is_lowest_pressed, lemma_sprite_target, lowest_pressed_key,
    sprite_bit, sprite_covers, step, ticks, MachineState, FLAG_REGISTER, NUMBER_OF_V_REGISTERS,
};
use vstd::prelude::*;

verus! {

/// A program loaded into memory starts with the big-endian word of its first two bytes.
pub proof fn lemma_fetch_after_load(memory: Seq<u8>, rom: Seq<u8>)
    requires
        memory.len() == RAM_SIZE,
        2 <= rom.len(),
        program_fits(rom.len() as int),
    ensures
        word_at(with_program(memory, rom), START_ADDRESS as int) == rom[0] * 256 + rom[1],
{
}

/// Where the counter stands after a cycle that ran `ins` from state `s`:
/// past the instruction, unless `ins` sets it.
pub open spec fn counter_after(s: MachineState, ins: Instruction) -> int {
    let next = s.pc + 2;
    match ins {
        Instruction::Jump { addr } => addr as int,
        Instruction::Call { addr } => addr as int,
        Instruction::Return => s.stack.last() as int,
        Instruction::JumpPlusV0 { addr } => (addr + s.v[0]) % 0x10000,
        Instruction::SkipIfEqualImm { x, nn } => if s.v[x as int] == nn {
            next + 2
        } else {
            next
        },
        Instruction::SkipIfNotEqualImm { x, nn } => if s.v[x as int] != nn {
            next + 2
        } else {
            next
        },
        Instruction::SkipIfEqualReg { x, y } => if s.v[x as int] == s.v[y as int] {
            next + 2
        } else {
            next
        },
        Instruction::SkipIfNotEqualReg { x, y } => if s.v[x as int] != s.v[y as int] {
            next + 2
        } else {
            next
        },
        Instruction::SkipIfKey { x } => if s.keys[s.v[x as int] as int] {
            next + 2
        } else {
            next
        },
        Instruction::SkipIfNotKey { x } => if !s.keys[s.v[x as int] as int] {
            next + 2
        } else {
            next
        },
        Instruction::WaitKey { .. } => if any_key_pressed(s.keys) {
            next
        } else {
            s.pc as int
        },
        _ => next,
    }
}

/// After every cycle that completes, the counter has advanced by exactly 2,
/// except for the instructions that set it, which leave it at their target.
pub proof fn lemma_counter_after_cycle(s: MachineState, random_byte: u8)
    requires
        s.well_formed(),
    ensures
        ({
            &&& step(s, random_byte) matches Ok(t)
            ==> {
                &&& decode(word_at(s.memory, s.pc as int)) matches Ok(ins)
                &&& t.pc == counter_after(s, ins)
            }
        }),
{
}

/// Drawing a sprite that has a set bit twice from the same origin on a dark
/// screen: the first draw reports no collision, the second reports one and
/// turns every pixel off again.
pub proof fn lemma_draw_twice(s: MachineState, x: usize, y: usize, n: u8, row: int, col: int)
    requires
        s.well_formed(),
        x < FLAG_REGISTER,
        y < FLAG_REGISTER,
        0 < n < 16,
        s.i + n <= RAM_SIZE,
        forall|p: int| 0 <= p < SCREEN_SIZE ==> !#[trigger] s.pixels[p],
        0 <= row < n,
        0 <= col < 8,
        sprite_bit(s.memory[s.i + row], col),
    ensures
        ({
            &&& execute(s, Instruction::Draw { x, y, n }, 0) matches Ok(t1)
            &&& t1.v[FLAG_REGISTER as int] == 0
            &&& execute(t1, Instruction::Draw { x, y, n }, 0) matches Ok(t2)
            &&& t2.v[FLAG_REGISTER as int] == 1
            &&& t2.pixels == s.pixels
        }),
{
    let t1 = draw(s, x as int, y as int, n as int);
    let (x0, y0) = (s.v[x as int] as int, s.v[y as int] as int);
    assert(t1.v[x as int] == x0 && t1.v[y as int] == y0);
    assert(!(exists|p: int|
        0 <= p < SCREEN_SIZE && #[trigger] sprite_covers(s.memory, s.i as int, n as int, x0, y0, p)
            && s.pixels[p]));
    let t2 = draw(t1, x as int, y as int, n as int);
    lemma_sprite_target(x0, y0, row, col);
    let target = (x0 + col) % 64 + ((y0 + row) % 32) * 64;
    assert(sprite_covers(t1.memory, t1.i as int, n as int, x0, y0, target));
    assert(t1.pixels[target]);
    assert(t2.pixels =~= s.pixels);
}

/// `n` cycles in a row, with no random byte needed beyond zero.
pub open spec fn run(s: MachineState, n: nat) -> Result<MachineState, Chip8Error>
    decreases n,
{
    if n == 0 {
        Ok(s)
    } else {
        match run(s, (n - 1) as nat) {
            Ok(t) => step(t, 0),
            Err(e) => Err(e),
        }
    }
}

/// On a key-wait instruction `FX0A` with no key pressed, a cycle leaves the
/// machine exactly as it was (the counter steps back over the instruction),
/// so any number of cycles makes no progress. Once a key is pressed, VX
/// receives the lowest pressed key and the counter moves past the instruction.
pub proof fn lemma_key_wait(s: MachineState, x: usize, random_byte: u8, n: nat)
    requires
        s.well_formed(),
        s.pc + 1 < RAM_SIZE,
        decode(word_at(s.memory, s.pc as int)) == Ok::<Instruction, Chip8Error>(
            Instruction::WaitKey { x },
        ),
    ensures
        !any_key_pressed(s.keys) ==> step(s, random_byte) == Ok::<MachineState, Chip8Error>(s),
        !any_key_pressed(s.keys) ==> run(s, n) == Ok::<MachineState, Chip8Error>(s),
        any_key_pressed(s.keys) ==> {
            let k = lowest_pressed_key(s.keys);
            &&& is_lowest_pressed(s.keys, k)
            &&& step(s, random_byte) == Ok::<MachineState, Chip8Error>(
                s.set_v(x as int, k as u8).set_pc((s.pc + 2) as u16),
            )
        },
    decreases n,
{
    if !any_key_pressed(s.keys) {
        assert(step(s, random_byte) == Ok::<MachineState, Chip8Error>(s));
        if n > 0 {
            lemma_key_wait(s, x, random_byte, (n - 1) as nat);
        }
    } else {
        let w = choose|k: int| 0 <= k < 16 && #[trigger] s.keys[k];
        lemma_lowest_key_exists(s.keys, w);
    }
}

/// When some key is pressed, there is a lowest pressed key.
proof fn lemma_lowest_key_exists(keys: Seq<bool>, k: int)
    requires
        0 <= k < 16,
        keys[k],
    ensures
        is_lowest_pressed(keys, lowest_pressed_key(keys)),
    decreases k,
{
    if exists|j: int| 0 <= j < k && #[trigger] keys[j] {
        let j = choose|j: int| 0 <= j < k && #[trigger] keys[j];
        lemma_lowest_key_exists(keys, j);
    } else {
        assert(is_lowest_pressed(keys, k));
    }
}

/// Each timer goes down by one per tick and stops at zero: after `n` ticks it
/// holds its old value minus `n`, or zero if that would be negative.
pub proof fn lemma_timers_floor_at_zero(s: MachineState, n: nat)
    ensures
        ticks(s, n).delay == (if s.delay >= n { s.delay - n } else { 0 }),
        ticks(s, n).sound == (if s.sound >= n { s.sound - n } else { 0 }),
    decreases n,
{
    if n > 0 {
        lemma_timers_floor_at_zero(s, (n - 1) as nat);
    }
}

/// Storing V0 ..= VX from I on and later loading V0 ..= VX from the same I
/// brings back the stored values, whatever the registers held in between.
pub proof fn lemma_store_load_round_trip(
    s: MachineState,
    x: usize,
    between: Seq<u8>,
    random_byte: u8,
)
    requires
        s.well_formed(),
        x < NUMBER_OF_V_REGISTERS,
        s.i + x < RAM_SIZE,
        between.len() == NUMBER_OF_V_REGISTERS,
    ensures
        ({
            &&& execute(s, Instruction::StoreRegisters { x }, random_byte) matches Ok(t)
            &&& execute(t.with_registers(between), Instruction::LoadRegisters { x }, random_byte)
                matches Ok(u)
            &&& forall|j: int| 0 <= j <= x ==> #[trigger] u.v[j] == s.v[j]
            &&& forall|j: int| x < j < NUMBER_OF_V_REGISTERS ==> #[trigger] u.v[j] == between[j]
        }),
{
}

} // verus!
