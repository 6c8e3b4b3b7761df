use crate::error::Chip8Error;
use crate::instruction::{decode, decode_opcode, lemma_decode_in_range, nibble1, Instruction};
use crate::ram::{
    lemma_ram_len, program_fits, with_program, word_at, Ram, RAM_SIZE, START_ADDRESS,
};
use crate::screen::{
    dark_pixels, lemma_screen_len, Screen, SCREEN_HEIGHT, SCREEN_SIZE, SCREEN_WIDTH,
};
use crate::state::{
    col_offset, draw, execute, initial_state, is_lowest_pressed, lemma_sprite_target,
    load_registers, lowest_pressed_key, outcome, row_offset, sprite_bit, sprite_covers, step,
    store_registers, tick, MachineState, FLAG_REGISTER, NUMBER_OF_KEYS, NUMBER_OF_V_REGISTERS,
    STACK_SIZE,
};
use vstd::prelude::*;

verus! {

broadcast use {lemma_ram_len, lemma_screen_len};

/// Relies on rand::random::<u8>: a byte drawn from the thread-local generator.
/// Nothing is promised of its value.
#[verifier::external_body]
fn random_byte() -> u8 {
    rand::random::<u8>()
}

/// The interpreter with its memory, display, registers, stack, timers and keys.
pub struct Emulator {
    program_counter: u16,
    ram: Ram,
    screen: Screen,
    v_registers: [u8; NUMBER_OF_V_REGISTERS],
    i_register: u16,
    stack_pointer: u16,
    stack: [u16; STACK_SIZE],
    keys_pressed: [bool; NUMBER_OF_KEYS],
    delay_timer: u8,
    sound_timer: u8,
}

impl View for Emulator {
    type V = MachineState;

    closed spec fn view(&self) -> MachineState {
        MachineState {
            pc: self.program_counter,
            memory: self.ram@,
            pixels: self.screen@,
            v: self.v_registers@,
            i: self.i_register,
            stack: self.stack@.subrange(0, self.stack_pointer as int),
            keys: self.keys_pressed@,
            delay: self.delay_timer,
            sound: self.sound_timer,
        }
    }
}

impl Emulator {
    /// The stack pointer stays within the stack.
    pub closed spec fn stack_within_bounds(&self) -> bool {
        self.stack_pointer <= STACK_SIZE
    }

    /// The invariant every operation keeps: the stack pointer is in bounds and
    /// the abstract state has the sizes of the machine.
    pub open spec fn wf(&self) -> bool {
        self.stack_within_bounds() && self@.well_formed()
    }
}

/// Whether pixel `p` is covered by a cell of the sprite that `DXYN` draws on
/// `s` which comes before cell (`row`, `col`) in row-major order.
spec fn drawn_so_far(s: MachineState, x: int, y: int, n: int, row: int, col: int, p: int) -> bool {
    let r = row_offset(p, s.v[y] as int);
    let c = col_offset(p, s.v[x] as int);
    &&& sprite_covers(s.memory, s.i as int, n, s.v[x] as int, s.v[y] as int, p)
    &&& (r < row || (r == row && c < col))
}

/// Moving past cell (`row`, `col`) adds to the drawn pixels exactly its
/// target pixel, and that only when the cell's bit is set.
proof fn lemma_drawn_next_cell(s: MachineState, x: int, y: int, n: int, row: int, col: int)
    requires
        s.well_formed(),
        0 <= x < NUMBER_OF_V_REGISTERS,
        0 <= y < NUMBER_OF_V_REGISTERS,
        0 <= row < n < 16,
        s.i + n <= RAM_SIZE,
        0 <= col < 8,
    ensures
        ({
            let t = (s.v[x] + col) % 64 + ((s.v[y] + row) % 32) * 64;
            let bit = sprite_bit(s.memory[s.i + row], col);
            &&& 0 <= t < SCREEN_SIZE
            &&& !drawn_so_far(s, x, y, n, row, col, t)
            &&& forall|p: int|
                0 <= p < SCREEN_SIZE ==> #[trigger] drawn_so_far(s, x, y, n, row, col + 1, p) == (
                drawn_so_far(s, x, y, n, row, col, p) || (bit && p == t))
        }),
{
    lemma_sprite_target(s.v[x] as int, s.v[y] as int, row, col);
}

/// Past the last cell of a row is the start of the next row.
proof fn lemma_drawn_next_row(s: MachineState, x: int, y: int, n: int, row: int)
    ensures
        forall|p: int|
            #[trigger] drawn_so_far(s, x, y, n, row + 1, 0, p) == drawn_so_far(s, x, y, n, row, 8, p),
{
}

/// Past the last row, the drawn pixels are those the sprite covers.
proof fn lemma_drawn_all(s: MachineState, x: int, y: int, n: int)
    ensures
        forall|p: int|
            #[trigger] drawn_so_far(s, x, y, n, n, 0, p) == sprite_covers(
                s.memory,
                s.i as int,
                n,
                s.v[x] as int,
                s.v[y] as int,
                p,
            ),
{
}

impl Emulator {
    pub fn new() -> (r: Emulator)
        ensures
            r.wf(),
            r@ == initial_state(),
    {
        let r = Emulator {
            program_counter: START_ADDRESS,
            ram: Ram::new(),
            screen: Screen::new(),
            v_registers: [0u8; NUMBER_OF_V_REGISTERS],
            i_register: 0,
            stack_pointer: 0,
            stack: [0u16; STACK_SIZE],
            keys_pressed: [false; NUMBER_OF_KEYS],
            delay_timer: 0,
            sound_timer: 0,
        };
        assert(r@.v =~= initial_state().v);
        assert(r@.keys =~= initial_state().keys);
        assert(r@.stack =~= initial_state().stack);
        r
    }

    /// Puts every part of the machine back as `new` made it.
    pub fn reset(&mut self)
        ensures
            final(self).wf(),
            final(self)@ == initial_state(),
    {
        *self = Emulator::new();
    }

    fn clear_screen(&mut self)
        requires
            old(self).wf(),
        ensures
            final(self).wf(),
            final(self)@ == old(self)@.with_pixels(dark_pixels()),
    {
        self.screen.clear_screen();
    }

    /// Runs one decoded instruction on a machine whose counter already points past it.
    fn execute_instruction(&mut self, ins: Instruction, random_byte: u8) -> (r: Result<
        (),
        Chip8Error,
    >)
        requires
            old(self).wf(),
            ins.operands_in_range(),
            2 <= old(self)@.pc <= RAM_SIZE,
        ensures
            final(self).wf(),
            outcome(r, final(self)@) == execute(old(self)@, ins, random_byte),
            r is Err ==> final(self)@ == old(self)@,
    {
        match ins {
            Instruction::Nop => Ok(()),
            Instruction::ClearScreen => {
                self.clear_screen();
                Ok(())
            },
            Instruction::Return => self.return_from_subroutine(),
            Instruction::Jump { addr } => {
                self.jump_to_location(addr);
                Ok(())
            },
            Instruction::Call { addr } => self.call_subroutine_at_location(addr),
            Instruction::SkipIfEqualImm { x, nn } => {
                self.skip_instruction_if_vx_equals_nn(x, nn);
                Ok(())
            },
            Instruction::SkipIfNotEqualImm { x, nn } => {
                self.skip_instruction_if_vx_not_equals_nn(x, nn);
                Ok(())
            },
            Instruction::SkipIfEqualReg { x, y } => {
                self.skip_instruction_if_vx_equals_vy(x, y);
                Ok(())
            },
            Instruction::SetImm { x, nn } => {
                self.set_vx(x, nn);
                Ok(())
            },
            Instruction::AddImm { x, nn } => {
                self.add_vx(x, nn);
                Ok(())
            },
            Instruction::Copy { x, y } => {
                self.copy_vy_into_vx(x, y);
                Ok(())
            },
            Instruction::Or { x, y } => {
                self.bitwise_or_vx_with_vy(x, y);
                Ok(())
            },
            Instruction::And { x, y } => {
                self.bitwise_and_vx_with_vy(x, y);
                Ok(())
            },
            Instruction::Xor { x, y } => {
                self.bitwise_xor_vx_with_vy(x, y);
                Ok(())
            },
            Instruction::AddReg { x, y } => {
                self.add_vx_with_vy_with_carry(x, y);
                Ok(())
            },
            Instruction::SubReg { x, y } => {
                self.subtract_vx_with_vy_with_borrow(x, y);
                Ok(())
            },
            Instruction::ShiftRight { x } => {
                self.bit_shift_right_vx(x);
                Ok(())
            },
            Instruction::SubReversed { x, y } => {
                self.subtract_vy_with_vx_store_in_vx_with_borrow(x, y);
                Ok(())
            },
            Instruction::ShiftLeft { x } => {
                self.bit_shift_left_vx(x);
                Ok(())
            },
            Instruction::SkipIfNotEqualReg { x, y } => {
                self.skip_instruction_if_vx_not_equals_vy(x, y);
                Ok(())
            },
            Instruction::SetIndex { addr } => {
                self.set_i(addr);
                Ok(())
            },
            Instruction::JumpPlusV0 { addr } => {
                self.jump_to_location_plus_v0(addr);
                Ok(())
            },
            Instruction::Random { x, nn } => {
                self.set_vx_with_random_value_and_nn(x, nn, random_byte);
                Ok(())
            },
            Instruction::Draw { x, y, n } => self.draw_sprite(x, y, n),
            Instruction::SkipIfKey { x } => self.skip_instruction_if_key_vx_is_pressed(x),
            Instruction::SkipIfNotKey { x } => self.skip_instruction_if_key_vx_is_not_pressed(x),
            Instruction::ReadDelay { x } => {
                self.copy_delay_timer_into_vx(x);
                Ok(())
            },
            Instruction::WaitKey { x } => {
                self.wait_for_key_press_and_store_key_value_in_vx(x);
                Ok(())
            },
            Instruction::SetDelay { x } => {
                self.copy_vx_into_delay_timer(x);
                Ok(())
            },
            Instruction::SetSound { x } => {
                self.copy_vx_into_sound_timer(x);
                Ok(())
            },
            Instruction::AddIndex { x } => {
                self.add_i_with_vx(x);
                Ok(())
            },
            Instruction::FontSprite { x } => {
                self.set_location_of_sprite_for_vx(x);
                Ok(())
            },
            Instruction::StoreBcd { x } => self.store_bcd_of_vx_in_ram(x),
            Instruction::StoreRegisters { x } => self.write_registers_v0_to_vx_in_ram_starting_at_i(x),
            Instruction::LoadRegisters { x } => self.read_registers_v0_to_vx_from_ram_starting_at_i(
                x,
            ),
        }
    }

    /// Decodes `op_code` and runs it; an unknown word is an `UnknownOpcode` fault.
    fn decode_and_execute(&mut self, op_code: u16, random_byte: u8) -> (r: Result<(), Chip8Error>)
        requires
            old(self).wf(),
            2 <= old(self)@.pc <= RAM_SIZE,
        ensures
            final(self).wf(),
            outcome(r, final(self)@) == (match decode(op_code) {
                Ok(ins) => execute(old(self)@, ins, random_byte),
                Err(e) => Err(e),
            }),
            r is Err ==> final(self)@ == old(self)@,
    {
        proof {
            lemma_decode_in_range(op_code);
        }
        match decode_opcode(op_code) {
            Ok(ins) => self.execute_instruction(ins, random_byte),
            Err(e) => Err(e),
        }
    }

    /// Reads the instruction word at the counter and moves the counter past it.
    fn fetch(&mut self) -> (r: Result<u16, Chip8Error>)
        requires
            old(self).wf(),
        ensures
            final(self).wf(),
            old(self)@.pc + 1 < RAM_SIZE ==> {
                &&& r == Ok::<u16, Chip8Error>(word_at(old(self)@.memory, old(self)@.pc as int))
                &&& final(self)@ == old(self)@.set_pc((old(self)@.pc + 2) as u16)
            },
            old(self)@.pc + 1 >= RAM_SIZE ==> {
                &&& r == Err::<u16, Chip8Error>(Chip8Error::AddressOutOfRange)
                &&& final(self)@ == old(self)@
            },
    {
        match self.ram.fetch_opcode(self.program_counter as usize) {
            Ok(op_code) => {
                self.program_counter = self.program_counter + 2;
                Ok(op_code)
            },
            Err(e) => Err(e),
        }
    }

    /// One fetch-decode-execute cycle in which opcode `CXNN` uses
    /// `random_byte`. A faulting cycle leaves the machine as it was.
    pub fn cycle_with_random_byte(&mut self, random_byte: u8) -> (r: Result<(), Chip8Error>)
        requires
            old(self).wf(),
        ensures
            final(self).wf(),
            outcome(r, final(self)@) == step(old(self)@, random_byte),
            r is Err ==> final(self)@ == old(self)@,
    {
        let start = self.program_counter;
        match self.fetch() {
            Ok(op_code) => {
                let r = self.decode_and_execute(op_code, random_byte);
                if r.is_err() {
                    self.program_counter = start;
                }
                r
            },
            Err(e) => Err(e),
        }
    }

    /// Whether the instruction at the counter is `CXNN`, the one opcode that draws a random byte.
    fn next_needs_random_byte(&self) -> (r: bool)
        requires
            self.wf(),
        ensures
            r == (self@.pc + 1 < RAM_SIZE && nibble1(word_at(self@.memory, self@.pc as int)) == 0xC),
    {
        match self.ram.fetch_opcode(self.program_counter as usize) {
            Ok(op_code) => {
                assert(op_code >> 12u16 == op_code / 4096) by (bit_vector);
                op_code >> 12u16 == 0xC
            },
            Err(_) => false,
        }
    }

    /// One fetch-decode-execute cycle; opcode `CXNN` draws its byte from the
    /// thread-local random generator. A faulting cycle leaves the machine as it was.
    pub fn cycle(&mut self) -> (r: Result<(), Chip8Error>)
        requires
            old(self).wf(),
        ensures
            final(self).wf(),
            exists|b: u8| outcome(r, final(self)@) == #[trigger] step(old(self)@, b),
            r is Err ==> final(self)@ == old(self)@,
    {
        let random_byte = if self.next_needs_random_byte() {
            random_byte()
        } else {
            0
        };
        self.cycle_with_random_byte(random_byte)
    }

    /// Copies a program image to memory from the program start on.
    pub fn load_rom(&mut self, rom: &[u8]) -> (r: Result<(), Chip8Error>)
        requires
            old(self).wf(),
        ensures
            final(self).wf(),
            program_fits(rom@.len() as int) ==> {
                &&& r == Ok::<(), Chip8Error>(())
                &&& final(self)@ == old(self)@.with_memory(with_program(old(self)@.memory, rom@))
            },
            !program_fits(rom@.len() as int) ==> {
                &&& r == Err::<(), Chip8Error>(Chip8Error::ProgramTooLarge)
                &&& final(self)@ == old(self)@
            },
    {
        self.ram.load_rom(rom)
    }

    /// The display, row-major: pixel `(x, y)` is at `x + y * 64`.
    pub fn get_display(&self) -> (r: &[bool])
        ensures
            r@ == self@.pixels,
    {
        self.screen.get_pixels()
    }

    /// Records whether key `index` is held down.
    pub fn set_key_press(&mut self, index: usize, pressed: bool)
        requires
            old(self).wf(),
            index < NUMBER_OF_KEYS,
        ensures
            final(self).wf(),
            final(self)@ == old(self)@.with_keys(old(self)@.keys.update(index as int, pressed)),
    {
        self.keys_pressed[index] = pressed;
    }

    /// One timer tick: each of the delay and sound timers above zero goes down by one.
    pub fn tick_timers(&mut self)
        requires
            old(self).wf(),
        ensures
            final(self).wf(),
            final(self)@ == tick(old(self)@),
    {
        if self.delay_timer > 0 {
            self.delay_timer = self.delay_timer - 1;
        }
        if self.sound_timer > 0 {
            self.sound_timer = self.sound_timer - 1;
        }
    }

    fn push(&mut self, value: u16) -> (r: Result<(), Chip8Error>)
        requires
            old(self).wf(),
        ensures
            final(self).wf(),
            old(self)@.stack.len() < STACK_SIZE ==> {
                &&& r == Ok::<(), Chip8Error>(())
                &&& final(self)@ == old(self)@.with_stack(old(self)@.stack.push(value))
            },
            old(self)@.stack.len() >= STACK_SIZE ==> {
                &&& r == Err::<(), Chip8Error>(Chip8Error::StackOverflow)
                &&& final(self)@ == old(self)@
            },
    {
        if self.stack_pointer as usize >= STACK_SIZE {
            return Err(Chip8Error::StackOverflow);
        }
        self.stack[self.stack_pointer as usize] = value;
        self.stack_pointer = self.stack_pointer + 1;
        assert(self@.stack =~= old(self)@.stack.push(value));
        Ok(())
    }

    fn pop(&mut self) -> (r: Result<u16, Chip8Error>)
        requires
            old(self).wf(),
        ensures
            final(self).wf(),
            old(self)@.stack.len() > 0 ==> {
                &&& r == Ok::<u16, Chip8Error>(old(self)@.stack.last())
                &&& final(self)@ == old(self)@.with_stack(old(self)@.stack.drop_last())
            },
            old(self)@.stack.len() == 0 ==> {
                &&& r == Err::<u16, Chip8Error>(Chip8Error::StackUnderflow)
                &&& final(self)@ == old(self)@
            },
    {
        if self.stack_pointer == 0 {
            return Err(Chip8Error::StackUnderflow);
        }
        self.stack_pointer = self.stack_pointer - 1;
        assert(self@.stack =~= old(self)@.stack.drop_last());
        Ok(self.stack[self.stack_pointer as usize])
    }

    fn return_from_subroutine(&mut self) -> (r: Result<(), Chip8Error>)
        requires
            old(self).wf(),
        ensures
            final(self).wf(),
            outcome(r, final(self)@) == execute(old(self)@, Instruction::Return, 0),
            r is Err ==> final(self)@ == old(self)@,
    {
        match self.pop() {
            Ok(return_address) => {
                self.program_counter = return_address;
                Ok(())
            },
            Err(e) => Err(e),
        }
    }

    fn jump_to_location(&mut self, location: u16)
        requires
            old(self).wf(),
        ensures
            final(self).wf(),
            final(self)@ == old(self)@.set_pc(location),
    {
        self.program_counter = location;
    }

    fn call_subroutine_at_location(&mut self, location: u16) -> (r: Result<(), Chip8Error>)
        requires
            old(self).wf(),
        ensures
            final(self).wf(),
            outcome(r, final(self)@) == execute(old(self)@, Instruction::Call { addr: location }, 0),
            r is Err ==> final(self)@ == old(self)@,
    {
        match self.push(self.program_counter) {
            Ok(()) => {
                self.program_counter = location;
                Ok(())
            },
            Err(e) => Err(e),
        }
    }

    /// Moves the counter past the next instruction when `cond` holds.
    fn skip_if(&mut self, cond: bool)
        requires
            old(self).wf(),
            old(self)@.pc <= RAM_SIZE,
        ensures
            final(self).wf(),
            final(self)@ == old(self)@.skip_if(cond),
    {
        if cond {
            self.program_counter = self.program_counter + 2;
        }
    }

    fn skip_instruction_if_vx_equals_nn(&mut self, vx: usize, nn: u8)
        requires
            old(self).wf(),
            old(self)@.pc <= RAM_SIZE,
            vx < NUMBER_OF_V_REGISTERS,
        ensures
            final(self).wf(),
            final(self)@ == old(self)@.skip_if(old(self)@.v[vx as int] == nn),
    {
        let cond = self.v_registers[vx] == nn;
        self.skip_if(cond);
    }

    fn skip_instruction_if_vx_not_equals_nn(&mut self, vx: usize, nn: u8)
        requires
            old(self).wf(),
            old(self)@.pc <= RAM_SIZE,
            vx < NUMBER_OF_V_REGISTERS,
        ensures
            final(self).wf(),
            final(self)@ == old(self)@.skip_if(old(self)@.v[vx as int] != nn),
    {
        let cond = self.v_registers[vx] != nn;
        self.skip_if(cond);
    }

    fn skip_instruction_if_vx_equals_vy(&mut self, vx: usize, vy: usize)
        requires
            old(self).wf(),
            old(self)@.pc <= RAM_SIZE,
            vx < NUMBER_OF_V_REGISTERS,
            vy < NUMBER_OF_V_REGISTERS,
        ensures
            final(self).wf(),
            final(self)@ == old(self)@.skip_if(old(self)@.v[vx as int] == old(self)@.v[vy as int]),
    {
        let cond = self.v_registers[vx] == self.v_registers[vy];
        self.skip_if(cond);
    }

    fn skip_instruction_if_vx_not_equals_vy(&mut self, vx: usize, vy: usize)
        requires
            old(self).wf(),
            old(self)@.pc <= RAM_SIZE,
            vx < NUMBER_OF_V_REGISTERS,
            vy < NUMBER_OF_V_REGISTERS,
        ensures
            final(self).wf(),
            final(self)@ == old(self)@.skip_if(old(self)@.v[vx as int] != old(self)@.v[vy as int]),
    {
        let cond = self.v_registers[vx] != self.v_registers[vy];
        self.skip_if(cond);
    }

    fn set_vx(&mut self, vx: usize, nn: u8)
        requires
            old(self).wf(),
            vx < NUMBER_OF_V_REGISTERS,
        ensures
            final(self).wf(),
            final(self)@ == old(self)@.set_v(vx as int, nn),
    {
        self.v_registers[vx] = nn;
    }

    fn add_vx(&mut self, vx: usize, nn: u8)
        requires
            old(self).wf(),
            vx < NUMBER_OF_V_REGISTERS,
        ensures
            final(self).wf(),
            final(self)@ == old(self)@.set_v(vx as int, ((old(self)@.v[vx as int] + nn) % 256) as u8),
    {
        let sum = self.v_registers[vx] as u16 + nn as u16;
        self.v_registers[vx] = (sum % 256) as u8;
    }

    fn copy_vy_into_vx(&mut self, vx: usize, vy: usize)
        requires
            old(self).wf(),
            vx < NUMBER_OF_V_REGISTERS,
            vy < NUMBER_OF_V_REGISTERS,
        ensures
            final(self).wf(),
            final(self)@ == old(self)@.set_v(vx as int, old(self)@.v[vy as int]),
    {
        self.v_registers[vx] = self.v_registers[vy];
    }

    fn bitwise_or_vx_with_vy(&mut self, vx: usize, vy: usize)
        requires
            old(self).wf(),
            vx < NUMBER_OF_V_REGISTERS,
            vy < NUMBER_OF_V_REGISTERS,
        ensures
            final(self).wf(),
            final(self)@ == old(self)@.set_v(
                vx as int,
                old(self)@.v[vx as int] | old(self)@.v[vy as int],
            ),
    {
        self.v_registers[vx] = self.v_registers[vx] | self.v_registers[vy];
    }

    fn bitwise_and_vx_with_vy(&mut self, vx: usize, vy: usize)
        requires
            old(self).wf(),
            vx < NUMBER_OF_V_REGISTERS,
            vy < NUMBER_OF_V_REGISTERS,
        ensures
            final(self).wf(),
            final(self)@ == old(self)@.set_v(
                vx as int,
                old(self)@.v[vx as int] & old(self)@.v[vy as int],
            ),
    {
        self.v_registers[vx] = self.v_registers[vx] & self.v_registers[vy];
    }

    fn bitwise_xor_vx_with_vy(&mut self, vx: usize, vy: usize)
        requires
            old(self).wf(),
            vx < NUMBER_OF_V_REGISTERS,
            vy < NUMBER_OF_V_REGISTERS,
        ensures
            final(self).wf(),
            final(self)@ == old(self)@.set_v(
                vx as int,
                old(self)@.v[vx as int] ^ old(self)@.v[vy as int],
            ),
    {
        self.v_registers[vx] = self.v_registers[vx] ^ self.v_registers[vy];
    }

    /// VX := VX + VY, wrapping; VF := 1 when the sum passed 255, else 0.
    fn add_vx_with_vy_with_carry(&mut self, vx: usize, vy: usize)
        requires
            old(self).wf(),
            vx < NUMBER_OF_V_REGISTERS,
            vy < NUMBER_OF_V_REGISTERS,
        ensures
            final(self).wf(),
            execute(old(self)@, Instruction::AddReg { x: vx, y: vy }, 0) == Ok::<MachineState, Chip8Error>(final(self)@),
    {
        let sum = self.v_registers[vx] as u16 + self.v_registers[vy] as u16;
        self.v_registers[vx] = (sum % 256) as u8;
        self.v_registers[FLAG_REGISTER] = if sum > 255 { 1 } else { 0 };
    }

    /// VX := VX - VY, wrapping; VF := 0 when it borrowed, else 1.
    fn subtract_vx_with_vy_with_borrow(&mut self, vx: usize, vy: usize)
        requires
            old(self).wf(),
            vx < NUMBER_OF_V_REGISTERS,
            vy < NUMBER_OF_V_REGISTERS,
        ensures
            final(self).wf(),
            execute(old(self)@, Instruction::SubReg { x: vx, y: vy }, 0) == Ok::<MachineState, Chip8Error>(final(self)@),
    {
        let a = self.v_registers[vx];
        let b = self.v_registers[vy];
        let borrowed = a < b;
        self.v_registers[vx] = ((a as u16 + 256 - b as u16) % 256) as u8;
        self.v_registers[FLAG_REGISTER] = if borrowed { 0 } else { 1 };
    }

    /// VF := the low bit of VX; VX := VX >> 1. VY takes no part.
    fn bit_shift_right_vx(&mut self, vx: usize)
        requires
            old(self).wf(),
            vx < NUMBER_OF_V_REGISTERS,
        ensures
            final(self).wf(),
            execute(old(self)@, Instruction::ShiftRight { x: vx }, 0) == Ok::<MachineState, Chip8Error>(final(self)@),
    {
        let a = self.v_registers[vx];
        let least_significant_bit = a & 1;
        assert(a & 1 == a % 2 && a >> 1 == a / 2) by (bit_vector);
        self.v_registers[vx] = a >> 1;
        self.v_registers[FLAG_REGISTER] = least_significant_bit;
    }

    /// VX := VY - VX, wrapping; VF := 0 when it borrowed, else 1.
    fn subtract_vy_with_vx_store_in_vx_with_borrow(&mut self, vx: usize, vy: usize)
        requires
            old(self).wf(),
            vx < NUMBER_OF_V_REGISTERS,
            vy < NUMBER_OF_V_REGISTERS,
        ensures
            final(self).wf(),
            execute(old(self)@, Instruction::SubReversed { x: vx, y: vy }, 0) == Ok::<MachineState, Chip8Error>(final(self)@),
    {
        let a = self.v_registers[vx];
        let b = self.v_registers[vy];
        let borrowed = b < a;
        self.v_registers[vx] = ((b as u16 + 256 - a as u16) % 256) as u8;
        self.v_registers[FLAG_REGISTER] = if borrowed { 0 } else { 1 };
    }

    /// VF := the high bit of VX; VX := VX << 1, wrapping. VY takes no part.
    fn bit_shift_left_vx(&mut self, vx: usize)
        requires
            old(self).wf(),
            vx < NUMBER_OF_V_REGISTERS,
        ensures
            final(self).wf(),
            execute(old(self)@, Instruction::ShiftLeft { x: vx }, 0) == Ok::<MachineState, Chip8Error>(final(self)@),
    {
        let a = self.v_registers[vx];
        let most_significant_bit = (a >> 7) & 1;
        assert((a >> 7) & 1 == a / 128 && a << 1 == (a * 2) % 256) by (bit_vector);
        self.v_registers[vx] = a << 1;
        self.v_registers[FLAG_REGISTER] = most_significant_bit;
    }

    fn set_i(&mut self, value: u16)
        requires
            old(self).wf(),
        ensures
            final(self).wf(),
            final(self)@ == old(self)@.set_i(value),
    {
        self.i_register = value;
    }

    fn jump_to_location_plus_v0(&mut self, location: u16)
        requires
            old(self).wf(),
        ensures
            final(self).wf(),
            final(self)@ == old(self)@.set_pc(((location + old(self)@.v[0]) % 0x10000) as u16),
    {
        self.program_counter = location.wrapping_add(self.v_registers[0] as u16);
    }

    /// VX := `random_byte` & NN.
    fn set_vx_with_random_value_and_nn(&mut self, vx: usize, nn: u8, random_byte: u8)
        requires
            old(self).wf(),
            vx < NUMBER_OF_V_REGISTERS,
        ensures
            final(self).wf(),
            final(self)@ == old(self)@.set_v(vx as int, random_byte & nn),
    {
        self.v_registers[vx] = random_byte & nn;
    }

    fn skip_instruction_if_key_vx_is_pressed(&mut self, vx: usize) -> (r: Result<(), Chip8Error>)
        requires
            old(self).wf(),
            old(self)@.pc <= RAM_SIZE,
            vx < NUMBER_OF_V_REGISTERS,
        ensures
            final(self).wf(),
            outcome(r, final(self)@) == execute(old(self)@, Instruction::SkipIfKey { x: vx }, 0),
            r is Err ==> final(self)@ == old(self)@,
    {
        let key = self.v_registers[vx] as usize;
        if key >= NUMBER_OF_KEYS {
            return Err(Chip8Error::AddressOutOfRange);
        }
        let cond = self.keys_pressed[key];
        self.skip_if(cond);
        Ok(())
    }

    fn skip_instruction_if_key_vx_is_not_pressed(&mut self, vx: usize) -> (r: Result<
        (),
        Chip8Error,
    >)
        requires
            old(self).wf(),
            old(self)@.pc <= RAM_SIZE,
            vx < NUMBER_OF_V_REGISTERS,
        ensures
            final(self).wf(),
            outcome(r, final(self)@) == execute(old(self)@, Instruction::SkipIfNotKey { x: vx }, 0),
            r is Err ==> final(self)@ == old(self)@,
    {
        let key = self.v_registers[vx] as usize;
        if key >= NUMBER_OF_KEYS {
            return Err(Chip8Error::AddressOutOfRange);
        }
        let cond = !self.keys_pressed[key];
        self.skip_if(cond);
        Ok(())
    }

    fn copy_delay_timer_into_vx(&mut self, vx: usize)
        requires
            old(self).wf(),
            vx < NUMBER_OF_V_REGISTERS,
        ensures
            final(self).wf(),
            final(self)@ == old(self)@.set_v(vx as int, old(self)@.delay),
    {
        self.v_registers[vx] = self.delay_timer;
    }

    /// Stores the lowest pressed key in VX; with no key pressed, moves the
    /// counter back so that this instruction runs again on the next cycle.
    fn wait_for_key_press_and_store_key_value_in_vx(&mut self, vx: usize)
        requires
            old(self).wf(),
            old(self)@.pc >= 2,
            vx < NUMBER_OF_V_REGISTERS,
        ensures
            final(self).wf(),
            execute(old(self)@, Instruction::WaitKey { x: vx }, 0) == Ok::<MachineState, Chip8Error>(final(self)@),
    {
        let mut k: usize = 0;
        while k < NUMBER_OF_KEYS
            invariant
                k <= NUMBER_OF_KEYS,
                vx < NUMBER_OF_V_REGISTERS,
                old(self).wf(),
                old(self)@.pc >= 2,
                *self == *old(self),
                forall|j: int| 0 <= j < k ==> !#[trigger] self@.keys[j],
            decreases NUMBER_OF_KEYS - k,
        {
            if self.keys_pressed[k] {
                proof {
                    let keys = self@.keys;
                    assert(is_lowest_pressed(keys, k as int));
                    assert(is_lowest_pressed(keys, lowest_pressed_key(keys)));
                    let l = lowest_pressed_key(keys);
                    assert(!(l < k) && !(k < l));
                }
                self.v_registers[vx] = k as u8;
                return;
            }
            k = k + 1;
        }
        self.program_counter = self.program_counter - 2;
    }

    fn copy_vx_into_delay_timer(&mut self, vx: usize)
        requires
            old(self).wf(),
            vx < NUMBER_OF_V_REGISTERS,
        ensures
            final(self).wf(),
            final(self)@ == old(self)@.with_delay(old(self)@.v[vx as int]),
    {
        self.delay_timer = self.v_registers[vx];
    }

    fn copy_vx_into_sound_timer(&mut self, vx: usize)
        requires
            old(self).wf(),
            vx < NUMBER_OF_V_REGISTERS,
        ensures
            final(self).wf(),
            final(self)@ == old(self)@.with_sound(old(self)@.v[vx as int]),
    {
        self.sound_timer = self.v_registers[vx];
    }

    fn add_i_with_vx(&mut self, vx: usize)
        requires
            old(self).wf(),
            vx < NUMBER_OF_V_REGISTERS,
        ensures
            final(self).wf(),
            final(self)@ == old(self)@.set_i(((old(self)@.i + old(self)@.v[vx as int]) % 0x10000) as u16),
    {
        self.i_register = self.i_register.wrapping_add(self.v_registers[vx] as u16);
    }

    /// I := the address of the font sprite of digit VX, which is `5 * VX`.
    fn set_location_of_sprite_for_vx(&mut self, vx: usize)
        requires
            old(self).wf(),
            vx < NUMBER_OF_V_REGISTERS,
        ensures
            final(self).wf(),
            final(self)@ == old(self)@.set_i((old(self)@.v[vx as int] * 5) as u16),
    {
        self.i_register = self.v_registers[vx] as u16 * 5;
    }

    /// Writes the hundreds, tens and ones digits of VX at I, I + 1 and I + 2.
    fn store_bcd_of_vx_in_ram(&mut self, vx: usize) -> (r: Result<(), Chip8Error>)
        requires
            old(self).wf(),
            vx < NUMBER_OF_V_REGISTERS,
        ensures
            final(self).wf(),
            outcome(r, final(self)@) == execute(old(self)@, Instruction::StoreBcd { x: vx }, 0),
            r is Err ==> final(self)@ == old(self)@,
    {
        let base = self.i_register as usize;
        if base + 2 >= RAM_SIZE {
            return Err(Chip8Error::AddressOutOfRange);
        }
        let value = self.v_registers[vx];
        let hundreds = value / 100;
        let tens = (value / 10) % 10;
        let ones = value % 10;
        let _ = self.ram.write_byte(base, hundreds);
        let _ = self.ram.write_byte(base + 1, tens);
        let _ = self.ram.write_byte(base + 2, ones);
        Ok(())
    }

    /// Writes V0 ..= VX to memory from I on.
    fn write_registers_v0_to_vx_in_ram_starting_at_i(&mut self, vx: usize) -> (r: Result<
        (),
        Chip8Error,
    >)
        requires
            old(self).wf(),
            vx < NUMBER_OF_V_REGISTERS,
        ensures
            final(self).wf(),
            outcome(r, final(self)@) == execute(
                old(self)@,
                Instruction::StoreRegisters { x: vx },
                0,
            ),
            r is Err ==> final(self)@ == old(self)@,
    {
        let base = self.i_register as usize;
        if base + vx >= RAM_SIZE {
            return Err(Chip8Error::AddressOutOfRange);
        }
        let mut k: usize = 0;
        while k <= vx
            invariant
                base == old(self)@.i,
                base + vx < RAM_SIZE,
                vx < NUMBER_OF_V_REGISTERS,
                k <= vx + 1,
                self@ == old(self)@.with_memory(self@.memory),
                self.wf(),
                self@.memory.len() == RAM_SIZE,
                forall|a: int|
                    #![trigger self@.memory[a]]
                    0 <= a < RAM_SIZE ==> self@.memory[a] == (if base <= a < base + k {
                        old(self)@.v[a - base]
                    } else {
                        old(self)@.memory[a]
                    }),
            decreases vx + 1 - k,
        {
            let _ = self.ram.write_byte(base + k, self.v_registers[k]);
            k = k + 1;
        }
        assert(self@.memory =~= store_registers(
            old(self)@.memory,
            old(self)@.v,
            base as int,
            vx as int,
        ));
        Ok(())
    }

    /// Reads V0 ..= VX from memory from I on.
    fn read_registers_v0_to_vx_from_ram_starting_at_i(&mut self, vx: usize) -> (r: Result<
        (),
        Chip8Error,
    >)
        requires
            old(self).wf(),
            vx < NUMBER_OF_V_REGISTERS,
        ensures
            final(self).wf(),
            outcome(r, final(self)@) == execute(old(self)@, Instruction::LoadRegisters { x: vx }, 0),
            r is Err ==> final(self)@ == old(self)@,
    {
        let base = self.i_register as usize;
        if base + vx >= RAM_SIZE {
            return Err(Chip8Error::AddressOutOfRange);
        }
        let mut k: usize = 0;
        while k <= vx
            invariant
                base == old(self)@.i,
                base + vx < RAM_SIZE,
                vx < NUMBER_OF_V_REGISTERS,
                k <= vx + 1,
                self@ == old(self)@.with_registers(self@.v),
                self.wf(),
                self@.v.len() == NUMBER_OF_V_REGISTERS,
                forall|j: int|
                    #![trigger self@.v[j]]
                    0 <= j < NUMBER_OF_V_REGISTERS ==> self@.v[j] == (if j < k {
                        old(self)@.memory[base + j]
                    } else {
                        old(self)@.v[j]
                    }),
            decreases vx + 1 - k,
        {
            match self.ram.read_byte(base + k) {
                Ok(byte) => {
                    self.v_registers[k] = byte;
                },
                Err(_) => {},
            }
            k = k + 1;
        }
        assert(self@.v =~= load_registers(old(self)@.memory, old(self)@.v, base as int, vx as int));
        Ok(())
    }

    /// Draws the `sprite_height`-row sprite stored at I with its top-left
    /// corner at (VX, VY), wrapping at the screen edges: each set bit flips
    /// its pixel, and VF := 1 when some pixel that was lit is turned off.
    fn draw_sprite(&mut self, vx: usize, vy: usize, sprite_height: u8) -> (r: Result<
        (),
        Chip8Error,
    >)
        requires
            old(self).wf(),
            vx < NUMBER_OF_V_REGISTERS,
            vy < NUMBER_OF_V_REGISTERS,
            sprite_height < 16,
        ensures
            final(self).wf(),
            outcome(r, final(self)@) == execute(
                old(self)@,
                Instruction::Draw { x: vx, y: vy, n: sprite_height },
                0,
            ),
            r is Err ==> final(self)@ == old(self)@,
    {
        let base = self.i_register as usize;
        let height = sprite_height as usize;
        if height > 0 && base + height > RAM_SIZE {
            return Err(Chip8Error::AddressOutOfRange);
        }
        let x0 = self.v_registers[vx] as usize;
        let y0 = self.v_registers[vy] as usize;
        let ghost s = old(self)@;
        let mut any_pixels_flipped = false;
        let mut row: usize = 0;
        while row < height
            invariant
                s == old(self)@,
                s.well_formed(),
                self.wf(),
                vx < NUMBER_OF_V_REGISTERS,
                vy < NUMBER_OF_V_REGISTERS,
                base == s.i,
                height == sprite_height,
                height < 16,
                height == 0 || base + height <= RAM_SIZE,
                x0 == s.v[vx as int],
                y0 == s.v[vy as int],
                row <= height,
                self@ == s.with_pixels(self@.pixels),
                self@.pixels.len() == SCREEN_SIZE,
                forall|p: int|
                    #![trigger self@.pixels[p]]
                    0 <= p < SCREEN_SIZE ==> self@.pixels[p] == (s.pixels[p] != drawn_so_far(
                        s,
                        vx as int,
                        vy as int,
                        height as int,
                        row as int,
                        0,
                        p,
                    )),
                any_pixels_flipped == exists|p: int|
                    0 <= p < SCREEN_SIZE && #[trigger] drawn_so_far(
                        s,
                        vx as int,
                        vy as int,
                        height as int,
                        row as int,
                        0,
                        p,
                    ) && s.pixels[p],
            decreases height - row,
        {
            let sprite_row = match self.ram.read_byte(base + row) {
                Ok(byte) => byte,
                Err(_) => 0,
            };
            let mut col: u8 = 0;
            while col < 8
                invariant
                    s == old(self)@,
                    s.well_formed(),
                    self.wf(),
                    vx < NUMBER_OF_V_REGISTERS,
                    vy < NUMBER_OF_V_REGISTERS,
                    base == s.i,
                    height == sprite_height,
                    height < 16,
                    base + height <= RAM_SIZE,
                    x0 == s.v[vx as int],
                    y0 == s.v[vy as int],
                    row < height,
                    sprite_row == s.memory[base + row],
                    col <= 8,
                    self@ == s.with_pixels(self@.pixels),
                    self@.pixels.len() == SCREEN_SIZE,
                    forall|p: int|
                        #![trigger self@.pixels[p]]
                        0 <= p < SCREEN_SIZE ==> self@.pixels[p] == (s.pixels[p] != drawn_so_far(
                            s,
                            vx as int,
                            vy as int,
                            height as int,
                            row as int,
                            col as int,
                            p,
                        )),
                    any_pixels_flipped == exists|p: int|
                        0 <= p < SCREEN_SIZE && #[trigger] drawn_so_far(
                            s,
                            vx as int,
                            vy as int,
                            height as int,
                            row as int,
                            col as int,
                            p,
                        ) && s.pixels[p],
                decreases 8 - col,
            {
                proof {
                    lemma_drawn_next_cell(s, vx as int, vy as int, height as int, row as int, col as int);
                }
                let target = (x0 + col as usize) % SCREEN_WIDTH + ((y0 + row) % SCREEN_HEIGHT)
                    * SCREEN_WIDTH;
                let ghost before_any = any_pixels_flipped;
                let ghost c = col as int;
                let ghost h = height as int;
                let ghost (gx, gy, gr) = (vx as int, vy as int, row as int);
                if sprite_row & (0x80u8 >> col) != 0 {
                    let was_lit = match self.screen.xor_pixel(target) {
                        Ok(b) => b,
                        Err(_) => false,
                    };
                    any_pixels_flipped = any_pixels_flipped || was_lit;
                }
                col = col + 1;
                proof {
                    if any_pixels_flipped {
                        if before_any {
                            let w = choose|p: int|
                                0 <= p < SCREEN_SIZE && #[trigger] drawn_so_far(s, gx, gy, h, gr, c, p)
                                    && s.pixels[p];
                            assert(drawn_so_far(s, gx, gy, h, gr, c + 1, w));
                        } else {
                            assert(drawn_so_far(s, gx, gy, h, gr, c + 1, target as int));
                        }
                    } else {
                        assert forall|p: int|
                            0 <= p < SCREEN_SIZE && #[trigger] drawn_so_far(s, gx, gy, h, gr, c + 1, p)
                                implies !s.pixels[p] by {
                            if p != target {
                                assert(drawn_so_far(s, gx, gy, h, gr, c, p));
                            }
                        }
                    }
                }
            }
            proof {
                let (gx, gy, h, gr) = (vx as int, vy as int, height as int, row as int);
                lemma_drawn_next_row(s, gx, gy, h, gr);
                if any_pixels_flipped {
                    let w = choose|p: int|
                        0 <= p < SCREEN_SIZE && #[trigger] drawn_so_far(s, gx, gy, h, gr, 8, p)
                            && s.pixels[p];
                    assert(drawn_so_far(s, gx, gy, h, gr + 1, 0, w));
                } else {
                    assert forall|p: int|
                        0 <= p < SCREEN_SIZE && #[trigger] drawn_so_far(s, gx, gy, h, gr + 1, 0, p)
                            implies !s.pixels[p] by {
                        assert(drawn_so_far(s, gx, gy, h, gr, 8, p));
                    }
                }
            }
            row = row + 1;
        }
        proof {
            let h = height as int;
            lemma_drawn_all(s, vx as int, vy as int, h);
            assert(self@.pixels =~= draw(s, vx as int, vy as int, h).pixels);
            if any_pixels_flipped {
                let w = choose|p: int|
                    0 <= p < SCREEN_SIZE && #[trigger] drawn_so_far(s, vx as int, vy as int, h, h, 0, p)
                        && s.pixels[p];
                assert(sprite_covers(s.memory, s.i as int, h, x0 as int, y0 as int, w));
            } else {
                assert forall|p: int|
                    0 <= p < SCREEN_SIZE && #[trigger] sprite_covers(s.memory, s.i as int, h, x0 as int, y0 as int, p)
                        implies !s.pixels[p] by {
                    assert(drawn_so_far(s, vx as int, vy as int, h, h, 0, p));
                }
            }
        }
        self.v_registers[FLAG_REGISTER] = if any_pixels_flipped { 1 } else { 0 };
        Ok(())
    }

    pub fn program_counter(&self) -> (r: u16)
        ensures
            r == self@.pc,
    {
        self.program_counter
    }

    /// The value of register V`index`.
    pub fn v_register(&self, index: usize) -> (r: u8)
        requires
            index < NUMBER_OF_V_REGISTERS,
        ensures
            r == self@.v[index as int],
    {
        self.v_registers[index]
    }

    pub fn i_register(&self) -> (r: u16)
        ensures
            r == self@.i,
    {
        self.i_register
    }

    pub fn delay_timer(&self) -> (r: u8)
        ensures
            r == self@.delay,
    {
        self.delay_timer
    }

    pub fn sound_timer(&self) -> (r: u8)
        ensures
            r == self@.sound,
    {
        self.sound_timer
    }

    /// Number of return addresses on the stack.
    pub fn stack_depth(&self) -> (r: usize)
        requires
            self.wf(),
        ensures
            r == self@.stack.len(),
    {
        self.stack_pointer as usize
    }

    /// The byte at memory address `address`.
    pub fn memory_byte(&self, address: usize) -> (r: Result<u8, Chip8Error>)
        ensures
            address < RAM_SIZE ==> r == Ok::<u8, Chip8Error>(self@.memory[address as int]),
            address >= RAM_SIZE ==> r == Err::<u8, Chip8Error>(Chip8Error::AddressOutOfRange),
    {
        self.ram.read_byte(address)
    }
}

} // verus!
