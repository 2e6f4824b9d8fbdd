use vstd::prelude::*;

use crate::bits::{bit_at, lemma_and_nonzero, lemma_xor_bits, BitArray};
use crate::instruction::Instruction;
use crate::machine::{
    blank_screen, executed_as, in_sprite, lemma_added, lemma_subtracted, readings_of, Machine,
};

verus! {

/// Where the sixteen font sprites start in memory.
pub const FONT_OFFSET: u8 = 50;

/// The length in bytes of one font sprite.
pub const FONT_SPRITE_LEN: u8 = 5;

/// Where programs are loaded, and where execution starts.
pub const MEM_OFFSET: u16 = 0x200;

/// The number of bytes of memory.
pub const MEMORY_SIZE: usize = 4096;

/// The number of framebuffer columns.
pub const SCREEN_WIDTH: usize = 64;

/// The number of framebuffer rows.
pub const SCREEN_HEIGHT: usize = 32;

/// The flag register VF.
pub const FLAG: u8 = 0xF;

/// The font sprites of the digits 0 to F, five bytes each.
pub open spec fn font_sprites() -> Seq<u8> {
    seq![
        0xF0u8, 0x90, 0x90, 0x90, 0xF0,
        0x20, 0x60, 0x20, 0x20, 0x70,
        0xF0, 0x10, 0xF0, 0x80, 0xF0,
        0xF0, 0x10, 0xF0, 0x10, 0xF0,
        0x90, 0x90, 0xF0, 0x10, 0x10,
        0xF0, 0x80, 0xF0, 0x10, 0xF0,
        0xF0, 0x80, 0xF0, 0x90, 0xF0,
        0xF0, 0x10, 0x20, 0x40, 0x40,
        0xF0, 0x90, 0xF0, 0x90, 0xF0,
        0xF0, 0x90, 0xF0, 0x10, 0xF0,
        0xF0, 0x90, 0xF0, 0x90, 0x90,
        0xE0, 0x90, 0xE0, 0x90, 0xE0,
        0xF0, 0x80, 0x80, 0x80, 0xF0,
        0xE0, 0x90, 0x90, 0x90, 0xE0,
        0xF0, 0x80, 0xF0, 0x80, 0xF0,
        0xF0, 0x80, 0xF0, 0x80, 0x80,
    ]
}

/// Receives the framebuffer whenever its visible state changes.
pub trait Display {
    fn draw(&self, display: [[bool; 32]; 64]);
}

/// Reports the state of the sixteen keys.
pub trait Input {
    /// Blocks until some key is pressed, and returns its code.
    fn wait_for_key(&self) -> u8;

    /// Whether the key `key` is pressed at this moment.
    fn is_key_pressed(&self, key: u8) -> bool;
}

/// A fatal condition that stops the machine.
#[derive(PartialEq, Eq, Structural, Debug, Clone, Copy)]
pub enum Chip8Error {
    /// An instruction was to be fetched from past the end of memory.
    OutOfMemory,
    /// The index register pointed a memory access past the end of memory.
    IndexOutOfRange,
    /// A return was executed with an empty call stack.
    StackUnderflow,
    /// The instruction family (its first nibble) is not one the machine knows.
    UnknownInstruction(u8),
}

/// What one executed instruction asks of the world around the machine.
#[derive(PartialEq, Eq, Structural, Debug, Clone, Copy)]
pub enum Outcome {
    /// Nothing.
    Continue,
    /// The framebuffer changed; it is for the caller to hand it to the display.
    Redraw,
    /// The delay timer is to be set to this value.
    SetDelayTimer(u8),
    /// The sound timer is to be set to this value.
    SetSoundTimer(u8),
}

/// What an instruction needs to hear from the world around the machine
/// before it can run.
#[derive(PartialEq, Eq, Structural, Debug, Clone, Copy)]
pub enum Request {
    /// Nothing.
    Nothing,
    /// Whether this key is pressed now.
    KeyState(u8),
    /// The next key pressed; waits until there is one.
    KeyWait,
    /// The current value of the delay timer.
    DelayTimer,
}

/// The answer to a `Request`.
#[derive(PartialEq, Eq, Structural, Debug, Clone, Copy)]
pub enum Reply {
    Nothing,
    KeyState(bool),
    Key(u8),
    DelayTimer(u8),
}

/// The values that the world around the machine reports for one instruction.
#[derive(PartialEq, Eq, Structural, Debug, Clone, Copy)]
pub struct Readings {
    /// The current value of the delay timer.
    pub delay_timer: u8,
    /// A random byte.
    pub random: u8,
    /// Whether the key named by register VX is pressed.
    pub key_pressed: bool,
    /// The key that a wait for a key press returned.
    pub key: u8,
}

/// Relies on `rand::random::<u8>` (rand 0.8): a byte from the thread-local
/// generator. Nothing is known of its value.
#[verifier::external_body]
fn random_byte() -> u8 {
    rand::random::<u8>()
}

/// Selects between the legacy and the SUPER-CHIP behaviour of the shifts.
struct Chip8Options {
    super_chip: bool,
}

/// The machine: memory, registers, call stack, framebuffer, and the two
/// collaborators that it reads keys from and shows the framebuffer to.
pub struct Chip8<T: Input, D: Display> {
    ram: [u8; 4096],
    display: [[bool; 32]; 64],
    pc: u16,
    i: u16,
    stack: Vec<u16>,
    registers: [u8; 16],
    options: Chip8Options,
    input: T,
    display_output: D,
}

impl<T: Input, D: Display> View for Chip8<T, D> {
    type V = Machine;

    closed spec fn view(&self) -> Machine {
        Machine {
            ram: self.ram@,
            display: Seq::new(64, |x: int| self.display[x]@),
            pc: self.pc,
            i: self.i,
            stack: self.stack@,
            registers: self.registers@,
            super_chip: self.options.super_chip,
        }
    }
}

impl<T: Input, D: Display> Chip8<T, D> {
    /// Memory, registers and framebuffer of every machine have their fixed sizes.
    pub proof fn lemma_wf(&self)
        ensures
            self@.wf(),
    {
    }

    /// A machine with the legacy shift behaviour.
    pub fn new(input: T, display: D) -> (r: Chip8<T, D>)
        ensures
            r@ == Machine::initial(false),
    {
        Self::with_quirks(input, display, false)
    }

    /// A machine whose shifts follow SUPER-CHIP when `super_chip` holds, the
    /// original machine otherwise.
    pub fn with_quirks(input: T, display: D, super_chip: bool) -> (r: Chip8<T, D>)
        ensures
            r@ == Machine::initial(super_chip),
    {
        let fonts: [u8; 80] = [
            0xF0, 0x90, 0x90, 0x90, 0xF0,
            0x20, 0x60, 0x20, 0x20, 0x70,
            0xF0, 0x10, 0xF0, 0x80, 0xF0,
            0xF0, 0x10, 0xF0, 0x10, 0xF0,
            0x90, 0x90, 0xF0, 0x10, 0x10,
            0xF0, 0x80, 0xF0, 0x10, 0xF0,
            0xF0, 0x80, 0xF0, 0x90, 0xF0,
            0xF0, 0x10, 0x20, 0x40, 0x40,
            0xF0, 0x90, 0xF0, 0x90, 0xF0,
            0xF0, 0x90, 0xF0, 0x10, 0xF0,
            0xF0, 0x90, 0xF0, 0x90, 0x90,
            0xE0, 0x90, 0xE0, 0x90, 0xE0,
            0xF0, 0x80, 0x80, 0x80, 0xF0,
            0xE0, 0x90, 0x90, 0x90, 0xE0,
            0xF0, 0x80, 0xF0, 0x80, 0xF0,
            0xF0, 0x80, 0xF0, 0x80, 0x80,
        ];
        assert(fonts@ =~= font_sprites());
        let mut ram: [u8; 4096] = [0u8; 4096];
        let mut k: usize = 0;
        while k < 80
            invariant
                k <= 80,
                fonts@ == font_sprites(),
                forall|a: int|
                    0 <= a < 4096 ==> #[trigger] ram[a] == if FONT_OFFSET <= a < FONT_OFFSET + k {
                        font_sprites()[a - FONT_OFFSET]
                    } else {
                        0u8
                    },
            decreases 80 - k,
        {
            ram[k + 50] = fonts[k];
            k = k + 1;
        }
        let r = Chip8 {
            ram,
            display: [[false; 32]; 64],
            pc: MEM_OFFSET,
            i: 0,
            stack: Vec::new(),
            registers: [0u8; 16],
            options: Chip8Options { super_chip },
            input,
            display_output: display,
        };
        assert(r@.ram =~= Machine::initial(super_chip).ram);
        assert(r@.registers =~= Machine::initial(super_chip).registers);
        assert(r@.display =~~= blank_screen());
        r
    }

    /// Copies `buffer` into memory from the program area on and starts
    /// execution there.
    pub fn load_rom_bytes(&mut self, buffer: Vec<u8>)
        requires
            buffer.len() <= MEMORY_SIZE - MEM_OFFSET,
        ensures
            final(self)@ == old(self)@.loaded(buffer@),
    {
        let mut k: usize = 0;
        while k < buffer.len()
            invariant
                k <= buffer.len() <= MEMORY_SIZE - MEM_OFFSET,
                self.display == old(self).display,
                self.stack == old(self).stack,
                self.registers == old(self).registers,
                self.i == old(self).i,
                self.options.super_chip == old(self).options.super_chip,
                forall|a: int|
                    0 <= a < 4096 ==> #[trigger] self.ram[a] == if MEM_OFFSET <= a < MEM_OFFSET + k {
                        buffer@[a - MEM_OFFSET]
                    } else {
                        old(self).ram[a]
                    },
            decreases buffer.len() - k,
        {
            self.ram[k + 0x200] = buffer[k];
            k = k + 1;
        }
        self.pc = MEM_OFFSET;
        assert(self@.ram =~= old(self)@.loaded(buffer@).ram);
    }

    /// Reads the two bytes at PC, advances PC past them and decodes them.
    pub fn fetch_instruction(&mut self) -> (r: Result<Instruction, Chip8Error>)
        ensures
            old(self)@.can_fetch() ==> {
                &&& r is Ok
                &&& r->Ok_0.decodes(
                    old(self)@.ram[old(self)@.pc as int],
                    old(self)@.ram[old(self)@.pc + 1],
                )
                &&& r->Ok_0.wf()
                &&& final(self)@ == old(self)@.fetched()
            },
            !old(self)@.can_fetch() ==> r == Err::<Instruction, Chip8Error>(
                Chip8Error::OutOfMemory,
            ) && final(self)@ == old(self)@,
    {
        if self.pc as usize + 1 >= MEMORY_SIZE {
            return Err(Chip8Error::OutOfMemory);
        }
        let first_byte = self.ram[self.pc as usize];
        self.pc = self.pc + 1;
        let second_byte = self.ram[self.pc as usize];
        self.pc = self.pc + 1;
        Ok(Instruction::new(first_byte, second_byte))
    }

    /// The program counter.
    pub fn pc(&self) -> (r: u16)
        ensures
            r == self@.pc,
    {
        self.pc
    }

    /// The index register I.
    pub fn index(&self) -> (r: u16)
        ensures
            r == self@.i,
    {
        self.i
    }

    /// The byte of memory at `address`.
    pub fn memory(&self, address: usize) -> (r: u8)
        requires
            address < MEMORY_SIZE,
        ensures
            r == self@.ram[address as int],
    {
        self.ram[address]
    }

    /// The number of return addresses on the call stack.
    pub fn stack_depth(&self) -> (r: usize)
        ensures
            r == self@.stack.len(),
    {
        self.stack.len()
    }

    /// A copy of the framebuffer.
    pub fn display(&self) -> (r: [[bool; 32]; 64])
        ensures
            forall|x: int, y: int|
                0 <= x < 64 && 0 <= y < 32 ==> #[trigger] r[x][y] == self@.display[x][y],
    {
        self.display
    }

    /// The pixel in column `x`, row `y`.
    pub fn pixel(&self, x: usize, y: usize) -> (r: bool)
        requires
            x < SCREEN_WIDTH,
            y < SCREEN_HEIGHT,
        ensures
            r == self@.display[x as int][y as int],
    {
        self.display[x][y]
    }

    /// Turns the pixel in column `x`, row `y` on or off.
    pub fn set_pixel(&mut self, x: usize, y: usize, on: bool)
        requires
            x < SCREEN_WIDTH,
            y < SCREEN_HEIGHT,
        ensures
            final(self)@ == (Machine {
                display: old(self)@.display.update(
                    x as int,
                    old(self)@.display[x as int].update(y as int, on),
                ),
                ..old(self)@
            }),
    {
        self.display[x][y] = on;
        assert(self@.display =~= old(self)@.display.update(
            x as int,
            old(self)@.display[x as int].update(y as int, on),
        ));
    }

    /// The value of register `register` (its low nibble picks the register).
    pub fn register_get_value(&self, register: u8) -> (r: u8)
        ensures
            r == self@.reg(register as int % 16),
    {
        assert(register & 0xF == register % 16) by (bit_vector);
        self.registers[(register & 0xF) as usize]
    }

    fn register_set_value(&mut self, register: u8, value: u8)
        requires
            register < 16,
        ensures
            final(self)@ == old(self)@.set_reg(register as int, value),
    {
        self.registers[register as usize] = value;
    }

    fn set_index_register(&mut self, value: u16)
        ensures
            final(self)@ == old(self)@.with_index(value),
    {
        self.i = value;
    }

    /// `VX := VX + value`, wrapping, flags untouched.
    fn register_add_value(&mut self, register: u8, value: u8)
        requires
            register < 16,
        ensures
            final(self)@ == old(self)@.set_reg(
                register as int,
                ((old(self)@.reg(register as int) + value) % 256) as u8,
            ),
    {
        let a = self.registers[register as usize];
        let sum = a.wrapping_add(value);
        self.registers[register as usize] = sum;
    }

    fn register_set(&mut self, register_a: u8, register_b: u8)
        requires
            register_a < 16,
            register_b < 16,
        ensures
            final(self)@ == old(self)@.set_reg(register_a as int, old(self)@.reg(register_b as int)),
    {
        self.registers[register_a as usize] = self.registers[register_b as usize];
    }

    fn register_or(&mut self, register_a: u8, register_b: u8)
        requires
            register_a < 16,
            register_b < 16,
        ensures
            final(self)@ == old(self)@.set_reg(
                register_a as int,
                old(self)@.reg(register_a as int) | old(self)@.reg(register_b as int),
            ),
    {
        self.registers[register_a as usize] = self.registers[register_a as usize]
            | self.registers[register_b as usize];
    }

    fn register_and(&mut self, register_a: u8, register_b: u8)
        requires
            register_a < 16,
            register_b < 16,
        ensures
            final(self)@ == old(self)@.set_reg(
                register_a as int,
                old(self)@.reg(register_a as int) & old(self)@.reg(register_b as int),
            ),
    {
        self.registers[register_a as usize] = self.registers[register_a as usize]
            & self.registers[register_b as usize];
    }

    fn register_xor(&mut self, register_a: u8, register_b: u8)
        requires
            register_a < 16,
            register_b < 16,
        ensures
            final(self)@ == old(self)@.set_reg(
                register_a as int,
                old(self)@.reg(register_a as int) ^ old(self)@.reg(register_b as int),
            ),
    {
        self.registers[register_a as usize] = self.registers[register_a as usize]
            ^ self.registers[register_b as usize];
    }

    fn register_add(&mut self, register_a: u8, register_b: u8)
        requires
            register_a < 16,
            register_b < 16,
        ensures
            final(self)@ == old(self)@.added(register_a as int, register_b as int),
            register_a != FLAG ==> {
                let a = old(self)@.reg(register_a as int);
                let b = old(self)@.reg(register_b as int);
                &&& final(self)@.reg(register_a as int) == (a + b) % 256
                &&& final(self)@.reg(FLAG as int) == if a + b > 255 {
                    1u8
                } else {
                    0u8
                }
                &&& forall|r: int|
                    0 <= r < 16 && r != register_a && r != FLAG ==> #[trigger] final(self)@.reg(r)
                        == old(self)@.reg(r)
            },
    {
        proof {
            if register_a != FLAG {
                lemma_added(self@, register_a as int, register_b as int);
            }
        }
        let a = self.registers[register_a as usize];
        let b = self.registers[register_b as usize];
        let overflows = a as u16 + b as u16 > 255;
        let result = a.wrapping_add(b);
        self.register_set_value(FLAG, if overflows { 1 } else { 0 });
        self.register_set_value(register_a, result);
    }

    fn register_subtract(&mut self, register_a: u8, register_b: u8)
        requires
            register_a < 16,
            register_b < 16,
        ensures
            final(self)@ == old(self)@.subtracted(register_a as int, register_b as int),
            register_a != FLAG ==> {
                let a = old(self)@.reg(register_a as int);
                let b = old(self)@.reg(register_b as int);
                &&& final(self)@.reg(register_a as int) == (a - b) % 256
                &&& final(self)@.reg(FLAG as int) == if a >= b {
                    1u8
                } else {
                    0u8
                }
                &&& forall|r: int|
                    0 <= r < 16 && r != register_a && r != FLAG ==> #[trigger] final(self)@.reg(r)
                        == old(self)@.reg(r)
            },
    {
        proof {
            if register_a != FLAG {
                lemma_subtracted(self@, register_a as int, register_b as int);
            }
        }
        let a = self.registers[register_a as usize];
        let b = self.registers[register_b as usize];
        let overflows = a < b;
        let result = a.wrapping_sub(b);
        self.register_set_value(FLAG, if overflows { 0 } else { 1 });
        self.register_set_value(register_a, result);
    }

    fn register_left_shift(&mut self, register_a: u8, register_b: u8)
        requires
            register_a < 16,
            register_b < 16,
        ensures
            final(self)@ == old(self)@.shifted_left(register_a as int, register_b as int),
    {
        // The legacy machine shifts a copy of VY; SUPER-CHIP shifts VX in place.
        let a = if self.options.super_chip {
            self.registers[register_a as usize]
        } else {
            self.registers[register_b as usize]
        };
        let shifted: u8 = a << 1;
        assert(shifted == (a * 2) % 256) by (bit_vector)
            requires
                shifted == a << 1,
        ;
        self.register_set_value(register_a, shifted);
        if a >= 128 {
            self.register_set_value(FLAG, 1);
        } else {
            self.register_set_value(FLAG, 0);
        }
    }

    fn register_right_shift(&mut self, register_a: u8, register_b: u8)
        requires
            register_a < 16,
            register_b < 16,
        ensures
            final(self)@ == old(self)@.shifted_right(register_a as int, register_b as int),
    {
        // The legacy machine shifts a copy of VY; SUPER-CHIP shifts VX in place.
        let a = if self.options.super_chip {
            self.registers[register_a as usize]
        } else {
            self.registers[register_b as usize]
        };
        let shifted: u8 = a >> 1;
        assert(shifted == a / 2) by (bit_vector)
            requires
                shifted == a >> 1,
        ;
        self.register_set_value(register_a, shifted);
        self.register_set_value(FLAG, a % 2);
    }

    /// Skips the next instruction when `cond` holds.
    fn skip_if(&mut self, cond: bool)
        ensures
            final(self)@ == old(self)@.skip_if(cond),
    {
        if cond {
            // PC wraps at 16 bits, as every address register does.
            self.pc = if self.pc >= 0xFFFE { self.pc - 0xFFFE } else { self.pc + 2 };
        }
    }

    fn skip_if_equals(&mut self, a: u8, b: u8)
        ensures
            final(self)@ == old(self)@.skip_if(a == b),
    {
        self.skip_if(a == b);
    }

    fn skip_if_not_equals(&mut self, a: u8, b: u8)
        ensures
            final(self)@ == old(self)@.skip_if(a != b),
    {
        self.skip_if(a != b);
    }

    fn jump(&mut self, location: u16)
        ensures
            final(self)@ == old(self)@.jumped(location),
    {
        self.pc = location;
    }

    /// Jumps to `location + V0`.
    fn jump_with_offset(&mut self, location: u16)
        requires
            location <= 0xFFF,
        ensures
            final(self)@ == old(self)@.jumped((location + old(self)@.reg(0)) as u16),
    {
        let offset = self.registers[0] as u16;
        self.jump(offset + location);
    }

    fn call_subroutine(&mut self, address: u16)
        ensures
            final(self)@ == old(self)@.called(address),
    {
        self.stack.push(self.pc);
        self.pc = address;
    }

    fn subroutine_return(&mut self) -> (r: Result<(), Chip8Error>)
        ensures
            old(self)@.returned() is Some ==> r is Ok && final(self)@ == old(
                self,
            )@.returned()->Some_0,
            old(self)@.returned() is None ==> r == Err::<(), Chip8Error>(Chip8Error::StackUnderflow)
                && final(self)@ == old(self)@,
    {
        match self.stack.pop() {
            Some(address) => {
                self.pc = address;
                Ok(())
            },
            None => Err(Chip8Error::StackUnderflow),
        }
    }

    fn clear_screen(&mut self)
        ensures
            final(self)@ == old(self)@.cleared(),
    {
        self.display = [[false; 32]; 64];
        assert(self@.display =~~= blank_screen());
    }

    /// `I := I + VX`; VF := 1 when the sum passes the last address, else 0.
    fn add_to_index(&mut self, register: u8)
        requires
            register < 16,
        ensures
            final(self)@ == old(self)@.added_to_index(register as int),
    {
        let value = self.registers[register as usize] as u16;
        let i = self.i.wrapping_add(value);
        let past_end = self.i as usize + value as usize > 0xFFF;
        self.i = i;
        self.register_set_value(FLAG, if past_end { 1 } else { 0 });
    }

    /// Points I at the font sprite of the digit in the low nibble of VX.
    fn set_index_register_to_font(&mut self, register_font: u8)
        requires
            register_font < 16,
        ensures
            final(self)@ == old(self)@.index_to_font(register_font as int),
    {
        let f = self.registers[register_font as usize] % 16;
        self.set_index_register((f * FONT_SPRITE_LEN + FONT_OFFSET) as u16);
    }

    /// Stores the three decimal digits of VX at I, I+1 and I+2.
    fn decimal_conversion(&mut self, register: u8) -> (r: Result<(), Chip8Error>)
        requires
            register < 16,
        ensures
            old(self)@.index_fits(3) ==> r is Ok && final(self)@ == old(self)@.decimal_stored(
                register as int,
            ),
            !old(self)@.index_fits(3) ==> r == Err::<(), Chip8Error>(Chip8Error::IndexOutOfRange)
                && final(self)@ == old(self)@,
    {
        let at = self.i as usize;
        if at + 3 > MEMORY_SIZE {
            return Err(Chip8Error::IndexOutOfRange);
        }
        let value = self.registers[register as usize];
        self.ram[at] = value / 100;
        self.ram[at + 1] = (value / 10) % 10;
        self.ram[at + 2] = value % 10;
        Ok(())
    }

    /// Copies V0..=VX to memory from I on.
    fn ram_store(&mut self, value: u8) -> (r: Result<(), Chip8Error>)
        requires
            value < 16,
        ensures
            old(self)@.index_fits(value + 1) ==> r is Ok && final(self)@ == old(
                self,
            )@.registers_stored(value as int),
            !old(self)@.index_fits(value + 1) ==> r == Err::<(), Chip8Error>(
                Chip8Error::IndexOutOfRange,
            ) && final(self)@ == old(self)@,
    {
        let at = self.i as usize;
        if at + value as usize + 1 > MEMORY_SIZE {
            return Err(Chip8Error::IndexOutOfRange);
        }
        let mut x: usize = 0;
        while x <= value as usize
            invariant
                value < 16,
                at == self.i,
                at + value + 1 <= MEMORY_SIZE,
                x <= value + 1,
                self.display == old(self).display,
                self.stack == old(self).stack,
                self.registers == old(self).registers,
                self.i == old(self).i,
                self.pc == old(self).pc,
                self.options.super_chip == old(self).options.super_chip,
                forall|a: int|
                    0 <= a < 4096 ==> #[trigger] self.ram[a] == if at <= a < at + x {
                        self.registers[a - at]
                    } else {
                        old(self).ram[a]
                    },
            decreases value + 1 - x,
        {
            self.ram[at + x] = self.registers[x];
            x = x + 1;
        }
        assert(self@.ram =~= old(self)@.registers_stored(value as int).ram);
        Ok(())
    }

    /// Loads V0..=VX from memory from I on.
    fn ram_load(&mut self, value: u8) -> (r: Result<(), Chip8Error>)
        requires
            value < 16,
        ensures
            old(self)@.index_fits(value + 1) ==> r is Ok && final(self)@ == old(
                self,
            )@.registers_loaded(value as int),
            !old(self)@.index_fits(value + 1) ==> r == Err::<(), Chip8Error>(
                Chip8Error::IndexOutOfRange,
            ) && final(self)@ == old(self)@,
    {
        let at = self.i as usize;
        if at + value as usize + 1 > MEMORY_SIZE {
            return Err(Chip8Error::IndexOutOfRange);
        }
        let mut x: usize = 0;
        while x <= value as usize
            invariant
                value < 16,
                at == self.i,
                at + value + 1 <= MEMORY_SIZE,
                x <= value + 1,
                self.display == old(self).display,
                self.stack == old(self).stack,
                self.ram == old(self).ram,
                self.i == old(self).i,
                self.pc == old(self).pc,
                self.options.super_chip == old(self).options.super_chip,
                forall|r: int|
                    0 <= r < 16 ==> #[trigger] self.registers[r] == if r < x {
                        self.ram[at + r]
                    } else {
                        old(self).registers[r]
                    },
            decreases value + 1 - x,
        {
            self.registers[x] = self.ram[at + x];
            x = x + 1;
        }
        assert(self@.registers =~= old(self)@.registers_loaded(value as int).registers);
        Ok(())
    }

    /// XOR-composes one sprite byte onto one framebuffer byte; the flag tells
    /// whether some lit pixel was turned off.
    pub fn draw_sprite_row(&self, sprite_row: u8, display_row: u8) -> (r: (u8, bool))
        ensures
            r.0 == sprite_row ^ display_row,
            r.1 == (sprite_row & display_row != 0),
            forall|k: u8| k < 8 ==> #[trigger] bit_at(r.0, k) == (bit_at(sprite_row, k) != bit_at(display_row, k)),
            r.1 <==> exists|k: u8| k < 8 && #[trigger] bit_at(sprite_row, k) && bit_at(display_row, k),
    {
        proof {
            lemma_xor_bits(sprite_row, display_row);
            lemma_and_nonzero(sprite_row, display_row);
        }
        let new_row = sprite_row ^ display_row;
        let turned_off_pixels = display_row & sprite_row;
        assert(display_row & sprite_row == sprite_row & display_row) by (bit_vector);
        (new_row, turned_off_pixels > 0)
    }

    /// The eight pixels of row `y` from column `x` on, as a byte whose most
    /// significant bit is column `x`; columns past the right edge read as off.
    pub fn get_display_row(&self, x: usize, y: usize) -> (r: u8)
        requires
            x < SCREEN_WIDTH,
            y < SCREEN_HEIGHT,
        ensures
            forall|k: u8|
                k < 8 ==> #[trigger] bit_at(r, k) == (x + k < 64 && self@.display[x + k][y as int]),
    {
        let mut row: [bool; 8] = [false; 8];
        let mut k: usize = 0;
        while k < 8
            invariant
                x < 64,
                y < 32,
                k <= 8,
                forall|j: int| 0 <= j < k ==> #[trigger] row[j] == (x + j < 64 && self.display[x + j][y as int]),
            decreases 8 - k,
        {
            if x + k < SCREEN_WIDTH {
                row[k] = self.display[x + k][y];
            } else {
                row[k] = false;
            }
            k = k + 1;
        }
        u8::from_bit_array(row)
    }

    /// Writes the eight bits of `row` to row `y` from column `x` on, the most
    /// significant bit at column `x`; bits past the right edge are dropped.
    pub fn set_display_row(&mut self, x: usize, y: usize, row: u8)
        requires
            x < SCREEN_WIDTH,
            y < SCREEN_HEIGHT,
        ensures
            final(self)@ == (Machine { display: final(self)@.display, ..old(self)@ }),
            final(self)@.display.len() == 64,
            forall|c: int| 0 <= c < 64 ==> (#[trigger] final(self)@.display[c]).len() == 32,
            forall|c: int, r: int|
                0 <= c < 64 && 0 <= r < 32 ==> #[trigger] final(self)@.display[c][r] == if r == y
                    && x <= c < x + 8 {
                    bit_at(row, (c - x) as u8)
                } else {
                    old(self)@.display[c][r]
                },
    {
        let bits = row.to_bit_array();
        let mut k: usize = 0;
        while k < 8
            invariant
                x < 64,
                y < 32,
                k <= 8,
                forall|j: u8| j < 8 ==> bits[j as int] == bit_at(row, j),
                self.ram == old(self).ram,
                self.pc == old(self).pc,
                self.i == old(self).i,
                self.stack == old(self).stack,
                self.registers == old(self).registers,
                self.options.super_chip == old(self).options.super_chip,
                forall|c: int, r: int|
                    0 <= c < 64 && 0 <= r < 32 ==> #[trigger] self.display[c][r] == if r == y && x
                        <= c < x + k {
                        bit_at(row, (c - x) as u8)
                    } else {
                        old(self).display[c][r]
                    },
            decreases 8 - k,
        {
            if x + k < SCREEN_WIDTH {
                self.display[x + k][y] = bits[k];
            }
            k = k + 1;
        }
    }

    /// XOR-draws the `height`-row sprite at I onto the framebuffer at
    /// (VX mod 64, VY mod 32), clipping at the edges; VF := 1 when a lit
    /// pixel was turned off, else 0.
    fn draw(&mut self, x_register: u8, y_register: u8, height: u8) -> (r: Result<(), Chip8Error>)
        requires
            x_register < 16,
            y_register < 16,
            height < 16,
        ensures
            old(self)@.index_fits(height as int) ==> r is Ok && final(self)@ == old(self)@.drawn(
                x_register as int,
                y_register as int,
                height as int,
            ),
            !old(self)@.index_fits(height as int) ==> r == Err::<(), Chip8Error>(
                Chip8Error::IndexOutOfRange,
            ) && final(self)@ == old(self)@,
    {
        let at = self.i as usize;
        if at + height as usize > MEMORY_SIZE {
            return Err(Chip8Error::IndexOutOfRange);
        }
        let cx = (self.registers[x_register as usize] % 64) as usize;
        let cy = (self.registers[y_register as usize] % 32) as usize;
        let ghost m = old(self)@;
        let mut collision = false;
        let mut h: usize = 0;
        while h < height as usize
            invariant
                m == old(self)@,
                at == m.i,
                at + height <= MEMORY_SIZE,
                cx < 64,
                cy < 32,
                cx == m.reg(x_register as int) as int % 64,
                cy == m.reg(y_register as int) as int % 32,
                h <= height,
                self@ == (Machine { display: self@.display, ..m }),
                self@.display.len() == 64,
                forall|c: int| 0 <= c < 64 ==> (#[trigger] self@.display[c]).len() == 32,
                forall|c: int, r: int|
                    0 <= c < 64 && 0 <= r < 32 ==> #[trigger] self@.display[c][r] == if in_sprite(
                        cx as int,
                        cy as int,
                        h as int,
                        c,
                        r,
                    ) {
                        m.display[c][r] != m.sprite_pixel(cx as int, cy as int, c, r)
                    } else {
                        m.display[c][r]
                    },
                collision == m.collides(cx as int, cy as int, h as int),
            decreases height - h,
        {
            let y = cy + h;
            if y < SCREEN_HEIGHT {
                let sprite_row = self.ram[at + h];
                let display_row = self.get_display_row(cx, y);
                let (new_row, hit) = self.draw_sprite_row(sprite_row, display_row);
                proof {
                    assert forall|k: u8| k < 8 && cx + k < 64 implies #[trigger] m.sprite_pixel(
                        cx as int,
                        cy as int,
                        cx + k,
                        y as int,
                    ) == bit_at(sprite_row, k) by {
                        assert((cx + k - cx) as u8 == k);
                    }
                    if hit {
                        let k = choose|k: u8|
                            k < 8 && #[trigger] bit_at(sprite_row, k) && bit_at(display_row, k);
                        assert(m.display[cx + k][y as int] && m.sprite_pixel(
                            cx as int,
                            cy as int,
                            cx + k,
                            y as int,
                        ) && in_sprite(cx as int, cy as int, h + 1, cx + k, y as int));
                        assert(m.collides(cx as int, cy as int, h + 1));
                    } else if !collision {
                        assert forall|c: int, r: int|
                            0 <= c < 64 && 0 <= r < 32 && in_sprite(cx as int, cy as int, h + 1, c, r)
                                && #[trigger] m.display[c][r] implies !m.sprite_pixel(
                            cx as int,
                            cy as int,
                            c,
                            r,
                        ) by {
                            if r == y {
                                let k = (c - cx) as u8;
                                assert(c == cx + k);
                                assert(bit_at(display_row, k));
                                assert(!(bit_at(sprite_row, k) && bit_at(display_row, k)));
                            } else {
                                assert(in_sprite(cx as int, cy as int, h as int, c, r));
                            }
                        }
                    }
                }
                if hit {
                    collision = true;
                }
                self.set_display_row(cx, y, new_row);
                proof {
                    assert forall|c: int, r: int|
                        0 <= c < 64 && 0 <= r < 32 implies #[trigger] self@.display[c][r] == if in_sprite(
                            cx as int,
                            cy as int,
                            h + 1,
                            c,
                            r,
                        ) {
                            m.display[c][r] != m.sprite_pixel(cx as int, cy as int, c, r)
                        } else {
                            m.display[c][r]
                        } by {
                        if r == y && cx <= c < cx + 8 {
                            let k = (c - cx) as u8;
                            assert(c == cx + k);
                            assert(bit_at(new_row, k) == (bit_at(sprite_row, k) != bit_at(display_row, k)));
                        }
                    }
                }
            } else {
                proof {
                    assert forall|c: int, r: int|
                        0 <= c < 64 && 0 <= r < 32 implies in_sprite(cx as int, cy as int, h + 1, c, r)
                        == in_sprite(cx as int, cy as int, h as int, c, r) by {}
                    assert(m.collides(cx as int, cy as int, h + 1) == m.collides(
                        cx as int,
                        cy as int,
                        h as int,
                    ));
                }
            }
            h = h + 1;
        }
        self.register_set_value(FLAG, if collision { 1 } else { 0 });
        assert(self@.display =~~= m.drawn_screen(cx as int, cy as int, height as int));
        Ok(())
    }

    /// Executes one decoded instruction; `readings` supplies what the timer,
    /// the random source and the keys report.
    pub fn execute_instruction(&mut self, instruction: &Instruction, readings: &Readings) -> (r:
        Result<Outcome, Chip8Error>)
        requires
            instruction.operands_fit(),
        ensures
            executed_as(old(self)@, *instruction, *readings, r, final(self)@),
    {
        let x = instruction.second_nibble;
        let y = instruction.third_nibble;
        let n = instruction.fourth_nibble;
        let nnn = instruction.byte_sum_3();
        let nn = instruction.byte_sum_2();
        match instruction.first_nibble {
            0x0 => {
                if nnn == 0x0E0 {
                    self.clear_screen();
                    Ok(Outcome::Redraw)
                } else if nnn == 0x0EE {
                    match self.subroutine_return() {
                        Ok(()) => Ok(Outcome::Continue),
                        Err(e) => Err(e),
                    }
                } else {
                    Ok(Outcome::Continue)
                }
            },
            0x1 => {
                self.jump(nnn);
                Ok(Outcome::Continue)
            },
            0x2 => {
                self.call_subroutine(nnn);
                Ok(Outcome::Continue)
            },
            0x3 => {
                let vx = self.registers[x as usize];
                self.skip_if_equals(vx, nn);
                Ok(Outcome::Continue)
            },
            0x4 => {
                let vx = self.registers[x as usize];
                self.skip_if_not_equals(vx, nn);
                Ok(Outcome::Continue)
            },
            0x5 => {
                let vx = self.registers[x as usize];
                let vy = self.registers[y as usize];
                self.skip_if_equals(vx, vy);
                Ok(Outcome::Continue)
            },
            0x6 => {
                self.register_set_value(x, nn);
                Ok(Outcome::Continue)
            },
            0x7 => {
                self.register_add_value(x, nn);
                Ok(Outcome::Continue)
            },
            0x8 => {
                match n {
                    0x0 => self.register_set(x, y),
                    0x1 => self.register_or(x, y),
                    0x2 => self.register_and(x, y),
                    0x3 => self.register_xor(x, y),
                    0x4 => self.register_add(x, y),
                    0x5 => self.register_subtract(x, y),
                    0x6 => self.register_right_shift(x, y),
                    0x7 => self.register_subtract(y, x),
                    0xE => self.register_left_shift(x, y),
                    _ => {},
                }
                Ok(Outcome::Continue)
            },
            0x9 => {
                let vx = self.registers[x as usize];
                let vy = self.registers[y as usize];
                self.skip_if_not_equals(vx, vy);
                Ok(Outcome::Continue)
            },
            0xA => {
                self.set_index_register(nnn);
                Ok(Outcome::Continue)
            },
            0xB => {
                self.jump_with_offset(nnn);
                Ok(Outcome::Continue)
            },
            0xC => {
                self.register_set_value(x, readings.random & nn);
                Ok(Outcome::Continue)
            },
            0xD => {
                match self.draw(x, y, n) {
                    Ok(()) => Ok(Outcome::Redraw),
                    Err(e) => Err(e),
                }
            },
            0xE => {
                if nn == 0x9E {
                    self.skip_if(readings.key_pressed);
                } else if nn == 0xA1 {
                    self.skip_if(!readings.key_pressed);
                }
                Ok(Outcome::Continue)
            },
            0xF => {
                if nn == 0x07 {
                    self.register_set_value(x, readings.delay_timer);
                    Ok(Outcome::Continue)
                } else if nn == 0x15 {
                    Ok(Outcome::SetDelayTimer(self.registers[x as usize]))
                } else if nn == 0x18 {
                    Ok(Outcome::SetSoundTimer(self.registers[x as usize]))
                } else if nn == 0x1E {
                    self.add_to_index(x);
                    Ok(Outcome::Continue)
                } else if nn == 0x0A {
                    self.register_set_value(x, readings.key);
                    Ok(Outcome::Continue)
                } else if nn == 0x29 {
                    self.set_index_register_to_font(x);
                    Ok(Outcome::Continue)
                } else if nn == 0x33 {
                    match self.decimal_conversion(x) {
                        Ok(()) => Ok(Outcome::Continue),
                        Err(e) => Err(e),
                    }
                } else if nn == 0x55 {
                    match self.ram_store(x) {
                        Ok(()) => Ok(Outcome::Continue),
                        Err(e) => Err(e),
                    }
                } else if nn == 0x65 {
                    match self.ram_load(x) {
                        Ok(()) => Ok(Outcome::Continue),
                        Err(e) => Err(e),
                    }
                } else {
                    Ok(Outcome::Continue)
                }
            },
            _ => Err(Chip8Error::UnknownInstruction(instruction.first_nibble)),
        }
    }

    /// What the world around the machine has to report before `instruction`
    /// can run: the state of key VX for EX9E and EXA1, a key press for FX0A,
    /// the delay timer for FX07, nothing for any other instruction.
    pub fn request_for(&self, instruction: &Instruction) -> (r: Request)
        requires
            instruction.operands_fit(),
        ensures
            r == self@.request(*instruction),
    {
        let nn = instruction.byte_sum_2();
        if instruction.first_nibble == 0xE && (nn == 0x9E || nn == 0xA1) {
            Request::KeyState(self.registers[instruction.second_nibble as usize])
        } else if instruction.first_nibble == 0xF && nn == 0x0A {
            Request::KeyWait
        } else if instruction.first_nibble == 0xF && nn == 0x07 {
            Request::DelayTimer
        } else {
            Request::Nothing
        }
    }

    /// Executes `instruction` with `reply` as the answer to its request
    /// (see `request_for`); CXNN draws its random byte here.
    pub fn execute_with_reply(&mut self, instruction: &Instruction, reply: Reply) -> (r: Result<
        Outcome,
        Chip8Error,
    >)
        requires
            instruction.operands_fit(),
        ensures
            instruction.first_nibble != 0xC ==> executed_as(
                old(self)@,
                *instruction,
                readings_of(reply, 0),
                r,
                final(self)@,
            ),
            instruction.first_nibble == 0xC ==> exists|b: u8|
                #[trigger] executed_as(old(self)@, *instruction, readings_of(reply, b), r, final(self)@),
    {
        let random = if instruction.first_nibble == 0xC {
            random_byte()
        } else {
            0
        };
        let readings = Readings {
            delay_timer: match reply {
                Reply::DelayTimer(value) => value,
                _ => 0,
            },
            random,
            key_pressed: match reply {
                Reply::KeyState(pressed) => pressed,
                _ => false,
            },
            key: match reply {
                Reply::Key(key) => key,
                _ => 0,
            },
        };
        assert(readings == readings_of(reply, random));
        self.execute_instruction(instruction, &readings)
    }

    /// The input collaborator the machine was built with.
    pub closed spec fn input_spec(&self) -> T {
        self.input
    }

    /// The display collaborator the machine was built with.
    pub closed spec fn display_output_spec(&self) -> D {
        self.display_output
    }

    /// The input collaborator.
    pub fn input(&self) -> (r: &T)
        ensures
            *r == self.input_spec(),
    {
        &self.input
    }

    /// The display collaborator.
    pub fn display_output(&self) -> (r: &D)
        ensures
            *r == self.display_output_spec(),
    {
        &self.display_output
    }
}

} // verus!
