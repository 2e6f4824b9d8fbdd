use vstd::prelude::*;

use crate::bits::bit_at;
use crate::cpu::{font_sprites, Chip8Error, Outcome, Readings, Reply, Request, FLAG, FONT_OFFSET, FONT_SPRITE_LEN, MEM_OFFSET};
use crate::instruction::Instruction;

verus! {

/// The state of the machine as a mathematical value.
pub struct Machine {
    pub ram: Seq<u8>,
    /// Column-major: `display[x][y]` is the pixel in column `x`, row `y`.
    pub display: Seq<Seq<bool>>,
    pub pc: u16,
    pub i: u16,
    pub stack: Seq<u16>,
    pub registers: Seq<u8>,
    pub super_chip: bool,
}

/// A framebuffer with every pixel off.
pub open spec fn blank_screen() -> Seq<Seq<bool>> {
    Seq::new(64, |x: int| Seq::new(32, |y: int| false))
}

/// Whether pixel (`x`, `y`) lies in the sprite of height `n` placed at (`cx`, `cy`).
pub open spec fn in_sprite(cx: int, cy: int, n: int, x: int, y: int) -> bool {
    cx <= x < cx + 8 && cy <= y < cy + n
}

impl Machine {
    /// Memory, registers and framebuffer have their fixed sizes.
    pub open spec fn wf(self) -> bool {
        &&& self.ram.len() == 4096
        &&& self.registers.len() == 16
        &&& self.display.len() == 64
        &&& forall|x: int| 0 <= x < 64 ==> (#[trigger] self.display[x]).len() == 32
    }

    pub open spec fn reg(self, r: int) -> u8 {
        self.registers[r]
    }

    pub open spec fn set_reg(self, r: int, v: u8) -> Machine {
        Machine { registers: self.registers.update(r, v), ..self }
    }

    pub open spec fn jumped(self, pc: u16) -> Machine {
        Machine { pc, ..self }
    }

    /// Skips the next instruction when `cond` holds.
    pub open spec fn skip_if(self, cond: bool) -> Machine {
        if cond {
            self.jumped(((self.pc + 2) % 0x10000) as u16)
        } else {
            self
        }
    }

    pub open spec fn called(self, address: u16) -> Machine {
        Machine { stack: self.stack.push(self.pc), pc: address, ..self }
    }

    /// Returns from a subroutine; `None` on an empty stack.
    pub open spec fn returned(self) -> Option<Machine> {
        if self.stack.len() == 0 {
            None
        } else {
            Some(Machine { pc: self.stack.last(), stack: self.stack.drop_last(), ..self })
        }
    }

    pub open spec fn cleared(self) -> Machine {
        Machine { display: blank_screen(), ..self }
    }

    pub open spec fn with_index(self, i: u16) -> Machine {
        Machine { i, ..self }
    }

    /// `VX := VX + VY` wrapping, with VF set to the carry first.
    pub open spec fn added(self, x: int, y: int) -> Machine {
        let sum = self.reg(x) + self.reg(y);
        self.set_reg(15, if sum > 255 { 1 } else { 0 }).set_reg(x, (sum % 256) as u8)
    }

    /// `VX := VX - VY` wrapping, with VF set first to 1 when no borrow occurs.
    pub open spec fn subtracted(self, x: int, y: int) -> Machine {
        let a = self.reg(x);
        let b = self.reg(y);
        self.set_reg(15, if a >= b { 1 } else { 0 }).set_reg(x, ((a - b + 256) % 256) as u8)
    }

    /// The value a shift works on: VY in legacy mode, VX in SUPER-CHIP mode.
    pub open spec fn shift_source(self, x: int, y: int) -> u8 {
        if self.super_chip {
            self.reg(x)
        } else {
            self.reg(y)
        }
    }

    /// `VX := source >> 1`, then VF := the bit shifted out.
    pub open spec fn shifted_right(self, x: int, y: int) -> Machine {
        let v = self.shift_source(x, y);
        self.set_reg(x, v / 2).set_reg(15, v % 2)
    }

    /// `VX := source << 1`, then VF := the bit shifted out.
    pub open spec fn shifted_left(self, x: int, y: int) -> Machine {
        let v = self.shift_source(x, y);
        self.set_reg(x, ((v * 2) % 256) as u8).set_reg(15, if v >= 128 { 1 } else { 0 })
    }

    /// `I := I + VX` wrapping at 16 bits; then VF := 1 if the sum passed 0xFFF, else 0.
    pub open spec fn added_to_index(self, x: int) -> Machine {
        let sum = self.i + self.reg(x);
        self.with_index((sum % 0x10000) as u16).set_reg(15, if sum > 0xFFF { 1 } else { 0 })
    }

    /// I := the address of the font sprite of the low nibble of VX.
    pub open spec fn index_to_font(self, x: int) -> Machine {
        self.with_index((FONT_OFFSET + (self.reg(x) % 16) * FONT_SPRITE_LEN) as u16)
    }

    /// Whether the `len` bytes from I on lie in memory.
    pub open spec fn index_fits(self, len: int) -> bool {
        self.i + len <= 4096
    }

    /// The hundreds, tens and units of VX stored at I, I+1, I+2.
    pub open spec fn decimal_stored(self, x: int) -> Machine {
        let v = self.reg(x);
        Machine {
            ram: self.ram.update(self.i as int, v / 100).update(self.i + 1, (v / 10) % 10).update(
                self.i + 2,
                v % 10,
            ),
            ..self
        }
    }

    /// V0..=VX copied to memory from I on.
    pub open spec fn registers_stored(self, x: int) -> Machine {
        Machine {
            ram: Seq::new(
                self.ram.len(),
                |a: int|
                    if self.i <= a <= self.i + x {
                        self.registers[a - self.i]
                    } else {
                        self.ram[a]
                    },
            ),
            ..self
        }
    }

    /// V0..=VX loaded from memory from I on.
    pub open spec fn registers_loaded(self, x: int) -> Machine {
        Machine {
            registers: Seq::new(
                self.registers.len(),
                |r: int|
                    if r <= x {
                        self.ram[self.i + r]
                    } else {
                        self.registers[r]
                    },
            ),
            ..self
        }
    }

    /// The sprite pixel that lands on (`x`, `y`) for a sprite at (`cx`, `cy`)
    /// read from memory at I.
    pub open spec fn sprite_pixel(self, cx: int, cy: int, x: int, y: int) -> bool {
        bit_at(self.ram[self.i + (y - cy)], (x - cx) as u8)
    }

    /// The framebuffer after XOR-drawing the `n`-row sprite at I onto (`cx`, `cy`),
    /// clipped at the edges.
    pub open spec fn drawn_screen(self, cx: int, cy: int, n: int) -> Seq<Seq<bool>> {
        Seq::new(
            64,
            |x: int|
                Seq::new(
                    32,
                    |y: int|
                        if in_sprite(cx, cy, n, x, y) {
                            self.display[x][y] != self.sprite_pixel(cx, cy, x, y)
                        } else {
                            self.display[x][y]
                        },
                ),
        )
    }

    /// Whether drawing turns some lit pixel off.
    pub open spec fn collides(self, cx: int, cy: int, n: int) -> bool {
        exists|x: int, y: int|
            0 <= x < 64 && 0 <= y < 32 && in_sprite(cx, cy, n, x, y) && #[trigger] self.display[x][y]
                && self.sprite_pixel(cx, cy, x, y)
    }

    /// The sprite of `n` rows at I drawn at (VX mod 64, VY mod 32); VF := collision.
    pub open spec fn drawn(self, x: int, y: int, n: int) -> Machine {
        let cx = self.reg(x) as int % 64;
        let cy = self.reg(y) as int % 32;
        Machine { display: self.drawn_screen(cx, cy, n), ..self }.set_reg(
            15,
            if self.collides(cx, cy, n) { 1 } else { 0 },
        )
    }

    /// The state of a fresh machine: fonts in memory, everything else zero,
    /// execution starting at the program area.
    pub open spec fn initial(super_chip: bool) -> Machine {
        Machine {
            ram: Seq::new(
                4096,
                |a: int|
                    if FONT_OFFSET <= a < FONT_OFFSET + 80 {
                        font_sprites()[a - FONT_OFFSET]
                    } else {
                        0u8
                    },
            ),
            display: blank_screen(),
            pc: MEM_OFFSET,
            i: 0,
            stack: Seq::empty(),
            registers: Seq::new(16, |r: int| 0u8),
            super_chip,
        }
    }

    /// `rom` copied into memory from the program area on, with execution
    /// starting there.
    pub open spec fn loaded(self, rom: Seq<u8>) -> Machine {
        Machine {
            ram: Seq::new(
                self.ram.len(),
                |a: int|
                    if MEM_OFFSET <= a < MEM_OFFSET + rom.len() {
                        rom[a - MEM_OFFSET]
                    } else {
                        self.ram[a]
                    },
            ),
            pc: MEM_OFFSET,
            ..self
        }
    }

    /// Whether the two bytes at PC lie in memory.
    pub open spec fn can_fetch(self) -> bool {
        self.pc + 1 < 4096
    }

    /// The state after fetching the instruction at PC.
    pub open spec fn fetched(self) -> Machine {
        self.jumped((self.pc + 2) as u16)
    }

    /// What executing `inst` needs to hear first.
    pub open spec fn request(self, inst: Instruction) -> Request {
        let nn = inst.nn();
        if inst.first_nibble == 0xE && (nn == 0x9E || nn == 0xA1) {
            Request::KeyState(self.reg(inst.second_nibble as int))
        } else if inst.first_nibble == 0xF && nn == 0x0A {
            Request::KeyWait
        } else if inst.first_nibble == 0xF && nn == 0x07 {
            Request::DelayTimer
        } else {
            Request::Nothing
        }
    }

    /// The effect of executing `inst`, with `io` holding what the world reported.
    pub open spec fn execute(self, inst: Instruction, io: Readings) -> Result<(Machine, Outcome), Chip8Error> {
        let x = inst.second_nibble as int;
        let y = inst.third_nibble as int;
        let n = inst.fourth_nibble as int;
        let nnn = inst.nnn();
        let nn = inst.nn() as u8;
        let go = |m: Machine| Ok::<(Machine, Outcome), Chip8Error>((m, Outcome::Continue));
        if inst.first_nibble == 0x0 {
            if nnn == 0x0E0 {
                Ok((self.cleared(), Outcome::Redraw))
            } else if nnn == 0x0EE {
                match self.returned() {
                    Some(m) => go(m),
                    None => Err(Chip8Error::StackUnderflow),
                }
            } else {
                go(self)
            }
        } else if inst.first_nibble == 0x1 {
            go(self.jumped(nnn as u16))
        } else if inst.first_nibble == 0x2 {
            go(self.called(nnn as u16))
        } else if inst.first_nibble == 0x3 {
            go(self.skip_if(self.reg(x) == nn))
        } else if inst.first_nibble == 0x4 {
            go(self.skip_if(self.reg(x) != nn))
        } else if inst.first_nibble == 0x5 {
            go(self.skip_if(self.reg(x) == self.reg(y)))
        } else if inst.first_nibble == 0x6 {
            go(self.set_reg(x, nn))
        } else if inst.first_nibble == 0x7 {
            go(self.set_reg(x, ((self.reg(x) + nn) % 256) as u8))
        } else if inst.first_nibble == 0x8 {
            if n == 0x0 {
                go(self.set_reg(x, self.reg(y)))
            } else if n == 0x1 {
                go(self.set_reg(x, self.reg(x) | self.reg(y)))
            } else if n == 0x2 {
                go(self.set_reg(x, self.reg(x) & self.reg(y)))
            } else if n == 0x3 {
                go(self.set_reg(x, self.reg(x) ^ self.reg(y)))
            } else if n == 0x4 {
                go(self.added(x, y))
            } else if n == 0x5 {
                go(self.subtracted(x, y))
            } else if n == 0x6 {
                go(self.shifted_right(x, y))
            } else if n == 0x7 {
                go(self.subtracted(y, x))
            } else if n == 0xE {
                go(self.shifted_left(x, y))
            } else {
                go(self)
            }
        } else if inst.first_nibble == 0x9 {
            go(self.skip_if(self.reg(x) != self.reg(y)))
        } else if inst.first_nibble == 0xA {
            go(self.with_index(nnn as u16))
        } else if inst.first_nibble == 0xB {
            go(self.jumped((nnn + self.reg(0)) as u16))
        } else if inst.first_nibble == 0xC {
            go(self.set_reg(x, io.random & nn))
        } else if inst.first_nibble == 0xD {
            if self.index_fits(n) {
                Ok((self.drawn(x, y, n), Outcome::Redraw))
            } else {
                Err(Chip8Error::IndexOutOfRange)
            }
        } else if inst.first_nibble == 0xE {
            if nn == 0x9E {
                go(self.skip_if(io.key_pressed))
            } else if nn == 0xA1 {
                go(self.skip_if(!io.key_pressed))
            } else {
                go(self)
            }
        } else if inst.first_nibble == 0xF {
            if nn == 0x07 {
                go(self.set_reg(x, io.delay_timer))
            } else if nn == 0x15 {
                Ok((self, Outcome::SetDelayTimer(self.reg(x))))
            } else if nn == 0x18 {
                Ok((self, Outcome::SetSoundTimer(self.reg(x))))
            } else if nn == 0x1E {
                go(self.added_to_index(x))
            } else if nn == 0x0A {
                go(self.set_reg(x, io.key))
            } else if nn == 0x29 {
                go(self.index_to_font(x))
            } else if nn == 0x33 {
                if self.index_fits(3) {
                    go(self.decimal_stored(x))
                } else {
                    Err(Chip8Error::IndexOutOfRange)
                }
            } else if nn == 0x55 {
                if self.index_fits(x + 1) {
                    go(self.registers_stored(x))
                } else {
                    Err(Chip8Error::IndexOutOfRange)
                }
            } else if nn == 0x65 {
                if self.index_fits(x + 1) {
                    go(self.registers_loaded(x))
                } else {
                    Err(Chip8Error::IndexOutOfRange)
                }
            } else {
                go(self)
            }
        } else {
            Err(Chip8Error::UnknownInstruction(inst.first_nibble))
        }
    }
}

/// The readings that `reply` gives, with `random` as the random byte; a
/// value that the reply does not carry reads as zero (or not pressed).
pub open spec fn readings_of(reply: Reply, random: u8) -> Readings {
    Readings {
        delay_timer: match reply {
            Reply::DelayTimer(value) => value,
            _ => 0,
        },
        random,
        key_pressed: match reply {
            Reply::KeyState(pressed) => pressed,
            _ => false,
        },
        key: match reply {
            Reply::Key(key) => key,
            _ => 0,
        },
    }
}

/// `r` and `after` are the result and the state that executing `inst` on
/// `m` with readings `io` leads to; on an error the state stays `m`.
pub open spec fn executed_as(
    m: Machine,
    inst: Instruction,
    io: Readings,
    r: Result<Outcome, Chip8Error>,
    after: Machine,
) -> bool {
    match m.execute(inst, io) {
        Ok((next, outcome)) => r == Ok::<Outcome, Chip8Error>(outcome) && after == next,
        Err(e) => r == Err::<Outcome, Chip8Error>(e) && after == m,
    }
}

/// Whether `inst` is the register-to-register instruction 8XYk with the
/// final nibble `k`.
pub open spec fn is_alu(inst: Instruction, k: u8) -> bool {
    inst.wf() && inst.first_nibble == 0x8 && inst.fourth_nibble == k
}

/// `added(x, y)` leaves `(VX + VY) mod 256` in VX, sets VF to 1 exactly when
/// the unsigned sum exceeds 255, and keeps every other register, for every X
/// other than VF.
pub proof fn lemma_added(m: Machine, x: int, y: int)
    requires
        m.wf(),
        0 <= x < 15,
        0 <= y < 16,
    ensures
        m.added(x, y).reg(x) == (m.reg(x) + m.reg(y)) % 256,
        m.added(x, y).reg(15) == if m.reg(x) + m.reg(y) > 255 {
            1u8
        } else {
            0u8
        },
        forall|r: int| 0 <= r < 16 && r != x && r != 15 ==> #[trigger] m.added(x, y).reg(r) == m.reg(r),
        m.added(x, y) == (Machine { registers: m.added(x, y).registers, ..m }),
{
}

/// `subtracted(x, y)` leaves `(VX - VY) mod 256` in VX, sets VF to 1 exactly
/// when VX >= VY (no borrow), and keeps every other register, for every X
/// other than VF.
pub proof fn lemma_subtracted(m: Machine, x: int, y: int)
    requires
        m.wf(),
        0 <= x < 15,
        0 <= y < 16,
    ensures
        m.subtracted(x, y).reg(x) == (m.reg(x) - m.reg(y)) % 256,
        m.subtracted(x, y).reg(15) == if m.reg(x) >= m.reg(y) {
            1u8
        } else {
            0u8
        },
        forall|r: int|
            0 <= r < 16 && r != x && r != 15 ==> #[trigger] m.subtracted(x, y).reg(r) == m.reg(r),
        m.subtracted(x, y) == (Machine { registers: m.subtracted(x, y).registers, ..m }),
{
}

/// 8XY4 leaves `(VX + VY) mod 256` in VX and sets VF to 1 exactly when the
/// unsigned sum exceeds 255 (for every X other than VF itself, whose value the
/// sum overwrites).
pub proof fn lemma_add_sets_carry(m: Machine, inst: Instruction, io: Readings)
    requires
        m.wf(),
        is_alu(inst, 0x4),
        inst.second_nibble != FLAG,
    ensures
        ({
            let a = m.reg(inst.second_nibble as int);
            let b = m.reg(inst.third_nibble as int);
            let after = m.execute(inst, io)->Ok_0.0;
            &&& m.execute(inst, io) is Ok
            &&& m.execute(inst, io)->Ok_0.1 == Outcome::Continue
            &&& after.reg(inst.second_nibble as int) == (a + b) % 256
            &&& after.reg(FLAG as int) == if a + b > 255 {
                1u8
            } else {
                0u8
            }
            &&& forall|r: int|
                0 <= r < 16 && r != inst.second_nibble && r != FLAG ==> #[trigger] after.reg(r)
                    == m.reg(r)
        }),
{
    let x = inst.second_nibble as int;
    let y = inst.third_nibble as int;
    assert(m.execute(inst, io) == Ok::<(Machine, Outcome), Chip8Error>(
        (m.added(x, y), Outcome::Continue),
    ));
    lemma_added(m, x, y);
}

/// 8XY5 leaves `(VX - VY) mod 256` in VX and sets VF to 1 exactly when
/// VX >= VY, that is when no borrow occurs (for every X other than VF).
pub proof fn lemma_subtract_sets_no_borrow(m: Machine, inst: Instruction, io: Readings)
    requires
        m.wf(),
        is_alu(inst, 0x5),
        inst.second_nibble != FLAG,
    ensures
        ({
            let a = m.reg(inst.second_nibble as int);
            let b = m.reg(inst.third_nibble as int);
            let after = m.execute(inst, io)->Ok_0.0;
            &&& m.execute(inst, io) is Ok
            &&& m.execute(inst, io)->Ok_0.1 == Outcome::Continue
            &&& after.reg(inst.second_nibble as int) == (a - b) % 256
            &&& after.reg(FLAG as int) == if a >= b {
                1u8
            } else {
                0u8
            }
            &&& forall|r: int|
                0 <= r < 16 && r != inst.second_nibble && r != FLAG ==> #[trigger] after.reg(r)
                    == m.reg(r)
        }),
{
    let x = inst.second_nibble as int;
    let y = inst.third_nibble as int;
    assert(m.execute(inst, io) == Ok::<(Machine, Outcome), Chip8Error>(
        (m.subtracted(x, y), Outcome::Continue),
    ));
    lemma_subtracted(m, x, y);
}

} // verus!
