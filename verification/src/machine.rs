//! The mathematical model of the machine: its state as plain sequences
//! and integers, and the effect of every instruction as a function from
//! state to state.

use vstd::prelude::*;
use crate::decode::{operands_of, opcode_of, Opcode};
use crate::display::{blank_screen, cell_index, differing_cells, Mutation};
use crate::fault::Fault;

verus! {

/// Number of addressable bytes.
pub const MEMORY_SIZE: usize = 4096;

/// Address at which a program image is placed and execution begins.
pub const PROGRAM_START: u16 = 0x200;

/// Address of the first byte of the built-in font.
pub const FONT_START: u16 = 0x050;

/// Number of return addresses the call stack can hold.
pub const STACK_DEPTH: u8 = 16;

/// Largest program image that fits between `PROGRAM_START` and the end
/// of memory.
pub const PROGRAM_CAPACITY: usize = 3584;

/// The built-in font: sixteen glyphs of five rows each, for the digits
/// `0` to `F`; the upper four bits of a row are its pixels.
pub const FONT: [u8; 80] = [
    0xF0, 0x90, 0x90, 0x90, 0xF0,
    0x20, 0x60, 0x20, 0x20, 0x70,
    0xF0, 0x10, 0xF0, 0x80, 0xF0,
    0xF0, 0x10, 0xF0, 0x10, 0xF0,
    0x90, 0x90, 0xF0, 0x10, 0x10,
    0xF0, 0x80, 0xF0, 0x10, 0xF0,
    0xF0, 0x80, 0xF0, 0x90, 0xF0,
    0xF0, 0x10, 0x20, 0x40, 0x40,
    0xF0, 0x90, 0xF0, 0x90, 0xF0,
    0xF0, 0x90, 0xF0, 0x10, 0xF0,
    0xF0, 0x90, 0xF0, 0x90, 0x90,
    0xE0, 0x90, 0xE0, 0x90, 0xE0,
    0xF0, 0x80, 0x80, 0x80, 0xF0,
    0xE0, 0x90, 0x90, 0x90, 0xE0,
    0xF0, 0x80, 0xF0, 0x80, 0xF0,
    0xF0, 0x80, 0xF0, 0x80, 0x80,
];

/// The whole state of one machine.
pub struct Machine {
    /// The program image the machine was created with.
    pub rom: Seq<u8>,
    /// The general registers `V0` to `VF`.
    pub v: Seq<u8>,
    /// The index register `I`.
    pub i: int,
    /// The program counter.
    pub pc: int,
    /// The outstanding return addresses, most recent last.
    pub stack: Seq<int>,
    /// The delay timer.
    pub delay: u8,
    /// The sound timer.
    pub sound: u8,
    /// Which of the sixteen keys are held down.
    pub keys: Seq<bool>,
    /// The screen, row by row.
    pub screen: Seq<bool>,
    /// The memory.
    pub mem: Seq<u8>,
}

/// Whether column `col` of a sprite row is set; column 0 is the most
/// significant bit.
pub open spec fn sprite_bit(row_bits: u8, col: int) -> bool {
    row_bits & (0x80u8 >> (col as u8)) != 0
}

/// The memory of a freshly started machine: zero everywhere but for the
/// font and for as much of `rom` as fits from `PROGRAM_START` on.
pub open spec fn initial_memory(rom: Seq<u8>) -> Seq<u8> {
    Seq::new(
        4096,
        |a: int|
            if 0x050 <= a < 0x0A0 {
                FONT[a - 0x050]
            } else if 0x200 <= a < 0x200 + rom.len() {
                rom[a - 0x200]
            } else {
                0u8
            },
    )
}

/// The state in which a machine starts on the image `rom`.
pub open spec fn initial(rom: Seq<u8>) -> Machine {
    Machine {
        rom,
        v: Seq::new(16, |k: int| 0u8),
        i: 0,
        pc: 0x200,
        stack: Seq::empty(),
        delay: 0,
        sound: 0,
        keys: Seq::new(16, |k: int| false),
        screen: blank_screen(),
        mem: initial_memory(rom),
    }
}

/// The fault that `done` reports, if it reports one.
pub open spec fn fault_of<T>(done: Result<T, Fault>) -> Option<Fault> {
    match done {
        Ok(_) => None,
        Err(fault) => Some(fault),
    }
}

/// Whether a cycle that was to end as `expected` did so: on success
/// the state after it is the expected one, and on a fault that fault is
/// reported and the state is as before.
pub open spec fn realized(
    expected: Result<Machine, Fault>,
    before: Machine,
    failed: Option<Fault>,
    after: Machine,
) -> bool {
    match expected {
        Ok(next) => failed is None && after == next,
        Err(fault) => failed == Some(fault) && after == before,
    }
}

/// Whether `report` is what a successful cycle from `before` to `after`
/// says of the screen: nothing unless the instruction was `00E0` or
/// `DXYN`; else the cells that changed, with the collision flag that a
/// `DXYN` left in `VF`.
pub open spec fn reports(report: Option<Mutation>, before: Machine, after: Machine) -> bool {
    match opcode_of(before.word_at_pc()) {
        Some(Opcode::ClearScreen) => report is Some && report->0.toggled@ == differing_cells(
            before.screen,
            after.screen,
            2048,
        ) && !report->0.collision,
        Some(Opcode::Draw) => report is Some && report->0.toggled@ == differing_cells(
            before.screen,
            after.screen,
            2048,
        ) && report->0.collision == (after.v[15] == 1),
        _ => report is None,
    }
}

impl Machine {
    /// The shape every machine state has.
    pub open spec fn wf(self) -> bool {
        &&& self.v.len() == 16
        &&& self.keys.len() == 16
        &&& self.screen.len() == 2048
        &&& self.mem.len() == 4096
        &&& self.stack.len() <= 16
        &&& 0 <= self.pc <= 0xFFFF
        &&& 0 <= self.i <= 0xFFFF
        &&& forall|k: int| 0 <= k < self.stack.len() ==> 0 <= #[trigger] self.stack[k] <= 0xFFFF
    }

    /// This state with register `x` holding `value`.
    pub open spec fn with_reg(self, x: int, value: u8) -> Machine {
        Machine { v: self.v.update(x, value), ..self }
    }

    /// This state with the program counter at `pc`.
    pub open spec fn with_pc(self, pc: int) -> Machine {
        Machine { pc, ..self }
    }

    /// This state with the index register at `i`.
    pub open spec fn with_index(self, i: int) -> Machine {
        Machine { i, ..self }
    }

    /// This state with the program counter past one more instruction if
    /// `condition` holds, and unchanged otherwise.
    pub open spec fn skip_if(self, condition: bool) -> Machine {
        if condition {
            self.with_pc(self.pc + 2)
        } else {
            self
        }
    }

    /// The program counter moved past the instruction just fetched.
    pub open spec fn advance(self) -> Machine {
        self.with_pc(self.pc + 2)
    }

    /// `00E0`: every cell of the screen off.
    pub open spec fn clear_screen(self) -> Machine {
        Machine { screen: blank_screen(), ..self }
    }

    /// `00EE`: the most recent return address taken off the stack and
    /// made the program counter.
    pub open spec fn returned(self) -> Machine {
        Machine { pc: self.stack.last(), stack: self.stack.drop_last(), ..self }
    }

    /// `1NNN`: the program counter at `nnn`.
    pub open spec fn jumped(self, nnn: int) -> Machine {
        self.with_pc(nnn)
    }

    /// `2NNN`: the program counter put on the stack, then set to `nnn`.
    pub open spec fn called(self, nnn: int) -> Machine {
        Machine { pc: nnn, stack: self.stack.push(self.pc), ..self }
    }

    /// `7XNN`: `nn` added to register `x` modulo 256; no flag.
    pub open spec fn add_imm(self, x: int, nn: u8) -> Machine {
        self.with_reg(x, ((self.v[x] + nn) % 256) as u8)
    }

    /// `8XY4`: register `y` added to register `x` modulo 256, then `VF`
    /// set to the carry.
    pub open spec fn add_reg(self, x: int, y: int) -> Machine {
        let sum = self.v[x] + self.v[y];
        self.with_reg(x, (sum % 256) as u8).with_reg(
            15,
            if sum >= 256 {
                1u8
            } else {
                0u8
            },
        )
    }

    /// `8XY5`: register `y` subtracted from register `x` modulo 256, then
    /// `VF` set to 1 if nothing was borrowed and to 0 otherwise.
    pub open spec fn sub_reg(self, x: int, y: int) -> Machine {
        self.with_reg(x, ((self.v[x] - self.v[y]) % 256) as u8).with_reg(
            15,
            if self.v[x] >= self.v[y] {
                1u8
            } else {
                0u8
            },
        )
    }

    /// `8XY7`: register `x` set to register `y` minus register `x` modulo
    /// 256, then `VF` set to 1 if nothing was borrowed and to 0 otherwise.
    pub open spec fn sub_rev(self, x: int, y: int) -> Machine {
        self.with_reg(x, ((self.v[y] - self.v[x]) % 256) as u8).with_reg(
            15,
            if self.v[y] >= self.v[x] {
                1u8
            } else {
                0u8
            },
        )
    }

    /// `8XY6`: `VF` set to the lowest bit of register `x`, then register
    /// `x` halved.
    pub open spec fn shift_right(self, x: int) -> Machine {
        let flagged = self.with_reg(15, (self.v[x] % 2) as u8);
        flagged.with_reg(x, (flagged.v[x] / 2) as u8)
    }

    /// `8XYE`: `VF` set to the highest bit of register `x`, then register
    /// `x` doubled modulo 256.
    pub open spec fn shift_left(self, x: int) -> Machine {
        let flagged = self.with_reg(15, (self.v[x] / 128) as u8);
        flagged.with_reg(x, ((flagged.v[x] * 2) % 256) as u8)
    }

    /// `CXNN`: register `x` set to the drawn byte `random` masked by `nn`.
    pub open spec fn randomized(self, x: int, nn: u8, random: u8) -> Machine {
        self.with_reg(x, random & nn)
    }

    /// `FX15`: the delay timer set to `ticks`.
    pub open spec fn with_delay(self, ticks: u8) -> Machine {
        Machine { delay: ticks, ..self }
    }

    /// `FX18`: the sound timer set to `ticks`.
    pub open spec fn with_sound(self, ticks: u8) -> Machine {
        Machine { sound: ticks, ..self }
    }

    /// The number of the key that register `x` names: its low four bits.
    pub open spec fn key_of(self, x: int) -> int {
        self.v[x] as int % 16
    }

    /// `FX1E`: register `x` added to the index register modulo 65536.
    pub open spec fn add_index(self, x: int) -> Machine {
        self.with_index((self.i + self.v[x]) % 0x10000)
    }

    /// `FX29`: the index register at the glyph of the digit in the low
    /// four bits of register `x`.
    pub open spec fn glyph(self, x: int) -> Machine {
        self.with_index(0x050 + 5 * (self.v[x] as int % 16))
    }

    /// `FX33`: the hundreds, tens and units of register `x` written to
    /// memory at `I`, `I + 1` and `I + 2`.
    pub open spec fn bcd(self, x: int) -> Machine {
        let value = self.v[x] as int;
        Machine {
            mem: self.mem.update(self.i, (value / 100) as u8).update(
                self.i + 1,
                (value / 10 % 10) as u8,
            ).update(self.i + 2, (value % 10) as u8),
            ..self
        }
    }

    /// `FX55`: registers `V0` to `Vx` written to memory from `I` on.
    pub open spec fn store(self, x: int) -> Machine {
        Machine {
            mem: Seq::new(
                4096,
                |a: int|
                    if self.i <= a <= self.i + x {
                        self.v[a - self.i]
                    } else {
                        self.mem[a]
                    },
            ),
            ..self
        }
    }

    /// `FX65`: registers `V0` to `Vx` read from memory from `I` on.
    pub open spec fn load(self, x: int) -> Machine {
        Machine {
            v: Seq::new(
                16,
                |k: int|
                    if k <= x {
                        self.mem[self.i + k]
                    } else {
                        self.v[k]
                    },
            ),
            ..self
        }
    }

    /// Whether the sprite of `n` rows at `I`, placed with its corner at
    /// `(left, top)` and wrapped around the screen, has a set pixel on
    /// cell number `cell`.
    pub open spec fn sprite_covers(self, left: int, top: int, n: int, cell: int) -> bool {
        let col = (cell % 64 - left) % 64;
        let row = (cell / 64 - top) % 32;
        col < 8 && row < n && sprite_bit(self.mem[self.i + row], col)
    }

    /// Whether one of the sprite pixels that come before row `row`,
    /// column `col`, going row by row, is set on cell number `cell`.
    pub open spec fn sprite_covers_before(
        self,
        left: int,
        top: int,
        n: int,
        cell: int,
        row: int,
        col: int,
    ) -> bool {
        let c = (cell % 64 - left) % 64;
        let r = (cell / 64 - top) % 32;
        self.sprite_covers(left, top, n, cell) && (r < row || (r == row && c < col))
    }

    /// Whether one of the sprite pixels that come before row `row`,
    /// column `col` is set on a cell that is lit.
    pub open spec fn sprite_hits_before(
        self,
        left: int,
        top: int,
        n: int,
        row: int,
        col: int,
    ) -> bool {
        exists|cell: int|
            0 <= cell < 2048 && self.screen[cell] && #[trigger] self.sprite_covers_before(
                left,
                top,
                n,
                cell,
                row,
                col,
            )
    }

    /// Whether drawing that sprite turns off a cell that was lit.
    pub open spec fn sprite_collides(self, left: int, top: int, n: int) -> bool {
        exists|cell: int|
            0 <= cell < 2048 && self.screen[cell] && #[trigger] self.sprite_covers(
                left,
                top,
                n,
                cell,
            )
    }

    /// `DXYN`: the sprite of `n` rows at `I` XORed onto the screen at
    /// `(Vx, Vy)`, then `VF` set to 1 if a lit cell was turned off and to
    /// 0 otherwise.
    pub open spec fn draw(self, x: int, y: int, n: int) -> Machine {
        let left = self.v[x] as int;
        let top = self.v[y] as int;
        Machine {
            screen: Seq::new(
                2048,
                |cell: int| self.screen[cell] != self.sprite_covers(left, top, n, cell),
            ),
            v: self.v.update(
                15,
                if self.sprite_collides(left, top, n) {
                    1u8
                } else {
                    0u8
                },
            ),
            ..self
        }
    }

    /// Both timers one step nearer to zero.
    pub open spec fn ticked(self) -> Machine {
        Machine {
            delay: if self.delay > 0 {
                (self.delay - 1) as u8
            } else {
                0u8
            },
            sound: if self.sound > 0 {
                (self.sound - 1) as u8
            } else {
                0u8
            },
            ..self
        }
    }

    /// The instruction word at the program counter, high byte first.
    pub open spec fn word_at_pc(self) -> u16 {
        (self.mem[self.pc] as int * 256 + self.mem[self.pc + 1] as int) as u16
    }

    /// The effect of the instruction `word` on a state whose program
    /// counter is already past it; `random` is the byte drawn for `CXNN`.
    pub open spec fn execute(self, word: u16, random: u8) -> Result<Machine, Fault> {
        let f = operands_of(word);
        let x = f.x as int;
        let y = f.y as int;
        match opcode_of(word) {
            None => Err(Fault::UnknownOpcode { word }),
            Some(Opcode::ClearScreen) => Ok(self.clear_screen()),
            Some(Opcode::Return) => if self.stack.len() == 0 {
                Err(Fault::StackUnderflow)
            } else {
                Ok(self.returned())
            },
            Some(Opcode::Jump) => Ok(self.jumped(f.nnn as int)),
            Some(Opcode::Call) => if self.stack.len() >= 16 {
                Err(Fault::StackOverflow)
            } else {
                Ok(self.called(f.nnn as int))
            },
            Some(Opcode::SkipEqImm) => Ok(self.skip_if(self.v[x] == f.nn)),
            Some(Opcode::SkipNeImm) => Ok(self.skip_if(self.v[x] != f.nn)),
            Some(Opcode::SkipEqReg) => Ok(self.skip_if(self.v[x] == self.v[y])),
            Some(Opcode::LoadImm) => Ok(self.with_reg(x, f.nn)),
            Some(Opcode::AddImm) => Ok(self.add_imm(x, f.nn)),
            Some(Opcode::Move) => Ok(self.with_reg(x, self.v[y])),
            Some(Opcode::Or) => Ok(self.with_reg(x, self.v[x] | self.v[y])),
            Some(Opcode::And) => Ok(self.with_reg(x, self.v[x] & self.v[y])),
            Some(Opcode::Xor) => Ok(self.with_reg(x, self.v[x] ^ self.v[y])),
            Some(Opcode::AddReg) => Ok(self.add_reg(x, y)),
            Some(Opcode::SubReg) => Ok(self.sub_reg(x, y)),
            Some(Opcode::ShiftRight) => Ok(self.shift_right(x)),
            Some(Opcode::SubRev) => Ok(self.sub_rev(x, y)),
            Some(Opcode::ShiftLeft) => Ok(self.shift_left(x)),
            Some(Opcode::SkipNeReg) => Ok(self.skip_if(self.v[x] != self.v[y])),
            Some(Opcode::LoadIndex) => Ok(self.with_index(f.nnn as int)),
            Some(Opcode::JumpOffset) => Ok(self.jumped(self.v[0] + f.nnn)),
            Some(Opcode::Random) => Ok(self.randomized(x, f.nn, random)),
            Some(Opcode::Draw) => if f.n > 0 && self.i + f.n > 4096 {
                Err(Fault::InvalidAddress { address: self.i as u16 })
            } else {
                Ok(self.draw(x, y, f.n as int))
            },
            Some(Opcode::SkipKey) => Ok(self.skip_if(self.keys[self.key_of(x)])),
            Some(Opcode::SkipNoKey) => Ok(self.skip_if(!self.keys[self.key_of(x)])),
            Some(Opcode::ReadDelay) => Ok(self.with_reg(x, self.delay)),
            Some(Opcode::SetDelay) => Ok(self.with_delay(self.v[x])),
            Some(Opcode::SetSound) => Ok(self.with_sound(self.v[x])),
            Some(Opcode::AddIndex) => Ok(self.add_index(x)),
            Some(Opcode::Glyph) => Ok(self.glyph(x)),
            Some(Opcode::Bcd) => if self.i + 2 >= 4096 {
                Err(Fault::InvalidAddress { address: self.i as u16 })
            } else {
                Ok(self.bcd(x))
            },
            Some(Opcode::Store) => if self.i + x >= 4096 {
                Err(Fault::InvalidAddress { address: self.i as u16 })
            } else {
                Ok(self.store(x))
            },
            Some(Opcode::Load) => if self.i + x >= 4096 {
                Err(Fault::InvalidAddress { address: self.i as u16 })
            } else {
                Ok(self.load(x))
            },
        }
    }

    /// Whether the next cycle draws a random byte: the word at the
    /// program counter lies in memory and is a `CXNN`.
    pub open spec fn draws_random(self) -> bool {
        self.pc + 1 < 4096 && opcode_of(self.word_at_pc()) == Some(Opcode::Random)
    }

    /// One whole cycle: the word at the program counter fetched, the
    /// program counter moved past it, and the word executed.
    ///
    /// Fails with `InvalidAddress` when the two bytes at the program
    /// counter do not both lie in memory.
    pub open spec fn step(self, random: u8) -> Result<Machine, Fault> {
        if self.pc + 1 >= 4096 {
            Err(Fault::InvalidAddress { address: self.pc as u16 })
        } else {
            self.cycle(self.word_at_pc(), random)
        }
    }

    /// A cycle that fetched `word`: the program counter moved past it,
    /// and the word executed.
    pub open spec fn cycle(self, word: u16, random: u8) -> Result<Machine, Fault> {
        self.advance().execute(word, random)
    }

    /// The cycles that fetched `words`, one after the other, up to the
    /// first fault.
    pub open spec fn cycles(self, words: Seq<u16>, random: u8) -> Result<Machine, Fault>
        decreases words.len(),
    {
        if words.len() == 0 {
            Ok(self)
        } else {
            match self.cycles(words.drop_last(), random) {
                Ok(reached) => reached.cycle(words.last(), random),
                Err(fault) => Err(fault),
            }
        }
    }
}

/// On a screen of 64 columns, the column at distance `d` to the right
/// of `a`, wrapping, is the only one at that distance.
proof fn lemma_wrap_columns(p: int, a: int, d: int)
    requires
        0 <= p < 64,
        0 <= d < 64,
    ensures
        (p - a) % 64 == d <==> p == (a + d) % 64,
{
}

/// The same for the 32 rows.
proof fn lemma_wrap_rows(p: int, a: int, d: int)
    requires
        0 <= p < 32,
        0 <= d < 32,
    ensures
        (p - a) % 32 == d <==> p == (a + d) % 32,
{
}

impl Machine {
    /// The sprite pixel at row `row`, column `col` falls on the cell at
    /// `(left + col, top + row)` and on no other, and no earlier pixel
    /// falls on that cell.
    pub proof fn lemma_sprite_pixel(self, left: int, top: int, n: int, row: int, col: int)
        requires
            0 <= left,
            0 <= top,
            0 <= row < n <= 32,
            0 <= col < 8,
        ensures
            0 <= cell_index(left + col, top + row) < 2048,
            !self.sprite_covers_before(left, top, n, cell_index(left + col, top + row), row, col),
            self.sprite_covers_before(left, top, n, cell_index(left + col, top + row), row, col + 1)
                == sprite_bit(self.mem[self.i + row], col),
            forall|cell: int|
                0 <= cell < 2048 && cell != cell_index(left + col, top + row)
                    ==> #[trigger] self.sprite_covers_before(left, top, n, cell, row, col + 1)
                    == self.sprite_covers_before(left, top, n, cell, row, col),
            self.sprite_hits_before(left, top, n, row, col + 1) == (self.sprite_hits_before(
                left,
                top,
                n,
                row,
                col,
            ) || (self.screen[cell_index(left + col, top + row)] && sprite_bit(
                self.mem[self.i + row],
                col,
            ))),
    {
        let target = cell_index(left + col, top + row);
        assert(target % 64 == (left + col) % 64 && target / 64 == (top + row) % 32);
        lemma_wrap_columns(target % 64, left, col);
        lemma_wrap_rows(target / 64, top, row);
        assert forall|cell: int| 0 <= cell < 2048 && cell != target implies (
        #[trigger] self.sprite_covers_before(left, top, n, cell, row, col + 1))
            == self.sprite_covers_before(left, top, n, cell, row, col) by {
            lemma_wrap_columns(cell % 64, left, col);
            lemma_wrap_rows(cell / 64, top, row);
        }
        if self.sprite_hits_before(left, top, n, row, col) {
            let w = choose|cell: int|
                0 <= cell < 2048 && self.screen[cell] && #[trigger] self.sprite_covers_before(
                    left,
                    top,
                    n,
                    cell,
                    row,
                    col,
                );
            assert(self.sprite_covers_before(left, top, n, w, row, col + 1));
        }
        if self.screen[target] && sprite_bit(self.mem[self.i + row], col) {
            assert(self.sprite_covers_before(left, top, n, target, row, col + 1));
        }
        if self.sprite_hits_before(left, top, n, row, col + 1) {
            let w = choose|cell: int|
                0 <= cell < 2048 && self.screen[cell] && #[trigger] self.sprite_covers_before(
                    left,
                    top,
                    n,
                    cell,
                    row,
                    col + 1,
                );
            if w != target {
                assert(self.sprite_covers_before(left, top, n, w, row, col));
            }
        }
    }

    /// What comes before the end of one sprite row is what comes before
    /// the start of the next.
    pub proof fn lemma_sprite_row(self, left: int, top: int, n: int, row: int)
        ensures
            forall|cell: int|
                #[trigger] self.sprite_covers_before(left, top, n, cell, row, 8)
                    == self.sprite_covers_before(left, top, n, cell, row + 1, 0),
            self.sprite_hits_before(left, top, n, row, 8) == self.sprite_hits_before(
                left,
                top,
                n,
                row + 1,
                0,
            ),
    {
        assert forall|cell: int| #[trigger]
            self.sprite_covers_before(left, top, n, cell, row, 8) == self.sprite_covers_before(
                left,
                top,
                n,
                cell,
                row + 1,
                0,
            ) by {}
        if self.sprite_hits_before(left, top, n, row, 8) {
            let w = choose|cell: int|
                0 <= cell < 2048 && self.screen[cell] && #[trigger] self.sprite_covers_before(
                    left,
                    top,
                    n,
                    cell,
                    row,
                    8,
                );
            assert(self.sprite_covers_before(left, top, n, w, row + 1, 0));
        }
        if self.sprite_hits_before(left, top, n, row + 1, 0) {
            let w = choose|cell: int|
                0 <= cell < 2048 && self.screen[cell] && #[trigger] self.sprite_covers_before(
                    left,
                    top,
                    n,
                    cell,
                    row + 1,
                    0,
                );
            assert(self.sprite_covers_before(left, top, n, w, row, 8));
        }
    }

    /// Nothing comes before the first sprite pixel, and all of the
    /// sprite comes before the end of its last row.
    pub proof fn lemma_sprite_whole(self, left: int, top: int, n: int)
        requires
            0 <= n,
        ensures
            forall|cell: int| !#[trigger] self.sprite_covers_before(left, top, n, cell, 0, 0),
            !self.sprite_hits_before(left, top, n, 0, 0),
            forall|cell: int|
                #[trigger] self.sprite_covers_before(left, top, n, cell, n, 0)
                    == self.sprite_covers(left, top, n, cell),
            self.sprite_hits_before(left, top, n, n, 0) == self.sprite_collides(left, top, n),
    {
        assert forall|cell: int| #[trigger]
            self.sprite_covers_before(left, top, n, cell, n, 0) == self.sprite_covers(
                left,
                top,
                n,
                cell,
            ) by {}
        if self.sprite_hits_before(left, top, n, n, 0) {
            let w = choose|cell: int|
                0 <= cell < 2048 && self.screen[cell] && #[trigger] self.sprite_covers_before(
                    left,
                    top,
                    n,
                    cell,
                    n,
                    0,
                );
            assert(self.sprite_covers(left, top, n, w));
        }
        if self.sprite_collides(left, top, n) {
            let w = choose|cell: int|
                0 <= cell < 2048 && self.screen[cell] && #[trigger] self.sprite_covers(
                    left,
                    top,
                    n,
                    cell,
                );
            assert(self.sprite_covers_before(left, top, n, w, n, 0));
        }
    }
}

} // verus!
