//! The processor: registers, memory, call stack, timers, keypad and
//! screen, with one handler per instruction and the fetch/decode/execute
//! cycle on top of them.

use vstd::prelude::*;
use crate::decode::{
    address_of, classify, high_nibble, join, lemma_operands_of_bytes, low_nibble, opcode_of,
    word_of, Opcode,
};
use crate::display::{cell_index, Display, Mutation};
use crate::entropy::random_byte;
use crate::fault::Fault;
use crate::machine::{
    fault_of, initial, initial_memory, realized, reports, Machine, FONT, FONT_START, MEMORY_SIZE,
    PROGRAM_CAPACITY, PROGRAM_START, STACK_DEPTH,
};

verus! {

/// One machine: the program image it was started on and all of its state.
pub struct CPU {
    /// The program image, as given to `new`.
    pub rom: Vec<u8>,
    v: [u8; 16],
    pc: u16,
    i: u16,
    stk: [u16; 16],
    sp: u8,
    t_delay: u8,
    t_sound: u8,
    key: [bool; 16],
    out: Display,
    mem: [u8; 4096],
}

impl View for CPU {
    type V = Machine;

    /// The state as the model sees it. Stack slots above the stack
    /// pointer are not part of it.
    closed spec fn view(&self) -> Machine {
        Machine {
            rom: self.rom@,
            v: self.v@,
            i: self.i as int,
            pc: self.pc as int,
            stack: Seq::new(self.sp as nat, |k: int| self.stk[k] as int),
            delay: self.t_delay,
            sound: self.t_sound,
            keys: self.key@,
            screen: self.out@,
            mem: self.mem@,
        }
    }
}

impl CPU {
    /// The invariant of the type: the model's shape, which bounds the
    /// stack pointer by the stack's depth.
    pub open spec fn wf(&self) -> bool {
        self@.wf()
    }

    /// Splits a byte into its upper and lower nibble.
    pub fn split_byte(&self, byte: u8) -> (nibbles: (u8, u8))
        ensures
            nibbles.0 == high_nibble(byte),
            nibbles.1 == low_nibble(byte),
    {
        let left: u8 = (byte & 0xf0) >> 4;
        let right: u8 = byte & 0x0f;
        assert((byte & 0xf0) >> 4 == byte / 16) by (bit_vector);
        assert(byte & 0x0f == byte % 16) by (bit_vector);
        (left, right)
    }

    /// Joins two nibbles into the byte `0xLR`.
    ///
    /// Bits of `left` above the fourth are shifted out; bits of `right`
    /// above the fourth are ORed into the upper nibble.
    pub fn smash_2_nib(&self, left: u8, right: u8) -> (byte: u8)
        ensures
            byte == ((left * 16 % 256) as u8) | right,
            left < 16 && right < 16 ==> byte == left * 16 + right,
    {
        assert((left << 4) == ((left * 16 % 256) as u8)) by (bit_vector);
        assert(left < 16 && right < 16 ==> ((left << 4) | right) == left * 16 + right)
            by (bit_vector);
        (left << 4) | right
    }

    /// Joins three nibbles into the 12-bit value `0x0LMR`.
    ///
    /// Bits above the fourth of any argument are ORed into the places
    /// above it.
    pub fn smash_3_nib(&self, left: u8, middle: u8, right: u8) -> (word: u16)
        ensures
            word == ((left * 256) as u16) | ((middle * 16) as u16) | (right as u16),
            left < 16 && middle < 16 && right < 16 ==> word == left * 256 + middle * 16 + right,
    {
        assert(((left as u16) << 8) == ((left * 256) as u16)) by (bit_vector);
        assert(((middle as u16) << 4) == ((middle * 16) as u16)) by (bit_vector);
        assert(left < 16 && middle < 16 && right < 16 ==> (((left as u16) << 8) | ((middle as u16)
            << 4) | (right as u16)) == left * 256 + middle * 16 + right) by (bit_vector);
        (left as u16) << 8 | (middle as u16) << 4 | (right as u16)
    }

    /// Splits two bytes into their four nibbles, most significant first.
    pub fn split_pair(&self, pair: (u8, u8)) -> (nibbles: (u8, u8, u8, u8))
        ensures
            nibbles.0 == high_nibble(pair.0),
            nibbles.1 == low_nibble(pair.0),
            nibbles.2 == high_nibble(pair.1),
            nibbles.3 == low_nibble(pair.1),
    {
        let (n1, n2): (u8, u8) = self.split_byte(pair.0);
        let (n3, n4): (u8, u8) = self.split_byte(pair.1);
        (n1, n2, n3, n4)
    }

    /// Checks a register index: `Ok` for an index below sixteen, and
    /// `InvalidRegister` with the index otherwise.
    pub fn validate_index(&self, index: usize) -> (checked: Result<(), Fault>)
        ensures
            index < 16 ==> checked == Ok::<(), Fault>(()),
            index >= 16 ==> checked == Err::<(), Fault>(Fault::InvalidRegister { index }),
    {
        if index >= 16 {
            Err(Fault::InvalidRegister { index })
        } else {
            Ok(())
        }
    }

    /// Checks the index 88, which no register has: always reports
    /// `InvalidRegister`.
    pub fn test_function(&self) -> (checked: Result<(), Fault>)
        ensures
            checked == Err::<(), Fault>(Fault::InvalidRegister { index: 88 }),
    {
        self.validate_index(88)
    }

    /// A machine started on `rom`: memory zeroed, the font in place, the
    /// image copied to `PROGRAM_START` as far as it fits, and the program
    /// counter at its first byte.
    pub fn new(rom: Vec<u8>) -> (cpu: CPU)
        ensures
            cpu.wf(),
            cpu@ == initial(rom@),
    {
        let mut cpu = CPU {
            rom: rom,
            v: [0; 16],
            pc: PROGRAM_START,
            i: 0,
            stk: [0; 16],
            sp: 0,
            t_delay: 0,
            t_sound: 0,
            key: [false; 16],
            out: Display::new(),
            mem: [0; 4096],
        };
        cpu.load_image();
        proof {
            cpu.out.lemma_cells();
            assert(cpu@.v =~= initial(rom@).v);
            assert(cpu@.keys =~= initial(rom@).keys);
            assert(cpu@.stack =~= initial(rom@).stack);
        }
        cpu
    }

    /// Fills memory with the font and the program image over zeroes.
    fn load_image(&mut self)
        ensures
            final(self).mem@ == initial_memory(old(self).rom@),
            final(self).rom == old(self).rom,
            final(self).v == old(self).v,
            final(self).pc == old(self).pc,
            final(self).i == old(self).i,
            final(self).stk == old(self).stk,
            final(self).sp == old(self).sp,
            final(self).t_delay == old(self).t_delay,
            final(self).t_sound == old(self).t_sound,
            final(self).key == old(self).key,
            final(self).out == old(self).out,
    {
        self.mem = [0; 4096];
        let mut k: usize = 0;
        while k < 80
            invariant
                k <= 80,
                self.rom == old(self).rom,
                self.v == old(self).v,
                self.pc == old(self).pc,
                self.i == old(self).i,
                self.stk == old(self).stk,
                self.sp == old(self).sp,
                self.t_delay == old(self).t_delay,
                self.t_sound == old(self).t_sound,
                self.key == old(self).key,
                self.out == old(self).out,
                forall|a: int|
                    0 <= a < 4096 ==> #[trigger] self.mem@[a] == (if 0x050 <= a < 0x050 + k {
                        FONT[a - 0x050]
                    } else {
                        0u8
                    }),
            decreases 80 - k,
        {
            self.mem[FONT_START as usize + k] = FONT[k];
            k += 1;
        }
        let count: usize = if self.rom.len() < PROGRAM_CAPACITY {
            self.rom.len()
        } else {
            PROGRAM_CAPACITY
        };
        let mut j: usize = 0;
        while j < count
            invariant
                j <= count <= 3584,
                count <= self.rom@.len(),
                count == self.rom@.len() || count == 3584,
                self.rom == old(self).rom,
                self.v == old(self).v,
                self.pc == old(self).pc,
                self.i == old(self).i,
                self.stk == old(self).stk,
                self.sp == old(self).sp,
                self.t_delay == old(self).t_delay,
                self.t_sound == old(self).t_sound,
                self.key == old(self).key,
                self.out == old(self).out,
                forall|a: int|
                    0 <= a < 4096 ==> #[trigger] self.mem@[a] == (if 0x050 <= a < 0x0A0 {
                        FONT[a - 0x050]
                    } else if 0x200 <= a < 0x200 + j {
                        self.rom@[a - 0x200]
                    } else {
                        0u8
                    }),
            decreases count - j,
        {
            self.mem[PROGRAM_START as usize + j] = self.rom[j];
            j += 1;
        }
        assert(self.mem@ =~= initial_memory(old(self).rom@));
    }

    /// Starts over on the same image: every register, timer, key and
    /// cell cleared, memory rebuilt, the program counter at
    /// `PROGRAM_START`.
    pub fn reset(&mut self)
        ensures
            final(self).wf(),
            final(self)@ == initial(old(self)@.rom),
    {
        self.v = [0; 16];
        self.pc = PROGRAM_START;
        self.i = 0;
        self.stk = [0; 16];
        self.sp = 0;
        self.t_delay = 0;
        self.t_sound = 0;
        self.key = [false; 16];
        self.out.clear();
        self.load_image();
        proof {
            self.out.lemma_cells();
            assert(self@.v =~= initial(old(self)@.rom).v);
            assert(self@.keys =~= initial(old(self)@.rom).keys);
            assert(self@.stack =~= initial(old(self)@.rom).stack);
        }
    }

    /// The program image the machine was started on: the field `rom`.
    pub fn image(&self) -> (rom: &Vec<u8>)
        ensures
            rom@ == self@.rom,
    {
        &self.rom
    }

    /// The program counter.
    pub fn pc(&self) -> (pc: u16)
        ensures
            pc == self@.pc,
    {
        self.pc
    }

    /// The index register `I`.
    pub fn index(&self) -> (i: u16)
        ensures
            i == self@.i,
    {
        self.i
    }

    /// The delay timer.
    pub fn delay(&self) -> (ticks: u8)
        ensures
            ticks == self@.delay,
    {
        self.t_delay
    }

    /// The sound timer.
    pub fn sound(&self) -> (ticks: u8)
        ensures
            ticks == self@.sound,
    {
        self.t_sound
    }

    /// The number of calls that have not returned yet.
    pub fn stack_depth(&self) -> (depth: u8)
        ensures
            depth == self@.stack.len(),
    {
        self.sp
    }

    /// The screen, for rendering between two cycles.
    pub fn display(&self) -> (screen: &Display)
        ensures
            screen@ == self@.screen,
    {
        &self.out
    }

    /// The value of register `index`, or `InvalidRegister` for an index
    /// of sixteen or more.
    pub fn register(&self, index: usize) -> (value: Result<u8, Fault>)
        ensures
            index < 16 ==> value == Ok::<u8, Fault>(self@.v[index as int]),
            index >= 16 ==> value == Err::<u8, Fault>(Fault::InvalidRegister { index }),
    {
        match self.validate_index(index) {
            Ok(()) => Ok(self.v[index]),
            Err(fault) => Err(fault),
        }
    }

    /// The byte at `address`, or `InvalidAddress` for an address outside
    /// memory.
    pub fn peek(&self, address: u16) -> (value: Result<u8, Fault>)
        ensures
            address < 4096 ==> value == Ok::<u8, Fault>(self@.mem[address as int]),
            address >= 4096 ==> value == Err::<u8, Fault>(Fault::InvalidAddress { address }),
    {
        if address as usize >= MEMORY_SIZE {
            Err(Fault::InvalidAddress { address })
        } else {
            Ok(self.mem[address as usize])
        }
    }

    /// Records which keys are held down, for the cycles that follow.
    pub fn set_keys(&mut self, keys: [bool; 16])
        requires
            old(self).wf(),
        ensures
            final(self).wf(),
            final(self)@ == (Machine { keys: keys@, ..old(self)@ }),
    {
        self.key = keys;
    }

    /// Moves both timers one step towards zero; a timer at zero stays.
    pub fn tick_timers(&mut self)
        requires
            old(self).wf(),
        ensures
            final(self).wf(),
            final(self)@ == old(self)@.ticked(),
    {
        if self.t_delay > 0 {
            self.t_delay = self.t_delay - 1;
        }
        if self.t_sound > 0 {
            self.t_sound = self.t_sound - 1;
        }
    }
}

impl CPU {
    /// The register index in the low nibble of an instruction's first
    /// byte, and the one in the high nibble of its second.
    fn register_pair(&self, left: u8, right: u8) -> (pair: (usize, usize))
        ensures
            pair.0 == low_nibble(left),
            pair.1 == high_nibble(right),
            pair.0 < 16 && pair.1 < 16,
    {
        let (_, x): (u8, u8) = self.split_byte(left);
        let (y, _): (u8, u8) = self.split_byte(right);
        (x as usize, y as usize)
    }

    /// The 12-bit address in the low three nibbles of an instruction.
    fn address(&self, left: u8, right: u8) -> (nnn: u16)
        ensures
            nnn == address_of(left, right),
            nnn < 4096,
    {
        let (_, n1): (u8, u8) = self.split_byte(left);
        let (n2, n3): (u8, u8) = self.split_byte(right);
        self.smash_3_nib(n1, n2, n3)
    }

    /// `00E0`: turns every cell of the screen off.
    pub fn display_clear(&mut self)
        requires
            old(self).wf(),
        ensures
            final(self).wf(),
            final(self)@ == old(self)@.clear_screen(),
            forall|cell: int| 0 <= cell < 2048 ==> !final(self)@.screen[cell],
    {
        self.out.clear();
    }

    /// `00EE`: returns from the most recent call.
    ///
    /// Fails with `StackUnderflow`, changing nothing, when no call is
    /// outstanding.
    pub fn sub_return(&mut self) -> (done: Result<(), Fault>)
        requires
            old(self).wf(),
        ensures
            final(self).wf(),
            old(self)@.stack.len() == 0 ==> done == Err::<(), Fault>(Fault::StackUnderflow)
                && final(self)@ == old(self)@,
            old(self)@.stack.len() > 0 ==> done is Ok && final(self)@ == old(self)@.returned(),
    {
        if self.sp == 0 {
            return Err(Fault::StackUnderflow);
        }
        self.sp = self.sp - 1;
        self.pc = self.stk[self.sp as usize];
        assert(self@.stack =~= old(self)@.stack.drop_last());
        Ok(())
    }

    /// `1NNN`: continues at address `NNN`.
    pub fn goto_address(&mut self, left: u8, right: u8)
        requires
            old(self).wf(),
        ensures
            final(self).wf(),
            final(self)@ == old(self)@.jumped(address_of(left, right)),
    {
        let address: u16 = join(left, right);
        assert(address & 0x0FFF == address % 4096) by (bit_vector);
        self.pc = address & 0x0FFF;
    }

    /// `2NNN`: puts the program counter on the stack and continues at
    /// address `NNN`.
    ///
    /// Fails with `StackOverflow`, changing nothing, when sixteen calls
    /// are outstanding.
    pub fn sub_call(&mut self, left: u8, right: u8) -> (done: Result<(), Fault>)
        requires
            old(self).wf(),
        ensures
            final(self).wf(),
            old(self)@.stack.len() >= 16 ==> done == Err::<(), Fault>(Fault::StackOverflow)
                && final(self)@ == old(self)@,
            old(self)@.stack.len() < 16 ==> done is Ok && final(self)@ == old(self)@.called(
                address_of(left, right),
            ),
    {
        if self.sp >= STACK_DEPTH {
            return Err(Fault::StackOverflow);
        }
        let target: u16 = self.address(left, right);
        self.stk[self.sp as usize] = self.pc;
        self.sp = self.sp + 1;
        self.pc = target;
        assert(self@.stack =~= old(self)@.stack.push(old(self)@.pc));
        Ok(())
    }

    /// `3XNN`: skips the next instruction if `VX` equals `NN`.
    pub fn skip_eq_mem(&mut self, left: u8, right: u8)
        requires
            old(self).wf(),
            old(self)@.pc + 2 <= u16::MAX,
        ensures
            final(self).wf(),
            final(self)@ == old(self)@.skip_if(old(self)@.v[low_nibble(left)] == right),
    {
        let index: usize = (0x0F & left) as usize;
        assert(0x0F & left == left % 16) by (bit_vector);
        if right == self.v[index] {
            self.pc = self.pc + 2;
        }
    }

    /// `4XNN`: skips the next instruction if `VX` differs from `NN`.
    pub fn skip_no_eq(&mut self, left: u8, right: u8)
        requires
            old(self).wf(),
            old(self)@.pc + 2 <= u16::MAX,
        ensures
            final(self).wf(),
            final(self)@ == old(self)@.skip_if(old(self)@.v[low_nibble(left)] != right),
    {
        let index: usize = (0x0F & left) as usize;
        assert(0x0F & left == left % 16) by (bit_vector);
        if right != self.v[index] {
            self.pc = self.pc + 2;
        }
    }

    /// `5XY0`: skips the next instruction if `VX` equals `VY`.
    pub fn skip_eq_reg(&mut self, left: u8, right: u8)
        requires
            old(self).wf(),
            old(self)@.pc + 2 <= u16::MAX,
        ensures
            final(self).wf(),
            final(self)@ == old(self)@.skip_if(
                old(self)@.v[low_nibble(left)] == old(self)@.v[high_nibble(right)],
            ),
    {
        let (x, y): (usize, usize) = self.register_pair(left, right);
        if self.v[x] == self.v[y] {
            self.pc = self.pc + 2;
        }
    }

    /// `6XNN`: sets `VX` to `NN`.
    pub fn set_x_mem(&mut self, left: u8, right: u8)
        requires
            old(self).wf(),
        ensures
            final(self).wf(),
            final(self)@ == old(self)@.with_reg(low_nibble(left), right),
    {
        let index: usize = (0x0F & left) as usize;
        assert(0x0F & left == left % 16) by (bit_vector);
        self.v[index] = right;
    }

    /// `7XNN`: adds `NN` to `VX` modulo 256; `VF` does not record the
    /// carry.
    pub fn add_x_mem(&mut self, left: u8, right: u8)
        requires
            old(self).wf(),
        ensures
            final(self).wf(),
            final(self)@ == old(self)@.add_imm(low_nibble(left), right),
    {
        let index: usize = (0x0F & left) as usize;
        assert(0x0F & left == left % 16) by (bit_vector);
        let sum: u16 = self.v[index] as u16 + right as u16;
        self.v[index] = (sum % 256) as u8;
    }

    /// `8XY0`: sets `VX` to `VY`.
    pub fn set_x_y(&mut self, left: u8, right: u8)
        requires
            old(self).wf(),
        ensures
            final(self).wf(),
            final(self)@ == old(self)@.with_reg(
                low_nibble(left),
                old(self)@.v[high_nibble(right)],
            ),
    {
        let (x, y): (usize, usize) = self.register_pair(left, right);
        self.v[x] = self.v[y];
    }

    /// `8XY1`: sets `VX` to the bitwise OR of `VX` and `VY`.
    pub fn set_x_or_y(&mut self, left: u8, right: u8)
        requires
            old(self).wf(),
        ensures
            final(self).wf(),
            final(self)@ == old(self)@.with_reg(
                low_nibble(left),
                old(self)@.v[low_nibble(left)] | old(self)@.v[high_nibble(right)],
            ),
    {
        let (x, y): (usize, usize) = self.register_pair(left, right);
        self.v[x] = self.v[x] | self.v[y];
    }

    /// `8XY2`: sets `VX` to the bitwise AND of `VX` and `VY`.
    pub fn set_x_and_y(&mut self, left: u8, right: u8)
        requires
            old(self).wf(),
        ensures
            final(self).wf(),
            final(self)@ == old(self)@.with_reg(
                low_nibble(left),
                old(self)@.v[low_nibble(left)] & old(self)@.v[high_nibble(right)],
            ),
    {
        let (x, y): (usize, usize) = self.register_pair(left, right);
        self.v[x] = self.v[x] & self.v[y];
    }

    /// `8XY3`: sets `VX` to the bitwise XOR of `VX` and `VY`.
    pub fn set_x_xor_y(&mut self, left: u8, right: u8)
        requires
            old(self).wf(),
        ensures
            final(self).wf(),
            final(self)@ == old(self)@.with_reg(
                low_nibble(left),
                old(self)@.v[low_nibble(left)] ^ old(self)@.v[high_nibble(right)],
            ),
    {
        let (x, y): (usize, usize) = self.register_pair(left, right);
        self.v[x] = self.v[x] ^ self.v[y];
    }

    /// `8XY4`: adds `VY` to `VX` modulo 256, then sets `VF` to 1 if the
    /// sum passed 255 and to 0 otherwise.
    ///
    /// Where `X` is `F` the flag is what stays in `VF`.
    pub fn set_x_add_y(&mut self, left: u8, right: u8)
        requires
            old(self).wf(),
        ensures
            final(self).wf(),
            final(self)@ == old(self)@.add_reg(low_nibble(left), high_nibble(right)),
            low_nibble(left) != 15 ==> final(self)@.v[low_nibble(left)] == (old(self)@.v[low_nibble(
                left,
            )] + old(self)@.v[high_nibble(right)]) % 256,
            final(self)@.v[15] == 1 <==> old(self)@.v[low_nibble(left)] + old(self)@.v[high_nibble(
                right,
            )] >= 256,
            final(self)@.v[15] == 0 || final(self)@.v[15] == 1,
    {
        let (x, y): (usize, usize) = self.register_pair(left, right);
        let sum: u16 = self.v[x] as u16 + self.v[y] as u16;
        self.v[x] = (sum % 256) as u8;
        self.v[15] = if sum >= 256 {
            1
        } else {
            0
        };
    }

    /// `8XY5`: subtracts `VY` from `VX` modulo 256, then sets `VF` to 1
    /// if `VX` was at least `VY` and to 0 otherwise.
    ///
    /// Where `X` is `F` the flag is what stays in `VF`.
    pub fn set_x_sub_y(&mut self, left: u8, right: u8)
        requires
            old(self).wf(),
        ensures
            final(self).wf(),
            final(self)@ == old(self)@.sub_reg(low_nibble(left), high_nibble(right)),
            final(self)@.v[15] == 1 <==> old(self)@.v[low_nibble(left)] >= old(self)@.v[high_nibble(
                right,
            )],
            final(self)@.v[15] == 0 || final(self)@.v[15] == 1,
    {
        let (x, y): (usize, usize) = self.register_pair(left, right);
        let minuend: u8 = self.v[x];
        let subtrahend: u8 = self.v[y];
        if minuend >= subtrahend {
            self.v[x] = minuend - subtrahend;
            self.v[15] = 1;
        } else {
            self.v[x] = (256 + minuend as u16 - subtrahend as u16) as u8;
            self.v[15] = 0;
        }
    }

    /// `8XY6`: sets `VF` to the lowest bit of `VX`, then halves `VX`.
    ///
    /// Where `X` is `F` the halved flag is what stays in `VF`: zero.
    pub fn set_x_r_shift(&mut self, left: u8, _right: u8)
        requires
            old(self).wf(),
        ensures
            final(self).wf(),
            final(self)@ == old(self)@.shift_right(low_nibble(left)),
    {
        let (_, nibble): (u8, u8) = self.split_byte(left);
        let x: usize = nibble as usize;
        let before: u8 = self.v[x];
        assert(before & 0x01 == before % 2) by (bit_vector);
        self.v[0xf] = before & 0x01;
        let flagged: u8 = self.v[x];
        assert(flagged >> 1 == flagged / 2) by (bit_vector);
        self.v[x] = flagged >> 1;
    }

    /// `8XY7`: sets `VX` to `VY` minus `VX` modulo 256, then sets `VF` to
    /// 1 if `VY` was at least `VX` and to 0 otherwise.
    ///
    /// Where `X` is `F` the flag is what stays in `VF`.
    pub fn set_x_diff_x(&mut self, left: u8, right: u8)
        requires
            old(self).wf(),
        ensures
            final(self).wf(),
            final(self)@ == old(self)@.sub_rev(low_nibble(left), high_nibble(right)),
            final(self)@.v[15] == 1 <==> old(self)@.v[high_nibble(right)] >= old(self)@.v[low_nibble(
                left,
            )],
            final(self)@.v[15] == 0 || final(self)@.v[15] == 1,
    {
        let (x, y): (usize, usize) = self.register_pair(left, right);
        let minuend: u8 = self.v[y];
        let subtrahend: u8 = self.v[x];
        if minuend >= subtrahend {
            self.v[x] = minuend - subtrahend;
            self.v[15] = 1;
        } else {
            self.v[x] = (256 + minuend as u16 - subtrahend as u16) as u8;
            self.v[15] = 0;
        }
    }

    /// `8XYE`: sets `VF` to the highest bit of `VX`, then doubles `VX`
    /// modulo 256.
    ///
    /// Where `X` is `F` the doubled flag is what stays in `VF`.
    pub fn set_x_l_shift(&mut self, left: u8, _right: u8)
        requires
            old(self).wf(),
        ensures
            final(self).wf(),
            final(self)@ == old(self)@.shift_left(low_nibble(left)),
    {
        let (_, nibble): (u8, u8) = self.split_byte(left);
        let x: usize = nibble as usize;
        let before: u8 = self.v[x];
        assert((before >> 7) & 0x01 == before / 128) by (bit_vector);
        self.v[0xf] = (before >> 7) & 0x01;
        let flagged: u8 = self.v[x];
        assert(flagged << 1 == ((flagged * 2 % 256) as u8)) by (bit_vector);
        self.v[x] = flagged << 1;
    }

    /// `9XY0`: skips the next instruction if `VX` differs from `VY`.
    pub fn skip_x_not_y(&mut self, left: u8, right: u8)
        requires
            old(self).wf(),
            old(self)@.pc + 2 <= u16::MAX,
        ensures
            final(self).wf(),
            final(self)@ == old(self)@.skip_if(
                old(self)@.v[low_nibble(left)] != old(self)@.v[high_nibble(right)],
            ),
    {
        let (x, y): (usize, usize) = self.register_pair(left, right);
        if self.v[x] != self.v[y] {
            self.pc = self.pc + 2;
        }
    }

    /// `ANNN`: sets `I` to `NNN`.
    pub fn set_i_mem(&mut self, left: u8, right: u8)
        requires
            old(self).wf(),
        ensures
            final(self).wf(),
            final(self)@ == old(self)@.with_index(address_of(left, right)),
    {
        self.i = self.address(left, right);
    }

    /// `BNNN`: continues at address `V0 + NNN`.
    pub fn jump_to_mem(&mut self, left: u8, right: u8)
        requires
            old(self).wf(),
        ensures
            final(self).wf(),
            final(self)@ == old(self)@.jumped(old(self)@.v[0] + address_of(left, right)),
    {
        let target: u16 = self.address(left, right);
        self.pc = (self.v[0] as u16) + target;
    }
}

impl CPU {
    /// `CXNN` with the byte already drawn: sets `VX` to `byte & NN`.
    pub fn set_x_rand_with(&mut self, left: u8, right: u8, byte: u8)
        requires
            old(self).wf(),
        ensures
            final(self).wf(),
            final(self)@ == old(self)@.randomized(low_nibble(left), right, byte),
    {
        let quad: (u8, u8, u8, u8) = self.split_pair((left, right));
        let nn: u8 = self.smash_2_nib(quad.2, quad.3);
        assert(nn == right);
        self.v[quad.1 as usize] = byte & nn;
    }

    /// `CXNN`: draws a random byte and sets `VX` to that byte masked by
    /// `NN`.
    ///
    /// Whatever byte is drawn, `VX` has no bit set outside `NN`, and
    /// nothing but `VX` changes.
    pub fn set_x_rand(&mut self, left: u8, right: u8)
        requires
            old(self).wf(),
        ensures
            final(self).wf(),
            exists|byte: u8|
                final(self)@ == #[trigger] old(self)@.randomized(low_nibble(left), right, byte),
            final(self)@.v[low_nibble(left)] & right == final(self)@.v[low_nibble(left)],
    {
        let byte: u8 = random_byte();
        self.set_x_rand_with(left, right, byte);
        assert((byte & right) & right == byte & right) by (bit_vector);
    }

    /// `EX9E`: skips the next instruction if the key named by the low
    /// four bits of `VX` is held down.
    pub fn skip_is_key(&mut self, left: u8, _right: u8)
        requires
            old(self).wf(),
            old(self)@.pc + 2 <= u16::MAX,
        ensures
            final(self).wf(),
            final(self)@ == old(self)@.skip_if(old(self)@.keys[old(self)@.key_of(low_nibble(left))]),
    {
        let (_, x): (u8, u8) = self.split_byte(left);
        let (_, wanted): (u8, u8) = self.split_byte(self.v[x as usize]);
        if self.key[wanted as usize] {
            self.pc = self.pc + 2;
        }
    }

    /// `EXA1`: skips the next instruction if the key named by the low
    /// four bits of `VX` is not held down.
    pub fn skip_is_not_key(&mut self, left: u8, _right: u8)
        requires
            old(self).wf(),
            old(self)@.pc + 2 <= u16::MAX,
        ensures
            final(self).wf(),
            final(self)@ == old(self)@.skip_if(
                !old(self)@.keys[old(self)@.key_of(low_nibble(left))],
            ),
    {
        let (_, x): (u8, u8) = self.split_byte(left);
        let (_, wanted): (u8, u8) = self.split_byte(self.v[x as usize]);
        if !self.key[wanted as usize] {
            self.pc = self.pc + 2;
        }
    }

    /// `FX07`: sets `VX` to the delay timer.
    pub fn set_x_delay(&mut self, left: u8, _right: u8)
        requires
            old(self).wf(),
        ensures
            final(self).wf(),
            final(self)@ == old(self)@.with_reg(low_nibble(left), old(self)@.delay),
    {
        let (_, x): (u8, u8) = self.split_byte(left);
        self.v[x as usize] = self.t_delay;
    }

    /// `FX15`: sets the delay timer to `VX`.
    pub fn set_delay_x(&mut self, left: u8, _right: u8)
        requires
            old(self).wf(),
        ensures
            final(self).wf(),
            final(self)@ == old(self)@.with_delay(old(self)@.v[low_nibble(left)]),
    {
        let (_, x): (u8, u8) = self.split_byte(left);
        self.t_delay = self.v[x as usize];
    }

    /// `FX18`: sets the sound timer to `VX`.
    pub fn set_sound_x(&mut self, left: u8, _right: u8)
        requires
            old(self).wf(),
        ensures
            final(self).wf(),
            final(self)@ == old(self)@.with_sound(old(self)@.v[low_nibble(left)]),
    {
        let (_, x): (u8, u8) = self.split_byte(left);
        self.t_sound = self.v[x as usize];
    }

    /// `FX1E`: adds `VX` to `I` modulo 65536.
    pub fn set_i_add_x(&mut self, left: u8, _right: u8)
        requires
            old(self).wf(),
        ensures
            final(self).wf(),
            final(self)@ == old(self)@.add_index(low_nibble(left)),
    {
        let (_, x): (u8, u8) = self.split_byte(left);
        let sum: u32 = self.i as u32 + self.v[x as usize] as u32;
        self.i = (sum % 0x10000) as u16;
    }

    /// `FX29`: sets `I` to the address of the font glyph for the digit
    /// in the low four bits of `VX`.
    pub fn set_i_sprt_adr(&mut self, left: u8, _right: u8)
        requires
            old(self).wf(),
        ensures
            final(self).wf(),
            final(self)@ == old(self)@.glyph(low_nibble(left)),
    {
        let (_, x): (u8, u8) = self.split_byte(left);
        let (_, digit): (u8, u8) = self.split_byte(self.v[x as usize]);
        self.i = FONT_START + 5 * (digit as u16);
    }

    /// `FX33`: writes the hundreds, tens and units of `VX` to memory at
    /// `I`, `I + 1` and `I + 2`.
    ///
    /// Fails with `InvalidAddress`, changing nothing, unless all three
    /// addresses lie in memory.
    pub fn parse_x_to_i(&mut self, left: u8, _right: u8) -> (done: Result<(), Fault>)
        requires
            old(self).wf(),
        ensures
            final(self).wf(),
            old(self)@.i + 2 >= 4096 ==> done == Err::<(), Fault>(
                Fault::InvalidAddress { address: old(self)@.i as u16 },
            ) && final(self)@ == old(self)@,
            old(self)@.i + 2 < 4096 ==> done is Ok && final(self)@ == old(self)@.bcd(
                low_nibble(left),
            ),
    {
        let (_, x): (u8, u8) = self.split_byte(left);
        let base: usize = self.i as usize;
        if base + 2 >= MEMORY_SIZE {
            return Err(Fault::InvalidAddress { address: self.i });
        }
        let value: u8 = self.v[x as usize];
        self.mem[base] = value / 100;
        self.mem[base + 1] = value / 10 % 10;
        self.mem[base + 2] = value % 10;
        Ok(())
    }

    /// `FX55`: writes `V0` to `VX`, both included, to memory from `I` on.
    /// `I` keeps its value.
    ///
    /// Fails with `InvalidAddress`, changing nothing, unless all the
    /// addresses written lie in memory.
    pub fn reg_dump(&mut self, left: u8, _right: u8) -> (done: Result<(), Fault>)
        requires
            old(self).wf(),
        ensures
            final(self).wf(),
            old(self)@.i + low_nibble(left) >= 4096 ==> done == Err::<(), Fault>(
                Fault::InvalidAddress { address: old(self)@.i as u16 },
            ) && final(self)@ == old(self)@,
            old(self)@.i + low_nibble(left) < 4096 ==> done is Ok && final(self)@ == old(
                self,
            )@.store(low_nibble(left)),
    {
        let (_, nibble): (u8, u8) = self.split_byte(left);
        let x: usize = nibble as usize;
        let base: usize = self.i as usize;
        if base + x >= MEMORY_SIZE {
            return Err(Fault::InvalidAddress { address: self.i });
        }
        let mut k: usize = 0;
        while k <= x
            invariant
                k <= x + 1,
                x < 16,
                base + x < 4096,
                base == old(self)@.i,
                self.rom == old(self).rom,
                self.v == old(self).v,
                self.pc == old(self).pc,
                self.i == old(self).i,
                self.stk == old(self).stk,
                self.sp == old(self).sp,
                self.t_delay == old(self).t_delay,
                self.t_sound == old(self).t_sound,
                self.key == old(self).key,
                self.out == old(self).out,
                forall|a: int|
                    0 <= a < 4096 ==> #[trigger] self.mem@[a] == (if base <= a < base + k {
                        old(self).v@[a - base]
                    } else {
                        old(self).mem@[a]
                    }),
            decreases x + 1 - k,
        {
            self.mem[base + k] = self.v[k];
            k += 1;
        }
        assert(self@.mem =~= old(self)@.store(low_nibble(left)).mem);
        Ok(())
    }

    /// `FX65`: reads `V0` to `VX`, both included, from memory from `I`
    /// on. `I` keeps its value.
    ///
    /// Fails with `InvalidAddress`, changing nothing, unless all the
    /// addresses read lie in memory.
    pub fn reg_fill(&mut self, left: u8, _right: u8) -> (done: Result<(), Fault>)
        requires
            old(self).wf(),
        ensures
            final(self).wf(),
            old(self)@.i + low_nibble(left) >= 4096 ==> done == Err::<(), Fault>(
                Fault::InvalidAddress { address: old(self)@.i as u16 },
            ) && final(self)@ == old(self)@,
            old(self)@.i + low_nibble(left) < 4096 ==> done is Ok && final(self)@ == old(
                self,
            )@.load(low_nibble(left)),
    {
        let (_, nibble): (u8, u8) = self.split_byte(left);
        let x: usize = nibble as usize;
        let base: usize = self.i as usize;
        if base + x >= MEMORY_SIZE {
            return Err(Fault::InvalidAddress { address: self.i });
        }
        let mut k: usize = 0;
        while k <= x
            invariant
                k <= x + 1,
                x < 16,
                base + x < 4096,
                base == old(self)@.i,
                self.rom == old(self).rom,
                self.mem == old(self).mem,
                self.pc == old(self).pc,
                self.i == old(self).i,
                self.stk == old(self).stk,
                self.sp == old(self).sp,
                self.t_delay == old(self).t_delay,
                self.t_sound == old(self).t_sound,
                self.key == old(self).key,
                self.out == old(self).out,
                forall|r: int|
                    0 <= r < 16 ==> #[trigger] self.v@[r] == (if r < k {
                        old(self).mem@[base + r]
                    } else {
                        old(self).v@[r]
                    }),
            decreases x + 1 - k,
        {
            self.v[k] = self.mem[base + k];
            k += 1;
        }
        assert(self@.v =~= old(self)@.load(low_nibble(left)).v);
        Ok(())
    }
}

impl CPU {
    /// `DXYN`: XORs the sprite of `N` rows found at `I` onto the screen
    /// with its corner at `(VX, VY)`, wrapping around the edges, then
    /// sets `VF` to 1 if a lit cell was turned off and to 0 otherwise.
    ///
    /// Fails with `InvalidAddress`, changing nothing, unless all `N`
    /// sprite rows lie in memory.
    pub fn draw(&mut self, left: u8, right: u8) -> (done: Result<(), Fault>)
        requires
            old(self).wf(),
        ensures
            final(self).wf(),
            low_nibble(right) > 0 && old(self)@.i + low_nibble(right) > 4096 ==> done == Err::<
                (),
                Fault,
            >(Fault::InvalidAddress { address: old(self)@.i as u16 }) && final(self)@ == old(
                self,
            )@,
            !(low_nibble(right) > 0 && old(self)@.i + low_nibble(right) > 4096) ==> done is Ok
                && final(self)@ == old(self)@.draw(
                low_nibble(left),
                high_nibble(right),
                low_nibble(right),
            ),
    {
        let q: (u8, u8, u8, u8) = self.split_pair((left, right));
        let n: usize = q.3 as usize;
        let base: usize = self.i as usize;
        if n > 0 && base + n > MEMORY_SIZE {
            return Err(Fault::InvalidAddress { address: self.i });
        }
        let x0: usize = self.v[q.1 as usize] as usize;
        let y0: usize = self.v[q.2 as usize] as usize;
        let ghost start = self@;
        let mut collision: bool = false;
        let mut row: usize = 0;
        proof {
            self.out.lemma_cells();
            start.lemma_sprite_whole(x0 as int, y0 as int, n as int);
        }
        while row < n
            invariant
                row <= n < 16,
                n == 0 || base + n <= 4096,
                base == start.i,
                x0 < 256 && y0 < 256,
                start == old(self)@,
                start.wf(),
                start.mem == self.mem@,
                self.rom == old(self).rom,
                self.v == old(self).v,
                self.mem == old(self).mem,
                self.pc == old(self).pc,
                self.i == old(self).i,
                self.stk == old(self).stk,
                self.sp == old(self).sp,
                self.t_delay == old(self).t_delay,
                self.t_sound == old(self).t_sound,
                self.key == old(self).key,
                self.out@.len() == 2048,
                forall|cell: int|
                    0 <= cell < 2048 ==> #[trigger] self.out@[cell] == (start.screen[cell]
                        != start.sprite_covers_before(
                        x0 as int,
                        y0 as int,
                        n as int,
                        cell,
                        row as int,
                        0,
                    )),
                collision == start.sprite_hits_before(
                    x0 as int,
                    y0 as int,
                    n as int,
                    row as int,
                    0,
                ),
            decreases n - row,
        {
            let bits: u8 = self.mem[base + row];
            let mut col: usize = 0;
            while col < 8
                invariant
                    col <= 8,
                    row < n < 16,
                    base + n <= 4096,
                    base == start.i,
                    x0 < 256 && y0 < 256,
                    start == old(self)@,
                    start.wf(),
                    start.mem == self.mem@,
                    bits == start.mem[base + row],
                    self.rom == old(self).rom,
                    self.v == old(self).v,
                    self.mem == old(self).mem,
                    self.pc == old(self).pc,
                    self.i == old(self).i,
                    self.stk == old(self).stk,
                    self.sp == old(self).sp,
                    self.t_delay == old(self).t_delay,
                    self.t_sound == old(self).t_sound,
                    self.key == old(self).key,
                    self.out@.len() == 2048,
                    forall|cell: int|
                        0 <= cell < 2048 ==> #[trigger] self.out@[cell] == (start.screen[cell]
                            != start.sprite_covers_before(
                            x0 as int,
                            y0 as int,
                            n as int,
                            cell,
                            row as int,
                            col as int,
                        )),
                    collision == start.sprite_hits_before(
                        x0 as int,
                        y0 as int,
                        n as int,
                        row as int,
                        col as int,
                    ),
                decreases 8 - col,
            {
                let on: bool = bits & (0x80u8 >> (col as u8)) != 0;
                let ghost before = self.out@;
                proof {
                    start.lemma_sprite_pixel(
                        x0 as int,
                        y0 as int,
                        n as int,
                        row as int,
                        col as int,
                    );
                    assert(before[cell_index(x0 + col, y0 + row)] == start.screen[cell_index(
                        x0 + col,
                        y0 + row,
                    )]);
                }
                let hit: bool = self.out.set_pixel(x0 + col, y0 + row, on);
                if hit {
                    collision = true;
                }
                proof {
                    assert forall|cell: int| 0 <= cell < 2048 implies #[trigger] self.out@[cell] == (
                    start.screen[cell] != start.sprite_covers_before(
                        x0 as int,
                        y0 as int,
                        n as int,
                        cell,
                        row as int,
                        col + 1,
                    )) by {
                        if cell != cell_index(x0 + col, y0 + row) {
                            assert(self.out@[cell] == before[cell]);
                        }
                    }
                }
                col += 1;
            }
            proof {
                start.lemma_sprite_row(x0 as int, y0 as int, n as int, row as int);
            }
            row += 1;
        }
        self.v[15] = if collision {
            1
        } else {
            0
        };
        proof {
            let goal = old(self)@.draw(low_nibble(left), high_nibble(right), low_nibble(right));
            assert(x0 == start.v[low_nibble(left)] && y0 == start.v[high_nibble(right)]);
            assert(self@.screen =~= goal.screen);
            assert(self@.v =~= goal.v);
        }
        Ok(())
    }
}

impl CPU {
    /// Reads the two bytes of the instruction at the program counter.
    ///
    /// Fails with `InvalidAddress` unless both lie in memory.
    pub fn fetch(&self) -> (bytes: Result<(u8, u8), Fault>)
        requires
            self.wf(),
        ensures
            self@.pc + 1 >= 4096 ==> bytes == Err::<(u8, u8), Fault>(
                Fault::InvalidAddress { address: self@.pc as u16 },
            ),
            self@.pc + 1 < 4096 ==> bytes == Ok::<(u8, u8), Fault>(
                (self@.mem[self@.pc], self@.mem[self@.pc + 1]),
            ),
    {
        let at: usize = self.pc as usize;
        if at + 1 >= MEMORY_SIZE {
            Err(Fault::InvalidAddress { address: self.pc })
        } else {
            Ok((self.mem[at], self.mem[at + 1]))
        }
    }

    /// Executes the instruction made of `left` and `right` on a machine
    /// whose program counter is already past it.
    fn dispatch(&mut self, kind: Option<Opcode>, left: u8, right: u8, random: u8) -> (done:
        Result<(), Fault>)
        requires
            old(self).wf(),
            old(self)@.pc + 2 <= u16::MAX,
            kind == opcode_of(word_of(left, right) as u16),
        ensures
            final(self).wf(),
            realized(
                old(self)@.execute(word_of(left, right) as u16, random),
                old(self)@,
                fault_of(done),
                final(self)@,
            ),
    {
        proof {
            lemma_operands_of_bytes(left, right);
        }
        match kind {
            None => Err(Fault::UnknownOpcode { word: join(left, right) }),
            Some(kind) => match kind {
                Opcode::ClearScreen => {
                    self.display_clear();
                    Ok(())
                },
                Opcode::Return => self.sub_return(),
                Opcode::Jump => {
                    self.goto_address(left, right);
                    Ok(())
                },
                Opcode::Call => self.sub_call(left, right),
                Opcode::SkipEqImm => {
                    self.skip_eq_mem(left, right);
                    Ok(())
                },
                Opcode::SkipNeImm => {
                    self.skip_no_eq(left, right);
                    Ok(())
                },
                Opcode::SkipEqReg => {
                    self.skip_eq_reg(left, right);
                    Ok(())
                },
                Opcode::LoadImm => {
                    self.set_x_mem(left, right);
                    Ok(())
                },
                Opcode::AddImm => {
                    self.add_x_mem(left, right);
                    Ok(())
                },
                Opcode::Move => {
                    self.set_x_y(left, right);
                    Ok(())
                },
                Opcode::Or => {
                    self.set_x_or_y(left, right);
                    Ok(())
                },
                Opcode::And => {
                    self.set_x_and_y(left, right);
                    Ok(())
                },
                Opcode::Xor => {
                    self.set_x_xor_y(left, right);
                    Ok(())
                },
                Opcode::AddReg => {
                    self.set_x_add_y(left, right);
                    Ok(())
                },
                Opcode::SubReg => {
                    self.set_x_sub_y(left, right);
                    Ok(())
                },
                Opcode::ShiftRight => {
                    self.set_x_r_shift(left, right);
                    Ok(())
                },
                Opcode::SubRev => {
                    self.set_x_diff_x(left, right);
                    Ok(())
                },
                Opcode::ShiftLeft => {
                    self.set_x_l_shift(left, right);
                    Ok(())
                },
                Opcode::SkipNeReg => {
                    self.skip_x_not_y(left, right);
                    Ok(())
                },
                Opcode::LoadIndex => {
                    self.set_i_mem(left, right);
                    Ok(())
                },
                Opcode::JumpOffset => {
                    self.jump_to_mem(left, right);
                    Ok(())
                },
                Opcode::Random => {
                    self.set_x_rand_with(left, right, random);
                    Ok(())
                },
                Opcode::Draw => self.draw(left, right),
                Opcode::SkipKey => {
                    self.skip_is_key(left, right);
                    Ok(())
                },
                Opcode::SkipNoKey => {
                    self.skip_is_not_key(left, right);
                    Ok(())
                },
                Opcode::ReadDelay => {
                    self.set_x_delay(left, right);
                    Ok(())
                },
                Opcode::SetDelay => {
                    self.set_delay_x(left, right);
                    Ok(())
                },
                Opcode::SetSound => {
                    self.set_sound_x(left, right);
                    Ok(())
                },
                Opcode::AddIndex => {
                    self.set_i_add_x(left, right);
                    Ok(())
                },
                Opcode::Glyph => {
                    self.set_i_sprt_adr(left, right);
                    Ok(())
                },
                Opcode::Bcd => self.parse_x_to_i(left, right),
                Opcode::Store => self.reg_dump(left, right),
                Opcode::Load => self.reg_fill(left, right),
            },
        }
    }

    /// Moves the program counter past the instruction made of `left`
    /// and `right`, which was fetched at it, and executes it; on a fault
    /// the program counter is put back.
    fn run(&mut self, kind: Option<Opcode>, left: u8, right: u8, random: u8) -> (done: Result<
        (),
        Fault,
    >)
        requires
            old(self).wf(),
            old(self)@.pc + 1 < 4096,
            left == old(self)@.mem[old(self)@.pc],
            right == old(self)@.mem[old(self)@.pc + 1],
            kind == opcode_of(old(self)@.word_at_pc()),
        ensures
            final(self).wf(),
            realized(old(self)@.step(random), old(self)@, fault_of(done), final(self)@),
    {
        let fetched_at: u16 = self.pc;
        self.pc = fetched_at + 2;
        let done = self.dispatch(kind, left, right, random);
        if done.is_err() {
            self.pc = fetched_at;
        }
        done
    }

    /// Runs the instruction fetched at the program counter as `run`
    /// does, and reports what it did to the screen.
    fn run_and_report(&mut self, kind: Option<Opcode>, left: u8, right: u8, random: u8) -> (done:
        Result<Option<Mutation>, Fault>)
        requires
            old(self).wf(),
            old(self)@.pc + 1 < 4096,
            left == old(self)@.mem[old(self)@.pc],
            right == old(self)@.mem[old(self)@.pc + 1],
            kind == opcode_of(old(self)@.word_at_pc()),
        ensures
            final(self).wf(),
            realized(old(self)@.step(random), old(self)@, fault_of(done), final(self)@),
            done matches Ok(report) ==> reports(report, old(self)@, final(self)@),
    {
        let draws: bool = matches!(kind, Some(Opcode::Draw));
        if draws || matches!(kind, Some(Opcode::ClearScreen)) {
            let earlier: [bool; 2048] = self.out.snapshot();
            match self.run(kind, left, right, random) {
                Err(fault) => Err(fault),
                Ok(()) => Ok(
                    Some(
                        Mutation {
                            toggled: self.out.changes_since(&earlier),
                            collision: draws && self.v[15] == 1,
                        },
                    ),
                ),
            }
        } else {
            match self.run(kind, left, right, random) {
                Err(fault) => Err(fault),
                Ok(()) => Ok(None),
            }
        }
    }

    /// One cycle with the random byte given: fetches the instruction at
    /// the program counter, moves the program counter past it and
    /// executes it, using `random` as the byte drawn if it is a `CXNN`.
    ///
    /// Reports what the instruction did to the screen. On a fault the
    /// machine is left as it was.
    pub fn step_with(&mut self, random: u8) -> (done: Result<Option<Mutation>, Fault>)
        requires
            old(self).wf(),
        ensures
            final(self).wf(),
            realized(old(self)@.step(random), old(self)@, fault_of(done), final(self)@),
            done matches Ok(report) ==> reports(report, old(self)@, final(self)@),
    {
        match self.fetch() {
            Err(fault) => Err(fault),
            Ok((left, right)) => {
                let kind = classify(join(left, right));
                self.run_and_report(kind, left, right, random)
            },
        }
    }

    /// One cycle: fetches the instruction at the program counter, moves
    /// the program counter past it and executes it, drawing a random
    /// byte if it is a `CXNN`.
    ///
    /// The outcome is that of `step_with` on the byte drawn; for every
    /// other instruction the byte plays no part. Reports what the
    /// instruction did to the screen. On a fault the machine is left as
    /// it was.
    pub fn step(&mut self) -> (done: Result<Option<Mutation>, Fault>)
        requires
            old(self).wf(),
        ensures
            final(self).wf(),
            exists|random: u8|
                realized(
                    #[trigger] old(self)@.step(random),
                    old(self)@,
                    fault_of(done),
                    final(self)@,
                ),
            !old(self)@.draws_random() ==> realized(
                old(self)@.step(0),
                old(self)@,
                fault_of(done),
                final(self)@,
            ),
            done matches Ok(report) ==> reports(report, old(self)@, final(self)@),
    {
        match self.fetch() {
            Err(fault) => {
                assert(realized(old(self)@.step(0), old(self)@, Some(fault), self@));
                Err(fault)
            },
            Ok((left, right)) => {
                let kind = classify(join(left, right));
                let random: u8 = match kind {
                    Some(Opcode::Random) => random_byte(),
                    _ => 0,
                };
                self.run_and_report(kind, left, right, random)
            },
        }
    }
}

} // verus!
