//! The interpreter: registers, memory, program counter, index register and
//! call stack, together with the framebuffer, keypad and timers they drive.

use vstd::prelude::*;
use vstd::slice::slice_subrange;
use crate::alu::{add_carry, bcd, flag, shift_left, shift_right, sub_borrow};
use crate::decode::{decode, Instruction};
use crate::display::{blit_spec, collides, lemma_blit_empty, Framebuffer};
use crate::entropy::random_byte;
use crate::error::{Chip8Error, RomTooLarge};
use crate::font::{build_initial_memory, glyph_address};
use crate::keypad::{key_down, Keypad};
use crate::model::{
    draws_random, execute_spec, fetch_spec, initial_state, is_flow, is_memory,
    lemma_step_ignores_unused_byte, loaded, next_instruction_spec, outcome_matches, skip_if,
    sprite_rows, step_ends_as, stored, with_program, State, FLAG_REGISTER, MEMORY_SIZE,
    PROGRAM_START, STACK_DEPTH,
};
use crate::timers::{ticked, Timers};

verus! {

/// A CHIP-8 machine.
#[derive(Clone, Debug)]
pub struct Chip8 {
    registers: Vec<u8>,
    memory: Vec<u8>,
    index: u16,
    pc: u16,
    stack: Vec<u16>,
    screen: Framebuffer,
    keypad: Keypad,
    timers: Timers,
}

impl View for Chip8 {
    type V = State;

    closed spec fn view(&self) -> State {
        State {
            registers: self.registers@,
            memory: self.memory@,
            index: self.index,
            pc: self.pc,
            stack: self.stack@,
            screen: self.screen@,
            keys: self.keypad@,
            delay: self.timers.delay,
            sound: self.timers.sound,
        }
    }
}

impl Chip8 {
    /// The machine's state is well-formed.
    pub open spec fn wf(&self) -> bool {
        self@.wf()
    }

    /// A machine in its initial state.
    pub fn new() -> (vm: Chip8)
        ensures
            vm.wf(),
            vm@ == initial_state(),
    {
        let mut registers: Vec<u8> = Vec::new();
        let mut k: usize = 0;
        while k < 16
            invariant
                k <= 16,
                registers@.len() == k,
                forall|j: int| 0 <= j < k ==> registers@[j] == 0,
            decreases 16 - k,
        {
            registers.push(0);
            k += 1;
        }
        let vm = Chip8 {
            registers,
            memory: build_initial_memory(),
            index: 0,
            pc: PROGRAM_START,
            stack: Vec::new(),
            screen: Framebuffer::new(),
            keypad: Keypad::new(),
            timers: Timers::new(),
        };
        assert(vm@ =~= initial_state());
        vm
    }

    /// Copies the program image `rom` into memory from the load address on
    /// and points the program counter at it.
    ///
    /// An image of more than `4096 - 0x200` bytes is rejected, and the
    /// machine is left as it was.
    pub fn load(&mut self, rom: &[u8]) -> (r: Result<(), RomTooLarge>)
        requires
            old(self).wf(),
        ensures
            final(self).wf(),
            rom@.len() <= 4096 - 0x200 ==> r is Ok && final(self)@ == (State {
                memory: with_program(old(self)@.memory, rom@),
                pc: 0x200,
                ..old(self)@
            }),
            rom@.len() > 4096 - 0x200 ==> r == Err::<(), _>(RomTooLarge { size: rom.len() })
                && final(self)@ == old(self)@,
    {
        if rom.len() > MEMORY_SIZE - PROGRAM_START as usize {
            return Err(RomTooLarge { size: rom.len() });
        }
        let mut i: usize = 0;
        while i < rom.len()
            invariant
                i <= rom.len(),
                rom@.len() <= 4096 - 0x200,
                self.memory@.len() == 4096,
                forall|a: int|
                    0 <= a < 4096 ==> self.memory@[a] == if 0x200 <= a < 0x200 + i {
                        rom@[a - 0x200]
                    } else {
                        old(self).memory@[a]
                    },
                self.registers == old(self).registers,
                self.index == old(self).index,
                self.stack == old(self).stack,
                self.screen == old(self).screen,
                self.keypad == old(self).keypad,
                self.timers == old(self).timers,
            decreases rom.len() - i,
        {
            self.memory.set(PROGRAM_START as usize + i, rom[i]);
            i += 1;
        }
        self.pc = PROGRAM_START;
        assert(self@ =~= (State {
            memory: with_program(old(self)@.memory, rom@),
            pc: 0x200,
            ..old(self)@
        }));
        Ok(())
    }

    /// The registers `V0..=VF`.
    pub fn registers(&self) -> (registers: &[u8])
        ensures
            registers@ == self@.registers,
    {
        self.registers.as_slice()
    }

    /// The whole of memory.
    pub fn memory(&self) -> (memory: &[u8])
        ensures
            memory@ == self@.memory,
    {
        self.memory.as_slice()
    }

    /// The index register `I`.
    pub fn index(&self) -> (index: u16)
        ensures
            index == self@.index,
    {
        self.index
    }

    /// The program counter.
    pub fn pc(&self) -> (pc: u16)
        ensures
            pc == self@.pc,
    {
        self.pc
    }

    /// The return addresses of the calls in progress, innermost last.
    pub fn stack(&self) -> (stack: &[u16])
        ensures
            stack@ == self@.stack,
    {
        self.stack.as_slice()
    }

    /// The framebuffer, for a renderer to read between steps.
    pub fn screen(&self) -> (screen: &Framebuffer)
        ensures
            screen@ == self@.screen,
    {
        &self.screen
    }

    /// The delay timer.
    pub fn delay_timer(&self) -> (value: u8)
        ensures
            value == self@.delay,
    {
        self.timers.delay
    }

    /// The sound timer. The tone is on while it is not zero.
    pub fn sound_timer(&self) -> (value: u8)
        ensures
            value == self@.sound,
    {
        self.timers.sound
    }

    /// Whether `key` is held down.
    pub fn is_key_pressed(&self, key: u8) -> (pressed: bool)
        requires
            self.wf(),
        ensures
            pressed == key_down(self@.keys, key),
    {
        self.keypad.is_pressed(key)
    }

    /// Records a key-down event from the host. Returns whether `key` names
    /// a key of the pad; nothing changes where it does not.
    pub fn key_down(&mut self, key: u8) -> (known: bool)
        requires
            old(self).wf(),
        ensures
            final(self).wf(),
            known == (key < 16),
            final(self)@ == if key < 16 {
                State { keys: old(self)@.keys.update(key as int, true), ..old(self)@ }
            } else {
                old(self)@
            },
    {
        self.keypad.press(key)
    }

    /// Records a key-up event from the host. Returns whether `key` names a
    /// key of the pad; nothing changes where it does not.
    pub fn key_up(&mut self, key: u8) -> (known: bool)
        requires
            old(self).wf(),
        ensures
            final(self).wf(),
            known == (key < 16),
            final(self)@ == if key < 16 {
                State { keys: old(self)@.keys.update(key as int, false), ..old(self)@ }
            } else {
                old(self)@
            },
    {
        self.keypad.release(key)
    }

    /// Advances both timers by one 60 Hz tick: each goes down by one unless
    /// it is zero. Nothing else changes.
    pub fn tick_timers(&mut self)
        ensures
            final(self)@ == (State {
                delay: ticked(old(self)@.delay),
                sound: ticked(old(self)@.sound),
                ..old(self)@
            }),
    {
        self.timers.tick();
    }

    /// Reads the opcode at the program counter, big-endian.
    pub fn fetch(&self) -> (r: Result<u16, Chip8Error>)
        requires
            self.wf(),
        ensures
            r == fetch_spec(self@),
    {
        let pc: usize = self.pc as usize;
        if pc + 1 < MEMORY_SIZE {
            let high: u16 = self.memory[pc] as u16;
            let low: u16 = self.memory[pc + 1] as u16;
            Ok(high * 256 + low)
        } else if pc < MEMORY_SIZE {
            Err(Chip8Error::MemoryOutOfBounds { address: 4096 })
        } else {
            Err(Chip8Error::MemoryOutOfBounds { address: self.pc })
        }
    }

    /// Executes a flow-control instruction.
    fn exec_flow(&mut self, instruction: Instruction) -> (r: Result<(), Chip8Error>)
        requires
            old(self).wf(),
            instruction.wf(),
            is_flow(instruction),
        ensures
            final(self).wf(),
            outcome_matches(old(self)@, final(self)@, r, execute_spec(old(self)@, instruction, 0)),
    {
        match instruction {
            Instruction::Return => {
                if self.stack.len() == 0 {
                    return Err(Chip8Error::StackUnderflow);
                }
                let address: u16 = self.stack[self.stack.len() - 1];
                self.stack.pop();
                self.pc = address;
            },
            Instruction::Jump { addr } => {
                self.pc = addr;
            },
            Instruction::Call { addr } => {
                if self.stack.len() >= STACK_DEPTH {
                    return Err(Chip8Error::StackOverflow);
                }
                self.stack.push(self.pc);
                self.pc = addr;
            },
            Instruction::SkipEqImm { x, kk } => {
                let skip: bool = self.registers[x as usize] == kk;
                self.skip_when(skip);
            },
            Instruction::SkipNeImm { x, kk } => {
                let skip: bool = self.registers[x as usize] != kk;
                self.skip_when(skip);
            },
            Instruction::SkipEqReg { x, y } => {
                let skip: bool = self.registers[x as usize] == self.registers[y as usize];
                self.skip_when(skip);
            },
            Instruction::SkipNeReg { x, y } => {
                let skip: bool = self.registers[x as usize] != self.registers[y as usize];
                self.skip_when(skip);
            },
            Instruction::JumpOffset { addr } => {
                self.pc = self.registers[0] as u16 + addr;
            },
            Instruction::SkipKey { x } => {
                let skip: bool = self.keypad.is_pressed(self.registers[x as usize]);
                self.skip_when(skip);
            },
            Instruction::SkipNoKey { x } => {
                let skip: bool = !self.keypad.is_pressed(self.registers[x as usize]);
                self.skip_when(skip);
            },
            _ => {},
        }
        proof {
            let expected = execute_spec(old(self)@, instruction, 0);
            assert(expected is Ok);
            assert(self@ =~= expected->Ok_0);
        }
        Ok(())
    }

    /// Moves the program counter on by one instruction where `condition`
    /// holds.
    fn skip_when(&mut self, condition: bool)
        ensures
            final(self)@ == skip_if(old(self)@, condition),
    {
        if condition {
            self.pc = ((self.pc as u32 + 2) % 0x10000) as u16;
        }
    }

    /// Executes an instruction that only changes registers, the index
    /// register or the timers.
    fn exec_register(&mut self, instruction: Instruction, random: u8) -> (r: Result<
        (),
        Chip8Error,
    >)
        requires
            old(self).wf(),
            instruction.wf(),
            !is_flow(instruction),
            !is_memory(instruction),
        ensures
            final(self).wf(),
            outcome_matches(
                old(self)@,
                final(self)@,
                r,
                execute_spec(old(self)@, instruction, random),
            ),
    {
        match instruction {
            Instruction::LoadImm { x, kk } => {
                self.registers.set(x as usize, kk);
            },
            Instruction::AddImm { x, kk } => {
                let sum: u16 = self.registers[x as usize] as u16 + kk as u16;
                self.registers.set(x as usize, (sum % 256) as u8);
            },
            Instruction::Move { x, y } => {
                let value: u8 = self.registers[y as usize];
                self.registers.set(x as usize, value);
            },
            Instruction::Or { x, y } => {
                let value: u8 = self.registers[x as usize] | self.registers[y as usize];
                self.registers.set(x as usize, value);
            },
            Instruction::And { x, y } => {
                let value: u8 = self.registers[x as usize] & self.registers[y as usize];
                self.registers.set(x as usize, value);
            },
            Instruction::Xor { x, y } => {
                let value: u8 = self.registers[x as usize] ^ self.registers[y as usize];
                self.registers.set(x as usize, value);
            },
            Instruction::Add { x, y } => {
                let result = add_carry(self.registers[x as usize], self.registers[y as usize]);
                self.set_flagged(x, result);
            },
            Instruction::Sub { x, y } => {
                let result = sub_borrow(self.registers[x as usize], self.registers[y as usize]);
                self.set_flagged(x, result);
            },
            Instruction::ShiftRight { x } => {
                let result = shift_right(self.registers[x as usize]);
                self.set_flagged(x, result);
            },
            Instruction::SubFrom { x, y } => {
                let result = sub_borrow(self.registers[y as usize], self.registers[x as usize]);
                self.set_flagged(x, result);
            },
            Instruction::ShiftLeft { x } => {
                let result = shift_left(self.registers[x as usize]);
                self.set_flagged(x, result);
            },
            Instruction::LoadIndex { addr } => {
                self.index = addr;
            },
            Instruction::Random { x, kk } => {
                self.registers.set(x as usize, random & kk);
            },
            Instruction::ReadDelay { x } => {
                let value: u8 = self.timers.delay;
                self.registers.set(x as usize, value);
            },
            Instruction::SetDelay { x } => {
                self.timers.delay = self.registers[x as usize];
            },
            Instruction::SetSound { x } => {
                self.timers.sound = self.registers[x as usize];
            },
            Instruction::AddIndex { x } => {
                let sum: u32 = self.index as u32 + self.registers[x as usize] as u32;
                self.index = (sum % 0x10000) as u16;
            },
            Instruction::Glyph { x } => {
                self.index = glyph_address(self.registers[x as usize]);
            },
            _ => {},
        }
        proof {
            let expected = execute_spec(old(self)@, instruction, random);
            assert(self@ =~= expected->Ok_0);
        }
        Ok(())
    }

    /// Writes an arithmetic result to `Vx` and then its flag to `VF`.
    fn set_flagged(&mut self, x: u8, result: (u8, u8))
        requires
            old(self).wf(),
            x < 16,
        ensures
            final(self)@ == old(self)@.with_flagged(x, result),
    {
        self.registers.set(x as usize, result.0);
        self.registers.set(FLAG_REGISTER, result.1);
    }

    /// Executes an instruction that reads or writes memory at the index
    /// register or draws to the screen.
    fn exec_memory(&mut self, instruction: Instruction) -> (r: Result<(), Chip8Error>)
        requires
            old(self).wf(),
            instruction.wf(),
            is_memory(instruction),
        ensures
            final(self).wf(),
            outcome_matches(old(self)@, final(self)@, r, execute_spec(old(self)@, instruction, 0)),
    {
        let index: usize = self.index as usize;
        let span: usize = match instruction {
            Instruction::Draw { n, .. } => n as usize,
            Instruction::Bcd { .. } => 3,
            Instruction::Store { x } | Instruction::Load { x } => x as usize + 1,
            _ => 0,
        };
        if span > 0 && index + span > MEMORY_SIZE {
            let address: u16 = if index >= MEMORY_SIZE {
                self.index
            } else {
                4096
            };
            return Err(Chip8Error::MemoryOutOfBounds { address });
        }
        match instruction {
            Instruction::ClearScreen => {
                self.screen.clear();
            },
            Instruction::Draw { x, y, n } => {
                self.draw_sprite(self.registers[x as usize], self.registers[y as usize], n);
            },
            Instruction::Bcd { x } => {
                let digits = bcd(self.registers[x as usize]);
                self.memory.set(index, digits.0);
                self.memory.set(index + 1, digits.1);
                self.memory.set(index + 2, digits.2);
            },
            Instruction::Store { x } => {
                self.store_registers(x);
            },
            Instruction::Load { x } => {
                self.load_registers(x);
            },
            _ => {},
        }
        proof {
            let expected = execute_spec(old(self)@, instruction, 0);
            assert(expected is Ok);
            assert(self@ =~= expected->Ok_0);
        }
        Ok(())
    }

    /// Draws the `n`-row sprite at the index register at `(x, y)` and sets
    /// `VF` to the collision flag.
    fn draw_sprite(&mut self, x: u8, y: u8, n: u8)
        requires
            old(self).wf(),
            n == 0 || old(self)@.index + n <= 4096,
        ensures
            final(self)@ == ({
                let s = old(self)@;
                let rows = sprite_rows(s.memory, s.index, n);
                State {
                    screen: blit_spec(s.screen, x as int, y as int, rows),
                    registers: s.registers.update(
                        0xF,
                        flag(collides(s.screen, x as int, y as int, rows)),
                    ),
                    ..s
                }
            }),
    {
        let mut hit: bool = false;
        if n > 0 {
            let start: usize = self.index as usize;
            let rows = slice_subrange(self.memory.as_slice(), start, start + n as usize);
            hit = self.screen.blit(x, y, rows);
        } else {
            proof {
                lemma_blit_empty(self@.screen, x as int, y as int);
            }
        }
        self.registers.set(FLAG_REGISTER, if hit { 1 } else { 0 });
    }

    /// Stores `V0..=Vx` to memory from the index register on.
    fn store_registers(&mut self, x: u8)
        requires
            old(self).wf(),
            x < 16,
            old(self)@.index + x < 4096,
        ensures
            final(self)@ == (State {
                memory: stored(
                    old(self)@.memory,
                    old(self)@.registers,
                    old(self)@.index,
                    x,
                ),
                ..old(self)@
            }),
    {
        let index: usize = self.index as usize;
        let mut k: usize = 0;
        while k <= x as usize
            invariant
                k <= x + 1,
                x < 16,
                index == self.index,
                index + x < 4096,
                self.memory@.len() == 4096,
                self.registers@.len() == 16,
                forall|a: int|
                    0 <= a < 4096 ==> self.memory@[a] == if index <= a < index + k {
                        self.registers@[a - index]
                    } else {
                        old(self).memory@[a]
                    },
                self.registers == old(self).registers,
                self.index == old(self).index,
                self.pc == old(self).pc,
                self.stack == old(self).stack,
                self.screen == old(self).screen,
                self.keypad == old(self).keypad,
                self.timers == old(self).timers,
            decreases x + 1 - k,
        {
            self.memory.set(index + k, self.registers[k]);
            k += 1;
        }
        assert(self@ =~= (State {
            memory: stored(
                old(self)@.memory,
                old(self)@.registers,
                old(self)@.index,
                x,
            ),
            ..old(self)@
        }));
    }

    /// Loads `V0..=Vx` from memory from the index register on.
    fn load_registers(&mut self, x: u8)
        requires
            old(self).wf(),
            x < 16,
            old(self)@.index + x < 4096,
        ensures
            final(self)@ == (State {
                registers: loaded(
                    old(self)@.registers,
                    old(self)@.memory,
                    old(self)@.index,
                    x,
                ),
                ..old(self)@
            }),
    {
        let index: usize = self.index as usize;
        let mut k: usize = 0;
        while k <= x as usize
            invariant
                k <= x + 1,
                x < 16,
                index == self.index,
                index + x < 4096,
                self.memory@.len() == 4096,
                self.registers@.len() == 16,
                forall|j: int|
                    0 <= j < 16 ==> self.registers@[j] == if j < k {
                        self.memory@[index + j]
                    } else {
                        old(self).registers@[j]
                    },
                self.memory == old(self).memory,
                self.index == old(self).index,
                self.pc == old(self).pc,
                self.stack == old(self).stack,
                self.screen == old(self).screen,
                self.keypad == old(self).keypad,
                self.timers == old(self).timers,
            decreases x + 1 - k,
        {
            self.registers.set(k, self.memory[index + k]);
            k += 1;
        }
        assert(self@ =~= (State {
            registers: loaded(
                old(self)@.registers,
                old(self)@.memory,
                old(self)@.index,
                x,
            ),
            ..old(self)@
        }));
    }

    /// Executes `instruction` as an instruction that has just been fetched:
    /// the program counter already points behind it. `random` is the byte
    /// that a `Random` instruction uses.
    ///
    /// On success the machine is in the state that `execute_spec` gives. On
    /// failure the error that `execute_spec` gives is returned and the
    /// instruction has had no effect: the machine is as it was.
    pub fn execute(&mut self, instruction: Instruction, random: u8) -> (r: Result<(), Chip8Error>)
        requires
            old(self).wf(),
            instruction.wf(),
        ensures
            final(self).wf(),
            outcome_matches(
                old(self)@,
                final(self)@,
                r,
                execute_spec(old(self)@, instruction, random),
            ),
    {
        match instruction {
            Instruction::Return
            | Instruction::Jump { .. }
            | Instruction::Call { .. }
            | Instruction::SkipEqImm { .. }
            | Instruction::SkipNeImm { .. }
            | Instruction::SkipEqReg { .. }
            | Instruction::SkipNeReg { .. }
            | Instruction::JumpOffset { .. }
            | Instruction::SkipKey { .. }
            | Instruction::SkipNoKey { .. } => self.exec_flow(instruction),
            Instruction::ClearScreen
            | Instruction::Draw { .. }
            | Instruction::Bcd { .. }
            | Instruction::Store { .. }
            | Instruction::Load { .. } => self.exec_memory(instruction),
            _ => self.exec_register(instruction, random),
        }
    }

    /// Reads and decodes the instruction at the program counter.
    pub fn next_instruction(&self) -> (r: Result<Instruction, Chip8Error>)
        requires
            self.wf(),
        ensures
            r == next_instruction_spec(self@),
            r matches Ok(instruction) ==> instruction.wf(),
    {
        let opcode: u16 = match self.fetch() {
            Ok(opcode) => opcode,
            Err(e) => {
                return Err(e);
            },
        };
        match decode(opcode) {
            Ok(instruction) => Ok(instruction),
            Err(failure) => Err(Chip8Error::DecodeError { opcode: failure.opcode, pc: self.pc }),
        }
    }

    /// Runs one step, with `random` as the byte that a `Random`
    /// instruction would draw: fetches the opcode at the program counter,
    /// advances the program counter by 2, decodes the opcode and executes
    /// the instruction.
    ///
    /// The machine ends in the state, and the call returns the result, that
    /// `step_spec` gives. On a failure the instruction has had no effect:
    /// where the fetch failed the machine is as it was, and otherwise only
    /// the program counter has moved, behind the opcode that was fetched.
    pub fn step_with(&mut self, random: u8) -> (r: Result<(), Chip8Error>)
        requires
            old(self).wf(),
        ensures
            final(self).wf(),
            step_ends_as(old(self)@, random, final(self)@, r),
    {
        let opcode: u16 = match self.fetch() {
            Ok(opcode) => opcode,
            Err(e) => {
                return Err(e);
            },
        };
        let at: u16 = self.pc;
        self.pc = at + 2;
        assert(self@ =~= old(self)@.at(old(self)@.pc + 2));
        match decode(opcode) {
            Ok(instruction) => self.execute(instruction, random),
            Err(failure) => Err(Chip8Error::DecodeError { opcode: failure.opcode, pc: at }),
        }
    }

    /// Runs one step, drawing a random byte where the instruction is
    /// `Random`.
    ///
    /// The outcome is that of `step_with` for some byte, and for any byte
    /// where the instruction at the program counter is not `Random`.
    ///
    /// Drawing the byte is the one thing here that can panic: the random
    /// number generator does so where the operating system fails to seed
    /// or reseed it, or refuses its fork handler.
    pub fn step(&mut self) -> (r: Result<(), Chip8Error>)
        requires
            old(self).wf(),
        ensures
            final(self).wf(),
            exists|random: u8| #[trigger] step_ends_as(old(self)@, random, final(self)@, r),
            !draws_random(old(self)@) ==> forall|random: u8| #[trigger]
                step_ends_as(old(self)@, random, final(self)@, r),
    {
        let random: u8 = match self.next_instruction() {
            Ok(Instruction::Random { .. }) => random_byte(),
            _ => 0,
        };
        let r = self.step_with(random);
        proof {
            if !draws_random(old(self)@) {
                assert forall|other: u8| #[trigger]
                    step_ends_as(old(self)@, other, self@, r) by {
                    lemma_step_ignores_unused_byte(old(self)@, random, other);
                }
            }
        }
        r
    }
}

} // verus!
