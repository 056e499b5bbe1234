//! The mathematical model of the machine: its state as plain sequences and
//! integers, and the effect of each instruction as a function on states.
//!
//! The executable interpreter is specified against these functions.

use vstd::prelude::*;
use crate::alu::{add_carry_spec, bcd_spec, flag, shift_left_spec, shift_right_spec, sub_borrow_spec};
use crate::decode::{decode_spec, lemma_decoded_is_wf, Instruction};
use crate::display::{
    bit_hits, blank, blit_spec, collides, flips, lemma_blit_twice_restores,
    lemma_collides_by_bits, lemma_collides_short_sprite, lemma_flips_short_sprite, sprite_covers,
};
use crate::error::Chip8Error;
use crate::font::{glyph_address_spec, initial_memory};
use crate::keypad::key_down;

verus! {

/// Bytes of addressable memory.
pub const MEMORY_SIZE: usize = 4096;

/// Where programs are loaded and where execution starts.
pub const PROGRAM_START: u16 = 0x200;

/// The deepest nesting of subroutine calls.
pub const STACK_DEPTH: usize = 16;

/// The number of the flag register `VF`.
pub const FLAG_REGISTER: usize = 0xF;

/// The whole state of the machine.
#[verifier::ext_equal]
pub struct State {
    /// The registers `V0..=VF`.
    pub registers: Seq<u8>,
    /// The 4096 bytes of memory.
    pub memory: Seq<u8>,
    /// The index register `I`.
    pub index: u16,
    /// The program counter.
    pub pc: u16,
    /// The return addresses of the calls in progress, innermost last.
    pub stack: Seq<u16>,
    /// The framebuffer, row-major.
    pub screen: Seq<bool>,
    /// The keypad.
    pub keys: Seq<bool>,
    /// The delay timer.
    pub delay: u8,
    /// The sound timer.
    pub sound: u8,
}

impl State {
    /// The state has the machine's shape: 16 registers, 4096 bytes of
    /// memory, at most 16 return addresses, 64x32 pixels and 16 keys.
    ///
    /// The program counter is any 16-bit value. Where it points outside
    /// memory, the next fetch fails: nothing is ever executed from there.
    pub open spec fn wf(self) -> bool {
        &&& self.registers.len() == 16
        &&& self.memory.len() == 4096
        &&& self.stack.len() <= 16
        &&& self.screen.len() == 2048
        &&& self.keys.len() == 16
    }

    /// This state with the program counter at `pc`.
    pub open spec fn at(self, pc: int) -> State {
        State { pc: pc as u16, ..self }
    }

    /// This state with `value` in register `x`.
    pub open spec fn with_register(self, x: u8, value: u8) -> State {
        State { registers: self.registers.update(x as int, value), ..self }
    }

    /// This state with `value` in register `x` and then `carry` in `VF`, so
    /// that the flag is what `VF` holds even where `x` is `VF` itself.
    pub open spec fn with_flagged(self, x: u8, result: (u8, u8)) -> State {
        State {
            registers: self.registers.update(x as int, result.0).update(0xF, result.1),
            ..self
        }
    }

    /// The value of register `x`.
    pub open spec fn v(self, x: u8) -> u8 {
        self.registers[x as int]
    }

    /// Whether `after` differs from this state at most in register `x` and
    /// in `VF`.
    pub open spec fn differs_in_flagged(self, after: State, x: u8) -> bool {
        &&& after == State { registers: after.registers, ..self }
        &&& after.registers.len() == self.registers.len()
        &&& forall|k: int|
            0 <= k < self.registers.len() && k != x && k != 0xF ==> after.registers[k]
                == self.registers[k]
    }
}

/// The first address outside memory that an access touches which starts at
/// `start` and runs past the end of memory.
pub open spec fn first_outside(start: u16) -> u16 {
    if start >= 4096 {
        start
    } else {
        4096
    }
}

/// The state in which every machine starts: registers, stack, screen, keys
/// and timers at rest, memory zero but for the font, and the program
/// counter at the load address.
pub open spec fn initial_state() -> State {
    State {
        registers: Seq::new(16, |k: int| 0u8),
        memory: initial_memory(),
        index: 0,
        pc: 0x200,
        stack: Seq::empty(),
        screen: blank(),
        keys: Seq::new(16, |k: int| false),
        delay: 0,
        sound: 0,
    }
}

/// Memory with the program image `rom` copied in from the load address on.
pub open spec fn with_program(memory: Seq<u8>, rom: Seq<u8>) -> Seq<u8> {
    Seq::new(
        memory.len(),
        |a: int|
            if 0x200 <= a < 0x200 + rom.len() {
                rom[a - 0x200]
            } else {
                memory[a]
            },
    )
}

/// Whether a call that returned `result` and took the machine from `before`
/// to `after` did what `expected` asks: on success the machine is in the
/// expected state, on failure the expected error is returned and the
/// machine is as it was.
pub open spec fn outcome_matches(
    before: State,
    after: State,
    result: Result<(), Chip8Error>,
    expected: Result<State, Chip8Error>,
) -> bool {
    match expected {
        Ok(t) => result is Ok && after == t,
        Err(e) => result == Err::<(), _>(e) && after == before,
    }
}

/// The opcode at the program counter, big-endian, or the failure of the
/// fetch where one of its two bytes lies outside memory.
pub open spec fn fetch_spec(s: State) -> Result<u16, Chip8Error> {
    if s.pc + 1 < 4096 {
        Ok((s.memory[s.pc as int] * 256 + s.memory[s.pc + 1]) as u16)
    } else {
        Err(Chip8Error::MemoryOutOfBounds { address: first_outside(s.pc) })
    }
}

/// The `n` sprite rows that a draw reads from memory at `index`. A draw of
/// no rows reads nothing, wherever the index register points.
pub open spec fn sprite_rows(memory: Seq<u8>, index: u16, n: u8) -> Seq<u8> {
    if n == 0 {
        Seq::empty()
    } else {
        memory.subrange(index as int, index + n)
    }
}

/// Memory after registers `V0..=Vx` have been stored from `index` on.
pub open spec fn stored(memory: Seq<u8>, registers: Seq<u8>, index: u16, x: u8) -> Seq<u8> {
    Seq::new(
        memory.len(),
        |a: int|
            if index <= a <= index + x {
                registers[a - index]
            } else {
                memory[a]
            },
    )
}

/// The registers after `V0..=Vx` have been loaded from `index` on.
pub open spec fn loaded(registers: Seq<u8>, memory: Seq<u8>, index: u16, x: u8) -> Seq<u8> {
    Seq::new(
        registers.len(),
        |k: int|
            if k <= x {
                memory[index + k]
            } else {
                registers[k]
            },
    )
}

/// Memory after the three decimal digits of `value` have been written at
/// `index`, `index + 1` and `index + 2`.
pub open spec fn with_digits(memory: Seq<u8>, index: u16, value: u8) -> Seq<u8> {
    let digits = bcd_spec(value);
    memory.update(index as int, digits.0).update(index + 1, digits.1).update(index + 2, digits.2)
}

/// The state after a conditional skip: where the condition holds, the
/// program counter moves on by one more instruction, in 16-bit arithmetic.
pub open spec fn skip_if(s: State, condition: bool) -> State {
    if condition {
        s.at((s.pc + 2) % 0x10000)
    } else {
        s
    }
}

/// The effect of the flow-control instructions.
pub open spec fn flow_effect(s: State, instruction: Instruction) -> Result<State, Chip8Error> {
    match instruction {
        Instruction::Return => if s.stack.len() == 0 {
            Err(Chip8Error::StackUnderflow)
        } else {
            Ok(State { pc: s.stack.last(), stack: s.stack.drop_last(), ..s })
        },
        Instruction::Jump { addr } => Ok(s.at(addr as int)),
        Instruction::Call { addr } => if s.stack.len() >= 16 {
            Err(Chip8Error::StackOverflow)
        } else {
            Ok(State { pc: addr, stack: s.stack.push(s.pc), ..s })
        },
        Instruction::SkipEqImm { x, kk } => Ok(skip_if(s, s.v(x) == kk)),
        Instruction::SkipNeImm { x, kk } => Ok(skip_if(s, s.v(x) != kk)),
        Instruction::SkipEqReg { x, y } => Ok(skip_if(s, s.v(x) == s.v(y))),
        Instruction::SkipNeReg { x, y } => Ok(skip_if(s, s.v(x) != s.v(y))),
        Instruction::JumpOffset { addr } => Ok(s.at(s.v(0) + addr)),
        Instruction::SkipKey { x } => Ok(skip_if(s, key_down(s.keys, s.v(x)))),
        Instruction::SkipNoKey { x } => Ok(skip_if(s, !key_down(s.keys, s.v(x)))),
        _ => Ok(s),
    }
}

/// The effect of the instructions that only change registers, the index
/// register or the timers.
pub open spec fn register_effect(s: State, instruction: Instruction, random: u8) -> State {
    match instruction {
        Instruction::LoadImm { x, kk } => s.with_register(x, kk),
        Instruction::AddImm { x, kk } => s.with_register(x, ((s.v(x) + kk) % 256) as u8),
        Instruction::Move { x, y } => s.with_register(x, s.v(y)),
        Instruction::Or { x, y } => s.with_register(x, s.v(x) | s.v(y)),
        Instruction::And { x, y } => s.with_register(x, s.v(x) & s.v(y)),
        Instruction::Xor { x, y } => s.with_register(x, s.v(x) ^ s.v(y)),
        Instruction::Add { x, y } => s.with_flagged(x, add_carry_spec(s.v(x), s.v(y))),
        Instruction::Sub { x, y } => s.with_flagged(x, sub_borrow_spec(s.v(x), s.v(y))),
        Instruction::ShiftRight { x } => s.with_flagged(x, shift_right_spec(s.v(x))),
        Instruction::SubFrom { x, y } => s.with_flagged(x, sub_borrow_spec(s.v(y), s.v(x))),
        Instruction::ShiftLeft { x } => s.with_flagged(x, shift_left_spec(s.v(x))),
        Instruction::LoadIndex { addr } => State { index: addr, ..s },
        Instruction::Random { x, kk } => s.with_register(x, random & kk),
        Instruction::ReadDelay { x } => s.with_register(x, s.delay),
        Instruction::SetDelay { x } => State { delay: s.v(x), ..s },
        Instruction::SetSound { x } => State { sound: s.v(x), ..s },
        Instruction::AddIndex { x } => State { index: ((s.index + s.v(x)) % 0x10000) as u16, ..s },
        Instruction::Glyph { x } => State { index: glyph_address_spec(s.v(x)), ..s },
        _ => s,
    }
}

/// The effect of the instructions that read or write memory at the index
/// register or draw to the screen.
pub open spec fn memory_effect(s: State, instruction: Instruction) -> Result<State, Chip8Error> {
    let outside = Err::<State, _>(
        Chip8Error::MemoryOutOfBounds { address: first_outside(s.index) },
    );
    match instruction {
        Instruction::ClearScreen => Ok(State { screen: blank(), ..s }),
        Instruction::Draw { x, y, n } => if n > 0 && s.index + n > 4096 {
            outside
        } else {
            let rows = sprite_rows(s.memory, s.index, n);
            Ok(
                State {
                    screen: blit_spec(s.screen, s.v(x) as int, s.v(y) as int, rows),
                    registers: s.registers.update(
                        0xF,
                        flag(collides(s.screen, s.v(x) as int, s.v(y) as int, rows)),
                    ),
                    ..s
                },
            )
        },
        Instruction::Bcd { x } => if s.index + 2 >= 4096 {
            outside
        } else {
            Ok(State { memory: with_digits(s.memory, s.index, s.v(x)), ..s })
        },
        Instruction::Store { x } => if s.index + x >= 4096 {
            outside
        } else {
            Ok(State { memory: stored(s.memory, s.registers, s.index, x), ..s })
        },
        Instruction::Load { x } => if s.index + x >= 4096 {
            outside
        } else {
            Ok(State { registers: loaded(s.registers, s.memory, s.index, x), ..s })
        },
        _ => Ok(s),
    }
}

/// Whether an instruction is one of flow control: it may set the program
/// counter.
pub open spec fn is_flow(instruction: Instruction) -> bool {
    match instruction {
        Instruction::Return
        | Instruction::Jump { .. }
        | Instruction::Call { .. }
        | Instruction::SkipEqImm { .. }
        | Instruction::SkipNeImm { .. }
        | Instruction::SkipEqReg { .. }
        | Instruction::SkipNeReg { .. }
        | Instruction::JumpOffset { .. }
        | Instruction::SkipKey { .. }
        | Instruction::SkipNoKey { .. } => true,
        _ => false,
    }
}

/// Whether an instruction reads or writes memory at the index register or
/// draws to the screen.
pub open spec fn is_memory(instruction: Instruction) -> bool {
    match instruction {
        Instruction::ClearScreen
        | Instruction::Draw { .. }
        | Instruction::Bcd { .. }
        | Instruction::Store { .. }
        | Instruction::Load { .. } => true,
        _ => false,
    }
}

/// The outcome of executing an instruction in `s`, the state just after
/// the instruction was fetched: the program counter of `s` already points
/// behind it. The result is the next state, or the failure, in which the
/// instruction has no effect. `random` is the byte that a `Random`
/// instruction draws; no other instruction looks at it.
pub open spec fn execute_spec(s: State, instruction: Instruction, random: u8) -> Result<
    State,
    Chip8Error,
> {
    if is_flow(instruction) {
        flow_effect(s, instruction)
    } else if is_memory(instruction) {
        memory_effect(s, instruction)
    } else {
        Ok(register_effect(s, instruction, random))
    }
}

/// The instruction at the program counter of `s`, or the failure of the
/// fetch or of the decoding, the latter with the opcode and where it lies.
pub open spec fn next_instruction_spec(s: State) -> Result<Instruction, Chip8Error> {
    match fetch_spec(s) {
        Err(e) => Err(e),
        Ok(opcode) => match decode_spec(opcode) {
            None => Err(Chip8Error::DecodeError { opcode, pc: s.pc }),
            Some(instruction) => Ok(instruction),
        },
    }
}

/// How a step ends: the state it leaves and the error it reports, if any.
#[verifier::ext_equal]
pub struct Outcome {
    pub state: State,
    pub error: Option<Chip8Error>,
}

/// The error that a result reports, if any.
pub open spec fn error_of(result: Result<(), Chip8Error>) -> Option<Chip8Error> {
    match result {
        Ok(_) => None,
        Err(e) => Some(e),
    }
}

/// The outcome of one step from `s`: fetch the opcode at the program
/// counter, advance the program counter by 2, decode the opcode, execute
/// the instruction.
///
/// A fetch that fails leaves `s` as it is. Once the fetch has succeeded the
/// program counter stays advanced: an opcode that is no instruction, or an
/// instruction that fails, leaves `s` with the program counter behind the
/// opcode and nothing else changed.
pub open spec fn step_spec(s: State, random: u8) -> Outcome {
    match fetch_spec(s) {
        Err(e) => Outcome { state: s, error: Some(e) },
        Ok(opcode) => {
            let fetched = s.at(s.pc + 2);
            match decode_spec(opcode) {
                None => Outcome {
                    state: fetched,
                    error: Some(Chip8Error::DecodeError { opcode, pc: s.pc }),
                },
                Some(instruction) => match execute_spec(fetched, instruction, random) {
                    Ok(t) => Outcome { state: t, error: None },
                    Err(e) => Outcome { state: fetched, error: Some(e) },
                },
            }
        },
    }
}

/// Whether a step that returned `result` and took the machine from
/// `before` to `after` ended as `step_spec` says for the byte `random`.
pub open spec fn step_ends_as(
    before: State,
    random: u8,
    after: State,
    result: Result<(), Chip8Error>,
) -> bool {
    after == step_spec(before, random).state && error_of(result) == step_spec(before, random).error
}

/// Whether the next step of `s` draws a random byte.
pub open spec fn draws_random(s: State) -> bool {
    next_instruction_spec(s) matches Ok(Instruction::Random { .. })
}

/// An instruction that succeeds leaves a well-formed state.
pub proof fn lemma_execute_keeps_wf(s: State, instruction: Instruction, random: u8)
    requires
        s.wf(),
        instruction.wf(),
    ensures
        execute_spec(s, instruction, random) matches Ok(t) ==> t.wf(),
{
}

/// A step leaves a well-formed state, however it ends.
pub proof fn lemma_step_keeps_wf(s: State, random: u8)
    requires
        s.wf(),
    ensures
        step_spec(s, random).state.wf(),
{
    if let Ok(opcode) = fetch_spec(s) {
        lemma_decoded_is_wf(opcode);
    }
}

/// Only a `Random` instruction looks at the random byte.
pub proof fn lemma_random_only_for_random(s: State, instruction: Instruction, a: u8, b: u8)
    requires
        !(instruction is Random),
    ensures
        execute_spec(s, instruction, a) == execute_spec(s, instruction, b),
{
}

/// A step that draws no random byte ends the same way whatever the byte.
pub proof fn lemma_step_ignores_unused_byte(s: State, a: u8, b: u8)
    requires
        !draws_random(s),
    ensures
        step_spec(s, a) == step_spec(s, b),
{
}

/// A failed step has no effect but the fetch: where the fetch itself
/// failed the state is as it was, and otherwise only the program counter
/// has moved, by 2. An opcode that is no instruction is reported with its
/// value and the address it was fetched from.
pub proof fn lemma_failed_step_only_fetches(s: State, random: u8)
    requires
        s.wf(),
    ensures
        fetch_spec(s) is Err ==> step_spec(s, random) == (Outcome {
            state: s,
            error: Some(Chip8Error::MemoryOutOfBounds { address: first_outside(s.pc) }),
        }),
        fetch_spec(s) is Ok && step_spec(s, random).error is Some ==> step_spec(s, random).state
            == s.at(s.pc + 2),
        fetch_spec(s) matches Ok(opcode) ==> (decode_spec(opcode) is None ==> step_spec(s, random)
            == (Outcome {
            state: s.at(s.pc + 2),
            error: Some(Chip8Error::DecodeError { opcode, pc: s.pc }),
        })),
{
}

/// `ADD Vx, Vy` always succeeds and leaves the carry in `VF`: 1 exactly if
/// the sum of the two registers exceeds 255, else 0. `Vx` holds the sum
/// modulo 256, unless `Vx` is `VF` itself, which holds the carry. Nothing
/// else changes.
pub proof fn lemma_add_sets_carry(s: State, x: u8, y: u8, random: u8)
    requires
        s.wf(),
        x < 16,
        y < 16,
    ensures
        execute_spec(s, Instruction::Add { x, y }, random) matches Ok(t) && {
            &&& t.v(0xF) == flag(s.v(x) + s.v(y) > 255)
            &&& (x != 0xF ==> t.v(x) == (s.v(x) + s.v(y)) % 256)
            &&& s.differs_in_flagged(t, x)
        },
{
}

/// `SUB Vx, Vy` always succeeds and leaves not-borrow in `VF`: 1 exactly
/// if `Vx >= Vy` before the subtraction, else 0. `Vx` holds the difference
/// modulo 256, unless `Vx` is `VF` itself, which holds the flag. Nothing
/// else changes.
pub proof fn lemma_sub_sets_not_borrow(s: State, x: u8, y: u8, random: u8)
    requires
        s.wf(),
        x < 16,
        y < 16,
    ensures
        execute_spec(s, Instruction::Sub { x, y }, random) matches Ok(t) && {
            &&& t.v(0xF) == flag(s.v(x) >= s.v(y))
            &&& (x != 0xF ==> t.v(x) == (s.v(x) - s.v(y)) % 256)
            &&& s.differs_in_flagged(t, x)
        },
{
}

/// `SUBN Vx, Vy` always succeeds and leaves not-borrow in `VF`: 1 exactly
/// if `Vy >= Vx` before the subtraction, else 0. `Vx` holds `Vy - Vx`
/// modulo 256, unless `Vx` is `VF` itself, which holds the flag. Nothing
/// else changes.
pub proof fn lemma_subn_sets_not_borrow(s: State, x: u8, y: u8, random: u8)
    requires
        s.wf(),
        x < 16,
        y < 16,
    ensures
        execute_spec(s, Instruction::SubFrom { x, y }, random) matches Ok(t) && {
            &&& t.v(0xF) == flag(s.v(y) >= s.v(x))
            &&& (x != 0xF ==> t.v(x) == (s.v(y) - s.v(x)) % 256)
            &&& s.differs_in_flagged(t, x)
        },
{
}

/// `SHR Vx` always succeeds and moves the low bit that `Vx` had before the
/// shift into `VF`, whatever the shifted value is. `Vx` holds the shifted
/// value unless it is `VF` itself. Nothing else changes.
pub proof fn lemma_shift_right_keeps_low_bit(s: State, x: u8, random: u8)
    requires
        s.wf(),
        x < 16,
    ensures
        execute_spec(s, Instruction::ShiftRight { x }, random) matches Ok(t) && {
            &&& t.v(0xF) == s.v(x) % 2
            &&& (x != 0xF ==> t.v(x) == s.v(x) / 2)
            &&& s.differs_in_flagged(t, x)
        },
{
}

/// `SHL Vx` always succeeds and moves the high bit that `Vx` had before
/// the shift into `VF`, whatever the shifted value is. `Vx` holds the
/// shifted value, truncated to 8 bits, unless it is `VF` itself. Nothing
/// else changes.
pub proof fn lemma_shift_left_keeps_high_bit(s: State, x: u8, random: u8)
    requires
        s.wf(),
        x < 16,
    ensures
        execute_spec(s, Instruction::ShiftLeft { x }, random) matches Ok(t) && {
            &&& t.v(0xF) == s.v(x) / 128
            &&& (x != 0xF ==> t.v(x) == (s.v(x) * 2) % 256)
            &&& s.differs_in_flagged(t, x)
        },
{
}

/// A call succeeds exactly while fewer than 16 calls are in progress, and
/// otherwise overflows the stack. A return succeeds exactly while a call
/// is in progress, and otherwise underflows it.
pub proof fn lemma_stack_discipline(s: State, addr: u16, random: u8)
    requires
        s.wf(),
    ensures
        s.stack.len() < 16 ==> execute_spec(s, Instruction::Call { addr }, random) == Ok::<
            _,
            Chip8Error,
        >(State { pc: addr, stack: s.stack.push(s.pc), ..s }),
        s.stack.len() >= 16 ==> execute_spec(s, Instruction::Call { addr }, random) == Err::<
            State,
            _,
        >(Chip8Error::StackOverflow),
        s.stack.len() == 0 ==> execute_spec(s, Instruction::Return, random) == Err::<State, _>(
            Chip8Error::StackUnderflow,
        ),
        s.stack.len() > 0 ==> execute_spec(s, Instruction::Return, random) == Ok::<
            _,
            Chip8Error,
        >(State { pc: s.stack.last(), stack: s.stack.drop_last(), ..s }),
{
}

/// A call followed at once by a return goes on behind the call with the
/// stack as it was.
pub proof fn lemma_call_then_return(s: State, addr: u16, random: u8)
    requires
        s.wf(),
        s.stack.len() < 16,
    ensures
        execute_spec(s, Instruction::Call { addr }, random) matches Ok(called) && execute_spec(
            called,
            Instruction::Return,
            random,
        ) == Ok::<_, Chip8Error>(s),
{
    let called = State { pc: addr, stack: s.stack.push(s.pc), ..s };
    assert(called.stack.drop_last() =~= s.stack);
}

/// A key skip moves the program counter on exactly if the key that `Vx`
/// names is down, for `SkipKey`, or not down, for `SkipNoKey`, and changes
/// nothing else: the keypad is only read.
pub proof fn lemma_key_skips_only_read(s: State, x: u8, random: u8)
    requires
        s.wf(),
        x < 16,
    ensures
        execute_spec(s, Instruction::SkipKey { x }, random) == Ok::<_, Chip8Error>(
            skip_if(s, key_down(s.keys, s.v(x))),
        ),
        execute_spec(s, Instruction::SkipNoKey { x }, random) == Ok::<_, Chip8Error>(
            skip_if(s, !key_down(s.keys, s.v(x))),
        ),
        skip_if(s, true) == s.at((s.pc + 2) % 0x10000),
        skip_if(s, false) == s,
{
}

/// `DRW Vx, Vy, n` succeeds exactly if the sprite lies inside memory. It
/// then flips the pixels that a set sprite bit lands on and no others, and
/// leaves 1 in `VF` exactly if one of those pixels was lit before the
/// draw, else 0: the flag speaks of the whole sprite. Nothing else
/// changes.
pub proof fn lemma_draw_sets_collision_flag(s: State, x: u8, y: u8, n: u8, random: u8)
    requires
        s.wf(),
        x < 16,
        y < 16,
        n < 16,
    ensures
        execute_spec(s, Instruction::Draw { x, y, n }, random) is Ok <==> (n == 0 || s.index + n
            <= 4096),
        execute_spec(s, Instruction::Draw { x, y, n }, random) matches Ok(t) ==> {
            let rows = sprite_rows(s.memory, s.index, n);
            &&& forall|i: int|
                0 <= i < 2048 ==> t.screen[i] == (s.screen[i] ^ #[trigger] sprite_covers(
                    s.v(x) as int,
                    s.v(y) as int,
                    rows,
                    i,
                ))
            &&& (t.v(0xF) == 1 <==> exists|i: int|
                0 <= i < 2048 && s.screen[i] && #[trigger] sprite_covers(
                    s.v(x) as int,
                    s.v(y) as int,
                    rows,
                    i,
                ))
            &&& (t.v(0xF) == 1 <==> exists|r: int, c: int| #[trigger]
                bit_hits(s.screen, s.v(x) as int, s.v(y) as int, rows, r, c))
            &&& (t.v(0xF) == 0 || t.v(0xF) == 1)
            &&& t == State { screen: t.screen, registers: s.registers.update(0xF, t.v(0xF)), ..s }
        },
{
    if execute_spec(s, Instruction::Draw { x, y, n }, random) is Ok {
        let rows = sprite_rows(s.memory, s.index, n);
        lemma_collides_short_sprite(s.screen, s.v(x) as int, s.v(y) as int, rows);
        lemma_collides_by_bits(s.screen, s.v(x) as int, s.v(y) as int, rows);
        assert forall|i: int| 0 <= i < 2048 implies flips(s.v(x) as int, s.v(y) as int, rows, i)
            == sprite_covers(s.v(x) as int, s.v(y) as int, rows, i) by {
            lemma_flips_short_sprite(s.v(x) as int, s.v(y) as int, rows, i);
        }
    }
}

/// Drawing the same sprite twice at the same place restores the screen
/// exactly, wrapped positions included. The position registers must not
/// be `VF`, which the first draw overwrites with the collision flag.
pub proof fn lemma_draw_twice_restores(s: State, x: u8, y: u8, n: u8, random: u8)
    requires
        s.wf(),
        x < 0xF,
        y < 0xF,
        n < 16,
        n == 0 || s.index + n <= 4096,
    ensures
        execute_spec(s, Instruction::Draw { x, y, n }, random) matches Ok(t) && execute_spec(
            t,
            Instruction::Draw { x, y, n },
            random,
        ) matches Ok(u) && u.screen == s.screen && u == (State { registers: u.registers, ..s }),
{
    let rows = sprite_rows(s.memory, s.index, n);
    lemma_blit_twice_restores(s.screen, s.v(x) as int, s.v(y) as int, rows);
}

/// The decimal digits that `BCD` writes make up the register's value.
pub proof fn lemma_bcd_digits(value: u8)
    ensures
        bcd_spec(value).0 * 100 + bcd_spec(value).1 * 10 + bcd_spec(value).2 == value,
        bcd_spec(value).0 < 10,
        bcd_spec(value).1 < 10,
        bcd_spec(value).2 < 10,
{
}

} // verus!
