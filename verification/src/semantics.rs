//! What the machine does, as functions on [`MachineState`].
//!
//! One instruction is run in two moves. The fetch reads the two bytes at the
//! program counter, decodes them, remembers the instruction and moves the
//! program counter behind it. The execution then changes the state as the
//! instruction demands. An instruction that cannot be carried out raises a
//! [`Fault`] and changes nothing: the state is left as the fetch made it.

use crate::arithmetic::{difference_of, doubled, flag_value, halved, sum_of};
use crate::display::{
    blank_screen,
    draw_sprite,
    lemma_draw_twice_restores,
    lemma_second_draw_collides,
    sprite_collides,
    sprite_covers,
};
use crate::fault::Fault;
use crate::keypad::{
    first_pressed,
    is_first_pressed,
    lemma_first_pressed_is,
    lemma_first_pressed_none,
};
use crate::model::{
    MachineState,
    GLYPH_SIZE,
    KEY_COUNT,
    MEMORY_SIZE,
    PROGRAM_START,
    REGISTER_COUNT,
    STACK_DEPTH,
};
use crate::opcode::{decode_spec, lemma_decode_well_formed, OpCode};
use vstd::prelude::*;

verus! {

/// The `n` rows of the sprite that the index register points at.
pub open spec fn sprite_rows(m: MachineState, n: int) -> Seq<u8> {
    m.memory.subrange(m.index, m.index + n)
}

/// The hundreds, tens and ones digit of `value`.
pub open spec fn decimal_digits(value: u8) -> (u8, u8, u8) {
    ((value / 100) as u8, ((value / 10) % 10) as u8, (value % 10) as u8)
}

/// The memory after the registers `V0..=Vx` were stored at the index
/// register.
pub open spec fn memory_with_registers(m: MachineState, x: int) -> Seq<u8> {
    Seq::new(
        m.memory.len(),
        |a: int|
            if m.index <= a <= m.index + x {
                m.registers[a - m.index]
            } else {
                m.memory[a]
            },
    )
}

/// The registers after `V0..=Vx` were loaded from the index register.
pub open spec fn registers_from_memory(m: MachineState, x: int) -> Seq<u8> {
    Seq::new(
        m.registers.len(),
        |i: int|
            if i <= x {
                m.memory[m.index + i]
            } else {
                m.registers[i]
            },
    )
}

/// The fault that `op` raises when it is executed in the state `m`, if it
/// raises one.
///
/// - a return with an empty stack, and a call with a full one;
/// - drawing, storing digits, and storing or loading registers, where the
///   bytes that the instruction touches do not all lie inside memory;
/// - adding to the index register, where the sum does not fit it;
/// - asking for a key whose number is 16 or more;
/// - an instruction that is none.
pub open spec fn execute_fault(m: MachineState, op: OpCode) -> Option<Fault> {
    match op {
        OpCode::Ret => if m.sp == 0 {
            Some(Fault::StackUnderflow)
        } else {
            None
        },
        OpCode::Call(_) => if m.sp >= STACK_DEPTH {
            Some(Fault::StackOverflow)
        } else {
            None
        },
        OpCode::Drw(_, _, n) => if m.index + n > MEMORY_SIZE {
            Some(Fault::MemoryOverrun)
        } else {
            None
        },
        OpCode::LdBVx(_) => if m.index + 3 > MEMORY_SIZE {
            Some(Fault::MemoryOverrun)
        } else {
            None
        },
        OpCode::LdIVx(x) | OpCode::LdVxI(x) => if m.index + x + 1 > MEMORY_SIZE {
            Some(Fault::MemoryOverrun)
        } else {
            None
        },
        OpCode::AddIVx(x) => if m.index + m.registers[x as int] > usize::MAX {
            Some(Fault::MemoryOverrun)
        } else {
            None
        },
        OpCode::Skp(x) | OpCode::SkNp(x) => if m.registers[x as int] >= KEY_COUNT {
            Some(Fault::InvalidKey(m.registers[x as int]))
        } else {
            None
        },
        OpCode::Invalid(raw) => Some(Fault::InvalidOpcode(raw)),
        _ => None,
    }
}

/// The state after `op` was executed in the state `m`, where it raises no
/// fault. `random` is the byte that a random instruction draws.
///
/// `m` is the state after the fetch, so its program counter already points
/// behind `op`: a jump sets it and a skip adds to it from there, and a call
/// pushes it as the return address.
pub open spec fn execute_spec(m: MachineState, op: OpCode, random: u8) -> MachineState {
    let v = m.registers;
    match op {
        OpCode::Cls => MachineState { screen: blank_screen(m.screen.len()), ..m },
        OpCode::Ret => MachineState {
            sp: m.sp - 1,
            pc: m.stack[m.sp - 1] as int,
            ..m
        },
        OpCode::Jp(nnn) => m.with_pc(nnn as int),
        OpCode::Call(nnn) => MachineState {
            stack: m.stack.update(m.sp, m.pc as u16),
            sp: m.sp + 1,
            pc: nnn as int,
            ..m
        },
        OpCode::SeVx(x, kk) => m.skipping(v[x as int] == kk),
        OpCode::SNeVx(x, kk) => m.skipping(v[x as int] != kk),
        OpCode::SeVxVy(x, y) => m.skipping(v[x as int] == v[y as int]),
        OpCode::LdVx(x, kk) => m.with_register(x as int, kk as u8),
        OpCode::AddVx(x, kk) => m.with_register(x as int, sum_of(v[x as int], kk as u8).0),
        OpCode::LdVxVy(x, y) => m.with_register(x as int, v[y as int]),
        OpCode::Or(x, y) => m.with_register(x as int, v[x as int] | v[y as int]),
        OpCode::And(x, y) => m.with_register(x as int, v[x as int] & v[y as int]),
        OpCode::Xor(x, y) => m.with_register(x as int, v[x as int] ^ v[y as int]),
        OpCode::Add(x, y) => {
            let (sum, carry) = sum_of(v[x as int], v[y as int]);
            m.with_register(x as int, sum).with_flag(carry)
        },
        OpCode::Sub(x, y) => {
            let (difference, borrow) = difference_of(v[x as int], v[y as int]);
            m.with_register(x as int, difference).with_flag(borrow)
        },
        OpCode::Shr(x) => {
            let (half, low) = halved(v[x as int]);
            m.with_register(x as int, half).with_flag(low)
        },
        OpCode::SubN(x, y) => {
            let (difference, borrow) = difference_of(v[y as int], v[x as int]);
            m.with_register(x as int, difference).with_flag(borrow)
        },
        OpCode::Shl(x) => {
            let (double, high) = doubled(v[x as int]);
            m.with_register(x as int, double).with_flag(high)
        },
        OpCode::SeNeVxVy(x, y) => m.skipping(v[x as int] != v[y as int]),
        OpCode::LdI(nnn) => MachineState { index: nnn as int, ..m },
        OpCode::JpV0(nnn) => m.with_pc(nnn + v[0]),
        OpCode::Rnd(x, kk) => m.with_register(x as int, random & kk),
        OpCode::Drw(x, y, n) => {
            let sprite = sprite_rows(m, n as int);
            let x0 = v[x as int] as int;
            let y0 = v[y as int] as int;
            MachineState { screen: draw_sprite(m.screen, sprite, x0, y0), ..m }.with_flag(
                sprite_collides(m.screen, sprite, x0, y0),
            )
        },
        OpCode::Skp(x) => m.skipping(m.keypad[v[x as int] as int]),
        OpCode::SkNp(x) => m.skipping(!m.keypad[v[x as int] as int]),
        OpCode::LdVxDt(x) => m.with_register(x as int, m.delay_timer),
        OpCode::LdVxK(x) => match first_pressed(m.keypad) {
            Some(key) => m.with_register(x as int, key as u8),
            None => m.with_pc(m.pc - 2),
        },
        OpCode::LdDtVx(x) => MachineState { delay_timer: v[x as int], ..m },
        OpCode::LdStVx(x) => MachineState { sound_timer: v[x as int], ..m },
        OpCode::AddIVx(x) => MachineState { index: m.index + v[x as int], ..m },
        OpCode::LdFVx(x) => MachineState { index: v[x as int] * GLYPH_SIZE, ..m },
        OpCode::LdBVx(x) => {
            let (hundreds, tens, ones) = decimal_digits(v[x as int]);
            MachineState {
                memory: m.memory.update(m.index, hundreds).update(
                    m.index + 1,
                    tens,
                ).update(m.index + 2, ones),
                ..m
            }
        },
        OpCode::LdIVx(x) => MachineState { memory: memory_with_registers(m, x as int), ..m },
        OpCode::LdVxI(x) => MachineState { registers: registers_from_memory(m, x as int), ..m },
        OpCode::Invalid(_) => m,
    }
}

/// What executing `op` in the state `m` reports: the fault, or success.
pub open spec fn execute_result(m: MachineState, op: OpCode) -> Result<(), Fault> {
    match execute_fault(m, op) {
        Some(fault) => Err(fault),
        None => Ok(()),
    }
}

/// The state in which executing `op` leaves the machine: unchanged where it
/// raises a fault, and as [`execute_spec`] says where it does not.
pub open spec fn execute_outcome(m: MachineState, op: OpCode, random: u8) -> MachineState {
    if execute_fault(m, op) is Some {
        m
    } else {
        execute_spec(m, op, random)
    }
}

/// The instruction at the program counter, or the fault of a program counter
/// that leaves no room for one.
pub open spec fn fetch_spec(m: MachineState) -> Result<OpCode, Fault> {
    if m.pc + 1 < MEMORY_SIZE {
        Ok(decode_spec(m.memory[m.pc], m.memory[m.pc + 1]))
    } else {
        Err(Fault::ProgramCounterOutOfRange)
    }
}

/// The state after `op` was fetched: it is remembered as the last
/// instruction, and the program counter points behind it.
pub open spec fn fetched(m: MachineState, op: OpCode) -> MachineState {
    MachineState { pc: m.pc + 2, last_instruction: op, ..m }
}

/// The fault that running one instruction in the state `m` raises, if it
/// raises one.
pub open spec fn step_fault(m: MachineState) -> Option<Fault> {
    match fetch_spec(m) {
        Err(fault) => Some(fault),
        Ok(op) => execute_fault(fetched(m, op), op),
    }
}

/// What running one instruction in the state `m` reports: the fault, or
/// success.
pub open spec fn step_result(m: MachineState) -> Result<(), Fault> {
    match step_fault(m) {
        Some(fault) => Err(fault),
        None => Ok(()),
    }
}

/// The state after one instruction was run in the state `m`.
///
/// Where the fetch fails, nothing changes. Where the instruction raises a
/// fault, the state is the one after the fetch.
pub open spec fn step_spec(m: MachineState, random: u8) -> MachineState {
    match fetch_spec(m) {
        Err(_) => m,
        Ok(op) => execute_outcome(fetched(m, op), op, random),
    }
}

/// Whether the instruction at the program counter is one that draws a random
/// byte.
pub open spec fn draws_random(m: MachineState) -> bool {
    fetch_spec(m) matches Ok(op) && op is Rnd
}

/// A timer one tick later: one less, and still 0 if it was 0.
pub open spec fn count_down(timer: u8) -> u8 {
    if timer == 0 {
        0u8
    } else {
        (timer - 1) as u8
    }
}

/// The state after both timers ticked once.
pub open spec fn tick_spec(m: MachineState) -> MachineState {
    MachineState {
        delay_timer: count_down(m.delay_timer),
        sound_timer: count_down(m.sound_timer),
        ..m
    }
}

/// Whether the next tick makes the machine beep: the sound timer is about to
/// run out.
pub open spec fn beeps(m: MachineState) -> bool {
    m.sound_timer == 1
}

/// The state after one cycle: one instruction, then one tick of the timers.
/// A fault ends the cycle before the tick.
pub open spec fn cycle_spec(m: MachineState, random: u8) -> MachineState {
    if step_fault(m) is Some {
        step_spec(m, random)
    } else {
        tick_spec(step_spec(m, random))
    }
}

/// What one cycle reports: the fault that ended it, or whether the machine
/// beeps.
pub open spec fn cycle_result(m: MachineState, random: u8) -> Result<bool, Fault> {
    match step_fault(m) {
        Some(fault) => Err(fault),
        None => Ok(beeps(step_spec(m, random))),
    }
}

/// The state after as many instructions were run as `randoms` is long, the
/// i-th of them drawing `randoms[i]` if it is a random instruction, together
/// with the fault that stopped the run early, if one did. No instruction is
/// run after a fault.
pub open spec fn run_spec(m: MachineState, randoms: Seq<u8>) -> (MachineState, Option<Fault>)
    decreases randoms.len(),
{
    if randoms.len() == 0 {
        (m, None)
    } else {
        let (before, fault) = run_spec(m, randoms.drop_last());
        if fault is Some {
            (before, fault)
        } else {
            (step_spec(before, randoms.last()), step_fault(before))
        }
    }
}

/// The state after as many cycles as `randoms` is long, the i-th of them
/// drawing `randoms[i]` if its instruction is a random one. A cycle that meets
/// a fault does not stop those after it.
pub open spec fn cycles_spec(m: MachineState, randoms: Seq<u8>) -> MachineState
    decreases randoms.len(),
{
    if randoms.len() == 0 {
        m
    } else {
        cycle_spec(cycles_spec(m, randoms.drop_last()), randoms.last())
    }
}

/// The state after one frame: the instructions of the frame, one for each
/// byte of `randoms`, then one tick of the timers. A fault ends the frame
/// before the tick.
pub open spec fn frame_spec(m: MachineState, randoms: Seq<u8>) -> MachineState {
    let (after, fault) = run_spec(m, randoms);
    if fault is Some {
        after
    } else {
        tick_spec(after)
    }
}

/// What one frame reports: the fault that ended it, or whether the machine
/// beeps.
pub open spec fn frame_result(m: MachineState, randoms: Seq<u8>) -> Result<bool, Fault> {
    let (after, fault) = run_spec(m, randoms);
    match fault {
        Some(fault) => Err(fault),
        None => Ok(beeps(after)),
    }
}

/// The state after `program` was loaded: its bytes lie in memory from
/// [`PROGRAM_START`] on, and nothing else changed.
pub open spec fn load_spec(m: MachineState, program: Seq<u8>) -> MachineState {
    MachineState {
        memory: Seq::new(
            m.memory.len(),
            |a: int|
                if PROGRAM_START <= a < PROGRAM_START + program.len() {
                    program[a - PROGRAM_START]
                } else {
                    m.memory[a]
                },
        ),
        ..m
    }
}

/// What loading a program of `len` bytes reports: a program that does not fit
/// between [`PROGRAM_START`] and the end of memory is refused.
pub open spec fn load_result(len: nat) -> Result<(), Fault> {
    if len <= MEMORY_SIZE - PROGRAM_START {
        Ok(())
    } else {
        Err(Fault::ProgramTooLarge(len as usize))
    }
}

/// The three digits are decimal digits, and they spell the value.
pub proof fn lemma_decimal_digits(value: u8)
    ensures
        decimal_digits(value).0 <= 2,
        decimal_digits(value).1 <= 9,
        decimal_digits(value).2 <= 9,
        decimal_digits(value).0 * 100 + decimal_digits(value).1 * 10 + decimal_digits(value).2
            == value,
{
}

/// An arithmetic instruction puts the result in its register and then the
/// flag in `VF`: where the register is another one than `VF`, it holds the
/// result afterwards, and `VF` holds the flag either way.
pub proof fn lemma_result_then_flag(m: MachineState, x: u8, y: u8, random: u8)
    requires
        m.wf(),
        x <= 0xF,
        y <= 0xF,
    ensures
        ({
            let after = execute_spec(m, OpCode::Add(x, y), random);
            let (sum, carry) = sum_of(m.registers[x as int], m.registers[y as int]);
            after.registers[0xF] == flag_value(carry) && (x != 0xF ==> after.registers[x as int]
                == sum)
        }),
        ({
            let after = execute_spec(m, OpCode::Sub(x, y), random);
            let (difference, borrow) = difference_of(m.registers[x as int], m.registers[y as int]);
            after.registers[0xF] == flag_value(borrow) && (x != 0xF ==> after.registers[x as int]
                == difference)
        }),
        ({
            let after = execute_spec(m, OpCode::SubN(x, y), random);
            let (difference, borrow) = difference_of(m.registers[y as int], m.registers[x as int]);
            after.registers[0xF] == flag_value(borrow) && (x != 0xF ==> after.registers[x as int]
                == difference)
        }),
        ({
            let after = execute_spec(m, OpCode::Shr(x), random);
            let (half, low) = halved(m.registers[x as int]);
            after.registers[0xF] == flag_value(low) && (x != 0xF ==> after.registers[x as int]
                == half)
        }),
        ({
            let after = execute_spec(m, OpCode::Shl(x), random);
            let (double, high) = doubled(m.registers[x as int]);
            after.registers[0xF] == flag_value(high) && (x != 0xF ==> after.registers[x as int]
                == double)
        }),
{
}

/// An instruction that raises no fault reaches into the stack and into memory
/// only where they are: a call writes the stack at an index below sixteen, a
/// return reads it at one, and the bytes that drawing, storing digits and
/// moving registers touch all lie inside memory.
pub proof fn lemma_accesses_in_range(m: MachineState, op: OpCode)
    requires
        m.wf(),
        op.well_formed(),
        execute_fault(m, op) is None,
    ensures
        op is Call ==> 0 <= m.sp < STACK_DEPTH,
        op is Ret ==> 0 <= m.sp - 1 < STACK_DEPTH,
        op matches OpCode::Drw(_, _, n) ==> 0 <= m.index && m.index + n <= MEMORY_SIZE,
        op is LdBVx ==> 0 <= m.index && m.index + 2 < MEMORY_SIZE,
        op matches OpCode::LdIVx(x) ==> 0 <= m.index && m.index + x < MEMORY_SIZE,
        op matches OpCode::LdVxI(x) ==> 0 <= m.index && m.index + x < MEMORY_SIZE,
        op matches OpCode::Skp(x) ==> m.registers[x as int] < KEY_COUNT,
        op matches OpCode::SkNp(x) ==> m.registers[x as int] < KEY_COUNT,
{
}

/// Executing the same draw instruction twice in a row gives back the screen
/// as it was, and the second draw raises the flag exactly if the first one
/// lit a cell. This is for coordinates taken from registers other than `VF`,
/// which the first draw overwrites.
pub proof fn lemma_draw_twice(m: MachineState, x: u8, y: u8, n: u8, random: u8)
    requires
        m.wf(),
        x < 0xF,
        y < 0xF,
        n <= 0xF,
        execute_fault(m, OpCode::Drw(x, y, n)) is None,
    ensures
        ({
            let once = execute_spec(m, OpCode::Drw(x, y, n), random);
            let twice = execute_spec(once, OpCode::Drw(x, y, n), random);
            let sprite = sprite_rows(m, n as int);
            let x0 = m.registers[x as int] as int;
            let y0 = m.registers[y as int] as int;
            &&& execute_fault(once, OpCode::Drw(x, y, n)) is None
            &&& twice.screen == m.screen
            &&& twice.registers[0xF] == flag_value(
                exists|cell: int|
                    0 <= cell < m.screen.len() && !m.screen[cell] && #[trigger] sprite_covers(
                        sprite,
                        x0,
                        y0,
                        cell,
                    ),
            )
            &&& twice == MachineState { registers: twice.registers, ..m }
        }),
{
    let sprite = sprite_rows(m, n as int);
    let x0 = m.registers[x as int] as int;
    let y0 = m.registers[y as int] as int;
    lemma_draw_twice_restores(m.screen, sprite, x0, y0);
    lemma_second_draw_collides(m.screen, sprite, x0, y0);
}

/// Executing a well-formed instruction that raises no fault leaves a
/// well-formed state well-formed, as long as the program counter leaves room
/// for a skip.
pub proof fn lemma_execute_preserves_wf(m: MachineState, op: OpCode, random: u8)
    requires
        m.wf(),
        op.well_formed(),
        2 <= m.pc <= 0xFFFD,
    ensures
        execute_outcome(m, op, random).wf(),
{
}

/// Running an instruction leaves a well-formed state well-formed: the parts
/// keep their sizes, the stack stays within its sixteen entries, and the
/// program counter and the index register stay within the integers that
/// hold them.
pub proof fn lemma_step_preserves_wf(m: MachineState, random: u8)
    requires
        m.wf(),
    ensures
        step_spec(m, random).wf(),
        cycle_spec(m, random).wf(),
{
    if fetch_spec(m) is Ok {
        let op = fetch_spec(m)->Ok_0;
        lemma_decode_well_formed(m.memory[m.pc], m.memory[m.pc + 1]);
        lemma_execute_preserves_wf(fetched(m, op), op, random);
    }
}

/// A run of instructions, and a frame, leave a well-formed state well-formed.
pub proof fn lemma_run_preserves_wf(m: MachineState, randoms: Seq<u8>)
    requires
        m.wf(),
    ensures
        run_spec(m, randoms).0.wf(),
        frame_spec(m, randoms).wf(),
    decreases randoms.len(),
{
    if randoms.len() > 0 {
        lemma_run_preserves_wf(m, randoms.drop_last());
        lemma_step_preserves_wf(run_spec(m, randoms.drop_last()).0, randoms.last());
    }
}

/// Once a fault has stopped a run, asking for more instructions changes
/// nothing.
pub proof fn lemma_run_stays_stopped(m: MachineState, randoms: Seq<u8>, more: Seq<u8>)
    requires
        run_spec(m, randoms).1 is Some,
    ensures
        run_spec(m, randoms + more) == run_spec(m, randoms),
    decreases more.len(),
{
    if more.len() > 0 {
        lemma_run_stays_stopped(m, randoms, more.drop_last());
        assert((randoms + more).drop_last() =~= randoms + more.drop_last());
    }
}

/// The random byte matters to a random instruction and to no other.
pub proof fn lemma_random_matters_to_random_only(m: MachineState, random: u8, other: u8)
    requires
        !draws_random(m),
    ensures
        step_spec(m, random) == step_spec(m, other),
        cycle_spec(m, random) == cycle_spec(m, other),
        cycle_result(m, random) == cycle_result(m, other),
{
}

/// Two runs from the same state go the same way if their bytes agree wherever
/// a random instruction draws one. A run that meets no random instruction
/// therefore depends on the state alone, and so does a frame.
pub proof fn lemma_run_uses_randoms_where_drawn(m: MachineState, randoms: Seq<u8>, others: Seq<u8>)
    requires
        randoms.len() == others.len(),
        forall|i: int|
            0 <= i < randoms.len() && draws_random(#[trigger] run_spec(m, randoms.take(i)).0)
                ==> randoms[i] == others[i],
    ensures
        run_spec(m, randoms) == run_spec(m, others),
        frame_spec(m, randoms) == frame_spec(m, others),
        frame_result(m, randoms) == frame_result(m, others),
    decreases randoms.len(),
{
    if randoms.len() > 0 {
        let shorter = randoms.drop_last();
        assert forall|i: int|
            0 <= i < shorter.len() && draws_random(
                #[trigger] run_spec(m, shorter.take(i)).0,
            ) implies shorter[i] == others.drop_last()[i] by {
            assert(shorter.take(i) =~= randoms.take(i));
        }
        lemma_run_uses_randoms_where_drawn(m, shorter, others.drop_last());
        let before = run_spec(m, shorter).0;
        assert(randoms.take(randoms.len() - 1) =~= shorter);
        if !draws_random(before) {
            lemma_random_matters_to_random_only(before, randoms.last(), others.last());
        }
    }
}

/// The machine never touches the keys: whatever it runs, the keypad stays as
/// the host left it.
pub proof fn lemma_keypad_is_the_hosts(m: MachineState, random: u8)
    ensures
        step_spec(m, random).keypad == m.keypad,
        cycle_spec(m, random).keypad == m.keypad,
{
}

/// Only clearing and drawing change the screen.
pub proof fn lemma_screen_changes_by_clear_and_draw(m: MachineState, random: u8)
    requires
        fetch_spec(m) matches Ok(op) ==> !(op is Cls) && !(op is Drw),
    ensures
        step_spec(m, random).screen == m.screen,
        cycle_spec(m, random).screen == m.screen,
{
}

/// The remembered instruction is for display only: what the machine does
/// next does not depend on it. Two states that differ in nothing else meet
/// the same fault or none, and are the same state after a step, unless the
/// fetch fails and leaves each as it is.
pub proof fn lemma_last_instruction_is_for_display(m: MachineState, other: OpCode, random: u8)
    ensures
        step_fault(MachineState { last_instruction: other, ..m }) == step_fault(m),
        fetch_spec(m) is Ok ==> step_spec(MachineState { last_instruction: other, ..m }, random)
            == step_spec(m, random),
        fetch_spec(m) is Ok ==> cycle_spec(MachineState { last_instruction: other, ..m }, random)
            == cycle_spec(m, random),
{
    if fetch_spec(m) is Ok {
        let op = fetch_spec(m)->Ok_0;
        assert(fetched(MachineState { last_instruction: other, ..m }, op) == fetched(m, op));
    }
}

/// A fault changes nothing but what the fetch changed: the instruction is
/// remembered and the program counter points behind it, unless it was the
/// fetch itself that failed, which changes nothing at all.
pub proof fn lemma_fault_changes_nothing(m: MachineState, random: u8)
    requires
        step_fault(m) is Some,
    ensures
        fetch_spec(m) is Err ==> step_spec(m, random) == m,
        fetch_spec(m) matches Ok(op) ==> step_spec(m, random) == fetched(m, op),
        cycle_spec(m, random) == step_spec(m, random),
{
}

/// A timer never grows by a tick, and one that stands at 0 stays at 0. The
/// machine beeps with the tick that takes the sound timer from 1 to 0, and
/// with no other.
pub proof fn lemma_timers_stop_at_zero(m: MachineState)
    ensures
        tick_spec(m).delay_timer <= m.delay_timer,
        tick_spec(m).sound_timer <= m.sound_timer,
        m.delay_timer == 0 ==> tick_spec(m).delay_timer == 0,
        m.sound_timer == 0 ==> tick_spec(m).sound_timer == 0,
        m.delay_timer > 0 ==> tick_spec(m).delay_timer == m.delay_timer - 1,
        m.sound_timer > 0 ==> tick_spec(m).sound_timer == m.sound_timer - 1,
        beeps(m) <==> m.sound_timer > 0 && tick_spec(m).sound_timer == 0,
{
}

/// A machine that waits for a key, with no key down, goes nowhere: the step
/// raises no fault and leaves the program counter on the waiting instruction,
/// so that the next step and the next cycle find the same instruction again.
/// Nothing but the remembered instruction changes in the step, and nothing
/// but that and the timers in the cycle.
pub proof fn lemma_key_wait_repeats(m: MachineState, x: u8, random: u8)
    requires
        m.wf(),
        fetch_spec(m) == Ok::<OpCode, Fault>(OpCode::LdVxK(x)),
        forall|k: int| 0 <= k < m.keypad.len() ==> !m.keypad[k],
    ensures
        step_fault(m) is None,
        step_spec(m, random) == (MachineState { last_instruction: OpCode::LdVxK(x), ..m }),
        cycle_spec(m, random) == tick_spec(
            MachineState { last_instruction: OpCode::LdVxK(x), ..m },
        ),
        cycle_spec(m, random).pc == m.pc,
        fetch_spec(step_spec(m, random)) == fetch_spec(m),
        fetch_spec(cycle_spec(m, random)) == fetch_spec(m),
        cycle_spec(m, random).keypad == m.keypad,
{
    lemma_first_pressed_none(m.keypad);
}

/// However many cycles a machine that waits for a key is given while no key
/// is down, its program counter does not move.
pub proof fn lemma_key_wait_blocks(m: MachineState, x: u8, randoms: Seq<u8>)
    requires
        m.wf(),
        fetch_spec(m) == Ok::<OpCode, Fault>(OpCode::LdVxK(x)),
        forall|k: int| 0 <= k < m.keypad.len() ==> !m.keypad[k],
    ensures
        cycles_spec(m, randoms).pc == m.pc,
        cycles_spec(m, randoms).keypad == m.keypad,
        cycles_spec(m, randoms).registers == m.registers,
        cycles_spec(m, randoms).wf(),
        fetch_spec(cycles_spec(m, randoms)) == fetch_spec(m),
    decreases randoms.len(),
{
    if randoms.len() > 0 {
        lemma_key_wait_blocks(m, x, randoms.drop_last());
        let before = cycles_spec(m, randoms.drop_last());
        lemma_key_wait_repeats(before, x, randoms.last());
        lemma_step_preserves_wf(before, randoms.last());
    }
}

/// A machine that waits for a key goes on as soon as one is down: the step
/// raises no fault, moves the program counter behind the waiting instruction
/// and puts the number of the lowest key that is down in the register.
pub proof fn lemma_key_wait_ends(m: MachineState, x: u8, key: int, random: u8)
    requires
        m.wf(),
        fetch_spec(m) == Ok::<OpCode, Fault>(OpCode::LdVxK(x)),
        is_first_pressed(m.keypad, key),
    ensures
        step_fault(m) is None,
        step_spec(m, random) == (MachineState {
            pc: m.pc + 2,
            registers: m.registers.update(x as int, key as u8),
            last_instruction: OpCode::LdVxK(x),
            ..m
        }),
        cycle_spec(m, random).pc == m.pc + 2,
        x < REGISTER_COUNT,
        cycle_spec(m, random).registers[x as int] == key,
{
    lemma_first_pressed_is(m.keypad, key);
    lemma_decode_well_formed(m.memory[m.pc], m.memory[m.pc + 1]);
}

/// An instruction fetched at an even address leaves the program counter
/// even, as long as the address that a jump, a call or a return sends it to
/// is even.
pub proof fn lemma_program_counter_stays_even(m: MachineState, random: u8)
    requires
        m.wf(),
        m.pc % 2 == 0,
        fetch_spec(m) matches Ok(op) ==> match op {
            OpCode::Jp(nnn) | OpCode::Call(nnn) => nnn % 2 == 0,
            OpCode::JpV0(nnn) => (nnn + m.registers[0]) % 2 == 0,
            OpCode::Ret => m.sp > 0 ==> m.stack[m.sp - 1] % 2 == 0,
            _ => true,
        },
    ensures
        step_spec(m, random).pc % 2 == 0,
        cycle_spec(m, random).pc % 2 == 0,
{
}

/// After a program of at least two bytes was loaded into a machine whose
/// program counter stands at the start of the program area, the next
/// instruction fetched is the one that its first two bytes encode.
pub proof fn lemma_loaded_program_starts(m: MachineState, program: Seq<u8>)
    requires
        m.wf(),
        m.pc == PROGRAM_START,
        2 <= program.len() <= MEMORY_SIZE - PROGRAM_START,
    ensures
        fetch_spec(load_spec(m, program)) == Ok::<OpCode, Fault>(
            decode_spec(program[0], program[1]),
        ),
{
}

} // verus!
