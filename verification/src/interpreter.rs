//! The machine itself.

use crate::arithmetic::{add_bytes, shift_left, shift_right, subtract_bytes};
use crate::display::{
    blank_screen,
    collides_before,
    drawn_before,
    lemma_draw_ends,
    lemma_draw_next_row,
    lemma_draw_pixel,
    lemma_draw_starts,
    lemma_lit_cells_next,
    lemma_screen_text_next,
    lemma_sprite_bit_mask,
    lit_cells_below,
    lit_coordinates,
    screen_text,
    screen_text_prefix,
    target_cell,
    to_coordinates,
};
use crate::fault::Fault;
use crate::keypad::{button_of_key, lemma_first_pressed_is, lemma_first_pressed_none};
use crate::model::{
    initial_state,
    MachineState,
    FONTSET,
    GLYPH_SIZE,
    KEY_COUNT,
    MEMORY_SIZE,
    PROGRAM_START,
    REGISTER_COUNT,
    SCREEN_HEIGHT,
    SCREEN_PIXELS,
    SCREEN_WIDTH,
    STACK_DEPTH,
    TICKS_PER_FRAME,
};
use crate::opcode::OpCode;
use crate::random::random_byte;
use crate::semantics::{
    beeps,
    cycle_result,
    cycle_spec,
    draws_random,
    execute_outcome,
    execute_result,
    execute_spec,
    fetch_spec,
    frame_result,
    frame_spec,
    lemma_run_stays_stopped,
    load_result,
    load_spec,
    memory_with_registers,
    registers_from_memory,
    run_spec,
    sprite_rows,
    step_fault,
    step_result,
    step_spec,
    tick_spec,
};
use vstd::prelude::*;
use vstd::string::StringExecFns;

verus! {

/// A CHIP-8 machine.
///
/// Its state is read through [`Chip8::view`], written `vm@` in contracts, and
/// every operation says how it changes that view.
pub struct Chip8 {
    /// Index register.
    idx: usize,
    /// Program counter.
    pc: u16,
    /// Number of return addresses on the stack.
    sp: usize,
    stack: [u16; 16],
    /// Registers `V0` to `VF`.
    v: [u8; 16],
    /// Font, program and work memory.
    mem: [u8; 4096],
    last_executed_instruction: OpCode,
    /// Monochrome screen, row after row.
    screen: [bool; 2048],
    delay_timer: u8,
    sound_timer: u8,
    keypad: [bool; 16],
}

impl Chip8 {
    #[verifier::type_invariant]
    spec fn stack_within_depth(self) -> bool {
        self.sp <= STACK_DEPTH
    }

    /// The state of the machine as a mathematical value.
    pub closed spec fn view(&self) -> MachineState {
        MachineState {
            index: self.idx as int,
            pc: self.pc as int,
            sp: self.sp as int,
            stack: self.stack@,
            registers: self.v@,
            memory: self.mem@,
            screen: self.screen@,
            delay_timer: self.delay_timer,
            sound_timer: self.sound_timer,
            keypad: self.keypad@,
            last_instruction: self.last_executed_instruction,
        }
    }

    /// A machine with the font in memory, the program counter at the start of
    /// the program area, and everything else zero, dark or up.
    pub fn new() -> (vm: Self)
        ensures
            vm@ == initial_state(),
            vm@.wf(),
    {
        let mut mem: [u8; 4096] = [0; 4096];
        let mut a: usize = 0;
        while a < 80
            invariant
                a <= 80,
                forall|b: int| 0 <= b < a ==> mem@[b] == FONTSET[b],
                forall|b: int| a <= b < 4096 ==> mem@[b] == 0,
            decreases 80 - a,
        {
            mem[a] = FONTSET[a];
            a += 1;
        }
        let vm = Chip8 {
            idx: 0,
            pc: 0x200,
            sp: 0,
            stack: [0; 16],
            v: [0; 16],
            mem,
            last_executed_instruction: OpCode::Cls,
            screen: [false; 2048],
            delay_timer: 0,
            sound_timer: 0,
            keypad: [false; 16],
        };
        assert(vm@.memory =~= initial_state().memory);
        assert(vm@.stack =~= initial_state().stack);
        assert(vm@.registers =~= initial_state().registers);
        assert(vm@.screen =~= initial_state().screen);
        assert(vm@.keypad =~= initial_state().keypad);
        vm
    }

    /// Loads a program: copies `game_rom` into memory from [`PROGRAM_START`]
    /// on. A program that does not fit is refused, and the machine is left as
    /// it was.
    pub fn load(&mut self, game_rom: &[u8]) -> (result: Result<(), Fault>)
        ensures
            result == load_result(game_rom@.len()),
            result is Ok ==> final(self)@ == load_spec(old(self)@, game_rom@),
            result is Err ==> final(self)@ == old(self)@,
            final(self)@.wf(),
    {
        proof {
            use_type_invariant(&*self);
        }
        let len: usize = game_rom.len();
        if len > MEMORY_SIZE - PROGRAM_START {
            return Err(Fault::ProgramTooLarge(len));
        }
        let ghost before = self@;
        let mut i: usize = 0;
        while i < len
            invariant
                i <= len == game_rom@.len() <= MEMORY_SIZE - PROGRAM_START,
                self.sp <= STACK_DEPTH,
                before.wf(),
                self@ == (MachineState { memory: self.mem@, ..before }),
                forall|a: int|
                    0 <= a < MEMORY_SIZE ==> self.mem@[a] == if PROGRAM_START <= a < PROGRAM_START
                        + i {
                        game_rom@[a - PROGRAM_START]
                    } else {
                        before.memory[a]
                    },
            decreases len - i,
        {
            self.mem[PROGRAM_START + i] = game_rom[i];
            i += 1;
        }
        assert(self.mem@ =~= load_spec(before, game_rom@).memory);
        Ok(())
    }

    /// Puts the machine back into the state of a new one.
    pub fn reset(&mut self)
        ensures
            final(self)@ == initial_state(),
            final(self)@.wf(),
    {
        *self = Chip8::new();
    }

    /// Reads and decodes the instruction at the program counter, and changes
    /// nothing.
    pub fn fetch(&self) -> (result: Result<OpCode, Fault>)
        ensures
            result == fetch_spec(self@),
            result matches Ok(op) ==> op.well_formed(),
    {
        let pc: usize = self.pc as usize;
        if pc + 1 >= MEMORY_SIZE {
            return Err(Fault::ProgramCounterOutOfRange);
        }
        Ok(OpCode::decode(self.mem[pc], self.mem[pc + 1]))
    }

    /// Executes `op`, which was fetched just before, so that the program
    /// counter already points behind it. `random` is the byte that a random
    /// instruction draws.
    ///
    /// Where the instruction cannot be carried out, the fault is returned and
    /// the machine is left as it was.
    pub fn execute(&mut self, op: OpCode, random: u8) -> (result: Result<(), Fault>)
        requires
            op.well_formed(),
            2 <= old(self)@.pc <= 0xFFFD,
        ensures
            result == execute_result(old(self)@, op),
            final(self)@ == execute_outcome(old(self)@, op, random),
            final(self)@.wf(),
    {
        proof {
            use_type_invariant(&*self);
        }
        match op {
            OpCode::Cls => {
                self.clear_screen();
                Ok(())
            },
            OpCode::Ret
            | OpCode::Jp(_)
            | OpCode::Call(_)
            | OpCode::JpV0(_)
            | OpCode::SeVx(_, _)
            | OpCode::SNeVx(_, _)
            | OpCode::SeVxVy(_, _)
            | OpCode::SeNeVxVy(_, _)
            | OpCode::Skp(_)
            | OpCode::SkNp(_) => self.execute_flow(op),
            OpCode::LdVx(_, _)
            | OpCode::AddVx(_, _)
            | OpCode::Rnd(_, _)
            | OpCode::LdVxDt(_)
            | OpCode::LdDtVx(_)
            | OpCode::LdStVx(_)
            | OpCode::LdI(_)
            | OpCode::AddIVx(_)
            | OpCode::LdFVx(_) => self.execute_load(op, random),
            OpCode::LdVxVy(_, _)
            | OpCode::Or(_, _)
            | OpCode::And(_, _)
            | OpCode::Xor(_, _)
            | OpCode::Add(_, _)
            | OpCode::Sub(_, _)
            | OpCode::Shr(_)
            | OpCode::SubN(_, _)
            | OpCode::Shl(_) => {
                self.execute_alu(op);
                Ok(())
            },
            OpCode::Drw(x, y, n) => self.draw(x, y, n),
            OpCode::LdVxK(x) => {
                self.wait_for_key(x);
                Ok(())
            },
            OpCode::LdBVx(x) => self.store_digits(x),
            OpCode::LdIVx(x) => self.store_registers(x),
            OpCode::LdVxI(x) => self.load_registers(x),
            OpCode::Invalid(raw) => Err(Fault::InvalidOpcode(raw)),
        }
    }

    /// Runs one instruction: fetches it, moves the program counter behind it
    /// and executes it, a random instruction drawing the byte `random`.
    ///
    /// Where the fetch fails, nothing changes. Where the instruction cannot be
    /// carried out, the machine is left as it was after the fetch. Either way
    /// the fault is returned.
    pub fn step_with(&mut self, random: u8) -> (result: Result<(), Fault>)
        ensures
            result == step_result(old(self)@),
            final(self)@ == step_spec(old(self)@, random),
            final(self)@.wf(),
    {
        proof {
            use_type_invariant(&*self);
        }
        match self.fetch() {
            Err(fault) => Err(fault),
            Ok(op) => {
                self.last_executed_instruction = op;
                self.pc = self.pc + 2;
                self.execute(op, random)
            },
        }
    }

    /// Runs one instruction, as [`Chip8::step_with`] does, with a byte from
    /// the random number generator where the instruction draws one.
    pub fn step(&mut self) -> (result: Result<(), Fault>)
        ensures
            result == step_result(old(self)@),
            exists|random: u8| final(self)@ == #[trigger] step_spec(old(self)@, random),
            !draws_random(old(self)@) ==> final(self)@ == step_spec(old(self)@, 0),
            final(self)@.wf(),
    {
        let random: u8 = match self.fetch() {
            Ok(OpCode::Rnd(_, _)) => random_byte(),
            _ => 0,
        };
        self.step_with(random)
    }

    /// Lets both timers tick once, and tells whether the machine beeps: it
    /// does when the sound timer runs out with this tick.
    pub fn tick_timers(&mut self) -> (beep: bool)
        ensures
            beep == beeps(old(self)@),
            final(self)@ == tick_spec(old(self)@),
            final(self)@.wf(),
    {
        proof {
            use_type_invariant(&*self);
        }
        let beep: bool = self.sound_timer == 1;
        if self.delay_timer > 0 {
            self.delay_timer = self.delay_timer - 1;
        }
        if self.sound_timer > 0 {
            self.sound_timer = self.sound_timer - 1;
        }
        beep
    }

    /// Runs one cycle: one instruction, then one tick of the timers. Returns
    /// whether the machine beeps.
    ///
    /// A fault ends the cycle at once, before the timers tick.
    pub fn cycle(&mut self) -> (result: Result<bool, Fault>)
        ensures
            exists|random: u8|
                final(self)@ == #[trigger] cycle_spec(old(self)@, random) && result
                    == cycle_result(old(self)@, random),
            !draws_random(old(self)@) ==> final(self)@ == cycle_spec(old(self)@, 0) && result
                == cycle_result(old(self)@, 0),
            final(self)@.wf(),
    {
        let ghost before = self@;
        let stepped = self.step();
        let ghost random = choose|random: u8| self@ == #[trigger] step_spec(before, random);
        match stepped {
            Err(fault) => {
                assert(self@ == cycle_spec(before, random));
                Err(fault)
            },
            Ok(()) => {
                let beep = self.tick_timers();
                assert(self@ == cycle_spec(before, random));
                Ok(beep)
            },
        }
    }

    /// Runs one frame: [`TICKS_PER_FRAME`] instructions, then one tick of the
    /// timers. Returns whether the machine beeps.
    ///
    /// A fault ends the frame at once: the instructions that were to follow
    /// are not run, and the timers do not tick.
    pub fn frame(&mut self) -> (result: Result<bool, Fault>)
        ensures
            exists|randoms: Seq<u8>|
                randoms.len() == TICKS_PER_FRAME && final(self)@ == #[trigger] frame_spec(
                    old(self)@,
                    randoms,
                ) && result == frame_result(old(self)@, randoms),
            final(self)@.wf(),
    {
        proof {
            use_type_invariant(&*self);
        }
        let ghost start = self@;
        let ghost mut randoms: Seq<u8> = Seq::empty();
        let mut done: usize = 0;
        while done < TICKS_PER_FRAME
            invariant
                done <= TICKS_PER_FRAME,
                randoms.len() == done,
                start == old(self)@,
                run_spec(start, randoms) == (self@, None::<Fault>),
                self@.wf(),
            decreases TICKS_PER_FRAME - done,
        {
            let ghost before = self@;
            let ghost earlier = randoms;
            let stepped = self.step();
            proof {
                let random = choose|random: u8| self@ == #[trigger] step_spec(before, random);
                randoms = earlier.push(random);
                assert(randoms.drop_last() =~= earlier);
            }
            match stepped {
                Err(fault) => {
                    proof {
                        let rest = Seq::new(
                            (TICKS_PER_FRAME - randoms.len()) as nat,
                            |i: int| 0u8,
                        );
                        lemma_run_stays_stopped(start, randoms, rest);
                        assert(self@ == frame_spec(start, randoms + rest));
                    }
                    return Err(fault);
                },
                Ok(()) => {},
            }
            done += 1;
        }
        let beep = self.tick_timers();
        assert(self@ == frame_spec(start, randoms));
        Ok(beep)
    }

    /// Records that the key `key` went down (`pressed`) or up.
    pub fn keypress(&mut self, key: usize, pressed: bool)
        requires
            key < KEY_COUNT,
        ensures
            final(self)@ == (MachineState {
                keypad: old(self)@.keypad.update(key as int, pressed),
                ..old(self)@
            }),
            final(self)@.wf(),
    {
        proof {
            use_type_invariant(&*self);
        }
        self.keypad[key] = pressed;
    }

    /// The key that the key symbol `key` of a keyboard stands for, if it
    /// stands for one.
    ///
    /// ```text
    /// keypad     keyboard
    /// 1 2 3 C    1 2 3 4
    /// 4 5 6 D    q w e r
    /// 7 8 9 E    a s d f
    /// A 0 B F    z x c v
    /// ```
    pub fn key2btn(key: &str) -> (button: Option<usize>)
        ensures
            button == button_of_key(key@),
            button matches Some(k) ==> k < KEY_COUNT,
    {
        if key.unicode_len() != 1 {
            return None;
        }
        match key.get_char(0) {
            '1' => Some(0x1),
            '2' => Some(0x2),
            '3' => Some(0x3),
            '4' => Some(0xC),
            'q' => Some(0x4),
            'w' => Some(0x5),
            'e' => Some(0x6),
            'r' => Some(0xD),
            'a' => Some(0x7),
            's' => Some(0x8),
            'd' => Some(0x9),
            'f' => Some(0xE),
            'z' => Some(0xA),
            'x' => Some(0x0),
            'c' => Some(0xB),
            'v' => Some(0xF),
            _ => None,
        }
    }

    /// Turns every cell of the screen dark.
    pub fn clear_screen(&mut self)
        ensures
            final(self)@ == (MachineState {
                screen: blank_screen(old(self)@.screen.len()),
                ..old(self)@
            }),
            final(self)@.wf(),
    {
        proof {
            use_type_invariant(&*self);
        }
        let mut cell: usize = 0;
        while cell < SCREEN_PIXELS
            invariant
                cell <= SCREEN_PIXELS,
                forall|c: int| 0 <= c < cell ==> !self.screen@[c],
                self@ == (MachineState { screen: self.screen@, ..old(self)@ }),
                self.sp <= STACK_DEPTH,
            decreases SCREEN_PIXELS - cell,
        {
            self.screen[cell] = false;
            cell += 1;
        }
        assert(self.screen@ =~= blank_screen(old(self)@.screen.len()));
    }

    /// Row and column of every lit cell of the screen, row after row and from
    /// left to right within a row.
    pub fn pixel_cooridinates(&self) -> (coordinates: Vec<(usize, usize)>)
        ensures
            coordinates@ == lit_coordinates(self@.screen),
    {
        let mut coordinates: Vec<(usize, usize)> = Vec::new();
        let mut cell: usize = 0;
        assert(lit_cells_below(self.screen@, 0) =~= Seq::empty()) by {
            reveal(Seq::filter);
        }
        while cell < SCREEN_PIXELS
            invariant
                cell <= SCREEN_PIXELS,
                coordinates@ == lit_cells_below(self.screen@, cell as nat).map_values(
                    to_coordinates(),
                ),
            decreases SCREEN_PIXELS - cell,
        {
            proof {
                lemma_lit_cells_next(self.screen@, cell as nat);
            }
            if self.screen[cell] {
                coordinates.push((cell / SCREEN_WIDTH, cell % SCREEN_WIDTH));
            }
            cell += 1;
        }
        coordinates
    }

    /// A text picture of the screen: one line for each row, `0` for a lit cell
    /// and a blank for a dark one.
    pub fn screen_text(&self) -> (text: String)
        ensures
            text@ == screen_text(self@.screen),
    {
        let mut text = String::new();
        let mut row: usize = 0;
        proof {
            reveal_strlit("0");
            reveal_strlit(" ");
            reveal_strlit("\n");
        }
        while row < SCREEN_HEIGHT
            invariant
                row <= SCREEN_HEIGHT,
                "0"@ == seq!['0'],
                " "@ == seq![' '],
                "\n"@ == seq!['\n'],
                text@ == screen_text_prefix(self.screen@, (row * (SCREEN_WIDTH + 1)) as nat),
            decreases SCREEN_HEIGHT - row,
        {
            let mut column: usize = 0;
            while column < SCREEN_WIDTH
                invariant
                    row < SCREEN_HEIGHT,
                    column <= SCREEN_WIDTH,
                    "0"@ == seq!['0'],
                    " "@ == seq![' '],
                    text@ == screen_text_prefix(
                        self.screen@,
                        (row * (SCREEN_WIDTH + 1) + column) as nat,
                    ),
                decreases SCREEN_WIDTH - column,
            {
                if self.screen[row * SCREEN_WIDTH + column] {
                    text.append("0");
                } else {
                    text.append(" ");
                }
                proof {
                    lemma_screen_text_next(self.screen@, row as int, column as int);
                }
                column += 1;
            }
            text.append("\n");
            proof {
                lemma_screen_text_next(self.screen@, row as int, SCREEN_WIDTH as int);
            }
            row += 1;
        }
        text
    }

    /// The index register.
    pub fn index(&self) -> (index: usize)
        ensures
            index == self@.index,
    {
        self.idx
    }

    /// The program counter.
    pub fn program_counter(&self) -> (pc: u16)
        ensures
            pc == self@.pc,
    {
        self.pc
    }

    /// The number of return addresses on the stack.
    pub fn stack_pointer(&self) -> (sp: usize)
        ensures
            sp == self@.sp,
            sp <= STACK_DEPTH,
    {
        proof {
            use_type_invariant(self);
        }
        self.sp
    }

    /// The stack; the entries below the stack pointer are the return
    /// addresses.
    pub fn stack(&self) -> (stack: &[u16; 16])
        ensures
            stack@ == self@.stack,
    {
        &self.stack
    }

    /// The registers `V0` to `VF`.
    pub fn registers(&self) -> (registers: &[u8; 16])
        ensures
            registers@ == self@.registers,
    {
        &self.v
    }

    /// The memory.
    pub fn memory(&self) -> (memory: &[u8; 4096])
        ensures
            memory@ == self@.memory,
    {
        &self.mem
    }

    /// The screen, row after row; `true` is a lit cell.
    pub fn screen(&self) -> (screen: &[bool; 2048])
        ensures
            screen@ == self@.screen,
    {
        &self.screen
    }

    /// The keys; `true` is a key held down.
    pub fn keypad(&self) -> (keypad: &[bool; 16])
        ensures
            keypad@ == self@.keypad,
    {
        &self.keypad
    }

    /// The delay timer.
    pub fn delay_timer(&self) -> (timer: u8)
        ensures
            timer == self@.delay_timer,
    {
        self.delay_timer
    }

    /// The sound timer.
    pub fn sound_timer(&self) -> (timer: u8)
        ensures
            timer == self@.sound_timer,
    {
        self.sound_timer
    }

    /// The instruction that was decoded last, for display.
    pub fn last_executed_instruction(&self) -> (op: OpCode)
        ensures
            op == self@.last_instruction,
    {
        self.last_executed_instruction
    }

    /// Executes the instruction `op` of those that move the program counter:
    /// jumps, calls, returns and skips.
    fn execute_flow(&mut self, op: OpCode) -> (result: Result<(), Fault>)
        requires
            op.well_formed(),
            op is Ret || op is Jp || op is Call || op is JpV0 || op is SeVx || op is SNeVx
                || op is SeVxVy || op is SeNeVxVy || op is Skp || op is SkNp,
            old(self)@.pc <= 0xFFFD,
        ensures
            result == execute_result(old(self)@, op),
            final(self)@ == execute_outcome(old(self)@, op, 0),
            final(self)@.wf(),
    {
        proof {
            use_type_invariant(&*self);
        }
        match op {
            OpCode::Ret => {
                if self.sp == 0 {
                    return Err(Fault::StackUnderflow);
                }
                self.sp = self.sp - 1;
                self.pc = self.stack[self.sp];
            },
            OpCode::Jp(addr) => {
                self.pc = addr;
            },
            OpCode::Call(addr) => {
                if self.sp >= STACK_DEPTH {
                    return Err(Fault::StackOverflow);
                }
                self.stack[self.sp] = self.pc;
                self.sp = self.sp + 1;
                self.pc = addr;
            },
            OpCode::JpV0(addr) => {
                self.pc = addr + self.v[0] as u16;
            },
            OpCode::SeVx(x, value) => {
                self.skip_if(self.v[x as usize] == value as u8);
            },
            OpCode::SNeVx(x, value) => {
                self.skip_if(self.v[x as usize] != value as u8);
            },
            OpCode::SeVxVy(x, y) => {
                self.skip_if(self.v[x as usize] == self.v[y as usize]);
            },
            OpCode::SeNeVxVy(x, y) => {
                self.skip_if(self.v[x as usize] != self.v[y as usize]);
            },
            OpCode::Skp(x) => {
                let key: u8 = self.v[x as usize];
                if key as usize >= KEY_COUNT {
                    return Err(Fault::InvalidKey(key));
                }
                self.skip_if(self.keypad[key as usize]);
            },
            OpCode::SkNp(x) => {
                let key: u8 = self.v[x as usize];
                if key as usize >= KEY_COUNT {
                    return Err(Fault::InvalidKey(key));
                }
                self.skip_if(!self.keypad[key as usize]);
            },
            _ => {},
        }
        Ok(())
    }

    /// Executes the instruction `op` of those that copy a value into a
    /// register, a timer or the index register.
    fn execute_load(&mut self, op: OpCode, random: u8) -> (result: Result<(), Fault>)
        requires
            op.well_formed(),
            op is LdVx || op is AddVx || op is Rnd || op is LdVxDt || op is LdDtVx || op is LdStVx
                || op is LdI || op is AddIVx || op is LdFVx,
        ensures
            result == execute_result(old(self)@, op),
            final(self)@ == execute_outcome(old(self)@, op, random),
            final(self)@.wf(),
    {
        proof {
            use_type_invariant(&*self);
        }
        match op {
            OpCode::LdVx(x, value) => {
                self.set_register(x, value as u8);
            },
            OpCode::AddVx(x, value) => {
                let (sum, _) = add_bytes(self.v[x as usize], value as u8);
                self.set_register(x, sum);
            },
            OpCode::Rnd(x, mask) => {
                self.set_register(x, random & mask);
            },
            OpCode::LdVxDt(x) => {
                self.set_register(x, self.delay_timer);
            },
            OpCode::LdDtVx(x) => {
                self.delay_timer = self.v[x as usize];
            },
            OpCode::LdStVx(x) => {
                self.sound_timer = self.v[x as usize];
            },
            OpCode::LdI(addr) => {
                self.idx = addr as usize;
            },
            OpCode::AddIVx(x) => {
                match self.idx.checked_add(self.v[x as usize] as usize) {
                    Some(sum) => {
                        self.idx = sum;
                    },
                    None => {
                        return Err(Fault::MemoryOverrun);
                    },
                }
            },
            OpCode::LdFVx(x) => {
                self.idx = self.v[x as usize] as usize * GLYPH_SIZE;
            },
            _ => {},
        }
        Ok(())
    }

    /// Executes the instruction `op` of the family `8xy?`, which works on two
    /// registers.
    fn execute_alu(&mut self, op: OpCode)
        requires
            op.well_formed(),
            op is LdVxVy || op is Or || op is And || op is Xor || op is Add || op is Sub || op is Shr
                || op is SubN || op is Shl,
        ensures
            final(self)@ == execute_spec(old(self)@, op, 0),
            final(self)@.wf(),
    {
        proof {
            use_type_invariant(&*self);
        }
        match op {
            OpCode::LdVxVy(x, y) => {
                self.set_register(x, self.v[y as usize]);
            },
            OpCode::Or(x, y) => {
                self.set_register(x, self.v[x as usize] | self.v[y as usize]);
            },
            OpCode::And(x, y) => {
                self.set_register(x, self.v[x as usize] & self.v[y as usize]);
            },
            OpCode::Xor(x, y) => {
                self.set_register(x, self.v[x as usize] ^ self.v[y as usize]);
            },
            OpCode::Add(x, y) => {
                let (sum, carry) = add_bytes(self.v[x as usize], self.v[y as usize]);
                self.set_register(x, sum);
                self.set_flag(carry);
            },
            OpCode::Sub(x, y) => {
                let (difference, borrow) = subtract_bytes(self.v[x as usize], self.v[y as usize]);
                self.set_register(x, difference);
                self.set_flag(borrow);
            },
            OpCode::Shr(x) => {
                let (shifted, lsb) = shift_right(self.v[x as usize]);
                self.set_register(x, shifted);
                self.set_flag(lsb);
            },
            OpCode::SubN(x, y) => {
                let (difference, borrow) = subtract_bytes(self.v[y as usize], self.v[x as usize]);
                self.set_register(x, difference);
                self.set_flag(borrow);
            },
            OpCode::Shl(x) => {
                let (shifted, msb) = shift_left(self.v[x as usize]);
                self.set_register(x, shifted);
                self.set_flag(msb);
            },
            _ => {},
        }
    }

    /// Sets register `x` to `value`.
    fn set_register(&mut self, x: u8, value: u8)
        requires
            x < 16,
        ensures
            final(self)@ == old(self)@.with_register(x as int, value),
            final(self)@.wf(),
    {
        proof {
            use_type_invariant(&*self);
        }
        self.v[x as usize] = value;
    }

    /// Sets the flag register `VF` to 1 if `raised`, else to 0.
    fn set_flag(&mut self, raised: bool)
        ensures
            final(self)@ == old(self)@.with_flag(raised),
            final(self)@.wf(),
    {
        proof {
            use_type_invariant(&*self);
        }
        self.v[0xF] = if raised {
            1
        } else {
            0
        };
    }

    /// Moves the program counter past one more instruction if `condition`
    /// holds.
    fn skip_if(&mut self, condition: bool)
        requires
            old(self)@.pc <= 0xFFFD,
        ensures
            final(self)@ == old(self)@.skipping(condition),
            final(self)@.wf(),
    {
        proof {
            use_type_invariant(&*self);
        }
        if condition {
            self.pc = self.pc + 2;
        }
    }

    /// Draws the sprite of `n` rows that the index register points at, with
    /// its top left corner at column `V[vx]` and row `V[vy]`, wrapping around
    /// the edges of the screen, and tells in `VF` whether a lit cell went dark.
    fn draw(&mut self, vx: u8, vy: u8, n: u8) -> (result: Result<(), Fault>)
        requires
            vx < 16,
            vy < 16,
            n < 16,
        ensures
            result == execute_result(old(self)@, OpCode::Drw(vx, vy, n)),
            final(self)@ == execute_outcome(old(self)@, OpCode::Drw(vx, vy, n), 0),
            final(self)@.wf(),
    {
        proof {
            use_type_invariant(&*self);
        }
        let rows: usize = n as usize;
        if self.idx > MEMORY_SIZE || rows > MEMORY_SIZE - self.idx {
            return Err(Fault::MemoryOverrun);
        }
        let x_base: usize = self.v[vx as usize] as usize;
        let y_base: usize = self.v[vy as usize] as usize;
        let ghost before = self@;
        let ghost sprite = sprite_rows(before, n as int);
        let ghost x0 = x_base as int;
        let ghost y0 = y_base as int;
        let mut collision = false;
        let mut y_line: usize = 0;
        proof {
            lemma_draw_starts(before.screen, sprite, x0, y0);
        }
        while y_line < rows
            invariant
                y_line <= rows == n < 16,
                self.idx + rows <= MEMORY_SIZE,
                x0 == x_base < 256,
                y0 == y_base < 256,
                before.wf(),
                sprite == sprite_rows(before, n as int),
                self.sp <= STACK_DEPTH,
                self@ == (MachineState { screen: self.screen@, ..before }),
                self.screen@ == drawn_before(before.screen, sprite, x0, y0, y_line as int, 0),
                collision == collides_before(before.screen, sprite, x0, y0, y_line as int, 0),
            decreases rows - y_line,
        {
            let pixel: u8 = self.mem[self.idx + y_line];
            let mut x_line: usize = 0;
            while x_line < 8
                invariant
                    x_line <= 8,
                    y_line < rows == n < 16,
                    x0 == x_base < 256,
                    y0 == y_base < 256,
                    before.wf(),
                    sprite.len() == n,
                    pixel == sprite[y_line as int],
                    self.sp <= STACK_DEPTH,
                    self@ == (MachineState { screen: self.screen@, ..before }),
                    self.screen@ == drawn_before(
                        before.screen,
                        sprite,
                        x0,
                        y0,
                        y_line as int,
                        x_line as int,
                    ),
                    collision == collides_before(
                        before.screen,
                        sprite,
                        x0,
                        y0,
                        y_line as int,
                        x_line as int,
                    ),
                decreases 8 - x_line,
            {
                proof {
                    lemma_sprite_bit_mask(pixel, x_line as u8);
                    lemma_draw_pixel(before.screen, sprite, x0, y0, y_line as int, x_line as int);
                }
                if pixel & (0x80u8 >> (x_line as u8)) != 0 {
                    let x: usize = (x_base + x_line) % SCREEN_WIDTH;
                    let y: usize = (y_base + y_line) % SCREEN_HEIGHT;
                    let cell: usize = x + SCREEN_WIDTH * y;
                    if self.screen[cell] {
                        collision = true;
                    }
                    self.screen[cell] = !self.screen[cell];
                }
                x_line += 1;
            }
            proof {
                lemma_draw_next_row(before.screen, sprite, x0, y0, y_line as int);
            }
            y_line += 1;
        }
        proof {
            lemma_draw_ends(before.screen, sprite, x0, y0);
        }
        self.set_flag(collision);
        Ok(())
    }

    /// Gives register `x` the number of the lowest key that is down. With no
    /// key down, moves the program counter back onto the instruction, so that
    /// the next step runs it again.
    fn wait_for_key(&mut self, x: u8)
        requires
            x < 16,
            old(self)@.pc >= 2,
        ensures
            final(self)@ == execute_spec(old(self)@, OpCode::LdVxK(x), 0),
            final(self)@.wf(),
    {
        proof {
            use_type_invariant(&*self);
        }
        let mut key: usize = 0;
        while key < KEY_COUNT
            invariant
                key <= KEY_COUNT,
                x < 16,
                self.sp <= STACK_DEPTH,
                *self == *old(self),
                forall|j: int| 0 <= j < key ==> !self.keypad@[j],
            decreases KEY_COUNT - key,
        {
            if self.keypad[key] {
                proof {
                    lemma_first_pressed_is(self.keypad@, key as int);
                }
                self.v[x as usize] = key as u8;
                return ;
            }
            key += 1;
        }
        proof {
            lemma_first_pressed_none(self.keypad@);
        }
        self.pc = self.pc - 2;
    }

    /// Stores the hundreds, tens and ones digit of register `x` in the three
    /// bytes at the index register.
    fn store_digits(&mut self, x: u8) -> (result: Result<(), Fault>)
        requires
            x < 16,
        ensures
            result == execute_result(old(self)@, OpCode::LdBVx(x)),
            final(self)@ == execute_outcome(old(self)@, OpCode::LdBVx(x), 0),
            final(self)@.wf(),
    {
        proof {
            use_type_invariant(&*self);
        }
        if self.idx > MEMORY_SIZE - 3 {
            return Err(Fault::MemoryOverrun);
        }
        let value: u8 = self.v[x as usize];
        self.mem[self.idx] = value / 100;
        self.mem[self.idx + 1] = (value / 10) % 10;
        self.mem[self.idx + 2] = value % 10;
        Ok(())
    }

    /// Stores the registers `V0..=Vx` in the bytes at the index register.
    fn store_registers(&mut self, x: u8) -> (result: Result<(), Fault>)
        requires
            x < 16,
        ensures
            result == execute_result(old(self)@, OpCode::LdIVx(x)),
            final(self)@ == execute_outcome(old(self)@, OpCode::LdIVx(x), 0),
            final(self)@.wf(),
    {
        proof {
            use_type_invariant(&*self);
        }
        let last: usize = x as usize;
        if self.idx >= MEMORY_SIZE || last >= MEMORY_SIZE - self.idx {
            return Err(Fault::MemoryOverrun);
        }
        let ghost before = self@;
        let mut i: usize = 0;
        while i <= last
            invariant
                i <= last + 1,
                last < 16,
                self.idx + last < MEMORY_SIZE,
                self.sp <= STACK_DEPTH,
                before.wf(),
                self@ == (MachineState { memory: self.mem@, ..before }),
                forall|a: int|
                    0 <= a < MEMORY_SIZE ==> self.mem@[a] == if before.index <= a < before.index
                        + i {
                        before.registers[a - before.index]
                    } else {
                        before.memory[a]
                    },
            decreases last + 1 - i,
        {
            self.mem[self.idx + i] = self.v[i];
            i += 1;
        }
        assert(self.mem@ =~= memory_with_registers(before, x as int));
        Ok(())
    }

    /// Loads the registers `V0..=Vx` from the bytes at the index register.
    fn load_registers(&mut self, x: u8) -> (result: Result<(), Fault>)
        requires
            x < 16,
        ensures
            result == execute_result(old(self)@, OpCode::LdVxI(x)),
            final(self)@ == execute_outcome(old(self)@, OpCode::LdVxI(x), 0),
            final(self)@.wf(),
    {
        proof {
            use_type_invariant(&*self);
        }
        let last: usize = x as usize;
        if self.idx >= MEMORY_SIZE || last >= MEMORY_SIZE - self.idx {
            return Err(Fault::MemoryOverrun);
        }
        let ghost before = self@;
        let mut i: usize = 0;
        while i <= last
            invariant
                i <= last + 1,
                last < 16,
                self.idx + last < MEMORY_SIZE,
                self.sp <= STACK_DEPTH,
                before.wf(),
                self@ == (MachineState { registers: self.v@, ..before }),
                forall|r: int|
                    0 <= r < REGISTER_COUNT ==> self.v@[r] == if r < i {
                        before.memory[before.index + r]
                    } else {
                        before.registers[r]
                    },
            decreases last + 1 - i,
        {
            self.v[i] = self.mem[self.idx + i];
            i += 1;
        }
        assert(self.v@ =~= registers_from_memory(before, x as int));
        Ok(())
    }
}

impl Default for Chip8 {
    /// A new machine, as [`Chip8::new`] makes it.
    fn default() -> (vm: Self)
        ensures
            vm@ == initial_state(),
            vm@.wf(),
    {
        Chip8::new()
    }
}

} // verus!
