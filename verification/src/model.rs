//! The machine as a mathematical value.

use crate::arithmetic::flag_value;
use crate::opcode::OpCode;
use vstd::prelude::*;

verus! {

/// Number of bytes of memory.
pub const MEMORY_SIZE: usize = 4096;

/// Address at which programs are loaded and start to run.
pub const PROGRAM_START: usize = 0x200;

/// Number of return addresses that the stack holds.
pub const STACK_DEPTH: usize = 16;

/// Number of general registers.
pub const REGISTER_COUNT: usize = 16;

/// Number of keys on the keypad.
pub const KEY_COUNT: usize = 16;

/// Columns of the screen.
pub const SCREEN_WIDTH: usize = 64;

/// Rows of the screen.
pub const SCREEN_HEIGHT: usize = 32;

/// Cells of the screen, row after row.
pub const SCREEN_PIXELS: usize = 2048;

/// Number of instructions that one frame runs before the timers tick.
pub const TICKS_PER_FRAME: usize = 10;

/// Number of bytes in a glyph of the built-in font.
pub const GLYPH_SIZE: usize = 5;

/// The built-in font: sixteen glyphs of five bytes, one for each hex digit.
pub const FONTSET: [u8; 80] = [
    0xF0, 0x90, 0x90, 0x90, 0xF0,
    0x20, 0x60, 0x20, 0x20, 0x70,
    0xF0, 0x10, 0xF0, 0x80, 0xF0,
    0xF0, 0x10, 0xF0, 0x10, 0xF0,
    0x90, 0x90, 0xF0, 0x10, 0x10,
    0xF0, 0x80, 0xF0, 0x10, 0xF0,
    0xF0, 0x80, 0xF0, 0x90, 0xF0,
    0xF0, 0x10, 0x20, 0x40, 0x40,
    0xF0, 0x90, 0xF0, 0x90, 0xF0,
    0xF0, 0x90, 0xF0, 0x10, 0xF0,
    0xF0, 0x90, 0xF0, 0x90, 0x90,
    0xE0, 0x90, 0xE0, 0x90, 0xE0,
    0xF0, 0x80, 0x80, 0x80, 0xF0,
    0xE0, 0x90, 0x90, 0x90, 0xE0,
    0xF0, 0x80, 0xF0, 0x80, 0xF0,
    0xF0, 0x80, 0xF0, 0x80, 0x80,
];

/// Everything the machine holds, as plain mathematical values.
pub struct MachineState {
    /// The index register.
    pub index: int,
    /// The program counter.
    pub pc: int,
    /// The number of return addresses on the stack.
    pub sp: int,
    /// The stack; the entries below `sp` are the return addresses.
    pub stack: Seq<u16>,
    /// The registers `V0` to `VF`.
    pub registers: Seq<u8>,
    /// The memory.
    pub memory: Seq<u8>,
    /// The screen, row after row; `true` is a lit cell.
    pub screen: Seq<bool>,
    /// The delay timer.
    pub delay_timer: u8,
    /// The sound timer.
    pub sound_timer: u8,
    /// The keys; `true` is a key held down.
    pub keypad: Seq<bool>,
    /// The instruction decoded last.
    pub last_instruction: OpCode,
}

impl MachineState {
    /// The parts have their sizes, the stack holds at most sixteen return
    /// addresses, and the program counter and the index register fit the
    /// integers that store them.
    pub open spec fn wf(self) -> bool {
        &&& self.stack.len() == STACK_DEPTH
        &&& self.registers.len() == REGISTER_COUNT
        &&& self.memory.len() == MEMORY_SIZE
        &&& self.screen.len() == SCREEN_PIXELS
        &&& self.keypad.len() == KEY_COUNT
        &&& 0 <= self.sp <= STACK_DEPTH
        &&& 0 <= self.pc <= u16::MAX
        &&& 0 <= self.index <= usize::MAX
    }

    /// This state with register `x` set to `value`.
    pub open spec fn with_register(self, x: int, value: u8) -> Self {
        MachineState { registers: self.registers.update(x, value), ..self }
    }

    /// This state with the flag register `VF` set to 1 if `raised`, else to 0.
    pub open spec fn with_flag(self, raised: bool) -> Self {
        self.with_register(0xF, flag_value(raised))
    }

    /// This state with the program counter at `pc`.
    pub open spec fn with_pc(self, pc: int) -> Self {
        MachineState { pc, ..self }
    }

    /// This state with the program counter moved past one more instruction
    /// if `condition` holds, and unchanged if not.
    pub open spec fn skipping(self, condition: bool) -> Self {
        if condition {
            self.with_pc(self.pc + 2)
        } else {
            self
        }
    }
}

/// The memory of a machine that was just made: the font at address 0 and
/// zero everywhere else.
pub open spec fn initial_memory() -> Seq<u8> {
    Seq::new(MEMORY_SIZE as nat, |a: int| if a < 80 { FONTSET[a] } else { 0u8 })
}

/// The state of a machine that was just made.
pub open spec fn initial_state() -> MachineState {
    MachineState {
        index: 0,
        pc: PROGRAM_START as int,
        sp: 0,
        stack: Seq::new(STACK_DEPTH as nat, |i: int| 0u16),
        registers: Seq::new(REGISTER_COUNT as nat, |i: int| 0u8),
        memory: initial_memory(),
        screen: Seq::new(SCREEN_PIXELS as nat, |i: int| false),
        delay_timer: 0,
        sound_timer: 0,
        keypad: Seq::new(KEY_COUNT as nat, |i: int| false),
        last_instruction: OpCode::Cls,
    }
}

} // verus!
