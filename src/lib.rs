//! A CHIP-8 virtual machine: memory, registers, call stack, timers,
//! a 64x32 monochrome framebuffer and a 16-key keypad, driven one
//! instruction per `cycle`.

pub mod machine;
mod emu;
pub mod laws;

pub use machine::{
    EmuError, EmuState, KeyWait, Quirks, FONT_START, NUM_KEYS, NUM_REGS, PROGRAM_START, RAM_SIZE,
    SCREEN_HEIGHT, SCREEN_WIDTH, STACK_SIZE,
};
pub use emu::{Emu, DEFAULT_SEED};
