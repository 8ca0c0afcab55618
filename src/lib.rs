//! An interpreter for a sixteen-bit instruction set of an eight-bit toy
//! processor: 4 KiB of memory holding a memory-mapped 64x32 monochrome
//! display, sixteen byte registers, a small call stack, two countdown timers
//! and a sixteen-key keypad.

mod display;
mod execute;
mod host;
mod instruction;
mod laws;
mod machine;
mod semantics;
mod step;

pub use display::{
    bit_at, collides, drawn, incoming, on_screen, pixel, pixel_address, sprite_col, sprite_of,
    sprite_row, toggled,
};
pub use instruction::{decode, decode_spec, Instruction};
pub use machine::{
    font_glyphs, initial_ram, initial_state, MachineView, Mode, Processor, FONT_START,
    GLYPH_SIZE_BYTE, KEY_COUNT, MAX_PROGRAM_SIZE, PC_START, RAM_SIZE_BYTE, SCREEN_HEIGHT,
    SCREEN_WIDTH, STACK_SIZE, VF, VRAM_SIZE_BYTE, VRAM_START,
};
pub use semantics::{advance, executes, key_down, next_state, offset_from, skip_if};
pub use step::{
    decay_due, decayed, fetched, first_pressed, resumed, ticks, TIMER_PERIOD_MICROS,
};
pub use laws::{
    lemma_await_key_holds, lemma_call_return, lemma_clear_screen, lemma_draw_twice,
    lemma_key_press_resumes, lemma_pc_advances, lemma_self_jump_halts,
    lemma_store_load_round_trip, lemma_waiting_step_is_idle, skip_taken,
};
