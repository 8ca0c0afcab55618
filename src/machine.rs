use vstd::prelude::*;

use crate::host::clock_now;

verus! {

/// Where programs are loaded and where execution starts.
pub const PC_START: usize = 0x200;
/// Size of the addressable memory in bytes.
pub const RAM_SIZE_BYTE: usize = 4096;
/// Where the built-in hexadecimal font is stored.
pub const FONT_START: usize = 0x50;
/// Bytes per glyph of the built-in font.
pub const GLYPH_SIZE_BYTE: usize = 5;
/// First byte of the display buffer.
pub const VRAM_START: usize = 0xf00;
/// Size of the display buffer in bytes: 64 x 32 pixels, one bit each.
pub const VRAM_SIZE_BYTE: usize = 256;
/// The flag register.
pub const VF: usize = 0xf;
/// Display height in pixels.
pub const SCREEN_HEIGHT: usize = 32;
/// Display width in pixels.
pub const SCREEN_WIDTH: usize = 64;
/// Number of return addresses the call stack holds.
pub const STACK_SIZE: usize = 12;
/// Number of keys on the keypad.
pub const KEY_COUNT: usize = 16;
/// Largest program image that fits in memory above `PC_START`.
pub const MAX_PROGRAM_SIZE: usize = 3584;

/// Whether the machine executes instructions or waits for a key.
#[derive(Clone, Copy, Debug, PartialEq, Eq)]
pub enum Mode {
    Running,
    /// Waiting for a key; its index goes to register `target`.
    AwaitingKey { target: usize },
}

/// The machine. Its state is public so that a host or a test can inspect and
/// set it; the operations require `wf()` and keep it.
///
/// Out-of-range conditions follow one policy: addresses wrap around the 4 KiB
/// memory; a call on a full stack or a return on an empty one is a fault that
/// sets `halt` and changes nothing else; a key register naming a key above 15
/// reads as a key that is not pressed.
pub struct Processor {
    pub ram: [u8; 4096],
    pub stack: [usize; 12],
    pub v: [u8; 16],
    pub pc: usize,
    pub sp: usize,
    pub i: usize,
    pub delay_timer: u8,
    pub sound_timer: u8,
    pub mode: Mode,
    /// Set by a jump to itself, or by a call or return the stack cannot serve.
    pub halt: bool,
    pub key_state: [bool; 16],
    /// When the timers last counted down.
    pub last_decay: instant::Instant,
}

/// The machine's state as mathematical values; the clock reading is left out.
pub ghost struct MachineView {
    pub ram: Seq<u8>,
    pub stack: Seq<usize>,
    pub v: Seq<u8>,
    pub pc: usize,
    pub sp: usize,
    pub i: usize,
    pub delay_timer: u8,
    pub sound_timer: u8,
    pub mode: Mode,
    pub halt: bool,
    pub key_state: Seq<bool>,
}

impl MachineView {
    pub open spec fn wf(self) -> bool {
        &&& self.ram.len() == RAM_SIZE_BYTE
        &&& self.stack.len() == STACK_SIZE
        &&& self.v.len() == 16
        &&& self.key_state.len() == KEY_COUNT
        &&& self.pc < RAM_SIZE_BYTE
        &&& self.i < RAM_SIZE_BYTE
        &&& self.sp <= STACK_SIZE
        &&& forall|k: int| 0 <= k < STACK_SIZE ==> #[trigger] self.stack[k] < RAM_SIZE_BYTE
        &&& (self.mode matches Mode::AwaitingKey { target } ==> target < 16)
    }
}

impl View for Processor {
    type V = MachineView;

    open spec fn view(&self) -> MachineView {
        MachineView {
            ram: self.ram@,
            stack: self.stack@,
            v: self.v@,
            pc: self.pc,
            sp: self.sp,
            i: self.i,
            delay_timer: self.delay_timer,
            sound_timer: self.sound_timer,
            mode: self.mode,
            halt: self.halt,
            key_state: self.key_state@,
        }
    }
}

/// The sixteen glyphs of the hexadecimal font, five rows of four pixels each.
pub open spec fn font_glyphs() -> Seq<u8> {
    seq![
        0xF0, 0x90, 0x90, 0x90, 0xF0, 0x20, 0x60, 0x20, 0x20, 0x70,
        0xF0, 0x10, 0xF0, 0x80, 0xF0, 0xF0, 0x10, 0xF0, 0x10, 0xF0,
        0x90, 0x90, 0xF0, 0x10, 0x10, 0xF0, 0x80, 0xF0, 0x10, 0xF0,
        0xF0, 0x80, 0xF0, 0x90, 0xF0, 0xF0, 0x10, 0x20, 0x40, 0x40,
        0xF0, 0x90, 0xF0, 0x90, 0xF0, 0xF0, 0x90, 0xF0, 0x10, 0xF0,
        0xF0, 0x90, 0xF0, 0x90, 0x90, 0xE0, 0x90, 0xE0, 0x90, 0xE0,
        0xF0, 0x80, 0x80, 0x80, 0xF0, 0xE0, 0x90, 0x90, 0x90, 0xE0,
        0xF0, 0x80, 0xF0, 0x80, 0xF0, 0xF0, 0x80, 0xF0, 0x80, 0x80,
    ]
}

/// Memory right after start-up: the font at `FONT_START`, as much of the
/// program as fits at `PC_START`, zero elsewhere.
pub open spec fn initial_ram(rom: Seq<u8>) -> Seq<u8> {
    Seq::new(
        RAM_SIZE_BYTE as nat,
        |a: int|
            if FONT_START <= a < FONT_START + 80 {
                font_glyphs()[a - FONT_START]
            } else if PC_START <= a < PC_START + rom.len() {
                rom[a - PC_START]
            } else {
                0u8
            },
    )
}

/// The state of a machine built for the program `rom`.
pub open spec fn initial_state(rom: Seq<u8>) -> MachineView {
    MachineView {
        ram: initial_ram(rom),
        stack: Seq::new(STACK_SIZE as nat, |k: int| 0usize),
        v: Seq::new(16, |k: int| 0u8),
        pc: PC_START,
        sp: 0,
        i: 0,
        delay_timer: 0,
        sound_timer: 0,
        mode: Mode::Running,
        halt: false,
        key_state: Seq::new(KEY_COUNT as nat, |k: int| false),
    }
}

impl Processor {
    pub open spec fn wf(&self) -> bool {
        self@.wf()
    }

    /// Builds a machine for the program `rom`. Bytes of the program beyond
    /// `MAX_PROGRAM_SIZE` do not fit in memory and are left out.
    pub fn new(rom: Vec<u8>) -> (r: Self)
        ensures
            r.wf(),
            r@ == initial_state(rom@),
    {
        let mut ram: [u8; 4096] = [0u8; 4096];
        let font: Vec<u8> = vec![
            0xF0, 0x90, 0x90, 0x90, 0xF0, 0x20, 0x60, 0x20, 0x20, 0x70,
            0xF0, 0x10, 0xF0, 0x80, 0xF0, 0xF0, 0x10, 0xF0, 0x10, 0xF0,
            0x90, 0x90, 0xF0, 0x10, 0x10, 0xF0, 0x80, 0xF0, 0x10, 0xF0,
            0xF0, 0x80, 0xF0, 0x90, 0xF0, 0xF0, 0x10, 0x20, 0x40, 0x40,
            0xF0, 0x90, 0xF0, 0x90, 0xF0, 0xF0, 0x90, 0xF0, 0x10, 0xF0,
            0xF0, 0x90, 0xF0, 0x90, 0x90, 0xE0, 0x90, 0xE0, 0x90, 0xE0,
            0xF0, 0x80, 0x80, 0x80, 0xF0, 0xE0, 0x90, 0x90, 0x90, 0xE0,
            0xF0, 0x80, 0xF0, 0x80, 0xF0, 0xF0, 0x80, 0xF0, 0x80, 0x80,
        ];
        assert(font@ =~= font_glyphs());
        let mut k: usize = 0;
        while k < font.len()
            invariant
                font@ == font_glyphs(),
                k <= 80,
                forall|a: int|
                    0 <= a < RAM_SIZE_BYTE ==> #[trigger] ram@[a] == (if FONT_START <= a
                        < FONT_START + k {
                        font_glyphs()[a - FONT_START]
                    } else {
                        0u8
                    }),
            decreases 80 - k,
        {
            ram[FONT_START + k] = font[k];
            k = k + 1;
        }
        let limit: usize = if rom.len() < MAX_PROGRAM_SIZE {
            rom.len()
        } else {
            MAX_PROGRAM_SIZE
        };
        let mut k: usize = 0;
        while k < limit
            invariant
                limit <= rom.len(),
                limit <= MAX_PROGRAM_SIZE,
                k <= limit,
                limit == rom.len() || limit == MAX_PROGRAM_SIZE,
                forall|a: int|
                    0 <= a < RAM_SIZE_BYTE ==> #[trigger] ram@[a] == (if FONT_START <= a
                        < FONT_START + 80 {
                        font_glyphs()[a - FONT_START]
                    } else if PC_START <= a < PC_START + k {
                        rom@[a - PC_START]
                    } else {
                        0u8
                    }),
            decreases limit - k,
        {
            ram[PC_START + k] = rom[k];
            k = k + 1;
        }
        assert(ram@ =~= initial_ram(rom@));
        let r = Processor {
            ram,
            stack: [0usize; 12],
            v: [0u8; 16],
            pc: PC_START,
            sp: 0,
            i: 0,
            delay_timer: 0,
            sound_timer: 0,
            mode: Mode::Running,
            halt: false,
            key_state: [false; 16],
            last_decay: clock_now(),
        };
        assert(r.stack@ =~= Seq::new(STACK_SIZE as nat, |k: int| 0usize));
        assert(r.v@ =~= Seq::new(16, |k: int| 0u8));
        assert(r.key_state@ =~= Seq::new(KEY_COUNT as nat, |k: int| false));
        r
    }

    /// Marks key `key` as held down.
    pub fn key_pressed(&mut self, key: usize)
        requires
            old(self).wf(),
            key < KEY_COUNT,
        ensures
            final(self).wf(),
            final(self)@ == (MachineView {
                key_state: old(self)@.key_state.update(key as int, true),
                ..old(self)@
            }),
    {
        self.key_state[key] = true;
    }

    /// Marks key `key` as released.
    pub fn key_released(&mut self, key: usize)
        requires
            old(self).wf(),
            key < KEY_COUNT,
        ensures
            final(self).wf(),
            final(self)@ == (MachineView {
                key_state: old(self)@.key_state.update(key as int, false),
                ..old(self)@
            }),
    {
        self.key_state[key] = false;
    }

    /// A copy of the display buffer: 32 rows of 8 bytes, the leftmost pixel of
    /// each byte in its most significant bit.
    pub fn screen(&self) -> (r: Vec<u8>)
        requires
            self.wf(),
        ensures
            r@ == self.ram@.subrange(VRAM_START as int, RAM_SIZE_BYTE as int),
    {
        let mut r: Vec<u8> = Vec::new();
        let mut k: usize = 0;
        while k < VRAM_SIZE_BYTE
            invariant
                k <= VRAM_SIZE_BYTE,
                self.ram@.len() == RAM_SIZE_BYTE,
                r@ == self.ram@.subrange(VRAM_START as int, VRAM_START + k),
            decreases VRAM_SIZE_BYTE - k,
        {
            r.push(self.ram[VRAM_START + k]);
            k = k + 1;
            assert(r@ =~= self.ram@.subrange(VRAM_START as int, VRAM_START + k));
        }
        r
    }
}

} // verus!
