use vstd::prelude::*;

use crate::display::{
    bit_at, collides, drawn, incoming, lemma_col_wrap, lemma_row_wrap, on_screen, pixel,
    pixel_address, sprite_of,
};
use crate::execute::lemma_offset;
use crate::instruction::{decode_spec, Instruction};
use crate::machine::{MachineView, Mode, KEY_COUNT, RAM_SIZE_BYTE, STACK_SIZE, VF, VRAM_START};
use crate::semantics::{advance, executes, key_down};
use crate::step::{first_pressed, resumed, ticks};

verus! {

/// Whether `ins` is a skip whose condition holds in state `s`.
pub open spec fn skip_taken(s: MachineView, ins: Instruction) -> bool {
    match ins {
        Instruction::SkipIfEqual { x, nn } => s.v[x as int] == nn,
        Instruction::SkipIfNotEqual { x, nn } => s.v[x as int] != nn,
        Instruction::SkipIfRegsEqual { x, y } => s.v[x as int] == s.v[y as int],
        Instruction::SkipIfRegsNotEqual { x, y } => s.v[x as int] != s.v[y as int],
        Instruction::SkipIfKey { x } => key_down(s.key_state, s.v[x as int]),
        Instruction::SkipIfNotKey { x } => !key_down(s.key_state, s.v[x as int]),
        _ => false,
    }
}

/// Every instruction but a jump, a call, a return or the key wait moves PC
/// to the next instruction, two bytes on, or four bytes on when it is a skip
/// whose condition holds (addresses wrap around memory).
pub proof fn lemma_pc_advances(s: MachineView, t: MachineView, op: u16, random: u8)
    requires
        s.wf(),
        executes(s, t, decode_spec(op), random),
        !(decode_spec(op) is Jump || decode_spec(op) is JumpOffset || decode_spec(op) is Call
            || decode_spec(op) is Return || decode_spec(op) is AwaitKey),
    ensures
        t.pc == advance(
            s.pc,
            if skip_taken(s, decode_spec(op)) {
                4
            } else {
                2
            },
        ),
{
}

/// Clearing the screen zeroes all of the display buffer, leaves the rest of
/// memory alone and moves PC two bytes on.
pub proof fn lemma_clear_screen(s: MachineView, t: MachineView, random: u8)
    requires
        s.wf(),
        executes(s, t, Instruction::ClearScreen, random),
    ensures
        forall|a: int| VRAM_START <= a < RAM_SIZE_BYTE ==> #[trigger] t.ram[a] == 0,
        forall|a: int| 0 <= a < VRAM_START ==> #[trigger] t.ram[a] == s.ram[a],
        t.pc == advance(s.pc, 2),
{
}

/// A call followed by a return resumes at the instruction after the call,
/// with the stack pointer back where it was.
pub proof fn lemma_call_return(
    s0: MachineView,
    s1: MachineView,
    s2: MachineView,
    addr: usize,
    r1: u8,
    r2: u8,
)
    requires
        s0.wf(),
        s0.sp < STACK_SIZE,
        executes(s0, s1, Instruction::Call { addr }, r1),
        executes(s1, s2, Instruction::Return, r2),
    ensures
        s2.pc == advance(s0.pc, 2),
        s2.sp == s0.sp,
{
}

proof fn lemma_zero_byte_dark(k: int)
    requires
        0 <= k < 8,
    ensures
        !bit_at(0u8, k),
{
    let s = (7 - k) as u8;
    assert(((0u8 >> s) & 1u8) == 0u8) by (bit_vector);
}

proof fn lemma_lit_bit_of_nonzero(b: u8) -> (k: int)
    requires
        b != 0,
    ensures
        0 <= k < 8,
        bit_at(b, k),
{
    assert(((b >> 7u8) & 1u8) == 1u8 || ((b >> 6u8) & 1u8) == 1u8 || ((b >> 5u8) & 1u8) == 1u8
        || ((b >> 4u8) & 1u8) == 1u8 || ((b >> 3u8) & 1u8) == 1u8 || ((b >> 2u8) & 1u8) == 1u8
        || ((b >> 1u8) & 1u8) == 1u8 || ((b >> 0u8) & 1u8) == 1u8) by (bit_vector)
        requires
            b != 0,
    ;
    if bit_at(b, 0) {
        0
    } else if bit_at(b, 1) {
        1
    } else if bit_at(b, 2) {
        2
    } else if bit_at(b, 3) {
        3
    } else if bit_at(b, 4) {
        4
    } else if bit_at(b, 5) {
        5
    } else if bit_at(b, 6) {
        6
    } else {
        7
    }
}

proof fn lemma_dark_byte_is_zero(b: u8)
    requires
        forall|k: int| 0 <= k < 8 ==> !#[trigger] bit_at(b, k),
    ensures
        b == 0,
{
    assert(!bit_at(b, 0) && !bit_at(b, 1) && !bit_at(b, 2) && !bit_at(b, 3));
    assert(!bit_at(b, 4) && !bit_at(b, 5) && !bit_at(b, 6) && !bit_at(b, 7));
    assert(b == 0) by (bit_vector)
        requires
            ((b >> 7u8) & 1u8) != 1u8,
            ((b >> 6u8) & 1u8) != 1u8,
            ((b >> 5u8) & 1u8) != 1u8,
            ((b >> 4u8) & 1u8) != 1u8,
            ((b >> 3u8) & 1u8) != 1u8,
            ((b >> 2u8) & 1u8) != 1u8,
            ((b >> 1u8) & 1u8) != 1u8,
            ((b >> 0u8) & 1u8) != 1u8,
    ;
}

/// Drawing the same sprite twice at the same place on a blank screen: the
/// first draw reports no collision, the second reports one as soon as the
/// sprite has a lit pixel, and the screen is blank again afterwards.
/// The sprite must not lie in the display buffer itself, and the coordinate
/// registers must not be `VF`, which the first draw overwrites.
pub proof fn lemma_draw_twice(
    s0: MachineView,
    s1: MachineView,
    s2: MachineView,
    x: usize,
    y: usize,
    n: usize,
)
    requires
        s0.wf(),
        x < VF,
        y < VF,
        n < 16,
        forall|a: int| VRAM_START <= a < RAM_SIZE_BYTE ==> #[trigger] s0.ram[a] == 0,
        forall|r: int| 0 <= r < n ==> #[trigger] advance(s0.i, r) < VRAM_START,
        drawn(s0, s1, x as int, y as int, n as int),
        drawn(s1, s2, x as int, y as int, n as int),
    ensures
        s1.v[VF as int] == 0,
        (exists|r: int| 0 <= r < n && #[trigger] sprite_of(s0, n as int)[r] != 0) ==> s2.v[
            VF as int] == 1,
        forall|a: int| VRAM_START <= a < RAM_SIZE_BYTE ==> #[trigger] s2.ram[a] == 0,
{
    let sprite = sprite_of(s0, n as int);
    let vx = s0.v[x as int];
    let vy = s0.v[y as int];
    assert forall|r: int| 0 <= r < n implies #[trigger] sprite_of(s1, n as int)[r] == sprite[r] by {
        assert(advance(s0.i, r) < VRAM_START);
    }
    assert(sprite_of(s1, n as int) =~= sprite);
    assert(s1.v[x as int] == vx && s1.v[y as int] == vy);
    assert forall|px: int, py: int| on_screen(px, py) implies !#[trigger] pixel(s0.ram, px, py) by {
        assert(s0.ram[pixel_address(px, py)] == 0);
        lemma_zero_byte_dark(px % 8);
    }
    assert(!collides(s0.ram, sprite, vx, vy));
    if exists|r: int| 0 <= r < n && #[trigger] sprite[r] != 0 {
        let r = choose|r: int| 0 <= r < n && #[trigger] sprite[r] != 0;
        let c = lemma_lit_bit_of_nonzero(sprite[r]);
        let px = (vx + c) % 64;
        let py = (vy + r) % 32;
        lemma_row_wrap(vy, r, py);
        lemma_col_wrap(vx, c, px);
        assert(incoming(sprite, vx, vy, px, py));
        assert(pixel(s1.ram, px, py));
        assert(collides(s1.ram, sprite, vx, vy));
    }
    assert forall|a: int| VRAM_START <= a < RAM_SIZE_BYTE implies #[trigger] s2.ram[a] == 0 by {
        let py = (a - VRAM_START) / 8;
        let c = (a - VRAM_START) % 8;
        assert forall|k: int| 0 <= k < 8 implies !#[trigger] bit_at(s2.ram[a], k) by {
            let px = 8 * c + k;
            assert(pixel_address(px, py) == a);
            assert(px % 8 == k);
            assert(on_screen(px, py));
            assert(!pixel(s0.ram, px, py));
            assert(pixel(s1.ram, px, py) == (pixel(s0.ram, px, py) != incoming(
                sprite,
                vx,
                vy,
                px,
                py,
            )));
            assert(pixel(s2.ram, px, py) == (pixel(s1.ram, px, py) != incoming(
                sprite,
                vx,
                vy,
                px,
                py,
            )));
        }
        lemma_dark_byte_is_zero(s2.ram[a]);
    }
}

/// The key-wait instruction leaves PC and the timers alone and makes the
/// machine wait, with register `x` as the target.
pub proof fn lemma_await_key_holds(s: MachineView, t: MachineView, x: usize, random: u8)
    requires
        s.wf(),
        executes(s, t, Instruction::AwaitKey { x }, random),
    ensures
        t.pc == s.pc,
        t.delay_timer == s.delay_timer,
        t.sound_timer == s.sound_timer,
        t.mode == (Mode::AwaitingKey { target: x }),
{
}

/// While the machine waits for a key and none is held down, a step changes
/// nothing: neither PC nor the timers nor anything else.
pub proof fn lemma_waiting_step_is_idle(
    s: MachineView,
    t: MachineView,
    elapsed_micros: u128,
    random: u8,
)
    requires
        s.wf(),
        s.mode is AwaitingKey,
        forall|k: int| 0 <= k < KEY_COUNT ==> !#[trigger] s.key_state[k],
        ticks(s, t, elapsed_micros, random),
    ensures
        t == s,
{
    lemma_no_key_pressed(s.key_state, 0);
}

proof fn lemma_no_key_pressed(keys: Seq<bool>, from: int)
    requires
        keys.len() == KEY_COUNT,
        0 <= from <= KEY_COUNT,
        forall|k: int| from <= k < KEY_COUNT ==> !#[trigger] keys[k],
    ensures
        first_pressed(keys, from) == KEY_COUNT,
    decreases KEY_COUNT - from,
{
    if from < KEY_COUNT {
        lemma_no_key_pressed(keys, from + 1);
    }
}

proof fn lemma_lowest_key(keys: Seq<bool>, from: int, key: int)
    requires
        keys.len() == KEY_COUNT,
        0 <= from <= key < KEY_COUNT,
        keys[key],
        forall|k: int| from <= k < key ==> !#[trigger] keys[k],
    ensures
        first_pressed(keys, from) == key,
    decreases key - from,
{
    if from < key {
        lemma_lowest_key(keys, from + 1, key);
    }
}

/// When a key is held down while the machine waits, the wait ends: the
/// lowest such key goes to the target register and PC moves two bytes on,
/// past the waiting instruction, once; the step then goes on as usual.
pub proof fn lemma_key_press_resumes(s: MachineView, key: int)
    requires
        s.wf(),
        s.mode is AwaitingKey,
        0 <= key < KEY_COUNT,
        s.key_state[key],
        forall|k: int| 0 <= k < key ==> !#[trigger] s.key_state[k],
    ensures
        resumed(s).v[s.mode->target as int] == key,
        resumed(s).pc == advance(s.pc, 2),
        resumed(s).mode == Mode::Running,
        resumed(s).delay_timer == s.delay_timer,
        resumed(s).sound_timer == s.sound_timer,
{
    lemma_lowest_key(s.key_state, 0, key);
}

/// Storing registers V0 to Vx and loading them back, with any change to the
/// registers in between, gives back the stored values; I is left unchanged
/// by both.
pub proof fn lemma_store_load_round_trip(
    s0: MachineView,
    s1: MachineView,
    s2: MachineView,
    s3: MachineView,
    x: usize,
    r1: u8,
    r2: u8,
)
    requires
        s0.wf(),
        x < 16,
        executes(s0, s1, Instruction::StoreRegisters { x }, r1),
        s2.ram == s1.ram,
        s2.i == s1.i,
        executes(s2, s3, Instruction::LoadRegisters { x }, r2),
    ensures
        forall|k: int| 0 <= k <= x ==> #[trigger] s3.v[k] == s0.v[k],
        s1.i == s0.i,
        s3.i == s2.i,
{
    assert forall|k: int| 0 <= k <= x implies #[trigger] s3.v[k] == s0.v[k] by {
        let a = advance(s0.i, k) as int;
        lemma_offset(s0.i, k, a);
    }
}

/// A jump to its own address halts the machine and stays where it is.
pub proof fn lemma_self_jump_halts(s: MachineView, t: MachineView, random: u8)
    requires
        s.wf(),
        executes(s, t, Instruction::Jump { addr: s.pc }, random),
    ensures
        t.halt,
        t.pc == s.pc,
{
}

} // verus!
