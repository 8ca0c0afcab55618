use vstd::prelude::*;

use crate::host::{clock_now, micros_since};
use crate::instruction::decode_spec;
use crate::machine::{MachineView, Mode, Processor, KEY_COUNT, RAM_SIZE_BYTE};
use crate::semantics::{advance, executes};

verus! {

/// Time between two counts of the timers (60 Hz), rounded up to whole
/// microseconds.
pub const TIMER_PERIOD_MICROS: u128 = 16_667;

/// The lowest-numbered key at or after `from` that is held down, or the
/// number of keys if none is.
pub open spec fn first_pressed(keys: Seq<bool>, from: int) -> int
    decreases keys.len() - from,
{
    if from < 0 || from >= keys.len() {
        keys.len() as int
    } else if keys[from] {
        from
    } else {
        first_pressed(keys, from + 1)
    }
}

/// A pending key wait ends when some key is held down: the lowest such key
/// goes to the target register, the machine runs again and PC moves past the
/// waiting instruction. Otherwise nothing changes.
pub open spec fn resumed(s: MachineView) -> MachineView {
    match s.mode {
        Mode::AwaitingKey { target } => {
            let k = first_pressed(s.key_state, 0);
            if k < KEY_COUNT {
                MachineView {
                    v: s.v.update(target as int, k as u8),
                    mode: Mode::Running,
                    pc: advance(s.pc, 2),
                    ..s
                }
            } else {
                s
            }
        },
        Mode::Running => s,
    }
}

/// The timers count down when one of them is running and at least 1/60 s
/// went by since they last did.
pub open spec fn decay_due(s: MachineView, elapsed_micros: u128) -> bool {
    (s.delay_timer > 0 || s.sound_timer > 0) && 60 * elapsed_micros >= 1_000_000
}

/// Both timers count down by one, stopping at zero, when `decay_due` holds.
/// The sound timer keeps the same 60 Hz cadence as the delay timer, so a
/// sound started by a program ends on its own.
pub open spec fn decayed(s: MachineView, elapsed_micros: u128) -> MachineView {
    if decay_due(s, elapsed_micros) {
        MachineView {
            delay_timer: if s.delay_timer > 0 {
                (s.delay_timer - 1) as u8
            } else {
                0u8
            },
            sound_timer: if s.sound_timer > 0 {
                (s.sound_timer - 1) as u8
            } else {
                0u8
            },
            ..s
        }
    } else {
        s
    }
}

/// The instruction code at PC: high byte first.
pub open spec fn fetched(s: MachineView) -> u16 {
    (s.ram[s.pc as int] * 256 + s.ram[advance(s.pc, 1) as int]) as u16
}

/// One step from `s` can end in `t`, given the microseconds `elapsed_micros`
/// since the timers last counted and the byte `random` for the random
/// instruction: a pending key wait is resumed if it can be; while it is still
/// pending nothing else happens; otherwise the timers count and the
/// instruction at PC runs.
pub open spec fn ticks(s: MachineView, t: MachineView, elapsed_micros: u128, random: u8) -> bool {
    let r = resumed(s);
    if r.mode is AwaitingKey {
        t == r
    } else {
        let d = decayed(r, elapsed_micros);
        executes(d, t, decode_spec(fetched(d)), random)
    }
}

impl Processor {
    /// The lowest-numbered key held down, or `KEY_COUNT` if none is.
    pub fn first_pressed_key(&self) -> (k: usize)
        requires
            self.wf(),
        ensures
            k == first_pressed(self@.key_state, 0),
    {
        let mut k: usize = 0;
        while k < KEY_COUNT && !self.key_state[k]
            invariant
                k <= KEY_COUNT,
                self.wf(),
                first_pressed(self@.key_state, 0) == first_pressed(self@.key_state, k as int),
            decreases KEY_COUNT - k,
        {
            k = k + 1;
        }
        k
    }

    /// Ends a pending key wait if a key is held down (see `resumed`).
    pub fn resume_key_wait(&mut self)
        requires
            old(self).wf(),
        ensures
            final(self).wf(),
            final(self)@ == resumed(old(self)@),
    {
        match self.mode {
            Mode::AwaitingKey { target } => {
                let k = self.first_pressed_key();
                if k < KEY_COUNT {
                    self.v[target] = k as u8;
                    self.mode = Mode::Running;
                    self.pc = (self.pc + 2) % RAM_SIZE_BYTE;
                }
            },
            Mode::Running => {},
        }
    }

    /// Counts the timers down if `elapsed_micros` microseconds since they
    /// last counted make it due (see `decayed`); tells whether they counted.
    pub fn decay_timers(&mut self, elapsed_micros: u128) -> (counted: bool)
        requires
            old(self).wf(),
        ensures
            final(self).wf(),
            final(self)@ == decayed(old(self)@, elapsed_micros),
            counted == decay_due(old(self)@, elapsed_micros),
    {
        if (self.delay_timer > 0 || self.sound_timer > 0) && elapsed_micros >= TIMER_PERIOD_MICROS {
            if self.delay_timer > 0 {
                self.delay_timer = self.delay_timer - 1;
            }
            if self.sound_timer > 0 {
                self.sound_timer = self.sound_timer - 1;
            }
            true
        } else {
            false
        }
    }

    /// The instruction code at PC.
    pub fn fetch(&self) -> (op: u16)
        requires
            self.wf(),
        ensures
            op == fetched(self@),
    {
        let high = self.ram[self.pc] as u16;
        let low = self.ram[(self.pc + 1) % RAM_SIZE_BYTE] as u16;
        high * 256 + low
    }

    /// One step of the machine (see `ticks`): the timers are read against the
    /// host clock, and a fresh random byte is drawn for the random
    /// instruction.
    pub fn tick(&mut self)
        requires
            old(self).wf(),
        ensures
            final(self).wf(),
            exists|elapsed_micros: u128, random: u8|
                ticks(old(self)@, final(self)@, elapsed_micros, random),
    {
        let ghost s = self@;
        self.resume_key_wait();
        if let Mode::AwaitingKey { .. } = self.mode {
            assert(ticks(s, self@, 0, 0));
            return ;
        }
        let elapsed = micros_since(&self.last_decay);
        if self.decay_timers(elapsed) {
            self.last_decay = clock_now();
        }
        let ghost d = self@;
        let opcode = self.fetch();
        self.execute_opcode(opcode);
        let ghost random = choose|random: u8| executes(d, self@, decode_spec(opcode), random);
        assert(ticks(s, self@, elapsed, random));
    }
}

} // verus!
