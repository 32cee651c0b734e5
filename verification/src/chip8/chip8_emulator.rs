use std::time::Instant;

use vstd::prelude::*;

use crate::chip8::chip8_opcode::Chip8Opcode;
use crate::emulator::state::zeros;
use crate::emulator::traits::{Chip, ChipInstructions};

verus! {

/// The sprites of the hexadecimal digits `0`..`F`, five bytes each.
pub const FONT_SET: [u8; 80] = [
    0xF0, 0x90, 0x90, 0x90, 0xF0,  //0
    0x20, 0x60, 0x20, 0x20, 0x70,  //1
    0xF0, 0x10, 0xF0, 0x80, 0xF0,  //2
    0xF0, 0x10, 0xF0, 0x10, 0xF0,  //3
    0x90, 0x90, 0xF0, 0x10, 0x10,  //4
    0xF0, 0x80, 0xF0, 0x10, 0xF0,  //5
    0xF0, 0x80, 0xF0, 0x90, 0xF0,  //6
    0xF0, 0x10, 0x20, 0x40, 0x40,  //7
    0xF0, 0x90, 0xF0, 0x90, 0xF0,  //8
    0xF0, 0x90, 0xF0, 0x10, 0xF0,  //9
    0xF0, 0x90, 0xF0, 0x90, 0x90,  //A
    0xE0, 0x90, 0xE0, 0x90, 0xE0,  //B
    0xF0, 0x80, 0x80, 0x80, 0xF0,  //C
    0xE0, 0x90, 0x90, 0x90, 0xE0,  //D
    0xF0, 0x80, 0xF0, 0x80, 0xF0,  //E
    0xF0, 0x80, 0xF0, 0x80, 0x80,  //F
];

/// Pixels of the 64 by 32 screen.
pub const CHIP8_SCREEN_SIZE: usize = 2048;

/// The classic CHIP-8 chip: a fixed 64 by 32 screen of black (0) or white (1) pixels.
pub struct Chip8Emulator {
    display: [u8; CHIP8_SCREEN_SIZE],
}

impl Chip for Chip8Emulator {
    closed spec fn display_view(&self) -> Seq<u8> {
        self.display@
    }

    open spec fn spec_resizable() -> bool {
        false
    }

    fn is_resizable() -> (resizable: bool) {
        false
    }

    fn get_display(&self) -> (display: &[u8]) {
        self.display.as_slice()
    }

    fn get_display_mut(&mut self) -> (display: &mut [u8]) {
        &mut self.display
    }

    fn set_pixel(&mut self, idx: usize, value: u8) {
        self.display[idx] = value;
    }

    /// The CHIP-8 screen cannot be resized: no caller can meet this function's `requires`.
    fn resize_screen(&mut self, _size: usize) {
    }

    fn new() -> (chip: Self) {
        let chip = Self { display: [0; CHIP8_SCREEN_SIZE] };
        assert(chip.display@ =~= zeros(2048));
        chip
    }
}

impl ChipInstructions for Chip8Emulator {
    type Opcode = Chip8Opcode;
}

/// Duration of one tick of the delay and sound timers (60 Hz), in nanoseconds.
pub const TIMER_PERIOD_NANOS: u128 = 16_667_000;

#[verifier::external_type_specification]
#[verifier::external_body]
pub struct ExInstant(Instant);

/// `Instant::now`: reads the monotonic clock. Nothing is promised of the instant it returns.
#[verifier::external_body]
fn instant_now() -> Instant {
    Instant::now()
}

/// `Instant::elapsed`, taken in whole nanoseconds (`Duration::as_nanos`). The result depends on
/// the clock, so nothing is promised of it.
#[verifier::external_body]
fn elapsed_nanos(since: &Instant) -> u128 {
    since.elapsed().as_nanos()
}

/// Decides when the 60 Hz delay and sound timers tick.
pub struct Chip8Clock {
    last_ran: Instant,
    speed_nanos: u128,
}

impl Chip8Clock {
    /// The timer period, in nanoseconds.
    pub closed spec fn period(&self) -> u128 {
        self.speed_nanos
    }

    /// The instant of the last tick.
    pub closed spec fn last_tick(&self) -> Instant {
        self.last_ran
    }

    #[allow(clippy::new_without_default)]
    pub fn new() -> (clock: Self)
        ensures
            clock.period() == TIMER_PERIOD_NANOS,
    {
        Self { last_ran: instant_now(), speed_nanos: TIMER_PERIOD_NANOS }
    }

    /// Whether the timers are due once `elapsed_nanos` have passed since the last tick.
    pub fn is_due(&self, elapsed_nanos: u128) -> (due: bool)
        ensures
            due == (elapsed_nanos >= self.period()),
    {
        elapsed_nanos >= self.speed_nanos
    }

    /// The decision of one timer step, given the nanoseconds `elapsed_nanos` since the last
    /// tick and the instant `now`: the timers are due once a period has passed, and then the
    /// clock restarts at `now`; otherwise nothing changes.
    pub fn tick_at(&mut self, elapsed_nanos: u128, now: Instant) -> (due: bool)
        ensures
            due == (elapsed_nanos >= old(self).period()),
            final(self).period() == old(self).period(),
            due ==> final(self).last_tick() == now,
            !due ==> final(self).last_tick() == old(self).last_tick(),
    {
        if self.is_due(elapsed_nanos) {
            self.last_ran = now;
            true
        } else {
            false
        }
    }

    /// Returns whether the chip8 timers should tick; when they should, the clock restarts.
    /// Both clock readings come from outside, so which way it goes is not promised; `tick_at`
    /// states the decision on them.
    pub fn tick_chip8_timers(&mut self) -> (due: bool)
        ensures
            final(self).period() == old(self).period(),
            !due ==> final(self).last_tick() == old(self).last_tick(),
    {
        let elapsed = elapsed_nanos(&self.last_ran);
        let now = instant_now();
        self.tick_at(elapsed, now)
    }
}

} // verus!
