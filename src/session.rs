//! The decisions of the front end around the machine: speed, colour, when
//! to sound the buzzer, and what to do with the events the hosting page sends.
use vstd::prelude::*;

verus! {

/// Number of colours the screen can be drawn in.
pub const COLOR_COUNT: usize = 5;

/// The fastest the keyboard can make the emulation: cycles per frame.
pub const MAX_SPEED: usize = 20;

/// A colour changes every this many frames in rainbow mode.
pub const RAINBOW_PERIOD: u8 = 10;

/// Events sent by the page that hosts the emulator.
#[derive(Debug, Clone, PartialEq, Eq)]
pub enum JSEvents {
    /// Draw in colour number `c`.
    ChangeColor(i32),
    /// Restart with the program in the named file.
    SwapRom(String),
    /// Run this many cycles per frame.
    ChangeSpeed(i32),
    /// Toggle rainbow mode; when it is switched off, settle on colour `c`.
    ChangeRainbowMode(i32),
}

/// The front end's settings and its memory of the last frame.
#[derive(Debug, Clone, Copy, PartialEq, Eq, Structural)]
pub struct Session {
    /// Machine cycles run per frame.
    pub speed_multiplier: usize,
    /// The colour the screen is drawn in, below `COLOR_COUNT`.
    pub color: usize,
    /// Whether the buzzer may start: set while the sound timer is zero.
    pub latch: bool,
    /// Whether the colour cycles by itself.
    pub rainbow_mode: bool,
    /// Frames drawn so far, wrapping.
    pub frame_counter: u8,
}

/// Colour `c` if there is such a colour, else `current`.
pub open spec fn color_or(c: i32, current: usize) -> usize {
    if 0 <= c < COLOR_COUNT {
        c as usize
    } else {
        current
    }
}

/// Which of the three buzzer sounds goes with a sound timer of `st`: the
/// longer the sound, the longer the buzz.
pub open spec fn buzz_for(st: u8) -> usize {
    if st >= 10 {
        2
    } else if st >= 4 {
        1
    } else {
        0
    }
}

impl Session {
    /// The colour is one of the `COLOR_COUNT` colours.
    pub open spec fn wf(&self) -> bool {
        self.color < COLOR_COUNT
    }

    /// Settings for a new run: the first colour, the buzzer ready.
    pub fn new(speed_multiplier: usize, rainbow_mode: bool) -> (r: Session)
        ensures
            r == (Session { speed_multiplier, color: 0, latch: true, rainbow_mode, frame_counter: 0 }),
            r.wf(),
    {
        Session { speed_multiplier, color: 0, latch: true, rainbow_mode, frame_counter: 0 }
    }

    /// Moves to the next colour, after the last back to the first.
    pub fn increase_color(&mut self)
        requires
            old(self).wf(),
        ensures
            *final(self) == (Session { color: ((old(self).color + 1) % COLOR_COUNT as int) as usize, ..*old(self) }),
            final(self).wf(),
    {
        self.color = self.color + 1;
        if self.color > COLOR_COUNT - 1 {
            self.color = 0;
        }
    }

    /// Applies the keys pressed this frame: `faster` raises the speed up to
    /// `MAX_SPEED`, then `slower` lowers it down to zero, `next_color` moves
    /// to the next colour; the result is false when `quit` asks to stop.
    pub fn process_sys_input(&mut self, faster: bool, slower: bool, next_color: bool, quit: bool) -> (keep_running: bool)
        requires
            old(self).wf(),
        ensures
            keep_running == !quit,
            final(self).wf(),
            ({
                let s1 = if faster && old(self).speed_multiplier < MAX_SPEED {
                    old(self).speed_multiplier + 1
                } else {
                    old(self).speed_multiplier as int
                };
                let s2 = if slower && s1 > 0 {
                    s1 - 1
                } else {
                    s1
                };
                *final(self) == (Session {
                    speed_multiplier: s2 as usize,
                    color: if next_color {
                        ((old(self).color + 1) % COLOR_COUNT as int) as usize
                    } else {
                        old(self).color
                    },
                    ..*old(self)
                })
            }),
    {
        if faster {
            if self.speed_multiplier < MAX_SPEED {
                self.speed_multiplier = self.speed_multiplier + 1;
            }
        }
        if slower {
            self.speed_multiplier = self.speed_multiplier.saturating_sub(1);
        }
        if next_color {
            self.increase_color();
        }
        !quit
    }

    /// Decides on the buzzer after a cycle that left the sound timer at
    /// `sound_timer`: the buzzer starts, with the sound that `buzz_for`
    /// picks, when the timer is running and the latch is set, which clears
    /// the latch; a timer at zero sets it again.
    pub fn process_audio(&mut self, sound_timer: u8) -> (buzz: Option<usize>)
        ensures
            old(self).latch && sound_timer > 0 ==> buzz == Some(buzz_for(sound_timer))
                && *final(self) == (Session { latch: false, ..*old(self) }),
            !(old(self).latch && sound_timer > 0) ==> buzz is None && *final(self) == (Session {
                latch: old(self).latch || sound_timer == 0,
                ..*old(self)
            }),
    {
        if self.latch && sound_timer > 0 {
            self.latch = false;
            if sound_timer >= 10 {
                Some(2)
            } else if sound_timer >= 4 {
                Some(1)
            } else {
                Some(0)
            }
        } else {
            if sound_timer == 0 {
                self.latch = true;
            }
            None
        }
    }

    /// The colour to draw this frame in; in rainbow mode it moves on every
    /// `RAINBOW_PERIOD` frames.
    pub fn get_color(&mut self) -> (c: usize)
        requires
            old(self).wf(),
        ensures
            final(self).wf(),
            c == final(self).color,
            *final(self) == (Session {
                color: if old(self).rainbow_mode && old(self).frame_counter % RAINBOW_PERIOD == 0 {
                    ((old(self).color + 1) % COLOR_COUNT as int) as usize
                } else {
                    old(self).color
                },
                ..*old(self)
            }),
    {
        if self.rainbow_mode {
            if self.frame_counter % RAINBOW_PERIOD == 0 {
                self.increase_color();
            }
        }
        self.color
    }

    /// Counts one more frame, wrapping.
    pub fn next_frame(&mut self)
        ensures
            *final(self) == (Session {
                frame_counter: ((old(self).frame_counter + 1) % 256) as u8,
                ..*old(self)
            }),
    {
        self.frame_counter = self.frame_counter.wrapping_add(1);
    }

    /// Applies an event from the hosting page. A colour that does not exist
    /// is ignored and a negative speed counts as zero. Returns the file to
    /// restart with when the event asks for one.
    pub fn apply_event(&mut self, ev: JSEvents) -> (rom: Option<String>)
        requires
            old(self).wf(),
        ensures
            final(self).wf(),
            match ev {
                JSEvents::ChangeColor(c) => rom is None && *final(self) == (Session {
                    color: color_or(c, old(self).color),
                    ..*old(self)
                }),
                JSEvents::SwapRom(f) => rom == Some(f) && *final(self) == *old(self),
                JSEvents::ChangeSpeed(v) => rom is None && *final(self) == (Session {
                    speed_multiplier: if v < 0 {
                        0
                    } else {
                        v as usize
                    },
                    ..*old(self)
                }),
                JSEvents::ChangeRainbowMode(c) => rom is None && *final(self) == (Session {
                    color: if old(self).rainbow_mode {
                        color_or(c, old(self).color)
                    } else {
                        old(self).color
                    },
                    rainbow_mode: !old(self).rainbow_mode,
                    ..*old(self)
                }),
            },
    {
        match ev {
            JSEvents::ChangeColor(c) => {
                if 0 <= c && (c as usize) < COLOR_COUNT {
                    self.color = c as usize;
                }
                None
            },
            JSEvents::SwapRom(f) => Some(f),
            JSEvents::ChangeSpeed(v) => {
                self.speed_multiplier = if v < 0 {
                    0
                } else {
                    v as usize
                };
                None
            },
            JSEvents::ChangeRainbowMode(c) => {
                if self.rainbow_mode {
                    if 0 <= c && (c as usize) < COLOR_COUNT {
                        self.color = c as usize;
                    }
                }
                self.rainbow_mode = !self.rainbow_mode;
                None
            },
        }
    }
}

/// The program file that the page's program number `n` names.
pub open spec fn rom_path_spec(n: i32) -> Seq<char> {
    if n == 0 {
        "./roms/chippi.ch8"@
    } else if n == 1 {
        "./roms/Blinky [Hans Christian Egeberg, 1991].ch8"@
    } else if n == 2 {
        "./roms/Breakout (Brix hack) [David Winter, 1997].ch8"@
    } else {
        "./roms/Pong (1 player).ch8"@
    }
}

/// The program file that the page's program number `n` names; any number
/// past the known ones names the last program.
pub fn rom_for_number(n: i32) -> (r: &'static str)
    ensures
        r@ == rom_path_spec(n),
{
    match n {
        0 => "./roms/chippi.ch8",
        1 => "./roms/Blinky [Hans Christian Egeberg, 1991].ch8",
        2 => "./roms/Breakout (Brix hack) [David Winter, 1997].ch8",
        _ => "./roms/Pong (1 player).ch8",
    }
}

} // verus!
