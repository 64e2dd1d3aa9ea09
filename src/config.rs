//! The emulator's settings as read from its command line.
use vstd::prelude::*;

verus! {

/// The decimal value of the digits `d`.
pub open spec fn digits_value(d: Seq<char>) -> int
    decreases d.len(),
{
    if d.len() == 0 {
        0
    } else {
        digits_value(d.drop_last()) * 10 + (d.last() as int - '0' as int)
    }
}

/// Whether `d` is one or more ASCII decimal digits.
pub open spec fn all_digits(d: Seq<char>) -> bool {
    d.len() > 0 && forall|i: int| 0 <= i < d.len() ==> '0' <= #[trigger] d[i] <= '9'
}

/// The number that `s` spells for `usize`: an optional `+`, then decimal
/// digits whose value fits; anything else spells none.
pub open spec fn usize_text(s: Seq<char>) -> Option<usize> {
    let d = if s.len() > 0 && s[0] == '+' {
        s.drop_first()
    } else {
        s
    };
    if all_digits(d) && digits_value(d) <= usize::MAX {
        Some(digits_value(d) as usize)
    } else {
        None
    }
}

/// Relies on `<usize as FromStr>::from_str`: it accepts an optional `+`
/// followed by one or more ASCII digits whose value fits in `usize`, and
/// fails on anything else.
#[verifier::external_body]
fn parse_usize(s: &str) -> (r: Option<usize>)
    ensures
        r == usize_text(s@),
{
    s.parse::<usize>().ok()
}

/// The program run when none is named.
pub open spec fn default_rom_spec() -> Seq<char> {
    "./roms/chippi.ch8"@
}

/// Cycles per frame when no speed is given.
pub const DEFAULT_SPEED_MULTIPLIER: usize = 1;

/// The command line could not be read.
#[derive(Debug, Clone, Copy, PartialEq, Eq, Structural)]
pub enum ConfigError {
    /// The speed given is not a number of cycles.
    InvalidSpeed,
}

/// Settings for a run.
#[derive(Debug, Clone, PartialEq, Eq)]
pub struct Config {
    /// The file of the program to run.
    pub rom_filename: String,
    /// Machine cycles per frame.
    pub speed_multiplier: usize,
    /// Whether the colour cycles by itself.
    pub rainbow_mode: bool,
}

impl Config {
    /// Reads the settings from the command line `args`, whose first entry
    /// is the program's own name. With nothing after it: the default program
    /// at the default speed, in rainbow mode. Otherwise the program file, then
    /// the speed, then any word at all for rainbow mode; what is left out takes
    /// its default, and rainbow mode is off.
    pub fn from_args(args: &Vec<String>) -> (r: Result<Config, ConfigError>)
        ensures
            args@.len() == 1 ==> r is Ok && r->Ok_0.rom_filename@ == default_rom_spec()
                && r->Ok_0.speed_multiplier == DEFAULT_SPEED_MULTIPLIER && r->Ok_0.rainbow_mode,
            args@.len() != 1 ==> {
                let speed = if args@.len() >= 3 {
                    usize_text(args@[2]@)
                } else {
                    Some(DEFAULT_SPEED_MULTIPLIER)
                };
                match speed {
                    None => r == Err::<Config, ConfigError>(ConfigError::InvalidSpeed),
                    Some(v) => r is Ok && r->Ok_0.speed_multiplier == v && r->Ok_0.rom_filename@
                        == (if args@.len() >= 2 {
                        args@[1]@
                    } else {
                        default_rom_spec()
                    }) && r->Ok_0.rainbow_mode == (args@.len() >= 4),
                }
            },
    {
        if args.len() == 1 {
            return Ok(
                Config {
                    rom_filename: "./roms/chippi.ch8".to_owned(),
                    speed_multiplier: DEFAULT_SPEED_MULTIPLIER,
                    rainbow_mode: true,
                },
            );
        }
        let rom_filename = if args.len() >= 2 {
            args[1].clone()
        } else {
            "./roms/chippi.ch8".to_owned()
        };
        let speed_multiplier = if args.len() >= 3 {
            match parse_usize(args[2].as_str()) {
                Some(sp) => sp,
                None => return Err(ConfigError::InvalidSpeed),
            }
        } else {
            DEFAULT_SPEED_MULTIPLIER
        };
        let rainbow_mode = args.len() >= 4;
        Ok(Config { rom_filename, speed_multiplier, rainbow_mode })
    }
}

} // verus!
