//! The preferences that a bundle can carry.

use vstd::prelude::*;

verus! {

/// The preferences, each with its default.
#[derive(Debug, Clone)]
pub struct Config {
    /// Whether to start in full screen.
    pub fullscreen: bool,
    /// The name of the display filter, if one is chosen.
    pub filtering: Option<String>,
    /// The name of the joystick mode.
    pub joystick: String,
    /// The name of the border mode.
    pub border: String,
    /// Whether the patches are switched on at start.
    pub cheats_enabled: bool,
    /// The volume, in percent.
    pub volume: u8,
}

/// The full-screen flag where none is given.
pub fn default_fullscreen() -> (b: bool)
    ensures
        b,
{
    true
}

/// The joystick mode where none is given.
pub fn default_joystick() -> (s: String)
    ensures
        s@ == "Off"@,
{
    "Off".to_string()
}

/// The border mode where none is given.
pub fn default_border() -> (s: String)
    ensures
        s@ == "Full"@,
{
    "Full".to_string()
}

/// The patch switch where none is given.
pub fn default_cheats() -> (b: bool)
    ensures
        !b,
{
    false
}

/// The volume where none is given.
pub fn default_volume() -> (v: u8)
    ensures
        v == 100,
{
    100
}

impl Config {
    /// Whether every preference has its default.
    pub open spec fn is_default(self) -> bool {
        &&& self.fullscreen
        &&& self.filtering is None
        &&& self.joystick@ == "Off"@
        &&& self.border@ == "Full"@
        &&& !self.cheats_enabled
        &&& self.volume == 100
    }
}

impl Default for Config {
    /// The configuration in which every preference has its default.
    fn default() -> (c: Config)
        ensures
            c.is_default(),
    {
        Config {
            fullscreen: default_fullscreen(),
            filtering: None,
            joystick: default_joystick(),
            border: default_border(),
            cheats_enabled: default_cheats(),
            volume: default_volume(),
        }
    }
}

} // verus!
