//! What the runner decides at start and while it runs.

use crate::config::Config;
use crate::modes::{BorderMode, FilteringMode, JoystickMode};
use crate::snapshot::{Machine, SNA_48K_SIZE};
use crate::szx_loader::{convert_szx_to_sna, has_signature, szx_to_sna};
use crate::z80_loader::{convert_z80_to_sna, z80_to_sna};
use vstd::prelude::*;
use vstd::slice::slice_to_vec;

verus! {

/// The snapshot to load for `data`, and its machine.
///
/// No data and data of the size of a canonical 48 KiB snapshot are taken as
/// they are. Data that opens with the SZX signature goes through that
/// decoder, all other data through the Z80 decoder. Where the decoder fails
/// the data is handed on unchanged, for the 48 KiB machine.
pub open spec fn normalized(data: Seq<u8>) -> (Seq<u8>, Machine) {
    if data.len() == 0 || data.len() == SNA_48K_SIZE {
        (data, Machine::Sinclair48K)
    } else if has_signature(data) {
        match szx_to_sna(data) {
            Ok(converted) => converted,
            Err(_) => (data, Machine::Sinclair48K),
        }
    } else {
        match z80_to_sna(data) {
            Ok(converted) => converted,
            Err(_) => (data, Machine::Sinclair48K),
        }
    }
}

/// Brings a snapshot in any of the three formats into the canonical one.
pub fn load_snapshot(data: &[u8]) -> (r: (Vec<u8>, Machine))
    ensures
        (r.0@, r.1) == normalized(data@),
{
    if data.len() == 0 || data.len() == SNA_48K_SIZE {
        return (slice_to_vec(data), Machine::Sinclair48K);
    }
    let signed = data.len() >= 4 && data[0] == 0x5A && data[1] == 0x58 && data[2] == 0x53
        && data[3] == 0x54;
    let converted = if signed {
        convert_szx_to_sna(data)
    } else {
        convert_z80_to_sna(data)
    };
    match converted {
        Ok((bytes, machine)) => (bytes, machine),
        Err(_) => (slice_to_vec(data), Machine::Sinclair48K),
    }
}

/// The modes and switches the runner starts with.
#[derive(Debug, Clone, Copy, PartialEq, Eq, Structural)]
pub struct Settings {
    pub fullscreen: bool,
    pub filtering: FilteringMode,
    pub joystick: JoystickMode,
    pub border: BorderMode,
    pub cheats_enabled: bool,
    pub volume: u8,
}

/// The filter to start with where the configuration names none.
pub open spec fn initial_filtering(has_embedded: bool, has_custom: bool) -> FilteringMode {
    if has_embedded {
        FilteringMode::Embedded
    } else if has_custom {
        FilteringMode::Custom
    } else {
        FilteringMode::Nearest
    }
}

/// The settings that a configuration asks for; without one, the defaults.
pub open spec fn settings_of(config: Option<Config>, has_embedded: bool, has_custom: bool)
    -> Settings {
    match config {
        None => Settings {
            fullscreen: true,
            filtering: initial_filtering(has_embedded, has_custom),
            joystick: JoystickMode::Off,
            border: BorderMode::Full,
            cheats_enabled: false,
            volume: 100,
        },
        Some(c) => Settings {
            fullscreen: c.fullscreen,
            filtering: match c.filtering {
                Some(name) => FilteringMode::of_name(name@, has_embedded, has_custom),
                None => initial_filtering(has_embedded, has_custom),
            },
            joystick: JoystickMode::of_name(c.joystick@),
            border: BorderMode::of_name(c.border@),
            cheats_enabled: c.cheats_enabled,
            volume: c.volume,
        },
    }
}

/// Works out the settings to start with.
///
/// `has_embedded` says whether the bundle carries a display filter,
/// `has_custom` whether one was found beside the program.
pub fn starting_settings(config: &Option<Config>, has_embedded: bool, has_custom: bool) -> (s:
    Settings)
    ensures
        s == settings_of(*config, has_embedded, has_custom),
{
    let initial = FilteringMode::initial(has_embedded, has_custom);
    match config {
        None => Settings {
            fullscreen: true,
            filtering: initial,
            joystick: JoystickMode::Off,
            border: BorderMode::Full,
            cheats_enabled: false,
            volume: 100,
        },
        Some(c) => Settings {
            fullscreen: c.fullscreen,
            filtering: match &c.filtering {
                Some(name) => FilteringMode::from_name(name.as_str(), has_embedded, has_custom),
                None => initial,
            },
            joystick: JoystickMode::from_name(c.joystick.as_str()),
            border: BorderMode::from_name(c.border.as_str()),
            cheats_enabled: c.cheats_enabled,
            volume: c.volume,
        },
    }
}

/// The highest volume the keys lead to.
pub const MAX_VOLUME: u8 = 200;

/// The volume one step down: ten less, not below zero.
pub fn volume_down(volume: u8) -> (v: u8)
    ensures
        v == if volume >= 10 {
            volume - 10
        } else {
            0
        },
{
    if volume >= 10 {
        volume - 10
    } else {
        0
    }
}

/// The volume one step up: ten more, not above [`MAX_VOLUME`].
pub fn volume_up(volume: u8) -> (v: u8)
    ensures
        v == if volume + 10 <= MAX_VOLUME {
            volume + 10
        } else {
            MAX_VOLUME as int
        },
{
    if volume <= MAX_VOLUME - 10 {
        volume + 10
    } else {
        MAX_VOLUME
    }
}

/// The frames to emulate before sound starts, so that the audio buffer holds
/// the wanted latency: one frame for every 20 ms, and five at least.
pub fn priming_frames(latency_ms: u32) -> (frames: u32)
    ensures
        frames == if latency_ms / 20 >= 5 {
            latency_ms / 20
        } else {
            5
        },
{
    let frames = latency_ms / 20;
    if frames >= 5 {
        frames
    } else {
        5
    }
}

/// The most frames that are caught up in one go.
pub const MAX_CATCH_UP: u32 = 10;

/// What to do about the frames that are due.
#[derive(Debug, Clone, Copy, PartialEq, Eq, Structural)]
pub struct Pace {
    /// How many frames to emulate now.
    pub frames: u32,
    /// Whether the runner was too far behind: the frames beyond
    /// [`MAX_CATCH_UP`] are given up and the clock is set anew.
    pub resync: bool,
}

/// The frames that are due after `elapsed` microseconds, counted as a
/// 32-bit number.
pub open spec fn frames_behind(elapsed: u128, frame: u128) -> int {
    (elapsed / frame) as int % 0x1_0000_0000
}

/// Decides how many frames to emulate when `elapsed` microseconds have gone
/// by since the last frame and a frame lasts `frame` microseconds.
pub fn frames_due(elapsed: u128, frame: u128) -> (pace: Pace)
    requires
        frame > 0,
    ensures
        pace.resync == (frames_behind(elapsed, frame) > MAX_CATCH_UP),
        pace.frames == if pace.resync {
            MAX_CATCH_UP as int
        } else {
            frames_behind(elapsed, frame)
        },
{
    let behind: u128 = (elapsed / frame) % 0x1_0000_0000;
    if behind > MAX_CATCH_UP as u128 {
        Pace { frames: MAX_CATCH_UP, resync: true }
    } else {
        Pace { frames: behind as u32, resync: false }
    }
}

} // verus!
