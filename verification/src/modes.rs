//! The display and input modes that the runner steps through.

use crate::text::same_text;
use vstd::prelude::*;

verus! {

/// How much of the border is shown around the screen.
#[derive(Debug, Clone, Copy, PartialEq, Eq, Structural)]
pub enum BorderMode {
    Full,
    Minimal,
    /// No border at all.
    Hidden,
}

/// How the picture is filtered.
#[derive(Debug, Clone, Copy, PartialEq, Eq, Structural)]
pub enum FilteringMode {
    Nearest,
    Linear,
    Scanlines,
    Embedded,
    Custom,
}

/// Which joystick the cursor keys stand for.
#[derive(Debug, Clone, Copy, PartialEq, Eq, Structural)]
pub enum JoystickMode {
    Off,
    Kempston,
    Sinclair1,
    Sinclair2,
    Cursor,
}

/// The part of the 320 by 240 picture that is shown.
#[derive(Debug, Clone, Copy, PartialEq, Eq, Structural)]
pub struct Viewport {
    pub width: u32,
    pub height: u32,
    pub x_offset: u32,
    pub y_offset: u32,
}

impl BorderMode {
    /// The place of the mode in the cycle.
    pub open spec fn rank(self) -> int {
        match self {
            BorderMode::Full => 0,
            BorderMode::Minimal => 1,
            BorderMode::Hidden => 2,
        }
    }

    /// How many pixels of border are shown beside the screen, and how many
    /// above and below it. The whole border is 32 pixels wide and 24 high.
    pub open spec fn shown_border(self) -> (int, int) {
        match self {
            BorderMode::Full => (32, 24),
            BorderMode::Minimal => (16, 16),
            BorderMode::Hidden => (0, 0),
        }
    }

    /// The mode of that name; the full border for any other name.
    pub open spec fn of_name(name: Seq<char>) -> BorderMode {
        if name == "Minimal"@ {
            BorderMode::Minimal
        } else if name == "None"@ {
            BorderMode::Hidden
        } else {
            BorderMode::Full
        }
    }

    /// The next mode in the cycle full, minimal, hidden.
    pub fn next(self) -> (n: BorderMode)
        ensures
            n.rank() == (self.rank() + 1) % 3,
    {
        match self {
            BorderMode::Full => BorderMode::Minimal,
            BorderMode::Minimal => BorderMode::Hidden,
            BorderMode::Hidden => BorderMode::Full,
        }
    }

    /// The part of the picture that is shown: the screen of 256 by 192
    /// pixels, which lies at (32, 24), with the shown border round it.
    pub fn viewport(self) -> (v: Viewport)
        ensures
            v.x_offset == 32 - self.shown_border().0,
            v.y_offset == 24 - self.shown_border().1,
            v.width == 256 + 2 * self.shown_border().0,
            v.height == 192 + 2 * self.shown_border().1,
    {
        match self {
            BorderMode::Full => Viewport { width: 320, height: 240, x_offset: 0, y_offset: 0 },
            BorderMode::Minimal => Viewport { width: 288, height: 224, x_offset: 16, y_offset: 8 },
            BorderMode::Hidden => Viewport { width: 256, height: 192, x_offset: 32, y_offset: 24 },
        }
    }

    /// The mode of that name; the full border for any other name.
    pub fn from_name(name: &str) -> (m: BorderMode)
        ensures
            m == BorderMode::of_name(name@),
    {
        if same_text(name, "Minimal") {
            BorderMode::Minimal
        } else if same_text(name, "None") {
            BorderMode::Hidden
        } else {
            BorderMode::Full
        }
    }
}

impl JoystickMode {
    /// The place of the mode in the cycle.
    pub open spec fn rank(self) -> int {
        match self {
            JoystickMode::Off => 0,
            JoystickMode::Kempston => 1,
            JoystickMode::Sinclair1 => 2,
            JoystickMode::Sinclair2 => 3,
            JoystickMode::Cursor => 4,
        }
    }

    /// The mode of that name; off for any other name.
    pub open spec fn of_name(name: Seq<char>) -> JoystickMode {
        if name == "Kempston"@ {
            JoystickMode::Kempston
        } else if name == "Sinclair1"@ {
            JoystickMode::Sinclair1
        } else if name == "Sinclair2"@ {
            JoystickMode::Sinclair2
        } else if name == "Cursor"@ {
            JoystickMode::Cursor
        } else {
            JoystickMode::Off
        }
    }

    /// The next mode in the cycle off, Kempston, Sinclair 1, Sinclair 2,
    /// cursor.
    pub fn next(self) -> (n: JoystickMode)
        ensures
            n.rank() == (self.rank() + 1) % 5,
    {
        match self {
            JoystickMode::Off => JoystickMode::Kempston,
            JoystickMode::Kempston => JoystickMode::Sinclair1,
            JoystickMode::Sinclair1 => JoystickMode::Sinclair2,
            JoystickMode::Sinclair2 => JoystickMode::Cursor,
            JoystickMode::Cursor => JoystickMode::Off,
        }
    }

    /// The mode of that name; off for any other name.
    pub fn from_name(name: &str) -> (m: JoystickMode)
        ensures
            m == JoystickMode::of_name(name@),
    {
        if same_text(name, "Kempston") {
            JoystickMode::Kempston
        } else if same_text(name, "Sinclair1") {
            JoystickMode::Sinclair1
        } else if same_text(name, "Sinclair2") {
            JoystickMode::Sinclair2
        } else if same_text(name, "Cursor") {
            JoystickMode::Cursor
        } else {
            JoystickMode::Off
        }
    }
}

impl FilteringMode {
    /// The place of the mode in the cycle; also the number that tells the
    /// built-in filter program which mode is on.
    pub open spec fn rank(self) -> int {
        match self {
            FilteringMode::Nearest => 0,
            FilteringMode::Linear => 1,
            FilteringMode::Scanlines => 2,
            FilteringMode::Embedded => 3,
            FilteringMode::Custom => 4,
        }
    }

    /// Whether the mode can be chosen: the embedded filter only where the
    /// bundle carries one, the custom filter only where one was found.
    pub open spec fn available(self, has_embedded: bool, has_custom: bool) -> bool {
        match self {
            FilteringMode::Embedded => has_embedded,
            FilteringMode::Custom => has_custom,
            _ => true,
        }
    }

    /// How many steps round the cycle lead from `self` to `other`: one to
    /// five, five for the mode itself.
    pub open spec fn steps_to(self, other: FilteringMode) -> int {
        (other.rank() - self.rank() + 4) % 5 + 1
    }

    /// The mode of that name, or scanlines where the name is unknown or the
    /// mode it names cannot be chosen.
    pub open spec fn of_name(name: Seq<char>, has_embedded: bool, has_custom: bool)
        -> FilteringMode {
        if name == "Nearest"@ {
            FilteringMode::Nearest
        } else if name == "Linear"@ {
            FilteringMode::Linear
        } else if name == "Embedded"@ && has_embedded {
            FilteringMode::Embedded
        } else if name == "Custom"@ && has_custom {
            FilteringMode::Custom
        } else {
            FilteringMode::Scanlines
        }
    }

    /// The next mode round the cycle that can be chosen.
    pub fn next(self, has_embedded: bool, has_custom: bool) -> (n: FilteringMode)
        ensures
            n.available(has_embedded, has_custom),
            forall|m: FilteringMode| #[trigger]
                m.available(has_embedded, has_custom) ==> self.steps_to(n) <= self.steps_to(m),
    {
        let n = match self {
            FilteringMode::Nearest => FilteringMode::Linear,
            FilteringMode::Linear => FilteringMode::Scanlines,
            FilteringMode::Scanlines => {
                if has_embedded {
                    FilteringMode::Embedded
                } else if has_custom {
                    FilteringMode::Custom
                } else {
                    FilteringMode::Nearest
                }
            },
            FilteringMode::Embedded => {
                if has_custom {
                    FilteringMode::Custom
                } else {
                    FilteringMode::Nearest
                }
            },
            FilteringMode::Custom => FilteringMode::Nearest,
        };
        assert forall|m: FilteringMode| #[trigger]
            m.available(has_embedded, has_custom) implies self.steps_to(n) <= self.steps_to(m) by {
            match m {
                FilteringMode::Nearest => {},
                FilteringMode::Linear => {},
                FilteringMode::Scanlines => {},
                FilteringMode::Embedded => {},
                FilteringMode::Custom => {},
            }
        }
        n
    }

    /// The mode to start in: the embedded filter if the bundle carries one,
    /// else the custom filter if one was found, else none.
    pub fn initial(has_embedded: bool, has_custom: bool) -> (m: FilteringMode)
        ensures
            m == if has_embedded {
                FilteringMode::Embedded
            } else if has_custom {
                FilteringMode::Custom
            } else {
                FilteringMode::Nearest
            },
    {
        if has_embedded {
            FilteringMode::Embedded
        } else if has_custom {
            FilteringMode::Custom
        } else {
            FilteringMode::Nearest
        }
    }

    /// The number that tells the built-in filter program which mode is on.
    pub fn uniform_value(self) -> (v: i32)
        ensures
            v == self.rank(),
    {
        match self {
            FilteringMode::Nearest => 0,
            FilteringMode::Linear => 1,
            FilteringMode::Scanlines => 2,
            FilteringMode::Embedded => 3,
            FilteringMode::Custom => 4,
        }
    }

    /// The mode of that name, or scanlines where the name is unknown or the
    /// mode it names cannot be chosen.
    pub fn from_name(name: &str, has_embedded: bool, has_custom: bool) -> (m: FilteringMode)
        ensures
            m == FilteringMode::of_name(name@, has_embedded, has_custom),
    {
        if same_text(name, "Nearest") {
            FilteringMode::Nearest
        } else if same_text(name, "Linear") {
            FilteringMode::Linear
        } else if same_text(name, "Embedded") && has_embedded {
            FilteringMode::Embedded
        } else if same_text(name, "Custom") && has_custom {
            FilteringMode::Custom
        } else {
            FilteringMode::Scanlines
        }
    }
}

/// What a joystick can report: a direction or the fire button.
#[derive(Debug, Clone, Copy, PartialEq, Eq, Structural)]
pub enum JoyInput {
    Up,
    Down,
    Left,
    Right,
    Fire,
}

/// Where a joystick input goes in the emulated machine.
#[derive(Debug, Clone, Copy, PartialEq, Eq, Structural)]
pub enum JoyTarget {
    /// Nowhere: the key keeps its meaning on the keyboard.
    NotMapped,
    /// The Kempston joystick.
    Kempston(JoyInput),
    /// The first Sinclair joystick.
    SinclairFirst(JoyInput),
    /// The second Sinclair joystick.
    SinclairSecond(JoyInput),
    /// A digit key of the keyboard, as a cursor joystick presses it.
    Digit(u8),
}

/// The digit key that a cursor joystick presses: 5 for left, 6 for down, 7
/// for up, 8 for right, 0 for fire.
pub open spec fn cursor_digit(input: JoyInput) -> u8 {
    match input {
        JoyInput::Left => 5,
        JoyInput::Down => 6,
        JoyInput::Up => 7,
        JoyInput::Right => 8,
        JoyInput::Fire => 0,
    }
}

impl JoystickMode {
    /// Where the mode sends a joystick input.
    pub open spec fn target_of(self, input: JoyInput) -> JoyTarget {
        match self {
            JoystickMode::Off => JoyTarget::NotMapped,
            JoystickMode::Kempston => JoyTarget::Kempston(input),
            JoystickMode::Sinclair1 => JoyTarget::SinclairFirst(input),
            JoystickMode::Sinclair2 => JoyTarget::SinclairSecond(input),
            JoystickMode::Cursor => JoyTarget::Digit(cursor_digit(input)),
        }
    }

    /// Where the mode sends a joystick input.
    pub fn target(self, input: JoyInput) -> (t: JoyTarget)
        ensures
            t == self.target_of(input),
    {
        match self {
            JoystickMode::Off => JoyTarget::NotMapped,
            JoystickMode::Kempston => JoyTarget::Kempston(input),
            JoystickMode::Sinclair1 => JoyTarget::SinclairFirst(input),
            JoystickMode::Sinclair2 => JoyTarget::SinclairSecond(input),
            JoystickMode::Cursor => JoyTarget::Digit(
                match input {
                    JoyInput::Left => 5,
                    JoyInput::Down => 6,
                    JoyInput::Up => 7,
                    JoyInput::Right => 8,
                    JoyInput::Fire => 0,
                },
            ),
        }
    }
}

/// The filter program that draws the picture.
#[derive(Debug, Clone, Copy, PartialEq, Eq, Structural)]
pub enum Program {
    /// The program that is built in.
    BuiltIn,
    /// The program compiled from the filter that the bundle carries.
    Embedded,
    /// The program compiled from the filter found beside the executable.
    Custom,
}

impl FilteringMode {
    /// The program for the mode: the custom or the embedded one where the
    /// mode asks for it and it was compiled, the built-in one otherwise.
    pub open spec fn program_of(self, embedded_compiled: bool, custom_compiled: bool) -> Program {
        if self == FilteringMode::Custom && custom_compiled {
            Program::Custom
        } else if self == FilteringMode::Embedded && embedded_compiled {
            Program::Embedded
        } else {
            Program::BuiltIn
        }
    }

    /// The program that draws the picture in this mode.
    pub fn program(self, embedded_compiled: bool, custom_compiled: bool) -> (p: Program)
        ensures
            p == self.program_of(embedded_compiled, custom_compiled),
    {
        match self {
            FilteringMode::Custom => if custom_compiled {
                Program::Custom
            } else {
                Program::BuiltIn
            },
            FilteringMode::Embedded => if embedded_compiled {
                Program::Embedded
            } else {
                Program::BuiltIn
            },
            _ => Program::BuiltIn,
        }
    }

    /// Whether the texture is sampled smoothly: in every mode but the
    /// nearest-neighbour one.
    pub fn is_smooth(self) -> (smooth: bool)
        ensures
            smooth == (self != FilteringMode::Nearest),
    {
        match self {
            FilteringMode::Nearest => false,
            _ => true,
        }
    }

    /// What the display says when the mode is chosen.
    pub open spec fn label_of(self) -> Seq<char> {
        match self {
            FilteringMode::Nearest => "FILTER: NEAREST"@,
            FilteringMode::Linear => "FILTER: LINEAR"@,
            FilteringMode::Scanlines => "FILTER: SCANLINES"@,
            FilteringMode::Embedded => "FILTER: EMBEDDED SHADER"@,
            FilteringMode::Custom => "FILTER: CUSTOM SHADER"@,
        }
    }

    /// What the display says when the mode is chosen.
    pub fn label(self) -> (text: &'static str)
        ensures
            text@ == self.label_of(),
    {
        match self {
            FilteringMode::Nearest => "FILTER: NEAREST",
            FilteringMode::Linear => "FILTER: LINEAR",
            FilteringMode::Scanlines => "FILTER: SCANLINES",
            FilteringMode::Embedded => "FILTER: EMBEDDED SHADER",
            FilteringMode::Custom => "FILTER: CUSTOM SHADER",
        }
    }
}

impl JoystickMode {
    /// What the display says when the mode is chosen.
    pub open spec fn label_of(self) -> Seq<char> {
        match self {
            JoystickMode::Off => "JOYSTICK: OFF"@,
            JoystickMode::Kempston => "JOYSTICK: KEMPSTON"@,
            JoystickMode::Sinclair1 => "JOYSTICK: SINCLAIR 1 (6-0)"@,
            JoystickMode::Sinclair2 => "JOYSTICK: SINCLAIR 2 (1-5)"@,
            JoystickMode::Cursor => "JOYSTICK: CURSOR (5-8)"@,
        }
    }

    /// What the display says when the mode is chosen.
    pub fn label(self) -> (text: &'static str)
        ensures
            text@ == self.label_of(),
    {
        match self {
            JoystickMode::Off => "JOYSTICK: OFF",
            JoystickMode::Kempston => "JOYSTICK: KEMPSTON",
            JoystickMode::Sinclair1 => "JOYSTICK: SINCLAIR 1 (6-0)",
            JoystickMode::Sinclair2 => "JOYSTICK: SINCLAIR 2 (1-5)",
            JoystickMode::Cursor => "JOYSTICK: CURSOR (5-8)",
        }
    }
}

impl BorderMode {
    /// What the display says when the mode is chosen.
    pub open spec fn label_of(self) -> Seq<char> {
        match self {
            BorderMode::Full => "BORDER: FULL"@,
            BorderMode::Minimal => "BORDER: MINIMAL"@,
            BorderMode::Hidden => "BORDER: NONE"@,
        }
    }

    /// What the display says when the mode is chosen.
    pub fn label(self) -> (text: &'static str)
        ensures
            text@ == self.label_of(),
    {
        match self {
            BorderMode::Full => "BORDER: FULL",
            BorderMode::Minimal => "BORDER: MINIMAL",
            BorderMode::Hidden => "BORDER: NONE",
        }
    }
}

} // verus!
