use zexe::config::{
    default_border, default_cheats, default_fullscreen, default_joystick, default_volume, Config,
};
use zexe::modes::{
    BorderMode, FilteringMode, JoyInput, JoyTarget, JoystickMode, Program, Viewport,
};

#[test]
fn config_defaults() {
    assert!(default_fullscreen());
    assert_eq!(default_joystick(), "Off");
    assert_eq!(default_border(), "Full");
    assert!(!default_cheats());
    assert_eq!(default_volume(), 100);
    let c = Config::default();
    assert!(c.fullscreen);
    assert_eq!(c.filtering, None);
    assert_eq!(c.joystick, "Off");
    assert_eq!(c.border, "Full");
    assert!(!c.cheats_enabled);
    assert_eq!(c.volume, 100);
}

#[test]
fn border_modes_cycle() {
    assert_eq!(BorderMode::Full.next(), BorderMode::Minimal);
    assert_eq!(BorderMode::Minimal.next(), BorderMode::Hidden);
    assert_eq!(BorderMode::Hidden.next(), BorderMode::Full);
}

#[test]
fn border_viewports() {
    assert_eq!(
        BorderMode::Full.viewport(),
        Viewport { width: 320, height: 240, x_offset: 0, y_offset: 0 }
    );
    assert_eq!(
        BorderMode::Minimal.viewport(),
        Viewport { width: 288, height: 224, x_offset: 16, y_offset: 8 }
    );
    assert_eq!(
        BorderMode::Hidden.viewport(),
        Viewport { width: 256, height: 192, x_offset: 32, y_offset: 24 }
    );
}

#[test]
fn border_names() {
    assert_eq!(BorderMode::from_name("Full"), BorderMode::Full);
    assert_eq!(BorderMode::from_name("Minimal"), BorderMode::Minimal);
    assert_eq!(BorderMode::from_name("None"), BorderMode::Hidden);
    assert_eq!(BorderMode::from_name("none"), BorderMode::Full);
    assert_eq!(BorderMode::from_name(""), BorderMode::Full);
}

#[test]
fn joystick_modes_cycle() {
    assert_eq!(JoystickMode::Off.next(), JoystickMode::Kempston);
    assert_eq!(JoystickMode::Kempston.next(), JoystickMode::Sinclair1);
    assert_eq!(JoystickMode::Sinclair1.next(), JoystickMode::Sinclair2);
    assert_eq!(JoystickMode::Sinclair2.next(), JoystickMode::Cursor);
    assert_eq!(JoystickMode::Cursor.next(), JoystickMode::Off);
}

#[test]
fn joystick_names() {
    assert_eq!(JoystickMode::from_name("Off"), JoystickMode::Off);
    assert_eq!(JoystickMode::from_name("Kempston"), JoystickMode::Kempston);
    assert_eq!(JoystickMode::from_name("Sinclair1"), JoystickMode::Sinclair1);
    assert_eq!(JoystickMode::from_name("Sinclair2"), JoystickMode::Sinclair2);
    assert_eq!(JoystickMode::from_name("Cursor"), JoystickMode::Cursor);
    assert_eq!(JoystickMode::from_name("Fuller"), JoystickMode::Off);
}

#[test]
fn filtering_modes_cycle_through_what_is_there() {
    for (e, c) in [(false, false), (true, false), (false, true), (true, true)] {
        assert_eq!(FilteringMode::Nearest.next(e, c), FilteringMode::Linear);
        assert_eq!(FilteringMode::Linear.next(e, c), FilteringMode::Scanlines);
        assert_eq!(FilteringMode::Custom.next(e, c), FilteringMode::Nearest);
    }
    assert_eq!(FilteringMode::Scanlines.next(false, false), FilteringMode::Nearest);
    assert_eq!(FilteringMode::Scanlines.next(true, false), FilteringMode::Embedded);
    assert_eq!(FilteringMode::Scanlines.next(false, true), FilteringMode::Custom);
    assert_eq!(FilteringMode::Scanlines.next(true, true), FilteringMode::Embedded);
    assert_eq!(FilteringMode::Embedded.next(false, false), FilteringMode::Nearest);
    assert_eq!(FilteringMode::Embedded.next(true, false), FilteringMode::Nearest);
    assert_eq!(FilteringMode::Embedded.next(false, true), FilteringMode::Custom);
    assert_eq!(FilteringMode::Embedded.next(true, true), FilteringMode::Custom);
}

#[test]
fn filtering_names() {
    assert_eq!(FilteringMode::from_name("Nearest", false, false), FilteringMode::Nearest);
    assert_eq!(FilteringMode::from_name("Linear", true, true), FilteringMode::Linear);
    assert_eq!(FilteringMode::from_name("Scanlines", true, true), FilteringMode::Scanlines);
    assert_eq!(FilteringMode::from_name("Embedded", true, false), FilteringMode::Embedded);
    assert_eq!(FilteringMode::from_name("Embedded", false, true), FilteringMode::Scanlines);
    assert_eq!(FilteringMode::from_name("Custom", false, true), FilteringMode::Custom);
    assert_eq!(FilteringMode::from_name("Custom", true, false), FilteringMode::Scanlines);
    assert_eq!(FilteringMode::from_name("CRT", true, true), FilteringMode::Scanlines);
}

#[test]
fn filtering_start_and_uniform() {
    assert_eq!(FilteringMode::initial(true, true), FilteringMode::Embedded);
    assert_eq!(FilteringMode::initial(true, false), FilteringMode::Embedded);
    assert_eq!(FilteringMode::initial(false, true), FilteringMode::Custom);
    assert_eq!(FilteringMode::initial(false, false), FilteringMode::Nearest);
    assert_eq!(FilteringMode::Nearest.uniform_value(), 0);
    assert_eq!(FilteringMode::Linear.uniform_value(), 1);
    assert_eq!(FilteringMode::Scanlines.uniform_value(), 2);
    assert_eq!(FilteringMode::Embedded.uniform_value(), 3);
    assert_eq!(FilteringMode::Custom.uniform_value(), 4);
}

#[test]
fn joystick_inputs_and_where_they_go() {
    for input in [JoyInput::Up, JoyInput::Down, JoyInput::Left, JoyInput::Right, JoyInput::Fire] {
        assert_eq!(JoystickMode::Off.target(input), JoyTarget::NotMapped);
        assert_eq!(JoystickMode::Kempston.target(input), JoyTarget::Kempston(input));
        assert_eq!(JoystickMode::Sinclair1.target(input), JoyTarget::SinclairFirst(input));
        assert_eq!(JoystickMode::Sinclair2.target(input), JoyTarget::SinclairSecond(input));
    }
    assert_eq!(JoystickMode::Cursor.target(JoyInput::Left), JoyTarget::Digit(5));
    assert_eq!(JoystickMode::Cursor.target(JoyInput::Down), JoyTarget::Digit(6));
    assert_eq!(JoystickMode::Cursor.target(JoyInput::Up), JoyTarget::Digit(7));
    assert_eq!(JoystickMode::Cursor.target(JoyInput::Right), JoyTarget::Digit(8));
    assert_eq!(JoystickMode::Cursor.target(JoyInput::Fire), JoyTarget::Digit(0));
}

#[test]
fn program_for_a_mode() {
    for (e, c) in [(false, false), (true, false), (false, true), (true, true)] {
        assert_eq!(FilteringMode::Nearest.program(e, c), Program::BuiltIn);
        assert_eq!(FilteringMode::Linear.program(e, c), Program::BuiltIn);
        assert_eq!(FilteringMode::Scanlines.program(e, c), Program::BuiltIn);
        assert_eq!(
            FilteringMode::Embedded.program(e, c),
            if e { Program::Embedded } else { Program::BuiltIn }
        );
        assert_eq!(
            FilteringMode::Custom.program(e, c),
            if c { Program::Custom } else { Program::BuiltIn }
        );
    }
    assert!(!FilteringMode::Nearest.is_smooth());
    assert!(FilteringMode::Linear.is_smooth());
    assert!(FilteringMode::Scanlines.is_smooth());
    assert!(FilteringMode::Embedded.is_smooth());
    assert!(FilteringMode::Custom.is_smooth());
}

#[test]
fn labels_on_the_display() {
    assert_eq!(BorderMode::Full.label(), "BORDER: FULL");
    assert_eq!(BorderMode::Minimal.label(), "BORDER: MINIMAL");
    assert_eq!(BorderMode::Hidden.label(), "BORDER: NONE");
    assert_eq!(FilteringMode::Nearest.label(), "FILTER: NEAREST");
    assert_eq!(FilteringMode::Linear.label(), "FILTER: LINEAR");
    assert_eq!(FilteringMode::Scanlines.label(), "FILTER: SCANLINES");
    assert_eq!(FilteringMode::Embedded.label(), "FILTER: EMBEDDED SHADER");
    assert_eq!(FilteringMode::Custom.label(), "FILTER: CUSTOM SHADER");
    assert_eq!(JoystickMode::Off.label(), "JOYSTICK: OFF");
    assert_eq!(JoystickMode::Kempston.label(), "JOYSTICK: KEMPSTON");
    assert_eq!(JoystickMode::Sinclair1.label(), "JOYSTICK: SINCLAIR 1 (6-0)");
    assert_eq!(JoystickMode::Sinclair2.label(), "JOYSTICK: SINCLAIR 2 (1-5)");
    assert_eq!(JoystickMode::Cursor.label(), "JOYSTICK: CURSOR (5-8)");
}
