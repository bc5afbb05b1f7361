use zexe::config::Config;
use zexe::modes::{BorderMode, FilteringMode, JoystickMode};
use zexe::session::{
    frames_due, load_snapshot, priming_frames, starting_settings, volume_down, volume_up, Pace,
    Settings,
};
use zexe::snapshot::Machine;

#[test]
fn canonical_snapshot_is_taken_as_it_is() {
    let data = vec![0x5A; 49179];
    assert_eq!(load_snapshot(&data), (data, Machine::Sinclair48K));
    assert_eq!(load_snapshot(&[]), (vec![], Machine::Sinclair48K));
}

#[test]
fn z80_snapshot_is_converted_on_load() {
    let mut data = vec![0u8; 30];
    data[6] = 0x00;
    data[7] = 0x80;
    data[8] = 0x00;
    data[9] = 0x60;
    data.extend_from_slice(&[1, 2, 3]);
    let (sna, machine) = load_snapshot(&data);
    assert_eq!(machine, Machine::Sinclair48K);
    assert_eq!(sna.len(), 49179);
    assert_eq!(&sna[27..30], &[1, 2, 3]);
}

#[test]
fn szx_snapshot_is_converted_on_load() {
    let mut data = vec![b'Z', b'X', b'S', b'T', 1, 4, 3, 0];
    data.extend_from_slice(b"SPCR");
    data.extend_from_slice(&[8, 0, 0, 0, 3, 0x11, 0, 0, 0, 0, 0, 0]);
    for p in 0..8u8 {
        data.extend_from_slice(b"RAMP");
        data.extend_from_slice(&(16387u32).to_le_bytes());
        data.extend_from_slice(&[0, 0, p]);
        data.extend_from_slice(&vec![p; 16384]);
    }
    let (sna, machine) = load_snapshot(&data);
    assert_eq!(machine, Machine::Sinclair128K);
    assert_eq!(sna.len(), 131103);
    assert_eq!(sna[26], 3);
    assert_eq!(sna[27 + 32768], 1);
}

#[test]
fn data_that_does_not_convert_is_handed_on() {
    let data = vec![1u8; 10];
    assert_eq!(load_snapshot(&data), (data, Machine::Sinclair48K));
    let data = vec![b'Z', b'X', b'S', b'T', 1, 4, 9, 0, 0];
    assert_eq!(load_snapshot(&data), (data, Machine::Sinclair48K));
    let data = vec![b'Z', b'X', b'S', b'T', 1, 4, 1, 0];
    assert_eq!(load_snapshot(&data), (data, Machine::Sinclair48K));
}

#[test]
fn settings_without_configuration() {
    assert_eq!(
        starting_settings(&None, false, true),
        Settings {
            fullscreen: true,
            filtering: FilteringMode::Custom,
            joystick: JoystickMode::Off,
            border: BorderMode::Full,
            cheats_enabled: false,
            volume: 100,
        }
    );
    assert_eq!(starting_settings(&None, true, true).filtering, FilteringMode::Embedded);
    assert_eq!(starting_settings(&None, false, false).filtering, FilteringMode::Nearest);
}

#[test]
fn settings_from_configuration() {
    let config = Config {
        fullscreen: false,
        filtering: Some("Embedded".to_string()),
        joystick: "Cursor".to_string(),
        border: "None".to_string(),
        cheats_enabled: true,
        volume: 150,
    };
    assert_eq!(
        starting_settings(&Some(config.clone()), true, false),
        Settings {
            fullscreen: false,
            filtering: FilteringMode::Embedded,
            joystick: JoystickMode::Cursor,
            border: BorderMode::Hidden,
            cheats_enabled: true,
            volume: 150,
        }
    );
    assert_eq!(
        starting_settings(&Some(config), false, true).filtering,
        FilteringMode::Scanlines
    );
    let plain = Config::default();
    let s = starting_settings(&Some(plain), false, true);
    assert_eq!(s.filtering, FilteringMode::Custom);
    assert_eq!(s.joystick, JoystickMode::Off);
    assert_eq!(s.border, BorderMode::Full);
    assert!(s.fullscreen);
}

#[test]
fn volume_steps() {
    assert_eq!(volume_down(100), 90);
    assert_eq!(volume_down(10), 0);
    assert_eq!(volume_down(9), 0);
    assert_eq!(volume_down(0), 0);
    assert_eq!(volume_down(255), 245);
    assert_eq!(volume_up(100), 110);
    assert_eq!(volume_up(190), 200);
    assert_eq!(volume_up(191), 200);
    assert_eq!(volume_up(200), 200);
    assert_eq!(volume_up(250), 200);
    assert_eq!(volume_up(0), 10);
}

#[test]
fn frames_before_sound_starts() {
    assert_eq!(priming_frames(200), 10);
    assert_eq!(priming_frames(0), 5);
    assert_eq!(priming_frames(99), 5);
    assert_eq!(priming_frames(100), 5);
    assert_eq!(priming_frames(120), 6);
    assert_eq!(priming_frames(u32::MAX), 214748364);
}

#[test]
fn frames_that_are_due() {
    assert_eq!(frames_due(20000, 20000), Pace { frames: 1, resync: false });
    assert_eq!(frames_due(39999, 20000), Pace { frames: 1, resync: false });
    assert_eq!(frames_due(0, 20000), Pace { frames: 0, resync: false });
    assert_eq!(frames_due(200000, 20000), Pace { frames: 10, resync: false });
    assert_eq!(frames_due(220000, 20000), Pace { frames: 10, resync: true });
    assert_eq!(frames_due(u128::MAX, 1), Pace { frames: 10, resync: true });
    assert_eq!(frames_due(20000u128 << 32, 20000), Pace { frames: 0, resync: false });
}
