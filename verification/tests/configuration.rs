use display_interface::DisplayError;
use sh1108::{Command, DisplayProperties, DisplayRotation, DisplaySize, Transfer, Write};

/// Carries `transfer` out on a channel that takes every write, and returns
/// the commands that were sent.
fn commands_sent<DI>(properties: &mut DisplayProperties<DI>, mut transfer: Transfer<'_>) -> Vec<Command> {
    let mut commands = Vec::new();
    while let Some(write) = properties.resume(&mut transfer, Ok(())).unwrap() {
        match write {
            Write::Command(command) => commands.push(command),
            Write::Data(bytes) => panic!("data write of {} bytes", bytes.len()),
        }
    }
    commands
}

fn remap_commands(rotation: DisplayRotation) -> Vec<Command> {
    let mut properties = DisplayProperties::new((), DisplaySize::Display128x160, DisplayRotation::Rotate0);
    let transfer = properties.set_rotation(rotation);
    assert_eq!(properties.get_rotation(), rotation);
    commands_sent(&mut properties, transfer)
}

#[test]
fn rotate0_clears_both_remap_bits() {
    assert_eq!(
        remap_commands(DisplayRotation::Rotate0),
        [Command::SegmentRemap(false), Command::SetCommonScanDir(false)]
    );
}

#[test]
fn rotate90_reverses_the_scan_only() {
    assert_eq!(
        remap_commands(DisplayRotation::Rotate90),
        [Command::SegmentRemap(false), Command::SetCommonScanDir(true)]
    );
}

#[test]
fn rotate180_sets_both_remap_bits() {
    assert_eq!(
        remap_commands(DisplayRotation::Rotate180),
        [Command::SegmentRemap(true), Command::SetCommonScanDir(true)]
    );
}

#[test]
fn rotate270_remaps_the_segments_only() {
    assert_eq!(
        remap_commands(DisplayRotation::Rotate270),
        [Command::SegmentRemap(true), Command::SetCommonScanDir(false)]
    );
}

#[test]
fn remap_bits_match_the_commands() {
    assert_eq!(DisplayRotation::Rotate0.remap_bits(), (false, false));
    assert_eq!(DisplayRotation::Rotate90.remap_bits(), (false, true));
    assert_eq!(DisplayRotation::Rotate180.remap_bits(), (true, true));
    assert_eq!(DisplayRotation::Rotate270.remap_bits(), (true, false));
}

#[test]
fn set_rotation_keeps_size_and_window() {
    let mut properties = DisplayProperties::new((), DisplaySize::Display96x160, DisplayRotation::Rotate0);
    let _ = properties.set_draw_area((3, 4), (9, 8));
    let transfer = properties.set_rotation(DisplayRotation::Rotate90);
    commands_sent(&mut properties, transfer);
    assert_eq!(properties.get_size(), DisplaySize::Display96x160);
    assert_eq!(properties.get_draw_area(), ((3, 4), (9, 8)));
    assert_eq!(properties.get_cursor(), (3, 4));
}

#[test]
fn panel_dimensions() {
    assert_eq!(DisplaySize::Display64x160.dimensions(), (64, 160));
    assert_eq!(DisplaySize::Display96x160.dimensions(), (96, 160));
    assert_eq!(DisplaySize::Display128x160.dimensions(), (128, 160));
    assert_eq!(DisplaySize::Display160x160.dimensions(), (160, 160));
}

#[test]
fn dimensions_are_native_when_upright_or_upside_down() {
    for rotation in [DisplayRotation::Rotate0, DisplayRotation::Rotate180] {
        let properties = DisplayProperties::new((), DisplaySize::Display128x160, rotation);
        assert_eq!(properties.get_dimensions(), (128, 160));
        assert_eq!(properties.get_dimensions(), properties.get_size().dimensions());
    }
}

#[test]
fn dimensions_swap_when_turned_by_a_quarter() {
    for rotation in [DisplayRotation::Rotate90, DisplayRotation::Rotate270] {
        let properties = DisplayProperties::new((), DisplaySize::Display128x160, rotation);
        assert_eq!(properties.get_dimensions(), (160, 128));
        let (width, height) = properties.get_size().dimensions();
        assert_eq!(properties.get_dimensions(), (height, width));
    }
}

#[test]
fn dimensions_follow_a_later_rotation() {
    let mut properties = DisplayProperties::new((), DisplaySize::Display64x160, DisplayRotation::Rotate0);
    assert_eq!(properties.get_dimensions(), (64, 160));
    let _ = properties.set_rotation(DisplayRotation::Rotate270);
    assert_eq!(properties.get_dimensions(), (160, 64));
    assert_eq!(properties.get_size(), DisplaySize::Display64x160);
}

#[test]
fn new_keeps_what_it_is_given() {
    let properties = DisplayProperties::new(7u32, DisplaySize::Display160x160, DisplayRotation::Rotate180);
    assert_eq!(properties.get_size(), DisplaySize::Display160x160);
    assert_eq!(properties.get_rotation(), DisplayRotation::Rotate180);
    assert_eq!(properties.get_draw_area(), ((0, 0), (0, 0)));
    assert_eq!(properties.get_cursor(), (0, 0));
    assert_eq!(properties.release(), 7);
}

#[test]
fn interface_is_the_channel_handed_in() {
    let mut properties = DisplayProperties::new(vec![1u8], DisplaySize::Display128x160, DisplayRotation::Rotate0);
    properties.interface().push(2);
    let transfer = properties.set_rotation(DisplayRotation::Rotate90);
    commands_sent(&mut properties, transfer);
    properties.interface().push(3);
    assert_eq!(properties.release(), vec![1, 2, 3]);
}

#[test]
fn init_column_mode_commands_in_order() {
    let mut properties = DisplayProperties::new((), DisplaySize::Display128x160, DisplayRotation::Rotate0);
    let transfer = properties.init_column_mode();
    assert_eq!(
        commands_sent(&mut properties, transfer),
        [
            Command::DisplayClockDiv(0x6, 0x0),
            Command::DisplayResolution(DisplaySize::Display128x160),
            Command::SegmentRemap(false),
            Command::SetCommonScanDir(false),
            Command::PreChargePeriod(0x8, 0x2),
            Command::DisplayOn(true),
        ]
    );
}

#[test]
fn init_column_mode_applies_the_configured_rotation() {
    let mut properties = DisplayProperties::new((), DisplaySize::Display64x160, DisplayRotation::Rotate90);
    let transfer = properties.init_column_mode();
    let commands = commands_sent(&mut properties, transfer);
    assert_eq!(commands.len(), 6);
    assert_eq!(commands[1], Command::DisplayResolution(DisplaySize::Display64x160));
    assert_eq!(commands[2], Command::SegmentRemap(false));
    assert_eq!(commands[3], Command::SetCommonScanDir(true));
    assert_eq!(properties.get_rotation(), DisplayRotation::Rotate90);
}

#[test]
fn display_on_and_off() {
    let mut properties = DisplayProperties::new((), DisplaySize::Display128x160, DisplayRotation::Rotate0);
    let on = properties.display_on(true);
    assert_eq!(commands_sent(&mut properties, on), [Command::DisplayOn(true)]);
    let off = properties.display_on(false);
    assert_eq!(commands_sent(&mut properties, off), [Command::DisplayOn(false)]);
}

#[test]
fn contrast_is_passed_through() {
    let mut properties = DisplayProperties::new((), DisplaySize::Display128x160, DisplayRotation::Rotate0);
    for contrast in [0, 0x7f, 0xff] {
        let transfer = properties.set_contrast(contrast);
        assert_eq!(commands_sent(&mut properties, transfer), [Command::Contrast(contrast)]);
    }
}

#[test]
fn init_column_mode_stops_at_the_rejected_command() {
    let mut properties = DisplayProperties::new((), DisplaySize::Display128x160, DisplayRotation::Rotate180);
    let mut transfer = properties.init_column_mode();
    let first = properties.resume(&mut transfer, Ok(())).unwrap();
    assert_eq!(first, Some(Write::Command(Command::DisplayClockDiv(0x6, 0x0))));
    let second = properties.resume(&mut transfer, Ok(())).unwrap();
    assert_eq!(second, Some(Write::Command(Command::DisplayResolution(DisplaySize::Display128x160))));
    let third = properties.resume(&mut transfer, Err(DisplayError::BusWriteError));
    assert!(matches!(third, Err(DisplayError::BusWriteError)));
    assert_eq!(properties.get_rotation(), DisplayRotation::Rotate180);
    assert_eq!(properties.get_size(), DisplaySize::Display128x160);
}

#[test]
fn set_rotation_keeps_the_rotation_when_its_commands_are_rejected() {
    let mut properties = DisplayProperties::new((), DisplaySize::Display128x160, DisplayRotation::Rotate0);
    let mut transfer = properties.set_rotation(DisplayRotation::Rotate90);
    let first = properties.resume(&mut transfer, Ok(())).unwrap();
    assert_eq!(first, Some(Write::Command(Command::SegmentRemap(false))));
    let second = properties.resume(&mut transfer, Err(DisplayError::DCError));
    assert!(matches!(second, Err(DisplayError::DCError)));
    assert_eq!(properties.get_rotation(), DisplayRotation::Rotate90);
    assert_eq!(properties.get_dimensions(), (160, 128));
}
