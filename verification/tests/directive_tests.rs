use vumeter::directive::{parse_directive, DirectiveError};
use vumeter::pacing::pacing_interval_ms;
use vumeter::color::color_components;

#[test]
fn parses_a_plain_directive() {
    let d = parse_directive(&b"1:system:capture_1".to_vec(), 2).unwrap();
    assert_eq!(d.channel, 1);
    assert_eq!(d.port, b"system:capture_1".to_vec());
    assert!(!d.optional);
}

#[test]
fn parses_an_optional_directive() {
    let d = parse_directive(&b"2:out?".to_vec(), 2).unwrap();
    assert_eq!(d.channel, 2);
    assert_eq!(d.port, b"out".to_vec());
    assert!(d.optional);
}

#[test]
fn only_the_last_marker_is_stripped() {
    let d = parse_directive(&b"1:a??".to_vec(), 4).unwrap();
    assert_eq!(d.port, b"a?".to_vec());
    assert!(d.optional);
}

#[test]
fn empty_port_name_still_parses() {
    let d = parse_directive(&b"1:".to_vec(), 1).unwrap();
    assert_eq!(d.channel, 1);
    assert_eq!(d.port, Vec::<u8>::new());
}

#[test]
fn rejects_an_empty_argument() {
    assert_eq!(
        parse_directive(&Vec::new(), 2),
        Err(DirectiveError::MalformedChannelNumber)
    );
    assert_eq!(
        parse_directive(&b"?".to_vec(), 2),
        Err(DirectiveError::MalformedChannelNumber)
    );
}

#[test]
fn rejects_a_non_numeric_channel() {
    assert_eq!(
        parse_directive(&b"x:port".to_vec(), 2),
        Err(DirectiveError::MalformedChannelNumber)
    );
    assert_eq!(
        parse_directive(&b"1a:port".to_vec(), 2),
        Err(DirectiveError::MalformedChannelNumber)
    );
}

#[test]
fn rejects_an_overflowing_channel_number() {
    assert_eq!(
        parse_directive(&b"99999999999999999999999:port".to_vec(), 2),
        Err(DirectiveError::MalformedChannelNumber)
    );
}

#[test]
fn rejects_a_directive_without_a_port() {
    assert_eq!(
        parse_directive(&b"12".to_vec(), 20),
        Err(DirectiveError::MissingPort)
    );
}

#[test]
fn rejects_channel_numbers_out_of_range() {
    assert_eq!(
        parse_directive(&b"0:p".to_vec(), 2),
        Err(DirectiveError::ChannelOutOfRange)
    );
    assert_eq!(
        parse_directive(&b"3:p".to_vec(), 2),
        Err(DirectiveError::ChannelOutOfRange)
    );
    assert!(parse_directive(&b"2:p".to_vec(), 2).is_ok());
}

#[test]
fn malformed_number_wins_over_missing_port() {
    // The channel number is judged before the separator, as the original
    // argument surface does.
    assert_eq!(
        parse_directive(&b"abc".to_vec(), 2),
        Err(DirectiveError::MalformedChannelNumber)
    );
}

#[test]
fn pacing_never_goes_below_the_floor() {
    // 1024 frames at 48 kHz is ~21 ms per cycle: floored to 50 ms.
    assert_eq!(pacing_interval_ms(1024, 48000), 50);
    assert_eq!(pacing_interval_ms(0, 44100), 50);
}

#[test]
fn pacing_follows_the_audio_cycle_when_it_is_slow() {
    // 4800 frames at 48 kHz is exactly 100 ms.
    assert_eq!(pacing_interval_ms(4800, 48000), 100);
    assert_eq!(pacing_interval_ms(96000, 48000), 2000);
}

#[test]
fn color_components_scale_to_sixteen_bits() {
    assert_eq!(color_components(0x000000), (0, 0, 0));
    assert_eq!(color_components(0xFFFFFF), (0xFFFF, 0xFFFF, 0xFFFF));
    assert_eq!(color_components(0xFF8000), (0xFFFF, 0x8080, 0));
    assert_eq!(color_components(0x5DE73D), (0x5D5D, 0xE7E7, 0x3D3D));
}
