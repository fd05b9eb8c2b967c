use tello_sdk::telemetry::{parse, parse_text, TelemetryReading};

fn text_of(value: Option<&String>) -> Option<&str> {
    value.map(|s| s.as_str())
}

#[test]
fn frame_with_six_fields_is_decoded() {
    let reading = parse(b"pitch:0;roll:1;yaw:2;vgx:3;templ:20;bat:88;");
    assert_eq!(text_of(reading.pitch()), Some("0"));
    assert_eq!(text_of(reading.roll()), Some("1"));
    assert_eq!(text_of(reading.yaw()), Some("2"));
    assert_eq!(text_of(reading.vgx()), Some("3"));
    assert_eq!(text_of(reading.templ()), Some("20"));
    assert_eq!(text_of(reading.battery()), Some("88"));
    assert_eq!(reading.vgy(), None);
    assert_eq!(reading.vgz(), None);
    assert_eq!(reading.temph(), None);
    assert_eq!(reading.tof(), None);
    assert_eq!(reading.height(), None);
    assert_eq!(reading.baro(), None);
    assert_eq!(reading.time(), None);
    assert_eq!(reading.agx(), None);
    assert_eq!(reading.agy(), None);
    assert_eq!(reading.agz(), None);
    assert_eq!(reading.len(), 6);
    assert!(!reading.is_empty());
}

#[test]
fn partial_frame_keeps_what_it_holds() {
    let reading = parse(b"pitch:5;;bat:");
    assert_eq!(text_of(reading.pitch()), Some("5"));
    assert_eq!(text_of(reading.battery()), Some(""));
    assert_eq!(reading.roll(), None);
    assert_eq!(reading.len(), 2);
}

#[test]
fn full_frame_fills_every_accessor() {
    let frame = b"pitch:-1;roll:2;yaw:-3;vgx:4;vgy:5;vgz:6;templ:60;temph:62;tof:10;h:20;bat:97;baro:172.50;time:12;agx:-7.00;agy:8.00;agz:-999.00;\r\n";
    let reading = parse(frame);
    assert_eq!(text_of(reading.pitch()), Some("-1"));
    assert_eq!(text_of(reading.roll()), Some("2"));
    assert_eq!(text_of(reading.yaw()), Some("-3"));
    assert_eq!(text_of(reading.vgx()), Some("4"));
    assert_eq!(text_of(reading.vgy()), Some("5"));
    assert_eq!(text_of(reading.vgz()), Some("6"));
    assert_eq!(text_of(reading.templ()), Some("60"));
    assert_eq!(text_of(reading.temph()), Some("62"));
    assert_eq!(text_of(reading.tof()), Some("10"));
    assert_eq!(text_of(reading.height()), Some("20"));
    assert_eq!(text_of(reading.battery()), Some("97"));
    assert_eq!(text_of(reading.baro()), Some("172.50"));
    assert_eq!(text_of(reading.time()), Some("12"));
    assert_eq!(text_of(reading.agx()), Some("-7.00"));
    assert_eq!(text_of(reading.agy()), Some("8.00"));
    assert_eq!(text_of(reading.agz()), Some("-999.00"));
    assert_eq!(reading.len(), 16);
}

#[test]
fn empty_input_gives_a_reading_without_fields() {
    let reading = parse(b"");
    assert!(reading.is_empty());
    assert_eq!(reading.len(), 0);
    assert_eq!(reading.pitch(), None);
    assert_eq!(reading.get(""), None);
}

#[test]
fn bytes_that_are_not_text_give_a_reading_without_fields() {
    let reading = parse(&[b'p', b'i', b't', b'c', b'h', b':', 0xff, b';']);
    assert!(reading.is_empty());
    assert_eq!(reading.pitch(), None);
    let truncated = parse(&[b'b', b'a', b't', b':', b'1', b';', 0xe2, 0x82]);
    assert!(truncated.is_empty());
    assert_eq!(truncated.battery(), None);
    let surrogate = parse(&[0xed, 0xa0, 0x80]);
    assert!(surrogate.is_empty());
}

#[test]
fn text_beyond_ascii_is_kept() {
    let reading = parse("nom:é;温度:高;".as_bytes());
    assert_eq!(text_of(reading.get("nom")), Some("é"));
    assert_eq!(text_of(reading.get("温度")), Some("高"));
    assert_eq!(reading.len(), 2);
}

#[test]
fn segments_without_a_colon_are_passed_over() {
    let reading = parse(b"pitch;roll:4;yaw");
    assert_eq!(reading.pitch(), None);
    assert_eq!(text_of(reading.roll()), Some("4"));
    assert_eq!(reading.yaw(), None);
    assert_eq!(reading.len(), 1);
    let none = parse(b"no separators at all");
    assert!(none.is_empty());
    let only = parse(b";;;");
    assert!(only.is_empty());
}

#[test]
fn frame_without_semicolons_is_one_segment() {
    let reading = parse(b"bat:42");
    assert_eq!(text_of(reading.battery()), Some("42"));
    assert_eq!(reading.len(), 1);
}

#[test]
fn last_occurrence_of_a_key_wins() {
    let reading = parse(b"bat:1;pitch:9;bat:2;bat:3;");
    assert_eq!(text_of(reading.battery()), Some("3"));
    assert_eq!(text_of(reading.pitch()), Some("9"));
    assert_eq!(reading.len(), 2);
}

#[test]
fn value_runs_from_the_first_colon_to_the_end_of_the_segment() {
    let reading = parse(b"time:12:30:05;bat:7");
    assert_eq!(text_of(reading.time()), Some("12:30:05"));
    assert_eq!(text_of(reading.battery()), Some("7"));
    let colon_first = parse(b":5;");
    assert_eq!(text_of(colon_first.get("")), Some("5"));
    assert_eq!(colon_first.len(), 1);
}

#[test]
fn whitespace_is_trimmed_at_both_ends_only() {
    let reading = parse(b" \t\r\n pitch:1; roll :2 ;yaw: 3\r\n");
    assert_eq!(text_of(reading.pitch()), Some("1"));
    assert_eq!(reading.roll(), None);
    assert_eq!(text_of(reading.get(" roll ")), Some("2 "));
    assert_eq!(text_of(reading.yaw()), Some(" 3"));
    let wide = parse("\u{3000}\u{a0}bat:5\u{2028}\u{85}".as_bytes());
    assert_eq!(text_of(wide.battery()), Some("5"));
    let blank = parse(b" \n\t ");
    assert!(blank.is_empty());
    let zero_width = parse("\u{200b}bat:5".as_bytes());
    assert_eq!(zero_width.battery(), None);
    assert_eq!(text_of(zero_width.get("\u{200b}bat")), Some("5"));
}

#[test]
fn keys_are_matched_exactly() {
    let reading = parse(b"Pitch:1;BAT:2;h:3;height:4");
    assert_eq!(reading.pitch(), None);
    assert_eq!(reading.battery(), None);
    assert_eq!(text_of(reading.height()), Some("3"));
    assert_eq!(text_of(reading.get("Pitch")), Some("1"));
    assert_eq!(text_of(reading.get("BAT")), Some("2"));
    assert_eq!(text_of(reading.get("height")), Some("4"));
}

#[test]
fn unknown_keys_are_retained() {
    let reading = parse(b"mid:-1;x:0;y:0;z:0;mpry:0,0,0;bat:55;");
    assert_eq!(text_of(reading.get("mid")), Some("-1"));
    assert_eq!(text_of(reading.get("mpry")), Some("0,0,0"));
    assert_eq!(text_of(reading.battery()), Some("55"));
    assert_eq!(reading.get("missing"), None);
    assert_eq!(reading.len(), 6);
}

#[test]
fn text_and_bytes_agree() {
    let frame = "pitch:5;;bat:";
    let from_text = parse_text(frame);
    let from_bytes = parse(frame.as_bytes());
    assert_eq!(from_text.pitch(), from_bytes.pitch());
    assert_eq!(from_text.battery(), from_bytes.battery());
    assert_eq!(from_text.len(), from_bytes.len());
}

#[test]
fn fresh_reading_is_empty() {
    let reading = TelemetryReading::new();
    assert!(reading.is_empty());
    assert_eq!(reading.len(), 0);
    assert_eq!(reading.battery(), None);
}

#[test]
fn every_byte_alone_gives_a_reading() {
    for b in 0..=255u8 {
        let reading = parse(&[b]);
        assert!(reading.len() <= 1);
        assert_eq!(reading.is_empty(), b != b':');
    }
}
