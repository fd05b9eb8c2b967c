use tello_sdk::commands::{ControlCommand, ReadCommand, SetCommand};

#[test]
fn fixed_verbs_encode_to_their_tokens() {
    assert_eq!(ControlCommand::Command.encode(), "command");
    assert_eq!(ControlCommand::Takeoff.encode(), "takeoff");
    assert_eq!(ControlCommand::Land.encode(), "land");
    assert_eq!(ControlCommand::StreamOn.encode(), "streamon");
    assert_eq!(ControlCommand::StreamOff.encode(), "streamoff");
    assert_eq!(ControlCommand::Emergency.encode(), "emergency");
}

#[test]
fn distances_encode_with_their_verb() {
    assert_eq!(ControlCommand::Up(20).encode(), "up 20");
    assert_eq!(ControlCommand::Down(500).encode(), "down 500");
    assert_eq!(ControlCommand::Left(21).encode(), "left 21");
    assert_eq!(ControlCommand::Right(499).encode(), "right 499");
    assert_eq!(ControlCommand::Forward(100).encode(), "forward 100");
    assert_eq!(ControlCommand::Back(250).encode(), "back 250");
}

#[test]
fn rotations_encode_at_both_ends_of_the_range() {
    assert_eq!(ControlCommand::RotateClockwise(1).encode(), "cw 1");
    assert_eq!(ControlCommand::RotateClockwise(3600).encode(), "cw 3600");
    assert_eq!(ControlCommand::RotateCounterClockwise(1).encode(), "ccw 1");
    assert_eq!(ControlCommand::RotateCounterClockwise(3600).encode(), "ccw 3600");
}

#[test]
fn flips_encode_their_direction_code() {
    assert_eq!(ControlCommand::Flip('l').encode(), "flip l");
    assert_eq!(ControlCommand::Flip('r').encode(), "flip r");
    assert_eq!(ControlCommand::Flip('f').encode(), "flip f");
    assert_eq!(ControlCommand::Flip('b').encode(), "flip b");
}

#[test]
fn flip_passes_an_unknown_direction_through() {
    let flip = ControlCommand::Flip('x');
    assert_eq!(flip.encode(), "flip x");
    assert!(!flip.within_limits());
    assert_eq!(ControlCommand::Flip('L').encode(), "flip L");
    assert!(!ControlCommand::Flip('L').within_limits());
    assert_eq!(ControlCommand::Flip('é').encode(), "flip é");
}

#[test]
fn go_encodes_four_numbers() {
    assert_eq!(ControlCommand::Go(10, 20, 30, 40).encode(), "go 10 20 30 40");
    assert_eq!(ControlCommand::Go(0, 0, 0, 0).encode(), "go 0 0 0 0");
}

#[test]
fn curve_encodes_seven_numbers() {
    assert_eq!(
        ControlCommand::Curve(1, 2, 3, 4, 5, 6, 7).encode(),
        "curve 1 2 3 4 5 6 7"
    );
    assert_eq!(
        ControlCommand::Curve(100, 200, 300, 400, 500, 600, 60).encode(),
        "curve 100 200 300 400 500 600 60"
    );
}

#[test]
fn speed_setting_encodes_at_both_ends_of_the_range() {
    assert_eq!(SetCommand::Speed(10).encode(), "speed 10");
    assert_eq!(SetCommand::Speed(100).encode(), "speed 100");
}

#[test]
fn remote_control_axes_carry_a_sign_only_when_negative() {
    assert_eq!(SetCommand::RC(0, 0, 0, 0).encode(), "rc 0 0 0 0");
    assert_eq!(SetCommand::RC(-100, 100, -1, 1).encode(), "rc -100 100 -1 1");
    assert_eq!(
        SetCommand::RC(i32::MIN, i32::MAX, -10, 7).encode(),
        "rc -2147483648 2147483647 -10 7"
    );
}

#[test]
fn wifi_setting_writes_both_texts_unescaped() {
    let wifi = SetCommand::Wifi("hangar".to_string(), "s3cret".to_string());
    assert_eq!(wifi.encode(), "wifi hangar s3cret");
    let spaced = SetCommand::Wifi("my net".to_string(), "pass word".to_string());
    assert_eq!(spaced.encode(), "wifi my net pass word");
    let empty = SetCommand::Wifi(String::new(), String::new());
    assert_eq!(empty.encode(), "wifi  ");
}

#[test]
fn queries_encode_to_their_name_and_a_question_mark() {
    assert_eq!(ReadCommand::Speed.encode(), "speed?");
    assert_eq!(ReadCommand::Time.encode(), "time?");
    assert_eq!(ReadCommand::Battery.encode(), "battery?");
    assert_eq!(ReadCommand::Height.encode(), "height?");
    assert_eq!(ReadCommand::Temp.encode(), "temp?");
    assert_eq!(ReadCommand::Attitude.encode(), "attitude?");
    assert_eq!(ReadCommand::Barometer.encode(), "baro?");
    assert_eq!(ReadCommand::Acceleration.encode(), "acceleration?");
    assert_eq!(ReadCommand::TOF.encode(), "tof?");
    assert_eq!(ReadCommand::Wifi.encode(), "wifi?");
}

#[test]
fn encoding_twice_gives_the_same_text() {
    let go = ControlCommand::Go(12, 34, 56, 78);
    assert_eq!(go.encode(), go.encode());
    let wifi = SetCommand::Wifi("a".to_string(), "b".to_string());
    assert_eq!(wifi.encode(), wifi.encode());
    assert_eq!(wifi.clone().encode(), wifi.encode());
    let query = ReadCommand::Battery;
    assert_eq!(query.encode(), query.encode());
}

#[test]
fn values_outside_the_limits_are_encoded_as_they_are() {
    assert_eq!(ControlCommand::Up(19).encode(), "up 19");
    assert_eq!(ControlCommand::Up(501).encode(), "up 501");
    assert_eq!(ControlCommand::Up(0).encode(), "up 0");
    assert_eq!(ControlCommand::Back(u32::MAX).encode(), "back 4294967295");
    assert_eq!(ControlCommand::RotateClockwise(0).encode(), "cw 0");
    assert_eq!(ControlCommand::RotateClockwise(3601).encode(), "cw 3601");
    assert_eq!(SetCommand::Speed(9).encode(), "speed 9");
    assert_eq!(SetCommand::Speed(101).encode(), "speed 101");
}

#[test]
fn numbers_have_no_leading_zero_and_no_trailing_space() {
    let text = ControlCommand::Go(7, 70, 700, 7000).encode();
    assert_eq!(text, "go 7 70 700 7000");
    assert!(!text.ends_with(' '));
    assert!(text.is_ascii());
    assert_eq!(ControlCommand::Up(1000).encode(), "up 1000");
    assert_eq!(ControlCommand::Up(1001).encode(), "up 1001");
    assert_eq!(ControlCommand::Up(10).encode(), "up 10");
    assert_eq!(ControlCommand::Up(9).encode(), "up 9");
}

#[test]
fn control_limits_are_the_declared_ranges() {
    assert!(ControlCommand::Up(20).within_limits());
    assert!(ControlCommand::Up(500).within_limits());
    assert!(!ControlCommand::Up(19).within_limits());
    assert!(!ControlCommand::Up(501).within_limits());
    assert!(ControlCommand::Down(20).within_limits());
    assert!(!ControlCommand::Left(0).within_limits());
    assert!(ControlCommand::Right(300).within_limits());
    assert!(!ControlCommand::Forward(u32::MAX).within_limits());
    assert!(ControlCommand::Back(500).within_limits());
    assert!(ControlCommand::RotateClockwise(1).within_limits());
    assert!(ControlCommand::RotateClockwise(3600).within_limits());
    assert!(!ControlCommand::RotateClockwise(0).within_limits());
    assert!(!ControlCommand::RotateCounterClockwise(3601).within_limits());
    assert!(ControlCommand::Flip('l').within_limits());
    assert!(ControlCommand::Flip('r').within_limits());
    assert!(ControlCommand::Flip('f').within_limits());
    assert!(ControlCommand::Flip('b').within_limits());
    assert!(ControlCommand::Takeoff.within_limits());
    assert!(ControlCommand::Go(0, 0, 0, 0).within_limits());
    assert!(ControlCommand::Curve(9, 9, 9, 9, 9, 9, 9).within_limits());
}

#[test]
fn setting_limits_are_the_declared_ranges() {
    assert!(SetCommand::Speed(10).within_limits());
    assert!(SetCommand::Speed(100).within_limits());
    assert!(!SetCommand::Speed(9).within_limits());
    assert!(!SetCommand::Speed(101).within_limits());
    assert!(SetCommand::RC(-1000, 1000, 0, 5).within_limits());
    assert!(SetCommand::Wifi("hangar".to_string(), "s3cret".to_string()).within_limits());
    assert!(!SetCommand::Wifi("my net".to_string(), "s3cret".to_string()).within_limits());
    assert!(!SetCommand::Wifi("hangar".to_string(), "pass word".to_string()).within_limits());
    assert!(SetCommand::Wifi(String::new(), String::new()).within_limits());
}
