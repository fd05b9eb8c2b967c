//! The command model: the three families of commands and the exact text
//! that each command is sent as.
//!
//! Encoding is total. The numeric ranges and the flip directions that the
//! protocol declares are not enforced by the encoder: a value outside of them
//! is written to the wire as it is, and the peer decides what to do with it.
//! The declared limits are available as predicates (`within_limits`) for a
//! caller that wants to reject such a command before sending it.

use vstd::prelude::*;
use vstd::string::StringExecFns;
use vstd::utf8::is_ascii_chars;
use crate::decimal::{
    decimal, signed_decimal, push_decimal, push_signed_decimal, lemma_decimal_is_numeral,
};
use crate::text::{chars_of, contains_char, is_whitespace};

verus! {

/// The outcome of a transmitted command: success, or failure with a message
/// that describes it.
#[derive(Debug, Clone)]
pub enum CommandResponse {
    Success,
    Error(String),
}

/// Commands that move the vehicle or switch one of its modes.
#[derive(Debug, Clone, Copy)]
pub enum ControlCommand {
    /// Enter control mode.
    Command,
    Takeoff,
    Land,
    /// Enable the video stream.
    StreamOn,
    /// Disable the video stream.
    StreamOff,
    /// Stop all motors at once.
    Emergency,
    /// Distance in centimetres; declared range 20 to 500.
    Up(u32),
    Down(u32),
    Left(u32),
    Right(u32),
    Forward(u32),
    Back(u32),
    /// Angle in degrees; declared range 1 to 3600.
    RotateClockwise(u32),
    RotateCounterClockwise(u32),
    /// Direction code: `l`, `r`, `f` or `b`.
    Flip(char),
    /// Target coordinates `x`, `y`, `z` and speed.
    Go(u32, u32, u32, u32),
    /// Two waypoints `x1 y1 z1` and `x2 y2 z2`, and speed.
    Curve(u32, u32, u32, u32, u32, u32, u32),
}

/// Commands that change a setting of the vehicle.
#[derive(Debug, Clone)]
pub enum SetCommand {
    /// Speed; declared range 10 to 100.
    Speed(u32),
    /// The four remote-control axes.
    RC(i32, i32, i32, i32),
    /// Network name and password. Neither is escaped, so a space inside one
    /// of them makes the text ambiguous.
    Wifi(String, String),
}

/// Queries for one telemetry value.
#[derive(Debug, Clone, Copy)]
pub enum ReadCommand {
    Speed,
    Time,
    Battery,
    Height,
    Temp,
    Attitude,
    Barometer,
    Acceleration,
    TOF,
    Wifi,
}

/// `head`, one space, and the decimal numeral of `n`.
pub open spec fn with_arg(head: Seq<char>, n: nat) -> Seq<char> {
    head.push(' ') + decimal(n)
}

/// `head`, one space, and the decimal numeral of the signed integer `n`.
pub open spec fn with_signed_arg(head: Seq<char>, n: int) -> Seq<char> {
    head.push(' ') + signed_decimal(n)
}

/// `head`, one space, and the characters of `word` as they are.
pub open spec fn with_word(head: Seq<char>, word: Seq<char>) -> Seq<char> {
    head.push(' ') + word
}

/// A distance is within the declared range of 20 to 500 centimetres.
pub open spec fn distance_in_range(distance: u32) -> bool {
    20 <= distance <= 500
}

/// An angle is within the declared range of 1 to 3600 degrees.
pub open spec fn angle_in_range(degrees: u32) -> bool {
    1 <= degrees <= 3600
}

/// A speed setting is within the declared range of 10 to 100.
pub open spec fn speed_in_range(speed: u32) -> bool {
    10 <= speed <= 100
}

/// The character is one of the four direction codes of a flip.
pub open spec fn is_flip_direction(c: char) -> bool {
    c == 'l' || c == 'r' || c == 'f' || c == 'b'
}

fn push_arg(buf: &mut String, n: u32)
    ensures
        final(buf)@ == with_arg(old(buf)@, n as nat),
{
    buf.push(' ');
    push_decimal(buf, n);
}

fn push_signed_arg(buf: &mut String, n: i32)
    ensures
        final(buf)@ == with_signed_arg(old(buf)@, n as int),
{
    buf.push(' ');
    push_signed_decimal(buf, n);
}

fn push_word(buf: &mut String, word: &str)
    ensures
        final(buf)@ == with_word(old(buf)@, word@),
{
    buf.push(' ');
    buf.append(word);
}

fn verb_with_arg(verb: &str, n: u32) -> (text: String)
    ensures
        text@ == with_arg(verb@, n as nat),
{
    let mut text = String::from_str(verb);
    push_arg(&mut text, n);
    text
}

impl ControlCommand {
    /// The text that the command is sent as.
    pub open spec fn wire_text(&self) -> Seq<char> {
        match *self {
            ControlCommand::Command => "command"@,
            ControlCommand::Takeoff => "takeoff"@,
            ControlCommand::Land => "land"@,
            ControlCommand::StreamOn => "streamon"@,
            ControlCommand::StreamOff => "streamoff"@,
            ControlCommand::Emergency => "emergency"@,
            ControlCommand::Up(distance) => with_arg("up"@, distance as nat),
            ControlCommand::Down(distance) => with_arg("down"@, distance as nat),
            ControlCommand::Left(distance) => with_arg("left"@, distance as nat),
            ControlCommand::Right(distance) => with_arg("right"@, distance as nat),
            ControlCommand::Forward(distance) => with_arg("forward"@, distance as nat),
            ControlCommand::Back(distance) => with_arg("back"@, distance as nat),
            ControlCommand::RotateClockwise(degrees) => with_arg("cw"@, degrees as nat),
            ControlCommand::RotateCounterClockwise(degrees) => with_arg("ccw"@, degrees as nat),
            ControlCommand::Flip(direction) => "flip"@.push(' ').push(direction),
            ControlCommand::Go(x, y, z, speed) => with_arg(
                with_arg(with_arg(with_arg("go"@, x as nat), y as nat), z as nat),
                speed as nat,
            ),
            ControlCommand::Curve(x1, y1, z1, x2, y2, z2, speed) => with_arg(
                with_arg(
                    with_arg(
                        with_arg(
                            with_arg(with_arg(with_arg("curve"@, x1 as nat), y1 as nat), z1 as nat),
                            x2 as nat,
                        ),
                        y2 as nat,
                    ),
                    z2 as nat,
                ),
                speed as nat,
            ),
        }
    }

    /// Every value that the command carries lies within what the protocol
    /// declares for it: distances, angles and the flip direction. The
    /// protocol declares nothing for the arguments of `Go` and `Curve`.
    pub open spec fn spec_within_limits(&self) -> bool {
        match *self {
            ControlCommand::Up(distance)
            | ControlCommand::Down(distance)
            | ControlCommand::Left(distance)
            | ControlCommand::Right(distance)
            | ControlCommand::Forward(distance)
            | ControlCommand::Back(distance) => distance_in_range(distance),
            ControlCommand::RotateClockwise(degrees)
            | ControlCommand::RotateCounterClockwise(degrees) => angle_in_range(degrees),
            ControlCommand::Flip(direction) => is_flip_direction(direction),
            _ => true,
        }
    }

    /// Encodes the command as its wire text. Values outside the declared
    /// limits are written as they are.
    pub fn encode(&self) -> (text: String)
        ensures
            text@ == self.wire_text(),
    {
        match *self {
            ControlCommand::Command => String::from_str("command"),
            ControlCommand::Takeoff => String::from_str("takeoff"),
            ControlCommand::Land => String::from_str("land"),
            ControlCommand::StreamOn => String::from_str("streamon"),
            ControlCommand::StreamOff => String::from_str("streamoff"),
            ControlCommand::Emergency => String::from_str("emergency"),
            ControlCommand::Up(distance) => verb_with_arg("up", distance),
            ControlCommand::Down(distance) => verb_with_arg("down", distance),
            ControlCommand::Left(distance) => verb_with_arg("left", distance),
            ControlCommand::Right(distance) => verb_with_arg("right", distance),
            ControlCommand::Forward(distance) => verb_with_arg("forward", distance),
            ControlCommand::Back(distance) => verb_with_arg("back", distance),
            ControlCommand::RotateClockwise(degrees) => verb_with_arg("cw", degrees),
            ControlCommand::RotateCounterClockwise(degrees) => verb_with_arg("ccw", degrees),
            ControlCommand::Flip(direction) => {
                let mut text = String::from_str("flip");
                text.push(' ');
                text.push(direction);
                text
            },
            ControlCommand::Go(x, y, z, speed) => {
                let mut text = verb_with_arg("go", x);
                push_arg(&mut text, y);
                push_arg(&mut text, z);
                push_arg(&mut text, speed);
                text
            },
            ControlCommand::Curve(x1, y1, z1, x2, y2, z2, speed) => {
                let mut text = verb_with_arg("curve", x1);
                push_arg(&mut text, y1);
                push_arg(&mut text, z1);
                push_arg(&mut text, x2);
                push_arg(&mut text, y2);
                push_arg(&mut text, z2);
                push_arg(&mut text, speed);
                text
            },
        }
    }

    /// Tells whether every value of the command lies within the declared
    /// limits.
    pub fn within_limits(&self) -> (ok: bool)
        ensures
            ok == self.spec_within_limits(),
    {
        match *self {
            ControlCommand::Up(distance)
            | ControlCommand::Down(distance)
            | ControlCommand::Left(distance)
            | ControlCommand::Right(distance)
            | ControlCommand::Forward(distance)
            | ControlCommand::Back(distance) => 20 <= distance && distance <= 500,
            ControlCommand::RotateClockwise(degrees)
            | ControlCommand::RotateCounterClockwise(degrees) => 1 <= degrees && degrees <= 3600,
            ControlCommand::Flip(direction) => direction == 'l' || direction == 'r' || direction
                == 'f' || direction == 'b',
            _ => true,
        }
    }
}

impl SetCommand {
    /// The text that the command is sent as.
    pub open spec fn wire_text(&self) -> Seq<char> {
        match *self {
            SetCommand::Speed(speed) => with_arg("speed"@, speed as nat),
            SetCommand::RC(a, b, c, d) => with_signed_arg(
                with_signed_arg(
                    with_signed_arg(with_signed_arg("rc"@, a as int), b as int),
                    c as int,
                ),
                d as int,
            ),
            SetCommand::Wifi(ssid, password) => with_word(with_word("wifi"@, ssid@), password@),
        }
    }

    /// The speed lies within the declared range, and neither the network name
    /// nor the password holds a space. The protocol declares nothing for the
    /// remote-control axes.
    pub open spec fn spec_within_limits(&self) -> bool {
        match *self {
            SetCommand::Speed(speed) => speed_in_range(speed),
            SetCommand::RC(_, _, _, _) => true,
            SetCommand::Wifi(ssid, password) => !ssid@.contains(' ') && !password@.contains(' '),
        }
    }

    /// Encodes the command as its wire text. Values outside the declared
    /// limits are written as they are.
    pub fn encode(&self) -> (text: String)
        ensures
            text@ == self.wire_text(),
    {
        match self {
            SetCommand::Speed(speed) => verb_with_arg("speed", *speed),
            SetCommand::RC(a, b, c, d) => {
                let mut text = String::from_str("rc");
                push_signed_arg(&mut text, *a);
                push_signed_arg(&mut text, *b);
                push_signed_arg(&mut text, *c);
                push_signed_arg(&mut text, *d);
                text
            },
            SetCommand::Wifi(ssid, password) => {
                let mut text = String::from_str("wifi");
                push_word(&mut text, ssid.as_str());
                push_word(&mut text, password.as_str());
                text
            },
        }
    }

    /// Tells whether the command lies within the declared limits.
    pub fn within_limits(&self) -> (ok: bool)
        ensures
            ok == self.spec_within_limits(),
    {
        match self {
            SetCommand::Speed(speed) => 10 <= *speed && *speed <= 100,
            SetCommand::RC(_, _, _, _) => true,
            SetCommand::Wifi(ssid, password) => {
                let ssid_chars = chars_of(ssid.as_str());
                let password_chars = chars_of(password.as_str());
                !contains_char(&ssid_chars, ' ') && !contains_char(&password_chars, ' ')
            },
        }
    }
}

impl ReadCommand {
    /// The text that the query is sent as.
    pub open spec fn wire_text(&self) -> Seq<char> {
        match *self {
            ReadCommand::Speed => "speed?"@,
            ReadCommand::Time => "time?"@,
            ReadCommand::Battery => "battery?"@,
            ReadCommand::Height => "height?"@,
            ReadCommand::Temp => "temp?"@,
            ReadCommand::Attitude => "attitude?"@,
            ReadCommand::Barometer => "baro?"@,
            ReadCommand::Acceleration => "acceleration?"@,
            ReadCommand::TOF => "tof?"@,
            ReadCommand::Wifi => "wifi?"@,
        }
    }

    /// Encodes the query as its wire text.
    pub fn encode(&self) -> (text: String)
        ensures
            text@ == self.wire_text(),
    {
        match *self {
            ReadCommand::Speed => String::from_str("speed?"),
            ReadCommand::Time => String::from_str("time?"),
            ReadCommand::Battery => String::from_str("battery?"),
            ReadCommand::Height => String::from_str("height?"),
            ReadCommand::Temp => String::from_str("temp?"),
            ReadCommand::Attitude => String::from_str("attitude?"),
            ReadCommand::Barometer => String::from_str("baro?"),
            ReadCommand::Acceleration => String::from_str("acceleration?"),
            ReadCommand::TOF => String::from_str("tof?"),
            ReadCommand::Wifi => String::from_str("wifi?"),
        }
    }
}

/// The text is what a datagram of the command channel may hold: it is not
/// empty, every character is ASCII, and neither its first nor its last
/// character is whitespace.
pub open spec fn is_clean_text(text: Seq<char>) -> bool {
    &&& text.len() > 0
    &&& is_ascii_chars(text)
    &&& !is_whitespace(text.first())
    &&& !is_whitespace(text.last())
}

/// Encoding is a function of the command alone: equal commands have the same
/// wire text, so encoding one value twice gives the same text twice.
pub proof fn lemma_control_text_is_determined(a: ControlCommand, b: ControlCommand)
    requires
        a == b,
    ensures
        a.wire_text() == b.wire_text(),
{
}

/// Equal setting commands have the same wire text.
pub proof fn lemma_set_text_is_determined(a: SetCommand, b: SetCommand)
    requires
        a == b,
    ensures
        a.wire_text() == b.wire_text(),
{
}

/// Equal queries have the same wire text.
pub proof fn lemma_read_text_is_determined(a: ReadCommand, b: ReadCommand)
    requires
        a == b,
    ensures
        a.wire_text() == b.wire_text(),
{
}

proof fn lemma_with_arg_is_clean(head: Seq<char>, n: nat)
    requires
        is_clean_text(head),
    ensures
        is_clean_text(with_arg(head, n)),
{
    lemma_decimal_is_numeral(n);
    let text = with_arg(head, n);
    assert(text.first() == head.first());
    assert(text.last() == decimal(n).last());
    assert forall|i: int| 0 <= i < text.len() implies '\0' <= #[trigger] text[i] <= '\u{7f}' by {
        if i < head.len() {
            assert(text[i] == head[i]);
        } else if i > head.len() {
            assert(text[i] == decimal(n)[i - head.len() - 1]);
        }
    }
}

proof fn lemma_with_signed_arg_is_clean(head: Seq<char>, n: int)
    requires
        is_clean_text(head),
    ensures
        is_clean_text(with_signed_arg(head, n)),
{
    let magnitude = if n < 0 {
        (-n) as nat
    } else {
        n as nat
    };
    lemma_decimal_is_numeral(magnitude);
    let text = with_signed_arg(head, n);
    let numeral = signed_decimal(n);
    assert(text.first() == head.first());
    assert(numeral.last() == decimal(magnitude).last());
    assert(text.last() == numeral.last());
    assert forall|i: int| 0 <= i < numeral.len() implies '\0' <= #[trigger] numeral[i]
        <= '\u{7f}' by {
        if n < 0 && i > 0 {
            assert(numeral[i] == decimal(magnitude)[i - 1]);
        }
    }
    assert forall|i: int| 0 <= i < text.len() implies '\0' <= #[trigger] text[i] <= '\u{7f}' by {
        if i < head.len() {
            assert(text[i] == head[i]);
        } else if i > head.len() {
            assert(text[i] == numeral[i - head.len() - 1]);
        }
    }
}

/// The wire text of a control command is clean ASCII text. A flip is the one
/// command that writes a character of the caller's: its text is clean when
/// the direction is one of the four codes.
pub proof fn lemma_control_text_is_clean(command: ControlCommand)
    requires
        command matches ControlCommand::Flip(direction) ==> is_flip_direction(direction),
    ensures
        is_clean_text(command.wire_text()),
{
    reveal_strlit("command");
    reveal_strlit("takeoff");
    reveal_strlit("land");
    reveal_strlit("streamon");
    reveal_strlit("streamoff");
    reveal_strlit("emergency");
    reveal_strlit("up");
    reveal_strlit("down");
    reveal_strlit("left");
    reveal_strlit("right");
    reveal_strlit("forward");
    reveal_strlit("back");
    reveal_strlit("cw");
    reveal_strlit("ccw");
    reveal_strlit("flip");
    reveal_strlit("go");
    reveal_strlit("curve");
    match command {
        ControlCommand::Up(n) => lemma_with_arg_is_clean("up"@, n as nat),
        ControlCommand::Down(n) => lemma_with_arg_is_clean("down"@, n as nat),
        ControlCommand::Left(n) => lemma_with_arg_is_clean("left"@, n as nat),
        ControlCommand::Right(n) => lemma_with_arg_is_clean("right"@, n as nat),
        ControlCommand::Forward(n) => lemma_with_arg_is_clean("forward"@, n as nat),
        ControlCommand::Back(n) => lemma_with_arg_is_clean("back"@, n as nat),
        ControlCommand::RotateClockwise(n) => lemma_with_arg_is_clean("cw"@, n as nat),
        ControlCommand::RotateCounterClockwise(n) => lemma_with_arg_is_clean("ccw"@, n as nat),
        ControlCommand::Go(x, y, z, speed) => {
            let t1 = with_arg("go"@, x as nat);
            let t2 = with_arg(t1, y as nat);
            let t3 = with_arg(t2, z as nat);
            lemma_with_arg_is_clean("go"@, x as nat);
            lemma_with_arg_is_clean(t1, y as nat);
            lemma_with_arg_is_clean(t2, z as nat);
            lemma_with_arg_is_clean(t3, speed as nat);
        },
        ControlCommand::Curve(x1, y1, z1, x2, y2, z2, speed) => {
            let t1 = with_arg("curve"@, x1 as nat);
            let t2 = with_arg(t1, y1 as nat);
            let t3 = with_arg(t2, z1 as nat);
            let t4 = with_arg(t3, x2 as nat);
            let t5 = with_arg(t4, y2 as nat);
            let t6 = with_arg(t5, z2 as nat);
            lemma_with_arg_is_clean("curve"@, x1 as nat);
            lemma_with_arg_is_clean(t1, y1 as nat);
            lemma_with_arg_is_clean(t2, z1 as nat);
            lemma_with_arg_is_clean(t3, x2 as nat);
            lemma_with_arg_is_clean(t4, y2 as nat);
            lemma_with_arg_is_clean(t5, z2 as nat);
            lemma_with_arg_is_clean(t6, speed as nat);
        },
        _ => {},
    }
}

/// The wire text of a speed or remote-control setting is clean ASCII text.
/// The wifi setting writes the caller's two texts as they are, so nothing of
/// the kind holds of it.
pub proof fn lemma_set_text_is_clean(command: SetCommand)
    requires
        !(command is Wifi),
    ensures
        is_clean_text(command.wire_text()),
{
    reveal_strlit("speed");
    reveal_strlit("rc");
    match command {
        SetCommand::Speed(speed) => lemma_with_arg_is_clean("speed"@, speed as nat),
        SetCommand::RC(a, b, c, d) => {
            let t1 = with_signed_arg("rc"@, a as int);
            let t2 = with_signed_arg(t1, b as int);
            let t3 = with_signed_arg(t2, c as int);
            lemma_with_signed_arg_is_clean("rc"@, a as int);
            lemma_with_signed_arg_is_clean(t1, b as int);
            lemma_with_signed_arg_is_clean(t2, c as int);
            lemma_with_signed_arg_is_clean(t3, d as int);
        },
        SetCommand::Wifi(_, _) => {},
    }
}

/// The wire text of a query is clean ASCII text that ends in `?`.
pub proof fn lemma_read_text_is_clean(command: ReadCommand)
    ensures
        is_clean_text(command.wire_text()),
        command.wire_text().last() == '?',
{
    reveal_strlit("speed?");
    reveal_strlit("time?");
    reveal_strlit("battery?");
    reveal_strlit("height?");
    reveal_strlit("temp?");
    reveal_strlit("attitude?");
    reveal_strlit("baro?");
    reveal_strlit("acceleration?");
    reveal_strlit("tof?");
    reveal_strlit("wifi?");
}

} // verus!
