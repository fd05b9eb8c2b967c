//! The telemetry frame parser.
//!
//! A frame is one datagram of the form `key1:value1;key2:value2;...;`. It is
//! decoded into a reading that maps each field name to its raw text. Parsing
//! never fails: bytes that are not text give a reading without fields, and a
//! segment that holds no `:` is passed over without touching the others.

use vstd::prelude::*;
use vstd::hash_map::StringHashMap;
use vstd::utf8::{valid_utf8, decode_utf8};
use crate::text::{
    decode_text, chars_of, trim, trim_bounds, split, first_index_of, lemma_first_index_of,
    find_char, string_from_chars,
};

verus! {

/// The name of the field that a segment holds: the text before its first
/// `:`. A segment without `:` holds no field.
pub open spec fn key_of(segment: Seq<char>) -> Seq<char> {
    segment.take(first_index_of(segment, ':'))
}

/// The raw value of the field that a segment holds: the text after its
/// first `:`, up to the end of the segment.
pub open spec fn value_of(segment: Seq<char>) -> Seq<char> {
    segment.skip(first_index_of(segment, ':') + 1)
}

/// The fields that a run of segments holds. A segment holds a field exactly
/// when it holds a `:`; any other segment is passed over. A later segment
/// with the same key replaces the value of an earlier one.
pub open spec fn fields_of(segments: Seq<Seq<char>>) -> Map<Seq<char>, Seq<char>>
    decreases segments.len(),
{
    if segments.len() == 0 {
        Map::empty()
    } else {
        let earlier = fields_of(segments.drop_last());
        let segment = segments.last();
        if segment.contains(':') {
            earlier.insert(key_of(segment), value_of(segment))
        } else {
            earlier
        }
    }
}

/// The segment holds a field, and `key` is its name.
pub open spec fn holds_key(segment: Seq<char>, key: Seq<char>) -> bool {
    segment.contains(':') && key_of(segment) == key
}

/// Duplicate keys: the last occurrence wins. A segment that holds a field
/// whose key no later segment holds decides the value of that key, whatever
/// stands before it and whatever keyless segments stand around it.
pub proof fn lemma_last_occurrence_wins(segments: Seq<Seq<char>>, i: int)
    requires
        0 <= i < segments.len(),
        segments[i].contains(':'),
        forall|j: int| i < j < segments.len() ==> !holds_key(segments[j], key_of(segments[i])),
    ensures
        fields_of(segments).contains_key(key_of(segments[i])),
        fields_of(segments)[key_of(segments[i])] == value_of(segments[i]),
    decreases segments.len(),
{
    if i < segments.len() - 1 {
        let earlier = segments.drop_last();
        assert(!holds_key(segments.last(), key_of(segments[i])));
        assert(earlier[i] == segments[i]);
        assert forall|j: int| i < j < earlier.len() implies !holds_key(
            earlier[j],
            key_of(earlier[i]),
        ) by {
            assert(earlier[j] == segments[j]);
        }
        lemma_last_occurrence_wins(earlier, i);
    }
}

/// A reading holds no key that the frame did not hold: every key of the
/// fields of a run of segments is the key of one of the segments.
pub proof fn lemma_field_has_segment(segments: Seq<Seq<char>>, key: Seq<char>)
    requires
        fields_of(segments).contains_key(key),
    ensures
        exists|i: int| 0 <= i < segments.len() && holds_key(#[trigger] segments[i], key),
    decreases segments.len(),
{
    if segments.len() > 0 {
        if holds_key(segments.last(), key) {
            assert(holds_key(segments[segments.len() - 1], key));
        } else {
            let earlier = segments.drop_last();
            lemma_field_has_segment(earlier, key);
            let i = choose|i: int| 0 <= i < earlier.len() && holds_key(#[trigger] earlier[i], key);
            assert(holds_key(segments[i], key));
        }
    }
}

/// The fields of a frame given as text: the text is trimmed of whitespace at
/// both ends and split at every `;`.
pub open spec fn text_fields(text: Seq<char>) -> Map<Seq<char>, Seq<char>> {
    fields_of(split(trim(text), ';'))
}

/// The fields of a frame given as bytes. Bytes that are not well-formed
/// UTF-8 hold no field.
pub open spec fn frame_fields(raw: Seq<u8>) -> Map<Seq<char>, Seq<char>> {
    if valid_utf8(raw) {
        text_fields(decode_utf8(raw))
    } else {
        Map::empty()
    }
}

/// What a lookup hands out agrees with what the reading holds: the text of
/// the value, or nothing for a field that is unknown.
pub open spec fn reports(value: Option<&String>, field: Option<Seq<char>>) -> bool {
    match value {
        Some(v) => field == Some(v@),
        None => field is None,
    }
}

/// The structured result of one telemetry frame: a mapping from field name
/// to raw value. Values are kept as text; units and number conversion are up
/// to the caller.
pub struct TelemetryReading {
    fields: StringHashMap<String>,
}

impl View for TelemetryReading {
    type V = Map<Seq<char>, Seq<char>>;

    closed spec fn view(&self) -> Map<Seq<char>, Seq<char>> {
        Map::new(|key: Seq<char>| self.fields@.contains_key(key), |key: Seq<char>| self.fields@[key]@)
    }
}

impl TelemetryReading {
    /// The raw value of the field `key`, or `None` when the frame did not
    /// hold it.
    pub open spec fn field(&self, key: Seq<char>) -> Option<Seq<char>> {
        if self@.contains_key(key) {
            Some(self@[key])
        } else {
            None
        }
    }

    /// A reading without fields.
    pub fn new() -> (reading: TelemetryReading)
        ensures
            reading@ == Map::<Seq<char>, Seq<char>>::empty(),
    {
        let reading = TelemetryReading { fields: StringHashMap::new() };
        assert(reading@ =~= Map::<Seq<char>, Seq<char>>::empty());
        reading
    }

    fn insert(&mut self, key: String, value: String)
        ensures
            final(self)@ == old(self)@.insert(key@, value@),
    {
        self.fields.insert(key, value);
        assert(self@ =~= old(self)@.insert(key@, value@));
    }

    /// The raw value of the field named `key`; `None` is the indicator for a
    /// field that the frame did not hold.
    pub fn get(&self, key: &str) -> (value: Option<&String>)
        ensures
            reports(value, self.field(key@)),
    {
        self.fields.get(key)
    }

    /// Pitch in degrees: the field `pitch`.
    pub fn pitch(&self) -> (value: Option<&String>)
        ensures
            reports(value, self.field("pitch"@)),
    {
        self.get("pitch")
    }

    /// Roll in degrees: the field `roll`.
    pub fn roll(&self) -> (value: Option<&String>)
        ensures
            reports(value, self.field("roll"@)),
    {
        self.get("roll")
    }

    /// Yaw in degrees: the field `yaw`.
    pub fn yaw(&self) -> (value: Option<&String>)
        ensures
            reports(value, self.field("yaw"@)),
    {
        self.get("yaw")
    }

    /// Speed along the x axis: the field `vgx`.
    pub fn vgx(&self) -> (value: Option<&String>)
        ensures
            reports(value, self.field("vgx"@)),
    {
        self.get("vgx")
    }

    /// Speed along the y axis: the field `vgy`.
    pub fn vgy(&self) -> (value: Option<&String>)
        ensures
            reports(value, self.field("vgy"@)),
    {
        self.get("vgy")
    }

    /// Speed along the z axis: the field `vgz`.
    pub fn vgz(&self) -> (value: Option<&String>)
        ensures
            reports(value, self.field("vgz"@)),
    {
        self.get("vgz")
    }

    /// Lowest temperature in degrees Celsius: the field `templ`.
    pub fn templ(&self) -> (value: Option<&String>)
        ensures
            reports(value, self.field("templ"@)),
    {
        self.get("templ")
    }

    /// Highest temperature in degrees Celsius: the field `temph`.
    pub fn temph(&self) -> (value: Option<&String>)
        ensures
            reports(value, self.field("temph"@)),
    {
        self.get("temph")
    }

    /// Time-of-flight distance in centimetres: the field `tof`.
    pub fn tof(&self) -> (value: Option<&String>)
        ensures
            reports(value, self.field("tof"@)),
    {
        self.get("tof")
    }

    /// Height in centimetres: the field `h`.
    pub fn height(&self) -> (value: Option<&String>)
        ensures
            reports(value, self.field("h"@)),
    {
        self.get("h")
    }

    /// Battery charge in percent: the field `bat`.
    pub fn battery(&self) -> (value: Option<&String>)
        ensures
            reports(value, self.field("bat"@)),
    {
        self.get("bat")
    }

    /// Barometric altitude: the field `baro`.
    pub fn baro(&self) -> (value: Option<&String>)
        ensures
            reports(value, self.field("baro"@)),
    {
        self.get("baro")
    }

    /// Time for which the motors have been on, in seconds: the field `time`.
    pub fn time(&self) -> (value: Option<&String>)
        ensures
            reports(value, self.field("time"@)),
    {
        self.get("time")
    }

    /// Acceleration along the x axis: the field `agx`.
    pub fn agx(&self) -> (value: Option<&String>)
        ensures
            reports(value, self.field("agx"@)),
    {
        self.get("agx")
    }

    /// Acceleration along the y axis: the field `agy`.
    pub fn agy(&self) -> (value: Option<&String>)
        ensures
            reports(value, self.field("agy"@)),
    {
        self.get("agy")
    }

    /// Acceleration along the z axis: the field `agz`.
    pub fn agz(&self) -> (value: Option<&String>)
        ensures
            reports(value, self.field("agz"@)),
    {
        self.get("agz")
    }

    /// The number of distinct fields.
    pub fn len(&self) -> (n: usize)
        ensures
            n == self@.len(),
    {
        assert(self@.dom() =~= self.fields@.dom());
        self.fields.len()
    }

    /// Tells whether the reading holds no field at all.
    pub fn is_empty(&self) -> (empty: bool)
        ensures
            empty == (self@ == Map::<Seq<char>, Seq<char>>::empty()),
    {
        let empty = self.fields.is_empty();
        proof {
            assert(self@.dom() =~= self.fields@.dom());
            if empty {
                assert(self@ =~= Map::<Seq<char>, Seq<char>>::empty());
            }
        }
        empty
    }
}

/// Decodes a telemetry frame given as text.
pub fn parse_text(text: &str) -> (reading: TelemetryReading)
    ensures
        reading@ == text_fields(text@),
{
    let chars = chars_of(text);
    let (start, end) = trim_bounds(&chars);
    let ghost body = chars@.subrange(start as int, end as int);
    let ghost mut done: Seq<Seq<char>> = Seq::empty();
    let mut reading = TelemetryReading::new();
    let mut from: usize = start;
    loop
        invariant
            start <= from <= end <= chars@.len(),
            body == chars@.subrange(start as int, end as int),
            body == trim(text@),
            split(body, ';') == done + split(chars@.subrange(from as int, end as int), ';'),
            reading@ == fields_of(done),
        decreases end - from,
    {
        let stop = find_char(&chars, from, end, ';');
        let colon = find_char(&chars, from, stop, ':');
        let ghost rest = chars@.subrange(from as int, end as int);
        let ghost segment = chars@.subrange(from as int, stop as int);
        if colon < stop {
            let key = string_from_chars(&chars, from, colon);
            let value = string_from_chars(&chars, colon + 1, stop);
            proof {
                assert(key@ == key_of(segment));
                assert(value@ == value_of(segment));
            }
            reading.insert(key, value);
        }
        proof {
            lemma_first_index_of(segment, ':');
            assert(done.push(segment).drop_last() == done);
            assert(reading@ == fields_of(done.push(segment)));
            assert(segment == rest.take(stop - from));
            if stop < end {
                assert(rest.skip(stop - from + 1) == chars@.subrange(stop as int + 1, end as int));
                assert(done + (seq![segment] + split(rest.skip(stop - from + 1), ';'))
                    == done.push(segment) + split(rest.skip(stop - from + 1), ';'));
            } else {
                assert(segment == rest);
                assert(done + seq![rest] == done.push(segment));
            }
            done = done.push(segment);
        }
        if stop == end {
            return reading;
        }
        from = stop + 1;
    }
}

/// Decodes one telemetry frame. Every byte sequence gives a reading: one
/// that is not text gives the reading without fields.
pub fn parse(raw: &[u8]) -> (reading: TelemetryReading)
    ensures
        reading@ == frame_fields(raw@),
{
    match decode_text(raw) {
        Some(text) => parse_text(text),
        None => TelemetryReading::new(),
    }
}

} // verus!
