//! Serialization of the station shapes.
//!
//! The JSON form of a `Station` is defined by `station_json`, a function of
//! the id, the label and the loaded sensors alone; that of a stored
//! `StationsModel` row by `model_json`, a function of the id and the label
//! alone. The secret key is among the inputs of neither, so no serialized
//! form can ever contain it (`lemma_json_ignores_key`,
//! `lemma_model_json_ignores_key`). Ids are written in the canonical
//! hyphenated UUID form; labels with JSON string escaping; a sensors
//! association that was not loaded is left out of the object entirely.

use vstd::prelude::*;
use vstd::string::StrSliceExecFns;
use vstd::string::StringExecFns;
use crate::station::{Station, StationView, StationsModel, ModelView, SensorSummary, SensorView, sensor_views};

verus! {

/// Relies on std's `String::push`: appends the given character to the end
/// of the string.
#[verifier::external_body]
pub(crate) fn push_char(s: &mut String, c: char)
    ensures
        final(s)@ == old(s)@.push(c),
{
    s.push(c);
}

/// The lower-case hexadecimal digit for a value below 16.
pub open spec fn hex_char(d: u128) -> char
    recommends
        d < 16,
{
    if d == 0 {
        '0'
    } else if d == 1 {
        '1'
    } else if d == 2 {
        '2'
    } else if d == 3 {
        '3'
    } else if d == 4 {
        '4'
    } else if d == 5 {
        '5'
    } else if d == 6 {
        '6'
    } else if d == 7 {
        '7'
    } else if d == 8 {
        '8'
    } else if d == 9 {
        '9'
    } else if d == 10 {
        'a'
    } else if d == 11 {
        'b'
    } else if d == 12 {
        'c'
    } else if d == 13 {
        'd'
    } else if d == 14 {
        'e'
    } else {
        'f'
    }
}

/// Writes one hexadecimal digit.
pub fn hex_digit(d: u128) -> (c: char)
    requires
        d < 16,
    ensures
        c == hex_char(d),
{
    if d == 0 {
        '0'
    } else if d == 1 {
        '1'
    } else if d == 2 {
        '2'
    } else if d == 3 {
        '3'
    } else if d == 4 {
        '4'
    } else if d == 5 {
        '5'
    } else if d == 6 {
        '6'
    } else if d == 7 {
        '7'
    } else if d == 8 {
        '8'
    } else if d == 9 {
        '9'
    } else if d == 10 {
        'a'
    } else if d == 11 {
        'b'
    } else if d == 12 {
        'c'
    } else if d == 13 {
        'd'
    } else if d == 14 {
        'e'
    } else {
        'f'
    }
}

/// The i-th hexadecimal digit of a 128-bit id, most significant first.
pub open spec fn nibble(id: u128, i: int) -> u128
    recommends
        0 <= i < 32,
{
    (id >> (((31 - i) * 4) as u128)) & 0xf
}

proof fn lemma_low_nibble_bound(x: u128)
    ensures
        x & 0xf < 16,
{
    assert(x & 0xf < 16) by (bit_vector);
}

/// The first j digits of the hyphenated UUID form of an id, hyphens
/// included: they fall before the digits at positions 8, 12, 16 and 20.
pub open spec fn uuid_prefix(id: u128, j: int) -> Seq<char>
    decreases j,
{
    if j <= 0 {
        Seq::<char>::empty()
    } else {
        let prev = uuid_prefix(id, j - 1);
        let sep = if j - 1 == 8 || j - 1 == 12 || j - 1 == 16 || j - 1 == 20 {
            prev.push('-')
        } else {
            prev
        };
        sep.push(hex_char(nibble(id, j - 1)))
    }
}

/// The canonical textual form of an id: 32 lower-case hexadecimal digits
/// in five hyphen-separated groups of 8, 4, 4, 4 and 12.
pub open spec fn uuid_str_of(id: u128) -> Seq<char> {
    uuid_prefix(id, 32)
}

/// Appends the canonical textual form of an id.
pub fn push_uuid(out: &mut String, id: u128)
    ensures
        final(out)@ == old(out)@ + uuid_str_of(id),
{
    let mut j: usize = 0;
    proof {
        assert(out@ =~= old(out)@ + uuid_prefix(id, 0));
    }
    while j < 32
        invariant
            j <= 32,
            out@ == old(out)@ + uuid_prefix(id, j as int),
        decreases 32 - j,
    {
        if j == 8 || j == 12 || j == 16 || j == 20 {
            push_char(out, '-');
        }
        let sh: u128 = (31 - j as u128) * 4;
        let d: u128 = (id >> sh) & 0xf;
        proof {
            lemma_low_nibble_bound(id >> sh);
            assert(d == nibble(id, j as int));
        }
        let c = hex_digit(d);
        push_char(out, c);
        proof {
            assert(out@ =~= old(out)@ + uuid_prefix(id, j as int + 1));
        }
        j += 1;
    }
}

/// Builds the canonical textual form of an id as its own string.
pub fn uuid_string(id: u128) -> (r: String)
    ensures
        r@ == uuid_str_of(id),
{
    let mut out = String::new();
    push_uuid(&mut out, id);
    proof {
        assert(Seq::<char>::empty() + uuid_str_of(id) =~= uuid_str_of(id));
    }
    out
}

/// The JSON escape of one character: quote and backslash are escaped, the
/// common control characters use their short forms, the remaining control
/// characters the \u00XX form, and every other character stands as it is.
pub open spec fn esc_char(c: char) -> Seq<char> {
    if c == '"' {
        seq!['\\', '"']
    } else if c == '\\' {
        seq!['\\', '\\']
    } else if c == '\n' {
        seq!['\\', 'n']
    } else if c == '\r' {
        seq!['\\', 'r']
    } else if c == '\t' {
        seq!['\\', 't']
    } else if (c as u32) < 32 {
        seq![
            '\\',
            'u',
            '0',
            '0',
            hex_char(((c as u32) / 16) as u128),
            hex_char(((c as u32) % 16) as u128),
        ]
    } else {
        seq![c]
    }
}

/// The JSON escape of the first j characters of a string.
pub open spec fn esc_prefix(s: Seq<char>, j: int) -> Seq<char>
    decreases j,
{
    if j <= 0 {
        Seq::<char>::empty()
    } else {
        esc_prefix(s, j - 1) + esc_char(s[j - 1])
    }
}

/// The JSON escape of a whole string.
pub open spec fn json_escape(s: Seq<char>) -> Seq<char> {
    esc_prefix(s, s.len() as int)
}

/// Appends the JSON escape of a string.
pub fn push_escaped(out: &mut String, s: &str)
    ensures
        final(out)@ == old(out)@ + json_escape(s@),
{
    let n = s.unicode_len();
    let mut i: usize = 0;
    proof {
        assert(out@ =~= old(out)@ + esc_prefix(s@, 0));
    }
    while i < n
        invariant
            n == s@.len(),
            i <= n,
            out@ == old(out)@ + esc_prefix(s@, i as int),
        decreases n - i,
    {
        let c = s.get_char(i);
        if c == '"' {
            push_char(out, '\\');
            push_char(out, '"');
        } else if c == '\\' {
            push_char(out, '\\');
            push_char(out, '\\');
        } else if c == '\n' {
            push_char(out, '\\');
            push_char(out, 'n');
        } else if c == '\r' {
            push_char(out, '\\');
            push_char(out, 'r');
        } else if c == '\t' {
            push_char(out, '\\');
            push_char(out, 't');
        } else if (c as u32) < 32 {
            push_char(out, '\\');
            push_char(out, 'u');
            push_char(out, '0');
            push_char(out, '0');
            let hi: u128 = ((c as u32) / 16) as u128;
            let lo: u128 = ((c as u32) % 16) as u128;
            push_char(out, hex_digit(hi));
            push_char(out, hex_digit(lo));
        } else {
            push_char(out, c);
        }
        proof {
            assert(out@ =~= old(out)@ + esc_prefix(s@, i as int + 1));
        }
        i += 1;
    }
}

/// The JSON object for one sensor summary.
pub open spec fn sensor_json(s: SensorView) -> Seq<char> {
    "{\"id\":\""@ + uuid_str_of(s.id) + "\",\"station_id\":\""@ + uuid_str_of(s.station_id)
        + "\",\"label\":\""@ + json_escape(s.label) + "\"}"@
}

/// The comma-separated JSON objects of a list of sensor summaries.
pub open spec fn sensors_json(l: Seq<SensorView>) -> Seq<char>
    decreases l.len(),
{
    if l.len() == 0 {
        Seq::<char>::empty()
    } else if l.len() == 1 {
        sensor_json(l[0])
    } else {
        sensors_json(l.drop_last()) + ","@ + sensor_json(l.last())
    }
}

/// The JSON object for a station view. It is a function of the id, the
/// label and the sensors alone: the secret key is not among its inputs.
pub open spec fn station_json(v: StationView) -> Seq<char> {
    "{\"id\":\""@ + uuid_str_of(v.id) + "\",\"label\":\""@ + json_escape(v.label) + "\""@
        + (match v.sensors {
        Option::None => Seq::<char>::empty(),
        Option::Some(l) => ",\"sensors\":["@ + sensors_json(l) + "]"@,
    }) + "}"@
}

/// Law: the serialized view never contains the secret key. The JSON text
/// is a function of the id, the label and the sensors alone, so two
/// stations that differ in nothing but their key serialize identically.
pub proof fn lemma_json_ignores_key(a: StationView, b: StationView)
    requires
        a.id == b.id,
        a.label == b.label,
        a.sensors == b.sensors,
    ensures
        station_json(a) == station_json(b),
{
}

/// The JSON object for a stored row view. It is a function of the id and
/// the label alone: the secret key is not among its inputs.
pub open spec fn model_json(v: ModelView) -> Seq<char> {
    "{\"id\":\""@ + uuid_str_of(v.id) + "\",\"label\":\""@ + json_escape(v.label) + "\"}"@
}

/// Law: the serialized stored row never contains the secret key. The JSON
/// text is a function of the id and the label alone, so two rows that
/// differ in nothing but their key serialize identically.
pub proof fn lemma_model_json_ignores_key(a: ModelView, b: ModelView)
    requires
        a.id == b.id,
        a.label == b.label,
    ensures
        model_json(a) == model_json(b),
{
}

impl StationsModel {
    /// Serializes the stored row as a JSON object: the id in hyphenated
    /// UUID form and the escaped label. The key is never written.
    pub fn to_json(&self) -> (r: String)
        ensures
            r@ == model_json(self@),
    {
        let mut out = String::new();
        out.append("{\"id\":\"");
        push_uuid(&mut out, self.id);
        out.append("\",\"label\":\"");
        push_escaped(&mut out, self.label.as_str());
        out.append("\"}");
        proof {
            assert(out@ =~= model_json(self@));
        }
        out
    }
}

/// Appends the JSON object for one sensor summary.
fn push_sensor(out: &mut String, s: &SensorSummary)
    ensures
        final(out)@ == old(out)@ + sensor_json(s@),
{
    out.append("{\"id\":\"");
    push_uuid(out, s.id);
    out.append("\",\"station_id\":\"");
    push_uuid(out, s.station_id);
    out.append("\",\"label\":\"");
    push_escaped(out, s.label.as_str());
    out.append("\"}");
    proof {
        assert(out@ =~= old(out)@ + sensor_json(s@));
    }
}

impl Station {
    /// Serializes the public view as a JSON object: the id in hyphenated
    /// UUID form, the escaped label, and — only where the association was
    /// loaded — the sensors array. The key is never written.
    pub fn to_json(&self) -> (r: String)
        ensures
            r@ == station_json(self@),
    {
        let mut out = String::new();
        out.append("{\"id\":\"");
        push_uuid(&mut out, self.id);
        out.append("\",\"label\":\"");
        push_escaped(&mut out, self.label.as_str());
        out.append("\"");
        match &self.sensors {
            None => {},
            Some(list) => {
                out.append(",\"sensors\":[");
                let ghost base = out@;
                let mut i: usize = 0;
                proof {
                    assert(sensor_views(list@).subrange(0, 0) =~= Seq::<SensorView>::empty());
                    assert(out@ =~= base + sensors_json(sensor_views(list@).subrange(0, 0)));
                }
                while i < list.len()
                    invariant
                        i <= list.len(),
                        out@ == base + sensors_json(sensor_views(list@).subrange(0, i as int)),
                    decreases list.len() - i,
                {
                    if i > 0 {
                        out.append(",");
                    }
                    push_sensor(&mut out, &list[i]);
                    proof {
                        let vs = sensor_views(list@);
                        assert(vs.subrange(0, i as int + 1).drop_last() =~= vs.subrange(
                            0,
                            i as int,
                        ));
                        assert(vs.subrange(0, i as int + 1).last() == vs[i as int]);
                        assert(vs[i as int] == list@[i as int]@);
                        assert(out@ =~= base + sensors_json(vs.subrange(0, i as int + 1)));
                    }
                    i += 1;
                }
                proof {
                    assert(sensor_views(list@).subrange(0, list@.len() as int) =~= sensor_views(
                        list@,
                    ));
                }
                out.append("]");
            },
        }
        out.append("}");
        proof {
            assert(out@ =~= station_json(self@));
        }
        out
    }
}

} // verus!
