//! BSON-flavoured scalars: the object id, held as its twelve bytes and
//! written as a hex string, and the BSON datetime, held as milliseconds
//! since the Unix epoch, always at UTC, and written as an RFC 3339 string.
//!
//! The hex form is this crate's own verified logic; RFC 3339 parsing and
//! formatting of the datetime are the `bson` crate's work, called through
//! trusted wrappers.

use vstd::prelude::*;
use vstd::string::StrSliceExecFns;
use crate::input_value::{scalar_string, FromInputValue, InputValue, ToInputValue, ValueModel};
use crate::scalar::ScalarValue;

verus! {

/// The value of a hex digit, upper or lower case, if the character is one.
pub open spec fn hex_digit_val(c: char) -> Option<int> {
    if '0' <= c && c <= '9' {
        Some(c as int - 48)
    } else if 'a' <= c && c <= 'f' {
        Some(c as int - 87)
    } else if 'A' <= c && c <= 'F' {
        Some(c as int - 55)
    } else {
        None
    }
}

/// Whether every character of `s` is a hex digit.
pub open spec fn is_hex_seq(s: Seq<char>) -> bool {
    forall|i: int| 0 <= i < s.len() ==> (hex_digit_val(#[trigger] s[i]) is Some)
}

/// The bytes a hex string of even length decodes to, two digits per byte,
/// high digit first.
pub open spec fn hex_bytes(s: Seq<char>) -> Seq<u8> {
    Seq::new(
        (s.len() / 2) as nat,
        |i: int|
            if 0 <= 2 * i && 2 * i + 1 < s.len() {
                (hex_digit_val(s[2 * i])->0 * 16 + hex_digit_val(s[2 * i + 1])->0) as u8
            } else {
                0
            },
    )
}

/// The lower-case hex digit character for `d`, which must lie in
/// `0 ..= 15`.
pub open spec fn hex_digit_char(d: int) -> char {
    if d < 10 {
        crate::digits::digit_char(d)
    } else if d == 10 {
        'a'
    } else if d == 11 {
        'b'
    } else if d == 12 {
        'c'
    } else if d == 13 {
        'd'
    } else if d == 14 {
        'e'
    } else {
        'f'
    }
}

/// The lower-case hex text of a byte string, two digits per byte, high
/// digit first.
pub open spec fn hex_text(bytes: Seq<u8>) -> Seq<char> {
    Seq::new(
        2 * bytes.len(),
        |i: int|
            if 0 <= i && i / 2 < bytes.len() {
                if i % 2 == 0 {
                    hex_digit_char(bytes[i / 2] as int / 16)
                } else {
                    hex_digit_char(bytes[i / 2] as int % 16)
                }
            } else {
                '0'
            },
    )
}

/// The value of a hex digit character, if it is one.
fn hex_val(c: char) -> (r: Option<u8>)
    ensures
        match r {
            Some(v) => hex_digit_val(c) == Some(v as int) && v < 16,
            None => hex_digit_val(c) is None,
        },
{
    let u = c as u32;
    if u >= 48 && u <= 57 {
        Some((u - 48) as u8)
    } else if u >= 97 && u <= 102 {
        Some((u - 87) as u8)
    } else if u >= 65 && u <= 70 {
        Some((u - 55) as u8)
    } else {
        None
    }
}

/// The one-character string for the lower-case hex digit `d`.
fn hex_digit_str(d: u8) -> (r: &'static str)
    requires
        d < 16,
    ensures
        r@ == seq![hex_digit_char(d as int)],
{
    if d < 10 {
        crate::digits::digit_str(d)
    } else {
        proof {
            reveal_strlit("a");
            reveal_strlit("b");
            reveal_strlit("c");
            reveal_strlit("d");
            reveal_strlit("e");
            reveal_strlit("f");
        }
        let r = match d {
            10 => "a",
            11 => "b",
            12 => "c",
            13 => "d",
            14 => "e",
            _ => "f",
        };
        proof {
            assert(r@ =~= seq![hex_digit_char(d as int)]);
        }
        r
    }
}

/// A BSON object id: twelve bytes, written as a 24-digit hex string.
#[derive(Clone, Debug)]
pub struct ObjectId {
    /// The twelve id bytes.
    pub bytes: Vec<u8>,
}

impl ObjectId {
    /// Whether the id holds exactly twelve bytes.
    pub open spec fn wf(self) -> bool {
        self.bytes@.len() == 12
    }

    /// Builds the id over the given bytes, which must be twelve.
    pub fn from_bytes(bytes: Vec<u8>) -> (r: Option<ObjectId>)
        ensures
            r is Some <==> bytes@.len() == 12,
            r is Some ==> r->0.bytes@ == bytes@ && r->0.wf(),
    {
        if bytes.len() == 12 {
            Some(ObjectId { bytes })
        } else {
            None
        }
    }

    /// Decodes a 24-digit hex string, upper or lower case, into an id.
    #[verifier::loop_isolation(false)]
    pub fn parse_str(s: &str) -> (r: Option<ObjectId>)
        ensures
            match r {
                Some(id) => s@.len() == 24 && is_hex_seq(s@) && id.bytes@ == hex_bytes(s@)
                    && id.wf(),
                None => !(s@.len() == 24 && is_hex_seq(s@)),
            },
    {
        if s.unicode_len() != 24 {
            return None;
        }
        let mut bytes: Vec<u8> = Vec::new();
        let mut i: usize = 0;
        while i < 12
            invariant
                i <= 12,
                s@.len() == 24,
                bytes@.len() == i as int,
                forall|k: int| 0 <= k < 2 * i as int ==> (hex_digit_val(#[trigger] s@[k]) is Some),
                forall|k: int| 0 <= k < i as int ==> #[trigger] bytes@[k] == (hex_digit_val(
                    s@[2 * k],
                )->0 * 16 + hex_digit_val(s@[2 * k + 1])->0) as u8,
            decreases 12 - i,
        {
            let hi = match hex_val(s.get_char(2 * i)) {
                Some(v) => v,
                None => {
                    return None;
                }
            };
            let lo = match hex_val(s.get_char(2 * i + 1)) {
                Some(v) => v,
                None => {
                    return None;
                }
            };
            bytes.push(hi * 16 + lo);
            i += 1;
        }
        let r = ObjectId { bytes };
        proof {
            assert(r.bytes@ =~= hex_bytes(s@));
        }
        Some(r)
    }

    /// Encodes this id as its lower-case hex string.
    #[verifier::loop_isolation(false)]
    pub fn to_hex(&self) -> (r: String)
        ensures
            r@ == hex_text(self.bytes@),
    {
        let mut out = String::new();
        let mut i: usize = 0;
        while i < self.bytes.len()
            invariant
                i <= self.bytes@.len(),
                out@ =~= hex_text(self.bytes@.take(i as int)),
            decreases self.bytes@.len() - i,
        {
            let b = self.bytes[i];
            out.append(hex_digit_str(b / 16));
            out.append(hex_digit_str(b % 16));
            proof {
                assert(out@ =~= hex_text(self.bytes@.take(i as int + 1)));
            }
            i += 1;
        }
        proof {
            assert(self.bytes@.take(self.bytes@.len() as int) =~= self.bytes@);
        }
        out
    }
}

impl PartialEq for ObjectId {
    /// Two ids are equal when their bytes are.
    #[verifier::loop_isolation(false)]
    fn eq(&self, other: &Self) -> (r: bool)
        ensures
            r == (self.bytes@ == other.bytes@),
    {
        if self.bytes.len() != other.bytes.len() {
            return false;
        }
        let mut i: usize = 0;
        while i < self.bytes.len()
            invariant
                i <= self.bytes@.len(),
                self.bytes@.len() == other.bytes@.len(),
                forall|k: int| 0 <= k < i as int ==> #[trigger] self.bytes@[k] == other.bytes@[k],
            decreases self.bytes@.len() - i,
        {
            if self.bytes[i] != other.bytes[i] {
                return false;
            }
            i += 1;
        }
        proof {
            assert(self.bytes@ =~= other.bytes@);
        }
        true
    }
}

impl vstd::std_specs::cmp::PartialEqSpecImpl for ObjectId {
    open spec fn obeys_eq_spec() -> bool {
        true
    }

    open spec fn eq_spec(&self, other: &Self) -> bool {
        self.bytes@ == other.bytes@
    }
}

/// The message a rejected conversion to [`ObjectId`] reports.
pub open spec fn object_id_error<S: ScalarValue>(m: ValueModel<S::M>) -> Seq<char> {
    match scalar_string::<S>(m) {
        Some(_) => "Failed to parse `ObjectID`: not a 24-digit hex string"@,
        None => "Failed to parse `ObjectID`: not a string"@,
    }
}

impl<S: ScalarValue> FromInputValue<S> for ObjectId {
    type Error = String;

    open spec fn rejects_with(m: ValueModel<S::M>, e: String) -> bool {
        e@ == object_id_error::<S>(m)
    }

    open spec fn accepts(m: ValueModel<S::M>) -> bool {
        match scalar_string::<S>(m) {
            Some(t) => t.len() == 24 && is_hex_seq(t),
            None => false,
        }
    }

    open spec fn parses_to(m: ValueModel<S::M>, t: Self) -> bool {
        match scalar_string::<S>(m) {
            Some(txt) => t.bytes@ == hex_bytes(txt),
            None => false,
        }
    }

    fn from_input_value(v: &InputValue<S>) -> (r: Result<Self, String>) {
        match v {
            InputValue::Scalar(s) => match s.as_string() {
                Some(txt) => match ObjectId::parse_str(txt) {
                    Some(id) => Ok(id),
                    None => Err(String::from_str("Failed to parse `ObjectID`: not a 24-digit hex string")),
                },
                None => Err(String::from_str("Failed to parse `ObjectID`: not a string")),
            },
            _ => Err(String::from_str("Failed to parse `ObjectID`: not a string")),
        }
    }
}

impl<S: ScalarValue> ToInputValue<S> for ObjectId {
    open spec fn to_model(&self) -> ValueModel<S::M> {
        ValueModel::Scalar(S::str_model(hex_text(self.bytes@)))
    }

    fn to_input_value(&self) -> (r: InputValue<S>) {
        InputValue::Scalar(S::from_string(self.to_hex()))
    }
}

} // verus!

verus! {

/// The Unix-epoch millisecond of `0000-01-01T00:00:00Z`, the earliest
/// instant RFC 3339 can write.
pub const MIN_RFC3339_MILLIS: i64 = -62_167_219_200_000;

/// A BSON datetime: an instant at millisecond precision, always at UTC.
/// Inputs carrying another offset are coerced to UTC when parsed.
#[derive(Clone, Copy, Debug, PartialEq, Eq, Structural)]
pub struct DateTime {
    /// Milliseconds since `1970-01-01T00:00:00Z`.
    pub millis: i64,
}

/// What `bson::DateTime::parse_rfc3339_str` yields on a string: the
/// parsed instant's millisecond since the Unix epoch, truncated to
/// millisecond precision, or nothing if the string is rejected.
pub uninterp spec fn bson_date_time_parse(s: Seq<char>) -> Option<i64>;

/// What formatting the instant `millis` milliseconds past the Unix epoch
/// as an RFC 3339 string at UTC yields under
/// `bson::DateTime::try_to_rfc3339_string`.
pub uninterp spec fn bson_date_time_text(millis: int) -> Seq<char>;

/// Relies on `bson::DateTime::parse_rfc3339_str` and `timestamp_millis`.
/// The four-digit year bounds only the written local components, not the
/// UTC instant once the offset is applied, so nothing is claimed of the
/// result's range: the caller checks it.
#[verifier::external_body]
fn parse_bson_date_time_raw(s: &str) -> (r: Option<i64>)
    ensures
        r == bson_date_time_parse(s@),
{
    let dt = ::bson::DateTime::parse_rfc3339_str(s).ok()?;
    Some(dt.timestamp_millis())
}

/// Relies on `bson::DateTime::from_millis` and `try_to_rfc3339_string`,
/// which renders every instant from year 0 on at UTC (instants beyond
/// year 9999 are clamped to the latest representable one first).
#[verifier::external_body]
fn format_bson_date_time_raw(millis: i64) -> (r: String)
    requires
        millis >= MIN_RFC3339_MILLIS,
    ensures
        r@ == bson_date_time_text(millis as int),
{
    ::bson::DateTime::from_millis(millis).try_to_rfc3339_string().unwrap()
}

impl DateTime {
    /// Whether RFC 3339 can write the instant.
    pub open spec fn wf(self) -> bool {
        self.millis >= MIN_RFC3339_MILLIS
    }

    /// Builds the instant the given number of milliseconds past the Unix
    /// epoch, if RFC 3339 can write it.
    pub fn from_millis(millis: i64) -> (r: Option<DateTime>)
        ensures
            r is Some <==> millis >= MIN_RFC3339_MILLIS,
            r is Some ==> r->0 == (DateTime { millis }) && r->0.wf(),
    {
        if millis >= MIN_RFC3339_MILLIS {
            Some(DateTime { millis })
        } else {
            None
        }
    }

    /// Renders this instant as an RFC 3339 string at UTC.
    pub fn render(&self) -> (r: String)
        requires
            self.wf(),
        ensures
            r@ == bson_date_time_text(self.millis as int),
    {
        format_bson_date_time_raw(self.millis)
    }
}

/// The message a rejected conversion to [`DateTime`] reports.
pub open spec fn bson_date_time_error<S: ScalarValue>(m: ValueModel<S::M>) -> Seq<char> {
    match scalar_string::<S>(m) {
        Some(t) => match bson_date_time_parse(t) {
            Some(_) => "Failed to parse `DateTime`: out of range"@,
            None => "Failed to parse `DateTime`: unrecognized format"@,
        },
        None => "Failed to parse `DateTime`: not a string"@,
    }
}

impl<S: ScalarValue> FromInputValue<S> for DateTime {
    type Error = String;

    open spec fn rejects_with(m: ValueModel<S::M>, e: String) -> bool {
        e@ == bson_date_time_error::<S>(m)
    }

    open spec fn accepts(m: ValueModel<S::M>) -> bool {
        match scalar_string::<S>(m) {
            Some(t) => match bson_date_time_parse(t) {
                Some(millis) => millis >= MIN_RFC3339_MILLIS,
                None => false,
            },
            None => false,
        }
    }

    open spec fn parses_to(m: ValueModel<S::M>, t: Self) -> bool {
        match scalar_string::<S>(m) {
            Some(txt) => match bson_date_time_parse(txt) {
                Some(millis) => t == (DateTime { millis }),
                None => false,
            },
            None => false,
        }
    }

    fn from_input_value(v: &InputValue<S>) -> (r: Result<Self, String>) {
        match v {
            InputValue::Scalar(s) => match s.as_string() {
                Some(txt) => match parse_bson_date_time_raw(txt) {
                    Some(millis) => match DateTime::from_millis(millis) {
                        Some(dt) => Ok(dt),
                        None => Err(String::from_str("Failed to parse `DateTime`: out of range")),
                    },
                    None => Err(String::from_str("Failed to parse `DateTime`: unrecognized format")),
                },
                None => Err(String::from_str("Failed to parse `DateTime`: not a string")),
            },
            _ => Err(String::from_str("Failed to parse `DateTime`: not a string")),
        }
    }
}

impl<S: ScalarValue> ToInputValue<S> for DateTime {
    open spec fn to_model(&self) -> ValueModel<S::M> {
        if self.wf() {
            ValueModel::Scalar(S::str_model(bson_date_time_text(self.millis as int)))
        } else {
            ValueModel::Null
        }
    }

    fn to_input_value(&self) -> (r: InputValue<S>) {
        if self.millis >= MIN_RFC3339_MILLIS {
            InputValue::Scalar(S::from_string(self.render()))
        } else {
            InputValue::Null
        }
    }
}

} // verus!
