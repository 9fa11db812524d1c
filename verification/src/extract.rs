use vstd::prelude::*;
use crate::timestamp::CaptureTimestamp;

verus! {

/// The raw content of one metadata field, as handed over by the reader of
/// the file's metadata container: the field may be absent, present but not
/// text-encoded, or a list of text values (each a byte string).
pub enum FieldValue {
    Missing,
    NotText,
    Text(Vec<Vec<u8>>),
}

/// A capture time as the metadata parser returns it: whole-second fields,
/// with sub-second precision and time-zone offset still optional.
#[derive(Clone, Copy, Debug)]
pub struct RawTimestamp {
    pub year: u16,
    pub month: u8,
    pub day: u8,
    pub hour: u8,
    pub minute: u8,
    pub second: u8,
    pub nanosecond: Option<u32>,
    pub offset_minutes: Option<i16>,
}

/// Why a file yielded no usable capture timestamp. `Unreadable` and
/// `MetadataUnreadable` arise before the field values exist and are raised
/// by the caller that reads the file; the rest classify the field values
/// themselves. Every variant is terminal for its file only.
#[derive(Debug)]
pub enum ExtractionError {
    Unreadable,
    MetadataUnreadable,
    FieldMissing,
    FieldNotText,
    FieldEmpty,
    ParseFailed(String),
}

/// An ASCII decimal digit.
pub open spec fn is_digit(c: u8) -> bool {
    48 <= c <= 57
}

/// Every byte is an ASCII decimal digit.
pub open spec fn all_digits(s: Seq<u8>) -> bool {
    forall|i: int| 0 <= i < s.len() ==> is_digit(#[trigger] s[i])
}

/// The value of a string of decimal digit bytes.
pub open spec fn dec_val(s: Seq<u8>) -> int
    decreases s.len(),
{
    if s.len() == 0 {
        0
    } else {
        dec_val(s.drop_last()) * 10 + (s.last() - 48)
    }
}

/// The primary date/time text that the metadata parser accepts: at least 19
/// bytes, with `:` at positions 4, 7, 13 and 16, a space at position 10,
/// and decimal digits in the six component slots. Bytes past position 19
/// are never examined. A value the parser rejects for being blank consists
/// of spaces and separators and so fails the digit test as well.
pub open spec fn datetime_text_wellformed(data: Seq<u8>) -> bool {
    data.len() >= 19
    && data[4] == 58 && data[7] == 58 && data[10] == 32 && data[13] == 58 && data[16] == 58
    && all_digits(data.subrange(0, 4))
    && all_digits(data.subrange(5, 7))
    && all_digits(data.subrange(8, 10))
    && all_digits(data.subrange(11, 13))
    && all_digits(data.subrange(14, 16))
    && all_digits(data.subrange(17, 19))
}

/// The fields read out of a well-formed date/time text, by position:
/// `YYYY:MM:DD HH:MM:SS`. The component ranges are not validated, so a
/// month of 13 passes through as recorded.
pub open spec fn parsed_datetime_fields(data: Seq<u8>) -> RawTimestamp {
    RawTimestamp {
        year: dec_val(data.subrange(0, 4)) as u16,
        month: dec_val(data.subrange(5, 7)) as u8,
        day: dec_val(data.subrange(8, 10)) as u8,
        hour: dec_val(data.subrange(11, 13)) as u8,
        minute: dec_val(data.subrange(14, 16)) as u8,
        second: dec_val(data.subrange(17, 19)) as u8,
        nanosecond: None,
        offset_minutes: None,
    }
}

/// Ten to the `n`.
pub open spec fn pow10(n: int) -> int
    decreases n,
{
    if n <= 0 {
        1
    } else {
        10 * pow10(n - 1)
    }
}

/// One step of the sub-second scan: digits accumulate until a space, the
/// end of the text, or the ninth digit; any other byte aborts the scan.
pub open spec fn subsec_scan(data: Seq<u8>, acc: int, ndigits: int) -> Option<(int, int)>
    decreases data.len(),
{
    if data.len() == 0 {
        Some((acc, ndigits))
    } else if data[0] == 32 {
        Some((acc, ndigits))
    } else if !is_digit(data[0]) {
        None
    } else if ndigits + 1 >= 9 {
        Some((acc * 10 + (data[0] - 48), ndigits + 1))
    } else {
        subsec_scan(data.subrange(1, data.len() as int), acc * 10 + (data[0] - 48), ndigits + 1)
    }
}

/// What the metadata parser makes of a sub-second text: the leading digits,
/// up to nine of them or up to the first space, extended to nanoseconds.
/// `None` when the text starts with no digit at all or holds a byte that is
/// neither digit nor space before the scan ends: such a value yields no
/// refinement.
pub open spec fn spec_parse_subsec(data: Seq<u8>) -> Option<u32> {
    match subsec_scan(data, 0, 0) {
        None => None,
        Some((value, ndigits)) => if ndigits == 0 {
            None
        } else {
            Some((value * pow10(9 - ndigits)) as u32)
        },
    }
}

/// Relies on `exif::DateTime::from_ascii`: it accepts exactly the texts of
/// `datetime_text_wellformed` (a blank value is rejected up front but is
/// not well-formed either) and reads the six components by position. The
/// error's display text is carried over as the message.
#[verifier::external_body]
fn parse_datetime_ascii(data: &Vec<u8>) -> (r: Result<RawTimestamp, String>)
    ensures
        r is Ok <==> datetime_text_wellformed(data@),
        r matches Ok(raw) ==> raw == parsed_datetime_fields(data@),
{
    match exif::DateTime::from_ascii(data.as_slice()) {
        Ok(dt) => Ok(RawTimestamp {
            year: dt.year,
            month: dt.month,
            day: dt.day,
            hour: dt.hour,
            minute: dt.minute,
            second: dt.second,
            nanosecond: dt.nanosecond,
            offset_minutes: dt.offset,
        }),
        Err(e) => Err(format!("{}", e)),
    }
}

/// Relies on `exif::DateTime::parse_subsec`: it reads leading decimal
/// digits into a nanosecond value as `spec_parse_subsec` states, and
/// touches nothing but the receiver's nanosecond field, so on the fresh
/// receiver built here its outcome depends on the given bytes alone.
#[verifier::external_body]
fn parse_subsec_ascii(data: &Vec<u8>) -> (r: Option<u32>)
    ensures
        r == spec_parse_subsec(data@),
{
    let mut dt = exif::DateTime {
        year: 0, month: 0, day: 0, hour: 0, minute: 0, second: 0,
        nanosecond: None, offset: None,
    };
    let _ = dt.parse_subsec(data.as_slice());
    dt.nanosecond
}

/// The nanosecond value of a parsed timestamp before any refinement: the
/// parser's value if it gave one, otherwise 0.
pub open spec fn coarse_nanoseconds(raw: RawTimestamp) -> u32 {
    match raw.nanosecond {
        Some(n) => n,
        None => 0,
    }
}

/// The refinement the optional sub-second field offers: `None` unless the
/// field is text-encoded, has a first value, and that value parses.
pub open spec fn subsec_refinement(subsec: FieldValue) -> Option<u32> {
    match subsec {
        FieldValue::Text(v) => if v@.len() > 0 {
            spec_parse_subsec(v@[0]@)
        } else {
            None
        },
        _ => None,
    }
}

/// The timestamp assembled from a parsed primary field and an optional
/// sub-second refinement.
pub open spec fn timestamp_from(raw: RawTimestamp, subsec_nano: Option<u32>) -> CaptureTimestamp {
    CaptureTimestamp {
        year: raw.year,
        month: raw.month,
        day: raw.day,
        hour: raw.hour,
        minute: raw.minute,
        second: raw.second,
        nanosecond: match subsec_nano {
            Some(n) => n,
            None => coarse_nanoseconds(raw),
        },
        offset_minutes: raw.offset_minutes,
    }
}

/// Builds the capture timestamp from the parsed primary field and the
/// sub-second refinement, if any: the refinement wins when present, the
/// parser's own sub-second value comes next, and 0 stands for no
/// sub-second precision at all.
pub fn assemble_timestamp(raw: &RawTimestamp, subsec_nano: Option<u32>) -> (r: CaptureTimestamp)
    ensures
        r == timestamp_from(*raw, subsec_nano),
{
    let nanosecond: u32 = match subsec_nano {
        Some(n) => n,
        None => match raw.nanosecond {
            Some(n) => n,
            None => 0,
        },
    };
    CaptureTimestamp {
        year: raw.year,
        month: raw.month,
        day: raw.day,
        hour: raw.hour,
        minute: raw.minute,
        second: raw.second,
        nanosecond,
        offset_minutes: raw.offset_minutes,
    }
}

/// What `read_datetime` owes for given field values: each failure of the
/// primary field maps to its own error, and a well-formed primary field
/// yields the assembled timestamp, with the sub-second field applied
/// best-effort and its failures silently ignored.
pub open spec fn extraction_matches(
    primary: FieldValue,
    subsec: FieldValue,
    r: Result<CaptureTimestamp, ExtractionError>,
) -> bool {
    match primary {
        FieldValue::Missing => r matches Err(e) && e is FieldMissing,
        FieldValue::NotText => r matches Err(e) && e is FieldNotText,
        FieldValue::Text(v) => if v@.len() == 0 {
            r matches Err(e) && e is FieldEmpty
        } else if datetime_text_wellformed(v@[0]@) {
            r == Ok::<CaptureTimestamp, ExtractionError>(
                timestamp_from(parsed_datetime_fields(v@[0]@), subsec_refinement(subsec)))
        } else {
            r matches Err(e) && e is ParseFailed
        },
    }
}

/// Reads a capture timestamp out of the raw values of the primary
/// date/time field and the optional sub-second field: the primary field
/// must be present, text-encoded, non-empty and well-formed, each failure
/// reported as its own error; the sub-second field refines the result when
/// it parses and is ignored when it does not.
pub fn read_datetime(primary: &FieldValue, subsec: &FieldValue) -> (r: Result<
    CaptureTimestamp,
    ExtractionError,
>)
    ensures
        extraction_matches(*primary, *subsec, r),
{
    match primary {
        FieldValue::Missing => Err(ExtractionError::FieldMissing),
        FieldValue::NotText => Err(ExtractionError::FieldNotText),
        FieldValue::Text(v) => {
            if v.len() == 0 {
                Err(ExtractionError::FieldEmpty)
            } else {
                match parse_datetime_ascii(&v[0]) {
                    Err(m) => Err(ExtractionError::ParseFailed(m)),
                    Ok(raw) => {
                        let refinement: Option<u32> = match subsec {
                            FieldValue::Text(sv) => if sv.len() > 0 {
                                parse_subsec_ascii(&sv[0])
                            } else {
                                None
                            },
                            _ => None,
                        };
                        Ok(assemble_timestamp(&raw, refinement))
                    },
                }
            }
        },
    }
}

} // verus!
