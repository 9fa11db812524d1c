use vstd::prelude::*;

verus! {

/// A capture time read from an image's embedded metadata, reduced to plain
/// calendar and clock fields. The optional time-zone offset is recorded but
/// takes no part in ordering or equality: capture devices frequently omit or
/// mis-record it, while the raw wall-clock fields stay comparable.
#[derive(Clone, Copy, Debug)]
pub struct CaptureTimestamp {
    pub year: u16,
    pub month: u8,
    pub day: u8,
    pub hour: u8,
    pub minute: u8,
    pub second: u8,
    pub nanosecond: u32,
    pub offset_minutes: Option<i16>,
}

/// Full equality over the seven ordering-relevant fields; the offset is ignored.
pub open spec fn ts_equal(a: CaptureTimestamp, b: CaptureTimestamp) -> bool {
    a.year == b.year && a.month == b.month && a.day == b.day && a.hour == b.hour
        && a.minute == b.minute && a.second == b.second && a.nanosecond == b.nanosecond
}

/// Calendar-date equality, used only for sequence-reset decisions.
pub open spec fn ts_same_date(a: CaptureTimestamp, b: CaptureTimestamp) -> bool {
    a.year == b.year && a.month == b.month && a.day == b.day
}

/// Strict lexicographic order over (year, month, day, hour, minute, second,
/// nanosecond); the first unequal field decides. The offset is ignored.
pub open spec fn ts_before(a: CaptureTimestamp, b: CaptureTimestamp) -> bool {
    if a.year != b.year {
        a.year < b.year
    } else if a.month != b.month {
        a.month < b.month
    } else if a.day != b.day {
        a.day < b.day
    } else if a.hour != b.hour {
        a.hour < b.hour
    } else if a.minute != b.minute {
        a.minute < b.minute
    } else if a.second != b.second {
        a.second < b.second
    } else {
        a.nanosecond < b.nanosecond
    }
}

/// Three-way comparison: -1, 0 or 1.
pub open spec fn ts_cmp(a: CaptureTimestamp, b: CaptureTimestamp) -> int {
    if ts_before(a, b) {
        -1
    } else if ts_equal(a, b) {
        0
    } else {
        1
    }
}

/// Non-strict order: `a` sorts no later than `b`.
pub open spec fn ts_le(a: CaptureTimestamp, b: CaptureTimestamp) -> bool {
    !ts_before(b, a)
}

/// True iff every ordering-relevant field of `a` equals the one of `b`.
pub fn equals(a: &CaptureTimestamp, b: &CaptureTimestamp) -> (r: bool)
    ensures
        r == ts_equal(*a, *b),
{
    a.year == b.year && a.month == b.month && a.day == b.day && a.hour == b.hour
        && a.minute == b.minute && a.second == b.second && a.nanosecond == b.nanosecond
}

/// True iff `a` and `b` fall on the same calendar date.
pub fn same_date(a: &CaptureTimestamp, b: &CaptureTimestamp) -> (r: bool)
    ensures
        r == ts_same_date(*a, *b),
{
    a.year == b.year && a.month == b.month && a.day == b.day
}

/// Three-way comparison over the seven ordering-relevant fields; returns -1,
/// 0 or 1. The offset is ignored.
pub fn compare(a: &CaptureTimestamp, b: &CaptureTimestamp) -> (r: i8)
    ensures
        r as int == ts_cmp(*a, *b),
{
    if a.year != b.year {
        if a.year < b.year { -1 } else { 1 }
    } else if a.month != b.month {
        if a.month < b.month { -1 } else { 1 }
    } else if a.day != b.day {
        if a.day < b.day { -1 } else { 1 }
    } else if a.hour != b.hour {
        if a.hour < b.hour { -1 } else { 1 }
    } else if a.minute != b.minute {
        if a.minute < b.minute { -1 } else { 1 }
    } else if a.second != b.second {
        if a.second < b.second { -1 } else { 1 }
    } else if a.nanosecond != b.nanosecond {
        if a.nanosecond < b.nanosecond { -1 } else { 1 }
    } else {
        0
    }
}

/// The comparison is antisymmetric, and equal timestamps compare as equal:
/// for all `a`, `b`, `ts_cmp(a, b) == -ts_cmp(b, a)`, and
/// `ts_equal(a, b)` implies `ts_cmp(a, b) == 0`.
pub proof fn lemma_compare_antisymmetric(a: CaptureTimestamp, b: CaptureTimestamp)
    ensures
        ts_cmp(a, b) == -ts_cmp(b, a),
        ts_equal(a, b) ==> ts_cmp(a, b) == 0,
{
}

/// Exactly one of `ts_before(a, b)`, `ts_equal(a, b)` and `ts_before(b, a)`
/// holds: the order is total.
pub proof fn lemma_order_trichotomy(a: CaptureTimestamp, b: CaptureTimestamp)
    ensures
        ts_before(a, b) || ts_equal(a, b) || ts_before(b, a),
        ts_before(a, b) ==> !ts_equal(a, b) && !ts_before(b, a),
        ts_equal(a, b) ==> !ts_before(a, b) && !ts_before(b, a),
{
}

/// The strict order is transitive.
pub proof fn lemma_before_transitive(a: CaptureTimestamp, b: CaptureTimestamp, c: CaptureTimestamp)
    ensures
        ts_before(a, b) && ts_before(b, c) ==> ts_before(a, c),
{
}

/// Date equality is an equivalence relation (reflexive, symmetric,
/// transitive) and is coarser than full equality:
/// `ts_equal(a, b)` implies `ts_same_date(a, b)`.
pub proof fn lemma_same_date_equivalence(a: CaptureTimestamp, b: CaptureTimestamp, c: CaptureTimestamp)
    ensures
        ts_same_date(a, a),
        ts_same_date(a, b) ==> ts_same_date(b, a),
        ts_same_date(a, b) && ts_same_date(b, c) ==> ts_same_date(a, c),
        ts_equal(a, b) ==> ts_same_date(a, b),
{
}

} // verus!
