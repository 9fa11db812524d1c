use vstd::prelude::*;
use vstd::string::StringExecFns;
use crate::timestamp::CaptureTimestamp;

verus! {

/// The character for one decimal digit.
pub open spec fn digit_char(d: int) -> char {
    if d == 0 { '0' }
    else if d == 1 { '1' }
    else if d == 2 { '2' }
    else if d == 3 { '3' }
    else if d == 4 { '4' }
    else if d == 5 { '5' }
    else if d == 6 { '6' }
    else if d == 7 { '7' }
    else if d == 8 { '8' }
    else { '9' }
}

/// The decimal digits of `n`, most significant first, no sign, no padding.
pub open spec fn dec_seq(n: int) -> Seq<char>
    decreases n,
{
    if n < 10 {
        seq![digit_char(n)]
    } else {
        dec_seq(n / 10).push(digit_char(n % 10))
    }
}

/// The decimal digits of `n`, left-padded with '0' to at least `w` characters.
pub open spec fn padded_dec(n: int, w: int) -> Seq<char> {
    if dec_seq(n).len() >= w {
        dec_seq(n)
    } else {
        Seq::new((w - dec_seq(n).len()) as nat, |i: int| '0') + dec_seq(n)
    }
}

/// The destination stem `{year}_{month:02}_{day:02}-{counter:04}`.
pub open spec fn stem_seq(t: CaptureTimestamp, counter: int) -> Seq<char> {
    padded_dec(t.year as int, 1) + seq!['_'] + padded_dec(t.month as int, 2) + seq!['_']
        + padded_dec(t.day as int, 2) + seq!['-'] + padded_dec(counter, 4)
}

/// The destination file name: the stem, a dot, and the original extension.
pub open spec fn dest_seq(t: CaptureTimestamp, counter: int, ext: Seq<char>) -> Seq<char> {
    stem_seq(t, counter) + seq!['.'] + ext
}

fn exec_digit_char(d: u8) -> (r: char)
    requires
        d < 10,
    ensures
        r == digit_char(d as int),
{
    if d == 0 { '0' }
    else if d == 1 { '1' }
    else if d == 2 { '2' }
    else if d == 3 { '3' }
    else if d == 4 { '4' }
    else if d == 5 { '5' }
    else if d == 6 { '6' }
    else if d == 7 { '7' }
    else if d == 8 { '8' }
    else { '9' }
}

fn push_digits(out: &mut Vec<char>, n: usize)
    ensures
        final(out)@ == old(out)@ + dec_seq(n as int),
    decreases n,
{
    if n >= 10 {
        push_digits(out, n / 10);
    }
    out.push(exec_digit_char((n % 10) as u8));
    proof {
        assert(out@ =~= old(out)@ + dec_seq(n as int));
    }
}

/// The decimal digits of `n`, left-padded with '0' to at least `w` characters.
pub fn format_padded(n: usize, w: usize) -> (r: Vec<char>)
    ensures
        r@ == padded_dec(n as int, w as int),
{
    let mut digits: Vec<char> = Vec::new();
    push_digits(&mut digits, n);
    let mut out: Vec<char> = Vec::new();
    if digits.len() < w {
        let pad = w - digits.len();
        let mut i: usize = 0;
        while i < pad
            invariant
                i <= pad,
                out@.len() == i,
                forall|j: int| 0 <= j < out@.len() ==> out@[j] == '0',
            decreases pad - i,
        {
            out.push('0');
            i = i + 1;
        }
    }
    proof {
        assert(out@ + digits@ =~= padded_dec(n as int, w as int));
    }
    out.append(&mut digits);
    out
}

/// The destination stem for a timestamp and counter, as characters.
pub fn format_stem(t: &CaptureTimestamp, counter: usize) -> (r: Vec<char>)
    ensures
        r@ == stem_seq(*t, counter as int),
{
    let mut out = format_padded(t.year as usize, 1);
    out.push('_');
    let mut part = format_padded(t.month as usize, 2);
    out.append(&mut part);
    out.push('_');
    let mut part2 = format_padded(t.day as usize, 2);
    out.append(&mut part2);
    out.push('-');
    let mut part3 = format_padded(counter, 4);
    out.append(&mut part3);
    proof {
        assert(out@ =~= stem_seq(*t, counter as int));
    }
    out
}

/// Relies on the `FromIterator` impl of `String` over `char`: collecting the
/// characters yields the string holding exactly those characters.
#[verifier::external_body]
fn chars_to_string(v: &Vec<char>) -> (r: String)
    ensures
        r@ == v@,
{
    v.iter().collect()
}

/// The destination file name for a timestamp, counter and extension.
pub fn destination_name(t: &CaptureTimestamp, counter: usize, ext: &String) -> (r: String)
    ensures
        r@ == dest_seq(*t, counter as int, ext@),
{
    let stem = format_stem(t, counter);
    let stem_string = chars_to_string(&stem);
    let with_dot = stem_string.concat(".");
    proof {
        reveal_strlit(".");
        assert(with_dot@ =~= stem_seq(*t, counter as int) + seq!['.']);
    }
    let r = with_dot.concat(ext.as_str());
    proof {
        assert(r@ =~= dest_seq(*t, counter as int, ext@));
    }
    r
}

} // verus!
