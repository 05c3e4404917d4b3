//! Lines of the log file (`tvoice.log` next to the executable): each entry is the
//! local time to the millisecond in brackets, then the message. Writing the file
//! and reading the clock belong to the application.
use vstd::prelude::*;
use crate::hotkey::append_str;
use crate::text::{concat, decimal, string_of, write_decimal};

verus! {

/// `n` in decimal, zero-padded to at least `width` digits (`{:0width$}`).
pub open spec fn padded(n: nat, width: nat) -> Seq<char> {
    let d = decimal(n);
    if d.len() >= width {
        d
    } else {
        Seq::new((width - d.len()) as nat, |i: int| '0') + d
    }
}

fn write_padded(n: u64, width: usize) -> (r: Vec<char>)
    ensures
        r@ == padded(n as nat, width as nat),
{
    let d = write_decimal(n);
    if d.len() >= width {
        return d;
    }
    let mut z: Vec<char> = Vec::new();
    let k = width - d.len();
    while z.len() < k
        invariant
            z.len() <= k,
            forall|i: int| 0 <= i < z@.len() ==> z@[i] == '0',
        decreases k - z.len(),
    {
        z.push('0');
    }
    assert(z@ =~= Seq::new((width - d@.len()) as nat, |i: int| '0'));
    concat(&z, &d)
}

/// The time of day as the log writes it: `HH:MM:SS.mmm`.
pub open spec fn spec_stamp(hour: u16, minute: u16, second: u16, millis: u16) -> Seq<char> {
    padded(hour as nat, 2) + seq![':'] + padded(minute as nat, 2) + seq![':'] + padded(second as nat, 2)
        + seq!['.'] + padded(millis as nat, 3)
}

pub fn stamp(hour: u16, minute: u16, second: u16, millis: u16) -> (r: String)
    ensures
        r@ == spec_stamp(hour, minute, second, millis),
{
    let mut v = write_padded(hour as u64, 2);
    v.push(':');
    let m = write_padded(minute as u64, 2);
    let mut v = concat(&v, &m);
    v.push(':');
    let s = write_padded(second as u64, 2);
    let mut v = concat(&v, &s);
    v.push('.');
    let ms = write_padded(millis as u64, 3);
    let v = concat(&v, &ms);
    string_of(&v)
}

/// One entry of the log: `[stamp] message` and a line feed.
pub fn entry(stamp: &str, msg: &str) -> (r: String)
    ensures
        r@ == seq!['['] + stamp@ + "] "@ + msg@ + seq!['\n'],
{
    let mut v: Vec<char> = Vec::new();
    v.push('[');
    append_str(&mut v, stamp);
    append_str(&mut v, "] ");
    append_str(&mut v, msg);
    v.push('\n');
    string_of(&v)
}

/// A text cut to at most `max` characters for a narrow place: when longer, its
/// first `max - 1` characters (trailing whitespace removed) and an ellipsis.
pub open spec fn spec_shorten(s: Seq<char>, max: nat) -> Seq<char> {
    if s.len() <= max {
        s
    } else {
        crate::text::trim_end(s.take(if max >= 1 { max - 1 } else { 0 })) + seq!['…']
    }
}

pub fn shorten(s: &str, max: usize) -> (r: String)
    ensures
        r@ == spec_shorten(s@, max as nat),
{
    let c = crate::text::chars_of(s);
    if c.len() <= max {
        return string_of(&c);
    }
    let keep = if max >= 1 { max - 1 } else { 0 };
    let mut j = keep;
    assert(c@.take(keep as int).subrange(0, j as int) =~= c@.take(keep as int));
    while j > 0 && crate::text::is_whitespace(c[j - 1])
        invariant
            j <= keep < c.len(),
            crate::text::trim_end(c@.take(keep as int)) == crate::text::trim_end(c@.take(j as int)),
        decreases j,
    {
        assert(c@.take(j as int).drop_last() =~= c@.take(j - 1));
        j -= 1;
    }
    let mut out: Vec<char> = Vec::new();
    let mut k: usize = 0;
    while k < j
        invariant
            k <= j < c.len() || (k <= j && j <= c.len()),
            j <= c.len(),
            out@ == c@.take(k as int),
        decreases j - k,
    {
        out.push(c[k]);
        k += 1;
        assert(out@ =~= c@.take(k as int));
    }
    assert(j == 0 || !crate::text::white_space(c@.take(j as int).last()));
    assert(crate::text::trim_end(c@.take(j as int)) == c@.take(j as int));
    out.push('…');
    string_of(&out)
}

/// The name of a recording: `tvoice_YYYYMMDD_HHMMSS.wav` in local time.
pub open spec fn spec_recording_name(year: u16, month: u16, day: u16, hour: u16, minute: u16, second: u16) -> Seq<char> {
    "tvoice_"@ + padded(year as nat, 4) + padded(month as nat, 2) + padded(day as nat, 2) + seq!['_']
        + padded(hour as nat, 2) + padded(minute as nat, 2) + padded(second as nat, 2) + ".wav"@
}

pub fn recording_name(year: u16, month: u16, day: u16, hour: u16, minute: u16, second: u16) -> (r: String)
    ensures
        r@ == spec_recording_name(year, month, day, hour, minute, second),
{
    let mut v: Vec<char> = Vec::new();
    append_str(&mut v, "tvoice_");
    let v = concat(&v, &write_padded(year as u64, 4));
    let v = concat(&v, &write_padded(month as u64, 2));
    let mut v = concat(&v, &write_padded(day as u64, 2));
    v.push('_');
    let v = concat(&v, &write_padded(hour as u64, 2));
    let v = concat(&v, &write_padded(minute as u64, 2));
    let mut v = concat(&v, &write_padded(second as u64, 2));
    append_str(&mut v, ".wav");
    string_of(&v)
}

} // verus!
