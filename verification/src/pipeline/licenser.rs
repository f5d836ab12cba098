//! License files and the header written into modified files.

use vstd::prelude::*;
use crate::strs::{concat, from_chars, join, push_char, push_str, seqs, to_owned, vec_contains_str};

verus! {

#[verifier::external_type_specification]
#[verifier::external_body]
pub struct ExSystemTime(std::time::SystemTime);

/// The license file names looked for in a package, in order of preference.
pub fn license_file_names() -> (r: Vec<String>)
    ensures
        seqs(r@) == seq!["LICENSE"@, "LICENSE.txt"@, "LICENSE.md"@, "LICENCE"@, "LICENCE.txt"@, "LICENCE.md"@,
            "COPYING"@, "COPYING.txt"@, "NOTICE"@, "NOTICE.txt"@],
{
    let r = vec![
        to_owned("LICENSE"),
        to_owned("LICENSE.txt"),
        to_owned("LICENSE.md"),
        to_owned("LICENCE"),
        to_owned("LICENCE.txt"),
        to_owned("LICENCE.md"),
        to_owned("COPYING"),
        to_owned("COPYING.txt"),
        to_owned("NOTICE"),
        to_owned("NOTICE.txt"),
    ];
    assert(seqs(r@) =~= seq!["LICENSE"@, "LICENSE.txt"@, "LICENSE.md"@, "LICENCE"@, "LICENCE.txt"@, "LICENCE.md"@,
        "COPYING"@, "COPYING.txt"@, "NOTICE"@, "NOTICE.txt"@]);
    r
}

/// The license file to copy from a package: the first name, in order of
/// preference, among the files present.
pub fn license_to_copy(present: &Vec<String>) -> (r: Option<String>)
    ensures
        match r {
            Some(name) => exists|i: int| 0 <= i < license_names().len() && license_names()[i] == name@
                && seqs(present@).contains(name@)
                && forall|j: int| 0 <= j < i ==> !seqs(present@).contains(#[trigger] license_names()[j]),
            None => forall|j: int| 0 <= j < license_names().len() ==> !seqs(present@).contains(#[trigger] license_names()[j]),
        },
{
    let names = license_file_names();
    let mut i: usize = 0;
    while i < names.len()
        invariant
            seqs(names@) == license_names(),
            i <= names.len(),
            forall|j: int| 0 <= j < i ==> !seqs(present@).contains(#[trigger] license_names()[j]),
        decreases names.len() - i,
    {
        assert(seqs(names@)[i as int] == names@[i as int]@);
        if vec_contains_str(present, names[i].as_str()) {
            return Some(names[i].clone());
        }
        i += 1;
    }
    None
}

/// The license file names in order of preference.
pub open spec fn license_names() -> Seq<Seq<char>> {
    seq!["LICENSE"@, "LICENSE.txt"@, "LICENSE.md"@, "LICENCE"@, "LICENCE.txt"@, "LICENCE.md"@,
        "COPYING"@, "COPYING.txt"@, "NOTICE"@, "NOTICE.txt"@]
}

/// The decimal digits of a number.
pub open spec fn decimal(n: nat) -> Seq<char>
    decreases n,
{
    if n < 10 {
        seq![(('0' as u32) + n) as char]
    } else {
        decimal(n / 10).push((('0' as u32) + n % 10) as char)
    }
}

/// The decimal digits of a number, with `0`s in front up to the width.
pub open spec fn zero_padded(n: nat, width: nat) -> Seq<char> {
    let d = decimal(n);
    if d.len() >= width {
        d
    } else {
        Seq::new((width - d.len()) as nat, |i: int| '0') + d
    }
}

/// The calendar-like date of a time, counted in seconds since 1970: years of 365
/// days and months of 30 days, as `yyyy-mm-dd`.
pub open spec fn epoch_date(secs: u64) -> Seq<char> {
    let days = secs / 86400;
    let year = 1970 + days / 365;
    let remaining = days % 365;
    let month = remaining / 30 + 1;
    let day = remaining % 30 + 1;
    zero_padded(year as nat, 4) + seq!['-'] + zero_padded(month as nat, 2) + seq!['-'] + zero_padded(day as nat, 2)
}

/// The decimal digits of a number.
fn decimal_string(n: u64) -> (r: String)
    ensures
        r@ == decimal(n as nat),
    decreases n,
{
    if n < 10 {
        let mut s = String::new();
        let c = char_of_digit(n);
        push_char(&mut s, c);
        assert(s@ =~= seq![c]);
        s
    } else {
        let mut s = decimal_string(n / 10);
        let c = char_of_digit(n % 10);
        push_char(&mut s, c);
        s
    }
}

/// The character of a decimal digit.
fn char_of_digit(d: u64) -> (c: char)
    requires
        d < 10,
    ensures
        c == (('0' as u32) + d) as char,
{
    if d == 0 { '0' } else if d == 1 { '1' } else if d == 2 { '2' } else if d == 3 { '3' } else if d == 4 { '4' }
    else if d == 5 { '5' } else if d == 6 { '6' } else if d == 7 { '7' } else if d == 8 { '8' } else { '9' }
}

/// A number with `0`s in front up to the width (`format!("{:0w$}")`).
fn zero_padded_string(n: u64, width: usize) -> (r: String)
    ensures
        r@ == zero_padded(n as nat, width as nat),
{
    let d = decimal_string(n);
    let len = to_chars_len(&d);
    if len >= width {
        d
    } else {
        let mut s = String::new();
        let mut k: usize = 0;
        while k < width - len
            invariant
                k <= width - len,
                s@ == Seq::new(k as nat, |i: int| '0'),
            decreases width - len - k,
        {
            push_char(&mut s, '0');
            k += 1;
            assert(s@ =~= Seq::new(k as nat, |i: int| '0'));
        }
        push_str(&mut s, d.as_str());
        s
    }
}

/// The number of characters of a string.
fn to_chars_len(s: &String) -> (r: usize)
    ensures
        r == s@.len(),
{
    crate::strs::to_chars(s.as_str()).len()
}

/// The date of a time in seconds since 1970 (see [`epoch_date`]).
pub fn date_from_epoch_seconds(secs: u64) -> (r: String)
    ensures
        r@ == epoch_date(secs),
{
    let days = secs / 86400;
    let year = 1970 + days / 365;
    let remaining = days % 365;
    let month = remaining / 30 + 1;
    let day = remaining % 30 + 1;
    let mut r = zero_padded_string(year, 4);
    push_char(&mut r, '-');
    let m = zero_padded_string(month, 2);
    push_str(&mut r, m.as_str());
    push_char(&mut r, '-');
    let d = zero_padded_string(day, 2);
    push_str(&mut r, d.as_str());
    r
}

/// Calls `std::time::SystemTime::now`. Nothing is claimed of the result.
#[verifier::external_body]
fn system_now() -> (r: std::time::SystemTime) {
    std::time::SystemTime::now()
}

/// Calls `std::time::SystemTime::duration_since` with the Unix epoch and takes
/// whole seconds; `None` when the time lies before the epoch. Nothing is claimed
/// of the value.
#[verifier::external_body]
fn seconds_since_epoch(t: std::time::SystemTime) -> (r: Option<u64>) {
    t.duration_since(std::time::UNIX_EPOCH).ok().map(|d| d.as_secs())
}

/// Today's date as `yyyy-mm-dd` (see [`epoch_date`]); none when the clock is
/// set before 1970, for which there is no such date.
pub fn chrono_like_date() -> (r: Option<String>)
    ensures
        r matches Some(d) ==> exists|secs: u64| d@ == epoch_date(secs),
{
    match seconds_since_epoch(system_now()) {
        Some(s) => Some(date_from_epoch_seconds(s)),
        None => None,
    }
}

/// The header lines of a modified file: the author when asked for, the date when
/// asked for, then the tool's name.
pub open spec fn header_lines(author: Seq<char>, include_date: bool, include_author: bool, date: Seq<char>) -> Seq<Seq<char>> {
    (if include_author { seq![" * Modified by "@ + author] } else { Seq::empty() })
        + (if include_date { seq![" * on "@ + date] } else { Seq::empty() })
        + seq![" * using strauss-rs"@]
}

/// The doc comment put at the top of a modified file, for a given date.
pub open spec fn header_with_date(author: Seq<char>, include_date: bool, include_author: bool, date: Seq<char>) -> Seq<char> {
    "/**\n"@ + join(header_lines(author, include_date, include_author, date), seq!['\n']) + "\n */\n"@
}

/// The doc comment put at the top of a modified file, dated with `date`.
pub fn header_for_date(author: &str, include_date: bool, include_author: bool, date: &str) -> (r: String)
    ensures
        r@ == header_with_date(author@, include_date, include_author, date@),
{
    let mut parts: Vec<String> = Vec::new();
    if include_author {
        parts.push(concat(" * Modified by ", author));
    }
    if include_date {
        parts.push(concat(" * on ", date));
    }
    parts.push(to_owned(" * using strauss-rs"));
    proof {
        reveal_strlit("\n");
        assert("\n"@ =~= seq!['\n']);
        assert(seqs(parts@) =~= header_lines(author@, include_date, include_author, date@));
    }
    let body = crate::strs::join_str(&parts, "\n");
    let mut r = to_owned("/**\n");
    push_str(&mut r, body.as_str());
    push_str(&mut r, "\n */\n");
    r
}

/// The doc comment put at the top of a modified file, dated today (see
/// [`header_with_date`] and [`epoch_date`]); none when a date is asked for and
/// the clock is set before 1970.
pub fn modification_header(author: &str, include_date: bool, include_author: bool) -> (r: Option<String>)
    ensures
        r matches Some(h) ==> exists|secs: u64| h@ == header_with_date(author@, include_date, include_author, epoch_date(secs)),
        !include_date ==> r is Some,
{
    if include_date {
        match chrono_like_date() {
            Some(date) => Some(header_for_date(author, true, include_author, date.as_str())),
            None => None,
        }
    } else {
        let date = date_from_epoch_seconds(0);
        Some(header_for_date(author, false, include_author, date.as_str()))
    }
}

} // verus!
