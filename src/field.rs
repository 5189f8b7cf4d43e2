//! Field decoding: the conversions that turn the text of one fixed-width field
//! into a typed value, and the slicing of a field out of a line.

use std::ops::Range;
use vstd::prelude::*;


verus! {

/// Why the text of a field could not be converted.
#[derive(PartialEq, Eq, Structural, Clone, Copy, Debug)]
pub enum ValueError {
    /// The field's range reaches past the end of the line, or the field is empty.
    Missing,
    /// The text is empty or holds a character that is not an ASCII digit.
    NotDigits,
    /// The digits denote a number too large for the target width.
    Overflow,
    /// Six digits that do not name a day of the calendar.
    InvalidDate,
    /// A one-character code outside its set; holds the first character found.
    InvalidCode(char),
}

/// The sign of an amount.
#[derive(PartialEq, Eq, Structural, Clone, Copy, Debug)]
pub enum Sign {
    Credit,
    Debit,
}

/// The amount `amount`, in minor units, with `sign` applied.
pub open spec fn signed_value(sign: Sign, amount: int) -> int {
    match sign {
        Sign::Credit => amount,
        Sign::Debit => -amount,
    }
}

impl Sign {
    /// `"+"` for a credit, `"-"` for a debit.
    pub fn to_sign(&self) -> (r: String)
        ensures
            r@ == (match *self {
                Sign::Credit => seq!['+'],
                Sign::Debit => seq!['-'],
            }),
    {
        proof {
            reveal_strlit("+");
            reveal_strlit("-");
        }
        match *self {
            Sign::Credit => String::from_str("+"),
            Sign::Debit => String::from_str("-"),
        }
    }

    /// The amount `amount`, in minor units, as a signed number.
    pub fn signed(&self, amount: u64) -> (r: i128)
        ensures
            r == signed_value(*self, amount as int),
    {
        match *self {
            Sign::Credit => amount as i128,
            Sign::Debit => -(amount as i128),
        }
    }
}

/// The error for a one-character code `s` that is not in its set.
pub open spec fn code_error(s: Seq<char>) -> ValueError {
    if s.len() == 0 {
        ValueError::Missing
    } else {
        ValueError::InvalidCode(s[0])
    }
}

/// `'0'` is a credit, `'1'` a debit.
pub open spec fn sign_of(s: Seq<char>) -> Result<Sign, ValueError> {
    if s == seq!['0'] {
        Ok(Sign::Credit)
    } else if s == seq!['1'] {
        Ok(Sign::Debit)
    } else {
        Err(code_error(s))
    }
}

/// `'D'` marks a duplicate statement, a space a first issue.
pub open spec fn duplicate_of(s: Seq<char>) -> Result<bool, ValueError> {
    if s == seq!['D'] {
        Ok(true)
    } else if s == seq![' '] {
        Ok(false)
    } else {
        Err(code_error(s))
    }
}

/// The only character of `s`, if it has exactly one.
fn single_char(s: &str) -> (r: Option<char>)
    ensures
        r == (if s@.len() == 1 { Some(s@[0]) } else { None::<char> }),
{
    if s.unicode_len() == 1 {
        Some(s.get_char(0))
    } else {
        None
    }
}

/// The error for a code that is not in its set.
fn code_error_exec(s: &str) -> (r: ValueError)
    ensures
        r == code_error(s@),
{
    if s.unicode_len() == 0 {
        ValueError::Missing
    } else {
        ValueError::InvalidCode(s.get_char(0))
    }
}

/// Decodes a sign: `"0"` is a credit, `"1"` a debit.
pub fn parse_sign(s: &str) -> (r: Result<Sign, ValueError>)
    ensures
        r == sign_of(s@),
{
    match single_char(s) {
        Some('0') => {
            assert(s@ =~= seq!['0']);
            Ok(Sign::Credit)
        },
        Some('1') => {
            assert(s@ =~= seq!['1']);
            Ok(Sign::Debit)
        },
        _ => Err(code_error_exec(s)),
    }
}

/// Decodes the duplicate flag: `"D"` is true, `" "` false.
pub fn parse_duplicate(s: &str) -> (r: Result<bool, ValueError>)
    ensures
        r == duplicate_of(s@),
{
    match single_char(s) {
        Some('D') => {
            assert(s@ =~= seq!['D']);
            Ok(true)
        },
        Some(' ') => {
            assert(s@ =~= seq![' ']);
            Ok(false)
        },
        _ => Err(code_error_exec(s)),
    }
}


pub open spec fn is_digit(c: char) -> bool {
    '0' <= c && c <= '9'
}

pub open spec fn digit_value(c: char) -> int {
    c as int - '0' as int
}

pub open spec fn all_digits(s: Seq<char>) -> bool {
    forall|i: int| 0 <= i < s.len() ==> is_digit(#[trigger] s[i])
}

/// The number that the decimal digits `s` denote, most significant first.
pub open spec fn digits_value(s: Seq<char>) -> int
    decreases s.len(),
{
    if s.len() == 0 {
        0
    } else {
        10 * digits_value(s.drop_last()) + digit_value(s.last())
    }
}

/// A non-empty run of decimal digits whose value is at most `max`.
pub open spec fn unsigned_of(s: Seq<char>, max: int) -> Result<int, ValueError> {
    if s.len() == 0 || !all_digits(s) {
        Err(ValueError::NotDigits)
    } else if digits_value(s) > max {
        Err(ValueError::Overflow)
    } else {
        Ok(digits_value(s))
    }
}

pub open spec fn u8_of(s: Seq<char>) -> Result<u8, ValueError> {
    match unsigned_of(s, u8::MAX as int) {
        Ok(v) => Ok(v as u8),
        Err(e) => Err(e),
    }
}

pub open spec fn u32_of(s: Seq<char>) -> Result<u32, ValueError> {
    match unsigned_of(s, u32::MAX as int) {
        Ok(v) => Ok(v as u32),
        Err(e) => Err(e),
    }
}

pub open spec fn u64_of(s: Seq<char>) -> Result<u64, ValueError> {
    match unsigned_of(s, u64::MAX as int) {
        Ok(v) => Ok(v as u64),
        Err(e) => Err(e),
    }
}

pub proof fn lemma_digits_value_nonneg(s: Seq<char>)
    requires
        all_digits(s),
    ensures
        digits_value(s) >= 0,
    decreases s.len(),
{
    if s.len() > 0 {
        lemma_digits_value_nonneg(s.drop_last());
    }
}

/// A longer run of digits never denotes a smaller number than its prefix.
proof fn lemma_digits_value_prefix(s: Seq<char>, k: int)
    requires
        all_digits(s),
        0 <= k <= s.len(),
    ensures
        digits_value(s.take(k)) <= digits_value(s),
    decreases s.len() - k,
{
    if k < s.len() {
        let t = s.take(k + 1);
        assert(t.drop_last() =~= s.take(k));
        assert(all_digits(s.take(k)));
        lemma_digits_value_nonneg(s.take(k));
        lemma_digits_value_prefix(s, k + 1);
    } else {
        assert(s.take(k) =~= s);
    }
}

/// The number that `s` denotes, if it is at most `max`.
fn parse_unsigned(s: &str, max: u64) -> (r: Result<u64, ValueError>)
    ensures
        match r {
            Ok(v) => unsigned_of(s@, max as int) == Ok::<int, ValueError>(v as int),
            Err(e) => unsigned_of(s@, max as int) == Err::<int, ValueError>(e),
        },
{
    let cs = crate::text::chars_of(s);
    let n = cs.len();
    if n == 0 {
        return Err(ValueError::NotDigits);
    }
    let mut i: usize = 0;
    while i < n
        invariant
            cs@ == s@,
            n == cs.len(),
            i <= n,
            forall|j: int| 0 <= j < i ==> is_digit(#[trigger] cs@[j]),
        decreases n - i,
    {
        let c = cs[i];
        if !('0' <= c && c <= '9') {
            return Err(ValueError::NotDigits);
        }
        i = i + 1;
    }
    assert(all_digits(s@));
    let mut v: u64 = 0;
    let mut i: usize = 0;
    while i < n
        invariant
            cs@ == s@,
            n == cs.len(),
            i <= n,
            all_digits(s@),
            v as int == digits_value(s@.take(i as int)),
            v <= max,
        decreases n - i,
    {
        let d = (cs[i] as u32 - '0' as u32) as u64;
        assert(s@.take(i + 1).drop_last() =~= s@.take(i as int));
        assert(is_digit(s@[i as int]));
        let next: u128 = (v as u128) * 10 + (d as u128);
        if next > max as u128 {
            proof {
                lemma_digits_value_prefix(s@, i + 1);
            }
            return Err(ValueError::Overflow);
        }
        v = next as u64;
        i = i + 1;
    }
    assert(s@.take(n as int) =~= s@);
    Ok(v)
}

/// Decodes an unsigned 8-bit number written in decimal digits.
pub fn parse_u8(s: &str) -> (r: Result<u8, ValueError>)
    ensures
        r == u8_of(s@),
{
    match parse_unsigned(s, 255) {
        Ok(v) => Ok(v as u8),
        Err(e) => Err(e),
    }
}

/// Decodes an unsigned 32-bit number written in decimal digits.
pub fn parse_u32(s: &str) -> (r: Result<u32, ValueError>)
    ensures
        r == u32_of(s@),
{
    match parse_unsigned(s, 4294967295) {
        Ok(v) => Ok(v as u32),
        Err(e) => Err(e),
    }
}

/// Decodes an unsigned 64-bit number written in decimal digits.
pub fn parse_u64(s: &str) -> (r: Result<u64, ValueError>)
    ensures
        r == u64_of(s@),
{
    parse_unsigned(s, 18446744073709551615)
}

/// `s` without its trailing spaces.
pub open spec fn trim_end(s: Seq<char>) -> Seq<char>
    decreases s.len(),
{
    if s.len() > 0 && s.last() == ' ' {
        trim_end(s.drop_last())
    } else {
        s
    }
}

/// The field text unchanged.
pub fn parse_str(s: &str) -> (r: Result<String, ValueError>)
    ensures
        match r {
            Ok(v) => v@ == s@,
            Err(_) => false,
        },
{
    Ok(String::from_str(s))
}

/// The number of characters of `s` that remain once trailing spaces are removed.
fn trimmed_len(s: &str) -> (k: usize)
    ensures
        k <= s@.len(),
        s@.take(k as int) == trim_end(s@),
{
    let cs = crate::text::chars_of(s);
    let mut k = cs.len();
    assert(s@.take(k as int) =~= s@);
    while k > 0 && cs[k - 1] == ' '
        invariant
            cs@ == s@,
            k <= cs.len(),
            trim_end(s@.take(k as int)) == trim_end(s@),
        decreases k,
    {
        assert(s@.take(k as int).drop_last() =~= s@.take(k - 1));
        k = k - 1;
    }
    k
}

/// The field text without its trailing spaces.
pub fn parse_str_trim(s: &str) -> (r: Result<String, ValueError>)
    ensures
        match r {
            Ok(v) => v@ == trim_end(s@),
            Err(_) => false,
        },
{
    let k = trimmed_len(s);
    Ok(String::from_str(s.substring_char(0, k)))
}

/// A line break followed by the field text without its trailing spaces: the
/// piece that a continuation line adds to a text that it extends.
pub fn parse_str_append(s: &str) -> (r: Result<String, ValueError>)
    ensures
        match r {
            Ok(v) => v@ == seq!['\n'] + trim_end(s@),
            Err(_) => false,
        },
{
    let k = trimmed_len(s);
    let mut out = String::from_str("\n");
    proof {
        reveal_strlit("\n");
    }
    out.append(s.substring_char(0, k));
    Ok(out)
}


/// The characters of `s` at positions `start..end`, leaving out those
/// positions that lie past the end of `s`.
pub open spec fn clamped_range(s: Seq<char>, start: int, end: int) -> Seq<char> {
    let lo = if start <= s.len() { start } else { s.len() as int };
    let hi = if end <= s.len() { end } else { s.len() as int };
    s.subrange(lo, hi)
}

/// Character-indexed slicing of text.
pub trait StringUtils: Sized {
    /// The characters of the text.
    spec fn char_seq(&self) -> Seq<char>;

    /// The characters at positions `range`, as many of them as exist.
    fn get_range(&self, range: Range<usize>) -> (r: Self)
        requires
            range.start <= range.end,
        ensures
            r.char_seq() == clamped_range(self.char_seq(), range.start as int, range.end as int),
    ;
}

impl StringUtils for String {
    open spec fn char_seq(&self) -> Seq<char> {
        self@
    }

    fn get_range(&self, range: Range<usize>) -> (r: String) {
        let len = self.as_str().unicode_len();
        let lo = if range.start <= len {
            range.start
        } else {
            len
        };
        let hi = if range.end <= len {
            range.end
        } else {
            len
        };
        String::from_str(self.as_str().substring_char(lo, hi))
    }
}

/// Slices the characters at positions `range` out of `line` and converts
/// them with `convert`. A range that reaches past the end of the line is
/// an error, never cut short.
pub fn parse_field<T, F: Fn(&str) -> Result<T, ValueError>>(
    line: &str,
    range: Range<usize>,
    convert: F,
) -> (r: Result<T, ValueError>)
    requires
        range.start <= range.end,
        forall|s: &str| convert.requires((s,)),
    ensures
        range.end > line@.len() ==> r == Err::<T, ValueError>(ValueError::Missing),
        range.end <= line@.len() ==> exists|s: &str|
            s@ == line@.subrange(range.start as int, range.end as int) && convert.ensures((s,), r),
{
    if range.end > line.unicode_len() {
        return Err(ValueError::Missing);
    }
    let text = line.substring_char(range.start, range.end);
    convert(text)
}

} // verus!
