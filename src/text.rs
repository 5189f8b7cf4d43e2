//! Text handling around the records: decoding raw bytes in a named legacy
//! encoding, and cutting text into lines.

use vstd::prelude::*;

use crate::statement::CodaError;

verus! {

/// The characters of `s`, in order.
pub fn chars_of(s: &str) -> (r: Vec<char>)
    ensures
        r@ == s@,
{
    let mut r: Vec<char> = Vec::new();
    for c in it: s.chars()
        invariant
            r@ == it.seq().take(it.index() as int),
            it.seq() == s@,
    {
        r.push(c);
    }
    r
}

/// `l` without one final carriage return.
pub open spec fn strip_cr(l: Seq<char>) -> Seq<char> {
    if l.len() > 0 && l.last() == '\r' {
        l.drop_last()
    } else {
        l
    }
}

/// The lines that the first `n` characters of `s` complete, each ended by a
/// line feed (and a carriage return before it, if any, dropped), together
/// with the position where the line still open begins.
pub open spec fn split_prefix(s: Seq<char>, n: nat) -> (Seq<Seq<char>>, int)
    decreases n,
{
    if n == 0 {
        (Seq::empty(), 0)
    } else {
        let prev = split_prefix(s, (n - 1) as nat);
        if s[n - 1] == '\n' {
            (prev.0.push(strip_cr(s.subrange(prev.1, n - 1))), n as int)
        } else {
            prev
        }
    }
}

/// The lines of `s`: a line feed ends a line, a carriage return just before
/// it is dropped, and a last line need not be ended.
pub open spec fn lines_of(s: Seq<char>) -> Seq<Seq<char>> {
    let p = split_prefix(s, s.len());
    if p.1 < s.len() {
        p.0.push(s.subrange(p.1, s.len() as int))
    } else {
        p.0
    }
}

/// Cuts `text` into lines.
pub fn split_lines(text: &str) -> (r: Vec<String>)
    ensures
        r@.map_values(|l: String| l@) == lines_of(text@),
{
    let cs = chars_of(text);
    let n = cs.len();
    let mut lines: Vec<String> = Vec::new();
    let mut start: usize = 0;
    let mut i: usize = 0;
    while i < n
        invariant
            cs@ == text@,
            n == cs.len(),
            i <= n,
            start <= i,
            lines@.map_values(|l: String| l@) == split_prefix(text@, i as nat).0,
            start as int == split_prefix(text@, i as nat).1,
        decreases n - i,
    {
        if cs[i] == '\n' {
            let end = if i > start && cs[i - 1] == '\r' {
                i - 1
            } else {
                i
            };
            let line = String::from_str(text.substring_char(start, end));
            proof {
                let whole = text@.subrange(start as int, i as int);
                if i > start && cs@[i - 1] == '\r' {
                    assert(whole.drop_last() =~= text@.subrange(start as int, end as int));
                }
                assert(strip_cr(whole) =~= line@);
                assert(lines@.push(line).map_values(|l: String| l@) =~= lines@.map_values(
                    |l: String| l@,
                ).push(line@));
            }
            lines.push(line);
            start = i + 1;
        }
        i = i + 1;
    }
    if start < n {
        let line = String::from_str(text.substring_char(start, n));
        proof {
            assert(lines@.push(line).map_values(|l: String| l@) =~= lines@.map_values(
                |l: String| l@,
            ).push(line@));
        }
        lines.push(line);
    }
    lines
}

/// Whether the encoding crate knows `label` as the name of an encoding.
pub uninterp spec fn whatwg_label_known(label: Seq<char>) -> bool;

/// The text that `bytes` denote in the encoding named `label`, if every byte
/// sequence in them is valid there.
pub uninterp spec fn strict_decoding(label: Seq<char>, bytes: Seq<u8>) -> Option<Seq<char>>;

/// The outcome of decoding bytes in a named encoding.
enum Decoded {
    Text(String),
    UnknownLabel,
    Malformed,
}

/// Relies on the encoding crate: `encoding::label::encoding_from_whatwg_label`
/// to look the encoding up by its WHATWG label, and that encoding's
/// `Encoding::decode` with `DecoderTrap::Strict`, which fails on the first
/// invalid byte sequence. The encoding found cannot leave this function, so
/// both calls stand in it.
#[verifier::external_body]
fn decode_in(bytes: &[u8], label: &str) -> (r: Decoded)
    ensures
        match r {
            Decoded::Text(t) => whatwg_label_known(label@) && strict_decoding(label@, bytes@)
                == Some(t@),
            Decoded::UnknownLabel => !whatwg_label_known(label@),
            Decoded::Malformed => whatwg_label_known(label@) && strict_decoding(label@, bytes@)
                is None,
        },
{
    match encoding::label::encoding_from_whatwg_label(label) {
        None => Decoded::UnknownLabel,
        Some(enc) => match enc.decode(bytes, encoding::DecoderTrap::Strict) {
            Ok(t) => Decoded::Text(t),
            Err(_) => Decoded::Malformed,
        },
    }
}


/// Decodes `bytes` as text in the encoding named `label`, failing on an
/// unknown name or on the first invalid byte sequence.
pub fn decode_text(bytes: &[u8], label: &str) -> (r: Result<String, CodaError>)
    ensures
        match r {
            Ok(t) => whatwg_label_known(label@) && strict_decoding(label@, bytes@) == Some(t@),
            Err(e) => (e == CodaError::UnknownEncoding && !whatwg_label_known(label@)) || (e
                == CodaError::Undecodable && whatwg_label_known(label@) && strict_decoding(
                label@,
                bytes@,
            ) is None),
        },
{
    match decode_in(bytes, label) {
        Decoded::Text(t) => Ok(t),
        Decoded::UnknownLabel => Err(CodaError::UnknownEncoding),
        Decoded::Malformed => Err(CodaError::Undecodable),
    }
}

} // verus!
