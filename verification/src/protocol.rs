//! The text line protocol spoken with the server: how a command is framed,
//! how the `OK <bytes>` header of a reply is read, and how a reply line and
//! a reply body are checked.
use vstd::prelude::*;
use vstd::string::StringExecFns;
use vstd::string::StringSliceAdditionalSpecFns;
use vstd::utf8::{valid_utf8, decode_utf8, encode_utf8};
use crate::text::{trim, parse_unsigned, chars_of, trim_chars, trim_end_chars, string_from_chars, trim_end};

verus! {

/// Why a reply could not be read.
#[derive(Debug)]
pub enum ReplyError {
    /// The connection ended before a line arrived.
    Closed,
    /// The reply line did not start with `OK `; it holds that line.
    NotOk(String),
    /// The byte count after `OK ` is not a `usize`.
    BadLength,
    /// The body is not UTF-8.
    BadUtf8,
}

/// The command that asks for one tube's statistics.
pub open spec fn stats_tube_line(tube: Seq<char>) -> Seq<char> {
    "stats-tube "@ + tube
}

/// The command that asks for one tube's statistics: `stats-tube <tube>`.
pub fn stats_tube_command(tube: &str) -> (r: String)
    ensures
        r@ == stats_tube_line(tube@),
        r@ == "stats-tube "@ + tube@,
{
    let mut r = String::from_str("stats-tube ");
    r.append(tube);
    r
}

/// Law: the command for a tube is `stats-tube `, then the whole tube name,
/// neither cut nor changed: for every name `t`, the command ends with `t`
/// and is exactly 11 characters longer.
pub proof fn stats_tube_line_names_whole_tube(t: Seq<char>)
    ensures
        stats_tube_line(t) == "stats-tube "@ + t,
        stats_tube_line(t).len() == 11 + t.len(),
        stats_tube_line(t).skip(11) == t,
{
    reveal_strlit("stats-tube ");
    assert(("stats-tube "@ + t).skip(11) =~= t);
}

/// The bytes sent for a command line: its UTF-8 encoding, then `\r\n`.
pub fn frame_line(line: &str) -> (b: Vec<u8>)
    ensures
        b@ == encode_utf8(line@) + seq![13u8, 10u8],
{
    let mut b = vstd::slice::slice_to_vec(line.as_bytes());
    b.push(13u8);
    b.push(10u8);
    assert(b@ =~= line.spec_bytes() + seq![13u8, 10u8]);
    b
}

/// A reply line that announces a body: it starts with `OK `.
pub open spec fn is_ok_line(line: Seq<char>) -> bool {
    line.len() >= 3 && line[0] == 'O' && line[1] == 'K' && line[2] == ' '
}

/// The body length that an `OK` line announces: the text after `OK `,
/// trimmed, read as a `usize`.
pub open spec fn announced_length(line: Seq<char>) -> Option<nat> {
    parse_unsigned(trim(line.skip(3)), usize::MAX as nat)
}

proof fn lemma_trim_digits(s: Seq<char>)
    requires
        s.len() > 0,
        crate::text::all_digits(s),
    ensures
        trim(s) == s,
{
    assert(crate::text::is_digit(s[0]));
    assert(crate::text::is_digit(s.last()));
    assert(crate::text::trim_start(s) == s);
}

/// Law: the header `OK <n>` that announces a body of `n` bytes reads back
/// as `n`, for every length that fits in a `usize`.
pub proof fn ok_header_roundtrip(n: nat)
    requires
        n <= usize::MAX,
    ensures
        is_ok_line(seq!['O', 'K', ' '] + crate::text::decimal(n)),
        announced_length(seq!['O', 'K', ' '] + crate::text::decimal(n)) == Some(n),
{
    let line = seq!['O', 'K', ' '] + crate::text::decimal(n);
    crate::text::lemma_decimal_digits(n);
    assert(line.skip(3) =~= crate::text::decimal(n));
    lemma_trim_digits(crate::text::decimal(n));
    crate::text::decimal_parse_roundtrip(n, usize::MAX as nat);
}

/// Reads the header line of a reply that carries a body (`OK <bytes>`):
/// the body's length, or why there is none.
pub fn parse_ok_header(line: &str) -> (r: Result<usize, ReplyError>)
    ensures
        match r {
            Ok(n) => is_ok_line(line@) && announced_length(line@) == Some(n as nat),
            Err(ReplyError::NotOk(l)) => !is_ok_line(line@) && l@ == line@,
            Err(ReplyError::BadLength) => is_ok_line(line@) && announced_length(line@) is None,
            Err(_) => false,
        },
{
    let cs = chars_of(line);
    if !(cs.len() >= 3 && cs[0] == 'O' && cs[1] == 'K' && cs[2] == ' ') {
        return Err(ReplyError::NotOk(String::from_str(line)));
    }
    let rest = crate::text::copy_range(cs.as_slice(), 3, cs.len());
    assert(rest@ =~= line@.skip(3));
    let t = trim_chars(rest.as_slice());
    match crate::text::parse_u64(t.as_slice()) {
        Some(n) => {
            if n <= usize::MAX as u64 {
                Ok(n as usize)
            } else {
                Err(ReplyError::BadLength)
            }
        },
        None => Err(ReplyError::BadLength),
    }
}

/// The bytes of `bytes` decoded as UTF-8, if they are valid UTF-8 (std's
/// `String::from_utf8`).
#[verifier::external_body]
fn utf8_string(bytes: Vec<u8>) -> (r: Option<String>)
    ensures
        r is Some <==> valid_utf8(bytes@),
        r matches Some(s) ==> s@ == decode_utf8(bytes@),
{
    String::from_utf8(bytes).ok()
}

/// The body that a reply of `len` bytes holds, once `buf` was filled with
/// the body and the `\r\n` after it: the first `len` bytes, decoded as
/// UTF-8.
pub fn decode_body(buf: Vec<u8>, len: usize) -> (r: Result<String, ReplyError>)
    ensures
        ({
            let body = if len <= buf@.len() {
                buf@.take(len as int)
            } else {
                buf@
            };
            match r {
                Ok(s) => valid_utf8(body) && s@ == decode_utf8(body),
                Err(ReplyError::BadUtf8) => !valid_utf8(body),
                Err(_) => false,
            }
        }),
{
    let mut buf = buf;
    buf.truncate(len);
    match utf8_string(buf) {
        Some(s) => Ok(s),
        None => Err(ReplyError::BadUtf8),
    }
}

/// A line as read from the connection (its `\n` included): an empty read
/// means the connection closed; otherwise the line without trailing
/// whitespace.
pub fn finish_line(raw: &str) -> (r: Result<String, ReplyError>)
    ensures
        match r {
            Ok(s) => raw@.len() > 0 && s@ == trim_end(raw@),
            Err(ReplyError::Closed) => raw@.len() == 0,
            Err(_) => false,
        },
{
    let cs = chars_of(raw);
    if cs.len() == 0 {
        return Err(ReplyError::Closed);
    }
    let t = trim_end_chars(cs.as_slice());
    Ok(string_from_chars(t.as_slice()))
}

} // verus!
