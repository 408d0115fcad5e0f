//! Output records of a container, and helpers on text.

use crate::docker::buffer::{chunk, chunk_bytes};
use tokio_util::bytes::Bytes;
use vstd::prelude::*;
use vstd::string::{StrSliceExecFns, StringExecFns};
use vstd::utf8::{decode_utf8, valid_utf8};

verus! {

/// The channel that a piece of output came on.
pub enum StreamKind {
    StdErr,
    StdOut,
    StdIn,
    Console,
}

/// A piece of output: its channel and its bytes.
pub struct LogRecord {
    pub kind: StreamKind,
    pub message: Seq<u8>,
}

/// A piece of a container's output.
#[derive(Debug, PartialEq)]
pub enum LogOutput {
    StdErr { message: Bytes },
    StdOut { message: Bytes },
    StdIn { message: Bytes },
    Console { message: Bytes },
}

impl View for LogOutput {
    type V = LogRecord;

    open spec fn view(&self) -> LogRecord {
        match self {
            LogOutput::StdErr { message } => LogRecord {
                kind: StreamKind::StdErr,
                message: chunk(*message),
            },
            LogOutput::StdOut { message } => LogRecord {
                kind: StreamKind::StdOut,
                message: chunk(*message),
            },
            LogOutput::StdIn { message } => LogRecord {
                kind: StreamKind::StdIn,
                message: chunk(*message),
            },
            LogOutput::Console { message } => LogRecord {
                kind: StreamKind::Console,
                message: chunk(*message),
            },
        }
    }
}

impl Clone for LogOutput {
    fn clone(&self) -> (res: LogOutput)
        ensures
            res@ == self@,
    {
        match self {
            LogOutput::StdErr { message } => LogOutput::StdErr { message: message.clone() },
            LogOutput::StdOut { message } => LogOutput::StdOut { message: message.clone() },
            LogOutput::StdIn { message } => LogOutput::StdIn { message: message.clone() },
            LogOutput::Console { message } => LogOutput::Console { message: message.clone() },
        }
    }
}

impl LogOutput {
    /// The bytes of the output.
    pub fn as_ref(&self) -> (res: &[u8])
        ensures
            res@ == self@.message,
    {
        match self {
            LogOutput::StdErr { message } => chunk_bytes(message),
            LogOutput::StdOut { message } => chunk_bytes(message),
            LogOutput::StdIn { message } => chunk_bytes(message),
            LogOutput::Console { message } => chunk_bytes(message),
        }
    }

    /// The bytes of the output, given away.
    pub fn into_bytes(self) -> (res: Bytes)
        ensures
            chunk(res) == self@.message,
    {
        match self {
            LogOutput::StdErr { message } => message,
            LogOutput::StdOut { message } => message,
            LogOutput::StdIn { message } => message,
            LogOutput::Console { message } => message,
        }
    }

    /// The output as text, with a replacement character wherever the bytes
    /// are no UTF-8.
    pub fn to_string(&self) -> (res: String)
        ensures
            res@ == utf8_lossy(self@.message),
            valid_utf8(self@.message) ==> res@ == decode_utf8(self@.message),
    {
        lossy_text(self.as_ref())
    }
}

/// The text that `String::from_utf8_lossy` reads out of bytes.
pub uninterp spec fn utf8_lossy(bytes: Seq<u8>) -> Seq<char>;

/// `String::from_utf8_lossy`: the bytes as text. Bytes that are UTF-8 give the
/// characters that they encode; every sequence that is not gives a
/// replacement character.
#[verifier::external_body]
pub(crate) fn lossy_text(bytes: &[u8]) -> (res: String)
    ensures
        res@ == utf8_lossy(bytes@),
        valid_utf8(bytes@) ==> res@ == decode_utf8(bytes@),
{
    String::from_utf8_lossy(bytes).into_owned()
}

/// The texts of `parts` in their order, with `separator` between each two.
pub open spec fn joined(parts: Seq<Seq<char>>, separator: Seq<char>) -> Seq<char>
    decreases parts.len(),
{
    if parts.len() == 0 {
        Seq::empty()
    } else if parts.len() == 1 {
        parts[0]
    } else {
        joined(parts.drop_last(), separator) + separator + parts.last()
    }
}

/// Joins strings with a separator between each two.
pub fn join(parts: &Vec<String>, separator: &str) -> (res: String)
    ensures
        res@ == joined(parts@.map_values(|s: String| s@), separator@),
{
    let ghost texts = parts@.map_values(|s: String| s@);
    let mut res = String::new();
    let mut i: usize = 0;
    while i < parts.len()
        invariant
            i <= parts.len(),
            texts == parts@.map_values(|s: String| s@),
            res@ == joined(texts.take(i as int), separator@),
        decreases parts.len() - i,
    {
        if i > 0 {
            res.append(separator);
        }
        res.append(parts[i].as_str());
        proof {
            let before = texts.take(i as int);
            let after = texts.take(i + 1);
            assert(after.drop_last() =~= before);
            assert(after.last() == parts@[i as int]@);
            if i == 0 {
                assert(before.len() == 0);
                assert(res@ =~= after[0]);
            }
        }
        i += 1;
    }
    assert(texts.take(parts.len() as int) =~= texts);
    res
}

/// Whether `text` begins with `prefix`.
pub open spec fn has_prefix(text: Seq<char>, prefix: Seq<char>) -> bool {
    prefix.len() <= text.len() && text.take(prefix.len() as int) == prefix
}

/// Tells whether a text begins with a prefix.
pub fn starts_with(text: &str, prefix: &str) -> (res: bool)
    ensures
        res == has_prefix(text@, prefix@),
{
    let length = prefix.unicode_len();
    if text.unicode_len() < length {
        return false;
    }
    let mut i: usize = 0;
    while i < length
        invariant
            i <= length,
            length == prefix@.len(),
            length <= text@.len(),
            forall|k: int| 0 <= k < i ==> text@[k] == prefix@[k],
        decreases length - i,
    {
        if text.get_char(i) != prefix.get_char(i) {
            assert(text@.take(length as int)[i as int] != prefix@[i as int]);
            return false;
        }
        i += 1;
    }
    assert(text@.take(length as int) =~= prefix@);
    true
}

/// Whether `pattern` stands in `text` at `at`.
pub open spec fn occurs_at(text: Seq<char>, pattern: Seq<char>, at: int) -> bool {
    0 <= at && at + pattern.len() <= text.len() && text.subrange(at, at + pattern.len())
        == pattern
}

/// Whether the first place at which `pattern` stands in `text` is `at`.
pub open spec fn first_occurs_at(text: Seq<char>, pattern: Seq<char>, at: int) -> bool {
    occurs_at(text, pattern, at) && forall|before: int|
        0 <= before < at ==> !occurs_at(text, pattern, before)
}

/// `text` without the first occurrence of `pattern`; `text` itself where
/// there is none.
pub open spec fn without_first(text: Seq<char>, pattern: Seq<char>) -> Seq<char> {
    if exists|at: int| first_occurs_at(text, pattern, at) {
        let at = choose|at: int| first_occurs_at(text, pattern, at);
        text.take(at) + text.skip(at + pattern.len())
    } else {
        text
    }
}

/// There is one first occurrence at most.
proof fn lemma_first_occurrence_is(text: Seq<char>, pattern: Seq<char>, at: int)
    requires
        first_occurs_at(text, pattern, at),
    ensures
        without_first(text, pattern) == text.take(at) + text.skip(at + pattern.len()),
{
    let other = choose|p: int| first_occurs_at(text, pattern, p);
    assert(first_occurs_at(text, pattern, other));
    if other < at {
        assert(!occurs_at(text, pattern, other));
    } else if at < other {
        assert(!occurs_at(text, pattern, at));
    }
}

/// Tells whether a pattern stands in a text at a place.
fn matches_at(text: &str, pattern: &str, at: usize) -> (res: bool)
    requires
        at + pattern@.len() <= text@.len() <= usize::MAX,
    ensures
        res == occurs_at(text@, pattern@, at as int),
{
    let length = pattern.unicode_len();
    let mut i: usize = 0;
    while i < length
        invariant
            i <= length,
            length == pattern@.len(),
            at + length <= text@.len() <= usize::MAX,
            forall|k: int| 0 <= k < i ==> text@[at + k] == pattern@[k],
        decreases length - i,
    {
        if text.get_char(at + i) != pattern.get_char(i) {
            assert(text@.subrange(at as int, at + length)[i as int] != pattern@[i as int]);
            return false;
        }
        i += 1;
    }
    assert(text@.subrange(at as int, at + length) =~= pattern@);
    true
}

/// Takes the first occurrence of a pattern out of a text.
pub fn remove_first(text: &str, pattern: &str) -> (res: String)
    ensures
        res@ == without_first(text@, pattern@),
{
    let length = text.unicode_len();
    let width = pattern.unicode_len();
    if width > length {
        assert forall|at: int| !first_occurs_at(text@, pattern@, at) by {}
        return String::from_str(text);
    }
    if width == 0 {
        proof {
            assert(text@.subrange(0, 0) =~= pattern@);
            lemma_first_occurrence_is(text@, pattern@, 0);
            assert(text@.take(0) + text@.skip(0) =~= text@);
        }
        return String::from_str(text);
    }
    let mut at: usize = 0;
    while at <= length - width
        invariant
            0 < width <= length,
            length == text@.len(),
            width == pattern@.len(),
            forall|before: int| 0 <= before < at ==> !occurs_at(text@, pattern@, before),
        decreases length - width + 1 - at,
    {
        if matches_at(text, pattern, at) {
            proof {
                lemma_first_occurrence_is(text@, pattern@, at as int);
            }
            let mut res = String::from_str(text.substring_char(0, at));
            res.append(text.substring_char(at + width, length));
            assert(res@ =~= text@.take(at as int) + text@.skip(at + width));
            return res;
        }
        at += 1;
    }
    assert forall|p: int| !first_occurs_at(text@, pattern@, p) by {}
    String::from_str(text)
}

/// The decimal digit of a number below ten.
pub open spec fn digit(d: nat) -> char {
    if d == 0 {
        '0'
    } else if d == 1 {
        '1'
    } else if d == 2 {
        '2'
    } else if d == 3 {
        '3'
    } else if d == 4 {
        '4'
    } else if d == 5 {
        '5'
    } else if d == 6 {
        '6'
    } else if d == 7 {
        '7'
    } else if d == 8 {
        '8'
    } else {
        '9'
    }
}

/// A number in decimal digits, without leading zeros.
pub open spec fn decimal(n: nat) -> Seq<char>
    decreases n,
{
    if n < 10 {
        seq![digit(n)]
    } else {
        decimal(n / 10).push(digit(n % 10))
    }
}

/// The digit of a number below ten as a string.
fn digit_text(d: usize) -> (res: &'static str)
    requires
        d < 10,
    ensures
        res@ == seq![digit(d as nat)],
{
    proof {
        reveal_strlit("0");
        reveal_strlit("1");
        reveal_strlit("2");
        reveal_strlit("3");
        reveal_strlit("4");
        reveal_strlit("5");
        reveal_strlit("6");
        reveal_strlit("7");
        reveal_strlit("8");
        reveal_strlit("9");
    }
    let res = if d == 0 {
        "0"
    } else if d == 1 {
        "1"
    } else if d == 2 {
        "2"
    } else if d == 3 {
        "3"
    } else if d == 4 {
        "4"
    } else if d == 5 {
        "5"
    } else if d == 6 {
        "6"
    } else if d == 7 {
        "7"
    } else if d == 8 {
        "8"
    } else {
        "9"
    };
    assert(res@ =~= seq![digit(d as nat)]);
    res
}

/// Writes a number in decimal digits.
pub fn decimal_text(n: usize) -> (res: String)
    ensures
        res@ == decimal(n as nat),
    decreases n,
{
    if n < 10 {
        String::from_str(digit_text(n))
    } else {
        let mut res = decimal_text(n / 10);
        res.append(digit_text(n % 10));
        assert(res@ =~= decimal(n as nat));
        res
    }
}

} // verus!
