//! Recognition of a quoted literal at the start of a byte string.

use vstd::prelude::*;
use vstd::slice::slice_subrange;

verus! {

pub const QUOTE: u8 = 39;

pub const BACKSLASH: u8 = 92;

/// What went wrong while recognising a literal.
#[derive(Clone, Copy, PartialEq, Eq, Structural, Debug)]
pub enum ErrorKind {
    NotRecognized,
    IncorrectCharLiteral,
    UnclosedCharLiteral,
}

/// A failed recognition: an `Error` lets the caller try another rule on
/// the same input, a `Failure` is final.
#[derive(Clone, Copy, PartialEq, Eq, Structural, Debug)]
pub enum LexError {
    Error(ErrorKind),
    Failure(ErrorKind),
}

/// The bytes between the quotes of a literal, escapes still in place.
#[derive(Clone, Copy, Debug)]
pub struct CharLiteral<'a>(pub &'a [u8]);

/// Whether a backslash followed by this byte forms a two-byte escape.
pub open spec fn escapable(b: u8) -> bool {
    b == BACKSLASH || b == QUOTE || b == 110 || b == 114 || b == 116
}

/// Where the body of a literal that is read from position `i` ends: at the
/// first quote that no backslash escapes, or at the end of the input. A
/// backslash takes the next byte with it if that is one of `\ ' n r t`,
/// and stands alone otherwise.
pub open spec fn scan(s: Seq<u8>, i: int) -> int
    decreases s.len() - i,
{
    if !(0 <= i < s.len()) {
        i
    } else if s[i] == QUOTE {
        i
    } else if s[i] == BACKSLASH && i + 1 < s.len() && escapable(s[i + 1]) {
        scan(s, i + 2)
    } else {
        scan(s, i + 1)
    }
}

/// The scan stops inside the input or at its end, never before its start,
/// and where it stops inside, a quote stands.
pub proof fn lemma_scan_bounds(s: Seq<u8>, i: int)
    requires
        0 <= i <= s.len(),
    ensures
        i <= scan(s, i) <= s.len(),
        scan(s, i) < s.len() ==> s[scan(s, i)] == QUOTE,
    decreases s.len() - i,
{
    if i < s.len() && s[i] != QUOTE {
        if s[i] == BACKSLASH && i + 1 < s.len() && escapable(s[i + 1]) {
            lemma_scan_bounds(s, i + 2);
        } else {
            lemma_scan_bounds(s, i + 1);
        }
    }
}

/// The length of the body of a literal whose opening quote is the first byte.
pub open spec fn body_len(s: Seq<u8>) -> int {
    scan(s.skip(1), 0)
}

/// Whether the input starts with a quote.
pub open spec fn opens(s: Seq<u8>) -> bool {
    s.len() > 0 && s[0] == QUOTE
}

/// Whether the body of the literal is followed by a closing quote.
pub open spec fn closes(s: Seq<u8>) -> bool {
    opens(s) && body_len(s) + 1 < s.len()
}

fn is_escapable(b: u8) -> (r: bool)
    ensures
        r == escapable(b),
{
    b == BACKSLASH || b == QUOTE || b == 110 || b == 114 || b == 116
}

/// Consumes the body of a literal and returns the input that follows it.
pub fn check_char<'a>(input: &'a [u8]) -> (r: Result<(&'a [u8], ()), LexError>)
    ensures
        r is Ok,
        r->Ok_0.0@ == input@.skip(scan(input@, 0)),
{
    let n: usize = input.len();
    let mut pos: usize = 0;
    let mut stop = false;
    while !stop && pos < n
        invariant
            n == input@.len(),
            pos <= n,
            stop ==> pos < n && input@[pos as int] == QUOTE,
            scan(input@, 0) == scan(input@, pos as int),
        decreases n - pos + (if stop { 0int } else { 1int }),
    {
        let c: u8 = input[pos];
        if c == QUOTE {
            stop = true;
        } else if c == BACKSLASH && pos + 1 < n && is_escapable(input[pos + 1]) {
            pos = pos + 2;
        } else {
            pos = pos + 1;
        }
    }
    Ok((slice_subrange(input, pos, n), ()))
}

/// Recognises a quoted literal at the start of the input. On success it
/// returns the input after the closing quote and the bytes between the
/// quotes. An input that does not start with a quote is not recognised; a
/// literal that no quote closes is a final failure.
pub fn char_literal<'a>(input: &'a [u8]) -> (r: Result<(&'a [u8], CharLiteral<'a>), LexError>)
    ensures
        match r {
            Ok((rest, lit)) => closes(input@) && lit.0@ == input@.subrange(
                1,
                1 + body_len(input@),
            ) && rest@ == input@.skip(body_len(input@) + 2),
            Err(e) => if opens(input@) {
                !closes(input@) && e == LexError::Failure(ErrorKind::UnclosedCharLiteral)
            } else {
                e == LexError::Error(ErrorKind::NotRecognized)
            },
        },
{
    let n: usize = input.len();
    if n == 0 || input[0] != QUOTE {
        return Err(LexError::Error(ErrorKind::NotRecognized));
    }
    let next = slice_subrange(input, 1, n);
    proof {
        assert(next@ =~= input@.skip(1));
        lemma_scan_bounds(next@, 0);
    }
    let rest = match check_char(next) {
        Ok((rest, _)) => rest,
        Err(_) => {
            return Err(LexError::Failure(ErrorKind::IncorrectCharLiteral));
        },
    };
    let consumed: usize = next.len() - rest.len();
    if rest.len() == 0 || rest[0] != QUOTE {
        return Err(LexError::Failure(ErrorKind::UnclosedCharLiteral));
    }
    let string = slice_subrange(next, 0, consumed);
    let output = slice_subrange(rest, 1, rest.len());
    proof {
        assert(string@ =~= input@.subrange(1, 1 + body_len(input@)));
        assert(output@ =~= input@.skip(body_len(input@) + 2));
    }
    Ok((output, CharLiteral(string)))
}

} // verus!
