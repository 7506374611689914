//! The mathematical definition of the tokenizer: what one call of
//! `Tokenizer::tokenize` produces from a character sequence and a cursor.
use vstd::prelude::*;
use vstd::utf8::*;

use crate::tokens::Error;

verus! {

/// Byte offset (in UTF-8) of the character at index `i`.
pub open spec fn byte_offset(s: Seq<char>, i: int) -> nat {
    encode_utf8(s.subrange(0, i)).len()
}

pub open spec fn off(s: Seq<char>, i: int) -> usize {
    byte_offset(s, i) as usize
}

pub open spec fn is_space(c: char) -> bool {
    c == ' ' || c == '\t'
}

pub open spec fn is_space_or_newline(c: char) -> bool {
    c == ' ' || c == '\t' || c == '\n'
}

pub open spec fn is_keylike_char(c: char) -> bool {
    ('A' <= c && c <= 'Z') || ('a' <= c && c <= 'z') || ('0' <= c && c <= '9') || c == '-' || c
        == '_'
}

/// Characters allowed verbatim in a comment: tab and everything from U+0020 up.
pub open spec fn is_comment_char(c: char) -> bool {
    c == '\t' || c >= ' '
}

/// Characters allowed verbatim in a string body: tab and printable characters.
pub open spec fn is_string_char(c: char) -> bool {
    c == '\t' || (c >= ' ' && c != '\u{7f}')
}

pub open spec fn is_hex_digit(c: char) -> bool {
    ('0' <= c && c <= '9') || ('a' <= c && c <= 'f') || ('A' <= c && c <= 'F')
}

pub open spec fn hex_digit_value(c: char) -> nat {
    if '0' <= c && c <= '9' {
        (c as u32 - '0' as u32) as nat
    } else if 'a' <= c && c <= 'f' {
        (c as u32 - 'a' as u32 + 10) as nat
    } else {
        (c as u32 - 'A' as u32 + 10) as nat
    }
}

/// End of the maximal run of spaces and tabs that starts at `i`.
pub open spec fn space_end(s: Seq<char>, i: int) -> int
    decreases s.len() - i,
{
    if 0 <= i < s.len() && is_space(s[i]) {
        space_end(s, i + 1)
    } else {
        i
    }
}

/// End of the maximal run of spaces, tabs and line feeds that starts at `i`.
pub open spec fn blank_end(s: Seq<char>, i: int) -> int
    decreases s.len() - i,
{
    if 0 <= i < s.len() && is_space_or_newline(s[i]) {
        blank_end(s, i + 1)
    } else {
        i
    }
}

/// End of the maximal run of comment characters that starts at `i`.
pub open spec fn comment_end(s: Seq<char>, i: int) -> int
    decreases s.len() - i,
{
    if 0 <= i < s.len() && is_comment_char(s[i]) {
        comment_end(s, i + 1)
    } else {
        i
    }
}

/// End of the maximal run of identifier characters that starts at `i`.
pub open spec fn keylike_end(s: Seq<char>, i: int) -> int
    decreases s.len() - i,
{
    if 0 <= i < s.len() && is_keylike_char(s[i]) {
        keylike_end(s, i + 1)
    } else {
        i
    }
}

/// What a token is, with the text it carries.
pub enum Lexeme {
    WhiteSpace(Seq<char>),
    NewLine,
    Comment(Seq<char>),
    Equals,
    Period,
    Comma,
    Colon,
    Plus,
    LeftBrace,
    RightBrace,
    LeftBracket,
    RightBracket,
    Keylike(Seq<char>),
    Str { src: Seq<char>, value: Seq<char>, borrowed: bool, multiline: bool },
}

/// The result of one scan from a cursor: end of input, a token and the cursor
/// after it, or an error and the cursor where scanning stopped.
pub enum Step {
    Done,
    Emit(Lexeme, int),
    Fail(Error, int),
}

/// The decoded value of a string under construction: still equal to the source
/// from an index on, or an owned copy.
pub enum Buf {
    Src(int),
    Owned(Seq<char>),
}

pub open spec fn buf_push(b: Buf, c: char) -> Buf {
    match b {
        Buf::Src(_) => b,
        Buf::Owned(v) => Buf::Owned(v.push(c)),
    }
}

pub open spec fn buf_own(b: Buf, s: Seq<char>, i: int) -> Buf {
    match b {
        Buf::Src(a) => Buf::Owned(s.subrange(a, i)),
        Buf::Owned(_) => b,
    }
}

pub open spec fn buf_value(b: Buf, s: Seq<char>, end: int) -> Seq<char> {
    match b {
        Buf::Src(a) => s.subrange(a, end),
        Buf::Owned(v) => v,
    }
}

/// Outcome of an escape sequence: a character to append, nothing to append, or an error.
pub enum Esc {
    Char(char, int),
    Skip(int),
    Fail(Error, int),
}

/// Reads the hex digits of a `\u`/`\U` escape whose first digit is at `d`;
/// `k` digits, worth `acc`, have been read.
pub open spec fn hex_escape(s: Seq<char>, p: int, d: int, len: int, k: int, acc: nat) -> Esc
    decreases len - k,
{
    if k >= len {
        if is_scalar(acc as u32) && acc < 0x1_0000_0000 {
            Esc::Char((acc as u32) as char, d + len)
        } else {
            Esc::Fail(Error::InvalidEscapeValue(off(s, d), acc as u32), d + len)
        }
    } else if d + k >= s.len() {
        Esc::Fail(Error::UnterminatedString(off(s, p)), d + k)
    } else if !is_hex_digit(s[d + k]) {
        Esc::Fail(Error::InvalidHexEscape(off(s, d + k), s[d + k]), d + k + 1)
    } else {
        hex_escape(s, p, d, len, k + 1, acc * 16 + hex_digit_value(s[d + k]))
    }
}

/// The escape sequence whose selector character is at `j` (just after the
/// backslash), in a basic string opened at `p`.
pub open spec fn escape(s: Seq<char>, p: int, j: int, ml: bool) -> Esc {
    if j >= s.len() {
        Esc::Fail(Error::UnterminatedString(off(s, p)), j)
    } else {
        let c = s[j];
        if c == '"' {
            Esc::Char('"', j + 1)
        } else if c == '\\' {
            Esc::Char('\\', j + 1)
        } else if c == 'b' {
            Esc::Char('\u{8}', j + 1)
        } else if c == 'f' {
            Esc::Char('\u{c}', j + 1)
        } else if c == 'n' {
            Esc::Char('\n', j + 1)
        } else if c == 'r' {
            Esc::Char('\r', j + 1)
        } else if c == 't' {
            Esc::Char('\t', j + 1)
        } else if c == 'u' {
            hex_escape(s, p, j + 1, 4, 0, 0)
        } else if c == 'U' {
            hex_escape(s, p, j + 1, 8, 0, 0)
        } else if ml && c == '\n' {
            Esc::Skip(blank_end(s, j + 1))
        } else if ml && is_space(c) {
            let k = space_end(s, j + 1);
            if k >= s.len() {
                Esc::Skip(k)
            } else if s[k] == '\n' {
                Esc::Skip(blank_end(s, k + 1))
            } else {
                Esc::Fail(Error::InvalidEscape(off(s, j), c), k)
            }
        } else {
            Esc::Fail(Error::InvalidEscape(off(s, j), c), j + 1)
        }
    }
}

pub open spec fn is_delim_at(s: Seq<char>, i: int, delim: char) -> bool {
    0 <= i < s.len() && s[i] == delim
}

/// The string token that closes at `e` (exclusive), with decoded value `b`
/// read up to `v` (exclusive).
pub open spec fn close_string(s: Seq<char>, p: int, b: Buf, v: int, e: int, ml: bool) -> Step {
    Step::Emit(
        Lexeme::Str { src: s.subrange(p, e), value: buf_value(b, s, v), borrowed: b is Src, multiline: ml },
        e,
    )
}

/// The body of a string opened at `p` with delimiter `delim`; the next
/// character to scan is at `i`, and `first` holds before the first one.
pub open spec fn string_body(
    s: Seq<char>,
    p: int,
    delim: char,
    ml: bool,
    i: int,
    b: Buf,
    first: bool,
) -> Step
    decreases s.len() - i,
{
    if i < 0 || i >= s.len() {
        Step::Fail(Error::UnterminatedString(off(s, p)), i)
    } else {
        let c = s[i];
        if c == '\n' {
            if ml {
                string_body(s, p, delim, ml, i + 1, if first { Buf::Src(i + 1) } else { buf_push(b, '\n') }, false)
            } else {
                Step::Fail(Error::NewlineInString(off(s, i)), i + 1)
            }
        } else if c == '\r' && ml && is_delim_at(s, i + 1, '\n') {
            string_body(s, p, delim, ml, i + 2,
                if first { Buf::Src(i + 2) } else { buf_push(buf_own(b, s, i), '\n') }, false)
        } else if c == delim {
            if !ml {
                close_string(s, p, b, i, i + 1, false)
            } else if !is_delim_at(s, i + 1, delim) {
                string_body(s, p, delim, ml, i + 1, buf_push(b, delim), false)
            } else if !is_delim_at(s, i + 2, delim) {
                string_body(s, p, delim, ml, i + 2, buf_push(buf_push(b, delim), delim), false)
            } else if !is_delim_at(s, i + 3, delim) {
                close_string(s, p, b, i, i + 3, true)
            } else if !is_delim_at(s, i + 4, delim) {
                close_string(s, p, buf_push(b, delim), i + 1, i + 4, true)
            } else {
                close_string(s, p, buf_push(buf_push(b, delim), delim), i + 2, i + 5, true)
            }
        } else if delim == '"' && c == '\\' {
            let b1 = buf_own(b, s, i);
            match escape(s, p, i + 1, ml) {
                Esc::Char(x, j) => if i < j <= s.len() {
                    string_body(s, p, delim, ml, j, buf_push(b1, x), false)
                } else {
                    Step::Fail(Error::UnterminatedString(off(s, p)), j)
                },
                Esc::Skip(j) => if i < j <= s.len() {
                    string_body(s, p, delim, ml, j, b1, false)
                } else {
                    Step::Fail(Error::UnterminatedString(off(s, p)), j)
                },
                Esc::Fail(e, j) => Step::Fail(e, j),
            }
        } else if is_string_char(c) {
            string_body(s, p, delim, ml, i + 1, buf_push(b, c), false)
        } else {
            Step::Fail(Error::InvalidCharInString(off(s, i), c), i + 1)
        }
    }
}

/// A string opened at `p` by `delim`.
pub open spec fn string_token(s: Seq<char>, p: int, delim: char) -> Step {
    if is_delim_at(s, p + 1, delim) {
        if is_delim_at(s, p + 2, delim) {
            string_body(s, p, delim, true, p + 3, Buf::Src(p + 3), true)
        } else {
            Step::Emit(
                Lexeme::Str { src: s.subrange(p, p + 2), value: Seq::empty(), borrowed: true, multiline: false },
                p + 2,
            )
        }
    } else {
        string_body(s, p, delim, false, p + 1, Buf::Src(p + 1), true)
    }
}

/// One scan of `s` from the cursor `p`.
pub open spec fn step(s: Seq<char>, p: int) -> Step {
    if p < 0 || p >= s.len() {
        Step::Done
    } else {
        let c = s[p];
        if is_space(c) {
            let q = space_end(s, p + 1);
            Step::Emit(Lexeme::WhiteSpace(s.subrange(p, q)), q)
        } else if c == '\n' {
            Step::Emit(Lexeme::NewLine, p + 1)
        } else if c == '#' {
            let q = comment_end(s, p + 1);
            Step::Emit(Lexeme::Comment(s.subrange(p, q)), q)
        } else if c == '=' {
            Step::Emit(Lexeme::Equals, p + 1)
        } else if c == '.' {
            Step::Emit(Lexeme::Period, p + 1)
        } else if c == ',' {
            Step::Emit(Lexeme::Comma, p + 1)
        } else if c == ':' {
            Step::Emit(Lexeme::Colon, p + 1)
        } else if c == '+' {
            Step::Emit(Lexeme::Plus, p + 1)
        } else if c == '{' {
            Step::Emit(Lexeme::LeftBrace, p + 1)
        } else if c == '}' {
            Step::Emit(Lexeme::RightBrace, p + 1)
        } else if c == '[' {
            Step::Emit(Lexeme::LeftBracket, p + 1)
        } else if c == ']' {
            Step::Emit(Lexeme::RightBracket, p + 1)
        } else if c == '\'' || c == '"' {
            string_token(s, p, c)
        } else if is_keylike_char(c) {
            let q = keylike_end(s, p + 1);
            Step::Emit(Lexeme::Keylike(s.subrange(p, q)), q)
        } else {
            Step::Fail(Error::Unexpected(off(s, p), c), p + 1)
        }
    }
}

/// The cursor of a fresh tokenizer: past a leading byte-order mark, if any.
pub open spec fn start_cursor(s: Seq<char>) -> int {
    if s.len() > 0 && s[0] == '\u{feff}' {
        1
    } else {
        0
    }
}

/// All tokens from `p` to the end, each with its start and end character
/// index, or `None` where a scan fails.
pub open spec fn lex_all(s: Seq<char>, p: int) -> Option<Seq<(int, int, Lexeme)>>
    decreases s.len() - p,
{
    match step(s, p) {
        Step::Done => Some(Seq::empty()),
        Step::Emit(lx, q) => if p < q <= s.len() {
            match lex_all(s, q) {
                Some(rest) => Some(seq![(p, q, lx)] + rest),
                None => None,
            }
        } else {
            None
        },
        Step::Fail(_, _) => None,
    }
}

} // verus!
