//! A tokenizer for TOML-like configuration text.
use vstd::prelude::*;
use vstd::utf8::*;

use crate::lexer_spec::{
    blank_end, buf_own, buf_push, buf_value, byte_offset, comment_end, escape, hex_digit_value,
    hex_escape, is_delim_at, is_hex_digit, is_keylike_char, is_string_char, keylike_end, off,
    space_end, start_cursor, step, string_body, string_token, Buf, Esc, Lexeme, Step,
};
use crate::text::{
    char_from_u32, lemma_byte_offset_bound, lemma_byte_offset_step, push_char, slice_at, utf8_width,
};

verus! {

/// Half-open range `[start, end)` of byte offsets into the source.
#[derive(Clone, Copy, Debug, PartialEq, Eq, Structural)]
pub struct Span {
    pub start: usize,
    pub end: usize,
}

/// The decoded value of a string token: a slice of the source where no
/// escape or normalisation applied, an owned buffer otherwise.
#[derive(Debug, Clone, PartialEq, Eq)]
pub enum StrValue<'a> {
    Borrowed(&'a str),
    Owned(String),
}

impl<'a> View for StrValue<'a> {
    type V = Seq<char>;

    open spec fn view(&self) -> Seq<char> {
        match self {
            StrValue::Borrowed(s) => s@,
            StrValue::Owned(s) => s@,
        }
    }
}

#[derive(Debug, Clone, PartialEq, Eq)]
pub enum Token<'a> {
    WhiteSpace(&'a str),
    NewLine,
    Comment(&'a str),
    Equals,
    Period,
    Comma,
    Colon,
    Plus,
    LeftBrace,
    RightBrace,
    LeftBracket,
    RightBracket,
    Keylike(&'a str),
    String { src: &'a str, value: StrValue<'a>, multiline: bool },
}

impl<'a> View for Token<'a> {
    type V = Lexeme;

    open spec fn view(&self) -> Lexeme {
        match self {
            Token::WhiteSpace(x) => Lexeme::WhiteSpace(x@),
            Token::NewLine => Lexeme::NewLine,
            Token::Comment(x) => Lexeme::Comment(x@),
            Token::Equals => Lexeme::Equals,
            Token::Period => Lexeme::Period,
            Token::Comma => Lexeme::Comma,
            Token::Colon => Lexeme::Colon,
            Token::Plus => Lexeme::Plus,
            Token::LeftBrace => Lexeme::LeftBrace,
            Token::RightBrace => Lexeme::RightBrace,
            Token::LeftBracket => Lexeme::LeftBracket,
            Token::RightBracket => Lexeme::RightBracket,
            Token::Keylike(x) => Lexeme::Keylike(x@),
            Token::String { src, value, multiline } => Lexeme::Str {
                src: src@,
                value: value@,
                borrowed: value is Borrowed,
                multiline: *multiline,
            },
        }
    }
}

/// Errors of the tokenizer; the last three are for a parser built on it.
#[derive(Debug, Clone, Copy, PartialEq, Eq)]
pub enum Error {
    InvalidCharInString(usize, char),
    InvalidEscape(usize, char),
    InvalidHexEscape(usize, char),
    InvalidEscapeValue(usize, u32),
    NewlineInString(usize),
    Unexpected(usize, char),
    UnterminatedString(usize),
    NewlineInTableKey(usize),
    MultilineStringKey(usize),
    Wanted { at: usize, expected: &'static str, found: &'static str },
}

/// How a string body treats a character that is neither a newline nor its delimiter.
#[derive(Clone, Copy, PartialEq, Eq, Structural)]
enum EscapePolicy {
    /// Single-quoted strings: the character is kept as it is.
    Literal,
    /// Double-quoted strings: a backslash starts an escape sequence.
    Basic,
}

/// Decoded value being built: still the source from a character index on, or owned.
enum MaybeString {
    NotEscaped(usize),
    Owned(String),
}

impl View for MaybeString {
    type V = Buf;

    closed spec fn view(&self) -> Buf {
        match self {
            MaybeString::NotEscaped(a) => Buf::Src(*a as int),
            MaybeString::Owned(v) => Buf::Owned(v@),
        }
    }
}

impl MaybeString {
    fn push(&mut self, c: char)
        ensures
            final(self)@ == buf_push(old(self)@, c),
    {
        match self {
            MaybeString::NotEscaped(_) => {},
            MaybeString::Owned(v) => push_char(v, c),
        }
    }

    /// Switches to an owned copy of `src` from the start index up to `i`.
    fn owned(&mut self, src: &Tokenizer, i: usize)
        requires
            src.wf(),
            i <= src.src@.len(),
            old(self)@ matches Buf::Src(a) ==> a <= i,
        ensures
            final(self)@ == buf_own(old(self)@, src.src@, i as int),
    {
        match self {
            MaybeString::NotEscaped(a) => {
                let start = *a;
                *self = MaybeString::Owned(src.slice(start, i).to_owned());
            },
            MaybeString::Owned(_) => {},
        }
    }

    fn into_cow<'a>(self, src: &Tokenizer<'a>, end: usize) -> (r: StrValue<'a>)
        requires
            src.wf(),
            end <= src.src@.len(),
            self@ matches Buf::Src(a) ==> a <= end,
        ensures
            r@ == buf_value(self@, src.src@, end as int),
            (r is Borrowed) == (self@ is Src),
    {
        match self {
            MaybeString::NotEscaped(a) => StrValue::Borrowed(src.slice(a, end)),
            MaybeString::Owned(v) => StrValue::Owned(v),
        }
    }
}

fn is_keylike(ch: char) -> (r: bool)
    ensures
        r == is_keylike_char(ch),
{
    ('A' <= ch && ch <= 'Z') || ('a' <= ch && ch <= 'z') || ('0' <= ch && ch <= '9') || ch == '-'
        || ch == '_'
}

/// A cursor over the characters of a source text.
#[derive(Clone)]
pub struct Tokenizer<'a> {
    src: &'a str,
    chars: Vec<char>,
    /// Byte offset of each character, and the byte length at the end.
    offsets: Vec<usize>,
    pos: usize,
}

impl<'a> Tokenizer<'a> {
    /// The characters of the source.
    pub closed spec fn source(&self) -> Seq<char> {
        self.src@
    }

    /// Index of the next unconsumed character.
    pub closed spec fn cursor(&self) -> int {
        self.pos as int
    }

    /// The characters and byte offsets are those of the source, and the cursor lies within it.
    pub closed spec fn wf(&self) -> bool {
        &&& self.chars@ == self.src@
        &&& self.offsets@.len() == self.src@.len() + 1
        &&& forall|i: int|
            0 <= i <= self.src@.len() ==> #[trigger] self.offsets@[i] == byte_offset(self.src@, i)
        &&& self.pos <= self.src@.len()
    }

    /// A tokenizer at the start of `src`, past a leading byte-order mark.
    pub fn new(src: &'a str) -> (t: Tokenizer<'a>)
        ensures
            t.wf(),
            t.source() == src@,
            t.cursor() == start_cursor(src@),
    {
        let mut chars: Vec<char> = Vec::new();
        for c in it: src.chars()
            invariant
                chars@ == it.seq().take(it.index()),
        {
            chars.push(c);
        }
        proof {
            broadcast use vstd::string::axiom_spec_iter;

            assert(chars@ =~= src@);
        }
        let total = src.as_bytes().len();
        let mut offsets: Vec<usize> = Vec::new();
        offsets.push(0);
        let mut acc: usize = 0;
        let mut i: usize = 0;
        proof {
            assert(src@.subrange(0, 0) =~= Seq::<char>::empty());
        }
        while i < chars.len()
            invariant
                chars@ == src@,
                total == encode_utf8(src@).len(),
                i <= chars.len(),
                offsets@.len() == i + 1,
                acc == byte_offset(src@, i as int),
                forall|j: int| 0 <= j <= i ==> #[trigger] offsets@[j] == byte_offset(src@, j),
            decreases chars.len() - i,
        {
            proof {
                lemma_byte_offset_step(src@, i as int);
                lemma_byte_offset_bound(src@, i as int + 1);
            }
            acc = acc + utf8_width(chars[i]);
            offsets.push(acc);
            i += 1;
        }
        let mut t = Tokenizer { src, chars, offsets, pos: 0 };
        t.eat('\u{feff}');
        t
    }

    /// Produces the next token with its span, `None` at the end of the source,
    /// or the error that stopped the scan.
    pub fn tokenize(&mut self) -> (r: Result<Option<(Span, Token<'a>)>, Error>)
        requires
            old(self).wf(),
        ensures
            final(self).wf(),
            final(self).source() == old(self).source(),
            ({
                let s = old(self).source();
                let p = old(self).cursor();
                match step(s, p) {
                    Step::Done => r == Ok::<Option<(Span, Token<'a>)>, Error>(None) && final(self).cursor() == p,
                    Step::Emit(lx, q) => {
                        &&& r is Ok && r->Ok_0 is Some
                        &&& (r->Ok_0->Some_0).0 == Span { start: off(s, p), end: off(s, q) }
                        &&& (r->Ok_0->Some_0).1@ == lx
                        &&& final(self).cursor() == q
                        &&& p < q <= s.len()
                    },
                    Step::Fail(e, q) => r == Err::<Option<(Span, Token<'a>)>, Error>(e) && final(self).cursor() == q,
                }
            }),
    {
        let start = self.pos;
        let c = match self.get_next_char() {
            Some(c) => c,
            None => return Ok(None),
        };
        let token = if c == ' ' || c == '\t' {
            self.whitespace(start)
        } else if c == '\n' {
            Token::NewLine
        } else if c == '#' {
            self.comment(start)
        } else if c == '=' {
            Token::Equals
        } else if c == '.' {
            Token::Period
        } else if c == ',' {
            Token::Comma
        } else if c == ':' {
            Token::Colon
        } else if c == '+' {
            Token::Plus
        } else if c == '{' {
            Token::LeftBrace
        } else if c == '}' {
            Token::RightBrace
        } else if c == '[' {
            Token::LeftBracket
        } else if c == ']' {
            Token::RightBracket
        } else if c == '\'' {
            match self.literal_string(start) {
                Ok(t) => t,
                Err(e) => return Err(e),
            }
        } else if c == '"' {
            match self.basic_string(start) {
                Ok(t) => t,
                Err(e) => return Err(e),
            }
        } else if is_keylike(c) {
            self.keylike(start)
        } else {
            return Err(Error::Unexpected(self.offsets[start], c));
        };
        let span = self.calculate_span(start);
        Ok(Some((span, token)))
    }

    /// Consumes and returns the next character.
    fn get_next_char(&mut self) -> (r: Option<char>)
        requires
            old(self).wf(),
        ensures
            final(self).wf(),
            final(self).src == old(self).src,
            old(self).pos < old(self).src@.len() ==> r == Some(old(self).src@[old(self).pos as int])
                && final(self).pos == old(self).pos + 1,
            old(self).pos >= old(self).src@.len() ==> r is None && final(self).pos == old(self).pos,
    {
        if self.pos < self.chars.len() {
            let c = self.chars[self.pos];
            self.pos = self.pos + 1;
            Some(c)
        } else {
            None
        }
    }

    /// Consumes the next character if it is `target_char`.
    fn eat(&mut self, target_char: char) -> (r: bool)
        requires
            old(self).wf(),
        ensures
            final(self).wf(),
            final(self).src == old(self).src,
            r == is_delim_at(old(self).src@, old(self).pos as int, target_char),
            final(self).pos == old(self).pos + (if r { 1int } else { 0 }),
    {
        if self.pos < self.chars.len() && self.chars[self.pos] == target_char {
            self.pos = self.pos + 1;
            true
        } else {
            false
        }
    }

    /// Byte offset of the next unconsumed character, or the source's byte length.
    fn current(&self) -> (r: usize)
        requires
            self.wf(),
        ensures
            r == off(self.src@, self.pos as int),
    {
        self.offsets[self.pos]
    }

    /// The source between character indices `a` and `b`.
    fn slice(&self, a: usize, b: usize) -> (r: &'a str)
        requires
            self.wf(),
            a <= b <= self.src@.len(),
        ensures
            r@ == self.src@.subrange(a as int, b as int),
    {
        slice_at(self.src, Ghost(a as int), Ghost(b as int), self.offsets[a], self.offsets[b])
    }

    /// Whether the whole source has been consumed.
    pub fn is_last_char(&self) -> (r: bool)
        requires
            self.wf(),
        ensures
            r == (self.cursor() >= self.source().len()),
    {
        self.pos >= self.chars.len()
    }

    fn calculate_span(&self, start: usize) -> (r: Span)
        requires
            self.wf(),
            start <= self.pos,
        ensures
            r == (Span { start: off(self.src@, start as int), end: off(self.src@, self.pos as int) }),
    {
        Span { start: self.offsets[start], end: self.current() }
    }
}


/// What a scan that may fail says of its result and of the cursor after it.
pub open spec fn outcome<'a>(st: Step, r: Result<Token<'a>, Error>, pos: int) -> bool {
    match st {
        Step::Emit(lx, q) => r is Ok && r->Ok_0@ == lx && pos == q,
        Step::Fail(e, q) => r == Err::<Token<'a>, Error>(e) && pos == q,
        Step::Done => false,
    }
}

fn is_string_char_exec(c: char) -> (r: bool)
    ensures
        r == is_string_char(c),
{
    c == '\t' || (c >= ' ' && c != '\u{7f}')
}

fn is_hex_digit_exec(c: char) -> (r: bool)
    ensures
        r == is_hex_digit(c),
{
    ('0' <= c && c <= '9') || ('a' <= c && c <= 'f') || ('A' <= c && c <= 'F')
}

fn hex_digit_value_exec(c: char) -> (r: u32)
    requires
        is_hex_digit(c),
    ensures
        r as nat == hex_digit_value(c),
        r < 16,
{
    if '0' <= c && c <= '9' {
        (c as u32) - ('0' as u32)
    } else if 'a' <= c && c <= 'f' {
        (c as u32) - ('a' as u32) + 10
    } else {
        (c as u32) - ('A' as u32) + 10
    }
}

pub open spec fn pow16(k: nat) -> nat
    decreases k,
{
    if k == 0 {
        1
    } else {
        16 * pow16((k - 1) as nat)
    }
}

proof fn lemma_pow16_bound(k: nat)
    requires
        k <= 8,
    ensures
        pow16(k) <= 0x1_0000_0000,
    decreases 8 - k,
{
    if k < 8 {
        lemma_pow16_bound(k + 1);
    } else {
        reveal_with_fuel(pow16, 9);
    }
}

impl<'a> Tokenizer<'a> {
    /// Consumes the maximal run of spaces and tabs at the cursor.
    fn skip_spaces(&mut self)
        requires
            old(self).wf(),
        ensures
            final(self).wf(),
            final(self).src == old(self).src,
            final(self).pos == space_end(old(self).src@, old(self).pos as int),
            final(self).pos >= old(self).pos,
    {
        while self.pos < self.chars.len() && (self.chars[self.pos] == ' ' || self.chars[self.pos]
            == '\t')
            invariant
                self.wf(),
                self.src == old(self).src,
                old(self).pos <= self.pos,
                space_end(self.src@, self.pos as int) == space_end(
                    old(self).src@,
                    old(self).pos as int,
                ),
            decreases self.chars.len() - self.pos,
        {
            self.pos = self.pos + 1;
        }
    }

    /// Consumes the maximal run of spaces, tabs and line feeds at the cursor.
    fn skip_blanks(&mut self)
        requires
            old(self).wf(),
        ensures
            final(self).wf(),
            final(self).src == old(self).src,
            final(self).pos == blank_end(old(self).src@, old(self).pos as int),
            final(self).pos >= old(self).pos,
    {
        while self.pos < self.chars.len() && (self.chars[self.pos] == ' ' || self.chars[self.pos]
            == '\t' || self.chars[self.pos] == '\n')
            invariant
                self.wf(),
                self.src == old(self).src,
                old(self).pos <= self.pos,
                blank_end(self.src@, self.pos as int) == blank_end(
                    old(self).src@,
                    old(self).pos as int,
                ),
            decreases self.chars.len() - self.pos,
        {
            self.pos = self.pos + 1;
        }
    }

    fn whitespace(&mut self, start: usize) -> (t: Token<'a>)
        requires
            old(self).wf(),
            old(self).pos == start + 1,
        ensures
            final(self).wf(),
            final(self).src == old(self).src,
            final(self).pos == space_end(old(self).src@, start + 1),
            final(self).pos > start,
            t@ == Lexeme::WhiteSpace(old(self).src@.subrange(start as int, final(self).pos as int)),
    {
        self.skip_spaces();
        Token::WhiteSpace(self.slice(start, self.pos))
    }

    fn comment(&mut self, start: usize) -> (t: Token<'a>)
        requires
            old(self).wf(),
            old(self).pos == start + 1,
        ensures
            final(self).wf(),
            final(self).src == old(self).src,
            final(self).pos == comment_end(old(self).src@, start + 1),
            final(self).pos > start,
            t@ == Lexeme::Comment(old(self).src@.subrange(start as int, final(self).pos as int)),
    {
        while self.pos < self.chars.len() && (self.chars[self.pos] == '\t' || self.chars[self.pos]
            >= ' ')
            invariant
                self.wf(),
                self.src == old(self).src,
                start < self.pos,
                comment_end(self.src@, self.pos as int) == comment_end(self.src@, start + 1),
            decreases self.chars.len() - self.pos,
        {
            self.pos = self.pos + 1;
        }
        Token::Comment(self.slice(start, self.pos))
    }

    fn keylike(&mut self, start: usize) -> (t: Token<'a>)
        requires
            old(self).wf(),
            old(self).pos == start + 1,
        ensures
            final(self).wf(),
            final(self).src == old(self).src,
            final(self).pos == keylike_end(old(self).src@, start + 1),
            final(self).pos > start,
            t@ == Lexeme::Keylike(old(self).src@.subrange(start as int, final(self).pos as int)),
    {
        while self.pos < self.chars.len() && is_keylike(self.chars[self.pos])
            invariant
                self.wf(),
                self.src == old(self).src,
                start < self.pos,
                keylike_end(self.src@, self.pos as int) == keylike_end(self.src@, start + 1),
            decreases self.chars.len() - self.pos,
        {
            self.pos = self.pos + 1;
        }
        Token::Keylike(self.slice(start, self.pos))
    }

    /// Reads the hex digits of a `\u` or `\U` escape.
    fn hex(&mut self, start: usize, len: usize) -> (r: Result<char, Error>)
        requires
            old(self).wf(),
            start < old(self).pos,
            len == 4 || len == 8,
        ensures
            final(self).wf(),
            final(self).src == old(self).src,
            final(self).pos >= old(self).pos,
            match hex_escape(old(self).src@, start as int, old(self).pos as int, len as int, 0, 0) {
                Esc::Char(x, j) => r == Ok::<char, Error>(x) && final(self).pos == j,
                Esc::Skip(_) => false,
                Esc::Fail(e, j) => r == Err::<char, Error>(e) && final(self).pos == j,
            },
    {
        let ghost s = self.src@;
        let d = self.pos;
        let mut acc: u32 = 0;
        let mut k: usize = 0;
        while k < len
            invariant
                self.wf(),
                self.src == old(self).src,
                s == self.src@,
                len == 4 || len == 8,
                k <= len,
                d == old(self).pos,
                start < d,
                self.pos == d + k,
                acc < pow16(k as nat),
                hex_escape(s, start as int, d as int, len as int, k as int, acc as nat)
                    == hex_escape(s, start as int, d as int, len as int, 0, 0),
            decreases len - k,
        {
            match self.get_next_char() {
                None => {
                    return Err(Error::UnterminatedString(self.offsets[start]));
                },
                Some(ch) => {
                    if is_hex_digit_exec(ch) {
                        let v = hex_digit_value_exec(ch);
                        proof {
                            lemma_pow16_bound(k as nat + 1);
                            assert(acc * 16 + v < pow16(k as nat) * 16) by (nonlinear_arith)
                                requires
                                    acc < pow16(k as nat),
                                    v < 16,
                            ;
                        }
                        acc = acc * 16 + v;
                        k += 1;
                    } else {
                        return Err(Error::InvalidHexEscape(self.offsets[d + k], ch));
                    }
                },
            }
        }
        proof {
            lemma_pow16_bound(len as nat);
        }
        match char_from_u32(acc) {
            Some(x) => {
                proof {
                    char_u32_cast(x, acc);
                }
                Ok(x)
            },
            None => Err(Error::InvalidEscapeValue(self.offsets[d], acc)),
        }
    }

    /// Decodes the escape sequence whose backslash was just consumed.
    fn escape(&mut self, start: usize, multiline: bool) -> (r: Result<Option<char>, Error>)
        requires
            old(self).wf(),
            start < old(self).pos,
        ensures
            final(self).wf(),
            final(self).src == old(self).src,
            final(self).pos >= old(self).pos,
            match escape(old(self).src@, start as int, old(self).pos as int, multiline) {
                Esc::Char(x, j) => r == Ok::<Option<char>, Error>(Some(x)) && final(self).pos == j,
                Esc::Skip(j) => r == Ok::<Option<char>, Error>(None) && final(self).pos == j,
                Esc::Fail(e, j) => r == Err::<Option<char>, Error>(e) && final(self).pos == j,
            },
    {
        let j = self.pos;
        let c = match self.get_next_char() {
            Some(c) => c,
            None => return Err(Error::UnterminatedString(self.offsets[start])),
        };
        if c == '"' {
            Ok(Some('"'))
        } else if c == '\\' {
            Ok(Some('\\'))
        } else if c == 'b' {
            Ok(Some('\u{8}'))
        } else if c == 'f' {
            Ok(Some('\u{c}'))
        } else if c == 'n' {
            Ok(Some('\n'))
        } else if c == 'r' {
            Ok(Some('\r'))
        } else if c == 't' {
            Ok(Some('\t'))
        } else if c == 'u' || c == 'U' {
            let len: usize = if c == 'u' { 4 } else { 8 };
            match self.hex(start, len) {
                Ok(x) => Ok(Some(x)),
                Err(e) => Err(e),
            }
        } else if multiline && c == '\n' {
            self.skip_blanks();
            Ok(None)
        } else if multiline && (c == ' ' || c == '\t') {
            self.skip_spaces();
            if self.is_last_char() {
                Ok(None)
            } else if self.eat('\n') {
                self.skip_blanks();
                Ok(None)
            } else {
                Err(Error::InvalidEscape(self.offsets[j], c))
            }
        } else {
            Err(Error::InvalidEscape(self.offsets[j], c))
        }
    }

    /// The shared loop of both string kinds, after the opening delimiter.
    fn read_string(&mut self, delim: char, start: usize, policy: EscapePolicy) -> (r: Result<
        Token<'a>,
        Error,
    >)
        requires
            old(self).wf(),
            old(self).pos == start + 1,
            (policy == EscapePolicy::Basic) == (delim == '"'),
        ensures
            final(self).wf(),
            final(self).src == old(self).src,
            final(self).pos > start,
            outcome(string_token(old(self).src@, start as int, delim), r, final(self).pos as int),
    {
        let ghost s = self.src@;
        let mut multiline = false;
        if self.eat(delim) {
            if self.eat(delim) {
                multiline = true;
            } else {
                let empty = "";
                proof {
                    reveal_strlit("");
                    assert(empty@ =~= Seq::<char>::empty());
                }
                return Ok(
                    Token::String {
                        src: self.slice(start, self.pos),
                        value: StrValue::Borrowed(empty),
                        multiline,
                    },
                );
            }
        }
        let mut val = MaybeString::NotEscaped(self.pos);
        let mut first = true;
        loop
            invariant
                self.wf(),
                self.src == old(self).src,
                s == self.src@,
                start < self.pos,
                (policy == EscapePolicy::Basic) == (delim == '"'),
                val@ matches Buf::Src(a) ==> a <= self.pos,
                string_body(s, start as int, delim, multiline, self.pos as int, val@, first)
                    == string_token(s, start as int, delim),
            decreases s.len() - self.pos,
        {
            let i = self.pos;
            let c = match self.get_next_char() {
                Some(c) => c,
                None => return Err(Error::UnterminatedString(self.offsets[start])),
            };
            if c == '\n' {
                if multiline {
                    if first {
                        val = MaybeString::NotEscaped(self.pos);
                    } else {
                        val.push('\n');
                    }
                } else {
                    return Err(Error::NewlineInString(self.offsets[i]));
                }
            } else if c == '\r' && multiline && self.eat('\n') {
                val.owned(self, i);
                if first {
                    val = MaybeString::NotEscaped(self.pos);
                } else {
                    val.push('\n');
                }
            } else if c == delim {
                if !multiline {
                    return Ok(
                        Token::String {
                            src: self.slice(start, self.pos),
                            value: val.into_cow(self, i),
                            multiline,
                        },
                    );
                }
                if !self.eat(delim) {
                    val.push(delim);
                } else if !self.eat(delim) {
                    val.push(delim);
                    val.push(delim);
                } else {
                    let mut end = i;
                    if self.eat(delim) {
                        val.push(delim);
                        end = end + 1;
                        if self.eat(delim) {
                            val.push(delim);
                            end = end + 1;
                        }
                    }
                    return Ok(
                        Token::String {
                            src: self.slice(start, self.pos),
                            value: val.into_cow(self, end),
                            multiline,
                        },
                    );
                }
            } else if policy == EscapePolicy::Basic && c == '\\' {
                val.owned(self, i);
                match self.escape(start, multiline) {
                    Ok(Some(x)) => val.push(x),
                    Ok(None) => {},
                    Err(e) => return Err(e),
                }
            } else if is_string_char_exec(c) {
                val.push(c);
            } else {
                return Err(Error::InvalidCharInString(self.offsets[i], c));
            }
            first = false;
        }
    }

    fn literal_string(&mut self, start: usize) -> (r: Result<Token<'a>, Error>)
        requires
            old(self).wf(),
            old(self).pos == start + 1,
        ensures
            final(self).wf(),
            final(self).src == old(self).src,
            final(self).pos > start,
            outcome(string_token(old(self).src@, start as int, '\''), r, final(self).pos as int),
    {
        self.read_string('\'', start, EscapePolicy::Literal)
    }

    fn basic_string(&mut self, start: usize) -> (r: Result<Token<'a>, Error>)
        requires
            old(self).wf(),
            old(self).pos == start + 1,
        ensures
            final(self).wf(),
            final(self).src == old(self).src,
            final(self).pos > start,
            outcome(string_token(old(self).src@, start as int, '"'), r, final(self).pos as int),
    {
        self.read_string('"', start, EscapePolicy::Basic)
    }
}

impl<'a> Token<'a> {
    /// A short phrase naming the kind of token, for messages.
    pub fn describe(&self) -> (r: &'static str)
        ensures
            r@ == match self {
                Token::Keylike(_) => "an identifier"@,
                Token::Equals => "an equals"@,
                Token::Period => "a period"@,
                Token::Comment(_) => "a comment"@,
                Token::NewLine => "a newline"@,
                Token::WhiteSpace(_) => "whitespace"@,
                Token::Comma => "a comma"@,
                Token::RightBrace => "a right brace"@,
                Token::LeftBrace => "a left brace"@,
                Token::RightBracket => "a right bracket"@,
                Token::LeftBracket => "a left bracket"@,
                Token::String { multiline, .. } => if *multiline {
                    "a multiline string"@
                } else {
                    "a string"@
                },
                Token::Colon => "a colon"@,
                Token::Plus => "a plus"@,
            },
    {
        match self {
            Token::Keylike(_) => "an identifier",
            Token::Equals => "an equals",
            Token::Period => "a period",
            Token::Comment(_) => "a comment",
            Token::NewLine => "a newline",
            Token::WhiteSpace(_) => "whitespace",
            Token::Comma => "a comma",
            Token::RightBrace => "a right brace",
            Token::LeftBrace => "a left brace",
            Token::RightBracket => "a right bracket",
            Token::LeftBracket => "a left bracket",
            Token::String { multiline, .. } => {
                if *multiline {
                    "a multiline string"
                } else {
                    "a string"
                }
            },
            Token::Colon => "a colon",
            Token::Plus => "a plus",
        }
    }
}

} // verus!
