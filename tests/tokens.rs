use toml_tokens::tokens::{Error, Span, StrValue, Token, Tokenizer};

fn drain(src: &str) -> Result<Vec<(Span, Token<'_>)>, Error> {
    let mut t = Tokenizer::new(src);
    let mut out = Vec::new();
    while let Some(tok) = t.tokenize()? {
        out.push(tok);
    }
    Ok(out)
}

fn single_string(src: &str) -> (String, bool, bool) {
    let toks = drain(src).unwrap();
    assert_eq!(toks.len(), 1);
    match &toks[0].1 {
        Token::String { src: raw, value, multiline } => {
            assert_eq!(*raw, src);
            match value {
                StrValue::Borrowed(v) => (v.to_string(), true, *multiline),
                StrValue::Owned(v) => (v.clone(), false, *multiline),
            }
        }
        other => panic!("not a string: {:?}", other),
    }
}

#[test]
fn should_parse_toml() {
    let toml_file_content = r#"
    title = "TOML Example"

    [owner]
    name = "Tom Preston-Werner"
    dob = 1979-05-27T07:32:00-08:00
    
    [database]
    enabled = true
    ports = [ 8000, 8001, 8002 ]
    data = [ ["delta", "phi"], [3.14] ]
    temp_targets = { cpu = 79.5, case = 72.0 }
    
    [servers]
    
    [servers.alpha]
    ip = "10.0.0.1"
    role = "frontend"
    
    [servers.beta]
    ip = "10.0.0.2"
    role = "backend"
    "#;

    let mut tokenizer = Tokenizer::new(toml_file_content);
    let mut tokens: Vec<(Span, Token<'_>)> = vec![];

    while !tokenizer.is_last_char() {
        let token = tokenizer.tokenize();

        match token {
            Ok(t) => match t {
                Some(value) => tokens.push(value),
                None => {}
            },
            Err(_) => {}
        }
    }

    println!("{:?}", tokens);
}

#[test]
fn spans_are_contiguous_and_cover_the_source() {
    let src = "a = \"é\u{1F600}\" # ü\n[t.k]\tx='''q\n'''";
    let toks = drain(src).unwrap();
    assert_eq!(toks[0].0.start, 0);
    for w in toks.windows(2) {
        assert_eq!(w[0].0.end, w[1].0.start);
        assert!(w[0].0.start < w[0].0.end);
    }
    assert_eq!(toks.last().unwrap().0.end, src.len());
}

#[test]
fn string_lexeme_is_the_span_of_source() {
    let src = "k = \"a\\tb\" 'lit' \"\"\"m\nl\"\"\"";
    for (span, tok) in drain(src).unwrap() {
        if let Token::String { src: raw, .. } = tok {
            assert_eq!(raw, &src[span.start..span.end]);
        }
    }
}

#[test]
fn plain_strings_borrow_the_source() {
    assert_eq!(single_string("\"plain\""), ("plain".to_string(), true, false));
    assert_eq!(single_string("'lit\\eral'"), ("lit\\eral".to_string(), true, false));
    assert_eq!(single_string("'''multi\nline'''"), ("multi\nline".to_string(), true, true));
    assert_eq!(single_string("\"esc\\t\""), ("esc\t".to_string(), false, false));
}

#[test]
fn newline_escape_decodes_to_a_real_newline() {
    let (v, borrowed, _) = single_string("\"a\\nb\"");
    assert_eq!(v, "a\nb");
    assert_eq!(v.chars().count(), 3);
    assert!(!borrowed);
}

#[test]
fn simple_escapes_decode() {
    let (v, _, _) = single_string("\"\\\"\\\\\\b\\f\\r\\t\"");
    assert_eq!(v, "\"\\\u{8}\u{c}\r\t");
}

#[test]
fn hex_escape_decodes() {
    assert_eq!(single_string("\"\\u0041\"").0, "A");
    assert_eq!(single_string("\"\\U0001F600x\"").0, "\u{1F600}x");
}

#[test]
fn bad_hex_digit_is_reported_at_its_offset() {
    assert_eq!(drain("\"\\uZZZZ\""), Err(Error::InvalidHexEscape(3, 'Z')));
    assert_eq!(drain("\"\\u00g1\""), Err(Error::InvalidHexEscape(5, 'g')));
}

#[test]
fn surrogate_hex_escape_is_an_invalid_value() {
    assert_eq!(drain("\"\\uD800\""), Err(Error::InvalidEscapeValue(3, 0xD800)));
    assert_eq!(drain("\"\\UFFFFFFFF\""), Err(Error::InvalidEscapeValue(3, 0xFFFF_FFFF)));
}

#[test]
fn multiline_trims_first_newline() {
    assert_eq!(single_string("\"\"\"\nhello\"\"\""), ("hello".to_string(), true, true));
    assert_eq!(single_string("'''\r\nhello'''").0, "hello");
}

#[test]
fn multiline_crlf_becomes_newline() {
    assert_eq!(single_string("\"\"\"a\r\nb\"\"\""), ("a\nb".to_string(), false, true));
}

#[test]
fn multiline_keeps_delimiters_before_the_close() {
    assert_eq!(single_string("'''a''''").0, "a'");
    assert_eq!(single_string("\"\"\"a\"\"\"\"\"").0, "a\"\"");
    assert_eq!(single_string("'''a'b''c'''").0, "a'b''c");
}

#[test]
fn line_continuation_removes_whitespace() {
    assert_eq!(single_string("\"\"\"a\\   \n  \n  b\"\"\"").0, "ab");
    assert_eq!(single_string("\"\"\"a\\\n   b\"\"\"").0, "ab");
    assert_eq!(drain("\"\"\"a\\  x\"\"\""), Err(Error::InvalidEscape(5, ' ')));
}

#[test]
fn empty_strings() {
    assert_eq!(single_string("\"\""), ("".to_string(), true, false));
    assert_eq!(single_string("''''''"), ("".to_string(), true, true));
}

#[test]
fn unterminated_string_reports_opening_offset() {
    assert_eq!(drain("\"abc"), Err(Error::UnterminatedString(0)));
    assert_eq!(drain("x = 'abc"), Err(Error::UnterminatedString(4)));
    assert_eq!(drain("\"a\\"), Err(Error::UnterminatedString(0)));
}

#[test]
fn three_spaces_are_one_whitespace_token() {
    let toks = drain("   ").unwrap();
    assert_eq!(toks, vec![(Span { start: 0, end: 3 }, Token::WhiteSpace("   "))]);
}

#[test]
fn two_tokenizers_agree() {
    let src = "a.b = [1, {c = 'd'}] # e\n+:";
    assert_eq!(drain(src), drain(src));
    let mut t1 = Tokenizer::new("x = \"\\q\"");
    let mut t2 = Tokenizer::new("x = \"\\q\"");
    for _ in 0..6 {
        assert_eq!(t1.tokenize(), t2.tokenize());
    }
}

#[test]
fn punctuation_and_keylike() {
    let toks: Vec<Token> = drain("=.,:+{}[]a-_9").unwrap().into_iter().map(|t| t.1).collect();
    assert_eq!(
        toks,
        vec![
            Token::Equals,
            Token::Period,
            Token::Comma,
            Token::Colon,
            Token::Plus,
            Token::LeftBrace,
            Token::RightBrace,
            Token::LeftBracket,
            Token::RightBracket,
            Token::Keylike("a-_9"),
        ]
    );
}

#[test]
fn comment_stops_at_control_character() {
    let mut t = Tokenizer::new("#abc\u{7f}\r");
    assert_eq!(t.tokenize(), Ok(Some((Span { start: 0, end: 5 }, Token::Comment("#abc\u{7f}")))));
    assert_eq!(t.tokenize(), Err(Error::Unexpected(5, '\r')));
    assert!(t.is_last_char());
    assert_eq!(t.tokenize(), Ok(None));
}

#[test]
fn errors_in_strings() {
    assert_eq!(drain("\"a\u{1}\""), Err(Error::InvalidCharInString(2, '\u{1}')));
    assert_eq!(drain("'a\u{7f}'"), Err(Error::InvalidCharInString(2, '\u{7f}')));
    assert_eq!(drain("\"\\q\""), Err(Error::InvalidEscape(2, 'q')));
    assert_eq!(drain("\"a\nb\""), Err(Error::NewlineInString(2)));
    assert_eq!(drain("\"a\r\nb\""), Err(Error::InvalidCharInString(2, '\r')));
    assert_eq!(drain("#é\n@"), Err(Error::Unexpected(4, '@')));
}

#[test]
fn byte_order_mark_is_skipped() {
    let toks = drain("\u{feff}=\n").unwrap();
    assert_eq!(
        toks,
        vec![(Span { start: 3, end: 4 }, Token::Equals), (Span { start: 4, end: 5 }, Token::NewLine)]
    );
}

#[test]
fn describe_names_each_kind() {
    assert_eq!(Token::Keylike("a").describe(), "an identifier");
    assert_eq!(Token::Equals.describe(), "an equals");
    assert_eq!(Token::Period.describe(), "a period");
    assert_eq!(Token::Comment("#").describe(), "a comment");
    assert_eq!(Token::NewLine.describe(), "a newline");
    assert_eq!(Token::WhiteSpace(" ").describe(), "whitespace");
    assert_eq!(Token::Comma.describe(), "a comma");
    assert_eq!(Token::RightBrace.describe(), "a right brace");
    assert_eq!(Token::LeftBrace.describe(), "a left brace");
    assert_eq!(Token::RightBracket.describe(), "a right bracket");
    assert_eq!(Token::LeftBracket.describe(), "a left bracket");
    assert_eq!(Token::Colon.describe(), "a colon");
    assert_eq!(Token::Plus.describe(), "a plus");
    let s = Token::String { src: "''", value: StrValue::Borrowed(""), multiline: false };
    assert_eq!(s.describe(), "a string");
    let m = Token::String { src: "''''''", value: StrValue::Borrowed(""), multiline: true };
    assert_eq!(m.describe(), "a multiline string");
}
