use quarry::lexer::{Diagnostic, DiagnosticKind, Lexer, NumericError, TemplatePart, Token, TokenKind};

fn lex_all(src: &str) -> Vec<Result<Token, Diagnostic>> {
    let mut lexer = Lexer::new(src.as_bytes().to_vec());
    let mut items = Vec::new();
    while let Some(item) = lexer.next() {
        let stop = item.is_err();
        items.push(item);
        if stop {
            break;
        }
    }
    items
}

fn lex_tokens(src: &str) -> Vec<Token> {
    lex_all(src)
        .into_iter()
        .map(|item| item.expect("expected a token, found a diagnostic"))
        .collect()
}

fn lex_single_error(src: &str) -> Diagnostic {
    let items = lex_all(src);
    assert_eq!(items.len(), 1, "expected exactly one item for {:?}", src);
    items.into_iter().next().unwrap().expect_err("expected a diagnostic")
}

#[test]
fn empty_source_yields_nothing() {
    assert!(lex_all("").is_empty());
}

#[test]
fn whitespace_only_yields_nothing() {
    assert!(lex_all("   \t\r   ").is_empty());
}

#[test]
fn comment_only_yields_nothing() {
    assert!(lex_all("// just a comment").is_empty());
    assert!(lex_all("  \t// spaces then a comment").is_empty());
}

#[test]
fn every_keyword_scans_to_its_kind() {
    let table: Vec<(&str, TokenKind)> = vec![
        ("let", TokenKind::Let),
        ("import", TokenKind::Import),
        ("json", TokenKind::Json),
        ("multipart", TokenKind::Multipart),
        ("raw", TokenKind::Raw),
        ("form", TokenKind::Form),
        ("save", TokenKind::Save),
        ("assert", TokenKind::Assert),
        ("matches", TokenKind::Matches),
        ("in", TokenKind::In),
        ("contains", TokenKind::Contains),
        ("test", TokenKind::Test),
        ("graphql", TokenKind::Graphql),
        ("ws", TokenKind::Ws),
        ("get", TokenKind::Get),
        ("post", TokenKind::Post),
        ("put", TokenKind::Put),
        ("delete", TokenKind::Delete),
        ("name", TokenKind::Name),
        ("nil", TokenKind::Nil),
        ("true", TokenKind::True),
        ("false", TokenKind::False),
    ];
    for (word, kind) in table {
        let tokens = lex_tokens(word);
        assert_eq!(tokens.len(), 1, "keyword {:?}", word);
        assert_eq!(tokens[0].kind, kind, "keyword {:?}", word);
        assert_eq!(tokens[0].origin, word.as_bytes().to_vec());
        assert_eq!(tokens[0].offset, 0);
    }
}

#[test]
fn keyword_prefix_is_an_identifier() {
    let tokens = lex_tokens("lettuce getx names");
    assert_eq!(tokens.len(), 3);
    for t in &tokens {
        assert_eq!(t.kind, TokenKind::Ident);
    }
}

#[test]
fn offsets_increase_and_spans_never_overlap() {
    let src = "name updateUser\nput '${base}/users/42' {x: 12, y: -3.5} != ==";
    let tokens = lex_tokens(src);
    assert!(tokens.len() > 5);
    for pair in tokens.windows(2) {
        let end = pair[0].offset + pair[0].origin.len();
        assert!(pair[0].offset < pair[1].offset);
        assert!(end <= pair[1].offset);
    }
    for t in &tokens {
        assert_eq!(
            &src.as_bytes()[t.offset..t.offset + t.origin.len()],
            t.origin.as_slice()
        );
    }
}

fn rebuild_content(parts: &[TemplatePart]) -> Vec<u8> {
    let mut out = Vec::new();
    for part in parts {
        match part {
            TemplatePart::Literal(text) => out.extend_from_slice(text),
            TemplatePart::Interpolation(expr) => {
                out.extend_from_slice(b"${");
                out.extend_from_slice(expr);
                out.push(b'}');
            }
        }
    }
    out
}

#[test]
fn template_parts_rebuild_content_exactly() {
    let sources = vec![
        "`plain text`",
        "'${base}/users/42'",
        "\"pre${a}mid${b}post\"",
        "`${x}${y}`",
        "`a${ {nested{braces}} }b`",
        "''",
        "`a${x}`",
    ];
    for src in sources {
        let tokens = lex_tokens(src);
        assert_eq!(tokens.len(), 1, "source {:?}", src);
        match &tokens[0].kind {
            TokenKind::TemplateLiteral { content, parts } => {
                assert_eq!(&rebuild_content(parts), content, "source {:?}", src);
                assert_eq!(content.as_slice(), &src.as_bytes()[1..src.len() - 1]);
            }
            other => panic!("expected a template literal for {:?}, found {:?}", src, other),
        }
    }
}

#[test]
fn rescanning_the_same_source_yields_identical_items() {
    let src = "name updateUser\nput '${base}/users/42'\njson { \"a\": 1, \"b\": -2.5 }\n!= == ! =";
    let first = lex_all(src);
    let second = lex_all(src);
    assert_eq!(first, second);
    assert!(!first.is_empty());
}

#[test]
fn name_then_identifier() {
    let tokens = lex_tokens("name updateUser");
    assert_eq!(tokens.len(), 2);
    assert_eq!(tokens[0].kind, TokenKind::Name);
    assert_eq!(tokens[0].origin, b"name".to_vec());
    assert_eq!(tokens[0].offset, 0);
    assert_eq!(tokens[1].kind, TokenKind::Ident);
    assert_eq!(tokens[1].origin, b"updateUser".to_vec());
    assert_eq!(tokens[1].offset, 5);
}

#[test]
fn put_with_interpolated_template() {
    let tokens = lex_tokens("put '${base}/users/42'");
    assert_eq!(tokens.len(), 2);
    assert_eq!(tokens[0].kind, TokenKind::Put);
    match &tokens[1].kind {
        TokenKind::TemplateLiteral { content, parts } => {
            assert_eq!(content.as_slice(), b"${base}/users/42");
            assert_eq!(
                parts,
                &vec![
                    TemplatePart::Interpolation(b"base".to_vec()),
                    TemplatePart::Literal(b"/users/42".to_vec()),
                ]
            );
        }
        other => panic!("expected a template literal, found {:?}", other),
    }
    assert_eq!(tokens[1].offset, 4);
    assert_eq!(tokens[1].origin, b"'${base}/users/42'".to_vec());
}

#[test]
fn operators_scan_with_maximal_munch() {
    let tokens = lex_tokens("!= = ==");
    let kinds: Vec<TokenKind> = tokens.into_iter().map(|t| t.kind).collect();
    assert_eq!(
        kinds,
        vec![TokenKind::BangEqual, TokenKind::Equal, TokenKind::EqualEqual]
    );
}

#[test]
fn single_bang_and_equal_at_end_of_input() {
    assert_eq!(lex_tokens("!")[0].kind, TokenKind::Bang);
    assert_eq!(lex_tokens("=")[0].kind, TokenKind::Equal);
}

#[test]
fn unterminated_template_spans_to_end_of_input() {
    let d = lex_single_error("`abc");
    assert_eq!(d.kind, DiagnosticKind::UnterminatedTemplate);
    assert_eq!(d.span_start, 0);
    assert_eq!(d.span_end, 4);
    assert_eq!(d.source, b"`abc".to_vec());
}

#[test]
fn negative_double_is_one_token() {
    let tokens = lex_tokens("-12.4");
    assert_eq!(tokens.len(), 1);
    assert_eq!(tokens[0].offset, 0);
    assert_eq!(tokens[0].origin, b"-12.4".to_vec());
    match &tokens[0].kind {
        TokenKind::Double { text } => {
            assert_eq!(text.as_slice(), b"-12.4");
            let value: f64 = String::from_utf8(text.clone()).unwrap().parse().unwrap();
            assert_eq!(value, -12.4f64);
        }
        other => panic!("expected a double, found {:?}", other),
    }
}

#[test]
fn run_with_two_dots_is_malformed() {
    let d = lex_single_error("12.3.4");
    assert_eq!(
        d.kind,
        DiagnosticKind::MalformedNumericLiteral { cause: NumericError::InvalidFloat }
    );
    assert_eq!(d.span_start, 0);
    assert_eq!(d.span_end, 6);
    assert_eq!(d.message(), "invalid float literal");
    assert_eq!(d.label(), "this numeric literal");
}

#[test]
fn single_newline_is_a_token_and_blank_lines_collapse() {
    let tokens = lex_tokens("a\nb");
    assert_eq!(tokens.len(), 3);
    assert_eq!(tokens[1].kind, TokenKind::Newline);
    assert_eq!(tokens[1].offset, 1);

    let tokens = lex_tokens("a\n\n\nb");
    assert_eq!(tokens.len(), 3);
    assert_eq!(tokens[0].origin, b"a".to_vec());
    assert_eq!(tokens[1].kind, TokenKind::Newline);
    assert_eq!(tokens[1].offset, 3);
    assert_eq!(tokens[2].origin, b"b".to_vec());
    assert_eq!(tokens[2].offset, 4);
}

#[test]
fn comment_stops_before_the_line_break() {
    let tokens = lex_tokens("// c\nx");
    assert_eq!(tokens.len(), 2);
    assert_eq!(tokens[0].kind, TokenKind::Newline);
    assert_eq!(tokens[0].offset, 4);
    assert_eq!(tokens[1].kind, TokenKind::Ident);
    assert_eq!(tokens[1].origin, b"x".to_vec());
    assert_eq!(tokens[1].offset, 5);
}

#[test]
fn structural_bytes_scan_one_byte_each() {
    let kinds: Vec<TokenKind> = lex_tokens("{}:,").into_iter().map(|t| t.kind).collect();
    assert_eq!(
        kinds,
        vec![
            TokenKind::LeftBrace,
            TokenKind::RightBrace,
            TokenKind::Colon,
            TokenKind::Comma
        ]
    );
}

#[test]
fn minus_without_digit_is_standalone_minus() {
    let d = lex_single_error("-a");
    assert_eq!(d.kind, DiagnosticKind::StandaloneMinus);
    assert_eq!(d.span_start, 0);
    assert_eq!(d.span_end, 1);

    let d = lex_single_error("-");
    assert_eq!(d.kind, DiagnosticKind::StandaloneMinus);
}

#[test]
fn unrecognized_byte_is_invalid_character() {
    let d = lex_single_error("@");
    assert_eq!(d.kind, DiagnosticKind::InvalidCharacter);
    assert_eq!(d.span_start, 0);
    assert_eq!(d.span_end, 1);
    assert_eq!(d.message(), "unexpected character in input");
    assert_eq!(d.label(), "this character");
}

#[test]
fn integers_parse_to_their_values() {
    let cases: Vec<(&str, i64)> = vec![
        ("0", 0),
        ("42", 42),
        ("-7", -7),
        ("9223372036854775807", i64::MAX),
        ("-9223372036854775808", i64::MIN),
    ];
    for (src, expected) in cases {
        let tokens = lex_tokens(src);
        assert_eq!(tokens.len(), 1, "source {:?}", src);
        assert_eq!(tokens[0].kind, TokenKind::Integer(expected), "source {:?}", src);
        assert_eq!(tokens[0].origin, src.as_bytes().to_vec());
    }
}

#[test]
fn integer_overflow_is_malformed() {
    let cases: Vec<(&str, NumericError, &str)> = vec![
        (
            "9223372036854775808",
            NumericError::TooLarge,
            "number too large to fit in target type",
        ),
        (
            "-9223372036854775809",
            NumericError::TooSmall,
            "number too small to fit in target type",
        ),
        (
            "99999999999999999999",
            NumericError::TooLarge,
            "number too large to fit in target type",
        ),
    ];
    for (src, cause, message) in cases {
        let d = lex_single_error(src);
        assert_eq!(
            d.kind,
            DiagnosticKind::MalformedNumericLiteral { cause },
            "source {:?}",
            src
        );
        assert_eq!(d.span_start, 0);
        assert_eq!(d.span_end, src.len());
        assert_eq!(d.message(), message, "source {:?}", src);
    }
}

#[test]
fn trailing_dot_still_scans_as_double() {
    let tokens = lex_tokens("1.");
    assert_eq!(tokens.len(), 1);
    match &tokens[0].kind {
        TokenKind::Double { text } => assert_eq!(text.as_slice(), b"1."),
        other => panic!("expected a double, found {:?}", other),
    }
}

#[test]
fn unclosed_interpolation_spans_from_dollar_brace() {
    let d = lex_single_error("`${a");
    assert_eq!(d.kind, DiagnosticKind::UnclosedInterpolation);
    assert_eq!(d.span_start, 1);
    assert_eq!(d.span_end, 4);
}

#[test]
fn interpolation_counts_braces_only() {
    let tokens = lex_tokens("`${ {a{b}c} }`");
    assert_eq!(tokens.len(), 1);
    match &tokens[0].kind {
        TokenKind::TemplateLiteral { content, parts } => {
            assert_eq!(content.as_slice(), b"${ {a{b}c} }");
            assert_eq!(
                parts,
                &vec![TemplatePart::Interpolation(b" {a{b}c} ".to_vec())]
            );
        }
        other => panic!("expected a template literal, found {:?}", other),
    }
}

#[test]
fn a_delimiter_inside_an_interpolation_does_not_close_the_template() {
    let tokens = lex_tokens("`${'}`");
    assert_eq!(tokens.len(), 1);
    match &tokens[0].kind {
        TokenKind::TemplateLiteral { content, parts } => {
            assert_eq!(content.as_slice(), b"${'}");
            assert_eq!(parts, &vec![TemplatePart::Interpolation(b"'".to_vec())]);
        }
        other => panic!("expected a template literal, found {:?}", other),
    }
}

#[test]
fn other_delimiters_are_plain_template_content() {
    let tokens = lex_tokens("'a`b\"c'");
    assert_eq!(tokens.len(), 1);
    match &tokens[0].kind {
        TokenKind::TemplateLiteral { content, parts } => {
            assert_eq!(content.as_slice(), b"a`b\"c");
            assert_eq!(parts, &vec![TemplatePart::Literal(b"a`b\"c".to_vec())]);
        }
        other => panic!("expected a template literal, found {:?}", other),
    }
}

#[test]
fn empty_template_has_no_parts() {
    let tokens = lex_tokens("``");
    assert_eq!(tokens.len(), 1);
    match &tokens[0].kind {
        TokenKind::TemplateLiteral { content, parts } => {
            assert!(content.is_empty());
            assert!(parts.is_empty());
        }
        other => panic!("expected a template literal, found {:?}", other),
    }
}

#[test]
fn identifier_run_is_maximal() {
    let tokens = lex_tokens("a1b2 x");
    assert_eq!(tokens.len(), 2);
    assert_eq!(tokens[0].kind, TokenKind::Ident);
    assert_eq!(tokens[0].origin, b"a1b2".to_vec());
}

#[test]
fn underscore_does_not_extend_an_identifier() {
    let items = lex_all("a_b");
    assert_eq!(items.len(), 2);
    let first = items[0].as_ref().unwrap();
    assert_eq!(first.kind, TokenKind::Ident);
    assert_eq!(first.origin, b"a".to_vec());
    let second = items[1].as_ref().unwrap_err();
    assert_eq!(second.kind, DiagnosticKind::InvalidCharacter);
    assert_eq!(second.span_start, 1);
    assert_eq!(second.span_end, 2);
}

#[test]
fn stream_ends_after_the_input_is_consumed() {
    let mut lexer = Lexer::new(b"get".to_vec());
    let first = lexer.next();
    assert!(matches!(first, Some(Ok(_))));
    assert!(lexer.next().is_none());
    assert!(lexer.next().is_none());
}

#[test]
fn diagnostics_carry_the_whole_source() {
    let src = "json {\n  12.3.4\n}";
    let items = lex_all(src);
    let last = items.last().unwrap();
    let d = last.as_ref().unwrap_err();
    assert_eq!(
        d.kind,
        DiagnosticKind::MalformedNumericLiteral { cause: NumericError::InvalidFloat }
    );
    assert_eq!(d.source, src.as_bytes().to_vec());
    assert_eq!(d.span_start, 9);
    assert_eq!(d.span_end, 15);
    assert_eq!(&src.as_bytes()[d.span_start..d.span_end], b"12.3.4");
}

#[test]
fn request_description_scans_front_to_back() {
    let src = "name updateUser\nput '${base}/users/42'\njson {\n\"name\": \"Jane\"\n}\n32.44 aa\n-12.4";
    let tokens = lex_tokens(src);
    let kinds: Vec<&TokenKind> = tokens.iter().map(|t| &t.kind).collect();
    assert_eq!(tokens[0].kind, TokenKind::Name);
    assert_eq!(tokens[1].kind, TokenKind::Ident);
    assert_eq!(tokens[2].kind, TokenKind::Newline);
    assert_eq!(tokens[3].kind, TokenKind::Put);
    assert!(matches!(kinds[4], TokenKind::TemplateLiteral { .. }));
    assert_eq!(tokens[5].kind, TokenKind::Newline);
    assert_eq!(tokens[6].kind, TokenKind::Json);
    assert_eq!(tokens[7].kind, TokenKind::LeftBrace);
    assert!(tokens.iter().any(|t| matches!(&t.kind, TokenKind::Double { text } if text == b"32.44")));
    assert!(tokens.iter().any(|t| matches!(&t.kind, TokenKind::Double { text } if text == b"-12.4")));
}

#[test]
fn unicode_whitespace_yields_nothing() {
    let src = "\u{A0}\u{85}\u{1680}\u{2000}\u{2003}\u{200A}\u{2028}\u{2029}\u{202F}\u{205F}\u{3000}";
    assert!(lex_all(src).is_empty());
    assert!(lex_all(" \t\u{A0}// trailing comment after unicode blanks").is_empty());
}

#[test]
fn unicode_whitespace_separates_tokens() {
    let tokens = lex_tokens("a\u{A0}b");
    assert_eq!(tokens.len(), 2);
    assert_eq!(tokens[0].origin, b"a".to_vec());
    assert_eq!(tokens[0].offset, 0);
    assert_eq!(tokens[1].origin, b"b".to_vec());
    assert_eq!(tokens[1].offset, 3);
}

#[test]
fn invalid_character_span_covers_the_whole_character() {
    let cases: Vec<(&str, usize)> = vec![("\u{E9}", 2), ("\u{20AC}", 3), ("\u{1D11E}", 4)];
    for (src, width) in cases {
        let mut lexer = Lexer::new(src.as_bytes().to_vec());
        let first = lexer.next().unwrap();
        let d = first.expect_err("expected a diagnostic");
        assert_eq!(d.kind, DiagnosticKind::InvalidCharacter, "source {:?}", src);
        assert_eq!(d.span_start, 0);
        assert_eq!(d.span_end, width, "source {:?}", src);
        assert!(lexer.next().is_none(), "one character, one diagnostic");
    }
}

#[test]
fn a_stray_continuation_byte_is_one_invalid_byte() {
    let mut lexer = Lexer::new(vec![0x85]);
    let d = lexer.next().unwrap().expect_err("expected a diagnostic");
    assert_eq!(d.kind, DiagnosticKind::InvalidCharacter);
    assert_eq!(d.span_start, 0);
    assert_eq!(d.span_end, 1);
}
