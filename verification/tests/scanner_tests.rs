use lox::error_format::format_error;
use lox::scanner::{scan_tokens, LexError, LexErrorKind, Literal, Scanner, Token, TokenType};

fn scan(source: &str) -> Vec<Token> {
    let (tokens, errors) = scan_tokens(source.to_string());
    assert_eq!(errors, vec![], "{}", source);
    tokens
}

fn kinds_and_errors(source: &str) -> (Vec<TokenType>, Vec<LexError>) {
    let (tokens, errors) = scan_tokens(source.to_string());
    (tokens.iter().map(|token| token.t_type).collect(), errors)
}

fn invalid(byte: u8, line: usize) -> LexError {
    LexError { kind: LexErrorKind::InvalidCharacter(byte), line, col: -1 }
}

fn unterminated(line: usize) -> LexError {
    LexError { kind: LexErrorKind::UnterminatedString, line, col: -1 }
}

fn kinds(source: &str) -> Vec<TokenType> {
    scan(source).iter().map(|token| token.t_type).collect()
}

#[test]
fn empty_source_is_one_end_of_input_token() {
    let tokens = scan("");
    assert_eq!(tokens.len(), 1);
    assert_eq!(tokens[0].t_type, TokenType::Eof);
    assert_eq!(tokens[0].line, 1);
    assert!(tokens[0].lexeme.is_empty());
    assert_eq!(tokens[0].literal, None);
}

#[test]
fn single_character_tokens() {
    assert_eq!(
        kinds("(){},.-+;*/"),
        vec![
            TokenType::LeftParen,
            TokenType::RightParen,
            TokenType::LeftBrace,
            TokenType::RightBrace,
            TokenType::Comma,
            TokenType::Dot,
            TokenType::Minus,
            TokenType::Plus,
            TokenType::Semicolon,
            TokenType::Star,
            TokenType::Slash,
            TokenType::Eof,
        ]
    );
}

#[test]
fn two_character_operators_win_over_their_prefixes() {
    assert_eq!(
        kinds("! != = == < <= > >="),
        vec![
            TokenType::Bang,
            TokenType::BangEqual,
            TokenType::Equal,
            TokenType::EqualEqual,
            TokenType::Less,
            TokenType::LessEqual,
            TokenType::Greater,
            TokenType::GreaterEqual,
            TokenType::Eof,
        ]
    );
    assert_eq!(
        kinds("==="),
        vec![TokenType::EqualEqual, TokenType::Equal, TokenType::Eof]
    );
    assert_eq!(kinds("!"), vec![TokenType::Bang, TokenType::Eof]);
}

#[test]
fn lexemes_are_the_bytes_of_the_source() {
    let tokens = scan("var answer = 42.5;");
    let lexemes: Vec<&[u8]> = tokens.iter().map(|token| token.lexeme.as_slice()).collect();
    assert_eq!(
        lexemes,
        vec![&b"var"[..], &b"answer"[..], &b"="[..], &b"42.5"[..], &b";"[..], &b""[..]]
    );
}

#[test]
fn blank_space_gives_no_token_and_line_feeds_count_lines() {
    let tokens = scan(" \t\r\n+\n\n-");
    assert_eq!(tokens.len(), 3);
    assert_eq!((tokens[0].t_type, tokens[0].line), (TokenType::Plus, 2));
    assert_eq!((tokens[1].t_type, tokens[1].line), (TokenType::Minus, 4));
    assert_eq!((tokens[2].t_type, tokens[2].line), (TokenType::Eof, 4));
}

#[test]
fn comments_run_to_the_end_of_the_line() {
    let tokens = scan("+ // - * (\n/ // the rest");
    assert_eq!(tokens.len(), 3);
    assert_eq!((tokens[0].t_type, tokens[0].line), (TokenType::Plus, 1));
    assert_eq!((tokens[1].t_type, tokens[1].line), (TokenType::Slash, 2));
    assert_eq!((tokens[2].t_type, tokens[2].line), (TokenType::Eof, 2));
}

#[test]
fn string_literal_carries_the_text_between_the_quotes() {
    let tokens = scan("\"hello world\"");
    assert_eq!(tokens.len(), 2);
    assert_eq!(tokens[0].t_type, TokenType::String);
    assert_eq!(tokens[0].lexeme, b"\"hello world\"".to_vec());
    assert_eq!(
        tokens[0].literal,
        Some(Literal::String("hello world".to_string()))
    );
}

#[test]
fn empty_string_literal() {
    let tokens = scan("\"\"");
    assert_eq!(tokens[0].t_type, TokenType::String);
    assert_eq!(tokens[0].literal, Some(Literal::String(String::new())));
}

#[test]
fn string_literal_keeps_text_outside_ascii() {
    let tokens = scan("\"gr\u{fc}\u{df}e \u{4e16}\u{754c}\"");
    assert_eq!(
        tokens[0].literal,
        Some(Literal::String("gr\u{fc}\u{df}e \u{4e16}\u{754c}".to_string()))
    );
}

#[test]
fn string_literal_may_span_lines() {
    let tokens = scan("\"a\nb\nc\" +");
    assert_eq!(tokens[0].t_type, TokenType::String);
    assert_eq!(tokens[0].literal, Some(Literal::String("a\nb\nc".to_string())));
    assert_eq!(tokens[0].line, 3);
    assert_eq!((tokens[1].t_type, tokens[1].line), (TokenType::Plus, 3));
}

#[test]
fn unterminated_string_is_an_error_and_the_tokens_before_it_stay() {
    let (tokens, errors) = scan_tokens("1 + \"abc".to_string());
    assert_eq!(errors, vec![unterminated(1)]);
    assert_eq!(errors[0].message(), "Unterminated string.");
    assert_eq!(
        tokens.iter().map(|token| token.t_type).collect::<Vec<_>>(),
        vec![TokenType::Number, TokenType::Plus, TokenType::Eof]
    );
    assert_eq!(tokens[0].literal, Some(Literal::Number("1".to_string())));
}

#[test]
fn unterminated_string_reports_the_line_where_the_source_ends() {
    let (tokens, errors) = scan_tokens("\n\"abc\n\ndef".to_string());
    assert_eq!(errors, vec![unterminated(4)]);
    assert_eq!(tokens.len(), 1);
    assert_eq!((tokens[0].t_type, tokens[0].line), (TokenType::Eof, 4));
}

#[test]
fn an_open_string_takes_the_rest_of_the_source() {
    assert_eq!(
        kinds_and_errors("print \"abc; @ 1 + 2"),
        (vec![TokenType::Print, TokenType::Eof], vec![unterminated(1)])
    );
    assert_eq!(kinds_and_errors("\""), (vec![TokenType::Eof], vec![unterminated(1)]));
}

#[test]
fn number_literals_carry_their_numeral() {
    let tokens = scan("123 45.67 0");
    assert_eq!(tokens.len(), 4);
    for token in &tokens[..3] {
        assert_eq!(token.t_type, TokenType::Number);
    }
    assert_eq!(tokens[0].literal, Some(Literal::Number("123".to_string())));
    assert_eq!(tokens[1].literal, Some(Literal::Number("45.67".to_string())));
    assert_eq!(tokens[2].literal, Some(Literal::Number("0".to_string())));
}

#[test]
fn a_dot_without_a_digit_behind_it_is_not_part_of_a_number() {
    let tokens = scan("12.");
    assert_eq!(
        tokens.iter().map(|token| token.t_type).collect::<Vec<_>>(),
        vec![TokenType::Number, TokenType::Dot, TokenType::Eof]
    );
    assert_eq!(tokens[0].literal, Some(Literal::Number("12".to_string())));
    assert_eq!(kinds("12.x"), vec![
        TokenType::Number,
        TokenType::Dot,
        TokenType::Identifier,
        TokenType::Eof
    ]);
}

#[test]
fn a_dot_without_a_digit_before_it_is_not_part_of_a_number() {
    let tokens = scan(".5");
    assert_eq!(
        tokens.iter().map(|token| token.t_type).collect::<Vec<_>>(),
        vec![TokenType::Dot, TokenType::Number, TokenType::Eof]
    );
    assert_eq!(tokens[1].literal, Some(Literal::Number("5".to_string())));
}

#[test]
fn a_number_takes_one_fraction_only() {
    assert_eq!(
        kinds("1.2.3"),
        vec![TokenType::Number, TokenType::Dot, TokenType::Number, TokenType::Eof]
    );
}

#[test]
fn identifiers_carry_their_name() {
    let tokens = scan("foo _bar baz_9 Printer");
    assert_eq!(tokens.len(), 5);
    let names = ["foo", "_bar", "baz_9", "Printer"];
    for (token, name) in tokens.iter().zip(names) {
        assert_eq!(token.t_type, TokenType::Identifier);
        assert_eq!(token.literal, Some(Literal::Identifier(name.to_string())));
        assert_eq!(token.lexeme, name.as_bytes().to_vec());
    }
}

#[test]
fn every_keyword_has_its_own_kind() {
    assert_eq!(
        kinds("and class else false for fun if nil or print return super this true var while"),
        vec![
            TokenType::And,
            TokenType::Class,
            TokenType::Else,
            TokenType::False,
            TokenType::For,
            TokenType::Fun,
            TokenType::If,
            TokenType::Nil,
            TokenType::Or,
            TokenType::Print,
            TokenType::Return,
            TokenType::Super,
            TokenType::This,
            TokenType::True,
            TokenType::Var,
            TokenType::While,
            TokenType::Eof,
        ]
    );
}

#[test]
fn keywords_carry_no_payload() {
    let tokens = scan("print");
    assert_eq!(tokens[0].t_type, TokenType::Print);
    assert_eq!(tokens[0].literal, None);
}

#[test]
fn a_keyword_inside_a_longer_name_is_an_identifier() {
    assert_eq!(
        kinds("variable printer iff"),
        vec![
            TokenType::Identifier,
            TokenType::Identifier,
            TokenType::Identifier,
            TokenType::Eof
        ]
    );
    assert_eq!(kinds("Var"), vec![TokenType::Identifier, TokenType::Eof]);
}

#[test]
fn invalid_character_is_an_error_and_the_scan_goes_on() {
    let (tokens, errors) = scan_tokens("var x = 1;\nx = x @ 2;".to_string());
    assert_eq!(errors, vec![invalid(b'@', 2)]);
    assert_eq!(errors[0].message(), "Invalid character: @");
    assert_eq!(
        tokens.iter().map(|token| token.t_type).collect::<Vec<_>>(),
        vec![
            TokenType::Var,
            TokenType::Identifier,
            TokenType::Equal,
            TokenType::Number,
            TokenType::Semicolon,
            TokenType::Identifier,
            TokenType::Equal,
            TokenType::Identifier,
            TokenType::Number,
            TokenType::Semicolon,
            TokenType::Eof,
        ]
    );
    assert_eq!(tokens[8].literal, Some(Literal::Number("2".to_string())));
    assert_eq!(tokens[8].line, 2);
}

#[test]
fn an_invalid_character_gives_no_token() {
    let (tokens, errors) = scan_tokens("@1".to_string());
    assert_eq!(errors, vec![invalid(b'@', 1)]);
    assert_eq!(tokens.len(), 2);
    assert_eq!(tokens[0].t_type, TokenType::Number);
    assert_eq!(tokens[0].lexeme, b"1".to_vec());
    assert_eq!(tokens[0].literal, Some(Literal::Number("1".to_string())));
    assert_eq!(tokens[0].line, 1);
    assert_eq!((tokens[1].t_type, tokens[1].line), (TokenType::Eof, 1));
    assert_eq!(
        format_error(&errors[0].message(), errors[0].line, errors[0].col),
        "Error Invalid character: @ at line 1 col: -1"
    );
}

#[test]
fn an_invalid_character_ends_the_token_before_it() {
    assert_eq!(
        kinds_and_errors("ab$cd 1#2 <?="),
        (
            vec![
                TokenType::Identifier,
                TokenType::Identifier,
                TokenType::Number,
                TokenType::Number,
                TokenType::Less,
                TokenType::Equal,
                TokenType::Eof,
            ],
            vec![invalid(b'$', 1), invalid(b'#', 1), invalid(b'?', 1)],
        )
    );
}

#[test]
fn a_source_of_invalid_characters_alone_gives_the_end_token() {
    assert_eq!(
        kinds_and_errors("@\n#"),
        (vec![TokenType::Eof], vec![invalid(b'@', 1), invalid(b'#', 2)])
    );
}

#[test]
fn every_lexical_error_is_handed_out_in_the_order_of_the_source() {
    assert_eq!(
        kinds_and_errors("#\n1 ^ 2\n\"open\n"),
        (
            vec![TokenType::Number, TokenType::Number, TokenType::Eof],
            vec![invalid(b'#', 1), invalid(b'^', 2), unterminated(4)],
        )
    );
}

#[test]
fn a_letter_outside_ascii_starts_no_identifier() {
    let (tokens, errors) = scan_tokens("\u{e9}t\u{e9}".to_string());
    assert_eq!(
        errors,
        vec![invalid(0xc3, 1), invalid(0xa9, 1), invalid(0xc3, 1), invalid(0xa9, 1)]
    );
    assert_eq!(
        tokens.iter().map(|token| token.t_type).collect::<Vec<_>>(),
        vec![TokenType::Identifier, TokenType::Eof]
    );
    assert_eq!(tokens[0].literal, Some(Literal::Identifier("t".to_string())));
}

#[test]
fn lexical_error_gives_the_diagnostic_line() {
    let (_, errors) = scan_tokens("\n\n$ \"".to_string());
    let lines: Vec<String> = errors
        .iter()
        .map(|error| format_error(&error.message(), error.line, error.col))
        .collect();
    assert_eq!(
        lines,
        vec![
            "Error Invalid character: $ at line 3 col: -1",
            "Error Unterminated string. at line 3 col: -1",
        ]
    );
}

#[test]
fn the_end_of_input_token_comes_last_and_only_there() {
    let tokens = scan("print 1 + 2; // done\n");
    let ends = tokens
        .iter()
        .filter(|token| token.t_type == TokenType::Eof)
        .count();
    assert_eq!(ends, 1);
    assert_eq!(tokens.last().unwrap().t_type, TokenType::Eof);
    assert_eq!(tokens.last().unwrap().line, 2);
}

#[test]
fn scanner_holds_what_the_last_scan_gave() {
    let mut scanner = Scanner::new("+".to_string());
    scanner.scan_tokens("- -".to_string());
    let (tokens, errors) = scanner.into_parts();
    assert_eq!(errors, vec![]);
    assert_eq!(
        tokens.iter().map(|token| token.t_type).collect::<Vec<_>>(),
        vec![TokenType::Minus, TokenType::Minus, TokenType::Eof]
    );
    let mut scanner = Scanner::new(String::new());
    scanner.scan_tokens("?".to_string());
    scanner.scan_tokens("? ;".to_string());
    let (tokens, errors) = scanner.into_parts();
    assert_eq!(errors, vec![invalid(b'?', 1)]);
    assert_eq!(
        tokens.iter().map(|token| token.t_type).collect::<Vec<_>>(),
        vec![TokenType::Semicolon, TokenType::Eof]
    );
}

#[test]
fn format_error_writes_line_and_column() {
    assert_eq!(
        format_error("Unterminated string.", 12, -1),
        "Error Unterminated string. at line 12 col: -1"
    );
    assert_eq!(format_error("", 0, 0), "Error  at line 0 col: 0");
    assert_eq!(
        format_error("x", usize::MAX, i64::MIN),
        format!("Error x at line {} col: {}", usize::MAX, i64::MIN)
    );
    assert_eq!(
        format_error("x", 1000, i64::MAX),
        format!("Error x at line 1000 col: {}", i64::MAX)
    );
}

#[test]
fn a_fresh_scanner_has_found_nothing() {
    assert_eq!(Scanner::default().into_parts(), (vec![], vec![]));
    assert_eq!(Scanner::new("1 + 2".to_string()).into_parts(), (vec![], vec![]));
}

#[test]
fn a_copy_of_a_token_equals_the_token() {
    for token in scan("var name = \"text\" + 1.5;") {
        assert_eq!(token.clone(), token);
    }
}

#[test]
fn text_helpers_write_decimal_numerals() {
    let mut text = String::from("n=");
    lox::text::push_decimal(&mut text, 0);
    text.push(' ');
    lox::text::push_decimal(&mut text, 907);
    text.push(' ');
    lox::text::push_decimal(&mut text, u64::MAX);
    text.push(' ');
    lox::text::push_signed_decimal(&mut text, -45);
    text.push(' ');
    lox::text::push_signed_decimal(&mut text, 0);
    assert_eq!(text, format!("n=0 907 {} -45 0", u64::MAX));
}
