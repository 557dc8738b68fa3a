use expr_lang::lexer::{tokenize, Lexer, TokenKind};

#[test]
fn lex_number_token() {
    let mut lexer = Lexer::new("123");
    let t = lexer.next_token().unwrap();
    assert_eq!(t.kind, TokenKind::Number(123));
    assert_eq!(t.span.start, 0);
    assert_eq!(t.span.end, 3);
    assert_eq!(t.span.literal, "123");
    let eof = lexer.next_token().unwrap();
    assert_eq!(eof.kind, TokenKind::Eof);
    assert_eq!(eof.span.start, 3);
    assert_eq!(eof.span.end, 3);
    assert_eq!(eof.span.literal, "");
    assert!(lexer.next_token().is_none());
}

#[test]
fn lex_keywords_and_identifier() {
    let tokens = tokenize("let function letter");
    let kinds: Vec<TokenKind> = tokens.iter().map(|t| t.kind).collect();
    assert_eq!(
        kinds,
        vec![
            TokenKind::Let,
            TokenKind::Whitespace,
            TokenKind::Function,
            TokenKind::Whitespace,
            TokenKind::Identifier,
            TokenKind::Eof,
        ]
    );
    assert_eq!(tokens[4].span.literal, "letter");
}

#[test]
fn lex_punctuation() {
    let tokens = tokenize("+-*/=(),{}");
    let kinds: Vec<TokenKind> = tokens.iter().map(|t| t.kind).collect();
    assert_eq!(
        kinds,
        vec![
            TokenKind::Plus,
            TokenKind::Minus,
            TokenKind::Asterisk,
            TokenKind::Slash,
            TokenKind::Equals,
            TokenKind::OpenParen,
            TokenKind::CloseParen,
            TokenKind::Comma,
            TokenKind::OpenBrace,
            TokenKind::CloseBrace,
            TokenKind::Eof,
        ]
    );
}

#[test]
fn lex_bad_character() {
    let tokens = tokenize("#");
    assert_eq!(tokens.len(), 2);
    assert_eq!(tokens[0].kind, TokenKind::Bad);
    assert_eq!(tokens[1].kind, TokenKind::Eof);
}

#[test]
fn lex_whitespace_is_its_own_token() {
    // Exercises the Unicode whitespace classification: a space must lex
    // as Whitespace, not as Bad.
    let tokens = tokenize(" ");
    assert_eq!(tokens.len(), 2);
    assert_eq!(tokens[0].kind, TokenKind::Whitespace);
    assert_eq!(tokens[0].span.literal, " ");
}

#[test]
fn lex_alphabetic_starts_identifier() {
    // Exercises the Unicode alphabetic classification: a letter must
    // start an identifier run, not lex as Bad.
    let tokens = tokenize("abc_x");
    assert_eq!(tokens.len(), 2);
    assert_eq!(tokens[0].kind, TokenKind::Identifier);
    assert_eq!(tokens[0].span.literal, "abc_x");
}

#[test]
fn lex_empty_input_yields_only_eof() {
    let tokens = tokenize("");
    assert_eq!(tokens.len(), 1);
    assert_eq!(tokens[0].kind, TokenKind::Eof);
    assert_eq!(tokens[0].span.start, 0);
    assert_eq!(tokens[0].span.end, 0);
}

#[test]
fn lex_round_trip() {
    let input = "let answer = 3 * (4 + 1)";
    let tokens = tokenize(input);
    let mut rebuilt = String::new();
    for t in tokens.iter() {
        rebuilt.push_str(&t.span.literal);
    }
    assert_eq!(rebuilt, input);
}

#[test]
fn lex_exactly_one_eof_and_it_is_last() {
    let tokens = tokenize("1 + 2 * (3 - 4)");
    let eof_count = tokens.iter().filter(|t| t.kind == TokenKind::Eof).count();
    assert_eq!(eof_count, 1);
    assert_eq!(tokens.last().unwrap().kind, TokenKind::Eof);
}

#[test]
fn lex_spans_monotonically_non_decreasing() {
    let tokens = tokenize("12 + (34 * 5)");
    for w in tokens.windows(2) {
        assert!(w[0].span.start <= w[1].span.start);
    }
}

#[test]
fn lex_number_accumulation_wraps() {
    // 2^63 does not fit in i64; wrapping accumulation lands on i64::MIN.
    let tokens = tokenize("9223372036854775808");
    assert_eq!(tokens[0].kind, TokenKind::Number(i64::MIN));
}

#[test]
fn lex_maximal_digit_run() {
    let tokens = tokenize("12 34");
    assert_eq!(tokens[0].kind, TokenKind::Number(12));
    assert_eq!(tokens[1].kind, TokenKind::Whitespace);
    assert_eq!(tokens[2].kind, TokenKind::Number(34));
}
