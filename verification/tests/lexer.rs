use ga_sandbox::lexer::{Lexer, LexerError, LexerErrorKind, Location, Token, TokenKind};

fn tokens(source: &str) -> Result<Vec<Token>, LexerError> {
    let mut lexer = Lexer::new(source);
    let mut tokens = Vec::new();
    while let Some(token) = lexer.next_token()? {
        tokens.push(token);
    }
    Ok(tokens)
}

fn kinds(source: &str) -> Vec<TokenKind> {
    tokens(source).unwrap().into_iter().map(|token| token.kind).collect()
}

fn name(spelling: &str) -> TokenKind {
    TokenKind::Name(spelling.to_string())
}

fn number(literal: &str) -> TokenKind {
    TokenKind::Number(literal.to_string())
}

fn at(position: usize, line: usize, column: usize) -> Location {
    Location { position, line, column }
}

#[test]
fn a_new_lexer_stands_at_the_start() {
    let lexer = Lexer::new("x = 1;");
    assert_eq!(lexer.location(), at(0, 1, 1));
}

#[test]
fn an_empty_source_has_no_token() {
    let mut lexer = Lexer::new("");
    assert_eq!(lexer.next_token(), Ok(None));
    assert_eq!(lexer.next_token(), Ok(None));
    assert_eq!(lexer.location(), at(0, 1, 1));
}

#[test]
fn whitespace_alone_has_no_token() {
    let mut lexer = Lexer::new(" \t\n  ");
    assert_eq!(lexer.next_token(), Ok(None));
    assert_eq!(lexer.location(), at(5, 2, 3));
}

#[test]
fn an_assignment_is_lexed_token_by_token() {
    assert_eq!(
        kinds("x = 1 + 2 * 3;"),
        vec![
            name("x"),
            TokenKind::Equal,
            number("1"),
            TokenKind::Plus,
            number("2"),
            TokenKind::Asterisk,
            number("3"),
            TokenKind::Semicolon,
        ]
    );
}

#[test]
fn every_symbol_has_its_token() {
    assert_eq!(
        kinds("();+-*/^|&!~="),
        vec![
            TokenKind::OpenParenthesis,
            TokenKind::CloseParenthesis,
            TokenKind::Semicolon,
            TokenKind::Plus,
            TokenKind::Minus,
            TokenKind::Asterisk,
            TokenKind::Slash,
            TokenKind::Caret,
            TokenKind::Pipe,
            TokenKind::Ampersand,
            TokenKind::ExclamationMark,
            TokenKind::Tilde,
            TokenKind::Equal,
        ]
    );
}

#[test]
fn the_six_keywords_are_no_names() {
    assert_eq!(
        kinds("normalize magnitude sin cos asin acos"),
        vec![
            TokenKind::NormalizeKeyword,
            TokenKind::MagnitudeKeyword,
            TokenKind::SinKeyword,
            TokenKind::CosKeyword,
            TokenKind::ASinKeyword,
            TokenKind::ACosKeyword,
        ]
    );
}

#[test]
fn words_near_keywords_are_names() {
    assert_eq!(
        kinds("sine Sin normalized _cos a_1 e012 _"),
        vec![
            name("sine"),
            name("Sin"),
            name("normalized"),
            name("_cos"),
            name("a_1"),
            name("e012"),
            name("_"),
        ]
    );
}

#[test]
fn a_name_may_hold_letters_of_any_script() {
    assert_eq!(kinds("\u{e9}t\u{e9} \u{3b1}2"), vec![name("\u{e9}t\u{e9}"), name("\u{3b1}2")]);
}

#[test]
fn a_name_ends_at_a_symbol() {
    assert_eq!(kinds("ab+cd"), vec![name("ab"), TokenKind::Plus, name("cd")]);
}

#[test]
fn numbers_keep_the_text_of_their_literal() {
    assert_eq!(
        kinds("0 12 1.5 007 3. 10.250"),
        vec![number("0"), number("12"), number("1.5"), number("007"), number("3."), number("10.250")]
    );
}

#[test]
fn a_number_followed_by_letters_ends_before_them() {
    assert_eq!(kinds("2x"), vec![number("2"), name("x")]);
}

#[test]
fn tokens_carry_the_place_of_their_first_character() {
    let found = tokens("ab = 1;\n  c = ab;").unwrap();
    let places: Vec<Location> = found.iter().map(|token| token.location).collect();
    assert_eq!(
        places,
        vec![
            at(0, 1, 1),
            at(3, 1, 4),
            at(5, 1, 6),
            at(6, 1, 7),
            at(10, 2, 3),
            at(12, 2, 5),
            at(14, 2, 7),
            at(16, 2, 9),
        ]
    );
}

#[test]
fn the_position_counts_bytes_and_the_column_characters() {
    let found = tokens("\u{e9} \u{1d6fc} x").unwrap();
    assert_eq!(found[0].location, at(0, 1, 1));
    assert_eq!(found[1].location, at(3, 1, 3));
    assert_eq!(found[2].location, at(8, 1, 5));
}

#[test]
fn a_line_feed_begins_a_new_line() {
    let mut lexer = Lexer::new("a\n\nb");
    lexer.next_token().unwrap();
    assert_eq!(lexer.location(), at(1, 1, 2));
    let token = lexer.next_token().unwrap().unwrap();
    assert_eq!(token.location, at(3, 3, 1));
    assert_eq!(lexer.location(), at(4, 3, 2));
}

#[test]
fn a_carriage_return_is_whitespace_and_begins_no_line() {
    let found = tokens("a\r\nb").unwrap();
    assert_eq!(found[1].location, at(3, 2, 1));
    let found = tokens("a\rb").unwrap();
    assert_eq!(found[1].location, at(2, 1, 3));
}

#[test]
fn whitespace_of_any_script_is_passed_over() {
    assert_eq!(kinds("a\u{a0}\u{2003}b"), vec![name("a"), name("b")]);
}

#[test]
fn an_unexpected_character_is_an_error_at_its_place() {
    assert_eq!(
        tokens("x = $;"),
        Err(LexerError { location: at(4, 1, 5), kind: LexerErrorKind::UnexpectedChar('$') })
    );
    assert_eq!(
        tokens("a\n  #"),
        Err(LexerError { location: at(4, 2, 3), kind: LexerErrorKind::UnexpectedChar('#') })
    );
}

#[test]
fn a_full_stop_cannot_begin_a_number() {
    assert_eq!(
        tokens(".5"),
        Err(LexerError { location: at(0, 1, 1), kind: LexerErrorKind::UnexpectedChar('.') })
    );
}

#[test]
fn two_full_stops_make_an_invalid_number() {
    assert_eq!(
        tokens("x = 1.2.3;"),
        Err(LexerError { location: at(4, 1, 5), kind: LexerErrorKind::InvalidNumber })
    );
    assert_eq!(
        tokens("1.."),
        Err(LexerError { location: at(0, 1, 1), kind: LexerErrorKind::InvalidNumber })
    );
}

#[test]
fn digits_of_other_scripts_make_an_invalid_number() {
    assert_eq!(
        tokens("\u{663}"),
        Err(LexerError { location: at(0, 1, 1), kind: LexerErrorKind::InvalidNumber })
    );
    assert_eq!(
        tokens(" 1\u{bd}"),
        Err(LexerError { location: at(1, 1, 2), kind: LexerErrorKind::InvalidNumber })
    );
}

#[test]
fn the_lexer_stands_behind_what_it_refused() {
    let mut lexer = Lexer::new("1.2.3 x");
    assert!(lexer.next_token().is_err());
    assert_eq!(lexer.location(), at(5, 1, 6));
    assert_eq!(lexer.next_token().unwrap().unwrap().kind, name("x"));
    let mut lexer = Lexer::new("$x");
    assert!(lexer.next_token().is_err());
    assert_eq!(lexer.location(), at(1, 1, 2));
}

#[test]
fn peeking_does_not_move_the_lexer() {
    let mut lexer = Lexer::new("  a b");
    let peeked = lexer.peek_token();
    assert_eq!(lexer.location(), at(0, 1, 1));
    assert_eq!(lexer.peek_token(), peeked);
    assert_eq!(lexer.next_token(), peeked);
    assert_eq!(lexer.location(), at(3, 1, 4));
    assert_eq!(lexer.peek_token().unwrap().unwrap().kind, name("b"));
}

#[test]
fn peeking_shows_the_error_and_the_end_too() {
    let lexer = Lexer::new(" ?");
    assert_eq!(
        lexer.peek_token(),
        Err(LexerError { location: at(1, 1, 2), kind: LexerErrorKind::UnexpectedChar('?') })
    );
    let lexer = Lexer::new("  ");
    assert_eq!(lexer.peek_token(), Ok(None));
    assert_eq!(lexer.location(), at(0, 1, 1));
}

#[test]
fn a_location_is_shown_as_line_and_column() {
    assert_eq!(at(0, 1, 1).to_string(), "1:1");
    assert_eq!(at(250, 12, 34).to_string(), "12:34");
    assert_eq!(at(0, 100, 9).to_string(), "100:9");
    assert_eq!(at(0, 0, 1090).to_string(), "0:1090");
}

#[test]
fn lexer_errors_are_shown_with_their_place() {
    let error = LexerError { location: at(4, 1, 5), kind: LexerErrorKind::UnexpectedChar('$') };
    assert_eq!(error.to_string(), "1:5: Unexpected character '$'");
    let error = LexerError { location: at(9, 3, 2), kind: LexerErrorKind::InvalidNumber };
    assert_eq!(error.to_string(), "3:2: Invalid number");
    assert_eq!(LexerErrorKind::InvalidNumber.to_string(), "Invalid number");
}

#[test]
fn tokens_are_shown_as_they_are_written() {
    assert_eq!(name("abc").to_string(), "abc");
    assert_eq!(number("1.50").to_string(), "1.50");
    assert_eq!(TokenKind::NormalizeKeyword.to_string(), "normalize");
    assert_eq!(TokenKind::MagnitudeKeyword.to_string(), "magnitude");
    assert_eq!(TokenKind::SinKeyword.to_string(), "sin");
    assert_eq!(TokenKind::CosKeyword.to_string(), "cos");
    assert_eq!(TokenKind::ASinKeyword.to_string(), "asin");
    assert_eq!(TokenKind::ACosKeyword.to_string(), "acos");
    let shown: Vec<String> = kinds("();+-*/^|&!~=").iter().map(|kind| kind.to_string()).collect();
    assert_eq!(shown.concat(), "();+-*/^|&!~=");
    let token = Token { location: at(0, 1, 1), kind: TokenKind::Caret };
    assert_eq!(token.to_string(), "^");
}
