use cool_front::lexical::LexError;
use cool_front::scanner::{ScanFailure, Scanner};
use cool_front::token::{Token, TokenType};

fn scan_ok(src: &str) -> Vec<Token> {
    let mut s = Scanner::new(src.to_string());
    match s.scan_tokens() {
        Ok(t) => t,
        Err(_) => panic!("unexpected scan failure on {:?}", src),
    }
}

fn scan_err(src: &str) -> ScanFailure {
    let mut s = Scanner::new(src.to_string());
    match s.scan_tokens() {
        Ok(_) => panic!("expected scan failure on {:?}", src),
        Err(f) => f,
    }
}

fn kinds(ts: &[Token]) -> Vec<TokenType> {
    ts.iter().map(|t| t.tokentype).collect()
}

#[test]
fn empty_source_gives_only_eof() {
    let ts = scan_ok("");
    assert_eq!(kinds(&ts), vec![TokenType::EOF]);
    assert_eq!(ts[0].line, 1);
    assert_eq!(ts[0].lexeme, "");
}

#[test]
fn nested_comment_is_consumed() {
    let ts = scan_ok("(* (* *) *)");
    assert_eq!(kinds(&ts), vec![TokenType::EOF]);
}

#[test]
fn unbalanced_nested_comment_fails() {
    let f = scan_err("(* (* *)");
    assert_eq!(f.errors.len(), 1);
    assert_eq!(f.errors[0].error, LexError::UnterminatedComment);
    assert_eq!(kinds(&f.tokens), vec![TokenType::EOF]);
}

#[test]
fn unterminated_comment_reported_at_opening_line() {
    let f = scan_err("x\n(* a\nb");
    assert_eq!(f.errors[0].line, 2);
    assert_eq!(kinds(&f.tokens), vec![TokenType::IDENTIFIER, TokenType::EOF]);
}

#[test]
fn two_character_operators_are_single_tokens() {
    let ts = scan_ok("<= <- => >=");
    assert_eq!(
        kinds(&ts),
        vec![TokenType::LESSEQUAL, TokenType::ASSIGN, TokenType::RARROW, TokenType::MOREEQUAL, TokenType::EOF]
    );
    assert_eq!(ts[0].lexeme, "<=");
    assert_eq!(ts[1].lexeme, "<-");
}

#[test]
fn less_than_followed_by_identifier() {
    let ts = scan_ok("<x");
    assert_eq!(kinds(&ts), vec![TokenType::LESSTHAN, TokenType::IDENTIFIER, TokenType::EOF]);
    assert_eq!(ts[1].lexeme, "x");
}

#[test]
fn single_equals_and_greater() {
    let ts = scan_ok("= > <");
    assert_eq!(kinds(&ts), vec![TokenType::EQUALITY, TokenType::MORETHAN, TokenType::LESSTHAN, TokenType::EOF]);
}

#[test]
fn keywords_ignore_case() {
    let ts = scan_ok("WHILE While while");
    assert_eq!(kinds(&ts), vec![TokenType::KEYWHILE, TokenType::KEYWHILE, TokenType::KEYWHILE, TokenType::EOF]);
    assert_eq!(ts[1].literal, Some("While".to_string()));
}

#[test]
fn booleans_only_in_lowercase() {
    let ts = scan_ok("TRUE true False false");
    assert_eq!(
        kinds(&ts),
        vec![TokenType::IDENTIFIER, TokenType::KEYTRUE, TokenType::IDENTIFIER, TokenType::KEYFALSE, TokenType::EOF]
    );
}

#[test]
fn keyword_table_lookup() {
    assert_eq!(Token::keyword("class"), Some(TokenType::KEYCLASS));
    assert_eq!(Token::keyword("CLASS"), None);
    assert_eq!(Token::keyword("while"), Some(TokenType::KEYWHILE));
    assert_eq!(Token::keyword("WHILE"), None);
    assert_eq!(Token::keyword("Main"), None);
    assert_eq!(Token::keyword("isvoid"), Some(TokenType::ISVOID));
    assert_eq!(Token::keyword("not"), Some(TokenType::NOT));
    assert_eq!(Token::keyword("inherits"), Some(TokenType::KEYINHERITS));
    assert_eq!(Token::keyword("Inherits"), None);
    assert_eq!(Token::keyword("delete"), Some(TokenType::KEYDELETE));
    assert_eq!(Token::keyword("True"), None);
    assert_eq!(Token::keyword("classy"), None);
    assert_eq!(Token::keyword(""), None);
}

#[test]
fn unterminated_string_fails_with_error_token() {
    let f = scan_err("\"abc");
    assert_eq!(kinds(&f.tokens), vec![TokenType::ERROR, TokenType::EOF]);
    assert_eq!(f.tokens[0].lexeme, "\"abc");
    assert_eq!(f.errors.len(), 1);
    assert_eq!(f.errors[0].error, LexError::UnterminatedString);
}

#[test]
fn string_literal_body() {
    let ts = scan_ok("\"a\\\"b\" x");
    assert_eq!(kinds(&ts), vec![TokenType::STRING, TokenType::IDENTIFIER, TokenType::EOF]);
    assert_eq!(ts[0].lexeme, "a\\\"b");
    assert_eq!(ts[0].literal, Some("a\\\"b".to_string()));
}

#[test]
fn string_with_nul_is_an_error_and_scanning_goes_on() {
    let f = scan_err("\"a\0b\" 7");
    assert_eq!(kinds(&f.tokens), vec![TokenType::ERROR, TokenType::INTEGER, TokenType::EOF]);
    assert_eq!(f.errors[0].error, LexError::NulInString);
}

#[test]
fn unexpected_character_is_reported_and_skipped() {
    let f = scan_err("a # b\n");
    assert_eq!(kinds(&f.tokens), vec![TokenType::IDENTIFIER, TokenType::IDENTIFIER, TokenType::EOF]);
    assert_eq!(f.errors.len(), 1);
    assert_eq!(f.errors[0].error, LexError::UnexpectedChar('#' as u32));
    assert_eq!(f.errors[0].line, 1);
    assert_eq!(f.tokens[1].lexeme, "b");
}

#[test]
fn line_numbers_count_newlines_before_token() {
    let ts = scan_ok("a\nb -- note\n\n  c (* x\n y *) d\n\"s\nt\" e");
    let lines: Vec<usize> = ts.iter().map(|t| t.line).collect();
    assert_eq!(kinds(&ts)[..6].to_vec(), vec![
        TokenType::IDENTIFIER, TokenType::IDENTIFIER, TokenType::IDENTIFIER, TokenType::IDENTIFIER,
        TokenType::STRING, TokenType::IDENTIFIER
    ]);
    assert_eq!(lines, vec![1, 2, 4, 5, 6, 7, 7]);
}

#[test]
fn integers_and_identifiers() {
    let ts = scan_ok("x1 _y 042");
    assert_eq!(kinds(&ts), vec![TokenType::IDENTIFIER, TokenType::IDENTIFIER, TokenType::INTEGER, TokenType::EOF]);
    assert_eq!(ts[2].literal, Some("042".to_string()));
    assert_eq!(ts[0].lexeme, "x1");
}

#[test]
fn punctuation() {
    let ts = scan_ok("(){};:,.@~+-*/");
    assert_eq!(
        kinds(&ts),
        vec![
            TokenType::LEFTPAREN, TokenType::RIGHTPAREN, TokenType::LEFTBRACE, TokenType::RIGHTBRACE,
            TokenType::SEMICOLON, TokenType::COLON, TokenType::COMMA, TokenType::DOT, TokenType::AT,
            TokenType::TILDA, TokenType::PLUS, TokenType::MINUS, TokenType::STAR, TokenType::SLASH, TokenType::EOF
        ]
    );
}
