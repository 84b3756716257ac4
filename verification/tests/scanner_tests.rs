use lox_scanner::scanner::scan_tokens;
use lox_scanner::scanner::Scanner;
use lox_scanner::scanner::ScannerError;
use lox_scanner::token::Token;
use lox_scanner::token::TokenType;

fn chars(s: &str) -> Vec<char> {
    s.chars().collect()
}

fn scan(s: &str) -> Vec<Result<Token, ScannerError>> {
    scan_tokens(chars(s))
}

fn only_token(s: &str) -> Token {
    let mut items = scan(s);
    assert_eq!(items.len(), 1, "expected exactly one item for {:?}", s);
    items.remove(0).expect("expected a token, not an error")
}

fn only_error(s: &str) -> ScannerError {
    let mut items = scan(s);
    assert_eq!(items.len(), 1, "expected exactly one item for {:?}", s);
    match items.remove(0) {
        Ok(t) => panic!("expected an error, got token {:?}", t),
        Err(e) => e,
    }
}

#[test]
fn single_character_punctuation() {
    let cases = vec![
        ("{", TokenType::LeftBrace),
        ("}", TokenType::RightBrace),
        ("(", TokenType::LeftParen),
        (")", TokenType::RightParen),
        ("+", TokenType::Plus),
        (",", TokenType::Comma),
        (".", TokenType::Dot),
        ("-", TokenType::Minus),
        (";", TokenType::Semicolon),
        ("*", TokenType::Star),
    ];
    for (src, kind) in cases {
        let t = only_token(src);
        assert_eq!(t.kind, kind);
        assert_eq!(t.lexeme, src);
        assert_eq!(t.line, 1);
        assert!(t.value.is_none());
    }
}

#[test]
fn one_and_two_character_operators() {
    let cases = vec![
        ("=", TokenType::Equal),
        ("==", TokenType::EqualEqual),
        ("!", TokenType::Bang),
        ("!=", TokenType::BangEqual),
        ("<", TokenType::Less),
        ("<=", TokenType::LessEqual),
        (">", TokenType::Greater),
        (">=", TokenType::GreaterEqual),
    ];
    for (src, kind) in cases {
        let t = only_token(src);
        assert_eq!(t.kind, kind);
        assert_eq!(t.lexeme, src);
        assert_eq!(t.line, 1);
    }
}

#[test]
fn comment_is_discarded_and_newline_counts() {
    let t = only_token("// comment\n+");
    assert_eq!(t.kind, TokenType::Plus);
    assert_eq!(t.lexeme, "+");
    assert_eq!(t.line, 2);
}

#[test]
fn comment_without_newline_yields_nothing() {
    assert!(scan("// only a comment").is_empty());
}

#[test]
fn slash_alone_is_a_token() {
    let t = only_token("/");
    assert_eq!(t.kind, TokenType::Slash);
    assert_eq!(t.lexeme, "/");
}

#[test]
fn string_literal_drops_quotes() {
    let t = only_token("\"hello\"");
    assert_eq!(t.kind, TokenType::String);
    assert_eq!(t.lexeme, "hello");
    assert_eq!(t.line, 1);
}

#[test]
fn empty_string_literal() {
    let t = only_token("\"\"");
    assert_eq!(t.kind, TokenType::String);
    assert_eq!(t.lexeme, "");
}

#[test]
fn unterminated_string_is_an_error() {
    let e = only_error("\"unterminated");
    assert_eq!(e.desc, "Unterminated string literal");
    assert_eq!(e.line, 1);
}

#[test]
fn invalid_character_is_an_error() {
    let e = only_error("@");
    assert_eq!(e.desc, "invalid character");
    assert_eq!(e.line, 1);
}

#[test]
fn newlines_advance_the_line_counter() {
    let t = only_token("\n\n+");
    assert_eq!(t.kind, TokenType::Plus);
    assert_eq!(t.line, 3);
}

#[test]
fn blanks_are_discarded() {
    let items = scan(" \t\r+");
    assert_eq!(items.len(), 1);
    let t = items[0].as_ref().expect("token");
    assert_eq!(t.kind, TokenType::Plus);
    assert_eq!(t.line, 1);
}

#[test]
fn scanning_resumes_after_a_fault() {
    let items = scan("@#\n@");
    assert_eq!(items.len(), 3);
    let lines: Vec<usize> = items
        .iter()
        .map(|r| r.as_ref().expect_err("error").line)
        .collect();
    assert_eq!(lines, vec![1, 1, 2]);
    for r in &items {
        assert_eq!(r.as_ref().expect_err("error").desc, "invalid character");
    }
}

#[test]
fn integer_number() {
    let t = only_token("123");
    assert_eq!(t.kind, TokenType::Number);
    assert_eq!(t.lexeme, "123");
    assert!(t.value.is_none());
}

#[test]
fn fractional_number() {
    let t = only_token("3.14");
    assert_eq!(t.kind, TokenType::Number);
    assert_eq!(t.lexeme, "3.14");
}

#[test]
fn trailing_dot_is_not_part_of_the_number() {
    let items = scan("12.");
    assert_eq!(items.len(), 2);
    let n = items[0].as_ref().expect("token");
    assert_eq!(n.kind, TokenType::Number);
    assert_eq!(n.lexeme, "12");
    let d = items[1].as_ref().expect("token");
    assert_eq!(d.kind, TokenType::Dot);
}

#[test]
fn only_one_fraction_per_number() {
    let items = scan("1.2.3");
    let kinds: Vec<TokenType> = items
        .iter()
        .map(|r| r.as_ref().expect("token").kind)
        .collect();
    assert_eq!(
        kinds,
        vec![TokenType::Number, TokenType::Dot, TokenType::Number]
    );
    assert_eq!(items[0].as_ref().unwrap().lexeme, "1.2");
    assert_eq!(items[2].as_ref().unwrap().lexeme, "3");
}

#[test]
fn keywords_are_recognized_whole() {
    let cases = vec![
        ("and", TokenType::And),
        ("class", TokenType::Class),
        ("else", TokenType::Else),
        ("false", TokenType::False),
        ("fun", TokenType::Fun),
        ("for", TokenType::For),
        ("if", TokenType::If),
        ("nil", TokenType::Nil),
        ("or", TokenType::Or),
        ("print", TokenType::Print),
        ("return", TokenType::Return),
        ("super", TokenType::Super),
        ("this", TokenType::This),
        ("true", TokenType::True),
        ("var", TokenType::Var),
        ("while", TokenType::While),
    ];
    for (src, kind) in cases {
        let t = only_token(src);
        assert_eq!(t.kind, kind);
        assert_eq!(t.lexeme, src);
    }
}

#[test]
fn identifier_that_extends_a_keyword_is_an_identifier() {
    let t = only_token("andy");
    assert_eq!(t.kind, TokenType::Identifier);
    assert_eq!(t.lexeme, "andy");
}

#[test]
fn identifiers_take_underscores_and_digits() {
    let t = only_token("_x9");
    assert_eq!(t.kind, TokenType::Identifier);
    assert_eq!(t.lexeme, "_x9");
}

#[test]
fn a_small_statement() {
    let items = scan("var answer = 42; // meaning\nprint answer;");
    let toks: Vec<&Token> = items.iter().map(|r| r.as_ref().expect("token")).collect();
    let kinds: Vec<TokenType> = toks.iter().map(|t| t.kind).collect();
    assert_eq!(
        kinds,
        vec![
            TokenType::Var,
            TokenType::Identifier,
            TokenType::Equal,
            TokenType::Number,
            TokenType::Semicolon,
            TokenType::Print,
            TokenType::Identifier,
            TokenType::Semicolon,
        ]
    );
    assert_eq!(toks[0].line, 1);
    assert_eq!(toks[5].line, 2);
    assert_eq!(toks[1].lexeme, "answer");
    assert_eq!(toks[3].lexeme, "42");
}

#[test]
fn pull_interface_matches_the_batch_interface() {
    let src = "fun f(x) { return x <= 10; }";
    let mut scanner = Scanner::new(chars(src));
    let mut pulled = Vec::new();
    while let Some(item) = scanner.next() {
        pulled.push(item);
    }
    let batch = scan(src);
    assert_eq!(pulled.len(), batch.len());
    for (a, b) in pulled.iter().zip(batch.iter()) {
        match (a, b) {
            (Ok(x), Ok(y)) => {
                assert_eq!(x.kind, y.kind);
                assert_eq!(x.lexeme, y.lexeme);
                assert_eq!(x.line, y.line);
            }
            (Err(x), Err(y)) => {
                assert_eq!(x.desc, y.desc);
                assert_eq!(x.line, y.line);
            }
            _ => panic!("pull and batch disagree"),
        }
    }
}

#[test]
fn scanning_twice_yields_identical_sequences() {
    let src = "var x = \"two\nlines\"; @ 1.5 <= y // tail";
    let first = scan(src);
    let second = scan(src);
    assert_eq!(first.len(), second.len());
    for (a, b) in first.iter().zip(second.iter()) {
        match (a, b) {
            (Ok(x), Ok(y)) => {
                assert_eq!(x.kind, y.kind);
                assert_eq!(x.lexeme, y.lexeme);
                assert_eq!(x.line, y.line);
            }
            (Err(x), Err(y)) => {
                assert_eq!(x.desc, y.desc);
                assert_eq!(x.line, y.line);
            }
            _ => panic!("the two scans disagree"),
        }
    }
}

#[test]
fn newline_inside_a_string_does_not_move_the_counter() {
    // The line counter follows newlines consumed outside string literals
    // only; a string's content is accumulated verbatim.
    let items = scan("\"a\nb\"+");
    assert_eq!(items.len(), 2);
    let s = items[0].as_ref().expect("token");
    assert_eq!(s.kind, TokenType::String);
    assert_eq!(s.lexeme, "a\nb");
    assert_eq!(s.line, 1);
    let p = items[1].as_ref().expect("token");
    assert_eq!(p.kind, TokenType::Plus);
    assert_eq!(p.line, 1);
}

#[test]
fn lexemes_concatenate_back_to_a_gapless_source() {
    let src = "(){}+-;*==<=!=.,";
    let rebuilt: String = scan(src)
        .iter()
        .map(|r| r.as_ref().expect("token").lexeme.clone())
        .collect();
    assert_eq!(rebuilt, src);
}

#[test]
fn lexemes_and_gaps_rebuild_the_source() {
    // Gaps: one space after `var`, one around `=`, the comment and its
    // newline; the string contributes its quotes back.
    let src = "var s = \"hi\" // greet\n;";
    let items = scan(src);
    let toks: Vec<&Token> = items.iter().map(|r| r.as_ref().expect("token")).collect();
    let rebuilt = format!(
        "{} {} {} \"{}\" // greet\n{}",
        toks[0].lexeme, toks[1].lexeme, toks[2].lexeme, toks[3].lexeme, toks[4].lexeme
    );
    assert_eq!(rebuilt, src);
}
