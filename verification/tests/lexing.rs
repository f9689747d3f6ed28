use minilang::lexer::Lexer;
use minilang::token::Token;

fn lexer_with_source(src: &str) -> Lexer {
    Lexer::new(&src.as_bytes().to_vec()).unwrap()
}

#[test]
fn it_returns_a_single_char() {
    let mut lexer = lexer_with_source("foobar");

    lexer.get_char();
    assert!(lexer.last_char().eq_char('f'));
}

#[test]
fn it_returns_eof() {
    let mut lexer = lexer_with_source("foo");

    for _ in 0..3 {
        lexer.get_char();
    }

    lexer.get_char();
    assert!(lexer.last_char().is_eof());
}

#[test]
fn it_returns_multibyte_chars() {
    let mut lexer = lexer_with_source("🙂👍");

    lexer.get_char();
    assert!(lexer.last_char().eq_char('🙂'));

    lexer.get_char();
    assert!(lexer.last_char().eq_char('👍'));
}

#[test]
fn it_parses_identifires() {
    let src = "  ident1  \n\t ident2 ident3";
    let mut lexer = lexer_with_source(src);
    let identifiers = vec!["ident1", "ident2", "ident3"];

    for ident in identifiers {
        assert_eq!(lexer.get_token(), Token::Identifier);
        assert_eq!(lexer.lexeme, ident);
    }
}

#[test]
fn it_parses_define() {
    let mut lexer = lexer_with_source("def foobar");

    assert_eq!(lexer.get_token(), Token::Define);
    assert_eq!(lexer.lexeme, "def");
}

#[test]
fn it_parses_int_number() {
    let mut lexer = lexer_with_source("  1234 ");

    assert_eq!(lexer.get_token(), Token::Number);
    assert_eq!(lexer.lexeme, "1234");
}

#[test]
fn it_parses_fractional_number() {
    let mut lexer = lexer_with_source("  1234.12 ");

    assert_eq!(lexer.get_token(), Token::Number);
    assert_eq!(lexer.lexeme, "1234.12");
}

#[test]
fn it_parses_fractional_number_with_missin_fraction() {
    let mut lexer = lexer_with_source("  1234. ");

    assert_eq!(lexer.get_token(), Token::Number);
    assert_eq!(lexer.lexeme, "1234.");
}

#[test]
fn it_skips_comment() {
    let mut lexer = lexer_with_source("# comment 1 \n # comment 2 \n\r foobar # comment 3\n123");

    assert_eq!(lexer.get_token(), Token::Identifier);
    assert_eq!(lexer.lexeme, "foobar");
    assert_eq!(lexer.get_token(), Token::Number);
    assert_eq!(lexer.lexeme, "123");
}

#[test]
fn it_returns_invalid_char() {
    let mut lexer = lexer_with_source("$123");

    assert_eq!(lexer.get_token(), Token::InvalidChar);
}

#[test]
fn it_elides_comments_entirely() {
    let mut lexer = lexer_with_source("# only a comment\nfoobar\n# another comment\n123");

    assert_eq!(lexer.get_token(), Token::Identifier);
    assert_eq!(lexer.lexeme, "foobar");
    assert_eq!(lexer.get_token(), Token::Number);
    assert_eq!(lexer.lexeme, "123");
    assert_eq!(lexer.get_token(), Token::Eof);
}

#[test]
fn it_retokenizes_number_lexemes_unchanged() {
    for src in ["1234.12", "1234.", "0"] {
        let mut lexer = lexer_with_source(src);
        assert_eq!(lexer.get_token(), Token::Number);
        let lexeme = lexer.lexeme.clone();

        let mut again = lexer_with_source(&lexeme);
        assert_eq!(again.get_token(), Token::Number);
        assert_eq!(again.lexeme, lexeme);
    }
}

#[test]
fn it_retokenizes_identifier_lexemes_unchanged() {
    for src in ["foobar9 rest", "x"] {
        let mut lexer = lexer_with_source(src);
        assert_eq!(lexer.get_token(), Token::Identifier);
        let lexeme = lexer.lexeme.clone();

        let mut again = lexer_with_source(&lexeme);
        assert_eq!(again.get_token(), Token::Identifier);
        assert_eq!(again.lexeme, lexeme);
    }
}

#[test]
fn it_recognizes_every_punctuation_token() {
    let mut lexer = lexer_with_source("( ) > < <> * - / ; , + | & == =");
    let expected = [
        Token::Lpar,
        Token::Rpar,
        Token::Greater,
        Token::Less,
        Token::NotEq,
        Token::Star,
        Token::Minus,
        Token::Slash,
        Token::Semicolon,
        Token::Comma,
        Token::Plus,
        Token::Or,
        Token::And,
        Token::Equal,
        Token::Unset,
        Token::Eof,
    ];
    for t in expected {
        assert_eq!(lexer.get_token(), t);
    }
}

#[test]
fn it_recognizes_all_keywords() {
    let mut lexer = lexer_with_source("def if then else deff");
    assert_eq!(lexer.get_token(), Token::Define);
    assert_eq!(lexer.get_token(), Token::If);
    assert_eq!(lexer.get_token(), Token::Then);
    assert_eq!(lexer.get_token(), Token::Else);
    assert_eq!(lexer.get_token(), Token::Identifier);
}

#[test]
fn it_counts_lines_while_skipping_whitespace() {
    let mut lexer = lexer_with_source("one\ntwo\n\nthree");
    assert_eq!(lexer.get_line_numer(), 1);
    lexer.get_token();
    assert_eq!(lexer.get_line_numer(), 1);
    lexer.get_token();
    assert_eq!(lexer.get_line_numer(), 2);
    lexer.get_token();
    assert_eq!(lexer.get_line_numer(), 4);
}

#[test]
fn it_rejects_malformed_utf8() {
    assert!(Lexer::new(&vec![0xffu8, 0x30u8]).is_err());
}

#[test]
fn it_keeps_a_trailing_dot_and_restarts_on_the_next_one() {
    let mut lexer = lexer_with_source("12..3");

    assert_eq!(lexer.get_token(), Token::Number);
    assert_eq!(lexer.lexeme, "12.");
    assert_eq!(lexer.get_token(), Token::InvalidChar);
    assert_eq!(lexer.get_token(), Token::Number);
    assert_eq!(lexer.lexeme, "3");
}
