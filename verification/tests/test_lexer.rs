use monkey::lexer::Lexer;
use monkey::token::{Token, TokenKind};

fn identifier(text: &str) -> Token {
    Token::IDENT(String::from(text))
}

fn integer(text: &str) -> Token {
    Token::INT(String::from(text))
}

fn illegal(text: &str) -> Token {
    Token::ILLEGAL(String::from(text))
}

/// Every token of `input` up to and with the first end of input. Gives up
/// after one call more than the input has characters.
fn scan(input: &str) -> Vec<Token> {
    let mut lexer = Lexer::new(input);
    let mut tokens = Vec::new();
    let limit = input.chars().count() + 1;
    for _ in 0..limit {
        let token = lexer.next_token();
        let done = token == Token::EOF;
        tokens.push(token);
        if done {
            return tokens;
        }
    }
    panic!("no end of input after {} calls", limit);
}

#[test]
fn empty_input_is_at_its_end_at_once() {
    let mut lexer = Lexer::new("");
    assert_eq!(lexer.next_token(), Token::EOF);
    assert_eq!(lexer.next_token(), Token::EOF);
    assert_eq!(scan(""), vec![Token::EOF]);
}

#[test]
fn end_of_input_repeats() {
    for input in ["", " ", "   \t\r\n", "x", "x ", "let five = 5;", "@", "==", "1 2 3"] {
        let mut lexer = Lexer::new(input);
        let mut calls = 0;
        while lexer.next_token() != Token::EOF {
            calls += 1;
            assert!(calls <= input.len());
        }
        for _ in 0..10 {
            let token = lexer.next_token();
            assert_eq!(token, Token::EOF);
            assert_eq!(token.kind(), TokenKind::EOF);
            assert_eq!(token.literal(), "");
        }
    }
}

#[test]
fn scanning_ends_within_one_call_per_character() {
    let inputs = [
        "",
        "a",
        "a b c d e f g",
        "=+(){},;",
        "==!====!=!!==",
        "@@@@@@",
        "1a2b3c",
        "    ",
        "\n\n\n",
        "let x = 5; let y = 10; func(x, y) { x + y; }",
        "\u{e9}\u{e8}\u{0}\u{0}",
        "+-*/<>!=,;(){}",
    ];
    for input in inputs.iter() {
        let tokens = scan(input);
        assert!(tokens.len() <= input.chars().count() + 1);
        assert_eq!(tokens.last(), Some(&Token::EOF));
        for token in tokens[..tokens.len() - 1].iter() {
            assert_ne!(token, &Token::EOF);
        }
    }
}

#[test]
fn every_character_of_its_own_takes_one_call() {
    assert_eq!(
        scan("@@@"),
        vec![illegal("@"), illegal("@"), illegal("@"), Token::EOF]
    );
    assert_eq!(scan(";;;;").len(), 5);
}

#[test]
fn literals_are_slices_of_the_input() {
    let input = "  foo_Bar9 0042 x\t_tmp\n7 $";
    assert_eq!(
        scan(input),
        vec![
            identifier("foo_Bar9"),
            integer("0042"),
            identifier("x"),
            identifier("_tmp"),
            integer("7"),
            illegal("$"),
            Token::EOF,
        ]
    );
    let mut lexer = Lexer::new(input);
    let mut from = 0;
    loop {
        let token = lexer.next_token();
        if token == Token::EOF {
            break;
        }
        let literal = token.literal();
        assert!(!literal.is_empty());
        let at = input[from..].find(literal).expect("literal is in the input") + from;
        assert!(input[from..at].chars().all(|c| c == ' ' || c == '\t' || c == '\n'));
        from = at + literal.len();
    }
    assert_eq!(from, input.len());
}

#[test]
fn literals_keep_their_case() {
    assert_eq!(
        scan("Five FIVE five"),
        vec![identifier("Five"), identifier("FIVE"), identifier("five"), Token::EOF]
    );
}

#[test]
fn keywords_come_before_identifiers() {
    assert_eq!(scan("let"), vec![Token::LET, Token::EOF]);
    assert_eq!(scan("func"), vec![Token::FUNCTION, Token::EOF]);
    assert_eq!(scan("x"), vec![identifier("x"), Token::EOF]);
    assert_eq!(scan("foobar"), vec![identifier("foobar"), Token::EOF]);
    assert_eq!(scan("let1"), vec![identifier("let1"), Token::EOF]);
    assert_eq!(scan("lets"), vec![identifier("lets"), Token::EOF]);
    assert_eq!(scan("_let"), vec![identifier("_let"), Token::EOF]);
    assert_eq!(scan("let_"), vec![identifier("let_"), Token::EOF]);
    assert_eq!(scan("funcs"), vec![identifier("funcs"), Token::EOF]);
    assert_eq!(scan("fun"), vec![identifier("fun"), Token::EOF]);
    assert_eq!(scan("Let"), vec![identifier("Let"), Token::EOF]);
    assert_eq!(scan("FUNC"), vec![identifier("FUNC"), Token::EOF]);
}

#[test]
fn keywords_are_found_wherever_they_stand() {
    assert_eq!(
        scan("let let func;func(let)letfunc"),
        vec![
            Token::LET,
            Token::LET,
            Token::FUNCTION,
            Token::SEMICOLON,
            Token::FUNCTION,
            Token::LPAREN,
            Token::LET,
            Token::RPAREN,
            identifier("letfunc"),
            Token::EOF,
        ]
    );
}

#[test]
fn two_equals_signs_are_one_token() {
    assert_eq!(scan("=="), vec![Token::EQ, Token::EOF]);
    assert_eq!(scan("!="), vec![Token::NOT_EQ, Token::EOF]);
    assert_eq!(scan("="), vec![Token::ASSIGN, Token::EOF]);
    assert_eq!(scan("!"), vec![Token::BANG, Token::EOF]);
}

#[test]
fn lookahead_takes_the_first_pair() {
    assert_eq!(scan("==="), vec![Token::EQ, Token::ASSIGN, Token::EOF]);
    assert_eq!(scan("===="), vec![Token::EQ, Token::EQ, Token::EOF]);
    assert_eq!(scan("!=="), vec![Token::NOT_EQ, Token::ASSIGN, Token::EOF]);
    assert_eq!(scan("!!="), vec![Token::BANG, Token::NOT_EQ, Token::EOF]);
    assert_eq!(scan("=!="), vec![Token::ASSIGN, Token::NOT_EQ, Token::EOF]);
    assert_eq!(scan("=!"), vec![Token::ASSIGN, Token::BANG, Token::EOF]);
    assert_eq!(scan("= ="), vec![Token::ASSIGN, Token::ASSIGN, Token::EOF]);
    assert_eq!(scan("! ="), vec![Token::BANG, Token::ASSIGN, Token::EOF]);
    assert_eq!(scan("=\n="), vec![Token::ASSIGN, Token::ASSIGN, Token::EOF]);
    assert_eq!(scan("a==b"), vec![identifier("a"), Token::EQ, identifier("b"), Token::EOF]);
    assert_eq!(scan("a!=b"), vec![identifier("a"), Token::NOT_EQ, identifier("b"), Token::EOF]);
    assert_eq!(scan("<="), vec![Token::LT, Token::ASSIGN, Token::EOF]);
    assert_eq!(scan(">="), vec![Token::GT, Token::ASSIGN, Token::EOF]);
    assert_eq!(scan("+="), vec![Token::PLUS, Token::ASSIGN, Token::EOF]);
}

#[test]
fn delimiters_and_operators_in_a_row() {
    assert_eq!(
        scan("=+(){},;"),
        vec![
            Token::ASSIGN,
            Token::PLUS,
            Token::LPAREN,
            Token::RPAREN,
            Token::LBRACE,
            Token::RBRACE,
            Token::COMMA,
            Token::SEMICOLON,
            Token::EOF,
        ]
    );
}

#[test]
fn a_let_statement() {
    assert_eq!(
        scan("let five = 5;"),
        vec![
            Token::LET,
            identifier("five"),
            Token::ASSIGN,
            integer("5"),
            Token::SEMICOLON,
            Token::EOF,
        ]
    );
}

#[test]
fn an_illegal_character() {
    assert_eq!(scan("@"), vec![illegal("@"), Token::EOF]);
}

#[test]
fn illegal_characters_do_not_stop_the_scanner() {
    assert_eq!(
        scan("a @ b # 1 $"),
        vec![
            identifier("a"),
            illegal("@"),
            identifier("b"),
            illegal("#"),
            integer("1"),
            illegal("$"),
            Token::EOF,
        ]
    );
    assert_eq!(
        scan("[x]"),
        vec![illegal("["), identifier("x"), illegal("]"), Token::EOF]
    );
    assert_eq!(
        scan("\"hi\""),
        vec![illegal("\""), identifier("hi"), illegal("\""), Token::EOF]
    );
    assert_eq!(scan("1.5"), vec![integer("1"), illegal("."), integer("5"), Token::EOF]);
}

#[test]
fn characters_beyond_ascii_are_illegal_one_by_one() {
    assert_eq!(
        scan("caf\u{e9}"),
        vec![identifier("caf"), illegal("\u{e9}"), Token::EOF]
    );
    assert_eq!(
        scan("\u{3b1}\u{3b2} = \u{1f600}"),
        vec![
            illegal("\u{3b1}"),
            illegal("\u{3b2}"),
            Token::ASSIGN,
            illegal("\u{1f600}"),
            Token::EOF,
        ]
    );
    assert_eq!(scan("\u{661}"), vec![illegal("\u{661}"), Token::EOF]);
    assert_eq!(
        scan("a\u{a0}b"),
        vec![identifier("a"), illegal("\u{a0}"), identifier("b"), Token::EOF]
    );
}

#[test]
fn a_nul_character_in_the_text_is_not_the_end() {
    assert_eq!(
        scan("a\u{0}b"),
        vec![identifier("a"), illegal("\u{0}"), identifier("b"), Token::EOF]
    );
    assert_eq!(scan("\u{0}"), vec![illegal("\u{0}"), Token::EOF]);
    assert_eq!(scan("=\u{0}="), vec![Token::ASSIGN, illegal("\u{0}"), Token::ASSIGN, Token::EOF]);
}

#[test]
fn whitespace_is_skipped() {
    assert_eq!(scan(" "), vec![Token::EOF]);
    assert_eq!(scan(" \t\r\n \n"), vec![Token::EOF]);
    assert_eq!(scan("  x"), vec![identifier("x"), Token::EOF]);
    assert_eq!(scan("x  "), vec![identifier("x"), Token::EOF]);
    assert_eq!(
        scan("\tlet\r\nx\n=\t\t1 ;\r\n"),
        vec![Token::LET, identifier("x"), Token::ASSIGN, integer("1"), Token::SEMICOLON, Token::EOF]
    );
    assert_eq!(scan("a b"), vec![identifier("a"), identifier("b"), Token::EOF]);
    assert_eq!(scan("1 2"), vec![integer("1"), integer("2"), Token::EOF]);
}

#[test]
fn other_blank_characters_are_not_whitespace() {
    assert_eq!(scan("\u{b}"), vec![illegal("\u{b}"), Token::EOF]);
    assert_eq!(scan("\u{c}"), vec![illegal("\u{c}"), Token::EOF]);
    assert_eq!(scan("\u{2003}"), vec![illegal("\u{2003}"), Token::EOF]);
}

#[test]
fn integers_are_runs_of_digits() {
    assert_eq!(scan("5"), vec![integer("5"), Token::EOF]);
    assert_eq!(scan("0123456789"), vec![integer("0123456789"), Token::EOF]);
    assert_eq!(scan("007"), vec![integer("007"), Token::EOF]);
    assert_eq!(scan("-5"), vec![Token::MINUS, integer("5"), Token::EOF]);
    assert_eq!(scan("5-3"), vec![integer("5"), Token::MINUS, integer("3"), Token::EOF]);
    assert_eq!(scan("12ab"), vec![integer("12"), identifier("ab"), Token::EOF]);
    assert_eq!(scan("12_"), vec![integer("12"), identifier("_"), Token::EOF]);
    assert_eq!(scan("ab12"), vec![identifier("ab12"), Token::EOF]);
    assert_eq!(scan("1let"), vec![integer("1"), Token::LET, Token::EOF]);
    assert_eq!(
        scan("99999999999999999999999999999999"),
        vec![integer("99999999999999999999999999999999"), Token::EOF]
    );
}

#[test]
fn all_single_character_operators() {
    assert_eq!(
        scan("- * / ! < > + = , ; ( ) { }"),
        vec![
            Token::MINUS,
            Token::ASTERISK,
            Token::SLASH,
            Token::BANG,
            Token::LT,
            Token::GT,
            Token::PLUS,
            Token::ASSIGN,
            Token::COMMA,
            Token::SEMICOLON,
            Token::LPAREN,
            Token::RPAREN,
            Token::LBRACE,
            Token::RBRACE,
            Token::EOF,
        ]
    );
    assert_eq!(
        scan("-*/!<>+"),
        vec![
            Token::MINUS,
            Token::ASTERISK,
            Token::SLASH,
            Token::BANG,
            Token::LT,
            Token::GT,
            Token::PLUS,
            Token::EOF,
        ]
    );
}

#[test]
fn a_small_program() {
    let input = "let five = 5;
let ten = 10;

let add = func(x, y) {
  x + y;
};

let result = add(five, ten);
!-/*5;
5 < 10 > 5;

10 == 10;
10 != 9;
";
    assert_eq!(
        scan(input),
        vec![
            Token::LET,
            identifier("five"),
            Token::ASSIGN,
            integer("5"),
            Token::SEMICOLON,
            Token::LET,
            identifier("ten"),
            Token::ASSIGN,
            integer("10"),
            Token::SEMICOLON,
            Token::LET,
            identifier("add"),
            Token::ASSIGN,
            Token::FUNCTION,
            Token::LPAREN,
            identifier("x"),
            Token::COMMA,
            identifier("y"),
            Token::RPAREN,
            Token::LBRACE,
            identifier("x"),
            Token::PLUS,
            identifier("y"),
            Token::SEMICOLON,
            Token::RBRACE,
            Token::SEMICOLON,
            Token::LET,
            identifier("result"),
            Token::ASSIGN,
            identifier("add"),
            Token::LPAREN,
            identifier("five"),
            Token::COMMA,
            identifier("ten"),
            Token::RPAREN,
            Token::SEMICOLON,
            Token::BANG,
            Token::MINUS,
            Token::SLASH,
            Token::ASTERISK,
            integer("5"),
            Token::SEMICOLON,
            integer("5"),
            Token::LT,
            integer("10"),
            Token::GT,
            integer("5"),
            Token::SEMICOLON,
            integer("10"),
            Token::EQ,
            integer("10"),
            Token::SEMICOLON,
            integer("10"),
            Token::NOT_EQ,
            integer("9"),
            Token::SEMICOLON,
            Token::EOF,
        ]
    );
}

#[test]
fn two_scanners_do_not_share_their_place() {
    let mut first = Lexer::new("a b");
    let mut second = Lexer::new("a b");
    assert_eq!(first.next_token(), identifier("a"));
    assert_eq!(first.next_token(), identifier("b"));
    assert_eq!(second.next_token(), identifier("a"));
    assert_eq!(first.next_token(), Token::EOF);
    assert_eq!(second.next_token(), identifier("b"));
    assert_eq!(second.next_token(), Token::EOF);
}

#[test]
fn a_long_input_is_scanned_to_its_end() {
    let mut input = String::new();
    for i in 0..2000 {
        input.push_str("let v");
        input.push_str(&i.to_string());
        input.push_str(" = ");
        input.push_str(&(i * 7).to_string());
        input.push_str(";\n");
    }
    let tokens = scan(&input);
    assert_eq!(tokens.len(), 2000 * 5 + 1);
    assert_eq!(tokens[0], Token::LET);
    assert_eq!(tokens[1], identifier("v0"));
    assert_eq!(tokens[5 * 1999 + 1], identifier("v1999"));
    assert_eq!(tokens[5 * 1999 + 3], integer("13993"));
    assert_eq!(tokens[5 * 2000], Token::EOF);
}
