use monkeycc::lexer::{is_digital, is_letter, Lexer};
use monkeycc::token::{lookup_ident, Token, TokenType};

fn kinds_and_literals(input: &str) -> Vec<(TokenType, String)> {
    let mut lexer = Lexer::new(input);
    let mut out = Vec::new();
    loop {
        let token = lexer.next_token();
        let kind = token.token_type;
        out.push((kind, token.literal));
        if kind == TokenType::Eof {
            return out;
        }
    }
}

fn expect_tokens(input: &str, expected: &[(TokenType, &str)]) {
    let actual = kinds_and_literals(input);
    assert_eq!(actual.len(), expected.len(), "token count for {:?}: {:?}", input, actual);
    for (got, want) in actual.iter().zip(expected.iter()) {
        assert_eq!(got.0, want.0, "kind in {:?}", input);
        assert_eq!(got.1, want.1, "literal in {:?}", input);
    }
}

#[test]
fn test_next_token_on_a_small_program() {
    let input = "let five = 5;\nlet add = fn(x, y) {\n  x + y;\n};\n";
    expect_tokens(
        input,
        &[
            (TokenType::Let, "let"),
            (TokenType::Ident, "five"),
            (TokenType::Assign, "="),
            (TokenType::Int, "5"),
            (TokenType::Semicolon, ";"),
            (TokenType::Let, "let"),
            (TokenType::Ident, "add"),
            (TokenType::Assign, "="),
            (TokenType::Function, "fn"),
            (TokenType::Lparen, "("),
            (TokenType::Ident, "x"),
            (TokenType::Comma, ","),
            (TokenType::Ident, "y"),
            (TokenType::Rparen, ")"),
            (TokenType::Lbrace, "{"),
            (TokenType::Ident, "x"),
            (TokenType::Plus, "+"),
            (TokenType::Ident, "y"),
            (TokenType::Semicolon, ";"),
            (TokenType::Rbrace, "}"),
            (TokenType::Semicolon, ";"),
            (TokenType::Eof, ""),
        ],
    );
}

#[test]
fn test_operators_of_one_and_two_characters() {
    expect_tokens(
        "= == ! != < <= > >= + - * /",
        &[
            (TokenType::Assign, "="),
            (TokenType::Eq, "=="),
            (TokenType::Bang, "!"),
            (TokenType::NotEq, "!="),
            (TokenType::Lt, "<"),
            (TokenType::Le, "<="),
            (TokenType::Gt, ">"),
            (TokenType::Ge, ">="),
            (TokenType::Plus, "+"),
            (TokenType::Minus, "-"),
            (TokenType::Asterisk, "*"),
            (TokenType::Slash, "/"),
            (TokenType::Eof, ""),
        ],
    );
    expect_tokens(
        "===!",
        &[
            (TokenType::Eq, "=="),
            (TokenType::Assign, "="),
            (TokenType::Bang, "!"),
            (TokenType::Eof, ""),
        ],
    );
}

#[test]
fn test_keywords_are_reclassified() {
    expect_tokens(
        "fn let if else return true false lettuce _x",
        &[
            (TokenType::Function, "fn"),
            (TokenType::Let, "let"),
            (TokenType::If, "if"),
            (TokenType::Else, "else"),
            (TokenType::Return, "return"),
            (TokenType::True, "true"),
            (TokenType::False, "false"),
            (TokenType::Ident, "lettuce"),
            (TokenType::Ident, "_x"),
            (TokenType::Eof, ""),
        ],
    );
}

#[test]
fn test_words_and_numbers_are_maximal_runs() {
    expect_tokens(
        "abc123def 42x",
        &[
            (TokenType::Ident, "abc"),
            (TokenType::Int, "123"),
            (TokenType::Ident, "def"),
            (TokenType::Int, "42"),
            (TokenType::Ident, "x"),
            (TokenType::Eof, ""),
        ],
    );
}

#[test]
fn test_unrecognized_bytes_are_illegal_tokens() {
    expect_tokens(
        "a # b",
        &[
            (TokenType::Ident, "a"),
            (TokenType::Illegal, "#"),
            (TokenType::Ident, "b"),
            (TokenType::Eof, ""),
        ],
    );
    let tokens = kinds_and_literals("é");
    assert_eq!(tokens.len(), 3);
    assert_eq!(tokens[0].0, TokenType::Illegal);
    assert_eq!(tokens[0].1, "\u{c3}");
    assert_eq!(tokens[1].0, TokenType::Illegal);
    assert_eq!(tokens[1].1, "\u{a9}");
}

#[test]
fn test_blanks_are_skipped() {
    expect_tokens(
        " \t\r\n 7 \n",
        &[(TokenType::Int, "7"), (TokenType::Eof, "")],
    );
    expect_tokens("", &[(TokenType::Eof, "")]);
    expect_tokens("   ", &[(TokenType::Eof, "")]);
}

#[test]
fn test_end_of_input_is_idempotent() {
    let mut lexer = Lexer::new("x");
    assert_eq!(lexer.next_token().token_type, TokenType::Ident);
    for _ in 0..5 {
        let token = lexer.next_token();
        assert_eq!(token.token_type, TokenType::Eof);
        assert_eq!(token.literal, "");
        assert_eq!(lexer.position, 1);
        assert!(lexer.position <= lexer.input.len());
        assert!(lexer.read_position <= lexer.input.len());
        assert_eq!(lexer.ch, 0);
        assert!(lexer.is_well_formed());
    }
}

#[test]
fn test_cursor_after_each_token() {
    let mut lexer = Lexer::new("ab == 12");
    assert_eq!(lexer.position, 0);
    assert_eq!(lexer.read_position, 1);
    assert_eq!(lexer.ch, b'a');
    lexer.next_token();
    assert_eq!(lexer.position, 2);
    lexer.next_token();
    assert_eq!(lexer.position, 5);
    lexer.next_token();
    assert_eq!(lexer.position, 8);
    assert_eq!(lexer.read_position, 8);
}

#[test]
fn test_a_zero_byte_inside_the_text_is_an_illegal_token() {
    expect_tokens(
        "a\0b",
        &[
            (TokenType::Ident, "a"),
            (TokenType::Illegal, "\0"),
            (TokenType::Ident, "b"),
            (TokenType::Eof, ""),
        ],
    );
    expect_tokens("\0", &[(TokenType::Illegal, "\0"), (TokenType::Eof, "")]);
    let mut lexer = Lexer::new("a\0b");
    let mut literals = Vec::new();
    while let Some(token) = lexer.next() {
        literals.push(token.literal);
    }
    assert_eq!(literals, vec!["a", "\0", "b"]);
    assert_eq!(lexer.position, 3);
}

#[test]
fn test_end_of_input_exactly_when_only_blanks_are_left() {
    for (input, tokens_before_end) in
        [("", 0), (" \t\r\n", 0), ("x", 1), ("x \n", 1), (" \0 ", 1), ("x \u{b} ", 2), ("1 2", 2)]
    {
        let mut lexer = Lexer::new(input);
        for _ in 0..tokens_before_end {
            assert!(lexer.next_token().token_type != TokenType::Eof, "{:?}", input);
        }
        let end = lexer.next_token();
        assert_eq!(end.token_type, TokenType::Eof, "{:?}", input);
        assert_eq!(end.literal, "");
        assert_eq!(lexer.position, input.len());
    }
}

#[test]
fn test_read_char_and_peek_char() {
    let mut lexer = Lexer::new("xy");
    assert_eq!(lexer.peek_char(), b'y');
    lexer.read_char();
    assert_eq!(lexer.ch, b'y');
    assert_eq!(lexer.position, 1);
    assert_eq!(lexer.peek_char(), 0);
    lexer.read_char();
    assert_eq!(lexer.ch, 0);
    assert_eq!(lexer.position, 2);
    lexer.read_char();
    assert_eq!(lexer.position, 2);
    assert_eq!(lexer.read_position, 2);
}

#[test]
fn test_read_identifier_read_number_skip_whitespace() {
    let mut lexer = Lexer::new("  name42 ");
    lexer.skip_whitespace();
    assert_eq!(lexer.position, 2);
    assert_eq!(lexer.read_identifier(), "name");
    assert_eq!(lexer.position, 6);
    assert_eq!(lexer.read_number(), "42");
    assert_eq!(lexer.position, 8);
    assert_eq!(lexer.read_identifier(), "");
    assert_eq!(lexer.position, 8);
}

#[test]
fn test_next_yields_tokens_until_the_end() {
    let mut lexer = Lexer::new("1 + 2");
    let mut literals = Vec::new();
    while let Some(token) = lexer.next() {
        literals.push(token.literal);
    }
    assert_eq!(literals, vec!["1", "+", "2"]);
    assert!(lexer.next().is_none());
}

#[test]
fn test_is_letter_and_is_digital() {
    assert!(is_letter(b'a') && is_letter(b'z') && is_letter(b'A') && is_letter(b'Z'));
    assert!(is_letter(b'_'));
    assert!(!is_letter(b'0') && !is_letter(b' ') && !is_letter(b'[') && !is_letter(b'`'));
    assert!(!is_letter(b'{') && !is_letter(b'@') && !is_letter(0));
    assert!(is_digital(b'0') && is_digital(b'9'));
    assert!(!is_digital(b'/') && !is_digital(b':') && !is_digital(b'a'));
}

#[test]
fn test_token_constructors_and_equality() {
    let a = Token::new_with_char(TokenType::Plus, '+');
    assert_eq!(a.token_type, TokenType::Plus);
    assert_eq!(a.literal, "+");
    let b = Token::new_with_string(TokenType::Plus, "+".to_string());
    assert!(a == b);
    let c = Token::new_with_string(TokenType::Minus, "+".to_string());
    assert!(a != c);
    let d = Token::new_with_string(TokenType::Plus, "++".to_string());
    assert!(a != d);
    let e = a.clone();
    assert!(a == e);
    let wide = Token::new_with_char(TokenType::Illegal, 'é');
    assert_eq!(wide.literal, "é");
    let blank = Token::default();
    assert_eq!(blank.token_type, TokenType::Eof);
    assert_eq!(blank.literal, "");
    assert_eq!(TokenType::default(), TokenType::Eof);
}

#[test]
fn test_lookup_ident() {
    assert_eq!(lookup_ident("fn".to_string()), TokenType::Function);
    assert_eq!(lookup_ident("let".to_string()), TokenType::Let);
    assert_eq!(lookup_ident("if".to_string()), TokenType::If);
    assert_eq!(lookup_ident("else".to_string()), TokenType::Else);
    assert_eq!(lookup_ident("return".to_string()), TokenType::Return);
    assert_eq!(lookup_ident("true".to_string()), TokenType::True);
    assert_eq!(lookup_ident("false".to_string()), TokenType::False);
    assert_eq!(lookup_ident("fnn".to_string()), TokenType::Ident);
    assert_eq!(lookup_ident("".to_string()), TokenType::Ident);
    assert_eq!(lookup_ident("Let".to_string()), TokenType::Ident);
}

#[test]
fn test_symbols_and_names_of_all_categories() {
    let all = [
        (TokenType::Illegal, "illegal", "Illegal"),
        (TokenType::Eof, "EOF", "Eof"),
        (TokenType::Ident, "ident", "Ident"),
        (TokenType::Int, "int", "Int"),
        (TokenType::Float, "float", "Float"),
        (TokenType::Assign, "=", "Assign"),
        (TokenType::Plus, "+", "Plus"),
        (TokenType::Minus, "-", "Minus"),
        (TokenType::Bang, "!", "Bang"),
        (TokenType::Asterisk, "*", "Asterisk"),
        (TokenType::Slash, "/", "Slash"),
        (TokenType::Lt, "<", "Lt"),
        (TokenType::Gt, ">", "Gt"),
        (TokenType::Eq, "==", "Eq"),
        (TokenType::NotEq, "!=", "NotEq"),
        (TokenType::Ge, ">=", "Ge"),
        (TokenType::Le, "<=", "Le"),
        (TokenType::Comma, ",", "Comma"),
        (TokenType::Semicolon, ";", "Semicolon"),
        (TokenType::Lparen, "(", "Lparen"),
        (TokenType::Rparen, ")", "Rparen"),
        (TokenType::Lbrace, "{", "Lbrace"),
        (TokenType::Rbrace, "}", "Rbrace"),
        (TokenType::Function, "fn", "Function"),
        (TokenType::Let, "let", "Let"),
        (TokenType::If, "if", "If"),
        (TokenType::Return, "return", "Return"),
        (TokenType::Else, "else", "Else"),
        (TokenType::True, "true", "True"),
        (TokenType::False, "false", "False"),
    ];
    for (kind, symbol, name) in all {
        assert_eq!(kind.symbol(), symbol);
        assert_eq!(kind.name(), name);
        assert_eq!(format!("{:?}", kind), name);
    }
}

#[test]
fn test_lexer_clone_goes_its_own_way() {
    let mut lexer = Lexer::new("a b");
    lexer.next_token();
    let mut copy = lexer.clone();
    assert_eq!(copy.position, lexer.position);
    assert_eq!(copy.next_token().literal, "b");
    assert_eq!(lexer.position, 1);
    assert_eq!(lexer.next_token().literal, "b");
}

#[test]
fn test_a_state_made_by_hand_is_checked() {
    let broken = Lexer { input: "ab".to_string(), position: 5, read_position: 6, ch: 0 };
    assert!(!broken.is_well_formed());
    let stale = Lexer { input: "ab".to_string(), position: 0, read_position: 1, ch: b'b' };
    assert!(!stale.is_well_formed());
    let fine = Lexer { input: "ab".to_string(), position: 1, read_position: 2, ch: b'b' };
    assert!(fine.is_well_formed());
    let at_end = Lexer { input: "ab".to_string(), position: 2, read_position: 2, ch: 0 };
    assert!(at_end.is_well_formed());
}
