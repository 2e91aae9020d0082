use fsm_compiler::token::{classify, token_of_word, Glyph, Lexer, Token};

fn ident(text: &str) -> Token {
    Token::Identifier(text.to_string())
}

fn all_tokens(source: &str) -> Result<Vec<Token>, String> {
    Lexer::new(source).tokenize()
}

#[test]
fn lexes_the_door_machine() {
    let source = "machine Door {\n  state Closed { on open -> Open; }\n  state Open { on close -> Closed; }\n}\n";
    let expected = vec![
        Token::MachineKeyword,
        ident("Door"),
        Token::OpenBrace,
        Token::StateKeyword,
        ident("Closed"),
        Token::OpenBrace,
        Token::TransitionKeyword,
        ident("open"),
        Token::Arrow,
        ident("Open"),
        Token::SemiColon,
        Token::CloseBrace,
        Token::StateKeyword,
        ident("Open"),
        Token::OpenBrace,
        Token::TransitionKeyword,
        ident("close"),
        Token::Arrow,
        ident("Closed"),
        Token::SemiColon,
        Token::CloseBrace,
        Token::CloseBrace,
    ];
    assert_eq!(all_tokens(source), Ok(expected));
}

#[test]
fn next_token_walks_the_input_one_token_at_a_time() {
    let mut lexer = Lexer::new("state A{}");
    assert_eq!(lexer.next_token(), Ok(Token::StateKeyword));
    assert_eq!(lexer.next_token(), Ok(ident("A")));
    assert_eq!(lexer.next_token(), Ok(Token::OpenBrace));
    assert_eq!(lexer.next_token(), Ok(Token::CloseBrace));
    assert_eq!(lexer.next_token(), Ok(Token::EndOfInput));
}

#[test]
fn end_of_input_repeats() {
    let mut lexer = Lexer::new("  ;  ");
    assert_eq!(lexer.next_token(), Ok(Token::SemiColon));
    for _ in 0..5 {
        assert_eq!(lexer.next_token(), Ok(Token::EndOfInput));
    }
}

#[test]
fn empty_input_is_end_of_input() {
    let mut lexer = Lexer::new("");
    assert_eq!(lexer.next_token(), Ok(Token::EndOfInput));
    assert_eq!(all_tokens(""), Ok(vec![]));
    assert_eq!(all_tokens(" \t\r\n"), Ok(vec![]));
}

#[test]
fn recognises_the_five_reserved_words() {
    assert_eq!(
        all_tokens("state machine initial terminal on"),
        Ok(vec![
            Token::StateKeyword,
            Token::MachineKeyword,
            Token::InitialKeyword,
            Token::TerminalKeyword,
            Token::TransitionKeyword,
        ])
    );
}

#[test]
fn reserved_words_are_case_sensitive() {
    assert_eq!(
        all_tokens("State MACHINE On oN initiaL"),
        Ok(vec![ident("State"), ident("MACHINE"), ident("On"), ident("oN"), ident("initiaL")])
    );
}

#[test]
fn a_reserved_word_inside_a_longer_word_is_an_identifier() {
    assert_eq!(
        all_tokens("states onn machine1 on2"),
        Ok(vec![ident("states"), ident("onn"), ident("machine1"), ident("on2")])
    );
}

#[test]
fn token_of_word_maps_words() {
    assert_eq!(token_of_word("state".to_string()), Token::StateKeyword);
    assert_eq!(token_of_word("machine".to_string()), Token::MachineKeyword);
    assert_eq!(token_of_word("initial".to_string()), Token::InitialKeyword);
    assert_eq!(token_of_word("terminal".to_string()), Token::TerminalKeyword);
    assert_eq!(token_of_word("on".to_string()), Token::TransitionKeyword);
    assert_eq!(token_of_word("Door".to_string()), ident("Door"));
    assert_eq!(token_of_word("".to_string()), ident(""));
}

#[test]
fn symbols_need_no_space_between_them() {
    assert_eq!(
        all_tokens("{};->->}x->y;"),
        Ok(vec![
            Token::OpenBrace,
            Token::CloseBrace,
            Token::SemiColon,
            Token::Arrow,
            Token::Arrow,
            Token::CloseBrace,
            ident("x"),
            Token::Arrow,
            ident("y"),
            Token::SemiColon,
        ])
    );
}

#[test]
fn identifiers_may_hold_digits_after_the_first_letter() {
    assert_eq!(all_tokens("a1b2 x9"), Ok(vec![ident("a1b2"), ident("x9")]));
}

#[test]
fn a_leading_digit_is_an_error() {
    assert_eq!(all_tokens("9lives"), Err("Unexpected character 9".to_string()));
}

#[test]
fn an_underscore_is_an_error() {
    let mut lexer = Lexer::new("my_state");
    assert_eq!(lexer.next_token(), Ok(ident("my")));
    assert_eq!(lexer.next_token(), Err("Unexpected character _".to_string()));
    assert_eq!(all_tokens("my_state"), Err("Unexpected character _".to_string()));
}

#[test]
fn a_dash_without_a_bracket_is_an_error_naming_what_follows() {
    assert_eq!(all_tokens("a -x b"), Err("Unexpected character x".to_string()));
    assert_eq!(all_tokens("a - > b"), Err("Unexpected character  ".to_string()));
    assert_eq!(all_tokens("--"), Err("Unexpected character -".to_string()));
}

#[test]
fn a_dash_at_the_end_is_an_error() {
    assert_eq!(all_tokens("a -"), Err("Unexpected character!".to_string()));
    let mut lexer = Lexer::new("-");
    assert_eq!(lexer.next_token(), Err("Unexpected character!".to_string()));
}

#[test]
fn other_characters_are_errors() {
    assert_eq!(all_tokens("state A { on x => B; }"), Err("Unexpected character =".to_string()));
    assert_eq!(all_tokens("#"), Err("Unexpected character #".to_string()));
    assert_eq!(all_tokens("("), Err("Unexpected character (".to_string()));
    assert_eq!(all_tokens(">"), Err("Unexpected character >".to_string()));
    assert_eq!(all_tokens("\u{1F49D}"), Err("Unexpected character \u{1F49D}".to_string()));
}

#[test]
fn an_error_repeats_on_further_calls() {
    let mut lexer = Lexer::new("ok ? more");
    assert_eq!(lexer.next_token(), Ok(ident("ok")));
    assert_eq!(lexer.next_token(), Err("Unexpected character ?".to_string()));
    assert_eq!(lexer.next_token(), Err("Unexpected character ?".to_string()));
    assert_eq!(lexer.next_token(), Err("Unexpected character ?".to_string()));
}

#[test]
fn tokens_before_an_error_are_not_returned() {
    assert_eq!(all_tokens("machine M { ! }"), Err("Unexpected character !".to_string()));
}

#[test]
fn unicode_white_space_is_skipped() {
    assert_eq!(
        all_tokens("\u{A0}a\u{2003}b\u{3000}\u{85}c\u{2028}"),
        Ok(vec![ident("a"), ident("b"), ident("c")])
    );
}

#[test]
fn unicode_letters_and_numbers_form_identifiers() {
    assert_eq!(
        all_tokens("caf\u{E9} \u{4EAC}\u{90FD} x\u{663}\u{BE}"),
        Ok(vec![ident("caf\u{E9}"), ident("\u{4EAC}\u{90FD}"), ident("x\u{663}\u{BE}")])
    );
    assert_eq!(all_tokens("\u{663}x"), Err("Unexpected character \u{663}".to_string()));
}

#[test]
fn classify_reports_the_classes_of_a_character() {
    assert_eq!(
        classify('a'),
        Glyph { ch: 'a', whitespace: false, alphabetic: true, alphanumeric: true }
    );
    assert_eq!(
        classify('7'),
        Glyph { ch: '7', whitespace: false, alphabetic: false, alphanumeric: true }
    );
    assert_eq!(
        classify(' '),
        Glyph { ch: ' ', whitespace: true, alphabetic: false, alphanumeric: false }
    );
    assert_eq!(
        classify('\n'),
        Glyph { ch: '\n', whitespace: true, alphabetic: false, alphanumeric: false }
    );
    assert_eq!(
        classify('{'),
        Glyph { ch: '{', whitespace: false, alphabetic: false, alphanumeric: false }
    );
    assert_eq!(
        classify('_'),
        Glyph { ch: '_', whitespace: false, alphabetic: false, alphanumeric: false }
    );
    assert_eq!(
        classify('\u{4EAC}'),
        Glyph { ch: '\u{4EAC}', whitespace: false, alphabetic: true, alphanumeric: true }
    );
}

#[test]
fn scanning_goes_by_the_classes_of_the_glyphs() {
    let letter = |c: char| Glyph { ch: c, whitespace: false, alphabetic: true, alphanumeric: true };
    let other = |c: char| Glyph { ch: c, whitespace: false, alphabetic: false, alphanumeric: false };
    let blank = |c: char| Glyph { ch: c, whitespace: true, alphabetic: false, alphanumeric: false };
    let tail = |c: char| Glyph { ch: c, whitespace: false, alphabetic: false, alphanumeric: true };
    let glyphs = vec![blank('.'), letter('o'), letter('n'), tail('_'), other(';'), blank('{')];
    let mut lexer = Lexer::from_glyphs(glyphs.clone());
    assert_eq!(lexer.next_token(), Ok(ident("on_")));
    assert_eq!(lexer.next_token(), Ok(Token::SemiColon));
    assert_eq!(lexer.next_token(), Ok(Token::EndOfInput));
    assert_eq!(
        Lexer::from_glyphs(glyphs).tokenize(),
        Ok(vec![ident("on_"), Token::SemiColon])
    );
}

#[test]
fn a_word_starts_on_an_alphabetic_glyph_only() {
    let tail = Glyph { ch: 'x', whitespace: false, alphabetic: false, alphanumeric: true };
    let mut lexer = Lexer::from_glyphs(vec![tail]);
    assert_eq!(lexer.next_token(), Err("Unexpected character x".to_string()));
}

#[test]
fn token_clone_keeps_the_token() {
    let token = ident("Door");
    assert_eq!(token.clone(), token);
    assert_eq!(Token::Arrow.clone(), Token::Arrow);
    assert_ne!(Token::Arrow, Token::SemiColon);
    assert_ne!(ident("a"), ident("b"));
}

#[test]
fn an_alphabetic_character_is_alphanumeric() {
    for c in ['a', 'Z', '\u{E9}', '\u{4EAC}', '\u{3A9}', '\u{2160}'] {
        let g = classify(c);
        assert!(g.alphabetic);
        assert!(g.alphanumeric);
    }
}
