use fsm_compiler::ast::{Machine, State, Transition};
use fsm_compiler::parser::Parser;
use fsm_compiler::token::{Lexer, Token};

fn ident(text: &str) -> Token {
    Token::Identifier(text.to_string())
}

fn parser_of(source: &str) -> Parser {
    Parser::new(Lexer::new(source).tokenize().unwrap())
}

fn parse(source: &str) -> Result<Machine, String> {
    parser_of(source).parse_machine()
}

fn transition(event: &str, target: &str) -> Transition {
    Transition { event: event.to_string(), target: target.to_string() }
}

fn state(name: &str, transitions: Vec<Transition>) -> State {
    State { name: name.to_string(), transitions }
}

fn machine(name: &str, states: Vec<State>) -> Machine {
    Machine { name: name.to_string(), states }
}

fn err<T>(message: &str) -> Result<T, String> {
    Err(message.to_string())
}

#[test]
fn parses_the_door_machine() {
    let source = "machine Door {\n  state Closed { on open -> Open; }\n  state Open { on close -> Closed; }\n}";
    assert_eq!(
        parse(source),
        Ok(machine(
            "Door",
            vec![
                state("Closed", vec![transition("open", "Open")]),
                state("Open", vec![transition("close", "Closed")]),
            ]
        ))
    );
}

#[test]
fn parses_an_empty_machine() {
    assert_eq!(parse("machine M {}"), Ok(machine("M", vec![])));
}

#[test]
fn parses_a_state_without_transitions() {
    assert_eq!(
        parse("machine M { state End {} }"),
        Ok(machine("M", vec![state("End", vec![])]))
    );
}

#[test]
fn keeps_declaration_order() {
    let source = "machine T { state C { on z -> A; on a -> C; on m -> B; } state A {} state B { on q -> C; } }";
    assert_eq!(
        parse(source),
        Ok(machine(
            "T",
            vec![
                state(
                    "C",
                    vec![transition("z", "A"), transition("a", "C"), transition("m", "B")]
                ),
                state("A", vec![]),
                state("B", vec![transition("q", "C")]),
            ]
        ))
    );
}

#[test]
fn keeps_duplicates_and_dangling_targets() {
    let source = "machine D { state A { on x -> Nowhere; on x -> A; } state A {} }";
    assert_eq!(
        parse(source),
        Ok(machine(
            "D",
            vec![
                state("A", vec![transition("x", "Nowhere"), transition("x", "A")]),
                state("A", vec![]),
            ]
        ))
    );
}

#[test]
fn ignores_what_follows_the_machine() {
    assert_eq!(parse("machine M {} state machine }"), Ok(machine("M", vec![])));
}

#[test]
fn machine_keyword_is_expected_first() {
    assert_eq!(parse(""), err("Expected 'machine' keyword!"));
    assert_eq!(parse("state A {}"), err("Expected 'machine' keyword!"));
    assert_eq!(parse("Door {}"), err("Expected 'machine' keyword!"));
}

#[test]
fn machine_name_is_expected() {
    assert_eq!(parse("machine"), err("Expected machine name!"));
    assert_eq!(parse("machine {}"), err("Expected machine name!"));
    assert_eq!(parse("machine state {}"), err("Expected machine name!"));
}

#[test]
fn machine_brace_is_expected() {
    assert_eq!(parse("machine M"), err("Expected '{' after machine name!"));
    assert_eq!(parse("machine M state A {}"), err("Expected '{' after machine name!"));
}

#[test]
fn machine_close_is_expected() {
    assert_eq!(parse("machine M {"), err("Expected '}' at the end of the file!"));
    assert_eq!(parse("machine M { state A {}"), err("Expected '}' at the end of the file!"));
}

#[test]
fn garbage_ends_the_state_list_and_fails_at_the_brace() {
    assert_eq!(parse("machine M { state A {} foo }"), err("Expected '}' at the end of the file!"));
    assert_eq!(parse("machine M { on x -> A; }"), err("Expected '}' at the end of the file!"));
    assert_eq!(parse("machine M { initial state A {} }"), err("Expected '}' at the end of the file!"));
}

#[test]
fn garbage_ends_the_transition_list_and_fails_at_the_brace() {
    assert_eq!(
        parse("machine M { state A { on x -> A; terminal } }"),
        err("Expected '}' at the end of the state block!")
    );
    assert_eq!(
        parse("machine M { state A { state B {} } }"),
        err("Expected '}' at the end of the state block!")
    );
}

#[test]
fn state_name_is_expected() {
    assert_eq!(parse("machine M { state { } }"), err("Expected state name!"));
    assert_eq!(parse("machine M { state"), err("Expected state name!"));
    assert_eq!(parse("machine M { state on {} }"), err("Expected state name!"));
}

#[test]
fn state_brace_is_expected() {
    assert_eq!(parse("machine M { state A }"), err("Expected '{' after state name!"));
    assert_eq!(parse("machine M { state A"), err("Expected '{' after state name!"));
}

#[test]
fn state_close_is_expected() {
    assert_eq!(parse("machine M { state A {"), err("Expected '}' at the end of the state block!"));
    assert_eq!(parse("machine M { state A { on x -> A; "), err("Expected '}' at the end of the state block!"));
}

#[test]
fn event_name_is_expected() {
    assert_eq!(parse("machine M { state A { on -> A; } }"), err("Expected event name!"));
    assert_eq!(parse("machine M { state A { on"), err("Expected event name!"));
}

#[test]
fn arrow_is_expected() {
    assert_eq!(
        parse("machine M { state A { on x A; } }"),
        err("Expected '->' after the event name!")
    );
    assert_eq!(parse("machine M { state A { on x"), err("Expected '->' after the event name!"));
}

#[test]
fn target_name_is_expected() {
    assert_eq!(parse("machine M { state A { on x -> ; } }"), err("Expected target state name!"));
    assert_eq!(parse("machine M { state A { on x ->"), err("Expected target state name!"));
    assert_eq!(
        parse("machine M { state A { on x -> state; } }"),
        err("Expected target state name!")
    );
}

#[test]
fn semicolon_is_expected() {
    assert_eq!(
        parse("machine M { state A { on x -> A } }"),
        err("Expected ';' after end of transition description!")
    );
    assert_eq!(
        parse("machine M { state A { on x -> A"),
        err("Expected ';' after end of transition description!")
    );
}

#[test]
fn the_first_error_wins() {
    assert_eq!(
        parse("machine M { state A { on -> ; } state { } "),
        err("Expected event name!")
    );
}

#[test]
fn parse_transition_reads_one_transition() {
    let mut parser = parser_of("on open -> Open; on close -> Closed;");
    assert_eq!(parser.parse_transition(), Ok(transition("open", "Open")));
    assert_eq!(parser.parse_transition(), Ok(transition("close", "Closed")));
    assert_eq!(parser.parse_transition(), err("Expected 'on' keyword!"));
    assert_eq!(parser.parse_transition(), err("Expected 'on' keyword!"));
}

#[test]
fn parse_transition_rejects_another_start() {
    assert_eq!(parser_of("open -> Open;").parse_transition(), err("Expected 'on' keyword!"));
    assert_eq!(parser_of("").parse_transition(), err("Expected 'on' keyword!"));
}

#[test]
fn parse_state_reads_one_state() {
    let mut parser = parser_of("state A { on x -> B; } state B {} }");
    assert_eq!(parser.parse_state(), Ok(state("A", vec![transition("x", "B")])));
    assert_eq!(parser.parse_state(), Ok(state("B", vec![])));
    assert_eq!(parser.parse_state(), err("Expected 'state' keyword!"));
}

#[test]
fn parse_state_rejects_another_start() {
    assert_eq!(parser_of("machine M {}").parse_state(), err("Expected 'state' keyword!"));
    assert_eq!(parser_of("").parse_state(), err("Expected 'state' keyword!"));
}

#[test]
fn a_missing_keyword_consumes_nothing() {
    let mut parser = parser_of("state A {}");
    assert_eq!(parser.parse_transition(), err("Expected 'on' keyword!"));
    assert_eq!(parser.parse_machine(), err("Expected 'machine' keyword!"));
    assert_eq!(parser.parse_state(), Ok(state("A", vec![])));
}

#[test]
fn a_missing_name_consumes_the_token_in_its_place() {
    let mut parser = parser_of("on ; on x -> A;");
    assert_eq!(parser.parse_transition(), err("Expected event name!"));
    assert_eq!(parser.parse_transition(), Ok(transition("x", "A")));
}

#[test]
fn a_missing_arrow_consumes_up_to_it() {
    let mut parser = parser_of("on x on y -> B;");
    assert_eq!(parser.parse_transition(), err("Expected '->' after the event name!"));
    assert_eq!(parser.parse_transition(), Ok(transition("y", "B")));
}

#[test]
fn parses_tokens_given_directly() {
    let tokens = vec![
        Token::MachineKeyword,
        ident("M"),
        Token::OpenBrace,
        Token::StateKeyword,
        ident("A"),
        Token::OpenBrace,
        Token::TransitionKeyword,
        ident("go"),
        Token::Arrow,
        ident("A"),
        Token::SemiColon,
        Token::CloseBrace,
        Token::CloseBrace,
    ];
    assert_eq!(
        Parser::new(tokens).parse_machine(),
        Ok(machine("M", vec![state("A", vec![transition("go", "A")])]))
    );
}

#[test]
fn an_explicit_end_token_reads_as_the_end() {
    let tokens = vec![Token::MachineKeyword, ident("M"), Token::OpenBrace, Token::EndOfInput];
    assert_eq!(Parser::new(tokens).parse_machine(), err("Expected '}' at the end of the file!"));
}

#[test]
fn reserved_words_are_not_names() {
    assert_eq!(parse("machine initial {}"), err("Expected machine name!"));
    assert_eq!(parse("machine M { state terminal {} }"), err("Expected state name!"));
}

#[test]
fn a_state_block_and_a_machine_name_their_own_closing_brace() {
    let tokens = vec![Token::StateKeyword, ident("A"), Token::OpenBrace, Token::StateKeyword];
    let state_error = Parser::new(tokens).parse_state().unwrap_err();
    assert_eq!(state_error, "Expected '}' at the end of the state block!");
    let tokens = vec![Token::MachineKeyword, ident("M"), Token::OpenBrace, Token::Arrow];
    let machine_error = Parser::new(tokens).parse_machine().unwrap_err();
    assert_eq!(machine_error, "Expected '}' at the end of the file!");
    assert_ne!(state_error, machine_error);
}

#[test]
fn every_check_has_a_message_of_its_own() {
    let sources = [
        "",
        "machine",
        "machine M",
        "machine M {",
        "machine M { state",
        "machine M { state A",
        "machine M { state A {",
        "machine M { state A { on",
        "machine M { state A { on x",
        "machine M { state A { on x ->",
        "machine M { state A { on x -> A",
    ];
    let mut messages: Vec<String> = sources.iter().map(|s| parse(s).unwrap_err()).collect();
    messages.push(parser_of("x").parse_state().unwrap_err());
    messages.push(parser_of("x").parse_transition().unwrap_err());
    assert_eq!(messages.len(), 13);
    for i in 0..messages.len() {
        for j in 0..i {
            assert_ne!(messages[i], messages[j]);
        }
    }
}

#[test]
fn the_message_constants_are_the_messages() {
    assert_eq!(parse("machine M {"), err(fsm_compiler::parser::EXPECTED_MACHINE_CLOSE));
    assert_eq!(
        parse("machine M { state A {"),
        err(fsm_compiler::parser::EXPECTED_STATE_CLOSE)
    );
}
