use fsm_compiler::compiler::{compile_glyphs, compile_source, compile_tokens, CompileError};
use fsm_compiler::codegen_c::generate_c;
use fsm_compiler::codegen_dot::generate_dot;
use fsm_compiler::graph::FsmGraph;
use fsm_compiler::parser::Parser;
use fsm_compiler::token::{classify, Lexer, Token};

const DOOR: &str = "machine Door {\n  state Closed { on open -> Open; }\n  state Open { on close -> Closed; }\n}\n";

fn ident(text: &str) -> Token {
    Token::Identifier(text.to_string())
}

#[test]
fn the_door_machine_round_trip() {
    let tokens = Lexer::new(DOOR).tokenize().unwrap();
    let machine = Parser::new(tokens).parse_machine().unwrap();
    let graph = FsmGraph::compile(machine).unwrap();
    assert_eq!(graph.states.len(), 2);
    assert_eq!(graph.initial_state, 0);
    assert_eq!(graph.states[0].name, "Closed");
    assert_eq!(graph.states[1].name, "Open");

    let dot = generate_dot(&graph);
    assert!(dot.contains("Closed -> Open [label=\"open\"];"));
    assert!(dot.contains("Open -> Closed [label=\"close\"];"));
    assert_eq!(dot.matches("[label=").count(), 2);

    let c = generate_c(&graph);
    assert!(c.contains("int is_terminal(State s) {\n    switch (s) {\n        default: return 0;\n"));
    assert!(!c.contains("return 1;"));
    assert!(c.contains(
        "        case STATE_Closed:\n            if (strcmp(event, \"open\") == 0) return STATE_Open;\n"
    ));
    assert!(c.contains(
        "        case STATE_Open:\n            if (strcmp(event, \"close\") == 0) return STATE_Closed;\n"
    ));
    assert!(c.contains("typedef enum{\n    STATE_Closed,\n    STATE_Open,\n} State;"));
}

#[test]
fn compile_source_gives_both_texts() {
    let artifacts = compile_source(DOOR).unwrap();
    assert_eq!(
        artifacts.dot,
        "digraph {\n    Closed -> Open [label=\"open\"];\n    Open -> Closed [label=\"close\"];\n}\n"
    );
    let tokens = Lexer::new(DOOR).tokenize().unwrap();
    let graph = FsmGraph::compile(Parser::new(tokens).parse_machine().unwrap()).unwrap();
    assert_eq!(artifacts.c, generate_c(&graph));
    assert_eq!(artifacts.dot, generate_dot(&graph));
}

#[test]
fn an_undefined_target_never_reaches_the_backends() {
    let result = compile_source("machine M { state A { on x -> B; } }");
    assert_eq!(result, Err(CompileError::Semantic("Undefined state: B".to_string())));
    let error = result.unwrap_err();
    assert!(error.message().contains('B'));
    assert_eq!(error.message(), "Undefined state: B");
}

#[test]
fn a_machine_without_states_is_a_semantic_error() {
    assert_eq!(
        compile_source("machine M {}"),
        Err(CompileError::Semantic("Machine must have at least one state!".to_string()))
    );
}

#[test]
fn a_syntax_error_is_reported_as_such() {
    assert_eq!(
        compile_source("machine M { state A { on x -> B } }"),
        Err(CompileError::Syntactic("Expected ';' after end of transition description!".to_string()))
    );
    assert_eq!(
        compile_source(""),
        Err(CompileError::Syntactic("Expected 'machine' keyword!".to_string()))
    );
}

#[test]
fn a_lexical_error_is_reported_as_such() {
    assert_eq!(
        compile_source("machine M { state A { on x - B; } }"),
        Err(CompileError::Lexical("Unexpected character  ".to_string()))
    );
    assert_eq!(
        compile_source("machine M { state A_B {} }"),
        Err(CompileError::Lexical("Unexpected character _".to_string()))
    );
}

#[test]
fn a_lexical_error_comes_before_an_earlier_syntax_error() {
    assert_eq!(
        compile_source("state A {} $"),
        Err(CompileError::Lexical("Unexpected character $".to_string()))
    );
}

#[test]
fn a_syntax_error_comes_before_a_semantic_one() {
    assert_eq!(
        compile_source("machine M { state A { on x -> B; }"),
        Err(CompileError::Syntactic("Expected '}' at the end of the file!".to_string()))
    );
}

#[test]
fn a_terminal_state_in_source() {
    let artifacts = compile_source("machine M { state Run { on stop -> End; } state End {} }").unwrap();
    assert_eq!(artifacts.dot, "digraph {\n    Run -> End [label=\"stop\"];\n}\n");
    assert!(artifacts.c.contains("        case STATE_End: return 1;\n"));
    assert!(!artifacts.c.contains("        case STATE_Run: return 1;\n"));
    assert!(artifacts.c.contains("        case STATE_End:\n            printf(\"\");\n"));
    assert!(artifacts.c.contains("        case STATE_Run:\n            printf(\"stop\");\n"));
}

#[test]
fn the_reserved_annotations_are_not_part_of_the_grammar() {
    assert_eq!(
        compile_source("machine M { initial state A {} }"),
        Err(CompileError::Syntactic("Expected '}' at the end of the file!".to_string()))
    );
    assert_eq!(
        compile_source("machine M { state A {} terminal state B {} }"),
        Err(CompileError::Syntactic("Expected '}' at the end of the file!".to_string()))
    );
}

#[test]
fn compile_glyphs_agrees_with_compile_source() {
    let glyphs = DOOR.chars().map(classify).collect();
    assert_eq!(compile_glyphs(glyphs), compile_source(DOOR));
    let glyphs = "machine M { state A { on x -> B; } }".chars().map(classify).collect();
    assert_eq!(
        compile_glyphs(glyphs),
        Err(CompileError::Semantic("Undefined state: B".to_string()))
    );
    let glyphs = "machine ?".chars().map(classify).collect();
    assert_eq!(compile_glyphs(glyphs), Err(CompileError::Lexical("Unexpected character ?".to_string())));
}

#[test]
fn compile_tokens_starts_at_the_parser() {
    let tokens = vec![
        Token::MachineKeyword,
        ident("M"),
        Token::OpenBrace,
        Token::StateKeyword,
        ident("Only"),
        Token::OpenBrace,
        Token::CloseBrace,
        Token::CloseBrace,
    ];
    let artifacts = compile_tokens(tokens).unwrap();
    assert_eq!(artifacts.dot, "digraph {\n}\n");
    assert!(artifacts.c.contains("    STATE_Only,\n"));
    assert_eq!(
        compile_tokens(vec![Token::MachineKeyword]),
        Err(CompileError::Syntactic("Expected machine name!".to_string()))
    );
}

#[test]
fn error_messages_are_read_through_message() {
    assert_eq!(CompileError::Lexical("a".to_string()).message(), "a");
    assert_eq!(CompileError::Syntactic("b".to_string()).message(), "b");
    assert_eq!(CompileError::Semantic("c".to_string()).message(), "c");
}

#[test]
fn the_first_state_is_the_initial_state() {
    let tokens = Lexer::new("machine M { state Z { on a -> A; } state A {} }").tokenize().unwrap();
    let graph = FsmGraph::compile(Parser::new(tokens).parse_machine().unwrap()).unwrap();
    assert_eq!(graph.initial_state, 0);
    assert_eq!(graph.states[graph.initial_state].name, "Z");
    assert!(generate_c(&graph).contains("typedef enum{\n    STATE_Z,\n    STATE_A,\n} State;"));
}
