//! The recursive-descent parser.
//!
//! ```text
//! machine    := "machine" Identifier "{" state* "}"
//! state      := "state" Identifier "{" transition* "}"
//! transition := "on" Identifier "->" Identifier ";"
//! ```
//!
//! The grammar is written down twice: as spec functions over a sequence of
//! token views, which say for every token sequence and position what is
//! parsed and where the parser stops, and as the executable parser, which is
//! proved to compute exactly that.

use vstd::prelude::*;
use vstd::string::StringExecFns;
use crate::ast::Machine;
use crate::ast::MachineView;
use crate::ast::State;
use crate::ast::StateView;
use crate::ast::Transition;
use crate::ast::TransitionView;
use crate::ast::state_views;
use crate::ast::transition_views;
use crate::token::Token;
use crate::token::TokenView;
use crate::token::token_views;

verus! {

pub const EXPECTED_MACHINE: &'static str = "Expected 'machine' keyword!";

pub const EXPECTED_MACHINE_NAME: &'static str = "Expected machine name!";

pub const EXPECTED_MACHINE_BRACE: &'static str = "Expected '{' after machine name!";

pub const EXPECTED_STATE: &'static str = "Expected 'state' keyword!";

pub const EXPECTED_STATE_NAME: &'static str = "Expected state name!";

pub const EXPECTED_STATE_BRACE: &'static str = "Expected '{' after state name!";

pub const EXPECTED_ON: &'static str = "Expected 'on' keyword!";

pub const EXPECTED_EVENT_NAME: &'static str = "Expected event name!";

pub const EXPECTED_ARROW: &'static str = "Expected '->' after the event name!";

pub const EXPECTED_TARGET_NAME: &'static str = "Expected target state name!";

pub const EXPECTED_SEMICOLON: &'static str = "Expected ';' after end of transition description!";

pub const EXPECTED_STATE_CLOSE: &'static str = "Expected '}' at the end of the state block!";

pub const EXPECTED_MACHINE_CLOSE: &'static str = "Expected '}' at the end of the file!";

/// The messages of all the expected-token checks, one for each check.
pub open spec fn syntax_messages() -> Seq<Seq<char>> {
    seq![
        EXPECTED_MACHINE@,
        EXPECTED_MACHINE_NAME@,
        EXPECTED_MACHINE_BRACE@,
        EXPECTED_STATE@,
        EXPECTED_STATE_NAME@,
        EXPECTED_STATE_BRACE@,
        EXPECTED_ON@,
        EXPECTED_EVENT_NAME@,
        EXPECTED_ARROW@,
        EXPECTED_TARGET_NAME@,
        EXPECTED_SEMICOLON@,
        EXPECTED_STATE_CLOSE@,
        EXPECTED_MACHINE_CLOSE@,
    ]
}

/// No two expected-token checks share a message: a message tells which
/// check failed.
pub proof fn lemma_messages_distinct()
    ensures
        syntax_messages().len() == 13,
        forall|i: int, j: int|
            0 <= i < j < syntax_messages().len() ==> syntax_messages()[i] != syntax_messages()[j],
        EXPECTED_STATE_CLOSE@ != EXPECTED_MACHINE_CLOSE@,
{
    reveal_strlit("Expected 'machine' keyword!");
    reveal_strlit("Expected machine name!");
    reveal_strlit("Expected '{' after machine name!");
    reveal_strlit("Expected 'state' keyword!");
    reveal_strlit("Expected state name!");
    reveal_strlit("Expected '{' after state name!");
    reveal_strlit("Expected 'on' keyword!");
    reveal_strlit("Expected event name!");
    reveal_strlit("Expected '->' after the event name!");
    reveal_strlit("Expected target state name!");
    reveal_strlit("Expected ';' after end of transition description!");
    reveal_strlit("Expected '}' at the end of the state block!");
    reveal_strlit("Expected '}' at the end of the file!");
    let all = syntax_messages();
    assert(all[0].len() == 27 && all[0][9] == '\'');
    assert(all[1].len() == 22 && all[1][9] == 'm');
    assert(all[2].len() == 32 && all[2][9] == '\'');
    assert(all[3].len() == 25 && all[3][9] == '\'');
    assert(all[4].len() == 20 && all[4][9] == 's');
    assert(all[5].len() == 30 && all[5][9] == '\'');
    assert(all[6].len() == 22 && all[6][9] == '\'');
    assert(all[7].len() == 20 && all[7][9] == 'e');
    assert(all[8].len() == 35 && all[8][9] == '\'');
    assert(all[9].len() == 27 && all[9][9] == 't');
    assert(all[10].len() == 49 && all[10][9] == '\'');
    assert(all[11].len() == 43 && all[11][9] == '\'');
    assert(all[12].len() == 36 && all[12][9] == '\'');
}

/// What parsing from some position yields: the value or the message of the
/// first syntax error, and the position at which the parser stops.
pub ghost struct Parsed<T> {
    pub result: Result<T, Seq<char>>,
    pub pos: int,
}

/// The token at position `p`; past the end every token is `EndOfInput`.
pub open spec fn token_at(tokens: Seq<TokenView>, p: int) -> TokenView {
    if 0 <= p < tokens.len() {
        tokens[p]
    } else {
        TokenView::EndOfInput
    }
}

/// The position after consuming the token at `p`: one further, but never
/// past the end.
pub open spec fn after(tokens: Seq<TokenView>, p: int) -> int {
    if 0 <= p < tokens.len() {
        p + 1
    } else {
        p
    }
}

/// `found` with `items` put in front of what it parsed; an error stays.
pub open spec fn prepend<T>(items: Seq<T>, found: Parsed<Seq<T>>) -> Parsed<Seq<T>> {
    match found.result {
        Ok(rest) => Parsed { result: Ok(items + rest), pos: found.pos },
        Err(message) => Parsed { result: Err(message), pos: found.pos },
    }
}

/// One transition parsed from position `p`.
///
/// The five tokens `on`, an identifier, `->`, an identifier and `;` give a
/// transition. The first token that is not the expected one gives that
/// token's error. A missing keyword, arrow or semicolon is found by looking
/// ahead, a missing name by consuming, so the position stops on the former
/// and after the latter.
pub open spec fn parse_transition_at(tokens: Seq<TokenView>, p: int) -> Parsed<TransitionView> {
    if token_at(tokens, p) != TokenView::TransitionKeyword {
        Parsed { result: Err(EXPECTED_ON@), pos: p }
    } else {
        match token_at(tokens, p + 1) {
            TokenView::Identifier(event) => {
                if token_at(tokens, p + 2) != TokenView::Arrow {
                    Parsed { result: Err(EXPECTED_ARROW@), pos: p + 2 }
                } else {
                    match token_at(tokens, p + 3) {
                        TokenView::Identifier(target) => {
                            if token_at(tokens, p + 4) != TokenView::SemiColon {
                                Parsed { result: Err(EXPECTED_SEMICOLON@), pos: p + 4 }
                            } else {
                                Parsed {
                                    result: Ok(TransitionView { event, target }),
                                    pos: p + 5,
                                }
                            }
                        },
                        _ => Parsed {
                            result: Err(EXPECTED_TARGET_NAME@),
                            pos: after(tokens, p + 3),
                        },
                    }
                }
            },
            _ => Parsed { result: Err(EXPECTED_EVENT_NAME@), pos: after(tokens, p + 1) },
        }
    }
}

/// The transitions parsed from position `p`: one after another for as long
/// as the next token is `on`. The first that fails gives the error.
pub open spec fn parse_transitions_at(tokens: Seq<TokenView>, p: int) -> Parsed<
    Seq<TransitionView>,
>
    decreases tokens.len() - p,
{
    if token_at(tokens, p) == TokenView::TransitionKeyword {
        let first = parse_transition_at(tokens, p);
        match first.result {
            Ok(transition) => prepend(seq![transition], parse_transitions_at(tokens, first.pos)),
            Err(message) => Parsed { result: Err(message), pos: first.pos },
        }
    } else {
        Parsed { result: Ok(Seq::empty()), pos: p }
    }
}

/// One state parsed from position `p`: `state`, its name, `{`, its
/// transitions and `}`.
///
/// A missing `state` keyword is found by looking ahead; every other token
/// is consumed before it is judged, so after such an error the position is
/// past the offending token.
pub open spec fn parse_state_at(tokens: Seq<TokenView>, p: int) -> Parsed<StateView> {
    if token_at(tokens, p) != TokenView::StateKeyword {
        Parsed { result: Err(EXPECTED_STATE@), pos: p }
    } else {
        match token_at(tokens, p + 1) {
            TokenView::Identifier(name) => {
                if token_at(tokens, p + 2) != TokenView::OpenBrace {
                    Parsed { result: Err(EXPECTED_STATE_BRACE@), pos: after(tokens, p + 2) }
                } else {
                    let body = parse_transitions_at(tokens, p + 3);
                    match body.result {
                        Ok(transitions) => {
                            if token_at(tokens, body.pos) != TokenView::CloseBrace {
                                Parsed {
                                    result: Err(EXPECTED_STATE_CLOSE@),
                                    pos: after(tokens, body.pos),
                                }
                            } else {
                                Parsed {
                                    result: Ok(StateView { name, transitions }),
                                    pos: body.pos + 1,
                                }
                            }
                        },
                        Err(message) => Parsed { result: Err(message), pos: body.pos },
                    }
                }
            },
            _ => Parsed { result: Err(EXPECTED_STATE_NAME@), pos: after(tokens, p + 1) },
        }
    }
}

/// The states parsed from position `p`: one after another for as long as
/// the next token is `state`. The first that fails gives the error.
pub open spec fn parse_states_at(tokens: Seq<TokenView>, p: int) -> Parsed<Seq<StateView>>
    decreases tokens.len() - p,
    via parse_states_terminates
{
    if token_at(tokens, p) == TokenView::StateKeyword {
        let first = parse_state_at(tokens, p);
        match first.result {
            Ok(state) => prepend(seq![state], parse_states_at(tokens, first.pos)),
            Err(message) => Parsed { result: Err(message), pos: first.pos },
        }
    } else {
        Parsed { result: Ok(Seq::empty()), pos: p }
    }
}

#[via_fn]
proof fn parse_states_terminates(tokens: Seq<TokenView>, p: int) {
    lemma_parse_state_advances(tokens, p);
}

/// One machine parsed from position `p`: `machine`, its name, `{`, its
/// states and `}`.
///
/// A missing `machine` keyword is found by looking ahead; every other token
/// is consumed before it is judged. Whatever follows the closing brace is
/// left unread.
pub open spec fn parse_machine_at(tokens: Seq<TokenView>, p: int) -> Parsed<MachineView> {
    if token_at(tokens, p) != TokenView::MachineKeyword {
        Parsed { result: Err(EXPECTED_MACHINE@), pos: p }
    } else {
        match token_at(tokens, p + 1) {
            TokenView::Identifier(name) => {
                if token_at(tokens, p + 2) != TokenView::OpenBrace {
                    Parsed { result: Err(EXPECTED_MACHINE_BRACE@), pos: after(tokens, p + 2) }
                } else {
                    let body = parse_states_at(tokens, p + 3);
                    match body.result {
                        Ok(states) => {
                            if token_at(tokens, body.pos) != TokenView::CloseBrace {
                                Parsed {
                                    result: Err(EXPECTED_MACHINE_CLOSE@),
                                    pos: after(tokens, body.pos),
                                }
                            } else {
                                Parsed {
                                    result: Ok(MachineView { name, states }),
                                    pos: body.pos + 1,
                                }
                            }
                        },
                        Err(message) => Parsed { result: Err(message), pos: body.pos },
                    }
                }
            },
            _ => Parsed { result: Err(EXPECTED_MACHINE_NAME@), pos: after(tokens, p + 1) },
        }
    }
}

/// Parsing transitions never moves backwards, and stays within the tokens
/// when it starts within them.
pub proof fn lemma_parse_transitions_bounds(tokens: Seq<TokenView>, p: int)
    ensures
        p <= parse_transitions_at(tokens, p).pos,
        0 <= p <= tokens.len() ==> parse_transitions_at(tokens, p).pos <= tokens.len(),
    decreases tokens.len() - p,
{
    if token_at(tokens, p) == TokenView::TransitionKeyword {
        let first = parse_transition_at(tokens, p);
        if first.result is Ok {
            lemma_parse_transitions_bounds(tokens, first.pos);
        }
    }
}

/// A state that parses consumes at least its keyword and stays within the
/// tokens.
pub proof fn lemma_parse_state_advances(tokens: Seq<TokenView>, p: int)
    ensures
        p <= parse_state_at(tokens, p).pos,
        0 <= p <= tokens.len() ==> parse_state_at(tokens, p).pos <= tokens.len(),
        parse_state_at(tokens, p).result is Ok ==> 0 <= p < parse_state_at(tokens, p).pos
            <= tokens.len(),
{
    lemma_parse_transitions_bounds(tokens, p + 3);
}

/// The view of what parsing one item returns.
pub open spec fn transition_result_view(r: Result<Transition, String>) -> Result<
    TransitionView,
    Seq<char>,
> {
    match r {
        Ok(transition) => Ok(transition@),
        Err(message) => Err(message@),
    }
}

/// The view of what parsing a state returns.
pub open spec fn state_result_view(r: Result<State, String>) -> Result<StateView, Seq<char>> {
    match r {
        Ok(state) => Ok(state@),
        Err(message) => Err(message@),
    }
}

/// The view of what parsing a machine returns.
pub open spec fn machine_result_view(r: Result<Machine, String>) -> Result<
    MachineView,
    Seq<char>,
> {
    match r {
        Ok(machine) => Ok(machine@),
        Err(message) => Err(message@),
    }
}

/// A parser: a sequence of tokens and a position in it.
pub struct Parser {
    tokens: Vec<Token>,
    pos: usize,
}

impl Parser {
    /// The tokens being parsed, as views. Parsing never changes them.
    pub closed spec fn tokens(&self) -> Seq<TokenView> {
        token_views(self.tokens@)
    }

    /// The position of the next token to read.
    pub closed spec fn position(&self) -> int {
        self.pos as int
    }

    /// A parser at the start of `tokens`.
    pub fn new(tokens: Vec<Token>) -> (parser: Parser)
        ensures
            parser.tokens() == token_views(tokens@),
            parser.position() == 0,
    {
        Parser { tokens, pos: 0 }
    }

    /// The current token, or `EndOfInput` past the end; nothing is consumed.
    fn peek(&self) -> (token: &Token)
        ensures
            token@ == token_at(self.tokens(), self.position()),
    {
        if self.pos < self.tokens.len() {
            &self.tokens[self.pos]
        } else {
            &Token::EndOfInput
        }
    }

    /// Returns the current token and moves one token on, unless the parser
    /// is at the end already.
    fn advance(&mut self) -> (token: Token)
        ensures
            token@ == token_at(old(self).tokens(), old(self).position()),
            final(self).tokens() == old(self).tokens(),
            final(self).position() == after(old(self).tokens(), old(self).position()),
    {
        let token = self.peek().clone();
        if self.pos < self.tokens.len() {
            self.pos = self.pos + 1;
        }
        token
    }

    /// Parses one transition at the current position.
    pub fn parse_transition(&mut self) -> (r: Result<Transition, String>)
        ensures
            final(self).tokens() == old(self).tokens(),
            final(self).position() == parse_transition_at(
                old(self).tokens(),
                old(self).position(),
            ).pos,
            transition_result_view(r) == parse_transition_at(
                old(self).tokens(),
                old(self).position(),
            ).result,
    {
        if !matches!(self.peek(), Token::TransitionKeyword) {
            return Err(String::from_str(EXPECTED_ON));
        }
        self.advance();
        let event = match self.advance() {
            Token::Identifier(name) => name,
            _ => {
                return Err(String::from_str(EXPECTED_EVENT_NAME));
            },
        };
        if !matches!(self.peek(), Token::Arrow) {
            return Err(String::from_str(EXPECTED_ARROW));
        }
        self.advance();
        let target = match self.advance() {
            Token::Identifier(name) => name,
            _ => {
                return Err(String::from_str(EXPECTED_TARGET_NAME));
            },
        };
        if !matches!(self.peek(), Token::SemiColon) {
            return Err(String::from_str(EXPECTED_SEMICOLON));
        }
        self.advance();
        Ok(Transition { event, target })
    }

    /// Parses one state at the current position.
    #[verifier::loop_isolation(false)]
    pub fn parse_state(&mut self) -> (r: Result<State, String>)
        ensures
            final(self).tokens() == old(self).tokens(),
            final(self).position() == parse_state_at(old(self).tokens(), old(self).position()).pos,
            state_result_view(r) == parse_state_at(
                old(self).tokens(),
                old(self).position(),
            ).result,
    {
        if !matches!(self.peek(), Token::StateKeyword) {
            return Err(String::from_str(EXPECTED_STATE));
        }
        self.advance();
        let name = match self.advance() {
            Token::Identifier(name) => name,
            _ => {
                return Err(String::from_str(EXPECTED_STATE_NAME));
            },
        };
        if !matches!(self.advance(), Token::OpenBrace) {
            return Err(String::from_str(EXPECTED_STATE_BRACE));
        }
        let ghost start = self.position();
        let mut transitions: Vec<Transition> = Vec::new();
        while matches!(self.peek(), Token::TransitionKeyword)
            invariant
                self.tokens() == old(self).tokens(),
                start <= self.position(),
                prepend(
                    transition_views(transitions@),
                    parse_transitions_at(self.tokens(), self.position()),
                ) == parse_transitions_at(self.tokens(), start),
            decreases self.tokens().len() - self.position(),
        {
            let ghost before = transition_views(transitions@);
            match self.parse_transition() {
                Ok(transition) => {
                    proof {
                        let rest = parse_transitions_at(self.tokens(), self.position());
                        assert(transition_views(transitions@.push(transition)) =~= before.push(
                            transition@,
                        ));
                        if let Ok(more) = rest.result {
                            assert(before.push(transition@) + more =~= before + (seq![
                                transition@,
                            ] + more));
                        }
                    }
                    transitions.push(transition);
                },
                Err(message) => {
                    return Err(message);
                },
            }
        }
        proof {
            assert(transition_views(transitions@) + Seq::<TransitionView>::empty()
                =~= transition_views(transitions@));
        }
        if !matches!(self.advance(), Token::CloseBrace) {
            return Err(String::from_str(EXPECTED_STATE_CLOSE));
        }
        Ok(State { name, transitions })
    }

    /// Parses a machine at the current position.
    #[verifier::loop_isolation(false)]
    pub fn parse_machine(&mut self) -> (r: Result<Machine, String>)
        ensures
            final(self).tokens() == old(self).tokens(),
            final(self).position() == parse_machine_at(
                old(self).tokens(),
                old(self).position(),
            ).pos,
            machine_result_view(r) == parse_machine_at(
                old(self).tokens(),
                old(self).position(),
            ).result,
    {
        if !matches!(self.peek(), Token::MachineKeyword) {
            return Err(String::from_str(EXPECTED_MACHINE));
        }
        self.advance();
        let name = match self.advance() {
            Token::Identifier(name) => name,
            _ => {
                return Err(String::from_str(EXPECTED_MACHINE_NAME));
            },
        };
        if !matches!(self.advance(), Token::OpenBrace) {
            return Err(String::from_str(EXPECTED_MACHINE_BRACE));
        }
        let ghost start = self.position();
        let mut states: Vec<State> = Vec::new();
        while matches!(self.peek(), Token::StateKeyword)
            invariant
                self.tokens() == old(self).tokens(),
                start <= self.position(),
                prepend(
                    state_views(states@),
                    parse_states_at(self.tokens(), self.position()),
                ) == parse_states_at(self.tokens(), start),
            decreases self.tokens().len() - self.position(),
        {
            let ghost before = state_views(states@);
            proof {
                lemma_parse_state_advances(self.tokens(), self.position());
            }
            match self.parse_state() {
                Ok(state) => {
                    proof {
                        let rest = parse_states_at(self.tokens(), self.position());
                        assert(state_views(states@.push(state)) =~= before.push(state@));
                        if let Ok(more) = rest.result {
                            assert(before.push(state@) + more =~= before + (seq![state@] + more));
                        }
                    }
                    states.push(state);
                },
                Err(message) => {
                    return Err(message);
                },
            }
        }
        proof {
            assert(state_views(states@) + Seq::<StateView>::empty() =~= state_views(states@));
        }
        if !matches!(self.advance(), Token::CloseBrace) {
            return Err(String::from_str(EXPECTED_MACHINE_CLOSE));
        }
        Ok(Machine { name, states })
    }
}

} // verus!
