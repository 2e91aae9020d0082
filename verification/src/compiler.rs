//! The whole pipeline: from source text to the two generated texts.
//!
//! The stages run in order: lexing, parsing, resolution, and the two
//! backends. The first stage that fails ends the run; nothing is generated
//! from a source with an error.

use vstd::prelude::*;
use crate::codegen_c::c_text;
use crate::codegen_c::generate_c;
use crate::codegen_dot::dot_text;
use crate::codegen_dot::generate_dot;
use crate::graph::FsmGraph;
use crate::graph::resolve;
use crate::parser::Parser;
use crate::parser::parse_machine_at;
use crate::token::Glyph;
use crate::token::Lexer;
use crate::token::Token;
use crate::token::TokenView;
use crate::token::glyphs_of;
use crate::token::token_views;
use crate::token::tokens_from;

verus! {

/// Why a source did not compile: the stage that failed and its message.
#[derive(Debug, PartialEq, Eq)]
pub enum CompileError {
    /// A character that starts no token.
    Lexical(String),
    /// A token that the grammar does not expect.
    Syntactic(String),
    /// A target that no state bears, or a machine without states.
    Semantic(String),
}

/// The mathematical value of a [`CompileError`].
pub ghost enum CompileErrorView {
    Lexical(Seq<char>),
    Syntactic(Seq<char>),
    Semantic(Seq<char>),
}

impl View for CompileError {
    type V = CompileErrorView;

    open spec fn view(&self) -> CompileErrorView {
        match self {
            CompileError::Lexical(message) => CompileErrorView::Lexical(message@),
            CompileError::Syntactic(message) => CompileErrorView::Syntactic(message@),
            CompileError::Semantic(message) => CompileErrorView::Semantic(message@),
        }
    }
}

impl CompileErrorView {
    /// The message of the stage that failed.
    pub open spec fn message(self) -> Seq<char> {
        match self {
            CompileErrorView::Lexical(message) => message,
            CompileErrorView::Syntactic(message) => message,
            CompileErrorView::Semantic(message) => message,
        }
    }
}

impl CompileError {
    /// The message of the stage that failed.
    pub fn message(&self) -> (message: &String)
        ensures
            message@ == self@.message(),
    {
        match self {
            CompileError::Lexical(message) => message,
            CompileError::Syntactic(message) => message,
            CompileError::Semantic(message) => message,
        }
    }
}

/// The two texts generated from one source.
#[derive(Debug, PartialEq, Eq)]
pub struct Artifacts {
    /// The DOT digraph.
    pub dot: String,
    /// The C program.
    pub c: String,
}

/// The mathematical value of [`Artifacts`].
pub ghost struct ArtifactsView {
    pub dot: Seq<char>,
    pub c: Seq<char>,
}

impl View for Artifacts {
    type V = ArtifactsView;

    open spec fn view(&self) -> ArtifactsView {
        ArtifactsView { dot: self.dot@, c: self.c@ }
    }
}

/// What compiling a sequence of tokens yields: the error of the first stage
/// that fails, or the texts generated from the graph of the machine parsed
/// from the tokens. Tokens that follow the machine are not read.
pub open spec fn compiled_tokens(tokens: Seq<TokenView>) -> Result<
    ArtifactsView,
    CompileErrorView,
> {
    match parse_machine_at(tokens, 0).result {
        Err(message) => Err(CompileErrorView::Syntactic(message)),
        Ok(machine) => match resolve(machine) {
            Err(message) => Err(CompileErrorView::Semantic(message)),
            Ok(graph) => Ok(ArtifactsView { dot: dot_text(graph), c: c_text(graph) }),
        },
    }
}

/// What compiling a source yields, the source given as glyphs: the message
/// of the first lexical error, or what compiling its tokens yields.
pub open spec fn compiled(source: Seq<Glyph>) -> Result<ArtifactsView, CompileErrorView> {
    match tokens_from(source, 0) {
        Err(message) => Err(CompileErrorView::Lexical(message)),
        Ok(tokens) => compiled_tokens(tokens),
    }
}

/// The view of what compiling returns.
pub open spec fn compile_result_view(r: Result<Artifacts, CompileError>) -> Result<
    ArtifactsView,
    CompileErrorView,
> {
    match r {
        Ok(artifacts) => Ok(artifacts@),
        Err(error) => Err(error@),
    }
}

/// Parses the tokens, resolves the machine and renders the graph.
pub fn compile_tokens(tokens: Vec<Token>) -> (r: Result<Artifacts, CompileError>)
    ensures
        compile_result_view(r) == compiled_tokens(token_views(tokens@)),
{
    let mut parser = Parser::new(tokens);
    let machine = match parser.parse_machine() {
        Ok(machine) => machine,
        Err(message) => {
            return Err(CompileError::Syntactic(message));
        },
    };
    let graph = match FsmGraph::compile(machine) {
        Ok(graph) => graph,
        Err(message) => {
            return Err(CompileError::Semantic(message));
        },
    };
    let dot = generate_dot(&graph);
    let c = generate_c(&graph);
    Ok(Artifacts { dot, c })
}

/// Compiles a source whose characters the caller has classified.
pub fn compile_glyphs(source: Vec<Glyph>) -> (r: Result<Artifacts, CompileError>)
    ensures
        compile_result_view(r) == compiled(source@),
{
    match Lexer::from_glyphs(source).tokenize() {
        Ok(tokens) => compile_tokens(tokens),
        Err(message) => Err(CompileError::Lexical(message)),
    }
}

/// Compiles a source text, its characters classified by the standard
/// library.
pub fn compile_source(source: &str) -> (r: Result<Artifacts, CompileError>)
    ensures
        compile_result_view(r) == compiled(glyphs_of(source@)),
{
    match Lexer::new(source).tokenize() {
        Ok(tokens) => compile_tokens(tokens),
        Err(message) => Err(CompileError::Lexical(message)),
    }
}

} // verus!
