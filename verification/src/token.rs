//! Tokens and the lexer that produces them.
//!
//! The lexer works on glyphs: characters paired with their Unicode classes.
//! Classifying is the only step that depends on the Unicode tables; scanning
//! is defined, and proved, for every sequence of glyphs.

use vstd::prelude::*;
use vstd::string::StringExecFns;
use crate::text::is_whitespace_char;
use crate::text::is_alphabetic_char;
use crate::text::is_alphanumeric_char;

verus! {

/// One lexical unit of the source language.
#[derive(Debug, PartialEq, Eq)]
pub enum Token {
    /// The word `machine`.
    MachineKeyword,
    /// The word `state`.
    StateKeyword,
    /// The word `initial`. Reserved: the grammar never asks for it.
    InitialKeyword,
    /// The word `terminal`. Reserved: the grammar never asks for it.
    TerminalKeyword,
    /// The word `on`.
    TransitionKeyword,
    /// Any other word, with its text.
    Identifier(String),
    /// `->`
    Arrow,
    /// `{`
    OpenBrace,
    /// `}`
    CloseBrace,
    /// `;`
    SemiColon,
    /// The end of the source text.
    EndOfInput,
}

/// The mathematical value of a [`Token`]: an identifier holds its text as a
/// sequence of characters.
pub ghost enum TokenView {
    MachineKeyword,
    StateKeyword,
    InitialKeyword,
    TerminalKeyword,
    TransitionKeyword,
    Identifier(Seq<char>),
    Arrow,
    OpenBrace,
    CloseBrace,
    SemiColon,
    EndOfInput,
}

impl View for Token {
    type V = TokenView;

    open spec fn view(&self) -> TokenView {
        match self {
            Token::MachineKeyword => TokenView::MachineKeyword,
            Token::StateKeyword => TokenView::StateKeyword,
            Token::InitialKeyword => TokenView::InitialKeyword,
            Token::TerminalKeyword => TokenView::TerminalKeyword,
            Token::TransitionKeyword => TokenView::TransitionKeyword,
            Token::Identifier(text) => TokenView::Identifier(text@),
            Token::Arrow => TokenView::Arrow,
            Token::OpenBrace => TokenView::OpenBrace,
            Token::CloseBrace => TokenView::CloseBrace,
            Token::SemiColon => TokenView::SemiColon,
            Token::EndOfInput => TokenView::EndOfInput,
        }
    }
}

impl Clone for Token {
    fn clone(&self) -> (copy: Token)
        ensures
            copy@ == self@,
    {
        match self {
            Token::MachineKeyword => Token::MachineKeyword,
            Token::StateKeyword => Token::StateKeyword,
            Token::InitialKeyword => Token::InitialKeyword,
            Token::TerminalKeyword => Token::TerminalKeyword,
            Token::TransitionKeyword => Token::TransitionKeyword,
            Token::Identifier(text) => Token::Identifier(text.clone()),
            Token::Arrow => Token::Arrow,
            Token::OpenBrace => Token::OpenBrace,
            Token::CloseBrace => Token::CloseBrace,
            Token::SemiColon => Token::SemiColon,
            Token::EndOfInput => Token::EndOfInput,
        }
    }
}

/// The views of a sequence of tokens, in order.
pub open spec fn token_views(tokens: Seq<Token>) -> Seq<TokenView> {
    tokens.map_values(|t: Token| t@)
}

/// A character together with the three Unicode classes the lexer asks about.
#[derive(Clone, Copy, Debug, PartialEq, Eq)]
pub struct Glyph {
    pub ch: char,
    pub whitespace: bool,
    pub alphabetic: bool,
    pub alphanumeric: bool,
}

/// The glyph of a character: the character with its classes as the standard
/// library reports them.
pub open spec fn glyph_of(c: char) -> Glyph {
    Glyph {
        ch: c,
        whitespace: is_whitespace_char(c),
        alphabetic: is_alphabetic_char(c),
        alphanumeric: is_alphanumeric_char(c),
    }
}

/// The glyphs of a text, character by character.
pub open spec fn glyphs_of(text: Seq<char>) -> Seq<Glyph> {
    text.map_values(|c: char| glyph_of(c))
}

/// Pairs a character with its Unicode classes. An alphabetic character is
/// alphanumeric too.
pub fn classify(c: char) -> (g: Glyph)
    ensures
        g == glyph_of(c),
        g.alphabetic ==> g.alphanumeric,
{
    Glyph {
        ch: c,
        whitespace: c.is_whitespace(),
        alphabetic: c.is_alphabetic(),
        alphanumeric: c.is_alphanumeric(),
    }
}

/// The token that a scanned word stands for: one of the five reserved words,
/// matched exactly, or else an identifier with the word as its text.
pub open spec fn word_token(word: Seq<char>) -> TokenView {
    if word == "state"@ {
        TokenView::StateKeyword
    } else if word == "machine"@ {
        TokenView::MachineKeyword
    } else if word == "initial"@ {
        TokenView::InitialKeyword
    } else if word == "terminal"@ {
        TokenView::TerminalKeyword
    } else if word == "on"@ {
        TokenView::TransitionKeyword
    } else {
        TokenView::Identifier(word)
    }
}

/// The first position at or after `p` that holds no white space, or the end
/// of the input.
pub open spec fn skip_whitespace(input: Seq<Glyph>, p: int) -> int
    decreases input.len() - p,
{
    if 0 <= p < input.len() && input[p].whitespace {
        skip_whitespace(input, p + 1)
    } else {
        p
    }
}

/// The first position at or after `p` that holds no alphanumeric character,
/// or the end of the input.
pub open spec fn word_end(input: Seq<Glyph>, p: int) -> int
    decreases input.len() - p,
{
    if 0 <= p < input.len() && input[p].alphanumeric {
        word_end(input, p + 1)
    } else {
        p
    }
}

/// The characters of the glyphs from `from` up to, not including, `to`.
pub open spec fn chars_between(input: Seq<Glyph>, from: int, to: int) -> Seq<char> {
    Seq::new((to - from) as nat, |k: int| input[from + k].ch)
}

/// The message for a character that starts no token.
pub open spec fn unexpected_character(c: char) -> Seq<char> {
    "Unexpected character "@.push(c)
}

/// The message for a `-` that ends the input.
pub open spec fn unexpected_end() -> Seq<char> {
    "Unexpected character!"@
}

/// What one scan yields: the token or the message of a lexical error, and
/// the position at which the next scan starts.
pub ghost struct Scan {
    pub token: Result<TokenView, Seq<char>>,
    pub end: int,
}

/// One scan of `input` from position `p`.
///
/// White space is skipped first. At the end of the input the token is
/// `EndOfInput` and the position stays at the end. `{`, `}` and `;` are tokens
/// by themselves; `-` must be followed by `>`; an alphabetic character starts
/// a word that runs on while the characters are alphanumeric. Anything else
/// is an error. After an error the position rests on the character that
/// should have started a token, so a further scan reports the same error.
pub open spec fn scan_token(input: Seq<Glyph>, p: int) -> Scan {
    let q = skip_whitespace(input, p);
    if q < 0 || q >= input.len() {
        Scan { token: Ok(TokenView::EndOfInput), end: q }
    } else if input[q].ch == '{' {
        Scan { token: Ok(TokenView::OpenBrace), end: q + 1 }
    } else if input[q].ch == '}' {
        Scan { token: Ok(TokenView::CloseBrace), end: q + 1 }
    } else if input[q].ch == ';' {
        Scan { token: Ok(TokenView::SemiColon), end: q + 1 }
    } else if input[q].ch == '-' {
        if q + 1 >= input.len() {
            Scan { token: Err(unexpected_end()), end: q }
        } else if input[q + 1].ch == '>' {
            Scan { token: Ok(TokenView::Arrow), end: q + 2 }
        } else {
            Scan { token: Err(unexpected_character(input[q + 1].ch)), end: q }
        }
    } else if input[q].alphabetic {
        let end = word_end(input, q + 1);
        Scan { token: Ok(word_token(chars_between(input, q, end))), end }
    } else {
        Scan { token: Err(unexpected_character(input[q].ch)), end: q }
    }
}

/// The tokens of `input` from position `p` up to the end of the input, the
/// `EndOfInput` token left out, or the message of the first lexical error.
pub open spec fn tokens_from(input: Seq<Glyph>, p: int) -> Result<Seq<TokenView>, Seq<char>>
    decreases input.len() - p,
    via tokens_from_terminates
{
    let scan = scan_token(input, p);
    match scan.token {
        Err(message) => Err(message),
        Ok(TokenView::EndOfInput) => Ok(Seq::empty()),
        Ok(token) => prepend_tokens(seq![token], tokens_from(input, scan.end)),
    }
}

#[via_fn]
proof fn tokens_from_terminates(input: Seq<Glyph>, p: int) {
    lemma_scan_advances(input, p);
}

/// The view of what a scan returns.
pub open spec fn token_result_view(r: Result<Token, String>) -> Result<TokenView, Seq<char>> {
    match r {
        Ok(token) => Ok(token@),
        Err(message) => Err(message@),
    }
}

/// The view of what tokenizing returns.
pub open spec fn tokens_result_view(r: Result<Vec<Token>, String>) -> Result<
    Seq<TokenView>,
    Seq<char>,
> {
    match r {
        Ok(tokens) => Ok(token_views(tokens@)),
        Err(message) => Err(message@),
    }
}

/// Skipping white space never moves backwards nor past the end, stops on a
/// glyph that is no white space, and passes over white space only.
pub proof fn lemma_skip_whitespace(input: Seq<Glyph>, p: int)
    requires
        0 <= p <= input.len(),
    ensures
        p <= skip_whitespace(input, p) <= input.len(),
        skip_whitespace(input, p) < input.len() ==> !input[skip_whitespace(input, p)].whitespace,
        forall|k: int| p <= k < skip_whitespace(input, p) ==> #[trigger] input[k].whitespace,
    decreases input.len() - p,
{
    if p < input.len() && input[p].whitespace {
        lemma_skip_whitespace(input, p + 1);
    }
}

/// A word never ends before it starts nor past the end of the input, stops
/// on a glyph that is not alphanumeric, and passes over alphanumeric glyphs
/// only.
pub proof fn lemma_word_end(input: Seq<Glyph>, p: int)
    requires
        0 <= p <= input.len(),
    ensures
        p <= word_end(input, p) <= input.len(),
        word_end(input, p) < input.len() ==> !input[word_end(input, p)].alphanumeric,
        forall|k: int| p <= k < word_end(input, p) ==> #[trigger] input[k].alphanumeric,
    decreases input.len() - p,
{
    if p < input.len() && input[p].alphanumeric {
        lemma_word_end(input, p + 1);
    }
}

/// A scan that starts within the input ends within it, and every token but
/// `EndOfInput` consumes at least one glyph of the input.
pub proof fn lemma_scan_advances(input: Seq<Glyph>, p: int)
    ensures
        0 <= p <= input.len() ==> p <= scan_token(input, p).end <= input.len(),
        scan_token(input, p).token is Ok && scan_token(input, p).token
            != Ok::<TokenView, Seq<char>>(TokenView::EndOfInput) ==> 0 <= p < scan_token(
            input,
            p,
        ).end <= input.len(),
{
    if 0 <= p <= input.len() {
        lemma_skip_whitespace(input, p);
        let q = skip_whitespace(input, p);
        if q < input.len() {
            lemma_word_end(input, q + 1);
        }
    }
}

/// A lexer: the glyphs of a source text and a scan position in them.
pub struct Lexer {
    input: Vec<Glyph>,
    pos: usize,
}

impl Lexer {
    /// The glyphs of the whole source text. Scanning never changes them.
    pub closed spec fn glyphs(&self) -> Seq<Glyph> {
        self.input@
    }

    /// The position of the next glyph to scan.
    pub closed spec fn position(&self) -> int {
        self.pos as int
    }

    /// A lexer at the start of `input`, each character classified by the
    /// standard library.
    pub fn new(input: &str) -> (lexer: Lexer)
        ensures
            lexer.glyphs() == glyphs_of(input@),
            lexer.position() == 0,
    {
        let mut glyphs: Vec<Glyph> = Vec::new();
        for c in it: input.chars()
            invariant
                it.seq() == input@,
                glyphs@ == glyphs_of(input@.take(it.index() as int)),
        {
            proof {
                assert(glyphs_of(input@.take(it.index() + 1)) =~= glyphs_of(
                    input@.take(it.index() as int),
                ).push(glyph_of(c)));
            }
            glyphs.push(classify(c));
        }
        proof {
            assert(input@.take(input@.len() as int) =~= input@);
        }
        Lexer { input: glyphs, pos: 0 }
    }

    /// A lexer at the start of glyphs that the caller has classified.
    pub fn from_glyphs(glyphs: Vec<Glyph>) -> (lexer: Lexer)
        ensures
            lexer.glyphs() == glyphs@,
            lexer.position() == 0,
    {
        Lexer { input: glyphs, pos: 0 }
    }

    /// Scans the next token and moves past it.
    ///
    /// At the end of the input every call returns `EndOfInput`. A lexical
    /// error is returned as its message.
    pub fn next_token(&mut self) -> (r: Result<Token, String>)
        ensures
            final(self).glyphs() == old(self).glyphs(),
            final(self).position() == scan_token(old(self).glyphs(), old(self).position()).end,
            token_result_view(r) == scan_token(old(self).glyphs(), old(self).position()).token,
    {
        let len = self.input.len();
        while self.pos < len && self.input[self.pos].whitespace
            invariant
                self.input@ == old(self).input@,
                len == self.input@.len(),
                old(self).pos <= self.pos,
                skip_whitespace(self.input@, self.pos as int) == skip_whitespace(
                    self.input@,
                    old(self).pos as int,
                ),
            decreases len - self.pos,
        {
            self.pos = self.pos + 1;
        }
        if self.pos >= len {
            return Ok(Token::EndOfInput);
        }
        let first = self.input[self.pos];
        if first.ch == '{' {
            self.pos = self.pos + 1;
            Ok(Token::OpenBrace)
        } else if first.ch == '}' {
            self.pos = self.pos + 1;
            Ok(Token::CloseBrace)
        } else if first.ch == ';' {
            self.pos = self.pos + 1;
            Ok(Token::SemiColon)
        } else if first.ch == '-' {
            if self.pos + 1 >= len {
                Err(String::from_str("Unexpected character!"))
            } else if self.input[self.pos + 1].ch == '>' {
                self.pos = self.pos + 2;
                Ok(Token::Arrow)
            } else {
                Err(unexpected(self.input[self.pos + 1].ch))
            }
        } else if first.alphabetic {
            let start = self.pos;
            let mut word = String::new();
            word.push(first.ch);
            self.pos = self.pos + 1;
            while self.pos < len && self.input[self.pos].alphanumeric
                invariant
                    self.input@ == old(self).input@,
                    len == self.input@.len(),
                    start < self.pos <= len,
                    word_end(self.input@, self.pos as int) == word_end(
                        self.input@,
                        start as int + 1,
                    ),
                    word@ == chars_between(self.input@, start as int, self.pos as int),
                decreases len - self.pos,
            {
                word.push(self.input[self.pos].ch);
                self.pos = self.pos + 1;
                proof {
                    assert(word@ =~= chars_between(self.input@, start as int, self.pos as int));
                }
            }
            Ok(token_of_word(word))
        } else {
            Err(unexpected(first.ch))
        }
    }

    /// Scans the whole of the remaining input into tokens, the final
    /// `EndOfInput` left out, and stops at the first lexical error.
    pub fn tokenize(self) -> (r: Result<Vec<Token>, String>)
        ensures
            tokens_result_view(r) == tokens_from(self.glyphs(), self.position()),
    {
        let mut lexer = self;
        let mut tokens: Vec<Token> = Vec::new();
        loop
            invariant
                lexer.input@ == self.input@,
                self.pos <= lexer.pos,
                prepend_tokens(
                    token_views(tokens@),
                    tokens_from(lexer.input@, lexer.pos as int),
                ) == tokens_from(self.input@, self.pos as int),
            decreases lexer.input@.len() - lexer.pos,
        {
            proof {
                lemma_scan_advances(lexer.input@, lexer.pos as int);
            }
            match lexer.next_token() {
                Err(message) => {
                    return Err(message);
                },
                Ok(Token::EndOfInput) => {
                    proof {
                        assert(token_views(tokens@) + Seq::<TokenView>::empty() =~= token_views(
                            tokens@,
                        ));
                    }
                    return Ok(tokens);
                },
                Ok(token) => {
                    proof {
                        let before = token_views(tokens@);
                        let rest = tokens_from(lexer.input@, lexer.pos as int);
                        assert(token_views(tokens@.push(token)) =~= before.push(token@));
                        if let Ok(more) = rest {
                            assert(before.push(token@) + more =~= before + (seq![token@] + more));
                        }
                    }
                    tokens.push(token);
                },
            }
        }
    }
}

/// `found` with `tokens` put in front of it; an error stays as it is.
pub open spec fn prepend_tokens(
    tokens: Seq<TokenView>,
    found: Result<Seq<TokenView>, Seq<char>>,
) -> Result<Seq<TokenView>, Seq<char>> {
    match found {
        Ok(rest) => Ok(tokens + rest),
        Err(message) => Err(message),
    }
}

/// Turns a scanned word into its token.
pub fn token_of_word(word: String) -> (token: Token)
    ensures
        token@ == word_token(word@),
{
    if word == String::from_str("state") {
        Token::StateKeyword
    } else if word == String::from_str("machine") {
        Token::MachineKeyword
    } else if word == String::from_str("initial") {
        Token::InitialKeyword
    } else if word == String::from_str("terminal") {
        Token::TerminalKeyword
    } else if word == String::from_str("on") {
        Token::TransitionKeyword
    } else {
        Token::Identifier(word)
    }
}

/// Builds the message for a character that starts no token.
fn unexpected(c: char) -> (message: String)
    ensures
        message@ == unexpected_character(c),
{
    let mut message = String::from_str("Unexpected character ");
    message.push(c);
    message
}

} // verus!
