//! Value types produced by scanning: positions, tokens and diagnostics.

use vstd::prelude::*;

verus! {

/// A place in the source text. Lines and columns count from 1; a column
/// counts characters, not bytes.
#[derive(Clone, Copy, Debug, PartialEq, Eq, Structural)]
pub struct Position {
    pub line: usize,
    pub column: usize,
}

/// The lexical category of a token.
#[derive(Clone, Copy, Debug, PartialEq, Eq, Structural)]
pub enum TokenKind {
    Identifier,
    Keyword,
    NumberLiteral,
    Operator,
    Punctuation,
}

/// A classified lexical unit.
#[derive(Clone, Debug, PartialEq, Eq)]
pub struct Token {
    pub kind: TokenKind,
    pub lexeme: String,
    pub position: Position,
}

/// The mathematical value of a [`Token`].
pub ghost struct TokenView {
    pub kind: TokenKind,
    pub lexeme: Seq<char>,
    pub position: Position,
}

impl View for Token {
    type V = TokenView;

    open spec fn view(&self) -> TokenView {
        TokenView { kind: self.kind, lexeme: self.lexeme@, position: self.position }
    }
}

/// How serious a diagnostic is.
#[derive(Clone, Copy, Debug, PartialEq, Eq, Structural)]
pub enum Severity {
    Error,
    Warning,
}

/// The phase that reported a diagnostic.
#[derive(Clone, Copy, Debug, PartialEq, Eq, Structural)]
pub enum Phase {
    Lexical,
}

/// A report of a problem found in the source text.
#[derive(Clone, Debug, PartialEq, Eq)]
pub struct Diagnostic {
    pub severity: Severity,
    pub message: String,
    pub position: Position,
    pub phase: Phase,
}

/// The mathematical value of a [`Diagnostic`].
pub ghost struct DiagnosticView {
    pub severity: Severity,
    pub message: Seq<char>,
    pub position: Position,
    pub phase: Phase,
}

impl View for Diagnostic {
    type V = DiagnosticView;

    open spec fn view(&self) -> DiagnosticView {
        DiagnosticView {
            severity: self.severity,
            message: self.message@,
            position: self.position,
            phase: self.phase,
        }
    }
}

/// The values of a sequence of tokens, in order.
pub open spec fn token_views(tokens: Seq<Token>) -> Seq<TokenView> {
    tokens.map_values(|t: Token| t@)
}

/// The values of a sequence of diagnostics, in order.
pub open spec fn diagnostic_views(diagnostics: Seq<Diagnostic>) -> Seq<DiagnosticView> {
    diagnostics.map_values(|d: Diagnostic| d@)
}

impl Token {
    /// A token with the same kind, lexeme and position.
    pub fn duplicate(&self) -> (copy: Token)
        ensures
            copy@ == self@,
    {
        Token { kind: self.kind, lexeme: self.lexeme.clone(), position: self.position }
    }
}

impl Diagnostic {
    /// A diagnostic with the same severity, message, position and phase.
    pub fn duplicate(&self) -> (copy: Diagnostic)
        ensures
            copy@ == self@,
    {
        Diagnostic {
            severity: self.severity,
            message: self.message.clone(),
            position: self.position,
            phase: self.phase,
        }
    }
}

} // verus!
