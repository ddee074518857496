//! The scanner: one line of text in, that line's tokens and at most one
//! diagnostic out. Nothing in it looks beyond the line it was given.

use vstd::prelude::*;
use vstd::string::*;
use crate::text::{chars_of, string_of};
use crate::token::{Diagnostic, DiagnosticView, Phase, Position, Severity, Token, TokenKind, TokenView, token_views};

verus! {

/// Unicode white space (the `White_Space` property).
pub open spec fn is_blank(c: char) -> bool {
    let u = c as u32;
    ||| 0x09 <= u <= 0x0D
    ||| u == 0x20
    ||| u == 0x85
    ||| u == 0xA0
    ||| u == 0x1680
    ||| 0x2000 <= u <= 0x200A
    ||| u == 0x2028
    ||| u == 0x2029
    ||| u == 0x202F
    ||| u == 0x205F
    ||| u == 0x3000
}

/// An ASCII decimal digit.
pub open spec fn is_digit(c: char) -> bool {
    '0' as u32 <= c as u32 <= '9' as u32
}

/// A character that may begin a word: an ASCII letter or `_`.
pub open spec fn is_word_start(c: char) -> bool {
    let u = c as u32;
    ||| 'a' as u32 <= u <= 'z' as u32
    ||| 'A' as u32 <= u <= 'Z' as u32
    ||| c == '_'
}

/// A character that may continue a word.
pub open spec fn is_word_part(c: char) -> bool {
    is_word_start(c) || is_digit(c)
}

/// A one-character operator.
pub open spec fn is_operator(c: char) -> bool {
    ||| c == '+'
    ||| c == '-'
    ||| c == '*'
    ||| c == '/'
    ||| c == '%'
    ||| c == '='
    ||| c == '<'
    ||| c == '>'
    ||| c == '!'
    ||| c == '&'
    ||| c == '|'
    ||| c == '^'
}

/// A one-character punctuation mark.
pub open spec fn is_punctuation(c: char) -> bool {
    ||| c == '('
    ||| c == ')'
    ||| c == '{'
    ||| c == '}'
    ||| c == '['
    ||| c == ']'
    ||| c == ','
    ||| c == ';'
    ||| c == ':'
    ||| c == '.'
}

/// A character that begins some lexeme.
pub open spec fn starts_lexeme(c: char) -> bool {
    is_word_start(c) || is_digit(c) || is_operator(c) || is_punctuation(c)
}

/// The reserved words.
pub open spec fn is_keyword(word: Seq<char>) -> bool {
    ||| word == "let"@
    ||| word == "fn"@
    ||| word == "if"@
    ||| word == "else"@
    ||| word == "while"@
    ||| word == "for"@
    ||| word == "return"@
    ||| word == "true"@
    ||| word == "false"@
}

/// Whether `c` is white space.
pub fn is_blank_char(c: char) -> (b: bool)
    ensures
        b == is_blank(c),
{
    let u: u32 = c as u32;
    (0x09 <= u && u <= 0x0D) || u == 0x20 || u == 0x85 || u == 0xA0 || u == 0x1680 || (0x2000 <= u
        && u <= 0x200A) || u == 0x2028 || u == 0x2029 || u == 0x202F || u == 0x205F || u == 0x3000
}

/// Whether `c` is a decimal digit.
pub fn is_digit_char(c: char) -> (b: bool)
    ensures
        b == is_digit(c),
{
    let u: u32 = c as u32;
    '0' as u32 <= u && u <= '9' as u32
}

/// Whether `c` may continue a word.
pub fn is_word_part_char(c: char) -> (b: bool)
    ensures
        b == is_word_part(c),
{
    is_word_start_char(c) || is_digit_char(c)
}

/// Whether `c` may begin a word.
pub fn is_word_start_char(c: char) -> (b: bool)
    ensures
        b == is_word_start(c),
{
    let u: u32 = c as u32;
    ('a' as u32 <= u && u <= 'z' as u32) || ('A' as u32 <= u && u <= 'Z' as u32) || c == '_'
}

/// Whether `c` is an operator.
pub fn is_operator_char(c: char) -> (b: bool)
    ensures
        b == is_operator(c),
{
    c == '+' || c == '-' || c == '*' || c == '/' || c == '%' || c == '=' || c == '<' || c == '>'
        || c == '!' || c == '&' || c == '|' || c == '^'
}

/// Whether `c` is a punctuation mark.
pub fn is_punctuation_char(c: char) -> (b: bool)
    ensures
        b == is_punctuation(c),
{
    c == '(' || c == ')' || c == '{' || c == '}' || c == '[' || c == ']' || c == ',' || c == ';'
        || c == ':' || c == '.'
}

/// Whether `word` is reserved.
pub fn is_keyword_text(word: &str) -> (b: bool)
    ensures
        b == is_keyword(word@),
{
    let w = String::from_str(word);
    w == String::from_str("let") || w == String::from_str("fn") || w == String::from_str("if") || w
        == String::from_str("else") || w == String::from_str("while") || w == String::from_str(
        "for",
    ) || w == String::from_str("return") || w == String::from_str("true") || w
        == String::from_str("false")
}

/// How many word characters stand in a row from `from` on.
pub open spec fn word_run(line: Seq<char>, from: int) -> nat
    decreases line.len() - from,
{
    if 0 <= from < line.len() && is_word_part(line[from]) {
        1 + word_run(line, from + 1)
    } else {
        0
    }
}

/// How many digits stand in a row from `from` on.
pub open spec fn digit_run(line: Seq<char>, from: int) -> nat
    decreases line.len() - from,
{
    if 0 <= from < line.len() && is_digit(line[from]) {
        1 + digit_run(line, from + 1)
    } else {
        0
    }
}

/// Where the lexeme that begins at `start` ends (exclusive): a word or a
/// number runs as far as it can, anything else is one character long.
pub open spec fn lexeme_end(line: Seq<char>, start: int) -> int {
    if is_word_start(line[start]) {
        start + 1 + word_run(line, start + 1)
    } else if is_digit(line[start]) {
        start + 1 + digit_run(line, start + 1)
    } else {
        start + 1
    }
}

/// The category of a lexeme, decided by its first character; a word is a
/// keyword exactly when it is reserved.
pub open spec fn lexeme_kind(lexeme: Seq<char>) -> TokenKind {
    if is_word_start(lexeme[0]) {
        if is_keyword(lexeme) {
            TokenKind::Keyword
        } else {
            TokenKind::Identifier
        }
    } else if is_digit(lexeme[0]) {
        TokenKind::NumberLiteral
    } else if is_operator(lexeme[0]) {
        TokenKind::Operator
    } else {
        TokenKind::Punctuation
    }
}

/// The position of the character at offset `at` of line `row`, both counted
/// from 0.
pub open spec fn position_at(row: int, at: int) -> Position {
    Position { line: (row + 1) as usize, column: (at + 1) as usize }
}

/// The token that begins at `start` on line `row`.
pub open spec fn token_at(line: Seq<char>, row: int, start: int) -> TokenView {
    let lexeme = line.subrange(start, lexeme_end(line, start));
    TokenView { kind: lexeme_kind(lexeme), lexeme, position: position_at(row, start) }
}

/// The message of the diagnostic for a character that begins no lexeme.
pub open spec fn unrecognized_message(c: char) -> Seq<char> {
    "unrecognized character "@ + seq![c]
}

/// The diagnostic for the character at offset `at` of line `row`.
pub open spec fn unrecognized_at(line: Seq<char>, row: int, at: int) -> DiagnosticView {
    DiagnosticView {
        severity: Severity::Error,
        message: unrecognized_message(line[at]),
        position: position_at(row, at),
        phase: Phase::Lexical,
    }
}

/// What scanning one line yields: its tokens in order, and a diagnostic if
/// the line holds a character that begins no lexeme.
#[derive(Debug, PartialEq, Eq)]
pub struct LineScan {
    pub tokens: Vec<Token>,
    pub diagnostic: Option<Diagnostic>,
}

/// The mathematical value of a [`LineScan`].
pub ghost struct LineScanView {
    pub tokens: Seq<TokenView>,
    pub diagnostic: Option<DiagnosticView>,
}

impl View for LineScan {
    type V = LineScanView;

    open spec fn view(&self) -> LineScanView {
        LineScanView {
            tokens: token_views(self.tokens@),
            diagnostic: match self.diagnostic {
                Some(d) => Some(d@),
                None => None,
            },
        }
    }
}

/// How many characters of `line` stand at or after offset `from`.
pub open spec fn unread(line: Seq<char>, from: int) -> nat {
    if from < line.len() {
        (line.len() - from) as nat
    } else {
        0
    }
}

/// The scan of line `row` from offset `from` on. Blanks separate lexemes and
/// yield nothing. The first character that is neither blank nor the start of
/// a lexeme ends the scan with a diagnostic; the tokens before it are kept.
pub open spec fn scan_from(line: Seq<char>, row: int, from: int) -> LineScanView
    decreases unread(line, from),
{
    if from < 0 || from >= line.len() {
        LineScanView { tokens: Seq::empty(), diagnostic: None }
    } else if is_blank(line[from]) {
        scan_from(line, row, from + 1)
    } else if starts_lexeme(line[from]) {
        let rest = scan_from(line, row, lexeme_end(line, from));
        LineScanView {
            tokens: seq![token_at(line, row, from)] + rest.tokens,
            diagnostic: rest.diagnostic,
        }
    } else {
        LineScanView {
            tokens: Seq::empty(),
            diagnostic: Some(unrecognized_at(line, row, from)),
        }
    }
}

/// The scan of the whole of line `row`.
pub open spec fn line_scan(line: Seq<char>, row: int) -> LineScanView {
    scan_from(line, row, 0)
}

fn word_run_end(line: &Vec<char>, from: usize) -> (end: usize)
    requires
        from <= line@.len(),
    ensures
        end == from + word_run(line@, from as int),
        end <= line@.len(),
{
    let len = line.len();
    let mut i: usize = from;
    while i < len && is_word_part_char(line[i])
        invariant
            from <= i <= len,
            len == line@.len(),
            i + word_run(line@, i as int) == from + word_run(line@, from as int),
        decreases len - i,
    {
        i += 1;
    }
    i
}

fn digit_run_end(line: &Vec<char>, from: usize) -> (end: usize)
    requires
        from <= line@.len(),
    ensures
        end == from + digit_run(line@, from as int),
        end <= line@.len(),
{
    let len = line.len();
    let mut i: usize = from;
    while i < len && is_digit_char(line[i])
        invariant
            from <= i <= len,
            len == line@.len(),
            i + digit_run(line@, i as int) == from + digit_run(line@, from as int),
        decreases len - i,
    {
        i += 1;
    }
    i
}

/// Classifies a lexeme whose first character is `first`.
fn classify(lexeme: &str, first: char) -> (kind: TokenKind)
    requires
        lexeme@.len() > 0,
        lexeme@[0] == first,
    ensures
        kind == lexeme_kind(lexeme@),
{
    if is_word_start_char(first) {
        if is_keyword_text(lexeme) {
            TokenKind::Keyword
        } else {
            TokenKind::Identifier
        }
    } else if is_digit_char(first) {
        TokenKind::NumberLiteral
    } else if is_operator_char(first) {
        TokenKind::Operator
    } else {
        TokenKind::Punctuation
    }
}

/// Scans one line. `index` is the line's number counted from 0. The result
/// depends on nothing but the two arguments.
pub fn scan_line(line: &str, index: usize) -> (scan: LineScan)
    requires
        index < usize::MAX,
    ensures
        scan@ == line_scan(line@, index as int),
{
    let chars = chars_of(line);
    let len = chars.len();
    let mut tokens: Vec<Token> = Vec::new();
    let mut i: usize = 0;
    while i < len
        invariant
            i <= len,
            len == line@.len(),
            chars@ == line@,
            index < usize::MAX,
            line_scan(line@, index as int).tokens == token_views(tokens@) + scan_from(
                line@,
                index as int,
                i as int,
            ).tokens,
            line_scan(line@, index as int).diagnostic == scan_from(
                line@,
                index as int,
                i as int,
            ).diagnostic,
        decreases len - i,
    {
        let c = chars[i];
        if is_blank_char(c) {
            i += 1;
        } else if is_word_start_char(c) || is_digit_char(c) || is_operator_char(c)
            || is_punctuation_char(c) {
            let end = if is_word_start_char(c) {
                word_run_end(&chars, i + 1)
            } else if is_digit_char(c) {
                digit_run_end(&chars, i + 1)
            } else {
                i + 1
            };
            let lexeme = string_of(&chars, i, end);
            let kind = classify(lexeme.as_str(), c);
            let position = Position { line: index + 1, column: i + 1 };
            let ghost before = token_views(tokens@);
            tokens.push(Token { kind, lexeme, position });
            proof {
                assert(token_views(tokens@) =~= before.push(token_at(line@, index as int, i as int)));
                assert(before.push(token_at(line@, index as int, i as int)) + scan_from(
                    line@,
                    index as int,
                    end as int,
                ).tokens =~= before + (seq![token_at(line@, index as int, i as int)] + scan_from(
                    line@,
                    index as int,
                    end as int,
                ).tokens));
            }
            i = end;
        } else {
            let mut message = String::from_str("unrecognized character ");
            message.push(c);
            let diagnostic = Diagnostic {
                severity: Severity::Error,
                message,
                position: Position { line: index + 1, column: i + 1 },
                phase: Phase::Lexical,
            };
            proof {
                assert("unrecognized character "@.push(c) =~= unrecognized_message(c));
                assert(token_views(tokens@) + Seq::<TokenView>::empty() =~= token_views(tokens@));
            }
            return LineScan { tokens, diagnostic: Some(diagnostic) };
        }
    }
    proof {
        assert(token_views(tokens@) + Seq::<TokenView>::empty() =~= token_views(tokens@));
    }
    LineScan { tokens, diagnostic: None }
}

/// What a line yields when its scan did not come to an end: no token, and
/// one diagnostic at the line's first column.
pub open spec fn failed_scan(row: int) -> LineScanView {
    LineScanView {
        tokens: Seq::empty(),
        diagnostic: Some(
            DiagnosticView {
                severity: Severity::Error,
                message: "line could not be scanned"@,
                position: position_at(row, 0),
                phase: Phase::Lexical,
            },
        ),
    }
}

/// The result that stands in for line `index` when the task that was to scan
/// it broke off: the failure stays with that line and the other lines are
/// not touched by it.
pub fn failed_line(index: usize) -> (scan: LineScan)
    requires
        index < usize::MAX,
    ensures
        scan@ == failed_scan(index as int),
{
    let diagnostic = Diagnostic {
        severity: Severity::Error,
        message: String::from_str("line could not be scanned"),
        position: Position { line: index + 1, column: 1 },
        phase: Phase::Lexical,
    };
    let scan = LineScan { tokens: Vec::new(), diagnostic: Some(diagnostic) };
    proof {
        assert(scan@.tokens =~= Seq::empty());
    }
    scan
}

} // verus!
