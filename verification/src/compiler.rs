//! The compilation session: one source, held either as text or as a syntax
//! tree, and the diagnostics that scanning it has produced so far.

use vstd::prelude::*;
use vstd::string::*;
use crate::coordinator::{
    empty_output, line_views, scan_result, scan_sequential, split_lines, split_lines_spec,
    ScanOutput, ScanOutputView,
};
use crate::scanner::{is_blank, is_blank_char};
use crate::text::{chars_of, string_of};
use crate::token::{diagnostic_views, token_views, Diagnostic, DiagnosticView, Position, Token};

verus! {

/// The extension that a source file must have.
pub const EXT: &'static str = "src";

/// A node of a syntax tree.
#[derive(Debug, PartialEq, Eq)]
pub struct Ast {
    pub label: String,
    pub children: Vec<Ast>,
}

/// The source of a session: text or a syntax tree, never both and never
/// neither.
#[derive(Debug, PartialEq, Eq)]
pub enum SourceRepresentation {
    Text(String),
    SyntaxTree(Box<Ast>),
}

/// Why a session could not be made, or why it failed.
#[derive(Debug, PartialEq, Eq)]
pub enum CompileError {
    /// The path does not end in the required extension.
    InvalidExtension,
    /// The file could not be read; `reason` says why.
    Io { reason: String },
    /// Scanning met text that it could not classify.
    LexError { position: Position, message: String },
    /// Kept for the phases that follow scanning.
    AstError,
}

/// One compilation of one source.
#[derive(Debug)]
pub struct Compiler {
    pub input: String,
    pub output: Option<String>,
    pub source: SourceRepresentation,
    pub diagnostics: Vec<Diagnostic>,
    pub tokens: Vec<Token>,
}

/// `input` as seen from the directory `base`: an input that begins at the
/// root stands for itself; any other is appended to the base, after a
/// separator where the base does not end in one.
pub open spec fn resolve_spec(base: Seq<char>, input: Seq<char>) -> Seq<char> {
    if input.len() > 0 && input[0] == '/' {
        input
    } else if base.len() > 0 && base.last() != '/' {
        base.push('/') + input
    } else {
        base + input
    }
}

/// Where the final component of `path[..upto]` ends (exclusive). Separators
/// at the end are passed over, and so is a component that is a lone dot. The
/// result is 0 where nothing else is left.
pub open spec fn final_end(path: Seq<char>, upto: int) -> int
    decreases upto,
{
    if upto <= 0 || upto > path.len() {
        0
    } else if path[upto - 1] == '/' {
        final_end(path, upto - 1)
    } else if path[upto - 1] == '.' && (upto == 1 || path[upto - 2] == '/') {
        final_end(path, upto - 1)
    } else {
        upto
    }
}

/// Where the component that ends at `end` begins: after the separator before
/// it, or at the start of the path.
pub open spec fn component_start(path: Seq<char>, end: int) -> int
    decreases end,
{
    if 0 < end <= path.len() && path[end - 1] != '/' {
        component_start(path, end - 1)
    } else {
        end
    }
}

/// The final component of `path`; empty where the path has none.
pub open spec fn final_component(path: Seq<char>) -> Seq<char> {
    let end = final_end(path, path.len() as int);
    path.subrange(component_start(path, end), end)
}

/// The offset of the last dot of `name[..upto]`, or -1 where it holds none.
pub open spec fn last_dot(name: Seq<char>, upto: int) -> int
    decreases upto,
{
    if upto <= 0 || upto > name.len() {
        -1
    } else if name[upto - 1] == '.' {
        upto - 1
    } else {
        last_dot(name, upto - 1)
    }
}

/// The extension of a file name: what follows its last dot. A name without
/// a dot has none, nor has one whose only dot is its first character, nor
/// has the name `..`.
pub open spec fn name_extension(name: Seq<char>) -> Option<Seq<char>> {
    let dot = last_dot(name, name.len() as int);
    if dot <= 0 || name =~= seq!['.', '.'] {
        None
    } else {
        Some(name.subrange(dot + 1, name.len() as int))
    }
}

/// The extension of `path`: that of its final component.
pub open spec fn extension_spec(path: Seq<char>) -> Option<Seq<char>> {
    name_extension(final_component(path))
}

/// Whether `path` has the required extension.
pub open spec fn has_required_extension(path: Seq<char>) -> bool {
    extension_spec(path) == Some(EXT@)
}

/// The length of `text[..upto]` without the blanks at its end.
pub open spec fn trimmed_len(text: Seq<char>, upto: int) -> int
    decreases upto,
{
    if 0 < upto <= text.len() && is_blank(text[upto - 1]) {
        trimmed_len(text, upto - 1)
    } else {
        upto
    }
}

/// `text` without the blanks at its end.
pub open spec fn trimmed(text: Seq<char>) -> Seq<char> {
    text.subrange(0, trimmed_len(text, text.len() as int))
}

/// A path as seen from a base directory.
pub fn resolve(base: &str, input: &str) -> (path: String)
    ensures
        path@ == resolve_spec(base@, input@),
{
    let first = chars_of(input);
    if first.len() > 0 && first[0] == '/' {
        return String::from_str(input);
    }
    let mut path = String::from_str(base);
    let held = chars_of(base);
    if held.len() > 0 && held[held.len() - 1] != '/' {
        path.push('/');
    }
    path.append(input);
    path
}

/// The extension of a path.
pub fn extension_of(path: &str) -> (extension: Option<String>)
    ensures
        match extension {
            Some(e) => extension_spec(path@) == Some(e@),
            None => extension_spec(path@) is None,
        },
{
    let chars = chars_of(path);
    let len = chars.len();
    let mut end: usize = len;
    while end > 0 && (chars[end - 1] == '/' || (chars[end - 1] == '.' && (end == 1 || chars[end
        - 2] == '/')))
        invariant
            end <= len,
            len == chars@.len(),
            final_end(chars@, end as int) == final_end(chars@, len as int),
        decreases end,
    {
        end -= 1;
    }
    let mut start: usize = end;
    while start > 0 && chars[start - 1] != '/'
        invariant
            start <= end <= len,
            len == chars@.len(),
            component_start(chars@, start as int) == component_start(chars@, end as int),
        decreases start,
    {
        start -= 1;
    }
    let ghost name = chars@.subrange(start as int, end as int);
    assert(name == final_component(path@));
    if end - start == 2 && chars[start] == '.' && chars[start + 1] == '.' {
        proof {
            assert(name =~= seq!['.', '.']);
        }
        return None;
    }
    let mut dot: usize = end;
    while dot > start && chars[dot - 1] != '.'
        invariant
            start <= dot <= end <= len,
            len == chars@.len(),
            name == chars@.subrange(start as int, end as int),
            last_dot(name, dot - start) == last_dot(name, end - start),
        decreases dot,
    {
        proof {
            assert(name[dot - start - 1] == chars@[dot - 1]);
        }
        dot -= 1;
    }
    proof {
        if dot > start {
            assert(name[dot - start - 1] == chars@[dot - 1]);
        }
        if name =~= seq!['.', '.'] {
            assert(name[0] == chars@[start as int]);
            assert(name[1] == chars@[start + 1]);
        }
    }
    if dot == start || dot - 1 == start {
        None
    } else {
        proof {
            assert(name.subrange(dot - start, name.len() as int) =~= chars@.subrange(
                dot as int,
                end as int,
            ));
        }
        Some(string_of(&chars, dot, end))
    }
}

/// Removes the blanks at the end of a text; blanks elsewhere stay.
pub fn trim_end(text: &str) -> (kept: String)
    ensures
        kept@ == trimmed(text@),
{
    let chars = chars_of(text);
    let len = chars.len();
    let mut end: usize = len;
    while end > 0 && is_blank_char(chars[end - 1])
        invariant
            end <= len,
            len == text@.len(),
            chars@ == text@,
            trimmed_len(text@, end as int) == trimmed_len(text@, len as int),
        decreases end,
    {
        end -= 1;
    }
    string_of(&chars, 0, end)
}

impl SourceRepresentation {
    /// What scanning this source yields: the scan of the text, or nothing at
    /// all for a syntax tree.
    pub open spec fn scanned(&self) -> ScanOutputView {
        match self {
            SourceRepresentation::Text(text) => scan_result(text@),
            SourceRepresentation::SyntaxTree(_) => empty_output(),
        }
    }
}

/// Whether `verdict` is what a session with these diagnostics reports:
/// success when there are none, else the first of them as a lexical error.
pub open spec fn verdict_of(
    verdict: Result<(), CompileError>,
    diagnostics: Seq<DiagnosticView>,
) -> bool {
    match verdict {
        Ok(_) => diagnostics.len() == 0,
        Err(CompileError::LexError { position, message }) => {
            &&& diagnostics.len() > 0
            &&& position == diagnostics[0].position
            &&& message@ == diagnostics[0].message
        },
        Err(_) => false,
    }
}

impl Compiler {
    /// A session on the file that `input` names as seen from the directory
    /// `base`. The caller has read the file: `contents` holds what it held,
    /// or the reason why reading failed. The extension is judged first, on
    /// the path as seen from the base.
    pub fn new(
        base: &str,
        input: String,
        output: Option<String>,
        contents: Result<String, String>,
    ) -> (made: Result<Compiler, CompileError>)
        ensures
            !has_required_extension(resolve_spec(base@, input@)) ==> made matches Err(
                CompileError::InvalidExtension,
            ),
            has_required_extension(resolve_spec(base@, input@)) ==> match contents {
                Err(why) => made matches Err(CompileError::Io { reason }) && reason@ == why@,
                Ok(text) => made matches Ok(session) && {
                    &&& session.input@ == input@
                    &&& session.output == output
                    &&& session.source matches SourceRepresentation::Text(held) && held@
                        == trimmed(text@)
                    &&& session.diagnostics@.len() == 0
                    &&& session.tokens@.len() == 0
                },
            },
    {
        let path = resolve(base, input.as_str());
        let accepted = match extension_of(path.as_str()) {
            Some(extension) => extension == String::from_str(EXT),
            None => false,
        };
        if !accepted {
            return Err(CompileError::InvalidExtension);
        }
        match contents {
            Err(why) => Err(CompileError::Io { reason: why }),
            Ok(text) => Ok(
                Compiler {
                    input,
                    output,
                    source: SourceRepresentation::Text(trim_end(text.as_str())),
                    diagnostics: Vec::new(),
                    tokens: Vec::new(),
                },
            ),
        }
    }

    /// A session on a text that is already in memory. The text is taken as
    /// it is.
    pub fn new_using_str(source: String, contents: String) -> (session: Compiler)
        ensures
            session.input@ == source@,
            session.output is None,
            session.source matches SourceRepresentation::Text(held) && held@ == contents@,
            session.diagnostics@.len() == 0,
            session.tokens@.len() == 0,
    {
        Compiler {
            input: source,
            output: None,
            source: SourceRepresentation::Text(contents),
            diagnostics: Vec::new(),
            tokens: Vec::new(),
        }
    }

    /// A session on a syntax tree. It holds no text.
    pub fn new_using_ast(source: String, ast: Box<Ast>) -> (session: Compiler)
        ensures
            session.input@ == source@,
            session.output is None,
            session.source == SourceRepresentation::SyntaxTree(ast),
            session.diagnostics@.len() == 0,
            session.tokens@.len() == 0,
    {
        Compiler {
            input: source,
            output: None,
            source: SourceRepresentation::SyntaxTree(ast),
            diagnostics: Vec::new(),
            tokens: Vec::new(),
        }
    }

    /// What the session reports with the diagnostics it holds.
    pub fn verdict(&self) -> (verdict: Result<(), CompileError>)
        ensures
            verdict_of(verdict, diagnostic_views(self.diagnostics@)),
    {
        if self.diagnostics.len() == 0 {
            Ok(())
        } else {
            let first = &self.diagnostics[0];
            Err(CompileError::LexError { position: first.position, message: first.message.clone() })
        }
    }

    /// The lines that a scan of this session has to cover: those of its
    /// text, or none at all where it holds a syntax tree.
    pub fn lines(&self) -> (lines: Vec<String>)
        ensures
            line_views(lines@) == match self.source {
                SourceRepresentation::Text(text) => split_lines_spec(text@),
                SourceRepresentation::SyntaxTree(_) => Seq::<Seq<char>>::empty(),
            },
    {
        match &self.source {
            SourceRepresentation::Text(text) => split_lines(text.as_str()),
            SourceRepresentation::SyntaxTree(_) => {
                let lines: Vec<String> = Vec::new();
                proof {
                    assert(line_views(lines@) =~= Seq::<Seq<char>>::empty());
                }
                lines
            },
        }
    }

    /// Takes in the outcome of a scan of the session's text that was made
    /// elsewhere: its diagnostics are appended to those the session holds,
    /// and its token stream is kept in place of the one held if `keep_tokens`
    /// says so. A session on a syntax tree takes nothing in and stays as it
    /// is.
    pub fn accept(&mut self, outcome: ScanOutput, keep_tokens: bool) -> (verdict: Result<
        (),
        CompileError,
    >)
        ensures
            final(self).input == old(self).input,
            final(self).output == old(self).output,
            final(self).source == old(self).source,
            match old(self).source {
                SourceRepresentation::Text(_) => {
                    &&& diagnostic_views(final(self).diagnostics@) == diagnostic_views(
                        old(self).diagnostics@,
                    ) + outcome@.diagnostics
                    &&& keep_tokens ==> token_views(final(self).tokens@) == outcome@.tokens
                    &&& !keep_tokens ==> final(self).tokens == old(self).tokens
                },
                SourceRepresentation::SyntaxTree(_) => {
                    &&& final(self).diagnostics == old(self).diagnostics
                    &&& final(self).tokens == old(self).tokens
                },
            },
            verdict_of(verdict, diagnostic_views(final(self).diagnostics@)),
    {
        let scanned = match &self.source {
            SourceRepresentation::Text(_) => true,
            SourceRepresentation::SyntaxTree(_) => false,
        };
        if scanned {
            let mut outcome = outcome;
            let ghost before = self.diagnostics@;
            let ghost added = outcome.diagnostics@;
            self.diagnostics.append(&mut outcome.diagnostics);
            if keep_tokens {
                self.tokens = outcome.tokens;
            }
            proof {
                assert(diagnostic_views(self.diagnostics@) =~= diagnostic_views(before)
                    + diagnostic_views(added));
            }
        }
        self.verdict()
    }

    /// Scans the source, or does nothing of the kind where the source is a
    /// syntax tree.
    fn scan(&self) -> (outcome: Option<ScanOutput>)
        ensures
            match self.source {
                SourceRepresentation::Text(text) => outcome matches Some(out) && out@
                    == scan_result(text@),
                SourceRepresentation::SyntaxTree(_) => outcome is None,
            },
    {
        match &self.source {
            SourceRepresentation::Text(text) => Some(scan_sequential(text.as_str())),
            SourceRepresentation::SyntaxTree(_) => None,
        }
    }

    /// Scans the source and keeps the token stream. Every line is scanned,
    /// whatever the others held; the diagnostics are appended to those the
    /// session has, in line order. A syntax tree is not scanned: the session
    /// stays as it is.
    pub fn compile(&mut self) -> (verdict: Result<(), CompileError>)
        ensures
            final(self).input == old(self).input,
            final(self).output == old(self).output,
            final(self).source == old(self).source,
            diagnostic_views(final(self).diagnostics@) == diagnostic_views(old(self).diagnostics@)
                + old(self).source.scanned().diagnostics,
            match old(self).source {
                SourceRepresentation::Text(_) => token_views(final(self).tokens@) == old(
                    self,
                ).source.scanned().tokens,
                SourceRepresentation::SyntaxTree(_) => final(self).tokens == old(self).tokens,
            },
            verdict_of(verdict, diagnostic_views(final(self).diagnostics@)),
    {
        match self.scan() {
            Some(outcome) => self.accept(outcome, true),
            None => {
                proof {
                    assert(diagnostic_views(self.diagnostics@) + Seq::<DiagnosticView>::empty()
                        =~= diagnostic_views(self.diagnostics@));
                }
                self.verdict()
            },
        }
    }

    /// Scans the source as `compile` does, without keeping the token stream.
    pub fn interpret(&mut self) -> (verdict: Result<(), CompileError>)
        ensures
            final(self).input == old(self).input,
            final(self).output == old(self).output,
            final(self).source == old(self).source,
            final(self).tokens == old(self).tokens,
            diagnostic_views(final(self).diagnostics@) == diagnostic_views(old(self).diagnostics@)
                + old(self).source.scanned().diagnostics,
            verdict_of(verdict, diagnostic_views(final(self).diagnostics@)),
    {
        match self.scan() {
            Some(outcome) => self.accept(outcome, false),
            None => {
                proof {
                    assert(diagnostic_views(self.diagnostics@) + Seq::<DiagnosticView>::empty()
                        =~= diagnostic_views(self.diagnostics@));
                }
                self.verdict()
            },
        }
    }
}

} // verus!
