//! The scan coordinator: splits a text into lines, has each line scanned on
//! its own, and joins the per-line results in ascending line order, however
//! they were produced and in whatever order they arrived.

use vstd::prelude::*;
use crate::laws::{law_lines_ascend, lines_ascend};
use crate::text::{chars_of, string_of};
use crate::scanner::{line_scan, scan_line, unread, LineScan, LineScanView};
use crate::token::{
    diagnostic_views, token_views, Diagnostic, DiagnosticView, Token, TokenView,
};

verus! {

/// How many characters stand between offset `from` and the next line break
/// (or the end of the text).
pub open spec fn line_len(text: Seq<char>, from: int) -> nat
    decreases text.len() - from,
{
    if 0 <= from < text.len() && text[from] != '\n' {
        1 + line_len(text, from + 1)
    } else {
        0
    }
}

/// The lines of `text` from offset `from` on. A line break ends a line and
/// belongs to none; what follows the last line break is a line too, even
/// when it is empty.
pub open spec fn lines_from(text: Seq<char>, from: int) -> Seq<Seq<char>>
    decreases unread(text, from),
{
    let end = from + line_len(text, from);
    if end >= text.len() {
        seq![text.subrange(from, end)]
    } else {
        seq![text.subrange(from, end)] + lines_from(text, end + 1)
    }
}

/// The lines of `text`, in order. Every text has at least one line.
pub open spec fn split_lines_spec(text: Seq<char>) -> Seq<Seq<char>> {
    lines_from(text, 0)
}

/// The contents of a sequence of strings.
pub open spec fn line_views(lines: Seq<String>) -> Seq<Seq<char>> {
    lines.map_values(|l: String| l@)
}

fn line_break(text: &Vec<char>, from: usize) -> (end: usize)
    requires
        from <= text@.len(),
    ensures
        end == from + line_len(text@, from as int),
        end <= text@.len(),
{
    let len = text.len();
    let mut i: usize = from;
    while i < len && text[i] != '\n'
        invariant
            from <= i <= len,
            len == text@.len(),
            i + line_len(text@, i as int) == from + line_len(text@, from as int),
        decreases len - i,
    {
        i += 1;
    }
    i
}

/// Splits a text at its line breaks.
pub fn split_lines(text: &str) -> (lines: Vec<String>)
    ensures
        line_views(lines@) == split_lines_spec(text@),
{
    let chars = chars_of(text);
    let len = chars.len();
    let mut lines: Vec<String> = Vec::new();
    let mut start: usize = 0;
    loop
        invariant
            start <= len,
            len == text@.len(),
            chars@ == text@,
            split_lines_spec(text@) == line_views(lines@) + lines_from(text@, start as int),
        decreases len - start,
    {
        let end = line_break(&chars, start);
        let ghost before = line_views(lines@);
        lines.push(string_of(&chars, start, end));
        proof {
            let line = text@.subrange(start as int, end as int);
            assert(line_views(lines@) =~= before.push(line));
            assert(before.push(line) + lines_from(text@, end + 1) =~= before + (seq![line]
                + lines_from(text@, end + 1)));
            assert(before.push(line) =~= before + seq![line]);
        }
        if end >= len {
            return lines;
        }
        start = end + 1;
    }
}

/// What scanning a text yields: one token stream and one list of
/// diagnostics, both in line order.
#[derive(Debug, PartialEq, Eq)]
pub struct ScanOutput {
    pub tokens: Vec<Token>,
    pub diagnostics: Vec<Diagnostic>,
}

/// The mathematical value of a [`ScanOutput`].
pub ghost struct ScanOutputView {
    pub tokens: Seq<TokenView>,
    pub diagnostics: Seq<DiagnosticView>,
}

impl View for ScanOutput {
    type V = ScanOutputView;

    open spec fn view(&self) -> ScanOutputView {
        ScanOutputView {
            tokens: token_views(self.tokens@),
            diagnostics: diagnostic_views(self.diagnostics@),
        }
    }
}

/// The output that holds no token and no diagnostic.
pub open spec fn empty_output() -> ScanOutputView {
    ScanOutputView { tokens: Seq::empty(), diagnostics: Seq::empty() }
}

/// The diagnostic of a line's scan as a list of none or one.
pub open spec fn diagnostics_of(scan: LineScanView) -> Seq<DiagnosticView> {
    match scan.diagnostic {
        Some(d) => seq![d],
        None => Seq::empty(),
    }
}

/// `so_far` with the result of the next line appended.
pub open spec fn joined(so_far: ScanOutputView, scan: LineScanView) -> ScanOutputView {
    ScanOutputView {
        tokens: so_far.tokens + scan.tokens,
        diagnostics: so_far.diagnostics + diagnostics_of(scan),
    }
}

/// The results of the first `upto` lines, joined in ascending line order.
pub open spec fn merged_upto(scans: Seq<LineScanView>, upto: int) -> ScanOutputView
    decreases upto,
{
    if upto <= 0 {
        empty_output()
    } else {
        joined(merged_upto(scans, upto - 1), scans[upto - 1])
    }
}

/// The results of all lines, joined in ascending line order.
pub open spec fn merged(scans: Seq<LineScanView>) -> ScanOutputView {
    merged_upto(scans, scans.len() as int)
}

/// The scan of each line, at the line's own index.
pub open spec fn line_scans(lines: Seq<Seq<char>>) -> Seq<LineScanView> {
    Seq::new(lines.len(), |i: int| line_scan(lines[i], i))
}

/// What scanning `text` yields.
pub open spec fn scan_result(text: Seq<char>) -> ScanOutputView {
    merged(line_scans(split_lines_spec(text)))
}

impl ScanOutput {
    /// An output with no tokens and no diagnostics.
    pub fn new() -> (out: ScanOutput)
        ensures
            out@ == empty_output(),
    {
        let out = ScanOutput { tokens: Vec::new(), diagnostics: Vec::new() };
        proof {
            assert(out@.tokens =~= Seq::empty());
            assert(out@.diagnostics =~= Seq::empty());
        }
        out
    }

    /// Appends the result of the next line.
    pub fn absorb(&mut self, scan: LineScan)
        ensures
            final(self)@ == joined(old(self)@, scan@),
    {
        let mut scan = scan;
        let ghost tokens_before = self.tokens@;
        let ghost diagnostics_before = self.diagnostics@;
        let ghost added = scan.tokens@;
        self.tokens.append(&mut scan.tokens);
        match scan.diagnostic {
            Some(d) => {
                self.diagnostics.push(d);
                proof {
                    assert(diagnostic_views(self.diagnostics@) =~= diagnostic_views(
                        diagnostics_before,
                    ) + seq![d@]);
                }
            },
            None => {
                proof {
                    assert(diagnostic_views(self.diagnostics@) =~= diagnostic_views(
                        diagnostics_before,
                    ) + Seq::<DiagnosticView>::empty());
                }
            },
        }
        proof {
            assert(token_views(self.tokens@) =~= token_views(tokens_before) + token_views(added));
        }
    }
}

/// Scans a text line by line, in line order.
pub fn scan_sequential(text: &str) -> (out: ScanOutput)
    ensures
        out@ == scan_result(text@),
        lines_ascend(out@.tokens),
{
    let lines = split_lines(text);
    let count = lines.len();
    let mut out = ScanOutput::new();
    let mut i: usize = 0;
    while i < count
        invariant
            i <= count,
            count == lines@.len(),
            line_views(lines@) == split_lines_spec(text@),
            out@ == merged_upto(line_scans(split_lines_spec(text@)), i as int),
        decreases count - i,
    {
        let scan = scan_line(lines[i].as_str(), i);
        out.absorb(scan);
        i += 1;
    }
    proof {
        assert(line_views(lines@).len() == lines@.len());
        law_lines_ascend(text@);
    }
    out
}

/// The value of one slot of a board.
pub open spec fn slot_view(slot: Option<LineScan>) -> Option<LineScanView> {
    match slot {
        Some(scan) => Some(scan@),
        None => None,
    }
}

/// Whether every slot holds a result.
pub open spec fn all_reported(slots: Seq<Option<LineScanView>>) -> bool {
    forall|i: int| 0 <= i < slots.len() ==> (#[trigger] slots[i]) is Some
}

/// The results that the slots hold, at their indices.
pub open spec fn reported_scans(slots: Seq<Option<LineScanView>>) -> Seq<LineScanView> {
    Seq::new(slots.len(), |i: int| slots[i].unwrap())
}

/// The collection point of per-line results: one slot for each line,
/// addressed by the line's index. A result goes into its own slot whenever it
/// arrives, so the order of arrival leaves no trace.
pub struct ScanBoard {
    slots: Vec<Option<LineScan>>,
}

impl View for ScanBoard {
    type V = Seq<Option<LineScanView>>;

    closed spec fn view(&self) -> Seq<Option<LineScanView>> {
        self.slots@.map_values(|slot: Option<LineScan>| slot_view(slot))
    }
}

impl ScanBoard {
    /// A board of `lines` empty slots.
    pub fn new(lines: usize) -> (board: ScanBoard)
        ensures
            board@ == Seq::new(lines as nat, |i: int| None::<LineScanView>),
    {
        let mut slots: Vec<Option<LineScan>> = Vec::new();
        let mut i: usize = 0;
        while i < lines
            invariant
                i <= lines,
                slots@.len() == i,
                forall|j: int| 0 <= j < i ==> (#[trigger] slots@[j]) is None,
            decreases lines - i,
        {
            slots.push(None);
            i += 1;
        }
        let board = ScanBoard { slots };
        proof {
            assert(board@ =~= Seq::new(lines as nat, |i: int| None::<LineScanView>));
        }
        board
    }

    /// The number of slots.
    pub fn len(&self) -> (n: usize)
        ensures
            n == self@.len(),
    {
        self.slots.len()
    }

    /// Whether the board has a slot for line `index` that is still empty.
    pub fn awaits(&self, index: usize) -> (waiting: bool)
        ensures
            waiting == (index < self@.len() && self@[index as int] is None),
    {
        index < self.slots.len() && self.slots[index].is_none()
    }

    /// Records the result of line `index`. A result for a line that the board
    /// has no slot for, or that has reported already, is turned away and the
    /// board stays as it was.
    pub fn report(&mut self, index: usize, scan: LineScan) -> (accepted: bool)
        ensures
            accepted == (index < old(self)@.len() && old(self)@[index as int] is None),
            accepted ==> final(self)@ == old(self)@.update(index as int, Some(scan@)),
            !accepted ==> final(self)@ == old(self)@,
    {
        if index < self.slots.len() {
            if self.slots[index].is_none() {
                self.slots.set(index, Some(scan));
                proof {
                    assert(self@ =~= old(self)@.update(index as int, Some(scan@)));
                }
                return true;
            }
        }
        false
    }

    /// Whether every line has reported.
    pub fn is_complete(&self) -> (complete: bool)
        ensures
            complete == all_reported(self@),
    {
        let mut i: usize = 0;
        while i < self.slots.len()
            invariant
                i <= self.slots@.len(),
                forall|j: int| 0 <= j < i ==> (#[trigger] self@[j]) is Some,
            decreases self.slots@.len() - i,
        {
            if self.slots[i].is_none() {
                proof {
                    assert(self@[i as int] is None);
                }
                return false;
            }
            i += 1;
        }
        true
    }

    /// Joins the results in ascending line order, once every line has
    /// reported; before that there is nothing to hand out.
    pub fn assemble(self) -> (out: Option<ScanOutput>)
        ensures
            out is Some <==> all_reported(self@),
            out is Some ==> out.unwrap()@ == merged(reported_scans(self@)),
    {
        if !self.is_complete() {
            return None;
        }
        let ghost scans = reported_scans(self@);
        let mut stack = reversed(self.slots);
        let count = stack.len();
        let mut out = ScanOutput::new();
        let mut i: usize = 0;
        while i < count
            invariant
                i <= count,
                count == scans.len(),
                stack@.len() == count - i,
                forall|j: int|
                    0 <= j < stack@.len() ==> slot_view(#[trigger] stack@[j]) == Some(
                        scans[count - 1 - j],
                    ),
                out@ == merged_upto(scans, i as int),
            decreases count - i,
        {
            let ghost before = stack@;
            let top = stack.pop();
            match top {
                Some(Some(scan)) => {
                    out.absorb(scan);
                },
                _ => {
                    proof {
                        assert(slot_view(before[count - i - 1]) is Some);
                        assert(false);
                    }
                },
            }
            i += 1;
        }
        Some(out)
    }
}

/// The same slots in the opposite order.
fn reversed(slots: Vec<Option<LineScan>>) -> (turned: Vec<Option<LineScan>>)
    ensures
        turned@.len() == slots@.len(),
        forall|j: int|
            0 <= j < turned@.len() ==> (#[trigger] turned@[j]) == slots@[slots@.len() - 1 - j],
{
    let mut source = slots;
    let mut turned: Vec<Option<LineScan>> = Vec::new();
    while source.len() > 0
        invariant
            source@.len() + turned@.len() == slots@.len(),
            source@ == slots@.subrange(0, source@.len() as int),
            forall|j: int|
                0 <= j < turned@.len() ==> (#[trigger] turned@[j]) == slots@[slots@.len() - 1 - j],
        decreases source@.len(),
    {
        match source.pop() {
            Some(slot) => {
                turned.push(slot);
            },
            None => {},
        }
    }
    turned
}

/// Whether every slot that is filled holds the scan of its own line.
pub open spec fn holds_own_scans(slots: Seq<Option<LineScanView>>, lines: Seq<Seq<char>>) -> bool {
    &&& slots.len() == lines.len()
    &&& forall|i: int|
        0 <= i < slots.len() && (#[trigger] slots[i]) is Some ==> slots[i] == Some(
            line_scan(lines[i], i),
        )
}

/// Scans a text with the lines taken up in the order that `schedule` names
/// them by index, as when each line is a task of its own and the tasks end
/// in any order. An entry that names no line, or a line already scanned, is
/// passed over; lines that the schedule leaves out are scanned after it. Each
/// result is collected at its line's index, so the schedule leaves no trace
/// in the output.
pub fn scan_scheduled(text: &str, schedule: &Vec<usize>) -> (out: ScanOutput)
    ensures
        out@ == scan_result(text@),
        lines_ascend(out@.tokens),
{
    let lines = split_lines(text);
    let count = lines.len();
    let mut board = ScanBoard::new(count);
    let mut k: usize = 0;
    while k < schedule.len()
        invariant
            k <= schedule@.len(),
            count == lines@.len(),
            line_views(lines@) == split_lines_spec(text@),
            holds_own_scans(board@, split_lines_spec(text@)),
        decreases schedule@.len() - k,
    {
        let index = schedule[k];
        if board.awaits(index) {
            let scan = scan_line(lines[index].as_str(), index);
            board.report(index, scan);
        }
        k += 1;
    }
    let mut i: usize = 0;
    while i < count
        invariant
            i <= count,
            count == lines@.len(),
            line_views(lines@) == split_lines_spec(text@),
            holds_own_scans(board@, split_lines_spec(text@)),
            forall|j: int| 0 <= j < i ==> (#[trigger] board@[j]) is Some,
        decreases count - i,
    {
        if board.awaits(i) {
            let scan = scan_line(lines[i].as_str(), i);
            board.report(i, scan);
        }
        i += 1;
    }
    proof {
        assert(reported_scans(board@) =~= line_scans(split_lines_spec(text@)));
        assert(line_views(lines@).len() == lines@.len());
        law_lines_ascend(text@);
    }
    board.assemble().unwrap()
}

} // verus!
