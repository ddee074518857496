//! What holds of scanning as a whole, stated over the functions that say
//! what scanning yields.

use vstd::prelude::*;
use crate::compiler::SourceRepresentation;
use crate::coordinator::{
    all_reported, empty_output, line_scans, merged, merged_upto, reported_scans, scan_result,
    split_lines_spec,
};
use crate::scanner::{
    is_blank, lexeme_end, line_scan, scan_from, starts_lexeme, token_at, unread, LineScanView,
};
use crate::token::{DiagnosticView, TokenView};

verus! {

/// Whether the line numbers of a token stream never fall.
pub open spec fn lines_ascend(tokens: Seq<TokenView>) -> bool {
    forall|i: int, j: int|
        0 <= i <= j < tokens.len() ==> (#[trigger] tokens[i]).position.line <= (
        #[trigger] tokens[j]).position.line
}

/// Whether every token of a stream stands on line `line`.
pub open spec fn all_on_line(tokens: Seq<TokenView>, line: int) -> bool {
    forall|i: int| 0 <= i < tokens.len() ==> (#[trigger] tokens[i]).position.line == line
}

/// The output of a scan is the same however the per-line results arrived:
/// once every slot holds the scan of its own line, joining the slots gives
/// what scanning the text line by line gives.
pub proof fn law_arrival_order_leaves_no_trace(text: Seq<char>, slots: Seq<Option<LineScanView>>)
    requires
        slots.len() == split_lines_spec(text).len(),
        forall|i: int|
            0 <= i < slots.len() ==> (#[trigger] slots[i]) == Some(
                line_scan(split_lines_spec(text)[i], i),
            ),
    ensures
        all_reported(slots),
        merged(reported_scans(slots)) == scan_result(text),
{
    assert(reported_scans(slots) =~= line_scans(split_lines_spec(text)));
}

/// Results for two different lines may be recorded in either order: the
/// slots end up the same.
pub proof fn law_reports_commute(
    slots: Seq<Option<LineScanView>>,
    i: int,
    first: LineScanView,
    j: int,
    second: LineScanView,
)
    requires
        0 <= i < slots.len(),
        0 <= j < slots.len(),
        i != j,
    ensures
        slots.update(i, Some(first)).update(j, Some(second)) == slots.update(
            j,
            Some(second),
        ).update(i, Some(first)),
{
    assert(slots.update(i, Some(first)).update(j, Some(second)) =~= slots.update(
        j,
        Some(second),
    ).update(i, Some(first)));
}

/// Every token of line `row` carries the line number `row + 1`.
pub proof fn law_tokens_carry_their_line(line: Seq<char>, row: int, from: int)
    requires
        0 <= row < usize::MAX,
    ensures
        all_on_line(scan_from(line, row, from).tokens, row + 1),
    decreases unread(line, from),
{
    if from < 0 || from >= line.len() {
    } else if is_blank(line[from]) {
        law_tokens_carry_their_line(line, row, from + 1);
    } else if starts_lexeme(line[from]) {
        law_tokens_carry_their_line(line, row, lexeme_end(line, from));
    }
}

/// Whether the columns of a token stream rise from each token to the next.
pub open spec fn columns_rise(tokens: Seq<TokenView>) -> bool {
    forall|i: int, j: int|
        0 <= i < j < tokens.len() ==> (#[trigger] tokens[i]).position.column < (
        #[trigger] tokens[j]).position.column
}

/// Along the tokens of one line the columns rise, and a token found at or
/// after offset `from` has a column beyond `from`.
pub proof fn law_columns_rise(line: Seq<char>, row: int, from: int)
    requires
        0 <= from,
        line.len() <= usize::MAX,
    ensures
        columns_rise(scan_from(line, row, from).tokens),
        forall|i: int|
            0 <= i < scan_from(line, row, from).tokens.len() ==> (#[trigger] scan_from(
                line,
                row,
                from,
            ).tokens[i]).position.column > from,
    decreases unread(line, from),
{
    if from >= line.len() {
    } else if is_blank(line[from]) {
        law_columns_rise(line, row, from + 1);
    } else if starts_lexeme(line[from]) {
        let end = lexeme_end(line, from);
        law_columns_rise(line, row, end);
        let rest = scan_from(line, row, end).tokens;
        let all = scan_from(line, row, from).tokens;
        assert(all == seq![token_at(line, row, from)] + rest);
        assert forall|i: int| 0 <= i < all.len() implies (#[trigger] all[i]).position.column
            > from by {
            if i > 0 {
                assert(all[i] == rest[i - 1]);
            }
        }
        assert forall|i: int, j: int| 0 <= i < j < all.len() implies (
        #[trigger] all[i]).position.column < (#[trigger] all[j]).position.column by {
            assert(all[j] == rest[j - 1]);
            if i > 0 {
                assert(all[i] == rest[i - 1]);
            }
        }
    }
}

proof fn lemma_merged_lines_ascend(lines: Seq<Seq<char>>, upto: int)
    requires
        0 <= upto <= lines.len() <= usize::MAX,
    ensures
        lines_ascend(merged_upto(line_scans(lines), upto).tokens),
        forall|i: int|
            0 <= i < merged_upto(line_scans(lines), upto).tokens.len() ==> (
            #[trigger] merged_upto(line_scans(lines), upto).tokens[i]).position.line <= upto,
    decreases upto,
{
    if upto > 0 {
        lemma_merged_lines_ascend(lines, upto - 1);
        law_tokens_carry_their_line(lines[upto - 1], upto - 1, 0);
        let before = merged_upto(line_scans(lines), upto - 1).tokens;
        let added = line_scans(lines)[upto - 1].tokens;
        let all = merged_upto(line_scans(lines), upto).tokens;
        assert(all == before + added);
        assert forall|i: int| 0 <= i < all.len() implies (#[trigger] all[i]).position.line
            <= upto by {
            if i < before.len() {
                assert(all[i] == before[i]);
            } else {
                assert(all[i] == added[i - before.len()]);
            }
        }
        assert forall|i: int, j: int| 0 <= i <= j < all.len() implies (
        #[trigger] all[i]).position.line <= (#[trigger] all[j]).position.line by {
            if j < before.len() {
                assert(all[i] == before[i]);
                assert(all[j] == before[j]);
            } else if i < before.len() {
                assert(all[i] == before[i]);
                assert(all[j] == added[j - before.len()]);
            } else {
                assert(all[i] == added[i - before.len()]);
                assert(all[j] == added[j - before.len()]);
            }
        }
    }
}

/// Along the token stream of a text the line numbers never fall.
pub proof fn law_lines_ascend(text: Seq<char>)
    requires
        split_lines_spec(text).len() <= usize::MAX,
    ensures
        lines_ascend(scan_result(text).tokens),
{
    let lines = split_lines_spec(text);
    lemma_merged_lines_ascend(lines, lines.len() as int);
}

/// The test that a token stands on line `line`.
pub open spec fn stands_on(line: int) -> spec_fn(TokenView) -> bool {
    |t: TokenView| t.position.line == line
}

/// The tokens of a stream that stand on line `line`, in order.
pub open spec fn tokens_on_line(tokens: Seq<TokenView>, line: int) -> Seq<TokenView> {
    tokens.filter(stands_on(line))
}

proof fn lemma_own_line_keeps_all(tokens: Seq<TokenView>, line: int)
    requires
        all_on_line(tokens, line),
    ensures
        tokens_on_line(tokens, line) == tokens,
    decreases tokens.len(),
{
    reveal(Seq::filter);
    if tokens.len() > 0 {
        lemma_own_line_keeps_all(tokens.drop_last(), line);
        assert(tokens.drop_last().push(tokens.last()) =~= tokens);
    }
}

proof fn lemma_other_line_keeps_none(tokens: Seq<TokenView>, own: int, line: int)
    requires
        all_on_line(tokens, own),
        own != line,
    ensures
        tokens_on_line(tokens, line) == Seq::<TokenView>::empty(),
    decreases tokens.len(),
{
    reveal(Seq::filter);
    if tokens.len() > 0 {
        lemma_other_line_keeps_none(tokens.drop_last(), own, line);
    }
}

/// The tokens of the stream that stand on line `j + 1` are the tokens of
/// the scan of line `j`, once that line has been joined in.
pub proof fn law_stream_holds_each_line(lines: Seq<Seq<char>>, upto: int, j: int)
    requires
        0 <= upto <= lines.len() <= usize::MAX,
        0 <= j,
    ensures
        tokens_on_line(merged_upto(line_scans(lines), upto).tokens, j + 1) == if j < upto {
            line_scans(lines)[j].tokens
        } else {
            Seq::<TokenView>::empty()
        },
    decreases upto,
{
    reveal(Seq::filter);
    if upto > 0 {
        law_stream_holds_each_line(lines, upto - 1, j);
        law_tokens_carry_their_line(lines[upto - 1], upto - 1, 0);
        let before = merged_upto(line_scans(lines), upto - 1).tokens;
        let added = line_scans(lines)[upto - 1].tokens;
        assert(merged_upto(line_scans(lines), upto).tokens == before + added);
        Seq::filter_distributes_over_add(before, added, stands_on(j + 1));
        if j == upto - 1 {
            lemma_own_line_keeps_all(added, upto);
            assert(Seq::<TokenView>::empty() + added =~= added);
        } else {
            lemma_other_line_keeps_none(added, upto, j + 1);
            assert(tokens_on_line(before, j + 1) + Seq::<TokenView>::empty() =~= tokens_on_line(
                before,
                j + 1,
            ));
        }
    }
}

/// What a line yields depends on that line and its index alone: of two
/// texts with as many lines that differ on line `k` at most, the token
/// streams hold the same tokens on every other line.
pub proof fn law_lines_are_isolated(one: Seq<char>, other: Seq<char>, k: int, j: int)
    requires
        split_lines_spec(one).len() == split_lines_spec(other).len(),
        split_lines_spec(one).len() <= usize::MAX,
        forall|i: int|
            0 <= i < split_lines_spec(one).len() && i != k ==> split_lines_spec(one)[i]
                == split_lines_spec(other)[i],
        0 <= j < split_lines_spec(one).len(),
        j != k,
    ensures
        tokens_on_line(scan_result(one).tokens, j + 1) == tokens_on_line(
            scan_result(other).tokens,
            j + 1,
        ),
{
    let a = split_lines_spec(one);
    let b = split_lines_spec(other);
    law_stream_holds_each_line(a, a.len() as int, j);
    law_stream_holds_each_line(b, b.len() as int, j);
    assert(a[j] == b[j]);
}

/// The empty text yields no token and no diagnostic.
pub proof fn law_empty_text_yields_nothing()
    ensures
        scan_result(Seq::<char>::empty()) == empty_output(),
{
    let text = Seq::<char>::empty();
    let lines = split_lines_spec(text);
    assert(lines =~= seq![text.subrange(0, 0)]);
    let scans = line_scans(lines);
    assert(scans.len() == 1);
    assert(scans[0] == line_scan(lines[0], 0));
    assert(lines[0].len() == 0);
    assert(merged_upto(scans, 0).tokens =~= Seq::empty());
    assert(merged_upto(scans, 1).tokens =~= Seq::empty());
    assert(merged_upto(scans, 1).diagnostics =~= Seq::empty());
}

/// A syntax tree is never scanned: it yields no token, and the diagnostics
/// that a session holds stay as they are.
pub proof fn law_syntax_tree_is_not_scanned(
    source: SourceRepresentation,
    held: Seq<DiagnosticView>,
)
    requires
        source is SyntaxTree,
    ensures
        source.scanned().tokens.len() == 0,
        held + source.scanned().diagnostics == held,
{
    assert(held + source.scanned().diagnostics =~= held);
}

} // verus!
