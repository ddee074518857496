use compiler_front::coordinator::{
    scan_scheduled, scan_sequential, split_lines, ScanBoard, ScanOutput,
};
use compiler_front::scanner::{scan_line, LineScan};
use compiler_front::token::{Diagnostic, Phase, Position, Severity, Token, TokenKind};

fn tok(kind: TokenKind, lexeme: &str, line: usize, column: usize) -> Token {
    Token { kind, lexeme: lexeme.to_string(), position: Position { line, column } }
}

fn bad(c: char, line: usize, column: usize) -> Diagnostic {
    Diagnostic {
        severity: Severity::Error,
        message: format!("unrecognized character {}", c),
        position: Position { line, column },
        phase: Phase::Lexical,
    }
}

#[test]
fn split_lines_at_line_breaks() {
    assert_eq!(split_lines(""), vec!["".to_string()]);
    assert_eq!(split_lines("a"), vec!["a".to_string()]);
    assert_eq!(split_lines("a\nb"), vec!["a".to_string(), "b".to_string()]);
    assert_eq!(split_lines("a\n"), vec!["a".to_string(), "".to_string()]);
    assert_eq!(split_lines("\n"), vec!["".to_string(), "".to_string()]);
    assert_eq!(
        split_lines("\n\nx y\r\n\u{e9}z"),
        vec!["".to_string(), "".to_string(), "x y\r".to_string(), "\u{e9}z".to_string()]
    );
}

#[test]
fn split_lines_agrees_with_the_standard_library() {
    for text in ["", "\n", "a\nb\n", "one\n\ntwo", "\n\n\n", "x", "a\r\nb", "\u{2028}\n\u{e9}"] {
        let expected: Vec<String> = text.split('\n').map(|l| l.to_string()).collect();
        assert_eq!(split_lines(text), expected, "{:?}", text);
    }
}

#[test]
fn empty_text_yields_nothing() {
    let out = scan_sequential("");
    assert!(out.tokens.is_empty());
    assert!(out.diagnostics.is_empty());
    let out = scan_scheduled("", &vec![0, 0, 5]);
    assert!(out.tokens.is_empty());
    assert!(out.diagnostics.is_empty());
}

#[test]
fn simple_binding_round_trip() {
    let out = scan_sequential("let x = 5");
    assert_eq!(
        out.tokens,
        vec![
            tok(TokenKind::Keyword, "let", 1, 1),
            tok(TokenKind::Identifier, "x", 1, 5),
            tok(TokenKind::Operator, "=", 1, 7),
            tok(TokenKind::NumberLiteral, "5", 1, 9),
        ]
    );
    assert!(out.diagnostics.is_empty());
}

#[test]
fn partial_failure_keeps_the_other_lines() {
    let out = scan_sequential("1 + @\n2 + 3\n");
    assert_eq!(out.diagnostics, vec![bad('@', 1, 5)]);
    assert_eq!(
        out.tokens,
        vec![
            tok(TokenKind::NumberLiteral, "1", 1, 1),
            tok(TokenKind::Operator, "+", 1, 3),
            tok(TokenKind::NumberLiteral, "2", 2, 1),
            tok(TokenKind::Operator, "+", 2, 3),
            tok(TokenKind::NumberLiteral, "3", 2, 5),
        ]
    );
}

#[test]
fn diagnostics_come_in_line_order() {
    let out = scan_sequential("a $\n\nb\n  ?c\n");
    assert_eq!(out.diagnostics, vec![bad('$', 1, 3), bad('?', 4, 3)]);
    assert_eq!(
        out.tokens,
        vec![tok(TokenKind::Identifier, "a", 1, 1), tok(TokenKind::Identifier, "b", 3, 1)]
    );
}

#[test]
fn every_schedule_gives_the_sequential_output() {
    let text = "let a = 1;\nb @ 2\n\nfn f(x) { return x + 1 }\n# nothing\nlast";
    let expected = scan_sequential(text);
    let schedules: Vec<Vec<usize>> = vec![
        vec![],
        vec![0, 1, 2, 3, 4, 5],
        vec![5, 4, 3, 2, 1, 0],
        vec![3, 3, 1, 99, 0, 1],
        vec![2, 5],
        vec![usize::MAX, 4],
    ];
    for schedule in schedules {
        assert_eq!(scan_scheduled(text, &schedule), expected, "{:?}", schedule);
    }
    assert_eq!(expected.diagnostics, vec![bad('@', 2, 3), bad('#', 5, 1)]);
    assert_eq!(expected.tokens.len(), 5 + 1 + 0 + 11 + 0 + 1);
}

#[test]
fn line_numbers_never_fall_along_the_stream() {
    let out = scan_sequential("a b\n\nc\nd e f\n@\ng");
    let lines: Vec<usize> = out.tokens.iter().map(|t| t.position.line).collect();
    assert_eq!(lines, vec![1, 1, 3, 4, 4, 4, 6]);
    assert!(lines.windows(2).all(|w| w[0] <= w[1]));
}

#[test]
fn a_malformed_line_leaves_the_other_lines_alone() {
    let good = scan_sequential("a = 1\nb = 2\nc = 3");
    let spoiled = scan_sequential("a = 1\nb $ 2\nc = 3");
    let keep = |out: &ScanOutput| -> Vec<Token> {
        out.tokens.iter().filter(|t| t.position.line != 2).map(|t| t.duplicate()).collect()
    };
    assert_eq!(keep(&good), keep(&spoiled));
    assert_eq!(keep(&good).len(), 6);
    assert_eq!(spoiled.diagnostics, vec![bad('$', 2, 3)]);
}

#[test]
fn board_collects_by_index() {
    let lines = split_lines("x\n@\ny z");
    let mut board = ScanBoard::new(lines.len());
    assert_eq!(board.len(), 3);
    assert!(!board.is_complete());
    assert!(board.awaits(0) && board.awaits(2) && !board.awaits(3));
    assert!(board.report(2, scan_line(&lines[2], 2)));
    assert!(!board.awaits(2));
    assert!(!board.report(2, scan_line(&lines[2], 2)));
    assert!(!board.report(3, scan_line("", 3)));
    assert!(board.report(0, scan_line(&lines[0], 0)));
    assert!(!board.is_complete());
    assert!(board.report(1, scan_line(&lines[1], 1)));
    assert!(board.is_complete());
    let out = board.assemble().unwrap();
    assert_eq!(out, scan_sequential("x\n@\ny z"));
    assert_eq!(
        out.tokens,
        vec![
            tok(TokenKind::Identifier, "x", 1, 1),
            tok(TokenKind::Identifier, "y", 3, 1),
            tok(TokenKind::Identifier, "z", 3, 3),
        ]
    );
    assert_eq!(out.diagnostics, vec![bad('@', 2, 1)]);
}

#[test]
fn board_hands_out_nothing_before_every_line_has_reported() {
    let mut board = ScanBoard::new(2);
    assert!(board.report(1, scan_line("a", 1)));
    assert_eq!(board.assemble(), None);
    let empty = ScanBoard::new(0);
    assert!(empty.is_complete());
    assert_eq!(empty.assemble(), Some(ScanOutput::new()));
}

#[test]
fn a_second_report_for_a_line_does_not_replace_the_first() {
    let mut board = ScanBoard::new(1);
    assert!(board.report(0, scan_line("first", 0)));
    assert!(!board.report(0, scan_line("second", 0)));
    let out = board.assemble().unwrap();
    assert_eq!(out.tokens, vec![tok(TokenKind::Identifier, "first", 1, 1)]);
}

#[test]
fn absorb_appends_tokens_and_diagnostic() {
    let mut out = ScanOutput::new();
    out.absorb(LineScan { tokens: vec![tok(TokenKind::Identifier, "a", 1, 1)], diagnostic: None });
    out.absorb(LineScan {
        tokens: vec![tok(TokenKind::Identifier, "b", 2, 1)],
        diagnostic: Some(bad('@', 2, 3)),
    });
    out.absorb(LineScan { tokens: vec![], diagnostic: Some(bad('#', 3, 1)) });
    assert_eq!(
        out.tokens,
        vec![tok(TokenKind::Identifier, "a", 1, 1), tok(TokenKind::Identifier, "b", 2, 1)]
    );
    assert_eq!(out.diagnostics, vec![bad('@', 2, 3), bad('#', 3, 1)]);
}
