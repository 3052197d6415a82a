use bf_scanner::instruction::RawInstruction;
use bf_scanner::scanner::scan_lines;
use bf_scanner::token::HumanReadableInstruction;

fn lines(text: &[&str]) -> Vec<String> {
    text.iter().map(|s| s.to_string()).collect()
}

fn tok(instruction: RawInstruction, line: usize, column: usize) -> HumanReadableInstruction {
    HumanReadableInstruction::new(instruction, line, column)
}

#[test]
fn single_line_of_instructions() {
    let r = scan_lines(&lines(&["++>--<"]));
    assert_eq!(
        r,
        vec![
            tok(RawInstruction::IncrementByte, 1, 1),
            tok(RawInstruction::IncrementByte, 1, 2),
            tok(RawInstruction::IncrementPointer, 1, 3),
            tok(RawInstruction::DecrementByte, 1, 4),
            tok(RawInstruction::DecrementByte, 1, 5),
            tok(RawInstruction::DecrementPointer, 1, 6),
        ]
    );
}

#[test]
fn letters_are_skipped_but_counted() {
    let r = scan_lines(&lines(&["ab+cd"]));
    assert_eq!(r, vec![tok(RawInstruction::IncrementByte, 1, 3)]);
}

#[test]
fn two_lines_restart_columns() {
    let r = scan_lines(&lines(&["[.]", ",+"]));
    assert_eq!(
        r,
        vec![
            tok(RawInstruction::ConditionalForward, 1, 1),
            tok(RawInstruction::OutputByte, 1, 2),
            tok(RawInstruction::ConditionalBackward, 1, 3),
            tok(RawInstruction::InputByte, 2, 1),
            tok(RawInstruction::IncrementByte, 2, 2),
        ]
    );
}

#[test]
fn no_lines_no_tokens() {
    let r = scan_lines(&Vec::new());
    assert!(r.is_empty());
}

#[test]
fn empty_lines_no_tokens() {
    let r = scan_lines(&lines(&["", "", ""]));
    assert!(r.is_empty());
}

#[test]
fn blank_lines_still_advance_line_number() {
    let r = scan_lines(&lines(&["", "x", "  ]"]));
    assert_eq!(r, vec![tok(RawInstruction::ConditionalBackward, 3, 3)]);
}

#[test]
fn token_count_matches_recognised_characters() {
    let input = lines(&["hello, world.", "[->+<] # copy", "", "1 + 2 = 3"]);
    let expected: usize = input
        .iter()
        .map(|l| l.chars().filter(|c| "><+-.,[]".contains(*c)).count())
        .sum();
    assert_eq!(expected, 9);
    assert_eq!(scan_lines(&input).len(), expected);
}

#[test]
fn positions_point_at_their_characters() {
    let input = lines(&["a>b<c", "  [x]  ", "-.,+"]);
    for t in scan_lines(&input) {
        assert!(t.line >= 1 && t.column >= 1);
        let c = input[t.line - 1].chars().nth(t.column - 1).unwrap();
        assert_eq!(RawInstruction::from_char(&c), Some(t.instruction));
    }
}

#[test]
fn columns_count_characters_not_bytes() {
    let r = scan_lines(&lines(&["é+ü-"]));
    assert_eq!(
        r,
        vec![tok(RawInstruction::IncrementByte, 1, 2), tok(RawInstruction::DecrementByte, 1, 4)]
    );
}

#[test]
fn tokens_come_in_source_order() {
    let r = scan_lines(&lines(&["+ - .", ", [", "] > <"]));
    assert_eq!(r.len(), 8);
    for w in r.windows(2) {
        assert!((w[0].line, w[0].column) < (w[1].line, w[1].column));
    }
}

#[test]
fn scanning_twice_gives_the_same_tokens() {
    let input = lines(&["+[->+<]", "comment .", ","]);
    assert_eq!(scan_lines(&input), scan_lines(&input));
}
