use printctl::code::{ArgGroups, GCodeLine, Mnemonic};
use printctl::program::{GCodeProgram, GCodeStack};

#[test]
fn parses_commands_lines_and_comments() {
    let src = b"G21 ; metric\n\n(warm up) M104 S200\nG0 X10.5 Y-2";
    let program = GCodeProgram::new(src);
    assert_eq!(program.lines().len(), 4);
    match &program.lines()[0] {
        GCodeLine::Command { gcodes, comments } => {
            assert_eq!(gcodes.len(), 1);
            assert_eq!(gcodes[0].mnemonic, Mnemonic::General);
            assert_eq!(gcodes[0].major, 21);
            assert_eq!(comments.len(), 1);
            assert_eq!(comments[0], b" metric".to_vec());
        },
        _ => panic!("expected a commanded line"),
    }
    assert!(matches!(&program.lines()[1], GCodeLine::Empty));
    match &program.lines()[2] {
        GCodeLine::Command { gcodes, comments } => {
            assert_eq!(gcodes.len(), 1);
            assert_eq!(gcodes[0].mnemonic, Mnemonic::Miscellaneous);
            assert_eq!(gcodes[0].major, 104);
            assert_eq!(gcodes[0].value_for(b'S'), Some(200_000));
            assert_eq!(comments.len(), 1);
        },
        _ => panic!("expected a commanded line"),
    }
    match &program.lines()[3] {
        GCodeLine::Command { gcodes, .. } => {
            assert_eq!(gcodes[0].value_for(b'X'), Some(10_500));
            assert_eq!(gcodes[0].value_for(b'y'), Some(-2_000));
            assert_eq!(gcodes[0].value_for(b'Z'), None);
        },
        _ => panic!("expected a commanded line"),
    }
    assert_eq!(program.stack().len(), 3);
}

#[test]
fn arg_groups_form_stable_value_spans() {
    let src = b"G1 F1800\nG1 F1800 X10\nG1 F600 X20\nG1 F600 X30";
    let program = GCodeProgram::new(src);
    let groups = program.arg_groups();
    let f_bucket = groups.bucket(5);
    assert_eq!(f_bucket.len(), 2);
    assert_eq!(f_bucket[0].range(), (0, 2));
    assert_eq!(f_bucket[0].argument().value_e3, 1_800_000);
    assert_eq!(f_bucket[1].range(), (2, 4));
    assert_eq!(f_bucket[1].argument().value_e3, 600_000);

    let at1 = groups.get(1);
    assert!(at1.iter().any(|e| e.word.letter == b'F' && e.word.value_e3 == 1_800_000));
    let at3 = groups.get(3);
    assert!(at3.iter().any(|e| e.word.letter == b'F' && e.word.value_e3 == 600_000));
    assert!(!at3.iter().any(|e| e.word.value_e3 == 1_800_000));
}

#[test]
fn arg_group_buckets_are_sorted_and_disjoint() {
    let src = b"G1 X1 Y2\nG1 X1\nG1 X3 Y2\nG0 X3\nG1 X9 Y4";
    let program = GCodeProgram::new(src);
    for l in 0..26usize {
        let bucket = program.arg_groups().bucket(l);
        for w in bucket.windows(2) {
            assert!(w[0].start < w[1].start);
            assert!(w[0].end <= w[1].start);
        }
        for e in bucket.iter() {
            assert!(e.start < e.end);
        }
    }
}

#[test]
fn program_cursor_advances_and_rewinds_inside_bounds() {
    let mut program = GCodeProgram::new(b"G21\nG0 X1\nG0 X2");
    assert_eq!(program.cursor(), 0);
    assert_eq!(program.rewind(), None);
    assert_eq!(program.advance(), Some(1));
    assert_eq!(program.advance(), Some(2));
    assert_eq!(program.advance(), Some(3));
    assert_eq!(program.advance(), None);
    assert_eq!(program.cursor(), 3);
    assert_eq!(program.rewind(), Some(2));
    assert_eq!(program.executed().len(), 2);
    assert_eq!(program.remaining().len(), 1);
}

#[test]
fn stack_cursor_wraps_forward_and_stops_backward() {
    let mut stack = GCodeStack::new(b"G21\nG0 X1\nG0 X2");
    assert_eq!(stack.len(), 3);
    assert_eq!(stack.cursor(), 0);
    stack.advance();
    stack.advance();
    stack.advance();
    assert_eq!(stack.cursor(), 0);
    stack.rewind();
    assert_eq!(stack.cursor(), 0);
    stack.advance();
    assert_eq!(stack.cursor(), 1);
    assert!(stack.current().is_some());
    assert_eq!(stack.current_execution().len(), 1);
}
