use brainrust::instruction::{Command, Instruction};
use brainrust::parser::{parse, ParseError};

fn chars(s: &str) -> Vec<char> {
    s.chars().collect()
}

fn commands(prog: &[Instruction]) -> Vec<Command> {
    prog.iter().map(|ins| ins.command).collect()
}

#[test]
fn empty_source_parses_to_nothing() {
    let prog = parse(&chars("")).unwrap();
    assert!(prog.is_empty());
}

#[test]
fn every_character_becomes_one_instruction() {
    let prog = parse(&chars("<>-+.,x ")).unwrap();
    assert_eq!(
        commands(&prog),
        vec![
            Command::DecPtr,
            Command::IncPtr,
            Command::DecData,
            Command::IncData,
            Command::Output,
            Command::Input,
            Command::NoOp,
            Command::NoOp,
        ]
    );
    assert_eq!(prog[6].ch, 'x');
}

#[test]
fn nested_brackets_link_to_their_partners() {
    let prog = parse(&chars("[[]+]")).unwrap();
    assert_eq!(
        commands(&prog),
        vec![
            Command::JumpForward(4),
            Command::JumpForward(2),
            Command::JumpBackward(1),
            Command::IncData,
            Command::JumpBackward(0),
        ]
    );
}

#[test]
fn jumps_lead_back_to_where_they_started() {
    let prog = parse(&chars("+[>[-]<[->+<]]..[]")).unwrap();
    for (i, ins) in prog.iter().enumerate() {
        match ins.command {
            Command::JumpForward(j) => {
                assert!(j > i);
                assert_eq!(prog[j].command, Command::JumpBackward(i));
            }
            Command::JumpBackward(j) => {
                assert!(j < i);
                assert_eq!(prog[j].command, Command::JumpForward(i));
            }
            _ => {}
        }
    }
}

#[test]
fn excess_close_bracket_is_refused() {
    assert_eq!(parse(&chars("]")).unwrap_err(), ParseError::UnmatchedCloseBracket);
    assert_eq!(parse(&chars("[]]")).unwrap_err(), ParseError::UnmatchedCloseBracket);
}

#[test]
fn close_bracket_before_its_open_is_refused() {
    assert_eq!(parse(&chars("][")).unwrap_err(), ParseError::UnmatchedCloseBracket);
}

#[test]
fn excess_open_bracket_is_refused() {
    assert_eq!(parse(&chars("[")).unwrap_err(), ParseError::UnmatchedOpenBracket);
    assert_eq!(parse(&chars("[[]")).unwrap_err(), ParseError::UnmatchedOpenBracket);
}

#[test]
fn positions_follow_lines_and_columns() {
    let prog = parse(&chars("+-\n.\n\n,")).unwrap();
    let pos: Vec<(usize, usize)> = prog.iter().map(|ins| (ins.line, ins.column)).collect();
    assert_eq!(pos, vec![(0, 0), (0, 1), (0, 2), (1, 0), (1, 1), (2, 0), (3, 0)]);
}
