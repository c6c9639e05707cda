use vstd::prelude::*;
use crate::instruction::{Command, Instruction, command_of};

verus! {

/// Why a source text cannot be linked.
#[derive(Clone, Copy, Debug, PartialEq, Eq, Structural)]
pub enum ParseError {
    /// A `]` with no `[` open before it.
    UnmatchedCloseBracket,
    /// A `[` that no `]` closes.
    UnmatchedOpenBracket,
}

/// How a character changes the nesting depth.
pub open spec fn bracket_delta(c: char) -> int {
    if c == '[' {
        1
    } else if c == ']' {
        -1
    } else {
        0
    }
}

/// Count of `[` minus count of `]` among the first `i` characters.
pub open spec fn depth(s: Seq<char>, i: int) -> int
    decreases i,
{
    if i <= 0 {
        0
    } else {
        depth(s, i - 1) + bracket_delta(s[i - 1])
    }
}

/// No prefix closes more loops than it opens.
pub open spec fn never_negative(s: Seq<char>) -> bool {
    forall|k: int| 0 <= k <= s.len() ==> #[trigger] depth(s, k) >= 0
}

/// Every `[` is closed by a later `]` and every `]` closes an earlier `[`.
pub open spec fn balanced(s: Seq<char>) -> bool {
    never_negative(s) && depth(s, s.len() as int) == 0
}

/// The error that a source which is not balanced is refused with: an excess
/// `]` is met before the end of the text is reached.
pub open spec fn parse_error_of(s: Seq<char>) -> ParseError {
    if never_negative(s) {
        ParseError::UnmatchedOpenBracket
    } else {
        ParseError::UnmatchedCloseBracket
    }
}

/// The `[` at `i` and the `]` at `j` delimit one loop: `j` is the first point
/// after `i` where the depth falls back to what it was before `i`.
pub open spec fn matched(s: Seq<char>, i: int, j: int) -> bool {
    &&& 0 <= i < j < s.len()
    &&& s[i] == '['
    &&& s[j] == ']'
    &&& depth(s, j + 1) == depth(s, i)
    &&& forall|k: int| i < k <= j ==> #[trigger] depth(s, k) > depth(s, i)
}

/// Number of newlines among the first `i` characters.
pub open spec fn line_of(s: Seq<char>, i: int) -> int
    decreases i,
{
    if i <= 0 {
        0
    } else {
        line_of(s, i - 1) + if s[i - 1] == '\n' { 1int } else { 0int }
    }
}

/// Number of characters between the last newline before `i` and `i`.
pub open spec fn column_of(s: Seq<char>, i: int) -> int
    decreases i,
{
    if i <= 0 {
        0
    } else if s[i - 1] == '\n' {
        0
    } else {
        column_of(s, i - 1) + 1
    }
}

/// The command that the character at `i` is linked to.
pub open spec fn decodes(s: Seq<char>, i: int, cmd: Command) -> bool {
    if s[i] == '[' {
        cmd is JumpForward && matched(s, i, cmd->JumpForward_0 as int)
    } else if s[i] == ']' {
        cmd is JumpBackward && matched(s, cmd->JumpBackward_0 as int, i)
    } else {
        cmd == command_of(s[i])
    }
}

/// `prog` holds one instruction for each character of `s`, in order.
pub open spec fn parsed_as(s: Seq<char>, prog: Seq<Instruction>) -> bool {
    &&& prog.len() == s.len()
    &&& forall|i: int|
        0 <= i < s.len() ==> {
            &&& decodes(s, i, (#[trigger] prog[i]).command)
            &&& prog[i].ch == s[i]
            &&& prog[i].line == line_of(s, i)
            &&& prog[i].column == column_of(s, i)
        }
}

/// The command of a character that is not a loop delimiter.
fn command_for(ch: char) -> (r: Command)
    ensures
        r == command_of(ch),
{
    if ch == '<' {
        Command::DecPtr
    } else if ch == '>' {
        Command::IncPtr
    } else if ch == '-' {
        Command::DecData
    } else if ch == '+' {
        Command::IncData
    } else if ch == ',' {
        Command::Input
    } else if ch == '.' {
        Command::Output
    } else {
        Command::NoOp
    }
}

/// Turns source text into instructions, one per character, linking each
/// `[` with its matching `]` in one pass with a stack of open positions.
#[verifier::rlimit(50)]
pub fn parse(chs: &Vec<char>) -> (r: Result<Vec<Instruction>, ParseError>)
    ensures
        r is Ok <==> balanced(chs@),
        r matches Ok(prog) ==> parsed_as(chs@, prog@),
        r matches Err(e) ==> e == parse_error_of(chs@),
{
    let ghost s = chs@;
    let mut instructions: Vec<Instruction> = Vec::new();
    let mut brack_stack: Vec<usize> = Vec::new();
    let mut line: usize = 0;
    let mut col: usize = 0;
    let mut i: usize = 0;
    while i < chs.len()
        invariant
            s == chs@,
            i <= s.len(),
            instructions.len() == i,
            line == line_of(s, i as int),
            col == column_of(s, i as int),
            line <= i,
            col <= i,
            brack_stack.len() == depth(s, i as int),
            forall|k: int| 0 <= k <= i ==> #[trigger] depth(s, k) >= 0,
            forall|d: int|
                0 <= d < brack_stack.len() ==> {
                    let p = #[trigger] brack_stack@[d] as int;
                    &&& p < i
                    &&& s[p] == '['
                    &&& depth(s, p) == d
                    &&& forall|k: int| p < k <= i ==> #[trigger] depth(s, k) > d
                },
            forall|k: int|
                0 <= k < i ==> {
                    &&& (#[trigger] instructions@[k]).ch == s[k]
                    &&& instructions@[k].line == line_of(s, k)
                    &&& instructions@[k].column == column_of(s, k)
                    &&& if s[k] == '[' {
                        ||| (instructions@[k].command is JumpForward
                            && instructions@[k].command->JumpForward_0 < i
                            && matched(s, k, instructions@[k].command->JumpForward_0 as int))
                        ||| (depth(s, k) < brack_stack.len() && brack_stack@[depth(s, k)]
                            == k)
                    } else {
                        decodes(s, k, instructions@[k].command)
                    }
                },
        decreases s.len() - i,
    {
        let ch = chs[i];
        let ghost old_ins = instructions@;
        let ghost old_stack = brack_stack@;
        let ghost mut mp: int = -1;
        assert(depth(s, i + 1) == depth(s, i as int) + bracket_delta(ch));
        let mut command = command_for(ch);
        if ch == '[' {
            brack_stack.push(i);
            command = Command::JumpForward(0);
        } else if ch == ']' {
            let popped = brack_stack.pop();
            if popped.is_none() {
                assert(depth(s, i + 1) < 0);
                return Err(ParseError::UnmatchedCloseBracket);
            }
            let match_pos = popped.unwrap();
            let opened = instructions[match_pos];
            instructions.set(
                match_pos,
                Instruction { command: Command::JumpForward(i), ch: opened.ch, line: opened.line, column: opened.column },
            );
            assert(matched(s, match_pos as int, i as int));
            assert(instructions@ == old_ins.update(match_pos as int, instructions@[match_pos as int]));
            proof {
                mp = match_pos as int;
            }
            command = Command::JumpBackward(match_pos);
        }
        let ins = Instruction { command, ch, line, column: col };
        let ghost before = instructions@;
        instructions.push(ins);
        proof {
            vstd::seq::axiom_seq_push_len(before, ins);
            assert forall|k: int| 0 <= k < i implies #[trigger] instructions@[k] == if k == mp {
                Instruction { command: Command::JumpForward(i), ..old_ins[k] }
            } else {
                old_ins[k]
            } by {
                vstd::seq::axiom_seq_push_index_different(before, ins, k);
                if mp >= 0 {
                    if k == mp {
                        vstd::seq::axiom_seq_update_same(old_ins, mp, before[mp]);
                    } else {
                        vstd::seq::axiom_seq_update_different(old_ins, k, mp, before[mp]);
                    }
                }
            }
            vstd::seq::axiom_seq_push_index_same(before, ins, i as int);
            assert forall|k: int| 0 <= k < i && s[k] == '[' && k != mp && !(old_ins[k].command
                is JumpForward && old_ins[k].command->JumpForward_0 < i && matched(
                s,
                k,
                old_ins[k].command->JumpForward_0 as int,
            )) implies depth(s, k) < brack_stack.len() && brack_stack@[depth(s, k)] == k by {
                assert(old_stack[depth(s, k)] == k);
                if ch == ']' {
                    assert(depth(s, k) != old_stack.len() - 1);
                }
            }
        }
        if ch == '\n' {
            line = line + 1;
            col = 0;
        } else {
            col = col + 1;
        }
        i = i + 1;
    }
    if brack_stack.len() > 0 {
        return Err(ParseError::UnmatchedOpenBracket);
    }
    Ok(instructions)
}

} // verus!
