use vstd::prelude::*;
use crate::instruction::{Command, Instruction};
use crate::parser::{depth, matched, parsed_as};
use crate::machine::{
    MachineView, RunError, RunState, extent_ok, next_op, run_for, scan_left, settle, step, wrap_dec, wrap_inc,
};

verus! {

/// A `]` closes at most one `[`.
proof fn lemma_match_unique_open(s: Seq<char>, a: int, b: int, j: int)
    requires
        matched(s, a, j),
        matched(s, b, j),
    ensures
        a == b,
{
    if a < b {
        assert(depth(s, b) > depth(s, a));
    } else if b < a {
        assert(depth(s, a) > depth(s, b));
    }
}

/// A `[` is closed by at most one `]`.
proof fn lemma_match_unique_close(s: Seq<char>, i: int, a: int, b: int)
    requires
        matched(s, i, a),
        matched(s, i, b),
    ensures
        a == b,
{
    if a < b {
        assert(depth(s, a + 1) > depth(s, i));
    } else if b < a {
        assert(depth(s, b + 1) > depth(s, i));
    }
}

/// In a parsed program every jump lands on its partner, and the partner's
/// jump leads back: following a `[`'s target and then that instruction's own
/// target returns to the `[`, and the same from a `]`.
pub proof fn lemma_jumps_pair_up(s: Seq<char>, prog: Seq<Instruction>)
    requires
        parsed_as(s, prog),
    ensures
        forall|i: int|
            0 <= i < prog.len() && (#[trigger] prog[i]).command is JumpForward ==> {
                let j = prog[i].command->JumpForward_0 as int;
                &&& i < j < prog.len()
                &&& prog[j].command == Command::JumpBackward(i as usize)
            },
        forall|j: int|
            0 <= j < prog.len() && (#[trigger] prog[j]).command is JumpBackward ==> {
                let i = prog[j].command->JumpBackward_0 as int;
                &&& 0 <= i < j
                &&& prog[i].command == Command::JumpForward(j as usize)
            },
{
    assert forall|i: int|
        0 <= i < prog.len() && (#[trigger] prog[i]).command is JumpForward implies {
            let j = prog[i].command->JumpForward_0 as int;
            &&& i < j < prog.len()
            &&& prog[j].command == Command::JumpBackward(i as usize)
        } by {
        let j = prog[i].command->JumpForward_0 as int;
        assert(s[i] == '[');
        assert(matched(s, i, j));
        let k = prog[j].command->JumpBackward_0 as int;
        assert(matched(s, k, j));
        lemma_match_unique_open(s, i, k, j);
    }
    assert forall|j: int|
        0 <= j < prog.len() && (#[trigger] prog[j]).command is JumpBackward implies {
            let i = prog[j].command->JumpBackward_0 as int;
            &&& 0 <= i < j
            &&& prog[i].command == Command::JumpForward(j as usize)
        } by {
        let i = prog[j].command->JumpBackward_0 as int;
        assert(s[j] == ']');
        assert(matched(s, i, j));
        let k = prog[i].command->JumpForward_0 as int;
        assert(matched(s, i, k));
        lemma_match_unique_close(s, i, j, k);
    }
}

/// Stepping the machine at its next instruction: `<` on cell 0 and `>` on
/// the last cell fail with the matching bounds error and leave the tape and
/// the data pointer as they were.
pub proof fn lemma_moves_stay_on_tape(m: MachineView)
    requires
        m.state == RunState::Running,
        0 <= m.ip,
        0 <= m.dp < m.tape.len(),
        next_op(m.prog, m.ip) < m.prog.len(),
    ensures
        m.prog[next_op(m.prog, m.ip)] == Command::DecPtr && m.dp == 0 ==> {
            &&& step(m).state == RunState::Failed(RunError::TapeUnderflow)
            &&& step(m).tape == m.tape
            &&& step(m).dp == m.dp
        },
        m.prog[next_op(m.prog, m.ip)] == Command::IncPtr && m.dp == m.tape.len() - 1 ==> {
            &&& step(m).state == RunState::Failed(RunError::TapeOverflow)
            &&& step(m).tape == m.tape
            &&& step(m).dp == m.dp
        },
{
    lemma_next_op_bounds(m.prog, m.ip);
}

/// `next_op` never moves backwards.
proof fn lemma_next_op_bounds(prog: Seq<Command>, i: int)
    requires
        0 <= i,
    ensures
        i <= next_op(prog, i),
    decreases prog.len() - i,
{
    if 0 <= i < prog.len() && prog[i] is NoOp {
        lemma_next_op_bounds(prog, i + 1);
    }
}

/// `+` on a cell holding 255 leaves 0 there, and `-` on a cell holding 0
/// leaves 255.
pub proof fn lemma_cells_wrap(m: MachineView)
    requires
        m.state == RunState::Running,
        0 <= m.ip,
        0 <= m.dp < m.tape.len(),
        next_op(m.prog, m.ip) < m.prog.len(),
    ensures
        m.prog[next_op(m.prog, m.ip)] == Command::IncData && m.tape[m.dp] == 255 ==> step(m).tape[m.dp] == 0,
        m.prog[next_op(m.prog, m.ip)] == Command::DecData && m.tape[m.dp] == 0 ==> step(m).tape[m.dp] == 255,
{
    lemma_next_op_bounds(m.prog, m.ip);
}

/// The program holds a `[-]` loop at `i`, and the machine runs with its data
/// pointer on the tape and no nonzero cell beyond its extent.
pub open spec fn clear_loop_at(m: MachineView, i: int) -> bool {
    &&& m.state == RunState::Running
    &&& 0 <= i
    &&& i + 2 < m.prog.len()
    &&& i + 2 <= usize::MAX
    &&& m.prog[i] == Command::JumpForward((i + 2) as usize)
    &&& m.prog[i + 1] == Command::DecData
    &&& m.prog[i + 2] == Command::JumpBackward(i as usize)
    &&& 0 <= m.dp < m.tape.len()
    &&& extent_ok(m.tape, m.extent)
}

/// The machine with its current cell emptied by a run of `-`: only the last
/// one, which reaches 0, can move the extent.
pub open spec fn cleared(m: MachineView) -> MachineView {
    let tape = m.tape.update(m.dp, 0);
    MachineView {
        tape,
        extent: if m.dp == m.extent { scan_left(tape, m.dp) } else { m.extent },
        ..m
    }
}

/// From the body of the loop with `c` in the cell: after `3c - 2` steps the
/// last `-` has run, and one step more leaves the loop.
proof fn lemma_clear_loop_body(m: MachineView, i: int, c: int)
    requires
        clear_loop_at(m, i),
        m.ip == i + 1,
        m.tape[m.dp] == c,
        c >= 1,
    ensures
        run_for(m, (3 * c - 2) as nat) == (MachineView { ip: i + 2, ..cleared(m) }),
        run_for(m, (3 * c - 1) as nat) == settle(MachineView { ip: i + 3, ..cleared(m) }),
    decreases c,
{
    assert(m.dp <= m.extent);
    let m1 = step(m);
    assert(next_op(m.prog, i + 1) == i + 1);
    assert(next_op(m.prog, i + 2) == i + 2);
    assert(wrap_dec(c as u8) == c - 1);
    assert(run_for(m, (3 * c - 1) as nat) == run_for(m1, (3 * c - 2) as nat));
    if c == 1 {
        assert(m1 == MachineView { ip: i + 2, ..cleared(m) });
        let m2 = step(m1);
        assert(m2 == settle(MachineView { ip: i + 3, ..cleared(m) }));
        assert(run_for(m, 1) == run_for(m1, 0));
        assert(run_for(m1, 1) == run_for(m2, 0));
    } else {
        assert(m1 == MachineView { tape: m.tape.update(m.dp, (c - 1) as u8), ip: i + 2, ..m });
        let m2 = step(m1);
        assert(m2 == MachineView { ip: i, ..m1 });
        let m3 = step(m2);
        assert(next_op(m2.prog, i) == i);
        assert(m3 == MachineView { ip: i + 1, ..m1 });
        assert(run_for(m1, (3 * c - 2) as nat) == run_for(m2, (3 * c - 3) as nat));
        assert(run_for(m2, (3 * c - 3) as nat) == run_for(m3, (3 * (c - 1) - 1) as nat));
        assert(run_for(m, (3 * c - 2) as nat) == run_for(m1, (3 * c - 3) as nat));
        assert(run_for(m1, (3 * c - 3) as nat) == run_for(m2, (3 * c - 4) as nat));
        assert(run_for(m2, (3 * c - 4) as nat) == run_for(m3, (3 * (c - 1) - 2) as nat));
        assert(extent_ok(m3.tape, m3.extent));
        lemma_clear_loop_body(m3, i, c - 1);
        assert(m3.tape.update(m3.dp, 0) =~= m.tape.update(m.dp, 0));
        assert(cleared(m3) == cleared(m));
    }
}

/// A `[-]` loop entered with `n` in the cell, `n` nonzero, runs its body
/// exactly `n` times: one step for the `[`, then per pass one `-` and one
/// `]`, with one `[` between passes. After `3n - 1` steps the last `-` has
/// left the cell at 0 and the machine stands on the `]`; the next step leaves
/// the loop. Nothing but the cell and the extent has changed.
pub proof fn lemma_clear_loop(m: MachineView, i: int, n: u8)
    requires
        clear_loop_at(m, i),
        m.ip == i,
        m.tape[m.dp] == n,
        n != 0,
    ensures
        run_for(m, (3 * n - 1) as nat) == (MachineView { ip: i + 2, ..cleared(m) }),
        run_for(m, (3 * n) as nat) == settle(MachineView { ip: i + 3, ..cleared(m) }),
{
    let m1 = step(m);
    assert(next_op(m.prog, i) == i);
    assert(next_op(m.prog, i + 1) == i + 1);
    assert(m1 == MachineView { ip: i + 1, ..m });
    assert(run_for(m, (3 * n) as nat) == run_for(m1, (3 * n - 1) as nat));
    assert(run_for(m, (3 * n - 1) as nat) == run_for(m1, (3 * n - 2) as nat));
    lemma_clear_loop_body(m1, i, n as int);
}

/// Running `a` steps and then `b` steps is running `a + b` steps.
pub proof fn lemma_run_for_add(m: MachineView, a: nat, b: nat)
    ensures
        run_for(m, a + b) == run_for(run_for(m, a), b),
    decreases a,
{
    if a > 0 && m.state is Running {
        lemma_run_for_add(step(m), (a - 1) as nat, b);
        assert(run_for(m, a + b) == run_for(step(m), (a - 1 + b) as nat));
    }
}

/// The commands of `++++[-.+>+<]`.
pub open spec fn output_loop_prog() -> Seq<Command> {
    seq![
        Command::IncData,
        Command::IncData,
        Command::IncData,
        Command::IncData,
        Command::JumpForward(11),
        Command::DecData,
        Command::Output,
        Command::IncData,
        Command::IncPtr,
        Command::IncData,
        Command::DecPtr,
        Command::JumpBackward(4),
    ]
}

/// The machine running `++++[-.+>+<]` at the start of the loop body, with
/// 4 in cell 0.
pub open spec fn in_output_loop(m: MachineView) -> bool {
    &&& m.prog == output_loop_prog()
    &&& m.state == RunState::Running
    &&& m.ip == 5
    &&& m.dp == 0
    &&& m.tape.len() >= 2
    &&& m.tape[0] == 4
    &&& 0 <= m.extent
}

/// One pass of the loop body and the `[` after it: eight steps output 3,
/// restore cell 0 to 4 and increment cell 1.
proof fn lemma_output_loop_pass(m: MachineView)
    requires
        in_output_loop(m),
    ensures
        run_for(m, 8) == (MachineView {
            tape: m.tape.update(1, wrap_inc(m.tape[1])),
            output: m.output.push(3),
            extent: if m.tape[1] == 0 && 1 > m.extent { 1 } else { m.extent },
            ..m
        }),
{
    let p = output_loop_prog();
    assert(p.len() == 12);
    assert(p[4] == Command::JumpForward(11));
    assert(p[5] == Command::DecData);
    assert(p[6] == Command::Output);
    assert(p[7] == Command::IncData);
    assert(p[8] == Command::IncPtr);
    assert(p[9] == Command::IncData);
    assert(p[10] == Command::DecPtr);
    assert(p[11] == Command::JumpBackward(4));
    assert(next_op(p, 4) == 4);
    assert(next_op(p, 5) == 5);
    assert(next_op(p, 6) == 6);
    assert(next_op(p, 7) == 7);
    assert(next_op(p, 8) == 8);
    assert(next_op(p, 9) == 9);
    assert(next_op(p, 10) == 10);
    assert(next_op(p, 11) == 11);
    let x = m.tape[1];
    let m1 = step(m);
    assert(m1 == MachineView { tape: m.tape.update(0, 3), ip: 6, ..m });
    let m2 = step(m1);
    assert(m2 == MachineView { output: m.output.push(3), ip: 7, ..m1 });
    let m3 = step(m2);
    assert(m2.tape.update(0, 4) =~= m.tape);
    assert(m3 == MachineView { tape: m.tape, ip: 8, ..m2 });
    let m4 = step(m3);
    assert(m4 == MachineView { dp: 1, ip: 9, ..m3 });
    let m5 = step(m4);
    assert(m5 == MachineView {
        tape: m.tape.update(1, wrap_inc(x)),
        extent: if x == 0 && 1 > m.extent { 1 } else { m.extent },
        ip: 10,
        ..m4
    });
    let m6 = step(m5);
    assert(m6 == MachineView { dp: 0, ip: 11, ..m5 });
    let m7 = step(m6);
    assert(m7 == MachineView { ip: 4, ..m6 });
    let m8 = step(m7);
    assert(m8 == MachineView { ip: 5, ..m7 });
    assert(run_for(m, 8) == run_for(m1, 7));
    assert(run_for(m1, 7) == run_for(m2, 6));
    assert(run_for(m2, 6) == run_for(m3, 5));
    assert(run_for(m3, 5) == run_for(m4, 4));
    assert(run_for(m4, 4) == run_for(m5, 3));
    assert(run_for(m5, 3) == run_for(m6, 2));
    assert(run_for(m6, 2) == run_for(m7, 1));
    assert(run_for(m7, 1) == run_for(m8, 0));
}

/// `++++[-.+>+<]` never completes: its loop restores cell 0 to 4, so every
/// eight steps at the start of the body output one 3 and add 1 to cell 1,
/// wrapping, with the pointers back where they were.
pub proof fn lemma_output_loop(m: MachineView, k: nat)
    requires
        in_output_loop(m),
    ensures
        in_output_loop(run_for(m, 8 * k)),
        run_for(m, 8 * k).tape == m.tape.update(1, ((m.tape[1] + k) % 256) as u8),
        run_for(m, 8 * k).output == m.output + Seq::new(k, |j: int| 3u8),
        run_for(m, 8 * k).input == m.input,
    decreases k,
{
    if k == 0 {
        assert(m.tape.update(1, ((m.tape[1] + k) % 256) as u8) =~= m.tape);
        assert(m.output + Seq::new(k, |j: int| 3u8) =~= m.output);
    } else {
        lemma_output_loop_pass(m);
        let m8 = run_for(m, 8);
        lemma_output_loop(m8, (k - 1) as nat);
        lemma_run_for_add(m, 8, (8 * (k - 1)) as nat);
        assert(8 * k == 8 + 8 * (k - 1)) by (nonlinear_arith);
        assert(((m8.tape[1] + (k - 1)) % 256) as u8 == ((m.tape[1] + k) % 256) as u8);
        assert(m8.tape.update(1, ((m8.tape[1] + (k - 1)) % 256) as u8) =~= m.tape.update(
            1,
            ((m.tape[1] + k) % 256) as u8,
        ));
        assert(m8.output + Seq::new((k - 1) as nat, |j: int| 3u8) =~= m.output + Seq::new(
            k,
            |j: int| 3u8,
        ));
    }
}

/// From the start of `++++[-.+>+<]` with cell 0 empty: five steps reach the
/// loop body with 4 in cell 0, and each eight steps after that output a 3,
/// so the program never completes.
pub proof fn lemma_output_loop_from_start(m: MachineView, k: nat)
    requires
        m.prog == output_loop_prog(),
        m.state == RunState::Running,
        m.ip == 0,
        m.dp == 0,
        m.tape.len() >= 2,
        m.tape[0] == 0,
        0 <= m.extent,
    ensures
        in_output_loop(run_for(m, 5 + 8 * k)),
        run_for(m, 5 + 8 * k).tape[1] == ((m.tape[1] + k) % 256) as u8,
        run_for(m, 5 + 8 * k).output == m.output + Seq::new(k, |j: int| 3u8),
{
    let p = output_loop_prog();
    assert(p[0] == Command::IncData);
    assert(p[1] == Command::IncData);
    assert(p[2] == Command::IncData);
    assert(p[3] == Command::IncData);
    assert(p[4] == Command::JumpForward(11));
    assert(p[5] == Command::DecData);
    assert(next_op(p, 0) == 0);
    assert(next_op(p, 1) == 1);
    assert(next_op(p, 2) == 2);
    assert(next_op(p, 3) == 3);
    assert(next_op(p, 4) == 4);
    assert(next_op(p, 5) == 5);
    let m1 = step(m);
    let m2 = step(m1);
    let m3 = step(m2);
    let m4 = step(m3);
    let m5 = step(m4);
    assert(m1.ip == 1 && m1.tape[0] == 1 && m1.state == RunState::Running && m1.dp == 0);
    assert(m2.ip == 2 && m2.tape[0] == 2 && m2.state == RunState::Running && m2.dp == 0);
    assert(m3.ip == 3 && m3.tape[0] == 3 && m3.state == RunState::Running && m3.dp == 0);
    assert(m4.ip == 4 && m4.tape[0] == 4 && m4.state == RunState::Running && m4.dp == 0);
    assert(m5 == MachineView { ip: 5, ..m4 });
    assert(m4.tape[1] == m.tape[1] && m4.output == m.output && m4.extent >= 0 && m4.tape.len() == m.tape.len());
    assert(run_for(m, 5) == m5) by {
        assert(run_for(m, 5) == run_for(m1, 4));
        assert(run_for(m1, 4) == run_for(m2, 3));
        assert(run_for(m2, 3) == run_for(m3, 2));
        assert(run_for(m3, 2) == run_for(m4, 1));
        assert(run_for(m4, 1) == run_for(m5, 0));
    }
    lemma_run_for_add(m, 5, 8 * k);
    lemma_output_loop(m5, k);
}

} // verus!
