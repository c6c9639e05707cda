use vstd::prelude::*;
use crate::instruction::{Command, Instruction};
use crate::parser::{parse, parsed_as, balanced, parse_error_of, ParseError};

verus! {

/// Number of cells on the tape of a machine made by `Machine::new`.
pub const TAPE_SIZE: usize = 30000;

/// Why a run stopped before the end of the program.
#[derive(Clone, Copy, Debug, PartialEq, Eq, Structural)]
pub enum RunError {
    /// `<` on cell 0.
    TapeUnderflow,
    /// `>` on the last cell.
    TapeOverflow,
}

/// Where a machine stands. `Completed` and `Failed` are final.
#[derive(Clone, Copy, Debug, PartialEq, Eq, Structural)]
pub enum RunState {
    Running,
    Completed,
    Failed(RunError),
}

/// The abstract state of a machine.
pub ghost struct MachineView {
    /// The command of each instruction.
    pub prog: Seq<Command>,
    pub tape: Seq<u8>,
    /// Instruction pointer.
    pub ip: int,
    /// Data pointer.
    pub dp: int,
    /// Every byte written by `.` so far.
    pub output: Seq<u8>,
    /// The input bytes not yet read by `,`.
    pub input: Seq<u8>,
    pub state: RunState,
    /// The active extent: how far along the tape a viewer needs to look.
    pub extent: int,
}

/// A cell after `+`.
pub open spec fn wrap_inc(x: u8) -> u8 {
    ((x + 1) % 256) as u8
}

/// A cell after `-`.
pub open spec fn wrap_dec(x: u8) -> u8 {
    ((x + 255) % 256) as u8
}

/// The commands of a sequence of instructions.
pub open spec fn commands(prog: Seq<Instruction>) -> Seq<Command> {
    prog.map_values(|ins: Instruction| ins.command)
}

/// The first index at or after `i` that holds something other than a no-op,
/// or the program's length when there is none.
pub open spec fn next_op(prog: Seq<Command>, i: int) -> int
    decreases prog.len() - i,
{
    if 0 <= i < prog.len() && prog[i] is NoOp {
        next_op(prog, i + 1)
    } else {
        i
    }
}

/// Where a scan to the left from `p` stops: the highest index at or below
/// `p` of a nonzero cell, or 0.
pub open spec fn scan_left(tape: Seq<u8>, p: int) -> int
    decreases p,
{
    if p <= 0 {
        0
    } else if tape[p] != 0 {
        p
    } else {
        scan_left(tape, p - 1)
    }
}

/// The machine after `+`: the cell wraps from 255 to 0, and a cell raised
/// from 0 beyond the extent becomes the extent.
pub open spec fn after_inc(m: MachineView) -> MachineView {
    let cell = m.tape[m.dp];
    MachineView {
        tape: m.tape.update(m.dp, wrap_inc(cell)),
        extent: if cell == 0 && m.dp > m.extent { m.dp } else { m.extent },
        ..m
    }
}

/// The machine after `-`: the cell wraps from 0 to 255. A cell at the extent
/// lowered to 0 moves the extent to where a scan to the left stops; a cell
/// beyond the extent that wraps to 255 becomes the extent.
pub open spec fn after_dec(m: MachineView) -> MachineView {
    let new = wrap_dec(m.tape[m.dp]);
    let tape = m.tape.update(m.dp, new);
    MachineView {
        tape,
        extent: if new == 0 && m.dp == m.extent {
            scan_left(tape, m.dp)
        } else if new != 0 && m.dp > m.extent {
            m.dp
        } else {
            m.extent
        },
        ..m
    }
}

/// The machine after `,`: the next input byte, or 0 when there is none, goes
/// into the cell; a nonzero byte beyond the extent makes it the extent.
pub open spec fn after_input(m: MachineView) -> MachineView {
    let v: u8 = if m.input.len() == 0 { 0 } else { m.input[0] };
    MachineView {
        tape: m.tape.update(m.dp, v),
        input: if m.input.len() == 0 { m.input } else { m.input.drop_first() },
        extent: if v != 0 && m.dp > m.extent { m.dp } else { m.extent },
        ..m
    }
}

/// The effect of the command under the instruction pointer. Only a jump that
/// is taken moves the pointer; a move off the tape fails.
pub open spec fn execute_at(m: MachineView) -> MachineView {
    let cell = m.tape[m.dp];
    match m.prog[m.ip] {
        Command::JumpForward(t) => if cell == 0 { MachineView { ip: t as int, ..m } } else { m },
        Command::JumpBackward(t) => if cell != 0 { MachineView { ip: t as int, ..m } } else { m },
        Command::DecPtr => if m.dp == 0 {
            MachineView { state: RunState::Failed(RunError::TapeUnderflow), ..m }
        } else {
            MachineView { dp: m.dp - 1, ..m }
        },
        Command::IncPtr => if m.dp + 1 >= m.tape.len() {
            MachineView { state: RunState::Failed(RunError::TapeOverflow), ..m }
        } else {
            MachineView { dp: m.dp + 1, ..m }
        },
        Command::DecData => after_dec(m),
        Command::IncData => after_inc(m),
        Command::Input => after_input(m),
        Command::Output => MachineView { output: m.output.push(cell), ..m },
        Command::NoOp => m,
    }
}

/// Moves past the instruction at `i`, unless a taken jump or a failure has
/// already placed the pointer.
pub open spec fn move_on(m: MachineView, i: int) -> MachineView {
    if m.state is Running && m.ip == i {
        MachineView { ip: i + 1, ..m }
    } else {
        m
    }
}

/// A running machine skips to its next instruction that is not a no-op, and
/// is done when there is none.
pub open spec fn settle(m: MachineView) -> MachineView {
    if m.state is Running {
        let j = next_op(m.prog, m.ip);
        MachineView {
            ip: j,
            state: if j >= m.prog.len() { RunState::Completed } else { RunState::Running },
            ..m
        }
    } else {
        m
    }
}

/// One step: skip no-ops, execute the instruction reached, move past it
/// unless a jump was taken, then skip no-ops again and check for the end of
/// the program. A machine that is not running stays as it is.
pub open spec fn step(m: MachineView) -> MachineView {
    if !(m.state is Running) {
        m
    } else {
        let i = next_op(m.prog, m.ip);
        if i >= m.prog.len() {
            MachineView { ip: i, state: RunState::Completed, ..m }
        } else {
            settle(move_on(execute_at(MachineView { ip: i, ..m }), i))
        }
    }
}

/// At most `fuel` steps, stopping early once the machine is not running.
pub open spec fn run_for(m: MachineView, fuel: nat) -> MachineView
    decreases fuel,
{
    if fuel == 0 || !(m.state is Running) {
        m
    } else {
        run_for(step(m), (fuel - 1) as nat)
    }
}

/// `e` is an index of the tape and no cell beyond it is nonzero.
pub open spec fn extent_ok(tape: Seq<u8>, e: int) -> bool {
    &&& 0 <= e < tape.len()
    &&& forall|k: int| e < k < tape.len() ==> tape[k] == 0
}

/// Every jump leads to another index of the program.
pub open spec fn jumps_ok(prog: Seq<Command>) -> bool {
    forall|i: int|
        0 <= i < prog.len() ==> match #[trigger] prog[i] {
            Command::JumpForward(t) => t < prog.len() && t as int != i,
            Command::JumpBackward(t) => t < prog.len() && t as int != i,
            _ => true,
        }
}

impl MachineView {
    /// The tape is non-empty and holds the data pointer and the extent, the
    /// instruction pointer is at most the program's length, and jumps stay
    /// in the program.
    pub open spec fn valid(self) -> bool {
        &&& 1 <= self.tape.len()
        &&& 0 <= self.dp < self.tape.len()
        &&& 0 <= self.ip <= self.prog.len()
        &&& extent_ok(self.tape, self.extent)
        &&& jumps_ok(self.prog)
    }
}

/// A scan to the left from `p` stops at or below `p`, past zeros only.
proof fn lemma_scan_left(tape: Seq<u8>, p: int)
    requires
        0 <= p < tape.len(),
    ensures
        0 <= scan_left(tape, p) <= p,
        forall|k: int| scan_left(tape, p) < k <= p ==> tape[k] == 0,
    decreases p,
{
    if p > 0 && tape[p] == 0 {
        lemma_scan_left(tape, p - 1);
    }
}

/// The interpreter: a linked program, a tape of bytes and two pointers.
pub struct Machine {
    prog: Vec<Instruction>,
    data: Vec<u8>,
    prog_ctr: usize,
    data_ptr: usize,
    last_data_cell: usize,
    output: Vec<u8>,
    input: Vec<u8>,
    input_pos: usize,
    state: RunState,
}

impl View for Machine {
    type V = MachineView;

    closed spec fn view(&self) -> MachineView {
        MachineView {
            prog: commands(self.prog@),
            tape: self.data@,
            ip: self.prog_ctr as int,
            dp: self.data_ptr as int,
            output: self.output@,
            input: self.input@.skip(self.input_pos as int),
            state: self.state,
            extent: self.last_data_cell as int,
        }
    }
}

impl Machine {
    /// The instructions the machine runs.
    pub closed spec fn program(&self) -> Seq<Instruction> {
        self.prog@
    }

    /// Facts about the fields that the view does not show.
    pub closed spec fn inv(&self) -> bool {
        &&& self.input_pos <= self.input@.len()
        &&& self.prog@.len() <= usize::MAX
        &&& commands(self.prog@).len() == self.prog@.len()
        &&& forall|i: int|
            0 <= i < self.prog@.len() ==> #[trigger] commands(self.prog@)[i] == self.prog@[i].command
    }

    /// Well-formed: every machine that this library hands out is.
    pub open spec fn wf(&self) -> bool {
        self.inv() && self@.valid()
    }

    /// Links `program` into a machine with `tape_size` zeroed cells, both
    /// pointers at 0 and no input. Fails when the brackets do not pair up.
    pub fn with_tape_size(program: String, tape_size: usize) -> (r: Result<Machine, ParseError>)
        requires
            tape_size >= 1,
        ensures
            r is Ok <==> balanced(program@),
            r matches Err(e) ==> e == parse_error_of(program@),
            r matches Ok(m) ==> {
                &&& m.wf()
                &&& parsed_as(program@, m.program())
                &&& m@ == MachineView {
                    prog: commands(m.program()),
                    tape: Seq::new(tape_size as nat, |k: int| 0u8),
                    ip: 0,
                    dp: 0,
                    output: Seq::empty(),
                    input: Seq::empty(),
                    state: RunState::Running,
                    extent: 0,
                }
            },
    {
        let mut chs: Vec<char> = Vec::new();
        for c in it: program.as_str().chars()
            invariant
                chs@ == it.seq().take(it.index()),
        {
            chs.push(c);
        }
        assert(chs@ == program@);
        let prog = match parse(&chs) {
            Ok(prog) => prog,
            Err(e) => return Err(e),
        };
        let mut data: Vec<u8> = Vec::new();
        while data.len() < tape_size
            invariant
                data.len() <= tape_size,
                forall|k: int| 0 <= k < data.len() ==> data@[k] == 0,
            decreases tape_size - data.len(),
        {
            data.push(0);
        }
        let ghost cmds = commands(prog@);
        assert(cmds.len() == prog@.len());
        assert(forall|i: int| 0 <= i < prog@.len() ==> #[trigger] cmds[i] == prog@[i].command);
        assert(jumps_ok(cmds)) by {
            assert forall|i: int| 0 <= i < cmds.len() implies match #[trigger] cmds[i] {
                Command::JumpForward(t) => t < cmds.len() && t as int != i,
                Command::JumpBackward(t) => t < cmds.len() && t as int != i,
                _ => true,
            } by {
                assert(cmds[i] == prog@[i].command);
            }
        }
        let m = Machine {
            prog,
            data,
            prog_ctr: 0,
            data_ptr: 0,
            last_data_cell: 0,
            output: Vec::new(),
            input: Vec::new(),
            input_pos: 0,
            state: RunState::Running,
        };
        assert(m@.tape =~= Seq::new(tape_size as nat, |k: int| 0u8));
        assert(m@.input =~= Seq::<u8>::empty());
        Ok(m)
    }

    /// Links `program` into a machine with `TAPE_SIZE` cells.
    pub fn new(program: String) -> (r: Result<Machine, ParseError>)
        ensures
            r is Ok <==> balanced(program@),
            r matches Err(e) ==> e == parse_error_of(program@),
            r matches Ok(m) ==> {
                &&& m.wf()
                &&& parsed_as(program@, m.program())
                &&& m@ == MachineView {
                    prog: commands(m.program()),
                    tape: Seq::new(TAPE_SIZE as nat, |k: int| 0u8),
                    ip: 0,
                    dp: 0,
                    output: Seq::empty(),
                    input: Seq::empty(),
                    state: RunState::Running,
                    extent: 0,
                }
            },
    {
        Machine::with_tape_size(program, TAPE_SIZE)
    }

    /// Queues one byte for `,` to read after those already queued.
    pub fn push_input(&mut self, b: u8)
        requires
            old(self).wf(),
        ensures
            final(self).wf(),
            final(self).program() == old(self).program(),
            final(self)@ == (MachineView { input: old(self)@.input.push(b), ..old(self)@ }),
    {
        self.input.push(b);
        assert(self@.input =~= old(self)@.input.push(b));
    }

    /// Whether the next step executes `,` with no input queued.
    pub fn needs_input(&self) -> (r: bool)
        requires
            self.wf(),
        ensures
            r == {
                let i = next_op(self@.prog, self@.ip);
                &&& self@.state == RunState::Running
                &&& i < self@.prog.len()
                &&& self@.prog[i] == Command::Input
                &&& self@.input.len() == 0
            },
    {
        if self.state != RunState::Running || self.input_pos < self.input.len() {
            return false;
        }
        let mut i: usize = self.prog_ctr;
        while i < self.prog.len() && self.prog[i].command == Command::NoOp
            invariant
                self.wf(),
                self.prog_ctr <= i <= self.prog@.len(),
                next_op(self@.prog, i as int) == next_op(self@.prog, self@.ip),
            decreases self.prog@.len() - i,
        {
            i = i + 1;
        }
        i < self.prog.len() && self.prog[i].command == Command::Input
    }

    pub fn state(&self) -> (r: RunState)
        ensures
            r == self@.state,
    {
        self.state
    }

    /// Index of the next instruction.
    pub fn prog_ctr(&self) -> (r: usize)
        ensures
            r == self@.ip,
    {
        self.prog_ctr
    }

    /// Index of the current cell.
    pub fn data_ptr(&self) -> (r: usize)
        ensures
            r == self@.dp,
    {
        self.data_ptr
    }

    pub fn tape(&self) -> (r: &Vec<u8>)
        ensures
            r@ == self@.tape,
    {
        &self.data
    }

    pub fn output(&self) -> (r: &Vec<u8>)
        ensures
            r@ == self@.output,
    {
        &self.output
    }

    pub fn instructions(&self) -> (r: &Vec<Instruction>)
        ensures
            r@ == self.program(),
    {
        &self.prog
    }

    /// The instruction under the instruction pointer, if it is in range.
    pub fn current_instruction(&self) -> (r: Option<Instruction>)
        requires
            self.wf(),
        ensures
            r == if self@.ip < self.program().len() {
                Some(self.program()[self@.ip])
            } else {
                None
            },
    {
        if self.prog_ctr < self.prog.len() {
            Some(self.prog[self.prog_ctr])
        } else {
            None
        }
    }

    /// Highest index of a nonzero cell, or 0 when all cells are zero: how
    /// much of the tape a viewer needs to show.
    pub fn active_extent(&self) -> (r: usize)
        requires
            self.wf(),
        ensures
            r == self@.extent,
    {
        self.last_data_cell
    }

    /// Scans left from the data pointer for a nonzero cell, stopping at 0.
    fn scan_extent(&self) -> (r: usize)
        requires
            self.data_ptr < self.data@.len(),
        ensures
            r == scan_left(self.data@, self.data_ptr as int),
    {
        let mut p: usize = self.data_ptr;
        while p > 0 && self.data[p] == 0
            invariant
                p <= self.data_ptr < self.data@.len(),
                scan_left(self.data@, p as int) == scan_left(self.data@, self.data_ptr as int),
            decreases p,
        {
            p = p - 1;
        }
        p
    }

    /// Decrements the current cell, wrapping from 0 to 255, and updates the
    /// active extent.
    pub fn dec_data(&mut self)
        requires
            old(self).wf(),
        ensures
            final(self).wf(),
            final(self).program() == old(self).program(),
            final(self)@ == after_dec(old(self)@),
    {
        let dp = self.data_ptr;
        let v = self.data[dp];
        let w: u8 = if v == 0 { 255 } else { v - 1 };
        self.data.set(dp, w);
        if w == 0 && dp == self.last_data_cell {
            let e = self.scan_extent();
            proof {
                lemma_scan_left(self.data@, dp as int);
            }
            self.last_data_cell = e;
        } else if w != 0 && dp > self.last_data_cell {
            self.last_data_cell = dp;
        }
    }

    /// Increments the current cell, wrapping from 255 to 0, and updates the
    /// active extent.
    pub fn inc_data(&mut self)
        requires
            old(self).wf(),
        ensures
            final(self).wf(),
            final(self).program() == old(self).program(),
            final(self)@ == after_inc(old(self)@),
    {
        let dp = self.data_ptr;
        let v = self.data[dp];
        let w: u8 = if v == 255 { 0 } else { v + 1 };
        self.data.set(dp, w);
        if v == 0 && dp > self.last_data_cell {
            self.last_data_cell = dp;
        }
    }

    /// `[`: jumps to `i` when the current cell is zero.
    pub fn jmp_eq(&mut self, i: usize)
        requires
            old(self).wf(),
            i <= old(self)@.prog.len(),
        ensures
            final(self).wf(),
            final(self).program() == old(self).program(),
            final(self)@ == (if old(self)@.tape[old(self)@.dp] == 0 {
                MachineView { ip: i as int, ..old(self)@ }
            } else {
                old(self)@
            }),
    {
        if self.data[self.data_ptr] == 0 {
            self.prog_ctr = i;
        }
    }

    /// `]`: jumps to `i` when the current cell is nonzero.
    pub fn jmp_ne(&mut self, i: usize)
        requires
            old(self).wf(),
            i <= old(self)@.prog.len(),
        ensures
            final(self).wf(),
            final(self).program() == old(self).program(),
            final(self)@ == (if old(self)@.tape[old(self)@.dp] != 0 {
                MachineView { ip: i as int, ..old(self)@ }
            } else {
                old(self)@
            }),
    {
        if self.data[self.data_ptr] != 0 {
            self.prog_ctr = i;
        }
    }

    /// Stores the next input byte in the current cell, or 0 when the input
    /// is exhausted.
    fn read_input(&mut self)
        requires
            old(self).wf(),
        ensures
            final(self).wf(),
            final(self).program() == old(self).program(),
            final(self)@ == after_input(old(self)@),
    {
        let dp = self.data_ptr;
        if self.input_pos < self.input.len() {
            let b = self.input[self.input_pos];
            self.input_pos = self.input_pos + 1;
            self.data.set(dp, b);
            if b != 0 && dp > self.last_data_cell {
                self.last_data_cell = dp;
            }
            assert(self@.input =~= old(self)@.input.drop_first());
        } else {
            self.data.set(dp, 0);
        }
    }

    /// Executes the command under the instruction pointer. Only a jump that
    /// is taken moves the instruction pointer.
    pub fn execute(&mut self)
        requires
            old(self).wf(),
            old(self)@.state == RunState::Running,
            old(self)@.ip < old(self)@.prog.len(),
        ensures
            final(self).wf(),
            final(self).program() == old(self).program(),
            final(self)@ == execute_at(old(self)@),
    {
        let ins = self.prog[self.prog_ctr];
        assert(self@.prog[self.prog_ctr as int] == ins.command);
        match ins.command {
            Command::JumpForward(t) => self.jmp_eq(t),
            Command::JumpBackward(t) => self.jmp_ne(t),
            Command::DecPtr => {
                if self.data_ptr == 0 {
                    self.state = RunState::Failed(RunError::TapeUnderflow);
                } else {
                    self.data_ptr = self.data_ptr - 1;
                }
            },
            Command::IncPtr => {
                if self.data_ptr >= self.data.len() - 1 {
                    self.state = RunState::Failed(RunError::TapeOverflow);
                } else {
                    self.data_ptr = self.data_ptr + 1;
                }
            },
            Command::DecData => self.dec_data(),
            Command::IncData => self.inc_data(),
            Command::Input => self.read_input(),
            Command::Output => {
                let cell = self.data[self.data_ptr];
                self.output.push(cell);
            },
            Command::NoOp => {},
        }
    }

    /// Moves the instruction pointer over no-ops, and completes a running
    /// machine that reaches the end of the program.
    fn skip_noops(&mut self)
        requires
            old(self).wf(),
            old(self)@.state == RunState::Running,
        ensures
            final(self).wf(),
            final(self).program() == old(self).program(),
            final(self)@ == settle(old(self)@),
    {
        while self.prog_ctr < self.prog.len() && self.prog[self.prog_ctr].command == Command::NoOp
            invariant
                self.wf(),
                self.program() == old(self).program(),
                self.state == RunState::Running,
                self@ == (MachineView { ip: self.prog_ctr as int, ..old(self)@ }),
                next_op(self@.prog, self@.ip) == next_op(old(self)@.prog, old(self)@.ip),
            decreases self.prog@.len() - self.prog_ctr,
        {
            self.prog_ctr = self.prog_ctr + 1;
        }
        if self.prog_ctr >= self.prog.len() {
            self.state = RunState::Completed;
        }
    }

    /// Advances the machine by one instruction that is not a no-op: the
    /// step of the engine. Returns the state reached.
    pub fn advance(&mut self) -> (r: RunState)
        requires
            old(self).wf(),
        ensures
            final(self).wf(),
            final(self).program() == old(self).program(),
            final(self)@ == step(old(self)@),
            r == final(self)@.state,
    {
        if self.state != RunState::Running {
            return self.state;
        }
        self.skip_noops();
        if self.state != RunState::Running {
            return self.state;
        }
        let i = self.prog_ctr;
        self.execute();
        if self.state == RunState::Running && self.prog_ctr == i {
            self.prog_ctr = i + 1;
        }
        if self.state == RunState::Running {
            self.skip_noops();
        }
        self.state
    }

    /// Steps until the machine stops running or `max_steps` steps were made.
    /// Returns the state reached.
    pub fn run_to_completion(&mut self, max_steps: usize) -> (r: RunState)
        requires
            old(self).wf(),
        ensures
            final(self).wf(),
            final(self).program() == old(self).program(),
            final(self)@ == run_for(old(self)@, max_steps as nat),
            r == final(self)@.state,
    {
        let mut n: usize = 0;
        while n < max_steps && self.state == RunState::Running
            invariant
                n <= max_steps,
                self.wf(),
                self.program() == old(self).program(),
                run_for(self@, (max_steps - n) as nat) == run_for(old(self)@, max_steps as nat),
            decreases max_steps - n,
        {
            self.advance();
            n = n + 1;
        }
        self.state
    }
}

} // verus!
