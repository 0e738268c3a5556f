//! The machine: a program, the registers, and the step that runs one
//! instruction.
use vstd::prelude::*;
use hashbrown::HashSet;
use crate::error::{Error, ErrorView};
use crate::instruction::{decode_spec, Instruction};
use crate::op_code::OpCode;
use crate::registers::{Registers, RegistersView};
use crate::sets::{index_set_clear, index_set_insert, index_set_new, index_set_view};
use crate::AsReg;
use crate::text::{
    chars_of, parse_usize, parse_usize_spec, pieces_view, split, split_spec, string_of,
};

verus! {

/// The machine as a mathematical value.
pub struct DeviceView {
    /// Whether the last step found the instruction pointer past the program.
    pub halted: bool,
    /// The program: opcode, two inputs and output of each instruction.
    pub instructions: Seq<(OpCode, i64, i64, i64)>,
    /// The registers.
    pub registers: RegistersView,
    /// The number of instructions that have been executed.
    pub count: usize,
    /// The instruction pointers at which an instruction has been executed.
    pub unique: Set<usize>,
}

/// What one step does to the machine, and how it ends.
///
/// - A halted machine stays as it is.
/// - Where the register chosen for the instruction pointer does not exist,
///   nothing changes and the step fails with `BadIpRegister`.
/// - Where the instruction pointer is past the program, the machine halts
///   and `count` goes up by one; the registers stay as they are.
/// - Otherwise the instruction pointer is remembered as `last_ip` and the
///   instruction at it is applied. If that fails, the step fails with the
///   same error and what the instruction did to the registers stays. If it
///   succeeds, the instruction-pointer cell is incremented (wrapping), the
///   pointer is added to `unique` and `count` goes up by one.
pub open spec fn step_spec(d: DeviceView) -> (DeviceView, Result<(), Error>) {
    if d.halted {
        (d, Ok(()))
    } else if d.registers.ip >= 6 {
        (d, Err(Error::BadIpRegister(d.registers.ip)))
    } else {
        let ip = d.registers.ip_value();
        if ip >= d.instructions.len() {
            (DeviceView { halted: true, count: (d.count + 1) as usize, ..d }, Ok(()))
        } else {
            let (op_code, a, b, o) = d.instructions[ip as int];
            let fetched = RegistersView { last_ip: Some(ip), ..d.registers };
            let (applied, result) = op_code.apply_spec(fetched, a, b, o);
            match result {
                Err(e) => (DeviceView { registers: applied, ..d }, Err(e)),
                Ok(()) => (
                    DeviceView {
                        registers: applied.store(
                            applied.ip,
                            applied.cells[applied.ip as int].wrapping_add(1),
                        ),
                        count: (d.count + 1) as usize,
                        unique: d.unique.insert(ip),
                        ..d
                    },
                    Ok(()),
                ),
            }
        }
    }
}

/// What a program line is.
#[derive(Debug, Clone, Copy, PartialEq, Eq)]
pub enum Line {
    /// `#ip N`: register `N` holds the instruction pointer.
    Directive(usize),
    /// An instruction, by its parts.
    Instruction((OpCode, i64, i64, i64)),
}

/// Whether `line` is a directive: it starts with `#ip`.
pub open spec fn is_directive(line: Seq<char>) -> bool {
    line.len() >= 3 && line[0] == '#' && line[1] == 'i' && line[2] == 'p'
}

/// What the program line `line` says.
///
/// A line that starts with `#ip` is a directive. Its argument is the text
/// between the first and the second space; it must be written as a register
/// index, `0` to `5`. Every other line must be an instruction; an empty
/// line is none, and is in error like any other line that is none.
pub open spec fn line_spec(line: Seq<char>) -> Result<Line, ErrorView> {
    if is_directive(line) {
        let tokens = split_spec(line, ' ');
        if tokens.len() < 2 {
            Err(ErrorView::MissingIpArgument)
        } else {
            match parse_usize_spec(tokens[1]) {
                Some(index) => if index < 6 {
                    Ok(Line::Directive(index))
                } else {
                    Err(ErrorView::BadIpArgument(tokens[1]))
                },
                None => Err(ErrorView::BadIpArgument(tokens[1])),
            }
        }
    } else {
        match decode_spec(line) {
            Some(parts) => Ok(Line::Instruction(parts)),
            None => Err(ErrorView::BadInstruction(line)),
        }
    }
}

/// What loading `lines` gives when register `ip` held the instruction
/// pointer before: the instructions read, the register that holds the
/// instruction pointer afterwards, and how the load ended. Loading stops at
/// the first line that is in error; what was read before it stays.
pub open spec fn load_spec(lines: Seq<Seq<char>>, ip: usize) -> (
    Seq<(OpCode, i64, i64, i64)>,
    usize,
    Result<(), ErrorView>,
)
    decreases lines.len(),
{
    if lines.len() == 0 {
        (Seq::empty(), ip, Ok(()))
    } else {
        let (instructions, ip, result) = load_spec(lines.drop_last(), ip);
        if result is Err {
            (instructions, ip, result)
        } else {
            match line_spec(lines.last()) {
                Ok(Line::Directive(index)) => (instructions, index, Ok(())),
                Ok(Line::Instruction(parts)) => (instructions.push(parts), ip, Ok(())),
                Err(e) => (instructions, ip, Err(e)),
            }
        }
    }
}

/// The lines of `input` as sequences of characters.
pub open spec fn lines_view(input: Seq<&str>) -> Seq<Seq<char>> {
    Seq::new(input.len(), |i: int| input[i]@)
}

/// Whether a step of `d` runs an instruction: the machine is not halted, the
/// register chosen for the instruction pointer exists, and the instruction
/// pointer lies within the program.
pub open spec fn runs_instruction(d: DeviceView) -> bool {
    !d.halted && d.registers.ip < 6 && d.registers.ip_value() < d.instructions.len()
}

/// The registers that the instruction `op_code a b o` reads.
pub open spec fn registers_read(op_code: OpCode, a: i64, b: i64) -> Set<usize> {
    let first: Set<usize> = if op_code.first_is_register() {
        set![a.as_reg_spec()]
    } else {
        Set::empty()
    };
    if op_code.second_is_register() {
        first.insert(b.as_reg_spec())
    } else {
        first
    }
}

/// A step that succeeds on a machine that is not halted counts as exactly
/// one, whether it ran an instruction or found the program at its end.
pub proof fn lemma_step_counts_one(d: DeviceView)
    requires
        !d.halted,
        d.count < usize::MAX,
        step_spec(d).1 is Ok,
    ensures
        step_spec(d).0.count == d.count + 1,
{
}

/// After a step that ran an instruction, `last_ip` is the instruction
/// pointer with which the instruction was fetched.
pub proof fn lemma_step_remembers_ip(d: DeviceView)
    requires
        runs_instruction(d),
    ensures
        step_spec(d).0.registers.last_ip == Some(d.registers.ip_value()),
{
}

/// After a step that ran an instruction successfully, the instruction-pointer
/// cell holds one more (wrapping) than the instruction stored there, if it
/// wrote to that register, and one more than it held before otherwise.
pub proof fn lemma_step_advances_ip(d: DeviceView)
    requires
        runs_instruction(d),
        d.registers.cells.len() == 6,
        step_spec(d).1 is Ok,
    ensures
        ({
            let (op_code, a, b, o) = d.instructions[d.registers.ip_value() as int];
            let ip = d.registers.ip;
            let after = step_spec(d).0.registers.cells[ip as int];
            if o.as_reg_spec() == ip {
                let x = if op_code.first_is_register() {
                    d.registers.cells[a.as_reg_spec() as int]
                } else {
                    a
                };
                let y = if op_code.second_is_register() {
                    d.registers.cells[b.as_reg_spec() as int]
                } else {
                    b
                };
                after == op_code.compute(x, y).wrapping_add(1)
            } else {
                after == d.registers.cells[ip as int].wrapping_add(1)
            }
        }),
{
}

/// After a step that ran an instruction which did not write to the
/// instruction-pointer register, that register holds `last_ip + 1`, provided
/// the pointer it held was a non-negative number that an index can hold and
/// that can be incremented.
pub proof fn lemma_step_ip_follows_last_ip(d: DeviceView)
    requires
        runs_instruction(d),
        d.registers.cells.len() == 6,
        step_spec(d).1 is Ok,
        d.instructions[d.registers.ip_value() as int].3.as_reg_spec() != d.registers.ip,
        0 <= d.registers.cells[d.registers.ip as int] <= usize::MAX,
        d.registers.cells[d.registers.ip as int] < i64::MAX,
    ensures
        step_spec(d).0.registers.last_ip matches Some(last_ip) && step_spec(
            d,
        ).0.registers.cells[d.registers.ip as int] == last_ip + 1,
{
}

/// After `clear` and a successful step, the two records hold exactly the
/// registers that the step touched: those that the instruction read and the
/// one that it wrote; none where the step ran no instruction.
pub proof fn lemma_step_records_touched(d: DeviceView)
    requires
        d.registers.cells.len() == 6,
        step_spec(DeviceView { registers: d.registers.cleared(), ..d }).1 is Ok,
    ensures
        ({
            let cleared = DeviceView { registers: d.registers.cleared(), ..d };
            let after = step_spec(cleared).0.registers;
            if runs_instruction(cleared) {
                let (op_code, a, b, o) = d.instructions[d.registers.ip_value() as int];
                &&& after.read == registers_read(op_code, a, b)
                &&& after.written == set![o.as_reg_spec()]
            } else {
                &&& after.read == Set::<usize>::empty()
                &&& after.written == Set::<usize>::empty()
            }
        }),
{
}

/// A step of a halted machine changes nothing and succeeds; after `clear`,
/// therefore, both records stay empty.
pub proof fn lemma_halted_step_does_nothing(d: DeviceView)
    requires
        d.halted,
    ensures
        step_spec(d) == (d, Ok::<(), Error>(())),
        step_spec(DeviceView { registers: d.registers.cleared(), ..d }).0.registers.read
            == Set::<usize>::empty(),
        step_spec(DeviceView { registers: d.registers.cleared(), ..d }).0.registers.written
            == Set::<usize>::empty(),
{
}

impl DeviceView {
    /// The machine as it is before its first step: not halted, nothing
    /// counted, all cells zero, nothing recorded. The program and the choice
    /// of the instruction-pointer register are those of `self`.
    pub open spec fn restarted(self) -> DeviceView {
        DeviceView {
            halted: false,
            instructions: self.instructions,
            registers: RegistersView {
                cells: Seq::new(6, |i: int| 0i64),
                written: Set::empty(),
                read: Set::empty(),
                last_ip: None,
                ip: self.registers.ip,
            },
            count: 0,
            unique: Set::empty(),
        }
    }
}

/// The parts of each instruction of `v`.
pub open spec fn program_view(v: Seq<Instruction>) -> Seq<(OpCode, i64, i64, i64)> {
    Seq::new(v.len(), |i: int| v[i].parts())
}

/// Once loading has failed at a line, the lines after it change nothing.
pub proof fn lemma_load_stops(lines: Seq<Seq<char>>, k: int, ip: usize)
    requires
        0 <= k < lines.len(),
        load_spec(lines.take(k + 1), ip).2 is Err,
    ensures
        load_spec(lines, ip) == load_spec(lines.take(k + 1), ip),
    decreases lines.len(),
{
    if k + 1 == lines.len() {
        assert(lines.take(k + 1) =~= lines);
    } else {
        assert(lines.drop_last().take(k + 1) =~= lines.take(k + 1));
        lemma_load_stops(lines.drop_last(), k, ip);
    }
}

/// Reads one program line.
pub fn read_line(line: &[char]) -> (r: Result<Line, Error>)
    ensures
        match r {
            Ok(l) => line_spec(line@) == Ok::<Line, ErrorView>(l),
            Err(e) => line_spec(line@) == Err::<Line, ErrorView>(e@),
        },
{
    if line.len() >= 3 && line[0] == '#' && line[1] == 'i' && line[2] == 'p' {
        let tokens = split(line, ' ');
        if tokens.len() < 2 {
            return Err(Error::MissingIpArgument);
        }
        match parse_usize(tokens[1].as_slice()) {
            Some(index) => {
                if index < 6 {
                    Ok(Line::Directive(index))
                } else {
                    Err(Error::BadIpArgument(string_of(tokens[1].as_slice())))
                }
            },
            None => Err(Error::BadIpArgument(string_of(tokens[1].as_slice()))),
        }
    } else {
        match Instruction::decode_chars(line) {
            Some(inst) => Ok(Line::Instruction((inst.op_code, inst.inputs[0], inst.inputs[1], inst.output))),
            None => Err(Error::BadInstruction(string_of(line))),
        }
    }
}

#[derive(Debug)]
pub struct Device {
    /// If the device is halted.
    pub halted: bool,
    /// Loaded instructions.
    pub instructions: Vec<Instruction>,
    pub registers: Registers,
    /// Count of number of instructions that has been executed.
    pub count: usize,
    /// Unique instructions that has been run.
    pub unique: HashSet<usize>,
}

impl View for Device {
    type V = DeviceView;

    open spec fn view(&self) -> DeviceView {
        DeviceView {
            halted: self.halted,
            instructions: program_view(self.instructions@),
            registers: self.registers@,
            count: self.count,
            unique: index_set_view(self.unique),
        }
    }
}

impl Default for Device {
    /// A machine without a program: not halted, nothing counted, registers
    /// as `Registers::default` makes them.
    fn default() -> (d: Device)
        ensures
            d@ == (DeviceView {
                halted: false,
                instructions: Seq::empty(),
                registers: RegistersView {
                    cells: Seq::new(6, |i: int| 0i64),
                    written: Set::empty(),
                    read: Set::empty(),
                    last_ip: None,
                    ip: 0,
                },
                count: 0,
                unique: Set::empty(),
            }),
    {
        let d = Device {
            halted: false,
            instructions: Vec::new(),
            registers: Registers::default(),
            count: 0,
            unique: index_set_new(),
        };
        assert(d@.instructions =~= Seq::empty());
        d
    }
}

impl Device {
    /// Runs one instruction, or halts where the instruction pointer has left
    /// the program. On a halted machine a step does nothing.
    pub fn step(&mut self) -> (r: Result<(), Error>)
        requires
            old(self).count < usize::MAX,
        ensures
            (final(self)@, r) == step_spec(old(self)@),
    {
        if self.halted {
            return Ok(());
        }
        let ip = self.registers.ip()?;
        if ip >= self.instructions.len() {
            self.halted = true;
            self.count += 1;
            return Ok(());
        }
        self.registers.set_last_ip(Some(ip));
        let inst = &self.instructions[ip];
        inst.op_code.apply(&mut self.registers, &inst.inputs, inst.output)?;
        let cell = self.registers.ip_mut()?;
        *cell = cell.wrapping_add(1);
        index_set_insert(&mut self.unique, ip);
        self.count += 1;
        Ok(())
    }

    /// Load a program.
    ///
    /// The machine is reset and its program emptied; then the lines are read
    /// in order. The register that holds the instruction pointer stays as it
    /// was unless a directive names another.
    pub fn load(&mut self, input: &[&str]) -> (r: Result<(), Error>)
        ensures
            ({
                let (instructions, ip, result) = load_spec(
                    lines_view(input@),
                    old(self)@.registers.ip,
                );
                &&& final(self)@ == (DeviceView {
                    instructions,
                    registers: RegistersView { ip, ..old(self)@.restarted().registers },
                    ..old(self)@.restarted()
                })
                &&& match r {
                    Ok(()) => result is Ok,
                    Err(e) => result == Err::<(), ErrorView>(e@),
                }
            }),
    {
        self.reset();
        self.instructions.clear();
        let ghost lines = lines_view(input@);
        let ghost ip0 = self@.registers.ip;
        let mut i: usize = 0;
        while i < input.len()
            invariant
                i <= input.len(),
                lines == lines_view(input@),
                ip0 == old(self)@.registers.ip,
                self@.halted == false,
                self@.count == 0,
                self@.unique == Set::<usize>::empty(),
                self@.registers.cells == Seq::new(6, |i: int| 0i64),
                self@.registers.written == Set::<usize>::empty(),
                self@.registers.read == Set::<usize>::empty(),
                self@.registers.last_ip == None::<usize>,
                load_spec(lines.take(i as int), ip0) == (
                    self@.instructions,
                    self@.registers.ip,
                    Ok::<(), ErrorView>(()),
                ),
            decreases input.len() - i,
        {
            assert(lines.take(i + 1).drop_last() =~= lines.take(i as int));
            let line = chars_of(input[i]);
            match read_line(line.as_slice()) {
                Ok(Line::Directive(index)) => {
                    self.registers.set_ip_index(index);
                },
                Ok(Line::Instruction(parts)) => {
                    self.instructions.push(
                        Instruction { op_code: parts.0, inputs: [parts.1, parts.2], output: parts.3 },
                    );
                },
                Err(e) => {
                    proof {
                        lemma_load_stops(lines, i as int, ip0);
                    }
                    return Err(e);
                },
            }
            i += 1;
        }
        assert(lines.take(i as int) =~= lines);
        Ok(())
    }

    /// Clear all temporary state for the device.
    ///
    /// Temporary state keeps track of things that has been modified.
    pub fn clear(&mut self)
        ensures
            final(self)@ == (DeviceView { registers: old(self)@.registers.cleared(), ..old(self)@ }),
    {
        self.registers.clear();
    }

    /// Brings the machine back to its state before the first step. The
    /// program and the choice of the instruction-pointer register stay.
    pub fn reset(&mut self)
        ensures
            final(self)@ == old(self)@.restarted(),
    {
        self.halted = false;
        self.count = 0;
        index_set_clear(&mut self.unique);
        self.registers.reset();
    }
}

} // verus!
