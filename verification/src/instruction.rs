//! Instructions and how a program line is read as one.
use vstd::prelude::*;
use crate::op_code::{decode_spec as decode_op_code_spec, OpCode};
use crate::registers::{reg_name_spec, Registers};
use crate::text::{
    chars_of, int_text, pad_right, parse_i64, parse_i64_spec, pieces_view, push_i64, push_padded,
    split, split_spec,
};
use crate::AsReg;

verus! {

/// An instruction.
#[derive(Debug, Clone)]
pub struct Instruction {
    pub op_code: OpCode,
    pub inputs: [i64; 2],
    pub output: i64,
}

/// What a program line says. The line is split at every space. Its first
/// token names the opcode, and the three tokens after it are the two inputs
/// and the output, each written as a signed 64-bit integer; what follows
/// them is not looked at. `None` for any other line.
pub open spec fn decode_spec(line: Seq<char>) -> Option<(OpCode, i64, i64, i64)> {
    let tokens = split_spec(line, ' ');
    if tokens.len() < 4 {
        None
    } else {
        match (
            decode_op_code_spec(tokens[0]),
            parse_i64_spec(tokens[1]),
            parse_i64_spec(tokens[2]),
            parse_i64_spec(tokens[3]),
        ) {
            (Some(op_code), Some(a), Some(b), Some(o)) => Some((op_code, a, b, o)),
            _ => None,
        }
    }
}

/// The instruction as a program writes it: the name of the opcode and the
/// three operands, with one space between them.
pub open spec fn instruction_text(parts: (OpCode, i64, i64, i64)) -> Seq<char> {
    parts.0.name_spec() + " "@ + int_text(parts.1 as int) + " "@ + int_text(parts.2 as int) + " "@
        + int_text(parts.3 as int)
}

/// The instruction as an assignment, where register `ip` holds the
/// instruction pointer: the name of the output register, padded to two
/// characters, then ` = ` and the expression that is computed. An operand
/// that names a register is shown by the register's name, an immediate by
/// its value.
pub open spec fn human_text(parts: (OpCode, i64, i64, i64), ip: usize) -> Seq<char> {
    let (op_code, a, b, o) = parts;
    let target = pad_right(reg_name_spec(ip, o.as_reg_spec()), 2) + " = "@;
    let first = if op_code.first_is_register() {
        reg_name_spec(ip, a.as_reg_spec())
    } else {
        int_text(a as int)
    };
    if op_code is Setr || op_code is Seti {
        target + first
    } else {
        let second = if op_code.second_is_register() {
            reg_name_spec(ip, b.as_reg_spec())
        } else {
            int_text(b as int)
        };
        target + first + " "@ + op_code.infix_spec() + " "@ + second
    }
}

/// An instruction, to be shown as a program writes it.
pub struct Display<'a> {
    inst: &'a Instruction,
}

impl<'a> Display<'a> {
    /// The text that is shown.
    pub closed spec fn text(&self) -> Seq<char> {
        instruction_text(self.inst.parts())
    }

    /// The text as a string.
    pub fn to_string(&self) -> (r: String)
        ensures
            r@ == self.text(),
    {
        let mut out = String::new();
        out.append(self.inst.op_code.name());
        out.append(" ");
        push_i64(&mut out, self.inst.inputs[0]);
        out.append(" ");
        push_i64(&mut out, self.inst.inputs[1]);
        out.append(" ");
        push_i64(&mut out, self.inst.output);
        out
    }
}

/// An instruction, to be shown as an assignment.
pub struct HumanDisplay<'a> {
    inst: &'a Instruction,
    registers: &'a Registers,
}

impl<'a> HumanDisplay<'a> {
    /// The text that is shown.
    pub closed spec fn text(&self) -> Seq<char> {
        human_text(self.inst.parts(), self.registers@.ip)
    }

    /// The text as a string.
    pub fn to_string(&self) -> (r: String)
        ensures
            r@ == self.text(),
    {
        let op = self.inst.op_code;
        let a = self.inst.inputs[0];
        let b = self.inst.inputs[1];
        let o = self.inst.output;
        let r = self.registers;
        let mut out = String::new();
        let target = r.name(o).to_string();
        push_padded(&mut out, target.as_str(), 2);
        out.append(" = ");
        match op {
            OpCode::Seti | OpCode::Gtir | OpCode::Eqir => {
                push_i64(&mut out, a);
            },
            _ => {
                let first = r.name(a).to_string();
                out.append(first.as_str());
            },
        }
        match op {
            OpCode::Setr | OpCode::Seti => {},
            OpCode::Addr
            | OpCode::Mulr
            | OpCode::Banr
            | OpCode::Borr
            | OpCode::Gtir
            | OpCode::Gtrr
            | OpCode::Eqir
            | OpCode::Eqrr => {
                out.append(" ");
                out.append(op.infix());
                out.append(" ");
                let second = r.name(b).to_string();
                out.append(second.as_str());
            },
            _ => {
                out.append(" ");
                out.append(op.infix());
                out.append(" ");
                push_i64(&mut out, b);
            },
        }
        out
    }
}

impl Instruction {
    /// Display this instruction.
    pub fn display<'a>(&'a self) -> (r: Display<'a>)
        ensures
            r.text() == instruction_text(self.parts()),
    {
        Display { inst: self }
    }

    /// Provide a human-readable display implementation for this instruction.
    pub fn human_display<'a>(&'a self, registers: &'a Registers) -> (r: HumanDisplay<'a>)
        ensures
            r.text() == human_text(self.parts(), registers@.ip),
    {
        HumanDisplay { inst: self, registers }
    }

    /// The opcode and the three operands of the instruction.
    pub open spec fn parts(&self) -> (OpCode, i64, i64, i64) {
        (self.op_code, self.inputs[0], self.inputs[1], self.output)
    }

    /// Reads an instruction from a program line.
    pub fn decode(state: &str) -> (r: Option<Instruction>)
        ensures
            match r {
                Some(inst) => decode_spec(state@) == Some(inst.parts()),
                None => decode_spec(state@) is None,
            },
    {
        let chars = chars_of(state);
        Instruction::decode_chars(chars.as_slice())
    }

    /// Reads an instruction from the characters of a program line.
    pub fn decode_chars(line: &[char]) -> (r: Option<Instruction>)
        ensures
            match r {
                Some(inst) => decode_spec(line@) == Some(inst.parts()),
                None => decode_spec(line@) is None,
            },
    {
        let tokens = split(line, ' ');
        if tokens.len() < 4 {
            return None;
        }
        proof {
            let pieces = pieces_view(tokens@);
            assert(pieces[0] == tokens@[0]@ && pieces[1] == tokens@[1]@);
            assert(pieces[2] == tokens@[2]@ && pieces[3] == tokens@[3]@);
        }
        let op_code = OpCode::decode_chars(tokens[0].as_slice())?;
        let a = parse_i64(tokens[1].as_slice())?;
        let b = parse_i64(tokens[2].as_slice())?;
        let o = parse_i64(tokens[3].as_slice())?;
        Some(Instruction { op_code, inputs: [a, b], output: o })
    }
}

} // verus!
