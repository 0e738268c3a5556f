//! The sixteen opcodes of the machine: their names, their infix symbols and
//! what each computes.
use vstd::prelude::*;
use crate::error::Error;
use crate::registers::{Registers, RegistersView};
use crate::text::chars_of;
use crate::AsReg;

verus! {

#[derive(Debug, Clone, Copy, PartialEq, Eq, Structural, Hash, PartialOrd, Ord)]
pub enum OpCode {
    Addr,
    Addi,
    Mulr,
    Muli,
    Banr,
    Bani,
    Borr,
    Bori,
    Setr,
    Seti,
    Gtir,
    Gtri,
    Gtrr,
    Eqir,
    Eqri,
    Eqrr,
}

/// The opcode that the four characters name, if any.
pub open spec fn decode_spec(s: Seq<char>) -> Option<OpCode> {
    if s == seq!['a', 'd', 'd', 'r'] {
        Some(OpCode::Addr)
    } else if s == seq!['a', 'd', 'd', 'i'] {
        Some(OpCode::Addi)
    } else if s == seq!['m', 'u', 'l', 'r'] {
        Some(OpCode::Mulr)
    } else if s == seq!['m', 'u', 'l', 'i'] {
        Some(OpCode::Muli)
    } else if s == seq!['b', 'a', 'n', 'r'] {
        Some(OpCode::Banr)
    } else if s == seq!['b', 'a', 'n', 'i'] {
        Some(OpCode::Bani)
    } else if s == seq!['b', 'o', 'r', 'r'] {
        Some(OpCode::Borr)
    } else if s == seq!['b', 'o', 'r', 'i'] {
        Some(OpCode::Bori)
    } else if s == seq!['s', 'e', 't', 'r'] {
        Some(OpCode::Setr)
    } else if s == seq!['s', 'e', 't', 'i'] {
        Some(OpCode::Seti)
    } else if s == seq!['g', 't', 'i', 'r'] {
        Some(OpCode::Gtir)
    } else if s == seq!['g', 't', 'r', 'i'] {
        Some(OpCode::Gtri)
    } else if s == seq!['g', 't', 'r', 'r'] {
        Some(OpCode::Gtrr)
    } else if s == seq!['e', 'q', 'i', 'r'] {
        Some(OpCode::Eqir)
    } else if s == seq!['e', 'q', 'r', 'i'] {
        Some(OpCode::Eqri)
    } else if s == seq!['e', 'q', 'r', 'r'] {
        Some(OpCode::Eqrr)
    } else {
        None
    }
}

/// What a read of the register named by `x` does: the read is recorded, and
/// the cell's value comes back if such a register exists.
pub open spec fn read_spec(r: RegistersView, x: i64) -> (RegistersView, Result<i64, Error>) {
    let index = x.as_reg_spec();
    (
        r.touch_read(index),
        if index < 6 {
            Ok(r.cells[index as int])
        } else {
            Err(Error::BadRegister(index))
        },
    )
}

/// What a write of `value` to the register named by `o` does: the write is
/// recorded, and the value is stored if such a register exists.
pub open spec fn write_spec(r: RegistersView, o: i64, value: i64) -> (
    RegistersView,
    Result<(), Error>,
) {
    let index = o.as_reg_spec();
    if index < 6 {
        (r.touch_written(index).store(index, value), Ok(()))
    } else {
        (r.touch_written(index), Err(Error::BadRegister(index)))
    }
}

impl OpCode {
    /// Whether the first operand names a register (else it is an immediate).
    pub open spec fn first_is_register(self) -> bool {
        !(self is Seti || self is Gtir || self is Eqir)
    }

    /// Whether the second operand names a register. Where it does not, it is
    /// an immediate, or, for `setr` and `seti`, ignored.
    pub open spec fn second_is_register(self) -> bool {
        self is Addr || self is Mulr || self is Banr || self is Borr || self is Gtir
            || self is Gtrr || self is Eqir || self is Eqrr
    }

    /// The value that the opcode computes from its two operand values.
    /// Sums and products wrap around at 64 bits.
    pub open spec fn compute(self, x: i64, y: i64) -> i64 {
        match self {
            OpCode::Addr | OpCode::Addi => x.wrapping_add(y),
            OpCode::Mulr | OpCode::Muli => x.wrapping_mul(y),
            OpCode::Banr | OpCode::Bani => x & y,
            OpCode::Borr | OpCode::Bori => x | y,
            OpCode::Setr | OpCode::Seti => x,
            OpCode::Gtir | OpCode::Gtri | OpCode::Gtrr => if x > y {
                1
            } else {
                0
            },
            OpCode::Eqir | OpCode::Eqri | OpCode::Eqrr => if x == y {
                1
            } else {
                0
            },
        }
    }

    /// The effect of the instruction `self a b o` on the registers `r`.
    ///
    /// The register operands are read first, `a` before `b`; then the result
    /// is written to register `o`. The first access to a register that does
    /// not exist ends the instruction with `BadRegister`, after that access
    /// has been recorded.
    pub open spec fn apply_spec(self, r: RegistersView, a: i64, b: i64, o: i64) -> (
        RegistersView,
        Result<(), Error>,
    ) {
        let (r1, x) = if self.first_is_register() {
            read_spec(r, a)
        } else {
            (r, Ok(a))
        };
        match x {
            Err(e) => (r1, Err(e)),
            Ok(x) => {
                let (r2, y) = if self.second_is_register() {
                    read_spec(r1, b)
                } else {
                    (r1, Ok(b))
                };
                match y {
                    Err(e) => (r2, Err(e)),
                    Ok(y) => write_spec(r2, o, self.compute(x, y)),
                }
            },
        }
    }

    /// Apply the given operation to the registers.
    pub fn apply(&self, r: &mut Registers, inputs: &[i64; 2], o: i64) -> (res: Result<(), Error>)
        ensures
            (final(r)@, res) == self.apply_spec(old(r)@, inputs[0], inputs[1], o),
    {
        let a = inputs[0];
        let b = inputs[1];
        let x = if self.reads_first() {
            r.reg(a)?
        } else {
            a
        };
        let y = if self.reads_second() {
            r.reg(b)?
        } else {
            b
        };
        let value = match *self {
            OpCode::Addr | OpCode::Addi => x.wrapping_add(y),
            OpCode::Mulr | OpCode::Muli => x.wrapping_mul(y),
            OpCode::Banr | OpCode::Bani => x & y,
            OpCode::Borr | OpCode::Bori => x | y,
            OpCode::Setr | OpCode::Seti => x,
            OpCode::Gtir | OpCode::Gtri | OpCode::Gtrr => if x > y {
                1
            } else {
                0
            },
            OpCode::Eqir | OpCode::Eqri | OpCode::Eqrr => if x == y {
                1
            } else {
                0
            },
        };
        *r.reg_mut(o)? = value;
        Ok(())
    }

    /// Whether the first operand names a register.
    fn reads_first(&self) -> (r: bool)
        ensures
            r == self.first_is_register(),
    {
        match *self {
            OpCode::Seti | OpCode::Gtir | OpCode::Eqir => false,
            _ => true,
        }
    }

    /// Whether the second operand names a register.
    fn reads_second(&self) -> (r: bool)
        ensures
            r == self.second_is_register(),
    {
        match *self {
            OpCode::Addr
            | OpCode::Mulr
            | OpCode::Banr
            | OpCode::Borr
            | OpCode::Gtir
            | OpCode::Gtrr
            | OpCode::Eqir
            | OpCode::Eqrr => true,
            _ => false,
        }
    }

    /// The lowercase name of the opcode, as a program writes it.
    pub open spec fn name_spec(self) -> Seq<char> {
        match self {
            OpCode::Addr => seq!['a', 'd', 'd', 'r'],
            OpCode::Addi => seq!['a', 'd', 'd', 'i'],
            OpCode::Mulr => seq!['m', 'u', 'l', 'r'],
            OpCode::Muli => seq!['m', 'u', 'l', 'i'],
            OpCode::Banr => seq!['b', 'a', 'n', 'r'],
            OpCode::Bani => seq!['b', 'a', 'n', 'i'],
            OpCode::Borr => seq!['b', 'o', 'r', 'r'],
            OpCode::Bori => seq!['b', 'o', 'r', 'i'],
            OpCode::Setr => seq!['s', 'e', 't', 'r'],
            OpCode::Seti => seq!['s', 'e', 't', 'i'],
            OpCode::Gtir => seq!['g', 't', 'i', 'r'],
            OpCode::Gtri => seq!['g', 't', 'r', 'i'],
            OpCode::Gtrr => seq!['g', 't', 'r', 'r'],
            OpCode::Eqir => seq!['e', 'q', 'i', 'r'],
            OpCode::Eqri => seq!['e', 'q', 'r', 'i'],
            OpCode::Eqrr => seq!['e', 'q', 'r', 'r'],
        }
    }

    /// The symbol that stands between the operands when an instruction is
    /// shown in infix form.
    pub open spec fn infix_spec(self) -> Seq<char> {
        match self {
            OpCode::Addr | OpCode::Addi => seq!['+'],
            OpCode::Mulr | OpCode::Muli => seq!['*'],
            OpCode::Banr | OpCode::Bani => seq!['&'],
            OpCode::Borr | OpCode::Bori => seq!['|'],
            OpCode::Setr | OpCode::Seti => seq!['?'],
            OpCode::Gtir | OpCode::Gtri | OpCode::Gtrr => seq!['>'],
            OpCode::Eqir | OpCode::Eqri | OpCode::Eqrr => seq!['=', '='],
        }
    }

    /// The name of the opcode.
    pub fn name(self) -> (r: &'static str)
        ensures
            r@ == self.name_spec(),
    {
        proof {
            reveal_strlit("addr");
            reveal_strlit("addi");
            reveal_strlit("mulr");
            reveal_strlit("muli");
            reveal_strlit("banr");
            reveal_strlit("bani");
            reveal_strlit("borr");
            reveal_strlit("bori");
            reveal_strlit("setr");
            reveal_strlit("seti");
            reveal_strlit("gtir");
            reveal_strlit("gtri");
            reveal_strlit("gtrr");
            reveal_strlit("eqir");
            reveal_strlit("eqri");
            reveal_strlit("eqrr");
        }
        match self {
            OpCode::Addr => "addr",
            OpCode::Addi => "addi",
            OpCode::Mulr => "mulr",
            OpCode::Muli => "muli",
            OpCode::Banr => "banr",
            OpCode::Bani => "bani",
            OpCode::Borr => "borr",
            OpCode::Bori => "bori",
            OpCode::Setr => "setr",
            OpCode::Seti => "seti",
            OpCode::Gtir => "gtir",
            OpCode::Gtri => "gtri",
            OpCode::Gtrr => "gtrr",
            OpCode::Eqir => "eqir",
            OpCode::Eqri => "eqri",
            OpCode::Eqrr => "eqrr",
        }
    }

    /// Reads an opcode from its name. Exactly the sixteen lowercase names
    /// are accepted.
    pub fn decode(input: &str) -> (r: Option<OpCode>)
        ensures
            r == decode_spec(input@),
    {
        let chars = chars_of(input);
        OpCode::decode_chars(chars.as_slice())
    }

    /// Reads an opcode from the characters of its name.
    pub fn decode_chars(s: &[char]) -> (r: Option<OpCode>)
        ensures
            r == decode_spec(s@),
    {
        if s.len() != 4 {
            return None;
        }
        let r = match (s[0], s[1], s[2], s[3]) {
            ('a', 'd', 'd', 'r') => Some(OpCode::Addr),
            ('a', 'd', 'd', 'i') => Some(OpCode::Addi),
            ('m', 'u', 'l', 'r') => Some(OpCode::Mulr),
            ('m', 'u', 'l', 'i') => Some(OpCode::Muli),
            ('b', 'a', 'n', 'r') => Some(OpCode::Banr),
            ('b', 'a', 'n', 'i') => Some(OpCode::Bani),
            ('b', 'o', 'r', 'r') => Some(OpCode::Borr),
            ('b', 'o', 'r', 'i') => Some(OpCode::Bori),
            ('s', 'e', 't', 'r') => Some(OpCode::Setr),
            ('s', 'e', 't', 'i') => Some(OpCode::Seti),
            ('g', 't', 'i', 'r') => Some(OpCode::Gtir),
            ('g', 't', 'r', 'i') => Some(OpCode::Gtri),
            ('g', 't', 'r', 'r') => Some(OpCode::Gtrr),
            ('e', 'q', 'i', 'r') => Some(OpCode::Eqir),
            ('e', 'q', 'r', 'i') => Some(OpCode::Eqri),
            ('e', 'q', 'r', 'r') => Some(OpCode::Eqrr),
            _ => None,
        };
        proof {
            let four = seq![s@[0], s@[1], s@[2], s@[3]];
            assert(s@ =~= four);
        }
        r
    }

    /// The infix symbol of the opcode.
    pub fn infix(self) -> (r: &'static str)
        ensures
            r@ == self.infix_spec(),
    {
        proof {
            reveal_strlit("+");
            reveal_strlit("*");
            reveal_strlit("&");
            reveal_strlit("|");
            reveal_strlit("?");
            reveal_strlit(">");
            reveal_strlit("==");
        }
        match self {
            OpCode::Addr => "+",
            OpCode::Addi => "+",
            OpCode::Mulr => "*",
            OpCode::Muli => "*",
            OpCode::Banr => "&",
            OpCode::Bani => "&",
            OpCode::Borr => "|",
            OpCode::Bori => "|",
            OpCode::Setr => "?",
            OpCode::Seti => "?",
            OpCode::Gtir => ">",
            OpCode::Gtri => ">",
            OpCode::Gtrr => ">",
            OpCode::Eqir => "==",
            OpCode::Eqri => "==",
            OpCode::Eqrr => "==",
        }
    }
}

/// Decoding the name of an opcode gives that opcode back.
pub proof fn lemma_decode_name(op_code: OpCode)
    ensures
        decode_spec(op_code.name_spec()) == Some(op_code),
{
}

} // verus!
