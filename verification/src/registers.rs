//! The register file: six cells, the choice of the cell that holds the
//! instruction pointer, and the record of which registers were read and
//! written since the record was last cleared.
use vstd::prelude::*;
use hashbrown::HashSet;
use crate::error::Error;
use crate::sets::{
    index_set_clear, index_set_contains, index_set_insert, index_set_new, index_set_view,
};
use crate::text::push_char;
use crate::{AsReg, Reg};

verus! {

/// The register file as a mathematical value.
pub struct RegistersView {
    /// The six cells.
    pub cells: Seq<Reg>,
    /// The indices written since the last `clear`.
    pub written: Set<usize>,
    /// The indices read since the last `clear`.
    pub read: Set<usize>,
    /// The instruction pointer with which the last instruction was fetched.
    pub last_ip: Option<usize>,
    /// The index of the cell that holds the instruction pointer.
    pub ip: usize,
}

impl RegistersView {
    /// The view after a read access to register `index`: the index is
    /// recorded, whether or not such a register exists.
    pub open spec fn touch_read(self, index: usize) -> RegistersView {
        RegistersView { read: self.read.insert(index), ..self }
    }

    /// The view after a write access to register `index` that has not stored
    /// anything yet.
    pub open spec fn touch_written(self, index: usize) -> RegistersView {
        RegistersView { written: self.written.insert(index), ..self }
    }

    /// The view with `value` stored in cell `index`.
    pub open spec fn store(self, index: usize, value: Reg) -> RegistersView {
        RegistersView { cells: self.cells.update(index as int, value), ..self }
    }

    /// The view with both records emptied.
    pub open spec fn cleared(self) -> RegistersView {
        RegistersView { written: Set::empty(), read: Set::empty(), ..self }
    }

    /// The instruction pointer: the cell chosen by `ip`, taken as an index.
    pub open spec fn ip_value(self) -> usize
        recommends
            self.ip < 6,
    {
        self.cells[self.ip as int] as usize
    }
}

/// The letter of register `reg`, for the six registers that exist.
pub open spec fn reg_letter(reg: usize) -> Option<char> {
    if reg == 0 {
        Some('a')
    } else if reg == 1 {
        Some('b')
    } else if reg == 2 {
        Some('c')
    } else if reg == 3 {
        Some('d')
    } else if reg == 4 {
        Some('e')
    } else if reg == 5 {
        Some('f')
    } else {
        None
    }
}

/// The name of register `reg` where register `ip` holds the instruction
/// pointer: `ip` for that register, a letter for the others, `?` for an
/// index that names no register.
pub open spec fn reg_name_spec(ip: usize, reg: usize) -> Seq<char> {
    if reg == ip {
        seq!['i', 'p']
    } else {
        match reg_letter(reg) {
            Some(c) => seq![c],
            None => seq!['?'],
        }
    }
}

/// The name of a register, ready to be shown.
pub struct RegName {
    special: Option<&'static str>,
    name: Option<char>,
}

impl View for RegName {
    type V = Seq<char>;

    closed spec fn view(&self) -> Seq<char> {
        match self.special {
            Some(special) => special@,
            None => match self.name {
                Some(c) => seq![c],
                None => seq!['?'],
            },
        }
    }
}

impl RegName {
    /// The name as a string.
    pub fn to_string(&self) -> (r: String)
        ensures
            r@ == self@,
    {
        let mut out = String::new();
        match self.special {
            Some(special) => {
                out.append(special);
            },
            None => match self.name {
                Some(c) => {
                    push_char(&mut out, c);
                },
                None => {
                    push_char(&mut out, '?');
                },
            },
        }
        out
    }
}

#[derive(Debug)]
pub struct Registers {
    registers: [Reg; 6],
    /// Written to registers.
    written: HashSet<usize>,
    /// Read from registers.
    read: HashSet<usize>,
    /// Last instruction that was executed.
    last_ip: Option<usize>,
    /// Which register contains the current instruction.
    ip: usize,
}

impl View for Registers {
    type V = RegistersView;

    closed spec fn view(&self) -> RegistersView {
        RegistersView {
            cells: self.registers@,
            written: index_set_view(self.written),
            read: index_set_view(self.read),
            last_ip: self.last_ip,
            ip: self.ip,
        }
    }
}

impl Default for Registers {
    /// All cells zero, nothing recorded, instruction pointer in register 0.
    fn default() -> (r: Registers)
        ensures
            r@.cells == Seq::new(6, |i: int| 0i64),
            r@.written == Set::<usize>::empty(),
            r@.read == Set::<usize>::empty(),
            r@.last_ip == None::<usize>,
            r@.ip == 0,
    {
        Registers {
            registers: [0, 0, 0, 0, 0, 0],
            written: index_set_new(),
            read: index_set_new(),
            last_ip: None,
            ip: 0,
        }
    }
}

impl Registers {
    /// A register file always has six cells.
    pub proof fn lemma_six_cells(&self)
        ensures
            self@.cells.len() == 6,
    {
    }

    /// The instruction pointer with which the last instruction was fetched;
    /// `None` before the first step and after a reset.
    pub fn last_ip(&self) -> (r: Option<usize>)
        ensures
            r == self@.last_ip,
    {
        self.last_ip
    }

    /// Records the instruction pointer with which an instruction was fetched.
    pub fn set_last_ip(&mut self, last_ip: Option<usize>)
        ensures
            final(self)@ == (RegistersView { last_ip, ..old(self)@ }),
    {
        self.last_ip = last_ip;
    }

    /// The index of the register that holds the instruction pointer.
    pub fn ip_index(&self) -> (r: usize)
        ensures
            r == self@.ip,
    {
        self.ip
    }

    /// Chooses the register that holds the instruction pointer.
    pub fn set_ip_index(&mut self, index: usize)
        ensures
            final(self)@ == (RegistersView { ip: index, ..old(self)@ }),
    {
        self.ip = index;
    }

    /// Test if the given register has been written to.
    pub fn is_written<R: AsReg>(&self, reg: R) -> (r: bool)
        ensures
            r == self@.written.contains(reg.as_reg_spec()),
    {
        index_set_contains(&self.written, reg.as_reg())
    }

    /// Test if the given register has been read from.
    pub fn is_read<R: AsReg>(&self, reg: R) -> (r: bool)
        ensures
            r == self@.read.contains(reg.as_reg_spec()),
    {
        index_set_contains(&self.read, reg.as_reg())
    }

    /// Reads a register and records the read. The index is recorded even
    /// when no such register exists.
    pub fn reg<R: AsReg>(&mut self, reg: R) -> (r: Result<Reg, Error>)
        ensures
            final(self)@ == old(self)@.touch_read(reg.as_reg_spec()),
            reg.as_reg_spec() < 6 ==> r == Ok::<Reg, Error>(
                old(self)@.cells[reg.as_reg_spec() as int],
            ),
            reg.as_reg_spec() >= 6 ==> r == Err::<Reg, Error>(
                Error::BadRegister(reg.as_reg_spec()),
            ),
    {
        let index = reg.as_reg();
        index_set_insert(&mut self.read, index);
        if index < 6 {
            Ok(self.registers[index])
        } else {
            Err(Error::BadRegister(index))
        }
    }

    /// Gives write access to a register and records the write. The index is
    /// recorded even when no such register exists.
    pub fn reg_mut<R: AsReg>(&mut self, reg: R) -> (r: Result<&mut Reg, Error>)
        ensures
            match r {
                Ok(cell) => {
                    &&& reg.as_reg_spec() < 6
                    &&& *cell == old(self)@.cells[reg.as_reg_spec() as int]
                    &&& final(self)@ == old(self)@.touch_written(reg.as_reg_spec()).store(
                        reg.as_reg_spec(),
                        *final(cell),
                    )
                },
                Err(e) => {
                    &&& reg.as_reg_spec() >= 6
                    &&& e == Error::BadRegister(reg.as_reg_spec())
                    &&& final(self)@ == old(self)@.touch_written(reg.as_reg_spec())
                },
            },
    {
        let index = reg.as_reg();
        index_set_insert(&mut self.written, index);
        if index < 6 {
            Ok(&mut self.registers[index])
        } else {
            Err(Error::BadRegister(index))
        }
    }

    /// The instruction pointer: the value of the chosen cell, as an index.
    /// Neither record changes.
    pub fn ip(&self) -> (r: Result<usize, Error>)
        ensures
            self@.ip < 6 ==> r == Ok::<usize, Error>(self@.ip_value()),
            self@.ip >= 6 ==> r == Err::<usize, Error>(Error::BadIpRegister(self@.ip)),
    {
        if self.ip < 6 {
            Ok(
                #[verifier::truncate]
                (self.registers[self.ip] as usize),
            )
        } else {
            Err(Error::BadIpRegister(self.ip))
        }
    }

    /// Gives write access to the cell that holds the instruction pointer.
    /// Neither record changes.
    pub fn ip_mut(&mut self) -> (r: Result<&mut Reg, Error>)
        ensures
            match r {
                Ok(cell) => {
                    &&& old(self)@.ip < 6
                    &&& *cell == old(self)@.cells[old(self)@.ip as int]
                    &&& final(self)@ == old(self)@.store(old(self)@.ip, *final(cell))
                },
                Err(e) => {
                    &&& old(self)@.ip >= 6
                    &&& e == Error::BadIpRegister(old(self)@.ip)
                    &&& final(self)@ == old(self)@
                },
            },
    {
        if self.ip < 6 {
            Ok(&mut self.registers[self.ip])
        } else {
            Err(Error::BadIpRegister(self.ip))
        }
    }

    /// The values of the six cells, in order.
    pub fn iter(&self) -> (r: Vec<Reg>)
        ensures
            r@ == self@.cells,
    {
        let mut r: Vec<Reg> = Vec::new();
        let mut i: usize = 0;
        while i < 6
            invariant
                i <= 6,
                r@ == self.registers@.take(i as int),
            decreases 6 - i,
        {
            r.push(self.registers[i]);
            i += 1;
        }
        r
    }

    /// Clears both records, forgets `last_ip` and sets every cell to zero.
    /// The choice of the instruction-pointer register stays.
    pub fn reset(&mut self)
        ensures
            final(self)@ == (RegistersView {
                cells: Seq::new(6, |i: int| 0i64),
                written: Set::empty(),
                read: Set::empty(),
                last_ip: None,
                ip: old(self)@.ip,
            }),
    {
        index_set_clear(&mut self.written);
        index_set_clear(&mut self.read);
        self.last_ip = None;
        self.registers = [0, 0, 0, 0, 0, 0];
        assert(self.registers@ =~= Seq::new(6, |i: int| 0i64));
    }

    /// The name under which register `reg` is shown.
    pub fn name<R: AsReg>(&self, reg: R) -> (r: RegName)
        ensures
            r@ == reg_name_spec(self@.ip, reg.as_reg_spec()),
    {
        let reg = reg.as_reg();
        let special = if reg == self.ip {
            Some("ip")
        } else {
            None
        };
        let name = if reg == 0 {
            Some('a')
        } else if reg == 1 {
            Some('b')
        } else if reg == 2 {
            Some('c')
        } else if reg == 3 {
            Some('d')
        } else if reg == 4 {
            Some('e')
        } else if reg == 5 {
            Some('f')
        } else {
            None
        };
        proof {
            reveal_strlit("ip");
        }
        RegName { special, name }
    }

    /// Clears the record of reads and writes; cells and `last_ip` stay.
    pub fn clear(&mut self)
        ensures
            final(self)@ == old(self)@.cleared(),
    {
        index_set_clear(&mut self.written);
        index_set_clear(&mut self.read);
    }
}

} // verus!
