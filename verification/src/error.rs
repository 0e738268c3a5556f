//! The errors of the machine and of the program loader.
use vstd::prelude::*;
use crate::text::{int_text, push_usize};

verus! {

/// What can go wrong while a program is loaded or run.
#[derive(Debug, PartialEq, Eq)]
pub enum Error {
    /// A register index outside `0..6` was used.
    BadRegister(usize),
    /// The register chosen to hold the instruction pointer does not exist.
    BadIpRegister(usize),
    /// A program line is no instruction; the line is carried along.
    BadInstruction(String),
    /// An `#ip` directive without an argument.
    MissingIpArgument,
    /// An `#ip` directive whose argument is no register index; the argument
    /// is carried along.
    BadIpArgument(String),
    /// Reading or writing outside the machine failed; what the system said
    /// is carried along.
    Io(String),
}

/// An error as a mathematical value: text is a sequence of characters.
pub enum ErrorView {
    BadRegister(usize),
    BadIpRegister(usize),
    BadInstruction(Seq<char>),
    MissingIpArgument,
    BadIpArgument(Seq<char>),
    Io(Seq<char>),
}

impl View for Error {
    type V = ErrorView;

    open spec fn view(&self) -> ErrorView {
        match *self {
            Error::BadRegister(index) => ErrorView::BadRegister(index),
            Error::BadIpRegister(index) => ErrorView::BadIpRegister(index),
            Error::BadInstruction(line) => ErrorView::BadInstruction(line@),
            Error::MissingIpArgument => ErrorView::MissingIpArgument,
            Error::BadIpArgument(argument) => ErrorView::BadIpArgument(argument@),
            Error::Io(why) => ErrorView::Io(why@),
        }
    }
}

/// What an error says to the user.
pub open spec fn error_text(e: ErrorView) -> Seq<char> {
    match e {
        ErrorView::BadRegister(index) => "no such register: "@ + int_text(index as int),
        ErrorView::BadIpRegister(index) => "no ip register: "@ + int_text(index as int),
        ErrorView::BadInstruction(line) => "bad instruction: "@ + line,
        ErrorView::MissingIpArgument => "expected argument to `#ip`"@,
        ErrorView::BadIpArgument(argument) => "bad argument to `#ip`: "@ + argument,
        ErrorView::Io(why) => why,
    }
}

impl Error {
    /// What the error says to the user.
    pub fn to_string(&self) -> (r: String)
        ensures
            r@ == error_text(self@),
    {
        let mut out = String::new();
        match self {
            Error::BadRegister(index) => {
                out.append("no such register: ");
                push_usize(&mut out, *index);
            },
            Error::BadIpRegister(index) => {
                out.append("no ip register: ");
                push_usize(&mut out, *index);
            },
            Error::BadInstruction(line) => {
                out.append("bad instruction: ");
                out.append(line.as_str());
            },
            Error::MissingIpArgument => {
                out.append("expected argument to `#ip`");
            },
            Error::BadIpArgument(argument) => {
                out.append("bad argument to `#ip`: ");
                out.append(argument.as_str());
            },
            Error::Io(why) => {
                out.append(why.as_str());
            },
        }
        out
    }
}

} // verus!
