//! Front-end errors.
//!
//! The first error aborts the compilation; nothing is recovered locally.

use vstd::prelude::*;

verus! {

#[derive(Clone, Copy, PartialEq, Eq, Structural, Debug)]
pub enum ErrorKind {
    /// Unknown class, superclass, type parameter, constant or ivar.
    NameError,
    /// Argument, receiver, return or ivar type mismatch.
    TypeError,
    /// Illegal construct: bad `break`/`return` placement, reassigning
    /// readonly, redeclaration, unknown bare name, and the like.
    ProgramError,
    /// An AST shape that can never stand where it was found.
    SyntaxError,
    /// Internal consistency failure.
    Bug,
}

#[derive(Debug)]
pub struct Error {
    pub kind: ErrorKind,
    pub msg: String,
}

/// View of an error: its kind and message text.
pub struct ErrorV {
    pub kind: ErrorKind,
    pub msg: Seq<char>,
}

impl View for Error {
    type V = ErrorV;

    open spec fn view(&self) -> ErrorV {
        ErrorV { kind: self.kind, msg: self.msg@ }
    }
}

pub fn name_error(msg: String) -> (r: Error)
    ensures
        r@.kind == ErrorKind::NameError,
        r@.msg == msg@,
{
    Error { kind: ErrorKind::NameError, msg }
}

pub fn type_error(msg: String) -> (r: Error)
    ensures
        r@.kind == ErrorKind::TypeError,
        r@.msg == msg@,
{
    Error { kind: ErrorKind::TypeError, msg }
}

pub fn program_error(msg: String) -> (r: Error)
    ensures
        r@.kind == ErrorKind::ProgramError,
        r@.msg == msg@,
{
    Error { kind: ErrorKind::ProgramError, msg }
}

pub fn syntax_error(msg: String) -> (r: Error)
    ensures
        r@.kind == ErrorKind::SyntaxError,
        r@.msg == msg@,
{
    Error { kind: ErrorKind::SyntaxError, msg }
}

pub fn bug(msg: String) -> (r: Error)
    ensures
        r@.kind == ErrorKind::Bug,
        r@.msg == msg@,
{
    Error { kind: ErrorKind::Bug, msg }
}

/// `a`, `b` and `c` joined; used to put the offending name into a message.
pub fn msg3(a: &str, b: &str, c: &str) -> (r: String)
    ensures
        r@ == a@ + b@ + c@,
{
    let mut s = String::from_str(a);
    s.append(b);
    s.append(c);
    s
}

} // verus!
