//! Errors raised while evaluating instructions and operations.

use vstd::prelude::*;

verus! {

/// What can go wrong while the machine runs a program.
#[derive(Debug)]
pub enum Error {
    /// `LoadEnv` named a variable that the environment does not define.
    UndefinedVariable(String),
    /// An operand was of a kind that the instruction does not take.
    InvalidArgument,
    /// The operation is not defined for the kinds of its operands.
    OpUnimplemented,
    /// The operation is defined for the operand kinds but refused on them.
    OpIllegalOperate,
    /// An array was indexed out of its bounds: the index and the length.
    IndexOutOfBounds(usize, usize),
    /// A dictionary has no entry under the key.
    EntryNotFound(String),
}

/// The mathematical form of an [`Error`]: strings are taken by their characters.
pub enum ErrorModel {
    UndefinedVariable(Seq<char>),
    InvalidArgument,
    OpUnimplemented,
    OpIllegalOperate,
    IndexOutOfBounds(usize, usize),
    EntryNotFound(Seq<char>),
}

impl View for Error {
    type V = ErrorModel;

    open spec fn view(&self) -> ErrorModel {
        match self {
            Error::UndefinedVariable(name) => ErrorModel::UndefinedVariable(name@),
            Error::InvalidArgument => ErrorModel::InvalidArgument,
            Error::OpUnimplemented => ErrorModel::OpUnimplemented,
            Error::OpIllegalOperate => ErrorModel::OpIllegalOperate,
            Error::IndexOutOfBounds(index, len) => ErrorModel::IndexOutOfBounds(*index, *len),
            Error::EntryNotFound(key) => ErrorModel::EntryNotFound(key@),
        }
    }
}

} // verus!
