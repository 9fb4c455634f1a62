//! The ways in which compilation of an input fails.
use vstd::prelude::*;
use crate::term::{Term, TermModel};

verus! {

/// A failure of compilation. No partial result accompanies it.
#[derive(Debug, PartialEq, Eq)]
pub enum CompileError {
    /// An integer literal outside the signed 32-bit range.
    IntegerOverflow(i64),
    /// A reserved word stands where an identifier is expected.
    ReservedWordMisuse(String),
    /// A `let` form without bindings.
    EmptyBindingList,
    /// A name bound twice in one `let` form.
    DuplicateBinding(String),
    /// A term of no recognised shape.
    MalformedExpression(Term),
    /// A reference to a name that is not in scope.
    UnboundVariable(String),
    /// The next stack slot would lie beyond the largest offset.
    SlotOverflow,
}

/// The mathematical value of a [`CompileError`].
pub ghost enum ErrorModel {
    IntegerOverflow(int),
    ReservedWordMisuse(Seq<char>),
    EmptyBindingList,
    DuplicateBinding(Seq<char>),
    MalformedExpression(TermModel),
    UnboundVariable(Seq<char>),
    SlotOverflow,
}

impl View for CompileError {
    type V = ErrorModel;

    open spec fn view(&self) -> ErrorModel {
        match self {
            CompileError::IntegerOverflow(n) => ErrorModel::IntegerOverflow(*n as int),
            CompileError::ReservedWordMisuse(w) => ErrorModel::ReservedWordMisuse(w@),
            CompileError::EmptyBindingList => ErrorModel::EmptyBindingList,
            CompileError::DuplicateBinding(n) => ErrorModel::DuplicateBinding(n@),
            CompileError::MalformedExpression(t) => ErrorModel::MalformedExpression(t@),
            CompileError::UnboundVariable(n) => ErrorModel::UnboundVariable(n@),
            CompileError::SlotOverflow => ErrorModel::SlotOverflow,
        }
    }
}

} // verus!
