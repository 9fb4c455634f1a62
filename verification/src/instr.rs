//! The abstract instructions that the code generator emits.
use vstd::prelude::*;
use crate::ast::{BinOp, UnOp};

verus! {

/// One instruction. The accumulator is the register that holds an
/// expression's value; a slot is a stack location at an offset.
#[derive(Clone, Copy, Debug, PartialEq, Eq, Structural)]
pub enum Instr {
    /// Put a constant into the accumulator.
    LoadImmediate(i32),
    /// Copy a slot into the accumulator.
    LoadFromSlot(i32),
    /// Copy the accumulator into a slot.
    StoreToSlot(i32),
    /// Add one to the accumulator.
    Increment,
    /// Subtract one from the accumulator.
    Decrement,
    /// Multiply the accumulator by minus one.
    NegateAccumulator,
    /// Add a slot to the accumulator.
    AddFromSlot(i32),
    /// Multiply the accumulator by a slot.
    MultiplyFromSlot(i32),
    /// Replace the accumulator by the slot minus the accumulator.
    SubtractReversed(i32),
}

/// The instruction that applies a unary operator to the accumulator.
pub open spec fn unary_instr(op: UnOp) -> Instr {
    match op {
        UnOp::Add1 => Instr::Increment,
        UnOp::Sub1 => Instr::Decrement,
        UnOp::Negate => Instr::NegateAccumulator,
    }
}

/// The instruction that combines the left operand, kept in the slot at
/// `offset`, with the right operand in the accumulator.
pub open spec fn binary_instr(op: BinOp, offset: i32) -> Instr {
    match op {
        BinOp::Plus => Instr::AddFromSlot(offset),
        BinOp::Minus => Instr::SubtractReversed(offset),
        BinOp::Times => Instr::MultiplyFromSlot(offset),
    }
}

/// Computes [`unary_instr`].
pub fn instr_for_unary(op: UnOp) -> (instr: Instr)
    ensures
        instr == unary_instr(op),
{
    match op {
        UnOp::Add1 => Instr::Increment,
        UnOp::Sub1 => Instr::Decrement,
        UnOp::Negate => Instr::NegateAccumulator,
    }
}

/// Computes [`binary_instr`].
pub fn instr_for_binary(op: BinOp, offset: i32) -> (instr: Instr)
    ensures
        instr == binary_instr(op, offset),
{
    match op {
        BinOp::Plus => Instr::AddFromSlot(offset),
        BinOp::Minus => Instr::SubtractReversed(offset),
        BinOp::Times => Instr::MultiplyFromSlot(offset),
    }
}

} // verus!
