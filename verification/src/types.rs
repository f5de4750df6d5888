//! The types of the target language that a symbol is lowered to.

use std::rc::Rc;
use vstd::prelude::*;

verus! {

/// Whether a callable is a function or an operation of the target language.
#[derive(Clone, Copy, Debug, PartialEq, Eq, Structural)]
pub enum CallableKind {
    /// A classical function.
    Function,
    /// A quantum operation.
    Operation,
}

/// A type of the target language.
#[derive(Clone, Debug, PartialEq, Eq)]
pub enum Type {
    /// The `Angle` type, const or not.
    Angle(bool),
    /// The `Bool` type, const or not.
    Bool(bool),
    /// The `BigInt` type, const or not.
    BigInt(bool),
    /// The `Complex` type, const or not.
    Complex(bool),
    /// The `Int` type, const or not.
    Int(bool),
    /// The `Double` type, const or not.
    Double(bool),
    /// A qubit.
    Qubit,
    /// A measurement result, const or not.
    Result(bool),
    /// A tuple of types; the empty tuple is the unit type.
    Tuple(Rc<Vec<Type>>),
    /// A range.
    Range,
    /// A callable with its number of classical and of quantum parameters.
    Callable(CallableKind, u32, u32),
    /// A type that could not be determined.
    Error,
}

} // verus!
