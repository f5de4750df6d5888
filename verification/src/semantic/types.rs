//! The semantic types of the source language.

use std::rc::Rc;
use vstd::prelude::*;

verus! {

/// A semantic type. Scalar types carry an optional bit width and a flag
/// that says whether the value is const; array types carry their length.
#[derive(Clone, Debug, PartialEq, Eq)]
pub enum Type {
    Bit(bool),
    Bool(bool),
    Duration(bool),
    Stretch(bool),
    Angle(Option<u32>, bool),
    Complex(Option<u32>, bool),
    Float(Option<u32>, bool),
    Int(Option<u32>, bool),
    UInt(Option<u32>, bool),
    Qubit,
    HardwareQubit,
    BitArray(u32, bool),
    QubitArray(u32),
    BoolArray(u32),
    DurationArray(u32),
    AngleArray(Option<u32>, u32),
    ComplexArray(Option<u32>, u32),
    FloatArray(Option<u32>, u32),
    IntArray(Option<u32>, u32),
    UIntArray(Option<u32>, u32),
    /// A gate with its number of classical and of quantum parameters.
    Gate(u32, u32),
    /// A subroutine with its parameter types and its return type.
    Function(Rc<Vec<Type>>, Rc<Type>),
    Range,
    DiscreteSet,
    Void,
    Error,
}

impl Type {
    /// Whether a value of this type is const.
    pub open spec fn spec_is_const(&self) -> bool {
        match *self {
            Type::Bit(c) | Type::Bool(c) | Type::Duration(c) | Type::Stretch(c) => c,
            Type::Angle(_, c) | Type::Complex(_, c) | Type::Float(_, c) | Type::Int(_, c)
            | Type::UInt(_, c) | Type::BitArray(_, c) => c,
            _ => false,
        }
    }

    /// Whether this is the type of a gate, of a subroutine, or `void`.
    pub open spec fn spec_is_callable_or_void(&self) -> bool {
        self is Gate || self is Void || self is Function
    }

    /// Whether a symbol of this type stays visible across the boundary of
    /// a subroutine or a gate.
    pub open spec fn crosses_boundaries(&self) -> bool {
        self.spec_is_const() || self.spec_is_callable_or_void()
    }

    /// Whether a global of this type is an output of the program when no
    /// output is declared.
    pub open spec fn spec_is_inferred_output_type(&self) -> bool {
        match self {
            Type::Bit(_) | Type::Bool(_) | Type::Angle(_, _) | Type::Complex(_, _)
            | Type::Float(_, _) | Type::Int(_, _) | Type::UInt(_, _) | Type::BitArray(_, _)
            | Type::BoolArray(_) | Type::AngleArray(_, _) | Type::ComplexArray(_, _)
            | Type::FloatArray(_, _) | Type::IntArray(_, _) | Type::UIntArray(_, _)
            | Type::Range | Type::DiscreteSet => true,
            _ => false,
        }
    }

    /// Whether a value of this type is const.
    #[verifier::when_used_as_spec(spec_is_const)]
    pub fn is_const(&self) -> (r: bool)
        ensures
            r == self.spec_is_const(),
    {
        match self {
            Type::Bit(c) | Type::Bool(c) | Type::Duration(c) | Type::Stretch(c) => *c,
            Type::Angle(_, c) | Type::Complex(_, c) | Type::Float(_, c) | Type::Int(_, c)
            | Type::UInt(_, c) | Type::BitArray(_, c) => *c,
            _ => false,
        }
    }

    /// Whether this is the type of a gate, of a subroutine, or `void`.
    #[verifier::when_used_as_spec(spec_is_callable_or_void)]
    pub fn is_callable_or_void(&self) -> (r: bool)
        ensures
            r == self.spec_is_callable_or_void(),
    {
        match self {
            Type::Gate(_, _) | Type::Void | Type::Function(_, _) => true,
            _ => false,
        }
    }

    /// Whether a global of this type is an output of the program when no
    /// output is declared.
    #[verifier::when_used_as_spec(spec_is_inferred_output_type)]
    pub fn is_inferred_output_type(&self) -> (r: bool)
        ensures
            r == self.spec_is_inferred_output_type(),
    {
        match self {
            Type::Bit(_) | Type::Bool(_) | Type::Angle(_, _) | Type::Complex(_, _)
            | Type::Float(_, _) | Type::Int(_, _) | Type::UInt(_, _) | Type::BitArray(_, _)
            | Type::BoolArray(_) | Type::AngleArray(_, _) | Type::ComplexArray(_, _)
            | Type::FloatArray(_, _) | Type::IntArray(_, _) | Type::UIntArray(_, _)
            | Type::Range | Type::DiscreteSet => true,
            _ => false,
        }
    }
}

} // verus!
