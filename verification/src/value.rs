//! Values and their handles.
//!
//! A [`Value`] is anything an instruction can operate on: the result of
//! another instruction, a block parameter, a deduplicated numeric constant,
//! or a reference to an imported function, intrinsic or foreign function.
//! Values live in the graph's value arena and are named by [`ValueId`]s.

use vstd::prelude::*;
use crate::types::{NumericType, Type};

verus! {

/// Handle of a value in the graph's value arena.
pub type ValueId = usize;

/// Handle of an instruction in the graph's instruction arena.
pub type InstructionId = usize;

/// Handle of a basic block in the graph's block arena.
pub type BasicBlockId = usize;

/// Identity of a function of the surrounding program.
pub type FunctionId = u32;

/// Identity of a compiler intrinsic.
pub type IntrinsicId = u32;

/// A value owned by the graph.
#[derive(PartialEq, Eq, Debug)]
pub enum Value {
    /// The result a given instruction leaves at a given position.
    Instruction { instruction: InstructionId, position: usize, typ: Type },
    /// The parameter a given block declares at a given position.
    Param { block: BasicBlockId, position: usize, typ: Type },
    /// A numeric constant; at most one value exists per (constant, type) pair.
    NumericConstant { constant: u128, typ: NumericType },
    /// A function of the program, imported into this function.
    Function(FunctionId),
    /// A compiler intrinsic, imported into this function.
    Intrinsic(IntrinsicId),
    /// A foreign function, imported by name into this function.
    ForeignFunction(String),
}

impl Value {
    /// The type this value carries.  Imported entities are function-typed.
    pub open spec fn spec_type(self) -> Type {
        match self {
            Value::Instruction { typ, .. } => typ,
            Value::Param { typ, .. } => typ,
            Value::NumericConstant { typ, .. } => Type::Numeric(typ),
            Value::Function(_) => Type::Function,
            Value::Intrinsic(_) => Type::Function,
            Value::ForeignFunction(_) => Type::Function,
        }
    }

    /// Returns a copy of the type this value carries.
    pub fn get_type(&self) -> (r: Type)
        ensures
            r == self.spec_type(),
    {
        match self {
            Value::Instruction { typ, .. } => typ.clone(),
            Value::Param { typ, .. } => typ.clone(),
            Value::NumericConstant { typ, .. } => Type::Numeric(*typ),
            Value::Function(_) => Type::Function,
            Value::Intrinsic(_) => Type::Function,
            Value::ForeignFunction(_) => Type::Function,
        }
    }
}

impl Clone for Value {
    /// Structural copy: the clone is equal to the original.
    fn clone(&self) -> (r: Self)
        ensures
            r == *self,
    {
        match self {
            Value::Instruction { instruction, position, typ } => Value::Instruction {
                instruction: *instruction,
                position: *position,
                typ: typ.clone(),
            },
            Value::Param { block, position, typ } => Value::Param {
                block: *block,
                position: *position,
                typ: typ.clone(),
            },
            Value::NumericConstant { constant, typ } => Value::NumericConstant {
                constant: *constant,
                typ: *typ,
            },
            Value::Function(f) => Value::Function(*f),
            Value::Intrinsic(i) => Value::Intrinsic(*i),
            Value::ForeignFunction(name) => Value::ForeignFunction(name.clone()),
        }
    }
}

} // verus!
