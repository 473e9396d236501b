//! Instructions, terminators, and the insertion-time simplification protocol.
//!
//! The graph does not interpret opcodes; it needs from an instruction only its
//! operand handles and its result-type policy: a *known* fixed type, a type
//! *derived from an operand*, *no results*, or *unknown* (the inserting caller
//! must supply the result types).  The variants below cover each policy.

use vstd::prelude::*;
use crate::elements::elems;
use crate::types::{NumericType, Type};
use crate::value::{BasicBlockId, ValueId};

verus! {

/// A binary numeric operator.
#[derive(Clone, Copy, PartialEq, Eq, Structural, Debug)]
pub enum BinaryOp {
    Add,
    Sub,
    Mul,
    Div,
    Eq,
    Lt,
}

/// An instruction: an opcode together with its operand handles.
pub enum Instruction {
    /// A binary operation; its result has the type of the left operand.
    Binary { operator: BinaryOp, lhs: ValueId, rhs: ValueId },
    /// Converts a value to the given numeric type.
    Cast(ValueId, NumericType),
    /// A bitwise or boolean negation; its result has its operand's type.
    Not(ValueId),
    /// Asserts that two values are equal; an effect-only instruction with no
    /// results.
    Constrain(ValueId, ValueId),
    /// Writes a value through a reference; no results.
    Store { address: ValueId, value: ValueId },
    /// Constructs an array from the given elements.  The element sequence is
    /// structurally shared; see [`crate::elements`].
    MakeArray { elements: im::Vector<usize>, typ: Type },
    /// Reads through a reference; the caller supplies the result type.
    Load { address: ValueId },
    /// Calls a function value; the caller supplies the result types.
    Call { func: ValueId, arguments: Vec<ValueId> },
    /// Allocates a fresh mutable reference; the caller supplies its type.
    Allocate,
}

/// How the results of an instruction are typed.
pub enum InstructionResultType {
    /// The instruction has one result of this fixed type.
    Known(Type),
    /// The instruction has one result, typed like this operand.
    Operand(ValueId),
    /// The instruction has no results.
    NoResults,
    /// The caller of the insertion must supply the result types.
    Unknown,
}

impl Instruction {
    /// The result-type policy of this instruction.
    pub open spec fn spec_result_type(self) -> InstructionResultType {
        match self {
            Instruction::Binary { lhs, .. } => InstructionResultType::Operand(lhs),
            Instruction::Cast(_, typ) => InstructionResultType::Known(Type::Numeric(typ)),
            Instruction::Not(value) => InstructionResultType::Operand(value),
            Instruction::Constrain(_, _) => InstructionResultType::NoResults,
            Instruction::Store { .. } => InstructionResultType::NoResults,
            Instruction::MakeArray { typ, .. } => InstructionResultType::Known(typ),
            Instruction::Load { .. } => InstructionResultType::Unknown,
            Instruction::Call { .. } => InstructionResultType::Unknown,
            Instruction::Allocate => InstructionResultType::Unknown,
        }
    }

    /// Returns the result-type policy of this instruction.
    pub fn result_type(&self) -> (r: InstructionResultType)
        ensures
            r == self.spec_result_type(),
    {
        match self {
            Instruction::Binary { lhs, .. } => InstructionResultType::Operand(*lhs),
            Instruction::Cast(_, typ) => InstructionResultType::Known(Type::Numeric(*typ)),
            Instruction::Not(value) => InstructionResultType::Operand(*value),
            Instruction::Constrain(_, _) => InstructionResultType::NoResults,
            Instruction::Store { .. } => InstructionResultType::NoResults,
            Instruction::MakeArray { typ, .. } => InstructionResultType::Known(typ.clone()),
            Instruction::Load { .. } => InstructionResultType::Unknown,
            Instruction::Call { .. } => InstructionResultType::Unknown,
            Instruction::Allocate => InstructionResultType::Unknown,
        }
    }

    /// Whether every operand handle is below the given arena size.
    pub open spec fn valid_in(self, n_values: int) -> bool {
        match self {
            Instruction::Binary { lhs, rhs, .. } => lhs < n_values && rhs < n_values,
            Instruction::Cast(value, _) => value < n_values,
            Instruction::Not(value) => value < n_values,
            Instruction::Constrain(lhs, rhs) => lhs < n_values && rhs < n_values,
            Instruction::Store { address, value } => address < n_values && value < n_values,
            Instruction::MakeArray { elements, .. } => forall|j: int|
                0 <= j < elems(elements).len() ==> #[trigger] elems(elements)[j] < n_values,
            Instruction::Load { address } => address < n_values,
            Instruction::Call { func, arguments } => func < n_values && forall|j: int|
                0 <= j < arguments@.len() ==> #[trigger] arguments@[j] < n_values,
            Instruction::Allocate => true,
        }
    }
}

/// The control transfer that ends a basic block.
#[derive(Clone, PartialEq, Eq, Debug)]
pub enum TerminatorInstruction {
    /// An unconditional jump, passing arguments for the target's parameters.
    Jmp { destination: BasicBlockId, arguments: Vec<ValueId> },
    /// A two-way conditional jump.
    JmpIf { condition: ValueId, then_destination: BasicBlockId, else_destination: BasicBlockId },
    /// Returns the given values from the function.
    Return { return_values: Vec<ValueId> },
}

/// What the pass-supplied simplification decided for a candidate instruction.
///
/// Simplification itself — constant folding, algebraic identities — is the
/// business of the pass inserting the instruction; the graph only applies the
/// outcome it is handed.
pub enum SimplifyResult {
    /// The instruction's value already exists: nothing is inserted.
    SimplifiedTo(ValueId),
    /// All of the instruction's values already exist: nothing is inserted.
    SimplifiedToMultiple(Vec<ValueId>),
    /// Insert this instruction instead of the candidate.
    SimplifiedToInstruction(Instruction),
    /// Insert these instructions instead of the candidate.  When more than one
    /// is given, all of them must be effect-only `Constrain` instructions,
    /// since no result can be threaded from one replacement into the next.
    SimplifiedToInstructionMultiple(Vec<Instruction>),
    /// The instruction has no effect and is dropped entirely.
    Remove,
    /// No simplification applies: insert the candidate as given.
    Unchanged,
}

} // verus!
