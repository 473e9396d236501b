//! Basic blocks: an ordered instruction list, a parameter list, and at most
//! one terminator.
//!
//! A freshly created block has no parameters and no terminator; it is
//! unreachable until some other block's terminator targets it.

use vstd::prelude::*;
use crate::instruction::TerminatorInstruction;
use crate::value::{InstructionId, ValueId};

verus! {

/// One basic block of the function.
pub struct BasicBlock {
    /// The parameter values of the block, in declaration order.
    pub parameters: Vec<ValueId>,
    /// The instructions of the block, in execution order.
    pub instructions: Vec<InstructionId>,
    /// The control transfer ending the block, once control flow is built.
    pub terminator: Option<TerminatorInstruction>,
}

impl BasicBlock {
    /// Creates a block with no parameters, no instructions and no terminator.
    pub fn new() -> (r: BasicBlock)
        ensures
            r.parameters@ == Seq::<ValueId>::empty(),
            r.instructions@ == Seq::<InstructionId>::empty(),
            r.terminator is None,
    {
        BasicBlock { parameters: Vec::new(), instructions: Vec::new(), terminator: None }
    }

    /// The parameters of the block.
    pub fn parameters(&self) -> (r: &Vec<ValueId>)
        ensures
            r@ == self.parameters@,
    {
        &self.parameters
    }

    /// Replaces the whole parameter list.
    pub fn set_parameters(&mut self, parameters: Vec<ValueId>)
        ensures
            final(self).parameters == parameters,
            final(self).instructions == old(self).instructions,
            final(self).terminator == old(self).terminator,
    {
        self.parameters = parameters;
    }

    /// Appends one parameter value.
    pub fn add_parameter(&mut self, parameter: ValueId)
        ensures
            final(self).parameters@ == old(self).parameters@.push(parameter),
            final(self).instructions == old(self).instructions,
            final(self).terminator == old(self).terminator,
    {
        self.parameters.push(parameter);
    }

    /// The instructions of the block, in order.
    pub fn instructions(&self) -> (r: &Vec<InstructionId>)
        ensures
            r@ == self.instructions@,
    {
        &self.instructions
    }

    /// Appends one instruction at the end of the block.
    pub fn insert_instruction(&mut self, instruction: InstructionId)
        ensures
            final(self).instructions@ == old(self).instructions@.push(instruction),
            final(self).parameters == old(self).parameters,
            final(self).terminator == old(self).terminator,
    {
        self.instructions.push(instruction);
    }

    /// Removes and returns the whole instruction list, leaving none.
    pub fn take_instructions(&mut self) -> (r: Vec<InstructionId>)
        ensures
            r == old(self).instructions,
            final(self).instructions@ == Seq::<InstructionId>::empty(),
            final(self).parameters == old(self).parameters,
            final(self).terminator == old(self).terminator,
    {
        let mut r = Vec::new();
        core::mem::swap(&mut r, &mut self.instructions);
        r
    }

    /// The terminator of the block, if control flow has been built.
    pub fn terminator(&self) -> (r: &Option<TerminatorInstruction>)
        ensures
            r == &self.terminator,
    {
        &self.terminator
    }

    /// Sets the terminator, replacing any previous one.
    pub fn set_terminator(&mut self, terminator: Option<TerminatorInstruction>)
        ensures
            final(self).terminator == terminator,
            final(self).parameters == old(self).parameters,
            final(self).instructions == old(self).instructions,
    {
        self.terminator = terminator;
    }

    /// Removes and returns the terminator, leaving the block without one.
    pub fn take_terminator(&mut self) -> (r: Option<TerminatorInstruction>)
        ensures
            r == old(self).terminator,
            final(self).terminator is None,
            final(self).parameters == old(self).parameters,
            final(self).instructions == old(self).instructions,
    {
        self.terminator.take()
    }
}

} // verus!
