//! The instructions that the machine runs and the operands they name.

use vstd::prelude::*;

use crate::value::{Primitive, ValueModel};

verus! {

/// What an instruction does.
#[derive(Debug, Clone, Copy, PartialEq, Eq, Structural)]
pub enum OpCode {
    Push,
    Pop,
    Move,
    LoadEnv,
    Return,
    Add,
    Sub,
    Mul,
    Div,
    Mod,
    Pow,
    And,
    Or,
    IfEqual,
    IfNotEqual,
    IfGreater,
    IfGreaterOrEqual,
    IfLess,
    IfLessOrEqual,
    Neg,
    Not,
    In,
    Index,
    Call,
}

/// One of the machine's eight registers.
#[derive(Debug, Clone, Copy, PartialEq, Eq, Structural)]
pub enum Register {
    R0,
    R1,
    R2,
    R3,
    R4,
    R5,
    R6,
    R7,
}

/// The position of a register in the register file.
pub open spec fn register_index(reg: Register) -> int {
    match reg {
        Register::R0 => 0,
        Register::R1 => 1,
        Register::R2 => 2,
        Register::R3 => 3,
        Register::R4 => 4,
        Register::R5 => 5,
        Register::R6 => 6,
        Register::R7 => 7,
    }
}

impl Register {
    /// The position of the register in the register file.
    pub fn index(&self) -> (r: usize)
        ensures
            r == register_index(*self),
            r < 8,
    {
        match self {
            Register::R0 => 0,
            Register::R1 => 1,
            Register::R2 => 2,
            Register::R3 => 3,
            Register::R4 => 4,
            Register::R5 => 5,
            Register::R6 => 6,
            Register::R7 => 7,
        }
    }
}

/// A slot of the stack, counted from the frame pointer.
#[derive(Debug, Clone, Copy, PartialEq, Eq, Structural)]
pub struct StackOffset(pub usize);

impl StackOffset {
    pub fn new(offset: usize) -> (r: Self)
        ensures
            r.0 == offset,
    {
        StackOffset(offset)
    }

    pub fn as_usize(&self) -> (r: usize)
        ensures
            r == self.0,
    {
        self.0
    }
}

/// Where an instruction reads or writes a value.
#[derive(Debug, Clone)]
pub enum Operand {
    /// No operand.
    Empty,
    /// A constant.
    Immed(Primitive),
    /// A register.
    Register(Register),
    /// A stack slot, relative to the frame pointer.
    Stack(StackOffset),
    /// A virtual register, which allocation replaces before the code runs.
    VirtReg(usize),
}

/// The mathematical form of an [`Operand`]: a constant taken by the value it
/// denotes, a stack slot by its offset.
pub enum OperandModel {
    Empty,
    Immed(ValueModel),
    Register(Register),
    Stack(usize),
    VirtReg(usize),
}

impl View for Operand {
    type V = OperandModel;

    open spec fn view(&self) -> OperandModel {
        match self {
            Operand::Empty => OperandModel::Empty,
            Operand::Immed(p) => OperandModel::Immed(p@),
            Operand::Register(r) => OperandModel::Register(*r),
            Operand::Stack(offset) => OperandModel::Stack(offset.0),
            Operand::VirtReg(v) => OperandModel::VirtReg(*v),
        }
    }
}

/// Where a value of a function lives once registers are allocated.
#[derive(Debug, Clone, Copy, PartialEq, Eq, Structural)]
pub enum Address {
    Register(Register),
    Stack(StackOffset),
}

/// An operation code with up to three operands; `operand0` is the destination
/// of the instructions that produce a value.
#[derive(Debug, Clone)]
pub struct Instruction {
    pub opcode: OpCode,
    pub operand0: Operand,
    pub operand1: Operand,
    pub operand2: Operand,
}

/// The mathematical form of an [`Instruction`].
pub struct InstructionModel {
    pub opcode: OpCode,
    pub operand0: OperandModel,
    pub operand1: OperandModel,
    pub operand2: OperandModel,
}

impl View for Instruction {
    type V = InstructionModel;

    open spec fn view(&self) -> InstructionModel {
        InstructionModel {
            opcode: self.opcode,
            operand0: self.operand0@,
            operand1: self.operand1@,
            operand2: self.operand2@,
        }
    }
}

impl Instruction {
    pub fn new(opcode: OpCode, operand0: Operand, operand1: Operand, operand2: Operand) -> (r: Self)
        ensures
            r == (Instruction { opcode, operand0, operand1, operand2 }),
    {
        Instruction { opcode, operand0, operand1, operand2 }
    }
}

/// A program: the instructions, run in order.
pub type Module = Vec<Instruction>;

} // verus!
