//! The closed instruction set of the machine, and the two fault families:
//! assembly errors (the program text is rejected before anything runs) and
//! execution faults (the run is aborted with no result).

use crate::operand::{Operand, OperandV};
use vstd::prelude::*;
use vstd::string::*;

verus! {

/// One assembled instruction. Jump-class instructions carry both the literal
/// argument written in the source and the label target resolved at assembly;
/// an unresolved target faults only when the jump itself executes.
#[derive(Clone, Debug, PartialEq)]
pub enum Instr {
    /// Push the literal constant operand.
    LoadVal(Operand),
    /// Pop top-of-stack and bind it to the named local in the current frame.
    WriteVar(Operand),
    /// Push a copy of the named local's value; faults when unbound.
    ReadVar(Operand),
    /// Pop rhs, pop lhs, push lhs + rhs (integers only).
    Add,
    /// Pop rhs, pop lhs, push lhs * rhs (integers only).
    Multiply,
    /// Pop rhs, pop lhs, push the boolean lhs < rhs (integers only).
    CmpLt,
    /// Pop a boolean; when false, jump to the resolved label target.
    PopJumpIfFalse(Operand, Option<usize>),
    /// Unconditional jump to the resolved label target.
    Jump(Operand, Option<usize>),
    /// Pop top-of-stack and emit its display text; the argument is unused.
    Print(Operand),
    /// Push the literal constant operand.
    Push(Operand),
    /// Pop a channel name and a value; emit a diagnostic line only.
    SendChannel,
    /// Pop a channel name; emit a diagnostic line and push a fixed
    /// placeholder text value.
    RecvChannel,
    /// Pop two operands; emit a diagnostic line and request two fixed
    /// background tasks that ignore the popped operands.
    Spawn,
    /// End the current frame: resume at the caller's return address, or end
    /// the run at the outermost frame.
    ReturnValue,
}

/// Mathematical model of an [`Instr`].
pub enum InstrV {
    LoadVal(OperandV),
    WriteVar(OperandV),
    ReadVar(OperandV),
    Add,
    Multiply,
    CmpLt,
    PopJumpIfFalse(OperandV, Option<int>),
    Jump(OperandV, Option<int>),
    Print(OperandV),
    Push(OperandV),
    SendChannel,
    RecvChannel,
    Spawn,
    ReturnValue,
}

pub open spec fn target_view(t: Option<usize>) -> Option<int> {
    match t {
        Some(i) => Some(i as int),
        None => None,
    }
}

impl View for Instr {
    type V = InstrV;

    open spec fn view(&self) -> InstrV {
        match self {
            Instr::LoadVal(a) => InstrV::LoadVal(a@),
            Instr::WriteVar(a) => InstrV::WriteVar(a@),
            Instr::ReadVar(a) => InstrV::ReadVar(a@),
            Instr::Add => InstrV::Add,
            Instr::Multiply => InstrV::Multiply,
            Instr::CmpLt => InstrV::CmpLt,
            Instr::PopJumpIfFalse(a, t) => InstrV::PopJumpIfFalse(a@, target_view(*t)),
            Instr::Jump(a, t) => InstrV::Jump(a@, target_view(*t)),
            Instr::Print(a) => InstrV::Print(a@),
            Instr::Push(a) => InstrV::Push(a@),
            Instr::SendChannel => InstrV::SendChannel,
            Instr::RecvChannel => InstrV::RecvChannel,
            Instr::Spawn => InstrV::Spawn,
            Instr::ReturnValue => InstrV::ReturnValue,
        }
    }
}

/// An assembly fault: the program text is rejected and nothing executes.
#[derive(Clone, Debug, PartialEq)]
pub enum AsmError {
    /// A non-blank line with a token count other than one or two; holds the
    /// raw line text.
    BadLine(String),
    /// A mnemonic that names no instruction; holds the mnemonic.
    UnknownInstruction(String),
    /// A known mnemonic given the wrong number of arguments for its arity;
    /// holds the mnemonic.
    WrongArity(String),
}

/// Mathematical model of an [`AsmError`].
pub enum AsmErrorV {
    BadLine(Seq<char>),
    UnknownInstruction(Seq<char>),
    WrongArity(Seq<char>),
}

impl View for AsmError {
    type V = AsmErrorV;

    open spec fn view(&self) -> AsmErrorV {
        match self {
            AsmError::BadLine(l) => AsmErrorV::BadLine(l@),
            AsmError::UnknownInstruction(n) => AsmErrorV::UnknownInstruction(n@),
            AsmError::WrongArity(n) => AsmErrorV::WrongArity(n@),
        }
    }
}

/// The descriptive text of an assembly fault.
pub open spec fn spec_asm_error_message(e: AsmErrorV) -> Seq<char> {
    match e {
        AsmErrorV::BadLine(l) => "Unexpected bytecode line: "@ + l,
        AsmErrorV::UnknownInstruction(n) => "Unknown instruction: "@ + n,
        AsmErrorV::WrongArity(n) => "Wrong number of arguments for instruction: "@ + n,
    }
}

impl AsmError {
    /// The descriptive text of the fault.
    pub fn message(&self) -> (r: String)
        ensures
            r@ == spec_asm_error_message(self@),
    {
        match self {
            AsmError::BadLine(l) => {
                let mut m = String::from_str("Unexpected bytecode line: ");
                m.append(l.as_str());
                m
            },
            AsmError::UnknownInstruction(n) => {
                let mut m = String::from_str("Unknown instruction: ");
                m.append(n.as_str());
                m
            },
            AsmError::WrongArity(n) => {
                let mut m = String::from_str("Wrong number of arguments for instruction: ");
                m.append(n.as_str());
                m
            },
        }
    }
}

/// An execution fault: the run is aborted with no result.
#[derive(Clone, Debug, PartialEq)]
pub enum ExecFault {
    /// An instruction popped more operands than the stack held.
    StackUnderflow,
    /// An operand's dynamic kind did not match what the instruction needs.
    KindMismatch,
    /// `READ_VAR` of a name with no binding in the current frame.
    UnboundVariable(String),
    /// A jump through a label that no `LABEL` line defined.
    UnresolvedLabel(String),
    /// An integer operation whose result does not fit in 64 bits.
    ArithmeticOverflow,
}

/// Mathematical model of an [`ExecFault`].
pub enum FaultV {
    StackUnderflow,
    KindMismatch,
    UnboundVariable(Seq<char>),
    UnresolvedLabel(Seq<char>),
    ArithmeticOverflow,
}

impl View for ExecFault {
    type V = FaultV;

    open spec fn view(&self) -> FaultV {
        match self {
            ExecFault::StackUnderflow => FaultV::StackUnderflow,
            ExecFault::KindMismatch => FaultV::KindMismatch,
            ExecFault::UnboundVariable(n) => FaultV::UnboundVariable(n@),
            ExecFault::UnresolvedLabel(n) => FaultV::UnresolvedLabel(n@),
            ExecFault::ArithmeticOverflow => FaultV::ArithmeticOverflow,
        }
    }
}

} // verus!
