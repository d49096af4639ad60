//! The instruction set of the interpreter.

use vstd::prelude::*;
use crate::lang::source_buffer::LocationView;
use crate::lang::source_buffer::SourceLocation;
use crate::runtime::data_structures::value::clone_value;
use crate::runtime::data_structures::value::same_value;
use crate::runtime::data_structures::value::value_view;
use crate::runtime::data_structures::value::Value;
use crate::runtime::data_structures::value::ValueView;
use crate::runtime::error::location_option_view;

verus! {

/// An operation of the interpreter. Jumps carry a label until the jumps of
/// their block are resolved, and a signed offset relative to their own index
/// from then on.
#[derive(Debug)]
pub enum Op {
    DefVariable(Value),
    DefConstant(Value),
    ReadVariable,
    WriteVariable,
    Execute(Value),
    PushConstantValue(Value),
    MarkLoopExit(Value),
    UnmarkLoopExit,
    MarkCatch(Value),
    UnmarkCatch,
    MarkContext,
    ReleaseContext,
    Jump(Value),
    JumpIfZero(Value),
    JumpIfNotZero(Value),
    JumpLoopStart,
    JumpLoopExit,
    JumpTarget(Value),
}

/// What an operation holds, as plain values.
pub enum OpView {
    DefVariable(ValueView),
    DefConstant(ValueView),
    ReadVariable,
    WriteVariable,
    Execute(ValueView),
    PushConstantValue(ValueView),
    MarkLoopExit(ValueView),
    UnmarkLoopExit,
    MarkCatch(ValueView),
    UnmarkCatch,
    MarkContext,
    ReleaseContext,
    Jump(ValueView),
    JumpIfZero(ValueView),
    JumpIfNotZero(ValueView),
    JumpLoopStart,
    JumpLoopExit,
    JumpTarget(ValueView),
}

/// An operation, and the place in the source that it was compiled from, where
/// there is one.
#[derive(Debug)]
pub struct Instruction {
    pub location: Option<SourceLocation>,
    pub op: Op,
}

/// What an instruction holds, as plain values.
pub struct InstructionView {
    pub location: Option<LocationView>,
    pub op: OpView,
}

pub type ByteCode = Vec<Instruction>;

pub open spec fn op_view(op: Op) -> OpView
    decreases op,
{
    match op {
        Op::DefVariable(v) => OpView::DefVariable(value_view(v)),
        Op::DefConstant(v) => OpView::DefConstant(value_view(v)),
        Op::ReadVariable => OpView::ReadVariable,
        Op::WriteVariable => OpView::WriteVariable,
        Op::Execute(v) => OpView::Execute(value_view(v)),
        Op::PushConstantValue(v) => OpView::PushConstantValue(value_view(v)),
        Op::MarkLoopExit(v) => OpView::MarkLoopExit(value_view(v)),
        Op::UnmarkLoopExit => OpView::UnmarkLoopExit,
        Op::MarkCatch(v) => OpView::MarkCatch(value_view(v)),
        Op::UnmarkCatch => OpView::UnmarkCatch,
        Op::MarkContext => OpView::MarkContext,
        Op::ReleaseContext => OpView::ReleaseContext,
        Op::Jump(v) => OpView::Jump(value_view(v)),
        Op::JumpIfZero(v) => OpView::JumpIfZero(value_view(v)),
        Op::JumpIfNotZero(v) => OpView::JumpIfNotZero(value_view(v)),
        Op::JumpLoopStart => OpView::JumpLoopStart,
        Op::JumpLoopExit => OpView::JumpLoopExit,
        Op::JumpTarget(v) => OpView::JumpTarget(value_view(v)),
    }
}

pub open spec fn instruction_view(instruction: Instruction) -> InstructionView
    decreases instruction,
{
    InstructionView {
        location: location_option_view(instruction.location),
        op: op_view(instruction.op),
    }
}

/// The views of the instructions of a block.
pub open spec fn code_view(code: Seq<Instruction>) -> Seq<InstructionView>
    decreases code,
{
    Seq::new(
        code.len(),
        |i: int|
            if 0 <= i < code.len() {
                instruction_view(code[i])
            } else {
                InstructionView { location: None, op: OpView::ReadVariable }
            },
    )
}

impl View for Op {
    type V = OpView;

    open spec fn view(&self) -> OpView {
        op_view(*self)
    }
}

impl View for Instruction {
    type V = InstructionView;

    open spec fn view(&self) -> InstructionView {
        instruction_view(*self)
    }
}

/// A copy of an operation.
pub fn clone_op(op: &Op) -> (r: Op)
    ensures
        r@ == op@,
    decreases op,
{
    match op {
        Op::DefVariable(v) => Op::DefVariable(clone_value(v)),
        Op::DefConstant(v) => Op::DefConstant(clone_value(v)),
        Op::ReadVariable => Op::ReadVariable,
        Op::WriteVariable => Op::WriteVariable,
        Op::Execute(v) => Op::Execute(clone_value(v)),
        Op::PushConstantValue(v) => Op::PushConstantValue(clone_value(v)),
        Op::MarkLoopExit(v) => Op::MarkLoopExit(clone_value(v)),
        Op::UnmarkLoopExit => Op::UnmarkLoopExit,
        Op::MarkCatch(v) => Op::MarkCatch(clone_value(v)),
        Op::UnmarkCatch => Op::UnmarkCatch,
        Op::MarkContext => Op::MarkContext,
        Op::ReleaseContext => Op::ReleaseContext,
        Op::Jump(v) => Op::Jump(clone_value(v)),
        Op::JumpIfZero(v) => Op::JumpIfZero(clone_value(v)),
        Op::JumpIfNotZero(v) => Op::JumpIfNotZero(clone_value(v)),
        Op::JumpLoopStart => Op::JumpLoopStart,
        Op::JumpLoopExit => Op::JumpLoopExit,
        Op::JumpTarget(v) => Op::JumpTarget(clone_value(v)),
    }
}

/// A copy of an instruction.
pub fn clone_instruction(instruction: &Instruction) -> (r: Instruction)
    ensures
        r@ == instruction@,
    decreases instruction,
{
    let location = match &instruction.location {
        Some(l) => Some(l.clone()),
        None => None,
    };
    Instruction { location, op: clone_op(&instruction.op) }
}

/// A copy of a block of instructions.
pub fn clone_code(code: &ByteCode) -> (r: ByteCode)
    ensures
        code_view(r@) == code_view(code@),
    decreases code,
{
    let mut out: Vec<Instruction> = Vec::new();
    let mut i: usize = 0;
    while i < code.len()
        invariant
            i <= code@.len(),
            out@.len() == i,
            forall|k: int| 0 <= k < i ==> out@[k]@ == code@[k]@,
        decreases code@.len() - i,
    {
        assert(decreases_to!(*code => code[i as int]));
        out.push(clone_instruction(&code[i]));
        i += 1;
    }
    assert(code_view(out@) =~= code_view(code@));
    out
}

/// The operand of an operation, if it has one.
pub open spec fn operand_of(op: Op) -> Option<Value> {
    match op {
        Op::DefVariable(v) => Some(v),
        Op::DefConstant(v) => Some(v),
        Op::Execute(v) => Some(v),
        Op::PushConstantValue(v) => Some(v),
        Op::MarkLoopExit(v) => Some(v),
        Op::MarkCatch(v) => Some(v),
        Op::Jump(v) => Some(v),
        Op::JumpIfZero(v) => Some(v),
        Op::JumpIfNotZero(v) => Some(v),
        Op::JumpTarget(v) => Some(v),
        _ => None,
    }
}

/// The value that an operation carries; `Nil` for an operation that carries
/// none.
pub open spec fn carried(op: Op) -> Value {
    match operand_of(op) {
        Some(value) => value,
        None => Value::Nil,
    }
}

/// The values that the instructions of a block carry, in order.
pub open spec fn operands(code: Seq<Instruction>) -> Seq<Value> {
    Seq::new(code.len(), |i: int| carried(code[i].op))
}

/// An operation without the value that it carries: `Nil` stands in its place.
pub open spec fn bare_op(op: OpView) -> OpView {
    match op {
        OpView::DefVariable(_) => OpView::DefVariable(ValueView::Nil),
        OpView::DefConstant(_) => OpView::DefConstant(ValueView::Nil),
        OpView::Execute(_) => OpView::Execute(ValueView::Nil),
        OpView::PushConstantValue(_) => OpView::PushConstantValue(ValueView::Nil),
        OpView::MarkLoopExit(_) => OpView::MarkLoopExit(ValueView::Nil),
        OpView::MarkCatch(_) => OpView::MarkCatch(ValueView::Nil),
        OpView::Jump(_) => OpView::Jump(ValueView::Nil),
        OpView::JumpIfZero(_) => OpView::JumpIfZero(ValueView::Nil),
        OpView::JumpIfNotZero(_) => OpView::JumpIfNotZero(ValueView::Nil),
        OpView::JumpTarget(_) => OpView::JumpTarget(ValueView::Nil),
        other => other,
    }
}

/// The instructions of a block without the values that they carry.
pub open spec fn bare_code(code: Seq<Instruction>) -> Seq<InstructionView> {
    Seq::new(
        code.len(),
        |i: int|
            InstructionView {
                location: location_option_view(code[i].location),
                op: bare_op(code[i].op@),
            },
    )
}

/// A copy of the value that an operation carries; `Nil` for an operation that
/// carries none.
pub fn op_operand(op: &Op) -> (r: Value)
    ensures
        r@ == carried(*op)@,
{
    match op {
        Op::DefVariable(v) => clone_value(v),
        Op::DefConstant(v) => clone_value(v),
        Op::Execute(v) => clone_value(v),
        Op::PushConstantValue(v) => clone_value(v),
        Op::MarkLoopExit(v) => clone_value(v),
        Op::MarkCatch(v) => clone_value(v),
        Op::Jump(v) => clone_value(v),
        Op::JumpIfZero(v) => clone_value(v),
        Op::JumpIfNotZero(v) => clone_value(v),
        Op::JumpTarget(v) => clone_value(v),
        _ => Value::Nil,
    }
}

/// An operation of the same kind that carries the given value. An operation
/// that carries no value is copied.
pub fn op_with_operand(op: &Op, value: Value) -> (r: Op)
    ensures
        bare_op(r@) == bare_op(op@),
        operand_of(*op) is Some ==> carried(r) == value,
        operand_of(*op) is None ==> carried(r) == Value::Nil,
{
    match op {
        Op::DefVariable(_) => Op::DefVariable(value),
        Op::DefConstant(_) => Op::DefConstant(value),
        Op::ReadVariable => Op::ReadVariable,
        Op::WriteVariable => Op::WriteVariable,
        Op::Execute(_) => Op::Execute(value),
        Op::PushConstantValue(_) => Op::PushConstantValue(value),
        Op::MarkLoopExit(_) => Op::MarkLoopExit(value),
        Op::UnmarkLoopExit => Op::UnmarkLoopExit,
        Op::MarkCatch(_) => Op::MarkCatch(value),
        Op::UnmarkCatch => Op::UnmarkCatch,
        Op::MarkContext => Op::MarkContext,
        Op::ReleaseContext => Op::ReleaseContext,
        Op::Jump(_) => Op::Jump(value),
        Op::JumpIfZero(_) => Op::JumpIfZero(value),
        Op::JumpIfNotZero(_) => Op::JumpIfNotZero(value),
        Op::JumpLoopStart => Op::JumpLoopStart,
        Op::JumpLoopExit => Op::JumpLoopExit,
        Op::JumpTarget(_) => Op::JumpTarget(value),
    }
}

/// A number for each kind of operation.
pub open spec fn kind_of(op: OpView) -> nat {
    match op {
        OpView::DefVariable(_) => 0,
        OpView::DefConstant(_) => 1,
        OpView::ReadVariable => 2,
        OpView::WriteVariable => 3,
        OpView::Execute(_) => 4,
        OpView::PushConstantValue(_) => 5,
        OpView::MarkLoopExit(_) => 6,
        OpView::UnmarkLoopExit => 7,
        OpView::MarkCatch(_) => 8,
        OpView::UnmarkCatch => 9,
        OpView::MarkContext => 10,
        OpView::ReleaseContext => 11,
        OpView::Jump(_) => 12,
        OpView::JumpIfZero(_) => 13,
        OpView::JumpIfNotZero(_) => 14,
        OpView::JumpLoopStart => 15,
        OpView::JumpLoopExit => 16,
        OpView::JumpTarget(_) => 17,
    }
}

/// The number of the kind of an operation.
fn kind(op: &Op) -> (r: u8)
    ensures
        r == kind_of(op@),
{
    match op {
        Op::DefVariable(_) => 0,
        Op::DefConstant(_) => 1,
        Op::ReadVariable => 2,
        Op::WriteVariable => 3,
        Op::Execute(_) => 4,
        Op::PushConstantValue(_) => 5,
        Op::MarkLoopExit(_) => 6,
        Op::UnmarkLoopExit => 7,
        Op::MarkCatch(_) => 8,
        Op::UnmarkCatch => 9,
        Op::MarkContext => 10,
        Op::ReleaseContext => 11,
        Op::Jump(_) => 12,
        Op::JumpIfZero(_) => 13,
        Op::JumpIfNotZero(_) => 14,
        Op::JumpLoopStart => 15,
        Op::JumpLoopExit => 16,
        Op::JumpTarget(_) => 17,
    }
}

/// The operand of an operation, if it has one.
pub fn operand(op: &Op) -> (r: Option<&Value>)
    ensures
        match r {
            Some(v) => operand_of(*op) == Some(*v),
            None => operand_of(*op) is None,
        },
{
    match op {
        Op::DefVariable(v) => Some(v),
        Op::DefConstant(v) => Some(v),
        Op::Execute(v) => Some(v),
        Op::PushConstantValue(v) => Some(v),
        Op::MarkLoopExit(v) => Some(v),
        Op::MarkCatch(v) => Some(v),
        Op::Jump(v) => Some(v),
        Op::JumpIfZero(v) => Some(v),
        Op::JumpIfNotZero(v) => Some(v),
        Op::JumpTarget(v) => Some(v),
        _ => None,
    }
}

/// Whether two operations hold the same.
pub fn same_op(a: &Op, b: &Op) -> (r: bool)
    ensures
        r == (a@ == b@),
    decreases a,
{
    if kind(a) != kind(b) {
        return false;
    }
    match (operand(a), operand(b)) {
        (Some(x), Some(y)) => same_value(x, y),
        (None, None) => true,
        _ => false,
    }
}

/// Whether two instructions hold the same.
pub fn same_instruction(a: &Instruction, b: &Instruction) -> (r: bool)
    ensures
        r == (a@ == b@),
    decreases a,
{
    let locations = match (&a.location, &b.location) {
        (Some(l), Some(m)) => l.same_as(m),
        (None, None) => true,
        _ => false,
    };
    locations && same_op(&a.op, &b.op)
}

/// Whether two blocks of instructions hold the same.
pub fn same_code(a: &ByteCode, b: &ByteCode) -> (r: bool)
    ensures
        r == (code_view(a@) == code_view(b@)),
    decreases a,
{
    if a.len() != b.len() {
        assert(code_view(a@).len() != code_view(b@).len());
        return false;
    }
    let mut i: usize = 0;
    while i < a.len()
        invariant
            i <= a@.len(),
            a@.len() == b@.len(),
            forall|k: int| 0 <= k < i ==> a@[k]@ == b@[k]@,
        decreases a@.len() - i,
    {
        assert(decreases_to!(*a => a[i as int]));
        if !same_instruction(&a[i], &b[i]) {
            assert(code_view(a@)[i as int] != code_view(b@)[i as int]);
            return false;
        }
        i += 1;
    }
    assert(code_view(a@) =~= code_view(b@));
    true
}

impl Clone for Op {
    fn clone(&self) -> (r: Self)
        ensures
            r@ == self@,
    {
        clone_op(self)
    }
}

impl Clone for Instruction {
    fn clone(&self) -> (r: Self)
        ensures
            r@ == self@,
    {
        clone_instruction(self)
    }
}

impl Instruction {
    pub fn new(location: Option<SourceLocation>, op: Op) -> (r: Instruction)
        ensures
            r.location == location,
            r.op == op,
    {
        Instruction { location, op }
    }
}

} // verus!
