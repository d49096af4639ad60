//! The construction of bytecode: the blocks that are being built, the
//! resolution of their jumps, and the compiler that fills them from tokens.

use vstd::prelude::*;
use vstd::string::StringExecFns;
use crate::lang::code::code_view;
use crate::lang::code::ByteCode;
use crate::lang::code::Instruction;
use crate::lang::code::InstructionView;
use crate::lang::code::Op;
use crate::lang::code::OpView;
use crate::lang::source_buffer::LocationView;
use crate::lang::source_buffer::SourceLocation;
use crate::lang::tokenizing::Token;
use crate::lang::tokenizing::TokenList;
use crate::lang::tokenizing::TokenView;
use crate::runtime::data_structures::dictionary::WordRuntime;
use crate::runtime::data_structures::dictionary::WordVisibility;
use crate::runtime::data_structures::value::Value;
use crate::runtime::data_structures::value::ValueView;
use crate::runtime::error::Result;
use crate::runtime::error::ScriptError;
use crate::lang::code::clone_code;
use crate::lang::tokenizing::NumberType;
use crate::runtime::data_structures::dictionary::WordInfo;
use crate::runtime::data_structures::value::count_value;
use crate::runtime::data_structures::value::index_value;
use crate::runtime::host::Host;
use crate::runtime::interpreter::sorth_interpreter::failure;
use crate::runtime::interpreter::sorth_interpreter::is_new_frame;
use crate::runtime::interpreter::sorth_interpreter::jump_destination;
use crate::runtime::interpreter::sorth_interpreter::run;
use crate::runtime::interpreter::sorth_interpreter::ExecutionFrame;
use crate::runtime::interpreter::sorth_interpreter::SorthInterpreter;
use crate::text::int_text;
use crate::text::int_to_string;
use crate::runtime::data_structures::dictionary::lookup;
use crate::runtime::data_structures::dictionary::WordInfoView;

verus! {

/// The label that a value is, if it is one: the text of a string, or of a
/// token that is a word or a string.
pub open spec fn label_of(value: ValueView) -> Option<Seq<char>> {
    match value {
        ValueView::String(text) => Some(text),
        ValueView::Token(TokenView::String(_, text)) => Some(text),
        ValueView::Token(TokenView::Word(_, text)) => Some(text),
        _ => None,
    }
}

/// The operand of an operation that jumps or marks a place to jump to:
/// `Jump`, `JumpIfZero`, `JumpIfNotZero`, `MarkLoopExit` and `MarkCatch`.
pub open spec fn jump_operand(op: OpView) -> Option<ValueView> {
    match op {
        OpView::Jump(v) => Some(v),
        OpView::JumpIfZero(v) => Some(v),
        OpView::JumpIfNotZero(v) => Some(v),
        OpView::MarkLoopExit(v) => Some(v),
        OpView::MarkCatch(v) => Some(v),
        _ => None,
    }
}

/// The label that an operation jumps to, if it jumps and its operand is a
/// label.
pub open spec fn jump_label(op: OpView) -> Option<Seq<char>> {
    match jump_operand(op) {
        Some(v) => label_of(v),
        None => None,
    }
}

/// The operation with the same kind as the jump `op` and the given operand.
pub open spec fn with_operand(op: OpView, operand: ValueView) -> OpView {
    match op {
        OpView::Jump(_) => OpView::Jump(operand),
        OpView::JumpIfZero(_) => OpView::JumpIfZero(operand),
        OpView::JumpIfNotZero(_) => OpView::JumpIfNotZero(operand),
        OpView::MarkLoopExit(_) => OpView::MarkLoopExit(operand),
        OpView::MarkCatch(_) => OpView::MarkCatch(operand),
        _ => op,
    }
}

/// Whether the instruction is a `JumpTarget` with the given label.
pub open spec fn is_target(instruction: InstructionView, label: Seq<char>) -> bool {
    match instruction.op {
        OpView::JumpTarget(v) => label_of(v) == Some(label),
        _ => false,
    }
}

/// The index of the last `JumpTarget` with the given label among the first
/// `n` instructions, if there is one.
pub open spec fn target_index(code: Seq<InstructionView>, label: Seq<char>, n: int) -> Option<int>
    decreases n,
{
    if n <= 0 || n > code.len() {
        None
    } else if is_target(code[n - 1], label) {
        Some(n - 1)
    } else {
        target_index(code, label, n - 1)
    }
}

/// Whether the jumps of a block can be resolved: the block is not longer than
/// an offset can tell, and every label that is jumped to stands on a
/// `JumpTarget`.
pub open spec fn resolvable(code: Seq<InstructionView>) -> bool {
    &&& code.len() <= i64::MAX
    &&& forall|i: int|
        0 <= i < code.len() ==> match jump_label((#[trigger] code[i]).op) {
            Some(label) => target_index(code, label, code.len() as int) is Some,
            None => true,
        }
}

/// The instruction at index `i` after the jumps of the block have been
/// resolved: a jump to a label jumps by the offset from its own index to the
/// `JumpTarget` of that label, a `JumpTarget` has lost its label, and any
/// other instruction is as it was.
pub open spec fn resolved_instruction(code: Seq<InstructionView>, i: int) -> InstructionView {
    let instruction = code[i];
    match instruction.op {
        OpView::JumpTarget(_) => InstructionView {
            location: instruction.location,
            op: OpView::JumpTarget(ValueView::Nil),
        },
        _ => match jump_label(instruction.op) {
            Some(label) => match target_index(code, label, code.len() as int) {
                Some(target) => InstructionView {
                    location: instruction.location,
                    op: with_operand(instruction.op, ValueView::Int((target - i) as i64)),
                },
                None => instruction,
            },
            None => instruction,
        },
    }
}

/// The block after its jumps have been resolved.
pub open spec fn resolved(code: Seq<InstructionView>) -> Seq<InstructionView> {
    Seq::new(code.len(), |i: int| resolved_instruction(code, i))
}

/// A target that is found lies within the instructions that were searched.
pub proof fn lemma_target_index_bounds(code: Seq<InstructionView>, label: Seq<char>, n: int)
    ensures
        target_index(code, label, n) is Some ==> 0 <= target_index(code, label, n)->0 < n
            && target_index(code, label, n)->0 < code.len(),
    decreases n,
{
    if n > 0 && n <= code.len() && !is_target(code[n - 1], label) {
        lemma_target_index_bounds(code, label, n - 1);
    }
}

/// A target that is found is a `JumpTarget` with the label.
pub proof fn lemma_target_index_is_target(code: Seq<InstructionView>, label: Seq<char>, n: int)
    ensures
        target_index(code, label, n) is Some ==> is_target(
            code[target_index(code, label, n)->0],
            label,
        ),
    decreases n,
{
    if n > 0 && n <= code.len() && !is_target(code[n - 1], label) {
        lemma_target_index_is_target(code, label, n - 1);
    }
}

/// A jump that was resolved leads to the target of its label: the offset
/// that it has after the resolution takes an execution from the index of the
/// jump to the index of the last `JumpTarget` that had the label, which lies
/// in the block and has lost the label.
pub proof fn lemma_resolved_jump_lands(code: Seq<InstructionView>, i: int)
    requires
        resolvable(code),
        0 <= i < code.len(),
        jump_label(code[i].op) is Some,
    ensures
        ({
            let label = jump_label(code[i].op)->0;
            let target = target_index(code, label, code.len() as int)->0;
            &&& 0 <= target < code.len()
            &&& is_target(code[target], label)
            &&& resolved(code)[target].op == OpView::JumpTarget(ValueView::Nil)
            &&& jump_operand(resolved(code)[i].op) == Some(ValueView::Int((target - i) as i64))
            &&& jump_destination(i, ((target - i) as i64) as int, code.len() as int) == target
        }),
{
    let label = jump_label(code[i].op)->0;
    lemma_target_index_bounds(code, label, code.len() as int);
    lemma_target_index_is_target(code, label, code.len() as int);
}

/// Resolving the jumps of a block twice gives what resolving them once gives:
/// no label is left after the first time.
pub proof fn lemma_resolve_idempotent(code: Seq<InstructionView>)
    requires
        resolvable(code),
    ensures
        resolvable(resolved(code)),
        resolved(resolved(code)) == resolved(code),
{
    let once = resolved(code);
    assert forall|i: int| 0 <= i < once.len() implies jump_label((#[trigger] once[i]).op) is None
        && !(once[i].op is JumpTarget && label_of(once[i].op->JumpTarget_0) is Some) by {
        let instruction = code[i];
        match jump_label(instruction.op) {
            Some(label) => {
                assert(target_index(code, label, code.len() as int) is Some);
            },
            None => {},
        }
    }
    assert forall|i: int| 0 <= i < once.len() implies resolved_instruction(once, i) == once[i] by {
        assert(jump_label(once[i].op) is None);
    }
    assert(resolved(once) =~= once);
}

/// A block of code that is being built, with what is known of the word that
/// it will be the body of.
#[derive(Debug)]
pub struct Construction {
    pub runtime: WordRuntime,
    pub visibility: WordVisibility,
    pub name: String,
    pub location: SourceLocation,
    pub description: String,
    pub signature: String,
    pub code: ByteCode,
}

/// What a construction holds, as plain values.
pub struct ConstructionView {
    pub runtime: WordRuntime,
    pub visibility: WordVisibility,
    pub name: Seq<char>,
    pub location: LocationView,
    pub description: Seq<char>,
    pub signature: Seq<char>,
    pub code: Seq<InstructionView>,
}

impl View for Construction {
    type V = ConstructionView;

    open spec fn view(&self) -> ConstructionView {
        ConstructionView {
            runtime: self.runtime,
            visibility: self.visibility,
            name: self.name@,
            location: self.location@,
            description: self.description@,
            signature: self.signature@,
            code: code_view(self.code@),
        }
    }
}

/// The text of the label that a value is, if it is one.
fn label_text(value: &Value) -> (r: Option<&String>)
    ensures
        match r {
            Some(text) => label_of(value@) == Some(text@),
            None => label_of(value@) is None,
        },
{
    match value {
        Value::String(text) => Some(text),
        Value::Token(Token::String(_, text)) => Some(text),
        Value::Token(Token::Word(_, text)) => Some(text),
        _ => None,
    }
}

/// The text of the label that an operation jumps to, if it jumps to one.
fn jump_label_text(op: &Op) -> (r: Option<&String>)
    ensures
        match r {
            Some(text) => jump_label(op@) == Some(text@),
            None => jump_label(op@) is None,
        },
{
    match op {
        Op::Jump(value) => label_text(value),
        Op::JumpIfZero(value) => label_text(value),
        Op::JumpIfNotZero(value) => label_text(value),
        Op::MarkLoopExit(value) => label_text(value),
        Op::MarkCatch(value) => label_text(value),
        _ => None,
    }
}

/// The jump of the kind of `jump_op` by the given offset.
fn update_jump_op(jump_op: &Op, relative: i64) -> (r: Op)
    requires
        jump_operand(jump_op@) is Some,
    ensures
        r@ == with_operand(jump_op@, ValueView::Int(relative)),
{
    match jump_op {
        Op::Jump(_) => Op::Jump(Value::Int(relative)),
        Op::JumpIfZero(_) => Op::JumpIfZero(Value::Int(relative)),
        Op::JumpIfNotZero(_) => Op::JumpIfNotZero(Value::Int(relative)),
        Op::MarkLoopExit(_) => Op::MarkLoopExit(Value::Int(relative)),
        _ => Op::MarkCatch(Value::Int(relative)),
    }
}

/// The index of the last `JumpTarget` of the block with the given label.
fn find_target(code: &ByteCode, label: &String) -> (r: Option<usize>)
    ensures
        match r {
            Some(index) => target_index(code_view(code@), label@, code@.len() as int) == Some(
                index as int,
            ),
            None => target_index(code_view(code@), label@, code@.len() as int) is None,
        },
{
    let ghost views = code_view(code@);
    let mut n: usize = code.len();
    while n > 0
        invariant
            n <= code@.len(),
            views == code_view(code@),
            target_index(views, label@, code@.len() as int) == target_index(views, label@, n as int),
        decreases n,
    {
        let found = match &code[n - 1].op {
            Op::JumpTarget(value) => match label_text(value) {
                Some(text) => *text == *label,
                None => false,
            },
            _ => false,
        };
        assert(found == is_target(views[n - 1], label@));
        if found {
            return Some(n - 1);
        }
        n -= 1;
    }
    None
}

/// A copy of a location that may be absent.
fn clone_location(location: &Option<SourceLocation>) -> (r: Option<SourceLocation>)
    ensures
        crate::runtime::error::location_option_view(r)
            == crate::runtime::error::location_option_view(*location),
{
    match location {
        Some(l) => Some(l.clone()),
        None => None,
    }
}

impl Construction {
    /// A construction with no code, for a normal, visible word without a name.
    pub fn new() -> (r: Construction)
        ensures
            r@ == (ConstructionView {
                runtime: WordRuntime::Normal,
                visibility: WordVisibility::Visible,
                name: Seq::empty(),
                location: (LocationView { path: "unspecified"@, line: 1, column: 1 }),
                description: Seq::empty(),
                signature: Seq::empty(),
                code: Seq::empty(),
            }),
    {
        let r = Construction {
            runtime: WordRuntime::Normal,
            visibility: WordVisibility::Visible,
            name: String::new(),
            location: SourceLocation::new(),
            description: String::new(),
            signature: String::new(),
            code: Vec::new(),
        };
        assert(code_view(r.code@) =~= Seq::<InstructionView>::empty());
        r
    }

    /// Whether every label that the block jumps to stands on a `JumpTarget`
    /// of the block.
    fn check_jumps(&self) -> (r: bool)
        ensures
            r == resolvable(code_view(self.code@)),
    {
        let ghost views = code_view(self.code@);
        if self.code.len() as u64 > 0x7fff_ffff_ffff_ffff {
            return false;
        }
        let mut i: usize = 0;
        while i < self.code.len()
            invariant
                i <= self.code@.len(),
                views == code_view(self.code@),
                views.len() <= i64::MAX,
                forall|k: int|
                    0 <= k < i ==> match jump_label((#[trigger] views[k]).op) {
                        Some(label) => target_index(views, label, views.len() as int) is Some,
                        None => true,
                    },
            decreases self.code@.len() - i,
        {
            match jump_label_text(&self.code[i].op) {
                Some(label) => {
                    if find_target(&self.code, label).is_none() {
                        assert(jump_label(views[i as int].op) == Some(label@));
                        return false;
                    }
                },
                None => {},
            }
            i += 1;
        }
        true
    }

    /// Resolves the jumps of the block.
    ///
    /// Where every label that is jumped to stands on a `JumpTarget` of the
    /// block, each jump to a label gets the offset from its own index to the
    /// last `JumpTarget` of that label in its place, and each `JumpTarget`
    /// loses its label. Where a label stands on none, the call fails and the
    /// block is as it was.
    pub fn resolve_jumps(&mut self) -> (r: Result<()>)
        ensures
            resolvable(old(self)@.code) ==> r is Ok && final(self)@ == (ConstructionView {
                code: resolved(old(self)@.code),
                ..old(self)@
            }),
            !resolvable(old(self)@.code) ==> r is Err && *final(self) == *old(self),
    {
        if !self.check_jumps() {
            return ScriptError::new_as_result(
                None,
                String::from_str("Jump to a label that has no target."),
                None,
            );
        }
        let ghost before = code_view(self.code@);
        let mut result: Vec<Instruction> = Vec::new();
        let mut i: usize = 0;
        while i < self.code.len()
            invariant
                i <= self.code@.len(),
                *self == *old(self),
                before == code_view(self.code@),
                resolvable(before),
                result@.len() == i,
                forall|k: int| 0 <= k < i ==> (#[trigger] result@[k])@ == resolved_instruction(before, k),
            decreases self.code@.len() - i,
        {
            let instruction = &self.code[i];
            assert(instruction@ == before[i as int]);
            let location = clone_location(&instruction.location);
            let op = match &instruction.op {
                Op::JumpTarget(_) => Op::JumpTarget(Value::Nil),
                other => match jump_label_text(other) {
                    Some(label) => match find_target(&self.code, label) {
                        Some(target) => {
                            proof {
                                lemma_target_index_bounds(before, label@, before.len() as int);
                            }
                            let relative: i64 = (target as i64) - (i as i64);
                            update_jump_op(other, relative)
                        },
                        None => other.clone(),
                    },
                    None => other.clone(),
                },
            };
            result.push(Instruction { location, op });
            i += 1;
        }
        self.code = result;
        assert(code_view(self.code@) =~= resolved(before));
        Ok(())
    }
}

pub type ConstructionList = Vec<Construction>;

/// Where the next instruction goes in the block that is being built.
#[derive(Clone, Copy, Debug, PartialEq, Eq, Structural)]
pub enum InsertionLocation {
    AtEnd,
    AtTop,
}

/// The state of one compilation: the blocks that are being built, the
/// innermost last, and the tokens that are being compiled.
pub struct CodeConstructor {
    pub constructions: ConstructionList,
    pub insertion: InsertionLocation,
    pub input: TokenList,
    pub current: usize,
}

impl CodeConstructor {
    /// A constructor over the given tokens, with one empty block.
    pub fn new(token_list: TokenList) -> (r: CodeConstructor)
        ensures
            r.constructions@.len() == 1,
            r.constructions@[0]@ == Construction::new_view(),
            r.insertion == InsertionLocation::AtEnd,
            r.input == token_list,
            r.current == 0,
    {
        let mut constructions: Vec<Construction> = Vec::new();
        constructions.push(Construction::new());
        CodeConstructor {
            constructions,
            insertion: InsertionLocation::AtEnd,
            input: token_list,
            current: 0,
        }
    }

    /// The next token of the input, if there is one more.
    pub fn next_token(&mut self) -> (r: Option<Token>)
        ensures
            final(self).constructions == old(self).constructions,
            final(self).insertion == old(self).insertion,
            final(self).input == old(self).input,
            old(self).current < old(self).input@.len() ==> r is Some && r->0@ == old(self).input@[old(self).current as int]@ && final(self).current == old(self).current + 1,
            old(self).current >= old(self).input@.len() ==> r is None && final(self).current
                == old(self).current,
    {
        if self.current >= self.input.len() {
            return None;
        }
        let token = self.input[self.current].clone();
        self.current += 1;
        Some(token)
    }

    /// Starts a new, empty block.
    pub fn construction_new(&mut self)
        ensures
            final(self).constructions@.len() == old(self).constructions@.len() + 1,
            final(self).constructions@.drop_last() == old(self).constructions@,
            final(self).constructions@.last()@ == Construction::new_view(),
            final(self).insertion == old(self).insertion,
            final(self).input == old(self).input,
            final(self).current == old(self).current,
    {
        self.constructions.push(Construction::new());
    }

    /// Starts a new block that holds the given code.
    pub fn construction_new_with_code(&mut self, code: ByteCode)
        ensures
            final(self).constructions@.len() == old(self).constructions@.len() + 1,
            final(self).constructions@.drop_last() == old(self).constructions@,
            final(self).constructions@.last()@ == (ConstructionView {
                code: code_view(code@),
                ..Construction::new_view()
            }),
            final(self).insertion == old(self).insertion,
            final(self).input == old(self).input,
            final(self).current == old(self).current,
    {
        let mut construction = Construction::new();
        construction.code = code;
        self.constructions.push(construction);
    }

    /// Takes the innermost block off the stack of blocks.
    pub fn construction_pop(&mut self) -> (r: Result<Construction>)
        ensures
            final(self).insertion == old(self).insertion,
            final(self).input == old(self).input,
            final(self).current == old(self).current,
            old(self).constructions@.len() > 0 ==> r is Ok && r->Ok_0 == old(self).constructions@.last() && final(self).constructions@ == old(self).constructions@.drop_last(),
            old(self).constructions@.len() == 0 ==> r is Err && final(self).constructions@ == old(self).constructions@,
    {
        match self.constructions.pop() {
            Some(construction) => Ok(construction),
            None => ScriptError::new_as_result(
                None,
                String::from_str("No construction to pop."),
                None,
            ),
        }
    }

    /// The innermost block.
    pub fn construction(&self) -> (r: Result<&Construction>)
        ensures
            self.constructions@.len() > 0 ==> r is Ok && *r->Ok_0 == self.constructions@.last(),
            self.constructions@.len() == 0 ==> r is Err,
    {
        if self.constructions.len() == 0 {
            return ScriptError::new_as_result(
                None,
                String::from_str("Accessing an empty construction context."),
                None,
            );
        }
        let index = self.constructions.len() - 1;
        Ok(&self.constructions[index])
    }

    /// The innermost block, to be changed in place.
    pub fn construction_mut(&mut self) -> (r: Result<&mut Construction>)
        ensures
            final(self).insertion == old(self).insertion,
            final(self).input == old(self).input,
            final(self).current == old(self).current,
            old(self).constructions@.len() == 0 ==> r is Err && final(self).constructions@ == old(self).constructions@,
            old(self).constructions@.len() > 0 ==> {
                &&& r is Ok
                &&& *r->Ok_0 == old(self).constructions@.last()
                &&& final(self).constructions@ == old(self).constructions@.update(
                    old(self).constructions@.len() - 1,
                    *final(r->Ok_0),
                )
            },
    {
        if self.constructions.len() == 0 {
            return ScriptError::new_as_result(
                None,
                String::from_str("Accessing an empty construction context."),
                None,
            );
        }
        let index = self.constructions.len() - 1;
        Ok(&mut self.constructions[index])
    }

    /// Puts an instruction into the innermost block: at its end, or at its
    /// front, as the insertion mode says.
    pub fn push_instruction(&mut self, instruction: Instruction) -> (r: Result<()>)
        ensures
            final(self).insertion == old(self).insertion,
            final(self).input == old(self).input,
            final(self).current == old(self).current,
            old(self).constructions@.len() == 0 ==> r is Err && final(self).constructions == old(self).constructions,
            old(self).constructions@.len() > 0 ==> {
                &&& r is Ok
                &&& final(self).constructions@.len() == old(self).constructions@.len()
                &&& final(self).constructions@.drop_last() == old(self).constructions@.drop_last()
                &&& final(self).constructions@.last()@ == (ConstructionView {
                    code: if old(self).insertion == InsertionLocation::AtEnd {
                        old(self).constructions@.last()@.code.push(instruction@)
                    } else {
                        seq![instruction@] + old(self).constructions@.last()@.code
                    },
                    ..old(self).constructions@.last()@
                })
                &&& with_instruction(*old(self), *final(self), instruction@)
            },
    {
        if self.constructions.len() == 0 {
            return ScriptError::new_as_result(
                None,
                String::from_str("Accessing an empty construction context."),
                None,
            );
        }
        let index = self.constructions.len() - 1;
        let ghost before = code_view(self.constructions@[index as int].code@);
        if self.insertion == InsertionLocation::AtEnd {
            self.constructions[index].code.push(instruction);
            assert(code_view(self.constructions@[index as int].code@) =~= before.push(
                instruction@,
            ));
        } else {
            self.constructions[index].code.insert(0, instruction);
            assert(code_view(self.constructions@[index as int].code@) =~= seq![instruction@]
                + before);
        }
        assert(self.constructions@.drop_last() =~= old(self).constructions@.drop_last());
        Ok(())
    }
}

impl Construction {
    /// What a new construction holds.
    pub open spec fn new_view() -> ConstructionView {
        ConstructionView {
            runtime: WordRuntime::Normal,
            visibility: WordVisibility::Visible,
            name: Seq::empty(),
            location: (LocationView { path: "unspecified"@, line: 1, column: 1 }),
            description: Seq::empty(),
            signature: Seq::empty(),
            code: Seq::empty(),
        }
    }
}

pub type CodeConstructorList = Vec<CodeConstructor>;

/// Whether `after` is the compilation `before` with one more instruction in
/// the block that is being built, at the place where `before` inserts.
pub open spec fn with_instruction(
    before: CodeConstructor,
    after: CodeConstructor,
    instruction: InstructionView,
) -> bool {
    &&& before.constructions@.len() > 0
    &&& after.insertion == before.insertion
    &&& after.input == before.input
    &&& after.current == before.current
    &&& after.constructions@.len() == before.constructions@.len()
    &&& after.constructions@.drop_last() == before.constructions@.drop_last()
    &&& after.constructions@.last()@ == (ConstructionView {
        code: if before.insertion == InsertionLocation::AtEnd {
            before.constructions@.last()@.code.push(instruction)
        } else {
            seq![instruction] + before.constructions@.last()@.code
        },
        ..before.constructions@.last()@
    })
}

/// The operation that a word compiles to, under the name that it has in the
/// source, where `otherwise` is what it compiles to unless that name is
/// defined: nothing is compiled for an immediate word, which is executed.
pub open spec fn compiled_word(
    dictionary: Seq<Map<Seq<char>, WordInfoView>>,
    name: Seq<char>,
    otherwise: OpView,
) -> Option<OpView> {
    match lookup(dictionary, name) {
        Some(info) => if info.runtime == WordRuntime::Immediate {
            None
        } else {
            Some(OpView::Execute(index_value(info.handler_index)))
        },
        None => Some(otherwise),
    }
}

/// The operation that a token compiles to in front of the given dictionary,
/// if it compiles to one. A string is pushed. A word executes the handler
/// that the dictionary has for it, and a word that the dictionary does not
/// have is executed by name. An integer whose notation is not the name of a
/// word is pushed. This says nothing of a floating point number, whose
/// notation the host gives.
pub open spec fn compiled(
    dictionary: Seq<Map<Seq<char>, WordInfoView>>,
    token: TokenView,
) -> Option<OpView> {
    match token {
        TokenView::String(_, text) => Some(OpView::PushConstantValue(ValueView::String(text))),
        TokenView::Word(_, name) => compiled_word(
            dictionary,
            name,
            OpView::Execute(ValueView::String(name)),
        ),
        TokenView::Number(_, NumberType::Int(value)) => compiled_word(
            dictionary,
            int_text(value as int),
            OpView::PushConstantValue(ValueView::Int(value)),
        ),
        TokenView::Number(_, NumberType::Float(_)) => None,
    }
}

/// The place of a token in the source.
pub open spec fn location_of(token: TokenView) -> LocationView {
    match token {
        TokenView::String(location, _) => location,
        TokenView::Word(location, _) => location,
        TokenView::Number(location, _) => location,
    }
}

/// The name under which a token may stand in the dictionary: the text of a
/// word, or of a number as the tokenizer read it, where it is an integer.
fn token_to_word_name<H: Host>(host: &H, token: &Token) -> (r: Option<(SourceLocation, String)>)
    ensures
        token@ is String <==> r is None,
        match r {
            Some(named) => named.0@ == location_of(token@) && match token@ {
                TokenView::Word(_, name) => named.1@ == name,
                TokenView::Number(_, NumberType::Int(value)) => named.1@ == int_text(value as int),
                _ => true,
            },
            None => true,
        },
{
    match token {
        Token::Word(location, name) => Some((location.clone(), name.clone())),
        Token::Number(location, NumberType::Int(value)) => Some(
            (location.clone(), int_to_string(*value)),
        ),
        Token::Number(location, NumberType::Float(bits)) => Some(
            (location.clone(), host.float_to_string(*bits)),
        ),
        Token::String(_, _) => None,
    }
}

/// Compiles one token.
///
/// A word or a number that names a defined word stands for that word: an
/// immediate word is executed at once, and for any other word an instruction
/// that executes its handler is put into the block that is being built. A
/// word that is not defined is compiled into an instruction that executes it
/// by name, to be found when the code runs. Any other number, and a string,
/// is compiled into an instruction that pushes it.
///
/// The name of a number is its notation, which the host gives for a floating
/// point number: `compile_token` says what the token comes to for each name.
pub fn process_token<H: Host>(interpreter: &mut SorthInterpreter, host: &mut H, token: Token) -> (r:
    Result<()>)
    requires
        old(interpreter).wf(),
    ensures
        final(interpreter).stable(old(interpreter)),
        match compiled(old(interpreter).dictionary_view(), token@) {
            Some(op) => {
                &&& final(interpreter).same_but_compilations(old(interpreter))
                &&& r is Ok <==> old(interpreter).contexts_view().len() > 0 && old(interpreter).contexts_view().last().constructions@.len() > 0
                &&& r is Err ==> final(interpreter).contexts_view() == old(interpreter).contexts_view()
                &&& r is Ok ==> final(interpreter).contexts_view().drop_last() == old(interpreter).contexts_view().drop_last() && with_instruction(
                    old(interpreter).contexts_view().last(),
                    final(interpreter).contexts_view().last(),
                    (InstructionView { location: Some(location_of(token@)), op }),
                )
            },
            None => true,
        },
        exists|name: Option<(LocationView, Seq<char>)>|
            names(token@, name) && #[trigger] token_processed(
                *old(interpreter),
                *final(interpreter),
                token@,
                name,
                r,
            ),
    decreases old(interpreter).calls_left(), 9int,
{
    let name = token_to_word_name(host, &token);
    let ghost given = name_view(name);
    assert(names(token@, given));
    let r = compile_token(interpreter, host, token, name);
    assert(token_processed(*old(interpreter), *interpreter, token@, given, r));
    r
}

/// What a token compiles to where it names no word: a word is executed by
/// name when the code runs, and a number or a string is pushed.
pub open spec fn plain_op(token: TokenView) -> OpView {
    match token {
        TokenView::String(_, text) => OpView::PushConstantValue(ValueView::String(text)),
        TokenView::Word(_, name) => OpView::Execute(ValueView::String(name)),
        TokenView::Number(_, NumberType::Int(value)) => OpView::PushConstantValue(
            ValueView::Int(value),
        ),
        TokenView::Number(_, NumberType::Float(bits)) => OpView::PushConstantValue(
            ValueView::Float(bits),
        ),
    }
}

/// Whether `name` is the name under which a token may stand in the
/// dictionary, with the place of the token: a string has none, a word has
/// its text, and a number its notation, which the host gives for a floating
/// point number.
pub open spec fn names(token: TokenView, name: Option<(LocationView, Seq<char>)>) -> bool {
    match name {
        Some((location, text)) => location == location_of(token) && match token {
            TokenView::String(_, _) => false,
            TokenView::Word(_, word) => text == word,
            TokenView::Number(_, NumberType::Int(value)) => text == int_text(value as int),
            TokenView::Number(_, NumberType::Float(_)) => true,
        },
        None => token is String,
    }
}

/// A name with its place, as plain values.
pub open spec fn name_view(name: Option<(SourceLocation, String)>) -> Option<
    (LocationView, Seq<char>),
> {
    match name {
        Some((location, text)) => Some((location@, text@)),
        None => None,
    }
}

/// Whether an instruction was put into the block that is being built, at the
/// place where instructions are put: `before` and `after` are the
/// interpreter before and after, and `r` is the result, a failure where no
/// block is being built.
pub open spec fn instruction_put(
    before: SorthInterpreter,
    after: SorthInterpreter,
    location: LocationView,
    op: OpView,
    r: Result<()>,
) -> bool {
    &&& after.same_but_compilations(&before)
    &&& r is Ok <==> before.contexts_view().len() > 0
        && before.contexts_view().last().constructions@.len() > 0
    &&& r is Err ==> after.contexts_view() == before.contexts_view()
    &&& r is Ok ==> after.contexts_view().drop_last() == before.contexts_view().drop_last()
        && with_instruction(
        before.contexts_view().last(),
        after.contexts_view().last(),
        (InstructionView { location: Some(location), op }),
    )
}

/// What compiling a token comes to, given the name under which it may stand
/// in the dictionary. Where the dictionary has an immediate word of that
/// name, the word is called at once. Where it has another word of that name,
/// an instruction that executes the handler of the word is put into the
/// block. Else the token is compiled as `plain_op` says.
pub open spec fn token_processed(
    before: SorthInterpreter,
    after: SorthInterpreter,
    token: TokenView,
    name: Option<(LocationView, Seq<char>)>,
    r: Result<()>,
) -> bool {
    let found = match name {
        Some((_, text)) => lookup(before.dictionary_view(), text),
        None => None,
    };
    let place = match name {
        Some((location, _)) => location,
        None => location_of(token),
    };
    match found {
        Some(info) => if info.runtime == WordRuntime::Immediate {
            let handlers = before.handlers_view();
            &&& info.handler_index >= handlers.len() ==> r is Err
            &&& info.handler_index < handlers.len() && before.calls_left() > 0 ==> after.called(
                &before,
                before.budget_left(),
                handlers[info.handler_index as int].spec_handler(),
                r,
            )
            &&& before.calls_left() == 0 ==> r is Err && after.stack_view() == before.stack_view()
                && after.heap_view() == before.heap_view()
        } else {
            instruction_put(
                before,
                after,
                place,
                OpView::Execute(index_value(info.handler_index)),
                r,
            )
        },
        None => instruction_put(before, after, location_of(token), plain_op(token), r),
    }
}

/// Compiles one token, given the name under which it may stand in the
/// dictionary, if it has one.
pub fn compile_token<H: Host>(
    interpreter: &mut SorthInterpreter,
    host: &mut H,
    token: Token,
    name: Option<(SourceLocation, String)>,
) -> (r: Result<()>)
    requires
        old(interpreter).wf(),
    ensures
        final(interpreter).stable(old(interpreter)),
        token_processed(*old(interpreter), *final(interpreter), token@, name_view(name), r),
    decreases old(interpreter).calls_left(), 5int,
{
    let found: Option<(SourceLocation, WordInfo)> = match name {
        Some((location, name)) => match interpreter.find_word(&name) {
            Some(word_info) => Some((location, word_info.clone())),
            None => None,
        },
        None => None,
    };
    match found {
        Some((location, word_info)) => {
            if word_info.runtime == WordRuntime::Immediate {
                interpreter.execute_word(host, &Some(location), &word_info)
            } else {
                interpreter.insert_user_instruction(
                    Some(location),
                    Op::Execute(count_value(word_info.handler_index)),
                )
            }
        },
        None => match token {
            Token::Word(location, name) => interpreter.insert_user_instruction(
                Some(location),
                Op::Execute(Value::String(name)),
            ),
            Token::Number(location, NumberType::Int(value)) => interpreter.insert_user_instruction(
                Some(location),
                Op::PushConstantValue(Value::Int(value)),
            ),
            Token::Number(location, NumberType::Float(bits)) => interpreter.insert_user_instruction(
                Some(location),
                Op::PushConstantValue(Value::Float(bits)),
            ),
            Token::String(location, text) => interpreter.insert_user_instruction(
                Some(location),
                Op::PushConstantValue(Value::String(text)),
            ),
        },
    }
}

/// Compiles the given tokens and executes what they compile to.
///
/// The tokens are compiled in a compilation of their own, which is ended
/// before the code runs and also where a token fails to compile. The code of
/// the block that is left at the end runs under the name `<toplevel>`. Each
/// token takes one from the budget.
#[verifier::loop_isolation(false)]
#[verifier::rlimit(40)]
pub fn process_source_from_tokens<H: Host>(
    tokens: TokenList,
    interpreter: &mut SorthInterpreter,
    host: &mut H,
) -> (r: Result<()>)
    requires
        old(interpreter).wf(),
    ensures
        final(interpreter).stable(old(interpreter)),
        tokens@.len() == 0 ==> r is Ok && final(interpreter).stack_view() == old(interpreter).stack_view() && final(interpreter).variables_view() == old(interpreter).variables_view() && final(interpreter).heap_view() == old(interpreter).heap_view(),
        tokens@.len() > 0 && old(interpreter).budget_left() == 0 ==> r is Err,
        processed(tokens@, *old(interpreter), *final(interpreter), r),
    decreases old(interpreter).calls_left(), 10int,
{
    let ghost count = tokens@.len();
    let ghost all = tokens@;
    let ghost words = interpreter.dictionary_view();
    let ghost plain = compiles(words, all);
    let ghost block = compiled_block(words, all);
    interpreter.context_new(tokens);
    let ghost outer = old(interpreter).contexts_view();
    let ghost mut done: int = 0;
    let mut more = true;
    proof {
        assert(interpreter.contexts_view().last().constructions@.last()
            == interpreter.contexts_view().last().constructions@[0]);
        assert(code_view(interpreter.contexts_view().last().constructions@[0].code@)
            =~= block.take(0));
    }
    while more
        invariant
            count == 0 ==> interpreter.same_but_compilations(old(interpreter))
                && interpreter.contexts_view().last().input@.len() == 0
                && interpreter.contexts_view().last().constructions@.len() == 1
                && interpreter.contexts_view().last().constructions@[0]@
                == Construction::new_view(),
            count > 0 && old(interpreter).budget_left() == 0 ==> more
                && interpreter.contexts_view().last().input@.len() == count
                && interpreter.contexts_view().last().current == 0,
            interpreter.wf(),
            interpreter.depth() == old(interpreter).depth(),
            interpreter.same_marks(old(interpreter)),
            interpreter.call_stack_len() == old(interpreter).call_stack_len(),
            interpreter.calls_left() == old(interpreter).calls_left(),
            interpreter.budget_left() <= old(interpreter).budget_left(),
            interpreter.compilations() == old(interpreter).compilations() + 1,
            0 <= done <= count,
            plain ==> {
                let last = interpreter.contexts_view().last();
                &&& interpreter.compiling(old(interpreter), done as nat)
                &&& interpreter.contexts_view().drop_last() == outer
                &&& last.input@ == all
                &&& last.current == done
                &&& last.insertion == InsertionLocation::AtEnd
                &&& last.constructions@.len() == 1
                &&& last.constructions@[0]@ == (ConstructionView {
                    code: block.take(done),
                    ..Construction::new_view()
                })
                &&& !more ==> done == count
            },
        decreases
                interpreter.budget_left() + if more {
                    1int
                } else {
                    0int
                },
    {
        let ghost entered = *interpreter;
        match interpreter.next_token() {
            Ok(token) => {
                if interpreter.budget == 0 {
                    let _ = interpreter.context_drop();
                    proof {
                        if plain {
                            assert(interpreter.contexts_view() =~= outer);
                        }
                    }
                    return Err(
                        interpreter.error(
                            String::from_str("The execution budget is used up."),
                        ),
                    );
                }
                interpreter.budget = interpreter.budget - 1;
                let ghost read = *interpreter;
                proof {
                    if plain {
                        assert(token@ == all[done]@);
                        assert(compiled(words, all[done]@) is Some);
                        assert(read.contexts_view().last().constructions@.last()
                            == read.contexts_view().last().constructions@[0]);
                    }
                }
                match process_token(interpreter, host, token) {
                    Ok(()) => {
                        proof {
                            if plain {
                                let last = interpreter.contexts_view().last();
                                assert(last.constructions@.last() == last.constructions@[0]);
                                assert(interpreter.contexts_view().drop_last() =~= outer);
                                assert(block.take(done + 1) =~= block.take(done).push(
                                    block[done],
                                ));
                                done = done + 1;
                            }
                        }
                    },
                    Err(error) => {
                        let _ = interpreter.context_drop();
                        return Err(error);
                    },
                }
            },
            Err(_) => {
                more = false;
            },
        }
    }
    let code = match interpreter.context().construction() {
        Ok(construction) => Some(clone_code(&construction.code)),
        Err(_) => None,
    };
    proof {
        let built = interpreter.contexts_view().last().constructions@;
        if count == 0 {
            assert(built.last() == built[0]);
            assert(code_view(built[0].code@).len() == 0);
            assert(code is Some);
            assert(code_view(code->0@).len() == 0);
        }
        if plain {
            assert(built.last() == built[0]);
            assert(block.take(count as int) =~= block);
            assert(code is Some);
            assert(code_view(code->0@) == block);
        }
    }
    let _ = interpreter.context_drop();
    proof {
        if plain {
            assert(interpreter.contexts_view() =~= outer);
            assert(interpreter.spent(old(interpreter), count as nat));
        }
    }
    match code {
        Some(code) => interpreter.execute_code(
            host,
            &String::from_str("<toplevel>"),
            &code,
        ),
        None => Err(
            interpreter.error(
                String::from_str("Accessing an empty construction context."),
            ),
        ),
    }
}

/// Whether each of the tokens compiles to an instruction in front of the
/// given dictionary: none of them names an immediate word, and none is a
/// floating point number.
pub open spec fn compiles(
    dictionary: Seq<Map<Seq<char>, WordInfoView>>,
    tokens: Seq<Token>,
) -> bool {
    forall|k: int| 0 <= k < tokens.len() ==> compiled(dictionary, (#[trigger] tokens[k])@) is Some
}

/// The block that such tokens compile to: for each token the instruction
/// that it compiles to, with the place of the token.
pub open spec fn compiled_block(
    dictionary: Seq<Map<Seq<char>, WordInfoView>>,
    tokens: Seq<Token>,
) -> Seq<InstructionView> {
    Seq::new(
        tokens.len(),
        |k: int|
            InstructionView {
                location: Some(location_of(tokens[k]@)),
                op: compiled(dictionary, tokens[k]@)->0,
            },
    )
}

/// Whether processing the tokens takes the interpreter `before` to the
/// interpreter `after` with the result `r`, for tokens that all compile to an
/// instruction. Each token takes one from the budget. Where the budget is
/// too small for that, the call fails and leaves the interpreter as it was
/// but for the budget. Else the result and the interpreter afterwards are
/// those of the execution of the block that the tokens compile to.
pub open spec fn processed(
    tokens: Seq<Token>,
    before: SorthInterpreter,
    after: SorthInterpreter,
    r: Result<()>,
) -> bool {
    compiles(before.dictionary_view(), tokens) ==> if before.budget_left() < tokens.len() {
        &&& r is Err
        &&& r->Err_0@.error == "The execution budget is used up."@
        &&& after.spent(&before, before.budget_left())
    } else {
        exists|code: Seq<Instruction>, entered: SorthInterpreter, frame: ExecutionFrame|
            {
                &&& code_view(code) == compiled_block(before.dictionary_view(), tokens)
                &&& is_new_frame(frame)
                &&& entered.spent(&before, tokens.len())
                &&& #[trigger] run(code, 0, frame, entered, after, failure(r))
            }
    }
}

} // verus!
