//! The words that generate and manipulate bytecode.

use vstd::prelude::*;
use crate::runtime::data_structures::value::popped_int;
use vstd::string::StringExecFns;
use crate::lang::code::InstructionView;
use crate::lang::code::Op;
use crate::lang::code::OpView;
use crate::lang::compilation::with_instruction;
use crate::runtime::data_structures::value::ValueView;
use crate::runtime::data_structures::value::is_stringable_view;
use crate::runtime::data_structures::value::string_of_view;
use crate::lang::compilation::process_token;
use crate::lang::compilation::InsertionLocation;
use crate::lang::tokenizing::lexemes;
use crate::lang::tokenizing::start_of;
use crate::lang::tokenizing::Token;
use crate::lang::tokenizing::TokenView;
use crate::runtime::data_structures::value::count_value;
use crate::runtime::data_structures::value::Value;
use crate::runtime::error::script_error;
use crate::runtime::error::script_error_str;
use crate::runtime::error::Result;
use crate::runtime::host::Host;
use crate::runtime::interpreter::sorth_interpreter::SorthInterpreter;
use crate::text::concat3;

verus! {

/// The operations that take their operand from the stack.
#[derive(Clone, Copy, Debug, PartialEq, Eq, Structural)]
pub enum OperandOp {
    DefVariable,
    DefConstant,
    Execute,
    PushConstantValue,
    MarkLoopExit,
    MarkCatch,
    Jump,
    JumpIfZero,
    JumpIfNotZero,
    JumpTarget,
}

/// The operations without an operand.
#[derive(Clone, Copy, Debug, PartialEq, Eq, Structural)]
pub enum PlainOp {
    ReadVariable,
    WriteVariable,
    UnmarkLoopExit,
    UnmarkCatch,
    JumpLoopStart,
    JumpLoopExit,
}

/// The operation of the given kind with the given operand.
pub open spec fn operand_op(kind: OperandOp, value: Value) -> Op {
    match kind {
        OperandOp::DefVariable => Op::DefVariable(value),
        OperandOp::DefConstant => Op::DefConstant(value),
        OperandOp::Execute => Op::Execute(value),
        OperandOp::PushConstantValue => Op::PushConstantValue(value),
        OperandOp::MarkLoopExit => Op::MarkLoopExit(value),
        OperandOp::MarkCatch => Op::MarkCatch(value),
        OperandOp::Jump => Op::Jump(value),
        OperandOp::JumpIfZero => Op::JumpIfZero(value),
        OperandOp::JumpIfNotZero => Op::JumpIfNotZero(value),
        OperandOp::JumpTarget => Op::JumpTarget(value),
    }
}

/// The operation of the given kind.
pub open spec fn plain_op(kind: PlainOp) -> Op {
    match kind {
        PlainOp::ReadVariable => Op::ReadVariable,
        PlainOp::WriteVariable => Op::WriteVariable,
        PlainOp::UnmarkLoopExit => Op::UnmarkLoopExit,
        PlainOp::UnmarkCatch => Op::UnmarkCatch,
        PlainOp::JumpLoopStart => Op::JumpLoopStart,
        PlainOp::JumpLoopExit => Op::JumpLoopExit,
    }
}

/// Whether a block is being built: a compilation is under way and holds a
/// block.
pub open spec fn is_building(interpreter: &SorthInterpreter) -> bool {
    interpreter.contexts_view().len() > 0 && interpreter.contexts_view().last().constructions@.len()
        > 0
}

/// Whether the compilations of `after` are those of `before` with one more
/// instruction, which holds the given operation and no location, in the
/// block that is being built.
pub open spec fn appended(before: &SorthInterpreter, after: &SorthInterpreter, op: OpView) -> bool {
    &&& after.contexts_view().len() == before.contexts_view().len()
    &&& after.contexts_view().drop_last() == before.contexts_view().drop_last()
    &&& with_instruction(
        before.contexts_view().last(),
        after.contexts_view().last(),
        (InstructionView { location: None, op }),
    )
}

/// Puts an instruction without a location into the block that is being
/// built.
pub fn insert_user_instruction(interpreter: &mut SorthInterpreter, op: Op) -> (r: Result<()>)
    requires
        old(interpreter).wf(),
    ensures
        final(interpreter).stable(old(interpreter)),
        final(interpreter).same_but_compilations(old(interpreter)),
        r is Ok <==> is_building(old(interpreter)),
        r is Ok ==> appended(old(interpreter), final(interpreter), op@),
        r is Err ==> final(interpreter).contexts_view() == old(interpreter).contexts_view(),
{
    interpreter.insert_user_instruction(None, op)
}

/// The words `op.def_variable`, `op.def_constant`, `op.execute`,
/// `op.push_constant_value`, `op.mark_loop_exit`, `op.mark_catch`, `op.jump`,
/// `op.jump_if_zero`, `op.jump_if_not_zero` and `op.jump_target`: takes a
/// value off the stack and puts the instruction with that operand into the
/// block that is being built.
pub fn word_op_with_operand(interpreter: &mut SorthInterpreter, kind: OperandOp) -> (r: Result<()>)
    requires
        old(interpreter).wf(),
    ensures
        final(interpreter).stable(old(interpreter)),
        final(interpreter).stack_view() == old(interpreter).popped(),
        final(interpreter).heap_view() == old(interpreter).heap_view(),
        r is Ok <==> old(interpreter).stack_view().len() > 0 && is_building(old(interpreter)),
        r is Ok ==> appended(
            old(interpreter),
            final(interpreter),
            operand_op(kind, old(interpreter).stack_view().last())@,
        ),
        r is Err ==> final(interpreter).contexts_view() == old(interpreter).contexts_view(),
{
    let value = match interpreter.pop() {
        Ok(value) => value,
        Err(e) => {
            return Err(e);
        },
    };
    let op = match kind {
        OperandOp::DefVariable => Op::DefVariable(value),
        OperandOp::DefConstant => Op::DefConstant(value),
        OperandOp::Execute => Op::Execute(value),
        OperandOp::PushConstantValue => Op::PushConstantValue(value),
        OperandOp::MarkLoopExit => Op::MarkLoopExit(value),
        OperandOp::MarkCatch => Op::MarkCatch(value),
        OperandOp::Jump => Op::Jump(value),
        OperandOp::JumpIfZero => Op::JumpIfZero(value),
        OperandOp::JumpIfNotZero => Op::JumpIfNotZero(value),
        OperandOp::JumpTarget => Op::JumpTarget(value),
    };
    insert_user_instruction(interpreter, op)
}

/// The words `op.read_variable`, `op.write_variable`, `op.unmark_loop_exit`,
/// `op.unmark_catch`, `op.jump_loop_start` and `op.jump_loop_exit`: puts the
/// instruction into the block that is being built.
pub fn word_op_plain(interpreter: &mut SorthInterpreter, kind: PlainOp) -> (r: Result<()>)
    requires
        old(interpreter).wf(),
    ensures
        final(interpreter).stable(old(interpreter)),
        final(interpreter).same_but_compilations(old(interpreter)),
        r is Ok <==> is_building(old(interpreter)),
        r is Ok ==> appended(old(interpreter), final(interpreter), plain_op(kind)@),
        r is Err ==> final(interpreter).contexts_view() == old(interpreter).contexts_view(),
{
    let op = match kind {
        PlainOp::ReadVariable => Op::ReadVariable,
        PlainOp::WriteVariable => Op::WriteVariable,
        PlainOp::UnmarkLoopExit => Op::UnmarkLoopExit,
        PlainOp::UnmarkCatch => Op::UnmarkCatch,
        PlainOp::JumpLoopStart => Op::JumpLoopStart,
        PlainOp::JumpLoopExit => Op::JumpLoopExit,
    };
    insert_user_instruction(interpreter, op)
}

/// `code.new_block`: starts a new, empty block on top of the blocks that are
/// being built.
pub fn word_code_new_block(interpreter: &mut SorthInterpreter) -> (r: Result<()>)
    requires
        old(interpreter).wf(),
    ensures
        final(interpreter).stable(old(interpreter)),
        final(interpreter).same_but_compilations(old(interpreter)),
        r is Ok <==> old(interpreter).compilations() > 0,
        r is Ok ==> final(interpreter).contexts_view().last().constructions@.len() == old(interpreter).contexts_view().last().constructions@.len() + 1,
{
    let count = interpreter.constructors.len();
    if count == 0 {
        return script_error_str(interpreter, "No compile context available.");
    }
    interpreter.constructors[count - 1].construction_new();
    Ok(())
}

/// `code.merge_stack_block`: takes the top block off the blocks that are
/// being built and puts its instructions at the end of the block below it.
pub fn word_code_merge_stack_block(interpreter: &mut SorthInterpreter) -> (r: Result<()>)
    requires
        old(interpreter).wf(),
    ensures
        final(interpreter).stable(old(interpreter)),
        final(interpreter).same_but_compilations(old(interpreter)),
        r is Ok <==> old(interpreter).compilations() > 0 && old(interpreter).contexts_view().last().constructions@.len() >= 2,
        r is Ok ==> final(interpreter).contexts_view().last().constructions@.len() + 1 == old(interpreter).contexts_view().last().constructions@.len(),
{
    let count = interpreter.constructors.len();
    if count == 0 {
        return script_error_str(interpreter, "No compile context available.");
    }
    if interpreter.constructors[count - 1].constructions.len() < 2 {
        return script_error_str(interpreter, "No block to merge into.");
    }
    let mut code = match interpreter.constructors[count - 1].construction_pop() {
        Ok(construction) => construction.code,
        Err(e) => {
            return Err(e);
        },
    };
    let below = interpreter.constructors[count - 1].constructions.len() - 1;
    interpreter.constructors[count - 1].constructions[below].code.append(&mut code);
    Ok(())
}

/// `code.pop_stack_block`: takes the top block off the blocks that are being
/// built and pushes its code as a value.
pub fn word_code_pop_stack_block(interpreter: &mut SorthInterpreter) -> (r: Result<()>)
    requires
        old(interpreter).wf(),
    ensures
        final(interpreter).stable(old(interpreter)),
        r is Ok <==> is_building(old(interpreter)),
        r is Ok ==> final(interpreter).stack_view() == old(interpreter).stack_view().push(
            Value::Code(old(interpreter).contexts_view().last().constructions@.last().code),
        ),
        r is Err ==> final(interpreter).stack_view() == old(interpreter).stack_view(),
{
    let count = interpreter.constructors.len();
    if count == 0 {
        return script_error_str(interpreter, "No compile context available.");
    }
    let code = match interpreter.constructors[count - 1].construction_pop() {
        Ok(construction) => construction.code,
        Err(e) => {
            return Err(e);
        },
    };
    interpreter.push(Value::Code(code));
    Ok(())
}

/// `code.push_stack_block`: takes a block of code off the stack and makes it
/// the top block of the blocks that are being built.
pub fn word_code_push_stack_block(interpreter: &mut SorthInterpreter) -> (r: Result<()>)
    requires
        old(interpreter).wf(),
    ensures
        final(interpreter).stable(old(interpreter)),
        final(interpreter).stack_view() == old(interpreter).popped(),
        r is Ok <==> old(interpreter).compilations() > 0 && old(interpreter).stack_view().len() > 0
            && old(interpreter).stack_view().last() is Code,
{
    let code = match interpreter.pop_as_code() {
        Ok(code) => code,
        Err(e) => {
            return Err(e);
        },
    };
    let count = interpreter.constructors.len();
    if count == 0 {
        return script_error_str(interpreter, "No compile context available.");
    }
    interpreter.constructors[count - 1].construction_new_with_code(code);
    Ok(())
}

/// `code.stack_block_size@`: pushes the number of instructions of the block
/// that is being built.
pub fn word_code_stack_block_size(interpreter: &mut SorthInterpreter) -> (r: Result<()>)
    requires
        old(interpreter).wf(),
    ensures
        final(interpreter).stable(old(interpreter)),
        final(interpreter).same_but_stack(old(interpreter)),
        r is Ok <==> is_building(old(interpreter)),
        r is Ok ==> final(interpreter).stack_view().len() == old(interpreter).stack_view().len()
            + 1,
{
    let count = interpreter.constructors.len();
    if count == 0 {
        return script_error_str(interpreter, "No compile context available.");
    }
    let size = match interpreter.constructors[count - 1].construction() {
        Ok(construction) => construction.code.len(),
        Err(e) => {
            return Err(e);
        },
    };
    interpreter.push(count_value(size));
    Ok(())
}

/// `code.resolve_jumps`: resolves the jumps of the block that is being
/// built.
pub fn word_code_resolve_jumps(interpreter: &mut SorthInterpreter) -> (r: Result<()>)
    requires
        old(interpreter).wf(),
    ensures
        final(interpreter).stable(old(interpreter)),
        final(interpreter).same_but_compilations(old(interpreter)),
        r is Ok <==> is_building(old(interpreter)) && crate::lang::compilation::resolvable(
            old(interpreter).contexts_view().last().constructions@.last()@.code,
        ),
        r is Ok ==> final(interpreter).contexts_view().last().constructions@.last()@.code
            == crate::lang::compilation::resolved(
            old(interpreter).contexts_view().last().constructions@.last()@.code,
        ),
{
    let count = interpreter.constructors.len();
    if count == 0 {
        return script_error_str(interpreter, "No compile context available.");
    }
    let blocks = interpreter.constructors[count - 1].constructions.len();
    if blocks == 0 {
        return script_error_str(interpreter, "Accessing an empty construction context.");
    }
    interpreter.constructors[count - 1].constructions[blocks - 1].resolve_jumps()
}

/// The word among `words` that a token is, if it is one of them.
#[verifier::loop_isolation(false)]
fn is_one_of_words(token: &Token, words: &Vec<String>) -> (r: Option<String>)
    ensures
        r is Some ==> token@ is Word && exists|k: int|
            0 <= k < words@.len() && (#[trigger] words@[k])@ == r->0@,
        !(token@ is Word) ==> r is None,
        match token@ {
            TokenView::Word(_, name) => if exists|k: int|
                0 <= k < words@.len() && (#[trigger] words@[k])@ == name {
                r is Some && r->0@ == name
            } else {
                r is None
            },
            _ => r is None,
        },
{
    match token {
        Token::Word(_, found) => {
            let mut k: usize = 0;
            while k < words.len()
                invariant
                    k <= words@.len(),
                    forall|j: int| 0 <= j < k ==> (#[trigger] words@[j])@ != found@,
                decreases words@.len() - k,
            {
                if *found == words[k] {
                    return Some(found.clone());
                }
                k += 1;
            }
            None
        },
        _ => None,
    }
}

/// The message that none of the given words was found.
fn words_not_found(words: &Vec<String>) -> (r: String)
    ensures
        r@ == not_found_text(words@),
{
    if words.len() == 1 {
        concat3("Could not find word ", words[0].as_str(), ".")
    } else {
        let mut message = String::from_str("Could not find any of the words: ");
        let mut index: usize = 0;
        while index < words.len()
            invariant
                index <= words@.len(),
                message@ == "Could not find any of the words: "@ + listed(words@, index as int),
            decreases words@.len() - index,
        {
            let ghost before = message@;
            message.append(words[index].as_str());
            if index + 1 < words.len() {
                message.append(", ");
            }
            index += 1;
            proof {
                let head = "Could not find any of the words: "@;
                let rest = listed(words@, index as int - 1);
                if index < words@.len() {
                    assert(message@ =~= head + (rest + words@[index as int - 1]@ + ", "@));
                } else {
                    assert(message@ =~= head + (rest + words@[index as int - 1]@));
                }
            }
        }
        message.append(".");
        message
    }
}

/// The first `count` of the given words, one after the other, with a comma
/// and a space after each but the last of all the words.
pub open spec fn listed(words: Seq<String>, count: int) -> Seq<char>
    decreases count,
{
    if count <= 0 || count > words.len() {
        Seq::empty()
    } else if count < words.len() {
        listed(words, count - 1) + words[count - 1]@ + ", "@
    } else {
        listed(words, count - 1) + words[count - 1]@
    }
}

/// The message that none of the given words was found.
pub open spec fn not_found_text(words: Seq<String>) -> Seq<char> {
    if words.len() == 1 {
        "Could not find word "@ + words[0]@ + "."@
    } else {
        "Could not find any of the words: "@ + listed(words, words.len() as int) + "."@
    }
}

/// Whether a stack names a word of the given text for a search: the stack
/// holds a count on top and under it that many words, of which this is one.
/// Of a count or a word whose conversion is the host's, nothing is asked.
pub open spec fn names_word(stack: Seq<Value>, text: Seq<char>) -> bool {
    exists|i: int|
        {
            &&& 0 <= i < stack.len() - 1
            &&& popped_int(stack.last()@) is Some ==> stack.len() - 1 - popped_int(
                stack.last()@,
            )->0 <= i
            &&& string_of_view((#[trigger] stack[i])@) is Some ==> string_of_view(stack[i]@)
                == Some(text)
        }
}

/// Whether the search for a word ends with the first token: the stack holds
/// a count and under it that many strings, and the token that the
/// compilation reads next is a word that one of these strings names.
pub open spec fn ends_at_once(interpreter: &SorthInterpreter) -> bool {
    let stack = interpreter.stack_view();
    let n = stack.len() as int;
    &&& n > 0
    &&& stack[n - 1]@ is Int
    &&& 0 <= stack[n - 1]@->Int_0 < n
    &&& forall|k: int| n - 1 - stack[n - 1]@->Int_0 <= k < n - 1 ==> (#[trigger] stack[k])@ is String
    &&& interpreter.upcoming() is Some
    &&& interpreter.upcoming()->0 is Word
    &&& exists|k: int|
        n - 1 - stack[n - 1]@->Int_0 <= k < n - 1 && (#[trigger] stack[k])@ == ValueView::String(
            interpreter.upcoming()->0->Word_1,
        )
}

/// `code.compile_until_words`: takes a count and that many words off the
/// stack, and compiles the tokens that follow until one of the words comes,
/// which it pushes. Fails where the tokens are used up before one of them
/// comes, and where a token fails to compile. Each token takes one from the
/// budget.
#[verifier::loop_isolation(false)]
pub fn word_code_compile_until_words<H: Host>(interpreter: &mut SorthInterpreter, host: &mut H) -> (r:
    Result<()>)
    requires
        old(interpreter).wf(),
    ensures
        final(interpreter).stable(old(interpreter)),
        old(interpreter).stack_view().len() == 0 ==> r is Err,
        r is Ok ==> final(interpreter).stack_view().len() > 0 && final(interpreter).stack_view().last() is String && names_word(
            old(interpreter).stack_view(),
            final(interpreter).stack_view().last()->String_0@,
        ),
        ends_at_once(old(interpreter)) ==> {
            let stack = old(interpreter).stack_view();
            let n = stack.len() as int;
            &&& r is Ok
            &&& final(interpreter).stack_view().drop_last() == stack.take(
                n - 1 - stack[n - 1]@->Int_0,
            )
            &&& final(interpreter).stack_view().last()@ == ValueView::String(
                old(interpreter).upcoming()->0->Word_1,
            )
            &&& final(interpreter).advanced(old(interpreter))
            &&& final(interpreter).heap_view() == old(interpreter).heap_view()
        },
    decreases old(interpreter).calls_left(), 18int,
{
    let ghost stack = interpreter.stack_view();
    assert(interpreter.stack.len() == stack.len());
    let word_count = match interpreter.pop_as_usize(host) {
        Ok(count) => count,
        Err(e) => {
            return Err(e);
        },
    };
    let mut words: Vec<String> = Vec::new();
    let mut k: usize = 0;
    while k < word_count
        invariant
            k <= word_count,
            interpreter.stable(old(interpreter)),
            stack == old(interpreter).stack_view(),
            stack.len() > 0,
            popped_int(stack.last()@) is Some ==> word_count == popped_int(stack.last()@)->0,
            k <= stack.len() - 1,
            interpreter.stack_view() == stack.take(stack.len() - 1 - k),
            forall|j: int| 0 <= j < words@.len() ==> names_word(stack, (#[trigger] words@[j])@),
            words@.len() == k,
            interpreter.same_but_stack(old(interpreter)),
            forall|j: int|
                0 <= j < words@.len() && stack[stack.len() - 2 - j]@ is String ==> ValueView::String(
                    (#[trigger] words@[j])@,
                ) == stack[stack.len() - 2 - j]@,
        decreases word_count - k,
    {
        let ghost i = stack.len() - 2 - k;
        match interpreter.pop_as_string(host) {
            Ok(word) => {
                proof {
                    assert(interpreter.stack_view() =~= stack.take(i));
                    assert(stack.take(i + 1).last() == stack[i]);
                    assert(string_of_view(stack[i]@) is Some ==> string_of_view(stack[i]@)
                        == Some(word@));
                    assert(names_word(stack, word@));
                }
                let ghost had = words@;
                words.push(word);
                proof {
                    assert forall|j: int|
                        0 <= j < words@.len() && stack[stack.len() - 2 - j]@ is String implies ValueView::String(
                        (#[trigger] words@[j])@,
                    ) == stack[stack.len() - 2 - j]@ by {
                        if j < had.len() {
                            assert(words@[j] == had[j]);
                        }
                    }
                }
            },
            Err(e) => {
                return Err(e);
            },
        }
        k += 1;
    }
    let ghost mut started = false;
    let ghost popped = interpreter.stack_view();
    proof {
        if ends_at_once(old(interpreter)) {
            let n = stack.len() as int;
            let place = choose|i: int|
                n - 1 - stack[n - 1]@->Int_0 <= i < n - 1 && (#[trigger] stack[i])@
                    == ValueView::String(old(interpreter).upcoming()->0->Word_1);
            let j = n - 2 - place;
            assert(stack[stack.len() - 2 - j]@ is String);
            assert(words@[j]@ == old(interpreter).upcoming()->0->Word_1);
        }
    }
    loop
        invariant
            interpreter.stable(old(interpreter)),
            stack == old(interpreter).stack_view(),
            forall|j: int| 0 <= j < words@.len() ==> names_word(stack, (#[trigger] words@[j])@),
            !started ==> interpreter.same_but_stack(old(interpreter)) && interpreter.stack_view()
                == popped,
            started ==> !ends_at_once(old(interpreter)),
        decreases interpreter.budget_left(),
    {
        match interpreter.next_token() {
            Ok(token) => {
                match is_one_of_words(&token, &words) {
                    Some(word) => {
                        interpreter.push(Value::String(word));
                        proof {
                            if !started {
                                assert(interpreter.stack_view().drop_last() =~= popped);
                            }
                        }
                        return Ok(());
                    },
                    None => {
                        if interpreter.budget == 0 {
                            return script_error_str(
                                interpreter,
                                "The execution budget is used up.",
                            );
                        }
                        interpreter.budget = interpreter.budget - 1;
                        proof {
                            started = true;
                        }
                        match process_token(interpreter, host, token) {
                            Ok(()) => {},
                            Err(e) => {
                                return Err(e);
                            },
                        }
                    },
                }
            },
            Err(_) => {
                return script_error(interpreter, words_not_found(&words));
            },
        }
    }
}

/// `code.insert_at_front`: takes a boolean off the stack. From then on new
/// instructions go to the front of the block that is being built where it is
/// true, and to the end where it is false.
pub fn word_code_insert_at_front(interpreter: &mut SorthInterpreter) -> (r: Result<()>)
    requires
        old(interpreter).wf(),
    ensures
        final(interpreter).stable(old(interpreter)),
        final(interpreter).stack_view() == old(interpreter).popped(),
        r is Ok ==> old(interpreter).stack_view().len() > 0,
        r is Ok ==> final(interpreter).contexts_view().last().insertion == if crate::runtime::data_structures::value::bool_of_view(
            old(interpreter).stack_view().last()@,
        ) {
            InsertionLocation::AtTop
        } else {
            InsertionLocation::AtEnd
        },
{
    let is_at_beginning = match interpreter.pop_as_bool() {
        Ok(flag) => flag,
        Err(e) => {
            return Err(e);
        },
    };
    let count = interpreter.constructors.len();
    if count == 0 {
        return script_error_str(interpreter, "No compile context available.");
    }
    interpreter.constructors[count - 1].insertion = if is_at_beginning {
        InsertionLocation::AtTop
    } else {
        InsertionLocation::AtEnd
    };
    Ok(())
}

/// `code.execute_source`: takes a string off the stack, and compiles and
/// executes it as source code.
pub fn word_code_execute_source<H: Host>(interpreter: &mut SorthInterpreter, host: &mut H) -> (r:
    Result<()>)
    requires
        old(interpreter).wf(),
    ensures
        final(interpreter).stable(old(interpreter)),
        old(interpreter).stack_view().len() == 0 || !is_stringable_view(
            old(interpreter).stack_view().last()@,
        ) ==> r is Err && final(interpreter).stack_view() == old(interpreter).popped(),
        old(interpreter).stack_view().len() > 0 ==> match string_of_view(
            old(interpreter).stack_view().last()@,
        ) {
            Some(source) => match lexemes(source, start_of("<repl>"@), 0) {
                Some(pieces) => {
                    &&& pieces.len() == 0 ==> r is Ok && final(interpreter).stack_view() == old(interpreter).stack_view().drop_last() && final(interpreter).heap_view() == old(interpreter).heap_view()
                    &&& pieces.len() > 0 && old(interpreter).budget_left() == 0 ==> r is Err
                },
                None => r is Err && final(interpreter).stack_view() == old(interpreter).stack_view().drop_last(),
            },
            None => true,
        },
    decreases old(interpreter).calls_left(), 18int,
{
    let source = match interpreter.pop_as_string(host) {
        Ok(source) => source,
        Err(e) => {
            return Err(e);
        },
    };
    let name = String::from_str("<repl>");
    interpreter.process_source(host, &name, &source)
}

} // verus!
