//! The words that work with words.

use vstd::prelude::*;
use vstd::string::StringExecFns;
use crate::lang::code::Op;
use crate::runtime::data_structures::dictionary::lookup;
use crate::runtime::data_structures::heap::HeapCell;
use crate::runtime::data_structures::value::count_value;
use crate::runtime::data_structures::value::Value;
use crate::runtime::data_structures::value::ValueView;
use crate::runtime::data_structures::value_hash::ValueHash;
use crate::runtime::error::script_error;
use crate::runtime::error::script_error_str;
use crate::runtime::error::Result;
use crate::runtime::host::Host;
use crate::runtime::interpreter::sorth_interpreter::SorthInterpreter;
use crate::text::concat3;

use crate::lang::code::InstructionView;
use crate::lang::code::OpView;
use crate::lang::compilation::ConstructionView;
use crate::lang::compilation::InsertionLocation;
use crate::lang::tokenizing::TokenView;
use crate::runtime::data_structures::value::index_value;
use crate::runtime::data_structures::value::is_stringable_view;
use crate::runtime::data_structures::value::string_of_view;

verus! {

/// `word`: reads the next token and pushes it as a value.
pub fn word_word(interpreter: &mut SorthInterpreter) -> (r: Result<()>)
    requires
        old(interpreter).wf(),
    ensures
        final(interpreter).stable(old(interpreter)),
        final(interpreter).heap_view() == old(interpreter).heap_view(),
        r is Ok ==> final(interpreter).stack_view().len() == old(interpreter).stack_view().len()
            + 1 && final(interpreter).stack_view().last()@ is Token,
        r is Err ==> final(interpreter).stack_view() == old(interpreter).stack_view(),
        final(interpreter).token_taken(old(interpreter)),
        match old(interpreter).upcoming() {
            Some(token) => r is Ok && final(interpreter).stack_view().drop_last() == old(interpreter).stack_view() && final(interpreter).stack_view().last()@ == ValueView::Token(token),
            None => r is Err,
        },
{
    let ghost before = interpreter.stack_view();
    let token = match interpreter.next_token() {
        Ok(token) => token,
        Err(e) => {
            return Err(e);
        },
    };
    interpreter.push(Value::Token(token));
    assert(interpreter.stack_view().drop_last() =~= before);
    Ok(())
}

/// `words.get{}`: pushes a new hash table that holds, for each word that can
/// be found, the index of its handler under its name.
pub fn word_get_word_table(interpreter: &mut SorthInterpreter) -> (r: Result<()>)
    requires
        old(interpreter).wf(),
    ensures
        final(interpreter).stable(old(interpreter)),
        r is Ok,
        final(interpreter).stack_view().len() == old(interpreter).stack_view().len() + 1,
        final(interpreter).stack_view().last()@ == ValueView::HashMap(
            old(interpreter).heap_view().len() as usize,
        ),
        final(interpreter).heap_view().len() == old(interpreter).heap_view().len() + 1,
        final(interpreter).heap_view().last() is Hash,
{
    let merged = interpreter.dictionary().get_merged();
    let names = merged.names();
    let mut table = ValueHash::new();
    let mut k: usize = 0;
    while k < names.len()
        invariant
            k <= names@.len(),
            table.wf(),
        decreases names@.len() - k,
    {
        match merged.get(&names[k]) {
            Some(info) => {
                table.insert(Value::String(names[k].clone()), count_value(info.handler_index));
            },
            None => {},
        }
        k += 1;
    }
    let handle = interpreter.heap.allocate(HeapCell::Hash(table));
    interpreter.push(Value::HashMap(handle));
    Ok(())
}

/// The backtick: reads the next token, which has to be a defined word, and
/// compiles an instruction that pushes the index of the handler of the word.
pub fn word_word_index(interpreter: &mut SorthInterpreter) -> (r: Result<()>)
    requires
        old(interpreter).wf(),
    ensures
        final(interpreter).stable(old(interpreter)),
        final(interpreter).same_but_compilations(old(interpreter)),
        match old(interpreter).upcoming() {
            Some(TokenView::Word(location, name)) => match lookup(
                old(interpreter).dictionary_view(),
                name,
            ) {
                Some(info) => {
                    let was = old(interpreter).contexts_view().last();
                    let now = final(interpreter).contexts_view().last();
                    let instruction = InstructionView {
                        location: Some(location),
                        op: OpView::PushConstantValue(index_value(info.handler_index)),
                    };
                    &&& r is Ok <==> was.constructions@.len() > 0
                    &&& r is Ok ==> now.current == was.current + 1 && now.constructions@.len()
                        == was.constructions@.len() && now.constructions@.drop_last()
                        == was.constructions@.drop_last() && now.constructions@.last()@
                        == (ConstructionView {
                        code: if was.insertion == InsertionLocation::AtEnd {
                            was.constructions@.last()@.code.push(instruction)
                        } else {
                            seq![instruction] + was.constructions@.last()@.code
                        },
                        ..was.constructions@.last()@
                    })
                },
                None => r is Err,
            },
            _ => r is Err,
        },
{
    let (location, word) = match interpreter.next_token_word() {
        Ok(found) => found,
        Err(e) => {
            return Err(e);
        },
    };
    let index = match interpreter.find_word(&word) {
        Some(word_info) => word_info.handler_index,
        None => {
            return script_error(interpreter, concat3("Word ", word.as_str(), " not found."));
        },
    };
    interpreter.insert_user_instruction(Some(location), Op::PushConstantValue(count_value(index)))
}

/// `execute`: takes a value off the stack and executes the word that it
/// names or whose index it is. Fails, with only the value taken off, where no
/// further call may be nested.
pub fn word_execute<H: Host>(interpreter: &mut SorthInterpreter, host: &mut H) -> (r: Result<()>)
    requires
        old(interpreter).wf(),
    ensures
        final(interpreter).stable(old(interpreter)),
        old(interpreter).stack_view().len() == 0 ==> r is Err,
        old(interpreter).calls_left() == 0 ==> r is Err && final(interpreter).stack_view()
            == old(interpreter).popped() && final(interpreter).heap_view()
            == old(interpreter).heap_view(),
        old(interpreter).stack_view().len() > 0 ==> {
            let stack = old(interpreter).stack_view().drop_last();
            let handlers = old(interpreter).handlers_view();
            match old(interpreter).stack_view().last()@ {
                ValueView::Int(index) => if 0 <= index < handlers.len() {
                    old(interpreter).calls_left() > 0 ==> final(interpreter).called_on(
                        old(interpreter),
                        old(interpreter).budget_left(),
                        stack,
                        handlers[index as int].spec_handler(),
                        r,
                    )
                } else {
                    r is Err
                },
                ValueView::String(name) => match lookup(old(interpreter).dictionary_view(), name) {
                    Some(info) => info.handler_index < handlers.len() && old(interpreter).calls_left() > 0 ==> final(interpreter).called_on(
                        old(interpreter),
                        old(interpreter).budget_left(),
                        stack,
                        handlers[info.handler_index as int].spec_handler(),
                        r,
                    ),
                    None => r is Err,
                },
                ValueView::Vec(_) => r is Err,
                ValueView::HashMap(_) => r is Err,
                ValueView::DataObject(_) => r is Err,
                ValueView::ByteBuffer(_) => r is Err,
                ValueView::Code(_) => r is Err,
                _ => true,
            }
        },
    decreases old(interpreter).calls_left(), 18int,
{
    let value = match interpreter.pop() {
        Ok(value) => value,
        Err(e) => {
            return Err(e);
        },
    };
    if value.is_text() {
        let word = value.get_string_val(host);
        interpreter.execute_word_named(host, &None, &word)
    } else if value.is_numeric() {
        let index = value.get_int_val(host);
        let count = interpreter.word_handlers.len();
        if index < 0 || index as u64 >= count as u64 {
            script_error_str(interpreter, "Word handler index not found.")
        } else {
            interpreter.execute_word_index(host, &None, index as usize)
        }
    } else {
        script_error_str(interpreter, "Value is not a valid word name or index.")
    }
}

/// `defined?`: takes a name off the stack and pushes whether a word of that
/// name is defined.
pub fn word_is_defined<H: Host>(interpreter: &mut SorthInterpreter, host: &H) -> (r: Result<()>)
    requires
        old(interpreter).wf(),
    ensures
        final(interpreter).stable(old(interpreter)),
        final(interpreter).same_but_stack(old(interpreter)),
        r is Ok ==> final(interpreter).stack_view().len() == old(interpreter).stack_view().len(),
        r is Ok && old(interpreter).stack_view().last()@ is String ==> final(interpreter).stack_view().last()@ == ValueView::Bool(
            lookup(
                old(interpreter).dictionary_view(),
                old(interpreter).stack_view().last()@->String_0,
            ) is Some,
        ),
        r is Ok <==> old(interpreter).stack_view().len() > 0 && is_stringable_view(
            old(interpreter).stack_view().last()@,
        ),
        r is Err ==> final(interpreter).stack_view() == old(interpreter).popped(),
        r is Ok ==> final(interpreter).stack_view().drop_last() == old(interpreter).stack_view().drop_last() && match string_of_view(old(interpreter).stack_view().last()@) {
            Some(name) => final(interpreter).stack_view().last()@ == ValueView::Bool(
                lookup(old(interpreter).dictionary_view(), name) is Some,
            ),
            None => final(interpreter).stack_view().last()@ is Bool,
        },
{
    let ghost before = interpreter.stack_view();
    let word = match interpreter.pop_as_string(host) {
        Ok(word) => word,
        Err(e) => {
            return Err(e);
        },
    };
    let found = interpreter.find_word(&word).is_some();
    interpreter.push(Value::Bool(found));
    assert(interpreter.stack_view().drop_last() =~= before.drop_last());
    Ok(())
}

/// `[defined?]` and `[undefined?]`: reads the next token, which has to be a
/// word, and pushes whether a word of that name is defined, or is not.
pub fn word_is_defined_im(interpreter: &mut SorthInterpreter, negate: bool) -> (r: Result<()>)
    requires
        old(interpreter).wf(),
    ensures
        final(interpreter).stable(old(interpreter)),
        final(interpreter).heap_view() == old(interpreter).heap_view(),
        r is Ok ==> final(interpreter).stack_view().len() == old(interpreter).stack_view().len()
            + 1 && final(interpreter).stack_view().last()@ is Bool,
        final(interpreter).token_taken(old(interpreter)),
        match old(interpreter).upcoming() {
            Some(TokenView::Word(_, name)) => r is Ok && final(interpreter).stack_view().drop_last()
                == old(interpreter).stack_view() && final(interpreter).stack_view().last()@
                == ValueView::Bool(
                (lookup(old(interpreter).dictionary_view(), name) is Some) != negate,
            ),
            _ => r is Err && final(interpreter).stack_view() == old(interpreter).stack_view(),
        },
{
    let ghost before = interpreter.stack_view();
    let (_, word) = match interpreter.next_token_word() {
        Ok(found) => found,
        Err(e) => {
            return Err(e);
        },
    };
    let found = interpreter.find_word(&word).is_some();
    interpreter.push(Value::Bool(found != negate));
    assert(interpreter.stack_view().drop_last() =~= before);
    Ok(())
}

} // verus!
