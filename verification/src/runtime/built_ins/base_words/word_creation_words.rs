//! The words that define new words.

use std::rc::Rc;
use vstd::prelude::*;
use vstd::string::StringExecFns;
use crate::lang::tokenizing::NumberType;
use crate::lang::compilation::Construction;
use crate::lang::compilation::ConstructionView;
use crate::lang::source_buffer::LocationView;
use crate::lang::tokenizing::Token;
use crate::lang::tokenizing::TokenView;
use crate::runtime::built_ins::base_words::bytecode_words::is_building;
use crate::runtime::data_structures::dictionary::lookup;
use crate::runtime::data_structures::dictionary::WordInfoView;
use crate::runtime::data_structures::dictionary::WordRuntime;
use crate::runtime::data_structures::dictionary::WordType;
use crate::runtime::data_structures::dictionary::WordVisibility;
use crate::runtime::error::script_error_str;
use crate::runtime::error::Result;
use crate::runtime::host::Host;
use crate::runtime::interpreter::sorth_interpreter::SorthInterpreter;
use crate::runtime::interpreter::Handler;
use crate::runtime::interpreter::ScriptFunction;
use crate::text::int_text;
use crate::text::int_to_string;

verus! {

/// Whether the innermost compilation of `after` is that of `before` with one
/// token more read and one block more, which is empty and has the given name
/// and place.
pub open spec fn word_started(
    before: &SorthInterpreter,
    after: &SorthInterpreter,
    name: Seq<char>,
    location: LocationView,
) -> bool {
    let was = before.contexts_view().last();
    let now = after.contexts_view().last();
    &&& before.contexts_view().len() > 0
    &&& after.contexts_view().len() == before.contexts_view().len()
    &&& after.contexts_view().drop_last() == before.contexts_view().drop_last()
    &&& now.input == was.input
    &&& now.insertion == was.insertion
    &&& now.current == was.current + 1
    &&& now.constructions@.len() == was.constructions@.len() + 1
    &&& now.constructions@.drop_last() == was.constructions@
    &&& now.constructions@.last()@ == (ConstructionView {
        name,
        location,
        ..Construction::new_view()
    })
}

/// `:`: starts the definition of a word. Reads the next token, which is the
/// name of the word, and starts a new block for its code.
pub fn word_start_word<H: Host>(interpreter: &mut SorthInterpreter, host: &H) -> (r: Result<()>)
    requires
        old(interpreter).wf(),
    ensures
        final(interpreter).stable(old(interpreter)),
        final(interpreter).same_but_compilations(old(interpreter)),
        r is Ok ==> is_building(final(interpreter)),
        match old(interpreter).upcoming() {
            Some(TokenView::Word(location, name)) => r is Ok && word_started(
                old(interpreter),
                final(interpreter),
                name,
                location,
            ),
            Some(TokenView::Number(location, NumberType::Int(value))) => r is Ok && word_started(
                old(interpreter),
                final(interpreter),
                int_text(value as int),
                location,
            ),
            Some(TokenView::Number(_, NumberType::Float(_))) => r is Ok,
            _ => r is Err,
        },
{
    let token = match interpreter.next_token() {
        Ok(token) => token,
        Err(e) => {
            return Err(e);
        },
    };
    let (location, name) = match token {
        Token::Word(location, name) => (location, name),
        Token::Number(location, NumberType::Int(value)) => (location, int_to_string(value)),
        Token::Number(location, NumberType::Float(bits)) => (location, host.float_to_string(bits)),
        Token::String(_, _) => {
            return script_error_str(interpreter, "Can not use a string as a word name.");
        },
    };
    let count = interpreter.constructors.len();
    if count == 0 {
        return script_error_str(interpreter, "No compile context available.");
    }
    let ghost read = interpreter.contexts_view();
    interpreter.constructors[count - 1].construction_new();
    let top = interpreter.constructors[count - 1].constructions.len() - 1;
    interpreter.constructors[count - 1].constructions[top].name = name;
    interpreter.constructors[count - 1].constructions[top].location = location;
    proof {
        let was = read.last();
        let now = interpreter.contexts_view().last();
        assert(interpreter.contexts_view().drop_last() =~= read.drop_last());
        assert(now.constructions@.drop_last() =~= was.constructions@);
    }
    Ok(())
}

/// `;`: ends the definition of a word. Takes the block that is being built
/// off the blocks and defines the word with the code of the block.
pub fn word_end_word(interpreter: &mut SorthInterpreter) -> (r: Result<()>)
    requires
        old(interpreter).wf(),
    ensures
        final(interpreter).stable(old(interpreter)),
        final(interpreter).stack_view() == old(interpreter).stack_view(),
        final(interpreter).heap_view() == old(interpreter).heap_view(),
        r is Ok <==> is_building(old(interpreter)) && old(interpreter).handlers_view().len()
            < usize::MAX,
        r is Ok ==> final(interpreter).handlers_view().len() == old(interpreter).handlers_view().len()
            + 1 && final(interpreter).handlers_view().last().spec_handler() is Scripted,
        r is Err ==> final(interpreter).handlers_view() == old(interpreter).handlers_view(),
        r is Ok ==> {
            let block = old(interpreter).contexts_view().last().constructions@.last();
            let function = final(interpreter).handlers_view().last().spec_handler()->Scripted_0;
            &&& final(interpreter).handlers_view().drop_last() == old(interpreter).handlers_view()
            &&& final(interpreter).handlers_view().last().spec_name() == block.name@
            &&& function.name@ == block.name@
            &&& function.code == block.code
            &&& lookup(final(interpreter).dictionary_view(), block.name@) == Some(
                WordInfoView {
                    name: block.name@,
                    runtime: block.runtime,
                    word_type: WordType::Scripted,
                    visibility: block.visibility,
                    description: block.description@,
                    signature: block.signature@,
                    handler_index: old(interpreter).handlers_view().len() as usize,
                },
            )
            &&& final(interpreter).contexts_view().len() == old(interpreter).contexts_view().len()
            &&& final(interpreter).contexts_view().drop_last() == old(interpreter).contexts_view().drop_last()
            &&& final(interpreter).contexts_view().last().constructions@ == old(interpreter).contexts_view().last().constructions@.drop_last()
        },
{
    let count = interpreter.constructors.len();
    if count == 0 {
        return script_error_str(interpreter, "No compile context available.");
    }
    if !interpreter.can_add_word() {
        return script_error_str(interpreter, "Too many words.");
    }
    let construction = match interpreter.constructors[count - 1].construction_pop() {
        Ok(construction) => construction,
        Err(e) => {
            return Err(e);
        },
    };
    assert(interpreter.contexts_view().drop_last() =~= old(interpreter).contexts_view().drop_last());
    let new_function = ScriptFunction::new(
        construction.name.clone(),
        construction.location.clone(),
        construction.code,
    );
    interpreter.add_word(
        construction.location.path().clone(),
        construction.location.line(),
        construction.location.column(),
        construction.name,
        Handler::Scripted(Rc::new(new_function)),
        construction.description,
        construction.signature,
        construction.runtime,
        construction.visibility,
        WordType::Scripted,
    );
    Ok(())
}

/// `immediate`: makes the word that is being defined an immediate word.
pub fn word_immediate(interpreter: &mut SorthInterpreter) -> (r: Result<()>)
    requires
        old(interpreter).wf(),
    ensures
        final(interpreter).stable(old(interpreter)),
        final(interpreter).same_but_compilations(old(interpreter)),
        r is Ok <==> is_building(old(interpreter)),
        r is Ok ==> final(interpreter).contexts_view().last().constructions@.last().runtime
            == WordRuntime::Immediate,
{
    let count = interpreter.constructors.len();
    if count == 0 {
        return script_error_str(interpreter, "No compile context available.");
    }
    let blocks = interpreter.constructors[count - 1].constructions.len();
    if blocks == 0 {
        return script_error_str(interpreter, "Accessing an empty construction context.");
    }
    interpreter.constructors[count - 1].constructions[blocks - 1].runtime = WordRuntime::Immediate;
    Ok(())
}

/// `hidden`: hides the word that is being defined from listings of the
/// dictionary.
pub fn word_hidden(interpreter: &mut SorthInterpreter) -> (r: Result<()>)
    requires
        old(interpreter).wf(),
    ensures
        final(interpreter).stable(old(interpreter)),
        final(interpreter).same_but_compilations(old(interpreter)),
        r is Ok <==> is_building(old(interpreter)),
        r is Ok ==> final(interpreter).contexts_view().last().constructions@.last().visibility
            == WordVisibility::Hidden,
{
    let count = interpreter.constructors.len();
    if count == 0 {
        return script_error_str(interpreter, "No compile context available.");
    }
    let blocks = interpreter.constructors[count - 1].constructions.len();
    if blocks == 0 {
        return script_error_str(interpreter, "Accessing an empty construction context.");
    }
    interpreter.constructors[count - 1].constructions[blocks - 1].visibility =
        WordVisibility::Hidden;
    Ok(())
}

/// `description:` and `signature:`: reads the next token, which has to be a
/// string, and makes it the description or the signature of the word that is
/// being defined.
pub fn word_describe(interpreter: &mut SorthInterpreter, signature: bool) -> (r: Result<()>)
    requires
        old(interpreter).wf(),
    ensures
        final(interpreter).stable(old(interpreter)),
        final(interpreter).same_but_compilations(old(interpreter)),
        match old(interpreter).upcoming() {
            Some(TokenView::String(_, text)) => {
                &&& r is Ok <==> old(interpreter).contexts_view().last().constructions@.len() > 0
                &&& r is Ok ==> is_building(final(interpreter)) && if signature {
                    final(interpreter).contexts_view().last().constructions@.last().signature@
                        == text
                } else {
                    final(interpreter).contexts_view().last().constructions@.last().description@
                        == text
                }
            },
            _ => r is Err,
        },
{
    let text = match interpreter.next_token_string() {
        Ok(text) => text,
        Err(e) => {
            return Err(e);
        },
    };
    let count = interpreter.constructors.len();
    if count == 0 {
        return script_error_str(interpreter, "No compile context available.");
    }
    let blocks = interpreter.constructors[count - 1].constructions.len();
    if blocks == 0 {
        return script_error_str(interpreter, "Accessing an empty construction context.");
    }
    if signature {
        interpreter.constructors[count - 1].constructions[blocks - 1].signature = text;
    } else {
        interpreter.constructors[count - 1].constructions[blocks - 1].description = text;
    }
    Ok(())
}

} // verus!
