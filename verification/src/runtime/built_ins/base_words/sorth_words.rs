//! The words that read and change the state of the interpreter itself.

use vstd::prelude::*;
use crate::lang::tokenizing::TokenView;
use vstd::string::StringExecFns;
use crate::runtime::data_structures::display::dictionary_text;
use crate::runtime::data_structures::display::value_text;
use crate::runtime::data_structures::heap::HeapCell;
use crate::runtime::data_structures::heap::MAX_NESTING;
use crate::runtime::data_structures::value::is_stringable_view;
use crate::runtime::data_structures::value::string_of_view;
use crate::runtime::data_structures::value::Value;
use crate::runtime::data_structures::value::ValueView;
use crate::runtime::data_structures::value_vec::ValueVec;
use crate::runtime::error::script_error;
use crate::runtime::error::Result;
use crate::runtime::host::Host;
use crate::runtime::interpreter::sorth_interpreter::SorthInterpreter;
use crate::text::nat_to_chars;
use crate::text::string_of;

use crate::runtime::data_structures::display::quoted;
use crate::text::nat_digits;

verus! {

/// The systems that `sysinfo` can inspect.
#[verifier::external_type_specification]
#[verifier::external_body]
pub struct ExSystem(sysinfo::System);

/// The identifier of a process, as `sysinfo` knows it.
#[verifier::external_type_specification]
#[verifier::external_body]
pub struct ExPid(sysinfo::Pid);

/// A process, as `sysinfo` knows it.
#[verifier::external_type_specification]
#[verifier::external_body]
pub struct ExProcess(sysinfo::Process);

/// A view of the system with nothing loaded.
///
/// Trusted: wraps `sysinfo::System::new`. Nothing is claimed of the result.
#[verifier::external_body]
fn new_system() -> sysinfo::System {
    sysinfo::System::new()
}

/// Loads what the system knows, its processes among it.
///
/// Trusted: wraps `sysinfo::System::refresh_all`. Nothing is claimed of the
/// result, which depends on the machine.
#[verifier::external_body]
fn refresh_system(system: &mut sysinfo::System) {
    system.refresh_all();
}

/// The identifier of the running process, where the platform gives one.
///
/// Trusted: wraps `sysinfo::get_current_pid`, which fails on a platform that
/// it does not know. Nothing is claimed of the result.
#[verifier::external_body]
fn current_pid() -> Option<sysinfo::Pid> {
    match sysinfo::get_current_pid() {
        Ok(pid) => Some(pid),
        Err(_) => None,
    }
}

/// The process with the given identifier, where the system knows one.
///
/// Trusted: wraps `sysinfo::System::process`. Nothing is claimed of the
/// result.
#[verifier::external_body]
fn find_process(system: &sysinfo::System, pid: sysinfo::Pid) -> Option<&sysinfo::Process> {
    system.process(pid)
}

/// The number of bytes of memory that a process uses.
///
/// Trusted: wraps `sysinfo::Process::memory`. Nothing is claimed of the
/// result.
#[verifier::external_body]
fn process_memory(process: &sysinfo::Process) -> u64 {
    process.memory()
}

/// The value of a number of bytes: the number as an integer, or the largest
/// integer where the number is larger.
pub fn memory_value(bytes: u64) -> (r: Value)
    ensures
        r@ == ValueView::Int(
            if bytes <= i64::MAX {
                bytes as i64
            } else {
                i64::MAX
            },
        ),
{
    if bytes <= 0x7fff_ffff_ffff_ffff {
        Value::Int(bytes as i64)
    } else {
        Value::Int(i64::MAX)
    }
}

/// `sorth.memory`: pushes the number of bytes of memory that the running
/// process uses. Fails where the system does not tell.
pub fn word_sorth_memory(interpreter: &mut SorthInterpreter) -> (r: Result<()>)
    requires
        old(interpreter).wf(),
    ensures
        final(interpreter).stable(old(interpreter)),
        final(interpreter).same_but_stack(old(interpreter)),
        r is Ok ==> final(interpreter).stack_view().len() == old(interpreter).stack_view().len()
            + 1 && final(interpreter).stack_view().drop_last() == old(interpreter).stack_view()
            && final(interpreter).stack_view().last()@ is Int,
        r is Err ==> final(interpreter).stack_view() == old(interpreter).stack_view(),
{
    let mut system = new_system();
    refresh_system(&mut system);
    match current_pid() {
        Some(pid) => {
            let bytes = match find_process(&system, pid) {
                Some(process) => Some(process_memory(process)),
                None => None,
            };
            push_memory(interpreter, true, bytes)
        },
        None => push_memory(interpreter, false, None),
    }
}

/// Pushes the memory that the running process uses, given what the system
/// told of it: whether it knows the process, and the number of bytes where it
/// does. Fails, and says which of the two is missing, where it told none.
pub fn push_memory(interpreter: &mut SorthInterpreter, process_known: bool, bytes: Option<u64>) -> (r:
    Result<()>)
    requires
        old(interpreter).wf(),
    ensures
        final(interpreter).stable(old(interpreter)),
        final(interpreter).same_but_stack(old(interpreter)),
        r is Ok <==> process_known && bytes is Some,
        r is Ok ==> final(interpreter).stack_view().len() == old(interpreter).stack_view().len()
            + 1 && final(interpreter).stack_view().drop_last() == old(interpreter).stack_view()
            && final(interpreter).stack_view().last()@ == ValueView::Int(
            if bytes->0 <= i64::MAX {
                bytes->0 as i64
            } else {
                i64::MAX
            },
        ),
        r is Err ==> final(interpreter).stack_view() == old(interpreter).stack_view()
            && r->Err_0@.error == if process_known {
            "Could not read process memory information."@
        } else {
            "Could not read process pid."@
        },
{
    if !process_known {
        return script_error(interpreter, String::from_str("Could not read process pid."));
    }
    let bytes = match bytes {
        Some(bytes) => bytes,
        None => {
            return script_error(
                interpreter,
                String::from_str("Could not read process memory information."),
            );
        },
    };
    let ghost before = interpreter.stack_view();
    interpreter.push(memory_value(bytes));
    assert(interpreter.stack_view().drop_last() =~= before);
    Ok(())
}

/// The version of the interpreter.
pub const VERSION: &'static str = "0.1.0";

/// `reset`: resets the interpreter.
pub fn word_reset(interpreter: &mut SorthInterpreter) -> (r: Result<()>)
    requires
        old(interpreter).wf(),
    ensures
        final(interpreter).stable(old(interpreter)),
        r is Ok,
        final(interpreter).stack_view().len() == 0,
{
    interpreter.reset()
}

/// `include`: takes a path off the stack, and compiles and executes the
/// source file at that path.
pub fn word_include<H: Host>(interpreter: &mut SorthInterpreter, host: &mut H) -> (r: Result<()>)
    requires
        old(interpreter).wf(),
    ensures
        final(interpreter).stable(old(interpreter)),
        old(interpreter).stack_view().len() == 0 || !is_stringable_view(
            old(interpreter).stack_view().last()@,
        ) ==> r is Err && final(interpreter).stack_view() == old(interpreter).popped() && final(interpreter).heap_view() == old(interpreter).heap_view(),
    decreases old(interpreter).calls_left(), 18int,
{
    let file = match interpreter.pop_as_string(host) {
        Ok(file) => file,
        Err(e) => {
            return Err(e);
        },
    };
    interpreter.process_source_file(host, &file)
}

/// `[include]`: reads the next token, which is a path, and compiles and
/// executes the source file at that path.
pub fn word_include_im<H: Host>(interpreter: &mut SorthInterpreter, host: &mut H) -> (r: Result<()>)
    requires
        old(interpreter).wf(),
    ensures
        final(interpreter).stable(old(interpreter)),
        match old(interpreter).upcoming() {
            Some(TokenView::String(_, _)) => true,
            Some(TokenView::Word(_, _)) => true,
            _ => r is Err && final(interpreter).stack_view() == old(interpreter).stack_view()
                && final(interpreter).heap_view() == old(interpreter).heap_view(),
        },
    decreases old(interpreter).calls_left(), 18int,
{
    let file = match interpreter.next_token_text() {
        Ok(file) => file,
        Err(e) => {
            return Err(e);
        },
    };
    interpreter.process_source_file(host, &file)
}

/// `.s`: writes the depth of the stack and its values to the console, and
/// leaves the stack as it is.
pub fn word_print_stack<H: Host>(interpreter: &mut SorthInterpreter, host: &mut H) -> (r: Result<()>)
    ensures
        r is Ok,
        *final(interpreter) == *old(interpreter),
{
    let text = stack_text(host, interpreter);
    host.write_output(&text);
    Ok(())
}

/// The first `count` lines of the listing of a stack: the text of each
/// value, the lowest first, a string written as a literal. There is no such
/// text where the text of a value is the host's or that of a container.
pub open spec fn stack_lines(stack: Seq<Value>, count: int) -> Option<Seq<char>>
    decreases count,
{
    if count <= 0 || count > stack.len() {
        Some(Seq::empty())
    } else {
        match (stack_lines(stack, count - 1), quoted(stack[count - 1]@)) {
            (Some(before), Some(text)) => Some(before + text + "\n"@),
            _ => None,
        }
    }
}

/// The listing of the stack of an interpreter: its depth, and a line for
/// each of its values.
pub fn stack_text<H: Host>(host: &H, interpreter: &SorthInterpreter) -> (r: String)
    ensures
        match stack_lines(interpreter.stack_view(), interpreter.stack_view().len() as int) {
            Some(lines) => r@ == "Depth: "@ + nat_digits(interpreter.stack_view().len(), 10)
                + "\n"@ + lines,
            None => true,
        },
{
    let mut text = String::from_str("Depth: ");
    text.append(string_of(&nat_to_chars(interpreter.stack().len() as u64, 10)).as_str());
    text.append("\n");
    let ghost head = text@;
    let mut index: usize = 0;
    assert(text@ =~= head + Seq::<char>::empty());
    while index < interpreter.stack().len()
        invariant
            index <= interpreter.stack_view().len(),
            head == "Depth: "@ + nat_digits(interpreter.stack_view().len(), 10) + "\n"@,
            match stack_lines(interpreter.stack_view(), index as int) {
                Some(lines) => text@ == head + lines,
                None => true,
            },
        decreases interpreter.stack_view().len() - index,
    {
        let ghost before = text@;
        let value = &interpreter.stack()[index];
        let line = match value {
            Value::String(string) => Value::stringify(string),
            other => value_text(host, interpreter.heap(), other, 0, MAX_NESTING),
        };
        text.append(line.as_str());
        text.append("\n");
        index += 1;
        proof {
            if stack_lines(interpreter.stack_view(), index as int) is Some {
                assert(text@ =~= before + line@ + "\n"@);
            }
        }
    }
    text
}

/// `.w`: writes the listing of the dictionary to the console.
pub fn word_print_dictionary<H: Host>(interpreter: &mut SorthInterpreter, host: &mut H) -> (r:
    Result<()>)
    ensures
        r is Ok,
        *final(interpreter) == *old(interpreter),
{
    let text = dictionary_text(interpreter.dictionary());
    host.write_output(&text);
    Ok(())
}

/// `term.!`: takes a value off the stack and writes its text to the console.
pub fn word_term_write<H: Host>(interpreter: &mut SorthInterpreter, host: &mut H) -> (r: Result<()>)
    requires
        old(interpreter).wf(),
    ensures
        final(interpreter).stable(old(interpreter)),
        final(interpreter).same_but_stack(old(interpreter)),
        r is Ok <==> old(interpreter).stack_view().len() > 0,
        final(interpreter).stack_view() == old(interpreter).popped(),
{
    let value = match interpreter.pop() {
        Ok(value) => value,
        Err(e) => {
            return Err(e);
        },
    };
    let text = value_text(host, interpreter.heap(), &value, 0, MAX_NESTING);
    host.write_output(&text);
    Ok(())
}

/// `sorth.version`: pushes the version of the interpreter.
pub fn word_sorth_version(interpreter: &mut SorthInterpreter) -> (r: Result<()>)
    requires
        old(interpreter).wf(),
    ensures
        final(interpreter).stable(old(interpreter)),
        final(interpreter).same_but_stack(old(interpreter)),
        r is Ok,
        final(interpreter).stack_view().len() == old(interpreter).stack_view().len() + 1,
        final(interpreter).stack_view().last()@ == ValueView::String(VERSION@),
{
    interpreter.push(Value::String(String::from_str(VERSION)));
    Ok(())
}

/// `sorth.search-path`: pushes a new array of the search paths, the one that
/// was added last at the end.
pub fn word_sorth_search_path(interpreter: &mut SorthInterpreter) -> (r: Result<()>)
    requires
        old(interpreter).wf(),
    ensures
        final(interpreter).stable(old(interpreter)),
        r is Ok,
        final(interpreter).stack_view().len() == old(interpreter).stack_view().len() + 1,
        final(interpreter).stack_view().last()@ == ValueView::Vec(
            old(interpreter).heap_view().len() as usize,
        ),
        final(interpreter).heap_view().len() == old(interpreter).heap_view().len() + 1,
        final(interpreter).heap_view().last() is Vec,
        final(interpreter).heap_view().last()->Vec_0@.len() == old(interpreter).paths_view().len(),
{
    let mut values: Vec<Value> = Vec::new();
    let mut index: usize = 0;
    while index < interpreter.search_paths().len()
        invariant
            index <= interpreter.paths_view().len(),
            values@.len() == index,
            *interpreter == *old(interpreter),
        decreases interpreter.paths_view().len() - index,
    {
        values.push(Value::String(interpreter.search_paths()[index].clone()));
        index += 1;
    }
    let handle = interpreter.heap.allocate(HeapCell::Vec(ValueVec::from_vec(values)));
    interpreter.push(Value::Vec(handle));
    Ok(())
}

/// `sorth.find-file`: takes a path off the stack and pushes the absolute
/// path of the file that it names.
pub fn word_sorth_find_file<H: Host>(interpreter: &mut SorthInterpreter, host: &H) -> (r: Result<
    (),
>)
    requires
        old(interpreter).wf(),
    ensures
        final(interpreter).stable(old(interpreter)),
        final(interpreter).same_but_stack(old(interpreter)),
        r is Ok ==> final(interpreter).stack_view().len() == old(interpreter).stack_view().len()
            && final(interpreter).stack_view().last()@ is String,
        r is Ok ==> final(interpreter).stack_view().drop_last() == old(interpreter).stack_view().drop_last(),
        r is Err ==> final(interpreter).stack_view() == old(interpreter).popped(),
        old(interpreter).stack_view().len() == 0 || !is_stringable_view(
            old(interpreter).stack_view().last()@,
        ) ==> r is Err,
{
    let ghost stack = interpreter.stack_view();
    let file = match interpreter.pop_as_string(host) {
        Ok(file) => file,
        Err(e) => {
            return Err(e);
        },
    };
    let full_path = match interpreter.find_file(host, &file) {
        Ok(full_path) => full_path,
        Err(e) => {
            return Err(e);
        },
    };
    interpreter.push(Value::String(full_path));
    assert(interpreter.stack_view().drop_last() =~= stack.drop_last());
    Ok(())
}

/// `throw`: takes a message off the stack and fails with that message.
pub fn word_throw<H: Host>(interpreter: &mut SorthInterpreter, host: &H) -> (r: Result<()>)
    requires
        old(interpreter).wf(),
    ensures
        final(interpreter).stable(old(interpreter)),
        final(interpreter).same_but_stack(old(interpreter)),
        final(interpreter).stack_view() == old(interpreter).popped(),
        r is Err,
        old(interpreter).stack_view().len() > 0 && is_stringable_view(
            old(interpreter).stack_view().last()@,
        ) && string_of_view(old(interpreter).stack_view().last()@) is Some ==> r->Err_0@.error
            == string_of_view(old(interpreter).stack_view().last()@)->0,
{
    let message = match interpreter.pop_as_string(host) {
        Ok(message) => message,
        Err(e) => {
            return Err(e);
        },
    };
    script_error(interpreter, message)
}

} // verus!
