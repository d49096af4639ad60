//! The error that every failing operation of the runtime returns.

use vstd::prelude::*;
use crate::lang::source_buffer::SourceLocation;
use crate::lang::source_buffer::LocationView;
use crate::runtime::interpreter::CallStack;
use crate::lang::source_buffer::location_text;
use crate::runtime::interpreter::call_stack_text;
use crate::runtime::interpreter::call_stack_view;
use crate::runtime::interpreter::clone_call_stack;
use crate::runtime::interpreter::sorth_interpreter::SorthInterpreter;
use vstd::string::StringExecFns;

verus! {

pub type Result<T> = std::result::Result<T, ScriptError>;

/// An error of the runtime: a message, the place in the source it was raised
/// at, where that is known, and the call stack at that moment, where there was
/// one.
#[derive(Debug)]
pub struct ScriptError {
    location: Option<SourceLocation>,
    error: String,
    call_stack: Option<CallStack>,
}

/// What an error holds, as plain values.
pub struct ErrorView {
    pub location: Option<LocationView>,
    pub error: Seq<char>,
    pub call_stack: Option<Seq<(LocationView, Seq<char>)>>,
}

/// The view of a location that may be absent.
pub open spec fn location_option_view(location: Option<SourceLocation>) -> Option<LocationView> {
    match location {
        Some(l) => Some(l@),
        None => None,
    }
}

/// The view of a call stack that may be absent.
pub open spec fn call_stack_option_view(stack: Option<CallStack>) -> Option<
    Seq<(LocationView, Seq<char>)>,
> {
    match stack {
        Some(s) => Some(call_stack_view(s@)),
        None => None,
    }
}

impl View for ScriptError {
    type V = ErrorView;

    closed spec fn view(&self) -> ErrorView {
        ErrorView {
            location: location_option_view(self.location),
            error: self.error@,
            call_stack: call_stack_option_view(self.call_stack),
        }
    }
}

impl Clone for ScriptError {
    fn clone(&self) -> (r: Self)
        ensures
            r@ == self@,
    {
        let location = match &self.location {
            Some(l) => Some(l.clone()),
            None => None,
        };
        let call_stack = match &self.call_stack {
            Some(s) => Some(clone_call_stack(s)),
            None => None,
        };
        ScriptError { location, error: self.error.clone(), call_stack }
    }
}

/// The text of an error: the location, where there is one, a colon and the
/// message, and then the call stack, where there is one, under a heading.
pub open spec fn error_text(error: ErrorView) -> Seq<char> {
    let head = match error.location {
        Some(location) => location_text(location) + ": "@ + error.error,
        None => error.error,
    };
    match error.call_stack {
        Some(stack) => head + "\n\nCall stack\n"@ + call_stack_text(stack),
        None => head,
    }
}

impl ScriptError {
    /// The text of the error.
    pub fn to_string(&self) -> (r: String)
        ensures
            r@ == error_text(self@),
    {
        let mut out = match &self.location {
            Some(location) => {
                let mut head = location.to_string();
                head.append(": ");
                head.append(self.error.as_str());
                head
            },
            None => self.error.clone(),
        };
        match &self.call_stack {
            Some(stack) => {
                out.append("\n\nCall stack\n");
                let ghost head = out@;
                let ghost views = call_stack_view(stack@);
                let mut k: usize = stack.len();
                assert(views.take(k as int) == views);
                assert(out@ + call_stack_text(views.take(k as int)) =~= head + call_stack_text(
                    views,
                )) by {
                    assert(out@ =~= head);
                }
                let ghost mut done: Seq<char> = Seq::empty();
                assert(out@ =~= head + done);
                while k > 0
                    invariant
                        k <= stack@.len(),
                        views == call_stack_view(stack@),
                        out@ == head + done,
                        done + call_stack_text(views.take(k as int)) == call_stack_text(views),
                    decreases k,
                {
                    let ghost prefix = views.take(k as int);
                    assert(prefix.drop_last() == views.take(k - 1));
                    assert(prefix.last() == stack@[k - 1]@);
                    k -= 1;
                    let line = stack[k].to_string();
                    let ghost before = done;
                    out.append("  ");
                    out.append(line.as_str());
                    out.append("\n");
                    proof {
                        done = before + ("  "@ + line@ + "\n"@);
                        assert(out@ =~= head + done);
                        assert(before + (("  "@ + line@ + "\n"@) + call_stack_text(
                            views.take(k as int),
                        )) =~= done + call_stack_text(views.take(k as int)));
                    }
                }
                assert(views.take(0) =~= Seq::<(LocationView, Seq<char>)>::empty());
                assert(done + Seq::<char>::empty() =~= done);
                out
            },
            None => out,
        }
    }

    pub fn new(location: Option<SourceLocation>, error: String, call_stack: Option<CallStack>) -> (r:
        ScriptError)
        ensures
            r@ == (ErrorView {
                location: location_option_view(location),
                error: error@,
                call_stack: call_stack_option_view(call_stack),
            }),
    {
        ScriptError { location, error, call_stack }
    }

    /// The error with the given parts, as the failing result of an operation.
    pub fn new_as_result<T>(
        location: Option<SourceLocation>,
        error: String,
        call_stack: Option<CallStack>,
    ) -> (r: Result<T>)
        ensures
            r is Err,
            r->Err_0@ == (ErrorView {
                location: location_option_view(location),
                error: error@,
                call_stack: call_stack_option_view(call_stack),
            }),
    {
        Err(ScriptError::new(location, error, call_stack))
    }

    pub fn location(&self) -> (r: &Option<SourceLocation>)
        ensures
            location_option_view(*r) == self@.location,
    {
        &self.location
    }

    pub fn error(&self) -> (r: &String)
        ensures
            r@ == self@.error,
    {
        &self.error
    }

    pub fn call_stack(&self) -> (r: &Option<CallStack>)
        ensures
            call_stack_option_view(*r) == self@.call_stack,
    {
        &self.call_stack
    }
}

/// The failure with the given message, raised at the current location of the
/// interpreter with its current call stack.
pub fn script_error<T>(interpreter: &SorthInterpreter, message: String) -> (r: Result<T>)
    ensures
        r is Err,
        r->Err_0@ == (ErrorView {
            location: interpreter.location_view(),
            error: message@,
            call_stack: Some(interpreter.calls_view()),
        }),
{
    Err(interpreter.error(message))
}

/// The failure with the given message, raised at the current location of the
/// interpreter with its current call stack.
pub fn script_error_str<T>(interpreter: &SorthInterpreter, message: &str) -> (r: Result<T>)
    ensures
        r is Err,
        r->Err_0@ == (ErrorView {
            location: interpreter.location_view(),
            error: message@,
            call_stack: Some(interpreter.calls_view()),
        }),
{
    script_error(interpreter, String::from_str(message))
}

} // verus!
