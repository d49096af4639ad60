//! What the words of the terminal need that is no input or output.

use vstd::prelude::*;
use vstd::string::StringExecFns;
use crate::runtime::data_structures::value::Value;
use crate::runtime::data_structures::value::ValueView;
use crate::runtime::error::script_error_str;
use crate::runtime::error::Result;
use crate::runtime::host::Host;
use crate::runtime::interpreter::sorth_interpreter::SorthInterpreter;
use crate::text::chars_of;

verus! {

/// Whether a character can be shown on a terminal: a visible character of
/// ASCII, a space, a tab or a new line.
pub open spec fn is_printable_char(c: char) -> bool {
    ('!' <= c && c <= '~') || c == ' ' || c == '\t' || c == '\n'
}

/// Whether a character can be shown on a terminal.
pub fn is_printable(c: char) -> (r: bool)
    ensures
        r == is_printable_char(c),
{
    ('!' <= c && c <= '~') || c == ' ' || c == '\t' || c == '\n'
}

/// `term.is_printable?`: takes a string of one character off the stack and
/// pushes whether the character can be shown on a terminal. Fails on a string
/// of any other length.
pub fn word_term_is_printable<H: Host>(interpreter: &mut SorthInterpreter, host: &H) -> (r: Result<
    (),
>)
    requires
        old(interpreter).wf(),
    ensures
        final(interpreter).stable(old(interpreter)),
        final(interpreter).same_but_stack(old(interpreter)),
        r is Ok ==> final(interpreter).stack_view().len() == old(interpreter).stack_view().len(),
        old(interpreter).stack_view().len() > 0 ==> match old(interpreter).stack_view().last()@ {
            ValueView::String(text) => if text.len() == 1 {
                r is Ok && final(interpreter).stack_view().last()@ == ValueView::Bool(
                    is_printable_char(text[0]),
                )
            } else {
                r is Err
            },
            _ => true,
        },
{
    let value = match interpreter.pop_as_string(host) {
        Ok(value) => value,
        Err(e) => {
            return Err(e);
        },
    };
    let chars = chars_of(value.as_str());
    if chars.len() != 1 {
        return script_error_str(interpreter, "Expected a single character.");
    }
    interpreter.push(Value::Bool(is_printable(chars[0])));
    Ok(())
}

} // verus!
