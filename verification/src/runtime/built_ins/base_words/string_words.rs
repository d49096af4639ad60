//! The words that work with strings.

use vstd::prelude::*;
use vstd::string::StringExecFns;
use crate::runtime::data_structures::byte_buffer::unsigned_of;
use crate::runtime::data_structures::value::Value;
use crate::runtime::data_structures::value::ValueView;
use crate::runtime::error::script_error_str;
use crate::runtime::error::Result;
use crate::runtime::host::Host;
use crate::runtime::interpreter::sorth_interpreter::SorthInterpreter;
use crate::text::nat_digits;
use crate::text::nat_to_chars;
use crate::text::string_of;

verus! {

/// The name that `unique_str` gives out for the given count: `unique-str-`
/// and the count in hexadecimal, with zeros before it up to eight digits.
pub open spec fn unique_name(index: nat) -> Seq<char> {
    let digits = nat_digits(index, 16);
    "unique-str-"@ + Seq::new(
        if digits.len() < 8 {
            (8 - digits.len()) as nat
        } else {
            0
        },
        |i: int| '0',
    ) + digits
}

/// `hex`: takes a number off the stack and pushes its hexadecimal notation:
/// that of the bits of an integer in two's complement, or of the bits of a
/// floating point number.
pub fn word_hex<H: Host>(interpreter: &mut SorthInterpreter, host: &H) -> (r: Result<()>)
    requires
        old(interpreter).wf(),
    ensures
        final(interpreter).stable(old(interpreter)),
        final(interpreter).same_but_stack(old(interpreter)),
        r is Ok ==> final(interpreter).stack_view().len() == old(interpreter).stack_view().len(),
        old(interpreter).stack_view().len() > 0 ==> match old(interpreter).stack_view().last()@ {
            ValueView::Int(i) => r is Ok && final(interpreter).stack_view().last()@
                == ValueView::String(nat_digits(unsigned_of(i), 16)),
            ValueView::Float(bits) => r is Ok && final(interpreter).stack_view().last()@
                == ValueView::String(nat_digits(bits as nat, 16)),
            _ => true,
        },
{
    let value = match interpreter.pop() {
        Ok(value) => value,
        Err(e) => {
            return Err(e);
        },
    };
    let bits: u64 = match &value {
        Value::Float(bits) => *bits,
        other => {
            if !other.is_numeric() {
                return script_error_str(interpreter, "Value is not a number.");
            }
            let number = other.get_int_val(host);
            if number >= 0 {
                number as u64
            } else {
                let low: u64 = (number + 1 + i64::MAX) as u64;
                low + 0x8000_0000_0000_0000
            }
        },
    };
    interpreter.push(Value::String(string_of(&nat_to_chars(bits, 16))));
    Ok(())
}

/// `unique_str`: pushes a string that no earlier call has pushed.
pub fn word_unique_str(interpreter: &mut SorthInterpreter) -> (r: Result<()>)
    requires
        old(interpreter).wf(),
    ensures
        final(interpreter).stable(old(interpreter)),
        final(interpreter).heap_view() == old(interpreter).heap_view(),
        r is Ok <==> old(interpreter).unique_count() < usize::MAX,
        r is Ok ==> final(interpreter).unique_count() == old(interpreter).unique_count() + 1
            && final(interpreter).stack_view() == old(interpreter).stack_view().push(
            final(interpreter).stack_view().last(),
        ) && final(interpreter).stack_view().last()@ == ValueView::String(
            unique_name(old(interpreter).unique_count()),
        ),
        r is Err ==> final(interpreter).stack_view() == old(interpreter).stack_view(),
{
    let index = interpreter.unique_index;
    if index == usize::MAX {
        return script_error_str(interpreter, "No unique string is left.");
    }
    interpreter.unique_index = index + 1;
    let digits = nat_to_chars(index as u64, 16);
    let mut out: Vec<char> = crate::text::chars_of("unique-str-");
    let ghost head = out@;
    let mut padding: usize = 0;
    let missing: usize = if digits.len() < 8 {
        8 - digits.len()
    } else {
        0
    };
    while padding < missing
        invariant
            padding <= missing,
            out@ == head + Seq::new(padding as nat, |i: int| '0'),
        decreases missing - padding,
    {
        out.push('0');
        padding += 1;
        assert(out@ =~= head + Seq::new(padding as nat, |i: int| '0'));
    }
    let ghost padded = out@;
    let mut k: usize = 0;
    while k < digits.len()
        invariant
            k <= digits@.len(),
            out@ == padded + digits@.take(k as int),
        decreases digits@.len() - k,
    {
        out.push(digits[k]);
        k += 1;
        assert(out@ =~= padded + digits@.take(k as int));
    }
    assert(digits@.take(digits@.len() as int) =~= digits@);
    let ghost before = interpreter.stack_view();
    interpreter.push(Value::String(string_of(&out)));
    assert(interpreter.stack_view() =~= before.push(interpreter.stack_view().last()));
    Ok(())
}

} // verus!
