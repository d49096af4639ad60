//! The words that work on the value stack.

use vstd::prelude::*;
use crate::runtime::data_structures::value::popped_int;
use vstd::string::StringExecFns;
use crate::runtime::data_structures::value::clone_value;
use crate::runtime::data_structures::value::count_value;
use crate::runtime::data_structures::value::ValueView;
use crate::runtime::error::script_error_str;
use crate::runtime::error::Result;
use crate::runtime::host::Host;
use crate::runtime::interpreter::sorth_interpreter::SorthInterpreter;

verus! {

/// `dup`: pushes a copy of the top value.
pub fn word_dup(interpreter: &mut SorthInterpreter) -> (r: Result<()>)
    requires
        old(interpreter).wf(),
    ensures
        final(interpreter).stable(old(interpreter)),
        final(interpreter).same_but_stack(old(interpreter)),
        r is Ok <==> old(interpreter).stack_view().len() >= 1,
        r is Ok ==> final(interpreter).stack_view().len() == old(interpreter).stack_view().len()
            + 1 && final(interpreter).stack_view().drop_last() == old(interpreter).stack_view()
            && final(interpreter).stack_view().last()@ == old(interpreter).stack_view().last()@,
        r is Err ==> final(interpreter).stack_view() == old(interpreter).stack_view(),
{
    let value = match interpreter.pop() {
        Ok(value) => value,
        Err(e) => {
            return Err(e);
        },
    };
    let copy = clone_value(&value);
    interpreter.push(value);
    interpreter.push(copy);
    assert(interpreter.stack_view().drop_last() =~= old(interpreter).stack_view());
    Ok(())
}

/// `drop`: takes the top value off the stack.
pub fn word_drop(interpreter: &mut SorthInterpreter) -> (r: Result<()>)
    requires
        old(interpreter).wf(),
    ensures
        final(interpreter).stable(old(interpreter)),
        final(interpreter).same_but_stack(old(interpreter)),
        r is Ok <==> old(interpreter).stack_view().len() >= 1,
        final(interpreter).stack_view() == old(interpreter).popped(),
{
    match interpreter.pop() {
        Ok(_) => Ok(()),
        Err(e) => Err(e),
    }
}

/// `swap`: swaps the two top values.
pub fn word_swap(interpreter: &mut SorthInterpreter) -> (r: Result<()>)
    requires
        old(interpreter).wf(),
    ensures
        final(interpreter).stable(old(interpreter)),
        final(interpreter).same_but_stack(old(interpreter)),
        r is Ok <==> old(interpreter).stack_view().len() >= 2,
        r is Ok ==> {
            let before = old(interpreter).stack_view();
            let n = before.len() as int;
            final(interpreter).stack_view() == before.take(n - 2).push(before[n - 1]).push(
                before[n - 2],
            )
        },
{
    let a = match interpreter.pop() {
        Ok(value) => value,
        Err(e) => {
            return Err(e);
        },
    };
    let b = match interpreter.pop() {
        Ok(value) => value,
        Err(e) => {
            return Err(e);
        },
    };
    interpreter.push(a);
    interpreter.push(b);
    proof {
        let before = old(interpreter).stack_view();
        let n = before.len() as int;
        assert(before.drop_last().drop_last() =~= before.take(n - 2));
    }
    Ok(())
}

/// `over`: pushes a copy of the second value from the top.
pub fn word_over(interpreter: &mut SorthInterpreter) -> (r: Result<()>)
    requires
        old(interpreter).wf(),
    ensures
        final(interpreter).stable(old(interpreter)),
        final(interpreter).same_but_stack(old(interpreter)),
        r is Ok <==> old(interpreter).stack_view().len() >= 2,
        r is Ok ==> {
            let before = old(interpreter).stack_view();
            let after = final(interpreter).stack_view();
            let n = before.len() as int;
            &&& after.len() == n + 1
            &&& after.take(n) == before
            &&& after[n]@ == before[n - 2]@
        },
{
    let a = match interpreter.pop() {
        Ok(value) => value,
        Err(e) => {
            return Err(e);
        },
    };
    let b = match interpreter.pop() {
        Ok(value) => value,
        Err(e) => {
            return Err(e);
        },
    };
    let copy = clone_value(&b);
    interpreter.push(b);
    interpreter.push(a);
    interpreter.push(copy);
    proof {
        let before = old(interpreter).stack_view();
        let n = before.len() as int;
        assert(interpreter.stack_view().take(n) =~= before);
    }
    Ok(())
}

/// `rot`: brings the top value under the two values below it.
pub fn word_rot(interpreter: &mut SorthInterpreter) -> (r: Result<()>)
    requires
        old(interpreter).wf(),
    ensures
        final(interpreter).stable(old(interpreter)),
        final(interpreter).same_but_stack(old(interpreter)),
        r is Ok <==> old(interpreter).stack_view().len() >= 3,
        r is Ok ==> {
            let before = old(interpreter).stack_view();
            let n = before.len() as int;
            final(interpreter).stack_view() == before.take(n - 3).push(before[n - 1]).push(
                before[n - 3],
            ).push(before[n - 2])
        },
{
    let c = match interpreter.pop() {
        Ok(value) => value,
        Err(e) => {
            return Err(e);
        },
    };
    let b = match interpreter.pop() {
        Ok(value) => value,
        Err(e) => {
            return Err(e);
        },
    };
    let a = match interpreter.pop() {
        Ok(value) => value,
        Err(e) => {
            return Err(e);
        },
    };
    interpreter.push(c);
    interpreter.push(a);
    interpreter.push(b);
    proof {
        let before = old(interpreter).stack_view();
        let n = before.len() as int;
        assert(before.drop_last().drop_last().drop_last() =~= before.take(n - 3));
    }
    Ok(())
}

/// `stack.depth`: pushes the number of values on the stack.
pub fn word_stack_depth(interpreter: &mut SorthInterpreter) -> (r: Result<()>)
    requires
        old(interpreter).wf(),
    ensures
        final(interpreter).stable(old(interpreter)),
        final(interpreter).same_but_stack(old(interpreter)),
        r is Ok,
        final(interpreter).stack_view().drop_last() == old(interpreter).stack_view(),
        final(interpreter).stack_view().len() == old(interpreter).stack_view().len() + 1,
        old(interpreter).stack_view().len() <= i64::MAX ==> final(interpreter).stack_view().last()@ == ValueView::Int(old(interpreter).stack_view().len() as i64),
{
    let depth = interpreter.stack().len();
    interpreter.push(count_value(depth));
    assert(interpreter.stack_view().drop_last() =~= old(interpreter).stack_view());
    Ok(())
}

/// `pick`: takes a count off the stack, takes out the value that lies that
/// many values below the top, and pushes it.
pub fn word_pick<H: Host>(interpreter: &mut SorthInterpreter, host: &H) -> (r: Result<()>)
    requires
        old(interpreter).wf(),
    ensures
        final(interpreter).stable(old(interpreter)),
        final(interpreter).same_but_stack(old(interpreter)),
        r is Ok ==> final(interpreter).stack_view().len() + 1 == old(interpreter).stack_view().len(),
        old(interpreter).stack_view().len() > 0 ==> match popped_int(
            old(interpreter).stack_view().last()@,
        ) {
            Some(i) => {
                let rest = old(interpreter).stack_view().drop_last();
                if 0 <= i < rest.len() {
                    r is Ok && final(interpreter).stack_view() == rest.remove(
                        rest.len() - 1 - i,
                    ).push(rest[rest.len() - 1 - i])
                } else {
                    r is Err
                }
            },
            None => true,
        },
{
    let index = match interpreter.pop_as_int(host) {
        Ok(index) => index,
        Err(e) => {
            return Err(e);
        },
    };
    let count = interpreter.stack().len();
    if index < 0 || index as u64 >= count as u64 {
        return script_error_str(interpreter, "Index out of range of stack size.");
    }
    let value = match interpreter.pick(index as usize) {
        Ok(value) => value,
        Err(e) => {
            return Err(e);
        },
    };
    interpreter.push(value);
    Ok(())
}

/// `push-to`: takes a count off the stack, then takes the top value off and
/// puts it back so that that many values lie above it.
pub fn word_push_to<H: Host>(interpreter: &mut SorthInterpreter, host: &H) -> (r: Result<()>)
    requires
        old(interpreter).wf(),
    ensures
        final(interpreter).stable(old(interpreter)),
        final(interpreter).same_but_stack(old(interpreter)),
        r is Ok ==> final(interpreter).stack_view().len() + 1 == old(interpreter).stack_view().len(),
        old(interpreter).stack_view().len() > 0 ==> match popped_int(
            old(interpreter).stack_view().last()@,
        ) {
            Some(i) => {
                let rest = old(interpreter).stack_view().drop_last();
                if 0 <= i < rest.len() {
                    r is Ok && final(interpreter).stack_view() == rest.drop_last().insert(
                        rest.len() - 1 - i,
                        rest.last(),
                    )
                } else {
                    r is Err
                }
            },
            None => true,
        },
{
    let index = match interpreter.pop_as_int(host) {
        Ok(index) => index,
        Err(e) => {
            return Err(e);
        },
    };
    let count = interpreter.stack().len();
    if index < 0 || index as u64 >= count as u64 {
        return script_error_str(interpreter, "Index out of range of stack length.");
    }
    interpreter.push_to(index as usize)
}

} // verus!
