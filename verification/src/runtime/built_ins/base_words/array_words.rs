//! The words that work on arrays.

use vstd::prelude::*;
use crate::runtime::data_structures::value::popped_int;
use crate::runtime::data_structures::value::is_number_view;
use crate::runtime::data_structures::value::index_value;
use vstd::string::StringExecFns;
use crate::runtime::built_ins::base_words::math_logic_and_bit_words::values_equal;
use crate::runtime::data_structures::heap::extends;
use crate::runtime::data_structures::heap::is_array;
use crate::runtime::data_structures::heap::lemma_extends_self;
use crate::runtime::data_structures::heap::lemma_extends_transitive;
use crate::runtime::data_structures::heap::lemma_structure_extends;
use crate::runtime::data_structures::heap::lemma_structure_floor;
use crate::runtime::data_structures::heap::lemma_structure_independent;
use crate::runtime::data_structures::heap::lemma_structure_view;
use crate::runtime::data_structures::heap::structure;
use crate::runtime::data_structures::heap::structure_above;
use crate::runtime::data_structures::value_vec::values_view;
use crate::runtime::data_structures::heap::HeapCell;
use crate::runtime::data_structures::heap::MAX_NESTING;
use crate::runtime::data_structures::value::clone_value;
use crate::runtime::data_structures::value::count_value;
use crate::runtime::data_structures::value::Value;
use crate::runtime::data_structures::value::ValueView;
use crate::runtime::data_structures::value_vec::ValueVec;
use crate::runtime::error::script_error_str;
use crate::runtime::error::Result;
use crate::runtime::host::Host;
use crate::runtime::interpreter::sorth_interpreter::SorthInterpreter;

verus! {

/// The values of the array with the given handle.
pub open spec fn array_values(interpreter: &SorthInterpreter, handle: usize) -> Seq<Value> {
    interpreter.heap_view()[handle as int]->Vec_0@
}

/// Every container of the heap but the one with the given handle is as in
/// `before`.
pub open spec fn others_unchanged(
    interpreter: &SorthInterpreter,
    before: &SorthInterpreter,
    handle: usize,
) -> bool {
    &&& interpreter.heap_view().len() == before.heap_view().len()
    &&& forall|i: int|
        0 <= i < before.heap_view().len() && i != handle ==> interpreter.heap_view()[i]
            == before.heap_view()[i]
}

/// The length of the array with the given handle.
fn array_len(interpreter: &SorthInterpreter, handle: usize) -> (r: usize)
    requires
        handle < interpreter.heap_view().len(),
        interpreter.heap_view()[handle as int] is Vec,
    ensures
        r == array_values(interpreter, handle).len(),
{
    match interpreter.heap().vec(handle) {
        Some(array) => array.len(),
        None => 0,
    }
}

/// `[].new`: takes a size off the stack and pushes a new array of that many
/// values, which are all `Nil`.
pub fn word_array_new<H: Host>(interpreter: &mut SorthInterpreter, host: &H) -> (r: Result<()>)
    requires
        old(interpreter).wf(),
    ensures
        final(interpreter).stable(old(interpreter)),
        r is Ok ==> final(interpreter).stack_view().len() == old(interpreter).stack_view().len()
            && final(interpreter).heap_view().len() == old(interpreter).heap_view().len() + 1
            && final(interpreter).heap_view().drop_last() == old(interpreter).heap_view() && final(interpreter).stack_view().last()@ == ValueView::Vec(old(interpreter).heap_view().len() as usize)
            && final(interpreter).heap_view().last() is Vec,
        r is Err ==> final(interpreter).heap_view() == old(interpreter).heap_view(),
        r is Err ==> final(interpreter).stack_view() == old(interpreter).popped(),
        r is Ok ==> final(interpreter).stack_view().drop_last() == old(interpreter).stack_view().drop_last() && forall|i: int|
            0 <= i < final(interpreter).heap_view().last()->Vec_0@.len() ==> (
            #[trigger] final(interpreter).heap_view().last()->Vec_0@[i]) == Value::Nil,
        old(interpreter).stack_view().len() == 0 ==> r is Err,
        old(interpreter).stack_view().len() > 0 ==> match popped_int(
            old(interpreter).stack_view().last()@,
        ) {
            Some(size) => if 0 <= size <= usize::MAX {
                r is Ok && final(interpreter).heap_view().last()->Vec_0@.len() == size
            } else {
                r is Err
            },
            None => !is_number_view(old(interpreter).stack_view().last()@) ==> r is Err,
        },
{
    let ghost stack = interpreter.stack_view();
    let size = match interpreter.pop_as_usize(host) {
        Ok(size) => size,
        Err(e) => {
            return Err(e);
        },
    };
    let ghost before = interpreter.heap_view();
    let handle = interpreter.heap.allocate(HeapCell::Vec(ValueVec::new(size)));
    interpreter.push(Value::Vec(handle));
    assert(interpreter.heap_view().drop_last() =~= before);
    assert(interpreter.stack_view().drop_last() =~= stack.drop_last());
    Ok(())
}

/// `[].size@`: takes an array off the stack and pushes its length.
pub fn word_array_size(interpreter: &mut SorthInterpreter) -> (r: Result<()>)
    requires
        old(interpreter).wf(),
    ensures
        final(interpreter).stable(old(interpreter)),
        final(interpreter).same_but_stack(old(interpreter)),
        r is Ok <==> old(interpreter).stack_view().len() > 0 && is_array(
            old(interpreter).heap_view(),
            old(interpreter).stack_view().last()@,
        ),
        r is Ok ==> final(interpreter).stack_view().len() == old(interpreter).stack_view().len(),
        r is Ok ==> final(interpreter).stack_view() == old(interpreter).stack_view().drop_last().push(
            final(interpreter).stack_view().last(),
        ) && final(interpreter).stack_view().last()@ == index_value(
            old(interpreter).heap_view()[old(interpreter).stack_view().last()@->Vec_0 as int]->Vec_0@.len() as usize,
        ),
        r is Err ==> final(interpreter).stack_view() == old(interpreter).popped(),
{
    let handle = match interpreter.pop_as_array() {
        Ok(handle) => handle,
        Err(e) => {
            return Err(e);
        },
    };
    let length = array_len(interpreter, handle);
    interpreter.push(count_value(length));
    Ok(())
}

/// `[]!`: takes an array, an index and a value off the stack and puts the
/// value into the array at the index. Fails where the index is not below the
/// length of the array, and leaves the array as it was.
pub fn word_array_write_index<H: Host>(interpreter: &mut SorthInterpreter, host: &H) -> (r: Result<
    (),
>)
    requires
        old(interpreter).wf(),
    ensures
        final(interpreter).stable(old(interpreter)),
        r is Err ==> final(interpreter).heap_view() == old(interpreter).heap_view(),
        r is Ok ==> final(interpreter).stack_view().len() + 3 == old(interpreter).stack_view().len(),
        old(interpreter).stack_view().len() >= 3 ==> {
            let before = old(interpreter).stack_view();
            let n = before.len() as int;
            match (before[n - 1]@, popped_int(before[n - 2]@)) {
                (ValueView::Vec(handle), Some(index)) => is_array(
                    old(interpreter).heap_view(),
                    before[n - 1]@,
                ) ==> if 0 <= index < array_values(old(interpreter), handle).len() {
                    &&& r is Ok
                    &&& others_unchanged(final(interpreter), old(interpreter), handle)
                    &&& final(interpreter).heap_view()[handle as int] is Vec
                    &&& array_values(final(interpreter), handle) == array_values(
                        old(interpreter),
                        handle,
                    ).update(index as int, before[n - 3])
                } else {
                    r is Err
                },
                _ => true,
            }
        },
{
    let handle = match interpreter.pop_as_array() {
        Ok(handle) => handle,
        Err(e) => {
            return Err(e);
        },
    };
    let length = array_len(interpreter, handle);
    let index = match interpreter.pop_as_usize(host) {
        Ok(index) => index,
        Err(e) => {
            return Err(e);
        },
    };
    let value = match interpreter.pop() {
        Ok(value) => value,
        Err(e) => {
            return Err(e);
        },
    };
    if index >= array_len(interpreter, handle) {
        return script_error_str(interpreter, "Index is out of bounds for array.");
    }
    match interpreter.heap.take(handle) {
        HeapCell::Vec(mut array) => {
            array.set(index, value);
            interpreter.heap.put(handle, HeapCell::Vec(array));
        },
        other => {
            interpreter.heap.put(handle, other);
        },
    }
    Ok(())
}

/// `[]@`: takes an array and an index off the stack and pushes a copy of the
/// value of the array at the index. Fails where the index is not below the
/// length of the array, and then pushes nothing: the two values are taken
/// off, and the array is as it was.
pub fn word_array_read_index<H: Host>(interpreter: &mut SorthInterpreter, host: &H) -> (r: Result<
    (),
>)
    requires
        old(interpreter).wf(),
    ensures
        final(interpreter).stable(old(interpreter)),
        final(interpreter).same_but_stack(old(interpreter)),
        r is Ok ==> final(interpreter).stack_view().len() + 1 == old(interpreter).stack_view().len(),
        old(interpreter).stack_view().len() < 2 ==> r is Err,
        r is Err ==> final(interpreter).stack_view().len() <= old(interpreter).stack_view().len()
            && final(interpreter).stack_view() == old(interpreter).stack_view().take(
            final(interpreter).stack_view().len() as int,
        ),
        old(interpreter).stack_view().len() >= 2 ==> {
            let before = old(interpreter).stack_view();
            let n = before.len() as int;
            match (before[n - 1]@, popped_int(before[n - 2]@)) {
                (ValueView::Vec(handle), Some(index)) => is_array(
                    old(interpreter).heap_view(),
                    before[n - 1]@,
                ) ==> if 0 <= index < array_values(old(interpreter), handle).len() {
                    &&& r is Ok
                    &&& final(interpreter).stack_view().take(n - 2) == before.take(n - 2)
                    &&& final(interpreter).stack_view().last()@ == array_values(
                        old(interpreter),
                        handle,
                    )[index as int]@
                } else {
                    &&& r is Err
                    &&& final(interpreter).stack_view() == before.take(n - 2)
                    &&& 0 <= index <= usize::MAX ==> r->Err_0@.error
                        == "Index is out of bounds for array."@
                },
                _ => true,
            }
        },
{
    let ghost before = interpreter.stack_view();
    proof {
        let n = before.len() as int;
        assert(before.take(n) =~= before);
        if n >= 1 {
            assert(before.drop_last() =~= before.take(n - 1));
        }
        if n >= 2 {
            assert(before.drop_last().drop_last() =~= before.take(n - 2));
        }
    }
    let handle = match interpreter.pop_as_array() {
        Ok(handle) => handle,
        Err(e) => {
            return Err(e);
        },
    };
    let length = array_len(interpreter, handle);
    let index = match interpreter.pop_as_usize(host) {
        Ok(index) => index,
        Err(e) => {
            return Err(e);
        },
    };
    let value = match interpreter.heap().vec(handle) {
        Some(array) => {
            if index < array.len() {
                Some(clone_value(array.get(index)))
            } else {
                None
            }
        },
        None => None,
    };
    match value {
        Some(value) => {
            interpreter.push(value);
            proof {
                let n = before.len() as int;
                assert(before.drop_last().drop_last() =~= before.take(n - 2));
                assert(interpreter.stack_view().take(n - 2) =~= before.take(n - 2));
            }
            Ok(())
        },
        None => script_error_str(interpreter, "Index is out of bounds for array."),
    }
}

/// `[].size!`: takes an array and a size off the stack and makes the array
/// that long, filling it up with `Nil` or cutting it off.
pub fn word_array_resize<H: Host>(interpreter: &mut SorthInterpreter, host: &H) -> (r: Result<()>)
    requires
        old(interpreter).wf(),
    ensures
        final(interpreter).stable(old(interpreter)),
        r is Err ==> final(interpreter).heap_view() == old(interpreter).heap_view(),
        r is Ok ==> final(interpreter).stack_view().len() + 2 == old(interpreter).stack_view().len(),
        old(interpreter).stack_view().len() < 2 ==> r is Err,
        old(interpreter).stack_view().len() >= 2 ==> {
            let before = old(interpreter).stack_view();
            let n = before.len() as int;
            if !is_array(old(interpreter).heap_view(), before[n - 1]@) {
                r is Err
            } else {
                let handle = before[n - 1]@->Vec_0;
                match popped_int(before[n - 2]@) {
                    Some(size) => if 0 <= size <= usize::MAX {
                        &&& r is Ok
                        &&& final(interpreter).stack_view() == before.take(n - 2)
                        &&& others_unchanged(final(interpreter), old(interpreter), handle)
                        &&& final(interpreter).heap_view()[handle as int] is Vec
                        &&& array_values(final(interpreter), handle).len() == size
                        &&& forall|i: int|
                            0 <= i < size ==> (#[trigger] array_values(
                                final(interpreter),
                                handle,
                            )[i]) == if i < array_values(old(interpreter), handle).len() {
                                array_values(old(interpreter), handle)[i]
                            } else {
                                Value::Nil
                            }
                    } else {
                        r is Err
                    },
                    None => !is_number_view(before[n - 2]@) ==> r is Err,
                }
            }
        },
{
    let ghost stack = interpreter.stack_view();
    let handle = match interpreter.pop_as_array() {
        Ok(handle) => handle,
        Err(e) => {
            return Err(e);
        },
    };
    proof {
        if stack.len() >= 2 {
            assert(stack.drop_last().last() == stack[stack.len() - 2]);
            assert(stack.drop_last().drop_last() =~= stack.take(stack.len() - 2));
        }
    }
    let new_size = match interpreter.pop_as_usize(host) {
        Ok(size) => size,
        Err(e) => {
            return Err(e);
        },
    };
    match interpreter.heap.take(handle) {
        HeapCell::Vec(mut array) => {
            array.resize(new_size);
            interpreter.heap.put(handle, HeapCell::Vec(array));
        },
        other => {
            interpreter.heap.put(handle, other);
        },
    }
    Ok(())
}

/// `[].insert`: takes an array, an index and a value off the stack and puts
/// the value into the array before the value at the index, or at the end.
/// Fails where the index is above the length of the array.
pub fn word_array_insert<H: Host>(interpreter: &mut SorthInterpreter, host: &H) -> (r: Result<()>)
    requires
        old(interpreter).wf(),
    ensures
        final(interpreter).stable(old(interpreter)),
        r is Err ==> final(interpreter).heap_view() == old(interpreter).heap_view(),
        r is Ok ==> final(interpreter).stack_view().len() + 3 == old(interpreter).stack_view().len(),
        old(interpreter).stack_view().len() >= 3 ==> {
            let before = old(interpreter).stack_view();
            let n = before.len() as int;
            match (before[n - 1]@, popped_int(before[n - 2]@)) {
                (ValueView::Vec(handle), Some(index)) => is_array(
                    old(interpreter).heap_view(),
                    before[n - 1]@,
                ) ==> if 0 <= index <= array_values(old(interpreter), handle).len() {
                    &&& r is Ok
                    &&& others_unchanged(final(interpreter), old(interpreter), handle)
                    &&& final(interpreter).heap_view()[handle as int] is Vec
                    &&& array_values(final(interpreter), handle) == array_values(
                        old(interpreter),
                        handle,
                    ).insert(index as int, before[n - 3])
                } else {
                    r is Err
                },
                _ => true,
            }
        },
{
    let handle = match interpreter.pop_as_array() {
        Ok(handle) => handle,
        Err(e) => {
            return Err(e);
        },
    };
    let length = array_len(interpreter, handle);
    let index = match interpreter.pop_as_usize(host) {
        Ok(index) => index,
        Err(e) => {
            return Err(e);
        },
    };
    let value = match interpreter.pop() {
        Ok(value) => value,
        Err(e) => {
            return Err(e);
        },
    };
    if index > array_len(interpreter, handle) {
        return script_error_str(interpreter, "Index is out of bounds for array.");
    }
    match interpreter.heap.take(handle) {
        HeapCell::Vec(mut array) => {
            array.insert(index, value);
            interpreter.heap.put(handle, HeapCell::Vec(array));
        },
        other => {
            interpreter.heap.put(handle, other);
        },
    }
    Ok(())
}

/// `[].delete`: takes an array and an index off the stack and takes the
/// value at the index out of the array. Fails where the index is not below
/// the length of the array.
pub fn word_array_delete<H: Host>(interpreter: &mut SorthInterpreter, host: &H) -> (r: Result<()>)
    requires
        old(interpreter).wf(),
    ensures
        final(interpreter).stable(old(interpreter)),
        r is Err ==> final(interpreter).heap_view() == old(interpreter).heap_view(),
        r is Ok ==> final(interpreter).stack_view().len() + 2 == old(interpreter).stack_view().len(),
        old(interpreter).stack_view().len() >= 2 ==> {
            let before = old(interpreter).stack_view();
            let n = before.len() as int;
            match (before[n - 1]@, popped_int(before[n - 2]@)) {
                (ValueView::Vec(handle), Some(index)) => is_array(
                    old(interpreter).heap_view(),
                    before[n - 1]@,
                ) ==> if 0 <= index < array_values(old(interpreter), handle).len() {
                    &&& r is Ok
                    &&& others_unchanged(final(interpreter), old(interpreter), handle)
                    &&& final(interpreter).heap_view()[handle as int] is Vec
                    &&& array_values(final(interpreter), handle) == array_values(
                        old(interpreter),
                        handle,
                    ).remove(index as int)
                } else {
                    r is Err
                },
                _ => true,
            }
        },
{
    let handle = match interpreter.pop_as_array() {
        Ok(handle) => handle,
        Err(e) => {
            return Err(e);
        },
    };
    let length = array_len(interpreter, handle);
    let index = match interpreter.pop_as_usize(host) {
        Ok(index) => index,
        Err(e) => {
            return Err(e);
        },
    };
    if index >= array_len(interpreter, handle) {
        return script_error_str(interpreter, "Index is out of bounds for array.");
    }
    match interpreter.heap.take(handle) {
        HeapCell::Vec(mut array) => {
            array.remove(index);
            interpreter.heap.put(handle, HeapCell::Vec(array));
        },
        other => {
            interpreter.heap.put(handle, other);
        },
    }
    Ok(())
}

/// `[].+`: takes a source array and a destination array off the stack, puts
/// deep clones of the values of the source at the end of the destination, and
/// pushes the destination.
#[verifier::loop_isolation(false)]
pub fn word_array_plus(interpreter: &mut SorthInterpreter) -> (r: Result<()>)
    requires
        old(interpreter).wf(),
    ensures
        final(interpreter).stable(old(interpreter)),
        r is Ok ==> final(interpreter).stack_view().len() + 1 == old(interpreter).stack_view().len(),
        final(interpreter).heap_view().len() >= old(interpreter).heap_view().len(),
        old(interpreter).stack_view().len() < 2 ==> r is Err,
        old(interpreter).stack_view().len() >= 2 ==> {
            let before = old(interpreter).stack_view();
            let heap = old(interpreter).heap_view();
            let n = before.len() as int;
            if !is_array(heap, before[n - 1]@) || !is_array(heap, before[n - 2]@) {
                r is Err
            } else {
                let source = before[n - 1]@->Vec_0;
                let dest = before[n - 2]@->Vec_0;
                let items = array_values(old(interpreter), source);
                let had = array_values(old(interpreter), dest);
                (forall|i: int|
                    0 <= i < items.len() ==> structure(heap, #[trigger] items[i], MAX_NESTING as nat)
                        is Some) ==> {
                    &&& r is Ok
                    &&& final(interpreter).stack_view().drop_last() == before.take(n - 2)
                    &&& final(interpreter).stack_view().last()@ == ValueView::Vec(dest)
                    &&& forall|i: int|
                        0 <= i < heap.len() && i != dest ==> (#[trigger] final(interpreter).heap_view()[i]) == heap[i]
                    &&& final(interpreter).heap_view()[dest as int] is Vec
                    &&& array_values(final(interpreter), dest).len() == had.len() + items.len()
                    &&& forall|i: int|
                        0 <= i < had.len() ==> (#[trigger] array_values(final(interpreter), dest)[i])
                            == had[i]
                    &&& forall|i: int|
                        0 <= i < items.len() ==> structure(
                            final(interpreter).heap_view(),
                            #[trigger] array_values(final(interpreter), dest)[had.len() + i],
                            MAX_NESTING as nat,
                        ) == structure(heap, items[i], MAX_NESTING as nat)
                }
            }
        },
{
    let ghost stack = interpreter.stack_view();
    let ghost base = interpreter.heap_view();
    let source = match interpreter.pop_as_array() {
        Ok(handle) => handle,
        Err(e) => {
            return Err(e);
        },
    };
    proof {
        if stack.len() >= 2 {
            assert(stack.drop_last().last() == stack[stack.len() - 2]);
            assert(stack.drop_last().drop_last() =~= stack.take(stack.len() - 2));
        }
    }
    let dest = match interpreter.pop_as_array() {
        Ok(handle) => handle,
        Err(e) => {
            return Err(e);
        },
    };
    let items = match interpreter.heap().vec(source) {
        Some(array) => array.to_vec(),
        None => Vec::new(),
    };
    let ghost sources = base[source as int]->Vec_0@;
    let ghost cloneable = forall|i: int|
        0 <= i < sources.len() ==> structure(base, #[trigger] sources[i], MAX_NESTING as nat)
            is Some;
    proof {
        assert(values_view(items@).len() == items@.len());
        assert(values_view(sources).len() == sources.len());
        assert forall|i: int| 0 <= i < items@.len() implies items@[i]@ == sources[i]@ by {
            assert(values_view(items@)[i] == items@[i]@);
            assert(values_view(sources)[i] == sources[i]@);
        }
        lemma_extends_self(base);
    }
    let mut copies: Vec<Value> = Vec::new();
    let mut i: usize = 0;
    let ghost middle = *interpreter;
    while i < items.len()
        invariant
            i <= items@.len(),
            copies@.len() == i,
            interpreter.wf(),
            interpreter.same_but_heap(&middle),
            middle.same_but_stack(old(interpreter)),
            interpreter.stack_view().len() + 2 == old(interpreter).stack_view().len(),
            interpreter.heap_view().len() >= old(interpreter).heap_view().len(),
            dest < interpreter.heap_view().len(),
            extends(interpreter.heap_view(), base),
            cloneable ==> forall|k: int|
                0 <= k < i ==> structure_above(
                    interpreter.heap_view(),
                    #[trigger] copies@[k],
                    MAX_NESTING as nat,
                    base.len(),
                ) == structure(base, sources[k], MAX_NESTING as nat),
        decreases items@.len() - i,
    {
        let ghost before = interpreter.heap_view();
        let ghost made = copies@;
        proof {
            if cloneable {
                assert(structure(base, sources[i as int], MAX_NESTING as nat) is Some);
                lemma_structure_view(base, items@[i as int], sources[i as int], MAX_NESTING as nat, 0);
                lemma_structure_extends(base, before, items@[i as int], MAX_NESTING as nat, 0);
            }
        }
        match interpreter.heap.deep_clone(&items[i], MAX_NESTING) {
            Some(copy) => {
                copies.push(copy);
                proof {
                    lemma_extends_transitive(interpreter.heap_view(), before, base);
                    if cloneable {
                        lemma_structure_floor(
                            interpreter.heap_view(),
                            copy,
                            MAX_NESTING as nat,
                            before.len(),
                            base.len(),
                        );
                        assert forall|k: int| 0 <= k < i + 1 implies structure_above(
                            interpreter.heap_view(),
                            #[trigger] copies@[k],
                            MAX_NESTING as nat,
                            base.len(),
                        ) == structure(base, sources[k], MAX_NESTING as nat) by {
                            if k < i {
                                assert(copies@[k] == made[k]);
                                assert(structure(base, sources[k], MAX_NESTING as nat) is Some);
                                lemma_structure_extends(
                                    before,
                                    interpreter.heap_view(),
                                    made[k],
                                    MAX_NESTING as nat,
                                    base.len(),
                                );
                            }
                        }
                    }
                }
            },
            None => {
                return script_error_str(interpreter, "Containers are nested too deep to clone.");
            },
        }
        i += 1;
    }
    let ghost cloned = interpreter.heap_view();
    let ghost all = copies@;
    let ghost had = cloned[dest as int]->Vec_0@;
    proof {
        assert(cloned[dest as int] == cloned.take(base.len() as int)[dest as int]);
    }
    match interpreter.heap.take(dest) {
        HeapCell::Vec(mut array) => {
            while copies.len() > 0
                invariant
                    array@ + copies@ == had + all,
                decreases copies@.len(),
            {
                let ghost left = array@;
                let ghost rest = copies@;
                let value = copies.remove(0);
                array.push_back(value);
                assert(array@ + copies@ =~= left + rest);
            }
            assert(array@ =~= had + all);
            interpreter.heap.put(dest, HeapCell::Vec(array));
        },
        other => {
            interpreter.heap.put(dest, other);
        },
    }
    interpreter.push(Value::Vec(dest));
    proof {
        let heap = interpreter.heap_view();
        assert(interpreter.stack_view().drop_last() =~= stack.take(stack.len() - 2));
        assert forall|k: int| 0 <= k < base.len() && k != dest implies (#[trigger] heap[k])
            == base[k] by {
            assert(cloned[k] == cloned.take(base.len() as int)[k]);
        }
        if cloneable {
            assert forall|k: int| 0 <= k < sources.len() implies structure(
                heap,
                #[trigger] array_values(interpreter, dest)[had.len() + k],
                MAX_NESTING as nat,
            ) == structure(base, sources[k], MAX_NESTING as nat) by {
                assert(array_values(interpreter, dest)[had.len() + k] == all[k]);
                assert(structure(base, sources[k], MAX_NESTING as nat) is Some);
                lemma_structure_independent(cloned, heap, all[k], MAX_NESTING as nat, base.len());
                lemma_structure_floor(heap, all[k], MAX_NESTING as nat, base.len(), 0);
            }
        }
    }
    Ok(())
}

/// `[].=`: takes two arrays off the stack and pushes whether they hold equal
/// values in the same order.
pub fn word_array_compare<H: Host>(interpreter: &mut SorthInterpreter, host: &H) -> (r: Result<()>)
    requires
        old(interpreter).wf(),
    ensures
        final(interpreter).stable(old(interpreter)),
        final(interpreter).same_but_stack(old(interpreter)),
        r is Ok ==> final(interpreter).stack_view().len() + 1 == old(interpreter).stack_view().len()
            && final(interpreter).stack_view().last()@ is Bool,
        r is Ok <==> old(interpreter).stack_view().len() >= 2 && is_array(
            old(interpreter).heap_view(),
            old(interpreter).stack_view().last()@,
        ) && is_array(
            old(interpreter).heap_view(),
            old(interpreter).stack_view()[old(interpreter).stack_view().len() - 2]@,
        ),
        r is Ok ==> final(interpreter).stack_view().drop_last() == old(interpreter).stack_view().take(
            old(interpreter).stack_view().len() - 2,
        ),
        r is Ok && old(interpreter).stack_view().last()@ == old(interpreter).stack_view()[old(interpreter).stack_view().len() - 2]@ ==> final(interpreter).stack_view().last()@ == ValueView::Bool(
            true,
        ),
{
    let ghost stack = interpreter.stack_view();
    let b = match interpreter.pop_as_array() {
        Ok(handle) => handle,
        Err(e) => {
            return Err(e);
        },
    };
    proof {
        if stack.len() >= 2 {
            assert(stack.drop_last().last() == stack[stack.len() - 2]);
        }
    }
    let a = match interpreter.pop_as_array() {
        Ok(handle) => handle,
        Err(e) => {
            return Err(e);
        },
    };
    let result = values_equal(host, interpreter.heap(), &Value::Vec(a), &Value::Vec(b), MAX_NESTING);
    interpreter.push(Value::Bool(result));
    assert(interpreter.stack_view().drop_last() =~= stack.take(stack.len() - 2));
    Ok(())
}

/// `[].push_front!` and `[].push_back!`: takes an array and a value off the
/// stack and puts the value before the first or after the last value of the
/// array.
pub fn word_array_push(interpreter: &mut SorthInterpreter, front: bool) -> (r: Result<()>)
    requires
        old(interpreter).wf(),
    ensures
        final(interpreter).stable(old(interpreter)),
        r is Err ==> final(interpreter).heap_view() == old(interpreter).heap_view(),
        r is Ok ==> final(interpreter).stack_view().len() + 2 == old(interpreter).stack_view().len(),
        old(interpreter).stack_view().len() >= 2 ==> {
            let before = old(interpreter).stack_view();
            let n = before.len() as int;
            match before[n - 1]@ {
                ValueView::Vec(handle) => is_array(old(interpreter).heap_view(), before[n - 1]@)
                    ==> {
                    &&& r is Ok
                    &&& others_unchanged(final(interpreter), old(interpreter), handle)
                    &&& final(interpreter).heap_view()[handle as int] is Vec
                    &&& array_values(final(interpreter), handle) == if front {
                        seq![before[n - 2]] + array_values(old(interpreter), handle)
                    } else {
                        array_values(old(interpreter), handle).push(before[n - 2])
                    }
                },
                _ => r is Err,
            }
        },
{
    let handle = match interpreter.pop_as_array() {
        Ok(handle) => handle,
        Err(e) => {
            return Err(e);
        },
    };
    let value = match interpreter.pop() {
        Ok(value) => value,
        Err(e) => {
            return Err(e);
        },
    };
    match interpreter.heap.take(handle) {
        HeapCell::Vec(mut array) => {
            if front {
                array.push_front(value);
            } else {
                array.push_back(value);
            }
            interpreter.heap.put(handle, HeapCell::Vec(array));
        },
        other => {
            interpreter.heap.put(handle, other);
        },
    }
    Ok(())
}

/// `[].pop_front!` and `[].pop_back!`: takes an array off the stack, takes
/// the first or the last value out of the array, and pushes it. Fails on an
/// empty array.
pub fn word_array_pop(interpreter: &mut SorthInterpreter, front: bool) -> (r: Result<()>)
    requires
        old(interpreter).wf(),
    ensures
        final(interpreter).stable(old(interpreter)),
        r is Err ==> final(interpreter).heap_view() == old(interpreter).heap_view(),
        r is Ok ==> final(interpreter).stack_view().len() == old(interpreter).stack_view().len(),
        old(interpreter).stack_view().len() >= 1 ==> {
            let before = old(interpreter).stack_view();
            match before.last()@ {
                ValueView::Vec(handle) => is_array(old(interpreter).heap_view(), before.last()@)
                    ==> if array_values(old(interpreter), handle).len() > 0 {
                    &&& r is Ok
                    &&& others_unchanged(final(interpreter), old(interpreter), handle)
                    &&& final(interpreter).heap_view()[handle as int] is Vec
                    &&& final(interpreter).stack_view().drop_last() == before.drop_last()
                    &&& if front {
                        final(interpreter).stack_view().last() == array_values(
                            old(interpreter),
                            handle,
                        )[0] && array_values(final(interpreter), handle) == array_values(
                            old(interpreter),
                            handle,
                        ).skip(1)
                    } else {
                        final(interpreter).stack_view().last() == array_values(
                            old(interpreter),
                            handle,
                        ).last() && array_values(final(interpreter), handle) == array_values(
                            old(interpreter),
                            handle,
                        ).drop_last()
                    }
                } else {
                    &&& r is Err
                    &&& r->Err_0@.error == if front {
                        "[].pop_front from an empty array."@
                    } else {
                        "[].pop_back from an empty array."@
                    }
                    &&& final(interpreter).stack_view() == before.drop_last()
                },
                _ => r is Err,
            }
        },
{
    let handle = match interpreter.pop_as_array() {
        Ok(handle) => handle,
        Err(e) => {
            return Err(e);
        },
    };
    if array_len(interpreter, handle) == 0 {
        return if front {
            script_error_str(interpreter, "[].pop_front from an empty array.")
        } else {
            script_error_str(interpreter, "[].pop_back from an empty array.")
        };
    }
    let ghost rest = interpreter.stack_view();
    let popped = match interpreter.heap.take(handle) {
        HeapCell::Vec(mut array) => {
            let value = if front {
                array.pop_front()
            } else {
                array.pop_back()
            };
            interpreter.heap.put(handle, HeapCell::Vec(array));
            value
        },
        other => {
            interpreter.heap.put(handle, other);
            None
        },
    };
    match popped {
        Some(value) => {
            interpreter.push(value);
            assert(interpreter.stack_view().drop_last() =~= rest);
            Ok(())
        },
        None => if front {
            script_error_str(interpreter, "[].pop_front from an empty array.")
        } else {
            script_error_str(interpreter, "[].pop_back from an empty array.")
        },
    }
}

} // verus!
