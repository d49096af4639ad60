//! The words that work on hash tables.

use vstd::prelude::*;
use crate::runtime::data_structures::value::popped_int;
use crate::runtime::data_structures::value::is_number_view;
use crate::runtime::data_structures::value::index_value;
use vstd::string::StringExecFns;
use crate::runtime::built_ins::base_words::array_words::others_unchanged;
use crate::runtime::built_ins::base_words::math_logic_and_bit_words::values_equal;
use crate::runtime::data_structures::heap::cell_wf;
use crate::runtime::data_structures::heap::extends;
use crate::runtime::data_structures::heap::is_hash_map;
use crate::runtime::data_structures::heap::is_plain;
use crate::runtime::data_structures::heap::lemma_extends_self;
use crate::runtime::data_structures::heap::lemma_extends_transitive;
use crate::runtime::data_structures::heap::lemma_structure_extends;
use crate::runtime::data_structures::heap::lemma_structure_floor;
use crate::runtime::data_structures::heap::lemma_structure_independent;
use crate::runtime::data_structures::heap::lemma_structure_view;
use crate::runtime::data_structures::heap::structure;
use crate::runtime::data_structures::heap::structure_above;
use crate::runtime::data_structures::heap::HeapCell;
use crate::runtime::data_structures::heap::MAX_NESTING;
use crate::runtime::data_structures::value::clone_value;
use crate::runtime::data_structures::value::count_value;
use crate::runtime::data_structures::value::Value;
use crate::runtime::data_structures::value::ValueView;
use crate::runtime::data_structures::value_hash::entry_value;
use crate::runtime::data_structures::value_hash::is_key;
use crate::runtime::data_structures::value_hash::ValueHash;
use crate::runtime::data_structures::display::plain_text;
use crate::runtime::data_structures::display::value_text;
use crate::runtime::error::script_error;
use crate::runtime::error::script_error_str;
use crate::text::concat3;
use crate::runtime::error::Result;
use crate::runtime::host::Host;
use crate::runtime::interpreter::sorth_interpreter::SorthInterpreter;

verus! {

/// The entries of the hash table with the given handle.
pub open spec fn table_entries(interpreter: &SorthInterpreter, handle: usize) -> Seq<
    (Value, Value),
> {
    interpreter.heap_view()[handle as int]->Hash_0@
}

/// `{}.new`: pushes a new, empty hash table.
pub fn word_hash_table_new(interpreter: &mut SorthInterpreter) -> (r: Result<()>)
    requires
        old(interpreter).wf(),
    ensures
        final(interpreter).stable(old(interpreter)),
        r is Ok,
        final(interpreter).stack_view().len() == old(interpreter).stack_view().len() + 1,
        final(interpreter).stack_view().drop_last() == old(interpreter).stack_view(),
        final(interpreter).heap_view().drop_last() == old(interpreter).heap_view(),
        final(interpreter).heap_view().len() == old(interpreter).heap_view().len() + 1,
        final(interpreter).stack_view().last()@ == ValueView::HashMap(
            old(interpreter).heap_view().len() as usize,
        ),
        final(interpreter).heap_view().last() is Hash,
        final(interpreter).heap_view().last()->Hash_0@.len() == 0,
{
    let ghost before = interpreter.heap_view();
    let ghost stack = interpreter.stack_view();
    let handle = interpreter.heap.allocate(HeapCell::Hash(ValueHash::new()));
    interpreter.push(Value::HashMap(handle));
    assert(interpreter.heap_view().drop_last() =~= before);
    assert(interpreter.stack_view().drop_last() =~= stack);
    Ok(())
}

/// `{}!`: takes a table, a key and a value off the stack and puts the value
/// into the table under the key.
pub fn word_hash_table_insert(interpreter: &mut SorthInterpreter) -> (r: Result<()>)
    requires
        old(interpreter).wf(),
    ensures
        final(interpreter).stable(old(interpreter)),
        r is Err ==> final(interpreter).heap_view() == old(interpreter).heap_view(),
        r is Ok ==> final(interpreter).stack_view().len() + 3 == old(interpreter).stack_view().len(),
        old(interpreter).stack_view().len() >= 3 ==> {
            let before = old(interpreter).stack_view();
            let n = before.len() as int;
            match before[n - 1]@ {
                ValueView::HashMap(handle) => is_hash_map(
                    old(interpreter).heap_view(),
                    before[n - 1]@,
                ) ==> {
                    &&& r is Ok
                    &&& others_unchanged(final(interpreter), old(interpreter), handle)
                    &&& final(interpreter).heap_view()[handle as int] is Hash
                    &&& is_key(before[n - 2]@) ==> entry_value(
                        table_entries(final(interpreter), handle),
                        before[n - 2]@,
                    ) == Some(before[n - 3])
                    &&& forall|other: ValueView|
                        other != before[n - 2]@ ==> entry_value(
                            table_entries(final(interpreter), handle),
                            other,
                        ) == entry_value(table_entries(old(interpreter), handle), other)
                },
                _ => r is Err,
            }
        },
{
    let handle = match interpreter.pop_as_hash_map() {
        Ok(handle) => handle,
        Err(e) => {
            return Err(e);
        },
    };
    let key = match interpreter.pop() {
        Ok(value) => value,
        Err(e) => {
            return Err(e);
        },
    };
    let value = match interpreter.pop() {
        Ok(value) => value,
        Err(e) => {
            return Err(e);
        },
    };
    match interpreter.heap.take(handle) {
        HeapCell::Hash(mut table) => {
            table.insert(key, value);
            interpreter.heap.put(handle, HeapCell::Hash(table));
        },
        other => {
            interpreter.heap.put(handle, other);
        },
    }
    Ok(())
}

/// `{}@` and `{}?`: takes a table and a key off the stack. `{}@` pushes a
/// copy of the value under the key, and fails where the table holds none:
/// the failure names the key, and nothing is pushed. `{}?` pushes whether the
/// table holds one.
pub fn word_hash_table_find<H: Host>(
    interpreter: &mut SorthInterpreter,
    host: &H,
    exists_only: bool,
) -> (r: Result<()>)
    requires
        old(interpreter).wf(),
    ensures
        final(interpreter).stable(old(interpreter)),
        final(interpreter).same_but_stack(old(interpreter)),
        r is Ok ==> final(interpreter).stack_view().len() + 1 == old(interpreter).stack_view().len(),
        old(interpreter).stack_view().len() < 2 ==> r is Err,
        r is Err ==> final(interpreter).stack_view().len() <= old(interpreter).stack_view().len()
            && final(interpreter).stack_view() == old(interpreter).stack_view().take(
            final(interpreter).stack_view().len() as int,
        ),
        old(interpreter).stack_view().len() >= 2 ==> {
            let before = old(interpreter).stack_view();
            let n = before.len() as int;
            match before[n - 1]@ {
                ValueView::HashMap(handle) => is_hash_map(
                    old(interpreter).heap_view(),
                    before[n - 1]@,
                ) ==> match entry_value(table_entries(old(interpreter), handle), before[n - 2]@) {
                    Some(value) => r is Ok && final(interpreter).stack_view().take(n - 2)
                        == before.take(n - 2) && final(interpreter).stack_view().last()@
                        == if exists_only {
                        ValueView::Bool(true)
                    } else {
                        value@
                    },
                    None => if exists_only {
                        r is Ok && final(interpreter).stack_view() == before.take(n - 2).push(
                            Value::Bool(false),
                        )
                    } else {
                        &&& r is Err
                        &&& final(interpreter).stack_view() == before.take(n - 2)
                        &&& match plain_text(before[n - 2]@) {
                            Some(text) => r->Err_0@.error == "Key "@ + text
                                + " not found in hash table."@,
                            None => true,
                        }
                    },
                },
                _ => r is Err,
            }
        },
{
    let ghost before = interpreter.stack_view();
    proof {
        let n = before.len() as int;
        assert(before.take(n) =~= before);
        if n >= 1 {
            assert(before.drop_last() =~= before.take(n - 1));
        }
        if n >= 2 {
            assert(before.drop_last().drop_last() =~= before.take(n - 2));
        }
    }
    let handle = match interpreter.pop_as_hash_map() {
        Ok(handle) => handle,
        Err(e) => {
            return Err(e);
        },
    };
    let key = match interpreter.pop() {
        Ok(value) => value,
        Err(e) => {
            return Err(e);
        },
    };
    let found = match interpreter.heap().hash(handle) {
        Some(table) => match table.get(&key) {
            Some(value) => Some(clone_value(value)),
            None => None,
        },
        None => None,
    };
    proof {
        let n = before.len() as int;
        assert(before.drop_last().drop_last() =~= before.take(n - 2));
    }
    match found {
        Some(value) => {
            if exists_only {
                interpreter.push(Value::Bool(true));
            } else {
                interpreter.push(value);
            }
            assert(interpreter.stack_view().take(before.len() - 2) =~= before.take(
                before.len() - 2,
            ));
            Ok(())
        },
        None => {
            if exists_only {
                interpreter.push(Value::Bool(false));
                Ok(())
            } else {
                let text = value_text(host, interpreter.heap(), &key, 0, MAX_NESTING);
                script_error(interpreter, concat3("Key ", text.as_str(), " not found in hash table."))
            }
        },
    }
}

/// `{}.+`: takes a source table and a destination table off the stack, puts
/// deep clones of the entries of the source into the destination, and pushes
/// the destination.
#[verifier::loop_isolation(false)]
pub fn word_hash_plus(interpreter: &mut SorthInterpreter) -> (r: Result<()>)
    requires
        old(interpreter).wf(),
    ensures
        final(interpreter).stable(old(interpreter)),
        r is Ok ==> final(interpreter).stack_view().len() + 1 == old(interpreter).stack_view().len(),
        final(interpreter).heap_view().len() >= old(interpreter).heap_view().len(),
        old(interpreter).stack_view().len() < 2 ==> r is Err,
        old(interpreter).stack_view().len() >= 2 ==> {
            let before = old(interpreter).stack_view();
            let heap = old(interpreter).heap_view();
            let n = before.len() as int;
            if !is_hash_map(heap, before[n - 1]@) || !is_hash_map(heap, before[n - 2]@) {
                r is Err
            } else {
                let source = before[n - 1]@->HashMap_0;
                let dest = before[n - 2]@->HashMap_0;
                let entries = table_entries(old(interpreter), source);
                let now = table_entries(final(interpreter), dest);
                (forall|i: int|
                    0 <= i < entries.len() ==> structure(
                        heap,
                        (#[trigger] entries[i]).0,
                        MAX_NESTING as nat,
                    ) is Some && structure(heap, entries[i].1, MAX_NESTING as nat) is Some) ==> {
                    &&& r is Ok
                    &&& final(interpreter).stack_view().drop_last() == before.take(n - 2)
                    &&& final(interpreter).stack_view().last()@ == ValueView::HashMap(dest)
                    &&& forall|i: int|
                        0 <= i < heap.len() && i != dest ==> (#[trigger] final(interpreter).heap_view()[i]) == heap[i]
                    &&& final(interpreter).heap_view()[dest as int] is Hash
                    &&& forall|key: ValueView|
                        is_plain(key) && (forall|i: int|
                            0 <= i < entries.len() ==> (#[trigger] entries[i]).0@ != key)
                            ==> #[trigger] entry_value(now, key) == entry_value(
                            table_entries(old(interpreter), dest),
                            key,
                        )
                    &&& forall|i: int|
                        0 <= i < entries.len() && is_plain((#[trigger] entries[i]).0@) && is_key(
                            entries[i].0@,
                        ) ==> entry_value(now, entries[i].0@) is Some && structure(
                            final(interpreter).heap_view(),
                            entry_value(now, entries[i].0@)->0,
                            MAX_NESTING as nat,
                        ) == structure(heap, entries[i].1, MAX_NESTING as nat)
                }
            }
        },
{
    let ghost stack = interpreter.stack_view();
    let ghost base = interpreter.heap_view();
    let source = match interpreter.pop_as_hash_map() {
        Ok(handle) => handle,
        Err(e) => {
            return Err(e);
        },
    };
    proof {
        if stack.len() >= 2 {
            assert(stack.drop_last().last() == stack[stack.len() - 2]);
            assert(stack.drop_last().drop_last() =~= stack.take(stack.len() - 2));
        }
    }
    let dest = match interpreter.pop_as_hash_map() {
        Ok(handle) => handle,
        Err(e) => {
            return Err(e);
        },
    };
    let ghost src = base[source as int]->Hash_0@;
    let ghost was = base[dest as int]->Hash_0@;
    let entries = match interpreter.heap().hash(source) {
        Some(table) => {
            proof {
                assert(cell_wf(interpreter.heap_view()[source as int]));
                table.lemma_distinct();
            }
            table.iter()
        },
        None => Vec::new(),
    };
    let ghost cloneable = forall|i: int|
        0 <= i < src.len() ==> structure(base, (#[trigger] src[i]).0, MAX_NESTING as nat) is Some
            && structure(base, src[i].1, MAX_NESTING as nat) is Some;
    proof {
        lemma_extends_self(base);
    }
    let mut copies = ValueHash::new();
    let mut i: usize = 0;
    let ghost middle = *interpreter;
    while i < entries.len()
        invariant
            i <= entries@.len(),
            copies.wf(),
            interpreter.wf(),
            interpreter.same_but_heap(&middle),
            middle.same_but_stack(old(interpreter)),
            interpreter.stack_view().len() + 2 == old(interpreter).stack_view().len(),
            interpreter.heap_view().len() >= old(interpreter).heap_view().len(),
            dest < interpreter.heap_view().len(),
            extends(interpreter.heap_view(), base),
            cloneable ==> forall|key: ValueView|
                is_plain(key) && (forall|j: int| 0 <= j < i ==> (#[trigger] src[j]).0@ != key)
                    ==> #[trigger] entry_value(copies@, key) is None,
            cloneable ==> forall|j: int|
                0 <= j < i && is_plain((#[trigger] src[j]).0@) && is_key(src[j].0@)
                    ==> entry_value(copies@, src[j].0@) is Some && structure_above(
                    interpreter.heap_view(),
                    entry_value(copies@, src[j].0@)->0,
                    MAX_NESTING as nat,
                    base.len(),
                ) == structure(base, src[j].1, MAX_NESTING as nat),
        decreases entries@.len() - i,
    {
        let ghost first = interpreter.heap_view();
        let ghost held = copies@;
        proof {
            if cloneable {
                assert(structure(base, src[i as int].0, MAX_NESTING as nat) is Some);
                lemma_structure_view(base, entries@[i as int].0, src[i as int].0, MAX_NESTING as nat, 0);
                lemma_structure_extends(base, first, entries@[i as int].0, MAX_NESTING as nat, 0);
            }
        }
        let key = match interpreter.heap.deep_clone(&entries[i].0, MAX_NESTING) {
            Some(copy) => copy,
            None => {
                return script_error_str(interpreter, "Containers are nested too deep to clone.");
            },
        };
        let ghost second = interpreter.heap_view();
        proof {
            lemma_extends_transitive(second, first, base);
            if cloneable {
                lemma_structure_view(base, entries@[i as int].1, src[i as int].1, MAX_NESTING as nat, 0);
                lemma_structure_extends(base, second, entries@[i as int].1, MAX_NESTING as nat, 0);
            }
        }
        let value = match interpreter.heap.deep_clone(&entries[i].1, MAX_NESTING) {
            Some(copy) => copy,
            None => {
                return script_error_str(interpreter, "Containers are nested too deep to clone.");
            },
        };
        let ghost third = interpreter.heap_view();
        copies.insert(key, value);
        proof {
            lemma_extends_transitive(third, second, base);
            if cloneable {
                let source_key = src[i as int].0@;
                // The clone of a plain key holds what the key holds, and the
                // clone of a container is a container.
                assert(is_plain(source_key) ==> key@ == source_key);
                assert(!is_plain(source_key) ==> !is_plain(key@));
                lemma_structure_floor(third, value, MAX_NESTING as nat, second.len(), base.len());
                assert forall|other: ValueView|
                    is_plain(other) && (forall|j: int|
                        0 <= j < i + 1 ==> (#[trigger] src[j]).0@ != other)
                        implies #[trigger] entry_value(copies@, other) is None by {
                    assert(src[i as int].0@ != other);
                    assert(other != key@);
                    assert(entry_value(copies@, other) == entry_value(held, other));
                }
                assert forall|j: int|
                    0 <= j < i + 1 && is_plain((#[trigger] src[j]).0@) && is_key(
                        src[j].0@,
                    ) implies entry_value(copies@, src[j].0@) is Some && structure_above(
                    third,
                    entry_value(copies@, src[j].0@)->0,
                    MAX_NESTING as nat,
                    base.len(),
                ) == structure(base, src[j].1, MAX_NESTING as nat) by {
                    if j < i {
                        assert(src[j].0@ != src[i as int].0@);
                        assert(src[j].0@ != key@);
                        assert(entry_value(copies@, src[j].0@) == entry_value(held, src[j].0@));
                        assert(structure(base, src[j].1, MAX_NESTING as nat) is Some);
                        lemma_structure_extends(
                            first,
                            second,
                            entry_value(held, src[j].0@)->0,
                            MAX_NESTING as nat,
                            base.len(),
                        );
                        lemma_structure_extends(
                            second,
                            third,
                            entry_value(held, src[j].0@)->0,
                            MAX_NESTING as nat,
                            base.len(),
                        );
                    }
                }
            }
        }
        i += 1;
    }
    let ghost cloned = interpreter.heap_view();
    proof {
        assert(cloned[dest as int] == cloned.take(base.len() as int)[dest as int]);
    }
    match interpreter.heap.take(dest) {
        HeapCell::Hash(mut table) => {
            table.extend(&copies);
            interpreter.heap.put(dest, HeapCell::Hash(table));
        },
        other => {
            interpreter.heap.put(dest, other);
        },
    }
    interpreter.push(Value::HashMap(dest));
    proof {
        let heap = interpreter.heap_view();
        let now = table_entries(interpreter, dest);
        assert(interpreter.stack_view().drop_last() =~= stack.take(stack.len() - 2));
        assert forall|k: int| 0 <= k < base.len() && k != dest implies (#[trigger] heap[k])
            == base[k] by {
            assert(cloned[k] == cloned.take(base.len() as int)[k]);
        }
        if cloneable {
            assert forall|key: ValueView|
                is_plain(key) && (forall|j: int|
                    0 <= j < src.len() ==> (#[trigger] src[j]).0@ != key)
                    implies #[trigger] entry_value(now, key) == entry_value(was, key) by {
                assert(entry_value(copies@, key) is None);
            }
            assert forall|j: int|
                0 <= j < src.len() && is_plain((#[trigger] src[j]).0@) && is_key(
                    src[j].0@,
                ) implies entry_value(now, src[j].0@) is Some && structure(
                heap,
                entry_value(now, src[j].0@)->0,
                MAX_NESTING as nat,
            ) == structure(base, src[j].1, MAX_NESTING as nat) by {
                let copy = entry_value(copies@, src[j].0@)->0;
                let kept = entry_value(now, src[j].0@)->0;
                assert(entry_value(copies@, src[j].0@) is Some);
                assert(kept@ == copy@);
                assert(structure(base, src[j].1, MAX_NESTING as nat) is Some);
                lemma_structure_independent(cloned, heap, copy, MAX_NESTING as nat, base.len());
                lemma_structure_floor(heap, copy, MAX_NESTING as nat, base.len(), 0);
                lemma_structure_view(heap, kept, copy, MAX_NESTING as nat, 0);
            }
        }
    }
    Ok(())
}

/// `{}.=`: takes two tables off the stack and pushes whether they hold equal
/// values under the same keys.
pub fn word_hash_compare<H: Host>(interpreter: &mut SorthInterpreter, host: &H) -> (r: Result<()>)
    requires
        old(interpreter).wf(),
    ensures
        final(interpreter).stable(old(interpreter)),
        final(interpreter).same_but_stack(old(interpreter)),
        r is Ok ==> final(interpreter).stack_view().len() + 1 == old(interpreter).stack_view().len()
            && final(interpreter).stack_view().last()@ is Bool,
        r is Ok <==> old(interpreter).stack_view().len() >= 2 && is_hash_map(
            old(interpreter).heap_view(),
            old(interpreter).stack_view().last()@,
        ) && is_hash_map(
            old(interpreter).heap_view(),
            old(interpreter).stack_view()[old(interpreter).stack_view().len() - 2]@,
        ),
        r is Ok ==> final(interpreter).stack_view().drop_last() == old(interpreter).stack_view().take(
            old(interpreter).stack_view().len() - 2,
        ),
        r is Ok && old(interpreter).stack_view().last()@ == old(interpreter).stack_view()[old(interpreter).stack_view().len() - 2]@ ==> final(interpreter).stack_view().last()@ == ValueView::Bool(
            true,
        ),
{
    let ghost stack = interpreter.stack_view();
    let b = match interpreter.pop_as_hash_map() {
        Ok(handle) => handle,
        Err(e) => {
            return Err(e);
        },
    };
    proof {
        if stack.len() >= 2 {
            assert(stack.drop_last().last() == stack[stack.len() - 2]);
        }
    }
    let a = match interpreter.pop_as_hash_map() {
        Ok(handle) => handle,
        Err(e) => {
            return Err(e);
        },
    };
    let result = values_equal(
        host,
        interpreter.heap(),
        &Value::HashMap(a),
        &Value::HashMap(b),
        MAX_NESTING,
    );
    interpreter.push(Value::Bool(result));
    assert(interpreter.stack_view().drop_last() =~= stack.take(stack.len() - 2));
    Ok(())
}

/// `{}.size@`: takes a table off the stack and pushes the number of its
/// entries.
pub fn word_hash_table_size(interpreter: &mut SorthInterpreter) -> (r: Result<()>)
    requires
        old(interpreter).wf(),
    ensures
        final(interpreter).stable(old(interpreter)),
        final(interpreter).same_but_stack(old(interpreter)),
        r is Ok <==> old(interpreter).stack_view().len() > 0 && is_hash_map(
            old(interpreter).heap_view(),
            old(interpreter).stack_view().last()@,
        ),
        r is Ok ==> final(interpreter).stack_view().len() == old(interpreter).stack_view().len(),
        r is Ok ==> final(interpreter).stack_view() == old(interpreter).stack_view().drop_last().push(
            final(interpreter).stack_view().last(),
        ) && final(interpreter).stack_view().last()@ == index_value(
            table_entries(
                old(interpreter),
                old(interpreter).stack_view().last()@->HashMap_0,
            ).len() as usize,
        ),
        r is Err ==> final(interpreter).stack_view() == old(interpreter).popped(),
{
    let handle = match interpreter.pop_as_hash_map() {
        Ok(handle) => handle,
        Err(e) => {
            return Err(e);
        },
    };
    let size = match interpreter.heap().hash(handle) {
        Some(table) => table.len(),
        None => 0,
    };
    interpreter.push(count_value(size));
    Ok(())
}

/// `{}.iterate`: takes a table and the index of a word off the stack, and
/// for each entry that the table holds at that moment pushes the key and the
/// value and executes the word. Ends with the first failure of the word.
#[verifier::loop_isolation(false)]
pub fn word_hash_table_iterate<H: Host>(interpreter: &mut SorthInterpreter, host: &mut H) -> (r:
    Result<()>)
    requires
        old(interpreter).wf(),
    ensures
        final(interpreter).stable(old(interpreter)),
        old(interpreter).stack_view().len() < 2 ==> r is Err,
        old(interpreter).stack_view().len() >= 2 ==> {
            let before = old(interpreter).stack_view();
            let n = before.len() as int;
            if !is_hash_map(old(interpreter).heap_view(), before[n - 1]@) {
                r is Err
            } else {
                let entries = table_entries(old(interpreter), before[n - 1]@->HashMap_0);
                match popped_int(before[n - 2]@) {
                    Some(index) => if index < 0 || index > usize::MAX {
                        r is Err
                    } else if entries.len() == 0 {
                        r is Ok && final(interpreter).stack_view() == before.take(n - 2) && final(interpreter).heap_view() == old(interpreter).heap_view()
                    } else {
                        index >= old(interpreter).handlers_view().len() || old(interpreter).calls_left() == 0 ==> r is Err
                    },
                    None => !is_number_view(before[n - 2]@) ==> r is Err,
                }
            }
        },
    decreases old(interpreter).calls_left(), 18int,
{
    let ghost stack = interpreter.stack_view();
    let handle = match interpreter.pop_as_hash_map() {
        Ok(handle) => handle,
        Err(e) => {
            return Err(e);
        },
    };
    proof {
        if stack.len() >= 2 {
            assert(stack.drop_last().last() == stack[stack.len() - 2]);
            assert(stack.drop_last().drop_last() =~= stack.take(stack.len() - 2));
        }
    }
    let word_index = match interpreter.pop_as_usize(host) {
        Ok(index) => index,
        Err(e) => {
            return Err(e);
        },
    };
    let mut entries = match interpreter.heap().hash(handle) {
        Some(table) => table.iter(),
        None => Vec::new(),
    };
    let ghost count = entries@.len();
    let ghost mut called = false;
    while entries.len() > 0
        invariant
            interpreter.stable(old(interpreter)),
            !called ==> entries@.len() == count && interpreter.stack_view() == stack.take(
                stack.len() - 2,
            ) && interpreter.heap_view() == old(interpreter).heap_view()
                && interpreter.handlers_view() == old(interpreter).handlers_view(),
            called ==> count > 0 && word_index < old(interpreter).handlers_view().len() && old(interpreter).calls_left() > 0,
        decreases entries@.len(),
    {
        let (key, value) = entries.remove(0);
        interpreter.push(key);
        interpreter.push(value);
        match interpreter.execute_word_index(host, &None, word_index) {
            Ok(()) => {
                proof {
                    called = true;
                }
            },
            Err(e) => {
                return Err(e);
            },
        }
    }
    Ok(())
}

} // verus!
