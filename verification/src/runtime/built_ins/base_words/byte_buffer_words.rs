//! The words that work on byte buffers.

use vstd::prelude::*;
use crate::runtime::data_structures::value::popped_float;
use crate::runtime::data_structures::value::popped_int;
use crate::runtime::data_structures::value::is_number_view;
use vstd::string::StringExecFns;
use vstd::utf8::encode_utf8;
use crate::runtime::built_ins::base_words::array_words::others_unchanged;
use crate::runtime::data_structures::byte_buffer::decoded_int;
use crate::runtime::data_structures::byte_buffer::is_float_size;
use crate::runtime::data_structures::byte_buffer::is_int_size;
use crate::runtime::data_structures::byte_buffer::le_bytes;
use crate::runtime::data_structures::byte_buffer::le_value;
use crate::runtime::data_structures::byte_buffer::string_field;
use crate::runtime::data_structures::byte_buffer::unsigned_of;
use crate::runtime::data_structures::byte_buffer::written;
use crate::runtime::data_structures::byte_buffer::Buffer;
use crate::runtime::data_structures::byte_buffer::ByteBuffer;
use crate::runtime::data_structures::heap::cell_wf;
use crate::runtime::data_structures::heap::is_byte_buffer;
use crate::runtime::data_structures::heap::HeapCell;
use crate::runtime::data_structures::byte_buffer::field_text;
use crate::runtime::data_structures::byte_buffer::utf8_lossy;
use crate::runtime::data_structures::value::count_value;
use crate::runtime::data_structures::value::index_value;
use crate::runtime::data_structures::value::Value;
use crate::runtime::data_structures::value::ValueView;
use crate::runtime::error::script_error_str;
use crate::runtime::error::Result;
use crate::runtime::host::Host;
use crate::runtime::interpreter::sorth_interpreter::SorthInterpreter;

verus! {

/// The byte buffer with the given handle.
pub open spec fn buffer_at(interpreter: &SorthInterpreter, handle: usize) -> ByteBuffer {
    interpreter.heap_view()[handle as int]->Buffer_0
}

/// Whether `byte_size` bytes can be read or written at the cursor of the
/// buffer with the given handle.
pub open spec fn has_room(interpreter: &SorthInterpreter, handle: usize, byte_size: int) -> bool {
    buffer_at(interpreter, handle).spec_position() + byte_size <= buffer_at(
        interpreter,
        handle,
    ).spec_bytes().len()
}

/// Whether `byte_size` bytes can be read or written at the cursor of the
/// buffer with the given handle.
fn check_buffer_index(interpreter: &SorthInterpreter, handle: usize, byte_size: usize) -> (r: bool)
    requires
        interpreter.wf(),
        handle < interpreter.heap_view().len(),
        interpreter.heap_view()[handle as int] is Buffer,
    ensures
        r == has_room(interpreter, handle, byte_size as int),
{
    assert(cell_wf(interpreter.heap_view()[handle as int]));
    match interpreter.heap().buffer(handle) {
        Some(buffer) => {
            let position = buffer.position();
            let length = buffer.len();
            position <= length && byte_size <= length - position
        },
        None => false,
    }
}

/// `buffer.new`: takes a size off the stack and pushes a new buffer of that
/// many zero bytes.
pub fn word_buffer_new<H: Host>(interpreter: &mut SorthInterpreter, host: &H) -> (r: Result<()>)
    requires
        old(interpreter).wf(),
    ensures
        final(interpreter).stable(old(interpreter)),
        r is Ok ==> final(interpreter).stack_view().len() == old(interpreter).stack_view().len()
            && final(interpreter).heap_view().len() == old(interpreter).heap_view().len() + 1
            && final(interpreter).heap_view().drop_last() == old(interpreter).heap_view() && final(interpreter).stack_view().last()@ == ValueView::ByteBuffer(old(interpreter).heap_view().len() as usize)
            && final(interpreter).heap_view().last() is Buffer,
        r is Err ==> final(interpreter).heap_view() == old(interpreter).heap_view(),
        r is Err ==> final(interpreter).stack_view() == old(interpreter).popped(),
        r is Ok ==> final(interpreter).stack_view().drop_last() == old(interpreter).stack_view().drop_last() && final(interpreter).heap_view().last()->Buffer_0.spec_position()
            == 0 && forall|i: int|
            0 <= i < final(interpreter).heap_view().last()->Buffer_0.spec_bytes().len() ==> (
            #[trigger] final(interpreter).heap_view().last()->Buffer_0.spec_bytes()[i]) == 0u8,
        old(interpreter).stack_view().len() == 0 ==> r is Err,
        old(interpreter).stack_view().len() > 0 ==> match popped_int(
            old(interpreter).stack_view().last()@,
        ) {
            Some(size) => if 0 <= size <= usize::MAX {
                r is Ok && final(interpreter).heap_view().last()->Buffer_0.spec_bytes().len()
                    == size
            } else {
                r is Err
            },
            None => !is_number_view(old(interpreter).stack_view().last()@) ==> r is Err,
        },
{
    let ghost stack = interpreter.stack_view();
    let size = match interpreter.pop_as_usize(host) {
        Ok(size) => size,
        Err(e) => {
            return Err(e);
        },
    };
    let ghost before = interpreter.heap_view();
    let handle = interpreter.heap.allocate(HeapCell::Buffer(ByteBuffer::new(size)));
    interpreter.push(Value::ByteBuffer(handle));
    assert(interpreter.heap_view().drop_last() =~= before);
    assert(interpreter.stack_view().drop_last() =~= stack.drop_last());
    Ok(())
}

/// `buffer.size@`: takes a buffer off the stack and pushes its length.
pub fn word_buffer_size(interpreter: &mut SorthInterpreter) -> (r: Result<()>)
    requires
        old(interpreter).wf(),
    ensures
        final(interpreter).stable(old(interpreter)),
        final(interpreter).same_but_stack(old(interpreter)),
        r is Ok ==> final(interpreter).stack_view().len() == old(interpreter).stack_view().len(),
        r is Ok <==> old(interpreter).stack_view().len() > 0 && is_byte_buffer(
            old(interpreter).heap_view(),
            old(interpreter).stack_view().last()@,
        ),
        r is Err ==> final(interpreter).stack_view() == old(interpreter).popped(),
        r is Ok ==> final(interpreter).stack_view().drop_last() == old(interpreter).stack_view().drop_last() && final(interpreter).stack_view().last()@ == index_value(
            buffer_at(
                old(interpreter),
                old(interpreter).stack_view().last()@->ByteBuffer_0,
            ).spec_bytes().len() as usize,
        ),
{
    let ghost stack = interpreter.stack_view();
    let handle = match interpreter.pop_as_byte_buffer() {
        Ok(handle) => handle,
        Err(e) => {
            return Err(e);
        },
    };
    let size = match interpreter.heap().buffer(handle) {
        Some(buffer) => buffer.len(),
        None => 0,
    };
    interpreter.push(count_value(size));
    assert(interpreter.stack_view().drop_last() =~= stack.drop_last());
    Ok(())
}

/// `buffer.size!`: takes a size and a buffer off the stack and makes the
/// buffer that long.
pub fn word_buffer_resize<H: Host>(interpreter: &mut SorthInterpreter, host: &H) -> (r: Result<()>)
    requires
        old(interpreter).wf(),
    ensures
        final(interpreter).stable(old(interpreter)),
        r is Err ==> final(interpreter).heap_view() == old(interpreter).heap_view(),
        r is Ok ==> final(interpreter).stack_view().len() + 2 == old(interpreter).stack_view().len(),
        old(interpreter).stack_view().len() < 2 ==> r is Err,
        old(interpreter).stack_view().len() >= 2 ==> {
            let before = old(interpreter).stack_view();
            let n = before.len() as int;
            match popped_int(before[n - 1]@) {
                Some(size) => if 0 <= size <= usize::MAX && is_byte_buffer(
                    old(interpreter).heap_view(),
                    before[n - 2]@,
                ) {
                    let handle = before[n - 2]@->ByteBuffer_0;
                    let was = buffer_at(old(interpreter), handle);
                    let now = buffer_at(final(interpreter), handle);
                    &&& r is Ok
                    &&& final(interpreter).stack_view() == before.take(n - 2)
                    &&& others_unchanged(final(interpreter), old(interpreter), handle)
                    &&& final(interpreter).heap_view()[handle as int] is Buffer
                    &&& now.spec_bytes().len() == size
                    &&& forall|i: int|
                        0 <= i < size ==> (#[trigger] now.spec_bytes()[i]) == if i
                            < was.spec_bytes().len() {
                            was.spec_bytes()[i]
                        } else {
                            0u8
                        }
                    &&& now.spec_position() == if was.spec_position() < size {
                        was.spec_position()
                    } else if size == 0 {
                        0
                    } else {
                        (size - 1) as nat
                    }
                } else {
                    r is Err
                },
                None => !is_number_view(before[n - 1]@) ==> r is Err,
            }
        },
{
    let ghost stack = interpreter.stack_view();
    let size = match interpreter.pop_as_usize(host) {
        Ok(size) => size,
        Err(e) => {
            return Err(e);
        },
    };
    proof {
        if stack.len() >= 2 {
            assert(stack.drop_last().last() == stack[stack.len() - 2]);
            assert(stack.drop_last().drop_last() =~= stack.take(stack.len() - 2));
        }
    }
    let handle = match interpreter.pop_as_byte_buffer() {
        Ok(handle) => handle,
        Err(e) => {
            return Err(e);
        },
    };
    match interpreter.heap.take(handle) {
        HeapCell::Buffer(mut buffer) => {
            buffer.resize(size);
            interpreter.heap.put(handle, HeapCell::Buffer(buffer));
        },
        other => {
            interpreter.heap.put(handle, other);
        },
    }
    Ok(())
}

/// `buffer.int!`: takes a size in bytes, a buffer and an integer off the
/// stack and writes the integer into the buffer at its cursor. Fails where
/// the buffer has no room for that many bytes at its cursor or the size is
/// not 1, 2, 4 or 8, and then leaves the buffer as it was.
pub fn word_buffer_write_int<H: Host>(interpreter: &mut SorthInterpreter, host: &H) -> (r: Result<
    (),
>)
    requires
        old(interpreter).wf(),
    ensures
        final(interpreter).stable(old(interpreter)),
        r is Err ==> final(interpreter).heap_view() == old(interpreter).heap_view(),
        r is Ok ==> final(interpreter).stack_view().len() + 3 == old(interpreter).stack_view().len(),
        old(interpreter).stack_view().len() >= 3 ==> {
            let before = old(interpreter).stack_view();
            let n = before.len() as int;
            match (before[n - 1]@, before[n - 2]@, before[n - 3]@) {
                (ValueView::Int(size), ValueView::ByteBuffer(handle), ValueView::Int(value)) => {
                    is_byte_buffer(old(interpreter).heap_view(), before[n - 2]@) ==> if size >= 0
                        && is_int_size(size as nat) && has_room(
                        old(interpreter),
                        handle,
                        size as int,
                    ) {
                        &&& r is Ok
                        &&& others_unchanged(final(interpreter), old(interpreter), handle)
                        &&& final(interpreter).heap_view()[handle as int] is Buffer
                        &&& buffer_at(final(interpreter), handle).spec_bytes() == written(
                            buffer_at(old(interpreter), handle).spec_bytes(),
                            buffer_at(old(interpreter), handle).spec_position() as int,
                            le_bytes(unsigned_of(value), size as nat),
                        )
                        &&& buffer_at(final(interpreter), handle).spec_position() == buffer_at(
                            old(interpreter),
                            handle,
                        ).spec_position() + size
                    } else {
                        r is Err
                    }
                },
                _ => true,
            }
        },
{
    let byte_size = match interpreter.pop_as_usize(host) {
        Ok(size) => size,
        Err(e) => {
            return Err(e);
        },
    };
    let handle = match interpreter.pop_as_byte_buffer() {
        Ok(handle) => handle,
        Err(e) => {
            return Err(e);
        },
    };
    let value = match interpreter.pop_as_int(host) {
        Ok(value) => value,
        Err(e) => {
            return Err(e);
        },
    };
    if !check_buffer_index(interpreter, handle, byte_size) {
        return script_error_str(interpreter, "Writing a value would exceed the buffer size.");
    }
    if byte_size != 1 && byte_size != 2 && byte_size != 4 && byte_size != 8 {
        return script_error_str(interpreter, "Invalid byte size for integer value.");
    }
    match interpreter.heap.take(handle) {
        HeapCell::Buffer(mut buffer) => {
            buffer.write_int(byte_size, value);
            interpreter.heap.put(handle, HeapCell::Buffer(buffer));
        },
        other => {
            interpreter.heap.put(handle, other);
        },
    }
    Ok(())
}

/// `buffer.int@`: takes a flag, a size in bytes and a buffer off the stack,
/// reads an integer of that size from the buffer at its cursor, signed where
/// the flag is true, and pushes it. Fails where the buffer holds fewer bytes
/// than that from its cursor on or the size is not 1, 2, 4 or 8.
pub fn word_buffer_read_int<H: Host>(interpreter: &mut SorthInterpreter, host: &H) -> (r: Result<
    (),
>)
    requires
        old(interpreter).wf(),
    ensures
        final(interpreter).stable(old(interpreter)),
        r is Err ==> final(interpreter).heap_view() == old(interpreter).heap_view(),
        r is Ok ==> final(interpreter).stack_view().len() + 2 == old(interpreter).stack_view().len(),
        old(interpreter).stack_view().len() >= 3 ==> {
            let before = old(interpreter).stack_view();
            let n = before.len() as int;
            match (before[n - 1]@, before[n - 2]@, before[n - 3]@) {
                (ValueView::Bool(is_signed), ValueView::Int(size), ValueView::ByteBuffer(handle)) => {
                    is_byte_buffer(old(interpreter).heap_view(), before[n - 3]@) ==> if size >= 0
                        && is_int_size(size as nat) && has_room(
                        old(interpreter),
                        handle,
                        size as int,
                    ) {
                        let buffer = buffer_at(old(interpreter), handle);
                        &&& r is Ok
                        &&& others_unchanged(final(interpreter), old(interpreter), handle)
                        &&& final(interpreter).heap_view()[handle as int] is Buffer
                        &&& buffer_at(final(interpreter), handle).spec_bytes()
                            == buffer.spec_bytes()
                        &&& buffer_at(final(interpreter), handle).spec_position()
                            == buffer.spec_position() + size
                        &&& final(interpreter).stack_view() == before.take(n - 3).push(
                            Value::Int(
                                decoded_int(
                                    le_value(
                                        buffer.spec_bytes().subrange(
                                            buffer.spec_position() as int,
                                            buffer.spec_position() + size,
                                        ),
                                    ),
                                    size as nat,
                                    is_signed,
                                ) as i64,
                            ),
                        )
                    } else {
                        r is Err
                    }
                },
                _ => true,
            }
        },
{
    let ghost before = interpreter.stack_view();
    let is_signed = match interpreter.pop_as_bool() {
        Ok(flag) => flag,
        Err(e) => {
            return Err(e);
        },
    };
    let byte_size = match interpreter.pop_as_usize(host) {
        Ok(size) => size,
        Err(e) => {
            return Err(e);
        },
    };
    let handle = match interpreter.pop_as_byte_buffer() {
        Ok(handle) => handle,
        Err(e) => {
            return Err(e);
        },
    };
    if !check_buffer_index(interpreter, handle, byte_size) {
        return script_error_str(interpreter, "Reading a value would exceed the buffer size.");
    }
    if byte_size != 1 && byte_size != 2 && byte_size != 4 && byte_size != 8 {
        return script_error_str(interpreter, "Invalid byte size for integer value.");
    }
    let value = match interpreter.heap.take(handle) {
        HeapCell::Buffer(mut buffer) => {
            let value = buffer.read_int(byte_size, is_signed);
            interpreter.heap.put(handle, HeapCell::Buffer(buffer));
            value
        },
        other => {
            interpreter.heap.put(handle, other);
            0
        },
    };
    interpreter.push(Value::Int(value));
    proof {
        let n = before.len() as int;
        assert(before.drop_last().drop_last().drop_last() =~= before.take(n - 3));
    }
    Ok(())
}

/// `buffer.float!`: takes a size in bytes, a buffer and a floating point
/// number off the stack and writes the number into the buffer at its cursor,
/// as a 32-bit number where the size is 4. Fails where the buffer has no
/// room for that many bytes at its cursor or the size is not 4 or 8, and then
/// leaves the buffer as it was.
#[verifier::spinoff_prover]
pub fn word_buffer_write_float<H: Host>(interpreter: &mut SorthInterpreter, host: &H) -> (r: Result<
    (),
>)
    requires
        old(interpreter).wf(),
    ensures
        final(interpreter).stable(old(interpreter)),
        r is Err ==> final(interpreter).heap_view() == old(interpreter).heap_view(),
        r is Ok ==> final(interpreter).stack_view().len() + 3 == old(interpreter).stack_view().len(),
        old(interpreter).stack_view().len() < 3 ==> r is Err,
        old(interpreter).stack_view().len() >= 3 ==> {
            let before = old(interpreter).stack_view();
            let n = before.len() as int;
            match popped_int(before[n - 1]@) {
                Some(size) => if 0 <= size <= usize::MAX && is_byte_buffer(
                    old(interpreter).heap_view(),
                    before[n - 2]@,
                ) && is_number_view(before[n - 3]@) && is_float_size(size as nat) && has_room(
                    old(interpreter),
                    before[n - 2]@->ByteBuffer_0,
                    size as int,
                ) {
                    let handle = before[n - 2]@->ByteBuffer_0;
                    let was = buffer_at(old(interpreter), handle);
                    let now = buffer_at(final(interpreter), handle);
                    &&& r is Ok
                    &&& final(interpreter).stack_view() == before.take(n - 3)
                    &&& others_unchanged(final(interpreter), old(interpreter), handle)
                    &&& final(interpreter).heap_view()[handle as int] is Buffer
                    &&& now.spec_position() == was.spec_position() + size
                    &&& exists|bits: u64|
                        now.spec_bytes() == written(
                            was.spec_bytes(),
                            was.spec_position() as int,
                            #[trigger] le_bytes(bits as nat, size as nat),
                        )
                    &&& size == 8 ==> match popped_float(before[n - 3]@) {
                        Some(bits) => now.spec_bytes() == written(
                            was.spec_bytes(),
                            was.spec_position() as int,
                            le_bytes(bits as nat, 8),
                        ),
                        None => true,
                    }
                } else {
                    r is Err
                },
                None => !is_number_view(before[n - 1]@) ==> r is Err,
            }
        },
{
    let ghost stack = interpreter.stack_view();
    let byte_size = match interpreter.pop_as_usize(host) {
        Ok(size) => size,
        Err(e) => {
            return Err(e);
        },
    };
    proof {
        if stack.len() >= 3 {
            assert(stack.drop_last().last() == stack[stack.len() - 2]);
            assert(stack.drop_last().drop_last().last() == stack[stack.len() - 3]);
            assert(stack.drop_last().drop_last().drop_last() =~= stack.take(stack.len() - 3));
        }
    }
    let handle = match interpreter.pop_as_byte_buffer() {
        Ok(handle) => handle,
        Err(e) => {
            return Err(e);
        },
    };
    let value = match interpreter.pop_as_float(host) {
        Ok(value) => value,
        Err(e) => {
            return Err(e);
        },
    };
    if !check_buffer_index(interpreter, handle, byte_size) {
        return script_error_str(interpreter, "Writing a value would exceed the buffer size.");
    }
    if byte_size != 4 && byte_size != 8 {
        return script_error_str(interpreter, "Invalid byte size for floating point value.");
    }
    let bits: u64 = if byte_size == 4 {
        host.float_narrow(value) as u64
    } else {
        value
    };
    let ghost was = buffer_at(interpreter, handle);
    match interpreter.heap.take(handle) {
        HeapCell::Buffer(mut buffer) => {
            buffer.write_float(byte_size, bits);
            interpreter.heap.put(handle, HeapCell::Buffer(buffer));
        },
        other => {
            interpreter.heap.put(handle, other);
        },
    }
    proof {
        let now = buffer_at(interpreter, handle);
        let data = le_bytes(bits as nat, byte_size as nat);
        assert(now.spec_bytes() == written(was.spec_bytes(), was.spec_position() as int, data));
    }
    Ok(())
}

/// `buffer.float@`: takes a size in bytes and a buffer off the stack, reads
/// a floating point number of that size from the buffer at its cursor, and
/// pushes it. Fails where the buffer holds fewer bytes than that from its
/// cursor on or the size is not 4 or 8.
pub fn word_buffer_read_float<H: Host>(interpreter: &mut SorthInterpreter, host: &H) -> (r: Result<
    (),
>)
    requires
        old(interpreter).wf(),
    ensures
        final(interpreter).stable(old(interpreter)),
        r is Err ==> final(interpreter).heap_view() == old(interpreter).heap_view(),
        r is Ok ==> final(interpreter).stack_view().len() + 1 == old(interpreter).stack_view().len(),
        old(interpreter).stack_view().len() >= 2 ==> {
            let before = old(interpreter).stack_view();
            let n = before.len() as int;
            match (before[n - 1]@, before[n - 2]@) {
                (ValueView::Int(size), ValueView::ByteBuffer(handle)) => {
                    is_byte_buffer(old(interpreter).heap_view(), before[n - 2]@) ==> if size == 8
                        && has_room(old(interpreter), handle, 8) {
                        let buffer = buffer_at(old(interpreter), handle);
                        &&& r is Ok
                        &&& final(interpreter).stack_view() == before.take(n - 2).push(
                            Value::Float(
                                le_value(
                                    buffer.spec_bytes().subrange(
                                        buffer.spec_position() as int,
                                        buffer.spec_position() as int + 8,
                                    ),
                                ) as u64,
                            ),
                        )
                    } else {
                        size >= 0 && !(is_float_size(size as nat) && has_room(
                            old(interpreter),
                            handle,
                            size as int,
                        )) ==> r is Err
                    }
                },
                _ => true,
            }
        },
{
    let ghost before = interpreter.stack_view();
    let byte_size = match interpreter.pop_as_usize(host) {
        Ok(size) => size,
        Err(e) => {
            return Err(e);
        },
    };
    let handle = match interpreter.pop_as_byte_buffer() {
        Ok(handle) => handle,
        Err(e) => {
            return Err(e);
        },
    };
    if !check_buffer_index(interpreter, handle, byte_size) {
        return script_error_str(interpreter, "Reading a value would exceed the buffer size.");
    }
    if byte_size != 4 && byte_size != 8 {
        return script_error_str(interpreter, "Invalid byte size for floating point value.");
    }
    let raw = match interpreter.heap.take(handle) {
        HeapCell::Buffer(mut buffer) => {
            let raw = buffer.read_float(byte_size);
            interpreter.heap.put(handle, HeapCell::Buffer(buffer));
            raw
        },
        other => {
            interpreter.heap.put(handle, other);
            0
        },
    };
    let bits = if byte_size == 4 {
        if raw <= 0xffff_ffff {
            host.float_widen(raw as u32)
        } else {
            0
        }
    } else {
        raw
    };
    interpreter.push(Value::Float(bits));
    proof {
        let n = before.len() as int;
        assert(before.drop_last().drop_last() =~= before.take(n - 2));
    }
    Ok(())
}

/// `buffer.string!`: takes a size in bytes, a buffer and a string off the
/// stack and writes the string into a field of that size at the cursor of the
/// buffer. Fails where the buffer has no room for the field at its cursor,
/// and then leaves the buffer as it was.
pub fn word_buffer_write_string<H: Host>(interpreter: &mut SorthInterpreter, host: &H) -> (r:
    Result<()>)
    requires
        old(interpreter).wf(),
    ensures
        final(interpreter).stable(old(interpreter)),
        r is Err ==> final(interpreter).heap_view() == old(interpreter).heap_view(),
        r is Ok ==> final(interpreter).stack_view().len() + 3 == old(interpreter).stack_view().len(),
        old(interpreter).stack_view().len() >= 3 ==> {
            let before = old(interpreter).stack_view();
            let n = before.len() as int;
            match (before[n - 1]@, before[n - 2]@, before[n - 3]@) {
                (ValueView::Int(size), ValueView::ByteBuffer(handle), ValueView::String(text)) => {
                    is_byte_buffer(old(interpreter).heap_view(), before[n - 2]@) ==> if 0 <= size
                        <= usize::MAX && has_room(old(interpreter), handle, size as int) {
                        &&& r is Ok
                        &&& others_unchanged(final(interpreter), old(interpreter), handle)
                        &&& final(interpreter).heap_view()[handle as int] is Buffer
                        &&& buffer_at(final(interpreter), handle).spec_bytes() == written(
                            buffer_at(old(interpreter), handle).spec_bytes(),
                            buffer_at(old(interpreter), handle).spec_position() as int,
                            string_field(encode_utf8(text), size as nat),
                        )
                    } else {
                        r is Err
                    }
                },
                _ => true,
            }
        },
{
    let byte_size = match interpreter.pop_as_usize(host) {
        Ok(size) => size,
        Err(e) => {
            return Err(e);
        },
    };
    let handle = match interpreter.pop_as_byte_buffer() {
        Ok(handle) => handle,
        Err(e) => {
            return Err(e);
        },
    };
    let value = match interpreter.pop_as_string(host) {
        Ok(value) => value,
        Err(e) => {
            return Err(e);
        },
    };
    if !check_buffer_index(interpreter, handle, byte_size) {
        return script_error_str(interpreter, "Writing a value would exceed the buffer size.");
    }
    match interpreter.heap.take(handle) {
        HeapCell::Buffer(mut buffer) => {
            buffer.write_string(byte_size, &value);
            interpreter.heap.put(handle, HeapCell::Buffer(buffer));
        },
        other => {
            interpreter.heap.put(handle, other);
        },
    }
    Ok(())
}

/// `buffer.string@`: takes a size in bytes and a buffer off the stack, reads
/// a string from a field of that size at the cursor of the buffer, and pushes
/// it. Fails where the buffer holds fewer bytes than that from its cursor on.
pub fn word_buffer_read_string<H: Host>(interpreter: &mut SorthInterpreter, host: &H) -> (r: Result<
    (),
>)
    requires
        old(interpreter).wf(),
    ensures
        final(interpreter).stable(old(interpreter)),
        r is Err ==> final(interpreter).heap_view() == old(interpreter).heap_view(),
        r is Ok ==> final(interpreter).stack_view().len() + 1 == old(interpreter).stack_view().len()
            && final(interpreter).stack_view().last()@ is String,
        old(interpreter).stack_view().len() < 2 ==> r is Err,
        old(interpreter).stack_view().len() >= 2 ==> {
            let before = old(interpreter).stack_view();
            let n = before.len() as int;
            match popped_int(before[n - 1]@) {
                Some(size) => if 0 <= size <= usize::MAX && is_byte_buffer(
                    old(interpreter).heap_view(),
                    before[n - 2]@,
                ) && has_room(old(interpreter), before[n - 2]@->ByteBuffer_0, size as int) {
                    let handle = before[n - 2]@->ByteBuffer_0;
                    let was = buffer_at(old(interpreter), handle);
                    let now = buffer_at(final(interpreter), handle);
                    &&& r is Ok
                    &&& final(interpreter).stack_view().drop_last() == before.take(n - 2)
                    &&& final(interpreter).stack_view().last()@ == ValueView::String(
                        utf8_lossy(
                            field_text(
                                was.spec_bytes().subrange(
                                    was.spec_position() as int,
                                    was.spec_position() + size,
                                ),
                            ),
                        ),
                    )
                    &&& others_unchanged(final(interpreter), old(interpreter), handle)
                    &&& final(interpreter).heap_view()[handle as int] is Buffer
                    &&& now.spec_bytes() == was.spec_bytes()
                    &&& now.spec_position() == was.spec_position() + size
                } else {
                    r is Err
                },
                None => !is_number_view(before[n - 1]@) ==> r is Err,
            }
        },
{
    let ghost stack = interpreter.stack_view();
    let byte_size = match interpreter.pop_as_usize(host) {
        Ok(size) => size,
        Err(e) => {
            return Err(e);
        },
    };
    proof {
        if stack.len() >= 2 {
            assert(stack.drop_last().last() == stack[stack.len() - 2]);
            assert(stack.drop_last().drop_last() =~= stack.take(stack.len() - 2));
        }
    }
    let handle = match interpreter.pop_as_byte_buffer() {
        Ok(handle) => handle,
        Err(e) => {
            return Err(e);
        },
    };
    if !check_buffer_index(interpreter, handle, byte_size) {
        return script_error_str(interpreter, "Reading a value would exceed the buffer size.");
    }
    let text = match interpreter.heap.take(handle) {
        HeapCell::Buffer(mut buffer) => {
            let text = buffer.read_string(byte_size);
            interpreter.heap.put(handle, HeapCell::Buffer(buffer));
            text
        },
        other => {
            interpreter.heap.put(handle, other);
            String::new()
        },
    };
    interpreter.push(Value::String(text));
    assert(interpreter.stack_view().drop_last() =~= stack.take(stack.len() - 2));
    Ok(())
}

/// `buffer.position!`: takes a buffer and a position off the stack and puts
/// the cursor of the buffer there. Fails where the position is past the end
/// of the buffer.
pub fn word_buffer_set_position<H: Host>(interpreter: &mut SorthInterpreter, host: &H) -> (r:
    Result<()>)
    requires
        old(interpreter).wf(),
    ensures
        final(interpreter).stable(old(interpreter)),
        r is Err ==> final(interpreter).heap_view() == old(interpreter).heap_view(),
        r is Ok ==> final(interpreter).stack_view().len() + 2 == old(interpreter).stack_view().len(),
        old(interpreter).stack_view().len() >= 2 ==> {
            let before = old(interpreter).stack_view();
            let n = before.len() as int;
            match (before[n - 1]@, before[n - 2]@) {
                (ValueView::ByteBuffer(handle), ValueView::Int(position)) => {
                    is_byte_buffer(old(interpreter).heap_view(), before[n - 1]@)
                        ==> if 0 <= position <= buffer_at(
                        old(interpreter),
                        handle,
                    ).spec_bytes().len() {
                        &&& r is Ok
                        &&& others_unchanged(final(interpreter), old(interpreter), handle)
                        &&& final(interpreter).heap_view()[handle as int] is Buffer
                        &&& buffer_at(final(interpreter), handle).spec_bytes() == buffer_at(
                            old(interpreter),
                            handle,
                        ).spec_bytes()
                        &&& buffer_at(final(interpreter), handle).spec_position() == position
                    } else {
                        r is Err
                    }
                },
                _ => true,
            }
        },
{
    let handle = match interpreter.pop_as_byte_buffer() {
        Ok(handle) => handle,
        Err(e) => {
            return Err(e);
        },
    };
    let length = match interpreter.heap().buffer(handle) {
        Some(buffer) => buffer.len(),
        None => 0,
    };
    let position = match interpreter.pop_as_usize(host) {
        Ok(position) => position,
        Err(e) => {
            return Err(e);
        },
    };
    if position > length {
        return script_error_str(interpreter, "Setting buffer position beyond buffer size.");
    }
    match interpreter.heap.take(handle) {
        HeapCell::Buffer(mut buffer) => {
            buffer.set_position(position);
            interpreter.heap.put(handle, HeapCell::Buffer(buffer));
        },
        other => {
            interpreter.heap.put(handle, other);
        },
    }
    Ok(())
}

/// `buffer.position@`: takes a buffer off the stack and pushes the position
/// of its cursor.
pub fn word_buffer_get_position(interpreter: &mut SorthInterpreter) -> (r: Result<()>)
    requires
        old(interpreter).wf(),
    ensures
        final(interpreter).stable(old(interpreter)),
        final(interpreter).same_but_stack(old(interpreter)),
        r is Ok ==> final(interpreter).stack_view().len() == old(interpreter).stack_view().len(),
        r is Ok <==> old(interpreter).stack_view().len() > 0 && is_byte_buffer(
            old(interpreter).heap_view(),
            old(interpreter).stack_view().last()@,
        ),
        r is Err ==> final(interpreter).stack_view() == old(interpreter).popped(),
        r is Ok ==> final(interpreter).stack_view().drop_last() == old(interpreter).stack_view().drop_last() && final(interpreter).stack_view().last()@ == index_value(
            buffer_at(
                old(interpreter),
                old(interpreter).stack_view().last()@->ByteBuffer_0,
            ).spec_position() as usize,
        ),
{
    let ghost stack = interpreter.stack_view();
    let handle = match interpreter.pop_as_byte_buffer() {
        Ok(handle) => handle,
        Err(e) => {
            return Err(e);
        },
    };
    let position = match interpreter.heap().buffer(handle) {
        Some(buffer) => buffer.position(),
        None => 0,
    };
    interpreter.push(count_value(position));
    assert(interpreter.stack_view().drop_last() =~= stack.drop_last());
    Ok(())
}

} // verus!
