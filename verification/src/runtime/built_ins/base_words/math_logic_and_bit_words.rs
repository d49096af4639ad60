//! The words of arithmetic, logic, bits and comparison.

use vstd::prelude::*;
use vstd::string::StringExecFns;
use crate::lang::code::same_code;
use crate::runtime::data_structures::byte_buffer::Buffer;
use crate::runtime::data_structures::heap::Heap;
use crate::runtime::data_structures::value::int_of_view;
use crate::runtime::data_structures::value::is_float_view;
use crate::runtime::data_structures::value::is_numeric_view;
use crate::runtime::data_structures::value::is_stringable_view;
use crate::runtime::data_structures::value::is_text_view;
use crate::runtime::data_structures::value::string_of_view;
use crate::runtime::data_structures::value::Value;
use crate::runtime::data_structures::value::ValueView;
use crate::runtime::error::script_error_str;
use crate::runtime::error::Result;
use crate::runtime::host::Host;
use crate::runtime::interpreter::sorth_interpreter::SorthInterpreter;
use crate::text::chars_of;

use crate::runtime::data_structures::value_vec::values_view;

verus! {

/// The operations of arithmetic on two numbers.
#[derive(Clone, Copy, Debug, PartialEq, Eq, Structural)]
pub enum MathOp {
    Add,
    Subtract,
    Multiply,
    Divide,
    Modulo,
}

/// The result of an operation of arithmetic on two integers. Sums,
/// differences and products wrap around. A quotient is cut off towards zero,
/// and a remainder has the sign of the dividend; there is none of either for
/// a divisor of zero, nor where the quotient is out of range.
pub open spec fn int_result(op: MathOp, a: i64, b: i64) -> Option<i64> {
    match op {
        MathOp::Add => Some(a.wrapping_add(b)),
        MathOp::Subtract => Some(a.wrapping_sub(b)),
        MathOp::Multiply => Some(a.wrapping_mul(b)),
        MathOp::Divide => a.checked_div(b),
        MathOp::Modulo => a.checked_rem(b),
    }
}

/// The operations on the bits of two integers.
#[derive(Clone, Copy, Debug, PartialEq, Eq, Structural)]
pub enum BitOp {
    And,
    Or,
    Xor,
    LeftShift,
    RightShift,
}

/// The result of an operation on the bits of two integers. The distance of
/// a shift counts modulo 64.
pub open spec fn bit_result(op: BitOp, a: i64, b: i64) -> i64 {
    match op {
        BitOp::And => a & b,
        BitOp::Or => a | b,
        BitOp::Xor => a ^ b,
        BitOp::LeftShift => a.wrapping_shl(shift_distance(b)),
        BitOp::RightShift => a.wrapping_shr(shift_distance(b)),
    }
}

/// The distance of a shift by `amount`: `amount` modulo 64.
pub open spec fn shift_distance(amount: i64) -> u32 {
    (amount as int % 64) as u32
}

/// How two values compare.
#[derive(Clone, Copy, Debug, PartialEq, Eq, Structural)]
pub enum Comparison {
    Less,
    Equal,
    Greater,
    Unordered,
}

/// How two integers compare.
pub open spec fn compare_ints(a: i64, b: i64) -> Comparison {
    if a < b {
        Comparison::Less
    } else if a == b {
        Comparison::Equal
    } else {
        Comparison::Greater
    }
}

/// How two texts compare: by their first character that differs, and a text
/// before any text that it starts.
pub open spec fn compare_texts(a: Seq<char>, b: Seq<char>) -> Comparison
    decreases a.len(),
{
    if a.len() == 0 && b.len() == 0 {
        Comparison::Equal
    } else if a.len() == 0 {
        Comparison::Less
    } else if b.len() == 0 {
        Comparison::Greater
    } else if a[0] < b[0] {
        Comparison::Less
    } else if a[0] > b[0] {
        Comparison::Greater
    } else {
        compare_texts(a.skip(1), b.skip(1))
    }
}

/// The operation on two integers.
pub fn int_math(op: MathOp, a: i64, b: i64) -> (r: Option<i64>)
    ensures
        r == int_result(op, a, b),
{
    match op {
        MathOp::Add => Some(a.wrapping_add(b)),
        MathOp::Subtract => Some(a.wrapping_sub(b)),
        MathOp::Multiply => Some(a.wrapping_mul(b)),
        MathOp::Divide => a.checked_div(b),
        MathOp::Modulo => a.checked_rem(b),
    }
}

/// The operation on the bits of two integers.
pub fn bit_math(op: BitOp, a: i64, b: i64) -> (r: i64)
    ensures
        r == bit_result(op, a, b),
{
    let distance: u32 = match b.checked_rem_euclid(64) {
        Some(d) => d as u32,
        None => 0,
    };
    match op {
        BitOp::And => a & b,
        BitOp::Or => a | b,
        BitOp::Xor => a ^ b,
        BitOp::LeftShift => a.wrapping_shl(distance),
        BitOp::RightShift => a.wrapping_shr(distance),
    }
}

/// How two texts compare.
#[verifier::loop_isolation(false)]
pub fn text_comparison(a: &String, b: &String) -> (r: Comparison)
    ensures
        r == compare_texts(a@, b@),
{
    let x = chars_of(a.as_str());
    let y = chars_of(b.as_str());
    let mut i: usize = 0;
    assert(x@.skip(0) =~= x@);
    assert(y@.skip(0) =~= y@);
    while i < x.len() && i < y.len()
        invariant
            i <= x@.len(),
            i <= y@.len(),
            compare_texts(x@, y@) == compare_texts(x@.skip(i as int), y@.skip(i as int)),
        decreases x@.len() - i,
    {
        let ghost p = x@.skip(i as int);
        let ghost q = y@.skip(i as int);
        assert(p[0] == x@[i as int]);
        assert(q[0] == y@[i as int]);
        assert(p.skip(1) =~= x@.skip(i + 1));
        assert(q.skip(1) =~= y@.skip(i + 1));
        if x[i] < y[i] {
            return Comparison::Less;
        }
        if x[i] > y[i] {
            return Comparison::Greater;
        }
        i += 1;
    }
    if i < y.len() {
        Comparison::Less
    } else if i < x.len() {
        Comparison::Greater
    } else {
        Comparison::Equal
    }
}

/// How two values compare. Two numbers compare as floating point numbers,
/// by the host, where one of them is one, and as integers where none is. Two
/// texts compare by their characters. Any other two values are not ordered.
pub fn compare_values<H: Host>(host: &H, a: &Value, b: &Value) -> (r: Comparison)
    ensures
        a@ is Int && b@ is Int ==> r == compare_ints(a@->Int_0, b@->Int_0),
        a@ is String && b@ is String ==> r == compare_texts(a@->String_0, b@->String_0),
        match plain_order(a@, b@) {
            Some(order) => r == order,
            None => true,
        },
{
    if a.is_numeric() && b.is_numeric() {
        if a.is_float_number() || b.is_float_number() {
            let x = a.get_float_val(host);
            let y = b.get_float_val(host);
            if host.float_less(x, y) {
                Comparison::Less
            } else if host.float_less(y, x) {
                Comparison::Greater
            } else if host.float_equal(x, y) {
                Comparison::Equal
            } else {
                Comparison::Unordered
            }
        } else {
            let x = a.get_int_val(host);
            let y = b.get_int_val(host);
            if x < y {
                Comparison::Less
            } else if x == y {
                Comparison::Equal
            } else {
                Comparison::Greater
            }
        }
    } else if a.is_text() && b.is_text() {
        text_comparison(&a.get_string_val(host), &b.get_string_val(host))
    } else {
        Comparison::Unordered
    }
}

/// Whether each value of one sequence equals the value at the same place of
/// another.
#[verifier::loop_isolation(false)]
fn all_equal<H: Host>(host: &H, heap: &Heap, a: &Vec<Value>, b: &Vec<Value>, depth: usize) -> (r:
    bool)
    ensures
        r ==> a@.len() == b@.len(),
        a@.len() == b@.len() && (forall|i: int|
            0 <= i < a@.len() ==> surely_equal((#[trigger] a@[i])@, b@[i]@)) ==> r,
        (exists|i: int|
            0 <= i < a@.len() && i < b@.len() && plainly_equal((#[trigger] a@[i])@, b@[i]@)
                == Some(false)) ==> !r,
        match plainly_all(a@, b@) {
            Some(equal) => r == equal,
            None => true,
        },
    decreases depth, 1int,
{
    if a.len() != b.len() {
        return false;
    }
    let mut i: usize = 0;
    while i < a.len()
        invariant
            a@.len() == b@.len(),
            i <= a@.len(),
            forall|j: int|
                0 <= j < i ==> plainly_equal((#[trigger] a@[j])@, b@[j]@) != Some(false),
        decreases a@.len() - i,
    {
        if !values_equal(host, heap, &a[i], &b[i], depth) {
            return false;
        }
        i += 1;
    }
    true
}

/// Whether two values are equal.
///
/// Two numbers are equal where they are the same number, as floating point
/// numbers, by the host, where one of them is one, and as integers where none
/// is. Two texts are equal where they have the same characters. Two
/// containers of the same kind are equal where they hold equal values: arrays
/// in the same order, hash maps under the same keys, data objects of
/// definitions of the same name in the same fields, byte buffers in the same
/// bytes with the cursor at the same position. Blocks of code are equal where
/// they hold the same instructions. Values of different kinds are not equal,
/// nor are containers that are nested deeper than `depth` allows.
#[verifier::loop_isolation(false)]
pub fn values_equal<H: Host>(host: &H, heap: &Heap, a: &Value, b: &Value, depth: usize) -> (r: bool)
    ensures
        a@ is Int && b@ is Int ==> r == (a@->Int_0 == b@->Int_0),
        a@ is Bool && b@ is Bool ==> r == (a@->Bool_0 == b@->Bool_0),
        a@ is String && b@ is String ==> r == (a@->String_0 == b@->String_0),
        a@ is Nil && b@ is Nil ==> r,
        a@ is Int && b@ is String ==> !r,
        a@ is String && b@ is Int ==> !r,
        match plainly_equal(a@, b@) {
            Some(equal) => r == equal,
            None => true,
        },
        surely_equal(a@, b@) ==> r,
        depth > 0 ==> match (a@, b@) {
            (ValueView::Vec(x), ValueView::Vec(y)) => x != y ==> if
                crate::runtime::data_structures::heap::is_array(heap@, a@)
                && crate::runtime::data_structures::heap::is_array(heap@, b@) {
                match plainly_all(heap@[x as int]->Vec_0@, heap@[y as int]->Vec_0@) {
                    Some(equal) => r == equal,
                    None => true,
                }
            } else {
                !r
            },
            (ValueView::HashMap(x), ValueView::HashMap(y)) => x != y ==> if
                crate::runtime::data_structures::heap::is_hash_map(heap@, a@)
                && crate::runtime::data_structures::heap::is_hash_map(heap@, b@) {
                match plainly_same_entries(heap@[x as int]->Hash_0@, heap@[y as int]->Hash_0@) {
                    Some(equal) => r == equal,
                    None => true,
                }
            } else {
                !r
            },
            (ValueView::DataObject(x), ValueView::DataObject(y)) => x != y ==> if
                crate::runtime::data_structures::heap::is_data_object(heap@, a@)
                && crate::runtime::data_structures::heap::is_data_object(heap@, b@) {
                let p = heap@[x as int]->Object_0;
                let q = heap@[y as int]->Object_0;
                if p.definition_ptr.spec_name() != q.definition_ptr.spec_name() {
                    !r
                } else {
                    match plainly_all(p.fields@, q.fields@) {
                        Some(equal) => r == equal,
                        None => true,
                    }
                }
            } else {
                !r
            },
            _ => true,
        },
        match (a@, b@) {
            (ValueView::ByteBuffer(x), ValueView::ByteBuffer(y)) => x != y ==> if
                crate::runtime::data_structures::heap::is_byte_buffer(heap@, a@)
                && crate::runtime::data_structures::heap::is_byte_buffer(heap@, b@) {
                let p = heap@[x as int]->Buffer_0;
                let q = heap@[y as int]->Buffer_0;
                r == (p.spec_bytes() == q.spec_bytes() && p.spec_position() == q.spec_position())
            } else {
                !r
            },
            _ => true,
        },
    decreases depth, 0int,
{
    if a.is_numeric() && b.is_numeric() {
        if a.is_float_number() || b.is_float_number() {
            host.float_equal(a.get_float_val(host), b.get_float_val(host))
        } else {
            a.get_int_val(host) == b.get_int_val(host)
        }
    } else if a.is_text() && b.is_text() {
        a.get_string_val(host) == b.get_string_val(host)
    } else {
        match (a, b) {
            (Value::Vec(x), Value::Vec(y)) => {
                if *x == *y {
                    return true;
                }
                if depth == 0 {
                    return false;
                }
                match (heap.vec(*x), heap.vec(*y)) {
                    (Some(p), Some(q)) => {
                        let left = p.to_vec();
                        let right = q.to_vec();
                        proof {
                            assert(values_view(left@).len() == left@.len());
                            assert(values_view(right@).len() == right@.len());
                            assert(values_view(p@).len() == p@.len());
                            assert(values_view(q@).len() == q@.len());
                            assert forall|i: int| 0 <= i < left@.len() implies left@[i]@
                                == p@[i]@ by {
                                assert(values_view(left@)[i] == left@[i]@);
                                assert(values_view(p@)[i] == p@[i]@);
                            }
                            assert forall|i: int| 0 <= i < right@.len() implies right@[i]@
                                == q@[i]@ by {
                                assert(values_view(right@)[i] == right@[i]@);
                                assert(values_view(q@)[i] == q@[i]@);
                            }
                            assert(plainly_all(left@, right@) == plainly_all(p@, q@));
                        }
                        all_equal(host, heap, &left, &right, depth - 1)
                    },
                    _ => false,
                }
            },
            (Value::HashMap(x), Value::HashMap(y)) => {
                if *x == *y {
                    return true;
                }
                if depth == 0 {
                    return false;
                }
                match (heap.hash(*x), heap.hash(*y)) {
                    (Some(p), Some(q)) => {
                        if p.len() != q.len() {
                            return false;
                        }
                        let entries = p.iter();
                        let mut i: usize = 0;
                        while i < entries.len()
                            invariant
                                i <= entries@.len(),
                                depth > 0,
                                forall|j: int|
                                    0 <= j < i ==> plainly_held(#[trigger] p@[j], q@) != Some(false),
                            decreases entries@.len() - i,
                        {
                            match q.get(&entries[i].0) {
                                Some(other) => {
                                    if !values_equal(host, heap, &entries[i].1, other, depth - 1) {
                                        assert(plainly_held(p@[i as int], q@) != Some(true));
                                        return false;
                                    }
                                },
                                None => {
                                    assert(plainly_held(p@[i as int], q@) == Some(false));
                                    return false;
                                },
                            }
                            i += 1;
                        }
                        true
                    },
                    _ => false,
                }
            },
            (Value::DataObject(x), Value::DataObject(y)) => {
                if *x == *y {
                    return true;
                }
                if depth == 0 {
                    return false;
                }
                match (heap.object(*x), heap.object(*y)) {
                    (Some(p), Some(q)) => {
                        if *p.definition_ptr.name() != *q.definition_ptr.name() {
                            return false;
                        }
                        all_equal(host, heap, &p.fields, &q.fields, depth - 1)
                    },
                    _ => false,
                }
            },
            (Value::ByteBuffer(x), Value::ByteBuffer(y)) => {
                if *x == *y {
                    return true;
                }
                match (heap.buffer(*x), heap.buffer(*y)) {
                    (Some(p), Some(q)) => {
                        if p.position() != q.position() || p.len() != q.len() {
                            return false;
                        }
                        let left = p.bytes();
                        let right = q.bytes();
                        let mut i: usize = 0;
                        while i < left.len()
                            invariant
                                left@.len() == right@.len(),
                                i <= left@.len(),
                                forall|j: int| 0 <= j < i ==> left@[j] == right@[j],
                            decreases left@.len() - i,
                        {
                            if left[i] != right[i] {
                                return false;
                            }
                            i += 1;
                        }
                        assert(left@ =~= right@);
                        true
                    },
                    _ => false,
                }
            },
            (Value::Code(x), Value::Code(y)) => same_code(x, y),
            _ => false,
        }
    }
}

/// Takes the two top values off the stack, the second from the top first in
/// the result.
pub fn pop_two(interpreter: &mut SorthInterpreter) -> (r: Result<(Value, Value)>)
    ensures
        final(interpreter).same_but_stack(old(interpreter)),
        r is Ok <==> old(interpreter).stack_view().len() >= 2,
        r is Ok ==> {
            let before = old(interpreter).stack_view();
            let n = before.len() as int;
            &&& r->Ok_0.0 == before[n - 2]
            &&& r->Ok_0.1 == before[n - 1]
            &&& final(interpreter).stack_view() == before.take(n - 2)
        },
        r is Err ==> final(interpreter).stack_view().len() + 1 >= old(interpreter).stack_view().len(),
{
    let b = match interpreter.pop() {
        Ok(value) => value,
        Err(e) => {
            return Err(e);
        },
    };
    let a = match interpreter.pop() {
        Ok(value) => value,
        Err(e) => {
            return Err(e);
        },
    };
    proof {
        let before = old(interpreter).stack_view();
        let n = before.len() as int;
        assert(before.drop_last().drop_last() =~= before.take(n - 2));
    }
    Ok((a, b))
}

/// What an arithmetic operation makes of the two values on top of the stack
/// `before`, where `after` is the stack after it and `r` its result. It fails
/// on a value that does not count as a number. Where one of the two is a
/// floating point number it pushes a floating point number, which the host
/// computes. Else it pushes the integer that the operation gives, and fails
/// where it gives none.
pub open spec fn computed(op: MathOp, before: Seq<Value>, after: Seq<Value>, r: Result<()>) -> bool {
    let n = before.len() as int;
    let a = before[n - 2]@;
    let b = before[n - 1]@;
    if !is_numeric_view(a) || !is_numeric_view(b) {
        r is Err
    } else if is_float_view(a) || is_float_view(b) {
        &&& r is Ok
        &&& after.take(n - 2) == before.take(n - 2)
        &&& after.len() == n - 1
        &&& after.last()@ is Float
    } else {
        match int_result(op, int_of_view(a)->0, int_of_view(b)->0) {
            Some(v) => r is Ok && after == before.take(n - 2).push(Value::Int(v)),
            None => r is Err,
        }
    }
}

/// An operation of arithmetic on the two top values of the stack, which it
/// takes off, and the result of which it pushes. Two numbers are worked on as
/// floating point numbers, by the host, where one of them is one, and as
/// integers where none is. Fails where the stack holds fewer than two values,
/// where one of them is no number, and where the integers have no result.
pub fn math_op<H: Host>(interpreter: &mut SorthInterpreter, host: &H, op: MathOp) -> (r: Result<()>)
    requires
        old(interpreter).wf(),
    ensures
        final(interpreter).stable(old(interpreter)),
        final(interpreter).same_but_stack(old(interpreter)),
        r is Ok ==> final(interpreter).stack_view().len() + 1 == old(interpreter).stack_view().len(),
        old(interpreter).stack_view().len() >= 2 ==> computed(
            op,
            old(interpreter).stack_view(),
            final(interpreter).stack_view(),
            r,
        ),
        old(interpreter).stack_view().len() < 2 ==> r is Err,
{
    let (a, b) = match pop_two(interpreter) {
        Ok(pair) => pair,
        Err(e) => {
            return Err(e);
        },
    };
    if !a.is_numeric() || !b.is_numeric() {
        return script_error_str(interpreter, "Value incompatible with numeric op.");
    }
    if a.is_float_number() || b.is_float_number() {
        let x = a.get_float_val(host);
        let y = b.get_float_val(host);
        let result = match op {
            MathOp::Add => host.float_add(x, y),
            MathOp::Subtract => host.float_subtract(x, y),
            MathOp::Multiply => host.float_multiply(x, y),
            MathOp::Divide => host.float_divide(x, y),
            MathOp::Modulo => host.float_remainder(x, y),
        };
        let ghost popped = interpreter.stack_view();
        interpreter.push(Value::Float(result));
        assert(interpreter.stack_view().take(popped.len() as int) =~= popped);
        Ok(())
    } else {
        match int_math(op, a.get_int_val(host), b.get_int_val(host)) {
            Some(result) => {
                interpreter.push(Value::Int(result));
                Ok(())
            },
            None => script_error_str(interpreter, "Division by zero."),
        }
    }
}

/// `+`: adds two numbers, or joins two values of which one is a text into
/// one string.
pub fn word_add<H: Host>(interpreter: &mut SorthInterpreter, host: &H) -> (r: Result<()>)
    requires
        old(interpreter).wf(),
    ensures
        final(interpreter).stable(old(interpreter)),
        final(interpreter).same_but_stack(old(interpreter)),
        r is Ok ==> final(interpreter).stack_view().len() + 1 == old(interpreter).stack_view().len(),
        old(interpreter).stack_view().len() >= 2 ==> {
            let before = old(interpreter).stack_view();
            let after = final(interpreter).stack_view();
            let n = before.len() as int;
            let a = before[n - 2]@;
            let b = before[n - 1]@;
            if !is_text_view(a) && !is_text_view(b) {
                computed(MathOp::Add, before, after, r)
            } else if !is_stringable_view(a) || !is_stringable_view(b) {
                r is Err
            } else {
                &&& r is Ok
                &&& after.take(n - 2) == before.take(n - 2)
                &&& after.last()@ is String
                &&& string_of_view(a) is Some && string_of_view(b) is Some ==> after.last()@
                    == ValueView::String(string_of_view(a)->0 + string_of_view(b)->0)
            }
        },
        old(interpreter).stack_view().len() >= 2 && old(interpreter).stack_view()[old(interpreter).stack_view().len() - 2]@ is Int && old(interpreter).stack_view().last()@ is Int ==> r is Ok
            && final(interpreter).stack_view() == old(interpreter).stack_view().take(
            old(interpreter).stack_view().len() - 2,
        ).push(
            Value::Int(
                old(interpreter).stack_view()[old(interpreter).stack_view().len()
                    - 2]@->Int_0.wrapping_add(old(interpreter).stack_view().last()@->Int_0),
            ),
        ),
        old(interpreter).stack_view().len() < 2 ==> r is Err,
{
    let ghost before = interpreter.stack_view();
    let count = interpreter.stack().len();
    let textual = count >= 2 && (interpreter.stack()[count - 1].is_text()
        || interpreter.stack()[count - 2].is_text());
    if !textual {
        return math_op(interpreter, host, MathOp::Add);
    }
    let (a, b) = match pop_two(interpreter) {
        Ok(pair) => pair,
        Err(e) => {
            return Err(e);
        },
    };
    if !a.is_stringable() || !b.is_stringable() {
        return script_error_str(interpreter, "Value incompatible with string op.");
    }
    let mut joined = a.get_string_val(host);
    joined.append(b.get_string_val(host).as_str());
    interpreter.push(Value::String(joined));
    assert(interpreter.stack_view().take(count - 2) =~= before.take(count - 2));
    Ok(())
}

/// `&&` and `||`: the conjunction or the disjunction of the truths of the two
/// top values.
pub fn logic_op(interpreter: &mut SorthInterpreter, conjunction: bool) -> (r: Result<()>)
    requires
        old(interpreter).wf(),
    ensures
        final(interpreter).stable(old(interpreter)),
        final(interpreter).same_but_stack(old(interpreter)),
        r is Ok <==> old(interpreter).stack_view().len() >= 2,
        r is Ok ==> {
            let before = old(interpreter).stack_view();
            let n = before.len() as int;
            let x = crate::runtime::data_structures::value::bool_of_view(before[n - 2]@);
            let y = crate::runtime::data_structures::value::bool_of_view(before[n - 1]@);
            final(interpreter).stack_view() == before.take(n - 2).push(
                Value::Bool(
                    if conjunction {
                        x && y
                    } else {
                        x || y
                    },
                ),
            )
        },
{
    let (a, b) = match pop_two(interpreter) {
        Ok(pair) => pair,
        Err(e) => {
            return Err(e);
        },
    };
    let x = a.get_bool_val();
    let y = b.get_bool_val();
    let result = if conjunction {
        x && y
    } else {
        x || y
    };
    interpreter.push(Value::Bool(result));
    Ok(())
}

/// `'`: the negation of the truth of the top value.
pub fn word_logic_not(interpreter: &mut SorthInterpreter) -> (r: Result<()>)
    requires
        old(interpreter).wf(),
    ensures
        final(interpreter).stable(old(interpreter)),
        final(interpreter).same_but_stack(old(interpreter)),
        r is Ok ==> old(interpreter).stack_view().len() > 0,
        r is Ok ==> final(interpreter).stack_view() == old(interpreter).stack_view().drop_last().push(
            Value::Bool(
                !crate::runtime::data_structures::value::bool_of_view(
                    old(interpreter).stack_view().last()@,
                ),
            ),
        ),
        r is Err ==> final(interpreter).stack_view() == old(interpreter).popped(),
{
    let a = match interpreter.pop_as_bool() {
        Ok(value) => value,
        Err(e) => {
            return Err(e);
        },
    };
    interpreter.push(Value::Bool(!a));
    Ok(())
}

/// An operation on the bits of the two top values of the stack, which it
/// takes off, and the result of which it pushes. Fails where the stack holds
/// fewer than two values or one of them is no number.
pub fn logic_bit_op<H: Host>(interpreter: &mut SorthInterpreter, host: &H, op: BitOp) -> (r: Result<
    (),
>)
    requires
        old(interpreter).wf(),
    ensures
        final(interpreter).stable(old(interpreter)),
        final(interpreter).same_but_stack(old(interpreter)),
        r is Ok ==> final(interpreter).stack_view().len() + 1 == old(interpreter).stack_view().len(),
        old(interpreter).stack_view().len() >= 2 ==> {
            let before = old(interpreter).stack_view();
            let n = before.len() as int;
            before[n - 2]@ is Int && before[n - 1]@ is Int ==> r is Ok && final(interpreter).stack_view() == before.take(n - 2).push(
                Value::Int(bit_result(op, before[n - 2]@->Int_0, before[n - 1]@->Int_0)),
            )
        },
        old(interpreter).stack_view().len() < 2 ==> r is Err,
{
    let (a, b) = match pop_two(interpreter) {
        Ok(pair) => pair,
        Err(e) => {
            return Err(e);
        },
    };
    if !a.is_numeric() || !b.is_numeric() {
        return script_error_str(interpreter, "Both bit logic operation values must be numeric.");
    }
    let result = bit_math(op, a.get_int_val(host), b.get_int_val(host));
    interpreter.push(Value::Int(result));
    Ok(())
}

/// `~`: the complement of the bits of the top value, which for an integer
/// `a` in two's complement is `-1 - a`.
pub fn word_bit_not<H: Host>(interpreter: &mut SorthInterpreter, host: &H) -> (r: Result<()>)
    requires
        old(interpreter).wf(),
    ensures
        final(interpreter).stable(old(interpreter)),
        final(interpreter).same_but_stack(old(interpreter)),
        r is Ok ==> final(interpreter).stack_view().len() == old(interpreter).stack_view().len(),
        r is Ok && old(interpreter).stack_view().last()@ is Int ==> final(interpreter).stack_view()
            == old(interpreter).stack_view().drop_last().push(
            Value::Int((-1 - old(interpreter).stack_view().last()@->Int_0) as i64),
        ),
        r is Err ==> final(interpreter).stack_view() == old(interpreter).popped(),
{
    let a = match interpreter.pop_as_int(host) {
        Ok(value) => value,
        Err(e) => {
            return Err(e);
        },
    };
    interpreter.push(Value::Int(-1 - a));
    Ok(())
}

/// Whether two values are equal, where neither the heap nor the host has a
/// part in it. Two values that count as numbers, none of them a floating
/// point number, are equal as integers, a boolean counting as 0 or 1. Two
/// texts are equal where they hold the same characters. A container equals
/// itself, and code equals code that holds the same. Two values of
/// different kinds are not equal.
pub open spec fn plainly_equal(a: ValueView, b: ValueView) -> Option<bool> {
    if is_numeric_view(a) && is_numeric_view(b) {
        if is_float_view(a) || is_float_view(b) {
            None
        } else {
            Some(int_of_view(a)->0 == int_of_view(b)->0)
        }
    } else if is_text_view(a) && is_text_view(b) {
        Some(string_of_view(a)->0 == string_of_view(b)->0)
    } else {
        match (a, b) {
            (ValueView::Vec(x), ValueView::Vec(y)) => if x == y {
                Some(true)
            } else {
                None
            },
            (ValueView::HashMap(x), ValueView::HashMap(y)) => if x == y {
                Some(true)
            } else {
                None
            },
            (ValueView::DataObject(x), ValueView::DataObject(y)) => if x == y {
                Some(true)
            } else {
                None
            },
            (ValueView::ByteBuffer(x), ValueView::ByteBuffer(y)) => if x == y {
                Some(true)
            } else {
                None
            },
            (ValueView::Code(x), ValueView::Code(y)) => Some(x == y),
            _ => Some(false),
        }
    }
}

/// Whether the values of two sequences are equal one by one, where neither
/// the heap nor the host has a part in it: not where the sequences differ in
/// length or in a value, and so where they agree in every value.
pub open spec fn plainly_all(a: Seq<Value>, b: Seq<Value>) -> Option<bool> {
    if a.len() != b.len() {
        Some(false)
    } else if exists|i: int| 0 <= i < a.len() && plainly_equal((#[trigger] a[i])@, b[i]@) == Some(false) {
        Some(false)
    } else if forall|i: int| 0 <= i < a.len() ==> plainly_equal((#[trigger] a[i])@, b[i]@) == Some(true) {
        Some(true)
    } else {
        None
    }
}

/// Whether the value of an entry equals the value that other entries hold
/// under the key of the entry, where neither the heap nor the host has a
/// part in it: not where they hold no value under that key.
pub open spec fn plainly_held(entry: (Value, Value), other: Seq<(Value, Value)>) -> Option<bool> {
    match crate::runtime::data_structures::value_hash::entry_value(other, entry.0@) {
        Some(value) => plainly_equal(entry.1@, value@),
        None => Some(false),
    }
}

/// Whether two hash maps hold equal values under the same keys, where
/// neither the heap nor the host has a part in it: not where they differ in
/// size or in the value under a key.
pub open spec fn plainly_same_entries(a: Seq<(Value, Value)>, b: Seq<(Value, Value)>) -> Option<
    bool,
> {
    if a.len() != b.len() {
        Some(false)
    } else if exists|i: int| 0 <= i < a.len() && plainly_held(#[trigger] a[i], b) == Some(false) {
        Some(false)
    } else if forall|i: int| 0 <= i < a.len() ==> plainly_held(#[trigger] a[i], b) == Some(true) {
        Some(true)
    } else {
        None
    }
}

/// Whether two values are equal whatever the heap holds and the host says:
/// they are plainly equal, or they are the same container.
pub open spec fn surely_equal(a: ValueView, b: ValueView) -> bool {
    plainly_equal(a, b) == Some(true)
}

/// How two values are ordered, where the host has no part in it: two values
/// that count as numbers, none of them a floating point number, as
/// integers, a boolean counting as 0 or 1; two texts by their characters;
/// and any other two values not at all.
pub open spec fn plain_order(a: ValueView, b: ValueView) -> Option<Comparison> {
    if is_numeric_view(a) && is_numeric_view(b) {
        if is_float_view(a) || is_float_view(b) {
            None
        } else {
            Some(compare_ints(int_of_view(a)->0, int_of_view(b)->0))
        }
    } else if is_text_view(a) && is_text_view(b) {
        Some(compare_texts(string_of_view(a)->0, string_of_view(b)->0))
    } else {
        Some(Comparison::Unordered)
    }
}

/// `=`: whether the two top values are equal.
pub fn word_equal<H: Host>(interpreter: &mut SorthInterpreter, host: &H) -> (r: Result<()>)
    requires
        old(interpreter).wf(),
    ensures
        final(interpreter).stable(old(interpreter)),
        final(interpreter).same_but_stack(old(interpreter)),
        r is Ok <==> old(interpreter).stack_view().len() >= 2,
        r is Ok ==> {
            let before = old(interpreter).stack_view();
            let n = before.len() as int;
            &&& final(interpreter).stack_view().len() == n - 1
            &&& final(interpreter).stack_view().take(n - 2) == before.take(n - 2)
            &&& final(interpreter).stack_view().last()@ is Bool
            &&& match plainly_equal(before[n - 2]@, before[n - 1]@) {
                Some(equal) => final(interpreter).stack_view().last()@ == ValueView::Bool(equal),
                None => true,
            }
        },
{
    let ghost before = interpreter.stack_view();
    let (a, b) = match pop_two(interpreter) {
        Ok(pair) => pair,
        Err(e) => {
            return Err(e);
        },
    };
    let result = values_equal(host, interpreter.heap(), &a, &b, crate::runtime::data_structures::heap::MAX_NESTING);
    interpreter.push(Value::Bool(result));
    assert(interpreter.stack_view().take(before.len() - 2) =~= before.take(before.len() - 2));
    Ok(())
}

/// The words that order two values.
#[derive(Clone, Copy, Debug, PartialEq, Eq, Structural)]
pub enum OrderOp {
    GreaterEqual,
    LessEqual,
    Greater,
    Less,
}

/// Whether a comparison is what an order word asks for.
pub open spec fn order_holds(op: OrderOp, comparison: Comparison) -> bool {
    match op {
        OrderOp::GreaterEqual => comparison == Comparison::Greater || comparison
            == Comparison::Equal,
        OrderOp::LessEqual => comparison == Comparison::Less || comparison == Comparison::Equal,
        OrderOp::Greater => comparison == Comparison::Greater,
        OrderOp::Less => comparison == Comparison::Less,
    }
}

/// `>=`, `<=`, `>` and `<`: whether the two top values stand in the order.
pub fn order_op<H: Host>(interpreter: &mut SorthInterpreter, host: &H, op: OrderOp) -> (r: Result<
    (),
>)
    requires
        old(interpreter).wf(),
    ensures
        final(interpreter).stable(old(interpreter)),
        final(interpreter).same_but_stack(old(interpreter)),
        r is Ok <==> old(interpreter).stack_view().len() >= 2,
        r is Ok ==> {
            let before = old(interpreter).stack_view();
            let n = before.len() as int;
            &&& final(interpreter).stack_view().len() == n - 1
            &&& final(interpreter).stack_view().take(n - 2) == before.take(n - 2)
            &&& final(interpreter).stack_view().last()@ is Bool
            &&& match plain_order(before[n - 2]@, before[n - 1]@) {
                Some(order) => final(interpreter).stack_view().last()@ == ValueView::Bool(
                    order_holds(op, order),
                ),
                None => true,
            }
        },
{
    let ghost before = interpreter.stack_view();
    let (a, b) = match pop_two(interpreter) {
        Ok(pair) => pair,
        Err(e) => {
            return Err(e);
        },
    };
    let comparison = compare_values(host, &a, &b);
    let result = match op {
        OrderOp::GreaterEqual => comparison == Comparison::Greater || comparison
            == Comparison::Equal,
        OrderOp::LessEqual => comparison == Comparison::Less || comparison == Comparison::Equal,
        OrderOp::Greater => comparison == Comparison::Greater,
        OrderOp::Less => comparison == Comparison::Less,
    };
    interpreter.push(Value::Bool(result));
    assert(interpreter.stack_view().take(before.len() - 2) =~= before.take(before.len() - 2));
    Ok(())
}

} // verus!
