//! The heap of the interpreter: the containers that values share.

use vstd::prelude::*;
use crate::lang::code::bare_code;
use crate::lang::code::bare_op;
use crate::runtime::error::location_option_view;
use crate::lang::code::carried;
use crate::lang::code::code_view;
use crate::lang::code::op_operand;
use crate::lang::code::op_with_operand;
use crate::lang::code::operand_of;
use crate::lang::code::operands;
use crate::lang::code::ByteCode;
use crate::lang::code::Instruction;
use crate::lang::code::InstructionView;
use crate::runtime::data_structures::byte_buffer::Buffer;
use crate::runtime::data_structures::byte_buffer::ByteBuffer;
use crate::runtime::data_structures::data_object::share;
use crate::runtime::data_structures::data_object::DataObject;
use crate::runtime::data_structures::value::clone_value;
use crate::runtime::data_structures::value::Value;
use crate::runtime::data_structures::value::ValueView;
use crate::runtime::data_structures::value_hash::entry_value;
use crate::runtime::data_structures::value_hash::is_key;
use crate::runtime::data_structures::value_hash::lemma_found;
use crate::runtime::data_structures::value_hash::ValueHash;
use crate::runtime::data_structures::value_vec::values_view;
use crate::runtime::data_structures::value_vec::ValueVec;

verus! {

/// A container of the heap.
#[derive(Debug)]
pub enum HeapCell {
    Vec(ValueVec),
    Hash(ValueHash),
    Object(DataObject),
    Buffer(ByteBuffer),
}

/// The invariant of a container of the heap.
pub open spec fn cell_wf(cell: HeapCell) -> bool {
    match cell {
        HeapCell::Vec(_) => true,
        HeapCell::Hash(hash) => hash.wf(),
        HeapCell::Object(_) => true,
        HeapCell::Buffer(buffer) => buffer.buffer_wf(),
    }
}

/// Whether a value is an array of the heap.
pub open spec fn is_array(heap: Seq<HeapCell>, value: ValueView) -> bool {
    match value {
        ValueView::Vec(handle) => handle < heap.len() && heap[handle as int] is Vec,
        _ => false,
    }
}

/// Whether a value is a hash map of the heap.
pub open spec fn is_hash_map(heap: Seq<HeapCell>, value: ValueView) -> bool {
    match value {
        ValueView::HashMap(handle) => handle < heap.len() && heap[handle as int] is Hash,
        _ => false,
    }
}

/// Whether a value is a data object of the heap.
pub open spec fn is_data_object(heap: Seq<HeapCell>, value: ValueView) -> bool {
    match value {
        ValueView::DataObject(handle) => handle < heap.len() && heap[handle as int] is Object,
        _ => false,
    }
}

/// Whether a value is a byte buffer of the heap.
pub open spec fn is_byte_buffer(heap: Seq<HeapCell>, value: ValueView) -> bool {
    match value {
        ValueView::ByteBuffer(handle) => handle < heap.len() && heap[handle as int] is Buffer,
        _ => false,
    }
}

/// The containers that the values of an interpreter share. A value holds the
/// handle of its container, which is the index of the container here. A
/// container stays on the heap for as long as the heap lives: the heap frees
/// no container, also where no value holds its handle any more, and gives no
/// handle out twice. What a script has made is given back when its
/// interpreter is dropped.
#[derive(Debug)]
pub struct Heap {
    pub cells: Vec<HeapCell>,
}

impl View for Heap {
    type V = Seq<HeapCell>;

    open spec fn view(&self) -> Seq<HeapCell> {
        self.cells@
    }
}

/// What a value holds, containers followed into the heap: a value that is no
/// container as it is, an array as the structures of its values, a hash map
/// as the structures of its keys and of its values, a data object as the name of
/// its definition and the structures of its fields, a byte buffer as its
/// bytes and the position of its cursor, and a block of code as its
/// instructions and the structures of the values that they carry. Two values
/// with the same structure hold the same, in whatever containers.
pub enum Structure {
    Plain(ValueView),
    Array(Seq<Structure>),
    Table(Seq<Structure>, Seq<Structure>),
    Object(Seq<char>, Seq<Structure>),
    Buffer(Seq<u8>, nat),
    Code(Seq<InstructionView>, Seq<Structure>),
}

/// Whether a value is no container of the heap and holds none: it is no
/// block of code either, whose instructions may carry containers.
pub open spec fn is_plain(value: ValueView) -> bool {
    !(value is Vec || value is HashMap || value is DataObject || value is ByteBuffer
        || value is Code)
}

/// Whether no key of the entries is a block of code.
pub open spec fn no_code_keys(entries: Seq<(Value, Value)>) -> bool {
    forall|i: int| 0 <= i < entries.len() ==> !((#[trigger] entries[i]).0@ is Code)
}

/// The handle of the container that a value is; -1 for a value that is no
/// container.
pub open spec fn handle_of(value: ValueView) -> int {
    match value {
        ValueView::Vec(handle) => handle as int,
        ValueView::HashMap(handle) => handle as int,
        ValueView::DataObject(handle) => handle as int,
        ValueView::ByteBuffer(handle) => handle as int,
        _ => -1,
    }
}

/// The keys of the entries of a hash map.
pub open spec fn entry_keys(entries: Seq<(Value, Value)>) -> Seq<Value> {
    Seq::new(entries.len(), |i: int| entries[i].0)
}

/// The values of the entries of a hash map.
pub open spec fn entry_values(entries: Seq<(Value, Value)>) -> Seq<Value> {
    Seq::new(entries.len(), |i: int| entries[i].1)
}

/// The structure of a value in a heap, where the value has one within `fuel`
/// levels of nesting and all the containers that it reaches have handles from
/// `floor` on. A value has no structure where it reaches a handle of no
/// container of its kind, where a hash map that it reaches has a block of
/// code as a key, and where its containers and blocks of code are nested
/// deeper than `fuel` allows.
pub open spec fn structure_above(heap: Seq<HeapCell>, value: Value, fuel: nat, floor: nat) -> Option<
    Structure,
>
    decreases fuel, 0nat, 0nat,
{
    match value {
        Value::Vec(handle) => if floor <= handle < heap.len() && heap[handle as int] is Vec && fuel
            > 0 {
            match structures_above(heap, heap[handle as int]->Vec_0@, (fuel - 1) as nat, floor) {
                Some(items) => Some(Structure::Array(items)),
                None => None,
            }
        } else {
            None
        },
        Value::HashMap(handle) => if floor <= handle < heap.len() && heap[handle as int] is Hash
            && fuel > 0 && no_code_keys(heap[handle as int]->Hash_0@) {
            match (
                structures_above(
                    heap,
                    entry_keys(heap[handle as int]->Hash_0@),
                    (fuel - 1) as nat,
                    floor,
                ),
                structures_above(
                    heap,
                    entry_values(heap[handle as int]->Hash_0@),
                    (fuel - 1) as nat,
                    floor,
                ),
            ) {
                (Some(keys), Some(items)) => Some(Structure::Table(keys, items)),
                _ => None,
            }
        } else {
            None
        },
        Value::DataObject(handle) => if floor <= handle < heap.len()
            && heap[handle as int] is Object && fuel > 0 {
            match structures_above(
                heap,
                heap[handle as int]->Object_0.fields@,
                (fuel - 1) as nat,
                floor,
            ) {
                Some(items) => Some(
                    Structure::Object(
                        heap[handle as int]->Object_0.definition_ptr.spec_name(),
                        items,
                    ),
                ),
                None => None,
            }
        } else {
            None
        },
        Value::ByteBuffer(handle) => if floor <= handle < heap.len()
            && heap[handle as int] is Buffer {
            Some(
                Structure::Buffer(
                    heap[handle as int]->Buffer_0.spec_bytes(),
                    heap[handle as int]->Buffer_0.spec_position(),
                ),
            )
        } else {
            None
        },
        Value::Code(code) => if fuel > 0 {
            match structures_above(heap, operands(code@), (fuel - 1) as nat, floor) {
                Some(items) => Some(Structure::Code(bare_code(code@), items)),
                None => None,
            }
        } else {
            None
        },
        other => Some(Structure::Plain(other@)),
    }
}

/// The structures of the values of a sequence, where each of them has one.
pub open spec fn structures_above(
    heap: Seq<HeapCell>,
    values: Seq<Value>,
    fuel: nat,
    floor: nat,
) -> Option<Seq<Structure>>
    decreases fuel, 1nat, values.len(),
{
    if values.len() == 0 {
        Some(Seq::empty())
    } else {
        match (
            structures_above(heap, values.drop_last(), fuel, floor),
            structure_above(heap, values.last(), fuel, floor),
        ) {
            (Some(items), Some(item)) => Some(items.push(item)),
            _ => None,
        }
    }
}

/// The structure of a value in a heap, where it has one within `fuel` levels
/// of nesting.
pub open spec fn structure(heap: Seq<HeapCell>, value: Value, fuel: nat) -> Option<Structure> {
    structure_above(heap, value, fuel, 0)
}

/// Whether a heap holds all the containers of another, under the same
/// handles, and maybe more after them.
pub open spec fn extends(heap: Seq<HeapCell>, base: Seq<HeapCell>) -> bool {
    heap.len() >= base.len() && heap.take(base.len() as int) == base
}

/// A heap extends itself.
pub proof fn lemma_extends_self(heap: Seq<HeapCell>)
    ensures
        extends(heap, heap),
{
    assert(heap.take(heap.len() as int) =~= heap);
}

/// A heap with one more container extends the heap without it.
pub proof fn lemma_extends_push(heap: Seq<HeapCell>, cell: HeapCell)
    ensures
        extends(heap.push(cell), heap),
{
    assert(heap.push(cell).take(heap.len() as int) =~= heap);
}

/// A heap that extends a heap that extends a third extends the third.
pub proof fn lemma_extends_transitive(heap: Seq<HeapCell>, middle: Seq<HeapCell>, base: Seq<HeapCell>)
    requires
        extends(heap, middle),
        extends(middle, base),
    ensures
        extends(heap, base),
{
    assert(heap.take(base.len() as int) =~= base) by {
        assert forall|i: int| 0 <= i < base.len() implies heap[i] == base[i] by {
            assert(heap.take(middle.len() as int)[i] == middle[i]);
            assert(middle.take(base.len() as int)[i] == base[i]);
        }
    }
}

/// The structures of a sequence are the structures of its values.
pub proof fn lemma_structures_elements(heap: Seq<HeapCell>, values: Seq<Value>, fuel: nat, floor: nat)
    requires
        structures_above(heap, values, fuel, floor) is Some,
    ensures
        structures_above(heap, values, fuel, floor)->0.len() == values.len(),
        forall|i: int|
            0 <= i < values.len() ==> structure_above(heap, #[trigger] values[i], fuel, floor)
                == Some(structures_above(heap, values, fuel, floor)->0[i]),
    decreases values.len(),
{
    if values.len() > 0 {
        lemma_structures_elements(heap, values.drop_last(), fuel, floor);
        assert forall|i: int| 0 <= i < values.len() implies structure_above(
            heap,
            #[trigger] values[i],
            fuel,
            floor,
        ) == Some(structures_above(heap, values, fuel, floor)->0[i]) by {
            if i < values.len() - 1 {
                assert(values.drop_last()[i] == values[i]);
            }
        }
    }
}

/// Values that each have a structure have these structures as a sequence.
pub proof fn lemma_structures_from_elements(
    heap: Seq<HeapCell>,
    values: Seq<Value>,
    fuel: nat,
    floor: nat,
    items: Seq<Structure>,
)
    requires
        items.len() == values.len(),
        forall|i: int|
            0 <= i < values.len() ==> structure_above(heap, #[trigger] values[i], fuel, floor)
                == Some(items[i]),
    ensures
        structures_above(heap, values, fuel, floor) == Some(items),
    decreases values.len(),
{
    if values.len() == 0 {
        assert(items =~= Seq::<Structure>::empty());
    } else {
        assert forall|i: int| 0 <= i < values.drop_last().len() implies structure_above(
            heap,
            #[trigger] values.drop_last()[i],
            fuel,
            floor,
        ) == Some(items.drop_last()[i]) by {
            assert(values.drop_last()[i] == values[i]);
        }
        lemma_structures_from_elements(heap, values.drop_last(), fuel, floor, items.drop_last());
        assert(structure_above(heap, values.last(), fuel, floor) == Some(items.last())) by {
            assert(values[values.len() - 1] == values.last());
        }
        assert(items.drop_last().push(items.last()) =~= items);
    }
}

/// The structure of a value goes by what the value holds: values that hold
/// the same have the same structure.
pub proof fn lemma_structure_view(heap: Seq<HeapCell>, a: Value, b: Value, fuel: nat, floor: nat)
    requires
        a@ == b@,
    ensures
        structure_above(heap, a, fuel, floor) == structure_above(heap, b, fuel, floor),
    decreases fuel, 0nat, 0nat,
{
    match (a, b) {
        (Value::Code(x), Value::Code(y)) => {
            if fuel > 0 {
                lemma_code_views(x@, y@);
                lemma_structures_views(
                    heap,
                    operands(x@),
                    operands(y@),
                    (fuel - 1) as nat,
                    floor,
                );
            }
        },
        _ => {},
    }
}

/// Blocks of code that hold the same have the same instructions, and these
/// carry values that hold the same.
pub proof fn lemma_code_views(x: Seq<Instruction>, y: Seq<Instruction>)
    requires
        code_view(x) == code_view(y),
    ensures
        bare_code(x) == bare_code(y),
        values_view(operands(x)) == values_view(operands(y)),
{
    assert(x.len() == code_view(x).len());
    assert(y.len() == code_view(y).len());
    assert forall|i: int| 0 <= i < x.len() implies x[i]@ == y[i]@ by {
        assert(code_view(x)[i] == x[i]@);
        assert(code_view(y)[i] == y[i]@);
    }
    assert(bare_code(x) =~= bare_code(y));
    assert forall|i: int| 0 <= i < x.len() implies carried(x[i].op)@ == carried(y[i].op)@ by {
        assert(x[i]@ == y[i]@);
    }
    assert(values_view(operands(x)) =~= values_view(operands(y)));
}

/// Sequences of values that hold the same have the same structures.
pub proof fn lemma_structures_views(
    heap: Seq<HeapCell>,
    a: Seq<Value>,
    b: Seq<Value>,
    fuel: nat,
    floor: nat,
)
    requires
        values_view(a) == values_view(b),
    ensures
        structures_above(heap, a, fuel, floor) == structures_above(heap, b, fuel, floor),
    decreases fuel, 1nat, a.len(),
{
    assert(a.len() == values_view(a).len());
    assert(b.len() == values_view(b).len());
    if a.len() > 0 {
        assert(values_view(a.drop_last()) =~= values_view(b.drop_last())) by {
            assert forall|i: int| 0 <= i < a.len() - 1 implies a.drop_last()[i]@
                == b.drop_last()[i]@ by {
                assert(values_view(a)[i] == a[i]@);
                assert(values_view(b)[i] == b[i]@);
            }
        }
        lemma_structures_views(heap, a.drop_last(), b.drop_last(), fuel, floor);
        assert(a.last()@ == b.last()@) by {
            assert(values_view(a)[a.len() - 1] == a[a.len() - 1]@);
            assert(values_view(b)[a.len() - 1] == b[a.len() - 1]@);
        }
        lemma_structure_view(heap, a.last(), b.last(), fuel, floor);
    }
}

/// A value that is no container and no block of code has itself as its
/// structure, and no other value has. A container with a structure has a
/// handle of the heap, from the floor on.
pub proof fn lemma_structure_kind(heap: Seq<HeapCell>, value: Value, fuel: nat, floor: nat)
    requires
        structure_above(heap, value, fuel, floor) is Some,
    ensures
        is_plain(value@) <==> structure_above(heap, value, fuel, floor)->0 is Plain,
        is_plain(value@) ==> structure_above(heap, value, fuel, floor) == Some(
            Structure::Plain(value@),
        ),
        value@ is Code <==> structure_above(heap, value, fuel, floor)->0 is Code,
        !is_plain(value@) && !(value@ is Code) ==> floor <= handle_of(value@) < heap.len(),
        handle_of(value@) < heap.len(),
{
}

/// The structure of a value stays as the heap grows.
pub proof fn lemma_structure_extends(
    base: Seq<HeapCell>,
    heap: Seq<HeapCell>,
    value: Value,
    fuel: nat,
    floor: nat,
)
    requires
        extends(heap, base),
        structure_above(base, value, fuel, floor) is Some,
    ensures
        structure_above(heap, value, fuel, floor) == structure_above(base, value, fuel, floor),
    decreases fuel, 0nat, 0nat,
{
    match value {
        Value::Vec(handle) => {
            assert(heap[handle as int] == heap.take(base.len() as int)[handle as int]);
            lemma_structures_extends(
                base,
                heap,
                base[handle as int]->Vec_0@,
                (fuel - 1) as nat,
                floor,
            );
        },
        Value::HashMap(handle) => {
            assert(heap[handle as int] == heap.take(base.len() as int)[handle as int]);
            lemma_structures_extends(
                base,
                heap,
                entry_keys(base[handle as int]->Hash_0@),
                (fuel - 1) as nat,
                floor,
            );
            lemma_structures_extends(
                base,
                heap,
                entry_values(base[handle as int]->Hash_0@),
                (fuel - 1) as nat,
                floor,
            );
        },
        Value::DataObject(handle) => {
            assert(heap[handle as int] == heap.take(base.len() as int)[handle as int]);
            lemma_structures_extends(
                base,
                heap,
                base[handle as int]->Object_0.fields@,
                (fuel - 1) as nat,
                floor,
            );
        },
        Value::ByteBuffer(handle) => {
            assert(heap[handle as int] == heap.take(base.len() as int)[handle as int]);
        },
        Value::Code(code) => {
            lemma_structures_extends(base, heap, operands(code@), (fuel - 1) as nat, floor);
        },
        _ => {},
    }
}

/// The structures of a sequence of values stay as the heap grows.
pub proof fn lemma_structures_extends(
    base: Seq<HeapCell>,
    heap: Seq<HeapCell>,
    values: Seq<Value>,
    fuel: nat,
    floor: nat,
)
    requires
        extends(heap, base),
        structures_above(base, values, fuel, floor) is Some,
    ensures
        structures_above(heap, values, fuel, floor) == structures_above(base, values, fuel, floor),
    decreases fuel, 1nat, values.len(),
{
    if values.len() > 0 {
        lemma_structures_extends(base, heap, values.drop_last(), fuel, floor);
        lemma_structure_extends(base, heap, values.last(), fuel, floor);
    }
}

/// A structure above a floor is a structure above any lower floor.
pub proof fn lemma_structure_floor(
    heap: Seq<HeapCell>,
    value: Value,
    fuel: nat,
    floor: nat,
    lower: nat,
)
    requires
        lower <= floor,
        structure_above(heap, value, fuel, floor) is Some,
    ensures
        structure_above(heap, value, fuel, lower) == structure_above(heap, value, fuel, floor),
    decreases fuel, 0nat, 0nat,
{
    match value {
        Value::Vec(handle) => {
            lemma_structures_floor(
                heap,
                heap[handle as int]->Vec_0@,
                (fuel - 1) as nat,
                floor,
                lower,
            );
        },
        Value::HashMap(handle) => {
            lemma_structures_floor(
                heap,
                entry_keys(heap[handle as int]->Hash_0@),
                (fuel - 1) as nat,
                floor,
                lower,
            );
            lemma_structures_floor(
                heap,
                entry_values(heap[handle as int]->Hash_0@),
                (fuel - 1) as nat,
                floor,
                lower,
            );
        },
        Value::DataObject(handle) => {
            lemma_structures_floor(
                heap,
                heap[handle as int]->Object_0.fields@,
                (fuel - 1) as nat,
                floor,
                lower,
            );
        },
        Value::Code(code) => {
            lemma_structures_floor(heap, operands(code@), (fuel - 1) as nat, floor, lower);
        },
        _ => {},
    }
}

/// Structures above a floor are structures above any lower floor.
pub proof fn lemma_structures_floor(
    heap: Seq<HeapCell>,
    values: Seq<Value>,
    fuel: nat,
    floor: nat,
    lower: nat,
)
    requires
        lower <= floor,
        structures_above(heap, values, fuel, floor) is Some,
    ensures
        structures_above(heap, values, fuel, lower) == structures_above(heap, values, fuel, floor),
    decreases fuel, 1nat, values.len(),
{
    if values.len() > 0 {
        lemma_structures_floor(heap, values.drop_last(), fuel, floor, lower);
        lemma_structure_floor(heap, values.last(), fuel, floor, lower);
    }
}

/// A structure above a floor does not change with the containers below the
/// floor.
pub proof fn lemma_structure_independent(
    heap: Seq<HeapCell>,
    other: Seq<HeapCell>,
    value: Value,
    fuel: nat,
    floor: nat,
)
    requires
        other.len() == heap.len(),
        forall|i: int| floor <= i < heap.len() ==> other[i] == heap[i],
        structure_above(heap, value, fuel, floor) is Some,
    ensures
        structure_above(other, value, fuel, floor) == structure_above(heap, value, fuel, floor),
    decreases fuel, 0nat, 0nat,
{
    match value {
        Value::Vec(handle) => {
            lemma_structures_independent(
                heap,
                other,
                heap[handle as int]->Vec_0@,
                (fuel - 1) as nat,
                floor,
            );
        },
        Value::HashMap(handle) => {
            lemma_structures_independent(
                heap,
                other,
                entry_keys(heap[handle as int]->Hash_0@),
                (fuel - 1) as nat,
                floor,
            );
            lemma_structures_independent(
                heap,
                other,
                entry_values(heap[handle as int]->Hash_0@),
                (fuel - 1) as nat,
                floor,
            );
        },
        Value::DataObject(handle) => {
            lemma_structures_independent(
                heap,
                other,
                heap[handle as int]->Object_0.fields@,
                (fuel - 1) as nat,
                floor,
            );
        },
        Value::Code(code) => {
            lemma_structures_independent(
                heap,
                other,
                operands(code@),
                (fuel - 1) as nat,
                floor,
            );
        },
        _ => {},
    }
}

/// Structures above a floor do not change with the containers below the
/// floor.
pub proof fn lemma_structures_independent(
    heap: Seq<HeapCell>,
    other: Seq<HeapCell>,
    values: Seq<Value>,
    fuel: nat,
    floor: nat,
)
    requires
        other.len() == heap.len(),
        forall|i: int| floor <= i < heap.len() ==> other[i] == heap[i],
        structures_above(heap, values, fuel, floor) is Some,
    ensures
        structures_above(other, values, fuel, floor) == structures_above(heap, values, fuel, floor),
    decreases fuel, 1nat, values.len(),
{
    if values.len() > 0 {
        lemma_structures_independent(heap, other, values.drop_last(), fuel, floor);
        lemma_structure_independent(heap, other, values.last(), fuel, floor);
    }
}

/// A deep clone and the value that it was made of do not share a container:
/// whatever is done to the containers of the clone, the value keeps its
/// structure, and whatever is done to the containers of the value, the clone
/// keeps its structure.
///
/// `before` is the heap in which the value had its structure, `after` the
/// heap after the clone was made, which holds the containers of the clone from
/// the handle `before.len()` on, and `changed` a heap of the same size as
/// `after`. Where `changed` differs from `after` only in containers of the
/// clone, the value has its structure in `changed`. Where it differs only in
/// containers that were there before the clone, the clone has its structure
/// in `changed`.
pub proof fn lemma_clone_independent(
    before: Seq<HeapCell>,
    after: Seq<HeapCell>,
    changed: Seq<HeapCell>,
    value: Value,
    copy: Value,
    fuel: nat,
)
    requires
        extends(after, before),
        changed.len() == after.len(),
        structure(before, value, fuel) is Some,
        structure_above(after, copy, fuel, before.len()) == structure(before, value, fuel),
    ensures
        structure(after, copy, fuel) == structure(before, value, fuel),
        (forall|i: int| 0 <= i < before.len() ==> changed[i] == after[i]) ==> structure(
            changed,
            value,
            fuel,
        ) == structure(before, value, fuel),
        (forall|i: int| before.len() <= i < after.len() ==> changed[i] == after[i]) ==> structure(
            changed,
            copy,
            fuel,
        ) == structure(before, value, fuel),
{
    lemma_structure_floor(after, copy, fuel, before.len(), 0);
    if forall|i: int| 0 <= i < before.len() ==> changed[i] == after[i] {
        assert(changed.take(before.len() as int) =~= before) by {
            assert forall|i: int| 0 <= i < before.len() implies changed[i] == before[i] by {
                assert(after.take(before.len() as int)[i] == before[i]);
            }
        }
        lemma_structure_extends(before, changed, value, fuel, 0);
    }
    if forall|i: int| before.len() <= i < after.len() ==> changed[i] == after[i] {
        lemma_structure_independent(after, changed, copy, fuel, before.len());
        lemma_structure_floor(changed, copy, fuel, before.len(), 0);
    }
}

/// How deep containers may be nested in one another for a deep clone, a
/// comparison or a text to go through them: as deep as the machine can
/// count. The number is there to measure the way down; containers that hold
/// one another in a circle are not told apart from very deep ones.
pub const MAX_NESTING: usize = usize::MAX;

impl Heap {
    /// The invariant of the heap: that of each of its containers.
    pub open spec fn wf(&self) -> bool {
        forall|i: int| 0 <= i < self@.len() ==> cell_wf(#[trigger] self@[i])
    }

    pub fn new() -> (r: Heap)
        ensures
            r.wf(),
            r@.len() == 0,
    {
        Heap { cells: Vec::new() }
    }

    /// Puts a container on the heap and gives its handle.
    pub fn allocate(&mut self, cell: HeapCell) -> (r: usize)
        requires
            old(self).wf(),
            cell_wf(cell),
        ensures
            final(self).wf(),
            final(self)@ == old(self)@.push(cell),
            r == old(self)@.len(),
    {
        let handle = self.cells.len();
        self.cells.push(cell);
        assert forall|i: int| 0 <= i < self@.len() implies cell_wf(#[trigger] self@[i]) by {
            if i < old(self)@.len() {
                assert(self@[i] == old(self)@[i]);
            }
        }
        handle
    }

    /// Takes the container with the given handle off the heap, and leaves an
    /// empty array in its place until it is put back.
    pub fn take(&mut self, handle: usize) -> (r: HeapCell)
        requires
            old(self).wf(),
            handle < old(self)@.len(),
        ensures
            final(self).wf(),
            r == old(self)@[handle as int],
            cell_wf(r),
            final(self)@.len() == old(self)@.len(),
            forall|i: int|
                0 <= i < old(self)@.len() && i != handle ==> final(self)@[i] == old(self)@[i],
    {
        let mut cell = HeapCell::Vec(ValueVec::new(0));
        core::mem::swap(&mut self.cells[handle], &mut cell);
        assert(cell_wf(old(self)@[handle as int]));
        assert forall|i: int| 0 <= i < self@.len() implies cell_wf(#[trigger] self@[i]) by {
            if i != handle {
                assert(self@[i] == old(self)@[i]);
            }
        }
        cell
    }

    /// Puts a container in the place of the one with the given handle.
    pub fn put(&mut self, handle: usize, cell: HeapCell)
        requires
            old(self).wf(),
            handle < old(self)@.len(),
            cell_wf(cell),
        ensures
            final(self).wf(),
            final(self)@ == old(self)@.update(handle as int, cell),
    {
        self.cells.set(handle, cell);
        assert forall|i: int| 0 <= i < self@.len() implies cell_wf(#[trigger] self@[i]) by {
            if i != handle {
                assert(self@[i] == old(self)@[i]);
            }
        }
    }

    /// The array with the given handle, if the handle is that of one.
    pub fn vec(&self, handle: usize) -> (r: Option<&ValueVec>)
        ensures
            match r {
                Some(v) => handle < self@.len() && self@[handle as int] == HeapCell::Vec(*v),
                None => handle >= self@.len() || !(self@[handle as int] is Vec),
            },
    {
        if handle < self.cells.len() {
            match &self.cells[handle] {
                HeapCell::Vec(v) => Some(v),
                _ => None,
            }
        } else {
            None
        }
    }

    /// The hash map with the given handle, if the handle is that of one.
    pub fn hash(&self, handle: usize) -> (r: Option<&ValueHash>)
        ensures
            match r {
                Some(v) => handle < self@.len() && self@[handle as int] == HeapCell::Hash(*v),
                None => handle >= self@.len() || !(self@[handle as int] is Hash),
            },
    {
        if handle < self.cells.len() {
            match &self.cells[handle] {
                HeapCell::Hash(v) => Some(v),
                _ => None,
            }
        } else {
            None
        }
    }

    /// The data object with the given handle, if the handle is that of one.
    pub fn object(&self, handle: usize) -> (r: Option<&DataObject>)
        ensures
            match r {
                Some(v) => handle < self@.len() && self@[handle as int] == HeapCell::Object(*v),
                None => handle >= self@.len() || !(self@[handle as int] is Object),
            },
    {
        if handle < self.cells.len() {
            match &self.cells[handle] {
                HeapCell::Object(v) => Some(v),
                _ => None,
            }
        } else {
            None
        }
    }

    /// The byte buffer with the given handle, if the handle is that of one.
    pub fn buffer(&self, handle: usize) -> (r: Option<&ByteBuffer>)
        ensures
            match r {
                Some(v) => handle < self@.len() && self@[handle as int] == HeapCell::Buffer(*v),
                None => handle >= self@.len() || !(self@[handle as int] is Buffer),
            },
    {
        if handle < self.cells.len() {
            match &self.cells[handle] {
                HeapCell::Buffer(v) => Some(v),
                _ => None,
            }
        } else {
            None
        }
    }

    /// Deep clones each of the given values, in order.
    fn deep_clone_all(&mut self, values: &Vec<Value>, depth: usize) -> (r: Option<Vec<Value>>)
        requires
            old(self).wf(),
        ensures
            final(self).wf(),
            extends(final(self)@, old(self)@),
            r is Some ==> r->0@.len() == values@.len(),
            structures_above(old(self)@, values@, depth as nat, 0) is Some ==> r is Some
                && structures_above(final(self)@, r->0@, depth as nat, old(self)@.len())
                == structures_above(old(self)@, values@, depth as nat, 0),
        decreases depth, 1int, values@.len(),
    {
        let ghost start = self@;
        let ghost wanted = structures_above(start, values@, depth as nat, 0);
        let mut copies: Vec<Value> = Vec::new();
        let mut k: usize = 0;
        proof {
            lemma_extends_self(start);
            if wanted is Some {
                lemma_structures_elements(start, values@, depth as nat, 0);
            }
        }
        while k < values.len()
            invariant
                k <= values@.len(),
                copies@.len() == k,
                self.wf(),
                start == old(self)@,
                extends(self@, start),
                wanted == structures_above(start, values@, depth as nat, 0),
                wanted is Some ==> wanted->0.len() == values@.len() && forall|i: int|
                    0 <= i < values@.len() ==> structure_above(
                        start,
                        #[trigger] values@[i],
                        depth as nat,
                        0,
                    ) == Some(wanted->0[i]),
                wanted is Some ==> forall|i: int|
                    0 <= i < k ==> structure_above(
                        self@,
                        #[trigger] copies@[i],
                        depth as nat,
                        start.len(),
                    ) == Some(wanted->0[i]),
            decreases values@.len() - k,
        {
            let ghost before = self@;
            let ghost done = copies@;
            proof {
                if wanted is Some {
                    lemma_structure_extends(start, before, values@[k as int], depth as nat, 0);
                }
            }
            let cloned = self.deep_clone(&values[k], depth);
            proof {
                lemma_extends_transitive(self@, before, start);
            }
            match cloned {
                Some(copy) => {
                    copies.push(copy);
                    proof {
                        if wanted is Some {
                            lemma_structure_floor(
                                self@,
                                copy,
                                depth as nat,
                                before.len(),
                                start.len(),
                            );
                            assert forall|i: int| 0 <= i < k + 1 implies structure_above(
                                self@,
                                #[trigger] copies@[i],
                                depth as nat,
                                start.len(),
                            ) == Some(wanted->0[i]) by {
                                if i < k {
                                    assert(copies@[i] == done[i]);
                                    lemma_structure_extends(
                                        before,
                                        self@,
                                        done[i],
                                        depth as nat,
                                        start.len(),
                                    );
                                }
                            }
                        }
                    }
                },
                None => {
                    return None;
                },
            }
            k += 1;
        }
        proof {
            if wanted is Some {
                lemma_structures_from_elements(
                    self@,
                    copies@,
                    depth as nat,
                    start.len(),
                    wanted->0,
                );
            }
        }
        Some(copies)
    }

    /// A deep clone of a block of code: the same instructions, each of which
    /// carries a deep clone of the value that it carried.
    #[verifier::loop_isolation(false)]
    fn deep_clone_code(&mut self, code: &ByteCode, depth: usize) -> (r: Option<Value>)
        requires
            old(self).wf(),
        ensures
            final(self).wf(),
            extends(final(self)@, old(self)@),
            structure_above(old(self)@, Value::Code(*code), depth as nat, 0) is Some ==> r is Some
                && structure_above(final(self)@, r->0, depth as nat, old(self)@.len())
                == structure_above(old(self)@, Value::Code(*code), depth as nat, 0),
        decreases depth, 0int, 0nat,
    {
        let ghost start = self@;
        let ghost wanted = structure_above(start, Value::Code(*code), depth as nat, 0);
        proof {
            lemma_extends_self(start);
        }
        if depth == 0 {
            return None;
        }
        let ghost fuel = (depth - 1) as nat;
        let ghost shapes = structures_above(start, operands(code@), fuel, 0);
        let count = code.len();
        let mut values: Vec<Value> = Vec::new();
        let mut k: usize = 0;
        while k < count
            invariant
                count == code@.len(),
                k <= count,
                values@.len() == k,
                forall|i: int| 0 <= i < k ==> (#[trigger] values@[i])@ == carried(code@[i].op)@,
            decreases count - k,
        {
            values.push(op_operand(&code[k].op));
            k += 1;
        }
        proof {
            assert(values_view(values@) =~= values_view(operands(code@)));
            lemma_structures_views(start, operands(code@), values@, fuel, 0);
        }
        let mut copies = match self.deep_clone_all(&values, depth - 1) {
            Some(copies) => copies,
            None => {
                return None;
            },
        };
        let ghost cloned = copies@;
        proof {
            if wanted is Some {
                lemma_structures_elements(self@, cloned, fuel, start.len());
                lemma_structures_elements(start, values@, fuel, 0);
            }
        }
        let mut out: Vec<Instruction> = Vec::new();
        let mut k: usize = 0;
        while k < count
            invariant
                count == code@.len(),
                k <= count,
                out@.len() == k,
                copies@.len() + k == count,
                copies@ == cloned.skip(k as int),
                cloned.len() == count,
                forall|i: int|
                    0 <= i < k ==> location_option_view((#[trigger] out@[i]).location)
                        == location_option_view(code@[i].location) && bare_op(out@[i].op@)
                        == bare_op(code@[i].op@),
                wanted is Some ==> forall|i: int|
                    0 <= i < k ==> carried((#[trigger] out@[i]).op)@ == cloned[i]@,
            decreases count - k,
        {
            let value = copies.remove(0);
            let location = match &code[k].location {
                Some(l) => Some(l.clone()),
                None => None,
            };
            let ghost done = out@;
            proof {
                assert(value == cloned[k as int]);
                assert(copies@ =~= cloned.skip(k + 1));
                if wanted is Some && operand_of(code@[k as int].op) is None {
                    assert(values@[k as int]@ == ValueView::Nil);
                    lemma_structure_kind(start, values@[k as int], fuel, 0);
                    lemma_structure_kind(self@, cloned[k as int], fuel, start.len());
                }
            }
            out.push(Instruction { location, op: op_with_operand(&code[k].op, value) });
            proof {
                assert forall|i: int| 0 <= i < k + 1 implies location_option_view(
                    (#[trigger] out@[i]).location,
                ) == location_option_view(code@[i].location) && bare_op(out@[i].op@) == bare_op(
                    code@[i].op@,
                ) by {
                    if i < k {
                        assert(out@[i] == done[i]);
                    }
                }
                if wanted is Some {
                    assert forall|i: int| 0 <= i < k + 1 implies carried(
                        (#[trigger] out@[i]).op,
                    )@ == cloned[i]@ by {
                        if i < k {
                            assert(out@[i] == done[i]);
                        }
                    }
                }
            }
            k += 1;
        }
        proof {
            if wanted is Some {
                assert(bare_code(out@) =~= bare_code(code@));
                assert(values_view(operands(out@)) =~= values_view(cloned));
                lemma_structures_views(self@, operands(out@), cloned, fuel, start.len());
            }
        }
        Some(Value::Code(out))
    }

    /// A deep clone of the hash map with the given handle.
    #[verifier::loop_isolation(false)]
    #[verifier::rlimit(40)]
    fn deep_clone_table(&mut self, handle: usize, depth: usize) -> (r: Option<Value>)
        requires
            old(self).wf(),
        ensures
            final(self).wf(),
            extends(final(self)@, old(self)@),
            structure_above(old(self)@, Value::HashMap(handle), depth as nat, 0) is Some ==> r is Some
                && structure_above(final(self)@, r->0, depth as nat, old(self)@.len())
                == structure_above(old(self)@, Value::HashMap(handle), depth as nat, 0),
        decreases depth, 0int, 0nat,
    {
        let ghost start = self@;
        let ghost wanted = structure_above(start, Value::HashMap(handle), depth as nat, 0);
        proof {
            lemma_extends_self(start);
        }
        let entries = match self.hash(handle) {
            Some(v) => {
                proof {
                    assert(cell_wf(start[handle as int]));
                    v.lemma_distinct();
                }
                v.iter()
            },
            None => {
                return Some(Value::HashMap(handle));
            },
        };
        if depth == 0 {
            return None;
        }
        let ghost source = start[handle as int]->Hash_0@;
        let ghost fuel = (depth - 1) as nat;
        let ghost shapes = structures_above(start, entry_keys(source), fuel, 0);
        let count = entries.len();
        let mut items: Vec<Value> = Vec::new();
        let mut k: usize = 0;
        while k < count
            invariant
                k <= count,
                items@.len() == k,
                forall|i: int| 0 <= i < k ==> (#[trigger] items@[i])@ == source[i].1@,
            decreases count - k,
        {
            items.push(clone_value(&entries[k].1));
            k += 1;
        }
        proof {
            assert(values_view(items@) =~= values_view(entry_values(source)));
            lemma_structures_views(start, entry_values(source), items@, fuel, 0);
            if wanted is Some {
                lemma_structures_elements(start, entry_keys(source), fuel, 0);
            }
        }
        let mut copies = match self.deep_clone_all(&items, depth - 1) {
            Some(copies) => copies,
            None => {
                return None;
            },
        };
        let ghost cloned = copies@;
        let ghost middle = self@;
        proof {
            lemma_extends_self(middle);
        }
        let mut new_keys: Vec<Value> = Vec::new();
        let mut k: usize = 0;
        while k < count
            invariant
                k <= count,
                new_keys@.len() == k,
                self.wf(),
                extends(self@, middle),
                extends(self@, start),
                wanted is Some ==> forall|i: int|
                    0 <= i < k ==> structure_above(
                        self@,
                        #[trigger] new_keys@[i],
                        fuel,
                        middle.len(),
                    ) == Some(shapes->0[i]),
                wanted is Some ==> forall|i: int|
                    0 <= i < k ==> handle_of((#[trigger] new_keys@[i])@) < self@.len(),
                wanted is Some ==> forall|i: int|
                    0 <= i < k ==> is_plain((#[trigger] new_keys@[i])@) == is_plain(source[i].0@),
                wanted is Some ==> forall|i: int|
                    0 <= i < k ==> !((#[trigger] new_keys@[i])@ is Code),
                wanted is Some ==> forall|i: int|
                    0 <= i < k && is_plain(source[i].0@) ==> (#[trigger] new_keys@[i])@
                        == source[i].0@,
                wanted is Some ==> forall|i: int, j: int|
                    0 <= i < j < k && is_key((#[trigger] new_keys@[i])@) ==> new_keys@[i]@ != (
                    #[trigger] new_keys@[j])@,
            decreases count - k,
        {
            let ghost before = self@;
            let ghost done = new_keys@;
            proof {
                if wanted is Some {
                    assert(entries@[k as int].0@ == source[k as int].0@);
                    assert(entry_keys(source)[k as int] == source[k as int].0);
                    lemma_structure_view(start, entries@[k as int].0, source[k as int].0, fuel, 0);
                    lemma_structure_extends(start, before, entries@[k as int].0, fuel, 0);
                    lemma_structure_kind(start, source[k as int].0, fuel, 0);
                }
            }
            let cloned_key = self.deep_clone(&entries[k].0, depth - 1);
            proof {
                lemma_extends_transitive(self@, before, middle);
                lemma_extends_transitive(self@, before, start);
            }
            match cloned_key {
                Some(key) => {
                    new_keys.push(key);
                    proof {
                        if wanted is Some {
                            lemma_structure_kind(self@, key, fuel, before.len());
                            lemma_structure_floor(self@, key, fuel, before.len(), middle.len());
                            assert forall|i: int| 0 <= i < k + 1 implies structure_above(
                                self@,
                                #[trigger] new_keys@[i],
                                fuel,
                                middle.len(),
                            ) == Some(shapes->0[i]) by {
                                if i < k {
                                    assert(new_keys@[i] == done[i]);
                                    lemma_structure_extends(
                                        before,
                                        self@,
                                        done[i],
                                        fuel,
                                        middle.len(),
                                    );
                                }
                            }
                            assert(!(source[k as int].0@ is Code));
                            assert forall|i: int| 0 <= i < k + 1 implies handle_of(
                                (#[trigger] new_keys@[i])@,
                            ) < self@.len() && is_plain(new_keys@[i]@) == is_plain(source[i].0@)
                                && !(new_keys@[i]@ is Code) && (is_plain(source[i].0@)
                                ==> new_keys@[i]@ == source[i].0@) by {
                                if i < k {
                                    assert(new_keys@[i] == done[i]);
                                }
                            }
                            assert forall|i: int, j: int|
                                0 <= i < j < k + 1 && is_key(
                                    (#[trigger] new_keys@[i])@,
                                ) implies new_keys@[i]@ != (#[trigger] new_keys@[j])@ by {
                                assert(new_keys@[i] == done[i]);
                                if j < k {
                                    assert(new_keys@[j] == done[j]);
                                } else if is_plain(key@) {
                                    if is_plain(done[i]@) {
                                        assert(is_key(source[i].0@));
                                        assert(source[i].0@ != source[j].0@);
                                    }
                                } else {
                                    assert(handle_of(done[i]@) < before.len());
                                    assert(handle_of(key@) >= before.len());
                                }
                            }
                        }
                    }
                },
                None => {
                    return None;
                },
            }
            k += 1;
        }
        let ghost grown = self@;
        let ghost all_keys = new_keys@;
        let mut copy = ValueHash::new();
        let mut k: usize = 0;
        while new_keys.len() > 0 && copies.len() > 0
            invariant
                copy.wf(),
                k <= count,
                new_keys@.len() + k == count,
                copies@.len() + k == count,
                self@ == grown,
                new_keys@ == all_keys.skip(k as int),
                copies@ == cloned.skip(k as int),
                wanted is Some ==> copy@.len() == k && forall|i: int|
                    0 <= i < k ==> (#[trigger] copy@[i]).0 == all_keys[i] && copy@[i].1
                        == cloned[i],
            decreases new_keys@.len(),
        {
            let key = new_keys.remove(0);
            let item = copies.remove(0);
            let ghost before = copy@;
            proof {
                assert(key == all_keys[k as int]);
                assert(item == cloned[k as int]);
                assert(new_keys@ =~= all_keys.skip(k + 1));
                assert(copies@ =~= cloned.skip(k + 1));
                if wanted is Some {
                    if entry_value(before, key@) is Some {
                        lemma_found(before, key@);
                        let j = choose|j: int|
                            0 <= j < before.len() && (#[trigger] before[j]).0@ == key@;
                        assert(all_keys[j]@ == all_keys[k as int]@);
                        assert(is_key(all_keys[j]@));
                    }
                }
            }
            copy.insert(key, item);
            proof {
                if wanted is Some {
                    assert forall|i: int| 0 <= i < k + 1 implies (#[trigger] copy@[i]).0
                        == all_keys[i] && copy@[i].1 == cloned[i] by {
                        if i < k {
                            assert(copy@[i] == before[i]);
                        }
                    }
                }
            }
            k += 1;
        }
        let new_handle = self.allocate(HeapCell::Hash(copy));
        proof {
            lemma_extends_push(grown, self@.last());
            assert(self@ =~= grown.push(self@.last()));
            lemma_extends_transitive(self@, grown, start);
            lemma_extends_transitive(self@, grown, middle);
            if wanted is Some {
                assert(entry_keys(copy@) =~= all_keys);
                assert(no_code_keys(copy@));
                assert(entry_values(copy@) =~= cloned);
                lemma_structures_from_elements(grown, all_keys, fuel, middle.len(), shapes->0);
                lemma_structures_floor(grown, all_keys, fuel, middle.len(), start.len());
                lemma_structures_extends(grown, self@, all_keys, fuel, start.len());
                lemma_structures_extends(middle, self@, cloned, fuel, start.len());
            }
        }
        Some(Value::HashMap(new_handle))
    }

    /// A deep clone of a value: a value that holds the same, in containers of
    /// its own.
    ///
    /// A value that is no container is copied. For an array, a hash map, a
    /// data object or a byte buffer a new container is put on the heap, filled
    /// with deep clones of what the old one holds, and the clone holds its
    /// handle. For a block of code the instructions are copied, each with a
    /// deep clone of the value that it carries, so that the clone reaches no
    /// container that the block reaches. No container that was on the heap
    /// before is changed: the heap only grows. Where the value has a
    /// structure within `depth` levels of nesting, the clone has the same
    /// structure, and all of the containers that it reaches are new. There is
    /// no clone where containers and blocks of code are nested deeper than
    /// `depth` allows, as they are where a container holds itself.
    pub fn deep_clone(&mut self, value: &Value, depth: usize) -> (r: Option<Value>)
        requires
            old(self).wf(),
        ensures
            final(self).wf(),
            extends(final(self)@, old(self)@),
            structure_above(old(self)@, *value, depth as nat, 0) is Some ==> r is Some
                && structure_above(final(self)@, r->0, depth as nat, old(self)@.len())
                == structure_above(old(self)@, *value, depth as nat, 0),
            is_plain(value@) ==> r is Some && r->0@ == value@ && final(self)@ == old(self)@,
        decreases depth, 0int, 1nat,
    {
        let ghost start = self@;
        proof {
            lemma_extends_self(start);
        }
        match value {
            Value::Vec(handle) => {
                let items = match self.vec(*handle) {
                    Some(v) => v.to_vec(),
                    None => {
                        return Some(Value::Vec(*handle));
                    },
                };
                if depth == 0 {
                    return None;
                }
                proof {
                    lemma_structures_views(
                        start,
                        start[*handle as int]->Vec_0@,
                        items@,
                        (depth - 1) as nat,
                        0,
                    );
                }
                match self.deep_clone_all(&items, depth - 1) {
                    Some(copies) => {
                        let ghost before = self@;
                        let new_handle = self.allocate(HeapCell::Vec(ValueVec::from_vec(copies)));
                        proof {
                            lemma_extends_push(before, self@.last());
                            assert(self@ =~= before.push(self@.last()));
                            lemma_extends_transitive(self@, before, start);
                            if structure_above(start, *value, depth as nat, 0) is Some {
                                lemma_structures_extends(
                                    before,
                                    self@,
                                    copies@,
                                    (depth - 1) as nat,
                                    start.len(),
                                );
                            }
                        }
                        Some(Value::Vec(new_handle))
                    },
                    None => None,
                }
            },
            Value::HashMap(handle) => self.deep_clone_table(*handle, depth),
            Value::DataObject(handle) => {
                let (definition, fields) = match self.object(*handle) {
                    Some(object) => (
                        share(&object.definition_ptr),
                        clone_values(&object.fields),
                    ),
                    None => {
                        return Some(Value::DataObject(*handle));
                    },
                };
                if depth == 0 {
                    return None;
                }
                proof {
                    assert(values_view(fields@) =~= values_view(
                        start[*handle as int]->Object_0.fields@,
                    ));
                    lemma_structures_views(
                        start,
                        start[*handle as int]->Object_0.fields@,
                        fields@,
                        (depth - 1) as nat,
                        0,
                    );
                }
                match self.deep_clone_all(&fields, depth - 1) {
                    Some(copies) => {
                        let ghost before = self@;
                        let new_handle = self.allocate(
                            HeapCell::Object(
                                DataObject { definition_ptr: definition, fields: copies },
                            ),
                        );
                        proof {
                            lemma_extends_push(before, self@.last());
                            assert(self@ =~= before.push(self@.last()));
                            lemma_extends_transitive(self@, before, start);
                            if structure_above(start, *value, depth as nat, 0) is Some {
                                lemma_structures_extends(
                                    before,
                                    self@,
                                    copies@,
                                    (depth - 1) as nat,
                                    start.len(),
                                );
                            }
                        }
                        Some(Value::DataObject(new_handle))
                    },
                    None => None,
                }
            },
            Value::ByteBuffer(handle) => {
                let copy = match self.buffer(*handle) {
                    Some(buffer) => {
                        assert(cell_wf(self@[*handle as int]));
                        buffer.clone()
                    },
                    None => {
                        return Some(Value::ByteBuffer(*handle));
                    },
                };
                let new_handle = self.allocate(HeapCell::Buffer(copy));
                proof {
                    lemma_extends_push(start, self@.last());
                    assert(self@ =~= start.push(self@.last()));
                }
                Some(Value::ByteBuffer(new_handle))
            },
            Value::Code(code) => self.deep_clone_code(code, depth),
            other => Some(clone_value(other)),
        }
    }
}

/// What can be cloned with all that it holds.
pub trait DeepClone {
    /// A deep clone of this, in containers of its own on the given heap, where
    /// containers are nested no deeper than `depth` allows.
    fn deep_clone(&self, heap: &mut Heap, depth: usize) -> (r: Option<Value>)
        requires
            old(heap).wf(),
        ensures
            final(heap).wf(),
            extends(final(heap)@, old(heap)@),
    ;
}

impl DeepClone for Value {
    /// The deep clone of a value has the structure of the value, where the
    /// value has one, in containers that are all new.
    fn deep_clone(&self, heap: &mut Heap, depth: usize) -> (r: Option<Value>)
        ensures
            structure(old(heap)@, *self, depth as nat) is Some ==> r is Some && structure_above(
                final(heap)@,
                r->0,
                depth as nat,
                old(heap)@.len(),
            ) == structure(old(heap)@, *self, depth as nat),
    {
        heap.deep_clone(self, depth)
    }
}

/// Copies of the given values, in order. A container among them is shared
/// with the copy.
pub fn clone_values(values: &Vec<Value>) -> (r: Vec<Value>)
    ensures
        r@.len() == values@.len(),
        forall|i: int| 0 <= i < r@.len() ==> r@[i]@ == values@[i]@,
{
    let mut out: Vec<Value> = Vec::new();
    let mut k: usize = 0;
    while k < values.len()
        invariant
            k <= values@.len(),
            out@.len() == k,
            forall|i: int| 0 <= i < k ==> out@[i]@ == values@[i]@,
        decreases values@.len() - k,
    {
        out.push(clone_value(&values[k]));
        k += 1;
    }
    out
}

} // verus!
