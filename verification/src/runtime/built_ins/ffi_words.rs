//! The foreign function interface: the types that cross it, the layout of
//! arguments and results in byte buffers, and the words that bind native
//! functions.

use vstd::prelude::*;
use std::rc::Rc;
use vstd::string::StringExecFns;
use vstd::utf8::encode_utf8;
use crate::lang::source_buffer::SourceLocation;
use crate::lang::tokenizing::Token;
use crate::runtime::data_structures::byte_buffer::is_int_size;
use crate::runtime::data_structures::byte_buffer::le_bytes;
use crate::runtime::data_structures::byte_buffer::string_field;
use crate::runtime::data_structures::byte_buffer::unsigned_of;
use crate::runtime::data_structures::byte_buffer::written;
use crate::runtime::data_structures::byte_buffer::Buffer;
use crate::runtime::data_structures::byte_buffer::ByteBuffer;
use crate::runtime::data_structures::dictionary::lookup;
use crate::runtime::data_structures::dictionary::WordRuntime;
use crate::runtime::data_structures::dictionary::WordType;
use crate::runtime::data_structures::dictionary::WordVisibility;
use crate::runtime::data_structures::value::float_of_view;
use crate::runtime::data_structures::value::int_of_view;
use crate::runtime::data_structures::value::is_numeric_view;
use crate::runtime::data_structures::value::is_stringable_view;
use crate::runtime::data_structures::value::is_text_view;
use crate::runtime::data_structures::value::string_of_view;
use crate::runtime::data_structures::value::Value;
use crate::runtime::data_structures::value::ValueView;
use crate::runtime::error::script_error;
use crate::runtime::error::script_error_str;
use crate::runtime::error::Result;
use crate::runtime::host::Host;
use crate::runtime::interpreter::sorth_interpreter::SorthInterpreter;
use crate::runtime::interpreter::Handler;
use crate::text::concat3;

verus! {

/// A type of the C ABI that a value can be passed as.
#[derive(Clone, Copy, Debug, PartialEq, Eq, Structural)]
pub enum FfiType {
    Void,
    Bool,
    I8,
    U8,
    I16,
    U16,
    I32,
    U32,
    I64,
    U64,
    F32,
    F64,
    String,
}

/// The alignment of arguments and results unless a word says otherwise.
pub const DEFAULT_ALIGNMENT: usize = 8;

/// The size of a pointer in the buffers of a call.
pub const POINTER_SIZE: usize = 8;

/// A type that can be used in the foreign function interface: its name in
/// the language and its type in the C ABI.
#[derive(Debug)]
pub struct TypeInfo {
    pub ffi_type: FfiType,
    pub name: String,
}

impl Clone for TypeInfo {
    fn clone(&self) -> (r: Self)
        ensures
            r.ffi_type == self.ffi_type,
            r.name@ == self.name@,
    {
        TypeInfo { ffi_type: self.ffi_type, name: self.name.clone() }
    }
}

/// A word that calls a function of a native library.
#[derive(Debug)]
pub struct FfiWord {
    /// The name under which the library was registered.
    pub library_name: String,
    /// The name of the function in the library.
    pub function_name: String,
    /// The types of the arguments, the first argument first.
    pub arg_types: Vec<TypeInfo>,
    /// The type of the result.
    pub return_type: TypeInfo,
    /// The alignment of the arguments and of the result.
    pub alignment: usize,
}

impl FfiWord {
    /// A word for the given function, with the default alignment.
    pub fn new(
        library_name: String,
        function_name: String,
        arg_types: Vec<TypeInfo>,
        return_type: TypeInfo,
    ) -> (r: FfiWord)
        ensures
            r.library_name == library_name,
            r.function_name == function_name,
            r.arg_types == arg_types,
            r.return_type == return_type,
            r.alignment == DEFAULT_ALIGNMENT,
    {
        FfiWord { library_name, function_name, arg_types, return_type, alignment: DEFAULT_ALIGNMENT }
    }
}

/// A call of a native function, laid out for the host to make.
#[derive(Debug)]
pub struct NativeCall {
    /// The types of the arguments, the first argument first.
    pub argument_types: Vec<FfiType>,
    /// The type of the result.
    pub return_type: FfiType,
    /// The arguments, each at its offset.
    pub arguments: Vec<u8>,
    /// What the pointers among the arguments point to.
    pub overflow: Vec<u8>,
    /// The offset of each argument in `arguments`.
    pub offsets: Vec<usize>,
    /// The offsets in `arguments` of the pointers. Each holds an offset into
    /// `overflow`, in place of which the host puts the address of that byte.
    pub pointer_slots: Vec<usize>,
    /// The number of bytes to provide for the result.
    pub return_size: usize,
}

/// The libraries that are loaded, by the name they were registered under, and
/// the types that can be used with them, by name.
///
/// Both are kept as lists that are searched by name. Of a hash map keyed by
/// strings the verifier knows nothing, not even what a lookup finds after an
/// insertion; of these lists every lookup is proved.
#[derive(Debug)]
pub struct FfiInterface {
    pub libs: Vec<(String, usize)>,
    pub types: Vec<TypeInfo>,
}

/// The name that a type of the foreign function interface has in the
/// language.
pub open spec fn ffi_name(ffi_type: FfiType) -> Seq<char> {
    match ffi_type {
        FfiType::Void => "ffi.void"@,
        FfiType::Bool => "ffi.bool"@,
        FfiType::I8 => "ffi.i8"@,
        FfiType::U8 => "ffi.u8"@,
        FfiType::I16 => "ffi.i16"@,
        FfiType::U16 => "ffi.u16"@,
        FfiType::I32 => "ffi.i32"@,
        FfiType::U32 => "ffi.u32"@,
        FfiType::I64 => "ffi.i64"@,
        FfiType::U64 => "ffi.u64"@,
        FfiType::F32 => "ffi.f32"@,
        FfiType::F64 => "ffi.f64"@,
        FfiType::String => "ffi.string"@,
    }
}

/// Whether the given types are the default types, each under its name.
pub open spec fn are_default_types(types: Seq<TypeInfo>) -> bool {
    &&& types.len() == 13
    &&& forall|i: int|
        0 <= i < 13 ==> (#[trigger] types[i]).ffi_type == default_type(i) && types[i].name@
            == ffi_name(default_type(i))
}

/// The name of a type of the foreign function interface in the language.
pub fn name_of_type(ffi_type: FfiType) -> (r: &'static str)
    ensures
        r@ == ffi_name(ffi_type),
{
    match ffi_type {
        FfiType::Void => "ffi.void",
        FfiType::Bool => "ffi.bool",
        FfiType::I8 => "ffi.i8",
        FfiType::U8 => "ffi.u8",
        FfiType::I16 => "ffi.i16",
        FfiType::U16 => "ffi.u16",
        FfiType::I32 => "ffi.i32",
        FfiType::U32 => "ffi.u32",
        FfiType::I64 => "ffi.i64",
        FfiType::U64 => "ffi.u64",
        FfiType::F32 => "ffi.f32",
        FfiType::F64 => "ffi.f64",
        FfiType::String => "ffi.string",
    }
}

impl FfiInterface {
    /// An interface with no library and the default types.
    pub fn new() -> (r: FfiInterface)
        ensures
            r.libs@.len() == 0,
            are_default_types(r.types@),
    {
        FfiInterface { libs: Vec::new(), types: FfiInterface::default_types() }
    }

    /// Forgets the libraries and goes back to the default types.
    pub fn reset(&mut self)
        ensures
            final(self).libs@.len() == 0,
            are_default_types(final(self).types@),
    {
        self.libs = Vec::new();
        self.types = FfiInterface::default_types();
    }

    /// The types that every interface starts with: `ffi.void`, `ffi.bool`,
    /// the signed and unsigned integers of 8 to 64 bits, the floating point
    /// numbers of 32 and 64 bits, and `ffi.string`.
    pub fn default_types() -> (r: Vec<TypeInfo>)
        ensures
            are_default_types(r@),
    {
        let mut types: Vec<TypeInfo> = Vec::new();
        let order: [FfiType; 13] = [
            FfiType::Void,
            FfiType::Bool,
            FfiType::I8,
            FfiType::U8,
            FfiType::I16,
            FfiType::U16,
            FfiType::I32,
            FfiType::U32,
            FfiType::I64,
            FfiType::U64,
            FfiType::F32,
            FfiType::F64,
            FfiType::String,
        ];
        let mut k: usize = 0;
        while k < 13
            invariant
                k <= 13,
                types@.len() == k,
                forall|i: int| 0 <= i < 13 ==> order@[i] == default_type(i),
                forall|i: int|
                    0 <= i < k ==> (#[trigger] types@[i]).ffi_type == default_type(i)
                        && types@[i].name@ == ffi_name(default_type(i)),
            decreases 13 - k,
        {
            let ffi_type = order[k];
            types.push(TypeInfo { ffi_type, name: String::from_str(name_of_type(ffi_type)) });
            k += 1;
        }
        types
    }
}

/// The default types, in the order in which a new interface holds them.
pub open spec fn default_type(i: int) -> FfiType {
    if i == 0 {
        FfiType::Void
    } else if i == 1 {
        FfiType::Bool
    } else if i == 2 {
        FfiType::I8
    } else if i == 3 {
        FfiType::U8
    } else if i == 4 {
        FfiType::I16
    } else if i == 5 {
        FfiType::U16
    } else if i == 6 {
        FfiType::I32
    } else if i == 7 {
        FfiType::U32
    } else if i == 8 {
        FfiType::I64
    } else if i == 9 {
        FfiType::U64
    } else if i == 10 {
        FfiType::F32
    } else if i == 11 {
        FfiType::F64
    } else {
        FfiType::String
    }
}

/// Whether a number is a power of two.
pub open spec fn is_power_of_two(x: u64) -> bool {
    x != 0 && x & ((x - 1) as u64) == 0
}

/// The first multiple of `align`, which is a power of two, that is not below
/// `size`: `(size + align - 1) & !(align - 1)`.
pub open spec fn rounded_up(size: u64, align: u64) -> u64 {
    ((size + align - 1) as u64) & !((align - 1) as u64)
}

/// The number of bytes to leave out after `size` bytes so that what follows
/// starts at a multiple of `align`, which is a power of two:
/// `((size + align - 1) & !(align - 1)) - size`.
pub open spec fn padding_of(size: u64, align: u64) -> u64 {
    (rounded_up(size, align) - size) as u64
}

/// For sizes and alignments that are powers of two, the size not above the
/// alignment, the padding fills the size up to the alignment.
pub proof fn lemma_padding_of_powers(size: u64, align: u64)
    requires
        is_power_of_two(size),
        is_power_of_two(align),
        size <= align,
    ensures
        padding_of(size, align) == align - size,
        size + align - 1 <= u64::MAX,
{
    assert(size <= 0xffff_ffff_ffff_ffffu64 - (align - 1) as u64) by (bit_vector)
        requires
            is_power_of_two(size),
            is_power_of_two(align),
            size <= align,
    ;
    assert(rounded_up(size, align) == align) by (bit_vector)
        requires
            is_power_of_two(size),
            is_power_of_two(align),
            size <= align,
            size + align - 1 <= 0xffff_ffff_ffff_ffffu64,
    ;
}

/// The padding is less than the alignment, and fills the size up to a
/// multiple of it.
pub proof fn lemma_padding_bounds(size: u64, align: u64)
    requires
        is_power_of_two(align),
        size + align - 1 <= u64::MAX,
    ensures
        rounded_up(size, align) >= size,
        padding_of(size, align) < align,
        rounded_up(size, align) & ((align - 1) as u64) == 0,
{
    let rounded = rounded_up(size, align);
    assert(rounded >= size && rounded - size < align && rounded & ((align - 1) as u64) == 0)
        by (bit_vector)
        requires
            is_power_of_two(align),
            size + align - 1 <= 0xffff_ffff_ffff_ffffu64,
            rounded == rounded_up(size, align),
    ;
}

/// The number of bytes that a value of a type takes in the C ABI.
pub open spec fn size_of_type(ffi_type: FfiType) -> nat {
    match ffi_type {
        FfiType::Void => 0,
        FfiType::Bool => 1,
        FfiType::I8 => 1,
        FfiType::U8 => 1,
        FfiType::I16 => 2,
        FfiType::U16 => 2,
        FfiType::I32 => 4,
        FfiType::U32 => 4,
        FfiType::I64 => 8,
        FfiType::U64 => 8,
        FfiType::F32 => 4,
        FfiType::F64 => 8,
        FfiType::String => POINTER_SIZE as nat,
    }
}

/// The number of bytes that a value of a type takes with its padding.
pub open spec fn padded_size(ffi_type: FfiType, align: u64) -> nat {
    if ffi_type == FfiType::Void {
        0
    } else {
        (size_of_type(ffi_type) + padding_of(size_of_type(ffi_type) as u64, align)) as nat
    }
}

/// The number of bytes that a string of `length` bytes takes in the overflow
/// buffer: its bytes, a zero byte, and the padding.
pub open spec fn string_extra(length: nat, align: u64) -> nat {
    (length + 1 + padding_of((length + 1) as u64, align)) as nat
}

/// Whether a value can be passed as a type: a number as `ffi.bool`, an
/// integer or a floating point type, a text as `ffi.string`, and anything as
/// `ffi.void`.
pub open spec fn can_pass(value: ValueView, ffi_type: FfiType) -> bool {
    match ffi_type {
        FfiType::Void => true,
        FfiType::String => is_text_view(value),
        _ => is_numeric_view(value),
    }
}

/// Whether the text of a value that is passed as a string has room in the
/// overflow buffer, with its zero byte and its padding. Any other value
/// needs no such room.
pub open spec fn text_fits(value: ValueView, ffi_type: FfiType, align: u64) -> bool {
    ffi_type == FfiType::String ==> encode_utf8(string_of_view(value)->0).len() + 1 + align
        <= usize::MAX
}

/// Whether a library is registered under the given name.
pub open spec fn is_loaded(libs: Seq<(String, usize)>, name: Seq<char>) -> bool {
    exists|k: int| 0 <= k < libs.len() && (#[trigger] libs[k]).0@ == name
}

/// The alignments that a call may have: the powers of two. A value of eight
/// bytes with its padding then fits the machine, which is what the second
/// condition says; every power of two that the machine can count meets it.
pub open spec fn is_alignment(align: usize) -> bool {
    is_power_of_two(align as u64) && align + 7 <= usize::MAX
}

/// A value of eight bytes, padded to a power of two that the machine can
/// count, fits the machine.
pub proof fn lemma_power_is_alignment(align: usize)
    requires
        is_power_of_two(align as u64),
    ensures
        is_alignment(align),
{
    let a = align as u64;
    if usize::MAX == 0xffff_ffffusize {
        assert(a <= 0x8000_0000u64) by (bit_vector)
            requires
                is_power_of_two(a),
                a <= 0xffff_ffffu64,
        ;
    } else {
        assert(a <= 0x8000_0000_0000_0000u64) by (bit_vector)
            requires
                is_power_of_two(a),
        ;
    }
}

/// The size of a value of a type.
pub fn type_size(ffi_type: FfiType) -> (r: usize)
    ensures
        r == size_of_type(ffi_type),
{
    match ffi_type {
        FfiType::Void => 0,
        FfiType::Bool => 1,
        FfiType::I8 => 1,
        FfiType::U8 => 1,
        FfiType::I16 => 2,
        FfiType::U16 => 2,
        FfiType::I32 => 4,
        FfiType::U32 => 4,
        FfiType::I64 => 8,
        FfiType::U64 => 8,
        FfiType::F32 => 4,
        FfiType::F64 => 8,
        FfiType::String => POINTER_SIZE,
    }
}

/// Whether a type is a signed integer.
pub fn is_signed_type(ffi_type: FfiType) -> (r: bool)
    ensures
        r == (ffi_type == FfiType::I8 || ffi_type == FfiType::I16 || ffi_type == FfiType::I32
            || ffi_type == FfiType::I64),
{
    match ffi_type {
        FfiType::I8 => true,
        FfiType::I16 => true,
        FfiType::I32 => true,
        FfiType::I64 => true,
        _ => false,
    }
}

/// Whether a number may be the alignment of a call.
pub fn check_alignment(align: usize) -> (r: bool)
    ensures
        r == is_alignment(align),
{
    if align == 0 {
        return false;
    }
    let a = align as u64;
    proof {
        if is_power_of_two(a) {
            lemma_power_is_alignment(align);
        }
    }
    a & (a - 1) == 0
}

/// A size and an alignment that are powers of two, the size not above the
/// alignment, can be padded on the machine: the size and the padding fit it.
pub proof fn lemma_powers_fit(size: usize, align: usize)
    requires
        is_power_of_two(size as u64),
        is_power_of_two(align as u64),
        size <= align,
    ensures
        size + align - 1 <= usize::MAX,
{
    lemma_power_is_alignment(align);
    let a = align as u64;
    if usize::MAX == 0xffff_ffffusize {
        assert(a <= 0x8000_0000u64) by (bit_vector)
            requires
                is_power_of_two(a),
                a <= 0xffff_ffffu64,
        ;
    } else {
        assert(a <= 0x8000_0000_0000_0000u64) by (bit_vector)
            requires
                is_power_of_two(a),
        ;
    }
}

impl FfiInterface {
    /// The padding needed to align what follows `size` bytes to `align`. For
    /// a size that is a power of two and not above the alignment, that is
    /// what the size lacks to the alignment.
    pub fn alignment(size: usize, align: usize) -> (r: usize)
        requires
            is_power_of_two(align as u64),
            size + align - 1 <= usize::MAX,
        ensures
            r == padding_of(size as u64, align as u64),
            r < align,
            size + r == rounded_up(size as u64, align as u64),
            is_power_of_two(size as u64) && size <= align ==> r == align - size,
    {
        proof {
            if is_power_of_two(size as u64) && size <= align {
                lemma_padding_of_powers(size as u64, align as u64);
            }
            lemma_padding_bounds(size as u64, align as u64);
            assert((align - 1) as u64 == align - 1);
            assert((size + align - 1) as u64 == size + align - 1);
        }
        let s = size as u64;
        let a = align as u64;
        let aligned_size = (s + (a - 1)) & !(a - 1);
        let padding = aligned_size - s;
        padding as usize
    }

    /// The number of bytes of a buffer for a result of the given type.
    pub fn base_size(ffi_type: FfiType, align: usize) -> (r: usize)
        requires
            is_alignment(align),
        ensures
            r == padded_size(ffi_type, align as u64),
    {
        match ffi_type {
            FfiType::Void => 0,
            other => {
                let size = type_size(other);
                size + FfiInterface::alignment(size, align)
            },
        }
    }

    /// The numbers of bytes that a value takes as an argument of the given
    /// type: in the buffer of the arguments, and in the overflow buffer. Fails
    /// where the value cannot be passed as the type.
    pub fn conversion_size(
        interpreter: &SorthInterpreter,
        ffi_type: FfiType,
        align: usize,
        value: &Value,
    ) -> (r: Result<(usize, usize)>)
        requires
            is_alignment(align),
        ensures
            r is Ok <==> can_pass(value@, ffi_type) && text_fits(value@, ffi_type, align as u64),
            r is Ok ==> can_pass(value@, ffi_type),
            r is Ok ==> r->Ok_0.0 == padded_size(ffi_type, align as u64),
            r is Ok && ffi_type != FfiType::String ==> r->Ok_0.1 == 0,
            r is Ok && ffi_type == FfiType::String ==> r->Ok_0.1 == string_extra(
                encode_utf8(string_of_view(value@)->0).len(),
                align as u64,
            ),
    {
        match ffi_type {
            FfiType::Void => Ok((0, 0)),
            FfiType::String => {
                let text = match text_of(value) {
                    Some(text) => text,
                    None => {
                        return script_error_str(interpreter, "Value is not a string.");
                    },
                };
                let length = text.as_str().as_bytes().len();
                if length > usize::MAX - 1 - align {
                    return script_error_str(interpreter, "String is too long.");
                }
                let padding = FfiInterface::alignment(length + 1, align);
                let pointer_padding = FfiInterface::alignment(POINTER_SIZE, align);
                Ok((POINTER_SIZE + pointer_padding, length + 1 + padding))
            },
            other => {
                if !value.is_numeric() {
                    return script_error_str(interpreter, "Value is not numeric.");
                }
                let size = type_size(other);
                Ok((size + FfiInterface::alignment(size, align), 0))
            },
        }
    }

    /// Writes a number as an integer of `size` bytes at the cursor of a
    /// buffer, and moves the cursor past it and its padding.
    pub fn conversion_to_int<H: Host>(
        host: &H,
        value: &Value,
        align: usize,
        size: usize,
        buffer: &mut ByteBuffer,
    )
        requires
            is_numeric_view(value@),
            is_alignment(align),
            is_int_size(size as nat),
            old(buffer).buffer_wf(),
            old(buffer).spec_position() + size + padding_of(size as u64, align as u64) <= old(buffer).spec_bytes().len(),
        ensures
            final(buffer).buffer_wf(),
            final(buffer).spec_bytes().len() == old(buffer).spec_bytes().len(),
            final(buffer).spec_position() == old(buffer).spec_position() + size + padding_of(
                size as u64,
                align as u64,
            ),
            int_of_view(value@) is Some ==> final(buffer).spec_bytes() == written(
                old(buffer).spec_bytes(),
                old(buffer).spec_position() as int,
                le_bytes(unsigned_of(int_of_view(value@)->0), size as nat),
            ),
            final(buffer).spec_bytes().take(old(buffer).spec_position() as int) == old(buffer).spec_bytes().take(old(buffer).spec_position() as int),
    {
        let padding = FfiInterface::alignment(size, align);
        let number = value.get_int_val(host);
        proof {
            crate::runtime::data_structures::byte_buffer::lemma_le_bytes_len(
                unsigned_of(number),
                size as nat,
            );
        }
        buffer.write_int(size, number);
        buffer.increment_position(padding);
        proof {
            lemma_written_prefix(
                old(buffer).spec_bytes(),
                old(buffer).spec_position() as int,
                le_bytes(unsigned_of(number), size as nat),
            );
        }
    }

    /// Reads an integer of `size` bytes at the cursor of a buffer, and moves
    /// the cursor past it and its padding.
    pub fn conversion_from_int(align: usize, size: usize, is_signed: bool, buffer: &mut ByteBuffer) -> (r:
        Value)
        requires
            is_alignment(align),
            is_int_size(size as nat),
            old(buffer).buffer_wf(),
            old(buffer).spec_position() + size + padding_of(size as u64, align as u64) <= old(buffer).spec_bytes().len(),
        ensures
            final(buffer).buffer_wf(),
            final(buffer).spec_bytes() == old(buffer).spec_bytes(),
            final(buffer).spec_position() == old(buffer).spec_position() + size + padding_of(
                size as u64,
                align as u64,
            ),
            r@ == ValueView::Int(
                crate::runtime::data_structures::byte_buffer::decoded_int(
                    crate::runtime::data_structures::byte_buffer::le_value(
                        old(buffer).spec_bytes().subrange(
                            old(buffer).spec_position() as int,
                            old(buffer).spec_position() + size,
                        ),
                    ),
                    size as nat,
                    is_signed,
                ) as i64,
            ),
    {
        let padding = FfiInterface::alignment(size, align);
        let value = buffer.read_int(size, is_signed);
        buffer.increment_position(padding);
        Value::Int(value)
    }

    /// Writes a number as a floating point number of `size` bytes at the
    /// cursor of a buffer, and moves the cursor past it and its padding.
    pub fn conversion_to_float<H: Host>(
        host: &H,
        value: &Value,
        align: usize,
        size: usize,
        buffer: &mut ByteBuffer,
    )
        requires
            is_numeric_view(value@),
            is_alignment(align),
            size == 4 || size == 8,
            old(buffer).buffer_wf(),
            old(buffer).spec_position() + size + padding_of(size as u64, align as u64) <= old(buffer).spec_bytes().len(),
        ensures
            final(buffer).buffer_wf(),
            final(buffer).spec_bytes().len() == old(buffer).spec_bytes().len(),
            final(buffer).spec_position() == old(buffer).spec_position() + size + padding_of(
                size as u64,
                align as u64,
            ),
            size == 8 && float_of_view(value@) is Some ==> final(buffer).spec_bytes() == written(
                old(buffer).spec_bytes(),
                old(buffer).spec_position() as int,
                le_bytes(float_of_view(value@)->0 as nat, 8),
            ),
            final(buffer).spec_bytes().take(old(buffer).spec_position() as int) == old(buffer).spec_bytes().take(old(buffer).spec_position() as int),
    {
        let padding = FfiInterface::alignment(size, align);
        let wide = value.get_float_val(host);
        let bits: u64 = if size == 4 {
            host.float_narrow(wide) as u64
        } else {
            wide
        };
        proof {
            crate::runtime::data_structures::byte_buffer::lemma_le_bytes_len(
                bits as nat,
                size as nat,
            );
        }
        buffer.write_float(size, bits);
        buffer.increment_position(padding);
        proof {
            lemma_written_prefix(
                old(buffer).spec_bytes(),
                old(buffer).spec_position() as int,
                le_bytes(bits as nat, size as nat),
            );
        }
    }

    /// Reads a floating point number of `size` bytes at the cursor of a
    /// buffer, and moves the cursor past it and its padding.
    pub fn conversion_from_float<H: Host>(host: &H, align: usize, size: usize, buffer: &mut ByteBuffer) -> (r:
        Value)
        requires
            is_alignment(align),
            size == 4 || size == 8,
            old(buffer).buffer_wf(),
            old(buffer).spec_position() + size + padding_of(size as u64, align as u64) <= old(buffer).spec_bytes().len(),
        ensures
            final(buffer).buffer_wf(),
            final(buffer).spec_bytes() == old(buffer).spec_bytes(),
            final(buffer).spec_position() == old(buffer).spec_position() + size + padding_of(
                size as u64,
                align as u64,
            ),
            r@ is Float,
            size == 8 ==> r@ == ValueView::Float(
                crate::runtime::data_structures::byte_buffer::le_value(
                    old(buffer).spec_bytes().subrange(
                        old(buffer).spec_position() as int,
                        old(buffer).spec_position() as int + 8,
                    ),
                ) as u64,
            ),
    {
        let padding = FfiInterface::alignment(size, align);
        let raw = buffer.read_float(size);
        buffer.increment_position(padding);
        if size == 4 {
            if raw <= 0xffff_ffff {
                Value::Float(host.float_widen(raw as u32))
            } else {
                Value::Float(0)
            }
        } else {
            Value::Float(raw)
        }
    }

    /// The number under which the host knows the library that was registered
    /// under the given name, if there is one.
    pub fn library(&self, name: &String) -> (r: Option<usize>)
        ensures
            r is Some <==> is_loaded(self.libs@, name@),
            match r {
                Some(id) => exists|k: int|
                    0 <= k < self.libs@.len() && (#[trigger] self.libs@[k]).0@ == name@
                        && self.libs@[k].1 == id,
                None => forall|k: int|
                    0 <= k < self.libs@.len() ==> (#[trigger] self.libs@[k]).0@ != name@,
            },
    {
        let mut k: usize = 0;
        while k < self.libs.len()
            invariant
                k <= self.libs@.len(),
                forall|i: int| 0 <= i < k ==> (#[trigger] self.libs@[i]).0@ != name@,
            decreases self.libs@.len() - k,
        {
            if self.libs[k].0 == *name {
                return Some(self.libs[k].1);
            }
            k += 1;
        }
        None
    }

    /// The type of the given name, if there is one.
    pub fn find_type(&self, name: &String) -> (r: Option<&TypeInfo>)
        ensures
            match r {
                Some(info) => info.name@ == name@ && exists|k: int|
                    0 <= k < self.types@.len() && #[trigger] self.types@[k] == *info,
                None => forall|k: int|
                    0 <= k < self.types@.len() ==> (#[trigger] self.types@[k]).name@ != name@,
            },
    {
        let mut k: usize = 0;
        while k < self.types.len()
            invariant
                k <= self.types@.len(),
                forall|i: int| 0 <= i < k ==> (#[trigger] self.types@[i]).name@ != name@,
            decreases self.types@.len() - k,
        {
            if self.types[k].name == *name {
                return Some(&self.types[k]);
            }
            k += 1;
        }
        None
    }
}

/// The text of a value that is a text.
fn text_of(value: &Value) -> (r: Option<&String>)
    ensures
        r is Some <==> is_text_view(value@),
        r is Some ==> string_of_view(value@) == Some(r->0@),
{
    match value {
        Value::String(text) => Some(text),
        Value::Token(Token::String(_, text)) => Some(text),
        Value::Token(Token::Word(_, text)) => Some(text),
        _ => None,
    }
}

/// The sum of the sizes of the first `count` pairs: of their first parts and
/// of their second parts.
pub open spec fn total_sizes(sizes: Seq<(usize, usize)>, count: int) -> (nat, nat)
    decreases count,
{
    if count <= 0 || count > sizes.len() {
        (0, 0)
    } else {
        let rest = total_sizes(sizes, count - 1);
        ((rest.0 + sizes[count - 1].0) as nat, (rest.1 + sizes[count - 1].1) as nat)
    }
}

/// Writing over bytes leaves the bytes before the place of writing as they
/// were.
pub proof fn lemma_written_prefix(bytes: Seq<u8>, position: int, data: Seq<u8>)
    requires
        0 <= position,
        position + data.len() <= bytes.len(),
    ensures
        written(bytes, position, data).take(position) == bytes.take(position),
{
    assert(written(bytes, position, data).take(position) =~= bytes.take(position));
}

/// Bytes that agree on a prefix agree on every range within it.
pub proof fn lemma_same_in_prefix(a: Seq<u8>, b: Seq<u8>, prefix: int, from: int, to: int)
    requires
        0 <= from <= to <= prefix,
        prefix <= a.len(),
        prefix <= b.len(),
        a.take(prefix) == b.take(prefix),
    ensures
        a.subrange(from, to) == b.subrange(from, to),
{
    assert forall|t: int| 0 <= t < to - from implies a.subrange(from, to)[t] == b.subrange(
        from,
        to,
    )[t] by {
        assert(a.take(prefix)[from + t] == a[from + t]);
        assert(b.take(prefix)[from + t] == b[from + t]);
    }
    assert(a.subrange(from, to) =~= b.subrange(from, to));
}

/// The address that is written for a string that stands at the given offset
/// of the overflow buffer: the offset, to which the host adds the address of
/// the overflow buffer before the call.
pub open spec fn pointer_value(offset: nat) -> nat {
    if offset <= i64::MAX {
        offset
    } else {
        0
    }
}

/// The bytes that an argument leaves at its place among the arguments of a
/// call, before its padding, where the host has no part in them: nothing for
/// `ffi.void`, the offset of its text in the overflow buffer for a string,
/// the bits of a floating point number for `ffi.f64`, and the low bytes of
/// an integer for an integer type and for `ffi.bool`.
pub open spec fn passed_bytes(value: ValueView, ffi_type: FfiType, overflow: nat) -> Option<
    Seq<u8>,
> {
    match ffi_type {
        FfiType::Void => Some(Seq::empty()),
        FfiType::String => Some(le_bytes(pointer_value(overflow), 8)),
        FfiType::F32 => None,
        FfiType::F64 => match float_of_view(value) {
            Some(bits) => Some(le_bytes(bits as nat, 8)),
            None => None,
        },
        _ => match int_of_view(value) {
            Some(number) => Some(le_bytes(unsigned_of(number), size_of_type(ffi_type))),
            None => None,
        },
    }
}

/// Writes one argument into the buffers of a call, at their cursors, and
/// moves the cursors past what it takes. A pointer is written as the offset
/// of what it points to in the overflow buffer, and its place is noted.
fn conversion_from<H: Host>(
    host: &H,
    value: &Value,
    ffi_type: FfiType,
    align: usize,
    size: (usize, usize),
    buffer: &mut ByteBuffer,
    extra: &mut ByteBuffer,
    pointer_slots: &mut Vec<usize>,
)
    requires
        is_alignment(align),
        can_pass(value@, ffi_type),
        size.0 == padded_size(ffi_type, align as u64),
        ffi_type != FfiType::String ==> size.1 == 0,
        ffi_type == FfiType::String ==> size.1 == string_extra(
            encode_utf8(string_of_view(value@)->0).len(),
            align as u64,
        ),
        old(buffer).buffer_wf(),
        old(extra).buffer_wf(),
        old(buffer).spec_position() + size.0 <= old(buffer).spec_bytes().len(),
        old(extra).spec_position() + size.1 <= old(extra).spec_bytes().len(),
    ensures
        final(buffer).buffer_wf(),
        final(extra).buffer_wf(),
        final(buffer).spec_bytes().len() == old(buffer).spec_bytes().len(),
        final(extra).spec_bytes().len() == old(extra).spec_bytes().len(),
        final(buffer).spec_position() == old(buffer).spec_position() + size.0,
        final(extra).spec_position() == old(extra).spec_position() + size.1,
        ffi_type == FfiType::String ==> final(pointer_slots)@ == old(pointer_slots)@.push(
            old(buffer).spec_position() as usize,
        ) && final(extra).spec_bytes() == written(
            old(extra).spec_bytes(),
            old(extra).spec_position() as int,
            string_field(encode_utf8(string_of_view(value@)->0), size.1 as nat),
        ),
        ffi_type != FfiType::String ==> final(pointer_slots)@ == old(pointer_slots)@ && *final(extra) == *old(extra),
        final(buffer).spec_bytes().take(old(buffer).spec_position() as int) == old(buffer).spec_bytes().take(old(buffer).spec_position() as int),
        final(extra).spec_bytes().take(old(extra).spec_position() as int) == old(extra).spec_bytes().take(old(extra).spec_position() as int),
        match passed_bytes(value@, ffi_type, old(extra).spec_position()) {
            Some(data) => final(buffer).spec_bytes().subrange(
                old(buffer).spec_position() as int,
                old(buffer).spec_position() as int + data.len(),
            ) == data,
            None => true,
        },
        ffi_type == FfiType::String ==> final(extra).spec_bytes().subrange(
            old(extra).spec_position() as int,
            old(extra).spec_position() as int + size.1,
        ) == string_field(encode_utf8(string_of_view(value@)->0), size.1 as nat),
{
    proof {
        lemma_padding_bounds(POINTER_SIZE as u64, align as u64);
        crate::runtime::data_structures::byte_buffer::lemma_le_bytes_len(
            pointer_value(old(extra).spec_position()),
            8,
        );
        if int_of_view(value@) is Some {
            crate::runtime::data_structures::byte_buffer::lemma_le_bytes_len(
                unsigned_of(int_of_view(value@)->0),
                size_of_type(ffi_type),
            );
            lemma_padding_bounds(size_of_type(ffi_type) as u64, align as u64);
            crate::runtime::data_structures::byte_buffer::lemma_written_subrange(
                old(buffer).spec_bytes(),
                old(buffer).spec_position() as int,
                le_bytes(unsigned_of(int_of_view(value@)->0), size_of_type(ffi_type)),
            );
        }
        if float_of_view(value@) is Some && ffi_type == FfiType::F64 {
            crate::runtime::data_structures::byte_buffer::lemma_le_bytes_len(
                float_of_view(value@)->0 as nat,
                8,
            );
            lemma_padding_bounds(8, align as u64);
            crate::runtime::data_structures::byte_buffer::lemma_written_subrange(
                old(buffer).spec_bytes(),
                old(buffer).spec_position() as int,
                le_bytes(float_of_view(value@)->0 as nat, 8),
            );
        }
        assert(old(buffer).spec_bytes().subrange(
            old(buffer).spec_position() as int,
            old(buffer).spec_position() as int,
        ) =~= Seq::<u8>::empty());
    }
    match ffi_type {
        FfiType::Void => {},
        FfiType::String => {
            let offset = extra.position();
            pointer_slots.push(buffer.position());
            let pointer_padding = FfiInterface::alignment(POINTER_SIZE, align);
            let address: i64 = if offset as u64 <= 0x7fff_ffff_ffff_ffff {
                offset as i64
            } else {
                0
            };
            proof {
                crate::runtime::data_structures::byte_buffer::lemma_le_bytes_len(
                    unsigned_of(address),
                    8,
                );
            }
            buffer.write_int(POINTER_SIZE, address);
            buffer.increment_position(pointer_padding);
            match text_of(value) {
                Some(text) => {
                    extra.write_string(size.1, text);
                },
                None => {},
            }
            proof {
                let data = le_bytes(pointer_value(old(extra).spec_position()), 8);
                assert(unsigned_of(address) == pointer_value(old(extra).spec_position()));
                crate::runtime::data_structures::byte_buffer::lemma_written_subrange(
                    old(buffer).spec_bytes(),
                    old(buffer).spec_position() as int,
                    data,
                );
                lemma_written_prefix(
                    old(buffer).spec_bytes(),
                    old(buffer).spec_position() as int,
                    data,
                );
                let field = string_field(encode_utf8(string_of_view(value@)->0), size.1 as nat);
                crate::runtime::data_structures::byte_buffer::lemma_written_subrange(
                    old(extra).spec_bytes(),
                    old(extra).spec_position() as int,
                    field,
                );
                lemma_written_prefix(
                    old(extra).spec_bytes(),
                    old(extra).spec_position() as int,
                    field,
                );
            }
        },
        FfiType::F32 => FfiInterface::conversion_to_float(host, value, align, 4, buffer),
        FfiType::F64 => FfiInterface::conversion_to_float(host, value, align, 8, buffer),
        other => FfiInterface::conversion_to_int(host, value, align, type_size(other), buffer),
    }
}

/// Whether a value is what the bytes that a native function gave back are
/// as a value of the given type: nothing for `ffi.void`, a string for
/// `ffi.string` and a floating point number for `ffi.f32`, both of which the
/// host reads, the floating point number with the bits of the first eight
/// bytes for `ffi.f64`, and else the integer that the first bytes are, with
/// its sign where the type has one.
pub open spec fn returned(ffi_type: FfiType, bytes: Seq<u8>, value: ValueView) -> bool {
    match ffi_type {
        FfiType::Void => value is Nil,
        FfiType::String => value is String,
        FfiType::F32 => value is Float,
        FfiType::F64 => value == ValueView::Float(
            crate::runtime::data_structures::byte_buffer::le_value(bytes.take(8)) as u64,
        ),
        _ => value == ValueView::Int(
            crate::runtime::data_structures::byte_buffer::decoded_int(
                crate::runtime::data_structures::byte_buffer::le_value(
                    bytes.take(size_of_type(ffi_type) as int),
                ),
                size_of_type(ffi_type),
                ffi_type == FfiType::I8 || ffi_type == FfiType::I16 || ffi_type == FfiType::I32
                    || ffi_type == FfiType::I64,
            ) as i64,
        ),
    }
}

/// Reads a result of the given type at the cursor of a buffer. The text of a
/// string is read by the host at the address that the buffer holds.
fn conversion_to<H: Host>(host: &mut H, ffi_type: FfiType, align: usize, buffer: &mut ByteBuffer) -> (r:
    Value)
    requires
        is_alignment(align),
        old(buffer).buffer_wf(),
        old(buffer).spec_position() + padded_size(ffi_type, align as u64) <= old(buffer).spec_bytes().len(),
    ensures
        ffi_type == FfiType::Void <==> r@ is Nil,
        returned(
            ffi_type,
            old(buffer).spec_bytes().skip(old(buffer).spec_position() as int),
            r@,
        ),
{
    proof {
        let bytes = old(buffer).spec_bytes();
        let at = old(buffer).spec_position() as int;
        lemma_padding_bounds(size_of_type(ffi_type) as u64, align as u64);
        assert(bytes.skip(at).take(size_of_type(ffi_type) as int) =~= bytes.subrange(
            at,
            at + size_of_type(ffi_type),
        ));
    }
    match ffi_type {
        FfiType::Void => Value::Nil,
        FfiType::String => {
            let raw = buffer.read_float(POINTER_SIZE);
            Value::String(host.read_c_string(raw))
        },
        FfiType::F32 => FfiInterface::conversion_from_float(host, align, 4, buffer),
        FfiType::F64 => FfiInterface::conversion_from_float(host, align, 8, buffer),
        other => FfiInterface::conversion_from_int(
            align,
            type_size(other),
            is_signed_type(other),
            buffer,
        ),
    }
}

/// The bytes of a buffer.
fn buffer_bytes(buffer: &ByteBuffer) -> (r: Vec<u8>)
    ensures
        r@ == buffer.spec_bytes(),
{
    let bytes = buffer.bytes();
    let mut out: Vec<u8> = Vec::new();
    let mut k: usize = 0;
    while k < bytes.len()
        invariant
            k <= bytes@.len(),
            out@ == bytes@.take(k as int),
        decreases bytes@.len() - k,
    {
        out.push(bytes[k]);
        k += 1;
        assert(out@ =~= bytes@.take(k as int));
    }
    assert(bytes@.take(bytes@.len() as int) =~= bytes@);
    out
}

/// Where the argument with the given index starts among the arguments of a
/// call: after the arguments before it, each with its padding. With the
/// number of the arguments for the index, this is the size of them all.
pub open spec fn offset_of(types: Seq<TypeInfo>, align: u64, index: int) -> nat
    decreases index,
{
    if index <= 0 || index > types.len() {
        0
    } else {
        offset_of(types, align, index - 1) + padded_size(types[index - 1].ffi_type, align)
    }
}

/// The number of bytes that an argument takes in the overflow buffer: those
/// of its text, a zero byte and the padding for a string, and none for any
/// other argument.
pub open spec fn overflow_size(value: ValueView, ffi_type: FfiType, align: u64) -> nat {
    if ffi_type == FfiType::String {
        string_extra(encode_utf8(string_of_view(value)->0).len(), align)
    } else {
        0
    }
}

/// Where the text of the argument with the given index starts in the
/// overflow buffer: after the texts of the arguments before it. With the
/// number of the arguments for the index, this is the size of that buffer.
pub open spec fn overflow_of(values: Seq<Value>, types: Seq<TypeInfo>, align: u64, index: int) -> nat
    decreases index,
{
    if index <= 0 || index > types.len() || index > values.len() {
        0
    } else {
        overflow_of(values, types, align, index - 1) + overflow_size(
            values[index - 1]@,
            types[index - 1].ffi_type,
            align,
        )
    }
}

/// Whether the sizes are those of the given arguments.
pub open spec fn sizes_of(
    sizes: Seq<(usize, usize)>,
    values: Seq<Value>,
    types: Seq<TypeInfo>,
    align: u64,
) -> bool {
    &&& sizes.len() == values.len()
    &&& sizes.len() == types.len()
    &&& forall|k: int|
        0 <= k < sizes.len() ==> (#[trigger] sizes[k]).0 == padded_size(types[k].ffi_type, align)
            && sizes[k].1 == overflow_size(values[k]@, types[k].ffi_type, align)
}

/// The sizes of the first arguments add up to the offsets of the next one.
proof fn lemma_sizes_are_offsets(
    sizes: Seq<(usize, usize)>,
    values: Seq<Value>,
    types: Seq<TypeInfo>,
    align: u64,
    count: int,
)
    requires
        0 <= count <= sizes.len(),
        sizes_of(sizes, values, types, align),
    ensures
        total_sizes(sizes, count).0 == offset_of(types, align, count),
        total_sizes(sizes, count).1 == overflow_of(values, types, align, count),
    decreases count,
{
    if count > 0 {
        lemma_sizes_are_offsets(sizes, values, types, align, count - 1);
    }
}

/// What an argument leaves in the arguments of a call takes no more room
/// than the argument has with its padding.
proof fn lemma_passed_bytes_fit(value: ValueView, ffi_type: FfiType, align: u64, overflow: nat)
    requires
        is_power_of_two(align),
        align + 7 <= usize::MAX,
    ensures
        passed_bytes(value, ffi_type, overflow) is Some ==> passed_bytes(
            value,
            ffi_type,
            overflow,
        )->0.len() <= padded_size(ffi_type, align),
{
    lemma_padding_bounds(size_of_type(ffi_type) as u64, align);
    crate::runtime::data_structures::byte_buffer::lemma_le_bytes_len(pointer_value(overflow), 8);
    if float_of_view(value) is Some {
        crate::runtime::data_structures::byte_buffer::lemma_le_bytes_len(
            float_of_view(value)->0 as nat,
            8,
        );
    }
    if int_of_view(value) is Some {
        crate::runtime::data_structures::byte_buffer::lemma_le_bytes_len(
            unsigned_of(int_of_view(value)->0),
            size_of_type(ffi_type),
        );
    }
}

/// Whether the argument with the given index stands in the two buffers of
/// a call: what it leaves among the arguments at its offset there, and its
/// text, where it is a string, at its offset in the overflow buffer.
pub open spec fn stands(
    arguments: Seq<u8>,
    overflow: Seq<u8>,
    values: Seq<Value>,
    types: Seq<TypeInfo>,
    align: u64,
    k: int,
) -> bool {
    let place = offset_of(types, align, k) as int;
    let text_place = overflow_of(values, types, align, k) as int;
    let kind = types[k].ffi_type;
    &&& match passed_bytes(values[k]@, kind, text_place as nat) {
        Some(data) => arguments.subrange(place, place + data.len()) == data,
        None => true,
    }
    &&& kind == FfiType::String ==> overflow.subrange(
        text_place,
        text_place + overflow_size(values[k]@, kind, align),
    ) == string_field(
        encode_utf8(string_of_view(values[k]@)->0),
        overflow_size(values[k]@, kind, align),
    )
}

/// Whether the first `count` of the given arguments stand in the two
/// buffers of a call: each at its offset among the arguments, and the text of
/// each string at its offset in the overflow buffer.
pub open spec fn marshalled(
    arguments: Seq<u8>,
    overflow: Seq<u8>,
    values: Seq<Value>,
    types: Seq<TypeInfo>,
    align: u64,
    count: int,
) -> bool {
    forall|k: int|
        0 <= k < count ==> #[trigger] stands(arguments, overflow, values, types, align, k)
}

/// The offsets of the arguments of a call do not fall from one argument to
/// the next.
proof fn lemma_offsets_monotone(
    values: Seq<Value>,
    types: Seq<TypeInfo>,
    align: u64,
    from: int,
    to: int,
)
    requires
        0 <= from <= to <= types.len(),
        values.len() == types.len(),
    ensures
        offset_of(types, align, from) <= offset_of(types, align, to),
        overflow_of(values, types, align, from) <= overflow_of(values, types, align, to),
    decreases to - from,
{
    if from < to {
        lemma_offsets_monotone(values, types, align, from, to - 1);
    }
}

/// An argument that stood in the buffers of a call stands there still after
/// something was written behind all that stood there.
proof fn lemma_stands_kept(
    bytes_before: Seq<u8>,
    bytes: Seq<u8>,
    overflow_before: Seq<u8>,
    overflow: Seq<u8>,
    sizes: Seq<(usize, usize)>,
    values: Seq<Value>,
    types: Seq<TypeInfo>,
    align: u64,
    index: int,
    k: int,
)
    requires
        is_power_of_two(align),
        align + 7 <= usize::MAX,
        sizes_of(sizes, values, types, align),
        0 <= k < index < sizes.len(),
        stands(bytes_before, overflow_before, values, types, align, k),
        bytes.len() == bytes_before.len(),
        overflow.len() == overflow_before.len(),
        offset_of(types, align, index) <= bytes.len(),
        overflow_of(values, types, align, index) <= overflow.len(),
        bytes.take(offset_of(types, align, index) as int) == bytes_before.take(
            offset_of(types, align, index) as int,
        ),
        overflow.take(overflow_of(values, types, align, index) as int) == overflow_before.take(
            overflow_of(values, types, align, index) as int,
        ),
    ensures
        stands(bytes, overflow, values, types, align, k),
{
    let place = offset_of(types, align, index) as int;
    let text_place = overflow_of(values, types, align, index) as int;
    let at = offset_of(types, align, k) as int;
    let text_at = overflow_of(values, types, align, k) as int;
    let kind = types[k].ffi_type;
    lemma_sizes_are_offsets(sizes, values, types, align, index);
    lemma_sizes_are_offsets(sizes, values, types, align, k);
    lemma_sizes_are_offsets(sizes, values, types, align, k + 1);
    lemma_total_sizes_monotone(sizes, k + 1, index);
    lemma_passed_bytes_fit(values[k]@, kind, align, text_at as nat);
    match passed_bytes(values[k]@, kind, text_at as nat) {
        Some(data) => {
            lemma_same_in_prefix(bytes, bytes_before, place, at, at + data.len());
        },
        None => {},
    }
    if kind == FfiType::String {
        lemma_same_in_prefix(
            overflow,
            overflow_before,
            text_place,
            text_at,
            text_at + overflow_size(values[k]@, kind, align),
        );
    }
}

/// One more argument stands in the buffers of a call after it was written
/// at the end of what stood there, and what stood there stands there still.
proof fn lemma_marshalled_step(
    bytes_before: Seq<u8>,
    bytes: Seq<u8>,
    overflow_before: Seq<u8>,
    overflow: Seq<u8>,
    sizes: Seq<(usize, usize)>,
    values: Seq<Value>,
    types: Seq<TypeInfo>,
    align: u64,
    index: int,
)
    requires
        is_power_of_two(align),
        align + 7 <= usize::MAX,
        sizes_of(sizes, values, types, align),
        0 <= index < sizes.len(),
        marshalled(bytes_before, overflow_before, values, types, align, index),
        bytes.len() == bytes_before.len(),
        overflow.len() == overflow_before.len(),
        offset_of(types, align, index) <= bytes.len(),
        overflow_of(values, types, align, index) <= overflow.len(),
        bytes.take(offset_of(types, align, index) as int) == bytes_before.take(
            offset_of(types, align, index) as int,
        ),
        overflow.take(overflow_of(values, types, align, index) as int) == overflow_before.take(
            overflow_of(values, types, align, index) as int,
        ),
        stands(bytes, overflow, values, types, align, index),
    ensures
        marshalled(bytes, overflow, values, types, align, index + 1),
{
    assert forall|k: int| 0 <= k < index + 1 implies #[trigger] stands(
        bytes,
        overflow,
        values,
        types,
        align,
        k,
    ) by {
        if k < index {
            assert(stands(bytes_before, overflow_before, values, types, align, k));
            lemma_stands_kept(
                bytes_before,
                bytes,
                overflow_before,
                overflow,
                sizes,
                values,
                types,
                align,
                index,
                k,
            );
        }
    }
}

/// The offsets, in the buffer of the arguments, of the pointers among the
/// first `n` arguments: the offset of each argument that is passed as text,
/// in order.
pub open spec fn slots_of(types: Seq<TypeInfo>, align: u64, n: int) -> Seq<usize>
    decreases n,
{
    if n <= 0 {
        Seq::empty()
    } else if types[n - 1].ffi_type == FfiType::String {
        slots_of(types, align, n - 1).push(offset_of(types, align, n - 1) as usize)
    } else {
        slots_of(types, align, n - 1)
    }
}

/// Lays out the arguments of a call in two buffers: the arguments, one after
/// the other with their padding, and what their pointers point to. Gives the
/// bytes of the buffers, the offset of each argument, and the offsets of the
/// pointers, which are the offsets of the arguments that are passed as text. Fails where an argument cannot be passed as its type or the
/// arguments are too large for the machine.
pub fn marshal_arguments<H: Host>(
    interpreter: &SorthInterpreter,
    host: &H,
    values: &Vec<Value>,
    types: &Vec<TypeInfo>,
    align: usize,
) -> (r: Result<(Vec<u8>, Vec<u8>, Vec<usize>, Vec<usize>)>)
    requires
        is_alignment(align),
        values@.len() == types@.len(),
    ensures
        r is Ok ==> {
            &&& r->Ok_0.2@.len() == values@.len()
            &&& forall|k: int|
                0 <= k < values@.len() ==> can_pass(
                    (#[trigger] values@[k])@,
                    types@[k].ffi_type,
                )
            &&& forall|k: int|
                0 <= k < values@.len() ==> (#[trigger] r->Ok_0.2@[k]) + padded_size(
                    types@[k].ffi_type,
                    align as u64,
                ) <= r->Ok_0.0@.len()
            &&& forall|k: int|
                0 <= k < r->Ok_0.3@.len() ==> (#[trigger] r->Ok_0.3@[k]) + POINTER_SIZE
                    <= r->Ok_0.0@.len()
            &&& r->Ok_0.0@.len() == offset_of(types@, align as u64, types@.len() as int)
            &&& r->Ok_0.1@.len() == overflow_of(
                values@,
                types@,
                align as u64,
                types@.len() as int,
            )
            &&& marshalled(
                r->Ok_0.0@,
                r->Ok_0.1@,
                values@,
                types@,
                align as u64,
                types@.len() as int,
            )
            &&& forall|k: int|
                0 <= k < values@.len() ==> (#[trigger] r->Ok_0.2@[k]) == offset_of(
                    types@,
                    align as u64,
                    k,
                )
            &&& r->Ok_0.3@ == slots_of(types@, align as u64, types@.len() as int)
        },
        (exists|k: int|
            0 <= k < values@.len() && !can_pass((#[trigger] values@[k])@, types@[k].ffi_type))
            ==> r is Err,
        r is Ok <==> {
            &&& forall|k: int|
                0 <= k < values@.len() ==> can_pass((#[trigger] values@[k])@, types@[k].ffi_type)
                    && text_fits(values@[k]@, types@[k].ffi_type, align as u64)
            &&& offset_of(types@, align as u64, types@.len() as int) <= usize::MAX
            &&& overflow_of(values@, types@, align as u64, types@.len() as int) <= usize::MAX
        },
{
    let count = values.len();
    let mut sizes: Vec<(usize, usize)> = Vec::new();
    let mut base_size: usize = 0;
    let mut extra_size: usize = 0;
    let mut index: usize = 0;
    while index < count
        invariant
            index <= count,
            count == values@.len(),
            count == types@.len(),
            is_alignment(align),
            sizes@.len() == index,
            (base_size as nat, extra_size as nat) == total_sizes(sizes@, index as int),
            base_size == offset_of(types@, align as u64, index as int),
            extra_size == overflow_of(values@, types@, align as u64, index as int),
            forall|k: int|
                0 <= k < index ==> {
                    &&& text_fits((#[trigger] values@[k])@, types@[k].ffi_type, align as u64)
                    &&& can_pass((#[trigger] values@[k])@, types@[k].ffi_type)
                    &&& sizes@[k].0 == padded_size(types@[k].ffi_type, align as u64)
                    &&& types@[k].ffi_type != FfiType::String ==> sizes@[k].1 == 0
                    &&& types@[k].ffi_type == FfiType::String ==> sizes@[k].1 == string_extra(
                        encode_utf8(string_of_view(values@[k]@)->0).len(),
                        align as u64,
                    )
                },
        decreases count - index,
    {
        let size = match FfiInterface::conversion_size(
            interpreter,
            types[index].ffi_type,
            align,
            &values[index],
        ) {
            Ok(size) => size,
            Err(e) => {
                return Err(e);
            },
        };
        proof {
            lemma_offsets_monotone(values@, types@, align as u64, index as int + 1, count as int);
        }
        if size.0 > usize::MAX - base_size || size.1 > usize::MAX - extra_size {
            return script_error_str(interpreter, "Arguments are too large.");
        }
        let ghost before = sizes@;
        sizes.push(size);
        proof {
            lemma_total_sizes_prefix(before, sizes@, index as int);
        }
        base_size = base_size + size.0;
        extra_size = extra_size + size.1;
        index += 1;
    }
    proof {
        assert forall|k: int| 0 <= k < sizes@.len() implies (#[trigger] sizes@[k]).0
            == padded_size(types@[k].ffi_type, align as u64) && sizes@[k].1 == overflow_size(
            values@[k]@,
            types@[k].ffi_type,
            align as u64,
        ) by {
            assert(can_pass(values@[k]@, types@[k].ffi_type));
        }
    }
    let mut buffer = ByteBuffer::new(base_size);
    let mut extra = ByteBuffer::new(extra_size);
    let mut offsets: Vec<usize> = Vec::new();
    let mut pointer_slots: Vec<usize> = Vec::new();
    let mut index: usize = 0;
    while index < count
        invariant
            index <= count,
            count == values@.len(),
            count == types@.len(),
            is_alignment(align),
            sizes@.len() == count,
            (base_size as nat, extra_size as nat) == total_sizes(sizes@, count as int),
            buffer.buffer_wf(),
            extra.buffer_wf(),
            buffer.spec_bytes().len() == base_size,
            extra.spec_bytes().len() == extra_size,
            (buffer.spec_position(), extra.spec_position()) == total_sizes(sizes@, index as int),
            offsets@.len() == index,
            forall|k: int|
                0 <= k < count ==> {
                    &&& can_pass((#[trigger] values@[k])@, types@[k].ffi_type)
                    &&& sizes@[k].0 == padded_size(types@[k].ffi_type, align as u64)
                    &&& types@[k].ffi_type != FfiType::String ==> sizes@[k].1 == 0
                    &&& types@[k].ffi_type == FfiType::String ==> sizes@[k].1 == string_extra(
                        encode_utf8(string_of_view(values@[k]@)->0).len(),
                        align as u64,
                    )
                },
            forall|k: int|
                0 <= k < index ==> (#[trigger] offsets@[k]) + padded_size(
                    types@[k].ffi_type,
                    align as u64,
                ) <= base_size,
            forall|k: int|
                0 <= k < index ==> (#[trigger] offsets@[k]) == offset_of(types@, align as u64, k),
            forall|k: int|
                0 <= k < pointer_slots@.len() ==> (#[trigger] pointer_slots@[k]) + POINTER_SIZE
                    <= base_size,
            pointer_slots@ == slots_of(types@, align as u64, index as int),
            sizes_of(sizes@, values@, types@, align as u64),
            marshalled(
                buffer.spec_bytes(),
                extra.spec_bytes(),
                values@,
                types@,
                align as u64,
                index as int,
            ),
        decreases count - index,
    {
        proof {
            lemma_total_sizes_monotone(sizes@, index as int + 1, count as int);
            lemma_padding_bounds(POINTER_SIZE as u64, align as u64);
            lemma_sizes_are_offsets(sizes@, values@, types@, align as u64, index as int);
        }
        offsets.push(buffer.position());
        let ghost slots_before = pointer_slots@;
        let ghost bytes_before = buffer.spec_bytes();
        let ghost overflow_before = extra.spec_bytes();
        conversion_from(
            host,
            &values[index],
            types[index].ffi_type,
            align,
            sizes[index],
            &mut buffer,
            &mut extra,
            &mut pointer_slots,
        );
        proof {
            lemma_marshalled_step(
                bytes_before,
                buffer.spec_bytes(),
                overflow_before,
                extra.spec_bytes(),
                sizes@,
                values@,
                types@,
                align as u64,
                index as int,
            );
        }
        index += 1;
    }
    proof {
        lemma_sizes_are_offsets(sizes@, values@, types@, align as u64, count as int);
    }
    Ok((buffer_bytes(&buffer), buffer_bytes(&extra), offsets, pointer_slots))
}

/// Adding a pair at the end leaves the sums of the pairs before it.
pub proof fn lemma_total_sizes_prefix(
    before: Seq<(usize, usize)>,
    after: Seq<(usize, usize)>,
    count: int,
)
    requires
        0 <= count <= before.len(),
        after.len() >= before.len(),
        forall|k: int| 0 <= k < before.len() ==> after[k] == before[k],
    ensures
        total_sizes(after, count) == total_sizes(before, count),
    decreases count,
{
    if count > 0 {
        lemma_total_sizes_prefix(before, after, count - 1);
    }
}

/// The sums of more pairs are not smaller.
pub proof fn lemma_total_sizes_monotone(sizes: Seq<(usize, usize)>, count: int, limit: int)
    requires
        0 <= count <= limit <= sizes.len(),
    ensures
        total_sizes(sizes, count).0 <= total_sizes(sizes, limit).0,
        total_sizes(sizes, count).1 <= total_sizes(sizes, limit).1,
    decreases limit - count,
{
    if count < limit {
        lemma_total_sizes_monotone(sizes, count, limit - 1);
    }
}

/// Pushes what a native function gave back: the value that the bytes are as
/// a value of the type of the result of the word, and nothing where that type
/// is `ffi.void`. Fails, and pushes nothing, where the bytes are fewer than a
/// value of that type takes with its padding.
pub fn push_returned<H: Host>(
    interpreter: &mut SorthInterpreter,
    host: &mut H,
    word: &FfiWord,
    bytes: &Vec<u8>,
) -> (r: Result<()>)
    requires
        old(interpreter).wf(),
        is_alignment(word.alignment),
    ensures
        final(interpreter).stable(old(interpreter)),
        final(interpreter).same_but_stack(old(interpreter)),
        r is Ok <==> bytes@.len() >= padded_size(word.return_type.ffi_type, word.alignment as u64),
        r is Err ==> final(interpreter).stack_view() == old(interpreter).stack_view(),
        r is Ok ==> if word.return_type.ffi_type == FfiType::Void {
            final(interpreter).stack_view() == old(interpreter).stack_view()
        } else {
            &&& final(interpreter).stack_view().len() == old(interpreter).stack_view().len() + 1
            &&& final(interpreter).stack_view().drop_last() == old(interpreter).stack_view()
            &&& returned(word.return_type.ffi_type, bytes@, final(interpreter).stack_view().last()@)
        },
{
    let return_size = FfiInterface::base_size(word.return_type.ffi_type, word.alignment);
    if bytes.len() < return_size {
        return script_error_str(interpreter, "The native call gave back too few bytes.");
    }
    let mut return_buffer = ByteBuffer::from_bytes(bytes);
    assert(bytes@.skip(0) =~= bytes@);
    let value = conversion_to(host, word.return_type.ffi_type, word.alignment, &mut return_buffer);
    match value {
        Value::Nil => {},
        other => {
            let ghost before = interpreter.stack_view();
            interpreter.push(other);
            assert(interpreter.stack_view().drop_last() =~= before);
        },
    }
    Ok(())
}

/// Runs a word that calls a native function.
///
/// The library of the word has to be loaded under the name that the word
/// was bound with. The arguments are taken off the stack, the last argument
/// first, laid out in the buffers of the call, and handed to the host, which
/// makes the call. The result is read from the bytes that the host hands
/// back, and pushed unless the word returns `ffi.void`.
pub fn handle_word<H: Host>(
    interpreter: &mut SorthInterpreter,
    host: &mut H,
    word: &FfiWord,
) -> (r: Result<()>)
    requires
        old(interpreter).wf(),
    ensures
        final(interpreter).stable(old(interpreter)),
        final(interpreter).heap_view() == old(interpreter).heap_view(),
        final(interpreter).variables_view() == old(interpreter).variables_view(),
        r is Ok ==> final(interpreter).stack_view().len() + word.arg_types@.len() == old(interpreter).stack_view().len() + if word.return_type.ffi_type == FfiType::Void {
            0int
        } else {
            1int
        },
        !is_loaded(old(interpreter).libraries(), word.library_name@) ==> r is Err && final(interpreter).stack_view() == old(interpreter).stack_view() && r->Err_0@.error == "Library "@
            + word.library_name@ + " is not loaded."@,
        old(interpreter).stack_view().len() < word.arg_types@.len() ==> r is Err,
        !can_call(old(interpreter), *word) ==> r is Err,
        r is Ok ==> final(interpreter).stack_view().take(
            old(interpreter).stack_view().len() - word.arg_types@.len(),
        ) == old(interpreter).stack_view().take(
            old(interpreter).stack_view().len() - word.arg_types@.len(),
        ),
        r is Ok ==> match word.return_type.ffi_type {
            FfiType::Void => true,
            FfiType::String => final(interpreter).stack_view().last()@ is String,
            FfiType::F32 => final(interpreter).stack_view().last()@ is Float,
            FfiType::F64 => final(interpreter).stack_view().last()@ is Float,
            _ => final(interpreter).stack_view().last()@ is Int,
        },
{
    let library = match interpreter.ffi.library(&word.library_name) {
        Some(library) => library,
        None => {
            return script_error(
                interpreter,
                concat3("Library ", word.library_name.as_str(), " is not loaded."),
            );
        },
    };
    let call = match prepare_call(interpreter, host, word) {
        Ok(call) => call,
        Err(e) => {
            return Err(e);
        },
    };
    let returned = match host.call_native(library, &word.function_name, &call) {
        Ok(returned) => returned,
        Err(message) => {
            return script_error(interpreter, message);
        },
    };
    push_returned(interpreter, host, word, &returned)
}

/// The arguments of a call of a word for a native function: the values that
/// the word takes off the stack, the first argument lowest.
pub open spec fn call_arguments(interpreter: &SorthInterpreter, word: FfiWord) -> Seq<Value> {
    interpreter.stack_view().subrange(
        interpreter.stack_view().len() - word.arg_types@.len(),
        interpreter.stack_view().len() as int,
    )
}

/// Whether the call of a word for a native function can be laid out: the
/// alignment of the word is one that a call may have, the stack holds a value
/// for each parameter, each value can be passed as the type of its
/// parameter, and the arguments are not too large for the machine.
pub open spec fn can_call(interpreter: &SorthInterpreter, word: FfiWord) -> bool {
    let values = call_arguments(interpreter, word);
    let types = word.arg_types@;
    let align = word.alignment as u64;
    &&& is_alignment(word.alignment)
    &&& interpreter.stack_view().len() >= types.len()
    &&& forall|k: int|
        0 <= k < types.len() ==> can_pass((#[trigger] values[k])@, types[k].ffi_type) && text_fits(
            values[k]@,
            types[k].ffi_type,
            align,
        )
    &&& offset_of(types, align, types.len() as int) <= usize::MAX
    &&& overflow_of(values, types, align, types.len() as int) <= usize::MAX
}

/// Lays out the call of a word for a native function: takes the arguments
/// off the stack, the last one first, and puts them into the buffers of the
/// call, each as the type of its parameter. Fails where the call cannot be
/// laid out.
#[verifier::loop_isolation(false)]
pub fn prepare_call<H: Host>(
    interpreter: &mut SorthInterpreter,
    host: &H,
    word: &FfiWord,
) -> (r: Result<NativeCall>)
    requires
        old(interpreter).wf(),
    ensures
        final(interpreter).stable(old(interpreter)),
        final(interpreter).same_but_stack(old(interpreter)),
        r is Ok <==> can_call(old(interpreter), *word),
        r is Ok ==> {
            let values = call_arguments(old(interpreter), *word);
            let types = word.arg_types@;
            let align = word.alignment as u64;
            let call = r->Ok_0;
            &&& final(interpreter).stack_view() == old(interpreter).stack_view().take(
                old(interpreter).stack_view().len() - types.len(),
            )
            &&& call.return_type == word.return_type.ffi_type
            &&& call.return_size == padded_size(word.return_type.ffi_type, align)
            &&& call.argument_types@.len() == types.len()
            &&& forall|k: int|
                0 <= k < types.len() ==> (#[trigger] call.argument_types@[k]) == types[k].ffi_type
            &&& call.arguments@.len() == offset_of(types, align, types.len() as int)
            &&& call.overflow@.len() == overflow_of(values, types, align, types.len() as int)
            &&& call.offsets@.len() == types.len()
            &&& forall|k: int|
                0 <= k < types.len() ==> (#[trigger] call.offsets@[k]) == offset_of(types, align, k)
            &&& marshalled(
                call.arguments@,
                call.overflow@,
                values,
                types,
                align,
                types.len() as int,
            )
            &&& call.pointer_slots@ == slots_of(types, align, types.len() as int)
        },
{
    if !check_alignment(word.alignment) {
        return script_error_str(interpreter, "The alignment of a call has to be a power of two.");
    }
    let args_len = word.arg_types.len();
    if interpreter.stack().len() < args_len {
        return script_error_str(interpreter, "Stack underflow.");
    }
    let ghost stack = interpreter.stack_view();
    let ghost wanted = call_arguments(old(interpreter), *word);
    let mut reversed: Vec<Value> = Vec::new();
    let mut index: usize = 0;
    while index < args_len
        invariant
            index <= args_len,
            reversed@.len() == index,
            interpreter.same_but_stack(old(interpreter)),
            interpreter.stack_view().len() + index == stack.len(),
            args_len <= stack.len(),
            interpreter.stack_view() == stack.take(stack.len() - index),
            forall|k: int| 0 <= k < index ==> (#[trigger] reversed@[k]) == stack[stack.len() - 1 - k],
        decreases args_len - index,
    {
        let ghost had = reversed@;
        match interpreter.pop() {
            Ok(value) => {
                assert(interpreter.stack_view() =~= stack.take(stack.len() - index - 1));
                reversed.push(value);
                assert forall|k: int| 0 <= k < index + 1 implies (#[trigger] reversed@[k])
                    == stack[stack.len() - 1 - k] by {
                    if k < index {
                        assert(reversed@[k] == had[k]);
                    }
                }
            },
            Err(e) => {
                return Err(e);
            },
        }
        index += 1;
    }
    let mut arg_values: Vec<Value> = Vec::new();
    while reversed.len() > 0
        invariant
            arg_values@.len() + reversed@.len() == args_len,
            forall|k: int|
                0 <= k < reversed@.len() ==> (#[trigger] reversed@[k]) == stack[stack.len() - 1 - k],
            forall|k: int|
                0 <= k < arg_values@.len() ==> (#[trigger] arg_values@[k]) == wanted[k],
        decreases reversed@.len(),
    {
        let ghost left = reversed@;
        let ghost done = arg_values@;
        match reversed.pop() {
            Some(value) => {
                arg_values.push(value);
                assert forall|k: int| 0 <= k < arg_values@.len() implies (#[trigger] arg_values@[k])
                    == wanted[k] by {
                    if k < done.len() {
                        assert(arg_values@[k] == done[k]);
                    } else {
                        assert(value == left[left.len() - 1]);
                    }
                }
                assert forall|k: int| 0 <= k < reversed@.len() implies (#[trigger] reversed@[k])
                    == stack[stack.len() - 1 - k] by {
                    assert(reversed@[k] == left[k]);
                }
            },
            None => {},
        }
    }
    assert(arg_values@ =~= wanted);
    let (arguments, overflow, offsets, pointer_slots) = match marshal_arguments(
        interpreter,
        host,
        &arg_values,
        &word.arg_types,
        word.alignment,
    ) {
        Ok(parts) => parts,
        Err(e) => {
            return Err(e);
        },
    };
    let mut argument_types: Vec<FfiType> = Vec::new();
    let mut k: usize = 0;
    while k < args_len
        invariant
            k <= args_len,
            args_len == word.arg_types@.len(),
            argument_types@.len() == k,
            forall|at: int|
                0 <= at < k ==> (#[trigger] argument_types@[at]) == word.arg_types@[at].ffi_type,
        decreases args_len - k,
    {
        argument_types.push(word.arg_types[k].ffi_type);
        k += 1;
    }
    let return_size = FfiInterface::base_size(word.return_type.ffi_type, word.alignment);
    Ok(
        NativeCall {
            argument_types,
            return_type: word.return_type.ffi_type,
            arguments,
            overflow,
            offsets,
            pointer_slots,
            return_size,
        },
    )
}

/// `ffi.load`: takes the name to register a library under and the file name
/// of the library off the stack, and has the host load the library. Fails
/// where a library is registered under the name already, and where the host
/// cannot load the library.
pub fn word_ffi_open<H: Host>(interpreter: &mut SorthInterpreter, host: &mut H) -> (r: Result<()>)
    requires
        old(interpreter).wf(),
    ensures
        final(interpreter).stable(old(interpreter)),
        final(interpreter).heap_view() == old(interpreter).heap_view(),
        r is Ok ==> final(interpreter).stack_view().len() + 2 == old(interpreter).stack_view().len()
            && final(interpreter).libraries().len() == old(interpreter).libraries().len() + 1
            && final(interpreter).libraries().drop_last() == old(interpreter).libraries(),
        r is Err ==> final(interpreter).libraries() == old(interpreter).libraries(),
        old(interpreter).stack_view().len() < 2 ==> r is Err,
        old(interpreter).stack_view().len() >= 2 ==> {
            let before = old(interpreter).stack_view();
            let n = before.len() as int;
            &&& !is_stringable_view(before[n - 1]@) || !is_stringable_view(before[n - 2]@)
                ==> r is Err
            &&& match string_of_view(before[n - 1]@) {
                Some(alias) => is_loaded(old(interpreter).libraries(), alias) ==> r is Err,
                None => true,
            }
            &&& r is Ok ==> final(interpreter).stack_view() == before.take(n - 2) && match string_of_view(
                before[n - 1]@,
            ) {
                Some(alias) => final(interpreter).libraries().last().0@ == alias,
                None => true,
            }
        },
{
    let ghost stack = interpreter.stack_view();
    let register_name = match interpreter.pop_as_string(host) {
        Ok(name) => name,
        Err(e) => {
            return Err(e);
        },
    };
    proof {
        if stack.len() >= 2 {
            assert(stack.drop_last().last() == stack[stack.len() - 2]);
            assert(stack.drop_last().drop_last() =~= stack.take(stack.len() - 2));
        }
    }
    let lib_name = match interpreter.pop_as_string(host) {
        Ok(name) => name,
        Err(e) => {
            return Err(e);
        },
    };
    if interpreter.ffi.library(&register_name).is_some() {
        return script_error(
            interpreter,
            concat3("Library ", register_name.as_str(), " is already loaded."),
        );
    }
    let loaded = host.load_library(&lib_name);
    library_loaded(interpreter, register_name, &lib_name, loaded)
}

/// Registers a library under an alias, given what loading it came to: the
/// library is registered after the libraries that were, where it was loaded,
/// and else the call fails with the reason, and nothing is registered.
pub fn library_loaded(
    interpreter: &mut SorthInterpreter,
    alias: String,
    file_name: &String,
    loaded: core::result::Result<usize, String>,
) -> (r: Result<()>)
    requires
        old(interpreter).wf(),
    ensures
        final(interpreter).stable(old(interpreter)),
        final(interpreter).stack_view() == old(interpreter).stack_view(),
        final(interpreter).heap_view() == old(interpreter).heap_view(),
        final(interpreter).handlers_view() == old(interpreter).handlers_view(),
        match loaded {
            Ok(library) => r is Ok && final(interpreter).libraries().len() == old(interpreter).libraries().len() + 1 && final(interpreter).libraries().drop_last() == old(interpreter).libraries() && final(interpreter).libraries().last().0@ == alias@ && final(interpreter).libraries().last().1 == library,
            Err(message) => r is Err && final(interpreter).libraries() == old(interpreter).libraries() && r->Err_0@.error == "Failed to load library "@ + file_name@ + ": "@
                + message@ + "."@,
        },
{
    match loaded {
        Ok(library) => {
            let ghost before = interpreter.ffi.libs@;
            interpreter.ffi.libs.push((alias, library));
            assert(interpreter.ffi.libs@.drop_last() =~= before);
            Ok(())
        },
        Err(message) => {
            let mut text = concat3("Failed to load library ", file_name.as_str(), ": ");
            text.append(message.as_str());
            text.append(".");
            script_error(interpreter, text)
        },
    }
}

/// The signature of a word that calls a native function: the names of the
/// types of the arguments, two dashes, and the name of the type of the result.
fn ffi_signature(arg_types: &Vec<TypeInfo>, return_name: &String) -> (r: String)
    ensures
        r@ == signature_text(arg_types@, return_name@),
{
    let mut signature = String::new();
    if arg_types.len() > 0 {
        let mut k: usize = 0;
        assert(signature@ =~= type_names(arg_types@, 0));
        while k < arg_types.len()
            invariant
                k <= arg_types@.len(),
                signature@ == type_names(arg_types@, k as int),
            decreases arg_types@.len() - k,
        {
            let ghost before = signature@;
            signature.append(arg_types[k].name.as_str());
            signature.append(" ");
            k += 1;
            assert(signature@ =~= before + arg_types@[k - 1].name@ + " "@);
        }
        signature.append("-- ");
    } else {
        signature.append(" -- ");
        assert(signature@ =~= " -- "@);
    }
    signature.append(return_name.as_str());
    signature
}

/// The names of the first `count` types, each with a space after it.
pub open spec fn type_names(types: Seq<TypeInfo>, count: int) -> Seq<char>
    decreases count,
{
    if count <= 0 || count > types.len() {
        Seq::empty()
    } else {
        type_names(types, count - 1) + types[count - 1].name@ + " "@
    }
}

/// The signature of a word for a native function: the names of the types of
/// its parameters, two dashes, and the name of the type of its result.
pub open spec fn signature_text(types: Seq<TypeInfo>, return_name: Seq<char>) -> Seq<char> {
    if types.len() > 0 {
        type_names(types, types.len() as int) + "-- "@ + return_name
    } else {
        " -- "@ + return_name
    }
}

/// Whether the interface knows a type: it holds one of the same kind under
/// the same name.
pub open spec fn knows_type(types: Seq<TypeInfo>, info: TypeInfo) -> bool {
    exists|k: int|
        0 <= k < types.len() && (#[trigger] types[k]).ffi_type == info.ffi_type && types[k].name@
            == info.name@
}

/// Whether a word for a native function is the one that the five values on
/// top of the stack of the interpreter describe: the alias of the library,
/// which is loaded, the name of the function, the alias of the word, the
/// array of the names of the types of the parameters, and the name of the
/// type of the result, all types being known to the interface.
pub open spec fn bound(interpreter: &SorthInterpreter, word: FfiWord) -> bool {
    let stack = interpreter.stack_view();
    let n = stack.len() as int;
    let names = interpreter.heap_view()[stack[n - 2]@->Vec_0 as int]->Vec_0@;
    &&& n >= 5
    &&& word.alignment == DEFAULT_ALIGNMENT
    &&& is_loaded(interpreter.libraries(), word.library_name@)
    &&& string_of_view(stack[n - 5]@) is Some ==> string_of_view(stack[n - 5]@) == Some(
        word.library_name@,
    )
    &&& string_of_view(stack[n - 4]@) == Some(word.function_name@)
    &&& crate::runtime::data_structures::heap::is_array(interpreter.heap_view(), stack[n - 2]@)
    &&& word.arg_types@.len() == names.len()
    &&& forall|k: int|
        0 <= k < names.len() ==> string_of_view(names[k]@) == Some(
            (#[trigger] word.arg_types@[k]).name@,
        ) && knows_type(interpreter.interface_types(), word.arg_types@[k])
    &&& string_of_view(stack[n - 1]@) is Some ==> string_of_view(stack[n - 1]@) == Some(
        word.return_type.name@,
    )
    &&& knows_type(interpreter.interface_types(), word.return_type)
}

/// `ffi.fn`: binds a function of a loaded library to a new word. Takes off
/// the stack the name of the type of the result, the array of the names of
/// the types of the arguments, the name of the new word, the name of the
/// function and the name that the library was registered under. Where the
/// name of the new word is empty, the word gets the name of the function.
/// Fails where the library is not loaded, where it has no such function, and
/// where a type is not known.
#[verifier::loop_isolation(false)]
pub fn word_ffi_fn<H: Host>(interpreter: &mut SorthInterpreter, host: &mut H) -> (r: Result<()>)
    requires
        old(interpreter).wf(),
    ensures
        final(interpreter).stable(old(interpreter)),
        final(interpreter).heap_view() == old(interpreter).heap_view(),
        final(interpreter).libraries() == old(interpreter).libraries(),
        r is Ok ==> final(interpreter).stack_view().len() + 5 == old(interpreter).stack_view().len()
            && final(interpreter).handlers_view().len() == old(interpreter).handlers_view().len()
            + 1 && final(interpreter).handlers_view().last().spec_handler() is Foreign,
        r is Err ==> final(interpreter).handlers_view() == old(interpreter).handlers_view(),
        r is Err ==> final(interpreter).dictionary_view() == old(interpreter).dictionary_view(),
        old(interpreter).stack_view().len() < 5 ==> r is Err,
        old(interpreter).stack_view().len() >= 5 ==> {
            let before = old(interpreter).stack_view();
            let n = before.len() as int;
            &&& !is_stringable_view(before[n - 1]@) ==> r is Err
            &&& !crate::runtime::data_structures::heap::is_array(
                old(interpreter).heap_view(),
                before[n - 2]@,
            ) ==> r is Err
            &&& !is_stringable_view(before[n - 3]@) ==> r is Err
            &&& !is_text_view(before[n - 4]@) ==> r is Err
            &&& match string_of_view(before[n - 5]@) {
                Some(alias) => !is_loaded(old(interpreter).libraries(), alias) ==> r is Err,
                None => !is_stringable_view(before[n - 5]@) ==> r is Err,
            }
        },
        r is Ok ==> bound(
            old(interpreter),
            *final(interpreter).handlers_view().last().spec_handler()->Foreign_0,
        ) && final(interpreter).stack_view() == old(interpreter).stack_view().take(
            old(interpreter).stack_view().len() - 5,
        ) && final(interpreter).handlers_view().drop_last() == old(interpreter).handlers_view(),
{
    let ghost stack = interpreter.stack_view();
    let ret_type_name = match interpreter.pop_as_string(host) {
        Ok(name) => name,
        Err(e) => {
            return Err(e);
        },
    };
    let param_type_names = match interpreter.pop_as_array() {
        Ok(handle) => handle,
        Err(e) => {
            return Err(e);
        },
    };
    let given_alias = match interpreter.pop_as_string(host) {
        Ok(name) => name,
        Err(e) => {
            return Err(e);
        },
    };
    let fn_value = match interpreter.pop() {
        Ok(value) => value,
        Err(e) => {
            return Err(e);
        },
    };
    let lib_name = match interpreter.pop_as_string(host) {
        Ok(name) => name,
        Err(e) => {
            return Err(e);
        },
    };
    let location = match &fn_value {
        Value::Token(token) => token.location().clone(),
        _ => match interpreter.current_location() {
            Some(location) => location.clone(),
            None => SourceLocation::new(),
        },
    };
    let fn_name = match text_of(&fn_value) {
        Some(name) => name.clone(),
        None => {
            return script_error_str(interpreter, "The name of a function has to be a text.");
        },
    };
    let fn_alias = if given_alias.as_str().unicode_len() == 0 {
        fn_name.clone()
    } else {
        given_alias
    };
    let library = match interpreter.ffi.library(&lib_name) {
        Some(library) => library,
        None => {
            return script_error(
                interpreter,
                concat3("Library ", lib_name.as_str(), " is not loaded."),
            );
        },
    };
    let found = host.find_symbol(library, &fn_name);
    let names = match interpreter.heap().vec(param_type_names) {
        Some(array) => array.to_vec(),
        None => Vec::new(),
    };
    proof {
        let array = interpreter.heap_view()[param_type_names as int]->Vec_0;
        assert(crate::runtime::data_structures::value_vec::values_view(names@).len()
            == names@.len());
        assert(crate::runtime::data_structures::value_vec::values_view(array@).len()
            == array@.len());
        assert forall|j: int| 0 <= j < names@.len() implies names@[j]@ == array@[j]@ by {
            assert(crate::runtime::data_structures::value_vec::values_view(names@)[j]
                == names@[j]@);
            assert(crate::runtime::data_structures::value_vec::values_view(array@)[j]
                == array@[j]@);
        }
    }
    bind_function(interpreter, location, lib_name, fn_name, fn_alias, names, ret_type_name, found)
}

/// Whether the interface holds a type under the given name.
pub open spec fn type_known(types: Seq<TypeInfo>, name: Seq<char>) -> bool {
    exists|k: int| 0 <= k < types.len() && (#[trigger] types[k]).name@ == name
}

/// Whether a word can be made for a native function with parameters of the
/// types that the given values name and a result of the type of the given
/// name: each value is a text, all the names are those of types that the
/// interface knows, and there is room for one more word.
pub open spec fn can_bind(
    interpreter: &SorthInterpreter,
    names: Seq<Value>,
    return_name: Seq<char>,
) -> bool {
    &&& forall|k: int|
        0 <= k < names.len() ==> is_text_view((#[trigger] names[k])@) && type_known(
            interpreter.interface_types(),
            string_of_view(names[k]@)->0,
        )
    &&& type_known(interpreter.interface_types(), return_name)
    &&& interpreter.handlers_view().len() < usize::MAX
}

/// Defines the word for a function of a library, given what looking up the
/// function in the library came to. Where the function was found and the
/// word can be made, the word is defined under the alias, with a handler
/// that calls the function with parameters and a result of the named types.
/// Where the function was not found the call fails with what the host said
/// of it, and where a type is not known it fails too; nothing is defined
/// then.
#[verifier::loop_isolation(false)]
pub fn bind_function(
    interpreter: &mut SorthInterpreter,
    location: SourceLocation,
    lib_name: String,
    fn_name: String,
    fn_alias: String,
    names: Vec<Value>,
    ret_type_name: String,
    found: core::result::Result<(), String>,
) -> (r: Result<()>)
    requires
        old(interpreter).wf(),
    ensures
        final(interpreter).stable(old(interpreter)),
        final(interpreter).stack_view() == old(interpreter).stack_view(),
        final(interpreter).heap_view() == old(interpreter).heap_view(),
        final(interpreter).libraries() == old(interpreter).libraries(),
        r is Ok <==> found is Ok && can_bind(old(interpreter), names@, ret_type_name@),
        r is Err ==> final(interpreter).handlers_view() == old(interpreter).handlers_view(),
        r is Err ==> final(interpreter).dictionary_view() == old(interpreter).dictionary_view(),
        found is Err ==> r is Err && r->Err_0@.error == "Failed to get symbol "@ + fn_name@
            + " from library "@ + lib_name@ + ": "@ + found->Err_0@ + "."@,
        r is Ok ==> {
            let made = final(interpreter).handlers_view().last();
            &&& final(interpreter).handlers_view().len() == old(interpreter).handlers_view().len()
                + 1
            &&& final(interpreter).handlers_view().drop_last() == old(interpreter).handlers_view()
            &&& made.spec_name() == fn_alias@
            &&& made.spec_handler() is Foreign
            &&& made.spec_handler()->Foreign_0.library_name@ == lib_name@
            &&& made.spec_handler()->Foreign_0.function_name@ == fn_name@
            &&& made.spec_handler()->Foreign_0.alignment == DEFAULT_ALIGNMENT
            &&& made.spec_handler()->Foreign_0.arg_types@.len() == names@.len()
            &&& forall|k: int|
                0 <= k < names@.len() ==> string_of_view(names@[k]@) == Some(
                    (#[trigger] made.spec_handler()->Foreign_0.arg_types@[k]).name@,
                ) && knows_type(
                    old(interpreter).interface_types(),
                    made.spec_handler()->Foreign_0.arg_types@[k],
                )
            &&& made.spec_handler()->Foreign_0.return_type.name@ == ret_type_name@
            &&& knows_type(
                old(interpreter).interface_types(),
                made.spec_handler()->Foreign_0.return_type,
            )
            &&& lookup(final(interpreter).dictionary_view(), fn_alias@) is Some
            &&& lookup(final(interpreter).dictionary_view(), fn_alias@)->0.handler_index == old(interpreter).handlers_view().len()
        },
{
    match found {
        Ok(()) => {},
        Err(message) => {
            let mut text = concat3("Failed to get symbol ", fn_name.as_str(), " from library ");
            text.append(lib_name.as_str());
            text.append(": ");
            text.append(message.as_str());
            text.append(".");
            return script_error(interpreter, text);
        },
    }
    let mut arg_type_infos: Vec<TypeInfo> = Vec::new();
    let mut k: usize = 0;
    while k < names.len()
        invariant
            k <= names@.len(),
            arg_type_infos@.len() == k,
            forall|j: int|
                0 <= j < k ==> string_of_view(names@[j]@) == Some(
                    (#[trigger] arg_type_infos@[j]).name@,
                ) && knows_type(interpreter.interface_types(), arg_type_infos@[j]) && is_text_view(
                    names@[j]@,
                ) && type_known(interpreter.interface_types(), string_of_view(names@[j]@)->0),
        decreases names@.len() - k,
    {
        let kind_name = match text_of(&names[k]) {
            Some(name) => name,
            None => {
                return script_error_str(interpreter, "Parameter type name is not a string.");
            },
        };
        match interpreter.ffi.find_type(kind_name) {
            Some(type_info) => {
                let known = type_info.clone();
                assert(knows_type(interpreter.interface_types(), known));
                assert(type_known(interpreter.interface_types(), kind_name@));
                arg_type_infos.push(known);
            },
            None => {
                assert(!type_known(interpreter.interface_types(), kind_name@));
                return script_error(
                    interpreter,
                    concat3("Unknown ffi type name ", kind_name.as_str(), "."),
                );
            },
        }
        k += 1;
    }
    let ret_type_info = match interpreter.ffi.find_type(&ret_type_name) {
        Some(type_info) => {
            let known = type_info.clone();
            assert(knows_type(interpreter.interface_types(), known));
            assert(type_known(interpreter.interface_types(), ret_type_name@));
            known
        },
        None => {
            assert(!type_known(interpreter.interface_types(), ret_type_name@));
            return script_error(
                interpreter,
                concat3("Unknown ffi type name ", ret_type_name.as_str(), "."),
            );
        },
    };
    if !interpreter.can_add_word() {
        return script_error_str(interpreter, "Too many words.");
    }
    proof {
        assert forall|j: int| 0 <= j < names@.len() implies is_text_view(
            (#[trigger] names@[j])@,
        ) && type_known(old(interpreter).interface_types(), string_of_view(names@[j]@)->0) by {
            assert(knows_type(interpreter.interface_types(), arg_type_infos@[j]));
        }
        assert(can_bind(old(interpreter), names@, ret_type_name@));
    }
    let arg_signature = ffi_signature(&arg_type_infos, &ret_type_name);
    let mut description = concat3("Call native function ", fn_name.as_str(), " in library ");
    description.append(lib_name.as_str());
    description.append(".");
    let word = FfiWord::new(lib_name, fn_name, arg_type_infos, ret_type_info);
    interpreter.add_word(
        location.path().clone(),
        location.line(),
        location.column(),
        fn_alias,
        Handler::Foreign(Rc::new(word)),
        description,
        arg_signature,
        WordRuntime::Normal,
        WordVisibility::Visible,
        WordType::Native,
    );
    Ok(())
}

/// `ffi.#`: structures that cross the foreign function interface are not
/// part of this interface; the word does nothing.
pub fn word_ffi_struct(interpreter: &mut SorthInterpreter) -> (r: Result<()>)
    ensures
        r is Ok,
        *final(interpreter) == *old(interpreter),
{
    Ok(())
}

/// `ffi.[]`: arrays that cross the foreign function interface are not part
/// of this interface; the word does nothing.
pub fn word_ffi_array(interpreter: &mut SorthInterpreter) -> (r: Result<()>)
    ensures
        r is Ok,
        *final(interpreter) == *old(interpreter),
{
    Ok(())
}

} // verus!
