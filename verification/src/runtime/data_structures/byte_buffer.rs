//! A buffer of bytes that is read and written at a cursor, like a stream.

use vstd::prelude::*;
use vstd::arithmetic::div_mod::lemma_fundamental_div_mod_converse;
use vstd::arithmetic::div_mod::lemma_mod_breakdown;
use vstd::arithmetic::div_mod::lemma_small_mod;
use vstd::string::StringSliceAdditionalSpecFns;
use vstd::utf8::decode_utf8;
use vstd::utf8::encode_utf8;
use vstd::utf8::valid_utf8;

verus! {

/// 256 to the power of `n`.
pub open spec fn pow256(n: nat) -> nat
    decreases n,
{
    if n == 0 {
        1
    } else {
        256 * pow256((n - 1) as nat)
    }
}

/// The powers of 256 that the integer sizes of the buffer need.
pub proof fn lemma_pow256_values()
    ensures
        pow256(0) == 1,
        pow256(1) == 0x100,
        pow256(2) == 0x1_0000,
        pow256(4) == 0x1_0000_0000,
        pow256(8) == 0x1_0000_0000_0000_0000,
{
    assert(pow256(1) == 256 * pow256(0));
    assert(pow256(2) == 256 * pow256(1));
    assert(pow256(3) == 256 * pow256(2));
    assert(pow256(4) == 256 * pow256(3));
    assert(pow256(5) == 256 * pow256(4));
    assert(pow256(6) == 256 * pow256(5));
    assert(pow256(7) == 256 * pow256(6));
    assert(pow256(8) == 256 * pow256(7));
}

/// The `count` low bytes of a number, the lowest first.
pub open spec fn le_bytes(value: nat, count: nat) -> Seq<u8>
    decreases count,
{
    if count == 0 {
        Seq::empty()
    } else {
        seq![(value % 256) as u8] + le_bytes(value / 256, (count - 1) as nat)
    }
}

/// The number that bytes stand for, the lowest byte first.
pub open spec fn le_value(bytes: Seq<u8>) -> nat
    decreases bytes.len(),
{
    if bytes.len() == 0 {
        0
    } else {
        bytes[0] as nat + 256 * le_value(bytes.skip(1))
    }
}

/// The pattern of bits of a 64-bit signed integer, in two's complement, as a
/// number.
pub open spec fn unsigned_of(value: i64) -> nat {
    if value >= 0 {
        value as nat
    } else {
        (value + 0x1_0000_0000_0000_0000) as nat
    }
}

/// The signed integer that the pattern of bits `raw` stands for in `size`
/// bytes, in two's complement.
pub open spec fn signed_of(raw: nat, size: nat) -> int {
    if 2 * raw >= pow256(size) {
        raw - pow256(size)
    } else {
        raw as int
    }
}

/// What `size` bytes with the pattern of bits `raw` are read as: a signed
/// integer in two's complement, or an unsigned integer, which in eight bytes
/// wraps into the signed range.
pub open spec fn decoded_int(raw: nat, size: nat, is_signed: bool) -> int {
    if is_signed || size == 8 {
        signed_of(raw, size)
    } else {
        raw as int
    }
}

/// Whether an integer can be held in `size` bytes, signed or not.
pub open spec fn int_fits(value: int, size: nat, is_signed: bool) -> bool {
    if is_signed || size == 8 {
        -(pow256(size) as int) <= 2 * value < pow256(size)
    } else {
        0 <= value < pow256(size)
    }
}

/// The sizes in which the buffer holds integers.
pub open spec fn is_int_size(size: nat) -> bool {
    size == 1 || size == 2 || size == 4 || size == 8
}

/// The sizes in which the buffer holds floating point numbers.
pub open spec fn is_float_size(size: nat) -> bool {
    size == 4 || size == 8
}

/// The bytes `bytes` with `data` written over them from the offset `at` on.
pub open spec fn written(bytes: Seq<u8>, at: int, data: Seq<u8>) -> Seq<u8> {
    bytes.take(at) + data + bytes.skip(at + data.len())
}

/// The bytes of a string field of `size` bytes that holds `text`: the text,
/// cut off at `size` bytes, then zeros.
pub open spec fn string_field(text: Seq<u8>, size: nat) -> Seq<u8> {
    Seq::new(
        size,
        |i: int|
            if i < text.len() {
                text[i]
            } else {
                0u8
            },
    )
}

/// The bytes of a string field up to its first zero byte.
pub open spec fn field_text(field: Seq<u8>) -> Seq<u8>
    decreases field.len(),
{
    if field.len() == 0 || field[0] == 0 {
        Seq::empty()
    } else {
        seq![field[0]] + field_text(field.skip(1))
    }
}

/// The text that `String::from_utf8_lossy` makes of the given bytes.
pub uninterp spec fn utf8_lossy(bytes: Seq<u8>) -> Seq<char>;

/// The text of bytes that are read as UTF-8.
///
/// Trusted: wraps `String::from_utf8_lossy`, whose result depends on the bytes
/// alone. The standard library documents that bytes which are valid UTF-8 give
/// the text that they encode; for other bytes the result is only named.
#[verifier::external_body]
pub(crate) fn lossy_text(bytes: &Vec<u8>) -> (r: String)
    ensures
        r@ == utf8_lossy(bytes@),
        valid_utf8(bytes@) ==> r@ == decode_utf8(bytes@),
{
    String::from_utf8_lossy(bytes).into_owned()
}

/// The low bytes of a number have as many bytes as were asked for.
pub proof fn lemma_le_bytes_len(value: nat, count: nat)
    ensures
        le_bytes(value, count).len() == count,
    decreases count,
{
    if count > 0 {
        lemma_le_bytes_len(value / 256, (count - 1) as nat);
    }
}

/// Bytes stand for a number below 256 to the power of their count.
pub proof fn lemma_le_value_bound(bytes: Seq<u8>)
    ensures
        le_value(bytes) < pow256(bytes.len()),
    decreases bytes.len(),
{
    if bytes.len() > 0 {
        lemma_le_value_bound(bytes.skip(1));
    }
}

/// The `count` low bytes of a number stand for the number modulo 256 to the
/// power of `count`.
pub proof fn lemma_le_round_trip(value: nat, count: nat)
    ensures
        pow256(count) > 0,
        le_value(le_bytes(value, count)) == value % pow256(count),
    decreases count,
{
    if count == 0 {
    } else {
        let rest = le_bytes(value / 256, (count - 1) as nat);
        let all = le_bytes(value, count);
        lemma_le_round_trip(value / 256, (count - 1) as nat);
        assert(all.skip(1) =~= rest);
        assert(all[0] == (value % 256) as u8);
        lemma_mod_breakdown(value as int, 256, pow256((count - 1) as nat) as int);
    }
}

/// An integer that fits in `size` bytes is read back as it was written.
pub proof fn lemma_int_round_trip(value: i64, size: nat, is_signed: bool)
    requires
        is_int_size(size),
        int_fits(value as int, size, is_signed),
    ensures
        decoded_int(le_value(le_bytes(unsigned_of(value), size)), size, is_signed) == value,
{
    lemma_pow256_values();
    lemma_le_round_trip(unsigned_of(value), size);
    let p = pow256(size) as int;
    let u = unsigned_of(value) as int;
    if value >= 0 {
        if size == 8 {
            lemma_small_mod(u as nat, p as nat);
        } else {
            lemma_small_mod(u as nat, p as nat);
        }
    } else {
        let low = value + p;
        assert(0 <= low < p);
        if size == 1 {
            assert(u == 0xff_ffff_ffff_ffffint * 0x100 + low);
            lemma_fundamental_div_mod_converse(u, 0x100, 0xff_ffff_ffff_ffff, low);
        } else if size == 2 {
            assert(u == 0xffff_ffff_ffffint * 0x1_0000 + low);
            lemma_fundamental_div_mod_converse(u, 0x1_0000, 0xffff_ffff_ffff, low);
        } else if size == 4 {
            assert(u == 0xffff_ffffint * 0x1_0000_0000 + low);
            lemma_fundamental_div_mod_converse(u, 0x1_0000_0000, 0xffff_ffff, low);
        } else {
            lemma_small_mod(u as nat, p as nat);
        }
    }
}

/// What was written over bytes can be read there.
pub proof fn lemma_written_subrange(bytes: Seq<u8>, position: int, data: Seq<u8>)
    requires
        0 <= position,
        position + data.len() <= bytes.len(),
    ensures
        written(bytes, position, data).len() == bytes.len(),
        written(bytes, position, data).subrange(position, position + data.len()) == data,
{
    assert(written(bytes, position, data).subrange(position, position + data.len()) =~= data);
}

/// An integer that fits in the size that it is written in is read back as it
/// was written, after the cursor is put back to where it was.
pub proof fn lemma_write_then_read_int(
    bytes: Seq<u8>,
    position: int,
    size: nat,
    value: i64,
    is_signed: bool,
)
    requires
        is_int_size(size),
        0 <= position,
        position + size <= bytes.len(),
        int_fits(value as int, size, is_signed),
    ensures
        decoded_int(
            le_value(
                written(bytes, position, le_bytes(unsigned_of(value), size)).subrange(
                    position,
                    position + size,
                ),
            ),
            size,
            is_signed,
        ) == value,
{
    lemma_le_bytes_len(unsigned_of(value), size);
    lemma_written_subrange(bytes, position, le_bytes(unsigned_of(value), size));
    lemma_int_round_trip(value, size, is_signed);
}

/// The bits of a floating point number are read back as they were written,
/// after the cursor is put back to where it was: all 64 bits in eight bytes,
/// and the 32 bits of a 32-bit number in four.
pub proof fn lemma_write_then_read_float(bytes: Seq<u8>, position: int, size: nat, bits: u64)
    requires
        is_float_size(size),
        0 <= position,
        position + size <= bytes.len(),
        size == 4 ==> bits <= u32::MAX,
    ensures
        le_value(
            written(bytes, position, le_bytes(bits as nat, size)).subrange(
                position,
                position + size,
            ),
        ) == bits,
{
    lemma_pow256_values();
    lemma_le_bytes_len(bits as nat, size);
    lemma_written_subrange(bytes, position, le_bytes(bits as nat, size));
    lemma_le_round_trip(bits as nat, size);
    lemma_small_mod(bits as nat, pow256(size));
}

/// A byte buffer: bytes, and a cursor at which integers, floating point
/// numbers and strings of fixed sizes are read and written, the lowest byte
/// first.
pub trait Buffer {
    /// The invariant of the buffer: the cursor is not past the end.
    spec fn buffer_wf(&self) -> bool;

    /// The bytes of the buffer.
    spec fn spec_bytes(&self) -> Seq<u8>;

    /// The position of the cursor.
    spec fn spec_position(&self) -> nat;

    /// The raw bytes of the buffer.
    fn bytes(&self) -> (r: &[u8])
        ensures
            r@ == self.spec_bytes(),
    ;

    /// Makes the buffer `new_size` bytes long. A longer buffer is filled up
    /// with zeros, a shorter one is cut off. A cursor that would stand at or
    /// past the new end is put on the last byte.
    fn resize(&mut self, new_size: usize)
        requires
            old(self).buffer_wf(),
        ensures
            final(self).buffer_wf(),
            final(self).spec_bytes().len() == new_size,
            forall|i: int|
                0 <= i < new_size ==> final(self).spec_bytes()[i] == if i < old(self).spec_bytes().len() {
                    old(self).spec_bytes()[i]
                } else {
                    0u8
                },
            final(self).spec_position() == if old(self).spec_position() < new_size {
                old(self).spec_position()
            } else if new_size == 0 {
                0
            } else {
                (new_size - 1) as nat
            },
    ;

    fn len(&self) -> (r: usize)
        ensures
            r == self.spec_bytes().len(),
    ;

    fn position(&self) -> (r: usize)
        ensures
            r == self.spec_position(),
    ;

    /// Puts the cursor at the given position, which may be the end.
    fn set_position(&mut self, position: usize)
        requires
            old(self).buffer_wf(),
            position <= old(self).spec_bytes().len(),
        ensures
            final(self).buffer_wf(),
            final(self).spec_bytes() == old(self).spec_bytes(),
            final(self).spec_position() == position,
    ;

    /// Moves the cursor on by the given count of bytes.
    fn increment_position(&mut self, increment: usize)
        requires
            old(self).buffer_wf(),
            old(self).spec_position() + increment <= old(self).spec_bytes().len(),
        ensures
            final(self).buffer_wf(),
            final(self).spec_bytes() == old(self).spec_bytes(),
            final(self).spec_position() == old(self).spec_position() + increment,
    ;

    /// Writes the `byte_size` low bytes of an integer at the cursor, and moves
    /// the cursor past them.
    fn write_int(&mut self, byte_size: usize, value: i64)
        requires
            old(self).buffer_wf(),
            is_int_size(byte_size as nat),
            old(self).spec_position() + byte_size <= old(self).spec_bytes().len(),
        ensures
            final(self).buffer_wf(),
            final(self).spec_bytes() == written(
                old(self).spec_bytes(),
                old(self).spec_position() as int,
                le_bytes(unsigned_of(value), byte_size as nat),
            ),
            final(self).spec_position() == old(self).spec_position() + byte_size,
    ;

    /// Reads an integer of `byte_size` bytes at the cursor, and moves the
    /// cursor past it.
    fn read_int(&mut self, byte_size: usize, is_signed: bool) -> (r: i64)
        requires
            old(self).buffer_wf(),
            is_int_size(byte_size as nat),
            old(self).spec_position() + byte_size <= old(self).spec_bytes().len(),
        ensures
            final(self).buffer_wf(),
            final(self).spec_bytes() == old(self).spec_bytes(),
            final(self).spec_position() == old(self).spec_position() + byte_size,
            r == decoded_int(
                le_value(
                    old(self).spec_bytes().subrange(
                        old(self).spec_position() as int,
                        old(self).spec_position() + byte_size,
                    ),
                ),
                byte_size as nat,
                is_signed,
            ),
    ;

    /// Writes the `byte_size` low bytes of the bit pattern of a floating point
    /// number at the cursor, and moves the cursor past them. In four bytes the
    /// pattern is that of a 32-bit number.
    fn write_float(&mut self, byte_size: usize, bits: u64)
        requires
            old(self).buffer_wf(),
            is_float_size(byte_size as nat),
            old(self).spec_position() + byte_size <= old(self).spec_bytes().len(),
        ensures
            final(self).buffer_wf(),
            final(self).spec_bytes() == written(
                old(self).spec_bytes(),
                old(self).spec_position() as int,
                le_bytes(bits as nat, byte_size as nat),
            ),
            final(self).spec_position() == old(self).spec_position() + byte_size,
    ;

    /// Reads the bit pattern of a floating point number of `byte_size` bytes
    /// at the cursor, and moves the cursor past it.
    fn read_float(&mut self, byte_size: usize) -> (r: u64)
        requires
            old(self).buffer_wf(),
            is_float_size(byte_size as nat),
            old(self).spec_position() + byte_size <= old(self).spec_bytes().len(),
        ensures
            final(self).buffer_wf(),
            final(self).spec_bytes() == old(self).spec_bytes(),
            final(self).spec_position() == old(self).spec_position() + byte_size,
            r == le_value(
                old(self).spec_bytes().subrange(
                    old(self).spec_position() as int,
                    old(self).spec_position() + byte_size,
                ),
            ),
    ;

    /// Writes a string into a field of `max_size` bytes at the cursor, and
    /// moves the cursor past the field. A longer string is cut off, a shorter
    /// one is followed by zeros.
    fn write_string(&mut self, max_size: usize, value: &String)
        requires
            old(self).buffer_wf(),
            old(self).spec_position() + max_size <= old(self).spec_bytes().len(),
        ensures
            final(self).buffer_wf(),
            final(self).spec_bytes() == written(
                old(self).spec_bytes(),
                old(self).spec_position() as int,
                string_field(encode_utf8(value@), max_size as nat),
            ),
            final(self).spec_position() == old(self).spec_position() + max_size,
    ;

    /// Reads a string from a field of `max_size` bytes at the cursor, and
    /// moves the cursor past the field. The string ends before the first zero
    /// byte of the field.
    fn read_string(&mut self, max_size: usize) -> (r: String)
        requires
            old(self).buffer_wf(),
            old(self).spec_position() + max_size <= old(self).spec_bytes().len(),
        ensures
            final(self).buffer_wf(),
            final(self).spec_bytes() == old(self).spec_bytes(),
            final(self).spec_position() == old(self).spec_position() + max_size,
            r@ == utf8_lossy(
                field_text(
                    old(self).spec_bytes().subrange(
                        old(self).spec_position() as int,
                        old(self).spec_position() + max_size,
                    ),
                ),
            ),
    ;
}

/// A byte buffer that owns its bytes.
#[derive(Debug)]
pub struct ByteBuffer {
    buffer: Vec<u8>,
    current_position: usize,
}

impl Clone for ByteBuffer {
    fn clone(&self) -> (r: Self)
        ensures
            r.spec_bytes() == self.spec_bytes(),
            r.spec_position() == self.spec_position(),
            r.buffer_wf() == self.buffer_wf(),
    {
        ByteBuffer { buffer: self.buffer.clone(), current_position: self.current_position }
    }
}

/// The `count` low bytes of a number, the lowest first.
fn encode_le(value: u64, count: usize) -> (r: Vec<u8>)
    requires
        count <= 8,
    ensures
        r@ == le_bytes(value as nat, count as nat),
{
    let mut out: Vec<u8> = Vec::new();
    let mut rest: u64 = value;
    let mut k: usize = 0;
    assert(out@ + le_bytes(rest as nat, count as nat) =~= le_bytes(value as nat, count as nat));
    while k < count
        invariant
            k <= count,
            out@ + le_bytes(rest as nat, (count - k) as nat) == le_bytes(
                value as nat,
                count as nat,
            ),
        decreases count - k,
    {
        let ghost before = out@;
        out.push((rest % 256) as u8);
        assert(before + le_bytes(rest as nat, (count - k) as nat) =~= out@ + le_bytes(
            (rest / 256) as nat,
            (count - k - 1) as nat,
        ));
        rest = rest / 256;
        k += 1;
    }
    assert(out@ + le_bytes(rest as nat, 0) =~= out@);
    out
}

/// The pattern of bits of a 64-bit signed integer.
fn bits_of(value: i64) -> (r: u64)
    ensures
        r == unsigned_of(value),
{
    if value >= 0 {
        value as u64
    } else {
        let low: u64 = (value + 1 + i64::MAX) as u64;
        low + 0x8000_0000_0000_0000
    }
}

/// The 64-bit signed integer with the given pattern of bits.
fn from_bits(bits: u64) -> (r: i64)
    ensures
        r == signed_of(bits as nat, 8),
{
    proof {
        lemma_pow256_values();
    }
    if bits >= 0x8000_0000_0000_0000 {
        let low: u64 = bits - 0x8000_0000_0000_0000;
        (low as i64) - 1 - i64::MAX
    } else {
        bits as i64
    }
}

impl ByteBuffer {
    /// A buffer of `new_len` zero bytes with the cursor at its start.
    pub fn new(new_len: usize) -> (r: ByteBuffer)
        ensures
            r.buffer_wf(),
            r.spec_bytes() == Seq::new(new_len as nat, |i: int| 0u8),
            r.spec_position() == 0,
    {
        let mut buffer: Vec<u8> = Vec::new();
        buffer.resize(new_len, 0);
        assert(buffer@ =~= Seq::new(new_len as nat, |i: int| 0u8));
        ByteBuffer { buffer, current_position: 0 }
    }

    /// A buffer that holds a copy of the given bytes, with the cursor at its
    /// start.
    pub fn from_bytes(bytes: &Vec<u8>) -> (r: ByteBuffer)
        ensures
            r.buffer_wf(),
            r.spec_bytes() == bytes@,
            r.spec_position() == 0,
    {
        let mut buffer: Vec<u8> = Vec::new();
        let mut k: usize = 0;
        while k < bytes.len()
            invariant
                k <= bytes@.len(),
                buffer@ == bytes@.take(k as int),
            decreases bytes@.len() - k,
        {
            buffer.push(bytes[k]);
            k += 1;
            assert(buffer@ =~= bytes@.take(k as int));
        }
        assert(bytes@.take(bytes@.len() as int) =~= bytes@);
        ByteBuffer { buffer, current_position: 0 }
    }

    /// Writes bytes at the cursor and moves the cursor past them.
    fn write_bytes(&mut self, data: &Vec<u8>)
        requires
            old(self).buffer_wf(),
            old(self).spec_position() + data@.len() <= old(self).spec_bytes().len(),
        ensures
            final(self).buffer_wf(),
            final(self).spec_bytes() == written(
                old(self).spec_bytes(),
                old(self).spec_position() as int,
                data@,
            ),
            final(self).spec_position() == old(self).spec_position() + data@.len(),
    {
        let position = self.current_position;
        let mut k: usize = 0;
        assert(self.buffer@ =~= written(old(self).buffer@, position as int, data@.take(0)));
        while k < data.len()
            invariant
                k <= data@.len(),
                self.buffer.len() == old(self).buffer.len(),
                position == old(self).current_position,
                self.current_position == position,
                position + data@.len() <= old(self).buffer@.len(),
                self.buffer@ == written(old(self).buffer@, position as int, data@.take(k as int)),
            decreases data@.len() - k,
        {
            self.buffer.set(position + k, data[k]);
            k += 1;
            assert(self.buffer@ =~= written(
                old(self).buffer@,
                position as int,
                data@.take(k as int),
            ));
        }
        assert(data@.take(data@.len() as int) == data@);
        self.current_position = position + data.len();
    }

    /// Reads the number that `count` bytes at the cursor stand for, and moves
    /// the cursor past them.
    fn read_value(&mut self, count: usize) -> (r: u64)
        requires
            old(self).buffer_wf(),
            count <= 8,
            old(self).spec_position() + count <= old(self).spec_bytes().len(),
        ensures
            final(self).buffer_wf(),
            final(self).spec_bytes() == old(self).spec_bytes(),
            final(self).spec_position() == old(self).spec_position() + count,
            r == le_value(
                old(self).spec_bytes().subrange(
                    old(self).spec_position() as int,
                    old(self).spec_position() + count,
                ),
            ),
    {
        let position = self.current_position;
        assert(self.buffer@.len() == self.buffer.len());
        let ghost field = self.buffer@.subrange(position as int, position + count);
        let mut acc: u64 = 0;
        let mut k: usize = count;
        assert(field.skip(count as int) =~= Seq::<u8>::empty());
        proof {
            lemma_pow256_values();
        }
        while k > 0
            invariant
                k <= count <= 8,
                position + count <= self.buffer.len(),
                field == self.buffer@.subrange(position as int, position + count),
                acc == le_value(field.skip(k as int)),
            decreases k,
        {
            k -= 1;
            let ghost tail = field.skip(k as int);
            assert(tail.skip(1) =~= field.skip(k + 1));
            assert(tail[0] == self.buffer@[position + k]);
            proof {
                lemma_le_value_bound(tail);
                lemma_le_value_bound(tail.skip(1));
                lemma_pow256_le(tail.len(), 8);
                lemma_pow256_values();
            }
            acc = acc * 256 + self.buffer[position + k] as u64;
        }
        assert(field.skip(0) =~= field);
        self.current_position = position + count;
        acc
    }
}

/// The powers of 256 grow.
pub proof fn lemma_pow256_le(a: nat, b: nat)
    requires
        a <= b,
    ensures
        pow256(a) <= pow256(b),
        pow256(a) > 0,
    decreases b,
{
    if a < b {
        lemma_pow256_le(a, (b - 1) as nat);
    } else if a > 0 {
        lemma_pow256_le((a - 1) as nat, (a - 1) as nat);
    }
}

impl Buffer for ByteBuffer {
    closed spec fn buffer_wf(&self) -> bool {
        self.current_position <= self.buffer@.len()
    }

    closed spec fn spec_bytes(&self) -> Seq<u8> {
        self.buffer@
    }

    closed spec fn spec_position(&self) -> nat {
        self.current_position as nat
    }

    fn bytes(&self) -> (r: &[u8]) {
        self.buffer.as_slice()
    }

    fn resize(&mut self, new_size: usize) {
        self.buffer.resize(new_size, 0);
        if self.current_position >= new_size {
            self.current_position = if new_size == 0 {
                0
            } else {
                new_size - 1
            };
        }
    }

    fn len(&self) -> (r: usize) {
        self.buffer.len()
    }

    fn position(&self) -> (r: usize) {
        self.current_position
    }

    fn set_position(&mut self, position: usize) {
        self.current_position = position;
    }

    fn increment_position(&mut self, increment: usize) {
        assert(self.buffer@.len() == self.buffer.len());
        self.current_position = self.current_position + increment;
    }

    fn write_int(&mut self, byte_size: usize, value: i64) {
        let data = encode_le(bits_of(value), byte_size);
        proof {
            lemma_le_bytes_len(unsigned_of(value), byte_size as nat);
        }
        self.write_bytes(&data);
    }

    fn read_int(&mut self, byte_size: usize, is_signed: bool) -> (r: i64) {
        let raw = self.read_value(byte_size);
        proof {
            lemma_pow256_values();
            lemma_le_value_bound(
                old(self).buffer@.subrange(
                    old(self).current_position as int,
                    old(self).current_position + byte_size,
                ),
            );
        }
        if byte_size == 8 {
            from_bits(raw)
        } else if !is_signed {
            raw as i64
        } else if byte_size == 1 {
            if raw >= 0x80 {
                (raw as i64) - 0x100
            } else {
                raw as i64
            }
        } else if byte_size == 2 {
            if raw >= 0x8000 {
                (raw as i64) - 0x1_0000
            } else {
                raw as i64
            }
        } else {
            if raw >= 0x8000_0000 {
                (raw as i64) - 0x1_0000_0000
            } else {
                raw as i64
            }
        }
    }

    fn write_float(&mut self, byte_size: usize, bits: u64) {
        let data = encode_le(bits, byte_size);
        proof {
            lemma_le_bytes_len(bits as nat, byte_size as nat);
        }
        self.write_bytes(&data);
    }

    fn read_float(&mut self, byte_size: usize) -> (r: u64) {
        self.read_value(byte_size)
    }

    fn write_string(&mut self, max_size: usize, value: &String) {
        let text = value.as_str().as_bytes();
        let mut data: Vec<u8> = Vec::new();
        let mut k: usize = 0;
        while k < max_size
            invariant
                k <= max_size,
                data@.len() == k,
                text@ == encode_utf8(value@),
                forall|i: int|
                    0 <= i < k ==> data@[i] == if i < text@.len() {
                        text@[i]
                    } else {
                        0u8
                    },
            decreases max_size - k,
        {
            if k < text.len() {
                data.push(text[k]);
            } else {
                data.push(0);
            }
            k += 1;
        }
        assert(data@ =~= string_field(encode_utf8(value@), max_size as nat));
        self.write_bytes(&data);
    }

    fn read_string(&mut self, max_size: usize) -> (r: String) {
        let position = self.current_position;
        assert(self.buffer@.len() == self.buffer.len());
        let ghost field = self.buffer@.subrange(position as int, position + max_size);
        let mut data: Vec<u8> = Vec::new();
        let mut k: usize = 0;
        let mut more = true;
        assert(data@ + field_text(field.skip(0)) =~= field_text(field)) by {
            assert(field.skip(0) =~= field);
        }
        while more && k < max_size
            invariant
                k <= max_size,
                position + max_size <= self.buffer.len(),
                field == self.buffer@.subrange(position as int, position + max_size),
                more ==> data@ + field_text(field.skip(k as int)) == field_text(field),
                !more ==> data@ == field_text(field),
            decreases
                    max_size - k + if more {
                        1int
                    } else {
                        0int
                    },
        {
            let byte = self.buffer[position + k];
            let ghost tail = field.skip(k as int);
            assert(tail[0] == byte);
            if byte == 0 {
                assert(data@ + Seq::<u8>::empty() =~= data@);
                more = false;
            } else {
                let ghost before = data@;
                data.push(byte);
                assert(tail.skip(1) =~= field.skip(k + 1));
                assert(before + (seq![byte] + field_text(tail.skip(1))) =~= data@ + field_text(
                    field.skip(k + 1),
                ));
                k += 1;
            }
        }
        proof {
            if more {
                assert(field.skip(max_size as int) =~= Seq::<u8>::empty());
                assert(data@ + Seq::<u8>::empty() =~= data@);
            }
        }
        self.current_position = position + max_size;
        lossy_text(&data)
    }
}

} // verus!
