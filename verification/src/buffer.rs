//! The packet buffer: a growable byte sequence with a read cursor. Writes
//! append at the end wherever the cursor stands; reads take the bytes at the
//! cursor and move it forward. All numbers are big-endian.

use crate::endian::{
    be_bytes, be_value, lemma_radix_monotonic, lemma_radix_values, radix, signed_value,
    unsigned_pattern,
};
use crate::varint::{
    decode, encode, end, group_sum, lemma_decode_step, lemma_group_sum_push, lemma_terminator, lemma_terminator_unique, lemma_weight_values, pattern_count, readable,
    terminator, value_at, weight,
};
use vstd::prelude::*;
use vstd::string::StringSliceAdditionalSpecFns;

verus! {

/// What a buffer is to its callers: its bytes and the position of its cursor.
/// The cursor may stand behind the last byte after the buffer was shortened.
pub struct PacketBufView {
    pub bytes: Seq<u8>,
    pub cursor: nat,
}

impl PacketBufView {
    /// `width` more bytes can be read at the cursor.
    pub open spec fn can_read(self, width: nat) -> bool {
        self.cursor + width <= self.bytes.len()
    }

    /// The `width` bytes at the cursor.
    pub open spec fn field(self, width: nat) -> Seq<u8> {
        self.bytes.subrange(self.cursor as int, (self.cursor + width) as int)
    }

    /// The same bytes with the cursor `width` bytes further.
    pub open spec fn advance(self, width: nat) -> PacketBufView {
        PacketBufView { bytes: self.bytes, cursor: self.cursor + width }
    }

    /// `more` appended behind the bytes, the cursor where it was.
    pub open spec fn append(self, more: Seq<u8>) -> PacketBufView {
        PacketBufView { bytes: self.bytes + more, cursor: self.cursor }
    }

    /// The bytes from the cursor to the end, as a buffer of their own.
    pub open spec fn rest(self) -> PacketBufView {
        PacketBufView {
            bytes: if self.cursor <= self.bytes.len() {
                self.bytes.skip(self.cursor as int)
            } else {
                Seq::<u8>::empty()
            },
            cursor: 0,
        }
    }

    /// A variable-length integer can be read at the cursor.
    pub open spec fn var_int_readable(self) -> bool {
        readable(self.bytes, self.cursor as int)
    }

    /// The 64-bit pattern of the variable-length integer at the cursor.
    pub open spec fn var_int(self) -> nat {
        value_at(self.bytes, self.cursor as int)
    }

    /// The same bytes with the cursor behind the variable-length integer.
    pub open spec fn after_var_int(self) -> PacketBufView {
        PacketBufView { bytes: self.bytes, cursor: end(self.bytes, self.cursor as int) as nat }
    }

    /// The number of content bytes that the length prefix at the cursor
    /// announces: the prefix read as a signed number, nothing where it is
    /// negative.
    pub open spec fn string_len(self) -> nat {
        let announced = signed_value(self.var_int(), pattern_count());
        if announced > 0 {
            announced as nat
        } else {
            0
        }
    }

    /// A string can be read at the cursor: its length prefix, and behind it
    /// as many bytes as the prefix announces.
    pub open spec fn string_readable(self) -> bool {
        self.var_int_readable() && self.after_var_int().can_read(self.string_len())
    }

    /// The content bytes of the string at the cursor.
    pub open spec fn string_bytes(self) -> Seq<u8> {
        self.after_var_int().field(self.string_len())
    }

    /// The same bytes with the cursor behind the string.
    pub open spec fn after_string(self) -> PacketBufView {
        self.after_var_int().advance(self.string_len())
    }
}

/// Each byte taken as the character with that code point.
pub open spec fn bytes_as_chars(bytes: Seq<u8>) -> Seq<char> {
    Seq::new(bytes.len(), |i: int| bytes[i] as char)
}

/// `String::push`: appends the character to the end of the string.
pub assume_specification[ String::push ](text: &mut String, ch: char)
    ensures
        final(text)@ == old(text)@.push(ch),
;

/// `count` zero bytes.
pub open spec fn zeros(count: nat) -> Seq<u8> {
    Seq::new(count, |i: int| 0u8)
}

/// An owned, growable byte sequence plus a read cursor.
#[derive(Debug)]
pub struct PacketBuf {
    vector: Vec<u8>,
    read_index: usize,
}

impl View for PacketBuf {
    type V = PacketBufView;

    closed spec fn view(&self) -> PacketBufView {
        PacketBufView { bytes: self.vector@, cursor: self.read_index as nat }
    }
}

impl Default for PacketBuf {
    fn default() -> (buf: PacketBuf)
        ensures
            buf@ == (PacketBufView { bytes: Seq::<u8>::empty(), cursor: 0 }),
    {
        PacketBuf::new()
    }
}

/// `Vec::capacity`: the number of elements the vector can hold without
/// reallocating, which is never less than the number it holds. How much more
/// is the allocator's choice.
#[verifier::external_body]
fn vec_capacity(vector: &Vec<u8>) -> (capacity: usize)
    ensures
        capacity >= vector@.len(),
{
    vector.capacity()
}

/// The number that the bytes of `digits` denote, most significant first.
fn be_value_of<const N: usize>(digits: [u8; N]) -> (value: u128)
    requires
        N <= 16,
    ensures
        value == be_value(digits@),
        value < radix(N as nat),
{
    let mut value: u128 = 0;
    let mut i: usize = 0;
    proof {
        lemma_radix_values();
    }
    while i < N
        invariant
            i <= N <= 16,
            value == be_value(digits@.subrange(0, i as int)),
            value < radix(i as nat),
            radix(16) == 0x1_0000_0000_0000_0000_0000_0000_0000_0000,
        decreases N - i,
    {
        proof {
            lemma_radix_monotonic((i + 1) as nat, 16);
            assert(digits@.subrange(0, i + 1).drop_last() =~= digits@.subrange(0, i as int));
        }
        value = value * 256 + digits[i] as u128;
        i += 1;
    }
    assert(digits@.subrange(0, N as int) =~= digits@);
    value
}

impl PacketBuf {
    /// A buffer holds no more bytes than the machine can count.
    pub proof fn lemma_len_bound(&self)
        ensures
            self@.bytes.len() <= usize::MAX,
    {
        assert(self.vector.len() == self.vector@.len());
    }

    /// An empty buffer with the cursor at the start.
    pub fn new() -> (buf: PacketBuf)
        ensures
            buf@ == (PacketBufView { bytes: Seq::<u8>::empty(), cursor: 0 }),
    {
        PacketBuf { vector: Vec::new(), read_index: 0 }
    }

    /// A buffer of `capacity` zero bytes, to receive into, with the cursor at
    /// the start.
    pub fn with_capacity(capacity: usize) -> (buf: PacketBuf)
        ensures
            buf@ == (PacketBufView { bytes: zeros(capacity as nat), cursor: 0 }),
    {
        let vector = vec![0u8; capacity];
        assert(vector@ =~= zeros(capacity as nat));
        PacketBuf { vector, read_index: 0 }
    }

    /// The bytes of the buffer.
    pub fn as_array(&self) -> (bytes: &[u8])
        ensures
            bytes@ == self@.bytes,
    {
        self.vector.as_slice()
    }

    /// The bytes of the buffer, to be overwritten in place: what the caller
    /// leaves in the slice is what the buffer then holds.
    pub fn as_mut_array(&mut self) -> (bytes: &mut [u8])
        ensures
            bytes@ == old(self)@.bytes,
            final(self)@ == (PacketBufView { bytes: final(bytes)@, cursor: old(self)@.cursor }),
    {
        self.vector.as_mut_slice()
    }

    /// Cuts the buffer to its first `new_length` bytes, or fills it up with
    /// zero bytes to that length. The cursor stays.
    pub fn resize(&mut self, new_length: usize)
        ensures
            final(self)@.cursor == old(self)@.cursor,
            new_length <= old(self)@.bytes.len() ==> final(self)@.bytes == old(
                self,
            )@.bytes.take(new_length as int),
            new_length > old(self)@.bytes.len() ==> final(self)@.bytes == old(self)@.bytes + zeros(
                (new_length - old(self)@.bytes.len()) as nat,
            ),
    {
        if new_length <= self.vector.len() {
            self.vector.truncate(new_length);
        } else {
            let ghost before = self.vector@;
            self.vector.resize(new_length, 0);
            assert(self.vector@ =~= before + zeros((new_length - before.len()) as nat));
        }
    }

    /// The number of bytes in the buffer.
    pub fn length(&self) -> (length: usize)
        ensures
            length == self@.bytes.len(),
    {
        self.vector.len()
    }

    /// The number of bytes the buffer can hold before it allocates again:
    /// at least its length.
    pub fn capacity(&self) -> (capacity: usize)
        ensures
            capacity >= self@.bytes.len(),
    {
        vec_capacity(&self.vector)
    }

    /// The position of the cursor.
    pub fn position(&self) -> (position: usize)
        ensures
            position == self@.cursor,
    {
        self.read_index
    }

    /// Whether `width` more bytes can be read at the cursor.
    pub fn can_read(&self, width: usize) -> (yes: bool)
        ensures
            yes == self@.can_read(width as nat),
    {
        width <= self.vector.len() && self.read_index <= self.vector.len() - width
    }

    /// A new buffer that holds the bytes from the cursor to the end, with
    /// its own cursor at the start.
    pub fn rest(&self) -> (rest: PacketBuf)
        ensures
            rest@ == self@.rest(),
    {
        let mut rest = PacketBuf::new();
        let mut index: usize = self.read_index;
        while index < self.vector.len()
            invariant
                self.read_index <= index,
                self.read_index <= self.vector.len() ==> index <= self.vector.len(),
                rest.read_index == 0,
                index <= self.vector.len() ==> rest.vector@ == self.vector@.subrange(
                    self.read_index as int,
                    index as int,
                ),
                index > self.vector.len() ==> rest.vector@ == Seq::<u8>::empty(),
            decreases self.vector.len() - index,
        {
            rest.vector.push(self.vector[index]);
            index += 1;
            assert(rest.vector@ =~= self.vector@.subrange(self.read_index as int, index as int));
        }
        assert(rest.vector@ =~= self@.rest().bytes);
        rest
    }

    /// Puts the cursor back to the start. The bytes stay.
    pub fn reset_reading(&mut self)
        ensures
            final(self)@ == (PacketBufView { bytes: old(self)@.bytes, cursor: 0 }),
    {
        self.read_index = 0;
    }

    /// Appends the bytes of `buf`.
    pub fn write_all(&mut self, buf: &PacketBuf)
        ensures
            final(self)@ == old(self)@.append(buf@.bytes),
    {
        self.vector.extend_from_slice(buf.vector.as_slice());
        assert(self.vector@ =~= old(self).vector@ + buf.vector@);
    }

    /// Appends the bytes of `slice`.
    pub fn write_slice(&mut self, slice: &[u8])
        ensures
            final(self)@ == old(self)@.append(slice@),
    {
        self.vector.extend_from_slice(slice);
        assert(self.vector@ =~= old(self).vector@ + slice@);
    }

    /// Appends the `width` big-endian bytes of `value`.
    fn push_be(&mut self, value: u128, width: usize)
        ensures
            final(self)@ == old(self)@.append(be_bytes(value as nat, width as nat)),
        decreases width,
    {
        if width > 0 {
            self.push_be(value / 256, width - 1);
            self.vector.push((value % 256) as u8);
        }
        assert(self.vector@ =~= old(self).vector@ + be_bytes(value as nat, width as nat));
    }

    /// Appends the one byte of `value`, in two's complement.
    pub fn write_i8(&mut self, value: i8)
        ensures
            final(self)@ == old(self)@.append(
                be_bytes(unsigned_pattern(value as int, radix(1)), 1),
            ),
    {
        proof {
            lemma_radix_values();
        }
        let pattern: u8 = if value >= 0 {
            value as u8
        } else {
            (value - i8::MIN) as u8 + 0x80
        };
        self.push_be(pattern as u128, 1);
    }

    /// Reads one byte as a signed number in two's complement.
    pub fn read_i8(&mut self) -> (value: i8)
        requires
            old(self)@.can_read(1),
        ensures
            final(self)@ == old(self)@.advance(1),
            value == signed_value(be_value(old(self)@.field(1)), radix(1)),
    {
        proof {
            lemma_radix_values();
        }
        let pattern = self.read_u8();
        if pattern < 0x80 {
            pattern as i8
        } else {
            (pattern - 0x80) as i8 + i8::MIN
        }
    }

    /// Appends the byte `value`.
    pub fn write_u8(&mut self, value: u8)
        ensures
            final(self)@ == old(self)@.append(be_bytes(value as nat, 1)),
    {
        self.push_be(value as u128, 1);
    }

    /// Reads one byte.
    pub fn read_u8(&mut self) -> (value: u8)
        requires
            old(self)@.can_read(1),
        ensures
            final(self)@ == old(self)@.advance(1),
            value == be_value(old(self)@.field(1)),
    {
        proof {
            lemma_radix_values();
        }
        assert(self.vector.len() == self.vector@.len());
        self.read_index += 1;
        let digits = [self.vector[self.read_index - 1]];
        assert(digits@ =~= old(self)@.field(1));
        be_value_of(digits) as u8
    }

    /// Appends the two big-endian bytes of `value`, in two's complement.
    pub fn write_i16(&mut self, value: i16)
        ensures
            final(self)@ == old(self)@.append(
                be_bytes(unsigned_pattern(value as int, radix(2)), 2),
            ),
    {
        proof {
            lemma_radix_values();
        }
        let pattern: u16 = if value >= 0 {
            value as u16
        } else {
            (value - i16::MIN) as u16 + 0x8000
        };
        self.push_be(pattern as u128, 2);
    }

    /// Reads two bytes as a signed big-endian number in two's complement.
    pub fn read_i16(&mut self) -> (value: i16)
        requires
            old(self)@.can_read(2),
        ensures
            final(self)@ == old(self)@.advance(2),
            value == signed_value(be_value(old(self)@.field(2)), radix(2)),
    {
        proof {
            lemma_radix_values();
        }
        let pattern = self.read_u16();
        if pattern < 0x8000 {
            pattern as i16
        } else {
            (pattern - 0x8000) as i16 + i16::MIN
        }
    }

    /// Appends the two big-endian bytes of `value`.
    pub fn write_u16(&mut self, value: u16)
        ensures
            final(self)@ == old(self)@.append(be_bytes(value as nat, 2)),
    {
        self.push_be(value as u128, 2);
    }

    /// Reads two bytes as a big-endian number.
    pub fn read_u16(&mut self) -> (value: u16)
        requires
            old(self)@.can_read(2),
        ensures
            final(self)@ == old(self)@.advance(2),
            value == be_value(old(self)@.field(2)),
    {
        proof {
            lemma_radix_values();
        }
        assert(self.vector.len() == self.vector@.len());
        self.read_index += 2;
        let digits = [self.vector[self.read_index - 2], self.vector[self.read_index - 1]];
        assert(digits@ =~= old(self)@.field(2));
        be_value_of(digits) as u16
    }

    /// Appends the four big-endian bytes of `value`, in two's complement.
    pub fn write_i32(&mut self, value: i32)
        ensures
            final(self)@ == old(self)@.append(
                be_bytes(unsigned_pattern(value as int, radix(4)), 4),
            ),
    {
        proof {
            lemma_radix_values();
        }
        let pattern: u32 = if value >= 0 {
            value as u32
        } else {
            (value - i32::MIN) as u32 + 0x8000_0000
        };
        self.push_be(pattern as u128, 4);
    }

    /// Reads four bytes as a signed big-endian number in two's complement.
    pub fn read_i32(&mut self) -> (value: i32)
        requires
            old(self)@.can_read(4),
        ensures
            final(self)@ == old(self)@.advance(4),
            value == signed_value(be_value(old(self)@.field(4)), radix(4)),
    {
        proof {
            lemma_radix_values();
        }
        let pattern = self.read_u32();
        if pattern < 0x8000_0000 {
            pattern as i32
        } else {
            (pattern - 0x8000_0000) as i32 + i32::MIN
        }
    }

    /// Appends the four big-endian bytes of `value`.
    pub fn write_u32(&mut self, value: u32)
        ensures
            final(self)@ == old(self)@.append(be_bytes(value as nat, 4)),
    {
        self.push_be(value as u128, 4);
    }

    /// Reads four bytes as a big-endian number.
    pub fn read_u32(&mut self) -> (value: u32)
        requires
            old(self)@.can_read(4),
        ensures
            final(self)@ == old(self)@.advance(4),
            value == be_value(old(self)@.field(4)),
    {
        proof {
            lemma_radix_values();
        }
        assert(self.vector.len() == self.vector@.len());
        self.read_index += 4;
        let digits = [
            self.vector[self.read_index - 4],
            self.vector[self.read_index - 3],
            self.vector[self.read_index - 2],
            self.vector[self.read_index - 1],
        ];
        assert(digits@ =~= old(self)@.field(4));
        be_value_of(digits) as u32
    }

    /// The eight bytes just before the cursor.
    pub fn int64_slice(&self) -> (digits: [u8; 8])
        requires
            8 <= self@.cursor <= self@.bytes.len(),
        ensures
            digits@ == self@.bytes.subrange(self@.cursor - 8, self@.cursor as int),
    {
        let digits = [
            self.vector[self.read_index - 8],
            self.vector[self.read_index - 7],
            self.vector[self.read_index - 6],
            self.vector[self.read_index - 5],
            self.vector[self.read_index - 4],
            self.vector[self.read_index - 3],
            self.vector[self.read_index - 2],
            self.vector[self.read_index - 1],
        ];
        assert(digits@ =~= self.vector@.subrange(self.read_index - 8, self.read_index as int));
        digits
    }

    /// Appends the eight big-endian bytes of `value`, in two's complement.
    pub fn write_i64(&mut self, value: i64)
        ensures
            final(self)@ == old(self)@.append(
                be_bytes(unsigned_pattern(value as int, radix(8)), 8),
            ),
    {
        proof {
            lemma_radix_values();
        }
        let pattern: u64 = if value >= 0 {
            value as u64
        } else {
            (value - i64::MIN) as u64 + 0x8000_0000_0000_0000
        };
        self.push_be(pattern as u128, 8);
    }

    /// Reads eight bytes as a signed big-endian number in two's complement.
    pub fn read_i64(&mut self) -> (value: i64)
        requires
            old(self)@.can_read(8),
        ensures
            final(self)@ == old(self)@.advance(8),
            value == signed_value(be_value(old(self)@.field(8)), radix(8)),
    {
        proof {
            lemma_radix_values();
        }
        let pattern = self.read_u64();
        if pattern < 0x8000_0000_0000_0000 {
            pattern as i64
        } else {
            (pattern - 0x8000_0000_0000_0000) as i64 + i64::MIN
        }
    }

    /// Appends the eight big-endian bytes of `value`.
    pub fn write_u64(&mut self, value: u64)
        ensures
            final(self)@ == old(self)@.append(be_bytes(value as nat, 8)),
    {
        self.push_be(value as u128, 8);
    }

    /// Reads eight bytes as a big-endian number.
    pub fn read_u64(&mut self) -> (value: u64)
        requires
            old(self)@.can_read(8),
        ensures
            final(self)@ == old(self)@.advance(8),
            value == be_value(old(self)@.field(8)),
    {
        proof {
            lemma_radix_values();
        }
        assert(self.vector.len() == self.vector@.len());
        self.read_index += 8;
        be_value_of(self.int64_slice()) as u64
    }

    /// The sixteen bytes just before the cursor.
    pub fn int128_slice(&self) -> (digits: [u8; 16])
        requires
            16 <= self@.cursor <= self@.bytes.len(),
        ensures
            digits@ == self@.bytes.subrange(self@.cursor - 16, self@.cursor as int),
    {
        let digits = [
            self.vector[self.read_index - 16],
            self.vector[self.read_index - 15],
            self.vector[self.read_index - 14],
            self.vector[self.read_index - 13],
            self.vector[self.read_index - 12],
            self.vector[self.read_index - 11],
            self.vector[self.read_index - 10],
            self.vector[self.read_index - 9],
            self.vector[self.read_index - 8],
            self.vector[self.read_index - 7],
            self.vector[self.read_index - 6],
            self.vector[self.read_index - 5],
            self.vector[self.read_index - 4],
            self.vector[self.read_index - 3],
            self.vector[self.read_index - 2],
            self.vector[self.read_index - 1],
        ];
        assert(digits@ =~= self.vector@.subrange(self.read_index - 16, self.read_index as int));
        digits
    }

    /// Appends the sixteen big-endian bytes of `value`, in two's complement.
    pub fn write_i128(&mut self, value: i128)
        ensures
            final(self)@ == old(self)@.append(
                be_bytes(unsigned_pattern(value as int, radix(16)), 16),
            ),
    {
        proof {
            lemma_radix_values();
        }
        let pattern: u128 = if value >= 0 {
            value as u128
        } else {
            (value - i128::MIN) as u128 + 0x8000_0000_0000_0000_0000_0000_0000_0000
        };
        self.push_be(pattern, 16);
    }

    /// Reads sixteen bytes as a signed big-endian number in two's complement.
    pub fn read_i128(&mut self) -> (value: i128)
        requires
            old(self)@.can_read(16),
        ensures
            final(self)@ == old(self)@.advance(16),
            value == signed_value(be_value(old(self)@.field(16)), radix(16)),
    {
        proof {
            lemma_radix_values();
        }
        let pattern = self.read_u128();
        if pattern < 0x8000_0000_0000_0000_0000_0000_0000_0000 {
            pattern as i128
        } else {
            (pattern - 0x8000_0000_0000_0000_0000_0000_0000_0000) as i128 + i128::MIN
        }
    }

    /// Appends the sixteen big-endian bytes of `value`.
    pub fn write_u128(&mut self, value: u128)
        ensures
            final(self)@ == old(self)@.append(be_bytes(value as nat, 16)),
    {
        self.push_be(value, 16);
    }

    /// Reads sixteen bytes as a big-endian number.
    pub fn read_u128(&mut self) -> (value: u128)
        requires
            old(self)@.can_read(16),
        ensures
            final(self)@ == old(self)@.advance(16),
            value == be_value(old(self)@.field(16)),
    {
        assert(self.vector.len() == self.vector@.len());
        self.read_index += 16;
        be_value_of(self.int128_slice())
    }

    /// Appends one byte: `1` for true, `0` for false.
    pub fn write_boolean(&mut self, value: bool)
        ensures
            final(self)@ == old(self)@.append(
                seq![if value {
                    1u8
                } else {
                    0u8
                }],
            ),
    {
        let byte: u8 = if value {
            1
        } else {
            0
        };
        self.vector.push(byte);
        assert(self.vector@ =~= old(self).vector@ + seq![byte]);
    }

    /// Reads one byte as a truth value: `1` is true, every other byte false.
    pub fn read_boolean(&mut self) -> (value: bool)
        requires
            old(self)@.can_read(1),
        ensures
            final(self)@ == old(self)@.advance(1),
            value == (old(self)@.bytes[old(self)@.cursor as int] == 1),
    {
        assert(self.vector.len() == self.vector@.len());
        self.read_index += 1;
        self.vector[self.read_index - 1] == 1
    }
}

impl PacketBuf {
    /// Decodes the variable-length integer that starts at `start`, and says
    /// where it ends.
    fn var_uint_at(&self, start: usize) -> (found: (u64, usize))
        requires
            readable(self@.bytes, start as int),
        ensures
            found.0 == value_at(self@.bytes, start as int),
            found.1 == end(self@.bytes, start as int),
    {
        let ghost bytes = self.vector@;
        let ghost last = terminator(bytes, start as int);
        proof {
            lemma_terminator(bytes, start as int);
            lemma_weight_values();
        }
        assert(self.vector.len() == bytes.len());
        let mut value: u64 = 0;
        let mut position: u64 = 0;
        let mut index: usize = start;
        loop
            invariant_except_break
                start <= index <= last,
                position == 7 * (index - start),
                value == group_sum(bytes.subrange(start as int, index as int)),
                value < weight((index - start) as nat),
            invariant
                self.vector@ == bytes,
                last < bytes.len() <= usize::MAX,
                last - start < 10,
                forall|i: int| start <= i < last ==> bytes[i] >= 128,
                bytes[last] < 128,
            ensures
                index == last + 1,
                value == decode(bytes.subrange(start as int, last + 1)),
            decreases last - index,
        {
            let current = self.vector[index];
            let group: u64 = (current & 0x7f) as u64;
            let ghost count = (index - start) as nat;
            let ghost before = value;
            let ghost seen = bytes.subrange(start as int, index as int);
            proof {
                assert(current & 0x7f == current % 128) by (bit_vector);
                assert((current & 0x80 == 0) == (current < 128)) by (bit_vector);
                lemma_decode_step(before, group, position, count);
                lemma_group_sum_push(seen, current);
                assert(seen.push(current) =~= bytes.subrange(start as int, index + 1));
                if count <= 8 {
                    assert(weight(count + 1) == 128 * weight(count)) by {
                        reveal_with_fuel(weight, 2);
                    }
                    assert(group * weight(count) <= 127 * weight(count)) by (nonlinear_arith)
                        requires
                            group <= 127,
                    ;
                }
            }
            value = value | (group << position);
            index += 1;
            if current & 0x80 == 0 {
                break ;
            }
            position += 7;
        }
        (value, index)
    }

    /// Whether a variable-length integer can be read at the cursor: one of
    /// the next ten bytes has its continuation bit clear.
    pub fn can_read_var_int(&self) -> (yes: bool)
        ensures
            yes == self@.var_int_readable(),
    {
        let ghost bytes = self.vector@;
        let ghost start = self.read_index as int;
        let mut index: usize = self.read_index;
        let mut seen: usize = 0;
        while seen < 10 && index < self.vector.len()
            invariant
                self.vector@ == bytes,
                start == self.read_index,
                index == start + seen,
                seen <= 10,
                forall|i: int| start <= i < index ==> bytes[i] >= 128,
            decreases 10 - seen,
        {
            if self.vector[index] < 128 {
                proof {
                    lemma_terminator_unique(bytes, start, index as int);
                }
                return true;
            }
            index += 1;
            seen += 1;
        }
        proof {
            if start <= bytes.len() {
                lemma_terminator(bytes, start);
            }
        }
        false
    }

    /// Reads a variable-length integer: groups of seven bits, least
    /// significant first, up to the first byte whose continuation bit is clear.
    /// The 64-bit pattern they add up to is returned as a signed number.
    pub fn read_var_int(&mut self) -> (value: i64)
        requires
            old(self)@.var_int_readable(),
        ensures
            final(self)@ == old(self)@.after_var_int(),
            value == signed_value(old(self)@.var_int(), pattern_count()),
    {
        let (pattern, next) = self.var_uint_at(self.read_index);
        self.read_index = next;
        if pattern < 0x8000_0000_0000_0000 {
            pattern as i64
        } else {
            (pattern - 0x8000_0000_0000_0000) as i64 + i64::MIN
        }
    }

    /// Appends the variable-length encoding of `pattern`.
    pub(crate) fn push_var_uint(&mut self, pattern: u64)
        ensures
            final(self)@ == old(self)@.append(encode(pattern as nat)),
    {
        let ghost before = self.vector@;
        let mut rest: u64 = pattern;
        loop
            invariant_except_break
                self.vector@ + encode(rest as nat) == before + encode(pattern as nat),
            invariant
                self.read_index == old(self).read_index,
            ensures
                self.vector@ == before + encode(pattern as nat),
            decreases rest,
        {
            let ghost written = self.vector@;
            proof {
                assert((rest & !0x7f == 0) == (rest < 128) && ((rest & 0x7f) | 0x80) == rest % 128
                    + 128 && rest >> 7 == rest / 128) by (bit_vector);
            }
            if rest & !0x7f == 0 {
                self.vector.push(rest as u8);
                assert(self.vector@ =~= written + encode(rest as nat));
                break ;
            }
            self.vector.push(((rest & 0x7f) | 0x80) as u8);
            assert(self.vector@ + encode((rest / 128) as nat) =~= written + encode(rest as nat));
            rest = rest >> 7;
        }
    }

    /// Appends `value` as a variable-length integer: the groups of seven bits
    /// of its 64-bit two's complement pattern, least significant first, as
    /// few as the pattern needs. A negative value takes ten bytes.
    pub fn write_var_int(&mut self, value: i64)
        ensures
            final(self)@ == old(self)@.append(
                encode(unsigned_pattern(value as int, pattern_count())),
            ),
    {
        let pattern: u64 = if value >= 0 {
            value as u64
        } else {
            (value - i64::MIN) as u64 + 0x8000_0000_0000_0000
        };
        self.push_var_uint(pattern);
    }

    /// Appends a string: the number of its bytes as a variable-length
    /// integer, then the bytes.
    pub fn write_string(&mut self, value: &str)
        ensures
            final(self)@ == old(self)@.append(
                encode(value.spec_bytes().len()) + value.spec_bytes(),
            ),
    {
        let content = value.as_bytes();
        self.push_var_uint(content.len() as u64);
        self.vector.extend_from_slice(content);
        assert(self.vector@ =~= old(self).vector@ + (encode(value.spec_bytes().len())
            + value.spec_bytes()));
    }

    /// Whether a string can be read at the cursor.
    pub fn can_read_string(&self) -> (yes: bool)
        ensures
            yes == self@.string_readable(),
    {
        if !self.can_read_var_int() {
            return false;
        }
        let (pattern, next) = self.var_uint_at(self.read_index);
        if pattern >= 0x8000_0000_0000_0000 {
            return true;
        }
        let available = self.vector.len() - next;
        pattern <= available as u64
    }

    /// Reads a string: a length prefix, then that many bytes, each taken as
    /// the character with that code point.
    pub fn read_string(&mut self) -> (text: String)
        requires
            old(self)@.string_readable(),
        ensures
            final(self)@ == old(self)@.after_string(),
            text@ == bytes_as_chars(old(self)@.string_bytes()),
    {
        let length = self.read_var_int();
        let ghost first = self.read_index as int;
        let ghost bytes = self.vector@;
        assert(self.vector.len() == bytes.len());
        let mut text = String::new();
        let mut taken: i64 = 0;
        while taken < length
            invariant
                self.vector@ == bytes,
                bytes.len() <= usize::MAX,
                0 <= first,
                0 <= taken,
                length > 0 ==> taken <= length,
                length <= 0 ==> taken == 0,
                self.read_index == first + taken,
                length > 0 ==> first + length <= bytes.len(),
                text@ == bytes_as_chars(bytes.subrange(first, first + taken)),
            decreases length - taken,
        {
            self.read_index += 1;
            text.push(self.vector[self.read_index - 1] as char);
            taken += 1;
            assert(text@ =~= bytes_as_chars(bytes.subrange(first, first + taken)));
        }
        assert(text@ =~= bytes_as_chars(old(self)@.string_bytes()));
        text
    }
}

} // verus!
