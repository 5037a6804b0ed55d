//! What is written is read back: the laws that tie the encoders of the
//! packet buffer to its decoders, for every value and at every position.

use crate::buffer::{bytes_as_chars, PacketBufView};
use crate::endian::{
    be_bytes, be_value, lemma_be_read_back, lemma_radix_monotonic, lemma_signed_round_trip, radix,
    signed_value, unsigned_pattern,
};
use crate::varint::{encode, lemma_read_back, lemma_round_trip, pattern_count};
use vstd::prelude::*;
use vstd::utf8::{encode_utf8, is_ascii_chars, is_ascii_chars_encode_utf8};

verus! {

/// A buffer that holds `prefix`, then `field`, then `suffix`, with the cursor
/// where `field` begins.
pub open spec fn positioned(prefix: Seq<u8>, field: Seq<u8>, suffix: Seq<u8>) -> PacketBufView {
    PacketBufView { bytes: prefix + field + suffix, cursor: prefix.len() }
}

/// An unsigned number of `width` bytes is read back as it was written.
pub proof fn lemma_unsigned_round_trip(
    prefix: Seq<u8>,
    value: nat,
    width: nat,
    suffix: Seq<u8>,
)
    requires
        value < radix(width),
    ensures
        ({
            let buf = positioned(prefix, be_bytes(value, width), suffix);
            &&& buf.can_read(width)
            &&& be_value(buf.field(width)) == value
            &&& buf.advance(width).cursor == prefix.len() + width
        }),
{
    let field = be_bytes(value, width);
    let buf = positioned(prefix, field, suffix);
    lemma_be_read_back(prefix, value, width);
    assert(buf.field(width) =~= (prefix + field).subrange(
        prefix.len() as int,
        (prefix.len() + width) as int,
    ));
}

/// A signed number of `width` bytes is read back as it was written, from its
/// least value to its greatest.
pub proof fn lemma_signed_field_round_trip(
    prefix: Seq<u8>,
    value: int,
    width: nat,
    suffix: Seq<u8>,
)
    requires
        width >= 1,
        -(radix(width) / 2) <= value < radix(width) / 2,
    ensures
        ({
            let buf = positioned(
                prefix,
                be_bytes(unsigned_pattern(value, radix(width)), width),
                suffix,
            );
            &&& buf.can_read(width)
            &&& signed_value(be_value(buf.field(width)), radix(width)) == value
        }),
{
    lemma_radix_monotonic(0, (width - 1) as nat);
    lemma_signed_round_trip(value, radix(width));
    lemma_unsigned_round_trip(prefix, unsigned_pattern(value, radix(width)), width, suffix);
}

/// A variable-length integer is read back as it was written, whatever its
/// sign: the reader stops where the encoding ends and returns the value.
pub proof fn lemma_var_int_round_trip(prefix: Seq<u8>, value: i64, suffix: Seq<u8>)
    ensures
        ({
            let field = encode(unsigned_pattern(value as int, pattern_count()));
            let buf = positioned(prefix, field, suffix);
            &&& 1 <= field.len() <= 10
            &&& buf.var_int_readable()
            &&& signed_value(buf.var_int(), pattern_count()) == value
            &&& buf.after_var_int().cursor == prefix.len() + field.len()
        }),
{
    let pattern = unsigned_pattern(value as int, pattern_count());
    lemma_round_trip(pattern);
    lemma_read_back(prefix, pattern, suffix);
}

/// A string is read back byte for byte: the reader finds the length, takes
/// that many bytes, and stops behind them.
pub proof fn lemma_string_round_trip(prefix: Seq<u8>, content: Seq<u8>, suffix: Seq<u8>)
    requires
        content.len() <= i64::MAX,
    ensures
        ({
            let buf = positioned(prefix, encode(content.len()) + content, suffix);
            &&& buf.string_readable()
            &&& buf.string_bytes() == content
            &&& buf.after_string().cursor == prefix.len() + encode(content.len()).len()
                + content.len()
        }),
{
    let size = encode(content.len());
    let buf = positioned(prefix, size + content, suffix);
    lemma_round_trip(content.len());
    lemma_read_back(prefix, content.len(), content + suffix);
    assert(prefix + size + (content + suffix) =~= buf.bytes);
    assert(buf.string_len() == content.len());
    assert(buf.string_bytes() =~= content);
}

/// Text of ASCII characters is read back as the same text: each of its bytes
/// is the code point of its character.
pub proof fn lemma_ascii_text_round_trip(text: Seq<char>)
    requires
        is_ascii_chars(text),
    ensures
        encode_utf8(text).len() == text.len(),
        bytes_as_chars(encode_utf8(text)) == text,
{
    is_ascii_chars_encode_utf8(text);
    assert(bytes_as_chars(encode_utf8(text)) =~= text);
}

} // verus!
