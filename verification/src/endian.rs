//! The mathematics of fixed-width big-endian integers: base-256 digits,
//! most significant first, with two's complement for the signed types.

use vstd::prelude::*;

verus! {

/// `256` to the power `width`: the number of values that `width` bytes hold.
pub open spec fn radix(width: nat) -> nat
    decreases width,
{
    if width == 0 {
        1
    } else {
        256 * radix((width - 1) as nat)
    }
}

/// The `width` base-256 digits of `value`, most significant first. Digits
/// above the width are dropped.
pub open spec fn be_bytes(value: nat, width: nat) -> Seq<u8>
    decreases width,
{
    if width == 0 {
        Seq::<u8>::empty()
    } else {
        be_bytes(value / 256, (width - 1) as nat).push((value % 256) as u8)
    }
}

/// The number whose base-256 digits, most significant first, are `bytes`.
pub open spec fn be_value(bytes: Seq<u8>) -> nat
    decreases bytes.len(),
{
    if bytes.len() == 0 {
        0
    } else {
        256 * be_value(bytes.drop_last()) + bytes.last() as nat
    }
}

/// The two's complement bit pattern of `value` among `modulus` patterns.
pub open spec fn unsigned_pattern(value: int, modulus: nat) -> nat {
    if value >= 0 {
        value as nat
    } else {
        (value + modulus) as nat
    }
}

/// The signed number that the two's complement `pattern` stands for among
/// `modulus` patterns: the upper half of the patterns is negative.
pub open spec fn signed_value(pattern: nat, modulus: nat) -> int {
    if 2 * pattern < modulus {
        pattern as int
    } else {
        pattern - modulus
    }
}

/// The values of `radix` at the widths of the integer types.
pub proof fn lemma_radix_values()
    ensures
        radix(0) == 1,
        radix(1) == 0x100,
        radix(2) == 0x1_0000,
        radix(4) == 0x1_0000_0000,
        radix(8) == 0x1_0000_0000_0000_0000,
        radix(16) == 0x1_0000_0000_0000_0000_0000_0000_0000_0000,
{
    reveal_with_fuel(radix, 17);
}

/// `radix` grows with the width.
pub proof fn lemma_radix_monotonic(narrow: nat, wide: nat)
    requires
        narrow <= wide,
    ensures
        0 < radix(narrow) <= radix(wide),
    decreases wide,
{
    if wide == 0 {
    } else if narrow == wide {
        lemma_radix_monotonic((narrow - 1) as nat, (wide - 1) as nat);
    } else {
        lemma_radix_monotonic(narrow, (wide - 1) as nat);
    }
}

/// An encoding has exactly `width` bytes.
pub proof fn lemma_be_bytes_len(value: nat, width: nat)
    ensures
        be_bytes(value, width).len() == width,
    decreases width,
{
    if width > 0 {
        lemma_be_bytes_len(value / 256, (width - 1) as nat);
    }
}

/// `n` bytes denote a number below `radix(n)`.
pub proof fn lemma_be_value_bound(bytes: Seq<u8>)
    ensures
        be_value(bytes) < radix(bytes.len()),
    decreases bytes.len(),
{
    if bytes.len() > 0 {
        lemma_be_value_bound(bytes.drop_last());
    }
}

/// Decoding inverts encoding for every value that fits the width.
pub proof fn lemma_be_round_trip(value: nat, width: nat)
    requires
        value < radix(width),
    ensures
        be_bytes(value, width).len() == width,
        be_value(be_bytes(value, width)) == value,
    decreases width,
{
    lemma_be_bytes_len(value, width);
    if width > 0 {
        let head = be_bytes(value / 256, (width - 1) as nat);
        let low = (value % 256) as u8;
        lemma_be_round_trip(value / 256, (width - 1) as nat);
        assert(head.push(low).drop_last() =~= head);
    }
}

/// Encoding inverts decoding: distinct byte strings of one width denote
/// distinct numbers.
pub proof fn lemma_be_bytes_of_value(bytes: Seq<u8>)
    ensures
        be_bytes(be_value(bytes), bytes.len()) == bytes,
    decreases bytes.len(),
{
    if bytes.len() > 0 {
        let value = be_value(bytes);
        lemma_be_bytes_of_value(bytes.drop_last());
        assert(value / 256 == be_value(bytes.drop_last()));
        assert(value % 256 == bytes.last() as nat);
        assert(bytes.drop_last().push(bytes.last()) =~= bytes);
    }
}

/// Two's complement loses nothing: every signed value of the type comes back
/// from its bit pattern.
pub proof fn lemma_signed_round_trip(value: int, modulus: nat)
    requires
        modulus % 2 == 0,
        -(modulus / 2) <= value < modulus / 2,
    ensures
        unsigned_pattern(value, modulus) < modulus,
        signed_value(unsigned_pattern(value, modulus), modulus) == value,
{
}

/// Every bit pattern is the pattern of the signed value it stands for.
pub proof fn lemma_pattern_round_trip(pattern: nat, modulus: nat)
    requires
        modulus % 2 == 0,
        pattern < modulus,
    ensures
        -(modulus / 2) <= signed_value(pattern, modulus) < modulus / 2,
        unsigned_pattern(signed_value(pattern, modulus), modulus) == pattern,
{
}

/// A fixed-width field that was appended to `prefix` is read back intact from
/// the position where `prefix` ends.
pub proof fn lemma_be_read_back(prefix: Seq<u8>, value: nat, width: nat)
    requires
        value < radix(width),
    ensures
        (prefix + be_bytes(value, width)).len() == prefix.len() + width,
        be_value(
            (prefix + be_bytes(value, width)).subrange(
                prefix.len() as int,
                (prefix.len() + width) as int,
            ),
        ) == value,
{
    lemma_be_round_trip(value, width);
    let field = be_bytes(value, width);
    assert((prefix + field).subrange(prefix.len() as int, (prefix.len() + width) as int) =~= field);
}

} // verus!
