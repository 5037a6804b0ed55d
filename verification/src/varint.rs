//! The variable-length integer of the wire format: groups of seven payload
//! bits, least significant group first, the high bit of a byte saying that
//! another group follows. Values are 64-bit patterns.

use vstd::arithmetic::div_mod::lemma_mod_multiples_vanish;
use vstd::prelude::*;

verus! {

/// The number of 64-bit patterns.
pub open spec fn pattern_count() -> nat {
    0x1_0000_0000_0000_0000
}

/// The longest encoding that a reader accepts, in bytes: ten groups of seven
/// bits are the fewest that cover 64 bits.
pub open spec fn max_len() -> nat {
    10
}

/// `128` to the power `groups`: the weight of the group at index `groups`.
pub open spec fn weight(groups: nat) -> nat
    decreases groups,
{
    if groups == 0 {
        1
    } else {
        128 * weight((groups - 1) as nat)
    }
}

/// The encoding of `value`: its base-128 digits, least significant first and
/// as few as possible, each but the last with the high bit set.
pub open spec fn encode(value: nat) -> Seq<u8>
    decreases value,
{
    if value < 128 {
        seq![value as u8]
    } else {
        seq![(value % 128 + 128) as u8] + encode(value / 128)
    }
}

/// The number that the payload bits of `groups` add up to, the first group
/// being the least significant.
pub open spec fn group_sum(groups: Seq<u8>) -> nat
    decreases groups.len(),
{
    if groups.len() == 0 {
        0
    } else {
        (groups[0] % 128) as nat + 128 * group_sum(groups.skip(1))
    }
}

/// The 64-bit pattern that `groups` decode to: bits above the 64th are lost.
pub open spec fn decode(groups: Seq<u8>) -> nat {
    group_sum(groups) % pattern_count()
}

/// The index of the first byte at or after `from` whose high bit is clear, or
/// the length of `bytes` where there is none.
pub open spec fn terminator(bytes: Seq<u8>, from: int) -> int
    decreases bytes.len() - from,
{
    if from < 0 || from >= bytes.len() {
        bytes.len() as int
    } else if bytes[from] < 128 {
        from
    } else {
        terminator(bytes, from + 1)
    }
}

/// A variable-length integer can be read at `from`: it ends inside `bytes`
/// and has at most `max_len()` bytes.
pub open spec fn readable(bytes: Seq<u8>, from: int) -> bool {
    &&& 0 <= from
    &&& terminator(bytes, from) < bytes.len()
    &&& terminator(bytes, from) - from < max_len()
}

/// The position just behind the variable-length integer that starts at `from`.
pub open spec fn end(bytes: Seq<u8>, from: int) -> int {
    terminator(bytes, from) + 1
}

/// The 64-bit pattern of the variable-length integer that starts at `from`.
pub open spec fn value_at(bytes: Seq<u8>, from: int) -> nat {
    decode(bytes.subrange(from, end(bytes, from)))
}

/// The weights of the first ten groups.
pub proof fn lemma_weight_values()
    ensures
        weight(0) == 1,
        weight(1) == 0x80,
        weight(2) == 0x4000,
        weight(3) == 0x20_0000,
        weight(4) == 0x1000_0000,
        weight(5) == 0x8_0000_0000,
        weight(6) == 0x400_0000_0000,
        weight(7) == 0x2_0000_0000_0000,
        weight(8) == 0x100_0000_0000_0000,
        weight(9) == 0x8000_0000_0000_0000,
        weight(10) == 0x40_0000_0000_0000_0000,
{
    reveal_with_fuel(weight, 11);
}

/// The terminator lies between `from` and the end, every byte before it has
/// the high bit set, and the byte at it, where there is one, has not.
pub proof fn lemma_terminator(bytes: Seq<u8>, from: int)
    requires
        0 <= from <= bytes.len(),
    ensures
        from <= terminator(bytes, from) <= bytes.len(),
        forall|i: int| from <= i < terminator(bytes, from) ==> bytes[i] >= 128,
        terminator(bytes, from) < bytes.len() ==> bytes[terminator(bytes, from)] < 128,
    decreases bytes.len() - from,
{
    if from < bytes.len() && bytes[from] >= 128 {
        lemma_terminator(bytes, from + 1);
    }
}

/// The terminator is the only position with these properties: a position
/// whose byte has the high bit clear, after bytes that all have it set.
pub proof fn lemma_terminator_unique(bytes: Seq<u8>, from: int, at: int)
    requires
        0 <= from <= at < bytes.len(),
        bytes[at] < 128,
        forall|i: int| from <= i < at ==> bytes[i] >= 128,
    ensures
        terminator(bytes, from) == at,
    decreases at - from,
{
    if from < at {
        lemma_terminator_unique(bytes, from + 1, at);
    }
}

/// Appending a group adds its payload at the weight of its index.
pub proof fn lemma_group_sum_push(groups: Seq<u8>, group: u8)
    ensures
        group_sum(groups.push(group)) == group_sum(groups) + (group % 128) * weight(groups.len()),
    decreases groups.len(),
{
    let payload = (group % 128) as nat;
    let all = groups.push(group);
    assert(group_sum(all) == (all[0] % 128) as nat + 128 * group_sum(all.skip(1)));
    if groups.len() == 0 {
        assert(all.skip(1) =~= Seq::<u8>::empty());
        assert(group_sum(all.skip(1)) == 0);
        assert(payload * weight(0) == payload) by (nonlinear_arith)
            requires
                weight(0) == 1,
        ;
    } else {
        let tail = groups.skip(1);
        lemma_group_sum_push(tail, group);
        assert(all.skip(1) =~= tail.push(group));
        assert(all[0] == groups[0]);
        let w = weight(tail.len());
        assert(weight(groups.len()) == 128 * w);
        assert(128 * (group_sum(tail) + payload * w) == 128 * group_sum(tail) + payload * (128
            * w)) by (nonlinear_arith);
    }
}

/// The shape of an encoding: at least one byte, the high bit set on every
/// byte but the last.
pub proof fn lemma_encode_shape(value: nat)
    ensures
        encode(value).len() >= 1,
        encode(value).last() < 128,
        forall|i: int| 0 <= i < encode(value).len() - 1 ==> encode(value)[i] >= 128,
    decreases value,
{
    if value >= 128 {
        lemma_encode_shape(value / 128);
        let head = seq![(value % 128 + 128) as u8];
        let tail = encode(value / 128);
        assert forall|i: int| 0 <= i < encode(value).len() - 1 implies encode(value)[i]
            >= 128 by {
            if i > 0 {
                assert((head + tail)[i] == tail[i - 1]);
            }
        }
        assert((head + tail).last() == tail.last());
    }
}

/// A value below `weight(groups)` takes at most `groups` bytes.
pub proof fn lemma_encode_len(value: nat, groups: nat)
    requires
        groups >= 1,
        value < weight(groups),
    ensures
        encode(value).len() <= groups,
    decreases groups,
{
    if value >= 128 {
        reveal_with_fuel(weight, 2);
        lemma_encode_len(value / 128, (groups - 1) as nat);
    }
}

/// The groups of an encoding add up to the value.
pub proof fn lemma_encode_sum(value: nat)
    ensures
        group_sum(encode(value)) == value,
    decreases value,
{
    if value < 128 {
        assert(encode(value).skip(1) =~= Seq::<u8>::empty());
        assert(group_sum(encode(value).skip(1)) == 0);
    } else {
        lemma_encode_sum(value / 128);
        let head = seq![(value % 128 + 128) as u8];
        assert((head + encode(value / 128)).skip(1) =~= encode(value / 128));
    }
}

/// Decoding inverts encoding for every 64-bit pattern, and no encoding of one
/// is longer than a reader accepts.
pub proof fn lemma_round_trip(value: nat)
    requires
        value < pattern_count(),
    ensures
        1 <= encode(value).len() <= max_len(),
        decode(encode(value)) == value,
{
    lemma_encode_shape(value);
    lemma_weight_values();
    lemma_encode_len(value, 10);
    lemma_encode_sum(value);
}

/// An encoded value that stands between any `prefix` and any `suffix` is read
/// back intact: it is readable where the prefix ends, it ends where the
/// suffix begins, and it decodes to the value.
pub proof fn lemma_read_back(prefix: Seq<u8>, value: nat, suffix: Seq<u8>)
    requires
        value < pattern_count(),
    ensures
        readable(prefix + encode(value) + suffix, prefix.len() as int),
        end(prefix + encode(value) + suffix, prefix.len() as int) == prefix.len() + encode(
            value,
        ).len(),
        value_at(prefix + encode(value) + suffix, prefix.len() as int) == value,
{
    let field = encode(value);
    let bytes = prefix + field + suffix;
    let from = prefix.len() as int;
    let at = from + field.len() - 1;
    lemma_round_trip(value);
    lemma_encode_shape(value);
    assert(bytes[at] == field.last());
    assert forall|i: int| from <= i < at implies bytes[i] >= 128 by {
        assert(bytes[i] == field[i - from]);
    }
    lemma_terminator_unique(bytes, from, at);
    assert(bytes.subrange(from, at + 1) =~= field);
}

/// One step of a decoder that shifts and ors: with `count` groups already in
/// `before`, the next group lands at its weight. Only the tenth group can
/// lose bits, and it keeps its lowest.
pub proof fn lemma_decode_step(before: u64, group: u64, position: u64, count: nat)
    requires
        count <= 9,
        position == 7 * count,
        before < weight(count),
        group < 128,
    ensures
        (before | (group << position)) == (before + group * weight(count)) % (
        pattern_count() as int),
        count <= 8 ==> (before | (group << position)) == before + group * weight(count),
{
    lemma_weight_values();
    assert((1u64 << 0) == 1 && (1u64 << 7) == 0x80 && (1u64 << 14) == 0x4000 && (1u64 << 21)
        == 0x20_0000 && (1u64 << 28) == 0x1000_0000 && (1u64 << 35) == 0x8_0000_0000 && (1u64
        << 42) == 0x400_0000_0000 && (1u64 << 49) == 0x2_0000_0000_0000 && (1u64 << 56)
        == 0x100_0000_0000_0000) by (bit_vector);
    if count <= 8 {
        let unit = 1u64 << position;
        assert(unit == weight(count));
        assert((before | (group << position)) == before + group * unit) by (bit_vector)
            requires
                position <= 56,
                group < 128,
                unit == 1u64 << position,
                before < unit,
        ;
        assert(group * unit <= 127 * unit) by (nonlinear_arith)
            requires
                group <= 127,
                0 <= unit,
        ;
    } else {
        let low = group % 2;
        let high = group / 2;
        assert((before | (group << 63)) == before + low * 0x8000_0000_0000_0000) by (bit_vector)
            requires
                before < 0x8000_0000_0000_0000,
                low == group % 2,
        ;
        let kept = before + low * 0x8000_0000_0000_0000;
        assert(before + group * weight(count) == 0x1_0000_0000_0000_0000 * high + kept);
        lemma_mod_multiples_vanish(high as int, kept as int, 0x1_0000_0000_0000_0000);
    }
}

} // verus!
