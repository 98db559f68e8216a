//! The NULL bitmap of the binary protocol: one bit per parameter, eight parameters to a byte,
//! parameter `i` at bit `i % 8` of byte `i / 8`.
//!
//! The bitmap is described twice. [`packed`] says which bytes a sequence of flags gives, by the
//! value of each byte. [`bit`] and [`is_bitmap`] say what can be read off given bytes, bit by
//! bit. The lemmas of this module show that the two agree, so that a caller may use whichever
//! suits.
use vstd::prelude::*;

verus! {

/// Number of bytes that hold one bit for each of `count` parameters.
pub open spec fn packed_len(count: nat) -> nat {
    (count + 7) / 8
}

/// What flag `i` adds to the value of its byte: `weight` if the flag is set, nothing if it is
/// clear or lies past the end of `flags`.
pub open spec fn flag_weight(flags: Seq<bool>, i: int, weight: int) -> int {
    if 0 <= i < flags.len() && flags[i] {
        weight
    } else {
        0
    }
}

/// Byte `k` of the bitmap of `flags`. Flag `8 * k + b` is bit `b` of it; bits that stand for no
/// flag are clear.
pub open spec fn packed_byte(flags: Seq<bool>, k: int) -> u8 {
    (flag_weight(flags, 8 * k, 1) + flag_weight(flags, 8 * k + 1, 2) + flag_weight(
        flags,
        8 * k + 2,
        4,
    ) + flag_weight(flags, 8 * k + 3, 8) + flag_weight(flags, 8 * k + 4, 16) + flag_weight(
        flags,
        8 * k + 5,
        32,
    ) + flag_weight(flags, 8 * k + 6, 64) + flag_weight(flags, 8 * k + 7, 128)) as u8
}

/// The bitmap of `flags`: as few bytes as hold them all, unused bits of the last byte clear.
pub open spec fn packed(flags: Seq<bool>) -> Seq<u8> {
    Seq::new(packed_len(flags.len()), |k: int| packed_byte(flags, k))
}

/// Bit `i` of `bytes`, counted from the lowest bit of the first byte.
pub open spec fn bit(bytes: Seq<u8>, i: int) -> bool {
    bytes[i / 8] & (1u8 << ((i % 8) as u8)) != 0
}

/// The first `count` bits of `bytes`, as flags.
pub open spec fn flags_of(bytes: Seq<u8>, count: nat) -> Seq<bool> {
    Seq::new(count, |i: int| bit(bytes, i))
}

/// `bytes` is the bitmap of exactly `count` flags: it has just the bytes that they need, and
/// no bit beyond them is set.
pub open spec fn is_bitmap(bytes: Seq<u8>, count: nat) -> bool {
    &&& bytes.len() == packed_len(count)
    &&& forall|i: int| count <= i < 8 * bytes.len() ==> !#[trigger] bit(bytes, i)
}

/// The value of bit `b` of a byte.
spec fn bit_value(b: int) -> int {
    if b == 0 {
        1
    } else if b == 1 {
        2
    } else if b == 2 {
        4
    } else if b == 3 {
        8
    } else if b == 4 {
        16
    } else if b == 5 {
        32
    } else if b == 6 {
        64
    } else {
        128
    }
}

proof fn lemma_shifted_one(b: u8)
    by (bit_vector)
    requires
        b < 8,
    ensures
        (1u8 << b) == if b == 0 {
            1u8
        } else if b == 1 {
            2u8
        } else if b == 2 {
            4u8
        } else if b == 3 {
            8u8
        } else if b == 4 {
            16u8
        } else if b == 5 {
            32u8
        } else if b == 6 {
            64u8
        } else {
            128u8
        },
{
}

proof fn lemma_or_adds(x: u8, b: u8)
    by (bit_vector)
    requires
        b < 8,
        x < (1u8 << b),
    ensures
        (x | (1u8 << b)) == x + (1u8 << b),
{
}

/// A byte is the sum of the values of its set bits.
proof fn lemma_byte_is_sum_of_bits(x: u8)
    by (bit_vector)
    ensures
        x == (if x & (1u8 << 0u8) != 0 {
            1u8
        } else {
            0u8
        }) + (if x & (1u8 << 1u8) != 0 {
            2u8
        } else {
            0u8
        }) + (if x & (1u8 << 2u8) != 0 {
            4u8
        } else {
            0u8
        }) + (if x & (1u8 << 3u8) != 0 {
            8u8
        } else {
            0u8
        }) + (if x & (1u8 << 4u8) != 0 {
            16u8
        } else {
            0u8
        }) + (if x & (1u8 << 5u8) != 0 {
            32u8
        } else {
            0u8
        }) + (if x & (1u8 << 6u8) != 0 {
            64u8
        } else {
            0u8
        }) + (if x & (1u8 << 7u8) != 0 {
            128u8
        } else {
            0u8
        }),
{
}

/// In a sum of bit values, each taken or left out, bit `b` is set just when its value was
/// taken.
proof fn lemma_bit_of_sum(w0: u8, w1: u8, w2: u8, w3: u8, w4: u8, w5: u8, w6: u8, w7: u8, b: u8)
    by (bit_vector)
    requires
        w0 == 0 || w0 == 1,
        w1 == 0 || w1 == 2,
        w2 == 0 || w2 == 4,
        w3 == 0 || w3 == 8,
        w4 == 0 || w4 == 16,
        w5 == 0 || w5 == 32,
        w6 == 0 || w6 == 64,
        w7 == 0 || w7 == 128,
        b < 8,
    ensures
        (((w0 + w1 + w2 + w3 + w4 + w5 + w6 + w7) as u8) & (1u8 << b) != 0) == (if b == 0 {
            w0 != 0
        } else if b == 1 {
            w1 != 0
        } else if b == 2 {
            w2 != 0
        } else if b == 3 {
            w3 != 0
        } else if b == 4 {
            w4 != 0
        } else if b == 5 {
            w5 != 0
        } else if b == 6 {
            w6 != 0
        } else {
            w7 != 0
        }),
{
}

/// Bit `i` of the bitmap of `flags` is flag `i`, and clear where there is no flag `i`.
pub proof fn lemma_bit_of_packed(flags: Seq<bool>, i: int)
    requires
        0 <= i < 8 * packed(flags).len(),
    ensures
        bit(packed(flags), i) == (i < flags.len() && flags[i]),
{
    let k = i / 8;
    lemma_bit_of_sum(
        flag_weight(flags, 8 * k, 1) as u8,
        flag_weight(flags, 8 * k + 1, 2) as u8,
        flag_weight(flags, 8 * k + 2, 4) as u8,
        flag_weight(flags, 8 * k + 3, 8) as u8,
        flag_weight(flags, 8 * k + 4, 16) as u8,
        flag_weight(flags, 8 * k + 5, 32) as u8,
        flag_weight(flags, 8 * k + 6, 64) as u8,
        flag_weight(flags, 8 * k + 7, 128) as u8,
        (i % 8) as u8,
    );
}

/// Reading the flags back off their bitmap gives the flags.
pub proof fn lemma_flags_of_packed(flags: Seq<bool>)
    ensures
        is_bitmap(packed(flags), flags.len()),
        flags_of(packed(flags), flags.len()) == flags,
{
    assert forall|i: int| 0 <= i < 8 * packed(flags).len() implies #[trigger] bit(
        packed(flags),
        i,
    ) == (i < flags.len() && flags[i]) by {
        lemma_bit_of_packed(flags, i);
    }
}

/// A bitmap is the bitmap of the flags that it holds: its bytes are given by its bits.
pub proof fn lemma_packed_flags(bytes: Seq<u8>, count: nat)
    requires
        is_bitmap(bytes, count),
    ensures
        packed(flags_of(bytes, count)) == bytes,
{
    let flags = flags_of(bytes, count);
    assert forall|k: int| 0 <= k < bytes.len() implies packed_byte(flags, k) == bytes[k] by {
        lemma_byte_is_sum_of_bits(bytes[k]);
        assert(bit(bytes, 8 * k) == (bytes[k] & (1u8 << 0u8) != 0));
        assert(bit(bytes, 8 * k + 1) == (bytes[k] & (1u8 << 1u8) != 0));
        assert(bit(bytes, 8 * k + 2) == (bytes[k] & (1u8 << 2u8) != 0));
        assert(bit(bytes, 8 * k + 3) == (bytes[k] & (1u8 << 3u8) != 0));
        assert(bit(bytes, 8 * k + 4) == (bytes[k] & (1u8 << 4u8) != 0));
        assert(bit(bytes, 8 * k + 5) == (bytes[k] & (1u8 << 5u8) != 0));
        assert(bit(bytes, 8 * k + 6) == (bytes[k] & (1u8 << 6u8) != 0));
        assert(bit(bytes, 8 * k + 7) == (bytes[k] & (1u8 << 7u8) != 0));
    }
}

/// A clear flag at the end leaves the bytes as they are, but for a zero byte to hold it when
/// the last byte is full.
proof fn lemma_push_clear(flags: Seq<bool>)
    ensures
        packed(flags.push(false)) == if flags.len() % 8 == 0 {
            packed(flags).push(0u8)
        } else {
            packed(flags)
        },
{
}

/// A set flag at the end adds the value of its bit to the last byte, which so far is below
/// that value.
proof fn lemma_push_set(flags: Seq<bool>)
    ensures
        ({
            let clear = packed(flags.push(false));
            let k = flags.len() as int / 8;
            let w = bit_value(flags.len() as int % 8);
            &&& k == clear.len() - 1
            &&& clear[k] < w
            &&& packed(flags.push(true)) == clear.update(k, (clear[k] + w) as u8)
        }),
{
}

/// One more flag leaves every byte that is full as it is.
pub proof fn lemma_push_keeps_full_bytes(flags: Seq<bool>, flag: bool)
    ensures
        packed(flags.push(flag)).len() == flags.len() / 8 + 1,
        forall|k: int|
            0 <= k < flags.len() / 8 ==> #[trigger] packed(flags.push(flag))[k] == packed(
                flags,
            )[k],
{
}

/// The bitmap of two runs of flags, one after the other: it is as long as all the flags need,
/// every flag of the first run stands where it stood, and flag `j` of the second run stands at
/// bit `head.len() + j`, whether or not the first run ends at a byte boundary.
pub proof fn lemma_packed_concat(head: Seq<bool>, tail: Seq<bool>)
    ensures
        packed(head + tail).len() == (head.len() + tail.len() + 7) / 8,
        forall|i: int|
            0 <= i < head.len() ==> #[trigger] bit(packed(head + tail), i) == bit(packed(head), i),
        forall|j: int|
            0 <= j < tail.len() ==> bit(packed(head + tail), head.len() + j) == #[trigger] bit(
                packed(tail),
                j,
            ),
        forall|k: int|
            0 <= k < head.len() / 8 ==> #[trigger] packed(head + tail)[k] == packed(head)[k],
{
    let all = head + tail;
    assert forall|i: int| 0 <= i < head.len() implies #[trigger] bit(packed(all), i) == bit(
        packed(head),
        i,
    ) by {
        lemma_bit_of_packed(all, i);
        lemma_bit_of_packed(head, i);
    }
    assert forall|j: int| 0 <= j < tail.len() implies bit(packed(all), head.len() + j)
        == #[trigger] bit(packed(tail), j) by {
        lemma_bit_of_packed(all, head.len() + j);
        lemma_bit_of_packed(tail, j);
    }
    assert forall|k: int| 0 <= k < head.len() / 8 implies #[trigger] packed(all)[k] == packed(
        head,
    )[k] by {
        assert(packed_byte(all, k) == packed_byte(head, k));
    }
}

/// Appends the flag of parameter number `count` to a bitmap that holds the flags of the
/// `count` parameters before it. The bitmap grows by one zero byte when its last byte is full,
/// and the new flag goes into the last byte; no other byte changes.
pub fn push_flag(bitmap: &mut Vec<u8>, count: usize, flag: bool)
    requires
        is_bitmap(old(bitmap)@, count as nat),
    ensures
        is_bitmap(final(bitmap)@, (count + 1) as nat),
        flags_of(final(bitmap)@, (count + 1) as nat) == flags_of(old(bitmap)@, count as nat).push(
            flag,
        ),
        forall|k: int| 0 <= k < count / 8 ==> final(bitmap)@[k] == old(bitmap)@[k],
{
    let ghost flags = flags_of(bitmap@, count as nat);
    let byte: usize = count / 8;
    let shift: u8 = (count % 8) as u8;
    proof {
        lemma_packed_flags(bitmap@, count as nat);
        lemma_push_clear(flags);
    }
    if bitmap.len() <= byte {
        bitmap.push(0);
    }
    if flag {
        let before: u8 = bitmap[byte];
        proof {
            lemma_push_set(flags);
            lemma_shifted_one(shift);
            lemma_or_adds(before, shift);
        }
        bitmap[byte] = before | (1u8 << shift);
    }
    proof {
        lemma_flags_of_packed(flags.push(flag));
        lemma_push_keeps_full_bytes(flags, flag);
    }
}

/// Whether bit `i` of `bytes` is set.
pub fn is_set(bytes: &[u8], i: usize) -> (set: bool)
    requires
        i < 8 * bytes@.len(),
    ensures
        set == bit(bytes@, i as int),
{
    let shift: u8 = (i % 8) as u8;
    bytes[i / 8] & (1u8 << shift) != 0
}

/// Splices the first `src_count` flags of `src` onto the `dst_count` flags of `dst`: flag `j`
/// of `src` becomes flag `dst_count + j` of `dst`, wherever in a byte that falls. `dst` grows
/// by as many bytes as the added flags need, and none of its first `dst_count` flags changes.
/// What `src` holds beyond its first `src_count` bits does not matter.
pub fn splice(dst: &mut Vec<u8>, dst_count: usize, src: &[u8], src_count: usize)
    requires
        is_bitmap(old(dst)@, dst_count as nat),
        src_count <= 8 * src@.len(),
        dst_count + src_count <= usize::MAX,
    ensures
        is_bitmap(final(dst)@, (dst_count + src_count) as nat),
        flags_of(final(dst)@, (dst_count + src_count) as nat) == flags_of(
            old(dst)@,
            dst_count as nat,
        ) + flags_of(src@, src_count as nat),
        forall|k: int| 0 <= k < dst_count / 8 ==> final(dst)@[k] == old(dst)@[k],
{
    let ghost head = flags_of(dst@, dst_count as nat);
    let ghost tail = flags_of(src@, src_count as nat);
    let mut j: usize = 0;
    while j < src_count
        invariant
            j <= src_count,
            src_count <= 8 * src@.len(),
            dst_count + src_count <= usize::MAX,
            tail == flags_of(src@, src_count as nat),
            is_bitmap(dst@, (dst_count + j) as nat),
            flags_of(dst@, (dst_count + j) as nat) == head + tail.take(j as int),
            forall|k: int| 0 <= k < dst_count / 8 ==> dst@[k] == old(dst)@[k],
        decreases src_count - j,
    {
        let flag: bool = is_set(src, j);
        push_flag(dst, dst_count + j, flag);
        j = j + 1;
    }
}

} // verus!
