//! Bytes to bits, and bits to the numbers of a partition.
//!
//! A byte is unpacked least significant bit first. A group of bits is read
//! as a binary number whose first bit is the most significant one. The two
//! orders are fixed: every sentence depends on them.

use vstd::arithmetic::power2::{
    lemma2_to64, lemma_pow2_strictly_increases, lemma_pow2_unfold, pow2,
};
use vstd::prelude::*;

verus! {

/// `byte` halved `i` times.
pub open spec fn halved(byte: u8, i: nat) -> u8
    decreases i,
{
    if i == 0 {
        byte
    } else {
        halved(byte, (i - 1) as nat) / 2
    }
}

/// Bit `i` of `byte`, counted from the least significant one.
pub open spec fn bit_of(byte: u8, i: nat) -> u8 {
    halved(byte, i) % 2
}

/// The bits of `bytes`: eight for each byte, in the order of the bytes, and
/// within a byte from the least significant bit to the most significant.
pub open spec fn unpack_bits(bytes: Seq<u8>) -> Seq<u8> {
    Seq::new(8 * bytes.len(), |k: int| bit_of(bytes[k / 8], (k % 8) as nat))
}

/// The number that `bits` spell in binary, first bit most significant.
pub open spec fn fold_bits(bits: Seq<u8>) -> nat
    decreases bits.len(),
{
    if bits.len() == 0 {
        0
    } else {
        2 * fold_bits(bits.drop_last()) + bits.last() as nat
    }
}

/// The sum of the first `k` widths: where group `k` begins.
pub open spec fn width_sum(widths: Seq<u8>, k: int) -> int
    decreases k,
{
    if k <= 0 {
        0
    } else {
        width_sum(widths, k - 1) + widths[k - 1] as int
    }
}

/// The bits of group `k`, when `bits` is cut into groups of the given widths.
pub open spec fn group_bits(widths: Seq<u8>, bits: Seq<u8>, k: int) -> Seq<u8> {
    bits.subrange(width_sum(widths, k), width_sum(widths, k + 1))
}

/// The number that group `k` spells.
pub open spec fn group_value(widths: Seq<u8>, bits: Seq<u8>, k: int) -> nat {
    fold_bits(group_bits(widths, bits, k))
}

/// Every element is 0 or 1.
pub open spec fn all_bits(bits: Seq<u8>) -> bool {
    forall|i: int| 0 <= i < bits.len() ==> #[trigger] bits[i] <= 1
}

/// The last `width` binary digits of `value`, most significant first.
pub open spec fn spread_bits(value: nat, width: nat) -> Seq<u8>
    decreases width,
{
    if width == 0 {
        Seq::empty()
    } else {
        spread_bits(value / 2, (width - 1) as nat).push((value % 2) as u8)
    }
}

/// The bits of the first `k` groups laid end to end, group `i` holding
/// `values[i]` in `widths[i]` bits.
pub open spec fn spread_groups(widths: Seq<u8>, values: Seq<nat>, k: int) -> Seq<u8>
    decreases k,
{
    if k <= 0 {
        Seq::empty()
    } else {
        spread_groups(widths, values, k - 1) + spread_bits(values[k - 1], widths[k - 1] as nat)
    }
}

/// The number whose binary digits, least significant first, are `bits`.
pub open spec fn pack_byte(bits: Seq<u8>) -> nat
    decreases bits.len(),
{
    if bits.len() == 0 {
        0
    } else {
        bits[0] as nat + 2 * pack_byte(bits.drop_first())
    }
}

/// The bytes of `bits`: one for each full run of eight, which holds the
/// first bit of the run as its least significant bit.
pub open spec fn pack_bits(bits: Seq<u8>) -> Seq<u8> {
    Seq::new(bits.len() / 8, |j: int| pack_byte(bits.subrange(8 * j, 8 * j + 8)) as u8)
}

/// The numbers as mathematical integers.
pub open spec fn as_nats(values: Seq<usize>) -> Seq<nat> {
    Seq::new(values.len(), |i: int| values[i] as nat)
}

/// Convert bytes to their individual bits (each 0 or 1).
pub fn to_bits(bytes: &[u8]) -> (bits: Vec<u8>)
    ensures
        bits@ == unpack_bits(bytes@),
        all_bits(bits@),
{
    let mut bits: Vec<u8> = Vec::with_capacity(128);
    for j in 0..bytes.len()
        invariant
            bits@ == unpack_bits(bytes@.take(j as int)),
    {
        let byte = bytes[j];
        let mut b = byte;
        for i in 0..8usize
            invariant
                byte == bytes@[j as int],
                j < bytes.len(),
                b == halved(byte, i as nat),
                bits@.len() == 8 * j + i,
                forall|k: int| 0 <= k < 8 * j + i ==> bits@[k] == unpack_bits(bytes@)[k],
        {
            bits.push(b % 2);
            assert(b >> 1 == b / 2) by (bit_vector);
            b >>= 1;
        }
        assert(bits@ =~= unpack_bits(bytes@.take(j + 1)));
    }
    assert(bytes@.take(bytes.len() as int) == bytes@);
    bits
}

/// Read bits as one binary number, first bit most significant.
pub fn to_byte(bits: &[u8]) -> (value: u16)
    requires
        fold_bits(bits@) <= u16::MAX,
    ensures
        value == fold_bits(bits@),
{
    let mut value = 0u16;
    for i in 0..bits.len()
        invariant
            value == fold_bits(bits@.take(i as int)),
            fold_bits(bits@) <= u16::MAX,
    {
        proof {
            lemma_fold_bits_prefix(bits@, i + 1);
            assert(bits@.take(i + 1).drop_last() == bits@.take(i as int));
        }
        value = 2 * value + bits[i] as u16;
    }
    assert(bits@.take(bits.len() as int) == bits@);
    value
}

/// Cut the bits of `bytes` into groups of the widths `parts` and read each
/// group as a number. The numbers fill the front of the result; the rest
/// of it is zero.
pub fn partition(parts: &[u8], bytes: &[u8]) -> (values: [usize; 12])
    requires
        parts.len() <= 12,
        width_sum(parts@, parts.len() as int) <= 8 * bytes.len(),
        forall|k: int|
            0 <= k < parts.len() ==> #[trigger] group_value(parts@, unpack_bits(bytes@), k)
                <= u16::MAX,
    ensures
        forall|k: int|
            0 <= k < parts.len() ==> values[k] == #[trigger] group_value(
                parts@,
                unpack_bits(bytes@),
                k,
            ),
        forall|k: int| parts.len() <= k < 12 ==> values[k] == 0,
{
    let bits = to_bits(bytes);
    let mut values: [usize; 12] = [0; 12];
    let mut start: usize = 0;
    for idx in 0..parts.len()
        invariant
            parts.len() <= 12,
            bits@ == unpack_bits(bytes@),
            width_sum(parts@, parts.len() as int) <= bits.len(),
            start == width_sum(parts@, idx as int),
            forall|k: int|
                0 <= k < parts.len() ==> #[trigger] group_value(parts@, bits@, k) <= u16::MAX,
            forall|k: int| 0 <= k < idx ==> values[k] == #[trigger] group_value(parts@, bits@, k),
            forall|k: int| idx <= k < 12 ==> values[k] == 0,
    {
        proof {
            lemma_width_sum_monotone(parts@, idx + 1, parts.len() as int);
            assert(width_sum(parts@, idx + 1) == start + parts[idx as int]);
        }
        let end = start + parts[idx] as usize;
        let group = vstd::slice::slice_subrange(bits.as_slice(), start, end);
        assert(group@ == group_bits(parts@, bits@, idx as int));
        assert(group_value(parts@, bits@, idx as int) <= u16::MAX);
        values[idx] = to_byte(group) as usize;
        start = end;
    }
    values
}

/// Append the last `width` binary digits of `value` to `bits`, most
/// significant first.
pub fn push_bits(bits: &mut Vec<u8>, value: usize, width: u8)
    ensures
        final(bits)@ == old(bits)@ + spread_bits(value as nat, width as nat),
        all_bits(old(bits)@) ==> all_bits(final(bits)@),
{
    let start = bits.len();
    let ghost digits = spread_bits(value as nat, width as nat);
    for n in 0..width
        invariant
            bits@ == old(bits)@ + Seq::new(n as nat, |i: int| 0u8),
    {
        bits.push(0);
    }
    let total = bits.len();
    let mut rest = value;
    let mut i = width as usize;
    proof {
        lemma_spread_bits_len(value as nat, width as nat);
        assert(digits.take(width as int) == digits);
    }
    while i > 0
        invariant
            i <= width,
            start == old(bits)@.len(),
            total == start + width,
            bits@.len() == total,
            bits@.take(start as int) == old(bits)@,
            digits == spread_bits(value as nat, width as nat),
            digits.len() == width,
            digits.take(i as int) == spread_bits(rest as nat, i as nat),
            forall|j: int| i <= j < width ==> bits@[start + j] == #[trigger] digits[j],
        decreases i,
    {
        let ghost shorter = spread_bits((rest / 2) as nat, (i - 1) as nat);
        assert(digits.take(i as int) == shorter.push((rest % 2) as u8));
        assert(digits[i - 1] == digits.take(i as int)[i - 1]);
        assert(digits.take(i - 1) == digits.take(i as int).take(i - 1));
        i -= 1;
        bits.set(start + i, (rest % 2) as u8);
        rest = rest / 2;
    }
    assert(bits@ == old(bits)@ + digits);
}

/// Pack bits into bytes, eight to a byte, the first of each eight as the
/// least significant bit. Bits after the last full eight are left out.
pub fn from_bits(bits: &[u8]) -> (bytes: Vec<u8>)
    requires
        all_bits(bits@),
    ensures
        bytes@ == pack_bits(bits@),
{
    let count = bits.len() / 8;
    let mut bytes: Vec<u8> = Vec::new();
    for j in 0..count
        invariant
            count == bits.len() / 8,
            all_bits(bits@),
            bytes@ == pack_bits(bits@).take(j as int),
    {
        let ghost run = bits@.subrange(8 * j, 8 * j + 8);
        let mut byte: u8 = 0;
        let mut i: usize = 8;
        while i > 0
            invariant
                i <= 8,
                j < count,
                count == bits.len() / 8,
                all_bits(bits@),
                run == bits@.subrange(8 * j, 8 * j + 8),
                byte == pack_byte(run.skip(i as int)),
            decreases i,
        {
            proof {
                lemma_pack_byte_bound(run.skip(i - 1));
                lemma2_to64();
                if 9 - i < 8 {
                    lemma_pow2_strictly_increases((9 - i) as nat, 8);
                }
                assert(run.skip(i - 1).drop_first() == run.skip(i as int));
                assert(run.skip(i - 1)[0] == bits@[8 * j + i - 1]);
            }
            i -= 1;
            byte = 2 * byte + bits[8 * j + i];
        }
        assert(run.skip(0) == run);
        bytes.push(byte);
        assert(bytes@ == pack_bits(bits@).take(j + 1));
    }
    assert(pack_bits(bits@).take(count as int) == pack_bits(bits@));
    bytes
}

/// The bytes whose groups of the widths `parts` hold the front of `values`,
/// each number cut to the width of its group. Where every number fits its
/// group and the groups fill whole bytes, [`partition`] gives the numbers
/// back.
pub fn assemble(parts: &[u8], values: &[usize; 12]) -> (bytes: Vec<u8>)
    requires
        parts.len() <= 12,
    ensures
        bytes@ == pack_bits(spread_groups(parts@, as_nats(values@), parts.len() as int)),
{
    let mut bits: Vec<u8> = Vec::new();
    for k in 0..parts.len()
        invariant
            parts.len() <= 12,
            all_bits(bits@),
            bits@ == spread_groups(parts@, as_nats(values@), k as int),
    {
        push_bits(&mut bits, values[k], parts[k]);
    }
    from_bits(bits.as_slice())
}

/// The bits of bytes are bits.
pub proof fn lemma_unpack_bits_are_bits(bytes: Seq<u8>)
    ensures
        unpack_bits(bytes).len() == 8 * bytes.len(),
        all_bits(unpack_bits(bytes)),
{
}

/// A prefix spells no more than the whole.
pub proof fn lemma_fold_bits_prefix(bits: Seq<u8>, n: int)
    requires
        0 <= n <= bits.len(),
    ensures
        fold_bits(bits.take(n)) <= fold_bits(bits),
    decreases bits.len(),
{
    if n == bits.len() {
        assert(bits.take(n) == bits);
    } else {
        assert(bits.drop_last().take(n) == bits.take(n));
        lemma_fold_bits_prefix(bits.drop_last(), n);
    }
}

/// Bits spell a number below two to the power of their count.
pub proof fn lemma_fold_bits_bound(bits: Seq<u8>)
    requires
        all_bits(bits),
    ensures
        fold_bits(bits) < pow2(bits.len()),
    decreases bits.len(),
{
    if bits.len() == 0 {
        lemma2_to64();
    } else {
        lemma_fold_bits_bound(bits.drop_last());
        lemma_pow2_unfold(bits.len());
        assert(bits.last() == bits[bits.len() - 1]);
    }
}

/// Where a group begins does not decrease with its number.
pub proof fn lemma_width_sum_monotone(widths: Seq<u8>, i: int, j: int)
    requires
        0 <= i <= j,
    ensures
        0 <= width_sum(widths, i) <= width_sum(widths, j),
    decreases j,
{
    if i < j {
        lemma_width_sum_monotone(widths, i, j - 1);
    } else if 0 < i {
        lemma_width_sum_monotone(widths, i - 1, i - 1);
    }
}

/// A group that lies within the bits has its width for length, and spells
/// a number below two to the power of its width.
pub proof fn lemma_group_value_bound(widths: Seq<u8>, bits: Seq<u8>, k: int)
    requires
        0 <= k < widths.len(),
        width_sum(widths, widths.len() as int) <= bits.len(),
        all_bits(bits),
    ensures
        group_bits(widths, bits, k).len() == widths[k],
        all_bits(group_bits(widths, bits, k)),
        group_value(widths, bits, k) < pow2(widths[k] as nat),
{
    lemma_width_sum_monotone(widths, k, k + 1);
    lemma_width_sum_monotone(widths, k + 1, widths.len() as int);
    lemma_fold_bits_bound(group_bits(widths, bits, k));
}

/// Groups of at most sixteen bits spell numbers that fit in sixteen bits.
pub proof fn lemma_groups_fit(widths: Seq<u8>, bits: Seq<u8>)
    requires
        forall|k: int| 0 <= k < widths.len() ==> #[trigger] widths[k] <= 16,
        width_sum(widths, widths.len() as int) <= bits.len(),
        all_bits(bits),
    ensures
        forall|k: int|
            0 <= k < widths.len() ==> #[trigger] group_value(widths, bits, k) <= u16::MAX,
{
    assert forall|k: int| 0 <= k < widths.len() implies #[trigger] group_value(widths, bits, k)
        <= u16::MAX by {
        lemma_group_value_bound(widths, bits, k);
        lemma2_to64();
        if widths[k] < 16 {
            lemma_pow2_strictly_increases(widths[k] as nat, 16);
        }
    }
}

/// A number spread over `width` bits gives that many bits.
pub proof fn lemma_spread_bits_len(value: nat, width: nat)
    ensures
        spread_bits(value, width).len() == width,
        all_bits(spread_bits(value, width)),
    decreases width,
{
    if width > 0 {
        lemma_spread_bits_len(value / 2, (width - 1) as nat);
    }
}

/// Groups laid end to end take as many bits as their widths sum to.
pub proof fn lemma_spread_groups_len(widths: Seq<u8>, values: Seq<nat>, k: int)
    ensures
        spread_groups(widths, values, k).len() == width_sum(widths, k),
        all_bits(spread_groups(widths, values, k)),
    decreases k,
{
    if k > 0 {
        lemma_spread_groups_len(widths, values, k - 1);
        lemma_spread_bits_len(values[k - 1], widths[k - 1] as nat);
    }
}

/// A number that fits in `width` bits is the number that its bits spell.
pub proof fn lemma_fold_spread(value: nat, width: nat)
    requires
        value < pow2(width),
    ensures
        fold_bits(spread_bits(value, width)) == value,
    decreases width,
{
    if width == 0 {
        lemma2_to64();
    } else {
        lemma_pow2_unfold(width);
        lemma_fold_spread(value / 2, (width - 1) as nat);
        let s = spread_bits(value, width);
        assert(s.drop_last() == spread_bits(value / 2, (width - 1) as nat));
        assert(s.last() == (value % 2) as u8);
    }
}

/// Group `k` of groups laid end to end holds the bits of `values[k]`.
pub proof fn lemma_group_of_spread_groups(widths: Seq<u8>, values: Seq<nat>, n: int, k: int)
    requires
        0 <= k < n,
    ensures
        group_bits(widths, spread_groups(widths, values, n), k) == spread_bits(
            values[k],
            widths[k] as nat,
        ),
    decreases n,
{
    let shorter = spread_groups(widths, values, n - 1);
    let last = spread_bits(values[n - 1], widths[n - 1] as nat);
    lemma_spread_groups_len(widths, values, n - 1);
    lemma_spread_bits_len(values[n - 1], widths[n - 1] as nat);
    if k == n - 1 {
        assert((shorter + last).subrange(shorter.len() as int, (shorter + last).len() as int)
            == last);
    } else {
        lemma_group_of_spread_groups(widths, values, n - 1, k);
        lemma_width_sum_monotone(widths, k, k + 1);
        lemma_width_sum_monotone(widths, k + 1, n - 1);
        assert((shorter + last).subrange(width_sum(widths, k), width_sum(widths, k + 1))
            == shorter.subrange(width_sum(widths, k), width_sum(widths, k + 1)));
    }
}

/// Bits packed least significant first spell a number below two to the
/// power of their count.
pub proof fn lemma_pack_byte_bound(bits: Seq<u8>)
    requires
        all_bits(bits),
    ensures
        pack_byte(bits) < pow2(bits.len()),
    decreases bits.len(),
{
    if bits.len() == 0 {
        lemma2_to64();
    } else {
        lemma_pack_byte_bound(bits.drop_first());
        lemma_pow2_unfold(bits.len());
    }
}

/// Halving a packed byte `i` times leaves what the bits from `i` on pack to.
pub proof fn lemma_halved_pack_byte(bits: Seq<u8>, i: nat)
    requires
        all_bits(bits),
        bits.len() <= 8,
        i <= bits.len(),
    ensures
        pack_byte(bits) < 256,
        halved(pack_byte(bits) as u8, i) == pack_byte(bits.skip(i as int)),
    decreases i,
{
    lemma_pack_byte_bound(bits);
    lemma2_to64();
    if bits.len() < 8 {
        lemma_pow2_strictly_increases(bits.len(), 8);
    }
    if i == 0 {
        assert(bits.skip(0) == bits);
    } else {
        lemma_halved_pack_byte(bits, (i - 1) as nat);
        assert(bits.skip(i - 1).drop_first() == bits.skip(i as int));
    }
}

/// Unpacking undoes packing, for bits that fill whole bytes.
pub proof fn lemma_unpack_pack(bits: Seq<u8>)
    requires
        all_bits(bits),
        bits.len() % 8 == 0,
    ensures
        unpack_bits(pack_bits(bits)) == bits,
{
    let bytes = pack_bits(bits);
    assert forall|k: int| 0 <= k < bits.len() implies unpack_bits(bytes)[k] == bits[k] by {
        let j = k / 8;
        let i = (k % 8) as nat;
        let run = bits.subrange(8 * j, 8 * j + 8);
        lemma_halved_pack_byte(run, i);
        assert(run.skip(i as int).drop_first() == run.skip(i as int + 1));
        assert(run.skip(i as int)[0] == bits[k]);
    }
    assert(unpack_bits(bytes) =~= bits);
}

/// Cutting undoes assembling: the bytes made from numbers that fit their
/// groups, with groups that fill whole bytes, have exactly those numbers
/// in their groups.
pub proof fn lemma_groups_of_assembled(widths: Seq<u8>, values: Seq<nat>, k: int)
    requires
        0 <= k < widths.len(),
        width_sum(widths, widths.len() as int) % 8 == 0,
        values[k] < pow2(widths[k] as nat),
    ensures
        group_value(
            widths,
            unpack_bits(pack_bits(spread_groups(widths, values, widths.len() as int))),
            k,
        ) == values[k],
{
    let bits = spread_groups(widths, values, widths.len() as int);
    lemma_spread_groups_len(widths, values, widths.len() as int);
    lemma_unpack_pack(bits);
    lemma_group_of_spread_groups(widths, values, widths.len() as int, k);
    lemma_fold_spread(values[k], widths[k] as nat);
}

} // verus!
