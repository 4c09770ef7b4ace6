//! The byte layouts, as mathematical sequences.

use vstd::prelude::*;

verus! {

/// The number of 100 ns ticks between 1582-10-15 and 1970-01-01.
pub const TICKS_BETWEEN_EPOCHS: u64 = 0x01B2_1DD2_1381_4000;

/// The version field of sixteen bytes in network order: the high nibble of byte 6.
pub open spec fn version_of(b: Seq<u8>) -> u8 {
    b[6] >> 4u8
}

/// The v1 timestamp, in ticks, of a Unix time.
pub open spec fn ticks_of(seconds: int, subsec_nanos: int) -> int {
    TICKS_BETWEEN_EPOCHS + seconds * 10_000_000 + subsec_nanos / 100
}

/// The sixteen bytes of a version 1 UUID built from a timestamp, a clock
/// sequence counter and a six-byte node.
pub open spec fn v1_fields(ticks: u64, counter: u16, node: Seq<u8>) -> Seq<u8> {
    let time_low = (ticks & 0xFFFF_FFFFu64) as u32;
    let time_mid = ((ticks >> 32u64) & 0xFFFFu64) as u16;
    let time_high = (((ticks >> 48u64) & 0x0FFFu64) as u16) | 0x1000u16;
    seq![
        (time_low >> 24u32) as u8,
        (time_low >> 16u32) as u8,
        (time_low >> 8u32) as u8,
        time_low as u8,
        (time_mid >> 8u16) as u8,
        time_mid as u8,
        (time_high >> 8u16) as u8,
        time_high as u8,
        (((counter & 0x3F00u16) >> 8u16) as u8) | 0x80u8,
        (counter & 0xFFu16) as u8,
    ] + node
}

/// The time-ordered layout: time-high, then time-mid, then time-low, then
/// the last eight bytes unchanged.
pub open spec fn reordered(b: Seq<u8>) -> Seq<u8> {
    b.subrange(6, 8) + b.subrange(4, 6) + b.subrange(0, 4) + b.subrange(8, 16)
}

/// The lowercase hexadecimal digits.
pub open spec fn hex_digits() -> Seq<char> {
    seq!['0', '1', '2', '3', '4', '5', '6', '7', '8', '9', 'a', 'b', 'c', 'd', 'e', 'f']
}

/// Two lowercase hexadecimal digits for each byte, high nibble first.
pub open spec fn hex_of(b: Seq<u8>) -> Seq<char> {
    Seq::new(
        2 * b.len(),
        |i: int|
            if i % 2 == 0 {
                hex_digits()[(b[i / 2] >> 4u8) as int]
            } else {
                hex_digits()[(b[i / 2] & 0xFu8) as int]
            },
    )
}

/// The hyphenated text of sixteen bytes: groups of 4, 2, 2, 2 and 6 bytes
/// in hexadecimal, joined by '-'.
pub open spec fn hyphenated(b: Seq<u8>) -> Seq<char> {
    hex_of(b.subrange(0, 4)) + seq!['-'] + hex_of(b.subrange(4, 6)) + seq!['-'] + hex_of(
        b.subrange(6, 8),
    ) + seq!['-'] + hex_of(b.subrange(8, 10)) + seq!['-'] + hex_of(b.subrange(10, 16))
}

} // verus!

verus! {

/// Every identifier in the v1 layout has version 1 and ends with its node.
pub proof fn lemma_v1_version(ticks: u64, counter: u16, node: Seq<u8>)
    requires
        node.len() == 6,
    ensures
        version_of(v1_fields(ticks, counter, node)) == 1,
        v1_fields(ticks, counter, node).subrange(10, 16) == node,
{
    let time_high = (((ticks >> 48u64) & 0x0FFFu64) as u16) | 0x1000u16;
    assert(((time_high >> 8u16) as u8) >> 4u8 == 1u8) by (bit_vector)
        requires
            time_high == (((ticks >> 48u64) & 0x0FFFu64) as u16) | 0x1000u16,
    ;
    assert(v1_fields(ticks, counter, node).subrange(10, 16) =~= node);
}

} // verus!

verus! {

/// Whether `a` comes strictly before `b` in byte-wise lexicographic order.
pub open spec fn lex_less(a: Seq<u8>, b: Seq<u8>) -> bool {
    exists|k: int|
        0 <= k < a.len() && k < b.len() && a.subrange(0, k) == b.subrange(0, k) && a[k]
            < #[trigger] b[k]
}

/// The first eight bytes of the time-ordered layout are the timestamp in
/// big-endian order, under the version nibble.
proof fn lemma_ordered_prefix(t: u64, c: u16, n: Seq<u8>)
    requires
        n.len() == 6,
    ensures
        reordered(v1_fields(t, c, n)).len() == 16,
        reordered(v1_fields(t, c, n))[0] as u64 == ((t >> 56u64) & 0x0Fu64) | 0x10u64,
        reordered(v1_fields(t, c, n))[1] as u64 == (t >> 48u64) & 0xFFu64,
        reordered(v1_fields(t, c, n))[2] as u64 == (t >> 40u64) & 0xFFu64,
        reordered(v1_fields(t, c, n))[3] as u64 == (t >> 32u64) & 0xFFu64,
        reordered(v1_fields(t, c, n))[4] as u64 == (t >> 24u64) & 0xFFu64,
        reordered(v1_fields(t, c, n))[5] as u64 == (t >> 16u64) & 0xFFu64,
        reordered(v1_fields(t, c, n))[6] as u64 == (t >> 8u64) & 0xFFu64,
        reordered(v1_fields(t, c, n))[7] as u64 == t & 0xFFu64,
{
    let time_low = (t & 0xFFFF_FFFFu64) as u32;
    let time_mid = ((t >> 32u64) & 0xFFFFu64) as u16;
    let time_high = (((t >> 48u64) & 0x0FFFu64) as u16) | 0x1000u16;
    assert(((time_high >> 8u16) as u8) as u64 == ((t >> 56u64) & 0x0Fu64) | 0x10u64
        && (time_high as u8) as u64 == (t >> 48u64) & 0xFFu64) by (bit_vector)
        requires
            time_high == (((t >> 48u64) & 0x0FFFu64) as u16) | 0x1000u16,
    ;
    assert(((time_mid >> 8u16) as u8) as u64 == (t >> 40u64) & 0xFFu64 && (time_mid as u8) as u64
        == (t >> 32u64) & 0xFFu64) by (bit_vector)
        requires
            time_mid == ((t >> 32u64) & 0xFFFFu64) as u16,
    ;
    assert(((time_low >> 24u32) as u8) as u64 == (t >> 24u64) & 0xFFu64 && ((time_low
        >> 16u32) as u8) as u64 == (t >> 16u64) & 0xFFu64 && ((time_low >> 8u32) as u8) as u64
        == (t >> 8u64) & 0xFFu64 && (time_low as u8) as u64 == t & 0xFFu64) by (bit_vector)
        requires
            time_low == (t & 0xFFFF_FFFFu64) as u32,
    ;
}

/// Identifiers built from later timestamps come later in byte order once
/// reordered, whatever their counters and nodes. This holds while the
/// timestamps fit in the 60 bits of the v1 layout, and not for equal ones,
/// which the counter tells apart.
pub proof fn lemma_ordered_follows_time(
    t1: u64,
    c1: u16,
    n1: Seq<u8>,
    t2: u64,
    c2: u16,
    n2: Seq<u8>,
)
    requires
        n1.len() == 6,
        n2.len() == 6,
        t1 < t2,
        t2 < 0x1000_0000_0000_0000u64,
    ensures
        lex_less(reordered(v1_fields(t1, c1, n1)), reordered(v1_fields(t2, c2, n2))),
{
    lemma_ordered_prefix(t1, c1, n1);
    lemma_ordered_prefix(t2, c2, n2);
    let a = reordered(v1_fields(t1, c1, n1));
    let b = reordered(v1_fields(t2, c2, n2));
    let k: int = if a[0] != b[0] {
        0
    } else if a[1] != b[1] {
        1
    } else if a[2] != b[2] {
        2
    } else if a[3] != b[3] {
        3
    } else if a[4] != b[4] {
        4
    } else if a[5] != b[5] {
        5
    } else if a[6] != b[6] {
        6
    } else {
        7
    };
    assert(a[k] < b[k]) by {
        assert(((t1 >> 56u64) & 0x0Fu64) | 0x10u64 <= ((t2 >> 56u64) & 0x0Fu64) | 0x10u64)
            by (bit_vector)
            requires
                t1 < t2,
                t2 < 0x1000_0000_0000_0000u64,
        ;
        assert((t1 >> 56u64) == (t2 >> 56u64) ==> (t1 >> 48u64) & 0xFFu64 <= (t2 >> 48u64)
            & 0xFFu64) by (bit_vector)
            requires
                t1 < t2,
        ;
        assert((t1 >> 48u64) == (t2 >> 48u64) ==> (t1 >> 40u64) & 0xFFu64 <= (t2 >> 40u64)
            & 0xFFu64) by (bit_vector)
            requires
                t1 < t2,
        ;
        assert((t1 >> 40u64) == (t2 >> 40u64) ==> (t1 >> 32u64) & 0xFFu64 <= (t2 >> 32u64)
            & 0xFFu64) by (bit_vector)
            requires
                t1 < t2,
        ;
        assert((t1 >> 32u64) == (t2 >> 32u64) ==> (t1 >> 24u64) & 0xFFu64 <= (t2 >> 24u64)
            & 0xFFu64) by (bit_vector)
            requires
                t1 < t2,
        ;
        assert((t1 >> 24u64) == (t2 >> 24u64) ==> (t1 >> 16u64) & 0xFFu64 <= (t2 >> 16u64)
            & 0xFFu64) by (bit_vector)
            requires
                t1 < t2,
        ;
        assert((t1 >> 16u64) == (t2 >> 16u64) ==> (t1 >> 8u64) & 0xFFu64 <= (t2 >> 8u64)
            & 0xFFu64) by (bit_vector)
            requires
                t1 < t2,
        ;
        assert((t1 >> 8u64) == (t2 >> 8u64) ==> t1 & 0xFFu64 < t2 & 0xFFu64) by (bit_vector)
            requires
                t1 < t2,
        ;
        lemma_equal_high_bytes(t1, t2);
    }
    assert(a.subrange(0, k) =~= b.subrange(0, k));
}

/// Equal bytes from the top of two timestamps mean equal high parts.
proof fn lemma_equal_high_bytes(t1: u64, t2: u64)
    requires
        t1 < t2,
        t2 < 0x1000_0000_0000_0000u64,
    ensures
        ((t1 >> 56u64) & 0x0Fu64) | 0x10u64 == ((t2 >> 56u64) & 0x0Fu64) | 0x10u64 ==> (t1
            >> 56u64) == (t2 >> 56u64),
        (t1 >> 56u64) == (t2 >> 56u64) && (t1 >> 48u64) & 0xFFu64 == (t2 >> 48u64) & 0xFFu64
            ==> (t1 >> 48u64) == (t2 >> 48u64),
        (t1 >> 48u64) == (t2 >> 48u64) && (t1 >> 40u64) & 0xFFu64 == (t2 >> 40u64) & 0xFFu64
            ==> (t1 >> 40u64) == (t2 >> 40u64),
        (t1 >> 40u64) == (t2 >> 40u64) && (t1 >> 32u64) & 0xFFu64 == (t2 >> 32u64) & 0xFFu64
            ==> (t1 >> 32u64) == (t2 >> 32u64),
        (t1 >> 32u64) == (t2 >> 32u64) && (t1 >> 24u64) & 0xFFu64 == (t2 >> 24u64) & 0xFFu64
            ==> (t1 >> 24u64) == (t2 >> 24u64),
        (t1 >> 24u64) == (t2 >> 24u64) && (t1 >> 16u64) & 0xFFu64 == (t2 >> 16u64) & 0xFFu64
            ==> (t1 >> 16u64) == (t2 >> 16u64),
        (t1 >> 16u64) == (t2 >> 16u64) && (t1 >> 8u64) & 0xFFu64 == (t2 >> 8u64) & 0xFFu64
            ==> (t1 >> 8u64) == (t2 >> 8u64),
{
    assert(((t1 >> 56u64) & 0x0Fu64) | 0x10u64 == ((t2 >> 56u64) & 0x0Fu64) | 0x10u64 ==> (t1
        >> 56u64) == (t2 >> 56u64)) by (bit_vector)
        requires
            t1 < 0x1000_0000_0000_0000u64,
            t2 < 0x1000_0000_0000_0000u64,
    ;
    assert(forall|x: u64, y: u64, s: u64|
        s == 48u64 || s == 40u64 || s == 32u64 || s == 24u64 || s == 16u64 || s == 8u64 ==> (x
            >> (s + 8u64)) == (y >> (s + 8u64)) && (x >> s) & 0xFFu64 == (y >> s) & 0xFFu64 ==> (x
            >> s) == (y >> s)) by (bit_vector);
}

} // verus!

verus! {

/// Every character of `hex_of` is a lowercase hexadecimal digit.
proof fn lemma_hex_of_digits(b: Seq<u8>)
    ensures
        hex_of(b).len() == 2 * b.len(),
        forall|j: int| 0 <= j < 2 * b.len() ==> hex_digits().contains(#[trigger] hex_of(b)[j]),
{
    assert forall|j: int| 0 <= j < 2 * b.len() implies hex_digits().contains(
        #[trigger] hex_of(b)[j],
    ) by {
        let x = b[j / 2];
        assert(x >> 4u8 < 16u8 && x & 0xFu8 < 16u8) by (bit_vector);
        if j % 2 == 0 {
            assert(hex_digits()[(x >> 4u8) as int] == hex_of(b)[j]);
        } else {
            assert(hex_digits()[(x & 0xFu8) as int] == hex_of(b)[j]);
        }
    }
}

/// The hyphenated text of any sixteen bytes has the 8-4-4-4-12 shape:
/// 36 characters, '-' at 8, 13, 18 and 23, and a lowercase hexadecimal
/// digit everywhere else.
pub proof fn lemma_hyphenated_shape(b: Seq<u8>)
    requires
        b.len() == 16,
    ensures
        hyphenated(b).len() == 36,
        forall|i: int|
            0 <= i < 36 ==> if i == 8 || i == 13 || i == 18 || i == 23 {
                #[trigger] hyphenated(b)[i] == '-'
            } else {
                hex_digits().contains(hyphenated(b)[i])
            },
{
    let g0 = hex_of(b.subrange(0, 4));
    let g1 = hex_of(b.subrange(4, 6));
    let g2 = hex_of(b.subrange(6, 8));
    let g3 = hex_of(b.subrange(8, 10));
    let g4 = hex_of(b.subrange(10, 16));
    lemma_hex_of_digits(b.subrange(0, 4));
    lemma_hex_of_digits(b.subrange(4, 6));
    lemma_hex_of_digits(b.subrange(6, 8));
    lemma_hex_of_digits(b.subrange(8, 10));
    lemma_hex_of_digits(b.subrange(10, 16));
    let h = hyphenated(b);
    let d = seq!['-'];
    assert(h == g0 + d + g1 + d + g2 + d + g3 + d + g4);
    assert forall|i: int|
        0 <= i < 36 implies if i == 8 || i == 13 || i == 18 || i == 23 {
        #[trigger] h[i] == '-'
    } else {
        hex_digits().contains(h[i])
    } by {
        if i < 8 {
            assert(h[i] == g0[i]);
        } else if i == 8 {
        } else if i < 13 {
            assert(h[i] == g1[i - 9]);
        } else if i == 13 {
        } else if i < 18 {
            assert(h[i] == g2[i - 14]);
        } else if i == 18 {
        } else if i < 23 {
            assert(h[i] == g3[i - 19]);
        } else if i == 23 {
        } else {
            assert(h[i] == g4[i - 24]);
        }
    }
}

} // verus!
