//! CRC-16/CCITT over payload bytes: polynomial `0x1021`, initial value 0,
//! no input or output reflection, MSB-first.

use vstd::prelude::*;

verus! {

/// The CRC-16/CCITT generator polynomial.
pub const POLYNOMIAL: u16 = 0x1021;

/// One shift round: shift the register left, folding the polynomial in when
/// the top bit falls out.
pub open spec fn crc16_shift(c: u16) -> u16 {
    if c & 0x8000 != 0 {
        (c << 1) ^ POLYNOMIAL
    } else {
        c << 1
    }
}

/// `n` shift rounds applied to the register.
pub open spec fn crc16_shifts(c: u16, n: nat) -> u16
    decreases n,
{
    if n == 0 {
        c
    } else {
        crc16_shift(crc16_shifts(c, (n - 1) as nat))
    }
}

/// Folding one byte into the register: XOR into the top byte, then eight
/// shift rounds.
pub open spec fn crc16_step(c: u16, b: u8) -> u16 {
    crc16_shifts(c ^ ((b as u16) << 8), 8)
}

/// The CRC-16/CCITT of a byte sequence, starting from register value 0.
pub open spec fn crc16_of(s: Seq<u8>) -> u16
    decreases s.len(),
{
    if s.len() == 0 {
        0
    } else {
        crc16_step(crc16_of(s.drop_last()), s.last())
    }
}

/// Computes the CRC-16/CCITT of `buf`.
pub fn crc16(buf: &[u8]) -> (r: u16)
    ensures
        r == crc16_of(buf@),
{
    let mut crc: u16 = 0;
    let mut i: usize = 0;
    while i < buf.len()
        invariant
            i <= buf.len(),
            crc == crc16_of(buf@.take(i as int)),
        decreases buf.len() - i,
    {
        crc = crc ^ ((buf[i] as u16) << 8u16);
        let ghost start = crc;
        let mut bit: usize = 0;
        while bit < 8
            invariant
                bit <= 8,
                crc == crc16_shifts(start, bit as nat),
            decreases 8 - bit,
        {
            let msb = crc & 0x8000 != 0;
            crc = crc << 1u16;
            if msb {
                crc = crc ^ POLYNOMIAL;
            }
            bit = bit + 1;
        }
        proof {
            assert(buf@.take(i + 1).drop_last() =~= buf@.take(i as int));
            assert(buf@.take(i + 1).last() == buf@[i as int]);
        }
        i = i + 1;
    }
    proof {
        assert(buf@.take(buf@.len() as int) =~= buf@);
    }
    crc
}

/// The checksum is a pure function of the byte sequence: two independent
/// computations over equal inputs agree.
pub proof fn lemma_crc16_deterministic(a: Seq<u8>, b: Seq<u8>)
    requires
        a == b,
    ensures
        crc16_of(a) == crc16_of(b),
{
}

proof fn lemma_shift_injective(c1: u16, c2: u16)
    requires
        crc16_shift(c1) == crc16_shift(c2),
    ensures
        c1 == c2,
{
    assert(c1 == c2) by (bit_vector)
        requires
            (if c1 & 0x8000 != 0 {
                (c1 << 1) ^ 0x1021
            } else {
                c1 << 1
            }) == (if c2 & 0x8000 != 0 {
                (c2 << 1) ^ 0x1021
            } else {
                c2 << 1
            }),
    ;
}

proof fn lemma_shifts_injective(c1: u16, c2: u16, n: nat)
    requires
        crc16_shifts(c1, n) == crc16_shifts(c2, n),
    ensures
        c1 == c2,
    decreases n,
{
    if n > 0 {
        lemma_shift_injective(crc16_shifts(c1, (n - 1) as nat), crc16_shifts(c2, (n - 1) as nat));
        lemma_shifts_injective(c1, c2, (n - 1) as nat);
    }
}

proof fn lemma_step_injective(c1: u16, c2: u16, b: u8)
    requires
        crc16_step(c1, b) == crc16_step(c2, b),
    ensures
        c1 == c2,
{
    lemma_shifts_injective(c1 ^ ((b as u16) << 8), c2 ^ ((b as u16) << 8), 8);
    assert(c1 == c2) by (bit_vector)
        requires
            c1 ^ ((b as u16) << 8) == c2 ^ ((b as u16) << 8),
    ;
}

proof fn lemma_step_diff(c: u16, b1: u8, b2: u8)
    requires
        b1 != b2,
    ensures
        crc16_step(c, b1) != crc16_step(c, b2),
{
    assert(c ^ ((b1 as u16) << 8) != c ^ ((b2 as u16) << 8)) by (bit_vector)
        requires
            b1 != b2,
    ;
    if crc16_step(c, b1) == crc16_step(c, b2) {
        lemma_shifts_injective(c ^ ((b1 as u16) << 8), c ^ ((b2 as u16) << 8), 8);
    }
}

/// Once the running checksums of two equal-length sequences disagree after
/// position `i`, and the sequences agree beyond `i`, the final checksums
/// disagree: each step is injective in the register.
proof fn lemma_diff_propagates(s: Seq<u8>, t: Seq<u8>, i: int)
    requires
        s.len() == t.len(),
        0 <= i < s.len(),
        forall|j: int| i < j < s.len() ==> s[j] == t[j],
        crc16_of(s.take(i + 1)) != crc16_of(t.take(i + 1)),
    ensures
        crc16_of(s) != crc16_of(t),
    decreases s.len() - i,
{
    if i + 1 == s.len() {
        assert(s.take(i + 1) =~= s);
        assert(t.take(i + 1) =~= t);
    } else {
        assert(s.take(i + 2).drop_last() =~= s.take(i + 1));
        assert(t.take(i + 2).drop_last() =~= t.take(i + 1));
        assert(s.take(i + 2).last() == s[i + 1]);
        assert(t.take(i + 2).last() == t[i + 1]);
        if crc16_of(s.take(i + 2)) == crc16_of(t.take(i + 2)) {
            lemma_step_injective(crc16_of(s.take(i + 1)), crc16_of(t.take(i + 1)), s[i + 1]);
        }
        lemma_diff_propagates(s, t, i + 1);
    }
}

/// `b` with bit `k` inverted.
pub open spec fn flip_bit(b: u8, k: u8) -> u8 {
    b ^ (1u8 << k)
}

/// Error-detection law: inverting any single bit of the input changes the
/// CRC-16, so a corrupted block can never present the checksum of the clean
/// one. (The standard polynomial property, not a cryptographic guarantee.)
pub proof fn lemma_crc16_bit_flip(s: Seq<u8>, i: int, k: u8)
    requires
        0 <= i < s.len(),
        k < 8,
    ensures
        crc16_of(s.update(i, flip_bit(s[i], k))) != crc16_of(s),
{
    let t = s.update(i, flip_bit(s[i], k));
    let b1 = s[i];
    let b2 = flip_bit(s[i], k);
    assert(b1 != b2) by (bit_vector)
        requires
            k < 8,
            b2 == b1 ^ (1u8 << k),
    ;
    assert(s.take(i + 1).drop_last() =~= s.take(i));
    assert(t.take(i + 1).drop_last() =~= t.take(i));
    assert(s.take(i + 1).last() == b1);
    assert(t.take(i + 1).last() == b2);
    assert(s.take(i) =~= t.take(i));
    lemma_step_diff(crc16_of(s.take(i)), b1, b2);
    lemma_diff_propagates(s, t, i);
}

} // verus!
