//! Bit-by-bit CRC-32C (Castagnoli, reflected) over raw bytes, and the
//! little-endian byte image of a sequence of 64-bit words.

use vstd::prelude::*;

verus! {

/// Reflected Castagnoli polynomial.
pub const CRC32C_POLY: u32 = 0x82F6_3B78;

/// One shift of the register: drop the low bit, folding in the polynomial when it was set.
pub open spec fn crc_shift(c: u32) -> u32 {
    if c & 1 != 0 {
        (c >> 1) ^ CRC32C_POLY
    } else {
        c >> 1
    }
}

/// `k` shifts of the register.
pub open spec fn crc_shift_n(c: u32, k: nat) -> u32
    decreases k,
{
    if k == 0 {
        c
    } else {
        crc_shift(crc_shift_n(c, (k - 1) as nat))
    }
}

/// The register after absorbing one byte.
pub open spec fn crc_byte(c: u32, b: u8) -> u32 {
    crc_shift_n(c ^ (b as u32), 8)
}

/// The register after absorbing every byte of `s`, in order, starting from `c`.
pub open spec fn crc_fold(c: u32, s: Seq<u8>) -> u32
    decreases s.len(),
{
    if s.len() == 0 {
        c
    } else {
        crc_byte(crc_fold(c, s.drop_last()), s.last())
    }
}

/// The checksum of a byte sequence: the register starts at zero.
pub open spec fn crc32c_spec(s: Seq<u8>) -> u32 {
    crc_fold(0, s)
}

/// The eight bytes of a word, least significant first.
pub open spec fn word_le(w: u64) -> Seq<u8> {
    Seq::new(8, |j: int| ((w >> (8 * j) as u64) & 0xff) as u8)
}

/// The bytes of a word sequence, each word little-endian, in order.
pub open spec fn words_le(s: Seq<u64>) -> Seq<u8>
    decreases s.len(),
{
    if s.len() == 0 {
        Seq::empty()
    } else {
        words_le(s.drop_last()) + word_le(s.last())
    }
}

/// Absorbs one byte into the register.
pub fn crc_update(c: u32, b: u8) -> (r: u32)
    ensures
        r == crc_byte(c, b),
{
    let mut crc: u32 = c ^ (b as u32);
    let ghost start = crc;
    let mut k: usize = 0;
    while k < 8
        invariant
            k <= 8,
            crc == crc_shift_n(start, k as nat),
        decreases 8 - k,
    {
        if crc & 1 != 0 {
            crc = (crc >> 1) ^ CRC32C_POLY;
        } else {
            crc = crc >> 1;
        }
        k = k + 1;
    }
    crc
}

/// Absorbing `a + b` is absorbing `a`, then `b`.
pub proof fn lemma_crc_fold_append(c: u32, a: Seq<u8>, b: Seq<u8>)
    ensures
        crc_fold(c, a + b) == crc_fold(crc_fold(c, a), b),
    decreases b.len(),
{
    if b.len() == 0 {
        assert(a + b =~= a);
    } else {
        assert((a + b).drop_last() =~= a + b.drop_last());
        assert((a + b).last() == b.last());
        lemma_crc_fold_append(c, a, b.drop_last());
    }
}

/// The checksum of the bytes of `bytes`.
pub fn crc32c(bytes: &[u8]) -> (r: u32)
    ensures
        r == crc32c_spec(bytes@),
{
    let mut crc: u32 = 0;
    let mut i: usize = 0;
    while i < bytes.len()
        invariant
            0 <= i <= bytes.len(),
            crc == crc_fold(0, bytes@.take(i as int)),
        decreases bytes.len() - i,
    {
        crc = crc_update(crc, bytes[i]);
        proof {
            assert(bytes@.take(i + 1).drop_last() =~= bytes@.take(i as int));
        }
        i = i + 1;
    }
    proof {
        assert(bytes@.take(bytes.len() as int) =~= bytes@);
    }
    crc
}

/// The checksum of the little-endian bytes of a word sequence.
pub open spec fn digest_words(s: Seq<u64>) -> u32 {
    crc32c_spec(words_le(s))
}

/// The checksum of the little-endian bytes of `words[start..end]`.
pub fn digest_range(words: &[u64], start: usize, end: usize) -> (r: u32)
    requires
        start <= end <= words@.len(),
    ensures
        r == digest_words(words@.subrange(start as int, end as int)),
{
    let mut crc: u32 = 0;
    let mut i: usize = start;
    while i < end
        invariant
            start <= i <= end <= words@.len(),
            crc == crc_fold(0, words_le(words@.subrange(start as int, i as int))),
        decreases end - i,
    {
        let w = words[i];
        let ghost before = crc;
        let mut j: u64 = 0;
        while j < 8
            invariant
                j <= 8,
                crc == crc_fold(before, word_le(w).take(j as int)),
            decreases 8 - j,
        {
            crc = crc_update(crc, ((w >> (8 * j)) & 0xff) as u8);
            proof {
                let t = word_le(w).take(j + 1);
                assert(t.drop_last() =~= word_le(w).take(j as int));
            }
            j = j + 1;
        }
        proof {
            assert(word_le(w).take(8) =~= word_le(w));
            let prev = words@.subrange(start as int, i as int);
            let t = words@.subrange(start as int, i + 1);
            assert(t.drop_last() =~= prev);
            assert(t.last() == w);
            lemma_crc_fold_append(0, words_le(prev), word_le(w));
        }
        i = i + 1;
    }
    crc
}

} // verus!
