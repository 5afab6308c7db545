//! The layout fingerprint of a record type: FNV-1a over the type's name and
//! the text of each field type, in declaration order.

use vstd::prelude::*;

verus! {

pub const FNV_PRIME: u64 = 0x100_0000_01b3;

pub const FNV_OFFSET: u64 = 0xcbf2_9ce4_8422_2325;

/// One FNV-1a round: mix in the byte, then multiply by the prime modulo 2^64.
pub open spec fn fnv_step(h: u64, b: u8) -> u64 {
    vstd::wrapping::u64_specs::wrapping_mul(h ^ (b as u64), FNV_PRIME)
}

/// The accumulator after every byte of `s`, in order, starting from `h`.
pub open spec fn fnv_fold(h: u64, s: Seq<u8>) -> u64
    decreases s.len(),
{
    if s.len() == 0 {
        h
    } else {
        fnv_step(fnv_fold(h, s.drop_last()), s.last())
    }
}

/// A zero accumulator stands for "not started" and is replaced by the offset basis.
pub open spec fn fnv_seed(h: u64) -> u64 {
    if h == 0 {
        FNV_OFFSET
    } else {
        h
    }
}

/// Folds `bytes` into the FNV-1a accumulator `hash`; a zero `hash` starts from the offset basis.
pub fn hasher(hash: u64, bytes: &[u8]) -> (r: u64)
    ensures
        r == fnv_fold(fnv_seed(hash), bytes@),
{
    let mut h: u64 = if hash == 0 {
        FNV_OFFSET
    } else {
        hash
    };
    let mut i: usize = 0;
    while i < bytes.len()
        invariant
            0 <= i <= bytes.len(),
            h == fnv_fold(fnv_seed(hash), bytes@.take(i as int)),
        decreases bytes.len() - i,
    {
        h = (h ^ (bytes[i] as u64)).wrapping_mul(FNV_PRIME);
        proof {
            assert(bytes@.take(i + 1).drop_last() =~= bytes@.take(i as int));
        }
        i = i + 1;
    }
    proof {
        assert(bytes@.take(bytes.len() as int) =~= bytes@);
    }
    h
}

/// The fingerprint after the type name, then each field type in order.
pub open spec fn fingerprint_fold(name: Seq<u8>, fields: Seq<Seq<u8>>) -> u64
    decreases fields.len(),
{
    if fields.len() == 0 {
        fnv_fold(FNV_OFFSET, name)
    } else {
        fnv_fold(fnv_seed(fingerprint_fold(name, fields.drop_last())), fields.last())
    }
}

/// The layout fingerprint of a record named `name` whose fields have the
/// types written `field_types`, in declaration order.
pub fn layout_fingerprint(name: &str, field_types: &Vec<String>) -> (r: u64)
    ensures
        r == fingerprint_fold(vstd::utf8::encode_utf8(name@), field_types@.map_values(|t: String| vstd::utf8::encode_utf8(t@))),
{
    let mut h = hasher(0, name.as_bytes());
    let ghost fields = field_types@.map_values(|t: String| vstd::utf8::encode_utf8(t@));
    let mut i: usize = 0;
    while i < field_types.len()
        invariant
            0 <= i <= field_types.len(),
            fields == field_types@.map_values(|t: String| vstd::utf8::encode_utf8(t@)),
            h == fingerprint_fold(vstd::utf8::encode_utf8(name@), fields.take(i as int)),
        decreases field_types.len() - i,
    {
        h = hasher(h, field_types[i].as_str().as_bytes());
        proof {
            assert(fields.take(i + 1).drop_last() =~= fields.take(i as int));
        }
        i = i + 1;
    }
    proof {
        assert(fields.take(field_types.len() as int) =~= fields);
    }
    h
}

} // verus!
