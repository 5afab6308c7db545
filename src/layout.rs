//! The redundant record pair as a sequence of 64-bit words, and the rules
//! that read, check and update it.
//!
//! For a record of `n` words the image holds `2 * n + 5` words:
//! the fingerprint at 0, then copy A (`n` record words, its version, its
//! checksum) from 1, then copy B in the same shape from `n + 3`.

use crate::checksum::{digest_range, digest_words};
use vstd::prelude::*;

verus! {

/// What can go wrong when creating, opening or reading a store.
#[derive(Debug, Clone, Copy, PartialEq, Eq, Structural)]
pub enum RtaError {
    /// A store already exists at the path given to `new`.
    PathConflict,
    /// The path is a directory, or `open` found no regular file there.
    PathInvalidKind,
    /// The stored fingerprint differs from the record type's.
    SchemaMismatch,
    /// Neither copy passes its checksum.
    CorruptionFatal,
    /// The file or the mapping failed.
    StoreIo,
}

/// The number of words in the image of an `n`-word record.
pub open spec fn image_len(n: nat) -> nat {
    2 * n + 5
}

/// Where a copy starts: copy A when `b` is false, copy B when it is true.
pub open spec fn copy_base(n: nat, b: bool) -> int {
    if b {
        n + 3int
    } else {
        1int
    }
}

/// The record words of a copy.
pub open spec fn obj_of(img: Seq<u64>, n: nat, b: bool) -> Seq<u64> {
    img.subrange(copy_base(n, b), copy_base(n, b) + n)
}

/// The version of a copy.
pub open spec fn ver_of(img: Seq<u64>, n: nat, b: bool) -> u64 {
    img[copy_base(n, b) + n]
}

/// The stored checksum of a copy.
pub open spec fn crc_of(img: Seq<u64>, n: nat, b: bool) -> u64 {
    img[copy_base(n, b) + n + 1]
}

/// A copy is valid when its stored checksum is the checksum of its record bytes.
pub open spec fn copy_valid(img: Seq<u64>, n: nat, b: bool) -> bool {
    digest_words(obj_of(img, n, b)) as u64 == crc_of(img, n, b)
}

/// `x` is at least as new as `y`, counting around the wrap of the version counter.
pub open spec fn newer_or_equal(x: u64, y: u64) -> bool {
    vstd::wrapping::u64_specs::wrapping_sub(x, y) < 0x8000_0000_0000_0000
}

/// Copy A wins by version (ties go to A).
pub open spec fn a_is_newest(img: Seq<u64>, n: nat) -> bool {
    newer_or_equal(ver_of(img, n, false), ver_of(img, n, true))
}

/// What a read returns: the newest valid copy, or the fatal error when none is valid.
pub open spec fn read_result(img: Seq<u64>, n: nat) -> Result<Seq<u64>, RtaError> {
    let a = copy_valid(img, n, false);
    let b = copy_valid(img, n, true);
    if a && b {
        if a_is_newest(img, n) {
            Ok(obj_of(img, n, false))
        } else {
            Ok(obj_of(img, n, true))
        }
    } else if a {
        Ok(obj_of(img, n, false))
    } else if b {
        Ok(obj_of(img, n, true))
    } else {
        Err(RtaError::CorruptionFatal)
    }
}

/// What opening an image under fingerprint `fp` gives.
pub open spec fn open_result(img: Seq<u64>, n: nat, fp: u64) -> Result<(), RtaError> {
    if img[0] != fp {
        Err(RtaError::SchemaMismatch)
    } else if !copy_valid(img, n, false) && !copy_valid(img, n, true) {
        Err(RtaError::CorruptionFatal)
    } else {
        Ok(())
    }
}

/// The copy a write updates: the one that does not win by version (B on a tie).
pub open spec fn write_target(img: Seq<u64>, n: nat) -> bool {
    a_is_newest(img, n)
}

/// The version a write gives its target: its own, incremented (wrapping).
pub open spec fn next_version(img: Seq<u64>, n: nat) -> u64 {
    vstd::wrapping::u64_specs::wrapping_add(ver_of(img, n, write_target(img, n)), 1)
}

/// The versions are in step: copy B's equals copy A's or is one past it (wrapping).
/// Every image a store reaches from `new` through writes is so.
pub open spec fn versions_in_step(img: Seq<u64>, n: nat) -> bool {
    ver_of(img, n, true) == ver_of(img, n, false) || ver_of(img, n, true)
        == vstd::wrapping::u64_specs::wrapping_add(ver_of(img, n, false), 1)
}

/// The word stores of a write of `v`, in the order they are made: the record
/// words first, then the version, the checksum last.
pub open spec fn write_steps(img: Seq<u64>, n: nat, v: Seq<u64>) -> Seq<(usize, u64)> {
    let base = copy_base(n, write_target(img, n));
    Seq::new(
        n + 2,
        |k: int|
            if k < n {
                ((base + k) as usize, v[k])
            } else if k == n {
                ((base + n) as usize, next_version(img, n))
            } else {
                ((base + n + 1) as usize, digest_words(v) as u64)
            },
    )
}

/// The image after the given word stores, in order.
pub open spec fn apply_steps(img: Seq<u64>, steps: Seq<(usize, u64)>) -> Seq<u64>
    decreases steps.len(),
{
    if steps.len() == 0 {
        img
    } else {
        let s = steps.last();
        let prev = apply_steps(img, steps.drop_last());
        if s.0 < prev.len() {
            prev.update(s.0 as int, s.1)
        } else {
            prev
        }
    }
}

/// The image after a complete write of `v`.
pub open spec fn written_image(img: Seq<u64>, n: nat, v: Seq<u64>) -> Seq<u64> {
    apply_steps(img, write_steps(img, n, v))
}

/// The image a new store starts from: both copies hold the default record at version 1.
pub open spec fn initial_image_spec(fp: u64, d: Seq<u64>) -> Seq<u64> {
    let c = digest_words(d) as u64;
    seq![fp] + d + seq![1u64, c] + d + seq![1u64, c]
}

/// Builds the image of a new store from the fingerprint and the default record.
pub fn initial_image(fp: u64, default_words: &[u64]) -> (r: Vec<u64>)
    requires
        image_len(default_words@.len()) <= usize::MAX,
    ensures
        r@ == initial_image_spec(fp, default_words@),
{
    let n = default_words.len();
    let c = digest_range(default_words, 0, n) as u64;
    proof {
        assert(default_words@.subrange(0, n as int) =~= default_words@);
    }
    let mut out: Vec<u64> = Vec::new();
    out.push(fp);
    let mut copy: usize = 0;
    while copy < 2
        invariant
            copy <= 2,
            n == default_words@.len(),
            c == digest_words(default_words@) as u64,
            copy == 0 ==> out@ == seq![fp],
            copy == 1 ==> out@ == seq![fp] + default_words@ + seq![1u64, c],
            copy == 2 ==> out@ == initial_image_spec(fp, default_words@),
        decreases 2 - copy,
    {
        let ghost before = out@;
        let mut i: usize = 0;
        while i < n
            invariant
                i <= n,
                n == default_words@.len(),
                out@ == before + default_words@.take(i as int),
            decreases n - i,
        {
            out.push(default_words[i]);
            proof {
                assert(default_words@.take(i + 1) =~= default_words@.take(i as int).push(
                    default_words@[i as int],
                ));
            }
            i = i + 1;
        }
        out.push(1);
        out.push(c);
        proof {
            assert(default_words@.take(n as int) =~= default_words@);
            assert(out@ =~= before + default_words@ + seq![1u64, c]);
        }
        copy = copy + 1;
    }
    out
}

/// Tells whether a copy of the image is valid.
pub fn is_copy_valid(img: &[u64], n: usize, b: bool) -> (r: bool)
    requires
        img@.len() == image_len(n as nat),
    ensures
        r == copy_valid(img@, n as nat, b),
{
    // the slice length fits in usize, and so does every index below it
    let _len: usize = img.len();
    let base: usize = if b {
        n + 3
    } else {
        1
    };
    let d = digest_range(img, base, base + n);
    d as u64 == img[base + n + 1]
}

/// Tells whether copy A wins by version.
pub fn a_wins(img: &[u64], n: usize) -> (r: bool)
    requires
        img@.len() == image_len(n as nat),
    ensures
        r == a_is_newest(img@, n as nat),
{
    // the slice length fits in usize, and so does every index below it
    let _len: usize = img.len();
    img[n + 1].wrapping_sub(img[2 * n + 3]) < 0x8000_0000_0000_0000
}

/// The record words of a copy.
pub fn copy_words(img: &[u64], n: usize, b: bool) -> (r: Vec<u64>)
    requires
        img@.len() == image_len(n as nat),
    ensures
        r@ == obj_of(img@, n as nat, b),
{
    // the slice length fits in usize, and so does every index below it
    let _len: usize = img.len();
    let base: usize = if b {
        n + 3
    } else {
        1
    };
    let mut out: Vec<u64> = Vec::new();
    let mut i: usize = 0;
    while i < n
        invariant
            i <= n,
            img@.len() == image_len(n as nat),
            image_len(n as nat) <= usize::MAX,
            base == copy_base(n as nat, b),
            out@ == img@.subrange(base as int, base + i),
        decreases n - i,
    {
        out.push(img[base + i]);
        proof {
            assert(img@.subrange(base as int, base + i + 1) =~= img@.subrange(
                base as int,
                base + i,
            ).push(img@[base + i]));
        }
        i = i + 1;
    }
    out
}

/// Reads the newest valid copy of the image.
pub fn read_image(img: &[u64], n: usize) -> (r: Result<Vec<u64>, RtaError>)
    requires
        img@.len() == image_len(n as nat),
    ensures
        match r {
            Ok(v) => read_result(img@, n as nat) == Ok::<Seq<u64>, RtaError>(v@),
            Err(e) => read_result(img@, n as nat) == Err::<Seq<u64>, RtaError>(e),
        },
{
    let a = is_copy_valid(img, n, false);
    let b = is_copy_valid(img, n, true);
    if a && b {
        if a_wins(img, n) {
            Ok(copy_words(img, n, false))
        } else {
            Ok(copy_words(img, n, true))
        }
    } else if a {
        Ok(copy_words(img, n, false))
    } else if b {
        Ok(copy_words(img, n, true))
    } else {
        Err(RtaError::CorruptionFatal)
    }
}

/// Checks an image found on opening against the record type's fingerprint.
pub fn check_image(img: &[u64], n: usize, fp: u64) -> (r: Result<(), RtaError>)
    requires
        img@.len() == image_len(n as nat),
    ensures
        r == open_result(img@, n as nat, fp),
{
    if img[0] != fp {
        Err(RtaError::SchemaMismatch)
    } else if !is_copy_valid(img, n, false) && !is_copy_valid(img, n, true) {
        Err(RtaError::CorruptionFatal)
    } else {
        Ok(())
    }
}

/// The word stores that write `v` into the image, in the order they must be made.
pub fn write_plan(img: &[u64], n: usize, v: &[u64]) -> (r: Vec<(usize, u64)>)
    requires
        img@.len() == image_len(n as nat),
        v@.len() == n,
    ensures
        r@ == write_steps(img@, n as nat, v@),
{
    // the slice length fits in usize, and so does every index below it
    let _len: usize = img.len();
    let target = a_wins(img, n);
    let base: usize = if target {
        n + 3
    } else {
        1
    };
    let own_ver = if target {
        img[2 * n + 3]
    } else {
        img[n + 1]
    };
    let ghost steps = write_steps(img@, n as nat, v@);
    let mut out: Vec<(usize, u64)> = Vec::new();
    let mut i: usize = 0;
    while i < n
        invariant
            i <= n,
            v@.len() == n,
            img@.len() == image_len(n as nat),
            image_len(n as nat) <= usize::MAX,
            base == copy_base(n as nat, write_target(img@, n as nat)),
            steps == write_steps(img@, n as nat, v@),
            out@ == steps.take(i as int),
        decreases n - i,
    {
        out.push((base + i, v[i]));
        proof {
            assert(out@ =~= steps.take(i + 1));
        }
        i = i + 1;
    }
    out.push((base + n, own_ver.wrapping_add(1)));
    out.push((base + n + 1, digest_range(v, 0, n) as u64));
    proof {
        assert(v@.subrange(0, n as int) =~= v@);
        assert(out@ =~= steps);
    }
    out
}

/// Makes the given word stores on the image, in order; stores outside it are skipped.
pub fn apply_plan(img: &mut Vec<u64>, steps: &[(usize, u64)])
    ensures
        final(img)@ == apply_steps(old(img)@, steps@),
{
    let mut i: usize = 0;
    while i < steps.len()
        invariant
            i <= steps.len(),
            img@ == apply_steps(old(img)@, steps@.take(i as int)),
        decreases steps.len() - i,
    {
        let (at, w) = steps[i];
        if at < img.len() {
            img.set(at, w);
        }
        proof {
            assert(steps@.take(i + 1).drop_last() =~= steps@.take(i as int));
        }
        i = i + 1;
    }
    proof {
        assert(steps@.take(steps.len() as int) =~= steps@);
    }
}

/// Writes `v` into the older copy of the image.
pub fn write_image(img: &mut Vec<u64>, n: usize, v: &[u64])
    requires
        old(img)@.len() == image_len(n as nat),
        v@.len() == n,
    ensures
        final(img)@ == written_image(old(img)@, n as nat, v@),
{
    let plan = write_plan(img.as_slice(), n, v);
    apply_plan(img, plan.as_slice());
}

} // verus!
