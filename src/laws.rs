//! Properties of the redundant record pair that hold for every image.

use crate::checksum::digest_words;
use crate::layout::{
    a_is_newest, apply_steps, copy_base, versions_in_step, copy_valid, crc_of, image_len, initial_image_spec,
    obj_of, open_result, read_result, ver_of, write_steps, write_target, written_image, RtaError,
};
use vstd::prelude::*;

verus! {

/// After the first `k` stores of a write, exactly the first `k` words of the
/// target copy (record words, then version, then checksum) hold their new values.
pub proof fn lemma_write_prefix(img: Seq<u64>, n: nat, v: Seq<u64>, k: nat)
    requires
        img.len() == image_len(n),
        image_len(n) <= usize::MAX,
        v.len() == n,
        k <= n + 2,
    ensures
        ({
            let s = write_steps(img, n, v);
            let t = apply_steps(img, s.take(k as int));
            let base = copy_base(n, write_target(img, n));
            &&& t.len() == img.len()
            &&& forall|i: int|
                0 <= i < img.len() ==> #[trigger] t[i] == if base <= i < base + k {
                    s[i - base].1
                } else {
                    img[i]
                }
        }),
    decreases k,
{
    let s = write_steps(img, n, v);
    if k == 0 {
        assert(s.take(0) =~= Seq::<(usize, u64)>::empty());
    } else {
        lemma_write_prefix(img, n, v, (k - 1) as nat);
        assert(s.take(k as int).drop_last() =~= s.take(k - 1));
    }
}

/// The state of the image after a complete write of `v`.
pub proof fn lemma_written_copies(img: Seq<u64>, n: nat, v: Seq<u64>)
    requires
        img.len() == image_len(n),
        image_len(n) <= usize::MAX,
        v.len() == n,
    ensures
        ({
            let w = written_image(img, n, v);
            let tgt = write_target(img, n);
            &&& w.len() == img.len()
            &&& w[0] == img[0]
            &&& obj_of(w, n, tgt) == v
            &&& crc_of(w, n, tgt) == digest_words(v) as u64
            &&& ver_of(w, n, tgt) == vstd::wrapping::u64_specs::wrapping_add(
                ver_of(img, n, tgt),
                1,
            )
            &&& obj_of(w, n, !tgt) == obj_of(img, n, !tgt)
            &&& ver_of(w, n, !tgt) == ver_of(img, n, !tgt)
            &&& crc_of(w, n, !tgt) == crc_of(img, n, !tgt)
        }),
{
    let s = write_steps(img, n, v);
    lemma_write_prefix(img, n, v, n + 2);
    assert(s.take((n + 2) as int) =~= s);
    let w = written_image(img, n, v);
    let tgt = write_target(img, n);
    let base = copy_base(n, tgt);
    let ot = !tgt;
    let ob = copy_base(n, ot);
    assert(w[0] == img[0]);
    assert(obj_of(w, n, tgt) =~= v) by {
        assert forall|i: int| 0 <= i < n implies #[trigger] obj_of(w, n, tgt)[i] == v[i] by {
            assert(w[base + i] == s[i].1);
        }
    }
    assert(w[base + n] == s[n as int].1);
    assert(w[base + n + 1] == s[(n + 1) as int].1);
    assert(obj_of(w, n, !tgt) =~= obj_of(img, n, !tgt)) by {
        assert forall|i: int| 0 <= i < n implies #[trigger] obj_of(w, n, ot)[i] == obj_of(
            img,
            n,
            ot,
        )[i] by {
            assert(w[ob + i] == img[ob + i]);
        }
    }
    assert(w[ob + n] == img[ob + n]);
    assert(w[ob + n + 1] == img[ob + n + 1]);
}

/// A write keeps the versions in step.
pub proof fn lemma_write_keeps_versions_in_step(img: Seq<u64>, n: nat, v: Seq<u64>)
    requires
        img.len() == image_len(n),
        image_len(n) <= usize::MAX,
        v.len() == n,
        versions_in_step(img, n),
    ensures
        versions_in_step(written_image(img, n, v), n),
{
    lemma_written_copies(img, n, v);
}

/// Reading right after writing `v` gives `v`, from any image whose versions are in step.
pub proof fn lemma_read_after_write(img: Seq<u64>, n: nat, v: Seq<u64>)
    requires
        img.len() == image_len(n),
        image_len(n) <= usize::MAX,
        v.len() == n,
        versions_in_step(img, n),
    ensures
        read_result(written_image(img, n, v), n) == Ok::<Seq<u64>, RtaError>(v),
{
    lemma_written_copies(img, n, v);
}

/// A store written with `v` and opened again under the same fingerprint opens
/// without error and reads `v`, from any image whose versions are in step.
pub proof fn lemma_reopen_after_write(img: Seq<u64>, n: nat, fp: u64, v: Seq<u64>)
    requires
        img.len() == image_len(n),
        image_len(n) <= usize::MAX,
        v.len() == n,
        versions_in_step(img, n),
        img[0] == fp,
    ensures
        open_result(written_image(img, n, v), n, fp) == Ok::<(), RtaError>(()),
        read_result(written_image(img, n, v), n) == Ok::<Seq<u64>, RtaError>(v),
{
    lemma_written_copies(img, n, v);
}

/// A write leaves the fingerprint and the other copy untouched, and, from an
/// image whose versions are in step, the next write goes to the other copy.
pub proof fn lemma_write_alternates(img: Seq<u64>, n: nat, v: Seq<u64>)
    requires
        img.len() == image_len(n),
        image_len(n) <= usize::MAX,
        v.len() == n,
        versions_in_step(img, n),
    ensures
        ({
            let w = written_image(img, n, v);
            let tgt = write_target(img, n);
            &&& w[0] == img[0]
            &&& forall|i: int|
                copy_base(n, !tgt) <= i < copy_base(n, !tgt) + n + 2 ==> #[trigger] w[i]
                    == img[i]
            &&& write_target(w, n) != tgt
        }),
{
    let s = write_steps(img, n, v);
    lemma_write_prefix(img, n, v, n + 2);
    assert(s.take((n + 2) as int) =~= s);
    lemma_written_copies(img, n, v);
}

/// A write cut off before its checksum store reads as the copy it did not
/// touch, which is what was read before it: always while the version is not
/// yet stored, and once it is, whenever the torn copy fails its checksum.
pub proof fn lemma_torn_write_reads_previous(img: Seq<u64>, n: nat, v: Seq<u64>, k: nat)
    requires
        img.len() == image_len(n),
        image_len(n) <= usize::MAX,
        v.len() == n,
        k <= n + 1,
        copy_valid(img, n, !write_target(img, n)),
    ensures
        read_result(img, n) == Ok::<Seq<u64>, RtaError>(obj_of(img, n, !write_target(img, n))),
        k <= n || !copy_valid(
            apply_steps(img, write_steps(img, n, v).take(k as int)),
            n,
            write_target(img, n),
        ) ==> read_result(apply_steps(img, write_steps(img, n, v).take(k as int)), n)
            == read_result(img, n),
{
    let t = apply_steps(img, write_steps(img, n, v).take(k as int));
    let tgt = write_target(img, n);
    let ot = !tgt;
    let ob = copy_base(n, ot);
    let base = copy_base(n, tgt);
    lemma_write_prefix(img, n, v, k);
    assert(obj_of(t, n, ot) =~= obj_of(img, n, ot)) by {
        assert forall|i: int| 0 <= i < n implies #[trigger] obj_of(t, n, ot)[i] == obj_of(
            img,
            n,
            ot,
        )[i] by {
            assert(t[ob + i] == img[ob + i]);
        }
    }
    assert(t[ob + n] == img[ob + n]);
    assert(t[ob + n + 1] == img[ob + n + 1]);
    if k <= n {
        assert(t[base + n] == img[base + n]);
    }
}

/// When exactly one copy is valid, a read returns that copy, whatever the versions say.
pub proof fn lemma_single_valid_copy_wins(img: Seq<u64>, n: nat, b: bool)
    requires
        copy_valid(img, n, b),
        !copy_valid(img, n, !b),
    ensures
        read_result(img, n) == Ok::<Seq<u64>, RtaError>(obj_of(img, n, b)),
{
}

/// When neither copy is valid, reading and opening report the fatal corruption.
pub proof fn lemma_both_invalid_is_fatal(img: Seq<u64>, n: nat, fp: u64)
    requires
        !copy_valid(img, n, false),
        !copy_valid(img, n, true),
        img.len() > 0,
        img[0] == fp,
    ensures
        read_result(img, n) == Err::<Seq<u64>, RtaError>(RtaError::CorruptionFatal),
        open_result(img, n, fp) == Err::<(), RtaError>(RtaError::CorruptionFatal),
{
}

/// Opening under a fingerprint other than the stored one is refused as a schema mismatch.
pub proof fn lemma_fingerprint_mismatch_refused(img: Seq<u64>, n: nat, fp: u64)
    requires
        img.len() > 0,
        img[0] != fp,
    ensures
        open_result(img, n, fp) == Err::<(), RtaError>(RtaError::SchemaMismatch),
{
}

/// A new store opens under its own fingerprint and reads the default record.
pub proof fn lemma_initial_image(fp: u64, d: Seq<u64>)
    ensures
        initial_image_spec(fp, d).len() == image_len(d.len()),
        versions_in_step(initial_image_spec(fp, d), d.len()),
        open_result(initial_image_spec(fp, d), d.len(), fp) == Ok::<(), RtaError>(()),
        read_result(initial_image_spec(fp, d), d.len()) == Ok::<Seq<u64>, RtaError>(d),
{
    let img = initial_image_spec(fp, d);
    let n = d.len();
    assert(obj_of(img, n, false) =~= d);
    assert(obj_of(img, n, true) =~= d);
    assert(a_is_newest(img, n));
}

} // verus!
