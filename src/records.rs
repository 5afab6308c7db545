//! Record types the store holds out of the box: a single `u64`, and
//! `[u64; N]`, a record of `N` fields of type `u64`.

use crate::fingerprint::{fnv_fold, fnv_seed, hasher, FNV_OFFSET};
use crate::store::RTA;
use vstd::prelude::*;

verus! {

/// The fingerprint of a record named "Words" with `k` fields of type `u64`.
pub open spec fn words_hash(k: nat) -> u64
    decreases k,
{
    if k == 0 {
        fnv_fold(FNV_OFFSET, vstd::utf8::encode_utf8("Words"@))
    } else {
        fnv_fold(fnv_seed(words_hash((k - 1) as nat)), vstd::utf8::encode_utf8("u64"@))
    }
}

impl RTA for u64 {
    open spec fn words_view(&self) -> Seq<u64> {
        seq![*self]
    }

    open spec fn word_count_spec() -> nat {
        1
    }

    open spec fn empty_words() -> Seq<u64> {
        seq![0u64]
    }

    open spec fn hash_spec() -> u64 {
        fnv_fold(FNV_OFFSET, vstd::utf8::encode_utf8("u64"@))
    }

    fn hash() -> (r: u64) {
        hasher(0, "u64".as_bytes())
    }

    fn word_count() -> (r: usize) {
        1
    }

    fn empty() -> (r: Self) {
        0
    }

    fn to_words(&self) -> (r: Vec<u64>) {
        vec![*self]
    }

    fn from_words(w: &[u64]) -> (r: Self) {
        w[0]
    }
}

impl<const N: usize> RTA for [u64; N] {
    open spec fn words_view(&self) -> Seq<u64> {
        self@
    }

    open spec fn word_count_spec() -> nat {
        N as nat
    }

    open spec fn empty_words() -> Seq<u64> {
        Seq::new(N as nat, |i: int| 0u64)
    }

    open spec fn hash_spec() -> u64 {
        words_hash(N as nat)
    }

    fn hash() -> (r: u64) {
        let mut h = hasher(0, "Words".as_bytes());
        let mut i: usize = 0;
        while i < N
            invariant
                i <= N,
                h == words_hash(i as nat),
            decreases N - i,
        {
            h = hasher(h, "u64".as_bytes());
            i = i + 1;
        }
        h
    }

    fn word_count() -> (r: usize) {
        N
    }

    fn empty() -> (r: Self) {
        let a = [0u64; N];
        proof {
            assert(a@ =~= Seq::new(N as nat, |i: int| 0u64));
        }
        a
    }

    fn to_words(&self) -> (r: Vec<u64>) {
        let mut out: Vec<u64> = Vec::new();
        let mut i: usize = 0;
        while i < N
            invariant
                i <= N,
                out@ == self@.take(i as int),
            decreases N - i,
        {
            out.push(self[i]);
            proof {
                assert(self@.take(i + 1) =~= self@.take(i as int).push(self@[i as int]));
            }
            i = i + 1;
        }
        proof {
            assert(self@.take(N as int) =~= self@);
        }
        out
    }

    fn from_words(w: &[u64]) -> (r: Self) {
        let mut a = [0u64; N];
        let mut i: usize = 0;
        while i < N
            invariant
                i <= N,
                w@.len() == N,
                a@.len() == N,
                forall|j: int| 0 <= j < i ==> a@[j] == w@[j],
            decreases N - i,
        {
            a[i] = w[i];
            i = i + 1;
        }
        proof {
            assert(a@ =~= w@);
        }
        a
    }
}

} // verus!
