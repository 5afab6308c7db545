//! `Rta<T>`: one record of type `T` kept in a memory-mapped file as a
//! redundant record pair, one 64-bit word per slot of the mapping.

use crate::layout::{
    check_image, image_len, initial_image, initial_image_spec, obj_of, open_result, read_image, read_result, write_plan, write_steps,
    RtaError,
};
use frozen_core::error::FrozenError;
use frozen_core::memmap::{MemMap, MemMapCfg};
use std::marker::PhantomData;
use std::path::PathBuf;
use std::sync::{Mutex, MutexGuard};
use vstd::prelude::*;

verus! {

#[verifier::external_type_specification]
#[verifier::external_body]
#[verifier::reject_recursive_types(T)]
pub struct ExMemMap<T: Sized + Clone>(MemMap<T>);

#[verifier::external_type_specification]
#[verifier::external_body]
pub struct ExFrozenError(FrozenError);

#[verifier::external_type_specification]
#[verifier::external_body]
pub struct ExPathBuf(PathBuf);

#[verifier::external_type_specification]
#[verifier::external_body]
#[verifier::reject_recursive_types(T)]
pub struct ExMutex<T: ?Sized>(Mutex<T>);

#[verifier::external_type_specification]
#[verifier::external_body]
#[verifier::reject_recursive_types(T)]
pub struct ExMutexGuard<'a, T: ?Sized + 'a>(MutexGuard<'a, T>);

/// Module tag the mapping attaches to its errors.
pub const MODULE_ID: u8 = 0x01;

/// Layout version the mapping appends to the file name.
pub const FILE_VERSION: u32 = 1;

/// Interval of the mapping's background flush, in milliseconds.
pub const FLUSH_MILLIS: u64 = 250;

/// Error domain of the mapping itself (its file layer reports under another).
pub const MAP_DOMAIN: u8 = 0x10;

/// Reason code of the mapping's "file already exists".
pub const REASON_EXISTS: u8 = 0x1E;

/// Reason code of the mapping's "file does not exist".
pub const REASON_MISSING: u8 = 0x20;

/// Reason code of the mapping's "invalid path to file" (empty, or a directory).
pub const REASON_BAD_PATH: u8 = 0x1C;

/// A record the store can hold: a fixed number of 64-bit words, with a
/// default value and a layout fingerprint.
pub trait RTA: Sized + Clone {
    /// The record as words.
    spec fn words_view(&self) -> Seq<u64>;

    /// How many words every record of this type has.
    spec fn word_count_spec() -> nat;

    /// The layout fingerprint of the type.
    spec fn hash_spec() -> u64;

    /// The layout fingerprint of the type.
    fn hash() -> (r: u64)
        ensures
            r == Self::hash_spec(),
    ;

    /// How many words every record of this type has.
    fn word_count() -> (r: usize)
        ensures
            r == Self::word_count_spec(),
    ;

    /// The words of the record a new store starts with.
    spec fn empty_words() -> Seq<u64>;

    /// The record a new store starts with.
    fn empty() -> (r: Self)
        ensures
            r.words_view() == Self::empty_words(),
            r.words_view().len() == Self::word_count_spec(),
    ;

    /// The record as words.
    fn to_words(&self) -> (r: Vec<u64>)
        ensures
            r@ == self.words_view(),
            r@.len() == Self::word_count_spec(),
    ;

    /// The record that these words stand for.
    fn from_words(w: &[u64]) -> (r: Self)
        requires
            w@.len() == Self::word_count_spec(),
        ensures
            r.words_view() == w@,
    ;
}

/// Relies on MemMap::new: creates the file `<stem>_<version>` for `slots`
/// words and maps it; fails with reason EXS when it exists, PTH for a directory.
#[verifier::external_body]
fn map_create(path: PathBuf, module_id: u8, version: u32, slots: usize, flush_ms: u64) -> (r: Result<
    MemMap<u64>,
    FrozenError,
>) {
    MemMap::<u64>::new(
        MemMapCfg {
            module_id,
            path,
            version,
            initial_t: slots,
            sync_interval: Some(std::time::Duration::from_millis(flush_ms)),
        },
    )
}

/// Relies on MemMap::open: maps the existing file `<stem>_<version>` whole (it
/// must hold at least `slots` words); fails
/// with reason NEX when it is missing, PTH for a directory.
#[verifier::external_body]
fn map_open(path: PathBuf, module_id: u8, version: u32, slots: usize, flush_ms: u64) -> (r: Result<
    MemMap<u64>,
    FrozenError,
>) {
    MemMap::<u64>::open(
        MemMapCfg {
            module_id,
            path,
            version,
            initial_t: slots,
            sync_interval: Some(std::time::Duration::from_millis(flush_ms)),
        },
    )
}

/// Relies on MemMap::read: the word in slot `index`, as the mapping holds it now.
#[verifier::external_body]
fn map_read(m: &MemMap<u64>, index: usize) -> (r: Result<u64, FrozenError>) {
    m.read(index)
}

/// Relies on MemMap::write: stores `w` in slot `index`; the durability ticket is dropped.
#[verifier::external_body]
fn map_write(m: &MemMap<u64>, index: usize, w: u64) -> (r: Result<(), FrozenError>) {
    match m.write(&w, index) {
        Ok(_) => Ok(()),
        Err(e) => Err(e),
    }
}

/// Relies on the public fields FrozenError::domain and FrozenError::reason.
#[verifier::external_body]
fn error_code(e: &FrozenError) -> (r: (u8, u8)) {
    (e.domain, e.reason)
}

/// Relies on Path::is_dir: whether a directory is at `path` now.
#[verifier::external_body]
fn path_is_dir(path: &PathBuf) -> (r: bool) {
    path.is_dir()
}

/// Relies on Path::exists: whether anything is at `path` now.
#[verifier::external_body]
fn path_exists(path: &PathBuf) -> (r: bool) {
    path.exists()
}

/// Relies on Mutex::new.
#[verifier::external_body]
fn new_writer_guard() -> (r: Mutex<()>) {
    Mutex::new(())
}

/// Relies on Mutex::lock; a guard poisoned by a panicking writer is taken over.
#[verifier::external_body]
fn lock_writers(m: &Mutex<()>) -> (r: MutexGuard<'_, ()>) {
    match m.lock() {
        Ok(g) => g,
        Err(e) => e.into_inner(),
    }
}

/// The error kind for an error of the mapping, by its domain and reason code:
/// only the mapping's own path errors name the path; every other failure is I/O.
pub open spec fn error_of(domain: u8, reason: u8) -> RtaError {
    if domain != MAP_DOMAIN {
        RtaError::StoreIo
    } else if reason == REASON_EXISTS {
        RtaError::PathConflict
    } else if reason == REASON_MISSING || reason == REASON_BAD_PATH {
        RtaError::PathInvalidKind
    } else {
        RtaError::StoreIo
    }
}

/// Classifies an error of the mapping by its domain and reason code.
pub fn error_kind(domain: u8, reason: u8) -> (r: RtaError)
    ensures
        r == error_of(domain, reason),
{
    if domain != MAP_DOMAIN {
        RtaError::StoreIo
    } else if reason == REASON_EXISTS {
        RtaError::PathConflict
    } else if reason == REASON_MISSING || reason == REASON_BAD_PATH {
        RtaError::PathInvalidKind
    } else {
        RtaError::StoreIo
    }
}

/// The largest record, in words, whose image the store can address.
pub const MAX_WORDS: usize = 0x1000_0000;

/// A handle on a store holding one record of type `T`.
pub struct Rta<T: RTA> {
    map: MemMap<u64>,
    words: usize,
    writers: Mutex<()>,
    marker: PhantomData<T>,
}

impl<T: RTA> Rta<T> {
    /// The handle is over a record of `T`'s size.
    pub closed spec fn wf(&self) -> bool {
        &&& self.words == T::word_count_spec()
        &&& self.words <= MAX_WORDS
    }

    /// The size of the record in bytes.
    pub fn size() -> (r: usize)
        requires
            8 * T::word_count_spec() <= usize::MAX,
        ensures
            r == 8 * T::word_count_spec(),
    {
        8 * T::word_count()
    }

    /// The layout fingerprint the store is kept under.
    pub fn hash() -> (r: u64)
        ensures
            r == T::hash_spec(),
    {
        T::hash()
    }

    /// Reads the whole image from the mapping, word by word.
    fn load(&self) -> (r: Result<Vec<u64>, RtaError>)
        requires
            self.words <= MAX_WORDS,
        ensures
            r matches Ok(img) ==> img@.len() == image_len(self.words as nat),
            r matches Err(e) ==> e == RtaError::StoreIo,
    {
        let total = 2 * self.words + 5;
        let mut img: Vec<u64> = Vec::new();
        let mut i: usize = 0;
        while i < total
            invariant
                i <= total,
                img@.len() == i,
            decreases total - i,
        {
            match map_read(&self.map, i) {
                Ok(w) => img.push(w),
                Err(_) => return Err(RtaError::StoreIo),
            }
            i = i + 1;
        }
        Ok(img)
    }

    /// The image a new store is created with: `T`'s fingerprint, then the
    /// empty record at version 1 in both copies.
    pub fn initial_image_of() -> (r: Vec<u64>)
        requires
            T::word_count_spec() <= MAX_WORDS,
        ensures
            r@ == initial_image_spec(T::hash_spec(), T::empty_words()),
            r@.len() == image_len(T::word_count_spec()),
    {
        let default_words = T::empty().to_words();
        initial_image(T::hash(), default_words.as_slice())
    }

    /// Creates a store at `path` and stores `initial_image_of()` in it, word by word.
    /// Fails with `PathInvalidKind` for a directory, with `PathConflict` when
    /// anything is at `path` or the mapping's file for it (`<stem>_1[.ext]`)
    /// already exists, and with `StoreIo` when the file or mapping fails.
    pub fn new(path: PathBuf) -> (r: Result<Self, RtaError>)
        ensures
            r matches Ok(s) ==> s.wf(),
            r matches Ok(_) ==> T::word_count_spec() <= MAX_WORDS,
            T::word_count_spec() > MAX_WORDS ==> r matches Err(RtaError::StoreIo),
            r matches Err(e) ==> e == RtaError::PathConflict || e == RtaError::PathInvalidKind
                || e == RtaError::StoreIo,
    {
        let n = T::word_count();
        if n > MAX_WORDS {
            return Err(RtaError::StoreIo);
        }
        if path_is_dir(&path) {
            return Err(RtaError::PathInvalidKind);
        }
        if path_exists(&path) {
            return Err(RtaError::PathConflict);
        }
        let img = Self::initial_image_of();
        let map = match map_create(path, MODULE_ID, FILE_VERSION, img.len(), FLUSH_MILLIS) {
            Ok(m) => m,
            Err(e) => {
                let (domain, reason) = error_code(&e);
                return Err(error_kind(domain, reason));
            },
        };
        let mut i: usize = 0;
        while i < img.len()
            invariant
                i <= img@.len(),
            decreases img@.len() - i,
        {
            if map_write(&map, i, img[i]).is_err() {
                return Err(RtaError::StoreIo);
            }
            i = i + 1;
        }
        Ok(Rta { map, words: n, writers: new_writer_guard(), marker: PhantomData })
    }

    /// Opens the store at `path` and checks it: `SchemaMismatch` when it was
    /// written under another fingerprint, `CorruptionFatal` when neither copy
    /// is valid, `PathInvalidKind` when there is no file, `StoreIo` when the
    /// file or mapping fails.
    pub fn open(path: PathBuf) -> (r: Result<Self, RtaError>)
        ensures
            r matches Ok(_) ==> T::word_count_spec() <= MAX_WORDS,
            T::word_count_spec() > MAX_WORDS ==> r matches Err(RtaError::StoreIo),
            r matches Ok(s) ==> s.wf() && exists|img: Seq<u64>|
                img.len() == image_len(T::word_count_spec()) && #[trigger] open_result(
                    img,
                    T::word_count_spec(),
                    T::hash_spec(),
                ) == Ok::<(), RtaError>(()),

    {
        let n = T::word_count();
        if n > MAX_WORDS {
            return Err(RtaError::StoreIo);
        }
        let map = match map_open(path, MODULE_ID, FILE_VERSION, 1, FLUSH_MILLIS) {
            Ok(m) => m,
            Err(e) => {
                let (domain, reason) = error_code(&e);
                return Err(error_kind(domain, reason));
            },
        };
        let s = Rta { map, words: n, writers: new_writer_guard(), marker: PhantomData };
        match map_read(&s.map, 0) {
            Ok(fp) => {
                if fp != T::hash() {
                    return Err(RtaError::SchemaMismatch);
                }
            },
            Err(_) => return Err(RtaError::StoreIo),
        }
        let img = match s.load() {
            Ok(img) => img,
            Err(e) => return Err(e),
        };
        match check_image(img.as_slice(), n, T::hash()) {
            Ok(()) => Ok(s),
            Err(e) => Err(e),
        }
    }

    /// The record an image reads as: the newest copy that passes its
    /// checksum, or `CorruptionFatal` when neither does.
    pub fn decode(img: &[u64]) -> (r: Result<T, RtaError>)
        requires
            img@.len() == image_len(T::word_count_spec()),
        ensures
            match r {
                Ok(t) => read_result(img@, T::word_count_spec()) == Ok::<Seq<u64>, RtaError>(
                    t.words_view(),
                ),
                Err(e) => read_result(img@, T::word_count_spec()) == Err::<Seq<u64>, RtaError>(
                    e,
                ),
            },
    {
        let n = T::word_count();
        match read_image(img, n) {
            Ok(v) => {
                proof {
                    assert(v@.len() == n) by {
                        assert(obj_of(img@, n as nat, false).len() == n);
                        assert(obj_of(img@, n as nat, true).len() == n);
                    }
                }
                Ok(T::from_words(v.as_slice()))
            },
            Err(e) => Err(e),
        }
    }

    /// Returns the newest copy that passes its checksum in the file as it is
    /// now; `CorruptionFatal` when neither does, `StoreIo` when the mapping fails.
    /// The image is loaded under the writers' lock, so it is never caught between
    /// two writes; the checksums are checked after the lock is released.
    pub fn read(&self) -> (r: Result<T, RtaError>)
        requires
            self.wf(),
        ensures
            r matches Ok(t) ==> exists|img: Seq<u64>|
                img.len() == image_len(T::word_count_spec()) && #[trigger] read_result(
                    img,
                    T::word_count_spec(),
                ) == Ok::<Seq<u64>, RtaError>(t.words_view()),
            r matches Err(e) ==> e == RtaError::StoreIo || e == RtaError::CorruptionFatal,
    {
        let img = {
            // a load must not overlap a write, or it could find both copies half-written
            let _writer = lock_writers(&self.writers);
            self.load()?
        };
        Self::decode(img.as_slice())
    }

    /// Writes `new_val` into the older copy: its record words, then its
    /// version, its checksum last. Writers are serialised.
    pub fn write(&self, new_val: &T) -> (r: Result<(), RtaError>)
        requires
            self.wf(),
        ensures
            r matches Err(e) ==> e == RtaError::StoreIo,
    {
        let _writer = lock_writers(&self.writers);
        let img = self.load()?;
        let v = new_val.to_words();
        let plan = write_plan(img.as_slice(), self.words, v.as_slice());
        let mut i: usize = 0;
        while i < plan.len()
            invariant
                i <= plan@.len(),
                plan@ == write_steps(img@, self.words as nat, new_val.words_view()),
            decreases plan@.len() - i,
        {
            let (at, w) = plan[i];
            if map_write(&self.map, at, w).is_err() {
                return Err(RtaError::StoreIo);
            }
            i = i + 1;
        }
        Ok(())
    }
}

} // verus!
