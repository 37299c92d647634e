//! An instance is a directory that holds one subdirectory per named index,
//! plus a version marker file. Opening an index memory-maps its directory;
//! the initial map size is found by an exponential back-off probe, because
//! some platforms refuse large reservations despite a 64-bit address space.
//! The size arithmetic of that probe and the directory layout are decided
//! here; the unverified shell performs the actual filesystem and mmap calls.

use vstd::prelude::*;
use vstd::string::StringExecFns;

verus! {

/// Schema version written by the current code; an on-disk marker below this
/// means the instance must be rebuilt before it can be trusted.
pub const CURRENT_MILLI_VERSION: u32 = 1;

/// Upper bound on the map size ever requested, in bytes.
pub const MAX_POSSIBLE_SIZE: u64 = 2_000_000_000;

/// Largest page size assumed for any supported platform; map sizes are
/// rounded down to a multiple of this.
pub const MAX_OS_PAGE_SIZE: u64 = 16_777_216;

/// Number of times the probe shrinks the requested size before giving up.
pub const MAP_SIZE_TRIES: u32 = 8;

/// The raw (unrounded) probe size after `retry` shrink steps: the platform
/// cap, scaled down by 85/100 once per step.
pub open spec fn backoff_size(retry: nat) -> nat
    decreases retry,
{
    if retry == 0 {
        MAX_POSSIBLE_SIZE as nat
    } else {
        (backoff_size((retry - 1) as nat) * 85) / 100
    }
}

/// The map size requested on attempt `retry`: the backed-off size, rounded
/// down to a multiple of the page size.
pub open spec fn map_size_for_retry(retry: nat) -> nat {
    (backoff_size(retry) - (backoff_size(retry) % (MAX_OS_PAGE_SIZE as nat))) as nat
}

/// Each shrink step keeps the raw probe size within the platform cap.
pub proof fn lemma_backoff_bounded(retry: nat)
    ensures
        backoff_size(retry) <= MAX_POSSIBLE_SIZE,
    decreases retry,
{
    if retry > 0 {
        lemma_backoff_bounded((retry - 1) as nat);
    }
}

/// Computes the map size to request on the given attempt.
pub fn map_size_candidate(retry: u32) -> (r: u64)
    requires
        retry <= MAP_SIZE_TRIES,
    ensures
        r == map_size_for_retry(retry as nat),
        r % MAX_OS_PAGE_SIZE == 0,
        r <= MAX_POSSIBLE_SIZE,
{
    let mut raw: u64 = MAX_POSSIBLE_SIZE;
    let mut i: u32 = 0;
    while i < retry
        invariant
            i <= retry,
            raw == backoff_size(i as nat),
            raw <= MAX_POSSIBLE_SIZE,
        decreases retry - i,
    {
        proof {
            lemma_backoff_bounded((i + 1) as nat);
        }
        raw = (raw * 85) / 100;
        i = i + 1;
    }
    proof {
        lemma_backoff_bounded(retry as nat);
    }
    raw - (raw % MAX_OS_PAGE_SIZE)
}

/// The handle to an on-disk instance: all indices live in subdirectories of
/// `instance_dir`.
#[derive(Clone)]
pub struct Instance {
    pub instance_dir: String,
}

impl Instance {
    /// Creates a handle rooted at the given directory.
    pub fn new(instance_dir: String) -> (r: Instance)
        ensures
            r.instance_dir == instance_dir,
    {
        Instance { instance_dir }
    }

    /// Whether an instance whose on-disk version marker reads `disk_version`
    /// was written by older code and must be rebuilt.
    pub fn needs_rebuilding(&self, disk_version: u32) -> (r: bool)
        ensures
            r == (disk_version < CURRENT_MILLI_VERSION),
    {
        disk_version < CURRENT_MILLI_VERSION
    }

    /// The directory that backs the index with the given name.
    pub fn index_dir(&self, name: &str) -> (r: String)
        ensures
            r@ == self.instance_dir@ + "/"@ + name@,
    {
        self.instance_dir.clone().concat("/").concat(name)
    }

    /// The file that carries the instance's schema version marker.
    pub fn milli_version_path(&self) -> (r: String)
        ensures
            r@ == self.instance_dir@ + "/milli_version"@,
    {
        self.instance_dir.clone().concat("/milli_version")
    }
}

} // verus!
