//! The cache of the packages that are available on a platform of a channel,
//! keyed by the platform's URL.

use crate::cache_model::{CacheModel, Lookup};
use crate::error::FetchError;
use crate::generic_cache::{share, GenericCache, GetCachedResult, WriteHandle};
use rattler_conda_types::RepoDataRecord;
use std::path::PathBuf;
use std::sync::Arc;
use vstd::prelude::*;

verus! {

/// A record of rattler_conda_types: opaque here, carried from the parser to
/// the readers of the cache.
#[verifier::external_type_specification]
#[verifier::external_body]
pub struct ExRepoDataRecord(RepoDataRecord);

/// A path of std: opaque here, carried to whoever stages downloads on disk.
#[verifier::external_type_specification]
#[verifier::external_body]
pub struct ExPathBuf(PathBuf);

/// Caches the available packages of (channel, platform) pairs.
pub struct AvailablePackagesCache {
    cache: GenericCache<Vec<RepoDataRecord>>,
    cache_dir: PathBuf,
}

impl AvailablePackagesCache {
    /// The state of the cache.
    pub closed spec fn view(&self) -> CacheModel<Vec<RepoDataRecord>> {
        self.cache@
    }

    /// The directory that was given at construction.
    pub closed spec fn staging_dir(&self) -> PathBuf {
        self.cache_dir
    }

    /// An empty cache whose entries expire `expiration` nanoseconds after
    /// they were stored. `cache_dir` is kept for the fetches of its callers.
    pub fn new(expiration: u128, cache_dir: PathBuf) -> (cache: AvailablePackagesCache)
        ensures
            cache@ == CacheModel::<Vec<RepoDataRecord>>::empty(expiration as nat),
            cache.staging_dir() == cache_dir,
    {
        AvailablePackagesCache { cache: GenericCache::with_expiration(expiration), cache_dir }
    }

    /// The directory in which fetches may stage what they download.
    pub fn cache_dir(&self) -> (dir: &PathBuf)
        ensures
            *dir == self.staging_dir(),
    {
        &self.cache_dir
    }

    /// Removes the entries that are strictly older than the expiration at
    /// `now`.
    pub fn gc(&mut self, now: u128)
        ensures
            final(self)@ == old(self)@.gc(now as nat),
            final(self).staging_dir() == old(self).staging_dir(),
    {
        self.cache.gc(now);
    }

    /// Looks up the records of the platform behind `platform_url` at `now`.
    ///
    /// `Found` carries the cached records. `NotFound` makes the caller the
    /// one who downloads them; it settles the handle with `finish`.
    /// `Pending` tells the caller to wait for that download and ask again.
    pub fn get(&mut self, platform_url: &str, now: u128) -> (res: GetCachedResult<
        Vec<RepoDataRecord>,
    >)
        ensures
            final(self)@ == old(self)@.get_cached(platform_url@, now as nat),
            final(self).staging_dir() == old(self).staging_dir(),
            match res {
                GetCachedResult::Found(records) => old(self)@.lookup(platform_url@, now as nat)
                    == Lookup::Found(*records),
                GetCachedResult::NotFound(handle) => old(self)@.lookup(platform_url@, now as nat)
                    is NotFound && handle@ == platform_url@,
                GetCachedResult::Pending => old(self)@.lookup(platform_url@, now as nat)
                    is Pending,
            },
    {
        self.cache.get_cached(platform_url, now)
    }

    /// Settles a download. Records that arrived are stored under the
    /// handle's key, stamped `now`, and returned; a failure releases the key
    /// and is returned as it is, with nothing stored.
    ///
    /// Records for a key that nobody is fetching are refused with
    /// `CacheProtocol`, and nothing changes.
    pub fn finish(
        &mut self,
        handle: WriteHandle,
        fetched: Result<Vec<RepoDataRecord>, FetchError>,
        now: u128,
    ) -> (res: Result<Arc<Vec<RepoDataRecord>>, FetchError>)
        ensures
            final(self).staging_dir() == old(self).staging_dir(),
            match fetched {
                Ok(records) => if old(self)@.pending.contains(handle@) {
                    res matches Ok(shared) && *shared == records && final(self)@ == old(self)@.set(
                        handle@,
                        records,
                        now as nat,
                    )
                } else {
                    res == Err::<Arc<Vec<RepoDataRecord>>, FetchError>(FetchError::CacheProtocol)
                        && final(self)@ == old(self)@
                },
                Err(error) => res == Err::<Arc<Vec<RepoDataRecord>>, FetchError>(error)
                    && final(self)@ == old(self)@.abandon(handle@),
            },
    {
        match fetched {
            Ok(records) => {
                let shared = Arc::new(records);
                let stored = share(&shared);
                match self.cache.set(handle, stored, now) {
                    Ok(_) => Ok(shared),
                    Err(error) => Err(error),
                }
            },
            Err(error) => {
                proof {
                    if !self.cache@.pending.contains(handle@) {
                        assert(self.cache@.pending.remove(handle@) =~= self.cache@.pending);
                    }
                }
                let _ = self.cache.abandon(handle);
                Err(error)
            },
        }
    }
}

} // verus!
