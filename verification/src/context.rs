//! What a request tells of the region it was sent to and of how it wants to
//! be served.

use vstd::prelude::*;

verus! {

/// Whether a write may go through when the disk is filling up.
#[derive(Clone, Copy, Debug, PartialEq, Eq, Structural)]
pub enum DiskFullOpt {
    NotAllowedOnFull,
    AllowedOnAlmostFull,
    AllowedOnAlreadyFull,
}

/// What a write is to do beside writing.
#[derive(Clone, Copy, Debug, PartialEq, Eq, Structural)]
pub enum ExtraOp {
    Noop,
    /// Read what the key held before.
    ReadOldValue,
}

/// The context of a request. The transaction layer reads the term and the
/// version of the region and hands the rest on as it is.
#[derive(Clone, Copy, Debug, PartialEq, Eq, Structural)]
pub struct Context {
    pub region_id: u64,
    /// The term of the region's leader when the request was sent; zero
    /// where it is not known.
    pub term: u64,
    /// The version of the region's epoch when the request was sent; zero
    /// where it is not known.
    pub version: u64,
    /// Whether what the request reads is not worth caching.
    pub not_fill_cache: bool,
    /// Whether the request was sent before and is sent again.
    pub is_retry_request: bool,
    pub disk_full_opt: DiskFullOpt,
}

impl Context {
    /// The context of a request that tells nothing.
    pub open spec fn blank() -> Context {
        Context {
            region_id: 0,
            term: 0,
            version: 0,
            not_fill_cache: false,
            is_retry_request: false,
            disk_full_opt: DiskFullOpt::NotAllowedOnFull,
        }
    }

    /// The context of a request that tells nothing.
    pub fn new() -> (r: Context)
        ensures
            r == Context::blank(),
    {
        Context {
            region_id: 0,
            term: 0,
            version: 0,
            not_fill_cache: false,
            is_retry_request: false,
            disk_full_opt: DiskFullOpt::NotAllowedOnFull,
        }
    }

    pub fn get_region_id(&self) -> (r: u64)
        ensures
            r == self.region_id,
    {
        self.region_id
    }

    pub fn get_term(&self) -> (r: u64)
        ensures
            r == self.term,
    {
        self.term
    }

    pub fn get_version(&self) -> (r: u64)
        ensures
            r == self.version,
    {
        self.version
    }

    pub fn get_not_fill_cache(&self) -> (r: bool)
        ensures
            r == self.not_fill_cache,
    {
        self.not_fill_cache
    }

    pub fn get_disk_full_opt(&self) -> (r: DiskFullOpt)
        ensures
            r == self.disk_full_opt,
    {
        self.disk_full_opt
    }

    pub fn set_is_retry_request(&mut self, is_retry_request: bool)
        ensures
            *final(self) == (Context { is_retry_request, ..*old(self) }),
    {
        self.is_retry_request = is_retry_request;
    }
}

impl Default for Context {
    fn default() -> (r: Context)
        ensures
            r == Context::blank(),
    {
        Context::new()
    }
}

} // verus!
