//! Network statistics: queueing disciplines read from rtnetlink, and NIC
//! counters read through the ethtool interface.
use vstd::prelude::*;

pub mod common;
pub mod ethtool;
pub mod fq_codel;
pub mod netlink;
pub mod tc;
pub mod text;
pub mod wire;

verus! {

/// Errors of reading the NIC statistics of an interface.
#[derive(Clone, Debug)]
pub enum EthtoolError {
    /// The handle on the interface could not be opened.
    Open(String),
    /// The statistics could not be read.
    Stats(String),
}

/// A source of the NIC statistics of an interface.
pub trait EthtoolReadable: Sized {
    /// Opens a handle on the interface `if_name`.
    fn new(if_name: &str) -> Result<Self, EthtoolError>;

    /// Reads the statistics of the interface, each paired with its name.
    fn stats(&self) -> Result<Vec<(String, u64)>, EthtoolError>;
}

/// Reads the NIC statistics of `if_name` through a handle of type `T`: the
/// outcome is the error with which opening the handle failed, or else what
/// reading the statistics through the opened handle gave.
pub fn ethtool_stats<T: EthtoolReadable>(if_name: &str) -> (r: Result<Vec<(String, u64)>, EthtoolError>)
    ensures
        (exists|e: EthtoolError| r == Err::<Vec<(String, u64)>, EthtoolError>(e)
            && call_ensures(T::new, (if_name,), Err::<T, EthtoolError>(e)))
        || (exists|handle: T| call_ensures(T::new, (if_name,), Ok::<T, EthtoolError>(handle))
            && call_ensures(T::stats, (&handle,), r)),
{
    let ethtool = T::new(if_name)?;
    ethtool.stats()
}

} // verus!
