//! Constants of the ethtool ioctl interface (`linux/ethtool.h`).
use vstd::prelude::*;

verus! {

/// Command: get the sizes of string sets.
pub const ETHTOOL_GSSET_INFO: u32 = 0x37;

/// Command: get the strings of a string set.
pub const ETHTOOL_GSTRINGS: u32 = 0x1b;

/// Command: get the NIC-specific statistics.
pub const ETHTOOL_GSTATS: u32 = 0x1d;

/// The string set that names the NIC-specific statistics.
pub const ETH_SS_STATS: u32 = 0x1;

/// Length of one string of a string set, its terminating zero included.
pub const ETH_GSTRING_LEN: usize = 32;

/// Maximum size of an interface name, its terminating zero included.
pub const IFNAME_MAX_SIZE: usize = 16;

/// Maximum number of statistics that can be retrieved.
pub const MAX_GSTRINGS: usize = 8192;

/// Size of the data area that the string and statistics requests carry.
pub const GSTRINGS_DATA_LEN: usize = MAX_GSTRINGS * ETH_GSTRING_LEN;

} // verus!
