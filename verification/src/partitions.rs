//! The partition table of the device.

use crate::text::same_text;
use vstd::prelude::*;

verus! {

/// Size of a sector of the partition table, in bytes.
pub const PART_SECTOR_SIZE: usize = 512;

/// Information about a partition.
#[derive(Debug, Clone, Copy, PartialEq, Eq, Structural)]
pub struct PartitionInfo {
    /// Offset in bytes.
    pub offset: usize,
    /// Size in 512-byte sectors.
    pub size: usize,
    /// Alternative size in 512-byte sectors, of the data partition only.
    pub size_alt: Option<usize>,
}

impl PartitionInfo {
    /// The size of the partition in bytes.
    pub open spec fn part_bytes(self) -> int {
        self.size * PART_SECTOR_SIZE
    }
}

/// A partition without an alternative size.
pub open spec fn plain(offset: usize, size: usize) -> Option<PartitionInfo> {
    Some(PartitionInfo { offset, size, size_alt: None })
}

/// The partition table, by name.
pub open spec fn superbird_partition(name: Seq<char>) -> Option<PartitionInfo> {
    if name == "bootloader"@ {
        plain(0, 4096)
    } else if name == "reserved"@ {
        plain(73728, 131072)
    } else if name == "cache"@ {
        plain(221184, 0)
    } else if name == "env"@ {
        plain(237568, 16384)
    } else if name == "fip_a"@ {
        plain(270336, 8192)
    } else if name == "fip_b"@ {
        plain(294912, 8192)
    } else if name == "logo"@ {
        plain(319488, 16384)
    } else if name == "dtbo_a"@ {
        plain(352256, 8192)
    } else if name == "dtbo_b"@ {
        plain(376832, 8192)
    } else if name == "vbmeta_a"@ {
        plain(401408, 2048)
    } else if name == "vbmeta_b"@ {
        plain(419840, 2048)
    } else if name == "boot_a"@ {
        plain(438272, 32768)
    } else if name == "boot_b"@ {
        plain(487424, 32768)
    } else if name == "system_a"@ {
        plain(536576, 1056856)
    } else if name == "system_b"@ {
        plain(1609816, 1056856)
    } else if name == "misc"@ {
        plain(2683056, 16384)
    } else if name == "settings"@ {
        plain(2715824, 524288)
    } else if name == "data"@ {
        Some(PartitionInfo { offset: 3256496, size: 4476752, size_alt: Some(4378448) })
    } else {
        None
    }
}

/// Whether a partition of this name may be read or written: `cache` has no
/// length, and `reserved` is not to be touched.
pub open spec fn is_accessible(name: Seq<char>) -> bool {
    name != "cache"@ && name != "reserved"@
}

/// Looks a partition up by its name.
pub fn partition(name: &str) -> (info: Option<PartitionInfo>)
    ensures
        info == superbird_partition(name@),
{
    if same_text(name, "bootloader") {
        Some(PartitionInfo { offset: 0, size: 4096, size_alt: None })
    } else if same_text(name, "reserved") {
        Some(PartitionInfo { offset: 73728, size: 131072, size_alt: None })
    } else if same_text(name, "cache") {
        Some(PartitionInfo { offset: 221184, size: 0, size_alt: None })
    } else if same_text(name, "env") {
        Some(PartitionInfo { offset: 237568, size: 16384, size_alt: None })
    } else if same_text(name, "fip_a") {
        Some(PartitionInfo { offset: 270336, size: 8192, size_alt: None })
    } else if same_text(name, "fip_b") {
        Some(PartitionInfo { offset: 294912, size: 8192, size_alt: None })
    } else if same_text(name, "logo") {
        Some(PartitionInfo { offset: 319488, size: 16384, size_alt: None })
    } else if same_text(name, "dtbo_a") {
        Some(PartitionInfo { offset: 352256, size: 8192, size_alt: None })
    } else if same_text(name, "dtbo_b") {
        Some(PartitionInfo { offset: 376832, size: 8192, size_alt: None })
    } else if same_text(name, "vbmeta_a") {
        Some(PartitionInfo { offset: 401408, size: 2048, size_alt: None })
    } else if same_text(name, "vbmeta_b") {
        Some(PartitionInfo { offset: 419840, size: 2048, size_alt: None })
    } else if same_text(name, "boot_a") {
        Some(PartitionInfo { offset: 438272, size: 32768, size_alt: None })
    } else if same_text(name, "boot_b") {
        Some(PartitionInfo { offset: 487424, size: 32768, size_alt: None })
    } else if same_text(name, "system_a") {
        Some(PartitionInfo { offset: 536576, size: 1056856, size_alt: None })
    } else if same_text(name, "system_b") {
        Some(PartitionInfo { offset: 1609816, size: 1056856, size_alt: None })
    } else if same_text(name, "misc") {
        Some(PartitionInfo { offset: 2683056, size: 16384, size_alt: None })
    } else if same_text(name, "settings") {
        Some(PartitionInfo { offset: 2715824, size: 524288, size_alt: None })
    } else if same_text(name, "data") {
        Some(PartitionInfo { offset: 3256496, size: 4476752, size_alt: Some(4378448) })
    } else {
        None
    }
}

/// Every partition of the table that may be accessed has at least one
/// sector, and its size in bytes fits a machine word.
pub proof fn law_table_sizes(name: Seq<char>)
    requires
        superbird_partition(name) is Some,
        is_accessible(name),
    ensures
        superbird_partition(name)->Some_0.size >= 1,
        superbird_partition(name)->Some_0.part_bytes() <= u32::MAX,
        superbird_partition(name)->Some_0.size_alt is Some ==> 1 <= superbird_partition(
            name,
        )->Some_0.size_alt->Some_0 <= superbird_partition(name)->Some_0.size,
{
}

} // verus!
