//! Boot-sector validation and volume geometry.
//!
//! The first 512 bytes of the image are checked for length and for the
//! `0x55, 0xAA` signature, then decoded into the sector/cluster/FAT layout
//! parameters. Allocation exhaustion is reported by the allocator itself
//! (`allocate` returns `None`), and a truncated read during scanning merely
//! ends the affected directory listing, so neither appears here.

use vstd::prelude::*;
use crate::bytes::{le16, le32, read_u16_le, read_u32_le};

verus! {

/// Why the boot sector of an image was rejected.
#[derive(Clone, Copy, Debug, PartialEq, Eq)]
pub enum VolumeError {
    /// The image is shorter than one 512-byte boot sector.
    ImageTooSmall,
    /// Bytes 510 and 511 are not `0x55, 0xAA`.
    InvalidBootSignature,
}

/// Geometry of a FAT32 volume, decoded once from the boot sector and
/// immutable thereafter.
#[derive(Clone, Copy, Debug, PartialEq, Eq)]
pub struct VolumeGeometry {
    /// Bytes per sector (offset 11).
    pub bytes_per_sector: u16,
    /// Sectors per cluster (offset 13).
    pub sectors_per_cluster: u8,
    /// Reserved sectors before the first FAT (offset 14).
    pub reserved_sectors: u16,
    /// Number of file allocation tables (offset 16).
    pub fat_count: u8,
    /// Sectors per FAT, FAT32 form (offset 36).
    pub sectors_per_fat: u32,
    /// Cluster where the root directory starts (offset 44).
    pub root_cluster: u32,
    /// Derived: `sectors_per_cluster * bytes_per_sector`.
    pub cluster_size_bytes: u64,
    /// Derived: byte offset where the data region begins.
    pub data_region_start_byte: u64,
}

impl VolumeGeometry {
    /// The derived fields agree with the raw boot-sector fields.
    pub open spec fn wf(self) -> bool {
        &&& self.cluster_size_bytes
            == self.sectors_per_cluster as int * self.bytes_per_sector as int
        &&& self.data_region_start_byte
            == self.reserved_sectors as int * self.bytes_per_sector as int
            + self.fat_count as int * self.sectors_per_fat as int * self.bytes_per_sector as int
    }
}

/// Bytes 510 and 511 hold the boot signature `0x55, 0xAA`.
pub open spec fn has_boot_signature(img: Seq<u8>) -> bool
    recommends
        img.len() >= 512,
{
    img[510] == 0x55 && img[511] == 0xAA
}

/// The geometry encoded in a boot sector (defined for images of at least
/// 512 bytes).
pub open spec fn spec_geometry(img: Seq<u8>) -> VolumeGeometry
    recommends
        img.len() >= 512,
{
    VolumeGeometry {
        bytes_per_sector: le16(img, 11) as u16,
        sectors_per_cluster: img[13],
        reserved_sectors: le16(img, 14) as u16,
        fat_count: img[16],
        sectors_per_fat: le32(img, 36) as u32,
        root_cluster: le32(img, 44) as u32,
        cluster_size_bytes: (img[13] * le16(img, 11)) as u64,
        data_region_start_byte: (le16(img, 14) * le16(img, 11)
            + img[16] * le32(img, 36) * le16(img, 11)) as u64,
    }
}

/// Validate the boot sector of `image` and decode the volume geometry.
///
/// Succeeds exactly when the image holds at least 512 bytes and carries the
/// boot signature; the result then equals the decoded geometry. No check
/// against the total image length is made here: every downstream byte read
/// bounds-checks independently.
pub fn parse_geometry(image: &[u8]) -> (r: Result<VolumeGeometry, VolumeError>)
    ensures
        r is Ok <==> image@.len() >= 512 && has_boot_signature(image@),
        (match r {
            Ok(g) => g == spec_geometry(image@) && g.wf(),
            Err(e) => {
                &&& (e == VolumeError::ImageTooSmall <==> image@.len() < 512)
                &&& (e == VolumeError::InvalidBootSignature <==> image@.len() >= 512
                    && !has_boot_signature(image@))
            },
        }),
{
    if image.len() < 512 {
        return Err(VolumeError::ImageTooSmall);
    }
    if !(image[510] == 0x55 && image[511] == 0xAA) {
        return Err(VolumeError::InvalidBootSignature);
    }
    let bytes_per_sector = read_u16_le(image, 11);
    let sectors_per_cluster = image[13];
    let reserved_sectors = read_u16_le(image, 14);
    let fat_count = image[16];
    let sectors_per_fat = read_u32_le(image, 36);
    let root_cluster = read_u32_le(image, 44);
    proof {
        let spc = sectors_per_cluster as int;
        let bps = bytes_per_sector as int;
        let rs = reserved_sectors as int;
        let fc = fat_count as int;
        let spf = sectors_per_fat as int;
        assert(spc * bps <= 0xff * 0xffff) by (nonlinear_arith)
            requires
                0 <= spc <= 0xff,
                0 <= bps <= 0xffff,
        ;
        assert(rs * bps <= 0xffff * 0xffff) by (nonlinear_arith)
            requires
                0 <= rs <= 0xffff,
                0 <= bps <= 0xffff,
        ;
        assert(0 <= fc * spf <= 0xff * 0xffffffff) by (nonlinear_arith)
            requires
                0 <= fc <= 0xff,
                0 <= spf <= 0xffffffff,
        ;
        assert(0 <= fc * spf * bps <= 0xff * 0xffffffff * 0xffff) by (nonlinear_arith)
            requires
                0 <= fc * spf <= 0xff * 0xffffffff,
                0 <= bps <= 0xffff,
        ;
        assert(0 <= spc * bps);
        assert(0 <= rs * bps);
    }
    let cluster_size_bytes: u64 = sectors_per_cluster as u64 * bytes_per_sector as u64;
    let fat_bytes: u64 = fat_count as u64 * sectors_per_fat as u64 * bytes_per_sector as u64;
    let data_region_start_byte: u64 = reserved_sectors as u64 * bytes_per_sector as u64
        + fat_bytes;
    Ok(VolumeGeometry {
        bytes_per_sector,
        sectors_per_cluster,
        reserved_sectors,
        fat_count,
        sectors_per_fat,
        root_cluster,
        cluster_size_bytes,
        data_region_start_byte,
    })
}

} // verus!
