//! Recursive directory scanner.
//!
//! Given the volume geometry and a starting cluster, the scanner reads
//! sequential 32-byte directory records, filters out deleted entries,
//! long-name fragments and malformed folders, and collects one record per
//! valid entry, recursing depth-first into subdirectories. A read that would
//! run past the image's end only terminates the current directory's listing;
//! ancestors continue with their remaining entries. Recursion depth is capped
//! by an explicit limit so that a crafted image holding a directory cycle
//! cannot recurse without bound.

use vstd::prelude::*;
use crate::bytes::{le16, le32, preview_of, printable_or_space, read_u16_le, read_u32_le,
    read_preview, strip_padded, strip_trailing_pad};
use crate::geometry::VolumeGeometry;

verus! {

/// One 32-byte directory record, decoded. Produced per scan step and
/// discarded; never persisted.
pub struct DirectoryEntry {
    /// Base name (bytes 0-7), trailing `0x20` padding stripped. Bytes are
    /// kept as stored, without code-page validation.
    pub name: Vec<u8>,
    /// Extension (bytes 8-10), trailing `0x20` padding stripped.
    pub extension: Vec<u8>,
    /// Attribute bit `0x10` is set.
    pub is_directory: bool,
    /// The first byte is `0xE5`.
    pub is_deleted: bool,
    /// The attribute byte equals `0x0F`.
    pub is_long_name_fragment: bool,
    /// High word at bytes 20-21 combined with low word at bytes 26-27.
    pub starting_cluster: u32,
    /// 32-bit size at bytes 28-31.
    pub size_bytes: u32,
}

/// What the scanner reports for one valid directory entry.
#[derive(Clone, Debug, PartialEq, Eq)]
pub struct Record {
    /// Base name, trailing padding stripped.
    pub name: Vec<u8>,
    /// Extension, trailing padding stripped; empty when the entry has none.
    pub extension: Vec<u8>,
    /// True for folder records, false for file records.
    pub is_directory: bool,
    /// Declared file size; zero for folders.
    pub size_bytes: u32,
    /// For a file with a positive size whose content read stays within the
    /// image: up to 64 bytes of content, unprintable bytes replaced by
    /// spaces. `None` otherwise, and for folders.
    pub preview: Option<Vec<u8>>,
}

/// Ghost image of a `Record`, over mathematical sequences.
pub ghost struct RecordView {
    pub name: Seq<u8>,
    pub extension: Seq<u8>,
    pub is_directory: bool,
    pub size_bytes: u32,
    pub preview: Option<Seq<u8>>,
}

impl View for Record {
    type V = RecordView;

    open spec fn view(&self) -> RecordView {
        RecordView {
            name: self.name@,
            extension: self.extension@,
            is_directory: self.is_directory,
            size_bytes: self.size_bytes,
            preview: match self.preview {
                Some(p) => Some(p@),
                None => None,
            },
        }
    }
}

/// The ghost images of a sequence of records.
pub open spec fn record_views(s: Seq<Record>) -> Seq<RecordView> {
    s.map_values(|r: Record| r@)
}

/// Name field of the record at `off`.
pub open spec fn entry_name(img: Seq<u8>, off: int) -> Seq<u8> {
    strip_trailing_pad(img.subrange(off, off + 8))
}

/// Extension field of the record at `off`.
pub open spec fn entry_extension(img: Seq<u8>, off: int) -> Seq<u8> {
    strip_trailing_pad(img.subrange(off + 8, off + 11))
}

/// Attribute byte of the record at `off`.
pub open spec fn entry_attributes(img: Seq<u8>, off: int) -> u8 {
    img[off + 11]
}

/// The record at `off` describes a directory (attribute bit `0x10`).
pub open spec fn entry_is_directory(img: Seq<u8>, off: int) -> bool {
    entry_attributes(img, off) & 0x10 != 0
}

/// Starting cluster of the record at `off`: high word shifted past low word.
pub open spec fn entry_starting_cluster(img: Seq<u8>, off: int) -> int {
    le16(img, off + 20) * 0x10000 + le16(img, off + 26)
}

/// Declared size of the record at `off`.
pub open spec fn entry_size(img: Seq<u8>, off: int) -> int {
    le32(img, off + 28)
}

/// A name that is exactly `.` or `..` (the self/parent entries).
pub open spec fn is_dot_name(name: Seq<u8>) -> bool {
    name == seq![0x2eu8] || name == seq![0x2eu8, 0x2eu8]
}

/// Absolute byte offset of a cluster's data. FAT cluster numbering begins at
/// 2; clusters 0 and 1 are reserved and have no data address.
pub open spec fn spec_cluster_offset(geo: VolumeGeometry, cluster: int) -> int
    recommends
        cluster >= 2,
{
    geo.data_region_start_byte + (cluster - 2) * geo.cluster_size_bytes
}

/// The content preview of a file entry: defined when the declared size is
/// positive, the starting cluster has a data address, and reading
/// `min(size, 64)` bytes stays within the image.
pub open spec fn spec_file_preview(
    img: Seq<u8>,
    geo: VolumeGeometry,
    cluster: int,
    size: int,
) -> Option<Seq<u8>> {
    if size > 0 && cluster >= 2 {
        let fo = spec_cluster_offset(geo, cluster);
        let n = if size > 64 { 64int } else { size };
        if fo + n <= img.len() {
            Some(preview_of(img, fo, n))
        } else {
            None
        }
    } else {
        None
    }
}

/// The record reported for a file entry at `off`.
pub open spec fn spec_file_record(img: Seq<u8>, geo: VolumeGeometry, off: int) -> RecordView {
    RecordView {
        name: entry_name(img, off),
        extension: entry_extension(img, off),
        is_directory: false,
        size_bytes: entry_size(img, off) as u32,
        preview: spec_file_preview(
            img,
            geo,
            entry_starting_cluster(img, off),
            entry_size(img, off),
        ),
    }
}

/// The record reported for a folder entry at `off`.
pub open spec fn spec_folder_record(img: Seq<u8>, off: int) -> RecordView {
    RecordView {
        name: entry_name(img, off),
        extension: entry_extension(img, off),
        is_directory: true,
        size_bytes: 0,
        preview: None,
    }
}

/// The records a directory listing yields, reading 32-byte entries from
/// byte offset `off` of the image.
///
/// The listing ends when the next record would read past the image or when a
/// record's first byte is `0x00`. Deleted entries (`0xE5`), long-name
/// fragments (attribute `0x0F`) and folders with starting cluster 0 yield
/// nothing. Every other entry yields one record; a folder entry is followed
/// by the records of its subdirectory unless its name is `.` or `..`, its
/// starting cluster is below 2, or the depth budget `fuel` is spent.
pub open spec fn spec_scan_entries(
    img: Seq<u8>,
    geo: VolumeGeometry,
    off: int,
    fuel: nat,
) -> Seq<RecordView>
    decreases fuel, img.len() - off,
{
    if off < 0 || off + 32 > img.len() {
        Seq::empty()
    } else if img[off] == 0x00 {
        Seq::empty()
    } else if img[off] == 0xe5 || entry_attributes(img, off) == 0x0f {
        spec_scan_entries(img, geo, off + 32, fuel)
    } else if entry_is_directory(img, off) {
        let sc = entry_starting_cluster(img, off);
        if sc == 0 {
            spec_scan_entries(img, geo, off + 32, fuel)
        } else {
            let sub = if !is_dot_name(entry_name(img, off)) && sc >= 2 && fuel > 0 {
                spec_scan_entries(img, geo, spec_cluster_offset(geo, sc), (fuel - 1) as nat)
            } else {
                Seq::empty()
            };
            seq![spec_folder_record(img, off)] + sub
                + spec_scan_entries(img, geo, off + 32, fuel)
        }
    } else {
        seq![spec_file_record(img, geo, off)] + spec_scan_entries(img, geo, off + 32, fuel)
    }
}

/// The records a scan starting at `cluster` yields.
pub open spec fn spec_scan(
    img: Seq<u8>,
    geo: VolumeGeometry,
    cluster: int,
    fuel: nat,
) -> Seq<RecordView>
    recommends
        cluster >= 2,
{
    spec_scan_entries(img, geo, spec_cluster_offset(geo, cluster), fuel)
}

/// Absolute byte offset of a cluster's data.
pub fn cluster_offset(geo: &VolumeGeometry, cluster: u32) -> (r: u64)
    requires
        geo.wf(),
        cluster >= 2,
    ensures
        r as int == spec_cluster_offset(*geo, cluster as int),
{
    proof {
        let spc = geo.sectors_per_cluster as int;
        let bps = geo.bytes_per_sector as int;
        let rs = geo.reserved_sectors as int;
        let fc = geo.fat_count as int;
        let spf = geo.sectors_per_fat as int;
        assert(0 <= spc * bps <= 0xff * 0xffff) by (nonlinear_arith)
            requires
                0 <= spc <= 0xff,
                0 <= bps <= 0xffff,
        ;
        assert(0 <= rs * bps <= 0xffff * 0xffff) by (nonlinear_arith)
            requires
                0 <= rs <= 0xffff,
                0 <= bps <= 0xffff,
        ;
        assert(0 <= fc * spf * bps <= 0xff * 0xffffffff * 0xffff) by (nonlinear_arith)
            requires
                0 <= fc <= 0xff,
                0 <= spf <= 0xffffffff,
                0 <= bps <= 0xffff,
        ;
        let c = cluster as int;
        let cs = geo.cluster_size_bytes as int;
        assert(0 <= (c - 2) * cs <= 0xffffffff * (0xff * 0xffff)) by (nonlinear_arith)
            requires
                2 <= c <= 0xffffffff,
                0 <= cs <= 0xff * 0xffff,
        ;
    }
    geo.data_region_start_byte + (cluster - 2) as u64 * geo.cluster_size_bytes
}

/// Decode the 32-byte directory record at `off`.
pub fn parse_entry(image: &[u8], off: usize) -> (r: DirectoryEntry)
    requires
        off + 32 <= image@.len(),
    ensures
        r.name@ == entry_name(image@, off as int),
        r.extension@ == entry_extension(image@, off as int),
        r.is_directory == entry_is_directory(image@, off as int),
        r.is_deleted == (image@[off as int] == 0xe5),
        r.is_long_name_fragment == (entry_attributes(image@, off as int) == 0x0f),
        r.starting_cluster as int == entry_starting_cluster(image@, off as int),
        r.size_bytes as int == entry_size(image@, off as int),
{
    let total: usize = image.len();
    proof {
        assert(off + 32 <= total);
    }
    let name = strip_padded(image, off, 8);
    let extension = strip_padded(image, off + 8, 3);
    let attributes = image[off + 11];
    let high = read_u16_le(image, off + 20) as u32;
    let low = read_u16_le(image, off + 26) as u32;
    let starting_cluster = high * 0x10000 + low;
    let size_bytes = read_u32_le(image, off + 28);
    DirectoryEntry {
        name,
        extension,
        is_directory: attributes & 0x10 != 0,
        is_deleted: image[off] == 0xe5,
        is_long_name_fragment: attributes == 0x0f,
        starting_cluster,
        size_bytes,
    }
}

/// True when the name is exactly `.` or `..`.
fn is_dot_entry(name: &Vec<u8>) -> (r: bool)
    ensures
        r == is_dot_name(name@),
{
    let r = if name.len() == 1 {
        name[0] == 0x2e
    } else if name.len() == 2 {
        name[0] == 0x2e && name[1] == 0x2e
    } else {
        false
    };
    proof {
        if name@.len() == 1 && name@[0] == 0x2e {
            assert(name@ =~= seq![0x2eu8]);
        }
        if name@.len() == 2 && name@[0] == 0x2e && name@[1] == 0x2e {
            assert(name@ =~= seq![0x2eu8, 0x2eu8]);
        }
    }
    r
}

/// The content preview for a file entry, when one is owed.
fn file_preview(image: &[u8], geo: &VolumeGeometry, cluster: u32, size: u32) -> (r: Option<
    Vec<u8>,
>)
    requires
        geo.wf(),
    ensures
        (match r {
            Some(p) => spec_file_preview(image@, *geo, cluster as int, size as int)
                == Some(p@),
            None => spec_file_preview(image@, *geo, cluster as int, size as int) is None,
        }),
{
    let total: usize = image.len();
    if size == 0 || cluster < 2 {
        return None;
    }
    let fo = cluster_offset(geo, cluster);
    let n: u64 = if size > 64 {
        64
    } else {
        size as u64
    };
    if fo > u64::MAX - n {
        proof {
            assert(image@.len() <= usize::MAX);
        }
        return None;
    }
    if fo + n > total as u64 {
        return None;
    }
    Some(read_preview(image, fo as usize, n as usize))
}

/// Append the records of the directory listing that starts at byte `off`.
fn scan_at(image: &[u8], geo: &VolumeGeometry, off: u64, fuel: u32, out: &mut Vec<Record>)
    requires
        geo.wf(),
    ensures
        record_views(final(out)@) == record_views(old(out)@)
            + spec_scan_entries(image@, *geo, off as int, fuel as nat),
    decreases fuel, image@.len() - off,
{
    let ghost pre = old(out)@;
    let total: usize = image.len();
    if off > u64::MAX - 32 || off + 32 > total as u64 {
        proof {
            assert(record_views(pre) =~= record_views(pre)
                + spec_scan_entries(image@, *geo, off as int, fuel as nat));
        }
        return;
    }
    let idx = off as usize;
    let first = image[idx];
    if first == 0x00 {
        proof {
            assert(record_views(pre) =~= record_views(pre)
                + spec_scan_entries(image@, *geo, off as int, fuel as nat));
        }
        return;
    }
    let attributes = image[idx + 11];
    if first == 0xe5 || attributes == 0x0f {
        scan_at(image, geo, off + 32, fuel, out);
        return;
    }
    let entry = parse_entry(image, idx);
    if entry.is_directory {
        if entry.starting_cluster == 0 {
            scan_at(image, geo, off + 32, fuel, out);
            return;
        }
        let folder = Record {
            name: entry.name,
            extension: entry.extension,
            is_directory: true,
            size_bytes: 0,
            preview: None,
        };
        proof {
            assert(folder@ == spec_folder_record(image@, off as int));
        }
        let recurse = !is_dot_entry(&folder.name) && entry.starting_cluster >= 2 && fuel > 0;
        out.push(folder);
        proof {
            assert(record_views(out@) =~= record_views(pre)
                + seq![spec_folder_record(image@, off as int)]);
        }
        if recurse {
            let sub_off = cluster_offset(geo, entry.starting_cluster);
            scan_at(image, geo, sub_off, fuel - 1, out);
        }
        scan_at(image, geo, off + 32, fuel, out);
        proof {
            assert(record_views(out@) =~= record_views(pre)
                + spec_scan_entries(image@, *geo, off as int, fuel as nat));
        }
    } else {
        let preview = file_preview(image, geo, entry.starting_cluster, entry.size_bytes);
        let file = Record {
            name: entry.name,
            extension: entry.extension,
            is_directory: false,
            size_bytes: entry.size_bytes,
            preview,
        };
        proof {
            assert(file@ == spec_file_record(image@, *geo, off as int));
        }
        out.push(file);
        proof {
            assert(record_views(out@) =~= record_views(pre)
                + seq![spec_file_record(image@, *geo, off as int)]);
        }
        scan_at(image, geo, off + 32, fuel, out);
        proof {
            assert(record_views(out@) =~= record_views(pre)
                + spec_scan_entries(image@, *geo, off as int, fuel as nat));
        }
    }
}

/// A directory whose first entry byte is `0x00` yields zero records.
pub proof fn lemma_end_marker_yields_no_records(
    img: Seq<u8>,
    geo: VolumeGeometry,
    off: int,
    fuel: nat,
)
    requires
        0 <= off,
        off + 32 <= img.len(),
        img[off] == 0x00,
    ensures
        spec_scan_entries(img, geo, off, fuel) == Seq::<RecordView>::empty(),
{
}

/// A deleted entry (first byte `0xE5`) or a long-name fragment (attribute
/// byte `0x0F`) produces no record and no recursion: the listing continues
/// with the next record as if the entry were absent.
pub proof fn lemma_skipped_entry(img: Seq<u8>, geo: VolumeGeometry, off: int, fuel: nat)
    requires
        0 <= off,
        off + 32 <= img.len(),
        img[off] != 0x00,
        img[off] == 0xe5 || entry_attributes(img, off) == 0x0f,
    ensures
        spec_scan_entries(img, geo, off, fuel) == spec_scan_entries(img, geo, off + 32, fuel),
{
}

/// A directory-typed entry whose starting cluster is 0 produces no record
/// and no recursion.
pub proof fn lemma_zero_cluster_folder_skipped(
    img: Seq<u8>,
    geo: VolumeGeometry,
    off: int,
    fuel: nat,
)
    requires
        0 <= off,
        off + 32 <= img.len(),
        img[off] != 0x00,
        img[off] != 0xe5,
        entry_attributes(img, off) != 0x0f,
        entry_is_directory(img, off),
        entry_starting_cluster(img, off) == 0,
    ensures
        spec_scan_entries(img, geo, off, fuel) == spec_scan_entries(img, geo, off + 32, fuel),
{
}

/// A `.` or `..` entry is reported but never recursed into, whatever cluster
/// it references: the listing continues directly with the next record.
pub proof fn lemma_dot_entries_not_recursed(
    img: Seq<u8>,
    geo: VolumeGeometry,
    off: int,
    fuel: nat,
)
    requires
        0 <= off,
        off + 32 <= img.len(),
        img[off] != 0x00,
        img[off] != 0xe5,
        entry_attributes(img, off) != 0x0f,
        entry_is_directory(img, off),
        entry_starting_cluster(img, off) != 0,
        is_dot_name(entry_name(img, off)),
    ensures
        spec_scan_entries(img, geo, off, fuel) == seq![spec_folder_record(img, off)]
            + spec_scan_entries(img, geo, off + 32, fuel),
{
    assert(seq![spec_folder_record(img, off)] + Seq::<RecordView>::empty()
        + spec_scan_entries(img, geo, off + 32, fuel) =~= seq![spec_folder_record(img, off)]
        + spec_scan_entries(img, geo, off + 32, fuel));
}

/// A file content preview, where one exists, holds exactly
/// `min(declaredSize, 64)` bytes, and each byte equals the corresponding
/// source byte when that byte lies in the printable range `[32, 126]` and a
/// space otherwise.
pub proof fn lemma_preview_contents(img: Seq<u8>, geo: VolumeGeometry, cluster: int, size: int)
    requires
        spec_file_preview(img, geo, cluster, size) is Some,
    ensures
        ({
            let p = spec_file_preview(img, geo, cluster, size).unwrap();
            let n = if size > 64 { 64int } else { size };
            let fo = spec_cluster_offset(geo, cluster);
            &&& p.len() == n
            &&& forall|j: int| 0 <= j < n ==> p[j] == printable_or_space(img[fo + j])
        }),
{
}

/// Enumerate the directory tree that starts at `cluster`, depth-first.
///
/// The result holds one record per valid entry, in traversal order: a
/// folder's own record comes first, then the records of its subdirectory
/// (unless the entry is `.` or `..`, its cluster is reserved, or the depth
/// limit is spent), then the remaining entries of the current directory. A
/// record that would read past the image's end only ends the current
/// directory's listing.
pub fn scan(image: &[u8], geo: &VolumeGeometry, cluster: u32, depth_limit: u32) -> (r: Vec<
    Record,
>)
    requires
        geo.wf(),
        cluster >= 2,
    ensures
        record_views(r@) == spec_scan(image@, *geo, cluster as int, depth_limit as nat),
{
    let mut out: Vec<Record> = Vec::new();
    proof {
        assert(record_views(out@) =~= Seq::<RecordView>::empty());
    }
    let off = cluster_offset(geo, cluster);
    scan_at(image, geo, off, depth_limit, &mut out);
    proof {
        assert(record_views(out@) =~= spec_scan(
            image@,
            *geo,
            cluster as int,
            depth_limit as nat,
        ));
    }
    out
}

} // verus!
