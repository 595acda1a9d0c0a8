use vstd::prelude::*;

use crate::device::{spec_sector_bytes, spec_sectors_on_device, BlockDevice, SECTOR_BYTES};
use crate::errors::FsError;
use crate::geometry::{
    cluster_bytes, cluster_lba, fat_lba, root_dir_lba, root_dir_sector_count, spec_cluster_bytes,
    spec_cluster_lba, spec_fat_lba, spec_root_dir_lba, spec_root_dir_sector_count,
    PARTITION_START_LBA,
};

verus! {

/// Capacity of the in-memory root-directory mirror, in entries.
pub const ENTRY_COUNT: usize = 512;

/// Capacity of the in-memory allocation-table mirror, in 16-bit links.
pub const FAT_SIZE: usize = 256;

/// Capacity of the one-cluster scratch buffer, in bytes.
pub const BUFFER_BYTES: usize = 2048;

/// The allocation-table link that marks the last cluster of a file.
pub const END_OF_CHAIN: u16 = 0xffff;

/// The little-endian 16-bit value stored at byte offset `i`.
pub open spec fn spec_le16(s: Seq<u8>, i: int) -> int {
    s[i] + 0x100 * s[i + 1]
}

/// The little-endian 32-bit value stored at byte offset `i`.
pub open spec fn spec_le32(s: Seq<u8>, i: int) -> int {
    s[i] + 0x100 * s[i + 1] + 0x10000 * s[i + 2] + 0x1000000 * s[i + 3]
}

/// Reads the little-endian 16-bit value at byte offset `i`.
pub fn read_le16(b: &Vec<u8>, i: usize) -> (r: u16)
    requires
        i + 2 <= b@.len(),
    ensures
        r as int == spec_le16(b@, i as int),
{
    let n = b.len();
    assert(i + 2 <= n);
    b[i] as u16 + (b[i + 1] as u16) * 0x100
}

/// Reads the little-endian 32-bit value at byte offset `i`.
pub fn read_le32(b: &Vec<u8>, i: usize) -> (r: u32)
    requires
        i + 4 <= b@.len(),
    ensures
        r as int == spec_le32(b@, i as int),
{
    let n = b.len();
    assert(i + 4 <= n);
    b[i] as u32 + (b[i + 1] as u32) * 0x100 + (b[i + 2] as u32) * 0x10000
        + (b[i + 3] as u32) * 0x1000000
}

/// Copies `N` bytes starting at offset `off` into a fixed array.
pub fn read_bytes<const N: usize>(b: &Vec<u8>, off: usize) -> (r: [u8; N])
    requires
        off + N <= b@.len(),
    ensures
        r@ == b@.subrange(off as int, off + N),
{
    let n = b.len();
    assert(off + N <= n);
    let mut r: [u8; N] = [0; N];
    let mut k: usize = 0;
    while k < N
        invariant
            k <= N,
            off + N <= b@.len(),
            off + N <= usize::MAX,
            r@.len() == N as int,
            forall|j: int| 0 <= j < k ==> r@[j] == b@[off + j],
        decreases N - k,
    {
        r[k] = b[off + k];
        k = k + 1;
    }
    proof {
        assert(r@ =~= b@.subrange(off as int, off + N));
    }
    r
}

/// The boot sector's BIOS parameter block and extended boot record, read
/// verbatim from the first sector of the partition.
#[derive(Clone, Copy, Debug, PartialEq, Eq)]
pub struct Header {
    pub boot_jump_instructions: [u8; 3],
    pub oem_identifier: [u8; 8],
    pub bytes_per_sector: u16,
    pub sectors_per_cluster: u8,
    pub reserved_sectors: u16,
    pub fat_count: u8,
    pub dir_entries_count: u16,
    pub total_sectors: u16,
    pub media_descriptor_type: u8,
    pub sectors_per_fat: u16,
    pub sectors_per_track: u16,
    pub heads: u16,
    pub hidden_sectors: u32,
    pub large_sector_count: u32,
    pub drive_number: u8,
    pub reserved: u8,
    pub signature: u8,
    pub volume_id: u32,
    pub volume_label: [u8; 11],
    pub system_id: [u8; 8],
}

/// Whether `h` holds exactly the fields stored in boot-sector bytes `s`.
pub open spec fn spec_header_matches(h: Header, s: Seq<u8>) -> bool {
    &&& h.boot_jump_instructions@ == s.subrange(0, 3)
    &&& h.oem_identifier@ == s.subrange(3, 11)
    &&& h.bytes_per_sector as int == spec_le16(s, 11)
    &&& h.sectors_per_cluster == s[13]
    &&& h.reserved_sectors as int == spec_le16(s, 14)
    &&& h.fat_count == s[16]
    &&& h.dir_entries_count as int == spec_le16(s, 17)
    &&& h.total_sectors as int == spec_le16(s, 19)
    &&& h.media_descriptor_type == s[21]
    &&& h.sectors_per_fat as int == spec_le16(s, 22)
    &&& h.sectors_per_track as int == spec_le16(s, 24)
    &&& h.heads as int == spec_le16(s, 26)
    &&& h.hidden_sectors as int == spec_le32(s, 28)
    &&& h.large_sector_count as int == spec_le32(s, 32)
    &&& h.drive_number == s[36]
    &&& h.reserved == s[37]
    &&& h.signature == s[38]
    &&& h.volume_id as int == spec_le32(s, 39)
    &&& h.volume_label@ == s.subrange(43, 54)
    &&& h.system_id@ == s.subrange(54, 62)
}

/// Whether the geometry fields of `h` are plausible: the sector width must
/// equal the device's, and a volume needs at least one sector per cluster,
/// one allocation-table copy and one sector per table.
pub open spec fn spec_plausible(h: Header) -> bool {
    &&& h.bytes_per_sector == SECTOR_BYTES
    &&& h.sectors_per_cluster >= 1
    &&& h.fat_count >= 1
    &&& h.sectors_per_fat >= 1
}

/// `spec_plausible` stated directly over the boot-sector bytes.
pub open spec fn spec_plausible_bytes(s: Seq<u8>) -> bool {
    &&& spec_le16(s, 11) == SECTOR_BYTES
    &&& s[13] >= 1
    &&& s[16] >= 1
    &&& spec_le16(s, 22) >= 1
}

impl Header {
    /// The all-zero header a driver starts with before any load.
    pub fn empty() -> (h: Header)
        ensures
            h.bytes_per_sector == 0,
            h.sectors_per_cluster == 0,
            h.reserved_sectors == 0,
            h.fat_count == 0,
            h.dir_entries_count == 0,
            h.total_sectors == 0,
            h.media_descriptor_type == 0,
            h.sectors_per_fat == 0,
            h.sectors_per_track == 0,
            h.heads == 0,
            h.hidden_sectors == 0,
            h.large_sector_count == 0,
            h.drive_number == 0,
            h.reserved == 0,
            h.signature == 0,
            h.volume_id == 0,
            forall|i: int| 0 <= i < 3 ==> h.boot_jump_instructions@[i] == 0,
            forall|i: int| 0 <= i < 8 ==> h.oem_identifier@[i] == 0,
            forall|i: int| 0 <= i < 11 ==> h.volume_label@[i] == 0,
            forall|i: int| 0 <= i < 8 ==> h.system_id@[i] == 0,
            !spec_plausible(h),
    {
        Header {
            boot_jump_instructions: [0; 3],
            oem_identifier: [0; 8],
            bytes_per_sector: 0,
            sectors_per_cluster: 0,
            reserved_sectors: 0,
            fat_count: 0,
            dir_entries_count: 0,
            total_sectors: 0,
            media_descriptor_type: 0,
            sectors_per_fat: 0,
            sectors_per_track: 0,
            heads: 0,
            hidden_sectors: 0,
            large_sector_count: 0,
            drive_number: 0,
            reserved: 0,
            signature: 0,
            volume_id: 0,
            volume_label: [0; 11],
            system_id: [0; 8],
        }
    }

    /// Parses a boot sector.
    pub fn parse(sector: &Vec<u8>) -> (h: Header)
        requires
            sector@.len() >= 62,
        ensures
            spec_header_matches(h, sector@),
    {
        Header {
            boot_jump_instructions: read_bytes::<3>(sector, 0),
            oem_identifier: read_bytes::<8>(sector, 3),
            bytes_per_sector: read_le16(sector, 11),
            sectors_per_cluster: sector[13],
            reserved_sectors: read_le16(sector, 14),
            fat_count: sector[16],
            dir_entries_count: read_le16(sector, 17),
            total_sectors: read_le16(sector, 19),
            media_descriptor_type: sector[21],
            sectors_per_fat: read_le16(sector, 22),
            sectors_per_track: read_le16(sector, 24),
            heads: read_le16(sector, 26),
            hidden_sectors: read_le32(sector, 28),
            large_sector_count: read_le32(sector, 32),
            drive_number: sector[36],
            reserved: sector[37],
            signature: sector[38],
            volume_id: read_le32(sector, 39),
            volume_label: read_bytes::<11>(sector, 43),
            system_id: read_bytes::<8>(sector, 54),
        }
    }
}

/// One 32-byte root-directory record: an 8.3 name, attributes, timestamps,
/// the file's first cluster and its size in bytes.
///
/// An entry whose first name byte is the null octet is a free slot. Only the
/// low half of the cluster number is meaningful on a 16-bit volume; the high
/// half is kept verbatim and ignored.
#[derive(Clone, Copy, Debug, PartialEq, Eq)]
pub struct Entry {
    pub name: [u8; 11],
    pub attributes: u8,
    pub reserved: u8,
    pub created_time_tenths: u8,
    pub created_time: u16,
    pub created_date: u16,
    pub accessed_date: u16,
    pub first_cluster_high: u16,
    pub modified_time: u16,
    pub modified_date: u16,
    pub first_cluster_low: u16,
    pub size: u32,
}

/// Whether `e` holds exactly the fields of the 32-byte record stored at byte
/// offset `off` of `s`.
pub open spec fn spec_entry_matches(e: Entry, s: Seq<u8>, off: int) -> bool {
    &&& e.name@ == s.subrange(off, off + 11)
    &&& e.attributes == s[off + 11]
    &&& e.reserved == s[off + 12]
    &&& e.created_time_tenths == s[off + 13]
    &&& e.created_time as int == spec_le16(s, off + 14)
    &&& e.created_date as int == spec_le16(s, off + 16)
    &&& e.accessed_date as int == spec_le16(s, off + 18)
    &&& e.first_cluster_high as int == spec_le16(s, off + 20)
    &&& e.modified_time as int == spec_le16(s, off + 22)
    &&& e.modified_date as int == spec_le16(s, off + 24)
    &&& e.first_cluster_low as int == spec_le16(s, off + 26)
    &&& e.size as int == spec_le32(s, off + 28)
}

/// Whether `e` is a free slot: its first name byte is the null octet.
pub open spec fn spec_entry_free(e: Entry) -> bool {
    e.name@[0] == 0
}

impl Entry {
    /// The all-zero entry: a free slot.
    pub fn empty() -> (e: Entry)
        ensures
            forall|i: int| 0 <= i < 11 ==> e.name@[i] == 0,
            spec_entry_free(e),
            e.attributes == 0,
            e.reserved == 0,
            e.created_time_tenths == 0,
            e.created_time == 0,
            e.created_date == 0,
            e.accessed_date == 0,
            e.first_cluster_high == 0,
            e.modified_time == 0,
            e.modified_date == 0,
            e.first_cluster_low == 0,
            e.size == 0,
    {
        Entry {
            name: [0; 11],
            attributes: 0,
            reserved: 0,
            created_time_tenths: 0,
            created_time: 0,
            created_date: 0,
            accessed_date: 0,
            first_cluster_high: 0,
            modified_time: 0,
            modified_date: 0,
            first_cluster_low: 0,
            size: 0,
        }
    }

    /// Parses the 32-byte record stored at byte offset `off` of `bytes`.
    pub fn parse(bytes: &Vec<u8>, off: usize) -> (e: Entry)
        requires
            off + 32 <= bytes@.len(),
        ensures
            spec_entry_matches(e, bytes@, off as int),
    {
        let n = bytes.len();
        assert(off + 32 <= n);
        Entry {
            name: read_bytes::<11>(bytes, off),
            attributes: bytes[off + 11],
            reserved: bytes[off + 12],
            created_time_tenths: bytes[off + 13],
            created_time: read_le16(bytes, off + 14),
            created_date: read_le16(bytes, off + 16),
            accessed_date: read_le16(bytes, off + 18),
            first_cluster_high: read_le16(bytes, off + 20),
            modified_time: read_le16(bytes, off + 22),
            modified_date: read_le16(bytes, off + 24),
            first_cluster_low: read_le16(bytes, off + 26),
            size: read_le32(bytes, off + 28),
        }
    }
}

/// Uppercases one byte as ASCII: a lowercase letter loses 0x20, anything
/// else is unchanged.
pub open spec fn spec_upper(b: u8) -> u8 {
    if 97 <= b <= 122 {
        (b - 32) as u8
    } else {
        b
    }
}

/// The query right-padded with ASCII spaces to the 11-byte 8.3 width.
pub open spec fn spec_pad_query(q: Seq<u8>) -> Seq<u8>
    recommends
        q.len() <= 11,
{
    q + Seq::new((11 - q.len()) as nat, |i: int| 32u8)
}

/// Whether query `q` names the stored 11-byte name `n`: the query fits the
/// 8.3 width and, once space-padded to it, equals `n` position by position
/// under ASCII uppercasing.
pub open spec fn spec_name_matches(q: Seq<u8>, n: Seq<u8>) -> bool {
    &&& q.len() <= 11
    &&& n.len() == 11
    &&& forall|i: int| 0 <= i < 11 ==> spec_upper(spec_pad_query(q)[i]) == spec_upper(n[i])
}

/// Whether `e` answers query `q`: it is not a free slot and its name matches.
pub open spec fn spec_entry_is_match(e: Entry, q: Seq<u8>) -> bool {
    !spec_entry_free(e) && spec_name_matches(q, e.name@)
}

/// The first entry answering `q`, scanning in directory order.
pub open spec fn spec_find_match(s: Seq<Entry>, q: Seq<u8>) -> Option<Entry>
    decreases s.len(),
{
    if s.len() == 0 {
        None
    } else if spec_entry_is_match(s[0], q) {
        Some(s[0])
    } else {
        spec_find_match(s.drop_first(), q)
    }
}

/// Uppercases one byte as ASCII.
pub fn upper_byte(b: u8) -> (r: u8)
    ensures
        r == spec_upper(b),
{
    if b >= 97 && b <= 122 {
        b - 32
    } else {
        b
    }
}

/// Decides `spec_name_matches(query@, stored@)`.
pub fn name_matches(query: &Vec<u8>, stored: &[u8; 11]) -> (r: bool)
    ensures
        r == spec_name_matches(query@, stored@),
{
    let qlen = query.len();
    if qlen > 11 {
        return false;
    }
    let mut i: usize = 0;
    while i < 11
        invariant
            i <= 11,
            qlen == query@.len() <= 11,
            stored@.len() == 11,
            forall|j: int|
                0 <= j < i ==> spec_upper(spec_pad_query(query@)[j]) == spec_upper(stored@[j]),
        decreases 11 - i,
    {
        let qb: u8 = if i < qlen {
            query[i]
        } else {
            32
        };
        assert(qb == spec_pad_query(query@)[i as int]);
        if upper_byte(qb) != upper_byte(stored[i]) {
            return false;
        }
        i = i + 1;
    }
    true
}

/// A successful lookup never yields a free slot.
///
/// This holds of every directory and every query: whatever `spec_find_match`
/// returns answered the query, and a free slot answers none.
pub proof fn lemma_search_never_returns_free(s: Seq<Entry>, q: Seq<u8>, e: Entry)
    requires
        spec_find_match(s, q) == Some(e),
    ensures
        !spec_entry_free(e),
    decreases s.len(),
{
    if s.len() == 0 {
    } else if spec_entry_is_match(s[0], q) {
    } else {
        lemma_search_never_returns_free(s.drop_first(), q, e);
    }
}

/// Over a directory holding only free slots, every lookup comes back empty.
pub proof fn lemma_search_empty_directory(s: Seq<Entry>, q: Seq<u8>)
    requires
        forall|i: int| 0 <= i < s.len() ==> spec_entry_free(#[trigger] s[i]),
    ensures
        spec_find_match(s, q) is None,
    decreases s.len(),
{
    if s.len() == 0 {
    } else {
        assert(!spec_entry_is_match(s[0], q));
        assert(forall|i: int|
            0 <= i < s.drop_first().len() ==> spec_entry_free(#[trigger] s.drop_first()[i]));
        lemma_search_empty_directory(s.drop_first(), q);
    }
}

/// Whether two queries are the same name up to ASCII case.
pub open spec fn spec_same_ignoring_case(a: Seq<u8>, b: Seq<u8>) -> bool {
    &&& a.len() == b.len()
    &&& forall|i: int| 0 <= i < a.len() ==> spec_upper(a[i]) == spec_upper(b[i])
}

/// Two queries equal up to ASCII case match exactly the same stored names.
pub proof fn lemma_name_match_ignores_case(q1: Seq<u8>, q2: Seq<u8>, n: Seq<u8>)
    requires
        spec_same_ignoring_case(q1, q2),
    ensures
        spec_name_matches(q1, n) == spec_name_matches(q2, n),
{
    assert forall|i: int| 0 <= i < 11 implies spec_upper(spec_pad_query(q1)[i]) == spec_upper(
        spec_pad_query(q2)[i],
    ) by {
        if i < q1.len() {
        } else {
            assert(spec_pad_query(q1)[i] == 32u8);
            assert(spec_pad_query(q2)[i] == 32u8);
        }
    }
}

/// The search is case-insensitive: two queries that are the same name up to
/// ASCII case resolve to the same entry in every directory.
pub proof fn lemma_search_case_insensitive(s: Seq<Entry>, q1: Seq<u8>, q2: Seq<u8>)
    requires
        spec_same_ignoring_case(q1, q2),
    ensures
        spec_find_match(s, q1) == spec_find_match(s, q2),
    decreases s.len(),
{
    if s.len() == 0 {
    } else {
        lemma_name_match_ignores_case(q1, q2, s[0].name@);
        lemma_search_case_insensitive(s.drop_first(), q1, q2);
    }
}

/// The cluster chain starting at `c` in allocation table `t`, or `None` when
/// it is corrupt: a link leaves `[2, t.len())`, or the end-of-chain mark is
/// not reached within `fuel` links.
///
/// Every well-formed chain is found with `fuel` equal to the table's size:
/// a longer walk would have to revisit a cluster, and a revisited cluster
/// loops forever, because each link is a function of the cluster alone.
pub open spec fn spec_chain_from(t: Seq<u16>, c: u16, fuel: nat) -> Option<Seq<u16>>
    decreases fuel,
{
    if !(2 <= c && (c as int) < t.len()) {
        None
    } else if t[c as int] == END_OF_CHAIN {
        Some(seq![c])
    } else if fuel == 0 {
        None
    } else {
        match spec_chain_from(t, t[c as int], (fuel - 1) as nat) {
            Some(rest) => Some(seq![c] + rest),
            None => None,
        }
    }
}

/// The chain of a file starting at cluster `c`, with the iteration guard set
/// to the table mirror's capacity.
pub open spec fn spec_chain(t: Seq<u16>, c: u16) -> Option<Seq<u16>> {
    spec_chain_from(t, c, FAT_SIZE as nat)
}

/// A set of clusters that is closed under the table's links and holds no
/// end-of-chain mark traps every walk that enters it: chain reading reports
/// corruption instead of looping forever, whatever the iteration guard.
pub proof fn lemma_cycle_chain_corrupt(t: Seq<u16>, s: Set<u16>, start: u16, fuel: nat)
    requires
        s.contains(start),
        forall|c: u16| #[trigger]
            s.contains(c) ==> 2 <= c && (c as int) < t.len() && t[c as int] != END_OF_CHAIN
                && s.contains(t[c as int]),
    ensures
        spec_chain_from(t, start, fuel) is None,
    decreases fuel,
{
    if fuel > 0 {
        lemma_cycle_chain_corrupt(t, s, t[start as int], (fuel - 1) as nat);
    }
}

/// The bytes of the clusters `ch`, in chain order, as laid out on the device.
pub open spec fn spec_chain_bytes(data: Seq<u8>, h: Header, ch: Seq<u16>) -> Seq<u8>
    decreases ch.len(),
{
    if ch.len() == 0 {
        Seq::empty()
    } else {
        spec_chain_bytes(data, h, ch.drop_last()) + spec_sector_bytes(
            data,
            spec_cluster_lba(h, ch.last() as int),
            h.sectors_per_cluster as int,
        )
    }
}

/// Whether every cluster of `ch` lies entirely on a device of `len` bytes.
pub open spec fn spec_chain_on_device(len: int, h: Header, ch: Seq<u16>) -> bool {
    forall|k: int|
        0 <= k < ch.len() ==> spec_sectors_on_device(
            len,
            spec_cluster_lba(h, #[trigger] ch[k] as int),
            h.sectors_per_cluster as int,
        )
}

/// A chain of `n` clusters on the device occupies exactly `n` cluster-sizes
/// of bytes.
proof fn lemma_chain_bytes_len(data: Seq<u8>, h: Header, ch: Seq<u16>)
    requires
        spec_plausible(h),
        forall|k: int| 0 <= k < ch.len() ==> 2 <= #[trigger] ch[k],
        spec_chain_on_device(data.len() as int, h, ch),
    ensures
        spec_chain_bytes(data, h, ch).len() == ch.len() * spec_cluster_bytes(h),
    decreases ch.len(),
{
    if ch.len() == 0 {
        assert(0 * spec_cluster_bytes(h) == 0) by (nonlinear_arith);
    } else {
        assert(forall|k: int|
            0 <= k < ch.drop_last().len() ==> 2 <= #[trigger] ch.drop_last()[k]);
        assert(spec_chain_on_device(data.len() as int, h, ch.drop_last())) by {
            assert(forall|k: int|
                0 <= k < ch.drop_last().len() ==> #[trigger] ch.drop_last()[k] == ch[k]);
        }
        lemma_chain_bytes_len(data, h, ch.drop_last());
        let cb = spec_cluster_bytes(h);
        let spc = h.sectors_per_cluster as int;
        let last = ch.last();
        let last_lba = spec_cluster_lba(h, last as int);
        assert(ch[ch.len() - 1] == last);
        assert(spec_sectors_on_device(data.len() as int, last_lba, spc));
        assert(h.sectors_per_fat as int * h.fat_count as int >= 0) by (nonlinear_arith);
        assert((last as int - 2) * spc >= 0) by (nonlinear_arith)
            requires
                last as int >= 2,
                spc >= 0,
        ;
        assert(last_lba >= 0);
        assert((last_lba + spc) * 512 == last_lba * 512 + spc * 512) by (nonlinear_arith);
        assert(last_lba * 512 >= 0) by (nonlinear_arith)
            requires
                last_lba >= 0,
        ;
        assert(spc * (h.bytes_per_sector as int) == spc * 512) by (nonlinear_arith)
            requires
                h.bytes_per_sector as int == 512,
        ;
        assert(cb == spc * 512);
        assert(spec_sector_bytes(data, last_lba, spc).len() == spc * 512);
        assert(spec_chain_bytes(data, h, ch).len() == spec_chain_bytes(
            data,
            h,
            ch.drop_last(),
        ).len() + spc * 512);
        assert((ch.len() - 1) * cb + cb == ch.len() * cb) by (nonlinear_arith);
    }
}

/// The filesystem driver: the boot-sector header, the root-directory mirror,
/// the allocation-table mirror and a one-cluster scratch buffer, all of fixed
/// capacity.
///
/// `load_header`, `load_table` and `load_entries` populate the mirrors on
/// demand; each may be re-invoked and always overwrites in place, and each
/// leaves the driver untouched when it fails.
pub struct FatDriver {
    pub header: Header,
    pub entries: Vec<Entry>,
    pub table: [u16; FAT_SIZE],
    pub buffer: [u8; BUFFER_BYTES],
}

/// Whether `e` should be kept by a directory listing: it is not a free slot.
pub open spec fn spec_entry_used(e: Entry) -> bool {
    !spec_entry_free(e)
}

impl FatDriver {
    /// The directory mirror never exceeds its fixed capacity.
    pub open spec fn wf(self) -> bool {
        self.entries@.len() <= ENTRY_COUNT
    }

    /// A driver with all-zero contents, as the kernel constructs once at
    /// start.
    pub fn new() -> (d: FatDriver)
        ensures
            d.wf(),
            d.entries@.len() == 0,
            !spec_plausible(d.header),
            forall|i: int| 0 <= i < FAT_SIZE ==> d.table@[i] == 0,
            forall|i: int| 0 <= i < BUFFER_BYTES ==> d.buffer@[i] == 0,
    {
        FatDriver {
            header: Header::empty(),
            entries: Vec::new(),
            table: [0; FAT_SIZE],
            buffer: [0; BUFFER_BYTES],
        }
    }

    /// Reads the boot sector from the fixed partition start and parses it
    /// into the header record.
    ///
    /// The geometry fields are validated (`CorruptHeader` when implausible);
    /// the boot signature byte is kept but not checked.
    pub fn load_header(&mut self, disk: &BlockDevice) -> (r: Result<(), FsError>)
        ensures
            final(self).entries == old(self).entries,
            final(self).table == old(self).table,
            final(self).buffer == old(self).buffer,
            r is Err ==> *final(self) == *old(self),
            ({
                let on_device = spec_sectors_on_device(
                    disk.data@.len() as int,
                    PARTITION_START_LBA as int,
                    1,
                );
                let sector = spec_sector_bytes(disk.data@, PARTITION_START_LBA as int, 1);
                &&& (r is Ok <==> on_device && spec_plausible_bytes(sector))
                &&& (r is Ok ==> spec_header_matches(final(self).header, sector)
                    && spec_plausible(final(self).header))
                &&& (r == Result::<(), FsError>::Err(FsError::DeviceError) <==> !on_device)
                &&& (r == Result::<(), FsError>::Err(FsError::CorruptHeader) <==> on_device
                    && !spec_plausible_bytes(sector))
            }),
    {
        let sector = match disk.read_sectors(PARTITION_START_LBA, 1) {
            Ok(s) => s,
            Err(_) => {
                return Err(FsError::DeviceError);
            },
        };
        assert(sector@.len() == 512);
        let h = Header::parse(&sector);
        if !(h.bytes_per_sector as usize == SECTOR_BYTES && h.sectors_per_cluster >= 1
            && h.fat_count >= 1 && h.sectors_per_fat >= 1) {
            return Err(FsError::CorruptHeader);
        }
        self.header = h;
        Ok(())
    }

    /// Reads the first allocation-table copy into the table mirror: exactly
    /// `sectors_per_fat` sectors starting right after the reserved sectors.
    ///
    /// A table larger than the mirror is refused with `CapacityExceeded`
    /// rather than truncated. Links past the table's on-disk size keep their
    /// previous mirror contents.
    pub fn load_table(&mut self, disk: &BlockDevice) -> (r: Result<(), FsError>)
        ensures
            final(self).header == old(self).header,
            final(self).entries == old(self).entries,
            final(self).buffer == old(self).buffer,
            r is Err ==> *final(self) == *old(self),
            ({
                let h = old(self).header;
                let n_links = h.sectors_per_fat * (h.bytes_per_sector / 2) as int;
                let on_device = spec_sectors_on_device(
                    disk.data@.len() as int,
                    spec_fat_lba(h),
                    h.sectors_per_fat as int,
                );
                let fat_bytes = spec_sector_bytes(
                    disk.data@,
                    spec_fat_lba(h),
                    h.sectors_per_fat as int,
                );
                &&& (r is Ok <==> spec_plausible(h) && n_links <= FAT_SIZE && on_device)
                &&& (r == Result::<(), FsError>::Err(FsError::CorruptHeader) <==> !spec_plausible(
                    h,
                ))
                &&& (r == Result::<(), FsError>::Err(FsError::CapacityExceeded) <==> spec_plausible(
                    h,
                ) && n_links > FAT_SIZE)
                &&& (r == Result::<(), FsError>::Err(FsError::DeviceError) <==> spec_plausible(h)
                    && n_links <= FAT_SIZE && !on_device)
                &&& (r is Ok ==> {
                    &&& forall|i: int|
                        0 <= i < n_links ==> final(self).table@[i] as int == spec_le16(
                            fat_bytes,
                            2 * i,
                        )
                    &&& forall|i: int|
                        n_links <= i < FAT_SIZE ==> final(self).table@[i] == old(self).table@[i]
                })
            }),
    {
        let h = self.header;
        if !(h.bytes_per_sector as usize == SECTOR_BYTES && h.sectors_per_cluster >= 1
            && h.fat_count >= 1 && h.sectors_per_fat >= 1) {
            return Err(FsError::CorruptHeader);
        }
        let links_per_sector: usize = h.bytes_per_sector as usize / 2;
        proof {
            assert(h.sectors_per_fat as int * links_per_sector as int
                == h.sectors_per_fat as int * 256) by (nonlinear_arith)
                requires
                    links_per_sector as int == 256,
            ;
            assert(h.sectors_per_fat as int * 256 <= 0xffff * 256);
        }
        let n_links: usize = (h.sectors_per_fat as usize) * links_per_sector;
        if n_links > FAT_SIZE {
            return Err(FsError::CapacityExceeded);
        }
        let lba = fat_lba(&h);
        let fat_bytes = match disk.read_sectors(lba, h.sectors_per_fat) {
            Ok(b) => b,
            Err(_) => {
                return Err(FsError::DeviceError);
            },
        };
        proof {
            assert(fat_bytes@.len() == h.sectors_per_fat as int * 512) by (nonlinear_arith)
                requires
                    fat_bytes@.len() == (spec_fat_lba(h) + h.sectors_per_fat as int) * 512
                        - spec_fat_lba(h) * 512,
            ;
            assert(n_links as int * 2 == h.sectors_per_fat as int * 512) by (nonlinear_arith)
                requires
                    n_links as int == h.sectors_per_fat as int * 256,
            ;
        }
        let mut i: usize = 0;
        while i < n_links
            invariant
                i <= n_links,
                n_links <= FAT_SIZE,
                self.table@.len() == FAT_SIZE as int,
                2 * n_links as int <= fat_bytes@.len(),
                forall|j: int| 0 <= j < i ==> self.table@[j] as int == spec_le16(fat_bytes@, 2 * j),
                forall|j: int| i <= j < FAT_SIZE ==> self.table@[j] == old(self).table@[j],
                self.header == old(self).header,
                self.entries == old(self).entries,
                self.buffer == old(self).buffer,
            decreases n_links - i,
        {
            self.table[i] = read_le16(&fat_bytes, 2 * i);
            i = i + 1;
        }
        Ok(())
    }

    /// Reads the root directory into the directory mirror: the declared
    /// number of entries, from the sectors right after the allocation-table
    /// copies, rounding the sector count up when the directory's byte size is
    /// not sector-aligned.
    ///
    /// A directory declared larger than the mirror is refused with
    /// `CapacityExceeded` instead of overflowing it.
    pub fn load_entries(&mut self, disk: &BlockDevice) -> (r: Result<(), FsError>)
        requires
            old(self).wf(),
        ensures
            final(self).wf(),
            final(self).header == old(self).header,
            final(self).table == old(self).table,
            final(self).buffer == old(self).buffer,
            r is Err ==> *final(self) == *old(self),
            ({
                let h = old(self).header;
                let count = h.dir_entries_count as int;
                let sectors = spec_root_dir_sector_count(h);
                let on_device = spec_sectors_on_device(
                    disk.data@.len() as int,
                    spec_root_dir_lba(h),
                    sectors,
                );
                let dir_bytes = spec_sector_bytes(disk.data@, spec_root_dir_lba(h), sectors);
                &&& (r is Ok <==> spec_plausible(h) && count <= ENTRY_COUNT && on_device)
                &&& (r == Result::<(), FsError>::Err(FsError::CorruptHeader) <==> !spec_plausible(
                    h,
                ))
                &&& (r == Result::<(), FsError>::Err(FsError::CapacityExceeded) <==> spec_plausible(
                    h,
                ) && count > ENTRY_COUNT)
                &&& (r == Result::<(), FsError>::Err(FsError::DeviceError) <==> spec_plausible(h)
                    && count <= ENTRY_COUNT && !on_device)
                &&& (r is Ok ==> {
                    &&& final(self).entries@.len() == count
                    &&& forall|i: int|
                        0 <= i < count ==> spec_entry_matches(
                            final(self).entries@[i],
                            dir_bytes,
                            32 * i,
                        )
                })
            }),
    {
        let h = self.header;
        if !(h.bytes_per_sector as usize == SECTOR_BYTES && h.sectors_per_cluster >= 1
            && h.fat_count >= 1 && h.sectors_per_fat >= 1) {
            return Err(FsError::CorruptHeader);
        }
        let count: usize = h.dir_entries_count as usize;
        if count > ENTRY_COUNT {
            return Err(FsError::CapacityExceeded);
        }
        let sectors: u64 = root_dir_sector_count(&h);
        assert(sectors <= 33);
        let lba = root_dir_lba(&h);
        let dir_bytes = match disk.read_sectors(lba, sectors as u16) {
            Ok(b) => b,
            Err(_) => {
                return Err(FsError::DeviceError);
            },
        };
        proof {
            assert(dir_bytes@.len() == spec_root_dir_sector_count(h) * 512) by (nonlinear_arith)
                requires
                    dir_bytes@.len() == (spec_root_dir_lba(h) + spec_root_dir_sector_count(h))
                        * 512 - spec_root_dir_lba(h) * 512,
            ;
            assert(spec_root_dir_sector_count(h) * 512 >= 32 * count) by (nonlinear_arith)
                requires
                    spec_root_dir_sector_count(h) == (32 * count + 511) / 512,
                    count >= 0,
            ;
        }
        let mut fresh: Vec<Entry> = Vec::new();
        let mut i: usize = 0;
        while i < count
            invariant
                i <= count,
                count <= ENTRY_COUNT,
                32 * count as int <= dir_bytes@.len(),
                fresh@.len() == i as int,
                forall|j: int| 0 <= j < i ==> spec_entry_matches(fresh@[j], dir_bytes@, 32 * j),
            decreases count - i,
        {
            let e = Entry::parse(&dir_bytes, 32 * i);
            fresh.push(e);
            i = i + 1;
        }
        self.entries = fresh;
        Ok(())
    }

    /// Returns the used (non-free) directory entries, in directory order.
    pub fn list_entries(&self) -> (r: Vec<Entry>)
        ensures
            r@ == self.entries@.filter(|e: Entry| spec_entry_used(e)),
    {
        let mut r: Vec<Entry> = Vec::new();
        let n = self.entries.len();
        let mut i: usize = 0;
        proof {
            reveal(Seq::filter);
            assert(self.entries@.take(0) =~= Seq::<Entry>::empty());
        }
        while i < n
            invariant
                i <= n,
                n == self.entries@.len(),
                r@ == self.entries@.take(i as int).filter(|e: Entry| spec_entry_used(e)),
            decreases n - i,
        {
            let e = self.entries[i];
            proof {
                reveal(Seq::filter);
                assert(self.entries@.take(i + 1).drop_last() =~= self.entries@.take(i as int));
                assert(self.entries@.take(i + 1).last() == self.entries@[i as int]);
            }
            if e.name[0] != 0 {
                r.push(e);
            }
            i = i + 1;
        }
        proof {
            assert(self.entries@.take(n as int) =~= self.entries@);
        }
        r
    }

    /// Looks a name up in the loaded directory: a linear scan that skips
    /// free slots and compares space-padded 8.3 names case-insensitively,
    /// returning the first match in directory order, or `EntryNotFound`.
    pub fn search_file(&self, name: &Vec<u8>) -> (r: Result<Entry, FsError>)
        ensures
            r is Ok <==> spec_find_match(self.entries@, name@) is Some,
            (r matches Ok(e) ==> spec_find_match(self.entries@, name@) == Some(e)
                && !spec_entry_free(e)),
            (r matches Err(err) ==> err == FsError::EntryNotFound),
    {
        let n = self.entries.len();
        let mut i: usize = 0;
        proof {
            assert(self.entries@.skip(0) =~= self.entries@);
        }
        while i < n
            invariant
                i <= n,
                n == self.entries@.len(),
                spec_find_match(self.entries@, name@) == spec_find_match(
                    self.entries@.skip(i as int),
                    name@,
                ),
            decreases n - i,
        {
            let e = &self.entries[i];
            proof {
                assert(self.entries@.skip(i as int)[0] == self.entries@[i as int]);
                assert(self.entries@.skip(i as int).drop_first() =~= self.entries@.skip(i + 1));
            }
            if e.name[0] != 0 && name_matches(name, &e.name) {
                return Ok(self.entries[i]);
            }
            proof {
                assert(!spec_entry_is_match(self.entries@[i as int], name@));
            }
            i = i + 1;
        }
        proof {
            assert(self.entries@.skip(n as int) =~= Seq::<Entry>::empty());
        }
        Err(FsError::EntryNotFound)
    }

    /// Walks the allocation table from `first_cluster`, collecting the file's
    /// clusters in order.
    ///
    /// The walk stops at the end-of-chain mark, and reports `ChainCorrupt`
    /// when a link leaves the table's bounds or the mark is not reached
    /// within the table-capacity guard, so it terminates on corrupt media.
    pub fn cluster_chain(&self, first_cluster: u16) -> (r: Result<Vec<u16>, FsError>)
        ensures
            r is Ok <==> spec_chain(self.table@, first_cluster) is Some,
            (r matches Ok(ch) ==> {
                &&& spec_chain(self.table@, first_cluster) == Some(ch@)
                &&& ch@.len() <= FAT_SIZE + 1
                &&& forall|k: int|
                    0 <= k < ch@.len() ==> 2 <= #[trigger] ch@[k] && (ch@[k] as int) < FAT_SIZE
            }),
            (r matches Err(e) ==> e == FsError::ChainCorrupt && spec_chain(
                self.table@,
                first_cluster,
            ) is None),
    {
        let mut chain: Vec<u16> = Vec::new();
        let mut cur: u16 = first_cluster;
        proof {
            assert(chain@ =~= Seq::<u16>::empty());
            if let Some(rs) = spec_chain_from(self.table@, first_cluster, FAT_SIZE as nat) {
                assert(Seq::<u16>::empty() + rs =~= rs);
            }
        }
        loop
            invariant
                chain@.len() <= FAT_SIZE,
                self.table@.len() == FAT_SIZE as int,
                forall|k: int|
                    0 <= k < chain@.len() ==> 2 <= #[trigger] chain@[k] && (chain@[k] as int)
                        < FAT_SIZE,
                ({
                    let rest = spec_chain_from(
                        self.table@,
                        cur,
                        (FAT_SIZE - chain@.len()) as nat,
                    );
                    spec_chain(self.table@, first_cluster) == match rest {
                        Some(rs) => Some(chain@ + rs),
                        None => None::<Seq<u16>>,
                    }
                }),
            decreases FAT_SIZE + 1 - chain@.len(),
        {
            if !(cur >= 2 && (cur as usize) < FAT_SIZE) {
                return Err(FsError::ChainCorrupt);
            }
            let nxt = self.table[cur as usize];
            let ghost pre = chain@;
            let ghost fuel = (FAT_SIZE - chain@.len()) as nat;
            if nxt == END_OF_CHAIN {
                chain.push(cur);
                proof {
                    assert(spec_chain_from(self.table@, cur, fuel) == Some(seq![cur]));
                    assert(pre + seq![cur] =~= chain@);
                }
                return Ok(chain);
            }
            if chain.len() >= FAT_SIZE {
                return Err(FsError::ChainCorrupt);
            }
            chain.push(cur);
            proof {
                let t = self.table@;
                assert(spec_chain_from(t, cur, fuel) == (match spec_chain_from(
                    t,
                    nxt,
                    (fuel - 1) as nat,
                ) {
                    Some(rest) => Some(seq![cur] + rest),
                    None => None::<Seq<u16>>,
                }));
                assert((FAT_SIZE - chain@.len()) as nat == (fuel - 1) as nat);
                if let Some(rs) = spec_chain_from(t, nxt, (fuel - 1) as nat) {
                    assert(pre + (seq![cur] + rs) =~= chain@ + rs);
                }
            }
            cur = nxt;
        }
    }

    /// Reads only the first cluster of `entry` into the one-cluster scratch
    /// buffer, for display and inspection.
    ///
    /// A cluster number below 2 is `ChainCorrupt`; a cluster wider than the
    /// scratch buffer is `CapacityExceeded`. Buffer bytes past the cluster
    /// size keep their previous contents.
    pub fn read_file_to_buffer(&mut self, disk: &BlockDevice, entry: &Entry) -> (r: Result<
        (),
        FsError,
    >)
        ensures
            final(self).header == old(self).header,
            final(self).entries == old(self).entries,
            final(self).table == old(self).table,
            r is Err ==> *final(self) == *old(self),
            ({
                let h = old(self).header;
                let c = entry.first_cluster_low;
                let cb = spec_cluster_bytes(h);
                let on_device = spec_sectors_on_device(
                    disk.data@.len() as int,
                    spec_cluster_lba(h, c as int),
                    h.sectors_per_cluster as int,
                );
                let cluster = spec_sector_bytes(
                    disk.data@,
                    spec_cluster_lba(h, c as int),
                    h.sectors_per_cluster as int,
                );
                &&& (r is Ok <==> spec_plausible(h) && c >= 2 && cb <= BUFFER_BYTES && on_device)
                &&& (r == Result::<(), FsError>::Err(FsError::CorruptHeader) <==> !spec_plausible(
                    h,
                ))
                &&& (r == Result::<(), FsError>::Err(FsError::ChainCorrupt) <==> spec_plausible(h)
                    && c < 2)
                &&& (r == Result::<(), FsError>::Err(FsError::CapacityExceeded)
                    <==> spec_plausible(h) && c >= 2 && cb > BUFFER_BYTES)
                &&& (r == Result::<(), FsError>::Err(FsError::DeviceError) <==> spec_plausible(h)
                    && c >= 2 && cb <= BUFFER_BYTES && !on_device)
                &&& (r is Ok ==> {
                    &&& forall|i: int| 0 <= i < cb ==> final(self).buffer@[i] == cluster[i]
                    &&& forall|i: int|
                        cb <= i < BUFFER_BYTES ==> final(self).buffer@[i] == old(self).buffer@[i]
                })
            }),
    {
        let h = self.header;
        if !(h.bytes_per_sector as usize == SECTOR_BYTES && h.sectors_per_cluster >= 1
            && h.fat_count >= 1 && h.sectors_per_fat >= 1) {
            return Err(FsError::CorruptHeader);
        }
        let c = entry.first_cluster_low;
        if c < 2 {
            return Err(FsError::ChainCorrupt);
        }
        let cb = cluster_bytes(&h);
        if cb > BUFFER_BYTES {
            return Err(FsError::CapacityExceeded);
        }
        let lba = cluster_lba(&h, c);
        let data = match disk.read_sectors(lba, h.sectors_per_cluster as u16) {
            Ok(d) => d,
            Err(_) => {
                return Err(FsError::DeviceError);
            },
        };
        proof {
            let lba_s = spec_cluster_lba(h, c as int);
            assert((lba_s + h.sectors_per_cluster as int) * 512 - lba_s * 512
                == h.sectors_per_cluster as int * 512) by (nonlinear_arith);
            assert(h.sectors_per_cluster as int * 512 == spec_cluster_bytes(h))
                by (nonlinear_arith)
                requires
                    h.bytes_per_sector as int == 512,
                    spec_cluster_bytes(h) == h.sectors_per_cluster as int
                        * h.bytes_per_sector as int,
            ;
        }
        let mut j: usize = 0;
        while j < cb
            invariant
                j <= cb,
                cb <= BUFFER_BYTES,
                self.buffer@.len() == BUFFER_BYTES as int,
                data@.len() == cb as int,
                forall|i: int| 0 <= i < j ==> self.buffer@[i] == data@[i],
                forall|i: int| j <= i < BUFFER_BYTES ==> self.buffer@[i] == old(self).buffer@[i],
                self.header == old(self).header,
                self.entries == old(self).entries,
                self.table == old(self).table,
            decreases cb - j,
        {
            self.buffer[j] = data[j];
            j = j + 1;
        }
        Ok(())
    }
}

impl FatDriver {
    /// Reads the complete file of `entry` into `target`, cluster by cluster,
    /// following the allocation-table chain from the entry's first cluster to
    /// the end-of-chain mark.
    ///
    /// The chain is walked and the destination's capacity validated before
    /// the first write, so a failing call leaves `target` untouched: a
    /// corrupt chain is `ChainCorrupt`, a destination smaller than the whole
    /// chain is `CapacityExceeded`, and a cluster falling off the device is
    /// `DeviceError`. On success the chain's bytes stand at the front of
    /// `target`, in chain order, and the bytes past them are unchanged.
    #[verifier::loop_isolation(false)]
    pub fn read_file_to_target(
        &self,
        disk: &BlockDevice,
        entry: &Entry,
        target: &mut Vec<u8>,
    ) -> (r: Result<(), FsError>)
        ensures
            final(target)@.len() == old(target)@.len(),
            r is Err ==> final(target)@ == old(target)@,
            ({
                let h = self.header;
                let ch_opt = spec_chain(self.table@, entry.first_cluster_low);
                let cb = spec_cluster_bytes(h);
                &&& (r == Result::<(), FsError>::Err(FsError::CorruptHeader) <==> !spec_plausible(
                    h,
                ))
                &&& (r == Result::<(), FsError>::Err(FsError::ChainCorrupt) <==> spec_plausible(h)
                    && ch_opt is None)
                &&& (spec_plausible(h) ==> match ch_opt {
                    Some(ch) => {
                        let fits = ch.len() * cb <= old(target)@.len();
                        let on_dev = spec_chain_on_device(disk.data@.len() as int, h, ch);
                        &&& (r is Ok <==> fits && on_dev)
                        &&& (r == Result::<(), FsError>::Err(FsError::CapacityExceeded) <==> !fits)
                        &&& (r == Result::<(), FsError>::Err(FsError::DeviceError) <==> fits
                            && !on_dev)
                        &&& (r is Ok ==> final(target)@ == spec_chain_bytes(disk.data@, h, ch)
                            + old(target)@.skip(ch.len() * cb))
                    },
                    None => true,
                })
            }),
    {
        let ghost orig = target@;
        let h = self.header;
        if !(h.bytes_per_sector as usize == SECTOR_BYTES && h.sectors_per_cluster >= 1
            && h.fat_count >= 1 && h.sectors_per_fat >= 1) {
            return Err(FsError::CorruptHeader);
        }
        let chain = match self.cluster_chain(entry.first_cluster_low) {
            Ok(c) => c,
            Err(_) => {
                return Err(FsError::ChainCorrupt);
            },
        };
        let cb = cluster_bytes(&h);
        proof {
            assert(h.sectors_per_cluster as int * (h.bytes_per_sector as int)
                == h.sectors_per_cluster as int * 512) by (nonlinear_arith)
                requires
                    h.bytes_per_sector as int == 512,
            ;
            assert(cb as int == h.sectors_per_cluster as int * 512);
            assert(cb <= 0xff * 512);
            assert(chain@.len() * cb as int <= (FAT_SIZE + 1) * (0xff * 512))
                by (nonlinear_arith)
                requires
                    chain@.len() <= FAT_SIZE + 1,
                    0 <= cb as int <= 0xff * 512,
            ;
        }
        let nclusters = chain.len();
        let total: usize = nclusters * cb;
        if total > target.len() {
            proof {
                assert(!(chain@.len() * spec_cluster_bytes(h) <= orig.len()));
            }
            return Err(FsError::CapacityExceeded);
        }
        let spc: u16 = h.sectors_per_cluster as u16;
        let disk_len: u64 = disk.data.len() as u64;
        let mut k: usize = 0;
        while k < nclusters
            invariant
                k <= nclusters,
                nclusters == chain@.len(),
                disk_len == disk.data@.len(),
                spc == h.sectors_per_cluster,
                h == self.header,
                spec_plausible(h),
                forall|m: int|
                    0 <= m < chain@.len() ==> 2 <= #[trigger] chain@[m] && (chain@[m] as int)
                        < FAT_SIZE,
                forall|m: int|
                    0 <= m < k ==> spec_sectors_on_device(
                        disk.data@.len() as int,
                        spec_cluster_lba(h, #[trigger] chain@[m] as int),
                        h.sectors_per_cluster as int,
                    ),
            decreases nclusters - k,
        {
            let lba = cluster_lba(&h, chain[k]);
            let end_byte: u64 = (lba + spc as u64) * 512;
            if end_byte > disk_len {
                proof {
                    assert(!spec_sectors_on_device(
                        disk.data@.len() as int,
                        spec_cluster_lba(h, chain@[k as int] as int),
                        h.sectors_per_cluster as int,
                    ));
                }
                return Err(FsError::DeviceError);
            }
            k = k + 1;
        }
        proof {
            assert(spec_chain_on_device(disk.data@.len() as int, h, chain@));
            assert(chain@.take(0) =~= Seq::<u16>::empty());
            assert(Seq::<u8>::empty() + orig.skip(0) =~= orig);
        }
        let mut k: usize = 0;
        while k < nclusters
            invariant
                k <= nclusters,
                nclusters == chain@.len(),
                total == nclusters * cb as int,
                total <= target@.len(),
                cb as int == spec_cluster_bytes(h),
                cb as int == h.sectors_per_cluster as int * 512,
                spc == h.sectors_per_cluster,
                h == self.header,
                spec_plausible(h),
                forall|m: int|
                    0 <= m < chain@.len() ==> 2 <= #[trigger] chain@[m] && (chain@[m] as int)
                        < FAT_SIZE,
                spec_chain_on_device(disk.data@.len() as int, h, chain@),
                target@.len() == orig.len(),
                target@ == spec_chain_bytes(disk.data@, h, chain@.take(k as int)) + orig.skip(
                    k as int * cb as int,
                ),
            decreases nclusters - k,
        {
            proof {
                assert(forall|m: int|
                    0 <= m < chain@.take(k as int).len() ==> #[trigger] chain@.take(k as int)[m]
                        == chain@[m]);
                lemma_chain_bytes_len(disk.data@, h, chain@.take(k as int));
                assert((k + 1) as int * cb as int == k as int * cb as int + cb as int)
                    by (nonlinear_arith);
                assert(k as int * cb as int + cb as int <= nclusters as int * cb as int)
                    by (nonlinear_arith)
                    requires
                        k as int + 1 <= nclusters as int,
                        cb as int >= 0,
                ;
                assert(k as int * cb as int >= 0) by (nonlinear_arith)
                    requires
                        k as int >= 0,
                        cb as int >= 0,
                ;
            }
            let lba = cluster_lba(&h, chain[k]);
            let data = match disk.read_sectors(lba, spc) {
                Ok(d) => d,
                Err(_) => {
                    proof {
                        assert(false);
                    }
                    return Err(FsError::DeviceError);
                },
            };
            proof {
                let lba_s = spec_cluster_lba(h, chain@[k as int] as int);
                assert((lba_s + spc as int) * 512 == lba_s * 512 + spc as int * 512)
                    by (nonlinear_arith);
                assert(data@.len() == cb as int);
            }
            let off: usize = k * cb;
            let ghost pre = target@;
            write_at(target, off, &data);
            proof {
                let w_k = spec_chain_bytes(disk.data@, h, chain@.take(k as int));
                let w_k1 = spec_chain_bytes(disk.data@, h, chain@.take(k + 1));
                assert(chain@.take(k + 1).drop_last() =~= chain@.take(k as int));
                assert(chain@.take(k + 1).last() == chain@[k as int]);
                assert(w_k1 == w_k + data@);
                assert(pre.take(off as int) =~= w_k);
                assert(pre.skip(off as int + cb as int) =~= orig.skip((k + 1) as int * cb as int));
                assert(target@ =~= w_k1 + orig.skip((k + 1) as int * cb as int));
            }
            k = k + 1;
        }
        proof {
            assert(chain@.take(nclusters as int) =~= chain@);
        }
        Ok(())
    }
}

/// Overwrites `dst` at offset `off` with the whole of `src`, leaving every
/// byte outside that window unchanged.
pub fn write_at(dst: &mut Vec<u8>, off: usize, src: &Vec<u8>)
    requires
        off + src@.len() <= old(dst)@.len(),
    ensures
        final(dst)@.len() == old(dst)@.len(),
        final(dst)@ == old(dst)@.take(off as int) + src@ + old(dst)@.skip(off + src@.len()),
{
    let m = dst.len();
    assert(off + src@.len() <= m);
    let n = src.len();
    let mut j: usize = 0;
    while j < n
        invariant
            j <= n,
            n == src@.len(),
            off + n <= dst@.len(),
            off + n <= usize::MAX,
            dst@.len() == old(dst)@.len(),
            forall|i: int| 0 <= i < off ==> dst@[i] == old(dst)@[i],
            forall|i: int| off <= i < off + j ==> dst@[i] == src@[i - off],
            forall|i: int| off + j <= i < dst@.len() ==> dst@[i] == old(dst)@[i],
        decreases n - j,
    {
        dst.set(off + j, src[j]);
        j = j + 1;
    }
    proof {
        assert(dst@ =~= old(dst)@.take(off as int) + src@ + old(dst)@.skip(off + src@.len()));
    }
}

} // verus!
