use felix::device::BlockDevice;
use felix::errors::FsError;
use felix::fat::{Entry, FatDriver, Header};
use felix::geometry;

const PARTITION_START: u64 = 36864;

fn put16(b: &mut [u8], off: usize, v: u16) {
    b[off] = (v & 0xff) as u8;
    b[off + 1] = (v >> 8) as u8;
}

fn put32(b: &mut [u8], off: usize, v: u32) {
    b[off] = (v & 0xff) as u8;
    b[off + 1] = ((v >> 8) & 0xff) as u8;
    b[off + 2] = ((v >> 16) & 0xff) as u8;
    b[off + 3] = ((v >> 24) & 0xff) as u8;
}

fn boot_sector(
    spc: u8,
    reserved: u16,
    fat_count: u8,
    spf: u16,
    dir_entries: u16,
) -> [u8; 512] {
    let mut s = [0u8; 512];
    s[0] = 0xeb;
    s[1] = 0x3c;
    s[2] = 0x90;
    s[3..11].copy_from_slice(b"MSWIN4.1");
    put16(&mut s, 11, 512);
    s[13] = spc;
    put16(&mut s, 14, reserved);
    s[16] = fat_count;
    put16(&mut s, 17, dir_entries);
    put16(&mut s, 19, 40960);
    s[21] = 0xf8;
    put16(&mut s, 22, spf);
    put16(&mut s, 24, 63);
    put16(&mut s, 26, 16);
    put32(&mut s, 28, 0);
    put32(&mut s, 32, 0);
    s[36] = 0x80;
    s[38] = 0x29;
    put32(&mut s, 39, 0xCAFE_F00D);
    s[43..54].copy_from_slice(b"FELIXVOLUME");
    s[54..62].copy_from_slice(b"FAT16   ");
    s
}

fn entry_bytes(name: &[u8; 11], cluster: u16, size: u32) -> [u8; 32] {
    let mut e = [0u8; 32];
    e[0..11].copy_from_slice(name);
    e[11] = 0x20;
    put16(&mut e, 26, cluster);
    put32(&mut e, 28, size);
    e
}

fn write_at(disk: &mut Vec<u8>, lba: u64, bytes: &[u8]) {
    let off = (lba * 512) as usize;
    disk[off..off + bytes.len()].copy_from_slice(bytes);
}

/// A volume with one allocation-table sector, one reserved sector, one table
/// copy, and room for a handful of data clusters.
fn demo_disk(dir_entries: u16, entries: &[[u8; 32]], links: &[(usize, u16)]) -> Vec<u8> {
    // boot sector at 36864, table at 36865, directory at 36866..36898,
    // data region from 36898.
    let total = PARTITION_START + 1 + 1 + 32 + 64;
    let mut disk = vec![0u8; (total * 512) as usize];
    write_at(&mut disk, PARTITION_START, &boot_sector(1, 1, 1, 1, dir_entries));
    let mut fat = [0u8; 512];
    for &(cluster, link) in links {
        put16(&mut fat, 2 * cluster, link);
    }
    write_at(&mut disk, PARTITION_START + 1, &fat);
    for (i, e) in entries.iter().enumerate() {
        let off = ((PARTITION_START + 2) * 512) as usize + 32 * i;
        disk[off..off + 32].copy_from_slice(e);
    }
    disk
}

fn data_lba(cluster: u64) -> u64 {
    PARTITION_START + 2 + 32 + (cluster - 2)
}

#[test]
fn directory_loader_sector_count() {
    // 16 entries of 32 bytes are 512 bytes: exactly one 512-byte sector.
    let mut h = plausible_header();
    h.dir_entries_count = 16;
    assert_eq!(geometry::root_dir_sector_count(&h), 1);
    // 17 entries spill into a second sector.
    h.dir_entries_count = 17;
    assert_eq!(geometry::root_dir_sector_count(&h), 2);
}

fn plausible_header() -> Header {
    let mut h = Header::empty();
    h.bytes_per_sector = 512;
    h.sectors_per_cluster = 1;
    h.reserved_sectors = 1;
    h.fat_count = 1;
    h.sectors_per_fat = 1;
    h.dir_entries_count = 16;
    h
}

#[test]
fn geometry_offsets() {
    let h = plausible_header();
    assert_eq!(geometry::fat_lba(&h), PARTITION_START + 1);
    assert_eq!(geometry::root_dir_lba(&h), PARTITION_START + 2);
    assert_eq!(geometry::data_lba(&h), PARTITION_START + 34);
    assert_eq!(geometry::cluster_lba(&h, 2), PARTITION_START + 34);
    assert_eq!(geometry::cluster_lba(&h, 5), PARTITION_START + 37);
    assert_eq!(geometry::cluster_bytes(&h), 512);
}

#[test]
fn header_loader_reads_fields() {
    let disk = BlockDevice::new(demo_disk(16, &[], &[]));
    let mut driver = FatDriver::new();
    assert!(driver.load_header(&disk).is_ok());
    let h = &driver.header;
    assert_eq!(h.boot_jump_instructions, [0xeb, 0x3c, 0x90]);
    assert_eq!(&h.oem_identifier, b"MSWIN4.1");
    assert_eq!(h.bytes_per_sector, 512);
    assert_eq!(h.sectors_per_cluster, 1);
    assert_eq!(h.reserved_sectors, 1);
    assert_eq!(h.fat_count, 1);
    assert_eq!(h.dir_entries_count, 16);
    assert_eq!(h.total_sectors, 40960);
    assert_eq!(h.media_descriptor_type, 0xf8);
    assert_eq!(h.sectors_per_fat, 1);
    assert_eq!(h.sectors_per_track, 63);
    assert_eq!(h.heads, 16);
    assert_eq!(h.drive_number, 0x80);
    assert_eq!(h.signature, 0x29);
    assert_eq!(h.volume_id, 0xCAFE_F00D);
    assert_eq!(&h.volume_label, b"FELIXVOLUME");
    assert_eq!(&h.system_id, b"FAT16   ");
}

#[test]
fn header_loader_rejects_implausible_geometry() {
    let mut image = demo_disk(16, &[], &[]);
    // zero out bytes-per-sector
    let off = (PARTITION_START * 512) as usize;
    image[off + 11] = 0;
    image[off + 12] = 0;
    let disk = BlockDevice::new(image);
    let mut driver = FatDriver::new();
    assert_eq!(driver.load_header(&disk), Err(FsError::CorruptHeader));
}

#[test]
fn header_loader_reports_device_failure() {
    // the device ends before the partition start
    let disk = BlockDevice::new(vec![0u8; 1024]);
    let mut driver = FatDriver::new();
    assert_eq!(driver.load_header(&disk), Err(FsError::DeviceError));
}

#[test]
fn table_loader_reads_links() {
    let disk = BlockDevice::new(demo_disk(16, &[], &[(2, 3), (3, 0xffff), (5, 0xabcd)]));
    let mut driver = FatDriver::new();
    driver.load_header(&disk).unwrap();
    driver.load_table(&disk).unwrap();
    assert_eq!(driver.table[2], 3);
    assert_eq!(driver.table[3], 0xffff);
    assert_eq!(driver.table[5], 0xabcd);
    assert_eq!(driver.table[4], 0);
}

#[test]
fn table_loader_requires_loaded_header() {
    let disk = BlockDevice::new(demo_disk(16, &[], &[]));
    let mut driver = FatDriver::new();
    assert_eq!(driver.load_table(&disk), Err(FsError::CorruptHeader));
}

#[test]
fn table_loader_rejects_oversized_table() {
    let mut image = demo_disk(16, &[], &[]);
    // declare two sectors per table copy: 512 links, above the mirror's 256
    let off = (PARTITION_START * 512) as usize;
    image[off + 22] = 2;
    let disk = BlockDevice::new(image);
    let mut driver = FatDriver::new();
    driver.load_header(&disk).unwrap();
    assert_eq!(driver.load_table(&disk), Err(FsError::CapacityExceeded));
}

#[test]
fn directory_loader_reads_entries() {
    let e0 = entry_bytes(b"README  TXT", 2, 42);
    let e1 = entry_bytes(b"KERNEL  BIN", 3, 1024);
    let disk = BlockDevice::new(demo_disk(16, &[e0, e1], &[]));
    let mut driver = FatDriver::new();
    driver.load_header(&disk).unwrap();
    driver.load_entries(&disk).unwrap();
    assert_eq!(driver.entries.len(), 16);
    assert_eq!(&driver.entries[0].name, b"README  TXT");
    assert_eq!(driver.entries[0].attributes, 0x20);
    assert_eq!(driver.entries[0].first_cluster_low, 2);
    assert_eq!(driver.entries[0].size, 42);
    assert_eq!(&driver.entries[1].name, b"KERNEL  BIN");
    assert_eq!(driver.entries[1].first_cluster_low, 3);
    assert_eq!(driver.entries[2].name[0], 0);
}

#[test]
fn directory_loader_rejects_oversized_directory() {
    let mut image = demo_disk(16, &[], &[]);
    // declare more entries than the mirror's 512
    let off = (PARTITION_START * 512) as usize;
    put16(&mut image[off..off + 512], 17, 600);
    let disk = BlockDevice::new(image);
    let mut driver = FatDriver::new();
    driver.load_header(&disk).unwrap();
    assert_eq!(driver.load_entries(&disk), Err(FsError::CapacityExceeded));
}

#[test]
fn listing_skips_free_slots() {
    let mut driver = FatDriver::new();
    let mut used = Entry::empty();
    used.name = *b"A       TXT";
    let mut used2 = Entry::empty();
    used2.name = *b"B       TXT";
    driver.entries.push(Entry::empty());
    driver.entries.push(used);
    driver.entries.push(Entry::empty());
    driver.entries.push(used2);
    let listed = driver.list_entries();
    assert_eq!(listed.len(), 2);
    assert_eq!(&listed[0].name, b"A       TXT");
    assert_eq!(&listed[1].name, b"B       TXT");
}

fn driver_with_names(names: &[&[u8; 11]]) -> FatDriver {
    let mut driver = FatDriver::new();
    for (i, n) in names.iter().enumerate() {
        let mut e = Entry::empty();
        e.name = **n;
        e.first_cluster_low = 2 + i as u16;
        driver.entries.push(e);
    }
    driver
}

#[test]
fn search_finds_exact_name() {
    let driver = driver_with_names(&[b"README  TXT", b"KERNEL  BIN"]);
    let e = driver.search_file(&b"KERNEL  BIN".to_vec()).unwrap();
    assert_eq!(e.first_cluster_low, 3);
}

#[test]
fn search_is_case_insensitive() {
    // the same file resolved under both spellings of its name
    let driver = driver_with_names(&[b"OTHER   TXT", b"README.TXT "]);
    let lower = driver.search_file(&b"readme.txt".to_vec()).unwrap();
    let upper = driver.search_file(&b"README.TXT".to_vec()).unwrap();
    assert_eq!(lower.first_cluster_low, upper.first_cluster_low);
    assert_eq!(lower.name, upper.name);
    assert_eq!(lower.first_cluster_low, 3);
}

#[test]
fn search_pads_short_queries_with_spaces() {
    let driver = driver_with_names(&[b"AB         "]);
    assert!(driver.search_file(&b"ab".to_vec()).is_ok());
    assert!(driver.search_file(&b"abc".to_vec()).is_err());
}

#[test]
fn search_never_returns_free_slots() {
    // a free slot whose remaining bytes would match is still skipped
    let mut driver = FatDriver::new();
    let mut free = Entry::empty();
    free.name = *b"\0EADME  TXT";
    free.first_cluster_low = 9;
    driver.entries.push(free);
    let q = b"\0EADME  TXT".to_vec();
    assert_eq!(driver.search_file(&q), Err(FsError::EntryNotFound));
}

#[test]
fn search_over_empty_directory_finds_nothing() {
    let driver = FatDriver::new();
    assert_eq!(
        driver.search_file(&b"README  TXT".to_vec()),
        Err(FsError::EntryNotFound)
    );
    // a directory of free slots only behaves the same
    let mut all_free = FatDriver::new();
    for _ in 0..8 {
        all_free.entries.push(Entry::empty());
    }
    assert_eq!(
        all_free.search_file(&b"README  TXT".to_vec()),
        Err(FsError::EntryNotFound)
    );
}

#[test]
fn search_returns_first_of_duplicate_names() {
    let driver = driver_with_names(&[b"TWIN    TXT", b"TWIN    TXT"]);
    let e = driver.search_file(&b"TWIN    TXT".to_vec()).unwrap();
    assert_eq!(e.first_cluster_low, 2);
}

#[test]
fn search_rejects_overlong_query() {
    let driver = driver_with_names(&[b"README  TXT"]);
    assert_eq!(
        driver.search_file(&b"README  TXTX".to_vec()),
        Err(FsError::EntryNotFound)
    );
}

#[test]
fn chain_walk_follows_links_in_order() {
    let mut driver = FatDriver::new();
    driver.header = plausible_header();
    driver.table[5] = 6;
    driver.table[6] = 7;
    driver.table[7] = 0xffff;
    let chain = driver.cluster_chain(5).unwrap();
    assert_eq!(chain, vec![5, 6, 7]);
}

#[test]
fn chain_cycle_is_reported_corrupt() {
    let mut driver = FatDriver::new();
    driver.header = plausible_header();
    driver.table[5] = 6;
    driver.table[6] = 5;
    assert_eq!(driver.cluster_chain(5), Err(FsError::ChainCorrupt));
}

#[test]
fn chain_link_outside_table_is_corrupt() {
    let mut driver = FatDriver::new();
    driver.header = plausible_header();
    driver.table[5] = 400;
    assert_eq!(driver.cluster_chain(5), Err(FsError::ChainCorrupt));
    assert_eq!(driver.cluster_chain(1), Err(FsError::ChainCorrupt));
    assert_eq!(driver.cluster_chain(0), Err(FsError::ChainCorrupt));
}

#[test]
fn preview_reads_only_the_first_cluster() {
    let mut image = demo_disk(16, &[entry_bytes(b"HELLO   TXT", 2, 700)], &[(2, 3), (3, 0xffff)]);
    write_at(&mut image, data_lba(2), &[0x11u8; 512]);
    write_at(&mut image, data_lba(3), &[0x22u8; 512]);
    let disk = BlockDevice::new(image);
    let mut driver = FatDriver::new();
    driver.load_header(&disk).unwrap();
    driver.load_table(&disk).unwrap();
    driver.load_entries(&disk).unwrap();
    let entry = driver.search_file(&b"HELLO   TXT".to_vec()).unwrap();
    driver.read_file_to_buffer(&disk, &entry).unwrap();
    assert!(driver.buffer[..512].iter().all(|&b| b == 0x11));
    assert!(driver.buffer[512..].iter().all(|&b| b == 0));
}

#[test]
fn preview_rejects_cluster_wider_than_buffer() {
    // five sectors per cluster make 2560 bytes, above the 2048-byte scratch
    let mut image = demo_disk(16, &[entry_bytes(b"HELLO   TXT", 2, 1)], &[(2, 0xffff)]);
    let off = (PARTITION_START * 512) as usize;
    image[off + 13] = 5;
    let disk = BlockDevice::new(image);
    let mut driver = FatDriver::new();
    driver.load_header(&disk).unwrap();
    let entry = {
        let mut e = Entry::empty();
        e.name = *b"HELLO   TXT";
        e.first_cluster_low = 2;
        e
    };
    assert_eq!(
        driver.read_file_to_buffer(&disk, &entry),
        Err(FsError::CapacityExceeded)
    );
}

#[test]
fn full_read_copies_clusters_in_chain_order() {
    // clusters 5 -> 6 -> 7, each with a distinct fill: after the third the
    // chain ends, so exactly three cluster-reads land in the target
    let mut image = demo_disk(
        16,
        &[entry_bytes(b"PROG    BIN", 5, 1536)],
        &[(5, 6), (6, 7), (7, 0xffff)],
    );
    write_at(&mut image, data_lba(5), &[0x55u8; 512]);
    write_at(&mut image, data_lba(6), &[0x66u8; 512]);
    write_at(&mut image, data_lba(7), &[0x77u8; 512]);
    let disk = BlockDevice::new(image);
    let mut driver = FatDriver::new();
    driver.load_header(&disk).unwrap();
    driver.load_table(&disk).unwrap();
    driver.load_entries(&disk).unwrap();
    let entry = driver.search_file(&b"PROG    BIN".to_vec()).unwrap();
    assert_eq!(driver.cluster_chain(entry.first_cluster_low).unwrap(), vec![5, 6, 7]);
    let mut target = vec![0xa5u8; 4 * 512];
    driver.read_file_to_target(&disk, &entry, &mut target).unwrap();
    assert!(target[..512].iter().all(|&b| b == 0x55));
    assert!(target[512..1024].iter().all(|&b| b == 0x66));
    assert!(target[1024..1536].iter().all(|&b| b == 0x77));
    // bytes past the chain stay untouched
    assert!(target[1536..].iter().all(|&b| b == 0xa5));
}

#[test]
fn full_read_rejects_small_destination() {
    let mut image = demo_disk(
        16,
        &[entry_bytes(b"PROG    BIN", 5, 1536)],
        &[(5, 6), (6, 7), (7, 0xffff)],
    );
    write_at(&mut image, data_lba(5), &[0x55u8; 512]);
    let disk = BlockDevice::new(image);
    let mut driver = FatDriver::new();
    driver.load_header(&disk).unwrap();
    driver.load_table(&disk).unwrap();
    driver.load_entries(&disk).unwrap();
    let entry = driver.search_file(&b"PROG    BIN".to_vec()).unwrap();
    let mut target = vec![0u8; 2 * 512];
    assert_eq!(
        driver.read_file_to_target(&disk, &entry, &mut target),
        Err(FsError::CapacityExceeded)
    );
    // a failing read leaves the destination untouched
    assert!(target.iter().all(|&b| b == 0));
}

#[test]
fn full_read_reports_cycle_as_corrupt() {
    let mut driver = FatDriver::new();
    driver.header = plausible_header();
    driver.table[5] = 6;
    driver.table[6] = 5;
    let mut e = Entry::empty();
    e.name = *b"LOOP    BIN";
    e.first_cluster_low = 5;
    let disk = BlockDevice::new(vec![0u8; 512]);
    let mut target = vec![0u8; 4096];
    assert_eq!(
        driver.read_file_to_target(&disk, &e, &mut target),
        Err(FsError::ChainCorrupt)
    );
}

#[test]
fn full_read_reports_cluster_off_the_device() {
    // the chain is fine but the data region ends before cluster 60
    let image = demo_disk(16, &[entry_bytes(b"EDGE    BIN", 60, 512)], &[(60, 0xffff)]);
    let short = image[..(data_lba(50) * 512) as usize].to_vec();
    let disk = BlockDevice::new(short);
    let mut driver = FatDriver::new();
    driver.load_header(&disk).unwrap();
    driver.load_table(&disk).unwrap();
    let mut e = Entry::empty();
    e.name = *b"EDGE    BIN";
    e.first_cluster_low = 60;
    let mut target = vec![0u8; 512];
    assert_eq!(
        driver.read_file_to_target(&disk, &e, &mut target),
        Err(FsError::DeviceError)
    );
}

#[test]
fn round_trip_from_device_to_bytes() {
    // a synthetic volume with one file over a two-cluster chain comes back
    // byte for byte through header, table, directory, search and full read
    let mut content = Vec::new();
    for i in 0..1024u32 {
        content.push((i % 251) as u8);
    }
    let mut image = demo_disk(
        16,
        &[entry_bytes(b"STORY   TXT", 2, 1024)],
        &[(2, 3), (3, 0xffff)],
    );
    write_at(&mut image, data_lba(2), &content[..512]);
    write_at(&mut image, data_lba(3), &content[512..]);
    let disk = BlockDevice::new(image);
    let mut driver = FatDriver::new();
    driver.load_header(&disk).unwrap();
    driver.load_table(&disk).unwrap();
    driver.load_entries(&disk).unwrap();
    let entry = driver.search_file(&b"story   txt".to_vec()).unwrap();
    assert_eq!(entry.size, 1024);
    let mut target = vec![0u8; 1024];
    driver.read_file_to_target(&disk, &entry, &mut target).unwrap();
    assert_eq!(target, content);
}

#[test]
fn loaders_are_reinvocable() {
    let e0 = entry_bytes(b"README  TXT", 2, 42);
    let disk = BlockDevice::new(demo_disk(16, &[e0], &[(2, 0xffff)]));
    let mut driver = FatDriver::new();
    for _ in 0..2 {
        driver.load_header(&disk).unwrap();
        driver.load_table(&disk).unwrap();
        driver.load_entries(&disk).unwrap();
    }
    assert_eq!(driver.entries.len(), 16);
    assert_eq!(&driver.entries[0].name, b"README  TXT");
    assert_eq!(driver.table[2], 0xffff);
}
