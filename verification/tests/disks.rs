//! Assembling the Disks view and resolving encrypted/cleartext pairs.

use dbus_udisks2::block::{Block, Encrypted, Partition, PartitionTable};
use dbus_udisks2::disks::Disks;
use dbus_udisks2::drive::Drive;

fn drive_at(path: &str) -> Drive {
    let mut drive = Drive::default();
    drive.path = path.to_string();
    drive
}

fn block_of(path: &str, drive: &str) -> Block {
    let mut block = Block::default();
    block.path = path.to_string();
    block.drive = drive.to_string();
    block
}

fn partition_block(path: &str, drive: &str, offset: u64) -> Block {
    let mut block = block_of(path, drive);
    let mut partition = Partition::default();
    partition.offset = offset;
    block.partition = Some(partition);
    block
}

fn table_block(path: &str, drive: &str) -> Block {
    let mut block = block_of(path, drive);
    block.table = Some(PartitionTable::default());
    block
}

#[test]
fn partitions_are_sorted_by_offset() {
    let drives = vec![drive_at("/d0")];
    let blocks = vec![
        partition_block("/b3", "/d0", 3000),
        table_block("/parent", "/d0"),
        partition_block("/b1", "/d0", 1000),
        partition_block("/b2", "/d0", 2000),
    ];
    let disks = Disks::assemble(drives, &blocks);
    assert_eq!(disks.devices.len(), 1);
    let device = &disks.devices[0];
    assert_eq!(device.parent.path, "/parent");
    let offsets: Vec<u64> = device
        .partitions
        .iter()
        .map(|p| p.partition.as_ref().unwrap().offset)
        .collect();
    assert_eq!(offsets, vec![1000, 2000, 3000]);
}

#[test]
fn drive_without_table_bearing_block_yields_no_device() {
    let drives = vec![drive_at("/d0")];
    let blocks = vec![
        partition_block("/b1", "/d0", 100),
        partition_block("/b2", "/d0", 200),
    ];
    let disks = Disks::assemble(drives, &blocks);
    assert!(disks.devices.is_empty());
}

#[test]
fn blocks_of_other_drives_are_not_grouped() {
    let drives = vec![drive_at("/d0"), drive_at("/d1")];
    let blocks = vec![
        table_block("/p0", "/d0"),
        partition_block("/q0", "/d0", 5),
        table_block("/p1", "/d1"),
        partition_block("/q1", "/d1", 7),
        partition_block("/stray", "/elsewhere", 9),
    ];
    let disks = Disks::assemble(drives, &blocks);
    assert_eq!(disks.devices.len(), 2);
    assert_eq!(disks.devices[0].parent.path, "/p0");
    assert_eq!(disks.devices[0].partitions.len(), 1);
    assert_eq!(disks.devices[0].partitions[0].path, "/q0");
    assert_eq!(disks.devices[1].parent.path, "/p1");
    assert_eq!(disks.devices[1].partitions.len(), 1);
    assert_eq!(disks.devices[1].partitions[0].path, "/q1");
}

#[test]
fn child_without_partition_facet_skips_only_that_device() {
    let drives = vec![drive_at("/d0"), drive_at("/d1")];
    let blocks = vec![
        table_block("/p0", "/d0"),
        block_of("/facetless", "/d0"),
        table_block("/p1", "/d1"),
        partition_block("/q1", "/d1", 7),
    ];
    let disks = Disks::assemble(drives, &blocks);
    assert_eq!(disks.devices.len(), 1);
    assert_eq!(disks.devices[0].parent.path, "/p1");
}

#[test]
fn equal_offsets_are_all_kept() {
    let drives = vec![drive_at("/d0")];
    let blocks = vec![
        table_block("/parent", "/d0"),
        partition_block("/b1", "/d0", 5),
        partition_block("/b2", "/d0", 5),
        partition_block("/b3", "/d0", 5),
    ];
    let disks = Disks::assemble(drives, &blocks);
    assert_eq!(disks.devices[0].partitions.len(), 3);
}

#[test]
fn largest_sizes_pass_through() {
    let drives = vec![drive_at("/d0")];
    let mut parent = table_block("/parent", "/d0");
    parent.size = u64::MAX;
    let mut child = partition_block("/b1", "/d0", u64::MAX);
    child.size = u64::MAX;
    let disks = Disks::assemble(drives, &vec![parent, child]);
    assert_eq!(disks.devices[0].parent.size, u64::MAX);
    assert_eq!(
        disks.devices[0].partitions[0]
            .partition
            .as_ref()
            .unwrap()
            .offset,
        u64::MAX
    );
}

#[test]
fn last_table_bearing_block_is_the_parent() {
    let drives = vec![drive_at("/d0")];
    let blocks = vec![
        table_block("/first", "/d0"),
        table_block("/second", "/d0"),
        partition_block("/b1", "/d0", 1),
    ];
    let disks = Disks::assemble(drives, &blocks);
    assert_eq!(disks.devices[0].parent.path, "/second");
}

#[test]
fn encrypted_block_finds_its_cleartext_counterpart() {
    let mut encrypted_block = block_of(
        "/org/freedesktop/UDisks2/block_devices/sda2",
        "/d0",
    );
    encrypted_block.encrypted = Some(Encrypted::default());
    let mut cleartext = block_of("/org/freedesktop/UDisks2/block_devices/dm_0", "");
    cleartext.crypto_backing_device = "/org/freedesktop/UDisks2/block_devices/sda2".to_string();
    let within = vec![cleartext.clone(), encrypted_block.clone()];
    let found = encrypted_block
        .get_encrypted_block(&within)
        .expect("cleartext counterpart present");
    assert_eq!(found, &cleartext);
}

#[test]
fn plain_block_has_no_encrypted_counterpart() {
    let plain = block_of("/b", "/d0");
    assert!(!plain.is_encrypted());
    let mut other = block_of("/c", "/d0");
    other.crypto_backing_device = "/b".to_string();
    assert!(plain.get_encrypted_block(&[other]).is_none());
}
