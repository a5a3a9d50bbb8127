//! Behavioral properties on concrete values: grouping-key equality,
//! header rebinding, unknown-column tolerance, boolean coercion,
//! summation order, percentage boundaries, and the documented decode
//! scenarios.

use std::collections::hash_map::DefaultHasher;
use std::hash::Hash;
use std::hash::Hasher;

use mmoxi::df::FsSummary;
use mmoxi::disk::Disks;
use mmoxi::nsd::local;
use mmoxi::nsd::local_pooled;
use mmoxi::nsd::FsPoolId;
use mmoxi::nsd::Nsds;
use mmoxi::pool::parse_mmlspool_output;
use mmoxi::pool::Size;
use mmoxi::sysfs::block::sum;
use mmoxi::sysfs::block::Stat;
use mmoxi::util::MMBool;

fn hash_of(id: &FsPoolId) -> u64 {
    let mut h = DefaultHasher::new();
    id.hash(&mut h);
    h.finish()
}

#[test]
fn fs_pool_key_equality() {
    let a = FsPoolId::new("gpfs1".into(), "system".into());
    let b = FsPoolId::new("gpfs1".into(), "system".into());
    let c = FsPoolId::new("gpfs2".into(), "system".into());
    let d = FsPoolId::new("gpfs1".into(), "nvme".into());

    assert_eq!(a, b);
    assert_eq!(hash_of(&a), hash_of(&b));
    assert_ne!(a, c);
    assert_ne!(a, d);
    assert_ne!(c, d);
}

#[test]
fn header_rebinds() {
    // two headers of the same record type with the columns swapped: each
    // data row decodes by the header immediately before it
    let input = "\
mmlsnsd:nsd:HEADER:version:reserved:reserved:diskName:serverList:localDiskName:
mmlsnsd:nsd:0:1:::disk1:filer1:/dev/dm-1:
mmlsnsd:nsd:HEADER:version:reserved:reserved:localDiskName:serverList:diskName:
mmlsnsd:nsd:0:1:::/dev/dm-2:filer2:disk2:
";
    let nsds = Nsds::from_reader(input).unwrap();
    let nsds = nsds.into_inner();
    assert_eq!(nsds.len(), 2);
    assert_eq!(nsds[0].name(), "disk1");
    assert_eq!(nsds[0].device(), "/dev/dm-1");
    assert_eq!(nsds[1].name(), "disk2");
    assert_eq!(nsds[1].device(), "/dev/dm-2");
}

#[test]
fn unknown_column_tolerance() {
    let plain = "\
mmlsnsd:nsd:HEADER:version:reserved:reserved:diskName:serverList:localDiskName:
mmlsnsd:nsd:0:1:::disk1:filer1:/dev/dm-1:
";
    let extended = "\
mmlsnsd:nsd:HEADER:version:reserved:reserved:diskName:serverList:localDiskName:futureColumn:
mmlsnsd:nsd:0:1:::disk1:filer1:/dev/dm-1:futureValue:
";
    let a = Nsds::from_reader(plain).unwrap().into_inner();
    let b = Nsds::from_reader(extended).unwrap().into_inner();
    assert_eq!(a.len(), b.len());
    assert_eq!(a[0].name(), b[0].name());
    assert_eq!(a[0].server_list(), b[0].server_list());
    assert_eq!(a[0].device(), b[0].device());
}

#[test]
fn unknown_column_inserted() {
    // an unrecognized column in the middle, shifting header and data
    // tokens together, changes nothing
    let plain = "\
mmlsnsd:nsd:HEADER:version:reserved:reserved:diskName:serverList:localDiskName:
mmlsnsd:nsd:0:1:::disk1:filer1:/dev/dm-1:
";
    let extended = "\
mmlsnsd:nsd:HEADER:version:reserved:reserved:diskName:futureColumn:serverList:localDiskName:
mmlsnsd:nsd:0:1:::disk1:futureValue:filer1:/dev/dm-1:
";
    let a = Nsds::from_reader(plain).unwrap().into_inner();
    let b = Nsds::from_reader(extended).unwrap().into_inner();
    assert_eq!(a.len(), b.len());
    assert_eq!(a[0].name(), b[0].name());
    assert_eq!(a[0].server_list(), b[0].server_list());
    assert_eq!(a[0].device(), b[0].device());
}

#[test]
fn boolean_coercion() {
    for yes in ["yes", "Yes", "YES", "yEs", "1"] {
        let b = MMBool::parse(yes).unwrap();
        assert!(b.as_bool());
    }
    for no in ["no", "No", "NO", "nO", "0"] {
        let b = MMBool::parse(no).unwrap();
        assert!(!b.as_bool());
    }
    for bad in ["", "y", "n", "true", "false", "2", "yess", "oui"] {
        assert!(MMBool::parse(bad).is_none());
    }
}

fn stat_with(read_ios: u64, write_ios: u64) -> Stat {
    let mut s = Stat::zero();
    s.read_ios = read_ios;
    s.write_ios = write_ios;
    s.read_sectors = read_ios * 8;
    s.write_sectors = write_ios * 8;
    s
}

#[test]
fn stat_sum_order_independent() {
    let a = stat_with(10, 1);
    let b = stat_with(20, 2);
    let c = stat_with(30, 3);

    let s1 = sum(&vec![a, b, c]).unwrap();
    let s2 = sum(&vec![c, a, b]).unwrap();
    let s3 = sum(&vec![b, c, a]).unwrap();
    assert_eq!(s1, s2);
    assert_eq!(s2, s3);
    assert_eq!(s1.read_ios, 60);
    assert_eq!(s1.write_ios, 6);
    assert_eq!(s1.read_sectors, 480);

    let zero = sum(&vec![]).unwrap();
    assert_eq!(zero, Stat::zero());

    // an overflowing field refuses the whole sum
    let mut big = Stat::zero();
    big.io_ticks = u64::MAX;
    let mut one = Stat::zero();
    one.io_ticks = 1;
    assert!(sum(&vec![big, one]).is_none());
}

#[test]
fn used_percent_boundaries() {
    assert_eq!(Size::new(100, 0).used_percent(), 100);
    assert_eq!(Size::new(100, 100).used_percent(), 0);
    assert_eq!(Size::new(100, 0).checked_used_percent(), Some(100));
    assert_eq!(Size::new(100, 100).checked_used_percent(), Some(0));
    // a zero total has no percentage: the guarded form refuses it
    assert_eq!(Size::new(0, 0).checked_used_percent(), None);
    assert_eq!(Size::new(0, 5).checked_used_percent(), None);
}

#[test]
fn nsd_typed_rows() {
    // the documented nsd-typed stream: a header naming the nine columns
    // in order, then two data rows
    let input = "\
mmdf:nsd:HEADER:nsdName:storagePool:diskSize:metadata:data:freeBlocks:freeBlocksPct:freeFragments:freeFragmentsPct:
mmdf:nsd:0:disk1:system:1000:yes:no:600:60:40:4:
mmdf:nsd:0:disk2:nvme:2000:no:yes:500:25:80:4:
";
    let summary = FsSummary::from_reader("gpfs1", input).unwrap();
    let nsds = summary.nsds();
    assert_eq!(nsds.len(), 2);

    assert_eq!(nsds[0].name(), "disk1");
    assert_eq!(nsds[0].pool(), "system");
    assert_eq!(nsds[0].size(), 1000);
    assert!(nsds[0].holds_metadata());
    assert!(!nsds[0].holds_objectdata());
    assert_eq!(nsds[0].free_blocks(), 600);
    assert_eq!(nsds[0].free_blocks_percent(), 60);
    assert_eq!(nsds[0].free_fragments(), 40);
    assert_eq!(nsds[0].free_fragments_percent(), 4);

    assert_eq!(nsds[1].name(), "disk2");
    assert_eq!(nsds[1].pool(), "nvme");
    assert_eq!(nsds[1].size(), 2000);
    assert!(!nsds[1].holds_metadata());
    assert!(nsds[1].holds_objectdata());
}

#[test]
fn pool_gates() {
    // a pool row with the data gate shut and the metadata gate open:
    // the data size is absent, the metadata size comes from the
    // trailing columns
    let input = "\
Storage pools in file system at '/gpfs1':
Name  Id  BlkSize Data Meta Total Data in (KB)  Free Data in (KB)  Total Meta in (KB)  Free Meta in (KB)
system 0 4 MB no yes 0 0 ( 0%) 777000 111000 ( 85%)
";
    let pools = parse_mmlspool_output(input).unwrap();
    assert_eq!(pools.len(), 1);
    assert!(pools[0].data().is_none());
    assert_eq!(pools[0].meta(), Some(&Size::new(777_000, 111_000)));
}

#[test]
fn grouping_by_pool() {
    // two NSDs owned by the local node; gpfs1's disk list assigns disk1
    // to pool system and has no entry for disk2
    let nsd_input = "\
mmlsnsd:nsd:HEADER:version:reserved:reserved:diskName:serverList:localDiskName:
mmlsnsd:nsd:0:1:::disk1:filer1,filer2:/dev/dm-1:
mmlsnsd:nsd:0:1:::disk2:filer1:/dev/dm-2:
";
    let disk_input = "\
mmlsdisk:disk:HEADER:version:reserved:reserved:nsdName:metadata:data:availability:storagePool:
mmlsdisk:disk:0:1:::disk1:yes:yes:up:system:
";
    let nsds = Nsds::from_reader(nsd_input).unwrap();
    let nsds = local(nsds, "filer1");
    assert_eq!(nsds.iter().len(), 2);

    let disks = Disks::from_reader(disk_input).unwrap();
    let fs_disks = vec![(String::from("gpfs1"), disks)];

    let pooled = local_pooled(&nsds, &fs_disks);
    let groups = pooled.groups();
    assert_eq!(groups.len(), 1);
    assert_eq!(groups[0].0.fs(), "gpfs1");
    assert_eq!(groups[0].0.pool(), "system");
    let members = groups[0].1.iter();
    assert_eq!(members.len(), 1);
    assert_eq!(members[0].name(), "disk1");
}

#[test]
fn locality_filter() {
    let nsd_input = "\
mmlsnsd:nsd:HEADER:version:reserved:reserved:diskName:serverList:localDiskName:
mmlsnsd:nsd:0:1:::disk1:filer1,filer2:/dev/dm-1:
mmlsnsd:nsd:0:1:::disk2:filer3:/dev/dm-2:
";
    let nsds = Nsds::from_reader(nsd_input).unwrap();
    let nsds = local(nsds, "filer2");
    let v = nsds.into_inner();
    assert_eq!(v.len(), 1);
    assert_eq!(v[0].name(), "disk1");
}

#[test]
fn cache_round_trip() {
    let nsd_input = "\
mmlsnsd:nsd:HEADER:version:reserved:reserved:diskName:serverList:localDiskName:
mmlsnsd:nsd:0:1:::disk1:filer1:/dev/dm-1:
mmlsnsd:nsd:0:1:::disk2:filer1:/dev/dm-2:
";
    let nsds = Nsds::from_reader(nsd_input).unwrap();
    let text = nsds.cache_text();
    assert_eq!(text, "disk1:/dev/dm-1\ndisk2:/dev/dm-2\n");

    let back = mmoxi::nsd::from_cache_text(&text, "filer1").unwrap();
    let back = back.into_inner();
    assert_eq!(back.len(), 2);
    assert_eq!(back[0].name(), "disk1");
    assert_eq!(back[0].device(), "/dev/dm-1");
    assert_eq!(back[0].server_list(), &vec![String::from("filer1")]);
    assert_eq!(back[1].name(), "disk2");
    assert_eq!(back[1].device(), "/dev/dm-2");
}

#[test]
fn nmon_groups_text() {
    let nsd_input = "\
mmlsnsd:nsd:HEADER:version:reserved:reserved:diskName:serverList:localDiskName:
mmlsnsd:nsd:0:1:::disk1:filer1:/dev/dm-1:
mmlsnsd:nsd:0:1:::disk2:filer1:/dev/dm-2:
";
    let disk_input = "\
mmlsdisk:disk:HEADER:version:reserved:reserved:nsdName:metadata:data:availability:storagePool:
mmlsdisk:disk:0:1:::disk1:yes:yes:up:system:
mmlsdisk:disk:0:1:::disk2:no:yes:up:system:
";
    let nsds = Nsds::from_reader(nsd_input).unwrap();
    let disks = Disks::from_reader(disk_input).unwrap();
    let fs_disks = vec![(String::from("gpfs1"), disks)];
    let pooled = local_pooled(&nsds, &fs_disks);

    let text = mmoxi::nmon::by_pool(&pooled);
    assert_eq!(text, "gpfs1-system dm-1 dm-2\n");
}

#[test]
fn pool_block_aggregation() {
    let nsd_input = "\
mmlsnsd:nsd:HEADER:version:reserved:reserved:diskName:serverList:localDiskName:
mmlsnsd:nsd:0:1:::disk1:filer1:/dev/dm-1:
mmlsnsd:nsd:0:1:::disk2:filer1:/dev/dm-2:
";
    let disk_input = "\
mmlsdisk:disk:HEADER:version:reserved:reserved:nsdName:metadata:data:availability:storagePool:
mmlsdisk:disk:0:1:::disk1:yes:yes:up:system:
mmlsdisk:disk:0:1:::disk2:no:yes:up:system:
";
    let nsds = Nsds::from_reader(nsd_input).unwrap();
    let disks = Disks::from_reader(disk_input).unwrap();
    let fs_disks = vec![(String::from("gpfs1"), disks)];
    let pooled = local_pooled(&nsds, &fs_disks);

    let stats = vec![
        (String::from("dm-1"), stat_with(10, 1)),
        (String::from("dm-2"), stat_with(20, 2)),
        (String::from("sda"), stat_with(999, 999)),
    ];
    let metrics = mmoxi::prom::pool_block_device_metrics(&pooled, &stats).unwrap();
    let entries = metrics.entries();
    assert_eq!(entries.len(), 1);
    assert_eq!(entries[0].0.fs(), "gpfs1");
    assert_eq!(entries[0].0.pool(), "system");
    assert_eq!(entries[0].1.read_ios, 30);
    assert_eq!(entries[0].1.write_ios, 3);
    assert_eq!(entries[0].1.read_sectors, 240);
    // 512-byte sectors
    assert_eq!(entries[0].1.read_bytes(), 240 * 512);
}

#[test]
fn last_cluster_manager_row_wins() {
    let input = "\
mmlsmgr:clusterManager:HEADER:version:reserved:reserved:manager:
mmlsmgr:clusterManager:0:1:::filer1:
mmlsmgr:clusterManager:0:1:::filer9:
";
    let manager = mmoxi::mgr::Manager::from_reader(input).unwrap();
    assert_eq!(manager.cluster().name(), "filer9");
}

#[test]
fn last_filesystem_total_wins() {
    let input = "\
mmdf:fsTotal:HEADER:version:reserved:reserved:fsSize:freeBlocks:freeBlocksPct:freeFragments:freeFragmentsPct:
mmdf:fsTotal:0:1:::100:50:50:10:10:
mmdf:fsTotal:0:1:::200:80:40:20:10:
";
    let summary = FsSummary::from_reader("gpfs1", input).unwrap();
    assert_eq!(summary.total().size(), 200);
    assert_eq!(summary.total().free_blocks(), 80);
}

#[test]
fn fileset_comment_unescape() {
    let out = mmoxi::text::unescape_colons("12%3A30%3A00");
    assert_eq!(out, "12:30:00");
    let plain = mmoxi::text::unescape_colons("no escapes %3 A");
    assert_eq!(plain, "no escapes %3 A");
}
