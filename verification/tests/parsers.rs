//! The parsers, each on a representative admin-command output.

use mmoxi::df::FsSummary;
use mmoxi::diag::Deadlock;
use mmoxi::disk::Availability;
use mmoxi::disk::Disks;
use mmoxi::fs::Filesystems;
use mmoxi::mgr::Manager;
use mmoxi::nsd::Nsds;
use mmoxi::pool::parse_mmlspool_output;
use mmoxi::pool::Size;
use mmoxi::quota::Data;
use mmoxi::quota::Type;
use mmoxi::state::States;
use mmoxi::sysfs::block::Stat;

const DF_EXAMPLE: &str = "\
mmdf:nsd:HEADER:version:reserved:reserved:nsdName:storagePool:diskSize:failureGroup:metadata:data:freeBlocks:freeBlocksPct:freeFragments:freeFragmentsPct:diskAvailableForAlloc:
mmdf:nsd:0:1:::filer3_nvme02:nvme:6251223376:3:no:yes:2703523840:43:621356336:10:yes:
mmdf:nsd:0:1:::filer3_nvme03:nvme:6251223376:3:no:yes:2696495104:43:621595888:10:yes:
mmdf:nsd:0:1:::filer3_nvme04:nvme:6251223376:3:no:yes:2703433728:43:618577952:10:yes:
mmdf:poolTotal:HEADER:version:reserved:reserved:poolName:poolSize:freeBlocks:freeBlocksPct:freeFragments:freeFragmentsPct:maxDiskSize:
mmdf:poolTotal:0:1:::system:50009787008:34200018944:68:1056310560:2:1153997373440:
mmdf:poolTotal:0:1:::nvme:350068509056:98512142336:28:39131446656:11:1153997373440:
mmdf:fsTotal:HEADER:version:reserved:reserved:fsSize:freeBlocks:freeBlocksPct:freeFragments:freeFragmentsPct:
mmdf:fsTotal:0:1:::5055008965696:2115551961088:42:92600022848:2:
";

#[test]
fn df_parse() {
    let summary = FsSummary::from_reader("gpfs1", DF_EXAMPLE).unwrap();

    let nsds = summary.nsds();
    assert_eq!(nsds.len(), 3);

    assert_eq!(nsds[0].name(), "filer3_nvme02");
    assert_eq!(nsds[0].pool(), "nvme");
    assert_eq!(nsds[0].size(), 6_251_223_376);
    assert!(!nsds[0].holds_metadata());
    assert!(nsds[0].holds_objectdata());
    assert_eq!(nsds[0].free_blocks(), 2_703_523_840);
    assert_eq!(nsds[0].free_blocks_percent(), 43);
    assert_eq!(nsds[0].free_fragments(), 621_356_336);
    assert_eq!(nsds[0].free_fragments_percent(), 10);

    assert_eq!(nsds[1].name(), "filer3_nvme03");
    assert_eq!(nsds[1].free_blocks(), 2_696_495_104);
    assert_eq!(nsds[1].free_fragments(), 621_595_888);

    assert_eq!(nsds[2].name(), "filer3_nvme04");
    assert_eq!(nsds[2].free_blocks(), 2_703_433_728);
    assert_eq!(nsds[2].free_fragments(), 618_577_952);

    let pools = summary.pools();
    assert_eq!(pools.len(), 2);
    assert_eq!(pools[0].name(), "system");
    assert_eq!(pools[0].size(), 50_009_787_008);
    assert_eq!(pools[0].free_blocks(), 34_200_018_944);
    assert_eq!(pools[0].free_blocks_percent(), 68);
    assert_eq!(pools[0].free_fragments(), 1_056_310_560);
    assert_eq!(pools[0].free_fragments_percent(), 2);
    assert_eq!(pools[1].name(), "nvme");
    assert_eq!(pools[1].size(), 350_068_509_056);
    assert_eq!(pools[1].free_blocks(), 98_512_142_336);
    assert_eq!(pools[1].free_blocks_percent(), 28);
    assert_eq!(pools[1].free_fragments(), 39_131_446_656);
    assert_eq!(pools[1].free_fragments_percent(), 11);

    let total = summary.total();
    assert_eq!(total.size(), 5_055_008_965_696);
    assert_eq!(total.free_blocks(), 2_115_551_961_088);
    assert_eq!(total.free_blocks_percent(), 42);
    assert_eq!(total.free_fragments(), 92_600_022_848);
    assert_eq!(total.free_fragments_percent(), 2);
}

#[test]
fn parse_empty() {
    let input = "\
mmdiag:deadlock:HEADER:version:reserved:reserved:currentTime:
mmdiag:deadlock:0:1:::2023-01-01 12%3A00%3A00:
";
    let data = Deadlock::from_reader(input).unwrap();
    assert_eq!(data.nodes().len(), 0);
}

#[test]
fn diag_parse() {
    let input = "\
mmdiag:deadlockNodes:HEADER:version:reserved:reserved:nodeList:
mmdiag:deadlockNodes:0:1:::filer3-ib0:
";
    let data = Deadlock::from_reader(input).unwrap();
    assert_eq!(data.nodes().len(), 1);
    assert_eq!(data.nodes()[0], "filer3-ib0");
}

#[test]
fn disk_parse() {
    let input = "\
mmlsdisk:disk:HEADER:version:reserved:reserved:nsdName:driverType:sectorSize:failureGroup:metadata:data:status:availability:diskID:storagePool:remarks:
mmlsdisk:disk:0:1:::disk1:nsd:512:1:yes:no:ready:up:1:system:desc:
mmlsdisk:disk:0:1:::disk2:nsd:512:2:no:yes:ready:down:2:nvme::
mmlsdisk:disk:0:1:::disk3:nsd:512:3:no:yes:ready:recovering:3:nlsas::
mmlsdisk:disk:0:1:::disk4:nsd:512:3:no:yes:ready:unrecovered:4:nlsas::
";
    let disks = Disks::from_reader(input).unwrap();
    let disks = disks.into_inner();
    assert_eq!(disks.len(), 4);

    assert_eq!(disks[0].nsd_name(), "disk1");
    assert!(disks[0].is_metadata());
    assert!(!disks[0].is_objectdata());
    assert_eq!(*disks[0].availability(), Availability::Up);
    assert_eq!(disks[0].pool(), "system");

    assert_eq!(disks[1].nsd_name(), "disk2");
    assert!(!disks[1].is_metadata());
    assert!(disks[1].is_objectdata());
    assert_eq!(*disks[1].availability(), Availability::Down);
    assert_eq!(disks[1].pool(), "nvme");

    assert_eq!(disks[2].nsd_name(), "disk3");
    assert_eq!(*disks[2].availability(), Availability::Recovering);
    assert_eq!(disks[2].pool(), "nlsas");

    assert_eq!(disks[3].nsd_name(), "disk4");
    assert_eq!(*disks[3].availability(), Availability::Unrecovered);
    assert_eq!(disks[3].pool(), "nlsas");
}

#[test]
fn fileset_parse() {
    let input = "\
mmlsfileset:filesetList:HEADER:version:reserved:reserved:filesystemName:filesetName:id:comment:isInodeSpaceOwner:maxInodes:allocInodes:
mmlsfileset:filesetList:0:1:::gpfs1:public:1::yes:20971520:5251072:
mmlsfileset:filesetList:0:1:::gpfs1:work:2::yes:295313408:260063232:
mmlsfileset:filesetList:0:1:::gpfs1:data_foo:3:end of project%3A 2026-11:yes:20000768:1032192:
mmlsfileset:filesetList:0:1:::gpfs1:data_db:4:end of project%3A 2042-12:yes:20971520:5251072:
mmlsfileset:filesetList:0:1:::gpfs1:data_db_foo:5:end of project%3A 2030-12:no:0:0:
";
    let filesets = mmoxi::fileset::from_reader(input).unwrap();
    assert_eq!(filesets.len(), 5);

    assert_eq!(filesets[0].name(), "public");
    assert_eq!(filesets[0].filesystem_name(), "gpfs1");
    assert!(filesets[0].is_inode_space_owner());
    assert_eq!(filesets[0].max_inodes(), 20_971_520);
    assert_eq!(filesets[0].alloc_inodes(), 5_251_072);
    assert_eq!(filesets[0].comment(), None);

    assert_eq!(filesets[1].name(), "work");
    assert!(filesets[1].is_inode_space_owner());
    assert_eq!(filesets[1].max_inodes(), 295_313_408);
    assert_eq!(filesets[1].alloc_inodes(), 260_063_232);
    assert_eq!(filesets[1].comment(), None);

    assert_eq!(filesets[2].name(), "data_foo");
    assert_eq!(filesets[2].max_inodes(), 20_000_768);
    assert_eq!(filesets[2].alloc_inodes(), 1_032_192);
    assert_eq!(
        filesets[2].comment(),
        Some(&String::from("end of project: 2026-11"))
    );

    assert_eq!(filesets[3].name(), "data_db");
    assert_eq!(
        filesets[3].comment(),
        Some(&String::from("end of project: 2042-12"))
    );

    assert_eq!(filesets[4].name(), "data_db_foo");
    assert!(!filesets[4].is_inode_space_owner());
    assert_eq!(filesets[4].max_inodes(), 0);
    assert_eq!(filesets[4].alloc_inodes(), 0);
    assert_eq!(
        filesets[4].comment(),
        Some(&String::from("end of project: 2030-12"))
    );
}

#[test]
fn fs_parse() {
    let input = "\
mmlsfs:all:HEADER:version:reserved:reserved:deviceName:fieldName:data:remarks:
mmlsfs::0:1:::gpfs1:minFragmentSize:8192::
mmlsfs::0:1:::gpfs2:minFragmentSize:8192::
";
    let fs = Filesystems::from_reader(input).unwrap();
    let fs = fs.into_inner();
    assert_eq!(fs.len(), 2);
    assert_eq!(fs[0].name(), "gpfs1");
    assert_eq!(fs[1].name(), "gpfs2");
}

#[test]
fn manager() {
    let input = "\
mmlsmgr:clusterManager:HEADER:version:reserved:reserved:manager:
mmlsmgr:clusterManager:0:1:::filer1:
mmlsmgr:filesystemManager:HEADER:version:reserved:reserved:filesystem:manager:managerIP:
mmlsmgr:filesystemManager:0:1:::gpfs1:filer2:10.10.21.2:
mmlsmgr:filesystemManager:0:1:::gpfs2:filer3:10.10.21.3:
";
    let manager = Manager::from_reader(input).unwrap();
    assert_eq!(manager.cluster().name(), "filer1");

    let fs = manager.fs();
    assert_eq!(fs.len(), 2);
    assert_eq!(fs[0].fs_name(), "gpfs1");
    assert_eq!(fs[0].manager_name(), "filer2");
    assert_eq!(fs[0].manager_ip(), "10.10.21.2");
    assert_eq!(fs[1].fs_name(), "gpfs2");
    assert_eq!(fs[1].manager_name(), "filer3");
    assert_eq!(fs[1].manager_ip(), "10.10.21.3");
}

const NSD_EXAMPLE: &str = "\
mmlsnsd:nsd:HEADER:version:reserved:reserved:diskName:volumeId:serverList:devType:localDiskName:remarks:
mmlsnsd:nsd:0:1:::disk1:0A0A0A01:filer1:dmm:/dev/dm-1::
mmlsnsd:nsd:0:1:::disk2:0A0A0A02:filer2:dmm:/dev/dm-2::
mmlsnsd:nsd:0:1:::disk3:0A0A0A03:filer3:dmm:/dev/dm-3::
";

#[test]
fn nsd_parse() {
    let nsds = Nsds::from_reader(NSD_EXAMPLE).unwrap();
    let nsds = nsds.into_inner();
    assert_eq!(nsds.len(), 3);

    assert_eq!(nsds[0].name(), "disk1");
    assert_eq!(nsds[0].server_list(), &vec![String::from("filer1")]);
    assert_eq!(nsds[0].device(), "/dev/dm-1");

    assert_eq!(nsds[1].name(), "disk2");
    assert_eq!(nsds[1].server_list(), &vec![String::from("filer2")]);
    assert_eq!(nsds[1].device(), "/dev/dm-2");

    assert_eq!(nsds[2].name(), "disk3");
    assert_eq!(nsds[2].server_list(), &vec![String::from("filer3")]);
    assert_eq!(nsds[2].device(), "/dev/dm-3");
}

#[test]
fn pool_user_distribution_parse() {
    let input = "\
353314 939800191 0  1000:100000:128 -- /gpfs1/pool/f1
353315 939800191 0  1000:100000:128 -- /gpfs1/pool/f2
353316 939800191 0  1000:50000:128 -- /gpfs1/pool/f3
353317 939800191 0  1000:50000:128 -- /gpfs1/pool/f4
353318 939800191 0  1000:22255:128 -- /gpfs1/pool/f5
353319 939800191 0  1000:0:0 -- /gpfs1/pool/f6
353320 939800191 0  1001:100000:160 -- /gpfs1/pool/g1
353321 939800191 0  1001:100000:160 -- /gpfs1/pool/g2
353322 939800191 0  1001:100000:160 -- /gpfs1/pool/g3
353323 939800191 0  1001:100000:160 -- /gpfs1/pool/g4
353324 939800191 0  1001:55067:160 -- /gpfs1/pool/g5
353325 939800191 0  1001:0:160 -- /gpfs1/pool/g6
";
    let mut user_sizes = mmoxi::policy::pool_user_distribution::sum(input).unwrap();
    user_sizes.sort_unstable();
    assert_eq!(user_sizes.len(), 2);

    assert_eq!(user_sizes[0].0, "1000");
    assert_eq!(user_sizes[0].1.files, 6);
    assert_eq!(user_sizes[0].1.file_size, 322_255);
    assert_eq!(user_sizes[0].1.kb_allocated, 640);

    assert_eq!(user_sizes[1].0, "1001");
    assert_eq!(user_sizes[1].1.files, 6);
    assert_eq!(user_sizes[1].1.file_size, 455_067);
    assert_eq!(user_sizes[1].1.kb_allocated, 960);
}

const POOL_EXAMPLE: &str = "\
Storage pools in file system at '/gpfs1':
Name  Id  BlkSize Data Meta Total Data in (KB)  Free Data in (KB)  Total Meta in (KB)  Free Meta in (KB)
system 0 4 MB no yes 0 0 ( 0%) 25004867584 9798959104 ( 39%)
nvme 65537 4 MB yes no 162531639296 114505474048 ( 70%) 0 0 ( 0%)
nlsas 65538 8 MB yes no 1997953957888 1981410271232 ( 99%) 0 0 ( 0%)
dangerzone 65539 4 MB yes yes 42 42 ( 100%) 42 42 ( 100%)
";

#[test]
fn pool_parse() {
    let pools = parse_mmlspool_output(POOL_EXAMPLE).unwrap();
    assert_eq!(pools.len(), 4);

    assert_eq!(pools[0].name(), "system");
    assert!(pools[0].data().is_none());
    assert_eq!(
        pools[0].meta(),
        Some(&Size::new(25_004_867_584, 9_798_959_104))
    );

    assert_eq!(pools[1].name(), "nvme");
    assert_eq!(
        pools[1].data(),
        Some(&Size::new(162_531_639_296, 114_505_474_048))
    );
    assert!(pools[1].meta().is_none());
    assert_eq!(pools[1].data().unwrap().used_percent(), 29);

    assert_eq!(pools[2].name(), "nlsas");
    assert_eq!(
        pools[2].data(),
        Some(&Size::new(1_997_953_957_888, 1_981_410_271_232))
    );
    assert!(pools[2].meta().is_none());

    assert_eq!(pools[3].name(), "dangerzone");
    assert_eq!(pools[3].data(), Some(&Size::new(42, 42)));
    assert_eq!(pools[3].meta(), Some(&Size::new(42, 42)));
}

#[test]
fn quota_parse() {
    let input = "\
*** Report for FILESET quotas on gpfs1
mmrepquota:f:HEADER:version:reserved:reserved:filesystemName:quotaType:id:name:blockUsage:blockQuota:blockLimit:blockInDoubt:blockGrace:filesUsage:filesQuota:filesLimit:filesInDoubt:filesGrace:remarks:quota:defQuota:fid:filesetname:
mmrepquota:f:0:1:::gpfs1:FILESET:1:name1:950235440:4294967296:5368709120:406372448:none:553624:5000000:20000000:0:none:e:on:off:1::
*** Report for USR quotas on gpfs1
mmrepquota:u:HEADER:version:reserved:reserved:filesystemName:quotaType:id:name:blockUsage:blockQuota:blockLimit:blockInDoubt:blockGrace:filesUsage:filesQuota:filesLimit:filesInDoubt:filesGrace:remarks:quota:defQuota:fid:filesetname:
mmrepquota:u:0:1:::gpfs1:USR:62347:62347:455894288:0:0:0:none:25738:0:0:0:none:e:on:off:1:fileset1:
";
    let parsed = Data::from_reader(input).unwrap();
    let entries = parsed.entries();
    assert_eq!(entries.len(), 2);

    assert_eq!(entries[0].fs_name(), "gpfs1");
    assert_eq!(*entries[0].quota_type(), Type::Fileset);
    assert_eq!(entries[0].id(), 1);
    assert_eq!(entries[0].name(), "name1");
    assert_eq!(entries[0].block().usage(), 950_235_440);
    assert_eq!(entries[0].block().quota(), 4_294_967_296);
    assert_eq!(entries[0].block().limit(), 5_368_709_120);
    assert_eq!(entries[0].block().in_doubt(), 406_372_448);
    assert_eq!(entries[0].files().usage(), 553_624);
    assert_eq!(entries[0].files().quota(), 5_000_000);
    assert_eq!(entries[0].files().limit(), 20_000_000);
    assert_eq!(entries[0].files().in_doubt(), 0);
    assert_eq!(entries[0].fileset_name(), "");

    assert_eq!(entries[1].fs_name(), "gpfs1");
    assert_eq!(*entries[1].quota_type(), Type::User);
    assert_eq!(entries[1].id(), 62_347);
    assert_eq!(entries[1].name(), "62347");
    assert_eq!(entries[1].block().usage(), 455_894_288);
    assert_eq!(entries[1].block().quota(), 0);
    assert_eq!(entries[1].files().usage(), 25_738);
    assert_eq!(entries[1].fileset_name(), "fileset1");
}

#[test]
fn state_parse() {
    let input = "\
mmgetstate::HEADER:version:reserved:reserved:nodeName:nodeNumber:state:quorum:nodesUp:totalNodes:remarks:cnfsState:
mmgetstate::0:1:::filer1:1:active:1:1:3:quorum node:(undefined):
";
    let states = States::from_reader(input).unwrap();
    let states = states.states();
    assert_eq!(states.len(), 1);
    assert_eq!(states[0].name(), "filer1");
    assert_eq!(states[0].state(), "active");
}

#[test]
fn parse_new() {
    let input =
        "36290 29495 3809274 13845 128563 160891 8436842 99801 0 125014 154343 0 0 0 0\n";
    let stat = Stat::parse(input).unwrap();
    assert_eq!(36290, stat.read_ios);
    assert_eq!(29495, stat.read_merges);
    assert_eq!(3_809_274, stat.read_sectors);
    assert_eq!(13845, stat.read_ticks);
    assert_eq!(128_563, stat.write_ios);
    assert_eq!(160_891, stat.write_merges);
    assert_eq!(8_436_842, stat.write_sectors);
    assert_eq!(99801, stat.write_ticks);
    assert_eq!(0, stat.in_flight);
    assert_eq!(125_014, stat.io_ticks);
    assert_eq!(154_343, stat.time_in_queue);
}

#[test]
fn parse_old() {
    let input =
        "79630 116 6466654 416960 6744190 8022528 216108928 164633155 0 33293921 165047391\n";
    let stat = Stat::parse(input).unwrap();
    assert_eq!(79630, stat.read_ios);
    assert_eq!(116, stat.read_merges);
    assert_eq!(6_466_654, stat.read_sectors);
    assert_eq!(416_960, stat.read_ticks);
    assert_eq!(6_744_190, stat.write_ios);
    assert_eq!(8_022_528, stat.write_merges);
    assert_eq!(216_108_928, stat.write_sectors);
    assert_eq!(164_633_155, stat.write_ticks);
    assert_eq!(0, stat.in_flight);
    assert_eq!(33_293_921, stat.io_ticks);
    assert_eq!(165_047_391, stat.time_in_queue);
}
