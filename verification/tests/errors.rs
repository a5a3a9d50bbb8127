//! The failure conditions: each error variant provoked by an input that
//! earns it, and the tolerated cases that must not fail.

use mmoxi::disk::Availability;
use mmoxi::disk::Disks;
use mmoxi::error::Error;
use mmoxi::nsd::from_cache_text;
use mmoxi::nsd::local_pooled;
use mmoxi::nsd::Nsds;
use mmoxi::pool::parse_mmlspool_output;
use mmoxi::quota::Type;
use mmoxi::sysfs::block::Stat;
use mmoxi::text::parse_i64;
use mmoxi::text::parse_u64;

#[test]
fn empty_input() {
    let nsds = Nsds::from_reader("").unwrap();
    assert_eq!(nsds.into_inner().len(), 0);
    let pools = parse_mmlspool_output("").unwrap();
    assert_eq!(pools.len(), 0);
    let tally = mmoxi::policy::pool_user_distribution::sum("").unwrap();
    assert_eq!(tally.len(), 0);
}

#[test]
fn unterminated_final_line() {
    let input = "\
mmlsnsd:nsd:HEADER:version:reserved:reserved:diskName:serverList:localDiskName:
mmlsnsd:nsd:0:1:::disk1:filer1:/dev/dm-1:";
    let nsds = Nsds::from_reader(input).unwrap().into_inner();
    assert_eq!(nsds.len(), 1);
    assert_eq!(nsds[0].name(), "disk1");
}

#[test]
fn carriage_return_line_endings() {
    let input = "mmlsnsd:nsd:HEADER:version:reserved:reserved:diskName:serverList:localDiskName:\r\nmmlsnsd:nsd:0:1:::disk1:filer1:/dev/dm-1:\r\n";
    let nsds = Nsds::from_reader(input).unwrap().into_inner();
    assert_eq!(nsds.len(), 1);
    assert_eq!(nsds[0].device(), "/dev/dm-1");
}

#[test]
fn data_row_before_header() {
    // a data row with no header yet: the first required column is missing
    let input = "mmlsnsd:nsd:0:1:::disk1:filer1:/dev/dm-1:\n";
    let err = Nsds::from_reader(input).unwrap_err();
    assert_eq!(err, Error::MissingColumn(String::from("diskName")));
}

#[test]
fn header_without_recognized_columns() {
    // a header with no recognized columns is valid until a decode is
    // attempted against it
    let input = "mmlsnsd:nsd:HEADER:version:reserved:reserved:other:\n";
    let nsds = Nsds::from_reader(input).unwrap();
    assert_eq!(nsds.into_inner().len(), 0);
}

#[test]
fn bad_boolean_token() {
    let input = "\
mmlsdisk:disk:HEADER:version:reserved:reserved:nsdName:metadata:data:availability:storagePool:
mmlsdisk:disk:0:1:::disk1:maybe:yes:up:system:
";
    let err = Disks::from_reader(input).unwrap_err();
    assert_eq!(
        err,
        Error::BadValue(String::from("metadata"), String::from("maybe"))
    );
}

#[test]
fn short_row() {
    // the header places storagePool beyond this row's end
    let input = "\
mmlsdisk:disk:HEADER:version:reserved:reserved:nsdName:metadata:data:availability:storagePool:
mmlsdisk:disk:0:1:::disk1:yes:yes:up
";
    let err = Disks::from_reader(input).unwrap_err();
    assert_eq!(err, Error::RowTooShort(String::from("storagePool")));
}

#[test]
fn unusable_line() {
    let input = "gibberish\n";
    let err = Nsds::from_reader(input).unwrap_err();
    assert_eq!(err, Error::BadLine(String::from("gibberish")));
}

#[test]
fn unknown_availability_tolerated() {
    let input = "\
mmlsdisk:disk:HEADER:version:reserved:reserved:nsdName:metadata:data:availability:storagePool:
mmlsdisk:disk:0:1:::disk1:yes:yes:suspended:system:
";
    let disks = Disks::from_reader(input).unwrap().into_inner();
    assert_eq!(
        *disks[0].availability(),
        Availability::Unknown(String::from("suspended"))
    );
    assert_eq!(disks[0].availability().as_str(), "suspended");
}

#[test]
fn unknown_quota_type_tolerated() {
    let input = "\
mmrepquota:x:HEADER:version:reserved:reserved:filesystemName:quotaType:id:name:blockUsage:blockQuota:blockLimit:blockInDoubt:filesUsage:filesQuota:filesLimit:filesInDoubt:filesetname:
mmrepquota:x:0:1:::gpfs1:PRJ:7:p7:1:2:3:4:5:6:7:8:fs1:
";
    let data = mmoxi::quota::Data::from_reader(input).unwrap();
    let entries = data.entries();
    assert_eq!(entries.len(), 1);
    assert_eq!(
        *entries[0].quota_type(),
        Type::Unknown(String::from("PRJ"))
    );
    assert_eq!(entries[0].quota_type().as_str(), "PRJ");
}

#[test]
fn negative_quota_usage() {
    let input = "\
mmrepquota:u:HEADER:version:reserved:reserved:filesystemName:quotaType:id:name:blockUsage:blockQuota:blockLimit:blockInDoubt:filesUsage:filesQuota:filesLimit:filesInDoubt:filesetname:
mmrepquota:u:0:1:::gpfs1:USR:1:u1:-42:2:3:4:-5:6:7:8:fs1:
";
    let data = mmoxi::quota::Data::from_reader(input).unwrap();
    let entries = data.entries();
    assert_eq!(entries[0].block().usage(), -42);
    assert_eq!(entries[0].files().usage(), -5);
}

#[test]
fn pool_without_sizes() {
    let input = "\
Storage pools
Name  Id  BlkSize Data Meta
empty 0 4 MB no no 0 0 ( 0%) 0 0 ( 0%)
";
    let err = parse_mmlspool_output(input).unwrap_err();
    assert_eq!(err, Error::NoPoolSizes(String::from("empty")));
}

#[test]
fn pool_bad_number() {
    let input = "\
Storage pools
Name  Id  BlkSize Data Meta
bad 0 4 MB yes no x12 7 ( 0%) 0 0 ( 0%)
";
    let err = parse_mmlspool_output(input).unwrap_err();
    assert_eq!(
        err,
        Error::BadValue(String::from("dataTotalKB"), String::from("x12"))
    );
}

#[test]
fn cache_line_without_device() {
    let err = from_cache_text("disk1\n", "filer1").unwrap_err();
    assert_eq!(err, Error::BadLine(String::from("disk1")));
}

#[test]
fn device_without_name() {
    let nsd_input = "\
mmlsnsd:nsd:HEADER:version:reserved:reserved:diskName:serverList:localDiskName:
mmlsnsd:nsd:0:1:::disk1:filer1:/dev/:
";
    let disk_input = "\
mmlsdisk:disk:HEADER:version:reserved:reserved:nsdName:metadata:data:availability:storagePool:
mmlsdisk:disk:0:1:::disk1:yes:yes:up:system:
";
    let nsds = Nsds::from_reader(nsd_input).unwrap();
    let disks = Disks::from_reader(disk_input).unwrap();
    let fs_disks = vec![(String::from("gpfs1"), disks)];
    let pooled = local_pooled(&nsds, &fs_disks);

    let stats: Vec<(String, Stat)> = vec![(String::from("dm-1"), Stat::zero())];
    let err = mmoxi::prom::pool_block_device_metrics(&pooled, &stats).unwrap_err();
    assert_eq!(err, Error::BadDevicePath(String::from("/dev/")));
}

#[test]
fn device_without_stat() {
    let nsd_input = "\
mmlsnsd:nsd:HEADER:version:reserved:reserved:diskName:serverList:localDiskName:
mmlsnsd:nsd:0:1:::disk1:filer1:/dev/dm-9:
";
    let disk_input = "\
mmlsdisk:disk:HEADER:version:reserved:reserved:nsdName:metadata:data:availability:storagePool:
mmlsdisk:disk:0:1:::disk1:yes:yes:up:system:
";
    let nsds = Nsds::from_reader(nsd_input).unwrap();
    let disks = Disks::from_reader(disk_input).unwrap();
    let fs_disks = vec![(String::from("gpfs1"), disks)];
    let pooled = local_pooled(&nsds, &fs_disks);

    let stats: Vec<(String, Stat)> = vec![(String::from("dm-1"), Stat::zero())];
    let err = mmoxi::prom::pool_block_device_metrics(&pooled, &stats).unwrap_err();
    assert_eq!(err, Error::NoDeviceStat(String::from("/dev/dm-9")));
}

#[test]
fn stat_missing_and_bad_fields() {
    let err = Stat::parse("1 2 3\n").unwrap_err();
    assert_eq!(err, Error::MissingColumn(String::from("read ticks")));

    let err = Stat::parse("1 2 3 4 5 six 7 8 9 10 11\n").unwrap_err();
    assert_eq!(
        err,
        Error::BadValue(String::from("write merges"), String::from("six"))
    );
}

#[test]
fn policy_line_without_payload() {
    let err = mmoxi::policy::pool_user_distribution::sum("1 2 3\n").unwrap_err();
    assert_eq!(err, Error::MissingColumn(String::from("payload")));

    let err = mmoxi::policy::pool_user_distribution::sum("1 2 3 4 1000\n").unwrap_err();
    assert_eq!(err, Error::MissingColumn(String::from("FILE_SIZE")));

    let err = mmoxi::policy::pool_user_distribution::sum("1 2 3 4 1000:5\n").unwrap_err();
    assert_eq!(err, Error::MissingColumn(String::from("KB_ALLOCATED")));

    let err = mmoxi::policy::pool_user_distribution::sum("1 2 3 4 1000:x:5\n").unwrap_err();
    assert_eq!(
        err,
        Error::BadValue(String::from("FILE_SIZE"), String::from("x"))
    );
}

#[test]
fn integer_parsing_bounds() {
    assert_eq!(parse_u64("0"), Some(0));
    assert_eq!(parse_u64("+7"), Some(7));
    assert_eq!(parse_u64("18446744073709551615"), Some(u64::MAX));
    assert_eq!(parse_u64("18446744073709551616"), None);
    assert_eq!(parse_u64(""), None);
    assert_eq!(parse_u64("-1"), None);
    assert_eq!(parse_u64("12a"), None);

    assert_eq!(parse_i64("-42"), Some(-42));
    assert_eq!(parse_i64("9223372036854775807"), Some(i64::MAX));
    assert_eq!(parse_i64("9223372036854775808"), None);
    assert_eq!(parse_i64("-9223372036854775808"), Some(i64::MIN));
    assert_eq!(parse_i64("-9223372036854775809"), None);
    assert_eq!(parse_i64("-"), None);
}
