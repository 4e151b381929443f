use kexlinux::blockdev::{
    blkid_args, get_filesystems, lenient_devices, mount_args, BlockDev, BlockDevError, Mount, FS,
};

fn dev(name: &str, major: u8, minor: u8, has_holders: bool, partitions: Vec<BlockDev>) -> BlockDev {
    BlockDev {
        path: format!("/dev/{}", name),
        name: String::from(name),
        dev_major: major,
        dev_minor: minor,
        has_holders,
        partitions,
    }
}

const FS_OUTPUT: &str = "DEVNAME=/dev/sda1\nUSAGE=filesystem\nTYPE=ext4\n";

#[test]
fn it_works() {
    println!("DEVICE: {:#?}", get_filesystems(Vec::new()));
}

#[test]
fn parse_u8_accepts_decimals() {
    assert_eq!(BlockDev::parse_u8(Some("17")).unwrap(), 17);
    assert_eq!(BlockDev::parse_u8(Some("0")).unwrap(), 0);
    assert_eq!(BlockDev::parse_u8(Some("+255")).unwrap(), 255);
}

#[test]
fn parse_u8_rejects_bad_input() {
    assert!(BlockDev::parse_u8(None).is_err());
    assert!(BlockDev::parse_u8(Some("")).is_err());
    assert!(BlockDev::parse_u8(Some("+")).is_err());
    assert!(BlockDev::parse_u8(Some("256")).is_err());
    assert!(BlockDev::parse_u8(Some("1a")).is_err());
    assert!(BlockDev::parse_u8(Some("-1")).is_err());
    assert!(BlockDev::parse_u8(Some("99999999999999999999")).is_err());
}

#[test]
fn major_minor_parsed_from_metadata() {
    assert_eq!(BlockDev::get_major_minor(" 8:1\n").unwrap(), (8, 1));
    assert_eq!(BlockDev::get_major_minor("253:0").unwrap(), (253, 0));
    assert!(BlockDev::get_major_minor("8").is_err());
    assert!(BlockDev::get_major_minor("8:1:2").is_err());
    assert!(BlockDev::get_major_minor("").is_err());
    assert!(BlockDev::get_major_minor("a:b").is_err());
}

#[test]
fn from_sys_path_builds_record() {
    let d = BlockDev::from_sys_path(String::from("sda"), "8:0\n", false, Vec::new()).unwrap();
    assert_eq!(d.name, "sda");
    assert_eq!(d.path, "/dev/sda");
    assert_eq!(d.dev_major, 8);
    assert_eq!(d.dev_minor, 0);
    assert!(!d.has_holders);
    assert!(d.partitions.is_empty());
}

#[test]
fn from_sys_path_propagates_parse_failure() {
    assert!(BlockDev::from_sys_path(String::from("sda"), "what", false, Vec::new()).is_err());
}

#[test]
fn from_dev_path_finds_matching_record() {
    let devs = vec![
        dev("sda", 8, 0, false, Vec::new()),
        dev("sdb", 8, 16, false, Vec::new()),
    ];
    let found = BlockDev::from_dev_path(0x0810, devs).unwrap();
    assert_eq!(found.name, "sdb");
}

#[test]
fn from_dev_path_errors_when_unmatched() {
    let devs = vec![dev("sda", 8, 0, false, Vec::new())];
    assert!(BlockDev::from_dev_path(0x0900, devs).is_err());
}

#[test]
fn lenient_enumeration_skips_failures() {
    let outcomes: Vec<Result<BlockDev, BlockDevError>> = vec![
        Ok(dev("sda", 8, 0, false, Vec::new())),
        Err(BlockDevError {}),
        Ok(dev("sdb", 8, 16, false, Vec::new())),
    ];
    let devs = lenient_devices(outcomes);
    assert_eq!(devs.len(), 2);
    assert_eq!(devs[0].name, "sda");
    assert_eq!(devs[1].name, "sdb");
}

#[test]
fn blkid_output_classifies_filesystem() {
    assert_eq!(
        FS::parse_blkid_output(String::from(FS_OUTPUT)).unwrap(),
        "ext4"
    );
}

#[test]
fn blkid_output_rejects_other_usage() {
    assert!(FS::parse_blkid_output(String::from("USAGE=swap\nTYPE=swap\n")).is_err());
    assert!(FS::parse_blkid_output(String::from("TYPE=ext4\n")).is_err());
    assert!(FS::parse_blkid_output(String::from("USAGE=filesystem\n")).is_err());
    assert!(FS::parse_blkid_output(String::from("")).is_err());
}

#[test]
fn probe_rejects_devices_with_holders_or_partitions() {
    let held = dev("sda", 8, 0, true, Vec::new());
    assert!(FS::from_dev(held, Some(String::from(FS_OUTPUT))).is_err());

    let parent = dev(
        "sdb",
        8,
        16,
        false,
        vec![dev("sdb1", 8, 17, false, Vec::new())],
    );
    assert!(FS::from_dev(parent, Some(String::from(FS_OUTPUT))).is_err());
}

#[test]
fn probe_classifies_eligible_leaf() {
    let leaf = dev("sda1", 8, 1, false, Vec::new());
    let fs = FS::from_dev(leaf, Some(String::from(FS_OUTPUT))).unwrap();
    assert_eq!(fs.fs_type, "ext4");
    assert_eq!(fs.dev.name, "sda1");
}

#[test]
fn probe_failure_rejects_device() {
    let leaf = dev("sda1", 8, 1, false, Vec::new());
    assert!(FS::from_dev(leaf, None).is_err());
}

#[test]
fn batch_probe_filters_in_order() {
    let probed = vec![
        (dev("sda", 8, 0, true, Vec::new()), Some(String::from(FS_OUTPUT))),
        (dev("sdb1", 8, 17, false, Vec::new()), Some(String::from(FS_OUTPUT))),
        (dev("sdc1", 8, 33, false, Vec::new()), None),
        (dev("sdd1", 8, 49, false, Vec::new()), Some(String::from(FS_OUTPUT))),
    ];
    let fss = get_filesystems(probed);
    assert_eq!(fss.len(), 2);
    assert_eq!(fss[0].dev.name, "sdb1");
    assert_eq!(fss[1].dev.name, "sdd1");
    for fs in &fss {
        assert!(!fs.dev.has_holders);
        assert!(fs.dev.partitions.is_empty());
    }
}

#[test]
fn probe_and_mount_arguments() {
    let args = blkid_args(&String::from("/dev/sda1"));
    assert_eq!(
        args,
        vec!["-p", "-o", "export", "-s", "USAGE", "-s", "TYPE", "/dev/sda1"]
    );
    let margs = mount_args(
        &String::from("ext4"),
        &String::from("/dev/sda1"),
        &String::from("/tmp/kexlinux/mount"),
    );
    assert_eq!(
        margs,
        vec!["-t", "ext4", "-o", "ro", "/dev/sda1", "/tmp/kexlinux/mount"]
    );
}

#[test]
fn mount_release_is_idempotent() {
    let mut m = Mount::from_new(String::from("/tmp/kexlinux"), String::from("/tmp/kexlinux/mount"));
    assert_eq!(m.path(), "/tmp/kexlinux/mount");
    assert_eq!(m.umount(), Some(String::from("/tmp/kexlinux/mount")));
    assert_eq!(m.umount(), None);
    assert_eq!(m.umount(), None);
    assert_eq!(m.path(), "/tmp/kexlinux/mount");
}

#[test]
fn mount_reuse_never_unmounts() {
    let mut m = Mount::from_existing(String::from("/mnt/existing"));
    assert_eq!(m.path(), "/mnt/existing");
    assert_eq!(m.umount(), None);
    assert_eq!(m.umount(), None);
}

#[test]
fn blkid_output_is_trimmed_at_the_ends() {
    let out = String::from("  USAGE=filesystem\nTYPE=vfat  \n");
    assert_eq!(FS::parse_blkid_output(out).unwrap(), "vfat");
}

#[test]
fn lenient_enumeration_of_nothing() {
    assert!(lenient_devices(Vec::new()).is_empty());
}
