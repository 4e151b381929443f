use kexlinux::blockdev::{get_filesystems, BlockDev, FS};
use kexlinux::conf::{ConfTree, Global, Kernel, KernelFile, KernelOrConfig, Label, Labels};
use kexlinux::kexlinux::{
    check_kexec_output, discovery_candidates, first_bootable, kexec_args, load_kernel_args,
    resolution_strategy, sort_filesystems, ConfSourceType, Strategy, SyslinuxConf,
};

fn label(kernel: Option<&str>, initrd: Option<&str>, append: Option<&str>) -> Label {
    Label {
        kernel_or_config: KernelOrConfig::Kernel(Kernel {
            kernel_file: kernel.map(|k| KernelFile::Linux(String::from(k))),
            initrd: initrd.map(String::from),
            append: append.map(String::from),
        }),
    }
}

fn empty_label() -> Label {
    label(None, None, None)
}

fn kernel_of(l: &Label) -> &Kernel {
    match &l.kernel_or_config {
        KernelOrConfig::Kernel(k) => k,
    }
}

fn kernel_path(l: &Label) -> &str {
    match &kernel_of(l).kernel_file {
        Some(KernelFile::Linux(p)) => p,
        _ => panic!("label has no Linux kernel file"),
    }
}

fn tree(
    default: Option<&str>,
    ontimeout: Option<&str>,
    onerror: Option<&str>,
    label_defaults: Label,
    labels: Vec<(&str, Label)>,
) -> ConfTree {
    ConfTree {
        global: Global {
            timeout: None,
            total_timeout: None,
            default: default.map(String::from),
            ontimeout: ontimeout.map(String::from),
            onerror: onerror.map(String::from),
            label_defaults,
        },
        labels: Labels {
            entries: labels
                .into_iter()
                .map(|(n, l)| (String::from(n), l))
                .collect(),
        },
    }
}

fn fs(name: &str) -> FS {
    FS {
        dev: BlockDev {
            path: format!("/dev/{}", name),
            name: String::from(name),
            dev_major: 8,
            dev_minor: 0,
            has_holders: false,
            partitions: Vec::new(),
        },
        fs_type: String::from("ext4"),
    }
}

#[test]
fn natural_order_sorts_numeric_runs_by_value() {
    let sorted = sort_filesystems(vec![fs("sda10"), fs("sda"), fs("sda2")]);
    let names: Vec<&str> = sorted.iter().map(|f| f.dev.name.as_str()).collect();
    assert_eq!(names, vec!["sda", "sda2", "sda10"]);
}

#[test]
fn default_default_falls_back_to_first_label() {
    let conf = tree(
        None,
        None,
        None,
        empty_label(),
        vec![
            ("alpha", label(Some("/boot/vmlinuz-a"), None, None)),
            ("beta", label(Some("/boot/vmlinuz-b"), None, None)),
        ],
    );
    let resolved = SyslinuxConf::from_conf(conf).unwrap();
    assert_eq!(kernel_path(&resolved.ontimeout), "/boot/vmlinuz-a");
    assert_eq!(resolved.default_name, None);
    assert!(resolved.onerror.is_none());
}

#[test]
fn filtering_survives_partial_invalidity() {
    let conf = tree(
        None,
        None,
        None,
        empty_label(),
        vec![
            ("broken", label(None, None, None)),
            ("good", label(Some("/boot/vmlinuz"), None, None)),
        ],
    );
    let resolved = SyslinuxConf::from_conf(conf).unwrap();
    assert_eq!(resolved.labels.entries.len(), 1);
    assert_eq!(resolved.labels.entries[0].0, "good");
    assert_eq!(kernel_path(&resolved.ontimeout), "/boot/vmlinuz");
}

#[test]
fn resolution_fails_without_survivors() {
    let conf = tree(
        None,
        None,
        None,
        empty_label(),
        vec![("broken", label(None, None, None))],
    );
    assert!(SyslinuxConf::from_conf(conf).is_err());
}

#[test]
fn configured_references_resolve_among_survivors() {
    let conf = tree(
        Some("beta"),
        Some("gamma"),
        Some("alpha"),
        empty_label(),
        vec![
            ("alpha", label(Some("/boot/a"), None, None)),
            ("beta", label(Some("/boot/b"), None, None)),
            ("gamma", label(Some("/boot/c"), None, None)),
        ],
    );
    let resolved = SyslinuxConf::from_conf(conf).unwrap();
    assert_eq!(kernel_path(&resolved.ontimeout), "/boot/c");
    assert_eq!(resolved.default_name.as_deref(), Some("beta"));
    assert_eq!(kernel_path(resolved.onerror.as_ref().unwrap()), "/boot/a");
}

#[test]
fn missing_default_is_dropped_silently() {
    let conf = tree(
        Some("ghost"),
        None,
        None,
        empty_label(),
        vec![("alpha", label(Some("/boot/a"), None, None))],
    );
    let resolved = SyslinuxConf::from_conf(conf).unwrap();
    assert_eq!(resolved.default_name, None);
    assert_eq!(kernel_path(&resolved.ontimeout), "/boot/a");
}

#[test]
fn defaults_merge_fills_unset_fields() {
    let conf = tree(
        None,
        None,
        None,
        label(Some("/boot/default-kernel"), Some("/boot/default-initrd"), None),
        vec![("alpha", label(None, None, Some("quiet")))],
    );
    let resolved = SyslinuxConf::from_conf(conf).unwrap();
    let k = kernel_of(&resolved.ontimeout);
    assert_eq!(kernel_path(&resolved.ontimeout), "/boot/default-kernel");
    assert_eq!(k.initrd.as_deref(), Some("/boot/default-initrd"));
    assert_eq!(k.append.as_deref(), Some("quiet"));
}

#[test]
fn append_dash_is_observably_unset() {
    let with_dash = tree(
        None,
        None,
        None,
        label(None, None, Some("console=ttyS0")),
        vec![("alpha", label(Some("/boot/a"), None, Some("-")))],
    );
    let without_append = tree(
        None,
        None,
        None,
        empty_label(),
        vec![("alpha", label(Some("/boot/a"), None, None))],
    );
    let dash = SyslinuxConf::from_conf(with_dash).unwrap();
    let unset = SyslinuxConf::from_conf(without_append).unwrap();
    assert_eq!(kernel_of(&dash.ontimeout).append, None);
    assert_eq!(
        load_kernel_args(&dash.ontimeout).unwrap(),
        load_kernel_args(&unset.ontimeout).unwrap()
    );
}

#[test]
fn load_arguments_follow_label_fields() {
    let full = label(Some("/boot/vmlinuz"), Some("/boot/initrd.img"), Some("ro quiet"));
    assert_eq!(
        load_kernel_args(&full).unwrap(),
        vec![
            "--load",
            "/boot/vmlinuz",
            "--initrd",
            "/boot/initrd.img",
            "--append",
            "ro quiet",
        ]
    );
    let bare = label(Some("/boot/vmlinuz"), None, None);
    assert_eq!(load_kernel_args(&bare).unwrap(), vec!["--load", "/boot/vmlinuz"]);
}

#[test]
fn load_rejects_unsupported_labels() {
    assert!(load_kernel_args(&label(None, None, None)).is_err());
    let other = Label {
        kernel_or_config: KernelOrConfig::Kernel(Kernel {
            kernel_file: Some(KernelFile::Other(String::from("/boot/chain.c32"))),
            initrd: None,
            append: None,
        }),
    };
    assert!(load_kernel_args(&other).is_err());
}

#[test]
fn kexec_invocation_outcomes() {
    assert_eq!(kexec_args(), vec!["--exec"]);
    assert!(check_kexec_output(true).is_ok());
    assert!(check_kexec_output(false).is_err());
}

#[test]
fn named_device_candidates() {
    let leaf = BlockDev {
        path: String::from("/dev/sdb"),
        name: String::from("sdb"),
        dev_major: 8,
        dev_minor: 16,
        has_holders: false,
        partitions: Vec::new(),
    };
    let sole = discovery_candidates(leaf);
    assert_eq!(sole.len(), 1);
    assert_eq!(sole[0].name, "sdb");

    let parent = BlockDev {
        path: String::from("/dev/sda"),
        name: String::from("sda"),
        dev_major: 8,
        dev_minor: 0,
        has_holders: false,
        partitions: vec![
            BlockDev {
                path: String::from("/dev/sda1"),
                name: String::from("sda1"),
                dev_major: 8,
                dev_minor: 1,
                has_holders: false,
                partitions: Vec::new(),
            },
            BlockDev {
                path: String::from("/dev/sda2"),
                name: String::from("sda2"),
                dev_major: 8,
                dev_minor: 2,
                has_holders: false,
                partitions: Vec::new(),
            },
        ],
    };
    let parts = discovery_candidates(parent);
    assert_eq!(parts.len(), 2);
    assert_eq!(parts[0].name, "sda1");
    assert_eq!(parts[1].name, "sda2");
}

#[test]
fn discovery_end_to_end_picks_third_device() {
    let fs_output = String::from("USAGE=filesystem\nTYPE=ext4\n");
    let dev = |name: &str, minor: u8| BlockDev {
        path: format!("/dev/{}", name),
        name: String::from(name),
        dev_major: 8,
        dev_minor: minor,
        has_holders: false,
        partitions: Vec::new(),
    };
    // Device one fails its probe outright; device two probes as swap;
    // only device three probes as a filesystem.
    let probed = vec![
        (dev("sda1", 1), None),
        (dev("sdb1", 17), Some(String::from("USAGE=swap\n"))),
        (dev("sdc1", 33), Some(fs_output)),
    ];
    let candidates = sort_filesystems(get_filesystems(probed));
    assert_eq!(candidates.len(), 1);
    assert_eq!(candidates[0].dev.name, "sdc1");

    // The surviving candidate carries a valid configuration with one label.
    let conf = tree(
        None,
        None,
        None,
        empty_label(),
        vec![("only", label(Some("/boot/vmlinuz"), None, None))],
    );
    let resolved = SyslinuxConf::from_conf(conf).unwrap();

    // Per-candidate resolution outcomes, in trial order: the first two
    // candidates of a wider walk fail, the third succeeds.
    let outcomes = vec![None, None, Some(resolved)];
    let (idx, chosen) = first_bootable(outcomes).unwrap();
    assert_eq!(idx, 2);
    assert_eq!(kernel_path(&chosen.ontimeout), "/boot/vmlinuz");
    assert_eq!(chosen.labels.entries.len(), 1);
    assert_eq!(chosen.labels.entries[0].0, "only");
}

#[test]
fn exhausted_discovery_reports_nothing() {
    assert!(first_bootable(vec![None, None]).is_none());
    assert!(first_bootable(Vec::new()).is_none());
}

#[test]
fn label_lookup_and_front() {
    let labels = Labels {
        entries: vec![
            (String::from("a"), label(Some("/boot/a"), None, None)),
            (String::from("b"), label(Some("/boot/b"), None, None)),
        ],
    };
    assert_eq!(kernel_path(&labels.get(&String::from("b")).unwrap()), "/boot/b");
    assert!(labels.get(&String::from("zzz")).is_none());
    assert_eq!(kernel_path(&labels.front().unwrap()), "/boot/a");
    assert_eq!(labels.len(), 2);
}

#[test]
fn strategy_precedence_is_fixed() {
    let both = resolution_strategy(
        Some(String::from("/boot/syslinux.cfg")),
        Some(ConfSourceType::SysLinux),
    );
    assert!(matches!(both, Strategy::ExplicitPath(p) if p == "/boot/syslinux.cfg"));
    let typed = resolution_strategy(None, Some(ConfSourceType::ExtLinux));
    assert!(matches!(typed, Strategy::ExplicitType(ConfSourceType::ExtLinux)));
    assert!(matches!(resolution_strategy(None, None), Strategy::Auto));
}
