use fanwatch::mounts::{monitored_mounts, parse_mount_line, table_mounts, MOUNT_TABLE};

fn pairs(table: &str) -> Vec<(String, String)> {
    table_mounts(table)
        .iter()
        .map(|t| (t.device().clone(), t.mount_path().clone()))
        .collect()
}

fn by_std(table: &str) -> Vec<(String, String)> {
    let mut mounts = Vec::new();
    for line in table.lines() {
        let fields: Vec<&str> = line.split_whitespace().collect();
        if fields.len() >= 3 && ["ext4", "xfs", "btrfs", "vfat"].contains(&fields[2]) {
            mounts.push((fields[0].to_string(), fields[1].to_string()));
        }
    }
    mounts
}

#[test]
fn one_ext4_mount_is_reported() {
    let targets = monitored_mounts(Some("/dev/sda1 / ext4 rw 0 0"));
    assert_eq!(targets.len(), 1);
    assert_eq!(targets[0].device(), "/dev/sda1");
    assert_eq!(targets[0].mount_path(), "/");
    assert_eq!(targets[0].fs_type(), "ext4");
}

#[test]
fn unreadable_table_yields_no_mounts() {
    assert!(monitored_mounts(None).is_empty());
}

#[test]
fn empty_table_yields_no_mounts() {
    assert!(monitored_mounts(Some("")).is_empty());
    assert!(monitored_mounts(Some("\n\n\n")).is_empty());
    assert!(monitored_mounts(Some("   \t \n")).is_empty());
}

#[test]
fn lines_with_fewer_than_three_fields_are_skipped() {
    assert!(parse_mount_line("").is_none());
    assert!(parse_mount_line("/dev/sda1").is_none());
    assert!(parse_mount_line("/dev/sda1 /").is_none());
    assert!(parse_mount_line("ext4").is_none());
    assert!(parse_mount_line("ext4 ext4").is_none());
    assert!(parse_mount_line("/dev/sda1 / ext4").is_some());
}

#[test]
fn other_filesystem_types_are_skipped() {
    for fs in ["proc", "sysfs", "tmpfs", "ext3", "ext", "ext44", "EXT4", "xfs2", "fat", "ntfs", "4txe"] {
        let line = format!("dev /mnt {} rw 0 0", fs);
        assert!(parse_mount_line(&line).is_none(), "{}", fs);
    }
}

#[test]
fn every_accepted_type_is_kept() {
    for fs in ["ext4", "xfs", "btrfs", "vfat"] {
        let line = format!("/dev/x /mnt/{} {} rw,relatime 0 0", fs, fs);
        let t = parse_mount_line(&line).unwrap();
        assert_eq!(t.device(), "/dev/x");
        assert_eq!(t.mount_path(), &format!("/mnt/{}", fs));
        assert_eq!(t.fs_type(), fs);
    }
}

#[test]
fn device_and_mount_path_are_kept_verbatim() {
    let t = parse_mount_line("UUID=ab-12\\040x\t/mnt/My\\040Disk   vfat  rw").unwrap();
    assert_eq!(t.device(), "UUID=ab-12\\040x");
    assert_eq!(t.mount_path(), "/mnt/My\\040Disk");
    let t = parse_mount_line("  /dev/é /mnt/日本 btrfs").unwrap();
    assert_eq!(t.device(), "/dev/é");
    assert_eq!(t.mount_path(), "/mnt/日本");
}

#[test]
fn targets_come_in_the_order_of_the_lines() {
    let table = "proc /proc proc rw 0 0\n\
                 /dev/sda1 / ext4 rw 0 0\n\
                 tmpfs /tmp tmpfs rw 0 0\n\
                 /dev/sdb1 /data xfs rw 0 0\n\
                 broken\n\
                 /dev/sdc1 /boot/efi vfat rw 0 0\n\
                 /dev/sdd /pool btrfs rw 0 0\n";
    assert_eq!(
        pairs(table),
        vec![
            ("/dev/sda1".to_string(), "/".to_string()),
            ("/dev/sdb1".to_string(), "/data".to_string()),
            ("/dev/sdc1".to_string(), "/boot/efi".to_string()),
            ("/dev/sdd".to_string(), "/pool".to_string()),
        ]
    );
}

#[test]
fn the_same_mount_twice_is_reported_twice() {
    let table = "/dev/a /m ext4\n/dev/a /m ext4\n";
    assert_eq!(pairs(table).len(), 2);
}

#[test]
fn a_record_does_not_span_lines() {
    assert!(pairs("/dev/a /m\next4 x y\n").is_empty());
    assert_eq!(pairs("/dev/a /m\next4 x xfs\n"), vec![("ext4".to_string(), "x".to_string())]);
}

#[test]
fn last_line_needs_no_line_feed() {
    assert_eq!(pairs("/dev/a /m ext4"), pairs("/dev/a /m ext4\n"));
    assert_eq!(pairs("x y z\n/dev/a /m ext4").len(), 1);
}

#[test]
fn carriage_returns_are_whitespace() {
    assert_eq!(pairs("/dev/a /m ext4\r\n/dev/b /n xfs\r\n").len(), 2);
    let t = parse_mount_line("/dev/a /m ext4\r").unwrap();
    assert_eq!(t.fs_type(), "ext4");
    assert_eq!(pairs("/dev/a\r/m\rext4"), vec![("/dev/a".to_string(), "/m".to_string())]);
}

#[test]
fn table_mounts_agrees_with_the_standard_library() {
    let tables = [
        "",
        "\n",
        "a b ext4",
        "a b ext4\n",
        "\na b ext4\n\n c d xfs \n",
        "a\u{a0}b\u{2003}btrfs\u{3000}rest\n",
        "a b\u{85}vfat\nx y z\n",
        "a b ext4\r\nc d vfat\r\n\r\n",
        "a b\x0bext4\x0c\n",
        "  \t  \n\t\n a  b  xfs",
        "a b ext4\u{200b}\n",
        "sysfs /sys sysfs rw,nosuid 0 0\n/dev/nvme0n1p2 / ext4 rw,relatime 0 0\n/dev/nvme0n1p1 /boot/efi vfat rw 0 0\n",
    ];
    for table in tables {
        assert_eq!(pairs(table), by_std(table), "{:?}", table);
    }
}

#[test]
fn a_cloned_target_equals_its_source() {
    let t = parse_mount_line("/dev/sda1 / ext4 rw 0 0").unwrap();
    let c = t.clone();
    assert_eq!(c, t);
    assert_eq!(c.device(), "/dev/sda1");
}

#[test]
fn the_live_mount_table_is_that_of_the_process_filesystem() {
    assert_eq!(MOUNT_TABLE, "/proc/mounts");
}

fn next_random(state: &mut u64) -> u64 {
    *state = state.wrapping_mul(6364136223846793005).wrapping_add(1442695040888963407);
    *state >> 33
}

#[test]
fn generated_tables_agree_with_the_standard_library() {
    let pieces = [
        " ", " ", "\t", "\n", "\n", "\r\n", "\r", "\u{a0}", "\u{2028}", "\u{200b}", "ext4", "xfs",
        "btrfs", "vfat", "ext", "4", "/dev/sda", "/", "/mnt", "tmpfs", "é", "0", "rw,noatime",
    ];
    let mut state = 0x5eed_u64;
    let mut kept = 0;
    for _ in 0..3000 {
        let len = next_random(&mut state) % 40;
        let mut table = String::new();
        for _ in 0..len {
            table.push_str(pieces[(next_random(&mut state) % pieces.len() as u64) as usize]);
        }
        let got = pairs(&table);
        assert_eq!(got, by_std(&table), "{:?}", table);
        kept += got.len();
    }
    assert!(kept > 100);
}
