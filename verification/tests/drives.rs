use stellarshot::drives::{drive_for, drives_from, locate, mount_point, unescape, Drive};

const MOUNTINFO: &str = "\
22 1 259:2 / / rw,relatime shared:1 - ext4 /dev/nvme0n1p2 rw
91 22 8:17 / /media/alex/Backup rw,nosuid,nodev,relatime shared:50 - ext4 /dev/sdb1 rw
92 22 8:33 / /run/media/alex/Photo\\040Disk rw,nosuid shared:51 - exfat /dev/sdc1 rw
93 22 0:45 / /home/alex/nas rw shared:52 - cifs //nas/share rw
";

type Links = Vec<(String, String)>;

fn links() -> (Links, Links) {
    let by_uuid = vec![
        ("root-uuid".to_owned(), "/dev/nvme0n1p2".to_owned()),
        ("1111-AAAA".to_owned(), "/dev/sdb1".to_owned()),
        ("2222-BBBB".to_owned(), "/dev/sdc1".to_owned()),
    ];
    let by_label = vec![("Backup".to_owned(), "/dev/sdb1".to_owned())];
    (by_uuid, by_label)
}

#[test]
fn only_removable_mounts_with_a_uuid_are_drives() {
    let (by_uuid, by_label) = links();
    let drives = drives_from(&by_uuid, &by_label, MOUNTINFO);
    assert_eq!(drives.len(), 2, "the root filesystem and the NAS are not drives");
    assert_eq!(drives[0].uuid, "1111-AAAA");
    assert_eq!(drives[0].label, "Backup");
    assert_eq!(drives[1].mount_point, "/run/media/alex/Photo Disk");
    assert_eq!(drives[1].label, "Photo Disk", "without a label, the mount point's name");
}

#[test]
fn uuid_resolves_to_its_current_mount_point() {
    let (by_uuid, by_label) = links();
    let moved = MOUNTINFO.replace("/media/alex/Backup ", "/media/alex/Backup1 ");
    let drives = drives_from(&by_uuid, &by_label, &moved);
    let drive = drives.iter().find(|d| d.uuid == "1111-AAAA").unwrap();
    assert_eq!(drive.mount_point, "/media/alex/Backup1");
}

#[test]
fn missing_drive_is_unavailable() {
    let (by_uuid, by_label) = links();
    let unplugged: String = MOUNTINFO
        .lines()
        .filter(|line| !line.contains("/dev/sdb1"))
        .map(|line| format!("{line}\n"))
        .collect();
    let drives = drives_from(&by_uuid, &by_label, &unplugged);
    assert!(drives.iter().all(|d| d.uuid != "1111-AAAA"));
}

#[test]
fn drive_for_finds_the_containing_mount() {
    let (by_uuid, by_label) = links();
    let drives = drives_from(&by_uuid, &by_label, MOUNTINFO);
    let (drive, relative) = locate(&drives, "/media/alex/Backup/Stellarshot/laptop").unwrap();
    assert_eq!(drive.uuid, "1111-AAAA");
    assert_eq!(relative, "Stellarshot/laptop");
    assert!(locate(&drives, "/home/alex/Backups").is_none());
}

#[test]
fn escapes_are_decoded() {
    assert_eq!(unescape("Photo\\040Disk"), "Photo Disk");
    assert_eq!(unescape("My\\x20Drive"), "My Drive");
    assert_eq!(unescape("plain"), "plain");
}

#[test]
fn escaped_utf8_bytes_become_one_character() {
    assert_eq!(unescape("T\\xc3\\xa9l\\xc3\\xa9"), "Télé");
    assert_eq!(unescape("bad\\x4"), "bad\\x4", "too short to be an escape");
    assert_eq!(unescape("a\\9zz"), "a\\9zz", "9 is no octal digit");
}

#[test]
fn a_drive_inside_another_is_the_one_picked() {
    let by_uuid = vec![
        ("OUTER".to_owned(), "/dev/sda1".to_owned()),
        ("INNER".to_owned(), "/dev/sdb1".to_owned()),
    ];
    let mountinfo = "\
1 1 8:1 / /media/alex/Outer rw - ext4 /dev/sda1 rw
2 1 8:2 / /media/alex/Outer/Inner rw - ext4 /dev/sdb1 rw
";
    let drives = drives_from(&by_uuid, &[], mountinfo);
    assert_eq!(drives.len(), 2);
    let (drive, relative) = locate(&drives, "/media/alex/Outer/Inner/x").unwrap();
    assert_eq!(drive.uuid, "INNER");
    assert_eq!(relative, "x");
    let (drive, relative) = locate(&drives, "/media/alex/Outer/InnerNot").unwrap();
    assert_eq!(drive.uuid, "OUTER");
    assert_eq!(relative, "InnerNot");
}

#[test]
fn a_drive_is_found_by_its_uuid_wherever_it_is_mounted() {
    let drives = vec![
        Drive {
            uuid: "1111".into(),
            label: "Backup".into(),
            mount_point: "/media/alex/Backup1".into(),
        },
        Drive {
            uuid: "2222".into(),
            label: "Photos".into(),
            mount_point: "/media/alex/Photos".into(),
        },
    ];
    assert_eq!(
        mount_point(&drives, "1111"),
        Some("/media/alex/Backup1".to_string())
    );
    assert_eq!(mount_point(&drives, "3333"), None);
    let (drive, relative) = drive_for(&drives, "/media/alex/Photos/2024/a.jpg").unwrap();
    assert_eq!(drive.uuid, "2222");
    assert_eq!(relative, "2024/a.jpg");
    assert!(drive_for(&drives, "/home/alex").is_none());
}
