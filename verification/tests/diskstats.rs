use ioblink::diskstats::{is_nvme_whole_disk, parse_diskstats, select_nvme_devices, Counters};

#[test]
fn accepts_whole_disks() {
    assert!(is_nvme_whole_disk("nvme0n1"));
    assert!(is_nvme_whole_disk("nvme1n1"));
    assert!(is_nvme_whole_disk("nvme10n2"));
}

#[test]
fn rejects_partitions_and_junk() {
    assert!(!is_nvme_whole_disk("nvme0n1p1"));
    assert!(!is_nvme_whole_disk("nvme0n1p12"));
    assert!(!is_nvme_whole_disk("sda"));
    assert!(!is_nvme_whole_disk("sda1"));
    assert!(!is_nvme_whole_disk("nvme"));
    assert!(!is_nvme_whole_disk("nvmeXnY"));
}

#[test]
fn rejects_missing_numbers() {
    assert!(!is_nvme_whole_disk("nvmen1"));
    assert!(!is_nvme_whole_disk("nvme0n"));
    assert!(!is_nvme_whole_disk("nvme0"));
    assert!(!is_nvme_whole_disk(""));
    assert!(!is_nvme_whole_disk("xvme0n1"));
}

const SAMPLE: &str = "   7       0 loop0 11 0 28 4 0 0 0 0 0 8 4 0 0 0 0 0 0\n\
 259       0 nvme0n1 183455 46413 12877630 25542 325768 209226 23584824 245031 0 147328 279103\n\
 259       1 nvme0n1p1 433 1022 17412 63 2 0 2 0 0 60 64\n\
   8       0 sda 100 0 2000 10 50 0 999 5 0 3 4\n\
 short line\n";

#[test]
fn parses_sector_counters() {
    let stats = parse_diskstats(SAMPLE);
    assert_eq!(
        stats.get(&"nvme0n1".to_string()),
        Some(Counters { sectors_read: 12877630, sectors_written: 23584824 })
    );
    assert_eq!(
        stats.get(&"nvme0n1p1".to_string()),
        Some(Counters { sectors_read: 17412, sectors_written: 2 })
    );
    assert_eq!(
        stats.get(&"loop0".to_string()),
        Some(Counters { sectors_read: 28, sectors_written: 0 })
    );
    assert_eq!(
        stats.get(&"sda".to_string()),
        Some(Counters { sectors_read: 2000, sectors_written: 999 })
    );
    assert_eq!(stats.get(&"short".to_string()), None);
    assert_eq!(stats.get(&"nvme1n1".to_string()), None);
}

#[test]
fn unparsable_counters_are_zero() {
    let stats = parse_diskstats("1 2 dev x 0 abc 0 0 0 -5\n");
    assert_eq!(
        stats.get(&"dev".to_string()),
        Some(Counters { sectors_read: 0, sectors_written: 0 })
    );
    let stats = parse_diskstats("1 2 big 0 0 99999999999999999999 0 0 0 +7");
    assert_eq!(
        stats.get(&"big".to_string()),
        Some(Counters { sectors_read: 0, sectors_written: 7 })
    );
}

#[test]
fn later_line_replaces_earlier() {
    let stats = parse_diskstats("1 2 d 0 0 5 0 0 0 6\n1 2 d 0 0 8 0 0 0 9\n");
    assert_eq!(
        stats.get(&"d".to_string()),
        Some(Counters { sectors_read: 8, sectors_written: 9 })
    );
}

#[test]
fn tabs_and_crlf_separate_fields() {
    let stats = parse_diskstats("1\t2\tdisk\t0 0 3 0 0 0 4\r\n");
    assert_eq!(
        stats.get(&"disk".to_string()),
        Some(Counters { sectors_read: 3, sectors_written: 4 })
    );
}

#[test]
fn missing_device_counts_as_zero() {
    let stats = parse_diskstats("");
    assert_eq!(
        stats.counters_of(&"nvme0n1".to_string()),
        Counters { sectors_read: 0, sectors_written: 0 }
    );
    assert_eq!(Counters::default(), Counters { sectors_read: 0, sectors_written: 0 });
}

#[test]
fn autodetect_selects_sorted_whole_disks() {
    let names: Vec<String> = ["nvme1n1", "sda", "nvme0n1p1", "nvme10n1", "nvme0n1", "loop0"]
        .iter()
        .map(|s| s.to_string())
        .collect();
    let picked = select_nvme_devices(&names);
    assert_eq!(picked, vec!["nvme0n1", "nvme10n1", "nvme1n1"]);
    assert!(select_nvme_devices(&vec!["sda".to_string()]).is_empty());
}
