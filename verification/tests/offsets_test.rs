use rseq_main::magic::{contains_bytes, find_magic_offset_exactly_once};
use rseq_main::offset_table::{find_offset, generate_output, render_offsets_table, sort_by_name};
use rseq_main::post_commit::marker_prefix;
use rseq_main::rseq_types::{RseqCs, RseqCsExt};
use rseq_main::task::{post_commit_offset, RseqTask};

#[test]
fn magic_found_once_gives_its_position() {
    let data = [0x90u8, 0x90, 0xeb, 0x04, 0xde, 0xc0, 0xad, 0xde];
    let magic = [0xdeu8, 0xc0, 0xad, 0xde];
    assert_eq!(find_magic_offset_exactly_once(&data, &magic).ok(), Some(4));
}

#[test]
fn magic_missing_is_reported() {
    let data = [1u8, 2, 3, 4];
    let magic = [5u8, 6];
    assert!(matches!(find_magic_offset_exactly_once(&data, &magic), Err(ref e) if e == "didn't find magic in symbol"));
    let short = [1u8];
    assert!(matches!(find_magic_offset_exactly_once(&short, &magic), Err(ref e) if e == "didn't find magic in symbol"));
}

#[test]
fn magic_found_twice_is_reported() {
    let data = [7u8, 7, 1, 7, 7];
    let magic = [7u8, 7];
    assert!(matches!(
        find_magic_offset_exactly_once(&data, &magic),
        Err(ref e) if e == "magic found multiple times"
    ));
    // Overlapping occurrences count as two.
    let data = [7u8, 7, 7];
    assert!(matches!(
        find_magic_offset_exactly_once(&data, &magic),
        Err(ref e) if e == "magic found multiple times"
    ));
}

#[test]
fn marker_prefix_is_the_code_before_the_marker() {
    let marker = [0xeb, 0x04, 0xde, 0xc0, 0xad, 0xde, 0xff, 0xef, 0xcd, 0xab, 0xe8];
    let value = 0xABCDEFFFu32.to_le_bytes();
    assert_eq!(marker_prefix(&marker, &value).ok(), Some(vec![0xeb, 0x04, 0xde, 0xc0, 0xad, 0xde]));
    assert!(matches!(marker_prefix(&marker[..8], &value), Err(ref e) if e == "didn't find magic in symbol"));
}

#[test]
fn contains_bytes_finds_a_pattern() {
    assert!(contains_bytes(b"fn rseq_start()", b"rseq_"));
    assert!(!contains_bytes(b"fn start()", b"rseq_"));
    assert!(contains_bytes(b"abc", b""));
}

#[test]
fn table_is_sorted_and_rendered() {
    let mut results = vec![
        ("update_log".to_string(), 12usize),
        ("commit_action".to_string(), 7usize),
        ("commit_action2".to_string(), 130usize),
    ];
    let text = generate_output(&mut results);
    assert_eq!(
        results,
        vec![
            ("commit_action".to_string(), 7usize),
            ("commit_action2".to_string(), 130usize),
            ("update_log".to_string(), 12usize),
        ]
    );
    assert_eq!(
        text,
        "pub const RSEQ_CS_POST_COMMIT_OFFSETS: &[(&str, u64)] = &[\n    (\"commit_action\", 7),\n    (\"commit_action2\", 130),\n    (\"update_log\", 12),\n];\n"
    );
}

#[test]
fn empty_table_has_header_and_footer() {
    assert_eq!(
        render_offsets_table(&Vec::new()),
        "pub const RSEQ_CS_POST_COMMIT_OFFSETS: &[(&str, u64)] = &[\n];\n"
    );
}

#[test]
fn sort_keeps_equal_names_in_order_and_orders_by_bytes() {
    let mut results = vec![
        ("b".to_string(), 1usize),
        ("B".to_string(), 2usize),
        ("a".to_string(), 3usize),
        ("b".to_string(), 4usize),
        ("\u{e9}".to_string(), 5usize),
    ];
    sort_by_name(&mut results);
    let names: Vec<(&str, usize)> = results.iter().map(|(n, o)| (n.as_str(), *o)).collect();
    assert_eq!(names, vec![("B", 2), ("a", 3), ("b", 1), ("b", 4), ("\u{e9}", 5)]);
}

#[test]
fn offsets_are_found_by_name() {
    let table: [(&str, u64); 3] = [("commit_action", 7), ("commit_action2", 130), ("update_log", 12)];
    assert_eq!(find_offset(&table, "commit_action"), Some(7));
    assert_eq!(find_offset(&table, "commit_action2"), Some(130));
    assert_eq!(find_offset(&table, "update_log"), Some(12));
    assert_eq!(find_offset(&table, "commit"), None);
    assert_eq!(find_offset(&table, "zzz"), None);
    assert_eq!(find_offset(&[], "commit_action"), None);
}

#[test]
fn post_commit_offset_adds_distance_and_recorded_offset() {
    assert_eq!(post_commit_offset(0x1040, 0x1000, 0x12), 0x52);
}

#[test]
fn descriptor_points_past_the_commit_action() {
    let table: [(&str, u64); 2] = [("commit_action", 7), ("update_log", 12)];
    let task = RseqTask { main_symbol: "rseq_cs_func", commit_symbol: "commit_action" };
    let cs: RseqCs = task.descriptor(&table, 0x2100, 0x2000, 0x3004).unwrap();
    assert_eq!(cs.version, 0);
    assert_eq!(cs.flags, 0);
    assert_eq!(cs.start_ip, 0x2000);
    assert_eq!(cs.post_commit_offset, 0x107);
    assert_eq!(cs.abort_ip, 0x3004);

    let missing = RseqTask { main_symbol: "MY_COUNTER", commit_symbol: "absent" };
    assert!(missing.descriptor(&table, 0x2100, 0x2000, 0x3004).is_none());
    assert!(task.descriptor(&table, 0x1000, 0x2000, 0x3004).is_none());
    assert!(task.descriptor(&table, u64::MAX, 0, 0x3004).is_none());
}

#[test]
fn post_commit_offset_can_be_changed_in_place() {
    let mut cs = <RseqCs as RseqCsExt>::new(1, 2, 3);
    *cs.get_post_commit_mut() = 9;
    assert_eq!(cs.post_commit_offset, 9);
    assert_eq!(cs.start_ip, 1);
    assert_eq!(cs.abort_ip, 3);
    assert_eq!(*cs.get_post_commit_mut(), 9);
}
