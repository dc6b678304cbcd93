use rseq_main::cache::{
    find_fresh_entry, mentions_rseq, record_scan, replace_entry, retain_flagged, scan_decision, CacheEntry,
    ScanDecision,
};
use rseq_main::macros::RseqMacro;
use rseq_main::rseq_types::{
    registration_result, signature_matches, RegistrationError, Rseq, RseqCpuIdState, RseqCsFlags,
    RseqFlagSet, RseqFlags, RSEQ_SIG,
};
use rseq_main::task::{
    inner_abort_handler, rseq_cs_after, rseq_cs_wrapper_action, rseq_end_handler, WrapperAction,
};

#[test]
fn cpu_id_states_are_the_negative_words() {
    assert_eq!(RseqCpuIdState::Uninitialized.as_u32(), -1i32 as u32);
    assert_eq!(RseqCpuIdState::RegistrationFailed.as_u32(), -2i32 as u32);
}

#[test]
fn flag_bits() {
    assert_eq!(RseqFlags::Unregister.bits(), 1 << 0);
    assert_eq!(RseqFlags::SliceExtDefaultOn.bits(), 1 << 1);
    assert_eq!(RseqCsFlags::NoRestartOnPreempt.bits(), 1 << 0);
    assert_eq!(RseqCsFlags::NoRestartOnSignal.bits(), 1 << 1);
    assert_eq!(RseqCsFlags::NoRestartOnMigrate.bits(), 1 << 2);
    assert_eq!(RseqCsFlags::SliceExtAvailable.bits(), 1 << 4);
    assert_eq!(RseqCsFlags::SliceExtEnabled.bits(), 1 << 5);
}

#[test]
fn flag_sets_hold_their_flags() {
    let empty = RseqFlagSet::empty();
    assert_eq!(empty.bits(), 0);
    assert!(!empty.contains(RseqFlags::Unregister));
    let mut set = RseqFlagSet::from_flag(RseqFlags::Unregister);
    assert_eq!(set.bits(), 1);
    set.insert(RseqFlags::SliceExtDefaultOn);
    assert_eq!(set.bits(), 3);
    set.insert(RseqFlags::SliceExtDefaultOn);
    assert_eq!(set.bits(), 3);
    assert!(set.contains(RseqFlags::Unregister) && set.contains(RseqFlags::SliceExtDefaultOn));
}

#[test]
fn a_new_thread_area_is_unregistered() {
    let area = Rseq::unregistered();
    assert_eq!(area.cpu_id, u32::MAX);
    assert_eq!(area.rseq_cs, 0);
    assert_eq!(area.pad, [0, 0, 0]);
    assert!(!area.is_registered());
    let registered = Rseq { cpu_id: 3, ..Rseq::unregistered() };
    assert!(registered.is_registered());
}

#[test]
fn the_signature_is_checked() {
    assert_eq!(RSEQ_SIG, 0x53514552);
    assert!(signature_matches(0x53514552));
    assert!(!signature_matches(0x90909090));
}

#[test]
fn registration_succeeds_only_on_zero() {
    assert!(registration_result(Ok(0)).is_ok());
    assert!(matches!(registration_result(Err(22)), Err(RegistrationError::Failed(22))));
    assert!(matches!(registration_result(Ok(5)), Err(RegistrationError::Unexpected(5))));
}

#[test]
fn the_wrapper_restarts_after_abort_and_returns_after_end() {
    assert!(matches!(rseq_cs_wrapper_action(0), WrapperAction::EnterCriticalSection));
    assert!(matches!(rseq_cs_wrapper_action(inner_abort_handler()), WrapperAction::EnterCriticalSection));
    assert!(matches!(rseq_cs_wrapper_action(rseq_end_handler()), WrapperAction::ClearAndReturn));
    assert_eq!(rseq_end_handler(), 2);
    assert_eq!(inner_abort_handler(), 1);
    assert_eq!(rseq_cs_after(WrapperAction::EnterCriticalSection, 0x7000), 0x7000);
    assert_eq!(rseq_cs_after(WrapperAction::ClearAndReturn, 0x7000), 0);
}

fn entry(path: &str, mtime: u64, name: &str) -> CacheEntry {
    CacheEntry {
        path: path.to_string(),
        mtime,
        found: vec![(format!("fn {}() {{}}", name), RseqMacro::CommitAction, name.to_string())],
    }
}

#[test]
fn cache_lookup_needs_a_recent_entry() {
    let cache = vec![entry("src/a.rs", 10, "a"), entry("src/b.rs", 20, "b")];
    assert_eq!(find_fresh_entry(&cache, "src/b.rs", 20), Some(1));
    assert_eq!(find_fresh_entry(&cache, "src/b.rs", 15), Some(1));
    assert_eq!(find_fresh_entry(&cache, "src/b.rs", 21), None);
    assert_eq!(find_fresh_entry(&cache, "src/c.rs", 0), None);
}

#[test]
fn replacing_an_entry_keeps_one_per_file() {
    let mut cache = vec![entry("src/a.rs", 10, "a"), entry("src/b.rs", 20, "b"), entry("src/a.rs", 5, "old")];
    replace_entry(&mut cache, entry("src/a.rs", 30, "new"));
    let paths: Vec<(&str, u64)> = cache.iter().map(|e| (e.path.as_str(), e.mtime)).collect();
    assert_eq!(paths, vec![("src/b.rs", 20), ("src/a.rs", 30)]);
    assert_eq!(find_fresh_entry(&cache, "src/a.rs", 30), Some(1));
    assert_eq!(cache[1].found[0].2, "new");
}

#[test]
fn entries_of_removed_files_are_dropped() {
    let mut cache = vec![entry("src/a.rs", 10, "a"), entry("src/b.rs", 20, "b"), entry("src/c.rs", 30, "c")];
    retain_flagged(&mut cache, &[true, false, true]);
    let paths: Vec<&str> = cache.iter().map(|e| e.path.as_str()).collect();
    assert_eq!(paths, vec!["src/a.rs", "src/c.rs"]);
}

#[test]
fn only_files_that_mention_rseq_are_parsed() {
    assert!(mentions_rseq("#[rseq_commit_action]\nfn f() {}"));
    assert!(!mentions_rseq("fn main() {}"));
    assert!(!mentions_rseq("rseq"));
}

use rseq_main::decimal::{parse_u32, push_decimal};

#[test]
fn decimal_text_reads_back() {
    for n in [0usize, 7, 10, 99, 100, 1397835090, u32::MAX as usize] {
        let mut text = String::new();
        push_decimal(&mut text, n);
        assert_eq!(text, n.to_string());
        assert_eq!(parse_u32(&text), Some(n as u32));
    }
}

#[test]
fn the_signature_reads_from_its_decimal_text() {
    assert_eq!(parse_u32("1397835090"), Some(RSEQ_SIG));
    assert_eq!(parse_u32(""), Some(0));
    assert_eq!(parse_u32("12a"), None);
    assert_eq!(parse_u32("-1"), None);
    assert_eq!(parse_u32("4294967296"), None);
    assert_eq!(parse_u32("4294967295"), Some(u32::MAX));
}

#[test]
fn scan_decision_uses_a_fresh_entry_and_rescans_otherwise() {
    let cache = vec![entry("src/a.rs", 10, "a"), entry("src/b.rs", 20, "b")];
    assert!(matches!(scan_decision(&cache, "src/b.rs", true, 20), ScanDecision::UseCached(1)));
    assert!(matches!(scan_decision(&cache, "src/b.rs", true, 21), ScanDecision::Rescan));
    assert!(matches!(scan_decision(&cache, "src/c.rs", true, 1), ScanDecision::Rescan));
    assert!(matches!(scan_decision(&cache, "src/a.rs", false, 1), ScanDecision::Skip));
}

#[test]
fn a_recorded_file_is_taken_from_the_cache_until_modified() {
    let mut cache = vec![entry("src/a.rs", 10, "a"), entry("src/b.rs", 5, "old")];
    assert!(matches!(scan_decision(&cache, "src/b.rs", true, 30), ScanDecision::Rescan));
    record_scan(&mut cache, "src/b.rs".to_string(), 30, Some(entry("src/b.rs", 30, "b").found));
    assert_eq!(cache.len(), 2);
    assert!(matches!(scan_decision(&cache, "src/b.rs", true, 30), ScanDecision::UseCached(1)));
    assert_eq!(cache[1].found[0].2, "b");
    assert!(matches!(scan_decision(&cache, "src/b.rs", true, 31), ScanDecision::Rescan));
    // A file with nothing to record leaves the cache as it is.
    record_scan(&mut cache, "src/c.rs".to_string(), 3, None);
    assert_eq!(cache.len(), 2);
    assert!(matches!(scan_decision(&cache, "src/c.rs", true, 3), ScanDecision::Rescan));
}

#[test]
fn the_cache_keeps_one_entry_per_file() {
    let mut cache = vec![entry("src/a.rs", 10, "a"), entry("src/b.rs", 5, "b")];
    record_scan(&mut cache, "src/a.rs".to_string(), 12, Some(entry("src/a.rs", 12, "a2").found));
    record_scan(&mut cache, "src/c.rs".to_string(), 7, Some(entry("src/c.rs", 7, "c").found));
    record_scan(&mut cache, "src/a.rs".to_string(), 13, Some(entry("src/a.rs", 13, "a3").found));
    let paths: Vec<&str> = cache.iter().map(|e| e.path.as_str()).collect();
    assert_eq!(paths, vec!["src/b.rs", "src/c.rs", "src/a.rs"]);
    assert_eq!(cache[2].mtime, 13);
    retain_flagged(&mut cache, &[true, false, true]);
    let paths: Vec<&str> = cache.iter().map(|e| e.path.as_str()).collect();
    assert_eq!(paths, vec!["src/b.rs", "src/a.rs"]);
}
