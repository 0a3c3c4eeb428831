use ctty_rs::Candidate;
use ctty_rs::CttyError;
use ctty_rs::ctty_dev_of_record;
use ctty_rs::first_match;
use ctty_rs::get_path_for_dev;
use ctty_rs::select_path;

fn candidate(path: &str, rdev: u64) -> Candidate {
    Candidate { path: String::from(path), rdev }
}

#[test]
fn first_match_returns_matching_path() {
    let cands = vec![
        candidate("/dev/pts/0", 34817),
        candidate("/dev/pts/3", 34816),
        candidate("/dev/tty", 1024),
    ];
    assert_eq!(first_match(34816, &cands), Some(String::from("/dev/pts/3")));
}

#[test]
fn first_match_without_match_is_none() {
    let cands = vec![candidate("/dev/pts/0", 34817), candidate("/dev/tty", 1024)];
    assert_eq!(first_match(34816, &cands), None);
}

#[test]
fn first_match_on_no_candidates_is_none() {
    assert_eq!(first_match(34816, &Vec::new()), None);
}

#[test]
fn first_match_breaks_ties_by_scan_order() {
    // Two nodes alias one device identifier: the earlier one wins.
    let cands = vec![
        candidate("/dev/pts/1", 7),
        candidate("/dev/pts/1-alias", 7),
    ];
    assert_eq!(first_match(7, &cands), Some(String::from("/dev/pts/1")));
}

#[test]
fn select_path_takes_first_match_across_patterns() {
    let results = vec![
        Ok(vec![candidate("/dev/pts/0", 1)]),
        Ok(vec![candidate("/dev/tty", 7)]),
    ];
    assert_eq!(select_path(7, &results), Ok(String::from("/dev/tty")));
}

#[test]
fn select_path_reports_enumeration_failure() {
    let results = vec![
        Err(String::from("bad pattern")),
        Ok(vec![candidate("/dev/tty", 7)]),
    ];
    assert_eq!(
        select_path(7, &results),
        Err(CttyError::IOError(String::from("bad pattern")))
    );
}

#[test]
fn select_path_match_beats_later_failure() {
    // The probe decides pattern by pattern: a match in an earlier pattern
    // wins over a failure of a later one.
    let results = vec![
        Ok(vec![candidate("/dev/pts/0", 7)]),
        Err(String::from("bad pattern")),
    ];
    assert_eq!(select_path(7, &results), Ok(String::from("/dev/pts/0")));
}

#[test]
fn select_path_without_match_is_not_found() {
    let results = vec![
        Ok(vec![candidate("/dev/pts/0", 1)]),
        Ok(Vec::new()),
    ];
    assert_eq!(select_path(7, &results), Err(CttyError::NotFound));
}

#[test]
fn parsed_device_id_finds_its_node() {
    // The identifier parsed from the status record, handed to the probe's
    // scan, picks out the node whose metadata reports that identifier.
    let dev = ctty_dev_of_record(b"123 (my proc) S 1 1 1 34816 1").unwrap();
    let cands = vec![candidate("/dev/pts/3", 34816)];
    assert_eq!(first_match(dev, &cands), Some(String::from("/dev/pts/3")));
}

#[test]
fn unmatched_device_id_is_not_found() {
    // No device node anywhere reports this identifier, so the probe of the
    // live namespaces must end in NotFound rather than a crash.
    assert_eq!(get_path_for_dev(u64::MAX), Err(CttyError::NotFound));
}
