use bigfiles::args::{directory_or_default, parse_depth, DEFAULT_DEPTH};
use bigfiles::scan::{
    is_candidate, Action, Event, Phase, Reply, Session, StartError, MEBIBYTE, SIZE_THRESHOLD,
};

fn scanning(max_depth: usize) -> Session {
    Session { max_depth, phase: Phase::Scanning }
}

fn entry(depth: usize, size: u64) -> Event {
    Event::Entry { depth, size: Some(size) }
}

/// The tree below `/tmp/t`, in walk order: the root itself, `small.bin`
/// (1 MiB, depth 1), the directory `a` (depth 1), and `a/big.bin`
/// (80 MiB, depth 2). Only entries within `max_depth` are walked.
fn sample_tree(max_depth: usize) -> Vec<(&'static str, Event)> {
    let all = vec![
        ("/tmp/t", entry(0, 4096)),
        ("/tmp/t/small.bin", entry(1, MEBIBYTE)),
        ("/tmp/t/a", entry(1, 4096)),
        ("/tmp/t/a/big.bin", entry(2, 80 * MEBIBYTE)),
    ];
    all.into_iter()
        .filter(|(_, e)| match e {
            Event::Entry { depth, .. } => *depth <= max_depth,
            _ => false,
        })
        .collect()
}

/// Runs a scan of the sample tree, declining every prompt, and gives the
/// paths asked about.
fn asked_paths(depth_text: &str) -> Vec<&'static str> {
    let mut session = Session::start(true, depth_text).unwrap();
    let mut asked = Vec::new();
    for (path, e) in sample_tree(session.max_depth) {
        if session.handle(e) == Action::Ask {
            asked.push(path);
            assert_eq!(session.handle(Event::Answered(Reply::No)), Action::Next);
        }
    }
    asked
}

#[test]
fn threshold_is_fifty_mebibytes() {
    assert_eq!(SIZE_THRESHOLD, 52_428_800);
}

#[test]
fn depth_parses_decimal_text() {
    assert_eq!(parse_depth("3"), 3);
    assert_eq!(parse_depth("0"), 0);
    assert_eq!(parse_depth("12"), 12);
    assert_eq!(parse_depth("+7"), 7);
    assert_eq!(parse_depth("007"), 7);
}

#[test]
fn depth_falls_back_on_non_numeric_text() {
    assert_eq!(parse_depth("abc"), DEFAULT_DEPTH);
    assert_eq!(parse_depth("deep"), 3);
    assert_eq!(parse_depth(""), 3);
    assert_eq!(parse_depth("+"), 3);
    assert_eq!(parse_depth("-1"), 3);
    assert_eq!(parse_depth(" 5"), 3);
    assert_eq!(parse_depth("5x"), 3);
}

#[test]
fn depth_falls_back_on_overflow() {
    let max = usize::MAX.to_string();
    assert_eq!(parse_depth(&max), usize::MAX);
    let over = format!("{}0", max);
    assert_eq!(parse_depth(&over), 3);
}

#[test]
fn directory_defaults_to_current() {
    assert_eq!(directory_or_default(None), ".");
    assert_eq!(directory_or_default(Some("/tmp/t".to_string())), "/tmp/t");
}

#[test]
fn start_refuses_a_root_that_is_not_a_directory() {
    assert_eq!(Session::start(false, "3"), Err(StartError::NotADirectory));
    assert_eq!(
        StartError::NotADirectory.message(),
        "The given path is not a directory."
    );
}

#[test]
fn start_with_non_numeric_depth_uses_default() {
    let s = Session::start(true, "lots").unwrap();
    assert_eq!(s.max_depth, 3);
    assert_eq!(s.phase, Phase::Scanning);
    assert_eq!(asked_paths("lots"), vec!["/tmp/t/a/big.bin"]);
}

#[test]
fn depth_three_reports_only_the_big_file() {
    assert_eq!(asked_paths("3"), vec!["/tmp/t/a/big.bin"]);
}

#[test]
fn depth_one_reports_nothing() {
    assert!(asked_paths("1").is_empty());
}

#[test]
fn entries_beyond_the_depth_bound_are_not_asked_about() {
    let mut s = scanning(1);
    assert_eq!(s.handle(entry(2, 80 * MEBIBYTE)), Action::Next);
    assert_eq!(s.phase, Phase::Scanning);
    assert!(!is_candidate(1, 2, Some(80 * MEBIBYTE)));
    assert!(is_candidate(2, 2, Some(80 * MEBIBYTE)));
}

#[test]
fn size_threshold_is_inclusive() {
    assert!(is_candidate(3, 1, Some(SIZE_THRESHOLD)));
    assert!(!is_candidate(3, 1, Some(SIZE_THRESHOLD - 1)));
    assert!(!is_candidate(3, 1, None));
    let mut s = scanning(3);
    assert_eq!(s.handle(entry(1, SIZE_THRESHOLD - 1)), Action::Next);
    assert_eq!(s.handle(Event::Entry { depth: 1, size: None }), Action::Next);
    assert_eq!(s.handle(entry(1, SIZE_THRESHOLD)), Action::Ask);
    assert_eq!(s.phase, Phase::Asking);
}

#[test]
fn declining_does_not_delete() {
    let mut s = scanning(3);
    assert_eq!(s.handle(entry(2, 80 * MEBIBYTE)), Action::Ask);
    assert_eq!(s.handle(Event::Answered(Reply::No)), Action::Next);
    assert_eq!(s.phase, Phase::Scanning);
}

#[test]
fn accepting_deletes() {
    let mut s = scanning(3);
    assert_eq!(s.handle(entry(2, 80 * MEBIBYTE)), Action::Ask);
    assert_eq!(s.handle(Event::Answered(Reply::Yes)), Action::Delete);
    assert_eq!(s.phase, Phase::Deleting);
    assert_eq!(s.handle(Event::Deleted(true)), Action::Next);
    assert_eq!(s.phase, Phase::Scanning);
}

#[test]
fn failed_deletion_is_reported_and_the_run_goes_on() {
    let mut s = scanning(3);
    s.handle(entry(1, 60 * MEBIBYTE));
    s.handle(Event::Answered(Reply::Yes));
    assert_eq!(s.handle(Event::Deleted(false)), Action::ReportDeleteFailure);
    assert_eq!(s.handle(entry(1, 60 * MEBIBYTE)), Action::Ask);
}

#[test]
fn failed_prompt_stops_the_run() {
    let mut s = scanning(3);
    assert_eq!(s.handle(entry(1, 60 * MEBIBYTE)), Action::Ask);
    assert_eq!(s.handle(Event::Answered(Reply::Failed)), Action::Stop);
    assert_eq!(s.phase, Phase::Halted);
    assert_eq!(s.handle(entry(1, 70 * MEBIBYTE)), Action::Stop);
    assert_eq!(s.handle(Event::Answered(Reply::Yes)), Action::Stop);
    assert_eq!(s.phase, Phase::Halted);
}

#[test]
fn out_of_place_events_are_ignored() {
    let mut s = scanning(3);
    assert_eq!(s.handle(Event::Answered(Reply::Yes)), Action::Ignore);
    assert_eq!(s.handle(Event::Deleted(true)), Action::Ignore);
    assert_eq!(s, scanning(3));
    s.handle(entry(1, 60 * MEBIBYTE));
    assert_eq!(s.handle(entry(1, 60 * MEBIBYTE)), Action::Ignore);
    assert_eq!(s.phase, Phase::Asking);
}
