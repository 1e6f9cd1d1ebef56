use janitors::bucket::{Action, Bucket, OverrideAction};
use janitors::filters::FilterSet;
use janitors::watch_path::{RecMode, WatchPath};

fn bucket(name: &str, dest: &str, exts: &[&str], name_filters: &[&str], priority: u32) -> Bucket {
    let mut b = Bucket {
        name: name.to_string(),
        destination: dest.to_string(),
        extension_filters: exts.iter().map(|s| s.to_string()).collect(),
        name_filters: name_filters.iter().map(|s| s.to_string()).collect(),
        priority,
        action: Action::Move,
        override_action: OverrideAction::Skip,
        matchers: FilterSet::new(),
    };
    b.init().unwrap();
    b
}

fn watch(names: &[&str]) -> WatchPath {
    WatchPath {
        path: "watched".to_string(),
        recursive_mode: RecMode::NonRecursive,
        bucket_names: names.iter().map(|s| s.to_string()).collect(),
    }
}

#[test]
fn extension_match_considers_only_final_suffix() {
    let gz = bucket("gz", "d", &["gz"], &[], 0);
    let tar = bucket("tar", "d", &["tar"], &[], 0);
    assert_eq!(gz.is_fitting(&"archive.tar.gz".to_string()).unwrap(), true);
    assert_eq!(tar.is_fitting(&"archive.tar.gz".to_string()).unwrap(), false);
}

#[test]
fn hidden_file_has_no_extension() {
    let b = bucket("b", "d", &["bashrc"], &[], 0);
    assert_eq!(b.is_fitting(&".bashrc".to_string()).unwrap(), false);
    let by_name = bucket("n", "d", &[], &["bashrc"], 0);
    assert_eq!(by_name.is_fitting(&".bashrc".to_string()).unwrap(), true);
}

#[test]
fn extension_match_short_circuits_name_filters() {
    // The name filters do not match, yet the extension alone decides.
    let b = bucket("b", "d", &["txt"], &["^nothing-matches-this$"], 0);
    assert_eq!(b.is_fitting(&"a.txt".to_string()).unwrap(), true);
}

#[test]
fn name_filters_used_when_no_extension_filter_matches() {
    let b = bucket("b", "d", &["bin"], &["^rep"], 0);
    assert_eq!(b.is_fitting(&"report.txt".to_string()).unwrap(), true);
    assert_eq!(b.is_fitting(&"summary.txt".to_string()).unwrap(), false);
}

#[test]
fn name_filter_match_is_partial_not_anchored() {
    let b = bucket("b", "d", &[], &["port"], 0);
    assert_eq!(b.is_fitting(&"report.txt".to_string()).unwrap(), true);
}

#[test]
fn equal_priority_tie_broken_by_greater_name() {
    let alpha = bucket("alpha", "da", &["txt"], &[], 3);
    let beta = bucket("beta", "db", &["txt"], &[], 3);
    let w = watch(&["alpha", "beta"]);
    let path = "x.txt".to_string();
    let picked = w.pick_bucket(&vec![alpha, beta], &path);
    assert_eq!(picked, Some(1));
    let alpha = bucket("alpha", "da", &["txt"], &[], 3);
    let beta = bucket("beta", "db", &["txt"], &[], 3);
    let picked = w.pick_bucket(&vec![beta, alpha], &path);
    assert_eq!(picked, Some(0));
}

#[test]
fn higher_priority_wins() {
    let low = bucket("low", "d1", &["log"], &[], 1);
    let high = bucket("high", "d2", &["log"], &[], 5);
    let w = watch(&["low", "high"]);
    let picked = w.pick_bucket(&vec![low, high], &"x.log".to_string());
    assert_eq!(picked, Some(1));
}

#[test]
fn sole_fitting_bucket_is_picked() {
    let a = bucket("a", "d1", &["zip"], &[], 9);
    let b = bucket("b", "d2", &["txt"], &[], 0);
    let c = bucket("c", "d3", &["png"], &[], 9);
    let w = watch(&["a", "b", "c"]);
    let picked = w.pick_bucket(&vec![a, b, c], &"notes.txt".to_string());
    assert_eq!(picked, Some(1));
}

#[test]
fn unreferenced_bucket_is_not_picked() {
    let a = bucket("a", "d1", &["txt"], &[], 9);
    let b = bucket("b", "d2", &["txt"], &[], 0);
    let w = watch(&["b"]);
    let picked = w.pick_bucket(&vec![a, b], &"notes.txt".to_string());
    assert_eq!(picked, Some(1));
    let none = watch(&[]).pick_bucket(&vec![bucket("a", "d1", &["txt"], &[], 9)], &"notes.txt".to_string());
    assert_eq!(none, None);
}

#[test]
fn invalid_name_filter_is_reported() {
    let mut b = Bucket {
        name: "b".to_string(),
        destination: "d".to_string(),
        extension_filters: Vec::new(),
        name_filters: vec!["(".to_string()],
        priority: 0,
        action: Action::Move,
        override_action: OverrideAction::Skip,
        matchers: FilterSet::new(),
    };
    let res = b.init();
    assert!(matches!(res, Err(janitors::JError::PatternError(_))));
}

#[test]
fn error_messages_name_their_variant() {
    assert_eq!(janitors::JError::MissingValue("v".to_string()).message(), "Missing value: v");
    assert_eq!(janitors::JError::InvalidPath("p".to_string()).message(), "Invalid path: p");
    assert_eq!(janitors::JError::PatternError("(".to_string()).message(), "Invalid name filter: (");
    assert_eq!(janitors::JError::ActionFailed("m".to_string()).message(), "Action failed: m");
}

#[test]
fn fully_tied_candidates_fall_to_the_latest() {
    // Two buckets with the same priority and the same name (a duplicate
    // definition): the one standing later in the bucket list wins.
    let first = bucket("dup", "d1", &["txt"], &[], 2);
    let second = bucket("dup", "d2", &["txt"], &[], 2);
    let w = watch(&["dup"]);
    let picked = w.pick_bucket(&vec![first, second], &"x.txt".to_string());
    assert_eq!(picked, Some(1));
}

#[test]
fn defaults_are_move_skip_non_recursive() {
    assert_eq!(Action::default(), Action::Move);
    assert_eq!(OverrideAction::default(), OverrideAction::Skip);
    assert_eq!(RecMode::default(), RecMode::NonRecursive);
}

#[test]
fn bucket_equality_compares_identity_and_placement() {
    let a = bucket("same", "dest", &["txt"], &[], 1);
    let b = bucket("same", "dest", &["log"], &["pattern"], 1);
    let c = bucket("other", "dest", &["txt"], &[], 1);
    assert!(a == b);
    assert!(a != c);
}
