use janitors::bucket::{Action, Bucket, OverrideAction};
use janitors::config::Config;
use janitors::filters::FilterSet;
use janitors::fsops::path_exists;
use janitors::watch_path::{RecMode, WatchPath};

fn bucket(name: &str, dest: &str, exts: &[&str], priority: u32, action: Action, oa: OverrideAction) -> Bucket {
    let mut b = Bucket {
        name: name.to_string(),
        destination: dest.to_string(),
        extension_filters: exts.iter().map(|s| s.to_string()).collect(),
        name_filters: Vec::new(),
        priority,
        action,
        override_action: oa,
        matchers: FilterSet::new(),
    };
    b.init().unwrap();
    b
}

fn fresh_dir(d: &str) {
    fs_extra::dir::create_all(d, true).unwrap();
}

fn write(p: &str, content: &str) {
    fs_extra::file::write_all(p, content).unwrap();
}

fn read(p: &str) -> String {
    fs_extra::file::read_to_string(p).unwrap()
}

#[test]
fn rename_probe_takes_first_free_suffix() {
    let root = "/tmp/janitors_rename_probe";
    fresh_dir(root);
    write("/tmp/janitors_rename_probe/f.txt", "base");
    write("/tmp/janitors_rename_probe/f.txt.1", "one");
    write("/tmp/janitors_rename_probe/f.txt.2", "two");
    let b = bucket("b", root, &["txt"], 0, Action::Move, OverrideAction::Rename);
    let effective = b.rename_seq(&"/tmp/janitors_rename_probe/f.txt".to_string()).unwrap();
    assert_eq!(effective, "/tmp/janitors_rename_probe/f.txt.3".to_string());
}

#[test]
fn rename_probe_keeps_free_base_name() {
    let root = "/tmp/janitors_rename_free";
    fresh_dir(root);
    let b = bucket("b", root, &["txt"], 0, Action::Move, OverrideAction::Rename);
    let effective = b.rename_seq(&"/tmp/janitors_rename_free/f.txt".to_string()).unwrap();
    assert_eq!(effective, "/tmp/janitors_rename_free/f.txt".to_string());
}

#[test]
fn skip_policy_leaves_everything_untouched_and_succeeds() {
    let src_dir = "/tmp/janitors_skip_src";
    let dest_dir = "/tmp/janitors_skip_dest";
    fresh_dir(src_dir);
    fresh_dir(dest_dir);
    write("/tmp/janitors_skip_src/a.txt", "new content");
    write("/tmp/janitors_skip_dest/a.txt", "old content");
    let b = bucket("b", dest_dir, &["txt"], 0, Action::Move, OverrideAction::Skip);
    let res = b.apply_action(&"/tmp/janitors_skip_src/a.txt".to_string(), true);
    assert!(res.is_ok());
    assert!(path_exists("/tmp/janitors_skip_src/a.txt"));
    assert_eq!(read("/tmp/janitors_skip_dest/a.txt"), "old content");
}

#[test]
fn move_routes_created_file_to_destination() {
    let d = "/tmp/janitors_move_d";
    let e = "/tmp/janitors_move_e";
    fresh_dir(d);
    fresh_dir(e);
    write("/tmp/janitors_move_d/a.txt", "payload");
    let b1 = bucket("B1", e, &["txt"], 0, Action::Move, OverrideAction::Skip);
    let w = WatchPath {
        path: d.to_string(),
        recursive_mode: RecMode::NonRecursive,
        bucket_names: vec!["B1".to_string()],
    };
    let config = Config { watch: Vec::new(), bucket: vec![b1] };
    w.handle_paths(&vec!["/tmp/janitors_move_d/a.txt".to_string()], true, &config).unwrap();
    assert!(path_exists("/tmp/janitors_move_e/a.txt"));
    assert!(!path_exists("/tmp/janitors_move_d/a.txt"));
    assert_eq!(read("/tmp/janitors_move_e/a.txt"), "payload");
}

#[test]
fn log_file_goes_to_higher_priority_destination() {
    let d = "/tmp/janitors_prio_d";
    let e1 = "/tmp/janitors_prio_e1";
    let e2 = "/tmp/janitors_prio_e2";
    fresh_dir(d);
    fresh_dir(e1);
    fresh_dir(e2);
    write("/tmp/janitors_prio_d/x.log", "entry");
    let low = bucket("low", e1, &["log"], 1, Action::Move, OverrideAction::Skip);
    let high = bucket("high", e2, &["log"], 5, Action::Move, OverrideAction::Skip);
    let w = WatchPath {
        path: d.to_string(),
        recursive_mode: RecMode::NonRecursive,
        bucket_names: vec!["low".to_string(), "high".to_string()],
    };
    let config = Config { watch: Vec::new(), bucket: vec![low, high] };
    w.handle_paths(&vec!["/tmp/janitors_prio_d/x.log".to_string()], true, &config).unwrap();
    assert!(path_exists("/tmp/janitors_prio_e2/x.log"));
    assert!(!path_exists("/tmp/janitors_prio_e1/x.log"));
}

#[test]
fn overwrite_policy_replaces_existing_destination_on_move() {
    let src_dir = "/tmp/janitors_ow_src";
    let dest_dir = "/tmp/janitors_ow_dest";
    fresh_dir(src_dir);
    fresh_dir(dest_dir);
    write("/tmp/janitors_ow_src/a.txt", "new content");
    write("/tmp/janitors_ow_dest/a.txt", "old content");
    let b = bucket("b", dest_dir, &["txt"], 0, Action::Move, OverrideAction::Overwrite);
    b.apply_action(&"/tmp/janitors_ow_src/a.txt".to_string(), true).unwrap();
    assert!(!path_exists("/tmp/janitors_ow_src/a.txt"));
    assert_eq!(read("/tmp/janitors_ow_dest/a.txt"), "new content");
}

#[test]
fn rename_policy_copies_under_probed_name() {
    let src_dir = "/tmp/janitors_rn_src";
    let dest_dir = "/tmp/janitors_rn_dest";
    fresh_dir(src_dir);
    fresh_dir(dest_dir);
    write("/tmp/janitors_rn_src/a.txt", "new content");
    write("/tmp/janitors_rn_dest/a.txt", "old content");
    let b = bucket("b", dest_dir, &["txt"], 0, Action::Copy, OverrideAction::Rename);
    b.apply_action(&"/tmp/janitors_rn_src/a.txt".to_string(), true).unwrap();
    assert!(path_exists("/tmp/janitors_rn_src/a.txt"));
    assert_eq!(read("/tmp/janitors_rn_dest/a.txt"), "old content");
    assert_eq!(read("/tmp/janitors_rn_dest/a.txt.1"), "new content");
}

#[test]
fn delete_action_removes_the_source() {
    let src_dir = "/tmp/janitors_del_src";
    fresh_dir(src_dir);
    write("/tmp/janitors_del_src/a.obj", "garbage");
    let b = bucket("b", "/tmp/janitors_del_unused", &["obj"], 0, Action::Delete, OverrideAction::Skip);
    b.apply_action(&"/tmp/janitors_del_src/a.obj".to_string(), true).unwrap();
    assert!(!path_exists("/tmp/janitors_del_src/a.obj"));
}

#[test]
fn delete_action_ignores_occupied_destination() {
    // Skip policy, destination occupied, but the action is Delete: the
    // collision rule does not apply and the source is removed.
    let src_dir = "/tmp/janitors_delocc_src";
    let dest_dir = "/tmp/janitors_delocc_dest";
    fresh_dir(src_dir);
    fresh_dir(dest_dir);
    write("/tmp/janitors_delocc_src/a.obj", "garbage");
    write("/tmp/janitors_delocc_dest/a.obj", "occupant");
    let b = bucket("b", dest_dir, &["obj"], 0, Action::Delete, OverrideAction::Skip);
    b.apply_action(&"/tmp/janitors_delocc_src/a.obj".to_string(), true).unwrap();
    assert!(!path_exists("/tmp/janitors_delocc_src/a.obj"));
    assert_eq!(read("/tmp/janitors_delocc_dest/a.obj"), "occupant");
}

#[test]
fn failed_primitive_is_reported_as_action_failure() {
    let src_dir = "/tmp/janitors_fail_src";
    fresh_dir(src_dir);
    write("/tmp/janitors_fail_src/a.txt", "content");
    let b = bucket(
        "b",
        "/tmp/janitors_fail_dest_missing/deeper",
        &["txt"],
        0,
        Action::Move,
        OverrideAction::Skip,
    );
    let res = b.apply_action(&"/tmp/janitors_fail_src/a.txt".to_string(), true);
    assert!(matches!(res, Err(janitors::JError::ActionFailed(_))));
    assert!(path_exists("/tmp/janitors_fail_src/a.txt"));
}

#[test]
fn moved_directory_content_stands_at_destination() {
    let d = "/tmp/janitors_dir_d";
    let e = "/tmp/janitors_dir_e";
    fresh_dir("/tmp/janitors_dir_d/sub");
    fresh_dir(e);
    write("/tmp/janitors_dir_d/sub/inner.txt", "inner");
    let b = bucket("b", e, &[], 0, Action::Move, OverrideAction::Skip);
    let mut b = b;
    b.name_filters = vec!["sub".to_string()];
    b.init().unwrap();
    b.apply_action(&"/tmp/janitors_dir_d/sub".to_string(), false).unwrap();
    assert!(path_exists("/tmp/janitors_dir_e/sub/inner.txt"));
    assert!(!path_exists("/tmp/janitors_dir_d/sub"));
    assert_eq!(read("/tmp/janitors_dir_e/sub/inner.txt"), "inner");
}

#[test]
fn batch_with_no_fitting_bucket_succeeds_untouched() {
    let d = "/tmp/janitors_nofit_d";
    fresh_dir(d);
    write("/tmp/janitors_nofit_d/a.dat", "payload");
    let b = bucket("b", "/tmp/janitors_nofit_dest", &["txt"], 0, Action::Move, OverrideAction::Skip);
    let w = WatchPath {
        path: d.to_string(),
        recursive_mode: RecMode::NonRecursive,
        bucket_names: vec!["b".to_string()],
    };
    let config = Config { watch: Vec::new(), bucket: vec![b] };
    let res = w.handle_paths(&vec!["/tmp/janitors_nofit_d/a.dat".to_string()], true, &config);
    assert!(res.is_ok());
    assert_eq!(read("/tmp/janitors_nofit_d/a.dat"), "payload");
}
