use std::collections::HashMap;

use trace4rs::rolling::{
    needs_remount, FileId, FixedWindow, FsOp, LogFileMeta, Roller, Rolling, Trigger,
};

/// A tiny in-memory filesystem: applies a roll plan the way the embedding
/// would, then reopens the active path in append-create mode.
fn apply_plan(fs: &mut HashMap<String, Vec<u8>>, ops: &[FsOp], active: &str) {
    for op in ops {
        match op {
            FsOp::Rename(from, to) => {
                if let Some(content) = fs.remove(from) {
                    fs.insert(to.clone(), content);
                }
            }
            FsOp::Remove(p) => {
                fs.remove(p);
            }
        }
    }
    fs.entry(active.to_string()).or_insert_with(Vec::new);
}

fn write_bytes(fs: &mut HashMap<String, Vec<u8>>, sink: &mut Rolling, path: &str, bytes: &[u8]) {
    fs.entry(path.to_string()).or_insert_with(Vec::new).extend_from_slice(bytes);
    if let Some(ops) = sink.on_write(bytes.len()) {
        apply_plan(fs, &ops, path);
    }
}

#[test]
fn meta_estimate_grows_and_saturates() {
    let mut m = LogFileMeta::new(u64::MAX - 1);
    m.wrote(1);
    assert_eq!(m.len_estimate(), u64::MAX);
    m.wrote(100);
    assert_eq!(m.len_estimate(), u64::MAX);
    let mut small = LogFileMeta::new(3);
    small.wrote(4);
    assert_eq!(small.len_estimate(), 7);
}

#[test]
fn trigger_fires_strictly_past_the_limit() {
    let t = Trigger::Size { limit: 10 };
    assert!(!t.should_roll(&LogFileMeta::new(10)));
    assert!(t.should_roll(&LogFileMeta::new(11)));
}

#[test]
fn inc_last_counts_up_and_sticks_at_the_window_edge() {
    let mut w = FixedWindow { last: None, count: 2, pattern: String::from("f.{}") };
    assert_eq!(w.inc_last(), 0);
    assert_eq!(w.last, Some(0));
    assert_eq!(w.inc_last(), 1);
    assert_eq!(w.last, Some(1));
    assert_eq!(w.inc_last(), 1);
    assert_eq!(w.last, Some(1));
}

#[test]
fn pattern_index_substitution() {
    let w = FixedWindow { last: None, count: 3, pattern: String::from("foo.log.{}") };
    assert_eq!(w.pattern_at(0), "foo.log.0");
    assert_eq!(w.pattern_at(12), "foo.log.12");
}

#[test]
fn rotation_keeps_window_of_backups_newest_at_zero() {
    // limit 10 bytes, two backups kept
    let mut fs: HashMap<String, Vec<u8>> = HashMap::new();
    fs.insert("foo.log".to_string(), Vec::new());
    let mut sink = Rolling::new(
        String::from("foo.log"),
        0,
        Trigger::Size { limit: 10 },
        Roller::new_fixed(String::from("foo.log.{}"), 2),
    );

    // nine bytes: under the limit, no roll
    write_bytes(&mut fs, &mut sink, "foo.log", b"123456789");
    assert_eq!(fs["foo.log"], b"123456789");
    assert!(!fs.contains_key("foo.log.0"));

    // two more: the estimate crosses the limit, one roll
    write_bytes(&mut fs, &mut sink, "foo.log", b"AB");
    assert_eq!(fs["foo.log"], b"");
    assert_eq!(fs["foo.log.0"], b"123456789AB");

    // a second crossing shifts the first backup up
    write_bytes(&mut fs, &mut sink, "foo.log", b"second-roll-content");
    assert_eq!(fs["foo.log"], b"");
    assert_eq!(fs["foo.log.0"], b"second-roll-content");
    assert_eq!(fs["foo.log.1"], b"123456789AB");

    // the third crossing evicts the oldest: still exactly two backups
    write_bytes(&mut fs, &mut sink, "foo.log", b"third-roll-content!");
    assert_eq!(fs["foo.log"], b"");
    assert_eq!(fs["foo.log.0"], b"third-roll-content!");
    assert_eq!(fs["foo.log.1"], b"second-roll-content");
    assert!(!fs.contains_key("foo.log.2"));
}

#[test]
fn size_delete_roll_drops_content() {
    let mut fs: HashMap<String, Vec<u8>> = HashMap::new();
    fs.insert("logfile".to_string(), Vec::new());
    let mut sink = Rolling::new(
        String::from("logfile"),
        0,
        Trigger::Size { limit: 10 },
        Roller::Delete,
    );

    write_bytes(&mut fs, &mut sink, "logfile", b"123456789");
    assert_eq!(fs["logfile"], b"123456789");

    // crossing the limit deletes; the active file restarts empty
    write_bytes(&mut fs, &mut sink, "logfile", b"AB");
    assert_eq!(fs["logfile"], b"");

    // bytes after the roll are exactly what the file holds
    write_bytes(&mut fs, &mut sink, "logfile", b"xyz");
    assert_eq!(fs["logfile"], b"xyz");
}

#[test]
fn first_roll_plan_renames_active_into_slot_zero() {
    let mut roller = Roller::new_fixed(String::from("foo.log.{}"), 2);
    let ops = roller.roll_plan("foo.log");
    assert_eq!(ops.len(), 1);
    match &ops[0] {
        FsOp::Rename(from, to) => {
            assert_eq!(from, "foo.log");
            assert_eq!(to, "foo.log.0");
        }
        _ => panic!("expected a rename"),
    }
}

#[test]
fn remount_detection() {
    let a = FileId { dev: 1, ino: 10 };
    let b = FileId { dev: 1, ino: 11 };
    // the expected path no longer resolves
    assert!(needs_remount(Some(Ok(a)), Err(())));
    assert!(needs_remount(None, Err(())));
    // both resolve but name different files
    assert!(needs_remount(Some(Ok(a)), Ok(b)));
    // same file: nothing to do
    assert!(!needs_remount(Some(Ok(a)), Ok(a)));
    // no usable handle metadata while the path resolves
    assert!(!needs_remount(Some(Err(())), Ok(a)));
    assert!(!needs_remount(None, Ok(a)));
}
