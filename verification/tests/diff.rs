use scratchsmith::diff::{build, content_fingerprint, symlink_fingerprint, DiffEntry};

fn entry(path: &str, body: &[u8]) -> DiffEntry {
    DiffEntry {
        path: path.into(),
        size: body.len() as u64,
        fingerprint: content_fingerprint(body),
    }
}

#[test]
fn build_reports_added_removed_and_changed() {
    let a = vec![
        entry("bin/app", b"same"),
        entry("lib/libc.so.6", b"old-libc"),
        entry("lib/libgone.so.1", b"gone"),
    ];
    let b = vec![
        entry("bin/app", b"same"),
        entry("lib/libc.so.6", b"new-libc-longer"),
        entry("lib/libnew.so.1", b"brand new"),
    ];
    let report = build(&a, &b);
    let added: Vec<&str> = report.added.iter().map(|f| f.path.as_str()).collect();
    assert_eq!(added, vec!["lib/libnew.so.1"]);
    let removed: Vec<&str> = report.removed.iter().map(|f| f.path.as_str()).collect();
    assert_eq!(removed, vec!["lib/libgone.so.1"]);
    assert_eq!(report.changed, vec!["lib/libc.so.6".to_string()]);
    assert!(report.has_changes());
    assert_eq!(
        report.size_after,
        ("same".len() + "new-libc-longer".len() + "brand new".len()) as u64
    );
}

#[test]
fn identical_trees_have_no_changes() {
    let a = vec![entry("bin/app", b"x")];
    let b = vec![entry("bin/app", b"x")];
    let report = build(&a, &b);
    assert!(!report.has_changes());
    assert_eq!(report.size_before, report.size_after);
}

#[test]
fn a_symlink_is_compared_by_its_target() {
    let a = vec![DiffEntry {
        path: "lib/libx.so.1".into(),
        size: 0,
        fingerprint: symlink_fingerprint("libx.so.1.0"),
    }];
    let b = vec![DiffEntry {
        path: "lib/libx.so.1".into(),
        size: 0,
        fingerprint: symlink_fingerprint("libx.so.1.1"),
    }];
    assert_eq!(build(&a, &b).changed, vec!["lib/libx.so.1".to_string()]);
    assert_eq!(symlink_fingerprint("t"), "symlink:t");
}

#[test]
fn a_content_fingerprint_is_the_sha256_hex() {
    assert_eq!(
        content_fingerprint(b""),
        "e3b0c44298fc1c149afbf4c8996fb92427ae41e4649b934ca495991b7852b855"
    );
}

#[test]
fn diff_text_marks_added_removed_and_changed() {
    let old = vec![entry("bin/app", b"one"), entry("etc/gone", b"xx")];
    let new = vec![entry("bin/app", b"two!"), entry("etc/new", b"abcde")];
    let r = build(&old, &new);
    assert_eq!(
        r.to_text(),
        "+ etc/new (5 B)\n- etc/gone (2 B)\n~ bin/app\nsize: 5 -> 9 bytes (+4)"
    );
}

#[test]
fn diff_text_of_identical_trees_says_no_changes() {
    let old = vec![entry("f", b"same")];
    let r = build(&old, &old.clone());
    assert!(!r.has_changes());
    assert_eq!(r.to_text(), "no changes\nsize: 4 -> 4 bytes (+0)");
}

#[test]
fn diff_text_shows_a_shrinking_tree() {
    let old = vec![entry("f", b"long body")];
    let new = vec![entry("f", b"s")];
    assert_eq!(build(&old, &new).to_text(), "~ f\nsize: 9 -> 1 bytes (-8)");
}

#[test]
fn swapping_the_trees_swaps_added_and_removed() {
    let a = vec![entry("a", b"1"), entry("b", b"old"), entry("gone", b"x")];
    let b = vec![entry("a", b"1"), entry("b", b"newer"), entry("new", b"yy")];
    let ab = build(&a, &b);
    let ba = build(&b, &a);
    assert_eq!(ab.added, ba.removed);
    assert_eq!(ab.removed, ba.added);
    assert_eq!(ab.changed, ba.changed);
    assert_eq!((ab.size_before, ab.size_after), (ba.size_after, ba.size_before));
}

#[test]
fn sorted_trees_list_the_same_changes_either_way() {
    let a = vec![entry("bin/a", b"1"), entry("bin/b", b"2"), entry("etc/c", b"3"), entry("lib/d", b"4")];
    let b = vec![entry("bin/a", b"one"), entry("etc/c", b"three"), entry("lib/d", b"4"), entry("z", b"")];
    let ab = build(&a, &b);
    let ba = build(&b, &a);
    assert_eq!(ab.changed, ["bin/a", "etc/c"]);
    assert_eq!(ab.changed, ba.changed);
}
