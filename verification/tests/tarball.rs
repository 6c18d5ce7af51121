use scratchsmith::tarball::{tar_plan, tar_tree, TreeEntry, TreeKind, TYPE_SYMLINK};
use std::io::Read;

fn file(path: &str, data: &[u8], executable: bool) -> TreeEntry {
    TreeEntry { path: path.into(), kind: TreeKind::Regular { data: data.to_vec(), executable } }
}

fn tree() -> Vec<TreeEntry> {
    vec![
        file("usr/bin/app", b"ELF", true),
        TreeEntry { path: "usr".into(), kind: TreeKind::Directory },
        TreeEntry { path: "usr/bin".into(), kind: TreeKind::Directory },
        file("usr.conf", b"x=1\n", false),
        TreeEntry { path: "lib".into(), kind: TreeKind::Symlink { target: "usr/lib".into() } },
    ]
}

#[test]
fn the_plan_sorts_by_path_components_and_canonicalizes_headers() {
    let p = tar_plan(tree());
    let paths: Vec<&str> = p.iter().map(|e| e.path.as_str()).collect();
    assert_eq!(paths, ["lib", "usr", "usr/bin", "usr/bin/app", "usr.conf"]);
    let modes: Vec<u32> = p.iter().map(|e| e.mode).collect();
    assert_eq!(modes, [0o777, 0o755, 0o755, 0o755, 0o644]);
    assert!(p.iter().all(|e| e.mtime == 0 && e.uid == 0 && e.gid == 0));
    assert_eq!(p[0].type_flag, TYPE_SYMLINK);
    assert_eq!(p[0].link.as_deref(), Some("usr/lib"));
    assert_eq!(p[3].data, b"ELF");
}

#[test]
fn a_path_given_twice_is_planned_once() {
    let mut t = tree();
    t.push(TreeEntry { path: "usr".into(), kind: TreeKind::Directory });
    assert_eq!(tar_plan(t).len(), 5);
}

#[test]
fn the_same_tree_in_any_order_tars_to_the_same_bytes() {
    let a = tar_tree(tree()).unwrap();
    let mut reversed = tree();
    reversed.reverse();
    let b = tar_tree(reversed).unwrap();
    assert_eq!(a, b);
    let mut ar = tar::Archive::new(&a[..]);
    let mut seen = Vec::new();
    for entry in ar.entries().unwrap() {
        let mut e = entry.unwrap();
        let h = e.header().clone();
        assert_eq!(h.mtime().unwrap(), 0);
        assert_eq!(h.uid().unwrap(), 0);
        let path = e.path().unwrap().to_string_lossy().into_owned();
        if path == "usr/bin/app" {
            let mut body = Vec::new();
            e.read_to_end(&mut body).unwrap();
            assert_eq!(body, b"ELF");
            assert_eq!(h.mode().unwrap(), 0o755);
        }
        seen.push(path);
    }
    assert_eq!(seen.len(), 5);
}

#[test]
fn paths_and_link_targets_longer_than_a_header_field_are_written() {
    let deep = format!("{}/file", "d".repeat(150));
    let far = format!("/{}/target", "t".repeat(150));
    let entries = vec![
        file(&deep, b"long", false),
        TreeEntry { path: "link".into(), kind: TreeKind::Symlink { target: far.clone() } },
    ];
    let bytes = tar_tree(entries).unwrap();
    let mut ar = tar::Archive::new(&bytes[..]);
    let mut seen = Vec::new();
    for entry in ar.entries().unwrap() {
        let e = entry.unwrap();
        let path = e.path().unwrap().to_string_lossy().into_owned();
        if path == "link" {
            assert_eq!(e.link_name().unwrap().unwrap().to_string_lossy(), far);
        }
        seen.push(path);
    }
    assert_eq!(seen, [deep.as_str(), "link"]);
}

#[test]
fn a_relative_path_with_dots_in_names_is_written() {
    let entries = vec![file("etc/..hidden", b"", false), file("a.../b", b"", false), file("./c", b"", false)];
    assert!(tar_tree(entries).is_ok());
}

#[test]
fn an_absolute_or_escaping_path_is_refused() {
    assert!(tar_tree(vec![file("/etc/passwd", b"", false)]).is_err());
    assert!(tar_tree(vec![file("a/../b", b"", false)]).is_err());
    assert!(tar_tree(vec![file("", b"", false)]).is_err());
}

#[test]
fn two_builds_of_one_tree_give_the_same_layer() {
    let mut shuffled = tree();
    shuffled.rotate_left(2);
    let a = scratchsmith::image::layer_from_tar(&tar_tree(tree()).unwrap()).unwrap();
    let b = scratchsmith::image::layer_from_tar(&tar_tree(shuffled).unwrap()).unwrap();
    assert_eq!(a.gzip, b.gzip);
    assert_eq!(a.diff_id, b.diff_id);
    assert_eq!(a.digest, b.digest);
    assert_ne!(a.diff_id, a.digest);
}
