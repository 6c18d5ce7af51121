use scratchsmith::graph::{build, dedup, file_name_or_path};
use scratchsmith::resolver::{ResolvedInterp, ResolvedLib, Resolution};

#[test]
fn dedup_keeps_first_seen_order() {
    let out = dedup(vec!["libc.so.6".into(), "libm.so.6".into(), "libc.so.6".into()]);
    assert_eq!(out, vec!["libc.so.6".to_string(), "libm.so.6".to_string()]);
}

#[test]
fn file_name_falls_back_to_full_path() {
    assert_eq!(file_name_or_path("/usr/bin/id"), "id");
    assert_eq!(file_name_or_path("/"), "/");
}

#[test]
fn dedup_of_nothing_is_nothing() {
    assert!(dedup(vec![]).is_empty());
    assert_eq!(
        dedup(vec!["a".into(), "a".into(), "a".into()]),
        vec!["a".to_string()]
    );
}

#[test]
fn the_graph_lists_the_binary_then_each_library() {
    let res = Resolution {
        interpreter: Some(ResolvedInterp {
            image_path: "/lib64/ld-linux-x86-64.so.2".into(),
            source: "/lib64/ld-linux-x86-64.so.2".into(),
        }),
        libs: vec![
            ResolvedLib {
                soname: "libm.so.6".into(),
                path: "/lib/libm.so.6".into(),
            },
            ResolvedLib {
                soname: "libc.so.6".into(),
                path: "/lib/libc.so.6".into(),
            },
        ],
        missing: vec!["libghost.so".into()],
    };
    let g = build(
        "/usr/bin/app",
        &vec!["libm.so.6".into(), "libc.so.6".into(), "libm.so.6".into()],
        &vec!["libplugin.so".into()],
        &res,
        &vec![Some(vec!["libc.so.6".into(), "libc.so.6".into()]), None],
    );
    assert_eq!(g.root, "app");
    assert_eq!(g.interpreter.as_deref(), Some("/lib64/ld-linux-x86-64.so.2"));
    assert_eq!(g.missing, vec!["libghost.so".to_string()]);
    assert_eq!(g.nodes.len(), 3);
    assert_eq!(g.nodes[0].name, "app");
    assert_eq!(g.nodes[0].path, "/usr/bin/app");
    assert_eq!(g.nodes[0].needs, vec!["libm.so.6", "libc.so.6", "libplugin.so"]);
    assert_eq!(g.nodes[1].name, "libm.so.6");
    assert_eq!(g.nodes[1].needs, vec!["libc.so.6"]);
    assert_eq!(g.nodes[2].path, "/lib/libc.so.6");
    assert!(g.nodes[2].needs.is_empty());
}

#[test]
fn graph_text_draws_a_tree_with_repeats_and_missing_deps() {
    let res = Resolution {
        interpreter: Some(ResolvedInterp {
            image_path: "/lib64/ld-linux-x86-64.so.2".into(),
            source: "/lib64/ld-linux-x86-64.so.2".into(),
        }),
        libs: vec![
            ResolvedLib { soname: "libz.so.1".into(), path: "/lib/libz.so.1.3".into() },
            ResolvedLib { soname: "libc.so.6".into(), path: "/lib/libc.so.6".into() },
        ],
        missing: vec!["libgone.so.2".into()],
    };
    let g = build(
        "/usr/bin/id",
        &vec!["libz.so.1".into(), "libc.so.6".into(), "libgone.so.2".into()],
        &vec![],
        &res,
        &vec![Some(vec!["libc.so.6".into()]), Some(vec![])],
    );
    let text = g.to_text();
    assert_eq!(
        text,
        "id (/usr/bin/id)\n\
         ├── libz.so.1 (/lib/libz.so.1.3)\n\
         │   └── libc.so.6 (/lib/libc.so.6)\n\
         ├── libc.so.6 (*)\n\
         └── libgone.so.2 (missing)\n\
         interpreter: /lib64/ld-linux-x86-64.so.2"
    );
}

#[test]
fn graph_text_of_a_static_binary_names_no_loader() {
    let g = build("/bin/busybox", &vec![], &vec![], &Resolution::default(), &vec![]);
    assert_eq!(g.to_text(), "busybox (/bin/busybox)\ninterpreter: none (static binary)");
}
