use scratchsmith::resolver::{ResolvedInterp, ResolvedLib, Resolution};
use scratchsmith::stager::{
    display_image_path, include_plan, include_report, libc_dir, stage, tini_candidates, under,
    AddFile, AddFileError, NssModule, NssSelection, SizeEntry, SizeReport, StageError,
    measure_targets, size_report, check_added_file, AddedFileRefusal, SourceKind,
};

#[test]
fn nss_from_modules_maps_values_and_rejects_none_mix() {
    assert_eq!(NssSelection::from_modules(&[]).unwrap(), NssSelection::default());
    assert_eq!(
        NssSelection::from_modules(&[NssModule::Disabled]).unwrap(),
        NssSelection::none()
    );
    assert_eq!(
        NssSelection::from_modules(&[NssModule::Files]).unwrap(),
        NssSelection {
            files: true,
            dns: false
        }
    );
    let err = NssSelection::from_modules(&[NssModule::Disabled, NssModule::Files]).unwrap_err();
    assert!(err.message().contains("cannot be combined"), "{}", err.message());
}

#[test]
fn size_report_renders_entries_stripped_and_plain() {
    let stripped = SizeReport {
        entries: vec![SizeEntry {
            path: "/lib/x.so".into(),
            before: 100,
            after: 40,
        }],
        total_before: 100,
        total_after: 40,
        stripped: true,
        upx: false,
    };
    let text = stripped.to_text();
    assert!(text.contains("100"), "before size missing: {text}");
    assert!(text.contains("/lib/x.so"), "path missing: {text}");
    assert!(text.contains("saved"), "savings summary missing: {text}");

    let plain = SizeReport {
        entries: vec![SizeEntry {
            path: "/lib/x.so".into(),
            before: 40,
            after: 40,
        }],
        total_before: 40,
        total_after: 40,
        stripped: false,
        upx: false,
    };
    assert!(plain.to_text().contains("/lib/x.so"));

    let compressed = SizeReport {
        entries: vec![SizeEntry {
            path: "/app".into(),
            before: 200,
            after: 80,
        }],
        total_before: 200,
        total_after: 80,
        stripped: false,
        upx: true,
    };
    let text = compressed.to_text();
    assert!(text.contains("200"), "before size missing: {text}");
    assert!(text.contains("saved"), "upx savings summary missing: {text}");
}

#[test]
fn size_report_text_is_exact() {
    let r = SizeReport {
        entries: vec![SizeEntry {
            path: "/lib/x.so".into(),
            before: 100,
            after: 40,
        }],
        total_before: 100,
        total_after: 40,
        stripped: true,
        upx: false,
    };
    assert_eq!(
        r.to_text(),
        "         100 ->         40  /lib/x.so\n  total 100 -> 40 bytes (saved 60)"
    );
    let plain = SizeReport {
        entries: vec![],
        total_before: 5,
        total_after: 7,
        stripped: false,
        upx: false,
    };
    assert_eq!(plain.to_text(), "  total 7 bytes");
}

#[test]
fn add_file_spec_parses_both_forms() {
    let relocated = AddFile::parse("./app.conf:/etc/app.conf").unwrap();
    assert_eq!(relocated.src, "./app.conf");
    assert_eq!(relocated.dst, "/etc/app.conf");
    let mirrored = AddFile::parse("/etc/motd").unwrap();
    assert_eq!(mirrored.src, "/etc/motd");
    assert_eq!(mirrored.dst, "/etc/motd");
    let odd = AddFile::parse("./od:d.conf:/etc/app.conf").unwrap();
    assert_eq!(odd.src, "./od:d.conf");
    assert_eq!(odd.dst, "/etc/app.conf");
}

#[test]
fn add_file_spec_rejects_bad_destinations() {
    let err = AddFile::parse("./app.conf:etc/app.conf").unwrap_err().message();
    assert!(err.contains("must be absolute"), "{err}");
    assert!(AddFile::parse("./app.conf").is_err());
    let err = AddFile::parse("/etc/my:file").unwrap_err().message();
    assert!(err.contains("read '/etc/my' as the source"), "{err}");
    assert!(err.contains("'file' as the image path"), "{err}");
    let err = AddFile::parse("./app.conf:/etc/../../outside").unwrap_err().message();
    assert!(err.contains(".."), "{err}");
    assert!(AddFile::parse(":/etc/app.conf").is_err());
    assert!(AddFile::parse("./app.conf:").is_err());
}

#[test]
fn add_file_errors_carry_the_spec() {
    assert_eq!(
        AddFile::parse(":/x").unwrap_err(),
        AddFileError::Empty { spec: ":/x".into() }
    );
    assert_eq!(
        AddFile::parse("a:/x/..").unwrap_err(),
        AddFileError::ParentDir { spec: "a:/x/..".into() }
    );
    assert!(AddFile::parse("a:/x/..y").is_ok());
}

fn res_with(libs: &[(&str, &str)], interp: Option<(&str, &str)>, missing: &[&str]) -> Resolution {
    Resolution {
        interpreter: interp.map(|(i, s)| ResolvedInterp {
            image_path: i.into(),
            source: s.into(),
        }),
        libs: libs
            .iter()
            .map(|(s, p)| ResolvedLib {
                soname: (*s).into(),
                path: (*p).into(),
            })
            .collect(),
        missing: missing.iter().map(|m| m.to_string()).collect(),
    }
}

#[test]
fn loader_lands_at_its_pt_interp_path() {
    let res = res_with(
        &[],
        Some(("/lib64/ld-linux-x86-64.so.2", "/src/real-ld.so")),
        &[],
    );
    let plan = stage("/src/app", &res).unwrap();
    assert_eq!(plan.entrypoint, "/src/app");
    assert_eq!(plan.copies.len(), 2);
    assert_eq!(plan.copies[1].source, "/src/real-ld.so");
    assert_eq!(plan.copies[1].image_path, "/lib64/ld-linux-x86-64.so.2");
    assert_eq!(plan.ld_so_conf, "/lib64\n");
}

#[test]
fn versioned_soname_gets_real_file_plus_symlink() {
    let res = res_with(
        &[
            ("libfoo.so.1", "/usr/lib/x86_64-linux-gnu/libfoo.so.1.2.3"),
            ("libc.so.6", "/lib/libc.so.6"),
        ],
        None,
        &[],
    );
    let plan = stage("/bin/app", &res).unwrap();
    assert_eq!(plan.symlinks.len(), 1);
    assert_eq!(plan.symlinks[0].link, "/usr/lib/x86_64-linux-gnu/libfoo.so.1");
    assert_eq!(plan.symlinks[0].target, "libfoo.so.1.2.3");
    // One line per library directory, in path order.
    assert_eq!(plan.ld_so_conf, "/lib\n/usr/lib/x86_64-linux-gnu\n");
}

#[test]
fn unresolved_dependencies_refuse_to_stage() {
    let res = res_with(&[], None, &["libghost.so", "libother.so"]);
    let err = stage("/bin/app", &res).unwrap_err();
    assert_eq!(
        err.message(),
        "refusing to stage: unresolved dependencies: libghost.so, libother.so"
    );
    assert!(matches!(err, StageError::Unresolved { .. }));
}

#[test]
fn the_cache_config_lists_each_directory_once() {
    let res = res_with(
        &[("liba.so", "/usr/lib/liba.so"), ("libb.so", "/usr/lib/libb.so"), ("libc.so.6", "/lib/libc.so.6")],
        Some(("/lib/ld.so", "/lib/ld.so")),
        &[],
    );
    let plan = stage("/bin/app", &res).unwrap();
    assert_eq!(plan.ld_so_conf, "/lib\n/usr/lib\n");
}

#[test]
fn nss_modules_come_from_libcs_directory() {
    let res = res_with(&[("libc.so.6", "/lib/x86_64-linux-gnu/libc.so.6")], None, &[]);
    assert_eq!(libc_dir(&res).as_deref(), Some("/lib/x86_64-linux-gnu"));
    let plan = include_plan(&res, NssSelection::default());
    let names: Vec<&str> = plan.modules.iter().map(|m| m.0.as_str()).collect();
    assert_eq!(names, vec!["libnss_files.so.2", "libnss_dns.so.2", "libresolv.so.2"]);
    assert_eq!(plan.modules[0].1, "/lib/x86_64-linux-gnu/libnss_files.so.2");
    assert!(plan.passwd_and_group && !plan.no_libc);
    let body = plan.nsswitch.clone().unwrap();
    assert!(body.contains("passwd:         files\n"));
    assert!(body.ends_with("hosts:          files dns\n"));

    let report = include_report(&plan, &vec![true, false, true]);
    assert_eq!(
        report.staged,
        vec![
            "/etc/nsswitch.conf",
            "/lib/x86_64-linux-gnu/libnss_files.so.2",
            "/lib/x86_64-linux-gnu/libresolv.so.2",
            "/etc/passwd",
            "/etc/group"
        ]
    );
    assert_eq!(report.warnings, vec!["NSS module not found: libnss_dns.so.2"]);
}

#[test]
fn nss_none_writes_no_nsswitch_and_no_modules() {
    let res = res_with(&[("libc.so.6", "/lib/libc.so.6")], None, &[]);
    let plan = include_plan(&res, NssSelection::none());
    assert!(plan.nsswitch.is_none());
    assert!(plan.modules.is_empty());
    assert!(!plan.passwd_and_group);
    let report = include_report(&plan, &vec![]);
    assert!(report.staged.is_empty() && report.warnings.is_empty());
}

#[test]
fn a_static_binary_warns_that_nss_modules_were_skipped() {
    let res = res_with(&[], None, &[]);
    let plan = include_plan(&res, NssSelection { files: false, dns: true });
    assert!(plan.no_libc);
    let body = plan.nsswitch.clone().unwrap();
    assert_eq!(body, "hosts:          dns\n");
    let report = include_report(&plan, &vec![]);
    assert_eq!(report.warnings, vec!["no libc in resolution; skipped NSS modules"]);
    assert_eq!(report.staged, vec!["/etc/nsswitch.conf"]);
}

#[test]
fn staged_paths_are_shown_as_image_paths() {
    assert_eq!(under("/tmp/root", "/usr/lib/x.so"), "/tmp/root/usr/lib/x.so");
    assert_eq!(display_image_path("/tmp/root", "/tmp/root/usr/lib/x.so"), "/usr/lib/x.so");
    assert_eq!(display_image_path("/tmp/root/", "/tmp/root/app"), "/app");
    assert_eq!(display_image_path("/tmp/root", "/elsewhere/x"), "/elsewhere/x");
    assert_eq!(display_image_path("/tmp/root", "/tmp/rootish/x"), "/tmp/rootish/x");
}

#[test]
fn tini_is_looked_for_in_the_usual_places() {
    assert_eq!(
        tini_candidates(),
        vec!["/usr/bin/tini", "/sbin/tini", "/usr/bin/tini-static", "/bin/tini"]
    );
}

#[test]
fn measured_files_are_the_binary_loader_and_libraries() {
    let res = res_with(
        &[("libc.so.6", "/lib/libc.so.6")],
        Some(("/lib64/ld.so", "/lib64/ld.so")),
        &[],
    );
    let t = measure_targets("/tmp/d", "/opt/app", &res);
    assert_eq!(t, vec!["/tmp/d/opt/app", "/tmp/d/lib64/ld.so", "/tmp/d/lib/libc.so.6"]);
    let r = size_report("/tmp/d", &t, &vec![(10, 5), (20, 20), (30, 25)], true, false);
    assert_eq!(r.entries[0].path, "/opt/app");
    assert_eq!(r.entries[2].path, "/lib/libc.so.6");
    assert_eq!((r.total_before, r.total_after), (60, 50));
    assert!(r.stripped && !r.upx);
}

#[test]
fn added_files_must_be_new_regular_files() {
    let f = AddFile::parse("./a.conf:/etc/a.conf").unwrap();
    assert!(check_added_file(&f, SourceKind::File, false).is_ok());
    let dir = check_added_file(&f, SourceKind::Directory, false).unwrap_err();
    assert_eq!(dir.message(), "--add-file: ./a.conf is a directory; --add-file takes regular files");
    assert!(matches!(
        check_added_file(&f, SourceKind::Other, false),
        Err(AddedFileRefusal::NotRegular { directory: false, .. })
    ));
    let dup = check_added_file(&f, SourceKind::File, true).unwrap_err();
    assert!(dup.message().contains("/etc/a.conf is already in the image"));
    assert_eq!(
        check_added_file(&f, SourceKind::Unreadable, false).unwrap_err().message(),
        "--add-file: cannot read ./a.conf"
    );
}
