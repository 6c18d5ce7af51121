use scratchsmith::resolver::{
    build_dirs, expand_tokens, parse_elf_info, platform, reroot, ElfInfo, Linking, Query,
    Resolution, Resolver, Sysroot,
};
use std::collections::HashMap;

fn info(interpreter: Option<&str>, needed: &[&str]) -> ElfInfo {
    elf(needed, &[], &[], interpreter)
}

fn elf(needed: &[&str], rpaths: &[&str], runpaths: &[&str], interp: Option<&str>) -> ElfInfo {
    ElfInfo {
        interpreter: interp.map(str::to_owned),
        needed: needed.iter().map(|s| s.to_string()).collect(),
        rpaths: rpaths.iter().map(|s| s.to_string()).collect(),
        runpaths: runpaths.iter().map(|s| s.to_string()).collect(),
        soname: None,
        is_64: true,
        machine: 62,
        uses_dlopen: false,
    }
}

#[test]
fn no_interpreter_and_no_needed_is_static() {
    assert_eq!(info(None, &[]).linking(), Linking::Static);
}

#[test]
fn an_interpreter_means_dynamic() {
    assert_eq!(info(Some("/lib64/ld-linux-x86-64.so.2"), &[]).linking(), Linking::Dynamic);
}

#[test]
fn needed_libs_mean_dynamic_even_without_an_interpreter() {
    assert_eq!(info(None, &["libc.so.6"]).linking(), Linking::Dynamic);
}

#[test]
fn non_elf_bytes_are_rejected() {
    let err = parse_elf_info(b"not an elf at all").unwrap_err();
    assert!(err.message().contains("ELF"));
}

// An in-memory host: every file that exists, with the facts it parses to (or none).
struct Host {
    files: HashMap<String, Option<ElfInfo>>,
}

fn resolve_on(host: &Host, exe: &str, root: &str) -> Resolution {
    let root_info = host.files[exe].clone().expect("the binary parses");
    let mut r = Resolver::start(exe, &root_info, &vec![], Sysroot::new(root));
    loop {
        match r.next_query() {
            Query::Locate(candidates) => {
                let found = candidates.into_iter().find(|c| host.files.contains_key(c));
                r.located(found);
            }
            Query::Read(path) => {
                let facts = host.files.get(&path).cloned().flatten();
                r.read(facts);
            }
            Query::Done => break,
        }
    }
    r.finish()
}

fn has(res: &Resolution, soname: &str) -> bool {
    res.libs.iter().any(|l| l.soname == soname)
}

#[test]
fn rpath_is_inherited_but_runpath_is_not() {
    let loader = "/r/lib64/ld-linux-x86-64.so.2";
    let mut files = HashMap::new();
    files.insert(loader.to_string(), None);
    files.insert(
        "/r/app/exe".to_string(),
        Some(elf(&["libmid.so"], &["$ORIGIN/libs"], &[], Some("/lib64/ld-linux-x86-64.so.2"))),
    );
    files.insert("/r/app/libs/libmid.so".to_string(), Some(elf(&["libleaf.so"], &[], &[], None)));
    files.insert("/r/app/libs/libleaf.so".to_string(), Some(elf(&[], &[], &[], None)));
    let res = resolve_on(&Host { files: files.clone() }, "/r/app/exe", "/r");
    assert!(res.missing.is_empty(), "rpath variant: {:?}", res.missing);
    assert!(has(&res, "libleaf.so"));
    let interp = res.interpreter.as_ref().expect("loader should resolve");
    assert_eq!(interp.image_path, "/lib64/ld-linux-x86-64.so.2");
    assert_eq!(interp.source, loader);

    files.insert(
        "/r/app/exe".to_string(),
        Some(elf(&["libmid.so"], &[], &["$ORIGIN/libs"], Some("/lib64/ld-linux-x86-64.so.2"))),
    );
    let res = resolve_on(&Host { files }, "/r/app/exe", "/r");
    assert!(has(&res, "libmid.so"), "runpath resolves the direct dep");
    assert!(res.missing.contains(&"libleaf.so".to_string()));
}

#[test]
fn origin_expands_relative_to_the_owning_object() {
    let mut files = HashMap::new();
    files.insert("/r/lib64/ld-linux-x86-64.so.2".to_string(), None);
    files.insert(
        "/r/a/exe".to_string(),
        Some(elf(&["libmid.so"], &["$ORIGIN/lib"], &[], Some("/lib64/ld-linux-x86-64.so.2"))),
    );
    files.insert(
        "/r/a/lib/libmid.so".to_string(),
        Some(elf(&["libleaf.so"], &["$ORIGIN/deep"], &[], None)),
    );
    files.insert("/r/a/lib/deep/libleaf.so".to_string(), Some(elf(&[], &[], &[], None)));
    let res = resolve_on(&Host { files }, "/r/a/exe", "/r");
    assert!(res.missing.is_empty(), "{:?}", res.missing);
    assert!(has(&res, "libleaf.so"));
}

#[test]
fn diamond_dependencies_resolve_shared_lib_once() {
    let d = "/r/usr/lib/x86_64-linux-gnu";
    let mut files = HashMap::new();
    files.insert("/r/lib64/ld-linux-x86-64.so.2".to_string(), None);
    files.insert(
        "/r/bin/exe".to_string(),
        Some(elf(&["liba.so", "libb.so"], &[], &[], Some("/lib64/ld-linux-x86-64.so.2"))),
    );
    files.insert(format!("{d}/liba.so"), Some(elf(&["libc_shared.so"], &[], &[], None)));
    files.insert(format!("{d}/libb.so"), Some(elf(&["libc_shared.so"], &[], &[], None)));
    files.insert(format!("{d}/libc_shared.so"), Some(elf(&[], &[], &[], None)));
    let res = resolve_on(&Host { files }, "/r/bin/exe", "/r");
    assert!(res.missing.is_empty(), "{:?}", res.missing);
    let count = res.libs.iter().filter(|l| l.soname == "libc_shared.so").count();
    assert_eq!(count, 1);
    let names: Vec<&str> = res.libs.iter().map(|l| l.soname.as_str()).collect();
    assert_eq!(names, vec!["liba.so", "libb.so", "libc_shared.so"]);
}

#[test]
fn missing_dependency_is_reported_not_fatal() {
    let mut files = HashMap::new();
    files.insert("/r/bin/exe".to_string(), Some(elf(&["libghost.so", "libghost.so"], &[], &[], None)));
    let res = resolve_on(&Host { files }, "/r/bin/exe", "/r");
    assert_eq!(res.missing, vec!["libghost.so".to_string()]);
    assert!(res.interpreter.is_none());
}

#[test]
fn a_missing_loader_is_reported_by_its_pt_interp_path() {
    let mut files = HashMap::new();
    files.insert("/r/bin/exe".to_string(), Some(elf(&[], &[], &[], Some("/lib/ld-musl.so.1"))));
    let res = resolve_on(&Host { files }, "/r/bin/exe", "/r");
    assert!(res.interpreter.is_none());
    assert_eq!(res.missing, vec!["/lib/ld-musl.so.1".to_string()]);
}

#[test]
fn a_file_that_does_not_parse_stays_a_leaf() {
    let mut files = HashMap::new();
    files.insert("/r/bin/exe".to_string(), Some(elf(&["libdata.so"], &[], &[], None)));
    files.insert("/r/lib/libdata.so".to_string(), None);
    let res = resolve_on(&Host { files }, "/r/bin/exe", "/r");
    assert!(has(&res, "libdata.so"));
    assert!(res.missing.is_empty());
}

#[test]
fn tokens_expand_braced_and_bare() {
    assert_eq!(expand_tokens("$ORIGIN/../${LIB}", "/opt/app", true, 62), "/opt/app/../lib64");
    assert_eq!(expand_tokens("${ORIGIN}/$PLATFORM", "/o", false, 183), "/o/aarch64");
    assert_eq!(expand_tokens("$LIB", "/o", false, 0), "lib");
    assert_eq!(platform(62), "x86_64");
    assert_eq!(platform(3), "");
}

#[test]
fn reroot_moves_absolute_paths_under_the_sysroot_once() {
    assert_eq!(reroot("/", "/usr/lib"), "/usr/lib");
    assert_eq!(reroot("/sys", "/usr/lib"), "/sys/usr/lib");
    assert_eq!(reroot("/sys", "/sys/usr/lib"), "/sys/usr/lib");
    assert_eq!(reroot("/sys", "relative"), "relative");
}

#[test]
fn search_dirs_are_rerooted_or_origin_relative() {
    let dirs = build_dirs(
        &vec!["/opt/lib".to_string(), "$ORIGIN/libs".to_string(), "rel".to_string()],
        "/sys/app",
        "/sys",
        true,
        62,
    );
    assert_eq!(dirs, vec!["/sys/opt/lib", "/sys/app/libs", "/sys/app/rel"]);
}

#[test]
fn the_sysroot_keeps_its_root() {
    let s = Sysroot::new("/");
    assert_eq!(s.root(), "/");
}

#[test]
fn musl_is_told_by_its_interpreter() {
    assert!(info(Some("/lib/ld-musl-x86_64.so.1"), &["libc.musl-x86_64.so.1"]).is_musl());
    assert!(!info(Some("/lib64/ld-linux-x86-64.so.2"), &[]).is_musl());
    assert!(!info(None, &[]).is_musl());
}

#[test]
fn a_dependency_that_resolves_to_the_binary_is_not_staged_again() {
    let mut files = HashMap::new();
    files.insert(
        "/r/app/exe".to_string(),
        Some(elf(&["exe", "libx.so"], &["$ORIGIN"], &[], None)),
    );
    files.insert("/r/app/libx.so".to_string(), Some(elf(&[], &[], &[], None)));
    let res = resolve_on(&Host { files }, "/r/app/exe", "/r");
    assert!(res.libs.iter().all(|l| l.path != "/r/app/exe"), "{:?}", res.libs);
    assert!(has(&res, "libx.so"));
    assert!(res.missing.is_empty());
}
