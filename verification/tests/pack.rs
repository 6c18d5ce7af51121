use scratchsmith::image::ImageConfig;
use scratchsmith::pack::{
    check_lib_policy, effective_image_config, max_size_refusal, image_tag, init_entrypoint, locale_env_warning,
    locale_selectors, normalize_locale, root_user_warning, smoke_refusal, localedef_args, dlopen_warning, musl_refusal, unresolved_refusal, upx_warning, PackOptions,
    Sink,
};
use scratchsmith::resolver::{ResolvedInterp, ResolvedLib, Resolution};

fn resolution(sonames: &[&str]) -> Resolution {
    Resolution {
        interpreter: Some(ResolvedInterp {
            image_path: "/lib64/ld-linux-x86-64.so.2".to_string(),
            source: "/lib64/ld-linux-x86-64.so.2".to_string(),
        }),
        libs: sonames
            .iter()
            .map(|s| ResolvedLib {
                soname: (*s).to_string(),
                path: format!("/lib/{s}"),
            })
            .collect(),
        missing: vec![],
    }
}

fn strings(v: &[&str]) -> Vec<String> {
    v.iter().map(|s| s.to_string()).collect()
}

#[test]
fn lib_policy_passes_when_satisfied_and_when_empty() {
    let res = resolution(&["libc.so.6", "libm.so.6"]);
    assert!(check_lib_policy(&res, &vec![], &vec![], &vec![]).is_ok());
    assert!(check_lib_policy(&res, &vec![], &strings(&["libc.so.6"]), &strings(&["libssl.so.3"])).is_ok());
}

#[test]
fn lib_policy_fails_on_denied_present_and_required_absent() {
    let res = resolution(&["libc.so.6", "libssl.so.3"]);
    let denied = check_lib_policy(&res, &vec![], &vec![], &strings(&["libssl.so.3"])).unwrap_err();
    assert!(denied.message().contains("denied library present: libssl.so.3"));
    let missing =
        check_lib_policy(&res, &vec![], &strings(&["libseccomp.so.2"]), &vec![]).unwrap_err();
    assert!(missing.message().contains("required library missing: libseccomp.so.2"));
    let both = check_lib_policy(&res, &vec![], &strings(&["libx.so"]), &strings(&["libssl.so.3"]))
        .unwrap_err();
    let msg = both.message();
    assert!(msg.contains("denied library present") && msg.contains("required library missing"));
}

#[test]
fn lib_policy_covers_loader_and_staged_nss_modules() {
    let res = resolution(&["libc.so.6"]);
    let staged = strings(&[
        "/etc/nsswitch.conf",
        "/usr/lib/x86_64-linux-gnu/libresolv.so.2",
    ]);
    assert!(check_lib_policy(&res, &staged, &vec![], &strings(&["ld-linux-x86-64.so.2"])).is_err());
    assert!(check_lib_policy(&res, &staged, &vec![], &strings(&["libresolv.so.2"])).is_err());
    assert!(check_lib_policy(&res, &staged, &strings(&["libresolv.so.2"]), &vec![]).is_ok());
    assert!(check_lib_policy(&res, &staged, &strings(&["nsswitch.conf"]), &vec![]).is_err());
}

#[test]
fn lib_policy_message_is_exact_and_keeps_the_given_order() {
    let res = resolution(&["libc.so.6", "libssl.so.3", "libz.so.1"]);
    let err = check_lib_policy(
        &res,
        &vec![],
        &strings(&["libb.so", "liba.so"]),
        &strings(&["libz.so.1", "libssl.so.3"]),
    )
    .unwrap_err();
    assert_eq!(err.denied, strings(&["libz.so.1", "libssl.so.3"]));
    assert_eq!(err.missing, strings(&["libb.so", "liba.so"]));
    assert_eq!(
        err.message(),
        "library policy failed: denied library present: libz.so.1, libssl.so.3 and required library missing: libb.so, liba.so"
    );
}

#[test]
fn a_library_ships_under_its_file_name_too() {
    let res = Resolution {
        interpreter: None,
        libs: vec![ResolvedLib {
            soname: "libfoo.so.1".into(),
            path: "/usr/lib/libfoo.so.1.2.3".into(),
        }],
        missing: vec![],
    };
    assert!(check_lib_policy(&res, &vec![], &strings(&["libfoo.so.1.2.3"]), &vec![]).is_ok());
    assert!(check_lib_policy(&res, &vec![], &strings(&["libfoo.so.1"]), &vec![]).is_ok());
}

#[test]
fn tag_is_lowercase_and_namespaced() {
    assert_eq!(image_tag("/usr/bin/MyApp"), "scratchsmith/myapp:packed");
}

#[test]
fn a_path_without_a_file_name_is_tagged_image() {
    assert_eq!(image_tag("/"), "scratchsmith/image:packed");
}

#[test]
fn init_wraps_the_entrypoint_with_tini() {
    assert_eq!(
        init_entrypoint("/tini", vec!["/app".into(), "--serve".into()]),
        vec!["/tini", "--", "/app", "--serve"]
    );
}

fn locale_warning(env: &[&str]) -> Option<String> {
    let locales = vec!["en_US.UTF-8".to_string()];
    let env: Vec<String> = env.iter().map(|e| (*e).to_string()).collect();
    locale_env_warning(&locales, &env)
}

#[test]
fn staged_locale_without_any_selector_warns() {
    let warning = locale_warning(&[]).expect("a staged locale needs a selector");
    assert!(warning.contains("LANG=en_US.UTF-8"), "{warning}");
    assert!(locale_env_warning(&vec![], &vec![]).is_none());
}

#[test]
fn a_selector_naming_the_staged_locale_is_quiet() {
    assert!(locale_warning(&["LANG=en_US.UTF-8"]).is_none());
    assert!(locale_warning(&["LC_ALL=en_US.UTF-8"]).is_none());
    assert!(locale_warning(&["LC_TIME=en_US.UTF-8"]).is_none());
    assert!(locale_warning(&["LANG=en_us.utf8"]).is_none());
    assert!(locale_warning(&["LANG="]).is_some());
}

#[test]
fn a_selector_naming_an_unstaged_locale_warns() {
    let warning = locale_warning(&["LANG=fr_FR.UTF-8"]).expect("mismatch must warn");
    assert!(warning.contains("fr_FR.UTF-8"), "{warning}");
    assert!(warning.contains("en_US.UTF-8"), "{warning}");
    assert!(locale_warning(&["LANG=en_US.UTF-8", "LC_TIME=fr_FR.UTF-8"]).is_some());
    assert!(locale_warning(&["LANG=C"]).is_none());
    assert!(locale_warning(&["LC_ALL=POSIX"]).is_none());
    assert!(locale_warning(&["LANG=C.UTF-8"]).is_none());
}

#[test]
fn locale_names_normalize_down_to_what_glibc_sees() {
    assert_eq!(normalize_locale("en_US.UTF-8"), normalize_locale("en_us.utf8"));
    assert_ne!(normalize_locale("de_DE.UTF-8"), normalize_locale("de_DE"));
    assert_ne!(normalize_locale("de_DE.UTF-8@euro"), normalize_locale("de_DE.UTF-8"));
}

#[test]
fn normalized_locale_names_have_a_fixed_shape() {
    assert_eq!(normalize_locale("en_US.UTF-8"), "en_us.utf8@");
    assert_eq!(normalize_locale("de_DE.ISO-8859-15@Euro"), "de_de.iso885915@euro");
    assert_eq!(normalize_locale("C"), "c.@");
}

#[test]
fn the_warning_texts_are_exact() {
    assert_eq!(
        locale_warning(&[]).unwrap(),
        "staged 1 locale(s), but the image sets no LANG, LC_ALL or LC_* entry, so the binary runs in the C locale. Add --env LANG=en_US.UTF-8"
    );
    assert_eq!(
        locale_warning(&["LANG=fr_FR.UTF-8", "LC_TIME=de_DE"]).unwrap(),
        "the image selects fr_FR.UTF-8, de_DE, which the pack did not stage, so glibc falls back to the C locale there. Staged: en_US.UTF-8"
    );
}

#[test]
fn selectors_keep_lang_and_lc_values_in_order() {
    let env = vec![
        "PATH=/bin".to_string(),
        "LC_TIME=a".to_string(),
        "NOEQUALS".to_string(),
        "LANG=b".to_string(),
        "LC_ALL=".to_string(),
        "LANGUAGE=c".to_string(),
    ];
    assert_eq!(locale_selectors(&env), vec!["a".to_string(), "b".to_string()]);
}

#[test]
fn smoke_is_refused_on_every_sink_but_docker() {
    assert!(smoke_refusal(true, &Sink::DockerLoad).is_none());
    assert!(smoke_refusal(false, &Sink::Push("x".into())).is_none());
    let push = smoke_refusal(true, &Sink::Push("localhost:5000/x:v1".into())).unwrap();
    assert!(push.contains("smoke") && push.contains("--push"));
    let oci = smoke_refusal(true, &Sink::OciArchive("o.tar".into())).unwrap();
    assert!(oci.contains("--oci-archive"));
    let rootfs = smoke_refusal(true, &Sink::Rootfs("/out".into())).unwrap();
    assert!(rootfs.contains("--no-build"));
}

#[test]
fn the_upx_caveat_points_at_smoke_only_when_it_is_off() {
    assert!(upx_warning(false).ends_with(" — verify the packed image with --smoke"));
    assert!(!upx_warning(true).contains("verify the packed image"));
}

#[test]
fn tini_wraps_the_default_or_the_configured_entrypoint() {
    let plain = ImageConfig::default();
    let none = effective_image_config(&plain, "/opt/app", &None);
    assert!(none.entrypoint.is_empty());
    let wrapped = effective_image_config(&plain, "/opt/app", &Some("/tini".to_string()));
    assert_eq!(wrapped.entrypoint, vec!["/tini", "--", "/opt/app"]);
    let custom = ImageConfig {
        entrypoint: vec!["/bin/tool".into(), "-v".into()],
        ..ImageConfig::default()
    };
    let wrapped = effective_image_config(&custom, "/opt/app", &Some("/tini".to_string()));
    assert_eq!(wrapped.entrypoint, vec!["/tini", "--", "/bin/tool", "-v"]);
}

#[test]
fn a_root_user_draws_a_warning() {
    let root = ImageConfig {
        user: Some("0:0".into()),
        ..ImageConfig::default()
    };
    assert_eq!(
        root_user_warning(&root).unwrap(),
        "--user 0:0 runs the image as root; the default non-root user is recommended"
    );
    assert!(root_user_warning(&ImageConfig::default()).is_none());
}

#[test]
fn pack_options_default_to_files_and_dns_and_no_gates() {
    let o = PackOptions::default();
    assert!(!o.smoke && !o.strip && !o.upx && !o.sign);
    assert!(o.nss.files && o.nss.dns);
    assert!(o.deny.is_empty() && o.require.is_empty() && o.max_size.is_none());
}

#[test]
fn the_size_budget_names_both_sizes() {
    assert!(max_size_refusal(10, None).is_none());
    assert!(max_size_refusal(10, Some(10)).is_none());
    assert_eq!(
        max_size_refusal(8_400_000, Some(5_000_000)).unwrap(),
        "packed image is 8.4 MB, over the --max-size limit of 5.0 MB"
    );
}

#[test]
fn unresolved_dependencies_refuse_the_pack() {
    let mut r = resolution(&["libc.so.6"]);
    assert!(unresolved_refusal(&r).is_none());
    r.missing = strings(&["libfoo.so.1", "libbar.so.2"]);
    assert_eq!(
        unresolved_refusal(&r).unwrap(),
        "cannot pack: unresolved dependencies: libfoo.so.1, libbar.so.2"
    );
}

#[test]
fn localedef_compiles_a_locale_from_its_parts() {
    assert_eq!(
        localedef_args("en_US.UTF-8", "/r/usr/lib/locale/en_US.UTF-8"),
        vec!["--no-archive", "-i", "en_US", "-f", "UTF-8", "/r/usr/lib/locale/en_US.UTF-8"]
    );
    assert_eq!(
        localedef_args("de_DE.UTF-8@euro", "/t"),
        vec!["--no-archive", "-i", "de_DE@euro", "-f", "UTF-8", "/t"]
    );
    assert_eq!(localedef_args("fr_FR", "/t"), vec!["--no-archive", "-i", "fr_FR", "/t"]);
}

#[test]
fn musl_binaries_are_refused_and_dlopen_warns() {
    use_musl_and_dlopen();
}

fn use_musl_and_dlopen() {
    let mut info = scratchsmith::resolver::ElfInfo {
        interpreter: Some("/lib/ld-musl-x86_64.so.1".to_string()),
        needed: vec![],
        rpaths: vec![],
        runpaths: vec![],
        soname: None,
        is_64: true,
        machine: 62,
        uses_dlopen: true,
    };
    let m = musl_refusal(&info).unwrap();
    assert!(m.contains("musl") && m.contains("/lib/ld-musl-x86_64.so.1"));
    info.interpreter = Some("/lib64/ld-linux-x86-64.so.2".to_string());
    assert!(musl_refusal(&info).is_none());
    assert!(dlopen_warning().contains("--include"));
}
