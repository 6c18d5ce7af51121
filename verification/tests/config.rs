use scratchsmith::config::{Config, Profile};
use scratchsmith::supplychain::SbomFormat;

use scratchsmith::image::Runtime;
use scratchsmith::stager::NssModule;
use scratchsmith::supplychain::Severity;
use scratchsmith::config::nested_profile_warnings;
fn profile() -> Profile {
    Profile {
        binary: None,
        entrypoint: None,
        cmd: vec![],
        env: vec![],
        workdir: None,
        user: None,
        strip: false,
        upx: false,
        smoke: false,
        sbom: false,
        sbom_file: None,
        sbom_format: None,
        ca_certs: false,
        tz: false,
        init: false,
        includes: vec![],
        sign: false,
        push: None,
        labels: vec![],
        healthcheck: vec![],
        add_files: vec![],
        locales: vec![],
        nss: vec![],
        deny: vec![],
        require: vec![],
        max_size: None,
        scan: false,
        scan_fail_on: None,
        runtime: None,
        nested: vec![],
    }
}

#[test]
fn a_profile_layers_over_the_base() {
    let ci = Profile {
        strip: true,
        sbom: true,
        sign: true,
        push: Some("ghcr.io/me/app:latest".into()),
        ..profile()
    };
    let base = Config {
        binary: Some("/usr/bin/app".into()),
        profile: vec![("ci".into(), ci)],
        ..Config::default()
    };
    let layered = base.select_profile("ci").unwrap();
    assert!(layered.strip && layered.sbom && layered.sign);
    assert_eq!(layered.push.as_deref(), Some("ghcr.io/me/app:latest"));
    assert_eq!(layered.binary.as_deref(), Some("/usr/bin/app"));
    // The base's profiles stay with the result.
    assert_eq!(layered.profile.len(), 1);
}

#[test]
fn profiles_or_booleans_prefer_options_and_replace_nonempty_lists() {
    let over = Profile {
        cmd: vec!["--prod".into()],
        env: vec![],
        user: Some("1000".into()),
        sbom_format: Some(SbomFormat::SpdxJson),
        ..profile()
    };
    let base = Config {
        cmd: vec!["--dev".into()],
        env: vec!["A=1".into()],
        user: Some("0".into()),
        workdir: Some("/w".into()),
        upx: true,
        profile: vec![("prod".into(), over)],
        ..Config::default()
    };
    let c = base.select_profile("prod").unwrap();
    assert_eq!(c.cmd, vec!["--prod".to_string()]);
    assert_eq!(c.env, vec!["A=1".to_string()]);
    assert_eq!(c.user.as_deref(), Some("1000"));
    assert_eq!(c.workdir.as_deref(), Some("/w"));
    assert_eq!(c.sbom_format, Some(SbomFormat::SpdxJson));
    assert!(c.upx);
}

#[test]
fn unknown_profile_is_a_clear_error() {
    let cfg = Config {
        profile: vec![("ci".into(), Profile { strip: true, ..profile() })],
        ..Config::default()
    };
    let err = cfg.select_profile("prod").unwrap_err();
    let msg = err.message();
    assert!(msg.contains("prod") && msg.contains("ci"), "got: {msg}");
    let err = Config::default().select_profile("prod").unwrap_err();
    assert!(err.message().contains("(none)"), "got: {}", err.message());
}

#[test]
fn the_defined_profiles_are_listed_sorted() {
    let cfg = Config {
        profile: vec![
            ("zeta".into(), profile()),
            ("alpha".into(), profile()),
            ("mid".into(), profile()),
        ],
        ..Config::default()
    };
    let err = cfg.select_profile("nope").unwrap_err();
    assert_eq!(
        err.message(),
        "unknown --profile 'nope'; defined profiles: alpha, mid, zeta"
    );
}

#[test]
fn the_default_config_sets_nothing() {
    let c = Config::default();
    assert!(c.binary.is_none() && c.push.is_none() && c.profile.is_empty());
    assert!(!c.strip && !c.sign);
}

#[test]
fn a_profile_layers_the_newer_keys_too() {
    let over = Profile {
        deny: vec!["libssl.so.3".into()],
        nss: vec![NssModule::Files],
        max_size: Some("50MB".into()),
        scan_fail_on: Some(Severity::High),
        runtime: Some(Runtime::Podman),
        ..profile()
    };
    let base = Config {
        deny: vec!["libcrypto.so.3".into()],
        require: vec!["libseccomp.so.2".into()],
        labels: vec!["role=api".into()],
        scan: true,
        runtime: Some(Runtime::Docker),
        profile: vec![("ci".into(), over)],
        ..Config::default()
    };
    let c = base.select_profile("ci").unwrap();
    assert_eq!(c.deny, vec!["libssl.so.3"]);
    assert_eq!(c.require, vec!["libseccomp.so.2"]);
    assert_eq!(c.labels, vec!["role=api"]);
    assert_eq!(c.nss, vec![NssModule::Files]);
    assert_eq!(c.max_size.as_deref(), Some("50MB"));
    assert!(c.scan);
    assert_eq!(c.scan_fail_on, Some(Severity::High));
    assert_eq!(c.runtime, Some(Runtime::Podman));
}

#[test]
fn nested_profiles_draw_a_deprecation_warning() {
    let release = Profile {
        strip: true,
        nested: vec!["signed".into()],
        ..profile()
    };
    let cfg = Config {
        profile: vec![("release".into(), release), ("ci".into(), profile())],
        ..Config::default()
    };
    let w = nested_profile_warnings(&cfg);
    assert_eq!(w.len(), 1);
    assert!(w[0].contains("a nested profile is deprecated"));
    assert!(w[0].contains("under [profile.release]"));
    assert!(w[0].contains("https://schubydoo.github.io/scratchsmith/latest/deprecations/"));
    assert!(nested_profile_warnings(&Config::default()).is_empty());
}

#[test]
fn a_profile_never_unsets_the_base() {
    let mut base = Config::default();
    base.strip = true;
    base.user = Some("1000".into());
    base.env = vec!["A=1".into()];
    let mut p = profile();
    p.upx = true;
    base.profile = vec![("ci".to_string(), p)];
    let c = base.select_profile("ci").unwrap();
    assert!(c.strip && c.upx);
    assert_eq!(c.user.as_deref(), Some("1000"));
    assert_eq!(c.env, vec!["A=1".to_string()]);
}

#[test]
fn a_profile_name_defined_once_selects_that_profile() {
    let mut base = Config::default();
    let mut ci = profile();
    ci.strip = true;
    let mut prod = profile();
    prod.upx = true;
    base.profile = vec![("ci".into(), ci), ("prod".into(), prod)];
    let c = base.select_profile("prod").unwrap();
    assert!(c.upx && !c.strip);
    assert_eq!(c.profile.len(), 2);
}
