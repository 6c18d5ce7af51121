use scratchsmith::config::Config;
use scratchsmith::options::{plan_pack, PackFlags, PlanError};
use scratchsmith::pack::Sink;
use scratchsmith::supplychain::{SbomFormat, ScanRequest, Severity};

use scratchsmith::stager::NssModule;
use scratchsmith::image::Runtime;
fn flags(binary: Option<&str>) -> PackFlags {
    PackFlags {
        binary: binary.map(|b| b.to_string()),
        smoke: false,
        no_build: false,
        output: None,
        oci_archive: None,
        push: None,
        sign: false,
        entrypoint: None,
        cmd: vec![],
        env: vec![],
        workdir: None,
        user: None,
        strip: false,
        upx: false,
        max_size: None,
        sbom: false,
        sbom_file: None,
        sbom_format: None,
        scan: false,
        scan_fail_on: None,
        ca_certs: false,
        tz: false,
        init: false,
        includes: vec![],
        labels: vec![],
        healthcheck: vec![],
        add_files: vec![],
        locales: vec![],
        nss: vec![],
        deny: vec![],
        require: vec![],
        runtime: None,
    }
}

#[test]
fn plan_without_binary_is_refused() {
    let err = plan_pack(flags(None), Config::default()).unwrap_err();
    assert_eq!(err, PlanError::NoBinary);
    assert_eq!(
        err.message(),
        "no binary to pack: pass one on the command line or set `binary` in --config"
    );
}

#[test]
fn plan_takes_binary_from_config() {
    let mut file = Config::default();
    file.binary = Some("/usr/bin/app".to_string());
    let plan = plan_pack(flags(None), file).unwrap();
    assert_eq!(plan.binary, "/usr/bin/app");
    assert_eq!(plan.sink, Sink::DockerLoad);
}

#[test]
fn plan_flags_win_over_config() {
    let mut file = Config::default();
    file.binary = Some("/from/config".to_string());
    file.cmd = vec!["--config-arg".to_string()];
    file.workdir = Some("/srv".to_string());
    file.user = Some("1000".to_string());
    file.entrypoint = Some("/config-entry".to_string());
    let mut f = flags(Some("/from/cli"));
    f.cmd = vec!["--cli-arg".to_string()];
    f.user = Some("65532".to_string());
    let plan = plan_pack(f, file).unwrap();
    assert_eq!(plan.binary, "/from/cli");
    assert_eq!(plan.options.image.cmd, vec!["--cli-arg".to_string()]);
    assert_eq!(plan.options.image.user.as_deref(), Some("65532"));
    assert_eq!(plan.options.image.workdir.as_deref(), Some("/srv"));
    assert_eq!(plan.options.image.entrypoint, vec!["/config-entry".to_string()]);
}

#[test]
fn plan_switches_are_on_from_either_source() {
    let mut file = Config::default();
    file.strip = true;
    file.tz = true;
    let mut f = flags(Some("app"));
    f.upx = true;
    f.ca_certs = true;
    let plan = plan_pack(f, file).unwrap();
    assert!(plan.options.strip && plan.options.upx);
    assert!(plan.options.extras.tz && plan.options.extras.ca_certs);
    assert!(!plan.options.extras.init && !plan.options.smoke);
}

#[test]
fn plan_sbom_defaults_path_and_format() {
    let mut f = flags(Some("app"));
    f.sbom = true;
    let plan = plan_pack(f, Config::default()).unwrap();
    let sbom = plan.options.sbom.unwrap();
    assert_eq!(sbom.path, "sbom.json");
    assert_eq!(sbom.format, SbomFormat::CyclonedxJson);
}

#[test]
fn plan_scan_fail_on_implies_scan() {
    let mut f = flags(Some("app"));
    f.scan_fail_on = Some(Severity::High);
    let plan = plan_pack(f, Config::default()).unwrap();
    assert_eq!(
        plan.options.scan,
        Some(ScanRequest {
            fail_on: Some(Severity::High)
        })
    );
}

#[test]
fn plan_parses_max_size() {
    let mut f = flags(Some("app"));
    f.max_size = Some("20MB".to_string());
    let plan = plan_pack(f, Config::default()).unwrap();
    assert_eq!(plan.options.max_size, Some(20_000_000));
}

#[test]
fn plan_rejects_bad_max_size() {
    let mut f = flags(Some("app"));
    f.max_size = Some("20 parsecs".to_string());
    assert!(matches!(
        plan_pack(f, Config::default()),
        Err(PlanError::BadSize(_))
    ));
}

#[test]
fn plan_cli_sink_beats_configured_push() {
    let mut file = Config::default();
    file.binary = Some("app".to_string());
    file.push = Some("ghcr.io/me/app:ci".to_string());
    let mut f = flags(None);
    f.oci_archive = Some("out.tar".to_string());
    let plan = plan_pack(f, file).unwrap();
    assert_eq!(plan.sink, Sink::OciArchive("out.tar".to_string()));
}

#[test]
fn plan_configured_push_is_the_default_sink() {
    let mut file = Config::default();
    file.binary = Some("app".to_string());
    file.push = Some("ghcr.io/me/app:ci".to_string());
    let plan = plan_pack(flags(None), file).unwrap();
    assert_eq!(plan.sink, Sink::Push("ghcr.io/me/app:ci".to_string()));
}

#[test]
fn plan_no_build_stages_into_output() {
    let mut f = flags(Some("app"));
    f.no_build = true;
    f.output = Some("rootfs".to_string());
    let plan = plan_pack(f, Config::default()).unwrap();
    assert_eq!(plan.sink, Sink::Rootfs("rootfs".to_string()));
}

#[test]
fn plan_sign_without_push_is_refused() {
    let mut file = Config::default();
    file.sign = true;
    let err = plan_pack(flags(Some("app")), file).unwrap_err();
    assert_eq!(err, PlanError::SignWithoutPush);
    assert_eq!(
        err.message(),
        "--sign needs a push target — pass --push or set `push` in the config/profile"
    );
}

#[test]
fn plan_sign_with_push_is_accepted() {
    let mut f = flags(Some("app"));
    f.sign = true;
    f.push = Some("ghcr.io/me/app:1".to_string());
    let plan = plan_pack(f, Config::default()).unwrap();
    assert!(plan.options.sign);
    assert_eq!(plan.sink, Sink::Push("ghcr.io/me/app:1".to_string()));
}

#[test]
fn plan_parses_add_files_nss_and_policy_lists() {
    let mut file = Config::default();
    file.deny = vec!["libssl.so.3".to_string()];
    file.add_files = vec!["./a.conf:/etc/a.conf".to_string()];
    let mut f = flags(Some("app"));
    f.nss = vec![NssModule::Files];
    f.require = vec!["libseccomp.so.2".to_string()];
    let plan = plan_pack(f, file).unwrap();
    assert_eq!(plan.options.add_files.len(), 1);
    assert_eq!(plan.options.add_files[0].src, "./a.conf");
    assert_eq!(plan.options.add_files[0].dst, "/etc/a.conf");
    assert!(plan.options.nss.files && !plan.options.nss.dns);
    assert_eq!(plan.options.deny, vec!["libssl.so.3"]);
    assert_eq!(plan.options.require, vec!["libseccomp.so.2"]);
}

#[test]
fn plan_refuses_a_bad_add_file_and_a_mixed_nss() {
    let mut f = flags(Some("app"));
    f.add_files = vec!["./a.conf:etc/a.conf".to_string()];
    assert!(matches!(plan_pack(f, Config::default()), Err(PlanError::BadAddFile(_))));
    let mut g = flags(Some("app"));
    g.nss = vec![NssModule::Disabled, NssModule::Files];
    let err = plan_pack(g, Config::default()).unwrap_err();
    assert!(matches!(err, PlanError::BadNss(_)));
    assert_eq!(err.message(), "--nss none cannot be combined with other modules");
}

#[test]
fn plan_takes_the_size_budget_and_scan_from_the_config() {
    let mut file = Config::default();
    file.max_size = Some("2KiB".to_string());
    file.scan = true;
    file.runtime = Some(Runtime::Nerdctl);
    let plan = plan_pack(flags(Some("app")), file).unwrap();
    assert_eq!(plan.options.max_size, Some(2048));
    assert_eq!(plan.options.scan, Some(ScanRequest { fail_on: None }));
    assert_eq!(plan.options.runtime, Runtime::Nerdctl);
    assert_eq!(plan_pack(flags(Some("app")), Config::default()).unwrap().options.runtime, Runtime::Docker);
}

#[test]
fn plan_notices_bare_labels_and_env_once_each() {
    let mut f = flags(Some("app"));
    f.labels = vec!["build".to_string(), "build".to_string(), "role=api".to_string(), "empty=".to_string()];
    f.env = vec!["PATH".to_string(), "LOG_LEVEL=info".to_string()];
    let plan = plan_pack(f, Config::default()).unwrap();
    assert_eq!(plan.notices.len(), 2);
    assert!(plan.notices[0].contains("a label with no `=` is deprecated"));
    assert!(plan.notices[0].contains("`build` lands with an empty value"));
    assert!(plan.notices[1].contains("an env entry with no `=` is deprecated"));
    assert!(plan.notices[1].contains("`PATH` is not KEY=VALUE"));
    assert!(plan.notices[1].contains("replaces the image's default PATH"));
    assert!(plan.notices[1].contains("https://schubydoo.github.io/scratchsmith/latest/deprecations/"));
    let quiet = plan_pack(flags(Some("app")), Config::default()).unwrap();
    assert!(quiet.notices.is_empty());
}
