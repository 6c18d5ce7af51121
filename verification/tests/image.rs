use sha2::Digest;
use scratchsmith::image::{
    blob_path, hex, is_local_registry, is_root_user, layer_from_tar, merged_env, ImageConfig,
    SmokeOutcome,
};

use scratchsmith::image::Runtime;
use scratchsmith::image::digest_hex;
#[test]
fn image_local_registry_detection() {
    assert!(is_local_registry("localhost:5000"));
    assert!(is_local_registry("127.0.0.1:5099"));
    assert!(is_local_registry("127.0.0.1"));
    assert!(is_local_registry("localhost"));
    assert!(is_local_registry("[::1]:5000"), "bracketed IPv6 localhost");
    assert!(!is_local_registry("ghcr.io"));
    assert!(!is_local_registry("registry.example.com:5000"));
}

#[test]
fn root_user_is_recognized_in_every_form() {
    assert!(is_root_user("0"));
    assert!(is_root_user("0:0"));
    assert!(is_root_user("root"));
    assert!(!is_root_user("65532"));
    assert!(!is_root_user("nonroot"));
}

#[test]
fn user_path_overrides_the_default_instead_of_duplicating() {
    let env = merged_env(&vec!["PATH=/only".to_string()]);
    assert_eq!(env, vec!["PATH=/only".to_string()]);
}

fn outcome(code: Option<i32>, stderr: &str) -> SmokeOutcome {
    SmokeOutcome {
        code,
        stdout: String::new(),
        stderr: stderr.into(),
    }
}

#[test]
fn loader_failure_is_detected_by_exit_code_or_message() {
    assert!(outcome(Some(127), "").loader_failed());
    assert!(outcome(Some(1), "error while loading shared libraries: libz.so.1").loader_failed());
    assert!(outcome(Some(126), "").loader_failed());
}

#[test]
fn an_app_nonzero_exit_is_not_a_loader_failure() {
    assert!(!outcome(Some(2), "error: missing subcommand").loader_failed());
    assert!(!outcome(None, "").loader_failed());
}

#[test]
fn merged_env_starts_from_the_default_path_and_appends_new_keys() {
    let env = merged_env(&vec!["FOO=bar".to_string(), "BAZ=1".to_string()]);
    assert_eq!(
        env,
        vec![
            "PATH=/usr/local/sbin:/usr/local/bin:/usr/sbin:/usr/bin:/sbin:/bin".to_string(),
            "FOO=bar".to_string(),
            "BAZ=1".to_string()
        ]
    );
}

#[test]
fn merged_env_keeps_one_entry_per_key_and_the_last_value_wins() {
    let env = merged_env(&vec![
        "FOO=1".to_string(),
        "PATH=/x".to_string(),
        "FOO=2".to_string(),
    ]);
    assert_eq!(env, vec!["PATH=/x".to_string(), "FOO=2".to_string()]);
}

#[test]
fn an_entry_without_an_equals_sign_is_its_own_key() {
    let env = merged_env(&vec!["BARE".to_string(), "BARE".to_string()]);
    assert_eq!(env.len(), 2);
    assert_eq!(env[1], "BARE");
}

#[test]
fn loader_messages_are_matched_anywhere_in_stderr() {
    assert!(outcome(Some(1), "x: cannot open shared object file: y").loader_failed());
    assert!(outcome(Some(1), "exec /app: no such file or directory").loader_failed());
    assert!(!outcome(Some(0), "all good").loader_failed());
}

#[test]
fn blob_paths_live_under_blobs_sha256() {
    assert_eq!(blob_path("abc"), "blobs/sha256/abc");
}

#[test]
fn hex_renders_two_lowercase_digits_per_byte() {
    assert_eq!(hex(&[0x00, 0x0f, 0xa0, 0xff]), "000fa0ff");
    assert_eq!(hex(&[]), "");
}

#[test]
fn layer_digests_are_the_sha256_of_the_tar_and_of_its_gzip() {
    let tar = b"not really a tar, but bytes all the same".to_vec();
    let layer = layer_from_tar(&tar).unwrap();
    let expect_diff = hex(&sha2::Sha256::digest(&tar));
    let expect_digest = hex(&sha2::Sha256::digest(&layer.gzip));
    assert_eq!(layer.diff_id, expect_diff);
    assert_eq!(layer.digest, expect_digest);
    assert_eq!(layer.diff_id.len(), 64);
    assert_ne!(layer.diff_id, layer.digest);
    // The gzip stream really is a gzip stream of the tar.
    assert_eq!(&layer.gzip[..2], &[0x1f, 0x8b]);
    assert_ne!(layer.gzip, tar);
}

#[test]
fn the_sha256_of_nothing_is_the_well_known_value() {
    let layer = layer_from_tar(&[]).unwrap();
    assert_eq!(
        layer.diff_id,
        "e3b0c44298fc1c149afbf4c8996fb92427ae41e4649b934ca495991b7852b855"
    );
}

#[test]
fn layer_build_is_reproducible() {
    let tar = vec![7u8; 4096];
    let a = layer_from_tar(&tar).unwrap();
    let b = layer_from_tar(&tar).unwrap();
    assert_eq!(a.diff_id, b.diff_id);
    assert_eq!(a.digest, b.digest);
    assert_eq!(a.gzip, b.gzip);
}

#[test]
fn image_config_default_is_empty_and_duplicates_exactly() {
    let d = ImageConfig::default();
    assert!(d.entrypoint.is_empty() && d.cmd.is_empty() && d.env.is_empty());
    assert!(d.workdir.is_none() && d.user.is_none());
    let c = ImageConfig {
        entrypoint: vec!["/bin/tool".into()],
        cmd: vec!["--serve".into()],
        env: vec!["FOO=bar".into()],
        workdir: Some("/work".into()),
        user: None,
        labels: vec!["role=api".into()],
        healthcheck: vec![],
    };
    let e = c.duplicate();
    assert_eq!(e.entrypoint, c.entrypoint);
    assert_eq!(e.cmd, c.cmd);
    assert_eq!(e.env, c.env);
    assert_eq!(e.workdir, c.workdir);
    assert_eq!(e.user, c.user);
    assert_eq!(e.labels, c.labels);
    assert_eq!(e.healthcheck, c.healthcheck);
}

#[test]
fn config_defaults_to_the_packed_binary_entrypoint() {
    let plan = scratchsmith::image::image_plan("/opt/app", "abc123", &ImageConfig::default());
    assert_eq!(plan.entrypoint, vec!["/opt/app"]);
    assert_eq!(plan.diff_id, "sha256:abc123");
    assert!(plan.env[0].starts_with("PATH="));
    assert!(plan.cmd.is_none());
    assert_eq!(plan.user, "65532:65532");
    assert!(!is_root_user(&plan.user));
}

#[test]
fn config_applies_entrypoint_cmd_env_and_workdir() {
    let opts = ImageConfig {
        entrypoint: vec!["/bin/tool".into()],
        cmd: vec!["--serve".into()],
        env: vec!["FOO=bar".into()],
        workdir: Some("/work".into()),
        user: None,
        labels: vec!["role=api".into()],
        healthcheck: vec![],
    };
    let plan = scratchsmith::image::image_plan("/opt/app", "d", &opts);
    assert_eq!(plan.entrypoint, vec!["/bin/tool"]);
    assert_eq!(plan.cmd, Some(vec!["--serve".to_string()]));
    assert_eq!(plan.workdir.as_deref(), Some("/work"));
    assert!(plan.env.contains(&"FOO=bar".to_string()));
}

#[test]
fn labels_split_at_the_first_equals_and_healthcheck_is_kept() {
    let opts = ImageConfig {
        labels: vec!["role=api".into(), "build".into(), "url=http://x?a=b".into()],
        healthcheck: vec!["/app".into(), "--health".into()],
        ..ImageConfig::default()
    };
    let plan = scratchsmith::image::image_plan("/opt/app", "d", &opts);
    assert_eq!(
        plan.labels,
        vec![
            ("role".to_string(), "api".to_string()),
            ("build".to_string(), String::new()),
            ("url".to_string(), "http://x?a=b".to_string()),
        ]
    );
    assert_eq!(plan.healthcheck, Some(vec!["/app".to_string(), "--health".to_string()]));
    let bare = scratchsmith::image::image_plan("/opt/app", "d", &ImageConfig::default());
    assert!(bare.labels.is_empty() && bare.healthcheck.is_none());
}

#[test]
fn each_runtime_names_its_program() {
    assert_eq!(Runtime::Docker.program(), "docker");
    assert_eq!(Runtime::Podman.program(), "podman");
    assert_eq!(Runtime::Nerdctl.program(), "nerdctl");
}

#[test]
fn a_blob_digest_is_the_hex_sha256_of_its_bytes() {
    assert_eq!(
        digest_hex(b"abc"),
        "ba7816bf8f01cfea414140de5dae2223b00361a396177a9cb410ff61f20015ad"
    );
    let expected: String = sha2::Sha256::digest(b"{}").iter().map(|b| format!("{b:02x}")).collect();
    assert_eq!(digest_hex(b"{}"), expected);
}
