use scratchsmith::registry::{
    check_index_sources, check_platforms, digest_ref_from, endpoint_of, extract_challenge_param,
    is_local_registry, is_multi_arch_media_type, plan_credential, platform_label, push_scope,
    push_target, registry_protocol, registry_scheme, token_from_reply, Auth, Credential,
    CredentialPlan, IndexChild, IndexError, Protocol,
};
use scratchsmith::registry::{
    child_media_type, index_child, index_outcome, index_sign_target, ChildError, IndexEntry, IndexReport,
};

#[test]
fn registry_local_registry_detection() {
    assert!(is_local_registry("localhost:5000"));
    assert!(is_local_registry("127.0.0.1:5099"));
    assert!(is_local_registry("127.0.0.1"));
    assert!(is_local_registry("localhost"));
    assert!(is_local_registry("[::1]:5000"), "bracketed IPv6 localhost");
    assert!(!is_local_registry("ghcr.io"));
    assert!(!is_local_registry("registry.example.com:5000"));
}

#[test]
fn extract_challenge_param_reads_realm_and_service_past_commas() {
    let c = r#"Bearer realm="https://ghcr.io/token",service="ghcr.io",scope="repository:o/i:pull,push""#;
    assert_eq!(extract_challenge_param(c, "realm").as_deref(), Some("https://ghcr.io/token"));
    assert_eq!(extract_challenge_param(c, "service").as_deref(), Some("ghcr.io"));
    assert_eq!(
        extract_challenge_param(c, "scope").as_deref(),
        Some("repository:o/i:pull,push")
    );
    assert_eq!(extract_challenge_param(c, "missing"), None);
}

#[test]
fn an_unterminated_parameter_is_absent() {
    assert_eq!(extract_challenge_param(r#"Bearer realm="x"#, "realm"), None);
}

#[test]
fn multi_arch_media_types_are_recognized() {
    assert!(is_multi_arch_media_type("application/vnd.oci.image.index.v1+json"));
    assert!(is_multi_arch_media_type(
        "application/vnd.docker.distribution.manifest.list.v2+json"
    ));
    assert!(!is_multi_arch_media_type("application/vnd.oci.image.manifest.v1+json"));
    assert!(!is_multi_arch_media_type(
        "application/vnd.docker.distribution.manifest.v2+json"
    ));
}

#[test]
fn registry_scheme_and_protocol_track_localhost() {
    assert_eq!(registry_scheme("ghcr.io"), "https");
    assert_eq!(registry_scheme("localhost:5000"), "http");
    assert_eq!(registry_protocol("ghcr.io"), Protocol::Https);
    assert_eq!(
        registry_protocol("localhost:5000"),
        Protocol::HttpsExcept(vec!["localhost:5000".to_string()])
    );
}

#[test]
fn plan_credential_maps_each_variant() {
    assert_eq!(
        plan_credential(Some(Credential::UsernamePassword("u".into(), "p".into()))),
        CredentialPlan::Ready(Auth::Basic("u".into(), "p".into()))
    );
    assert_eq!(
        plan_credential(Some(Credential::IdentityToken("t".into()))),
        CredentialPlan::IdentityToken("t".into())
    );
    assert_eq!(plan_credential(None), CredentialPlan::Ready(Auth::Anonymous));
}

#[test]
fn the_token_reply_prefers_a_nonempty_access_token() {
    assert_eq!(token_from_reply(Some("a".into()), Some("t".into())).as_deref(), Some("a"));
    assert_eq!(token_from_reply(Some("".into()), Some("t".into())).as_deref(), Some("t"));
    assert_eq!(token_from_reply(None, Some("t".into())).as_deref(), Some("t"));
    assert_eq!(token_from_reply(Some("".into()), Some("".into())), None);
    assert_eq!(token_from_reply(None, None), None);
    assert_eq!(push_scope("owner/img"), "repository:owner/img:pull,push");
}

fn child_v(arch: &str, os: &str, variant: Option<&str>, digest: &str) -> IndexChild {
    IndexChild {
        source: format!("reg/app:{arch}"),
        media_type: "application/vnd.oci.image.manifest.v1+json".into(),
        digest: digest.into(),
        size: 100,
        architecture: arch.into(),
        os: os.into(),
        variant: variant.map(str::to_string),
    }
}

#[test]
fn duplicate_platforms_are_rejected_and_named() {
    let ok = vec![
        child_v("amd64", "linux", None, "sha256:aaa"),
        child_v("arm64", "linux", None, "sha256:bbb"),
        child_v("arm", "linux", Some("v7"), "sha256:a7"),
        child_v("arm", "linux", Some("v6"), "sha256:a6"),
    ];
    assert!(check_platforms(&ok).is_ok());
    let dup = vec![
        child_v("amd64", "linux", None, "sha256:aaa"),
        child_v("amd64", "linux", None, "sha256:ccc"),
    ];
    let err = check_platforms(&dup).unwrap_err();
    assert!(err.message().contains("same platform linux/amd64"));
    let dupv = vec![
        child_v("arm", "linux", Some("v7"), "sha256:a"),
        child_v("arm", "linux", Some("v7"), "sha256:b"),
    ];
    assert!(check_platforms(&dupv).unwrap_err().message().contains("same platform linux/arm/v7"));
    assert_eq!(platform_label(&child_v("arm", "linux", Some("v7"), "d")), "linux/arm/v7");
}

#[test]
fn digest_ref_from_builds_a_by_digest_reference() {
    assert_eq!(
        digest_ref_from(
            "ghcr.io",
            "you/app",
            "https://ghcr.io/v2/you/app/manifests/sha256:abc?x=1"
        )
        .as_deref(),
        Some("ghcr.io/you/app@sha256:abc")
    );
    assert_eq!(
        digest_ref_from("ghcr.io", "you/app", "https://ghcr.io/v2/you/app/manifests/latest"),
        None
    );
    assert_eq!(
        digest_ref_from("r", "p", "x/manifests/a/manifests/sha256:d#frag").as_deref(),
        Some("r/p@sha256:d")
    );
    assert_eq!(digest_ref_from("r", "p", "sha256:bare").as_deref(), Some("r/p@sha256:bare"));
}

#[test]
fn push_index_rejects_a_cross_repository_source() {
    let err = check_index_sources(
        "reg.example.com/you/app:1.0",
        &vec!["reg.example.com/you/other:1.0-amd64".into()],
    )
    .unwrap_err();
    assert!(matches!(err, IndexError::OtherRepository { .. }));
}

#[test]
fn push_index_rejects_an_empty_source_list() {
    assert_eq!(
        check_index_sources("reg.example.com/you/app:1.0", &vec![]).unwrap_err(),
        IndexError::NoSources
    );
}

#[test]
fn index_sources_in_the_target_repository_pass() {
    let t = check_index_sources(
        "reg.example.com/you/app:1.0",
        &vec![
            "reg.example.com/you/app:1.0-amd64".into(),
            "reg.example.com/you/app:1.0-arm64".into(),
        ],
    )
    .unwrap();
    assert_eq!(t.registry, "reg.example.com");
    assert_eq!(t.repository, "you/app");
    assert_eq!(t.endpoint, "reg.example.com");
}

#[test]
fn docker_hub_targets_resolve_to_the_index_endpoint() {
    let t = push_target("docker.io/library/alpine:3").unwrap();
    assert_eq!(t.registry, "docker.io");
    assert_eq!(t.endpoint, "index.docker.io");
    assert_eq!(endpoint_of("ghcr.io"), "ghcr.io");
    assert!(push_target("").is_none());
}

#[test]
fn index_errors_name_their_cause() {
    assert_eq!(
        IndexError::NoSources.message(),
        "no source images given to assemble into an index"
    );
    let err = check_index_sources(
        "reg.example.com/you/app:1.0",
        &vec![
            "reg.example.com/you/app:1.0-amd64".into(),
            "reg.example.com/you/other:1.0-arm64".into(),
        ],
    )
    .unwrap_err();
    assert_eq!(
        err.message(),
        "source reg.example.com/you/other:1.0-arm64 is reg.example.com/you/other but the target \
         index is reg.example.com/you/app; an image index references its children by digest \
         within one repository, so every source must be in the target's repository (typically \
         the same repo, a different tag)"
    );
    let bad = IndexError::BadTarget { target: "Bad Ref".to_string() };
    assert_eq!(bad.message(), "invalid target reference \"Bad Ref\"");
}

#[test]
fn an_index_outcome_reports_each_child_in_order() {
    let children = vec![
        child_v("amd64", "linux", None, "sha256:aa"),
        child_v("arm", "linux", Some("v7"), "sha256:bb"),
    ];
    let outcome = index_outcome(&children, Some("reg/app@sha256:cc".into()));
    assert_eq!(outcome.entries.len(), 2);
    assert_eq!(outcome.entries[0].platform, "linux/amd64");
    assert_eq!(outcome.entries[0].source, "reg/app:amd64");
    assert_eq!(outcome.entries[1].platform, "linux/arm/v7");
    assert_eq!(outcome.entries[1].digest, "sha256:bb");
    assert_eq!(outcome.digest_ref.as_deref(), Some("reg/app@sha256:cc"));
}

#[test]
fn signing_an_index_needs_its_digest() {
    assert_eq!(index_sign_target(&Some("r/a@sha256:1".into())), Ok("r/a@sha256:1".to_string()));
    assert_eq!(
        index_sign_target(&None),
        Err("cannot sign: the registry did not return a digest for the pushed index".to_string())
    );
}

#[test]
fn the_index_report_lists_each_child() {
    let report = IndexReport {
        pushed: "ghcr.io/you/app:1.0".into(),
        manifests: vec![IndexEntry {
            source: "ghcr.io/you/app:1.0-amd64".into(),
            platform: "linux/amd64".into(),
            digest: "sha256:aa".into(),
        }],
        signed: Some("ghcr.io/you/app@sha256:ff".into()),
    };
    assert_eq!(
        report.to_text(),
        "pushed index ghcr.io/you/app:1.0\n  linux/amd64  sha256:aa  (ghcr.io/you/app:1.0-amd64)\nsigned ghcr.io/you/app@sha256:ff"
    );
    let unsigned = IndexReport { signed: None, manifests: vec![], ..report };
    assert_eq!(unsigned.to_text(), "pushed index ghcr.io/you/app:1.0");
}

#[test]
fn a_manifest_without_a_media_type_is_an_oci_image_manifest() {
    assert_eq!(
        child_media_type("reg/app:1", None).unwrap(),
        "application/vnd.oci.image.manifest.v1+json"
    );
    assert_eq!(
        child_media_type("reg/app:1", Some("application/vnd.docker.distribution.manifest.v2+json".into())).unwrap(),
        "application/vnd.docker.distribution.manifest.v2+json"
    );
}

#[test]
fn an_index_cannot_be_a_child_of_an_index() {
    let err = child_media_type("reg/app:1", Some("application/vnd.oci.image.index.v1+json".into())).unwrap_err();
    assert_eq!(
        err.message(),
        "source reg/app:1 is itself a multi-arch index (application/vnd.oci.image.index.v1+json); pass the single-arch images, not an index"
    );
}

#[test]
fn a_child_takes_its_platform_from_the_config() {
    let c = index_child(
        "reg/app:arm",
        "application/vnd.oci.image.manifest.v1+json".into(),
        "sha256:ab".into(),
        512,
        Some("arm".into()),
        None,
        Some("v7".into()),
    )
    .unwrap();
    assert_eq!((c.os.as_str(), c.architecture.as_str(), c.variant.as_deref()), ("linux", "arm", Some("v7")));
    assert_eq!((c.size, c.digest.as_str(), c.source.as_str()), (512, "sha256:ab", "reg/app:arm"));
    let err = index_child("reg/app:x", "m".into(), "sha256:cd".into(), 1, None, Some("linux".into()), None)
        .unwrap_err();
    assert_eq!(err, ChildError::NoArchitecture { source: "reg/app:x".into() });
    assert_eq!(err.message(), "the config for reg/app:x has no architecture");
}
