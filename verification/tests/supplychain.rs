use scratchsmith::supplychain::{cosign_attest, cosign_sign, generate_sbom, run_grype};
use scratchsmith::supplychain::{
    cosign_attest_args, cosign_sign_args, grype_args, scan_gate, syft_args, tally_severities,
    tool_outcome, SbomFormat, ScanSource, ScanSummary, Severity, ToolError, ToolRun,
};

#[test]
fn syft_args_encode_source_and_format() {
    let args = syft_args("/tmp/rootfs", SbomFormat::CyclonedxJson, "/tmp/sbom.json");
    assert_eq!(
        args,
        vec![
            "dir:/tmp/rootfs".to_string(),
            "-o".into(),
            "cyclonedx-json=/tmp/sbom.json".into(),
        ]
    );
}

#[test]
fn spdx_format_switches_the_syft_name() {
    let args = syft_args("/r", SbomFormat::SpdxJson, "/o");
    assert!(args.iter().any(|a| a == "spdx-json=/o"));
}

#[test]
fn cosign_sign_args_are_well_formed() {
    assert_eq!(
        cosign_sign_args("ghcr.io/you/app@sha256:abc"),
        vec!["sign".to_string(), "--yes".into(), "ghcr.io/you/app@sha256:abc".into()]
    );
}

#[test]
fn cosign_predicate_type_matches_the_sbom_format() {
    assert_eq!(SbomFormat::CyclonedxJson.cosign_predicate_type(), "cyclonedx");
    assert_eq!(SbomFormat::SpdxJson.cosign_predicate_type(), "spdxjson");
}

#[test]
fn cosign_attest_args_are_well_formed() {
    let args = cosign_attest_args("reg/img@sha256:abc", "/s.json", "cyclonedx");
    assert_eq!(args[0], "attest");
    assert!(args.contains(&"--type".to_string()));
    assert!(args.contains(&"cyclonedx".to_string()));
    assert!(args.contains(&"reg/img@sha256:abc".to_string()));
}

#[test]
fn a_missing_tool_reports_a_clear_hint() {
    let err = tool_outcome("scratchsmith-no-such-tool", "install the thing", ToolRun::NotFound)
        .unwrap_err();
    assert!(err.message().contains("not found"));
    assert!(err.message().contains("install the thing"));
}

#[test]
fn a_failing_tool_reports_its_trimmed_stderr() {
    let err = tool_outcome(
        "grype",
        "hint",
        ToolRun::Exited {
            success: false,
            stdout: vec![],
            stderr: "  boom \n".into(),
        },
    )
    .unwrap_err();
    assert_eq!(err.message(), "grype failed: boom");
    assert_eq!(
        tool_outcome("x", "h", ToolRun::SpawnFailed).unwrap_err(),
        ToolError::Spawn { tool: "x".into() }
    );
    let ok = tool_outcome(
        "x",
        "h",
        ToolRun::Exited {
            success: true,
            stdout: b"out".to_vec(),
            stderr: String::new(),
        },
    );
    assert_eq!(ok.unwrap(), b"out".to_vec());
}

#[test]
fn grype_args_pick_the_source_prefix() {
    assert_eq!(
        grype_args(&ScanSource::Sbom("/tmp/sbom.json".into())),
        vec!["sbom:/tmp/sbom.json".to_string(), "-o".into(), "json".into()]
    );
    assert_eq!(grype_args(&ScanSource::Rootfs("/tmp/rootfs".into()))[0], "dir:/tmp/rootfs");
}

#[test]
fn at_or_above_gates_from_the_threshold_up() {
    let s = ScanSummary {
        critical: 1,
        high: 2,
        medium: 3,
        low: 4,
        negligible: 5,
        unknown: 9,
        total: 24,
    };
    assert_eq!(s.at_or_above(Severity::High), 3);
    assert_eq!(s.at_or_above(Severity::Medium), 6);
    assert_eq!(s.at_or_above(Severity::Critical), 1);
    assert_eq!(s.at_or_above(Severity::Negligible), 15);
}

#[test]
fn severities_are_tallied_case_insensitively() {
    let names: Vec<String> = ["Critical", "high", "High", "Low", "Unknown", ""]
        .iter()
        .map(|s| s.to_string())
        .collect();
    let s = tally_severities(&names);
    assert_eq!(s.critical, 1);
    assert_eq!(s.high, 2);
    assert_eq!(s.low, 1);
    assert_eq!(s.unknown, 2);
    assert_eq!(s.total, 6);
    let empty = tally_severities(&vec![]);
    assert_eq!(empty, ScanSummary::default());
    assert_eq!(empty.at_or_above(Severity::Negligible), 0);
}

#[test]
fn the_scan_gate_fails_at_or_above_the_threshold() {
    let s = ScanSummary {
        critical: 0,
        high: 1,
        medium: 0,
        low: 2,
        negligible: 0,
        unknown: 0,
        total: 3,
    };
    assert!(scan_gate(&s, None).is_ok());
    assert!(scan_gate(&s, Some(Severity::Critical)).is_ok());
    let err = scan_gate(&s, Some(Severity::Low)).unwrap_err();
    assert_eq!(err.count, 3);
    assert_eq!(
        err.message(),
        "vulnerability scan failed: 3 finding(s) at or above Low (critical=0, high=1, medium=0, low=2, negligible=0)"
    );
}

#[test]
fn each_tool_run_names_its_program_arguments_and_install_hint() {
    let sbom = generate_sbom("/tmp/rootfs", SbomFormat::SpdxJson, "/tmp/sbom.json");
    assert_eq!(sbom.tool, "syft");
    assert_eq!(sbom.args, ["dir:/tmp/rootfs", "-o", "spdx-json=/tmp/sbom.json"]);
    assert_eq!(sbom.hint, "install syft: https://github.com/anchore/syft");

    let scan = run_grype(&ScanSource::Sbom("/tmp/sbom.json".into()));
    assert_eq!((scan.tool.as_str(), scan.hint.as_str()), ("grype", "install grype: https://github.com/anchore/grype"));
    assert_eq!(scan.args, ["sbom:/tmp/sbom.json", "-o", "json"]);

    let sign = cosign_sign("ghcr.io/you/app@sha256:ab");
    assert_eq!(sign.tool, "cosign");
    assert_eq!(sign.args, ["sign", "--yes", "ghcr.io/you/app@sha256:ab"]);
    assert_eq!(sign.hint, "install cosign: https://github.com/sigstore/cosign");

    let attest = cosign_attest("r/a@sha256:ab", "/tmp/sbom.json", "cyclonedx");
    assert_eq!(attest.args, ["attest", "--yes", "--type", "cyclonedx", "--predicate", "/tmp/sbom.json", "r/a@sha256:ab"]);
}

#[test]
fn a_negligible_gate_blocks_unrankable_findings_and_stricter_gates_ignore_them() {
    let s = ScanSummary { critical: 0, high: 0, medium: 0, low: 0, negligible: 0, unknown: 3, total: 3 };
    let err = scan_gate(&s, Some(Severity::Negligible)).unwrap_err();
    assert_eq!(err.count, 3);
    assert!(scan_gate(&s, Some(Severity::Low)).is_ok());
    assert!(scan_gate(&s, Some(Severity::Critical)).is_ok());
    assert_eq!(s.at_or_above(Severity::Negligible), 0);
}
