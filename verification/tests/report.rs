use scratchsmith::report::{human_size, parse_size, PackReport, SizeError};
use scratchsmith::stager::SizeReport;
use scratchsmith::supplychain::ScanSummary;

fn sample_report() -> PackReport {
    PackReport {
        tag: Some("scratchsmith/app:packed".into()),
        archive: None,
        pushed: None,
        staged_dir: None,
        entrypoint: "/opt/app".into(),
        size: SizeReport {
            entries: vec![],
            total_before: 200,
            total_after: 123,
            stripped: true,
            upx: false,
        },
        warnings: vec!["NSS module not found: libnss_dns.so.2".into()],
        smoke_ok: Some(true),
        sbom: Some("sbom.json".into()),
        scan: None,
        signed: None,
    }
}

fn bare_report() -> PackReport {
    PackReport {
        tag: None,
        archive: None,
        pushed: None,
        staged_dir: None,
        entrypoint: "/opt/app".into(),
        size: SizeReport {
            entries: vec![],
            total_before: 10,
            total_after: 10,
            stripped: false,
            upx: false,
        },
        warnings: vec![],
        smoke_ok: None,
        sbom: None,
        scan: None,
        signed: None,
    }
}

#[test]
fn text_report_renders_the_key_lines() {
    let text = sample_report().to_text();
    assert!(text.contains("warning: NSS module not found"));
    assert!(text.contains("loaded image scratchsmith/app:packed"));
    assert!(text.contains("smoke-run ok"));
    assert!(text.contains("200 -> 123"));
}

#[test]
fn text_report_renders_a_pushed_reference() {
    let mut report = bare_report();
    report.pushed = Some("ghcr.io/you/app:latest".into());
    assert!(report.to_text().contains("pushed ghcr.io/you/app:latest"));
}

#[test]
fn text_report_renders_a_staged_dir() {
    let mut report = bare_report();
    report.staged_dir = Some("/out/rootfs".into());
    report.size.total_before = 1;
    report.size.total_after = 1;
    assert!(report.to_text().contains("staged to /out/rootfs"));
}

#[test]
fn text_report_is_exact_and_has_no_trailing_newline() {
    let text = sample_report().to_text();
    assert_eq!(
        text,
        "warning: NSS module not found: libnss_dns.so.2\npayload size:\n  total 200 -> 123 bytes (saved 77)\nloaded image scratchsmith/app:packed\nsbom: sbom.json\nsmoke-run ok: the binary starts inside the image"
    );
}

#[test]
fn text_report_renders_a_signed_digest_and_vulnerability_counts() {
    let mut report = sample_report();
    report.signed = Some("ghcr.io/you/app@sha256:abc".into());
    report.scan = Some(ScanSummary {
        critical: 1,
        high: 2,
        medium: 0,
        low: 3,
        negligible: 0,
        unknown: 1,
        total: 7,
    });
    let text = report.to_text();
    assert!(text.contains("signed ghcr.io/you/app@sha256:abc"));
    assert!(text.contains("vulnerabilities: 7 total"));
    assert!(text.contains("critical=1, high=2"));
    assert!(text.contains("negligible=0, unknown=1"));
}

#[test]
fn parse_size_handles_bytes_decimal_and_binary_units() {
    assert_eq!(parse_size("1024").unwrap(), 1024);
    assert_eq!(parse_size("10MB").unwrap(), 10_000_000);
    assert_eq!(parse_size("10MiB").unwrap(), 10_485_760);
    assert_eq!(parse_size("2.5MB").unwrap(), 2_500_000);
    assert_eq!(parse_size("512KiB").unwrap(), 524_288);
    assert_eq!(parse_size(" 1G ").unwrap(), 1_000_000_000);
    assert_eq!(parse_size("100b").unwrap(), 100);
}

#[test]
fn parse_size_rejects_junk() {
    assert!(parse_size("abc").is_err());
    assert!(parse_size("10furlongs").is_err());
    assert!(parse_size("-5MB").is_err());
}

#[test]
fn parse_size_errors_name_the_input_and_the_unit() {
    assert_eq!(
        parse_size(" abc ").unwrap_err().message(),
        "invalid size 'abc': expected a number, optionally with a unit"
    );
    let err = parse_size("10furlongs").unwrap_err();
    assert_eq!(
        err,
        SizeError::Unit {
            unit: "furlongs".into(),
            input: "10furlongs".into()
        }
    );
    assert_eq!(
        err.message(),
        "invalid size unit 'furlongs' in '10furlongs' (use B, KB/MB/GB, or KiB/MiB/GiB)"
    );
    assert!(matches!(parse_size("1.2.3MB"), Err(SizeError::Number { .. })));
    assert!(matches!(parse_size("."), Err(SizeError::Number { .. })));
    assert!(matches!(parse_size(""), Err(SizeError::Number { .. })));
}

#[test]
fn parse_size_reads_spaced_and_partial_numbers() {
    assert_eq!(parse_size("10 MB").unwrap(), 10_000_000);
    assert_eq!(parse_size("1.").unwrap(), 1);
    assert_eq!(parse_size(".5KB").unwrap(), 500);
    assert_eq!(parse_size("1.5ki").unwrap(), 1536);
    assert_eq!(parse_size("0.0001KB").unwrap(), 0);
    assert_eq!(parse_size("3gib").unwrap(), 3 * 1_073_741_824);
}

#[test]
fn parse_size_caps_at_the_largest_byte_count() {
    assert_eq!(parse_size("99999999999999999999999").unwrap(), u64::MAX);
    assert_eq!(parse_size("18446744073709551615").unwrap(), u64::MAX);
    assert_eq!(parse_size("18446744073709551614").unwrap(), 18446744073709551614);
    assert_eq!(parse_size("20000000000GB").unwrap(), u64::MAX);
}

#[test]
fn human_size_picks_a_readable_unit() {
    assert_eq!(human_size(8_400_000), "8.4 MB");
    assert_eq!(human_size(1_500_000_000), "1.5 GB");
    assert_eq!(human_size(2_048), "2.0 KB");
    assert_eq!(human_size(512), "512 B");
}

// What the formatter prints for the float quotient, computed with floats.
fn float_rendering(bytes: u64) -> String {
    for (unit, div) in [("GB", 1_000_000_000u64), ("MB", 1_000_000), ("KB", 1_000)] {
        if bytes >= div {
            return format!("{:.1} {unit}", bytes as f64 / div as f64);
        }
    }
    format!("{bytes} B")
}

#[test]
fn human_size_matches_the_float_rendering_on_ties_and_edges() {
    let mut samples: Vec<u64> = vec![
        0, 1, 999, 1000, 1049, 1050, 1150, 1250, 1350, 2050, 2450, 9_950, 99_950, 999_949,
        999_950, 999_999, 1_000_000, 1_050_000, 1_250_000, 999_950_000, 999_999_999,
        1_000_000_000, 1_250_000_000, 1_050_000_000, 9_007_199_254_740_993,
        18_446_744_073_709_551_615, 12_345_678_901_234_567_890, 4_503_599_627_370_497,
    ];
    let mut x: u64 = 0x9e37_79b9_7f4a_7c15;
    for _ in 0..2000 {
        x ^= x << 13;
        x ^= x >> 7;
        x ^= x << 17;
        samples.push(x >> (x % 64));
        samples.push((x % 100_000) * 50);
    }
    for n in samples {
        assert_eq!(human_size(n), float_rendering(n), "bytes = {n}");
    }
}
