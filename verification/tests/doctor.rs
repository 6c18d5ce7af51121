use scratchsmith::doctor::{first_line, locate_candidates, probe, status_line, tool_status, tools, ToolStatus};
use scratchsmith::text::pad_right_str;

#[test]
fn probe_reports_every_known_tool() {
    let known = tools();
    assert_eq!(known.len(), 7);
    let names: Vec<&str> = known.iter().map(|t| t.name).collect();
    assert_eq!(names, ["ldconfig", "docker", "strip", "syft", "grype", "cosign", "upx"]);
    let mut outputs = vec![None; 7];
    outputs[2] = Some(("GNU strip (GNU Binutils) 2.42\nCopyright\n".to_string(), String::new()));
    let statuses = probe(outputs);
    assert_eq!(statuses.len(), 7);
    assert_eq!(statuses[2].name, "strip");
    assert_eq!(statuses[2].version.as_deref(), Some("GNU strip (GNU Binutils) 2.42"));
    assert!(statuses.iter().enumerate().all(|(i, s)| i == 2 || s.version.is_none()));
}

#[test]
fn a_missing_tool_reports_no_version() {
    let status = tool_status(&tools()[3], None);
    assert!(status.version.is_none());
    assert_eq!(
        status_line(&status),
        "  MISS  syft      not found — SBOM generation (--sbom, v0.2); https://github.com/anchore/syft"
    );
}

#[test]
fn a_version_on_stderr_is_used_when_stdout_is_blank() {
    let status = tool_status(&tools()[4], Some((" \n".to_string(), "grype 0.80.0\n".to_string())));
    assert_eq!(status.version.as_deref(), Some("grype 0.80.0"));
}

#[test]
fn a_found_tool_shows_its_version_and_purpose() {
    let status = ToolStatus {
        name: "upx",
        version: Some("upx 4.2.2".to_string()),
        purpose: "--upx (compress the packed binary further)",
        hint: "install upx",
    };
    assert_eq!(status_line(&status), "  ok    upx       upx 4.2.2  (--upx (compress the packed binary further))");
}

#[test]
fn tools_are_looked_for_in_the_system_sbin_dirs_too() {
    assert_eq!(locate_candidates("ldconfig"), ["ldconfig", "/usr/sbin/ldconfig", "/sbin/ldconfig"]);
}

#[test]
fn first_lines_are_trimmed() {
    assert_eq!(first_line("  v1.2 \r\nmore"), "v1.2");
    assert_eq!(first_line(""), "");
    assert_eq!(pad_right_str("ab", 4), "ab  ");
    assert_eq!(pad_right_str("abcdef", 4), "abcdef");
}
