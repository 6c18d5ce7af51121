use scratchsmith::image::SmokeOutcome;
use scratchsmith::pack::{PackOptions, Sink};
use scratchsmith::pipeline::{Event, Packer, Phase, Step};
use scratchsmith::resolver::{ElfInfo, ResolvedInterp, ResolvedLib, Resolution};
use scratchsmith::stager::{AddFile, SourceKind};
use scratchsmith::supplychain::{SbomFormat, SbomRequest, ScanRequest, Severity, ToolRun};

fn resolution() -> Resolution {
    Resolution {
        interpreter: Some(ResolvedInterp {
            image_path: "/lib64/ld-linux-x86-64.so.2".to_string(),
            source: "/usr/lib64/ld-linux-x86-64.so.2".to_string(),
        }),
        libs: vec![ResolvedLib {
            soname: "libc.so.6".to_string(),
            path: "/usr/lib64/libc.so.6".to_string(),
        }],
        missing: vec![],
    }
}

fn info(interpreter: &str, uses_dlopen: bool) -> ElfInfo {
    ElfInfo {
        interpreter: Some(interpreter.to_string()),
        needed: vec!["libc.so.6".to_string()],
        rpaths: vec![],
        runpaths: vec![],
        soname: None,
        is_64: true,
        machine: 62,
        uses_dlopen,
    }
}

fn name(step: &Step) -> &'static str {
    match step {
        Step::Resolve { .. } => "resolve",
        Step::Stage(_) => "stage",
        Step::Include(_) => "include",
        Step::Measure { .. } => "measure",
        Step::Exists(_) => "exists",
        Step::Copy { .. } => "copy",
        Step::CopyResolved(_) => "copy-resolved",
        Step::FindFirst(_) => "find-first",
        Step::Inspect { .. } => "inspect",
        Step::StageLocales(_) => "locales",
        Step::TotalSize => "total-size",
        Step::Run { .. } => "run",
        Step::ParseScan(_) => "parse-scan",
        Step::BuildLayer { .. } => "build-layer",
        Step::LoadDocker { .. } => "load-docker",
        Step::WriteOci { .. } => "write-oci",
        Step::Push { .. } => "push",
        Step::Smoke { .. } => "smoke",
        Step::Finish => "finish",
        Step::Fail(_) => "fail",
    }
}

/// A host on which every file exists, every tool succeeds, and every file is small.
fn happy(step: &Step) -> Event {
    match step {
        Step::Resolve { .. } => Event::Resolved {
            entrypoint: "/opt/app/server".to_string(),
            info: info("/lib64/ld-linux-x86-64.so.2", false),
            resolution: resolution(),
        },
        Step::Include(plan) => Event::Present(vec![true; plan.modules.len()]),
        Step::Measure { targets, .. } => Event::Sizes(targets.iter().map(|_| (100, 100)).collect()),
        Step::Exists(_) => Event::Exists(true),
        Step::FindFirst(c) => Event::Found(Some(c[0].clone())),
        Step::Inspect { .. } => Event::Inspected {
            kind: SourceKind::File,
            already_staged: false,
        },
        Step::TotalSize => Event::Total(1_000),
        Step::Run { .. } => Event::Ran(ToolRun::Exited {
            success: true,
            stdout: br#"{"matches":[]}"#.to_vec(),
            stderr: String::new(),
        }),
        Step::ParseScan(_) => Event::Severities(vec![]),
        Step::BuildLayer { .. } => Event::Tar(b"tar bytes".to_vec()),
        Step::Push { .. } => Event::Pushed(Some("reg.example.com/app@sha256:abc".to_string())),
        Step::Smoke { .. } => Event::Smoked(SmokeOutcome {
            code: Some(0),
            stdout: String::new(),
            stderr: String::new(),
        }),
        _ => Event::Done,
    }
}

/// Run a pack to its end, answering each step with `answer`. Returns the steps
/// named in order, and the pack.
fn drive(
    opts: PackOptions,
    sink: Sink,
    mut answer: impl FnMut(&Step) -> Event,
) -> (Vec<&'static str>, Packer, Option<String>) {
    let (mut p, mut step) = Packer::start("./server".to_string(), "/tmp/rootfs".to_string(), opts, sink);
    let mut names = vec![];
    loop {
        names.push(name(&step));
        match &step {
            Step::Finish => return (names, p, None),
            Step::Fail(m) => {
                let m = m.clone();
                return (names, p, Some(m));
            }
            _ => {}
        }
        let e = answer(&step);
        step = p.next(e);
    }
}

#[test]
fn pipeline_stages_a_rootfs_without_an_image() {
    let (names, p, fail) = drive(PackOptions::default(), Sink::Rootfs("/tmp/rootfs".into()), happy);
    assert_eq!(fail, None);
    assert_eq!(names, vec!["resolve", "stage", "include", "measure", "finish"]);
    let report = p.finish();
    assert_eq!(report.staged_dir.as_deref(), Some("/tmp/rootfs"));
    assert_eq!(report.entrypoint, "/opt/app/server");
    assert_eq!(report.size.entries.len(), 3);
    assert_eq!(report.size.total_after, 300);
    assert!(report.tag.is_none() && report.archive.is_none() && report.pushed.is_none());
}

#[test]
fn pipeline_refuses_smoke_before_any_work() {
    let mut opts = PackOptions::default();
    opts.smoke = true;
    let (names, p, fail) = drive(opts, Sink::OciArchive("out.tar".into()), happy);
    assert_eq!(names, vec!["fail"]);
    assert_eq!(p.phase, Phase::Failed);
    assert!(fail.unwrap().starts_with("--smoke needs a running image"));
}

#[test]
fn pipeline_refuses_unresolved_dependencies() {
    let (_, _, fail) = drive(PackOptions::default(), Sink::DockerLoad, |step| match step {
        Step::Resolve { .. } => {
            let mut r = resolution();
            r.missing = vec!["libfoo.so.1".to_string()];
            Event::Resolved {
                entrypoint: "/opt/app/server".to_string(),
                info: info("/lib64/ld-linux-x86-64.so.2", false),
                resolution: r,
            }
        }
        other => happy(other),
    });
    assert_eq!(fail.unwrap(), "cannot pack: unresolved dependencies: libfoo.so.1");
}

#[test]
fn pipeline_gates_on_the_library_policy() {
    let mut opts = PackOptions::default();
    opts.deny = vec!["libc.so.6".to_string()];
    let (names, _, fail) = drive(opts, Sink::DockerLoad, happy);
    assert_eq!(names, vec!["resolve", "stage", "include", "fail"]);
    assert_eq!(
        fail.unwrap(),
        "library policy failed: denied library present: libc.so.6"
    );
}

#[test]
fn pipeline_gates_on_the_size_budget() {
    let mut opts = PackOptions::default();
    opts.max_size = Some(500);
    let (names, _, fail) = drive(opts, Sink::DockerLoad, happy);
    assert_eq!(names, vec!["resolve", "stage", "include", "measure", "total-size", "fail"]);
    assert_eq!(
        fail.unwrap(),
        "packed image is 1.0 KB, over the --max-size limit of 500 B"
    );
}

#[test]
fn pipeline_loads_and_smoke_runs_a_docker_image() {
    let mut opts = PackOptions::default();
    opts.smoke = true;
    opts.upx = true;
    let (names, p, fail) = drive(opts, Sink::DockerLoad, happy);
    assert_eq!(fail, None);
    assert_eq!(
        names,
        vec!["resolve", "stage", "include", "measure", "build-layer", "load-docker", "smoke", "finish"]
    );
    let report = p.finish();
    assert_eq!(report.tag.as_deref(), Some("scratchsmith/server:packed"));
    assert_eq!(report.smoke_ok, Some(true));
    assert!(report.warnings[0].starts_with("--upx compresses the binary"));
}

#[test]
fn pipeline_reports_a_loader_failure_in_the_smoke_run() {
    let mut opts = PackOptions::default();
    opts.smoke = true;
    let (_, _, fail) = drive(opts, Sink::DockerLoad, |step| match step {
        Step::Smoke { .. } => Event::Smoked(SmokeOutcome {
            code: Some(127),
            stdout: String::new(),
            stderr: "  error while loading shared libraries: libx.so  \n".to_string(),
        }),
        other => happy(other),
    });
    assert_eq!(
        fail.unwrap(),
        "smoke-run failed: the image could not start the binary.\nerror while loading shared libraries: libx.so"
    );
}

#[test]
fn pipeline_pushes_signs_and_attests() {
    let mut opts = PackOptions::default();
    opts.sign = true;
    opts.sbom = Some(SbomRequest {
        path: "sbom.json".to_string(),
        format: SbomFormat::SpdxJson,
    });
    let mut runs: Vec<Vec<String>> = vec![];
    let (names, p, fail) = drive(opts, Sink::Push("reg.example.com/app:1".into()), |step| {
        if let Step::Run { args, .. } = step {
            runs.push(args.clone());
        }
        happy(step)
    });
    assert_eq!(fail, None);
    assert_eq!(
        names,
        vec!["resolve", "stage", "include", "measure", "run", "build-layer", "push", "run", "run", "finish"]
    );
    assert_eq!(runs[0], vec!["dir:/tmp/rootfs", "-o", "spdx-json=sbom.json"]);
    assert_eq!(runs[1], vec!["sign", "--yes", "reg.example.com/app@sha256:abc"]);
    assert_eq!(
        runs[2],
        vec![
            "attest",
            "--yes",
            "--type",
            "spdxjson",
            "--predicate",
            "sbom.json",
            "reg.example.com/app@sha256:abc"
        ]
    );
    let report = p.finish();
    assert_eq!(report.pushed.as_deref(), Some("reg.example.com/app:1"));
    assert_eq!(report.signed.as_deref(), Some("reg.example.com/app@sha256:abc"));
    assert_eq!(report.sbom.as_deref(), Some("sbom.json"));
}

#[test]
fn pipeline_cannot_sign_without_a_digest() {
    let mut opts = PackOptions::default();
    opts.sign = true;
    let (_, _, fail) = drive(opts, Sink::Push("reg.example.com/app:1".into()), |step| match step {
        Step::Push { .. } => Event::Pushed(None),
        other => happy(other),
    });
    assert_eq!(
        fail.unwrap(),
        "cannot sign: the registry did not return a digest for the pushed image"
    );
}

#[test]
fn pipeline_scans_the_sbom_and_applies_the_gate() {
    let mut opts = PackOptions::default();
    opts.sbom = Some(SbomRequest {
        path: "sbom.json".to_string(),
        format: SbomFormat::CyclonedxJson,
    });
    opts.scan = Some(ScanRequest {
        fail_on: Some(Severity::High),
    });
    let mut grype_args: Vec<String> = vec![];
    let (names, _, fail) = drive(opts, Sink::OciArchive("out.tar".into()), |step| match step {
        Step::Run { tool, args, .. } if tool == "grype" => {
            grype_args = args.clone();
            happy(step)
        }
        Step::ParseScan(_) => Event::Severities(vec!["Critical".to_string(), "Low".to_string()]),
        other => happy(other),
    });
    assert_eq!(grype_args, vec!["sbom:sbom.json", "-o", "json"]);
    assert_eq!(names.last(), Some(&"fail"));
    assert_eq!(
        fail.unwrap(),
        "vulnerability scan failed: 1 finding(s) at or above High (critical=1, high=0, medium=0, low=1, negligible=0)"
    );
}

#[test]
fn pipeline_stages_the_runtime_extras_and_added_files() {
    let mut opts = PackOptions::default();
    opts.extras.ca_certs = true;
    opts.extras.tz = true;
    opts.extras.init = true;
    opts.add_files = vec![AddFile::parse("./app.conf:/etc/app.conf").unwrap()];
    let mut copies: Vec<(String, String)> = vec![];
    let (names, p, fail) = drive(opts, Sink::OciArchive("out.tar".into()), |step| {
        if let Step::Copy { source, image_path } = step {
            copies.push((source.clone(), image_path.clone()));
        }
        happy(step)
    });
    assert_eq!(fail, None);
    assert_eq!(
        names,
        vec![
            "resolve", "stage", "include", "measure", "exists", "copy", "copy-resolved", "find-first",
            "copy", "inspect", "copy", "build-layer", "write-oci", "finish"
        ]
    );
    assert_eq!(
        copies,
        vec![
            (
                "/etc/ssl/certs/ca-certificates.crt".to_string(),
                "/etc/ssl/certs/ca-certificates.crt".to_string()
            ),
            ("/usr/bin/tini".to_string(), "/tini".to_string()),
            ("./app.conf".to_string(), "/etc/app.conf".to_string()),
        ]
    );
    assert_eq!(p.rec.cfg.entrypoint, vec!["/tini", "--", "/opt/app/server"]);
    assert_eq!(p.finish().archive.as_deref(), Some("out.tar"));
}

#[test]
fn pipeline_refuses_a_missing_ca_bundle() {
    let mut opts = PackOptions::default();
    opts.extras.ca_certs = true;
    let (_, _, fail) = drive(opts, Sink::DockerLoad, |step| match step {
        Step::Exists(_) => Event::Exists(false),
        other => happy(other),
    });
    assert_eq!(
        fail.unwrap(),
        "--ca-certs: CA bundle not found at /etc/ssl/certs/ca-certificates.crt"
    );
}

#[test]
fn pipeline_refuses_an_added_directory() {
    let mut opts = PackOptions::default();
    opts.add_files = vec![AddFile::parse("./conf.d:/etc/conf.d").unwrap()];
    let (_, _, fail) = drive(opts, Sink::DockerLoad, |step| match step {
        Step::Inspect { .. } => Event::Inspected {
            kind: SourceKind::Directory,
            already_staged: false,
        },
        other => happy(other),
    });
    assert_eq!(
        fail.unwrap(),
        "--add-file: ./conf.d is a directory; --add-file takes regular files"
    );
}

#[test]
fn pipeline_ends_on_an_outside_failure() {
    let (names, p, fail) = drive(PackOptions::default(), Sink::DockerLoad, |step| match step {
        Step::Stage(_) => Event::Failed("ldconfig failed: boom".to_string()),
        other => happy(other),
    });
    assert_eq!(names, vec!["resolve", "stage", "fail"]);
    assert_eq!(p.phase, Phase::Failed);
    assert_eq!(fail.unwrap(), "ldconfig failed: boom");
}

#[test]
fn pipeline_refuses_a_dynamic_musl_binary() {
    let (names, _, fail) = drive(PackOptions::default(), Sink::DockerLoad, |step| match step {
        Step::Resolve { .. } => Event::Resolved {
            entrypoint: "/opt/app/server".to_string(),
            info: info("/lib/ld-musl-x86_64.so.1", false),
            resolution: resolution(),
        },
        other => happy(other),
    });
    assert_eq!(names, vec!["resolve", "fail"]);
    assert!(fail.unwrap().contains("musl"));
}

#[test]
fn pipeline_warns_about_dlopen_before_upx() {
    let mut opts = PackOptions::default();
    opts.upx = true;
    opts.smoke = true;
    let (_, p, fail) = drive(opts, Sink::DockerLoad, |step| match step {
        Step::Resolve { .. } => Event::Resolved {
            entrypoint: "/opt/app/server".to_string(),
            info: info("/lib64/ld-linux-x86-64.so.2", true),
            resolution: resolution(),
        },
        other => happy(other),
    });
    assert_eq!(fail, None);
    let report = p.finish();
    assert!(report.warnings[0].contains("dlopen"));
    assert!(report.warnings[1].starts_with("--upx compresses the binary"));
    assert!(!report.warnings[1].contains("--smoke"));
}

#[test]
fn pipeline_stages_locales_after_added_files_and_warns_when_unselected() {
    let mut opts = PackOptions::default();
    opts.locales = vec!["en_US.UTF-8".to_string()];
    opts.max_size = Some(10_000);
    let mut staged: Vec<String> = vec![];
    let (names, p, fail) = drive(opts, Sink::Rootfs("/tmp/rootfs".into()), |step| {
        if let Step::StageLocales(v) = step {
            staged = v.clone();
        }
        happy(step)
    });
    assert_eq!(fail, None);
    assert_eq!(names, vec!["resolve", "stage", "include", "measure", "locales", "total-size", "finish"]);
    assert_eq!(staged, vec!["en_US.UTF-8"]);
    let report = p.finish();
    assert!(report.warnings.iter().any(|w| w.contains("Add --env LANG=en_US.UTF-8")));
}

fn first_step(sink: Sink) -> Step {
    let mut opts = PackOptions::default();
    opts.smoke = true;
    let (_, step) = Packer::start("/bin/app".to_string(), "/tmp/rootfs".to_string(), opts, sink);
    step
}

#[test]
fn smoke_with_push_is_rejected() {
    match first_step(Sink::Push("localhost:5000/x:v1".into())) {
        Step::Fail(err) => assert!(err.contains("smoke"), "got: {err}"),
        other => panic!("expected a refusal, got {other:?}"),
    }
}

#[test]
fn smoke_with_oci_archive_is_rejected() {
    match first_step(Sink::OciArchive("/tmp/out.tar".into())) {
        Step::Fail(err) => assert!(err.contains("--oci-archive"), "got: {err}"),
        other => panic!("expected a refusal, got {other:?}"),
    }
}

#[test]
fn smoke_with_the_docker_sink_starts_resolving() {
    assert!(matches!(first_step(Sink::DockerLoad), Step::Resolve { .. }));
}
