//! The pack pipeline as a state machine: resolve, stage, add the default
//! includes, gate on the library policy, measure, add the runtime extras and the
//! user's files, gate on the size budget, generate the SBOM, scan and gate on the
//! findings, then build and deliver the image. Each step names the outside work to
//! do next; the caller does it and answers with an event. Every decision — what
//! comes next, what is refused and with which message — is made here.

use vstd::prelude::*;
use crate::image::{
    clone_list,
    gzip_of, image_plan, is_root_user, layer_from_tar, opt_view, sha256_of, spec_hex,
    spec_image_user, spec_loader_failed, spec_merged_env, ImageConfig, ImageConfigView, ImagePlan, Layer, Runtime,
    SmokeOutcome,
};
use crate::pack::{
    check_lib_policy, denied_present, effective_image_config, image_tag, locale_env_warning,
    required_missing, root_user_warning, smoke_refusal, spec_effective_config, spec_image_tag,
    spec_locale_warning, spec_root_user_warning, spec_smoke_refusal, spec_upx_warning,
    spec_unresolved_refusal, unresolved_refusal, upx_warning, PackOptions, Sink,
};
use crate::report::PackReport;
use crate::resolver::{spec_is_musl, ElfInfo, Resolution, ResolutionView};
use crate::stager::{
    cache_dirs, check_added_file, copy_views, include_plan, include_report, lines,
    libs_well_named, measure_targets, missing_ca_bundle_message, pair_views, size_report,
    size_sum, spec_copies, spec_include_report, spec_libc_dir, spec_measure_targets,
    spec_module_sources, spec_modules, spec_nsswitch, spec_symlinks, stage, symlink_views,
    tini_candidates, IncludePlan, NssSelection, SizeReport, SourceKind, StagePlan, CA_BUNDLE,
};
use crate::supplychain::{
    cosign_attest, cosign_sign, generate_sbom, run_grype, scan_gate, spec_at_or_above, spec_gate_count,
    spec_cosign_predicate_type, spec_syft_name, spec_tally, strs, tally_severities,
    tool_outcome, ScanSource, ScanSummary, Severity, ToolRun,
};
use crate::text::{concat, copy_str, decimal, sorted_strict, trim, trim_str, views};
use crate::pack::{lib_policy_message, spec_max_size_refusal};
use crate::stager::spec_display_image_path;
use crate::supplychain::spec_severity_name;

verus! {

/// Where a pack stands.
#[derive(Clone, Copy, Debug, PartialEq, Eq, Structural)]
pub enum Phase {
    /// Waiting for the binary's resolution.
    Resolve,
    /// Waiting for the staging plan to be carried out.
    Stage,
    /// Waiting for the default includes to be written.
    Include,
    /// Waiting for the staged ELF files to be (stripped and) measured.
    Measure,
    /// Waiting to learn whether the host has a CA bundle.
    CaBundle,
    /// Waiting for the CA bundle to be copied in.
    CopyCa,
    /// Waiting for the resolved local timezone to be copied in.
    Localtime,
    /// Waiting for a tini binary to be found.
    FindTini,
    /// Waiting for tini to be copied in.
    CopyTini,
    /// Waiting for the source of the `i`-th added file to be inspected.
    Inspect(usize),
    /// Waiting for the `i`-th added file to be copied in.
    CopyAdded(usize),
    /// Waiting for the requested glibc locales to be staged.
    Locales,
    /// Waiting for the total size of the staged tree.
    TotalSize,
    /// Waiting for syft.
    Sbom,
    /// Waiting for grype.
    Scan,
    /// Waiting for grype's report to be read into severities.
    ParseScan,
    /// Waiting for the reproducible tar of the staged tree.
    Layer,
    /// Waiting for the image to be delivered.
    Deliver,
    /// Waiting for the smoke-run.
    Smoke,
    /// Waiting for cosign to sign the pushed image.
    Sign,
    /// Waiting for cosign to attest the SBOM.
    Attest,
    /// The pack succeeded; its report is ready.
    Done,
    /// The pack failed.
    Failed,
}

/// The outside work a pack needs next.
#[derive(Debug)]
pub enum Step {
    /// Resolve the binary (with these forced includes) against the host root, and
    /// answer with its real path and resolution.
    Resolve { binary: String, includes: Vec<String> },
    /// Carry out this staging plan under the staging root (copies, soname
    /// symlinks, `/etc/ld.so.conf`, `ldconfig -r`).
    Stage(StagePlan),
    /// Write these default includes; answer which module sources exist.
    Include(IncludePlan),
    /// Strip the targets when asked, UPX the first one when asked, and answer the
    /// size of each before and after.
    Measure { targets: Vec<String>, strip: bool, upx: bool },
    /// Does this host file exist?
    Exists(String),
    /// Copy a host file into the staged tree at an image path.
    Copy { source: String, image_path: String },
    /// Copy the file a host path resolves to (symlinks followed) to the same image path.
    CopyResolved(String),
    /// Find the first of these host files that exists.
    FindFirst(Vec<String>),
    /// Inspect a host file the user asked to add, and whether its image path is taken.
    Inspect { source: String, image_path: String },
    /// Stage these compiled glibc locales under `/usr/lib/locale`.
    StageLocales(Vec<String>),
    /// Sum the sizes of the regular files of the staged tree.
    TotalSize,
    /// Run an external tool.
    Run { tool: String, args: Vec<String>, hint: String },
    /// Read grype's JSON report into the severity of each match.
    ParseScan(Vec<u8>),
    /// Print the warning if there is one, then tar the staged tree reproducibly.
    BuildLayer { warning: Option<String> },
    /// Write a docker-archive of the image and load it with the container engine.
    LoadDocker { layer: Layer, image: ImagePlan, tag: String, runtime: Runtime },
    /// Write an OCI image-layout archive of the image.
    WriteOci { layer: Layer, image: ImagePlan, tag: String, out: String },
    /// Push the image to a registry; answer with its by-digest reference, if any.
    Push { layer: Layer, image: ImagePlan, reference: String },
    /// Run the image once with the container engine, under a timeout.
    Smoke { tag: String, timeout_secs: u32, runtime: Runtime },
    /// The pack is done: take the report with [`Packer::finish`].
    Finish,
    /// The pack failed with this message.
    Fail(String),
}

/// What the outside work produced.
#[derive(Debug)]
pub enum Event {
    /// The binary's real path, its own linking facts, and its resolution.
    Resolved { entrypoint: String, info: ElfInfo, resolution: Resolution },
    /// The work was done.
    Done,
    /// Which module sources of the include plan exist, in plan order.
    Present(Vec<bool>),
    /// Each target's size before and after, in target order.
    Sizes(Vec<(u64, u64)>),
    /// Whether the file exists.
    Exists(bool),
    /// The first candidate that exists, if one does.
    Found(Option<String>),
    /// What the added file's source is, and whether its image path is taken.
    Inspected { kind: SourceKind, already_staged: bool },
    /// The total size of the staged tree.
    Total(u64),
    /// How running a tool went.
    Ran(ToolRun),
    /// The severity name of each match in a scan report.
    Severities(Vec<String>),
    /// The reproducible tar of the staged tree.
    Tar(Vec<u8>),
    /// The pushed image's by-digest reference, when the registry reported one.
    Pushed(Option<String>),
    /// How the smoke-run went.
    Smoked(SmokeOutcome),
    /// The work failed with this message.
    Failed(String),
}

/// What a pack was asked to do. It never changes while the pack runs.
#[derive(Debug)]
pub struct Job {
    /// The binary as given.
    pub binary: String,
    /// The staging root.
    pub dest: String,
    pub opts: PackOptions,
    pub sink: Sink,
}

/// What a pack has learned and decided so far.
#[derive(Debug)]
pub struct Record {
    /// The binary's real path: where it is staged, and the default entrypoint.
    pub entrypoint: String,
    pub resolution: Resolution,
    /// The default includes planned.
    pub includes: IncludePlan,
    /// The image paths the default includes staged.
    pub staged_includes: Vec<String>,
    pub warnings: Vec<String>,
    /// The staged ELF files to measure.
    pub targets: Vec<String>,
    pub size: SizeReport,
    /// The tini binary found on the host.
    pub tini_source: Option<String>,
    /// Where tini landed in the image.
    pub tini: Option<String>,
    /// The total size of the staged tree, once measured.
    pub total: Option<u64>,
    /// The SBOM written.
    pub sbom: Option<String>,
    /// grype's raw report.
    pub scan_output: Vec<u8>,
    pub scan: Option<ScanSummary>,
    /// The image configuration built with.
    pub cfg: ImageConfig,
    pub tag: String,
    /// The reproducible tar of the staged tree.
    pub tar: Vec<u8>,
    /// The pushed image's by-digest reference.
    pub digest_ref: Option<String>,
    pub smoke_ok: Option<bool>,
    pub signed: Option<String>,
}

/// A pack in progress.
#[derive(Debug)]
pub struct Packer {
    pub job: Job,
    pub rec: Record,
    pub phase: Phase,
    /// Why the pack failed, once it has.
    pub failure: String,
}

// ---------------------------------------------------------------------------
// The order of the optional stages
// ---------------------------------------------------------------------------

/// Whether optional stage `k` runs: 1 the CA bundle, 2 the timezone, 3 tini, 4 the
/// added files, 5 the locales, 6 the size budget, 7 the SBOM, 8 the scan, 9 the image.
pub open spec fn spec_enabled(o: PackOptions, sink: Sink, k: int) -> bool {
    if k == 1 {
        o.extras.ca_certs
    } else if k == 2 {
        o.extras.tz
    } else if k == 3 {
        o.extras.init
    } else if k == 4 {
        o.add_files@.len() > 0
    } else if k == 5 {
        o.locales@.len() > 0
    } else if k == 6 {
        o.max_size is Some
    } else if k == 7 {
        o.sbom is Some
    } else if k == 8 {
        o.scan is Some
    } else if k == 9 {
        !(sink is Rootfs)
    } else {
        false
    }
}

/// The phase that starts optional stage `k`.
pub open spec fn stage_phase(k: int) -> Phase {
    if k == 1 {
        Phase::CaBundle
    } else if k == 2 {
        Phase::Localtime
    } else if k == 3 {
        Phase::FindTini
    } else if k == 4 {
        Phase::Inspect(0)
    } else if k == 5 {
        Phase::Locales
    } else if k == 6 {
        Phase::TotalSize
    } else if k == 7 {
        Phase::Sbom
    } else if k == 8 {
        Phase::Scan
    } else {
        Phase::Layer
    }
}

/// The first optional stage at or after `k` that runs, or `Done` when none does.
pub open spec fn first_from(o: PackOptions, sink: Sink, k: int) -> Phase
    decreases 10 - k,
{
    if k >= 10 || k < 1 {
        Phase::Done
    } else if spec_enabled(o, sink, k) {
        stage_phase(k)
    } else {
        first_from(o, sink, k + 1)
    }
}

/// The order of phases; a failed pack ranks below every other.
pub open spec fn rank(p: Phase) -> int {
    match p {
        Phase::Resolve => 0,
        Phase::Stage => 1,
        Phase::Include => 2,
        Phase::Measure => 3,
        Phase::CaBundle => 4,
        Phase::CopyCa => 5,
        Phase::Localtime => 6,
        Phase::FindTini => 7,
        Phase::CopyTini => 8,
        Phase::Inspect(_) => 9,
        Phase::CopyAdded(_) => 10,
        Phase::Locales => 11,
        Phase::TotalSize => 12,
        Phase::Sbom => 13,
        Phase::Scan => 14,
        Phase::ParseScan => 15,
        Phase::Layer => 16,
        Phase::Deliver => 17,
        Phase::Smoke => 18,
        Phase::Sign => 19,
        Phase::Attest => 20,
        Phase::Done => 21,
        Phase::Failed => -1,
    }
}

// ---------------------------------------------------------------------------
// The gates
// ---------------------------------------------------------------------------

/// The library policy passes on what was resolved and staged.
pub open spec fn policy_ok(p: Packer) -> bool {
    &&& denied_present(p.rec.resolution@, views(p.rec.staged_includes@), views(p.job.opts.deny@)).len() == 0
    &&& required_missing(p.rec.resolution@, views(p.rec.staged_includes@), views(p.job.opts.require@)).len() == 0
}

/// The staged tree was measured within the size budget, when there is one.
pub open spec fn size_ok(p: Packer) -> bool {
    p.job.opts.max_size matches Some(m) ==> (p.rec.total matches Some(t) && t <= m)
}

/// The scan ran and passed its gate, when one was asked for.
pub open spec fn scan_ok(p: Packer) -> bool {
    p.job.opts.scan matches Some(req) ==> (p.rec.scan matches Some(s) && (req.fail_on matches Some(t)
        ==> spec_gate_count(s, t) == 0))
}

/// Every gate a pack must pass before it builds anything to deliver.
pub open spec fn gates_passed(p: Packer) -> bool {
    &&& p.rec.resolution@.missing.len() == 0
    &&& policy_ok(p)
    &&& size_ok(p)
    &&& scan_ok(p)
}

/// The plan `stage` makes for `binary` and `r`.
pub open spec fn is_stage_plan(binary: Seq<char>, r: ResolutionView, p: StagePlan) -> bool {
    &&& p.entrypoint@ == binary
    &&& copy_views(p.copies@) == spec_copies(binary, r)
    &&& symlink_views(p.symlinks@) == spec_symlinks(r.libs)
    &&& exists|dirs: Seq<Seq<char>>|
        sorted_strict(dirs, true) && dirs.to_set() == cache_dirs(r) && p.ld_so_conf@ == lines(dirs)
}

/// The plan `include_plan` makes for `r` and `nss`.
pub open spec fn is_include_plan(r: ResolutionView, nss: NssSelection, p: IncludePlan) -> bool {
    &&& opt_view(p.nsswitch) == spec_nsswitch(nss)
    &&& p.passwd_and_group == nss.files
    &&& p.no_libc == (spec_modules(nss).len() > 0 && spec_libc_dir(r.libs) is None)
    &&& pair_views(p.modules@) == match spec_libc_dir(r.libs) {
        Some(d) => spec_module_sources(d, nss),
        None => Seq::empty(),
    }
}

/// The phase's preconditions hold, and no phase past a gate is reached without
/// passing it.
pub open spec fn phase_ok(p: Packer) -> bool {
    &&& (p.phase matches Phase::Inspect(i) ==> i < p.job.opts.add_files@.len())
    &&& (p.phase matches Phase::CopyAdded(i) ==> i < p.job.opts.add_files@.len())
    &&& (p.phase == Phase::CopyTini ==> p.rec.tini_source is Some)
    &&& (p.phase == Phase::Sbom ==> p.job.opts.sbom is Some)
    &&& (p.phase == Phase::Scan || p.phase == Phase::ParseScan ==> p.job.opts.scan is Some)
    &&& (p.phase == Phase::Layer || p.phase == Phase::Deliver ==> !(p.job.sink is Rootfs))
    &&& (p.phase == Phase::Smoke ==> p.job.sink is DockerLoad && p.job.opts.smoke)
    &&& (p.phase == Phase::Sign ==> p.job.sink is Push && p.job.opts.sign && p.rec.digest_ref is Some)
    &&& (p.phase == Phase::Attest ==> p.job.sink is Push && p.job.opts.sign && p.rec.digest_ref is Some
        && p.job.opts.sbom is Some)
    &&& (rank(p.phase) >= rank(Phase::Stage) ==> p.rec.resolution@.missing.len() == 0)
    &&& (rank(p.phase) >= rank(Phase::Measure) ==> policy_ok(p))
    &&& (rank(p.phase) >= rank(Phase::Sbom) ==> size_ok(p))
    &&& (rank(p.phase) >= rank(Phase::Layer) ==> scan_ok(p))
    &&& (p.rec.smoke_ok is Some ==> p.job.sink is DockerLoad && p.job.opts.smoke)
    &&& (p.rec.signed is Some ==> p.job.sink is Push && p.job.opts.sign)
}

/// The plans made on entering a phase: the include plan, the targets to measure,
/// and — once the image is being built — its configuration and tag.
pub open spec fn data_ok(p: Packer) -> bool {
    &&& (p.phase == Phase::Include ==> is_include_plan(p.rec.resolution@, p.job.opts.nss, p.rec.includes))
    &&& (p.phase == Phase::Measure ==> views(p.rec.targets@) == spec_measure_targets(
        p.job.dest@,
        p.rec.entrypoint@,
        p.rec.resolution@,
    ))
    &&& (rank(p.phase) >= rank(Phase::Layer) && !(p.job.sink is Rootfs) ==> p.rec.cfg@
        == spec_effective_config(p.job.opts.image@, p.rec.entrypoint@, opt_view(p.rec.tini))
        && p.rec.tag@ == spec_image_tag(p.job.binary@))
}

/// The invariant of a pack in progress.
pub open spec fn packer_inv(p: Packer) -> bool {
    phase_ok(p) && data_ok(p)
}

// ---------------------------------------------------------------------------
// Messages
// ---------------------------------------------------------------------------

/// How to get syft.
pub open spec fn syft_hint() -> Seq<char> {
    "install syft: https://github.com/anchore/syft"@
}

/// How to get grype.
pub open spec fn grype_hint() -> Seq<char> {
    "install grype: https://github.com/anchore/grype"@
}

/// How to get cosign.
pub open spec fn cosign_hint() -> Seq<char> {
    "install cosign: https://github.com/sigstore/cosign"@
}

/// The failure of a tool run, or `None` when it succeeded: a missing tool names
/// its install hint, a failed run its trimmed stderr.
pub open spec fn spec_tool_failure(tool: Seq<char>, hint: Seq<char>, run: ToolRun) -> Option<Seq<char>> {
    match run {
        ToolRun::NotFound => Some(tool + " not found; "@ + hint),
        ToolRun::SpawnFailed => Some("running "@ + tool),
        ToolRun::Exited { success, stdout, stderr } => if success {
            None
        } else {
            Some(tool + " failed: "@ + trim(stderr@))
        },
    }
}

/// Why an added file is refused, given what its source is and whether its image
/// path is taken; `None` when it may be copied.
pub open spec fn spec_added_refusal(kind: SourceKind, already: bool, src: Seq<char>, dst: Seq<char>) -> Option<Seq<char>> {
    match kind {
        SourceKind::Unreadable => Some("--add-file: cannot read "@ + src),
        SourceKind::Directory => Some("--add-file: "@ + src + " is "@ + "a directory"@ + "; --add-file takes regular files"@),
        SourceKind::Other => Some("--add-file: "@ + src + " is "@ + "not a regular file"@ + "; --add-file takes regular files"@),
        SourceKind::File => if already {
            Some(
                "--add-file: "@ + dst
                    + " is already in the image; --add-file will not replace a staged file, and each image path can be given only once"@,
            )
        } else {
            None
        },
    }
}

/// The refusal of a scan with findings at or above `t`.
pub open spec fn spec_scan_refusal(s: ScanSummary, t: Severity) -> Seq<char> {
    "vulnerability scan failed: "@ + decimal(spec_gate_count(s, t) as nat) + " finding(s) at or above "@
        + spec_severity_name(t) + " (critical="@ + decimal(s.critical as nat) + ", high="@ + decimal(
        s.high as nat,
    ) + ", medium="@ + decimal(s.medium as nat) + ", low="@ + decimal(s.low as nat) + ", negligible="@
        + decimal(s.negligible as nat) + ")"@
}

/// The refusal of a smoke-run in which the loader could not start the binary.
pub open spec fn spec_smoke_failure(stderr: Seq<char>) -> Seq<char> {
    "smoke-run failed: the image could not start the binary.\n"@ + trim(stderr)
}

// ---------------------------------------------------------------------------
// Transitions
// ---------------------------------------------------------------------------

/// The record is unchanged but for the groups in `changed`: 0 the resolution,
/// 2 the includes staged and the warnings, 4 the sizes, 5 the tini source, 6 tini,
/// 7 the total, 8 the SBOM, 9 the scan output, 10 the scan, 12 the tar, 13 the
/// digest, 14 the smoke-run, 15 the signature. The plans made on entering a phase
/// (the include plan, the targets, the image configuration and tag) are pinned by
/// the invariant instead.
pub open spec fn keeps(o: Record, n: Record, changed: Set<int>) -> bool {
    &&& (!changed.contains(0) ==> n.entrypoint == o.entrypoint && n.resolution == o.resolution)
    &&& (!changed.contains(2) ==> n.staged_includes == o.staged_includes && n.warnings == o.warnings)
    &&& (!changed.contains(4) ==> n.size == o.size)
    &&& (!changed.contains(5) ==> n.tini_source == o.tini_source)
    &&& (!changed.contains(6) ==> n.tini == o.tini)
    &&& (!changed.contains(7) ==> n.total == o.total)
    &&& (!changed.contains(8) ==> n.sbom == o.sbom)
    &&& (!changed.contains(9) ==> n.scan_output == o.scan_output)
    &&& (!changed.contains(10) ==> n.scan == o.scan)
    &&& (!changed.contains(12) ==> n.tar == o.tar)
    &&& (!changed.contains(13) ==> n.digest_ref == o.digest_ref)
    &&& (!changed.contains(14) ==> n.smoke_ok == o.smoke_ok)
    &&& (!changed.contains(15) ==> n.signed == o.signed)
}

/// `n` failed with message `m`.
pub open spec fn fails(n: Packer, m: Seq<char>) -> bool {
    n.phase == Phase::Failed && n.failure@ == m
}

/// The events each phase accepts. Any unfinished pack accepts a failure of the
/// outside work; a finished or failed pack accepts nothing.
pub open spec fn expects(p: Packer, e: Event) -> bool {
    match p.phase {
        Phase::Done | Phase::Failed => false,
        _ => match e {
            Event::Failed(_) => true,
            Event::Resolved { .. } => p.phase == Phase::Resolve,
            Event::Done => match p.phase {
                Phase::Stage | Phase::CopyCa | Phase::Localtime | Phase::CopyTini | Phase::CopyAdded(_)
                | Phase::Locales => true,
                Phase::Deliver => !(p.job.sink is Push),
                _ => false,
            },
            Event::Present(v) => p.phase == Phase::Include && v@.len() == p.rec.includes.modules@.len(),
            Event::Sizes(v) => p.phase == Phase::Measure && v@.len() == p.rec.targets@.len() && size_sum(
                v@,
                false,
            ) <= u64::MAX && size_sum(v@, true) <= u64::MAX,
            Event::Exists(_) => p.phase == Phase::CaBundle,
            Event::Found(_) => p.phase == Phase::FindTini,
            Event::Inspected { .. } => p.phase is Inspect,
            Event::Total(_) => p.phase == Phase::TotalSize,
            Event::Ran(_) => p.phase == Phase::Sbom || p.phase == Phase::Scan || p.phase == Phase::Sign
                || p.phase == Phase::Attest,
            Event::Severities(_) => p.phase == Phase::ParseScan,
            Event::Tar(_) => p.phase == Phase::Layer,
            Event::Pushed(_) => p.phase == Phase::Deliver && p.job.sink is Push,
            Event::Smoked(_) => p.phase == Phase::Smoke,
        },
    }
}

/// The warnings after the default includes: those before, each include warning,
/// then the locale warning if there is one.
pub open spec fn warnings_after_includes(o: Packer, include_warnings: Seq<Seq<char>>) -> Seq<Seq<char>> {
    views(o.rec.warnings@) + include_warnings + match spec_locale_warning(
        views(o.job.opts.locales@),
        views(o.job.opts.image.env@),
    ) {
        Some(w) => seq![w],
        None => Seq::empty(),
    }
}

/// The include report of the include plan in `o`, given which module sources exist.
pub open spec fn report_of(o: Packer, present: Seq<bool>) -> (Seq<Seq<char>>, Seq<Seq<char>>) {
    spec_include_report(
        o.rec.includes.nsswitch is Some,
        pair_views(o.rec.includes.modules@),
        present,
        o.rec.includes.no_libc,
        o.rec.includes.passwd_and_group,
    )
}

/// What accepting event `e` in state `o` leads to.
pub open spec fn transition(o: Packer, e: Event, n: Packer) -> bool {
    &&& n.job == o.job
    &&& match e {
        Event::Failed(m) => fails(n, m@) && keeps(o.rec, n.rec, Set::empty()),
        Event::Resolved { entrypoint, info, resolution } => {
            &&& n.rec.entrypoint == entrypoint
            &&& n.rec.resolution == resolution
            &&& keeps(o.rec, n.rec, set![0, 2])
            &&& n.rec.staged_includes == o.rec.staged_includes
            &&& if spec_is_musl(info@) {
                fails(n, crate::pack::spec_musl_refusal(info@.interpreter->0)) && n.rec.warnings == o.rec.warnings
            } else {
                &&& views(n.rec.warnings@) == views(o.rec.warnings@) + (if info.uses_dlopen {
                    seq![crate::pack::spec_dlopen_warning()]
                } else {
                    Seq::empty()
                }) + (if o.job.opts.upx {
                    seq![spec_upx_warning(o.job.opts.smoke)]
                } else {
                    Seq::empty()
                })
                &&& match spec_unresolved_refusal(resolution@.missing) {
                    Some(m) => fails(n, m),
                    None => if libs_well_named(resolution@.libs) {
                        n.phase == Phase::Stage
                    } else {
                        n.phase == Phase::Failed
                    },
                }
            }
        },
        Event::Present(v) => {
            &&& views(n.rec.staged_includes@) == report_of(o, v@).0
            &&& views(n.rec.warnings@) == warnings_after_includes(o, report_of(o, v@).1)
            &&& keeps(o.rec, n.rec, set![2])
            &&& if policy_ok(n) {
                n.phase == Phase::Measure
            } else {
                fails(
                    n,
                    lib_policy_message(
                        denied_present(n.rec.resolution@, report_of(o, v@).0, views(o.job.opts.deny@)),
                        required_missing(n.rec.resolution@, report_of(o, v@).0, views(o.job.opts.require@)),
                    ),
                )
            }
        },
        Event::Sizes(v) => {
            &&& n.rec.size.entries@.len() == v@.len()
            &&& forall|i: int|
                0 <= i < v@.len() ==> (#[trigger] n.rec.size.entries@[i]).path@ == spec_display_image_path(
                    o.job.dest@,
                    o.rec.targets@[i]@,
                ) && n.rec.size.entries@[i].before == v@[i].0 && n.rec.size.entries@[i].after == v@[i].1
            &&& n.rec.size.total_before == size_sum(v@, false)
            &&& n.rec.size.total_after == size_sum(v@, true)
            &&& n.rec.size.stripped == o.job.opts.strip
            &&& n.rec.size.upx == o.job.opts.upx
            &&& keeps(o.rec, n.rec, set![4])
            &&& n.phase == first_from(o.job.opts, o.job.sink, 1)
        },
        Event::Exists(b) => keeps(o.rec, n.rec, Set::empty()) && if b {
            n.phase == Phase::CopyCa
        } else {
            fails(n, "--ca-certs: CA bundle not found at "@ + CA_BUNDLE@)
        },
        Event::Found(f) => match f {
            Some(path) => n.rec.tini_source == Some(path) && keeps(o.rec, n.rec, set![5]) && n.phase
                == Phase::CopyTini,
            None => keeps(o.rec, n.rec, Set::empty()) && fails(n, "--init: tini not found; install tini"@),
        },
        Event::Done => match o.phase {
            Phase::Stage => keeps(o.rec, n.rec, Set::empty()) && n.phase == Phase::Include,
            Phase::CopyCa => keeps(o.rec, n.rec, Set::empty()) && n.phase == first_from(o.job.opts, o.job.sink, 2),
            Phase::Localtime => keeps(o.rec, n.rec, Set::empty()) && n.phase == first_from(
                o.job.opts,
                o.job.sink,
                3,
            ),
            Phase::CopyTini => opt_view(n.rec.tini) == Some("/tini"@) && keeps(o.rec, n.rec, set![6])
                && n.phase == first_from(o.job.opts, o.job.sink, 4),
            Phase::CopyAdded(i) => keeps(o.rec, n.rec, Set::empty()) && if i + 1 < o.job.opts.add_files@.len() {
                n.phase == Phase::Inspect((i + 1) as usize)
            } else {
                n.phase == first_from(o.job.opts, o.job.sink, 5)
            },
            Phase::Locales => keeps(o.rec, n.rec, Set::empty()) && n.phase == first_from(
                o.job.opts,
                o.job.sink,
                6,
            ),
            _ => keeps(o.rec, n.rec, Set::empty()) && if o.job.sink is DockerLoad && o.job.opts.smoke {
                n.phase == Phase::Smoke
            } else {
                n.phase == Phase::Done
            },
        },
        Event::Inspected { kind, already_staged } => keeps(o.rec, n.rec, Set::empty()) && match o.phase {
            Phase::Inspect(i) => match spec_added_refusal(
                kind,
                already_staged,
                o.job.opts.add_files@[i as int].src@,
                o.job.opts.add_files@[i as int].dst@,
            ) {
                Some(m) => fails(n, m),
                None => n.phase == Phase::CopyAdded(i),
            },
            _ => false,
        },
        Event::Total(t) => n.rec.total == Some(t) && keeps(o.rec, n.rec, set![7]) && match spec_max_size_refusal(
            t,
            o.job.opts.max_size,
        ) {
            Some(m) => fails(n, m),
            None => n.phase == first_from(o.job.opts, o.job.sink, 7),
        },
        Event::Ran(run) => match o.phase {
            Phase::Sbom => match spec_tool_failure("syft"@, syft_hint(), run) {
                Some(m) => fails(n, m) && keeps(o.rec, n.rec, Set::empty()),
                None => opt_view(n.rec.sbom) == Some(o.job.opts.sbom->0.path@) && keeps(o.rec, n.rec, set![8])
                    && n.phase == first_from(o.job.opts, o.job.sink, 8),
            },
            Phase::Scan => match spec_tool_failure("grype"@, grype_hint(), run) {
                Some(m) => fails(n, m) && keeps(o.rec, n.rec, Set::empty()),
                None => run matches ToolRun::Exited { stdout, .. } && n.rec.scan_output == stdout && keeps(
                    o.rec,
                    n.rec,
                    set![9],
                ) && n.phase == Phase::ParseScan,
            },
            Phase::Sign => match spec_tool_failure("cosign"@, cosign_hint(), run) {
                Some(m) => fails(n, m) && keeps(o.rec, n.rec, Set::empty()),
                None => if o.job.opts.sbom is Some {
                    keeps(o.rec, n.rec, Set::empty()) && n.phase == Phase::Attest
                } else {
                    n.rec.signed == o.rec.digest_ref && keeps(o.rec, n.rec, set![15]) && n.phase == Phase::Done
                },
            },
            _ => match spec_tool_failure("cosign"@, cosign_hint(), run) {
                Some(m) => fails(n, m) && keeps(o.rec, n.rec, Set::empty()),
                None => n.rec.signed == o.rec.digest_ref && keeps(o.rec, n.rec, set![15]) && n.phase
                    == Phase::Done,
            },
        },
        Event::Severities(names) => {
            &&& n.rec.scan == Some(spec_tally(views(names@)))
            &&& keeps(o.rec, n.rec, set![10])
            &&& match o.job.opts.scan->0.fail_on {
                Some(t) => if spec_gate_count(spec_tally(views(names@)), t) > 0 {
                    fails(n, spec_scan_refusal(spec_tally(views(names@)), t))
                } else {
                    n.phase == first_from(o.job.opts, o.job.sink, 9)
                },
                None => n.phase == first_from(o.job.opts, o.job.sink, 9),
            }
        },
        Event::Tar(bytes) => n.rec.tar == bytes && keeps(o.rec, n.rec, set![12]) && if gzip_of(bytes@) is Some {
            n.phase == Phase::Deliver
        } else {
            fails(n, "compressing the image layer failed"@)
        },
        Event::Pushed(d) => n.rec.digest_ref == d && keeps(o.rec, n.rec, set![13]) && if o.job.opts.sign {
            match d {
                Some(_) => n.phase == Phase::Sign,
                None => fails(n, "cannot sign: the registry did not return a digest for the pushed image"@),
            }
        } else {
            n.phase == Phase::Done
        },
        Event::Smoked(out) => if spec_loader_failed(out.code, out.stderr@) {
            fails(n, spec_smoke_failure(out.stderr@)) && keeps(o.rec, n.rec, Set::empty())
        } else {
            n.rec.smoke_ok == Some(true) && keeps(o.rec, n.rec, set![14]) && n.phase == Phase::Done
        },
    }
}

// ---------------------------------------------------------------------------
// Steps
// ---------------------------------------------------------------------------

/// `l` is the layer of the tar `tar`: its gzip stream, the digest of the tar, and
/// the digest of the gzip stream.
pub open spec fn is_layer_of(l: Layer, tar: Seq<u8>) -> bool {
    &&& gzip_of(tar) == Some(l.gzip@)
    &&& l.diff_id@ == spec_hex(sha256_of(tar))
    &&& l.digest@ == spec_hex(sha256_of(l.gzip@))
}

/// `p` is the image configuration `image_plan` makes for a layer whose
/// uncompressed digest is `diff_id`.
pub open spec fn is_image_plan(p: ImagePlan, entrypoint: Seq<char>, diff_id: Seq<char>, cfg: ImageConfigView) -> bool {
    &&& views(p.entrypoint@) == if cfg.entrypoint.len() == 0 {
        seq![entrypoint]
    } else {
        cfg.entrypoint
    }
    &&& views(p.env@) == spec_merged_env(cfg.env)
    &&& p.user@ == spec_image_user(cfg)
    &&& match p.cmd {
        Some(c) => cfg.cmd.len() > 0 && views(c@) == cfg.cmd,
        None => cfg.cmd.len() == 0,
    }
    &&& opt_view(p.workdir) == cfg.workdir
    &&& crate::stager::pair_views(p.labels@) == crate::image::spec_labels(cfg.labels)
    &&& match p.healthcheck {
        Some(h) => cfg.healthcheck.len() > 0 && views(h@) == cfg.healthcheck,
        None => cfg.healthcheck.len() == 0,
    }
    &&& p.diff_id@ == "sha256:"@ + diff_id
}

/// The delivery step for the image of `n`.
pub open spec fn deliver_step(n: Packer, step: Step) -> bool {
    match n.job.sink {
        Sink::DockerLoad => step matches Step::LoadDocker { layer, image, tag, runtime } && is_layer_of(
            layer,
            n.rec.tar@,
        ) && is_image_plan(image, n.rec.entrypoint@, layer.diff_id@, n.rec.cfg@) && tag@ == n.rec.tag@ && runtime
            == n.job.opts.runtime,
        Sink::OciArchive(out) => step matches Step::WriteOci { layer, image, tag, out: o } && is_layer_of(
            layer,
            n.rec.tar@,
        ) && is_image_plan(image, n.rec.entrypoint@, layer.diff_id@, n.rec.cfg@) && tag@ == n.rec.tag@ && o@
            == out@,
        Sink::Push(reference) => step matches Step::Push { layer, image, reference: r } && is_layer_of(
            layer,
            n.rec.tar@,
        ) && is_image_plan(image, n.rec.entrypoint@, layer.diff_id@, n.rec.cfg@) && r@ == reference@,
        Sink::Rootfs(_) => false,
    }
}

/// The tini locations, in the order they are looked at.
pub open spec fn tini_places() -> Seq<Seq<char>> {
    seq!["/usr/bin/tini"@, "/sbin/tini"@, "/usr/bin/tini-static"@, "/bin/tini"@]
}

/// The step a pack in state `n` asks for.
pub open spec fn step_for(n: Packer, step: Step) -> bool {
    match n.phase {
        Phase::Resolve => step matches Step::Resolve { binary, includes } && binary@ == n.job.binary@ && views(
            includes@,
        ) == views(n.job.opts.includes@),
        Phase::Stage => step matches Step::Stage(p) && is_stage_plan(n.rec.entrypoint@, n.rec.resolution@, p),
        Phase::Include => step matches Step::Include(p) && is_include_plan(n.rec.resolution@, n.job.opts.nss, p),
        Phase::Measure => step matches Step::Measure { targets, strip, upx } && views(targets@) == views(
            n.rec.targets@,
        ) && strip == n.job.opts.strip && upx == n.job.opts.upx,
        Phase::CaBundle => step matches Step::Exists(path) && path@ == CA_BUNDLE@,
        Phase::CopyCa => step matches Step::Copy { source, image_path } && source@ == CA_BUNDLE@ && image_path@
            == CA_BUNDLE@,
        Phase::Localtime => step matches Step::CopyResolved(path) && path@ == "/etc/localtime"@,
        Phase::FindTini => step matches Step::FindFirst(c) && views(c@) == tini_places(),
        Phase::CopyTini => step matches Step::Copy { source, image_path } && opt_view(n.rec.tini_source) == Some(
            source@,
        ) && image_path@ == "/tini"@,
        Phase::Inspect(i) => step matches Step::Inspect { source, image_path } && source@
            == n.job.opts.add_files@[i as int].src@ && image_path@ == n.job.opts.add_files@[i as int].dst@,
        Phase::CopyAdded(i) => step matches Step::Copy { source, image_path } && source@
            == n.job.opts.add_files@[i as int].src@ && image_path@ == n.job.opts.add_files@[i as int].dst@,
        Phase::Locales => step matches Step::StageLocales(v) && views(v@) == views(n.job.opts.locales@),
        Phase::TotalSize => step is TotalSize,
        Phase::Sbom => step matches Step::Run { tool, args, hint } && tool@ == "syft"@ && hint@ == syft_hint()
            && views(args@) == seq![
            "dir:"@ + n.job.dest@,
            "-o"@,
            spec_syft_name(n.job.opts.sbom->0.format) + "="@ + n.job.opts.sbom->0.path@,
        ],
        Phase::Scan => step matches Step::Run { tool, args, hint } && tool@ == "grype"@ && hint@ == grype_hint()
            && views(args@) == seq![
            if n.rec.sbom is Some {
                "sbom:"@ + n.rec.sbom->0@
            } else {
                "dir:"@ + n.job.dest@
            },
            "-o"@,
            "json"@,
        ],
        Phase::ParseScan => step matches Step::ParseScan(out) && out@ == n.rec.scan_output@,
        Phase::Layer => step matches Step::BuildLayer { warning } && opt_view(warning) == spec_root_user_warning(
            n.rec.cfg@.user,
        ),
        Phase::Deliver => deliver_step(n, step),
        Phase::Smoke => step matches Step::Smoke { tag, timeout_secs, runtime } && tag@ == n.rec.tag@ && timeout_secs
            == 15 && runtime == n.job.opts.runtime,
        Phase::Sign => step matches Step::Run { tool, args, hint } && tool@ == "cosign"@ && hint@ == cosign_hint()
            && views(args@) == seq!["sign"@, "--yes"@, n.rec.digest_ref->0@],
        Phase::Attest => step matches Step::Run { tool, args, hint } && tool@ == "cosign"@ && hint@
            == cosign_hint() && views(args@) == seq![
            "attest"@,
            "--yes"@,
            "--type"@,
            spec_cosign_predicate_type(n.job.opts.sbom->0.format),
            "--predicate"@,
            n.job.opts.sbom->0.path@,
            n.rec.digest_ref->0@,
        ],
        Phase::Done => step is Finish,
        Phase::Failed => step matches Step::Fail(m) && m@ == n.failure@,
    }
}

// ---------------------------------------------------------------------------
// Running a pack
// ---------------------------------------------------------------------------

/// What the first optional stage at or after `k` can be, and what skipping to it
/// says about the stages passed over.
proof fn lemma_first_from(o: PackOptions, sink: Sink, k: int)
    requires
        1 <= k <= 10,
    ensures
        ({
            let p = first_from(o, sink, k);
            &&& p == Phase::CaBundle || p == Phase::Localtime || p == Phase::FindTini || p == Phase::Inspect(0)
                || p == Phase::Locales || p == Phase::TotalSize || p == Phase::Sbom || p == Phase::Scan || p
                == Phase::Layer || p == Phase::Done
            &&& p == Phase::CaBundle ==> k <= 1
            &&& p == Phase::Localtime ==> k <= 2
            &&& p == Phase::FindTini ==> k <= 3
            &&& p == Phase::Inspect(0) ==> k <= 4 && o.add_files@.len() > 0
            &&& p == Phase::Locales ==> k <= 5 && o.locales@.len() > 0
            &&& p == Phase::TotalSize ==> k <= 6
            &&& p == Phase::Sbom ==> o.sbom is Some
            &&& p == Phase::Scan ==> o.scan is Some
            &&& p == Phase::Layer ==> !(sink is Rootfs)
            &&& p == Phase::Done && k <= 9 ==> sink is Rootfs
            &&& rank(p) >= rank(Phase::Sbom) && k <= 6 ==> o.max_size is None
            &&& rank(p) >= rank(Phase::Layer) && k <= 8 ==> o.scan is None
        }),
    decreases 10 - k,
{
    if k < 10 && !spec_enabled(o, sink, k) {
        lemma_first_from(o, sink, k + 1);
    }
}

impl Packer {
    /// The invariant holds.
    pub open spec fn inv(&self) -> bool {
        packer_inv(*self)
    }

    /// Whether optional stage `k` runs.
    fn enabled(&self, k: u8) -> (b: bool)
        ensures
            b == spec_enabled(self.job.opts, self.job.sink, k as int),
    {
        match k {
            1 => self.job.opts.extras.ca_certs,
            2 => self.job.opts.extras.tz,
            3 => self.job.opts.extras.init,
            4 => self.job.opts.add_files.len() > 0,
            5 => self.job.opts.locales.len() > 0,
            6 => self.job.opts.max_size.is_some(),
            7 => self.job.opts.sbom.is_some(),
            8 => self.job.opts.scan.is_some(),
            9 => match &self.job.sink {
                Sink::Rootfs(_) => false,
                _ => true,
            },
            _ => false,
        }
    }

    /// The first optional stage at or after `k` that runs.
    fn first_phase(&self, k: u8) -> (p: Phase)
        requires
            1 <= k <= 10,
        ensures
            p == first_from(self.job.opts, self.job.sink, k as int),
        decreases 10 - k,
    {
        if k >= 10 {
            Phase::Done
        } else if self.enabled(k) {
            match k {
                1 => Phase::CaBundle,
                2 => Phase::Localtime,
                3 => Phase::FindTini,
                4 => Phase::Inspect(0),
                5 => Phase::Locales,
                6 => Phase::TotalSize,
                7 => Phase::Sbom,
                8 => Phase::Scan,
                _ => Phase::Layer,
            }
        } else {
            self.first_phase(k + 1)
        }
    }

    /// Start packing `binary` into the staging root `dest` for `sink`. A smoke-run
    /// that the sink cannot follow is refused before any work; otherwise the first
    /// step resolves the binary.
    pub fn start(binary: String, dest: String, opts: PackOptions, sink: Sink) -> (r: (Packer, Step))
        ensures
            r.0.inv(),
            r.0.job == (Job { binary, dest, opts, sink }),
            step_for(r.0, r.1),
            r.0.rec.tini is None && r.0.rec.total is None && r.0.rec.sbom is None && r.0.rec.scan is None,
            r.0.rec.digest_ref is None && r.0.rec.smoke_ok is None && r.0.rec.signed is None,
            r.0.rec.warnings@.len() == 0 && r.0.rec.staged_includes@.len() == 0,
            match spec_smoke_refusal(opts.smoke, sink) {
                Some(m) => fails(r.0, m),
                None => r.0.phase == Phase::Resolve,
            },
    {
        let refusal = smoke_refusal(opts.smoke, &sink);
        let warnings: Vec<String> = Vec::new();
        let includes = clone_list(&opts.includes);
        let binary_copy = binary.clone();
        let rec = Record {
            entrypoint: String::new(),
            resolution: Resolution { interpreter: None, libs: Vec::new(), missing: Vec::new() },
            includes: IncludePlan { nsswitch: None, modules: Vec::new(), no_libc: false, passwd_and_group: false },
            staged_includes: Vec::new(),
            warnings,
            targets: Vec::new(),
            size: SizeReport { entries: Vec::new(), total_before: 0, total_after: 0, stripped: false, upx: false },
            tini_source: None,
            tini: None,
            total: None,
            sbom: None,
            scan_output: Vec::new(),
            scan: None,
            cfg: ImageConfig::default(),
            tag: String::new(),
            tar: Vec::new(),
            digest_ref: None,
            smoke_ok: None,
            signed: None,
        };
        let job = Job { binary, dest, opts, sink };
        match refusal {
            Some(m) => {
                let p = Packer { job, rec, phase: Phase::Failed, failure: copy_str(m) };
                (p, Step::Fail(copy_str(m)))
            },
            None => {
                let p = Packer { job, rec, phase: Phase::Resolve, failure: String::new() };
                (p, Step::Resolve { binary: binary_copy, includes })
            },
        }
    }

    /// Fail with message `m`.
    fn fail(&mut self, m: String) -> (step: Step)
        requires
            old(self).rec.smoke_ok is Some ==> old(self).job.sink is DockerLoad && old(self).job.opts.smoke,
            old(self).rec.signed is Some ==> old(self).job.sink is Push && old(self).job.opts.sign,
        ensures
            final(self).job == old(self).job,
            final(self).rec == old(self).rec,
            fails(*final(self), m@),
            final(self).inv(),
            step_for(*final(self), step),
    {
        self.phase = Phase::Failed;
        self.failure = m.clone();
        Step::Fail(m)
    }
}


impl Packer {
    /// Enter phase `p`, making the plan it needs, and name its step.
    fn enter(&mut self, p: Phase) -> (step: Step)
        requires
            !(p == Phase::Resolve || p == Phase::Stage || p == Phase::Deliver || p == Phase::Failed),
            phase_ok((Packer { phase: p, ..*old(self) })),
            !(p == Phase::Include || p == Phase::Measure || p == Phase::Layer) ==> data_ok(
                (Packer { phase: p, ..*old(self) }),
            ),
        ensures
            final(self).job == old(self).job,
            keeps(old(self).rec, final(self).rec, Set::empty()),
            final(self).phase == p,
            final(self).inv(),
            step_for(*final(self), step),
    {
        self.phase = p;
        match p {
            Phase::Include => {
                let plan = include_plan(&self.rec.resolution, self.job.opts.nss);
                self.rec.includes = include_plan(&self.rec.resolution, self.job.opts.nss);
                proof {
                    if plan.nsswitch is Some {
                        assert(opt_view(plan.nsswitch) == Some(plan.nsswitch->0@));
                    }
                    if self.rec.includes.nsswitch is Some {
                        assert(opt_view(self.rec.includes.nsswitch) == Some(self.rec.includes.nsswitch->0@));
                    }
                    assert(opt_view(plan.nsswitch) == spec_nsswitch(self.job.opts.nss));
                    assert(plan.passwd_and_group == self.job.opts.nss.files);
                    assert(plan.no_libc == (spec_modules(self.job.opts.nss).len() > 0 && spec_libc_dir(self.rec.resolution@.libs) is None));
                    assert(is_include_plan(self.rec.resolution@, self.job.opts.nss, plan));
                }
                Step::Include(plan)
            },
            Phase::Measure => {
                self.rec.targets = measure_targets(
                    self.job.dest.as_str(),
                    self.rec.entrypoint.as_str(),
                    &self.rec.resolution,
                );
                Step::Measure { targets: clone_list(&self.rec.targets), strip: self.job.opts.strip, upx: self.job.opts.upx }
            },
            Phase::CaBundle => Step::Exists(copy_str(CA_BUNDLE)),
            Phase::CopyCa => Step::Copy { source: copy_str(CA_BUNDLE), image_path: copy_str(CA_BUNDLE) },
            Phase::Localtime => Step::CopyResolved(copy_str("/etc/localtime")),
            Phase::FindTini => {
                let places = tini_candidates();
                let mut c: Vec<String> = Vec::new();
                let mut i: usize = 0;
                while i < places.len()
                    invariant
                        i <= places.len(),
                        crate::stager::strs(places@) == tini_places(),
                        views(c@) == crate::stager::strs(places@).take(i as int),
                    decreases places.len() - i,
                {
                    c.push(copy_str(places[i]));
                    proof {
                        assert(crate::stager::strs(places@).take(i + 1) =~= crate::stager::strs(places@).take(i as int).push(places@[i as int]@));
                        assert(views(c@) =~= views(c@.drop_last()).push(c@.last()@));
                    }
                    i += 1;
                }
                assert(crate::stager::strs(places@).take(places@.len() as int) =~= crate::stager::strs(places@));
                Step::FindFirst(c)
            },
            Phase::CopyTini => {
                let source = match &self.rec.tini_source {
                    Some(s) => s.clone(),
                    None => String::new(),
                };
                Step::Copy { source, image_path: copy_str("/tini") }
            },
            Phase::Inspect(i) => Step::Inspect {
                source: self.job.opts.add_files[i].src.clone(),
                image_path: self.job.opts.add_files[i].dst.clone(),
            },
            Phase::CopyAdded(i) => Step::Copy {
                source: self.job.opts.add_files[i].src.clone(),
                image_path: self.job.opts.add_files[i].dst.clone(),
            },
            Phase::Locales => Step::StageLocales(clone_list(&self.job.opts.locales)),
            Phase::TotalSize => Step::TotalSize,
            Phase::Sbom => match &self.job.opts.sbom {
                Some(req) => {
                    let c = generate_sbom(self.job.dest.as_str(), req.format, req.path.as_str());
                    Step::Run { tool: c.tool, args: c.args, hint: c.hint }
                },
                None => Step::Finish,
            },
            Phase::Scan => {
                let source = match &self.rec.sbom {
                    Some(path) => ScanSource::Sbom(path.clone()),
                    None => ScanSource::Rootfs(self.job.dest.clone()),
                };
                let c = run_grype(&source);
                proof {
                    let first = if self.rec.sbom is Some {
                        "sbom:"@ + self.rec.sbom->0@
                    } else {
                        "dir:"@ + self.job.dest@
                    };
                    assert(views(c.args@) =~= seq![first, "-o"@, "json"@]);
                }
                Step::Run { tool: c.tool, args: c.args, hint: c.hint }
            },
            Phase::ParseScan => {
                let out = self.rec.scan_output.clone();
                assert(out@ =~= self.rec.scan_output@);
                Step::ParseScan(out)
            },
            Phase::Layer => {
                self.rec.cfg = effective_image_config(&self.job.opts.image, self.rec.entrypoint.as_str(), &self.rec.tini);
                self.rec.tag = image_tag(self.job.binary.as_str());
                Step::BuildLayer { warning: root_user_warning(&self.rec.cfg) }
            },
            Phase::Smoke => Step::Smoke { tag: self.rec.tag.clone(), timeout_secs: 15, runtime: self.job.opts.runtime },
            Phase::Sign => {
                let digest = match &self.rec.digest_ref {
                    Some(d) => d.clone(),
                    None => String::new(),
                };
                let c = cosign_sign(digest.as_str());
                Step::Run { tool: c.tool, args: c.args, hint: c.hint }
            },
            Phase::Attest => {
                let digest = match &self.rec.digest_ref {
                    Some(d) => d.clone(),
                    None => String::new(),
                };
                match &self.job.opts.sbom {
                    Some(req) => {
                        let c = cosign_attest(
                            digest.as_str(),
                            req.path.as_str(),
                            req.format.cosign_predicate_type(),
                        );
                        Step::Run { tool: c.tool, args: c.args, hint: c.hint }
                    },
                    None => Step::Finish,
                }
            },
            _ => Step::Finish,
        }
    }
}


impl Packer {
    /// The binary was resolved: refuse unresolved dependencies, else plan the staging.
    fn on_resolved(&mut self, e: Event) -> (step: Step)
        requires
            old(self).inv(),
            old(self).phase == Phase::Resolve,
            e is Resolved,
        ensures
            final(self).inv(),
            transition(*old(self), e, *final(self)),
            step_for(*final(self), step),
    {
        match e {
            Event::Resolved { entrypoint, info, resolution } => {
                self.rec.entrypoint = entrypoint;
                self.rec.resolution = resolution;
                match crate::pack::musl_refusal(&info) {
                    Some(m) => {
                        assert(spec_is_musl(info@));
                        assert(m@ == crate::pack::spec_musl_refusal(info@.interpreter->0));
                        return self.fail(m);
                    },
                    None => {},
                }
                let ghost w0 = self.rec.warnings@;
                if info.uses_dlopen {
                    let w = crate::pack::dlopen_warning();
                    self.rec.warnings.push(w);
                    proof {
                        crate::text::lemma_views_push(w0, w);
                        assert(views(self.rec.warnings@) =~= views(w0) + seq![crate::pack::spec_dlopen_warning()]);
                    }
                } else {
                    assert(views(self.rec.warnings@) =~= views(w0) + Seq::<Seq<char>>::empty());
                }
                let ghost w1 = self.rec.warnings@;
                if self.job.opts.upx {
                    let w = upx_warning(self.job.opts.smoke);
                    self.rec.warnings.push(w);
                    proof {
                        crate::text::lemma_views_push(w1, w);
                        assert(views(self.rec.warnings@) =~= views(w1) + seq![spec_upx_warning(self.job.opts.smoke)]);
                    }
                } else {
                    assert(views(self.rec.warnings@) =~= views(w1) + Seq::<Seq<char>>::empty());
                }
                match unresolved_refusal(&self.rec.resolution) {
                    Some(m) => {
                        return self.fail(m);
                    },
                    None => {},
                }
                match stage(self.rec.entrypoint.as_str(), &self.rec.resolution) {
                    Ok(plan) => {
                        self.phase = Phase::Stage;
                        Step::Stage(plan)
                    },
                    Err(err) => self.fail(err.message()),
                }
            },
            _ => Step::Finish,
        }
    }

    /// The default includes were written: record what they staged and warned,
    /// add the locale warning, then gate on the library policy.
    fn on_present(&mut self, e: Event) -> (step: Step)
        requires
            old(self).inv(),
            expects(*old(self), e),
            e is Present,
        ensures
            final(self).inv(),
            transition(*old(self), e, *final(self)),
            step_for(*final(self), step),
    {
        match e {
            Event::Present(v) => {
                let report = include_report(&self.rec.includes, &v);
                let mut warnings = crate::resolver::concat_strings(&self.rec.warnings, &report.warnings);
                match locale_env_warning(&self.job.opts.locales, &self.job.opts.image.env) {
                    Some(w) => {
                        warnings.push(w);
                    },
                    None => {},
                }
                proof {
                    let lw = spec_locale_warning(views(self.job.opts.locales@), views(self.job.opts.image.env@));
                    let expected = warnings_after_includes(*self, report_of(*self, v@).1);
                    crate::text::lemma_views_add(self.rec.warnings@, report.warnings@);
                    if lw is Some {
                        crate::text::lemma_views_push(self.rec.warnings@ + report.warnings@, warnings@.last());
                        assert(warnings@ == self.rec.warnings@ + report.warnings@ + seq![warnings@.last()]);
                        assert(views(warnings@) =~= expected);
                    } else {
                        assert(views(warnings@) =~= expected);
                    }
                }
                self.rec.staged_includes = report.staged;
                self.rec.warnings = warnings;
                match check_lib_policy(
                    &self.rec.resolution,
                    &self.rec.staged_includes,
                    &self.job.opts.require,
                    &self.job.opts.deny,
                ) {
                    Ok(()) => self.enter(Phase::Measure),
                    Err(err) => self.fail(err.message()),
                }
            },
            _ => Step::Finish,
        }
    }
}


impl Packer {
    /// The work of a copying or delivering phase was done.
    fn on_done(&mut self, e: Event) -> (step: Step)
        requires
            old(self).inv(),
            expects(*old(self), e),
            e is Done,
        ensures
            final(self).inv(),
            transition(*old(self), e, *final(self)),
            step_for(*final(self), step),
    {
        match self.phase {
            Phase::Stage => self.enter(Phase::Include),
            Phase::CopyCa => {
                let p = self.first_phase(2);
                proof {
                    lemma_first_from(self.job.opts, self.job.sink, 2);
                }
                self.enter(p)
            },
            Phase::Localtime => {
                let p = self.first_phase(3);
                proof {
                    lemma_first_from(self.job.opts, self.job.sink, 3);
                }
                self.enter(p)
            },
            Phase::CopyTini => {
                self.rec.tini = Some(copy_str("/tini"));
                let p = self.first_phase(4);
                proof {
                    lemma_first_from(self.job.opts, self.job.sink, 4);
                }
                self.enter(p)
            },
            Phase::CopyAdded(i) => {
                let n = self.job.opts.add_files.len();
                assert(i < n);
                if i + 1 < n {
                    self.enter(Phase::Inspect(i + 1))
                } else {
                    let p = self.first_phase(5);
                    proof {
                        lemma_first_from(self.job.opts, self.job.sink, 5);
                    }
                    self.enter(p)
                }
            },
            Phase::Locales => {
                let p = self.first_phase(6);
                proof {
                    lemma_first_from(self.job.opts, self.job.sink, 6);
                }
                self.enter(p)
            },
            _ => {
                let smoke = match &self.job.sink {
                    Sink::DockerLoad => self.job.opts.smoke,
                    _ => false,
                };
                if smoke {
                    self.enter(Phase::Smoke)
                } else {
                    self.enter(Phase::Done)
                }
            },
        }
    }

    /// The staged ELF files were measured.
    fn on_sizes(&mut self, e: Event) -> (step: Step)
        requires
            old(self).inv(),
            expects(*old(self), e),
            e is Sizes,
        ensures
            final(self).inv(),
            transition(*old(self), e, *final(self)),
            step_for(*final(self), step),
    {
        match e {
            Event::Sizes(v) => {
                self.rec.size = size_report(
                    self.job.dest.as_str(),
                    &self.rec.targets,
                    &v,
                    self.job.opts.strip,
                    self.job.opts.upx,
                );
                let p = self.first_phase(1);
                proof {
                    lemma_first_from(self.job.opts, self.job.sink, 1);
                }
                self.enter(p)
            },
            _ => Step::Finish,
        }
    }

    /// The CA bundle was looked for, or tini was, or an added file was inspected.
    fn on_found(&mut self, e: Event) -> (step: Step)
        requires
            old(self).inv(),
            expects(*old(self), e),
            e is Exists || e is Found || e is Inspected,
        ensures
            final(self).inv(),
            transition(*old(self), e, *final(self)),
            step_for(*final(self), step),
    {
        match e {
            Event::Exists(b) => {
                if b {
                    self.enter(Phase::CopyCa)
                } else {
                    self.fail(missing_ca_bundle_message())
                }
            },
            Event::Found(f) => match f {
                Some(path) => {
                    self.rec.tini_source = Some(path);
                    self.enter(Phase::CopyTini)
                },
                None => self.fail(copy_str("--init: tini not found; install tini")),
            },
            Event::Inspected { kind, already_staged } => match self.phase {
                Phase::Inspect(i) => match check_added_file(&self.job.opts.add_files[i], kind, already_staged) {
                    Ok(()) => self.enter(Phase::CopyAdded(i)),
                    Err(refusal) => self.fail(refusal.message()),
                },
                _ => Step::Finish,
            },
            _ => Step::Finish,
        }
    }

    /// The staged tree was measured against the size budget.
    fn on_total(&mut self, e: Event) -> (step: Step)
        requires
            old(self).inv(),
            expects(*old(self), e),
            e is Total,
        ensures
            final(self).inv(),
            transition(*old(self), e, *final(self)),
            step_for(*final(self), step),
    {
        match e {
            Event::Total(t) => {
                self.rec.total = Some(t);
                match crate::pack::max_size_refusal(t, self.job.opts.max_size) {
                    Some(m) => self.fail(m),
                    None => {
                        let p = self.first_phase(7);
                        proof {
                            lemma_first_from(self.job.opts, self.job.sink, 7);
                        }
                        self.enter(p)
                    },
                }
            },
            _ => Step::Finish,
        }
    }
}


impl Packer {
    /// A tool ran: syft, grype, or cosign signing or attesting.
    fn on_ran(&mut self, e: Event) -> (step: Step)
        requires
            old(self).inv(),
            expects(*old(self), e),
            e is Ran,
        ensures
            final(self).inv(),
            transition(*old(self), e, *final(self)),
            step_for(*final(self), step),
    {
        match e {
            Event::Ran(run) => match self.phase {
                Phase::Sbom => match tool_outcome("syft", "install syft: https://github.com/anchore/syft", run) {
                    Ok(_) => {
                        self.rec.sbom = match &self.job.opts.sbom {
                            Some(req) => Some(req.path.clone()),
                            None => None,
                        };
                        let p = self.first_phase(8);
                        proof {
                            lemma_first_from(self.job.opts, self.job.sink, 8);
                        }
                        self.enter(p)
                    },
                    Err(err) => self.fail(err.message()),
                },
                Phase::Scan => match tool_outcome("grype", "install grype: https://github.com/anchore/grype", run) {
                    Ok(stdout) => {
                        self.rec.scan_output = stdout;
                        self.enter(Phase::ParseScan)
                    },
                    Err(err) => self.fail(err.message()),
                },
                Phase::Sign => match tool_outcome("cosign", "install cosign: https://github.com/sigstore/cosign", run) {
                    Ok(_) => {
                        if self.job.opts.sbom.is_some() {
                            self.enter(Phase::Attest)
                        } else {
                            self.rec.signed = match &self.rec.digest_ref {
                                Some(d) => Some(d.clone()),
                                None => None,
                            };
                            self.enter(Phase::Done)
                        }
                    },
                    Err(err) => self.fail(err.message()),
                },
                _ => match tool_outcome("cosign", "install cosign: https://github.com/sigstore/cosign", run) {
                    Ok(_) => {
                        self.rec.signed = match &self.rec.digest_ref {
                            Some(d) => Some(d.clone()),
                            None => None,
                        };
                        self.enter(Phase::Done)
                    },
                    Err(err) => self.fail(err.message()),
                },
            },
            _ => Step::Finish,
        }
    }

    /// grype's report was read: tally it and apply the `--scan-fail-on` gate.
    fn on_severities(&mut self, e: Event) -> (step: Step)
        requires
            old(self).inv(),
            expects(*old(self), e),
            e is Severities,
        ensures
            final(self).inv(),
            transition(*old(self), e, *final(self)),
            step_for(*final(self), step),
    {
        match e {
            Event::Severities(names) => {
                let summary = tally_severities(&names);
                self.rec.scan = Some(summary);
                let fail_on = match &self.job.opts.scan {
                    Some(req) => req.fail_on,
                    None => None,
                };
                match scan_gate(&summary, fail_on) {
                    Ok(()) => {
                        let p = self.first_phase(9);
                        proof {
                            lemma_first_from(self.job.opts, self.job.sink, 9);
                        }
                        self.enter(p)
                    },
                    Err(f) => self.fail(f.message()),
                }
            },
            _ => Step::Finish,
        }
    }

    /// The staged tree was tarred: build the layer and the image configuration,
    /// and deliver.
    fn on_tar(&mut self, e: Event) -> (step: Step)
        requires
            old(self).inv(),
            expects(*old(self), e),
            e is Tar,
        ensures
            final(self).inv(),
            transition(*old(self), e, *final(self)),
            step_for(*final(self), step),
    {
        match e {
            Event::Tar(bytes) => {
                self.rec.tar = bytes;
                match layer_from_tar(self.rec.tar.as_slice()) {
                    Ok(layer) => {
                        let image = image_plan(self.rec.entrypoint.as_str(), layer.diff_id.as_str(), &self.rec.cfg);
                        self.phase = Phase::Deliver;
                        match &self.job.sink {
                            Sink::DockerLoad => Step::LoadDocker {
                                layer,
                                image,
                                tag: self.rec.tag.clone(),
                                runtime: self.job.opts.runtime,
                            },
                            Sink::OciArchive(out) => Step::WriteOci {
                                layer,
                                image,
                                tag: self.rec.tag.clone(),
                                out: out.clone(),
                            },
                            Sink::Push(reference) => Step::Push { layer, image, reference: reference.clone() },
                            Sink::Rootfs(_) => Step::Finish,
                        }
                    },
                    Err(_) => self.fail(copy_str("compressing the image layer failed")),
                }
            },
            _ => Step::Finish,
        }
    }

    /// The image was pushed.
    fn on_pushed(&mut self, e: Event) -> (step: Step)
        requires
            old(self).inv(),
            expects(*old(self), e),
            e is Pushed,
        ensures
            final(self).inv(),
            transition(*old(self), e, *final(self)),
            step_for(*final(self), step),
    {
        match e {
            Event::Pushed(d) => {
                self.rec.digest_ref = d;
                if self.job.opts.sign {
                    if self.rec.digest_ref.is_some() {
                        self.enter(Phase::Sign)
                    } else {
                        self.fail(copy_str("cannot sign: the registry did not return a digest for the pushed image"))
                    }
                } else {
                    self.enter(Phase::Done)
                }
            },
            _ => Step::Finish,
        }
    }

    /// The image was run once.
    fn on_smoked(&mut self, e: Event) -> (step: Step)
        requires
            old(self).inv(),
            expects(*old(self), e),
            e is Smoked,
        ensures
            final(self).inv(),
            transition(*old(self), e, *final(self)),
            step_for(*final(self), step),
    {
        match e {
            Event::Smoked(out) => {
                if out.loader_failed() {
                    self.fail(concat(
                        "smoke-run failed: the image could not start the binary.\n",
                        trim_str(out.stderr.as_str()).as_str(),
                    ))
                } else {
                    self.rec.smoke_ok = Some(true);
                    self.enter(Phase::Done)
                }
            },
            _ => Step::Finish,
        }
    }

    /// Accept the outcome of the last step and name the next one.
    pub fn next(&mut self, e: Event) -> (step: Step)
        requires
            old(self).inv(),
            expects(*old(self), e),
        ensures
            final(self).inv(),
            transition(*old(self), e, *final(self)),
            step_for(*final(self), step),
    {
        match e {
            Event::Failed(m) => self.fail(m),
            Event::Resolved { .. } => self.on_resolved(e),
            Event::Done => self.on_done(e),
            Event::Present(_) => self.on_present(e),
            Event::Sizes(_) => self.on_sizes(e),
            Event::Exists(_) => self.on_found(e),
            Event::Found(_) => self.on_found(e),
            Event::Inspected { .. } => self.on_found(e),
            Event::Total(_) => self.on_total(e),
            Event::Ran(_) => self.on_ran(e),
            Event::Severities(_) => self.on_severities(e),
            Event::Tar(_) => self.on_tar(e),
            Event::Pushed(_) => self.on_pushed(e),
            Event::Smoked(_) => self.on_smoked(e),
        }
    }
}


impl Packer {
    /// The report of a finished pack. Which of `tag`, `archive`, `pushed` and
    /// `staged_dir` is set says how the result was delivered.
    pub fn finish(self) -> (r: PackReport)
        requires
            self.inv(),
            self.phase == Phase::Done,
        ensures
            r.tag == (if self.job.sink is DockerLoad {
                Some(self.rec.tag)
            } else {
                None
            }),
            r.archive == (match self.job.sink {
                Sink::OciArchive(out) => Some(out),
                _ => None,
            }),
            r.pushed == (match self.job.sink {
                Sink::Push(reference) => Some(reference),
                _ => None,
            }),
            r.staged_dir == (if self.job.sink is Rootfs {
                Some(self.job.dest)
            } else {
                None
            }),
            r.entrypoint == self.rec.entrypoint,
            r.size == self.rec.size,
            r.warnings == self.rec.warnings,
            r.smoke_ok == self.rec.smoke_ok,
            r.sbom == self.rec.sbom,
            r.scan == self.rec.scan,
            r.signed == self.rec.signed,
    {
        let Packer { job, rec, .. } = self;
        let Job { dest, sink, .. } = job;
        let (tag, archive, pushed, staged_dir) = match sink {
            Sink::DockerLoad => (Some(rec.tag), None, None, None),
            Sink::OciArchive(out) => (None, Some(out), None, None),
            Sink::Push(reference) => (None, None, Some(reference), None),
            Sink::Rootfs(_) => (None, None, None, Some(dest)),
        };
        PackReport {
            tag,
            archive,
            pushed,
            staged_dir,
            entrypoint: rec.entrypoint,
            size: rec.size,
            warnings: rec.warnings,
            smoke_ok: rec.smoke_ok,
            sbom: rec.sbom,
            scan: rec.scan,
            signed: rec.signed,
        }
    }
}

// ---------------------------------------------------------------------------
// What every pack keeps to
// ---------------------------------------------------------------------------

/// No pack builds or delivers an image, or reports success, unless every
/// dependency was resolved, the library policy passed, the staged tree fit the
/// size budget, and the vulnerability scan passed its gate.
pub proof fn law_delivery_needs_every_gate(p: Packer)
    requires
        p.inv(),
        rank(p.phase) >= rank(Phase::Layer),
    ensures
        gates_passed(p),
{
}

/// Only a pushed image is signed: signing, attesting and a signature in the
/// report all need the push sink and `--sign`.
pub proof fn law_only_pushed_images_are_signed(p: Packer)
    requires
        p.inv(),
        p.phase == Phase::Sign || p.phase == Phase::Attest || p.rec.signed is Some,
    ensures
        p.job.sink is Push,
        p.job.opts.sign,
{
}

/// Only an image loaded into Docker is smoke-run, and only when asked.
pub proof fn law_only_loaded_images_are_smoke_run(p: Packer)
    requires
        p.inv(),
        p.phase == Phase::Smoke || p.rec.smoke_ok is Some,
    ensures
        p.job.sink is DockerLoad,
        p.job.opts.smoke,
{
}

/// A finished or failed pack accepts no further event.
pub proof fn law_finished_packs_are_final(p: Packer, e: Event)
    requires
        p.phase == Phase::Done || p.phase == Phase::Failed,
    ensures
        !expects(p, e),
{
}

/// A failure of the outside work ends an unfinished pack with that failure's
/// message, whatever the pack was waiting for.
pub proof fn law_outside_failures_end_the_pack(o: Packer, m: String, n: Packer)
    requires
        transition(o, Event::Failed(m), n),
    ensures
        n.phase == Phase::Failed,
        n.failure@ == m@,
{
}

} // verus!
