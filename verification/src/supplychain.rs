//! SBOM (syft), vulnerability scan (grype) and signing/attestation (cosign): the
//! command lines each program runs with, the severity counts of a scan, and the
//! gate that fails a pack on findings at or above a threshold.

use vstd::prelude::*;
use crate::text::{ascii_lowercase, concat, copy_str, decimal, decimal_string, to_ascii_lowercase, str_eq};

verus! {

/// SBOM output format. CycloneDX is the default; SPDX is offered for
/// license/compliance consumers.
#[derive(Clone, Copy, Debug, PartialEq, Eq, Structural)]
pub enum SbomFormat {
    CyclonedxJson,
    SpdxJson,
}

/// A request to generate an SBOM to `path` in `format`.
#[derive(Clone, Debug, PartialEq, Eq)]
pub struct SbomRequest {
    pub path: String,
    pub format: SbomFormat,
}

/// The syft output name of a format.
pub open spec fn spec_syft_name(f: SbomFormat) -> Seq<char> {
    match f {
        SbomFormat::CyclonedxJson => "cyclonedx-json"@,
        SbomFormat::SpdxJson => "spdx-json"@,
    }
}

/// The `cosign attest --type` value of a format.
pub open spec fn spec_cosign_predicate_type(f: SbomFormat) -> Seq<char> {
    match f {
        SbomFormat::CyclonedxJson => "cyclonedx"@,
        SbomFormat::SpdxJson => "spdxjson"@,
    }
}

impl SbomFormat {
    /// The syft output name of this format.
    pub fn syft_name(self) -> (s: &'static str)
        ensures
            s@ == spec_syft_name(self),
    {
        match self {
            SbomFormat::CyclonedxJson => "cyclonedx-json",
            SbomFormat::SpdxJson => "spdx-json",
        }
    }

    /// The `cosign attest --type` value matching this SBOM format.
    pub fn cosign_predicate_type(self) -> (s: &'static str)
        ensures
            s@ == spec_cosign_predicate_type(self),
    {
        match self {
            SbomFormat::CyclonedxJson => "cyclonedx",
            SbomFormat::SpdxJson => "spdxjson",
        }
    }
}

/// The views of a list of strings.
pub open spec fn strs(v: Vec<String>) -> Seq<Seq<char>> {
    crate::text::views(v@)
}

/// `syft dir:<rootfs> -o <format>=<out>`.
pub fn syft_args(rootfs: &str, format: SbomFormat, out: &str) -> (r: Vec<String>)
    ensures
        strs(r) == seq!["dir:"@ + rootfs@, "-o"@, spec_syft_name(format) + "="@ + out@],
{
    let mut r: Vec<String> = Vec::new();
    r.push(concat("dir:", rootfs));
    r.push(copy_str("-o"));
    let mut o = concat(format.syft_name(), "=");
    o.append(out);
    r.push(o);
    assert(strs(r) =~= seq!["dir:"@ + rootfs@, "-o"@, spec_syft_name(format) + "="@ + out@]);
    r
}

/// `cosign sign --yes <ref>`.
pub fn cosign_sign_args(image_ref: &str) -> (r: Vec<String>)
    ensures
        strs(r) == seq!["sign"@, "--yes"@, image_ref@],
{
    let mut r: Vec<String> = Vec::new();
    r.push(copy_str("sign"));
    r.push(copy_str("--yes"));
    r.push(copy_str(image_ref));
    assert(strs(r) =~= seq!["sign"@, "--yes"@, image_ref@]);
    r
}

/// `cosign attest --yes --type <type> --predicate <sbom> <ref>`.
pub fn cosign_attest_args(image_ref: &str, sbom: &str, predicate_type: &str) -> (r: Vec<String>)
    ensures
        strs(r) == seq![
            "attest"@,
            "--yes"@,
            "--type"@,
            predicate_type@,
            "--predicate"@,
            sbom@,
            image_ref@,
        ],
{
    let mut r: Vec<String> = Vec::new();
    r.push(copy_str("attest"));
    r.push(copy_str("--yes"));
    r.push(copy_str("--type"));
    r.push(copy_str(predicate_type));
    r.push(copy_str("--predicate"));
    r.push(copy_str(sbom));
    r.push(copy_str(image_ref));
    assert(strs(r) =~= seq![
        "attest"@,
        "--yes"@,
        "--type"@,
        predicate_type@,
        "--predicate"@,
        sbom@,
        image_ref@,
    ]);
    r
}

/// An external tool run: the program, its arguments, and how to get the program
/// when it is missing.
#[derive(Clone, Debug, PartialEq, Eq)]
pub struct ToolCall {
    pub tool: String,
    pub args: Vec<String>,
    pub hint: String,
}

/// The syft run that writes an SBOM of `rootfs` to `out` in `format`.
pub fn generate_sbom(rootfs: &str, format: SbomFormat, out: &str) -> (c: ToolCall)
    ensures
        c.tool@ == "syft"@,
        c.hint@ == "install syft: https://github.com/anchore/syft"@,
        strs(c.args) == seq!["dir:"@ + rootfs@, "-o"@, spec_syft_name(format) + "="@ + out@],
{
    ToolCall {
        tool: copy_str("syft"),
        args: syft_args(rootfs, format, out),
        hint: copy_str("install syft: https://github.com/anchore/syft"),
    }
}

/// The cosign run that signs the registry image `image_ref` (keyless, by digest).
pub fn cosign_sign(image_ref: &str) -> (c: ToolCall)
    ensures
        c.tool@ == "cosign"@,
        c.hint@ == "install cosign: https://github.com/sigstore/cosign"@,
        strs(c.args) == seq!["sign"@, "--yes"@, image_ref@],
{
    ToolCall {
        tool: copy_str("cosign"),
        args: cosign_sign_args(image_ref),
        hint: copy_str("install cosign: https://github.com/sigstore/cosign"),
    }
}

/// The cosign run that attaches the SBOM at `sbom` to `image_ref` as a signed
/// attestation of `predicate_type`.
pub fn cosign_attest(image_ref: &str, sbom: &str, predicate_type: &str) -> (c: ToolCall)
    ensures
        c.tool@ == "cosign"@,
        c.hint@ == "install cosign: https://github.com/sigstore/cosign"@,
        strs(c.args) == seq![
            "attest"@,
            "--yes"@,
            "--type"@,
            predicate_type@,
            "--predicate"@,
            sbom@,
            image_ref@,
        ],
{
    ToolCall {
        tool: copy_str("cosign"),
        args: cosign_attest_args(image_ref, sbom, predicate_type),
        hint: copy_str("install cosign: https://github.com/sigstore/cosign"),
    }
}

/// A vulnerability severity, ordered lowest to highest so `--scan-fail-on` can gate
/// at or above a threshold. Names match grype's severity strings.
#[derive(Clone, Copy, Debug, PartialEq, Eq, Structural)]
pub enum Severity {
    Negligible,
    Low,
    Medium,
    High,
    Critical,
}

/// The position of a severity, lowest first.
pub open spec fn spec_rank(s: Severity) -> nat {
    match s {
        Severity::Negligible => 0,
        Severity::Low => 1,
        Severity::Medium => 2,
        Severity::High => 3,
        Severity::Critical => 4,
    }
}

impl Severity {
    /// The position of this severity, lowest first.
    pub fn rank(self) -> (r: u8)
        ensures
            r as nat == spec_rank(self),
    {
        match self {
            Severity::Negligible => 0,
            Severity::Low => 1,
            Severity::Medium => 2,
            Severity::High => 3,
            Severity::Critical => 4,
        }
    }

    /// The variant's name, as `{:?}` prints it.
    pub fn name(self) -> (s: &'static str)
        ensures
            s@ == spec_severity_name(self),
    {
        match self {
            Severity::Negligible => "Negligible",
            Severity::Low => "Low",
            Severity::Medium => "Medium",
            Severity::High => "High",
            Severity::Critical => "Critical",
        }
    }
}

/// The variant's name, as `{:?}` prints it.
pub open spec fn spec_severity_name(s: Severity) -> Seq<char> {
    match s {
        Severity::Negligible => "Negligible"@,
        Severity::Low => "Low"@,
        Severity::Medium => "Medium"@,
        Severity::High => "High"@,
        Severity::Critical => "Critical"@,
    }
}

/// Where grype reads its packages from: the SBOM syft already wrote, or the staged
/// rootfs directly.
#[derive(Clone, Debug, PartialEq, Eq)]
pub enum ScanSource {
    Sbom(String),
    Rootfs(String),
}

/// A request to vulnerability-scan during a pack. `fail_on` (when set) gates the
/// pack: a finding at or above that severity aborts before delivery.
#[derive(Clone, Copy, Debug, PartialEq, Eq, Structural)]
pub struct ScanRequest {
    pub fail_on: Option<Severity>,
}

/// `grype sbom:<path> -o json` or `grype dir:<path> -o json`.
pub fn grype_args(source: &ScanSource) -> (r: Vec<String>)
    ensures
        strs(r) == seq![
            match source {
                ScanSource::Sbom(p) => "sbom:"@ + p@,
                ScanSource::Rootfs(p) => "dir:"@ + p@,
            },
            "-o"@,
            "json"@,
        ],
{
    let src = match source {
        ScanSource::Sbom(p) => concat("sbom:", p.as_str()),
        ScanSource::Rootfs(p) => concat("dir:", p.as_str()),
    };
    let mut r: Vec<String> = Vec::new();
    r.push(src);
    r.push(copy_str("-o"));
    r.push(copy_str("json"));
    proof {
        let e = seq![
            match source {
                ScanSource::Sbom(p) => "sbom:"@ + p@,
                ScanSource::Rootfs(p) => "dir:"@ + p@,
            },
            "-o"@,
            "json"@,
        ];
        assert(strs(r) =~= e);
    }
    r
}

/// The grype run that scans `source` and reports its matches as JSON.
pub fn run_grype(source: &ScanSource) -> (c: ToolCall)
    ensures
        c.tool@ == "grype"@,
        c.hint@ == "install grype: https://github.com/anchore/grype"@,
        strs(c.args) == seq![
            match source {
                ScanSource::Sbom(p) => "sbom:"@ + p@,
                ScanSource::Rootfs(p) => "dir:"@ + p@,
            },
            "-o"@,
            "json"@,
        ],
{
    ToolCall {
        tool: copy_str("grype"),
        args: grype_args(source),
        hint: copy_str("install grype: https://github.com/anchore/grype"),
    }
}

/// Vulnerability counts by severity from a grype scan.
#[derive(Clone, Copy, Debug, Default, PartialEq, Eq, Structural)]
pub struct ScanSummary {
    pub critical: usize,
    pub high: usize,
    pub medium: usize,
    pub low: usize,
    pub negligible: usize,
    pub unknown: usize,
    pub total: usize,
}

/// `n` when `sev` is at or above `threshold`, else 0.
pub open spec fn count_if_at_or_above(sev: Severity, n: usize, threshold: Severity) -> int {
    if spec_rank(sev) >= spec_rank(threshold) {
        n as int
    } else {
        0
    }
}

/// The findings at or above `threshold`; `unknown` never counts.
pub open spec fn spec_at_or_above(s: ScanSummary, threshold: Severity) -> int {
    count_if_at_or_above(Severity::Critical, s.critical, threshold) + count_if_at_or_above(
        Severity::High,
        s.high,
        threshold,
    ) + count_if_at_or_above(Severity::Medium, s.medium, threshold) + count_if_at_or_above(
        Severity::Low,
        s.low,
        threshold,
    ) + count_if_at_or_above(Severity::Negligible, s.negligible, threshold)
}

/// A stricter gate never lets more through: the findings at or above a threshold
/// include those at or above any higher one, so a scan that passes a gate also
/// passes every higher gate.
pub proof fn law_higher_gates_are_more_lenient(s: ScanSummary, lower: Severity, higher: Severity)
    requires
        spec_rank(lower) <= spec_rank(higher),
    ensures
        spec_at_or_above(s, higher) <= spec_at_or_above(s, lower),
        spec_at_or_above(s, higher) >= 0,
{
}

/// The lowest threshold counts every ranked finding, and no threshold counts an
/// unrankable one: what is at or above a threshold never depends on `unknown` or
/// `total`.
pub proof fn law_ranked_counts(s: ScanSummary, t: Severity)
    ensures
        spec_at_or_above(s, Severity::Negligible) == s.critical + s.high + s.medium + s.low + s.negligible,
        spec_at_or_above(s, t) == spec_at_or_above(ScanSummary { unknown: 0, total: 0, ..s }, t),
{
}

impl ScanSummary {
    /// How many findings are at or above `threshold` — what `--scan-fail-on` gates
    /// on. `unknown`-severity findings never count toward a gate.
    pub fn at_or_above(&self, threshold: Severity) -> (n: usize)
        requires
            self.critical + self.high + self.medium + self.low + self.negligible <= usize::MAX,
        ensures
            n as int == spec_at_or_above(*self, threshold),
    {
        let t = threshold.rank();
        let mut n: usize = 0;
        if 4 >= t {
            n = n + self.critical;
        }
        if 3 >= t {
            n = n + self.high;
        }
        if 2 >= t {
            n = n + self.medium;
        }
        if 1 >= t {
            n = n + self.low;
        }
        if t == 0 {
            n = n + self.negligible;
        }
        n
    }
}

/// The severity bucket grype's severity string falls into (case-insensitively);
/// anything else, the empty string included, is unknown.
pub open spec fn severity_of(name: Seq<char>) -> Option<Severity> {
    let l = ascii_lowercase(name);
    if l == "critical"@ {
        Some(Severity::Critical)
    } else if l == "high"@ {
        Some(Severity::High)
    } else if l == "medium"@ {
        Some(Severity::Medium)
    } else if l == "low"@ {
        Some(Severity::Low)
    } else if l == "negligible"@ {
        Some(Severity::Negligible)
    } else {
        None
    }
}

/// How many of `names` fall into bucket `b`.
pub open spec fn count_bucket(names: Seq<Seq<char>>, b: Option<Severity>) -> nat
    decreases names.len(),
{
    if names.len() == 0 {
        0
    } else {
        count_bucket(names.drop_last(), b) + if severity_of(names.last()) == b {
            1nat
        } else {
            0nat
        }
    }
}

/// The tally of a list of grype severity strings.
pub open spec fn spec_tally(names: Seq<Seq<char>>) -> ScanSummary {
    ScanSummary {
        critical: count_bucket(names, Some(Severity::Critical)) as usize,
        high: count_bucket(names, Some(Severity::High)) as usize,
        medium: count_bucket(names, Some(Severity::Medium)) as usize,
        low: count_bucket(names, Some(Severity::Low)) as usize,
        negligible: count_bucket(names, Some(Severity::Negligible)) as usize,
        unknown: count_bucket(names, None) as usize,
        total: names.len() as usize,
    }
}

proof fn lemma_count_bucket_bound(names: Seq<Seq<char>>, b: Option<Severity>)
    ensures
        count_bucket(names, b) <= names.len(),
    decreases names.len(),
{
    if names.len() > 0 {
        lemma_count_bucket_bound(names.drop_last(), b);
    }
}

/// Tally the severities of a scan's matches: one count per bucket, plus the total.
/// The buckets always add up to the total.
pub fn tally_severities(names: &Vec<String>) -> (s: ScanSummary)
    ensures
        s == spec_tally(strs(*names)),
        s.critical + s.high + s.medium + s.low + s.negligible + s.unknown == s.total,
{
    let mut s = ScanSummary { critical: 0, high: 0, medium: 0, low: 0, negligible: 0, unknown: 0, total: 0 };
    let ghost all = strs(*names);
    let mut i: usize = 0;
    while i < names.len()
        invariant
            i <= names.len(),
            all == strs(*names),
            s == spec_tally(all.take(i as int)),
            s.critical + s.high + s.medium + s.low + s.negligible + s.unknown == s.total,
        decreases names.len() - i,
    {
        let ghost pre = all.take(i as int);
        let ghost post = all.take(i + 1);
        proof {
            assert(post.drop_last() =~= pre);
            assert(post.last() == names@[i as int]@);
            lemma_count_bucket_bound(pre, Some(Severity::Critical));
            lemma_count_bucket_bound(pre, Some(Severity::High));
            lemma_count_bucket_bound(pre, Some(Severity::Medium));
            lemma_count_bucket_bound(pre, Some(Severity::Low));
            lemma_count_bucket_bound(pre, Some(Severity::Negligible));
            lemma_count_bucket_bound(pre, None);
        }
        let l = to_ascii_lowercase(names[i].as_str());
        if str_eq(l.as_str(), "critical") {
            s.critical = s.critical + 1;
        } else if str_eq(l.as_str(), "high") {
            s.high = s.high + 1;
        } else if str_eq(l.as_str(), "medium") {
            s.medium = s.medium + 1;
        } else if str_eq(l.as_str(), "low") {
            s.low = s.low + 1;
        } else if str_eq(l.as_str(), "negligible") {
            s.negligible = s.negligible + 1;
        } else {
            s.unknown = s.unknown + 1;
        }
        s.total = s.total + 1;
        i += 1;
    }
    assert(all.take(names.len() as int) =~= all);
    s
}

/// A failed `--scan-fail-on` gate: `count` findings at or above `threshold`.
#[derive(Clone, Copy, Debug, PartialEq, Eq, Structural)]
pub struct ScanGateFailure {
    pub count: usize,
    pub threshold: Severity,
    pub summary: ScanSummary,
}

/// The findings a `--scan-fail-on` gate at `threshold` counts: those at or above it,
/// and at `negligible` also the findings grype could not rank — the lowest gate
/// blocks everything, while stricter ones ignore what cannot be ranked.
pub open spec fn spec_gate_count(s: ScanSummary, threshold: Severity) -> int {
    spec_at_or_above(s, threshold) + if threshold == Severity::Negligible {
        s.unknown as int
    } else {
        0
    }
}

/// Apply the `--scan-fail-on` gate: with a threshold, a finding it counts fails the
/// pack (at `negligible` an unrankable finding counts too); without one, the scan
/// only reports.
pub fn scan_gate(summary: &ScanSummary, fail_on: Option<Severity>) -> (r: Result<(), ScanGateFailure>)
    requires
        summary.critical + summary.high + summary.medium + summary.low + summary.negligible + summary.unknown
            <= usize::MAX,
    ensures
        match fail_on {
            None => r is Ok,
            Some(t) => match r {
                Ok(()) => spec_gate_count(*summary, t) == 0,
                Err(e) => e.count as int == spec_gate_count(*summary, t) && e.count > 0 && e.threshold == t
                    && e.summary == *summary,
            },
        },
{
    match fail_on {
        None => Ok(()),
        Some(t) => {
            let ranked = summary.at_or_above(t);
            let n = match t {
                Severity::Negligible => ranked + summary.unknown,
                _ => ranked,
            };
            if n > 0 {
                Err(ScanGateFailure { count: n, threshold: t, summary: *summary })
            } else {
                Ok(())
            }
        },
    }
}

impl ScanGateFailure {
    /// The error message naming the count, the threshold and the breakdown.
    pub fn message(&self) -> (s: String)
        ensures
            s@ == "vulnerability scan failed: "@ + decimal(self.count as nat) + " finding(s) at or above "@
                + spec_severity_name(self.threshold) + " (critical="@ + decimal(
                self.summary.critical as nat,
            ) + ", high="@ + decimal(self.summary.high as nat) + ", medium="@ + decimal(
                self.summary.medium as nat,
            ) + ", low="@ + decimal(self.summary.low as nat) + ", negligible="@ + decimal(
                self.summary.negligible as nat,
            ) + ")"@,
    {
        let mut s = copy_str("vulnerability scan failed: ");
        s.append(decimal_string(self.count as u64).as_str());
        s.append(" finding(s) at or above ");
        s.append(self.threshold.name());
        s.append(" (critical=");
        s.append(decimal_string(self.summary.critical as u64).as_str());
        s.append(", high=");
        s.append(decimal_string(self.summary.high as u64).as_str());
        s.append(", medium=");
        s.append(decimal_string(self.summary.medium as u64).as_str());
        s.append(", low=");
        s.append(decimal_string(self.summary.low as u64).as_str());
        s.append(", negligible=");
        s.append(decimal_string(self.summary.negligible as u64).as_str());
        s.append(")");
        s
    }
}

/// What happened when an external tool was started.
#[derive(Clone, Debug, PartialEq, Eq)]
pub enum ToolRun {
    /// The program does not exist.
    NotFound,
    /// Starting it failed for another reason.
    SpawnFailed,
    /// It ran and exited.
    Exited { success: bool, stdout: Vec<u8>, stderr: String },
}

/// Why running an external tool failed.
#[derive(Clone, Debug, PartialEq, Eq)]
pub enum ToolError {
    /// The tool is not installed; the hint says how to get it.
    NotFound { tool: String, hint: String },
    /// The tool could not be started.
    Spawn { tool: String },
    /// The tool exited with a failure status.
    Failed { tool: String, stderr: String },
}

impl ToolError {
    /// The error message: a not-found names the install hint, a failure the
    /// trimmed stderr.
    pub fn message(&self) -> (s: String)
        ensures
            s@ == match self {
                ToolError::NotFound { tool, hint } => tool@ + " not found; "@ + hint@,
                ToolError::Spawn { tool } => "running "@ + tool@,
                ToolError::Failed { tool, stderr } => tool@ + " failed: "@ + crate::text::trim(stderr@),
            },
    {
        match self {
            ToolError::NotFound { tool, hint } => {
                let mut s = concat(tool.as_str(), " not found; ");
                s.append(hint.as_str());
                s
            },
            ToolError::Spawn { tool } => concat("running ", tool.as_str()),
            ToolError::Failed { tool, stderr } => {
                let mut s = concat(tool.as_str(), " failed: ");
                s.append(crate::text::trim_str(stderr.as_str()).as_str());
                s
            },
        }
    }
}

/// The outcome of running a tool: its captured stdout on success; a not-found
/// becomes a clear install hint and a non-zero exit a reported failure — never a
/// silent skip.
pub fn tool_outcome(tool: &str, hint: &str, run: ToolRun) -> (r: Result<Vec<u8>, ToolError>)
    ensures
        match run {
            ToolRun::NotFound => r matches Err(ToolError::NotFound { tool: t, hint: h }) && t@ == tool@ && h@
                == hint@,
            ToolRun::SpawnFailed => r matches Err(ToolError::Spawn { tool: t }) && t@ == tool@,
            ToolRun::Exited { success, stdout, stderr } => if success {
                r == Ok::<Vec<u8>, ToolError>(stdout)
            } else {
                r matches Err(ToolError::Failed { tool: t, stderr: e }) && t@ == tool@ && e == stderr
            },
        },
{
    match run {
        ToolRun::NotFound => Err(ToolError::NotFound { tool: copy_str(tool), hint: copy_str(hint) }),
        ToolRun::SpawnFailed => Err(ToolError::Spawn { tool: copy_str(tool) }),
        ToolRun::Exited { success, stdout, stderr } => {
            if success {
                Ok(stdout)
            } else {
                Err(ToolError::Failed { tool: copy_str(tool), stderr })
            }
        },
    }
}

} // verus!
