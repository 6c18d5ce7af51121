//! `doctor`: the external tools Scratchsmith can use, and how each one's probe is
//! reported. Running the tools is the caller's; this module says which tools to
//! probe, where to look for them, and what a probe's output means.

use vstd::prelude::*;
use crate::image::{before_first, before_first_of};
use crate::stager::strs;
use crate::text::{concat, copy_str, pad_right, pad_right_str, trim, trim_str};

verus! {

/// An external tool: its name, the arguments that print its version, what it is for,
/// and how to get it.
#[derive(Debug, Clone, PartialEq, Eq)]
pub struct Tool {
    pub name: &'static str,
    pub version_args: Vec<&'static str>,
    pub purpose: &'static str,
    pub hint: &'static str,
}

/// The content of a tool entry.
pub open spec fn tool_view(t: Tool) -> (Seq<char>, Seq<Seq<char>>, Seq<char>, Seq<char>) {
    (t.name@, strs(t.version_args@), t.purpose@, t.hint@)
}

/// The tools `doctor` probes, in report order.
pub open spec fn spec_tools() -> Seq<(Seq<char>, Seq<Seq<char>>, Seq<char>, Seq<char>)> {
    seq![
        ("ldconfig"@, seq!["--version"@], "regenerate the loader cache (core pack)"@, "install glibc tools (libc-bin)"@),
        ("docker"@, seq!["--version"@], "load the image into the Docker daemon"@, "install Docker"@),
        ("strip"@, seq!["--version"@], "--strip (shrink the binary and libraries)"@, "install binutils"@),
        ("syft"@, seq!["version"@], "SBOM generation (--sbom, v0.2)"@, "https://github.com/anchore/syft"@),
        ("grype"@, seq!["version"@], "--scan (vulnerability scan)"@, "https://github.com/anchore/grype"@),
        ("cosign"@, seq!["version"@], "image signing (v0.2)"@, "https://github.com/sigstore/cosign"@),
        ("upx"@, seq!["--version"@], "--upx (compress the packed binary further)"@, "install upx"@),
    ]
}

fn tool(name: &'static str, version_arg: &'static str, purpose: &'static str, hint: &'static str) -> (t: Tool)
    ensures
        tool_view(t) == (name@, seq![version_arg@], purpose@, hint@),
{
    let mut args: Vec<&'static str> = Vec::new();
    args.push(version_arg);
    let t = Tool { name, version_args: args, purpose, hint };
    assert(strs(t.version_args@) =~= seq![version_arg@]);
    t
}

/// The tools `doctor` probes, in report order.
pub fn tools() -> (r: Vec<Tool>)
    ensures
        r@.map_values(|t: Tool| tool_view(t)) == spec_tools(),
{
    let mut r: Vec<Tool> = Vec::new();
    r.push(tool("ldconfig", "--version", "regenerate the loader cache (core pack)", "install glibc tools (libc-bin)"));
    r.push(tool("docker", "--version", "load the image into the Docker daemon", "install Docker"));
    r.push(tool("strip", "--version", "--strip (shrink the binary and libraries)", "install binutils"));
    r.push(tool("syft", "version", "SBOM generation (--sbom, v0.2)", "https://github.com/anchore/syft"));
    r.push(tool("grype", "version", "--scan (vulnerability scan)", "https://github.com/anchore/grype"));
    r.push(tool("cosign", "version", "image signing (v0.2)", "https://github.com/sigstore/cosign"));
    r.push(tool("upx", "--version", "--upx (compress the packed binary further)", "install upx"));
    assert(r@.map_values(|t: Tool| tool_view(t)) =~= spec_tools());
    r
}

/// Where a tool is looked for, in order: by name on the `PATH`, then in the system
/// sbin directories (`ldconfig` lives there and is not always on the `PATH`).
pub fn locate_candidates(name: &str) -> (r: Vec<String>)
    ensures
        crate::text::views(r@) == seq![name@, "/usr/sbin/"@ + name@, "/sbin/"@ + name@],
{
    let mut r: Vec<String> = Vec::new();
    r.push(copy_str(name));
    r.push(concat("/usr/sbin/", name));
    r.push(concat("/sbin/", name));
    assert(crate::text::views(r@) =~= seq![name@, "/usr/sbin/"@ + name@, "/sbin/"@ + name@]);
    r
}

/// A version command's text: its standard output, or its standard error when the
/// output is blank (some tools print their version there).
pub open spec fn spec_version_text(stdout: Seq<char>, stderr: Seq<char>) -> Seq<char> {
    if trim(stdout).len() == 0 {
        stderr
    } else {
        stdout
    }
}

/// The first line of a text, trimmed.
pub open spec fn spec_first_line(s: Seq<char>) -> Seq<char> {
    trim(before_first(s, '\n'))
}

/// The first line of `s`, trimmed.
pub fn first_line(s: &str) -> (r: String)
    ensures
        r@ == spec_first_line(s@),
{
    let line = before_first_of(s, '\n');
    trim_str(line.as_str())
}

/// What a probe found of one tool.
#[derive(Debug, Clone, PartialEq, Eq)]
pub struct ToolStatus {
    pub name: &'static str,
    /// The first line of its version output; `None` when it was not found or its
    /// version command failed.
    pub version: Option<String>,
    pub purpose: &'static str,
    pub hint: &'static str,
}

/// The version a probe reports from a successful version command's output.
pub open spec fn spec_reported_version(output: Option<(String, String)>) -> Option<Seq<char>> {
    match output {
        Some(o) => Some(spec_first_line(spec_version_text(o.0@, o.1@))),
        None => None,
    }
}

/// The status of one tool, from the (stdout, stderr) of its version command when
/// the tool was found and the command succeeded.
pub fn tool_status(t: &Tool, output: Option<(String, String)>) -> (s: ToolStatus)
    ensures
        s.name == t.name && s.purpose == t.purpose && s.hint == t.hint,
        crate::image::opt_view(s.version) == spec_reported_version(output),
{
    let version = match &output {
        Some((out, err)) => {
            let t_out = trim_str(out.as_str());
            let text = if t_out.unicode_len() == 0 { err } else { out };
            Some(first_line(text.as_str()))
        },
        None => None,
    };
    ToolStatus { name: t.name, version, purpose: t.purpose, hint: t.hint }
}

/// The status of every tool, given the output of each tool's version command (in
/// the order of [`tools`]).
pub fn probe(outputs: Vec<Option<(String, String)>>) -> (r: Vec<ToolStatus>)
    requires
        outputs@.len() == spec_tools().len(),
    ensures
        r@.len() == spec_tools().len(),
        forall|i: int| 0 <= i < r@.len() ==> {
            &&& (#[trigger] r@[i]).name@ == spec_tools()[i].0
            &&& r@[i].purpose@ == spec_tools()[i].2
            &&& r@[i].hint@ == spec_tools()[i].3
            &&& crate::image::opt_view(r@[i].version) == spec_reported_version(outputs@[i])
        },
{
    let ts = tools();
    let mut r: Vec<ToolStatus> = Vec::new();
    let mut i: usize = 0;
    while i < ts.len()
        invariant
            i <= ts.len(),
            ts@.map_values(|t: Tool| tool_view(t)) == spec_tools(),
            outputs@.len() == ts@.len(),
            r@.len() == i,
            forall|k: int| 0 <= k < i ==> {
                &&& (#[trigger] r@[k]).name@ == spec_tools()[k].0
                &&& r@[k].purpose@ == spec_tools()[k].2
                &&& r@[k].hint@ == spec_tools()[k].3
                &&& crate::image::opt_view(r@[k].version) == spec_reported_version(outputs@[k])
            },
        decreases ts.len() - i,
    {
        assert(tool_view(ts@[i as int]) == spec_tools()[i as int]);
        let o = match &outputs[i] {
            Some((out, err)) => Some((out.clone(), err.clone())),
            None => None,
        };
        proof {
            assert(spec_reported_version(o) == spec_reported_version(outputs@[i as int]));
        }
        let s = tool_status(&ts[i], o);
        r.push(s);
        i += 1;
    }
    r
}

/// The report line of one tool: found tools show their version and purpose,
/// missing ones what they are for and how to get them.
pub open spec fn spec_status_line(s: ToolStatus) -> Seq<char> {
    match s.version {
        Some(v) => "  ok    "@ + pad_right(s.name@, 9) + " "@ + v@ + "  ("@ + s.purpose@ + ")"@,
        None => "  MISS  "@ + pad_right(s.name@, 9) + " not found — "@ + s.purpose@ + "; "@ + s.hint@,
    }
}

/// The report line of one tool.
pub fn status_line(s: &ToolStatus) -> (r: String)
    ensures
        r@ == spec_status_line(*s),
{
    match &s.version {
        Some(v) => {
            let mut r = copy_str("  ok    ");
            r.append(pad_right_str(s.name, 9).as_str());
            r.append(" ");
            r.append(v.as_str());
            r.append("  (");
            r.append(s.purpose);
            r.append(")");
            r
        },
        None => {
            let mut r = copy_str("  MISS  ");
            r.append(pad_right_str(s.name, 9).as_str());
            r.append(" not found — ");
            r.append(s.purpose);
            r.append("; ");
            r.append(s.hint);
            r
        },
    }
}

} // verus!
