//! How the `pack` command line and the configuration file combine into what a pack
//! does: command-line flags win, either source turning a switch on is enough, and
//! an explicit delivery flag on the command line always picks the sink.

use vstd::prelude::*;
use crate::config::Config;
use crate::image::{opt_view, ImageConfig, ImageConfigView, Runtime};
use crate::pack::{PackOptions, Sink};
use crate::report::{parse_size, SizeError};
use crate::stager::{
    spec_add_file_parse, spec_from_modules, AddFile, AddFileError, NssError, NssModule, NssSelection,
    RuntimeExtras,
};
use crate::supplychain::{SbomFormat, SbomRequest, ScanRequest, Severity};
use crate::text::{concat, copy_str, views};

verus! {

/// The `pack` flags as given on the command line.
#[derive(Debug)]
pub struct PackFlags {
    pub binary: Option<String>,
    pub smoke: bool,
    pub no_build: bool,
    pub output: Option<String>,
    pub oci_archive: Option<String>,
    pub push: Option<String>,
    pub sign: bool,
    pub entrypoint: Option<String>,
    pub cmd: Vec<String>,
    pub env: Vec<String>,
    pub workdir: Option<String>,
    pub user: Option<String>,
    pub strip: bool,
    pub upx: bool,
    pub max_size: Option<String>,
    pub sbom: bool,
    pub sbom_file: Option<String>,
    pub sbom_format: Option<SbomFormat>,
    pub scan: bool,
    pub scan_fail_on: Option<Severity>,
    pub ca_certs: bool,
    pub tz: bool,
    pub init: bool,
    pub includes: Vec<String>,
    pub labels: Vec<String>,
    pub healthcheck: Vec<String>,
    pub add_files: Vec<String>,
    pub locales: Vec<String>,
    pub nss: Vec<NssModule>,
    pub deny: Vec<String>,
    pub require: Vec<String>,
    pub runtime: Option<Runtime>,
}

/// What a pack will do: the binary, its options, and where the result goes.
#[derive(Debug)]
pub struct PackPlan {
    pub binary: String,
    pub options: PackOptions,
    pub sink: Sink,
    /// Input shapes that still work but are on their way out, one line each.
    pub notices: Vec<String>,
}

/// Why the command line and configuration do not make a pack.
#[derive(Debug, Clone, PartialEq, Eq)]
pub enum PlanError {
    /// Neither names a binary.
    NoBinary,
    /// `--max-size` does not parse.
    BadSize(SizeError),
    /// An `--add-file` spec does not parse.
    BadAddFile(AddFileError),
    /// The `--nss` values do not combine.
    BadNss(NssError),
    /// Signing was asked for without a push target.
    SignWithoutPush,
}

impl PlanError {
    /// The error message.
    pub fn message(&self) -> (s: String)
        ensures
            match self {
                PlanError::NoBinary => s@
                    == "no binary to pack: pass one on the command line or set `binary` in --config"@,
                PlanError::SignWithoutPush => s@
                    == "--sign needs a push target — pass --push or set `push` in the config/profile"@,
                PlanError::BadSize(e) => s@ == crate::report::spec_size_error_message(*e),
                PlanError::BadAddFile(e) => s@ == crate::stager::spec_add_file_message(*e),
                PlanError::BadNss(e) => s@ == "--nss none cannot be combined with other modules"@,
            },
    {
        match self {
            PlanError::NoBinary => copy_str(
                "no binary to pack: pass one on the command line or set `binary` in --config",
            ),
            PlanError::SignWithoutPush => copy_str(
                "--sign needs a push target — pass --push or set `push` in the config/profile",
            ),
            PlanError::BadSize(e) => e.message(),
            PlanError::BadAddFile(e) => e.message(),
            PlanError::BadNss(e) => copy_str(e.message()),
        }
    }
}

/// The command-line value if given, else the configured one.
fn first_of(cli: Option<String>, file: Option<String>) -> (r: Option<String>)
    ensures
        opt_view(r) == match cli {
            Some(v) => Some(v@),
            None => opt_view(file),
        },
{
    match cli {
        Some(v) => Some(v),
        None => file,
    }
}

/// A non-empty command-line list replaces the configured one.
pub open spec fn list_or(cli: Seq<Seq<char>>, file: Seq<Seq<char>>) -> Seq<Seq<char>> {
    if cli.len() == 0 {
        file
    } else {
        cli
    }
}

/// A non-empty command-line list replaces the configured one.
fn list_or_exec(cli: Vec<String>, file: Vec<String>) -> (r: Vec<String>)
    ensures
        views(r@) == list_or(views(cli@), views(file@)),
{
    if cli.len() == 0 {
        file
    } else {
        cli
    }
}

/// The sink the flags and configuration pick: `--push`, then `--oci-archive`, then
/// `--no-build --output`, then a `push` target from the configuration, else the
/// Docker daemon. A configured push target never overrides a delivery flag.
pub open spec fn spec_sink(
    push: Option<Seq<char>>,
    oci_archive: Option<Seq<char>>,
    no_build: bool,
    output: Option<Seq<char>>,
    file_push: Option<Seq<char>>,
) -> (int, Option<Seq<char>>) {
    if push is Some {
        (3, push)
    } else if oci_archive is Some {
        (2, oci_archive)
    } else if no_build {
        (0, output)
    } else if file_push is Some {
        (3, file_push)
    } else {
        (1, None)
    }
}

/// The kind and target of a sink, as [`spec_sink`] describes it.
pub open spec fn sink_view(s: Sink) -> (int, Option<Seq<char>>) {
    match s {
        Sink::Rootfs(d) => (0, Some(d@)),
        Sink::DockerLoad => (1, None),
        Sink::OciArchive(o) => (2, Some(o@)),
        Sink::Push(r) => (3, Some(r@)),
    }
}

/// `s` parses as a size.
pub open spec fn size_parses(s: Seq<char>) -> bool {
    crate::report::number_parts(crate::report::size_number(s)) is Some && crate::report::unit_multiplier(
        crate::report::size_unit(s),
    ) is Some
}

/// The bytes a size that parses stands for.
pub open spec fn size_value(s: Seq<char>) -> u64 {
    let parts = crate::report::number_parts(crate::report::size_number(s))->0;
    let (whole, frac) = parts;
    crate::report::size_bytes(whole, frac, crate::report::unit_multiplier(crate::report::size_unit(s))->0) as u64
}

/// Every one of the first `n` add-file specs parses.
pub open spec fn specs_parse(specs: Seq<Seq<char>>, n: int) -> bool {
    forall|i: int| 0 <= i < n ==> #[trigger] spec_add_file_parse(specs[i]) is Ok
}

/// `files` are the parsed `specs`, in order.
pub open spec fn parsed_files(files: Seq<AddFile>, specs: Seq<Seq<char>>) -> bool {
    &&& files.len() == specs.len()
    &&& forall|i: int|
        0 <= i < specs.len() ==> spec_add_file_parse(#[trigger] specs[i]) == Ok::<(Seq<char>, Seq<char>), int>(
            (files[i].src@, files[i].dst@),
        )
}

/// Parse every `--add-file` spec, stopping at the first that does not parse.
fn parse_add_files(specs: &Vec<String>) -> (r: Result<Vec<AddFile>, AddFileError>)
    ensures
        match r {
            Ok(v) => parsed_files(v@, views(specs@)),
            Err(_) => exists|i: int|
                0 <= i < specs@.len() && specs_parse(views(specs@), i) && spec_add_file_parse(specs@[i]@) is Err,
        },
{
    let mut out: Vec<AddFile> = Vec::new();
    let mut i: usize = 0;
    while i < specs.len()
        invariant
            i <= specs.len(),
            parsed_files(out@, views(specs@).take(i as int)),
        decreases specs.len() - i,
    {
        match AddFile::parse(specs[i].as_str()) {
            Ok(f) => {
                out.push(f);
                assert forall|k: int| 0 <= k < i + 1 implies spec_add_file_parse(#[trigger] views(specs@).take(i + 1)[k])
                    == Ok::<(Seq<char>, Seq<char>), int>((out@[k].src@, out@[k].dst@)) by {
                    if k < i {
                        assert(views(specs@).take(i + 1)[k] == views(specs@).take(i as int)[k]);
                    }
                }
            },
            Err(e) => {
                assert(specs_parse(views(specs@), i as int)) by {
                    assert forall|k: int| 0 <= k < i implies #[trigger] spec_add_file_parse(views(specs@)[k]) is Ok by {
                        assert(views(specs@).take(i as int)[k] == views(specs@)[k]);
                    }
                }
                assert(views(specs@)[i as int] == specs@[i as int]@);
                return Err(e);
            },
        }
        i += 1;
    }
    assert(views(specs@).take(specs@.len() as int) =~= views(specs@));
    Ok(out)
}

/// The entries of `v` with no `=`, each once, in first-seen order.
pub open spec fn bare_names(v: Seq<Seq<char>>) -> Seq<Seq<char>>
    decreases v.len(),
{
    if v.len() == 0 {
        Seq::empty()
    } else {
        let p = bare_names(v.drop_last());
        if !v.last().contains('=') && !p.contains(v.last()) {
            p.push(v.last())
        } else {
            p
        }
    }
}

/// Where a deprecated input shape is explained.
pub open spec fn deprecations_page() -> Seq<char> {
    "https://schubydoo.github.io/scratchsmith/latest/deprecations/"@
}

/// The notice for a label with no `=`.
pub open spec fn label_notice(name: Seq<char>) -> Seq<char> {
    "a label with no `=` is deprecated and will be refused in 2.0: `"@ + name
        + "` lands with an empty value; write `--label "@ + name + "=value` (see "@ + deprecations_page()
        + ")"@
}

/// The notice for an environment entry with no `=`. A bare `PATH` replaces the
/// default PATH entry, which keys on the text before the first `=`.
pub open spec fn env_notice(name: Seq<char>) -> Seq<char> {
    "an env entry with no `=` is deprecated and will be refused in 2.0: `"@ + name + "` is not KEY=VALUE"@
        + (if name == "PATH"@ {
        " and replaces the image's default PATH, so the image has no usable PATH"@
    } else {
        Seq::empty()
    }) + "; write `--env "@ + name + "=value` (see "@ + deprecations_page() + ")"@
}

/// One notice for each distinct label, then each distinct environment entry, that
/// has no `=`.
pub open spec fn spec_notices(labels: Seq<Seq<char>>, env: Seq<Seq<char>>) -> Seq<Seq<char>> {
    Seq::new(bare_names(labels).len(), |i: int| label_notice(bare_names(labels)[i])) + Seq::new(
        bare_names(env).len(),
        |i: int| env_notice(bare_names(env)[i]),
    )
}

/// The entries of `v` with no `=`, each once.
fn bare_of(v: &Vec<String>) -> (r: Vec<String>)
    ensures
        views(r@) == bare_names(views(v@)),
{
    let mut r: Vec<String> = Vec::new();
    let mut i: usize = 0;
    while i < v.len()
        invariant
            i <= v.len(),
            views(r@) == bare_names(views(v@).take(i as int)),
        decreases v.len() - i,
    {
        let ghost t = views(v@).take(i + 1);
        proof {
            assert(t.drop_last() =~= views(v@).take(i as int));
            assert(t.last() == v@[i as int]@);
        }
        if !crate::text::contains_char(v[i].as_str(), '=') && !crate::resolver::contains_string(&r, v[i].as_str()) {
            let ghost before = r@;
            r.push(v[i].clone());
            proof {
                crate::text::lemma_views_push(before, v@[i as int]);
            }
        }
        i += 1;
    }
    assert(views(v@).take(v@.len() as int) =~= views(v@));
    r
}

/// The notice for a label with no `=`.
fn label_notice_of(name: &str) -> (s: String)
    ensures
        s@ == label_notice(name@),
{
    let mut s = concat("a label with no `=` is deprecated and will be refused in 2.0: `", name);
    s.append("` lands with an empty value; write `--label ");
    s.append(name);
    s.append("=value` (see ");
    s.append("https://schubydoo.github.io/scratchsmith/latest/deprecations/");
    s.append(")");
    s
}

/// The notice for an environment entry with no `=`.
fn env_notice_of(name: &str) -> (s: String)
    ensures
        s@ == env_notice(name@),
{
    let mut s = concat("an env entry with no `=` is deprecated and will be refused in 2.0: `", name);
    s.append("` is not KEY=VALUE");
    if crate::text::str_eq(name, "PATH") {
        s.append(" and replaces the image's default PATH, so the image has no usable PATH");
    } else {
        assert(s@ =~= s@ + Seq::<char>::empty());
    }
    s.append("; write `--env ");
    s.append(name);
    s.append("=value` (see ");
    s.append("https://schubydoo.github.io/scratchsmith/latest/deprecations/");
    s.append(")");
    s
}

/// The deprecation notices for the labels and environment entries an image will
/// carry: one per distinct entry with no `=`, labels first.
pub fn deprecation_notices(labels: &Vec<String>, env: &Vec<String>) -> (r: Vec<String>)
    ensures
        views(r@) == spec_notices(views(labels@), views(env@)),
{
    let bl = bare_of(labels);
    let be = bare_of(env);
    let mut r: Vec<String> = Vec::new();
    let mut i: usize = 0;
    while i < bl.len()
        invariant
            i <= bl.len(),
            views(bl@) == bare_names(views(labels@)),
            views(r@) == Seq::new(i as nat, |k: int| label_notice(bare_names(views(labels@))[k])),
        decreases bl.len() - i,
    {
        let ghost before = r@;
        let n = label_notice_of(bl[i].as_str());
        r.push(n);
        proof {
            crate::text::lemma_views_push(before, n);
            assert(views(bl@)[i as int] == bl@[i as int]@);
            assert(views(r@) =~= Seq::new((i + 1) as nat, |k: int| label_notice(bare_names(views(labels@))[k])));
        }
        i += 1;
    }
    let mut j: usize = 0;
    let ghost first = views(r@);
    while j < be.len()
        invariant
            j <= be.len(),
            views(be@) == bare_names(views(env@)),
            views(r@) == first + Seq::new(j as nat, |k: int| env_notice(bare_names(views(env@))[k])),
        decreases be.len() - j,
    {
        let ghost before = r@;
        let n = env_notice_of(be[j].as_str());
        r.push(n);
        proof {
            crate::text::lemma_views_push(before, n);
            assert(views(be@)[j as int] == be@[j as int]@);
            assert(views(r@) =~= first + Seq::new((j + 1) as nat, |k: int| env_notice(bare_names(views(env@))[k])));
        }
        j += 1;
    }
    r
}

/// The add-file specs a pack takes: the command line's when it gives any.
pub open spec fn chosen_add_files(flags: PackFlags, file: Config) -> Seq<Seq<char>> {
    if flags.add_files@.len() == 0 {
        views(file.add_files@)
    } else {
        views(flags.add_files@)
    }
}

/// The NSS modules a pack takes: the command line's when it gives any.
pub open spec fn chosen_nss(flags: PackFlags, file: Config) -> Seq<NssModule> {
    if flags.nss@.len() == 0 {
        file.nss@
    } else {
        flags.nss@
    }
}

/// The size budget a pack takes, as written.
pub open spec fn chosen_max_size(flags: PackFlags, file: Config) -> Option<Seq<char>> {
    match flags.max_size {
        Some(s) => Some(s@),
        None => opt_view(file.max_size),
    }
}

/// Every input of the pack parses: the size budget, each add-file spec and the
/// NSS modules.
pub open spec fn inputs_parse(flags: PackFlags, file: Config) -> bool {
    &&& (chosen_max_size(flags, file) matches Some(s) ==> size_parses(s))
    &&& specs_parse(chosen_add_files(flags, file), chosen_add_files(flags, file).len() as int)
    &&& spec_from_modules(chosen_nss(flags, file)) is Ok
}

/// The effective image labels and environment.
pub open spec fn chosen_labels(flags: PackFlags, file: Config) -> Seq<Seq<char>> {
    if flags.labels@.len() == 0 {
        views(file.labels@)
    } else {
        views(flags.labels@)
    }
}

pub open spec fn chosen_env(flags: PackFlags, file: Config) -> Seq<Seq<char>> {
    if flags.env@.len() == 0 {
        views(file.env@)
    } else {
        views(flags.env@)
    }
}

/// Combine the `pack` flags with the configuration (already layered with any
/// profile). Flags win: a given option replaces the configured one, a non-empty
/// list replaces the configured list, and a switch is on when either turns it on.
/// Errors come in the order the pack meets them: no binary, a size budget that
/// does not parse, an add-file spec that does not parse, NSS modules that do not
/// combine, then `--sign` without a push target.
pub fn plan_pack(flags: PackFlags, file: Config) -> (r: Result<PackPlan, PlanError>)
    requires
        flags.no_build ==> flags.output is Some,
    ensures
        match r {
            Ok(p) => {
                &&& flags.binary is Some || file.binary is Some
                &&& inputs_parse(flags, file)
                &&& p.binary@ == match flags.binary {
                    Some(b) => b@,
                    None => file.binary->0@,
                }
                &&& p.options.smoke == (flags.smoke || file.smoke)
                &&& p.options.strip == (flags.strip || file.strip)
                &&& p.options.upx == (flags.upx || file.upx)
                &&& p.options.sign == (flags.sign || file.sign)
                &&& p.options.extras == (RuntimeExtras {
                    ca_certs: flags.ca_certs || file.ca_certs,
                    tz: flags.tz || file.tz,
                    init: flags.init || file.init,
                })
                &&& match p.options.sbom {
                    Some(req) => (flags.sbom || file.sbom) && req.path@ == match flags.sbom_file {
                        Some(f) => f@,
                        None => match file.sbom_file {
                            Some(f) => f@,
                            None => "sbom.json"@,
                        },
                    } && req.format == match flags.sbom_format {
                        Some(f) => f,
                        None => match file.sbom_format {
                            Some(f) => f,
                            None => SbomFormat::CyclonedxJson,
                        },
                    },
                    None => !(flags.sbom || file.sbom),
                }
                &&& p.options.scan == ({
                    let fail_on = match flags.scan_fail_on {
                        Some(t) => Some(t),
                        None => file.scan_fail_on,
                    };
                    if flags.scan || file.scan || fail_on is Some {
                        Some(ScanRequest { fail_on })
                    } else {
                        None
                    }
                })
                &&& views(p.options.includes@) == list_or(views(flags.includes@), views(file.includes@))
                &&& views(p.options.locales@) == list_or(views(flags.locales@), views(file.locales@))
                &&& views(p.options.deny@) == list_or(views(flags.deny@), views(file.deny@))
                &&& views(p.options.require@) == list_or(views(flags.require@), views(file.require@))
                &&& parsed_files(p.options.add_files@, chosen_add_files(flags, file))
                &&& spec_from_modules(chosen_nss(flags, file)) == Ok::<NssSelection, NssError>(p.options.nss)
                &&& p.options.runtime == match flags.runtime {
                    Some(rt) => rt,
                    None => match file.runtime {
                        Some(rt) => rt,
                        None => Runtime::Docker,
                    },
                }
                &&& views(p.options.image.entrypoint@) == match flags.entrypoint {
                    Some(e) => seq![e@],
                    None => match file.entrypoint {
                        Some(e) => seq![e@],
                        None => Seq::empty(),
                    },
                }
                &&& views(p.options.image.cmd@) == list_or(views(flags.cmd@), views(file.cmd@))
                &&& views(p.options.image.env@) == chosen_env(flags, file)
                &&& views(p.options.image.labels@) == chosen_labels(flags, file)
                &&& views(p.options.image.healthcheck@) == list_or(views(flags.healthcheck@), views(file.healthcheck@))
                &&& opt_view(p.options.image.workdir) == match flags.workdir {
                    Some(w) => Some(w@),
                    None => opt_view(file.workdir),
                }
                &&& opt_view(p.options.image.user) == match flags.user {
                    Some(u) => Some(u@),
                    None => opt_view(file.user),
                }
                &&& match chosen_max_size(flags, file) {
                    Some(s) => p.options.max_size == Some(size_value(s)),
                    None => p.options.max_size is None,
                }
                &&& sink_view(p.sink) == spec_sink(
                    opt_view(flags.push),
                    opt_view(flags.oci_archive),
                    flags.no_build,
                    opt_view(flags.output),
                    opt_view(file.push),
                )
                &&& p.options.sign ==> p.sink is Push
                &&& views(p.notices@) == spec_notices(chosen_labels(flags, file), chosen_env(flags, file))
            },
            Err(PlanError::NoBinary) => flags.binary is None && file.binary is None,
            Err(PlanError::BadSize(_)) => (flags.binary is Some || file.binary is Some) && (chosen_max_size(
                flags,
                file,
            ) matches Some(s) && !size_parses(s)),
            Err(PlanError::BadAddFile(_)) => (flags.binary is Some || file.binary is Some) && (chosen_max_size(
                flags,
                file,
            ) matches Some(s) ==> size_parses(s)) && !specs_parse(
                chosen_add_files(flags, file),
                chosen_add_files(flags, file).len() as int,
            ),
            Err(PlanError::BadNss(_)) => (flags.binary is Some || file.binary is Some) && (chosen_max_size(
                flags,
                file,
            ) matches Some(s) ==> size_parses(s)) && specs_parse(
                chosen_add_files(flags, file),
                chosen_add_files(flags, file).len() as int,
            ) && spec_from_modules(chosen_nss(flags, file)) is Err,
            Err(PlanError::SignWithoutPush) => (flags.binary is Some || file.binary is Some) && inputs_parse(
                flags,
                file,
            ) && (flags.sign || file.sign) && !(spec_sink(
                opt_view(flags.push),
                opt_view(flags.oci_archive),
                flags.no_build,
                opt_view(flags.output),
                opt_view(file.push),
            ).0 == 3),
        },
{
    let binary = match first_of(flags.binary, file.binary) {
        Some(b) => b,
        None => return Err(PlanError::NoBinary),
    };
    let max_size = match first_of(flags.max_size, file.max_size) {
        Some(s) => match parse_size(s.as_str()) {
            Ok(n) => Some(n),
            Err(e) => return Err(PlanError::BadSize(e)),
        },
        None => None,
    };
    let specs = list_or_exec(flags.add_files, file.add_files);
    let add_files = match parse_add_files(&specs) {
        Ok(v) => v,
        Err(e) => {
            proof {
                let i = choose|i: int|
                    0 <= i < specs@.len() && specs_parse(views(specs@), i) && spec_add_file_parse(specs@[i]@) is Err;
                assert(views(specs@)[i] == specs@[i]@);
                assert(!specs_parse(views(specs@), views(specs@).len() as int));
            }
            return Err(PlanError::BadAddFile(e));
        },
    };
    let nss_list = if flags.nss.len() == 0 {
        file.nss
    } else {
        flags.nss
    };
    let nss = match NssSelection::from_modules(nss_list.as_slice()) {
        Ok(n) => n,
        Err(e) => return Err(PlanError::BadNss(e)),
    };
    let sbom = if flags.sbom || file.sbom {
        let path = match first_of(flags.sbom_file, file.sbom_file) {
            Some(p) => p,
            None => copy_str("sbom.json"),
        };
        let format = match flags.sbom_format {
            Some(f) => f,
            None => match file.sbom_format {
                Some(f) => f,
                None => SbomFormat::CyclonedxJson,
            },
        };
        Some(SbomRequest { path, format })
    } else {
        None
    };
    let fail_on = match flags.scan_fail_on {
        Some(t) => Some(t),
        None => file.scan_fail_on,
    };
    let scan = if flags.scan || file.scan || fail_on.is_some() {
        Some(ScanRequest { fail_on })
    } else {
        None
    };
    let entrypoint = match first_of(flags.entrypoint, file.entrypoint) {
        Some(e) => {
            let mut v: Vec<String> = Vec::new();
            let ghost ev = e@;
            v.push(e);
            assert(views(v@) =~= seq![ev]);
            v
        },
        None => {
            let v: Vec<String> = Vec::new();
            assert(views(v@) =~= Seq::<Seq<char>>::empty());
            v
        },
    };
    let image = ImageConfig {
        entrypoint,
        cmd: list_or_exec(flags.cmd, file.cmd),
        env: list_or_exec(flags.env, file.env),
        workdir: first_of(flags.workdir, file.workdir),
        user: first_of(flags.user, file.user),
        labels: list_or_exec(flags.labels, file.labels),
        healthcheck: list_or_exec(flags.healthcheck, file.healthcheck),
    };
    let notices = deprecation_notices(&image.labels, &image.env);
    let runtime = match flags.runtime {
        Some(rt) => rt,
        None => match file.runtime {
            Some(rt) => rt,
            None => Runtime::Docker,
        },
    };
    let sign = flags.sign || file.sign;
    let options = PackOptions {
        smoke: flags.smoke || file.smoke,
        strip: flags.strip || file.strip,
        upx: flags.upx || file.upx,
        sbom,
        scan,
        extras: RuntimeExtras {
            ca_certs: flags.ca_certs || file.ca_certs,
            tz: flags.tz || file.tz,
            init: flags.init || file.init,
        },
        add_files,
        locales: list_or_exec(flags.locales, file.locales),
        includes: list_or_exec(flags.includes, file.includes),
        nss,
        deny: list_or_exec(flags.deny, file.deny),
        require: list_or_exec(flags.require, file.require),
        image,
        sign,
        max_size,
        runtime,
    };
    let sink = match flags.push {
        Some(reference) => Sink::Push(reference),
        None => match flags.oci_archive {
            Some(archive) => Sink::OciArchive(archive),
            None => {
                if flags.no_build {
                    match flags.output {
                        Some(dir) => Sink::Rootfs(dir),
                        None => Sink::DockerLoad,
                    }
                } else {
                    match file.push {
                        Some(reference) => Sink::Push(reference),
                        None => Sink::DockerLoad,
                    }
                }
            },
        },
    };
    let is_push = match &sink {
        Sink::Push(_) => true,
        _ => false,
    };
    if sign && !is_push {
        return Err(PlanError::SignWithoutPush);
    }
    Ok(PackPlan { binary, options, sink, notices })
}

} // verus!
