//! The decisions of a pack: which sinks a smoke-run can follow, the library
//! allow/deny gate, the locale checks, the effective image configuration and the
//! image tag. Resolving, staging and delivering are driven from the outside, which
//! hands these functions plain values and acts on what they return.

use vstd::prelude::*;
use crate::image::{before_first_of, clone_list, clone_opt_string, is_root_user, spec_is_root_user, ImageConfig, ImageConfigView};
use crate::paths::{file_name, file_name_of};
use crate::resolver::{Resolution, ResolutionView};
use crate::stager::{AddFile, NssSelection, RuntimeExtras};
use crate::supplychain::{SbomRequest, ScanRequest};
use crate::text::{
    ascii_lowercase, concat, contains, contains_seq, copy_str, decimal, decimal_string, is_prefix,
    join, join_strings, split_once, split_once_char, starts_with, str_eq, to_ascii_lowercase, views,
};

verus! {

// ---------------------------------------------------------------------------
// Options and sinks
// ---------------------------------------------------------------------------

/// Everything a pack needs beyond the binary itself.
#[derive(Debug)]
pub struct PackOptions {
    pub smoke: bool,
    pub strip: bool,
    /// Compress the packed binary with UPX (the executable only — not the loader or libs).
    pub upx: bool,
    pub sbom: Option<SbomRequest>,
    /// Vulnerability-scan the packed rootfs with grype; a `fail_on` gate aborts the pack.
    pub scan: Option<ScanRequest>,
    pub extras: RuntimeExtras,
    /// Host files to copy into the image (`--add-file SRC[:DST]`).
    pub add_files: Vec<AddFile>,
    /// Compiled glibc locales to stage under `/usr/lib/locale`.
    pub locales: Vec<String>,
    /// Extra libraries (sonames or paths) to force-stage, e.g. dlopen'd plugins.
    pub includes: Vec<String>,
    /// Which name-service (NSS) modules to stage; the default stages files + dns.
    pub nss: NssSelection,
    /// Fail the pack if any of these libraries is staged (`--deny`).
    pub deny: Vec<String>,
    /// Fail the pack if any of these libraries is absent (`--require`).
    pub require: Vec<String>,
    pub image: ImageConfig,
    /// Sign the pushed image with cosign (and attest the SBOM, if any). Push only.
    pub sign: bool,
    /// Fail the pack if the fully staged rootfs exceeds this many bytes.
    pub max_size: Option<u64>,
    /// The container engine that loads and smoke-runs the image (Docker sink only).
    pub runtime: crate::image::Runtime,
}

impl Default for PackOptions {
    fn default() -> (o: Self)
        ensures
            !o.smoke && !o.strip && !o.upx && !o.sign,
            o.sbom is None && o.scan is None && o.max_size is None,
            o.extras == (RuntimeExtras { ca_certs: false, tz: false, init: false }),
            o.add_files@.len() == 0 && o.locales@.len() == 0 && o.includes@.len() == 0,
            o.deny@.len() == 0 && o.require@.len() == 0,
            o.nss == (NssSelection { files: true, dns: true }),
            o.image@.entrypoint.len() == 0 && o.image@.cmd.len() == 0 && o.image@.env.len() == 0,
            o.image@.workdir is None && o.image@.user is None,
            o.image@.labels.len() == 0 && o.image@.healthcheck.len() == 0,
            o.runtime == crate::image::Runtime::Docker,
    {
        PackOptions {
            smoke: false,
            strip: false,
            upx: false,
            sbom: None,
            scan: None,
            extras: RuntimeExtras { ca_certs: false, tz: false, init: false },
            add_files: Vec::new(),
            locales: Vec::new(),
            includes: Vec::new(),
            nss: NssSelection::default_selection(),
            deny: Vec::new(),
            require: Vec::new(),
            image: ImageConfig::default(),
            sign: false,
            max_size: None,
            runtime: crate::image::Runtime::Docker,
        }
    }
}

/// Where a pack delivers its result.
#[derive(Debug, Clone, PartialEq, Eq)]
pub enum Sink {
    /// Stage the rootfs into this directory and build no image.
    Rootfs(String),
    /// Build the image and load it into the local Docker daemon (the default sink).
    DockerLoad,
    /// Write a daemonless OCI-archive tarball to this path.
    OciArchive(String),
    /// Push the image straight to this registry reference, daemonless.
    Push(String),
}

/// Why `--smoke` cannot follow a sink that builds or keeps no runnable image.
pub open spec fn spec_smoke_refusal(smoke: bool, sink: Sink) -> Option<Seq<char>> {
    if !smoke {
        None
    } else {
        match sink {
            Sink::Rootfs(_) => Some(
                "--smoke needs a built image, so it isn't supported with --no-build; drop --smoke, or set `smoke = false` in the profile"@,
            ),
            Sink::DockerLoad => None,
            Sink::OciArchive(_) => Some(
                "--smoke needs a running image, so it isn't supported with --oci-archive; load the archive (docker load / skopeo) and run it separately, or drop --smoke"@,
            ),
            Sink::Push(_) => Some(
                "--smoke needs a running image, so it isn't supported with --push; pull the pushed image and run it separately, or drop --smoke"@,
            ),
        }
    }
}

/// The refusal of a smoke-run on `sink`, when there is one. Only the Docker sink
/// leaves an image that can be run; the others are refused before any work starts.
pub fn smoke_refusal(smoke: bool, sink: &Sink) -> (r: Option<&'static str>)
    ensures
        match r {
            Some(m) => spec_smoke_refusal(smoke, *sink) == Some(m@),
            None => spec_smoke_refusal(smoke, *sink) is None,
        },
{
    if !smoke {
        return None;
    }
    match sink {
        Sink::Rootfs(_) => Some(
            "--smoke needs a built image, so it isn't supported with --no-build; drop --smoke, or set `smoke = false` in the profile",
        ),
        Sink::DockerLoad => None,
        Sink::OciArchive(_) => Some(
            "--smoke needs a running image, so it isn't supported with --oci-archive; load the archive (docker load / skopeo) and run it separately, or drop --smoke",
        ),
        Sink::Push(_) => Some(
            "--smoke needs a running image, so it isn't supported with --push; pull the pushed image and run it separately, or drop --smoke",
        ),
    }
}

/// The caveat printed whenever `--upx` is on; it points at `--smoke` unless that
/// was already asked for.
pub open spec fn spec_upx_warning(smoke: bool) -> Seq<char> {
    "--upx compresses the binary; it self-decompresses at runtime but can break a binary that dlopen's by path or self-modifies"@
        + if smoke {
        Seq::<char>::empty()
    } else {
        " — verify the packed image with --smoke"@
    }
}

/// The `--upx` caveat.
pub fn upx_warning(smoke: bool) -> (s: String)
    ensures
        s@ == spec_upx_warning(smoke),
{
    let mut msg = copy_str(
        "--upx compresses the binary; it self-decompresses at runtime but can break a binary that dlopen's by path or self-modifies",
    );
    if !smoke {
        msg.append(" — verify the packed image with --smoke");
    } else {
        assert(msg@ =~= msg@ + Seq::<char>::empty());
    }
    msg
}

/// The warning for a binary that imports `dlopen`: what it loads at run time is
/// invisible to the dependency graph.
pub open spec fn spec_dlopen_warning() -> Seq<char> {
    "binary references dlopen; runtime-loaded plugins are not in the dependency graph — add them with --include <lib> if the image is missing libraries"@
}

/// The `dlopen` caveat.
pub fn dlopen_warning() -> (s: String)
    ensures
        s@ == spec_dlopen_warning(),
{
    copy_str(
        "binary references dlopen; runtime-loaded plugins are not in the dependency graph — add them with --include <lib> if the image is missing libraries",
    )
}

/// The refusal of a dynamic musl binary, named by its loader.
pub open spec fn spec_musl_refusal(interpreter: Seq<char>) -> Seq<char> {
    "cannot pack a dynamic musl binary (its loader is "@ + interpreter
        + "): only glibc binaries are supported; rebuild it statically or against glibc"@
}

/// The refusal of a dynamic musl binary, when `info` is one: it is refused before
/// anything is staged, never packed into a broken image.
pub fn musl_refusal(info: &crate::resolver::ElfInfo) -> (r: Option<String>)
    ensures
        crate::image::opt_view(r) == if crate::resolver::spec_is_musl(info@) {
            Some(spec_musl_refusal(info@.interpreter->0))
        } else {
            None
        },
{
    if info.is_musl() {
        match &info.interpreter {
            Some(i) => {
                let mut s = concat("cannot pack a dynamic musl binary (its loader is ", i.as_str());
                s.append("): only glibc binaries are supported; rebuild it statically or against glibc");
                Some(s)
            },
            None => None,
        }
    } else {
        None
    }
}

/// A pack never builds an image it knows to be broken: any unresolved dependency
/// refuses it, naming every missing soname.
pub open spec fn spec_unresolved_refusal(missing: Seq<Seq<char>>) -> Option<Seq<char>> {
    if missing.len() == 0 {
        None
    } else {
        Some("cannot pack: unresolved dependencies: "@ + join(missing, ", "@))
    }
}

/// The refusal for a resolution with unresolved dependencies, if it has any.
pub fn unresolved_refusal(resolution: &Resolution) -> (r: Option<String>)
    ensures
        crate::image::opt_view(r) == spec_unresolved_refusal(resolution@.missing),
{
    if resolution.missing.len() == 0 {
        None
    } else {
        Some(concat("cannot pack: unresolved dependencies: ", join_strings(&resolution.missing, ", ").as_str()))
    }
}

// ---------------------------------------------------------------------------
// The library policy
// ---------------------------------------------------------------------------

/// `name` ships in the image: as the soname or file name of a resolved library, as
/// the loader's file name, or as the file name of a staged extra file whose path
/// holds `.so`.
pub open spec fn ships(r: ResolutionView, staged: Seq<Seq<char>>, name: Seq<char>) -> bool {
    ||| exists|i: int| 0 <= i < r.libs.len() && #[trigger] lib_ships(r.libs[i], name)
    ||| (r.interpreter matches Some(it) && file_name(it.0) == Some(name))
    ||| exists|j: int| 0 <= j < staged.len() && #[trigger] include_ships(staged[j], name)
}

/// A resolved library (soname, path) ships as `name`.
pub open spec fn lib_ships(lib: (Seq<char>, Seq<char>), name: Seq<char>) -> bool {
    lib.0 == name || file_name(lib.1) == Some(name)
}

/// A staged extra file ships as `name`: its path holds `.so` and its file name is `name`.
pub open spec fn include_ships(path: Seq<char>, name: Seq<char>) -> bool {
    contains_seq(path, ".so"@) && file_name(path) == Some(name)
}

/// The predicate "ships in the image".
pub open spec fn shipped(r: ResolutionView, staged: Seq<Seq<char>>) -> spec_fn(Seq<char>) -> bool {
    |n: Seq<char>| ships(r, staged, n)
}

/// The predicate "does not ship in the image".
pub open spec fn not_shipped(r: ResolutionView, staged: Seq<Seq<char>>) -> spec_fn(Seq<char>) -> bool {
    |n: Seq<char>| !ships(r, staged, n)
}

/// The denied libraries that ship, in `deny` order.
pub open spec fn denied_present(r: ResolutionView, staged: Seq<Seq<char>>, deny: Seq<Seq<char>>) -> Seq<Seq<char>> {
    deny.filter(shipped(r, staged))
}

/// The required libraries that do not ship, in `require` order.
pub open spec fn required_missing(r: ResolutionView, staged: Seq<Seq<char>>, require: Seq<Seq<char>>) -> Seq<Seq<char>> {
    require.filter(not_shipped(r, staged))
}

/// Does `name` ship in the image?
pub fn ships_in_image(r: &Resolution, staged: &Vec<String>, name: &str) -> (b: bool)
    ensures
        b == ships(r@, views(staged@), name@),
{
    let ghost rv = r@;
    let libs = &r.libs;
    let mut i: usize = 0;
    while i < libs.len()
        invariant
            i <= libs.len(),
            rv == r@,
            rv.libs == crate::resolver::lib_views(libs@),
            forall|k: int| 0 <= k < i ==> !#[trigger] lib_ships(rv.libs[k], name@),
        decreases libs.len() - i,
    {
        assert(rv.libs[i as int] == (libs@[i as int].soname@, libs@[i as int].path@));
        if str_eq(libs[i].soname.as_str(), name) {
            assert(lib_ships(rv.libs[i as int], name@));
            return true;
        }
        match file_name_of(libs[i].path.as_str()) {
            Some(f) => {
                if str_eq(f.as_str(), name) {
                    assert(lib_ships(rv.libs[i as int], name@));
                    return true;
                }
            },
            None => {},
        }
        i += 1;
    }
    match &r.interpreter {
        Some(it) => {
            match file_name_of(it.image_path.as_str()) {
                Some(f) => {
                    if str_eq(f.as_str(), name) {
                        return true;
                    }
                },
                None => {},
            }
        },
        None => {},
    }
    let ghost sv = views(staged@);
    let mut j: usize = 0;
    while j < staged.len()
        invariant
            j <= staged.len(),
            sv == views(staged@),
            forall|k: int| 0 <= k < j ==> !#[trigger] include_ships(sv[k], name@),
        decreases staged.len() - j,
    {
        if contains(staged[j].as_str(), ".so") {
            match file_name_of(staged[j].as_str()) {
                Some(f) => {
                    if str_eq(f.as_str(), name) {
                        assert(include_ships(sv[j as int], name@));
                        return true;
                    }
                },
                None => {},
            }
        }
        j += 1;
    }
    false
}

/// The entries of `list` for which `ships_in_image` is `want`.
fn filter_shipping(r: &Resolution, staged: &Vec<String>, list: &Vec<String>, want: bool) -> (out: Vec<String>)
    ensures
        views(out@) == views(list@).filter(
            if want {
                shipped(r@, views(staged@))
            } else {
                not_shipped(r@, views(staged@))
            },
        ),
{
    let ghost pred = if want {
        shipped(r@, views(staged@))
    } else {
        not_shipped(r@, views(staged@))
    };
    let ghost lv = views(list@);
    let mut out: Vec<String> = Vec::new();
    let mut i: usize = 0;
    assert(lv.take(0).filter(pred) =~= Seq::<Seq<char>>::empty()) by {
        reveal_with_fuel(Seq::filter, 1);
    }
    while i < list.len()
        invariant
            i <= list.len(),
            lv == views(list@),
            pred == (if want {
                shipped(r@, views(staged@))
            } else {
                not_shipped(r@, views(staged@))
            }),
            views(out@) == lv.take(i as int).filter(pred),
        decreases list.len() - i,
    {
        let s = ships_in_image(r, staged, list[i].as_str());
        proof {
            assert(lv.take(i + 1) =~= lv.take(i as int).push(lv[i as int]));
            lv.take(i as int).lemma_filter_push(lv[i as int], pred);
        }
        if s == want {
            let ghost before = out@;
            out.push(list[i].clone());
            proof {
                crate::text::lemma_views_push(before, list@[i as int]);
            }
        }
        i += 1;
    }
    assert(lv.take(list.len() as int) =~= lv);
    out
}

/// A failed library policy: the denied libraries present and the required ones
/// missing.
#[derive(Debug, Clone, PartialEq, Eq)]
pub struct LibPolicyError {
    pub denied: Vec<String>,
    pub missing: Vec<String>,
}

/// The message of a failed library policy.
pub open spec fn lib_policy_message(denied: Seq<Seq<char>>, missing: Seq<Seq<char>>) -> Seq<char> {
    let d = if denied.len() > 0 {
        seq!["denied library present: "@ + join(denied, ", "@)]
    } else {
        Seq::empty()
    };
    let m = if missing.len() > 0 {
        seq!["required library missing: "@ + join(missing, ", "@)]
    } else {
        Seq::empty()
    };
    "library policy failed: "@ + join(d + m, " and "@)
}

impl LibPolicyError {
    /// The error message: each failed half, joined by " and ".
    pub fn message(&self) -> (s: String)
        ensures
            s@ == lib_policy_message(views(self.denied@), views(self.missing@)),
    {
        let mut parts: Vec<String> = Vec::new();
        if self.denied.len() > 0 {
            parts.push(concat("denied library present: ", join_strings(&self.denied, ", ").as_str()));
        }
        if self.missing.len() > 0 {
            parts.push(concat("required library missing: ", join_strings(&self.missing, ", ").as_str()));
        }
        let ghost d = if views(self.denied@).len() > 0 {
            seq!["denied library present: "@ + join(views(self.denied@), ", "@)]
        } else {
            Seq::empty()
        };
        let ghost m = if views(self.missing@).len() > 0 {
            seq!["required library missing: "@ + join(views(self.missing@), ", "@)]
        } else {
            Seq::empty()
        };
        assert(views(parts@) =~= d + m);
        concat("library policy failed: ", join_strings(&parts, " and ").as_str())
    }
}

/// Enforce the library allow/deny policy (`--require` / `--deny`) against everything
/// that ships as a shared object: the resolved libraries, the loader, and the staged
/// includes whose path holds `.so`. Matches by soname or by file name. A denied
/// library present, or a required one absent, fails the pack.
pub fn check_lib_policy(
    resolution: &Resolution,
    staged_includes: &Vec<String>,
    require: &Vec<String>,
    deny: &Vec<String>,
) -> (r: Result<(), LibPolicyError>)
    ensures
        r is Ok <==> (denied_present(resolution@, views(staged_includes@), views(deny@)).len() == 0
            && required_missing(resolution@, views(staged_includes@), views(require@)).len() == 0),
        r matches Err(e) ==> views(e.denied@) == denied_present(
            resolution@,
            views(staged_includes@),
            views(deny@),
        ) && views(e.missing@) == required_missing(resolution@, views(staged_includes@), views(require@)),
{
    if require.len() == 0 && deny.len() == 0 {
        assert(views(deny@).filter(shipped(resolution@, views(staged_includes@))) =~= Seq::empty()) by {
            reveal_with_fuel(Seq::filter, 1);
        }
        assert(views(require@).filter(not_shipped(resolution@, views(staged_includes@))) =~= Seq::empty()) by {
            reveal_with_fuel(Seq::filter, 1);
        }
        return Ok(());
    }
    let denied = filter_shipping(resolution, staged_includes, deny, true);
    let missing = filter_shipping(resolution, staged_includes, require, false);
    if denied.len() == 0 && missing.len() == 0 {
        Ok(())
    } else {
        Err(LibPolicyError { denied, missing })
    }
}

// ---------------------------------------------------------------------------
// Locales
// ---------------------------------------------------------------------------

/// The locale an environment entry selects: the value of `LANG` or of an `LC_*`
/// variable, when non-empty. glibc reads `LC_ALL`, each per-category `LC_*`, then
/// `LANG`, so any of them selects a locale.
pub open spec fn selector_of(e: Seq<char>) -> Option<Seq<char>> {
    match split_once(e, '=') {
        Some(kv) => if (kv.0 == "LANG"@ || is_prefix("LC_"@, kv.0)) && kv.1.len() > 0 {
            Some(kv.1)
        } else {
            None
        },
        None => None,
    }
}

/// The locales an environment selects, in order.
pub open spec fn spec_selectors(env: Seq<Seq<char>>) -> Seq<Seq<char>>
    decreases env.len(),
{
    if env.len() == 0 {
        Seq::empty()
    } else {
        let p = spec_selectors(env.drop_last());
        match selector_of(env.last()) {
            Some(v) => p.push(v),
            None => p,
        }
    }
}

/// The locales the environment entries select.
pub fn locale_selectors(env: &Vec<String>) -> (r: Vec<String>)
    ensures
        views(r@) == spec_selectors(views(env@)),
{
    let ghost ev = views(env@);
    let mut out: Vec<String> = Vec::new();
    let mut i: usize = 0;
    assert(ev.take(0) =~= Seq::<Seq<char>>::empty());
    while i < env.len()
        invariant
            i <= env.len(),
            ev == views(env@),
            views(out@) == spec_selectors(ev.take(i as int)),
        decreases env.len() - i,
    {
        proof {
            assert(ev.take(i + 1).drop_last() =~= ev.take(i as int));
            assert(ev.take(i + 1).last() == env@[i as int]@);
        }
        match split_once_char(env[i].as_str(), '=') {
            Some((key, value)) => {
                if (str_eq(key.as_str(), "LANG") || starts_with(key.as_str(), "LC_")) && !value.as_str().is_empty() {
                    let ghost before = out@;
                    proof {
                        crate::text::lemma_views_push(before, value);
                    }
                    out.push(value);
                } else {
                    proof {
                        if value@.len() == 0 {
                            assert(value@.len() == 0);
                        }
                    }
                }
            },
            None => {},
        }
        i += 1;
    }
    assert(ev.take(env.len() as int) =~= ev);
    out
}

/// An ASCII letter or digit.
pub open spec fn is_ascii_alnum(c: char) -> bool {
    ('a' <= c <= 'z') || ('A' <= c <= 'Z') || ('0' <= c <= '9')
}

/// The predicate "ASCII letter or digit".
pub open spec fn alnum() -> spec_fn(char) -> bool {
    |c: char| is_ascii_alnum(c)
}

/// A locale name as glibc identifies it: the language lower-cased, the codeset
/// with its punctuation dropped and lower-cased, and the modifier lower-cased.
pub open spec fn spec_normalize_locale(name: Seq<char>) -> Seq<char> {
    let bm = match split_once(name, '@') {
        Some(p) => p,
        None => (name, Seq::<char>::empty()),
    };
    let lc = match split_once(bm.0, '.') {
        Some(p) => p,
        None => (bm.0, Seq::<char>::empty()),
    };
    ascii_lowercase(lc.0) + "."@ + ascii_lowercase(lc.1.filter(alnum())) + "@"@ + ascii_lowercase(bm.1)
}

/// The ASCII letters and digits of `s`, in order.
fn alnum_only(s: &str) -> (r: String)
    ensures
        r@ == s@.filter(alnum()),
{
    let v = crate::text::chars_of(s);
    let mut r = String::new();
    let mut i: usize = 0;
    assert(v@.take(0).filter(alnum()) =~= Seq::<char>::empty()) by {
        reveal_with_fuel(Seq::filter, 1);
    }
    while i < v.len()
        invariant
            i <= v.len(),
            v@ == s@,
            r@ == v@.take(i as int).filter(alnum()),
        decreases v.len() - i,
    {
        let c = v[i];
        proof {
            assert(v@.take(i + 1) =~= v@.take(i as int).push(c));
            v@.take(i as int).lemma_filter_push(c, alnum());
        }
        if ('a' <= c && c <= 'z') || ('A' <= c && c <= 'Z') || ('0' <= c && c <= '9') {
            crate::text::push_char(&mut r, c);
        }
        i += 1;
    }
    assert(v@.take(v.len() as int) =~= v@);
    r
}

/// `LANG=en_US.utf8` and `--locale en_US.UTF-8` name one locale to glibc. Names are
/// compared with the case folded and the codeset punctuation dropped, keeping any
/// modifier.
pub fn normalize_locale(name: &str) -> (r: String)
    ensures
        r@ == spec_normalize_locale(name@),
{
    let (base, modifier) = match split_once_char(name, '@') {
        Some(p) => p,
        None => (copy_str(name), String::new()),
    };
    let (lang, codeset) = match split_once_char(base.as_str(), '.') {
        Some(p) => p,
        None => (copy_str(base.as_str()), String::new()),
    };
    let code = alnum_only(codeset.as_str());
    let mut r = to_ascii_lowercase(lang.as_str());
    r.append(".");
    r.append(to_ascii_lowercase(code.as_str()).as_str());
    r.append("@");
    r.append(to_ascii_lowercase(modifier.as_str()).as_str());
    r
}

/// A locale glibc resolves with no data on disk (after normalizing).
pub open spec fn is_builtin_locale(n: Seq<char>) -> bool {
    n == spec_normalize_locale("C"@) || n == spec_normalize_locale("POSIX"@) || n == spec_normalize_locale(
        "C.UTF-8"@,
    )
}

/// A selector names a locale that was neither staged nor built in.
pub open spec fn unstaged(locales: Seq<Seq<char>>, sel: Seq<char>) -> bool {
    let n = spec_normalize_locale(sel);
    !(exists|i: int| 0 <= i < locales.len() && #[trigger] spec_normalize_locale(locales[i]) == n)
        && !is_builtin_locale(n)
}

/// The predicate "selects an unstaged locale".
pub open spec fn unstaged_pred(locales: Seq<Seq<char>>) -> spec_fn(Seq<char>) -> bool {
    |s: Seq<char>| unstaged(locales, s)
}

/// The locale warning: a staged locale that nothing selects, or a selector naming a
/// locale the pack did not stage.
pub open spec fn spec_locale_warning(locales: Seq<Seq<char>>, env: Seq<Seq<char>>) -> Option<Seq<char>> {
    if locales.len() == 0 {
        None
    } else if spec_selectors(env).len() == 0 {
        Some(
            "staged "@ + decimal(locales.len()) + " locale(s), but the image sets no LANG, LC_ALL or LC_* entry, so the binary runs in the C locale. Add --env LANG="@
                + locales[0],
        )
    } else {
        let m = spec_selectors(env).filter(unstaged_pred(locales));
        if m.len() == 0 {
            None
        } else {
            Some(
                "the image selects "@ + join(m, ", "@)
                    + ", which the pack did not stage, so glibc falls back to the C locale there. Staged: "@
                    + join(locales, ", "@),
            )
        }
    }
}

/// Does `sel` name a locale that was neither staged nor built in?
fn selects_unstaged(staged_norm: &Vec<String>, builtin: &Vec<String>, sel: &str, Ghost(locales): Ghost<Seq<Seq<char>>>) -> (b: bool)
    requires
        views(staged_norm@) == Seq::new(locales.len(), |i: int| spec_normalize_locale(locales[i])),
        views(builtin@) == seq![
            spec_normalize_locale("C"@),
            spec_normalize_locale("POSIX"@),
            spec_normalize_locale("C.UTF-8"@),
        ],
    ensures
        b == unstaged(locales, sel@),
{
    let n = normalize_locale(sel);
    let in_staged = crate::resolver::contains_string(staged_norm, n.as_str());
    let in_builtin = crate::resolver::contains_string(builtin, n.as_str());
    proof {
        let sv = views(staged_norm@);
        if in_staged {
            let i = choose|i: int| 0 <= i < sv.len() && sv[i] == n@;
            assert(spec_normalize_locale(locales[i]) == n@);
        }
        let bv = views(builtin@);
        if is_builtin_locale(n@) {
            if n@ == spec_normalize_locale("C"@) {
                assert(bv[0] == n@);
            } else if n@ == spec_normalize_locale("POSIX"@) {
                assert(bv[1] == n@);
            } else {
                assert(bv[2] == n@);
            }
        }
        if exists|i: int| 0 <= i < locales.len() && #[trigger] spec_normalize_locale(locales[i]) == n@ {
            let i = choose|i: int| 0 <= i < locales.len() && #[trigger] spec_normalize_locale(locales[i]) == n@;
            assert(sv[i] == n@);
        }
    }
    !in_staged && !in_builtin
}

/// The warning for a locale selection that does not match what was staged, when
/// there is one. A staged locale that nothing selects is dead weight, and a
/// selector naming a locale the pack did not stage makes glibc fall back to the C
/// locale silently.
pub fn locale_env_warning(locales: &Vec<String>, env: &Vec<String>) -> (r: Option<String>)
    ensures
        match r {
            Some(s) => spec_locale_warning(views(locales@), views(env@)) == Some(s@),
            None => spec_locale_warning(views(locales@), views(env@)) is None,
        },
{
    if locales.len() == 0 {
        return None;
    }
    let selectors = locale_selectors(env);
    if selectors.len() == 0 {
        let mut s = copy_str("staged ");
        s.append(decimal_string(locales.len() as u64).as_str());
        s.append(
            " locale(s), but the image sets no LANG, LC_ALL or LC_* entry, so the binary runs in the C locale. Add --env LANG=",
        );
        s.append(locales[0].as_str());
        return Some(s);
    }
    let ghost lv = views(locales@);
    let mut staged_norm: Vec<String> = Vec::new();
    let mut i: usize = 0;
    while i < locales.len()
        invariant
            i <= locales.len(),
            lv == views(locales@),
            views(staged_norm@) == Seq::new(i as nat, |k: int| spec_normalize_locale(lv[k])),
        decreases locales.len() - i,
    {
        let n = normalize_locale(locales[i].as_str());
        let ghost before = staged_norm@;
        staged_norm.push(n);
        proof {
            crate::text::lemma_views_push(before, n);
            assert(views(staged_norm@) =~= Seq::new((i + 1) as nat, |k: int| spec_normalize_locale(lv[k])));
        }
        i += 1;
    }
    let mut builtin: Vec<String> = Vec::new();
    builtin.push(normalize_locale("C"));
    builtin.push(normalize_locale("POSIX"));
    builtin.push(normalize_locale("C.UTF-8"));
    assert(views(builtin@) =~= seq![
        spec_normalize_locale("C"@),
        spec_normalize_locale("POSIX"@),
        spec_normalize_locale("C.UTF-8"@),
    ]);
    let ghost sel = views(selectors@);
    let ghost pred = unstaged_pred(lv);
    let mut missing: Vec<String> = Vec::new();
    let mut j: usize = 0;
    assert(sel.take(0).filter(pred) =~= Seq::<Seq<char>>::empty()) by {
        reveal_with_fuel(Seq::filter, 1);
    }
    while j < selectors.len()
        invariant
            j <= selectors.len(),
            sel == views(selectors@),
            lv == views(locales@),
            pred == unstaged_pred(lv),
            views(staged_norm@) == Seq::new(lv.len(), |k: int| spec_normalize_locale(lv[k])),
            views(builtin@) == seq![
                spec_normalize_locale("C"@),
                spec_normalize_locale("POSIX"@),
                spec_normalize_locale("C.UTF-8"@),
            ],
            views(missing@) == sel.take(j as int).filter(pred),
        decreases selectors.len() - j,
    {
        let u = selects_unstaged(&staged_norm, &builtin, selectors[j].as_str(), Ghost(lv));
        proof {
            assert(sel.take(j + 1) =~= sel.take(j as int).push(sel[j as int]));
            sel.take(j as int).lemma_filter_push(sel[j as int], pred);
        }
        if u {
            let ghost before = missing@;
            missing.push(selectors[j].clone());
            proof {
                crate::text::lemma_views_push(before, selectors@[j as int]);
            }
        }
        j += 1;
    }
    assert(sel.take(selectors.len() as int) =~= sel);
    if missing.len() == 0 {
        None
    } else {
        let mut s = copy_str("the image selects ");
        s.append(join_strings(&missing, ", ").as_str());
        s.append(", which the pack did not stage, so glibc falls back to the C locale there. Staged: ");
        s.append(join_strings(locales, ", ").as_str());
        Some(s)
    }
}

// ---------------------------------------------------------------------------
// The image configuration and tag
// ---------------------------------------------------------------------------

/// The entrypoint wrapped so tini is pid 1: `[tini, --, <original entrypoint...>]`.
pub fn init_entrypoint(tini: &str, base: Vec<String>) -> (r: Vec<String>)
    ensures
        views(r@) == seq![tini@, "--"@] + views(base@),
{
    let mut r: Vec<String> = Vec::new();
    r.push(copy_str(tini));
    r.push(copy_str("--"));
    let mut i: usize = 0;
    while i < base.len()
        invariant
            i <= base.len(),
            r@.len() == i + 2,
            r@[0]@ == tini@,
            r@[1]@ == "--"@,
            forall|k: int| 0 <= k < i ==> #[trigger] r@[k + 2]@ == base@[k]@,
        decreases base.len() - i,
    {
        r.push(base[i].clone());
        i += 1;
    }
    assert forall|j: int| 2 <= j < r@.len() implies r@[j]@ == base@[j - 2]@ by {
        assert(r@[(j - 2) + 2]@ == base@[j - 2]@);
    }
    assert(views(r@) =~= seq![tini@, "--"@] + views(base@));
    r
}

/// The effective image configuration: when tini was staged, the entrypoint (the
/// configured one, or else the packed binary) is wrapped so tini runs as pid 1.
pub open spec fn spec_effective_config(cfg: ImageConfigView, entrypoint: Seq<char>, tini: Option<Seq<char>>) -> ImageConfigView {
    match tini {
        Some(t) => ImageConfigView {
            entrypoint: seq![t, "--"@] + if cfg.entrypoint.len() == 0 {
                seq![entrypoint]
            } else {
                cfg.entrypoint
            },
            ..cfg
        },
        None => cfg,
    }
}

/// The image configuration to build with, given where tini landed (if it was staged).
pub fn effective_image_config(cfg: &ImageConfig, entrypoint: &str, tini: &Option<String>) -> (r: ImageConfig)
    ensures
        r@ == spec_effective_config(cfg@, entrypoint@, crate::image::opt_view(*tini)),
{
    let mut out = cfg.duplicate();
    match tini {
        Some(t) => {
            let base = if cfg.entrypoint.len() == 0 {
                let mut b: Vec<String> = Vec::new();
                b.push(copy_str(entrypoint));
                assert(views(b@) =~= seq![entrypoint@]);
                b
            } else {
                clone_list(&cfg.entrypoint)
            };
            out.entrypoint = init_entrypoint(t.as_str(), base);
        },
        None => {},
    }
    out
}

/// The warning when the configured user is root.
pub open spec fn spec_root_user_warning(user: Option<Seq<char>>) -> Option<Seq<char>> {
    match user {
        Some(u) => if spec_is_root_user(u) {
            Some("--user "@ + u + " runs the image as root; the default non-root user is recommended"@)
        } else {
            None
        },
        None => None,
    }
}

/// The warning for an image that runs as root, when it does.
pub fn root_user_warning(cfg: &ImageConfig) -> (r: Option<String>)
    ensures
        match r {
            Some(s) => spec_root_user_warning(cfg@.user) == Some(s@),
            None => spec_root_user_warning(cfg@.user) is None,
        },
{
    match &cfg.user {
        Some(u) => {
            if is_root_user(u.as_str()) {
                let mut s = concat("--user ", u.as_str());
                s.append(" runs the image as root; the default non-root user is recommended");
                Some(s)
            } else {
                None
            }
        },
        None => None,
    }
}

/// What `str::to_lowercase` returns for `s`: its Unicode lower-case mapping.
pub uninterp spec fn lowercase_of(s: Seq<char>) -> Seq<char>;

/// The Unicode lower-case form of `s`.
///
/// Trusted: calls `str::to_lowercase`, which std documents as the lowercase
/// equivalent of the string slice under Unicode's `Lowercase` property. The
/// contract names the result and claims only that it depends on `s` alone.
#[verifier::external_body]
fn to_lowercase(s: &str) -> (r: String)
    ensures
        r@ == lowercase_of(s@),
{
    s.to_lowercase()
}

/// The image tag for a binary: its file name (or `image`), lower-cased, namespaced.
pub open spec fn spec_image_tag(binary: Seq<char>) -> Seq<char> {
    let name = match file_name(binary) {
        Some(n) => n,
        None => "image"@,
    };
    "scratchsmith/"@ + lowercase_of(name) + ":packed"@
}

/// A valid, lowercase Docker tag derived from the binary name.
pub fn image_tag(binary: &str) -> (r: String)
    ensures
        r@ == spec_image_tag(binary@),
{
    let name = match file_name_of(binary) {
        Some(n) => n,
        None => copy_str("image"),
    };
    let mut r = concat("scratchsmith/", to_lowercase(name.as_str()).as_str());
    r.append(":packed");
    r
}

// ---------------------------------------------------------------------------
// The size budget
// ---------------------------------------------------------------------------

/// The refusal of a staged rootfs over the `--max-size` budget, when it is over.
pub open spec fn spec_max_size_refusal(total: u64, max: Option<u64>) -> Option<Seq<char>> {
    match max {
        Some(m) => if total > m {
            Some(
                "packed image is "@ + crate::report::spec_human_size(total as nat)
                    + ", over the --max-size limit of "@ + crate::report::spec_human_size(m as nat),
            )
        } else {
            None
        },
        None => None,
    }
}

/// Enforce `--max-size` against the fully staged rootfs, whose regular files sum
/// to `total` bytes: over the limit is refused, naming both sizes.
pub fn max_size_refusal(total: u64, max: Option<u64>) -> (r: Option<String>)
    ensures
        match r {
            Some(s) => spec_max_size_refusal(total, max) == Some(s@),
            None => spec_max_size_refusal(total, max) is None,
        },
{
    match max {
        Some(m) => {
            if total > m {
                let mut s = concat("packed image is ", crate::report::human_size(total).as_str());
                s.append(", over the --max-size limit of ");
                s.append(crate::report::human_size(m).as_str());
                Some(s)
            } else {
                None
            }
        },
        None => None,
    }
}


/// The `localedef` command line that compiles locale `name` from the host's
/// locale sources into the directory `target`: the input is the language with any
/// `@modifier`, the charmap is the codeset when the name gives one.
pub open spec fn spec_localedef_args(name: Seq<char>, target: Seq<char>) -> Seq<Seq<char>> {
    let bm = match split_once(name, '@') {
        Some(p) => p,
        None => (name, Seq::<char>::empty()),
    };
    let lc = match split_once(bm.0, '.') {
        Some(p) => p,
        None => (bm.0, Seq::<char>::empty()),
    };
    let input = if bm.1.len() == 0 {
        lc.0
    } else {
        lc.0 + "@"@ + bm.1
    };
    seq!["--no-archive"@, "-i"@, input] + (if lc.1.len() == 0 {
        Seq::<Seq<char>>::empty()
    } else {
        seq!["-f"@, lc.1]
    }) + seq![target]
}

/// `localedef --no-archive -i <input> [-f <charmap>] <target>` for locale `name`.
pub fn localedef_args(name: &str, target: &str) -> (r: Vec<String>)
    ensures
        views(r@) == spec_localedef_args(name@, target@),
{
    let (base, modifier) = match split_once_char(name, '@') {
        Some(p) => p,
        None => (copy_str(name), String::new()),
    };
    let (lang, codeset) = match split_once_char(base.as_str(), '.') {
        Some(p) => p,
        None => (copy_str(base.as_str()), String::new()),
    };
    let input = if modifier.as_str().is_empty() {
        lang
    } else {
        let mut s = concat(lang.as_str(), "@");
        s.append(modifier.as_str());
        s
    };
    let mut r: Vec<String> = Vec::new();
    r.push(copy_str("--no-archive"));
    r.push(copy_str("-i"));
    r.push(input);
    if !codeset.as_str().is_empty() {
        r.push(copy_str("-f"));
        r.push(codeset);
    }
    r.push(copy_str(target));
    proof {
        let e = spec_localedef_args(name@, target@);
        assert(views(r@) =~= e);
    }
    r
}

} // verus!
