//! The pack configuration of `scratchsmith.toml`: its settings, the named profiles
//! that layer over them, and how a profile is selected. Reading and parsing the
//! file is the caller's job; it hands over the values read.

use vstd::prelude::*;
use crate::image::{clone_list, clone_opt_string, opt_view};
use crate::image::Runtime;
use crate::stager::NssModule;
use crate::supplychain::{SbomFormat, Severity};
use crate::text::{concat, copy_str, join, join_strings, sorted_set, sorted_strict, str_eq, views};

verus! {

/// The settings a named profile carries; it layers over the base configuration.
#[derive(Debug)]
pub struct Profile {
    pub binary: Option<String>,
    pub entrypoint: Option<String>,
    pub cmd: Vec<String>,
    pub env: Vec<String>,
    pub workdir: Option<String>,
    pub user: Option<String>,
    pub strip: bool,
    pub upx: bool,
    pub smoke: bool,
    pub sbom: bool,
    pub sbom_file: Option<String>,
    pub sbom_format: Option<SbomFormat>,
    pub ca_certs: bool,
    pub tz: bool,
    pub init: bool,
    pub includes: Vec<String>,
    pub sign: bool,
    pub push: Option<String>,
    pub labels: Vec<String>,
    pub healthcheck: Vec<String>,
    pub add_files: Vec<String>,
    pub locales: Vec<String>,
    pub nss: Vec<NssModule>,
    pub deny: Vec<String>,
    pub require: Vec<String>,
    pub max_size: Option<String>,
    pub scan: bool,
    pub scan_fail_on: Option<Severity>,
    pub runtime: Option<Runtime>,
    /// The names of the profiles nested in this one: parsed, then dropped.
    pub nested: Vec<String>,
}

/// A pack configuration. Every setting is optional so a configuration can set just
/// what it needs; a selected profile layers over the base, and the command line
/// overrides whatever it also specifies.
#[derive(Debug)]
pub struct Config {
    /// The binary to pack, if not given on the command line.
    pub binary: Option<String>,
    /// Image entrypoint override.
    pub entrypoint: Option<String>,
    /// Default arguments (`Cmd`).
    pub cmd: Vec<String>,
    /// Environment entries `KEY=VALUE`.
    pub env: Vec<String>,
    /// Working directory.
    pub workdir: Option<String>,
    /// Image user `UID[:GID]`.
    pub user: Option<String>,
    /// Strip symbols during pack.
    pub strip: bool,
    /// Compress the packed binary with UPX.
    pub upx: bool,
    /// Smoke-run the image after building.
    pub smoke: bool,
    /// Generate an SBOM of the packed rootfs.
    pub sbom: bool,
    /// SBOM output path (defaults to `sbom.json` when unset).
    pub sbom_file: Option<String>,
    /// SBOM format.
    pub sbom_format: Option<SbomFormat>,
    /// Add the TLS CA bundle.
    pub ca_certs: bool,
    /// Add the resolved local timezone.
    pub tz: bool,
    /// Add a minimal init (`tini`) as pid 1.
    pub init: bool,
    /// Force-stage extra libraries (sonames or paths).
    pub includes: Vec<String>,
    /// Sign the pushed image with cosign (needs a push target).
    pub sign: bool,
    /// Push target registry reference.
    pub push: Option<String>,
    /// OCI image labels `KEY=VALUE`.
    pub labels: Vec<String>,
    /// HEALTHCHECK command in exec form.
    pub healthcheck: Vec<String>,
    /// Host files to copy in, each `SRC[:DST]`.
    pub add_files: Vec<String>,
    /// Compiled glibc locales to stage.
    pub locales: Vec<String>,
    /// Name-service modules to stage.
    pub nss: Vec<NssModule>,
    /// Libraries that must not ship.
    pub deny: Vec<String>,
    /// Libraries that must ship.
    pub require: Vec<String>,
    /// The size budget of the staged rootfs, e.g. `50MB`.
    pub max_size: Option<String>,
    /// Vulnerability-scan the packed rootfs.
    pub scan: bool,
    /// Fail on a finding at or above this severity (implies `scan`).
    pub scan_fail_on: Option<Severity>,
    /// Container engine for loading and smoke-running.
    pub runtime: Option<Runtime>,
    /// Named profiles — `[profile.<name>]` sections that layer over the base.
    pub profile: Vec<(String, Profile)>,
}

impl Default for Config {
    fn default() -> (c: Self)
        ensures
            c.binary is None && c.entrypoint is None && c.workdir is None && c.user is None,
            c.cmd@.len() == 0 && c.env@.len() == 0 && c.includes@.len() == 0 && c.profile@.len() == 0,
            !c.strip && !c.upx && !c.smoke && !c.sbom && !c.ca_certs && !c.tz && !c.init && !c.sign,
            c.sbom_file is None && c.sbom_format is None && c.push is None,
            c.labels@.len() == 0 && c.healthcheck@.len() == 0 && c.add_files@.len() == 0 && c.locales@.len() == 0,
            c.nss@.len() == 0 && c.deny@.len() == 0 && c.require@.len() == 0,
            c.max_size is None && !c.scan && c.scan_fail_on is None && c.runtime is None,
            c.well_formed(),
    {
        Config {
            binary: None,
            entrypoint: None,
            cmd: Vec::new(),
            env: Vec::new(),
            workdir: None,
            user: None,
            strip: false,
            upx: false,
            smoke: false,
            sbom: false,
            sbom_file: None,
            sbom_format: None,
            ca_certs: false,
            tz: false,
            init: false,
            includes: Vec::new(),
            sign: false,
            push: None,
            labels: Vec::new(),
            healthcheck: Vec::new(),
            add_files: Vec::new(),
            locales: Vec::new(),
            nss: Vec::new(),
            deny: Vec::new(),
            require: Vec::new(),
            max_size: None,
            scan: false,
            scan_fail_on: None,
            runtime: None,
            profile: Vec::new(),
        }
    }
}

/// The value the overriding side sets, else the base one.
pub open spec fn or_base<T>(over: Option<T>, base: Option<T>) -> Option<T> {
    match over {
        Some(v) => Some(v),
        None => base,
    }
}

/// A non-empty overriding list replaces the base one.
pub open spec fn list_or_base(over: Seq<Seq<char>>, base: Seq<Seq<char>>) -> Seq<Seq<char>> {
    if over.len() == 0 {
        base
    } else {
        over
    }
}

/// `r` is `base` with `over` layered on: options prefer `over`, non-empty lists
/// replace, booleans are or-ed (a profile can add to the base but cannot unset a
/// base boolean), and the base's profiles are kept.
pub open spec fn layered(r: Config, base: Config, over: Profile) -> bool {
    &&& opt_view(r.binary) == or_base(opt_view(over.binary), opt_view(base.binary))
    &&& opt_view(r.entrypoint) == or_base(opt_view(over.entrypoint), opt_view(base.entrypoint))
    &&& views(r.cmd@) == list_or_base(views(over.cmd@), views(base.cmd@))
    &&& views(r.env@) == list_or_base(views(over.env@), views(base.env@))
    &&& opt_view(r.workdir) == or_base(opt_view(over.workdir), opt_view(base.workdir))
    &&& opt_view(r.user) == or_base(opt_view(over.user), opt_view(base.user))
    &&& r.strip == (base.strip || over.strip)
    &&& r.upx == (base.upx || over.upx)
    &&& r.smoke == (base.smoke || over.smoke)
    &&& r.sbom == (base.sbom || over.sbom)
    &&& opt_view(r.sbom_file) == or_base(opt_view(over.sbom_file), opt_view(base.sbom_file))
    &&& r.sbom_format == or_base(over.sbom_format, base.sbom_format)
    &&& r.ca_certs == (base.ca_certs || over.ca_certs)
    &&& r.tz == (base.tz || over.tz)
    &&& r.init == (base.init || over.init)
    &&& views(r.includes@) == list_or_base(views(over.includes@), views(base.includes@))
    &&& r.sign == (base.sign || over.sign)
    &&& opt_view(r.push) == or_base(opt_view(over.push), opt_view(base.push))
    &&& views(r.labels@) == list_or_base(views(over.labels@), views(base.labels@))
    &&& views(r.healthcheck@) == list_or_base(views(over.healthcheck@), views(base.healthcheck@))
    &&& views(r.add_files@) == list_or_base(views(over.add_files@), views(base.add_files@))
    &&& views(r.locales@) == list_or_base(views(over.locales@), views(base.locales@))
    &&& r.nss@ == (if over.nss@.len() == 0 {
        base.nss@
    } else {
        over.nss@
    })
    &&& views(r.deny@) == list_or_base(views(over.deny@), views(base.deny@))
    &&& views(r.require@) == list_or_base(views(over.require@), views(base.require@))
    &&& opt_view(r.max_size) == or_base(opt_view(over.max_size), opt_view(base.max_size))
    &&& r.scan == (base.scan || over.scan)
    &&& r.scan_fail_on == or_base(over.scan_fail_on, base.scan_fail_on)
    &&& r.runtime == or_base(over.runtime, base.runtime)
    &&& r.profile == base.profile
}

/// A profile augments its base and never unsets it: a switch the base turns on
/// stays on, an option the base sets stays set, and a list the base fills stays
/// filled (the profile can only replace it with a non-empty one).
pub proof fn law_profile_never_unsets_the_base(r: Config, base: Config, over: Profile)
    requires
        layered(r, base, over),
    ensures
        base.strip ==> r.strip,
        base.upx ==> r.upx,
        base.smoke ==> r.smoke,
        base.sbom ==> r.sbom,
        base.ca_certs ==> r.ca_certs,
        base.tz ==> r.tz,
        base.init ==> r.init,
        base.sign ==> r.sign,
        base.scan ==> r.scan,
        opt_view(base.binary) is Some ==> opt_view(r.binary) is Some,
        opt_view(base.entrypoint) is Some ==> opt_view(r.entrypoint) is Some,
        opt_view(base.workdir) is Some ==> opt_view(r.workdir) is Some,
        opt_view(base.user) is Some ==> opt_view(r.user) is Some,
        opt_view(base.sbom_file) is Some ==> opt_view(r.sbom_file) is Some,
        opt_view(base.push) is Some ==> opt_view(r.push) is Some,
        opt_view(base.max_size) is Some ==> opt_view(r.max_size) is Some,
        base.sbom_format is Some ==> r.sbom_format is Some,
        base.scan_fail_on is Some ==> r.scan_fail_on is Some,
        base.runtime is Some ==> r.runtime is Some,
        views(base.cmd@).len() > 0 ==> views(r.cmd@).len() > 0,
        views(base.env@).len() > 0 ==> views(r.env@).len() > 0,
        views(base.includes@).len() > 0 ==> views(r.includes@).len() > 0,
        views(base.labels@).len() > 0 ==> views(r.labels@).len() > 0,
        views(base.healthcheck@).len() > 0 ==> views(r.healthcheck@).len() > 0,
        views(base.add_files@).len() > 0 ==> views(r.add_files@).len() > 0,
        views(base.locales@).len() > 0 ==> views(r.locales@).len() > 0,
        views(base.deny@).len() > 0 ==> views(r.deny@).len() > 0,
        views(base.require@).len() > 0 ==> views(r.require@).len() > 0,
        base.nss@.len() > 0 ==> r.nss@.len() > 0,
{
}

/// The warnings for the profiles nested in `ps`, profile by profile.
pub open spec fn nested_warnings(ps: Seq<(String, Profile)>) -> Seq<Seq<char>>
    decreases ps.len(),
{
    if ps.len() == 0 {
        Seq::empty()
    } else {
        nested_warnings(ps.drop_last()) + Seq::new(
            ps.last().1.nested@.len(),
            |j: int| spec_nested_profile_warning(ps.last().0@, ps.last().1.nested@[j]@),
        )
    }
}

/// The names of the profiles.
pub open spec fn profile_names(ps: Seq<(String, Profile)>) -> Seq<Seq<char>> {
    Seq::new(ps.len(), |i: int| ps[i].0@)
}

/// An unknown profile name, with the profiles that are defined (sorted).
#[derive(Debug, Clone, PartialEq, Eq)]
pub struct UnknownProfile {
    pub name: String,
    pub defined: Vec<String>,
}

impl UnknownProfile {
    /// The error message, naming the profiles that are defined (or `(none)`).
    pub fn message(&self) -> (s: String)
        ensures
            s@ == "unknown --profile '"@ + self.name@ + "'; defined profiles: "@ + if self.defined@.len() == 0 {
                "(none)"@
            } else {
                join(views(self.defined@), ", "@)
            },
    {
        let mut s = concat("unknown --profile '", self.name.as_str());
        s.append("'; defined profiles: ");
        if self.defined.len() == 0 {
            s.append("(none)");
        } else {
            s.append(join_strings(&self.defined, ", ").as_str());
        }
        s
    }
}

/// A copy of a list of strings.
fn copy_or(over: Vec<String>, base: Vec<String>) -> (r: Vec<String>)
    ensures
        views(r@) == list_or_base(views(over@), views(base@)),
{
    if over.len() == 0 {
        base
    } else {
        over
    }
}

/// A copy of a list of NSS modules.
fn copy_modules(v: &Vec<NssModule>) -> (r: Vec<NssModule>)
    ensures
        r@ == v@,
{
    let mut r: Vec<NssModule> = Vec::new();
    let mut i: usize = 0;
    while i < v.len()
        invariant
            i <= v.len(),
            r@ == v@.take(i as int),
        decreases v.len() - i,
    {
        r.push(v[i]);
        assert(v@.take(i + 1) =~= v@.take(i as int).push(v@[i as int]));
        i += 1;
    }
    assert(v@.take(v@.len() as int) =~= v@);
    r
}

/// The message for a profile nested in profile `outer`: it is parsed and dropped,
/// so its keys never apply.
pub open spec fn spec_nested_profile_warning(outer: Seq<char>, inner: Seq<char>) -> Seq<char> {
    "a nested profile is deprecated: [profile."@ + inner + "] under [profile."@ + outer
        + "] is parsed and dropped, so its keys never apply; move it to a top-level [profile."@ + inner
        + "] table (see https://schubydoo.github.io/scratchsmith/latest/deprecations/)"@
}

/// The warning for each profile nested inside another, in order.
pub fn nested_profile_warnings(c: &Config) -> (r: Vec<String>)
    ensures
        views(r@) == nested_warnings(c.profile@),
{
    let mut r: Vec<String> = Vec::new();
    let mut i: usize = 0;
    while i < c.profile.len()
        invariant
            i <= c.profile.len(),
            views(r@) == nested_warnings(c.profile@.take(i as int)),
        decreases c.profile.len() - i,
    {
        let outer = &c.profile[i].0;
        let nested = &c.profile[i].1.nested;
        let ghost before = r@;
        let mut k: usize = 0;
        while k < nested.len()
            invariant
                k <= nested.len(),
                views(r@) == views(before) + Seq::new(
                    k as nat,
                    |j: int| spec_nested_profile_warning(outer@, nested@[j]@),
                ),
            decreases nested.len() - k,
        {
            let mut w = concat("a nested profile is deprecated: [profile.", nested[k].as_str());
            w.append("] under [profile.");
            w.append(outer.as_str());
            w.append("] is parsed and dropped, so its keys never apply; move it to a top-level [profile.");
            w.append(nested[k].as_str());
            w.append("] table (see https://schubydoo.github.io/scratchsmith/latest/deprecations/)");
            let ghost prev = r@;
            r.push(w);
            proof {
                crate::text::lemma_views_push(prev, w);
                assert(Seq::new((k + 1) as nat, |j: int| spec_nested_profile_warning(outer@, nested@[j]@))
                    =~= Seq::new(k as nat, |j: int| spec_nested_profile_warning(outer@, nested@[j]@)).push(
                    spec_nested_profile_warning(outer@, nested@[k as int]@),
                ));
            }
            k += 1;
        }
        proof {
            let ps = c.profile@.take(i + 1);
            assert(ps.drop_last() =~= c.profile@.take(i as int));
            assert(ps.last() == c.profile@[i as int]);
        }
        i += 1;
    }
    assert(c.profile@.take(c.profile@.len() as int) =~= c.profile@);
    r
}

/// The value the overriding side sets, else the base one.
fn opt_or(over: Option<String>, base: Option<String>) -> (r: Option<String>)
    ensures
        opt_view(r) == or_base(opt_view(over), opt_view(base)),
{
    match over {
        Some(v) => Some(v),
        None => base,
    }
}

impl Profile {
    /// A copy of this profile.
    pub fn duplicate(&self) -> (r: Profile)
        ensures
            opt_view(r.binary) == opt_view(self.binary),
            opt_view(r.entrypoint) == opt_view(self.entrypoint),
            views(r.cmd@) == views(self.cmd@),
            views(r.env@) == views(self.env@),
            opt_view(r.workdir) == opt_view(self.workdir),
            opt_view(r.user) == opt_view(self.user),
            r.strip == self.strip && r.upx == self.upx && r.smoke == self.smoke && r.sbom == self.sbom,
            opt_view(r.sbom_file) == opt_view(self.sbom_file),
            r.sbom_format == self.sbom_format,
            r.ca_certs == self.ca_certs && r.tz == self.tz && r.init == self.init && r.sign == self.sign,
            views(r.includes@) == views(self.includes@),
            opt_view(r.push) == opt_view(self.push),
            views(r.labels@) == views(self.labels@),
            views(r.healthcheck@) == views(self.healthcheck@),
            views(r.add_files@) == views(self.add_files@),
            views(r.locales@) == views(self.locales@),
            r.nss@ == self.nss@,
            views(r.deny@) == views(self.deny@),
            views(r.require@) == views(self.require@),
            opt_view(r.max_size) == opt_view(self.max_size),
            r.scan == self.scan && r.scan_fail_on == self.scan_fail_on && r.runtime == self.runtime,
            views(r.nested@) == views(self.nested@),
    {
        Profile {
            binary: clone_opt_string(&self.binary),
            entrypoint: clone_opt_string(&self.entrypoint),
            cmd: clone_list(&self.cmd),
            env: clone_list(&self.env),
            workdir: clone_opt_string(&self.workdir),
            user: clone_opt_string(&self.user),
            strip: self.strip,
            upx: self.upx,
            smoke: self.smoke,
            sbom: self.sbom,
            sbom_file: clone_opt_string(&self.sbom_file),
            sbom_format: self.sbom_format,
            ca_certs: self.ca_certs,
            tz: self.tz,
            init: self.init,
            includes: clone_list(&self.includes),
            sign: self.sign,
            push: clone_opt_string(&self.push),
            labels: clone_list(&self.labels),
            healthcheck: clone_list(&self.healthcheck),
            add_files: clone_list(&self.add_files),
            locales: clone_list(&self.locales),
            nss: copy_modules(&self.nss),
            deny: clone_list(&self.deny),
            require: clone_list(&self.require),
            max_size: clone_opt_string(&self.max_size),
            scan: self.scan,
            scan_fail_on: self.scan_fail_on,
            runtime: self.runtime,
            nested: clone_list(&self.nested),
        }
    }
}

impl Config {
    /// Every profile name occurs once: the profiles are the keys of one
    /// `[profile]` table.
    pub open spec fn well_formed(&self) -> bool {
        forall|i: int, j: int|
            0 <= i < j < self.profile@.len() ==> #[trigger] self.profile@[i].0@ != #[trigger] self.profile@[j].0@
    }

    /// Layer `over` on top of this configuration (`over` wins where it sets a value).
    pub fn layer(self, over: Profile) -> (r: Config)
        ensures
            layered(r, self, over),
    {
        Config {
            binary: opt_or(over.binary, self.binary),
            entrypoint: opt_or(over.entrypoint, self.entrypoint),
            cmd: copy_or(over.cmd, self.cmd),
            env: copy_or(over.env, self.env),
            workdir: opt_or(over.workdir, self.workdir),
            user: opt_or(over.user, self.user),
            strip: self.strip || over.strip,
            upx: self.upx || over.upx,
            smoke: self.smoke || over.smoke,
            sbom: self.sbom || over.sbom,
            sbom_file: opt_or(over.sbom_file, self.sbom_file),
            sbom_format: match over.sbom_format {
                Some(f) => Some(f),
                None => self.sbom_format,
            },
            ca_certs: self.ca_certs || over.ca_certs,
            tz: self.tz || over.tz,
            init: self.init || over.init,
            includes: copy_or(over.includes, self.includes),
            sign: self.sign || over.sign,
            push: opt_or(over.push, self.push),
            labels: copy_or(over.labels, self.labels),
            healthcheck: copy_or(over.healthcheck, self.healthcheck),
            add_files: copy_or(over.add_files, self.add_files),
            locales: copy_or(over.locales, self.locales),
            nss: if over.nss.len() == 0 {
                self.nss
            } else {
                over.nss
            },
            deny: copy_or(over.deny, self.deny),
            require: copy_or(over.require, self.require),
            max_size: opt_or(over.max_size, self.max_size),
            scan: self.scan || over.scan,
            scan_fail_on: match over.scan_fail_on {
                Some(t) => Some(t),
                None => self.scan_fail_on,
            },
            runtime: match over.runtime {
                Some(t) => Some(t),
                None => self.runtime,
            },
            profile: self.profile,
        }
    }

    /// Layer the named profile over this base configuration and return the result.
    /// Profiles augment: booleans or, options prefer the profile, non-empty lists
    /// replace — the same "flags win" rule the command line uses over the file. An
    /// unknown name is an error that lists the defined profiles.
    pub fn select_profile(self, name: &str) -> (r: Result<Config, UnknownProfile>)
        ensures
            match r {
                Ok(c) => exists|i: int|
                    0 <= i < self.profile@.len() && self.profile@[i].0@ == name@ && (forall|j: int|
                        0 <= j < i ==> self.profile@[j].0@ != name@) && layered(c, self, self.profile@[i].1),
                Err(e) => !profile_names(self.profile@).contains(name@) && e.name@ == name@ && sorted_strict(
                    views(e.defined@),
                    false,
                ) && views(e.defined@).to_set() == profile_names(self.profile@).to_set(),
            },
            self.well_formed() ==> (r matches Ok(c) ==> c.well_formed() && forall|i: int|
                0 <= i < self.profile@.len() && #[trigger] self.profile@[i].0@ == name@ ==> layered(
                    c,
                    self,
                    self.profile@[i].1,
                )),
    {
        let mut i: usize = 0;
        while i < self.profile.len()
            invariant
                i <= self.profile.len(),
                forall|j: int| 0 <= j < i ==> self.profile@[j].0@ != name@,
            decreases self.profile.len() - i,
        {
            if str_eq(self.profile[i].0.as_str(), name) {
                let over = self.profile[i].1.duplicate();
                let ghost base = self;
                let ghost chosen = self.profile@[i as int].1;
                let r = self.layer(over);
                proof {
                    if base.well_formed() {
                        assert forall|j: int|
                            0 <= j < base.profile@.len() && #[trigger] base.profile@[j].0@ == name@ implies j
                            == i by {
                            if j < i {
                                assert(base.profile@[j].0@ != base.profile@[i as int].0@);
                            } else if j > i {
                                assert(base.profile@[i as int].0@ != base.profile@[j].0@);
                            }
                        }
                    }
                }
                return Ok(r);
            }
            i += 1;
        }
        let mut names: Vec<String> = Vec::new();
        let mut k: usize = 0;
        while k < self.profile.len()
            invariant
                k <= self.profile.len(),
                views(names@) == profile_names(self.profile@).take(k as int),
            decreases self.profile.len() - k,
        {
            let ghost before = names@;
            names.push(self.profile[k].0.clone());
            proof {
                crate::text::lemma_views_push(before, self.profile@[k as int].0);
                assert(profile_names(self.profile@).take(k + 1) =~= profile_names(self.profile@).take(k as int).push(
                    self.profile@[k as int].0@,
                ));
            }
            k += 1;
        }
        assert(profile_names(self.profile@).take(self.profile.len() as int) =~= profile_names(self.profile@));
        proof {
            if profile_names(self.profile@).contains(name@) {
                let j = choose|j: int| 0 <= j < profile_names(self.profile@).len() && profile_names(self.profile@)[j] == name@;
                assert(self.profile@[j].0@ == name@);
            }
        }
        let defined = sorted_set(&names, false);
        Err(UnknownProfile { name: copy_str(name), defined })
    }
}

} // verus!
