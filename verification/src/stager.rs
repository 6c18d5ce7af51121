//! Plan the staging of a resolved binary into a rootfs: where the loader, the
//! libraries and the binary land, which soname symlinks are recreated, what the
//! loader cache configuration lists, and which name-service pieces glibc needs.
//! Carrying out a plan (copying files, running `ldconfig`) is the caller's job.

use vstd::prelude::*;
use crate::paths::{
    file_name, file_name_of, is_abs, join_path, parent, parent_of, path_join, path_starts_with,
    skip_slashes, strip_root, strip_root_of, trim_slashes_end,
};
use crate::resolver::{clone_opt, lib_views, Resolution, ResolvedLib};
use crate::text::{
    chars_of, concat, copy_str, is_prefix, join, join_strings, push_char, rsplit_once,
    rsplit_once_char, sorted_set, sorted_strict, starts_with, str_eq, string_of, views,
};

verus! {

/// The views of a list of string slices.
pub open spec fn strs(v: Seq<&'static str>) -> Seq<Seq<char>> {
    v.map_values(|s: &'static str| s@)
}

/// The views of a list of string pairs.
pub open spec fn pair_views(v: Seq<(String, String)>) -> Seq<(Seq<char>, Seq<char>)> {
    v.map_values(|m: (String, String)| (m.0@, m.1@))
}

// ---------------------------------------------------------------------------
// Image paths
// ---------------------------------------------------------------------------

/// The location under the staging root `root` of the absolute image path `abs`.
pub open spec fn spec_under(root: Seq<char>, abs: Seq<char>) -> Seq<char> {
    path_join(
        root,
        match strip_root(abs) {
            Some(rel) => rel,
            None => abs,
        },
    )
}

/// Map an absolute image path to its location under the staging root.
pub fn under(root: &str, abs: &str) -> (r: String)
    ensures
        r@ == spec_under(root@, abs@),
{
    match strip_root_of(abs) {
        Some(rel) => join_path(root, rel.as_str()),
        None => join_path(root, abs),
    }
}

/// `Path::strip_prefix(base)`: what follows `base` in `p`, component-wise.
pub open spec fn strip_prefix_path(p: Seq<char>, base: Seq<char>) -> Option<Seq<char>> {
    if path_starts_with(p, base) {
        Some(skip_slashes(p.skip(trim_slashes_end(base).len() as int)))
    } else {
        None
    }
}

/// A staged file shown by its image-absolute path rather than its staging path.
pub open spec fn spec_display_image_path(dest: Seq<char>, staged: Seq<char>) -> Seq<char> {
    match strip_prefix_path(staged, dest) {
        Some(rel) => seq!['/'] + rel,
        None => staged,
    }
}

/// Show a staged file by its image-absolute path, not the staging prefix.
pub fn display_image_path(dest: &str, staged: &str) -> (r: String)
    ensures
        r@ == spec_display_image_path(dest@, staged@),
{
    if !crate::paths::starts_with_path(staged, dest) {
        return copy_str(staged);
    }
    let dv = chars_of(dest);
    let sv = chars_of(staged);
    let n = crate::paths::trimmed_len(&dv);
    proof {
        assert(sv@ == staged@);
        let b = trim_slashes_end(dest@);
        if b.len() > 0 && b =~= crate::paths::slash() {
            assert(is_abs(staged@));
        }
        assert(n <= sv@.len());
    }
    let mut k = n;
    while k < sv.len() && sv[k] == '/'
        invariant
            n <= k <= sv.len(),
            sv@ == staged@,
            forall|j: int| n <= j < k ==> sv@[j] == '/',
        decreases sv.len() - k,
    {
        k += 1;
    }
    proof {
        crate::paths::lemma_skip_slashes(staged@.skip(n as int), k - n);
        assert(staged@.skip(n as int).skip(k - n) =~= sv@.subrange(k as int, sv@.len() as int));
    }
    let mut r = String::new();
    push_char(&mut r, '/');
    r.append(string_of(&sv, k, sv.len()).as_str());
    r
}

// ---------------------------------------------------------------------------
// --add-file
// ---------------------------------------------------------------------------

/// A host file to copy into the image (`--add-file SRC[:DST]`).
#[derive(Debug, Clone, PartialEq, Eq)]
pub struct AddFile {
    /// The host file to copy.
    pub src: String,
    /// Where it lands inside the image (absolute).
    pub dst: String,
}

/// Why an `--add-file` spec was refused.
#[derive(Debug, Clone, PartialEq, Eq)]
pub enum AddFileError {
    /// SRC or DST is empty.
    Empty { spec: String },
    /// The image path is not absolute.
    Relative { spec: String, src: String, dst: String },
    /// The image path contains a `..` component.
    ParentDir { spec: String },
}

/// A `..` component of `p` starts at index `i`.
pub open spec fn parent_component_at(p: Seq<char>, i: int) -> bool {
    0 <= i && i + 2 <= p.len() && p[i] == '.' && p[i + 1] == '.' && (i == 0 || p[i - 1] == '/')
        && (i + 2 == p.len() || p[i + 2] == '/')
}

/// `p` has a `..` component.
pub open spec fn has_parent_component(p: Seq<char>) -> bool {
    exists|i: int| #[trigger] parent_component_at(p, i)
}

/// The halves of an `--add-file` spec: split at the last colon; without one the
/// file mirrors its host path.
pub open spec fn add_file_halves(spec: Seq<char>) -> (Seq<char>, Seq<char>) {
    match rsplit_once(spec, ':') {
        Some(p) => p,
        None => (spec, spec),
    }
}

/// The outcome of parsing an `--add-file` spec, as (src, dst) views.
pub open spec fn spec_add_file_parse(spec: Seq<char>) -> Result<(Seq<char>, Seq<char>), int> {
    let (src, dst) = add_file_halves(spec);
    if src.len() == 0 || dst.len() == 0 {
        Err(0)
    } else if !is_abs(dst) {
        Err(1)
    } else if has_parent_component(dst) {
        Err(2)
    } else {
        Ok((src, dst))
    }
}

/// Does `p` have a `..` component?
pub fn contains_parent_component(p: &str) -> (b: bool)
    ensures
        b == has_parent_component(p@),
{
    let v = chars_of(p);
    let mut i: usize = 0;
    while v.len() >= 2 && i <= v.len() - 2
        invariant
            v@ == p@,
            i <= v.len(),
            forall|j: int| 0 <= j < i ==> !#[trigger] parent_component_at(p@, j),
        decreases v.len() - i,
    {
        if v[i] == '.' && v[i + 1] == '.' && (i == 0 || v[i - 1] == '/') && (i + 2 == v.len() || v[i
            + 2] == '/') {
            assert(parent_component_at(p@, i as int));
            return true;
        }
        i += 1;
    }
    proof {
        assert forall|j: int| !parent_component_at(p@, j) by {
            if 0 <= j && j + 2 <= p@.len() {
                assert(j < i);
            }
        }
    }
    false
}

impl AddFile {
    /// Parse a `SRC[:DST]` spec. Without `:DST` the file lands at its own path. The
    /// split is on the last colon, so a source path holding one still parses as long
    /// as the destination does not. The image path must be absolute and free of `..`.
    pub fn parse(spec: &str) -> (r: Result<AddFile, AddFileError>)
        ensures
            match r {
                Ok(f) => spec_add_file_parse(spec@) == Ok::<(Seq<char>, Seq<char>), int>((f.src@, f.dst@)),
                Err(AddFileError::Empty { spec: s }) => spec_add_file_parse(spec@) == Err::<
                    (Seq<char>, Seq<char>),
                    int,
                >(0) && s@ == spec@,
                Err(AddFileError::Relative { spec: s, src, dst }) => spec_add_file_parse(spec@) == Err::<
                    (Seq<char>, Seq<char>),
                    int,
                >(1) && s@ == spec@ && (src@, dst@) == add_file_halves(spec@),
                Err(AddFileError::ParentDir { spec: s }) => spec_add_file_parse(spec@) == Err::<
                    (Seq<char>, Seq<char>),
                    int,
                >(2) && s@ == spec@,
            },
    {
        let (src, dst) = match rsplit_once_char(spec, ':') {
            Some(p) => p,
            None => (copy_str(spec), copy_str(spec)),
        };
        if src.unicode_len() == 0 || dst.unicode_len() == 0 {
            return Err(AddFileError::Empty { spec: copy_str(spec) });
        }
        if !crate::paths::is_absolute(dst.as_str()) {
            return Err(AddFileError::Relative { spec: copy_str(spec), src, dst });
        }
        if contains_parent_component(dst.as_str()) {
            return Err(AddFileError::ParentDir { spec: copy_str(spec) });
        }
        Ok(AddFile { src, dst })
    }
}

/// The message of a refused `--add-file` spec.
pub open spec fn spec_add_file_message(e: AddFileError) -> Seq<char> {
    match e {
        AddFileError::Empty { spec } => "--add-file '"@ + spec@
            + "': expected SRC or SRC:DST, both non-empty"@,
        AddFileError::Relative { spec, src, dst } => "--add-file '"@ + spec@ + "': read '"@
            + src@ + "' as the source and '"@ + dst@
            + "' as the image path, but the image path must be absolute, e.g. ./app.conf:/etc/app.conf"@,
        AddFileError::ParentDir { spec } => "--add-file '"@ + spec@
            + "': the image path must not contain '..'"@,
    }
}

impl AddFileError {
    /// The error message.
    pub fn message(&self) -> (s: String)
        ensures
            s@ == spec_add_file_message(*self),
    {
        match self {
            AddFileError::Empty { spec } => {
                let mut s = concat("--add-file '", spec.as_str());
                s.append("': expected SRC or SRC:DST, both non-empty");
                s
            },
            AddFileError::Relative { spec, src, dst } => {
                let mut s = concat("--add-file '", spec.as_str());
                s.append("': read '");
                s.append(src.as_str());
                s.append("' as the source and '");
                s.append(dst.as_str());
                s.append(
                    "' as the image path, but the image path must be absolute, e.g. ./app.conf:/etc/app.conf",
                );
                s
            },
            AddFileError::ParentDir { spec } => {
                let mut s = concat("--add-file '", spec.as_str());
                s.append("': the image path must not contain '..'");
                s
            },
        }
    }
}

// ---------------------------------------------------------------------------
// Name-service (NSS) selection
// ---------------------------------------------------------------------------

/// A name-service (NSS) module selectable with `--nss`.
#[derive(Clone, Copy, Debug, PartialEq, Eq, Structural)]
pub enum NssModule {
    /// Local-file lookups (/etc/passwd, /etc/hosts, ...): the libnss_files module.
    Files,
    /// DNS host lookups: the libnss_dns + libresolv modules.
    Dns,
    /// Stage no NSS modules and no nsswitch.conf (`--nss none`). Must be the only value.
    Disabled,
}

/// Which name-service modules to stage into the image.
#[derive(Debug, Clone, Copy, PartialEq, Eq, Structural)]
pub struct NssSelection {
    pub files: bool,
    pub dns: bool,
}

impl Default for NssSelection {
    /// Both modules: the historical local-files-plus-DNS behavior.
    fn default() -> (s: Self)
        ensures
            s == (NssSelection { files: true, dns: true }),
    {
        NssSelection { files: true, dns: true }
    }
}

/// Why an `--nss` list was refused.
#[derive(Debug, Clone, Copy, PartialEq, Eq, Structural)]
pub enum NssError {
    /// `none` was combined with a module.
    NoneCombined,
}

impl NssError {
    /// The error message.
    pub fn message(&self) -> (s: &'static str)
        ensures
            s@ == "--nss none cannot be combined with other modules"@,
    {
        "--nss none cannot be combined with other modules"
    }
}

/// The selection an `--nss` list makes: empty means the default (both), `none`
/// must stand alone, otherwise each named module is on.
pub open spec fn spec_from_modules(m: Seq<NssModule>) -> Result<NssSelection, NssError> {
    if m.len() == 0 {
        Ok(NssSelection { files: true, dns: true })
    } else if m.contains(NssModule::Disabled) {
        if m.len() > 1 {
            Err(NssError::NoneCombined)
        } else {
            Ok(NssSelection { files: false, dns: false })
        }
    } else {
        Ok(NssSelection { files: m.contains(NssModule::Files), dns: m.contains(NssModule::Dns) })
    }
}

fn contains_module(m: &[NssModule], x: NssModule) -> (b: bool)
    ensures
        b == m@.contains(x),
{
    let mut i: usize = 0;
    while i < m.len()
        invariant
            i <= m.len(),
            forall|j: int| 0 <= j < i ==> m@[j] != x,
        decreases m.len() - i,
    {
        if m[i] == x {
            return true;
        }
        i += 1;
    }
    false
}

/// The module file names a selection stages, in staging order.
pub open spec fn spec_modules(s: NssSelection) -> Seq<Seq<char>> {
    (if s.files {
        seq!["libnss_files.so.2"@]
    } else {
        Seq::empty()
    }) + (if s.dns {
        seq!["libnss_dns.so.2"@, "libresolv.so.2"@]
    } else {
        Seq::empty()
    })
}

/// The file-only databases of nsswitch.conf, present only when `files` is staged.
pub open spec fn files_databases() -> Seq<char> {
    "passwd:         files\ngroup:          files\nshadow:         files\nnetworks:       files\nprotocols:      files\nservices:       files\n"@
}

/// A minimal nsswitch.conf naming only the selected sources; `None` when nothing is
/// staged.
pub open spec fn spec_nsswitch(s: NssSelection) -> Option<Seq<char>> {
    if !s.files && !s.dns {
        None
    } else {
        let hosts = if s.files && s.dns {
            "files dns"@
        } else if s.files {
            "files"@
        } else {
            "dns"@
        };
        Some(
            (if s.files {
                files_databases()
            } else {
                ""@
            }) + "hosts:          "@ + hosts + "\n"@,
        )
    }
}

impl NssSelection {
    /// Both modules: the historical local-files-plus-DNS behavior.
    pub fn default_selection() -> (s: NssSelection)
        ensures
            s == (NssSelection { files: true, dns: true }),
    {
        NssSelection { files: true, dns: true }
    }

    /// Stage nothing — no NSS modules and no nsswitch.conf.
    pub fn none() -> (s: NssSelection)
        ensures
            s == (NssSelection { files: false, dns: false }),
    {
        NssSelection { files: false, dns: false }
    }

    /// Build a selection from the `--nss` values. Empty means the default set; a
    /// `none` value must stand alone.
    pub fn from_modules(modules: &[NssModule]) -> (r: Result<NssSelection, NssError>)
        ensures
            r == spec_from_modules(modules@),
    {
        if modules.len() == 0 {
            return Ok(Self::default_selection());
        }
        if contains_module(modules, NssModule::Disabled) {
            if modules.len() > 1 {
                return Err(NssError::NoneCombined);
            }
            return Ok(Self::none());
        }
        Ok(NssSelection {
            files: contains_module(modules, NssModule::Files),
            dns: contains_module(modules, NssModule::Dns),
        })
    }

    /// Nothing is staged.
    pub fn is_none(self) -> (b: bool)
        ensures
            b == (!self.files && !self.dns),
    {
        !self.files && !self.dns
    }

    /// The glibc modules this selection needs, version-matched beside libc.
    pub fn modules(self) -> (r: Vec<&'static str>)
        ensures
            strs(r@) == spec_modules(self),
    {
        let mut m: Vec<&'static str> = Vec::new();
        if self.files {
            m.push("libnss_files.so.2");
        }
        if self.dns {
            m.push("libnss_dns.so.2");
            m.push("libresolv.so.2");
        }
        assert(strs(m@) =~= spec_modules(self));
        m
    }

    /// A minimal nsswitch.conf naming only the selected sources, or `None` when
    /// nothing is staged. It never names a source whose module is absent.
    pub fn nsswitch(self) -> (r: Option<String>)
        ensures
            match r {
                Some(s) => spec_nsswitch(self) == Some(s@),
                None => spec_nsswitch(self) is None,
            },
    {
        if self.is_none() {
            return None;
        }
        let hosts = if self.files && self.dns {
            "files dns"
        } else if self.files {
            "files"
        } else {
            "dns"
        };
        let mut s = if self.files {
            copy_str(
                "passwd:         files\ngroup:          files\nshadow:         files\nnetworks:       files\nprotocols:      files\nservices:       files\n",
            )
        } else {
            String::new()
        };
        proof {
            if !self.files {
                reveal_strlit("");
                assert(s@ =~= ""@);
            }
        }
        s.append("hosts:          ");
        s.append(hosts);
        s.append("\n");
        Some(s)
    }
}

/// The minimal `/etc/passwd` staged with the `files` module.
pub const MINIMAL_PASSWD: &'static str = "root:x:0:0:root:/root:/sbin/nologin\nnonroot:x:65532:65532:nonroot:/home/nonroot:/sbin/nologin\nnobody:x:65534:65534:nobody:/nonexistent:/sbin/nologin\n";

/// The minimal `/etc/group` staged with the `files` module.
pub const MINIMAL_GROUP: &'static str = "root:x:0:\nnonroot:x:65532:\nnobody:x:65534:\n";

// ---------------------------------------------------------------------------
// Default includes
// ---------------------------------------------------------------------------

/// The index of the first library whose soname starts with `libc.so`.
pub open spec fn first_libc(libs: Seq<(Seq<char>, Seq<char>)>) -> Option<int>
    decreases libs.len(),
{
    if libs.len() == 0 {
        None
    } else if is_prefix("libc.so"@, libs[0].0) {
        Some(0)
    } else {
        match first_libc(libs.skip(1)) {
            Some(i) => Some(i + 1),
            None => None,
        }
    }
}

/// The directory libc resolved from — the version-matched source for NSS modules.
pub open spec fn spec_libc_dir(libs: Seq<(Seq<char>, Seq<char>)>) -> Option<Seq<char>> {
    match first_libc(libs) {
        Some(i) => parent(libs[i].1),
        None => None,
    }
}

proof fn lemma_first_libc(libs: Seq<(Seq<char>, Seq<char>)>, i: int)
    requires
        0 <= i <= libs.len(),
        forall|j: int| 0 <= j < i ==> !is_prefix("libc.so"@, #[trigger] libs[j].0),
    ensures
        i < libs.len() && is_prefix("libc.so"@, libs[i].0) ==> first_libc(libs) == Some(i),
        i == libs.len() ==> first_libc(libs) is None,
    decreases i,
{
    if i > 0 {
        assert forall|j: int| 0 <= j < i - 1 implies !is_prefix("libc.so"@, #[trigger] libs.skip(1)[j].0) by {
            assert(libs.skip(1)[j] == libs[j + 1]);
        }
        lemma_first_libc(libs.skip(1), i - 1);
    }
}

/// The directory libc resolved from.
pub fn libc_dir(resolution: &Resolution) -> (r: Option<String>)
    ensures
        match r {
            Some(d) => spec_libc_dir(resolution@.libs) == Some(d@),
            None => spec_libc_dir(resolution@.libs) is None,
        },
{
    let libs = &resolution.libs;
    let ghost lv = resolution@.libs;
    let mut i: usize = 0;
    while i < libs.len()
        invariant
            i <= libs.len(),
            lv == lib_views(libs@),
            lv == resolution@.libs,
            forall|j: int| 0 <= j < i ==> !is_prefix("libc.so"@, #[trigger] lv[j].0),
        decreases libs.len() - i,
    {
        assert(lv[i as int] == (libs@[i as int].soname@, libs@[i as int].path@));
        if starts_with(libs[i].soname.as_str(), "libc.so") {
            proof {
                lemma_first_libc(lv, i as int);
            }
            let p = libs[i].path.as_str();
            assert(p@ == lv[i as int].1);
            return parent_of(p);
        }
        i += 1;
    }
    proof {
        lemma_first_libc(lv, i as int);
    }
    None
}

/// A staged rootfs ready to become an image layer.
#[derive(Debug, Clone, PartialEq, Eq)]
pub struct StagedTree {
    /// The staging root on disk.
    pub root: String,
    /// The binary's path inside the image — the default entrypoint.
    pub entrypoint: String,
}

/// What the default additions staged, and what they could not find.
#[derive(Debug, Clone, PartialEq, Eq)]
pub struct IncludeReport {
    /// Image paths added (nsswitch, NSS modules, passwd and group).
    pub staged: Vec<String>,
    /// Best-effort items that were absent on the host — surfaced, never silently skipped.
    pub warnings: Vec<String>,
}

/// The report of carrying out `plan`, given which module sources were found on the
/// host: nsswitch.conf first, then each module found, then passwd and group; a
/// warning for each module not found, or for the missing libc.
pub open spec fn spec_include_report(plan_nsswitch: bool, modules: Seq<(Seq<char>, Seq<char>)>, present: Seq<bool>, no_libc: bool, passwd_and_group: bool) -> (Seq<Seq<char>>, Seq<Seq<char>>) {
    (
        (if plan_nsswitch { seq!["/etc/nsswitch.conf"@] } else { Seq::empty() }) + found_modules(modules, present)
            + (if passwd_and_group { seq!["/etc/passwd"@, "/etc/group"@] } else { Seq::empty() }),
        missing_module_warnings(modules, present) + (if no_libc { seq!["no libc in resolution; skipped NSS modules"@] } else { Seq::empty() }),
    )
}

/// The source paths of the modules found, in order.
pub open spec fn found_modules(modules: Seq<(Seq<char>, Seq<char>)>, present: Seq<bool>) -> Seq<Seq<char>>
    decreases modules.len(),
{
    if modules.len() == 0 {
        Seq::empty()
    } else {
        let p = found_modules(modules.drop_last(), present);
        if present[modules.len() - 1] {
            p.push(modules.last().1)
        } else {
            p
        }
    }
}

/// A warning per module not found, in order.
pub open spec fn missing_module_warnings(modules: Seq<(Seq<char>, Seq<char>)>, present: Seq<bool>) -> Seq<Seq<char>>
    decreases modules.len(),
{
    if modules.len() == 0 {
        Seq::empty()
    } else {
        let p = missing_module_warnings(modules.drop_last(), present);
        if present[modules.len() - 1] {
            p
        } else {
            p.push("NSS module not found: "@ + modules.last().0)
        }
    }
}

/// The report of the default additions: what was staged, in order, and what was
/// missing. `present[i]` says whether the source of module `i` exists on the host.
pub fn include_report(plan: &IncludePlan, present: &Vec<bool>) -> (r: IncludeReport)
    requires
        present@.len() == plan.modules@.len(),
    ensures
        (views(r.staged@), views(r.warnings@)) == spec_include_report(
            plan.nsswitch is Some,
            pair_views(plan.modules@),
            present@,
            plan.no_libc,
            plan.passwd_and_group,
        ),
{
    let ghost mv = pair_views(plan.modules@);
    let mut staged: Vec<String> = Vec::new();
    let mut warnings: Vec<String> = Vec::new();
    if plan.nsswitch.is_some() {
        staged.push(copy_str("/etc/nsswitch.conf"));
    }
    let ghost head = views(staged@);
    assert(head =~= if plan.nsswitch is Some { seq!["/etc/nsswitch.conf"@] } else { Seq::<Seq<char>>::empty() });
    let mut i: usize = 0;
    assert(mv.take(0) =~= Seq::<(Seq<char>, Seq<char>)>::empty());
    while i < plan.modules.len()
        invariant
            i <= plan.modules.len(),
            present@.len() == plan.modules@.len(),
            mv == pair_views(plan.modules@),
            views(staged@) == head + found_modules(mv.take(i as int), present@),
            views(warnings@) == missing_module_warnings(mv.take(i as int), present@),
        decreases plan.modules.len() - i,
    {
        proof {
            assert(mv.take(i + 1).drop_last() =~= mv.take(i as int));
            assert(mv.take(i + 1).last() == (plan.modules@[i as int].0@, plan.modules@[i as int].1@));
        }
        if present[i] {
            let ghost before = staged@;
            staged.push(plan.modules[i].1.clone());
            proof {
                crate::text::lemma_views_push(before, plan.modules@[i as int].1);
            }
        } else {
            let ghost before = warnings@;
            let w = missing_module_warning(plan.modules[i].0.as_str());
            warnings.push(w);
            proof {
                crate::text::lemma_views_push(before, w);
            }
        }
        i += 1;
    }
    assert(mv.take(plan.modules.len() as int) =~= mv);
    if plan.no_libc {
        let ghost before = warnings@;
        let w = no_libc_warning();
        warnings.push(w);
        proof {
            crate::text::lemma_views_push(before, w);
        }
    } else {
        assert(views(warnings@) =~= views(warnings@) + Seq::<Seq<char>>::empty());
    }
    let ghost mid = views(staged@);
    if plan.passwd_and_group {
        staged.push(copy_str("/etc/passwd"));
        staged.push(copy_str("/etc/group"));
        assert(views(staged@) =~= mid + seq!["/etc/passwd"@, "/etc/group"@]);
    } else {
        assert(views(staged@) =~= mid + Seq::<Seq<char>>::empty());
    }
    IncludeReport { staged, warnings }
}

/// What the default additions stage: a minimal nsswitch.conf, the selected NSS
/// modules taken from libc's own directory, and — with `files` — minimal
/// passwd/group files.
#[derive(Debug, Clone, PartialEq, Eq)]
pub struct IncludePlan {
    /// The nsswitch.conf body, when anything is staged.
    pub nsswitch: Option<String>,
    /// Each module's file name and its source path beside libc (also its image path).
    pub modules: Vec<(String, String)>,
    /// Modules were selected but the resolution holds no libc to take them from.
    pub no_libc: bool,
    /// Stage `/etc/passwd` and `/etc/group` (only with the `files` module, which
    /// is what reads them).
    pub passwd_and_group: bool,
}

/// The module sources: each selected module's name in libc's directory.
pub open spec fn spec_module_sources(dir: Seq<char>, s: NssSelection) -> Seq<(Seq<char>, Seq<char>)> {
    Seq::new(spec_modules(s).len(), |i: int| (spec_modules(s)[i], path_join(dir, spec_modules(s)[i])))
}

/// Each of `names` paired with its path in `dir`.
fn module_sources(dir: &str, names: &Vec<&'static str>) -> (r: Vec<(String, String)>)
    ensures
        pair_views(r@) == Seq::new(
            names@.len(),
            |k: int| (names@[k]@, path_join(dir@, names@[k]@)),
        ),
{
    let mut modules: Vec<(String, String)> = Vec::new();
    let mut i: usize = 0;
    while i < names.len()
        invariant
            i <= names.len(),
            modules@.len() == i,
            forall|k: int| 0 <= k < i ==> #[trigger] modules@[k].0@ == names@[k]@ && modules@[k].1@ == path_join(dir@, names@[k]@),
        decreases names.len() - i,
    {
        let n = names[i];
        let name = copy_str(n);
        let path = join_path(dir, n);
        let ghost before = modules@;
        modules.push((name, path));
        assert(forall|k: int| 0 <= k < i ==> modules@[k] == before[k]);
        i += 1;
    }
    assert(pair_views(modules@) =~= Seq::new(
        names@.len(),
        |k: int| (names@[k]@, path_join(dir@, names@[k]@)),
    ));
    modules
}

/// Plan the default includes for a resolution and an NSS selection.
pub fn include_plan(resolution: &Resolution, nss: NssSelection) -> (p: IncludePlan)
    ensures
        match p.nsswitch {
            Some(s) => spec_nsswitch(nss) == Some(s@),
            None => spec_nsswitch(nss) is None,
        },
        p.passwd_and_group == nss.files,
        p.no_libc == (spec_modules(nss).len() > 0 && spec_libc_dir(resolution@.libs) is None),
        pair_views(p.modules@) == match spec_libc_dir(resolution@.libs) {
            Some(d) => spec_module_sources(d, nss),
            None => Seq::empty(),
        },
{
    let names = nss.modules();
    let mut modules: Vec<(String, String)> = Vec::new();
    let mut no_libc = false;
    let dir = libc_dir(resolution);
    if names.len() > 0 {
        match &dir {
            Some(d) => {
                modules = module_sources(d.as_str(), &names);
                proof {
                    let nv = strs(names@);
                    assert(nv.len() == names@.len());
                    assert forall|k: int| 0 <= k < nv.len() implies nv[k] == names@[k]@ by {}
                    assert(Seq::new(
                        names@.len(),
                        |k: int| (names@[k]@, path_join(d@, names@[k]@)),
                    ) =~= spec_module_sources(d@, nss));
                }
            },
            None => {
                no_libc = true;
            },
        }
    }
    proof {
        if names.len() == 0 || dir is None {
            assert(pair_views(modules@) =~= Seq::empty());
            if dir is Some {
                assert(spec_module_sources(dir->0@, nss) =~= Seq::empty());
            }
        }
    }
    IncludePlan { nsswitch: nss.nsswitch(), modules, no_libc, passwd_and_group: nss.files }
}

/// The warning for an NSS module that is absent beside libc.
pub fn missing_module_warning(name: &str) -> (s: String)
    ensures
        s@ == "NSS module not found: "@ + name@,
{
    concat("NSS module not found: ", name)
}

/// The warning when NSS modules were selected but there is no libc to match.
pub fn no_libc_warning() -> (s: String)
    ensures
        s@ == "no libc in resolution; skipped NSS modules"@,
{
    copy_str("no libc in resolution; skipped NSS modules")
}

// ---------------------------------------------------------------------------
// The staging plan
// ---------------------------------------------------------------------------

/// One file to copy: from `source` on the host to the absolute `image_path`.
#[derive(Debug, Clone, PartialEq, Eq)]
pub struct Copy {
    pub source: String,
    pub image_path: String,
}

/// One soname symlink: at the absolute `link` image path, pointing at `target`
/// (a bare file name, so it stays valid once the tree becomes the image root).
#[derive(Debug, Clone, PartialEq, Eq)]
pub struct Symlink {
    pub link: String,
    pub target: String,
}

/// The (source, image path) pairs of a list of copies.
pub open spec fn copy_views(v: Seq<Copy>) -> Seq<(Seq<char>, Seq<char>)> {
    v.map_values(|c: Copy| (c.source@, c.image_path@))
}

/// The (link, target) pairs of a list of symlinks.
pub open spec fn symlink_views(v: Seq<Symlink>) -> Seq<(Seq<char>, Seq<char>)> {
    v.map_values(|l: Symlink| (l.link@, l.target@))
}

/// Where everything of a resolution lands in the image.
#[derive(Debug, Clone, PartialEq, Eq)]
pub struct StagePlan {
    /// The binary's path inside the image — the default entrypoint.
    pub entrypoint: String,
    /// Files to copy, in order: the binary, the loader, then each library.
    pub copies: Vec<Copy>,
    /// Soname symlinks for libraries whose file name differs from their soname.
    pub symlinks: Vec<Symlink>,
    /// The body of `/etc/ld.so.conf`: every staged library (and loader) directory,
    /// once each, in path order.
    pub ld_so_conf: String,
}

/// Why a resolution cannot be staged.
#[derive(Debug, Clone, PartialEq, Eq)]
pub enum StageError {
    /// Some dependencies are unresolved; an image known to be broken is never built.
    Unresolved { missing: Vec<String> },
    /// A library path has no parent directory or no file name.
    BadLibraryPath { path: String },
}

impl StageError {
    /// The error message.
    pub fn message(&self) -> (s: String)
        ensures
            s@ == match self {
                StageError::Unresolved { missing } => "refusing to stage: unresolved dependencies: "@
                    + join(views(missing@), ", "@),
                StageError::BadLibraryPath { path } => "library has no parent dir or file name: "@
                    + path@,
            },
    {
        match self {
            StageError::Unresolved { missing } => {
                let mut s = copy_str("refusing to stage: unresolved dependencies: ");
                s.append(join_strings(missing, ", ").as_str());
                s
            },
            StageError::BadLibraryPath { path } => concat(
                "library has no parent dir or file name: ",
                path.as_str(),
            ),
        }
    }
}

/// The copies a resolution needs: the binary at its real path (so `$ORIGIN`
/// entries still resolve), the loader at its verbatim PT_INTERP path, each library
/// at its real path.
pub open spec fn spec_copies(binary: Seq<char>, r: crate::resolver::ResolutionView) -> Seq<(Seq<char>, Seq<char>)> {
    seq![(binary, binary)] + (match r.interpreter {
        Some(i) => seq![(i.1, i.0)],
        None => Seq::empty(),
    }) + Seq::new(r.libs.len(), |i: int| (r.libs[i].1, r.libs[i].1))
}

/// What the staging plan copies: the binary first, at its own path; the loader, when
/// there is one, from the file it resolved to onto its PT_INTERP path; and every
/// resolved library from its real path onto that same path in the image. Nothing
/// else is copied: each copy is one of these.
pub proof fn law_every_resolved_file_is_copied(binary: Seq<char>, r: crate::resolver::ResolutionView)
    ensures
        spec_copies(binary, r).len() > 0,
        spec_copies(binary, r)[0] == (binary, binary),
        forall|i: int| 0 <= i < r.libs.len() ==> spec_copies(binary, r).contains((r.libs[i].1, r.libs[i].1)),
        r.interpreter matches Some(it) ==> spec_copies(binary, r).contains((it.1, it.0)),
        forall|k: int|
            0 <= k < spec_copies(binary, r).len() ==> {
                ||| spec_copies(binary, r)[k] == (binary, binary)
                ||| (r.interpreter matches Some(it) && spec_copies(binary, r)[k] == (it.1, it.0))
                ||| exists|i: int|
                    0 <= i < r.libs.len() && spec_copies(binary, r)[k] == (r.libs[i].1, r.libs[i].1)
            },
{
    let c = spec_copies(binary, r);
    let head: Seq<(Seq<char>, Seq<char>)> = seq![(binary, binary)] + (match r.interpreter {
        Some(i) => seq![(i.1, i.0)],
        None => Seq::empty(),
    });
    assert forall|i: int| 0 <= i < r.libs.len() implies c.contains((r.libs[i].1, r.libs[i].1)) by {
        assert(c[head.len() + i] == (r.libs[i].1, r.libs[i].1));
    }
    if let Some(it) = r.interpreter {
        assert(c[1] == (it.1, it.0));
    }
    assert forall|k: int| 0 <= k < c.len() implies {
        ||| c[k] == (binary, binary)
        ||| (r.interpreter matches Some(it) && c[k] == (it.1, it.0))
        ||| exists|i: int| 0 <= i < r.libs.len() && c[k] == (r.libs[i].1, r.libs[i].1)
    } by {
        if k >= head.len() {
            let i = k - head.len();
            assert(c[k] == (r.libs[i].1, r.libs[i].1));
        }
    }
}

/// A library needs a soname symlink when its file name differs from its soname.
pub open spec fn needs_symlink(lib: (Seq<char>, Seq<char>)) -> bool {
    file_name(lib.1) != Some(lib.0)
}

/// The symlinks a list of libraries needs, in order: beside the real file, named
/// by the soname, pointing at the real file's name.
pub open spec fn spec_symlinks(libs: Seq<(Seq<char>, Seq<char>)>) -> Seq<(Seq<char>, Seq<char>)>
    decreases libs.len(),
{
    if libs.len() == 0 {
        Seq::empty()
    } else {
        let rest = spec_symlinks(libs.drop_last());
        let l = libs.last();
        if needs_symlink(l) {
            rest.push((path_join(parent(l.1)->0, l.0), file_name(l.1)->0))
        } else {
            rest
        }
    }
}

/// Soname symlinks: every library whose file name is not its soname gets one,
/// beside its real file, named by the soname and pointing at the real file's name;
/// and each symlink planned is such a link of some library whose file name differs
/// from its soname.
pub proof fn law_soname_symlinks(libs: Seq<(Seq<char>, Seq<char>)>)
    ensures
        forall|i: int|
            #![trigger libs[i]]
            0 <= i < libs.len() && file_name(libs[i].1) != Some(libs[i].0) ==> spec_symlinks(libs).contains(
                (path_join(parent(libs[i].1)->0, libs[i].0), file_name(libs[i].1)->0),
            ),
        forall|k: int|
            0 <= k < spec_symlinks(libs).len() ==> link_of_some_lib(libs, #[trigger] spec_symlinks(libs)[k]),
{
    assert forall|i: int|
        #![trigger libs[i]]
        0 <= i < libs.len() && file_name(libs[i].1) != Some(libs[i].0) implies spec_symlinks(libs).contains(
            (path_join(parent(libs[i].1)->0, libs[i].0), file_name(libs[i].1)->0),
        ) by {
        lemma_symlink_present(libs, i);
    }
    assert forall|k: int| 0 <= k < spec_symlinks(libs).len() implies link_of_some_lib(
        libs,
        #[trigger] spec_symlinks(libs)[k],
    ) by {
        let i = lemma_symlink_origin(libs, k);
    }
}

/// `x` is the soname link of some library of `libs` whose file name differs from
/// its soname: beside the real file, named by the soname, pointing at the file name.
pub open spec fn link_of_some_lib(libs: Seq<(Seq<char>, Seq<char>)>, x: (Seq<char>, Seq<char>)) -> bool {
    exists|i: int|
        0 <= i < libs.len() && file_name(#[trigger] libs[i].1) != Some(libs[i].0) && x == (
            path_join(parent(libs[i].1)->0, libs[i].0),
            file_name(libs[i].1)->0,
        )
}

proof fn lemma_symlink_present(libs: Seq<(Seq<char>, Seq<char>)>, i: int)
    requires
        0 <= i < libs.len(),
        file_name(libs[i].1) != Some(libs[i].0),
    ensures
        spec_symlinks(libs).contains((path_join(parent(libs[i].1)->0, libs[i].0), file_name(libs[i].1)->0)),
    decreases libs.len(),
{
    let d = libs.drop_last();
    let rest = spec_symlinks(d);
    let l = libs.last();
    let x = (path_join(parent(libs[i].1)->0, libs[i].0), file_name(libs[i].1)->0);
    if i < libs.len() - 1 {
        assert(libs[i] == d[i]);
        lemma_symlink_present(d, i);
        let k = choose|k: int| 0 <= k < rest.len() && rest[k] == x;
        if needs_symlink(l) {
            assert(spec_symlinks(libs)[k] == x);
        } else {
            assert(spec_symlinks(libs)[k] == x);
        }
    } else {
        assert(spec_symlinks(libs)[rest.len() as int] == x);
    }
}

proof fn lemma_symlink_origin(libs: Seq<(Seq<char>, Seq<char>)>, k: int) -> (i: int)
    requires
        0 <= k < spec_symlinks(libs).len(),
    ensures
        0 <= i < libs.len(),
        file_name(libs[i].1) != Some(libs[i].0),
        spec_symlinks(libs)[k] == (path_join(parent(libs[i].1)->0, libs[i].0), file_name(libs[i].1)->0),
    decreases libs.len(),
{
    let d = libs.drop_last();
    let rest = spec_symlinks(d);
    if k < rest.len() {
        let i = lemma_symlink_origin(d, k);
        assert(libs[i] == d[i]);
        assert(spec_symlinks(libs)[k] == rest[k]);
        i
    } else {
        let n = libs.len() - 1;
        assert(libs[n] == libs.last());
        n
    }
}

/// The directories the loader cache must list: each library's directory and the
/// loader's image directory.
pub open spec fn cache_dirs(r: crate::resolver::ResolutionView) -> Set<Seq<char>> {
    Set::new(
        |d: Seq<char>|
            (exists|i: int| 0 <= i < r.libs.len() && parent(r.libs[i].1) == Some(d)) || (r.interpreter
                matches Some(it) && parent(it.0) == Some(d)),
    )
}

/// The lines of `dirs`, each followed by a newline.
pub open spec fn lines(dirs: Seq<Seq<char>>) -> Seq<char>
    decreases dirs.len(),
{
    if dirs.len() == 0 {
        Seq::empty()
    } else {
        lines(dirs.drop_last()) + dirs.last() + "\n"@
    }
}

/// Every library path has a parent and a file name.
pub open spec fn libs_well_named(libs: Seq<(Seq<char>, Seq<char>)>) -> bool {
    forall|i: int| 0 <= i < libs.len() ==> parent(libs[i].1) is Some && file_name(libs[i].1) is Some
}

/// Plan the staging of `binary` (its real path) with its resolved dependencies.
/// Refused when any dependency is unresolved, or a library path has no parent or no
/// file name.
pub fn stage(binary: &str, resolution: &Resolution) -> (r: Result<StagePlan, StageError>)
    ensures
        match r {
            Ok(p) => {
                &&& resolution@.missing.len() == 0
                &&& libs_well_named(resolution@.libs)
                &&& p.entrypoint@ == binary@
                &&& copy_views(p.copies@) == spec_copies(binary@, resolution@)
                &&& symlink_views(p.symlinks@) == spec_symlinks(resolution@.libs)
                &&& exists|dirs: Seq<Seq<char>>|
                    sorted_strict(dirs, true) && dirs.to_set() == cache_dirs(resolution@) && p.ld_so_conf@
                        == lines(dirs)
            },
            Err(StageError::Unresolved { missing }) => resolution@.missing.len() > 0 && views(missing@)
                == resolution@.missing,
            Err(StageError::BadLibraryPath { path }) => resolution@.missing.len() == 0
                && !libs_well_named(resolution@.libs) && exists|i: int|
                0 <= i < resolution@.libs.len() && resolution@.libs[i].1 == path@ && (parent(path@) is None
                    || file_name(path@) is None),
        },
{
    if resolution.missing.len() > 0 {
        return Err(StageError::Unresolved { missing: crate::resolver::clone_strings(&resolution.missing) });
    }
    let ghost rv = resolution@;
    let mut copies: Vec<Copy> = Vec::new();
    copies.push(Copy { source: copy_str(binary), image_path: copy_str(binary) });
    let mut dirs: Vec<String> = Vec::new();
    match &resolution.interpreter {
        Some(i) => {
            copies.push(Copy { source: i.source.clone(), image_path: i.image_path.clone() });
            if let Some(d) = parent_of(i.image_path.as_str()) {
                dirs.push(d);
            }
        },
        None => {},
    }
    let ghost pre = copy_views(copies@);
    let ghost dirs0 = views(dirs@);
    proof {
        assert(pre =~= seq![(binary@, binary@)] + (match rv.interpreter {
            Some(i) => seq![(i.1, i.0)],
            None => Seq::empty(),
        }));
    }
    let mut symlinks: Vec<Symlink> = Vec::new();
    let libs = &resolution.libs;
    let mut k: usize = 0;
    while k < libs.len()
        invariant
            k <= libs.len(),
            rv == resolution@,
            rv.missing.len() == 0,
            rv.libs == lib_views(libs@),
            copy_views(copies@) == pre + Seq::new(
                k as nat,
                |i: int| (rv.libs[i].1, rv.libs[i].1),
            ),
            symlink_views(symlinks@) == spec_symlinks(rv.libs.take(k as int)),
            libs_well_named(rv.libs.take(k as int)),
            views(dirs@) == dirs0 + Seq::new(k as nat, |i: int| parent(rv.libs[i].1)->0),
        decreases libs.len() - k,
    {
        let ghost cv0 = copy_views(copies@);
        let ghost dv0 = views(dirs@);
        let lib = &libs[k];
        assert(rv.libs[k as int] == (lib.soname@, lib.path@));
        let p = parent_of(lib.path.as_str());
        let f = file_name_of(lib.path.as_str());
        if p.is_none() || f.is_none() {
            proof {
                assert(parent(rv.libs[k as int].1) is None || file_name(rv.libs[k as int].1) is None);
                assert(!libs_well_named(rv.libs));
            }
            return Err(StageError::BadLibraryPath { path: lib.path.clone() });
        }
        let d = p.unwrap();
        let fname = f.unwrap();
        let ghost before = copies@;
        copies.push(Copy { source: lib.path.clone(), image_path: lib.path.clone() });
        assert(copy_views(copies@) =~= cv0.push((rv.libs[k as int].1, rv.libs[k as int].1)));
        let ghost t = rv.libs.take(k + 1);
        proof {
            assert(t.drop_last() =~= rv.libs.take(k as int));
            assert(t.last() == rv.libs[k as int]);
        }
        if !str_eq(fname.as_str(), lib.soname.as_str()) {
            symlinks.push(Symlink { link: join_path(d.as_str(), lib.soname.as_str()), target: fname });
        }
        let ghost dd = d@;
        dirs.push(d);
        assert(views(dirs@) =~= dv0.push(dd));
        k += 1;
        proof {
            assert(copy_views(copies@) =~= pre + Seq::new(
                k as nat,
                |i: int| (rv.libs[i].1, rv.libs[i].1),
            ));
            assert(views(dirs@) =~= dirs0 + Seq::new(k as nat, |i: int| parent(rv.libs[i].1)->0));
            assert forall|i: int| 0 <= i < t.len() implies parent(t[i].1) is Some && file_name(t[i].1) is Some by {
                if i < k - 1 {
                    assert(t[i] == rv.libs.take(k - 1)[i]);
                }
            }
        }
    }
    proof {
        assert(rv.libs.take(libs.len() as int) =~= rv.libs);
        assert(copy_views(copies@) =~= spec_copies(binary@, rv));
    }
    let sorted = sorted_set(&dirs, true);
    let body = conf_lines(&sorted);
    proof {
        let s = views(sorted@);
        assert(s.to_set() =~= cache_dirs(rv)) by {
            assert forall|d: Seq<char>| views(dirs@).to_set().contains(d) <==> cache_dirs(rv).contains(d) by {
                if views(dirs@).to_set().contains(d) {
                    let j = choose|j: int| 0 <= j < views(dirs@).len() && views(dirs@)[j] == d;
                    if j < dirs0.len() {
                        assert(rv.interpreter matches Some(it) && parent(it.0) == Some(d));
                    } else {
                        let i = j - dirs0.len();
                        assert(parent(rv.libs[i].1) == Some(d));
                    }
                }
                if cache_dirs(rv).contains(d) {
                    if exists|i: int| 0 <= i < rv.libs.len() && parent(rv.libs[i].1) == Some(d) {
                        let i = choose|i: int| 0 <= i < rv.libs.len() && parent(rv.libs[i].1) == Some(d);
                        assert(views(dirs@)[dirs0.len() + i] == d);
                    } else {
                        assert(dirs0.len() == 1 && dirs0[0] == d);
                        assert(views(dirs@)[0] == d);
                    }
                }
            }
        }
    }
    Ok(StagePlan { entrypoint: copy_str(binary), copies, symlinks, ld_so_conf: body })
}

/// Each directory of `dirs` on a line of its own.
pub fn conf_lines(dirs: &Vec<String>) -> (s: String)
    ensures
        s@ == lines(views(dirs@)),
{
    let mut s = String::new();
    let mut i: usize = 0;
    while i < dirs.len()
        invariant
            i <= dirs.len(),
            s@ == lines(views(dirs@).take(i as int)),
        decreases dirs.len() - i,
    {
        s.append(dirs[i].as_str());
        s.append("\n");
        proof {
            assert(views(dirs@).take(i + 1).drop_last() =~= views(dirs@).take(i as int));
        }
        i += 1;
    }
    assert(views(dirs@).take(dirs.len() as int) =~= views(dirs@));
    s
}

// ---------------------------------------------------------------------------
// Runtime extras
// ---------------------------------------------------------------------------

/// Optional runtime files a user can inject. Unlike the always-on NSS includes,
/// these are opt-in, and an explicit request that cannot be satisfied is an error.
#[derive(Debug, Clone, Copy, Default, PartialEq, Eq, Structural)]
pub struct RuntimeExtras {
    /// TLS CA bundle at /etc/ssl/certs/ca-certificates.crt.
    pub ca_certs: bool,
    /// The resolved local timezone at /etc/localtime.
    pub tz: bool,
    /// A minimal init (`tini`) at /tini, to reap zombies / forward signals.
    pub init: bool,
}

/// Where `tini` landed, so the caller can wrap the entrypoint with it.
#[derive(Debug, Clone, Default, PartialEq, Eq)]
pub struct RuntimeResult {
    pub tini_image_path: Option<String>,
}

/// The CA bundle path, on the host and in the image.
pub const CA_BUNDLE: &'static str = "/etc/ssl/certs/ca-certificates.crt";

/// The places a tini binary is looked for, in order.
pub fn tini_candidates() -> (r: Vec<&'static str>)
    ensures
        strs(r@) == seq!["/usr/bin/tini"@, "/sbin/tini"@, "/usr/bin/tini-static"@, "/bin/tini"@],
{
    let mut r: Vec<&'static str> = Vec::new();
    r.push("/usr/bin/tini");
    r.push("/sbin/tini");
    r.push("/usr/bin/tini-static");
    r.push("/bin/tini");
    assert(strs(r@) =~= seq!["/usr/bin/tini"@, "/sbin/tini"@, "/usr/bin/tini-static"@, "/bin/tini"@]);
    r
}

// ---------------------------------------------------------------------------
// Size report
// ---------------------------------------------------------------------------

/// One staged ELF file's size, before and after an optional strip.
#[derive(Debug, Clone, PartialEq, Eq)]
pub struct SizeEntry {
    pub path: String,
    pub before: u64,
    pub after: u64,
}

/// Sizes of the staged ELF payload (binary + loader + libraries), with totals.
#[derive(Debug, Clone, Default, PartialEq, Eq)]
pub struct SizeReport {
    pub entries: Vec<SizeEntry>,
    pub total_before: u64,
    pub total_after: u64,
    pub stripped: bool,
    /// The executable was UPX-compressed (its `after` reflects the compressed size).
    pub upx: bool,
}

/// The text line of one entry: before -> after columns when a size reduction was
/// applied, the size alone otherwise.
pub open spec fn entry_line(e: SizeEntry, reduced: bool) -> Seq<char> {
    if reduced {
        "  "@ + crate::text::pad_left(crate::text::decimal(e.before as nat), 10) + " -> "@
            + crate::text::pad_left(crate::text::decimal(e.after as nat), 10) + "  "@ + e.path@ + "\n"@
    } else {
        "  "@ + crate::text::pad_left(crate::text::decimal(e.after as nat), 10) + "  "@ + e.path@ + "\n"@
    }
}

/// The entry lines of a report.
pub open spec fn entry_lines(es: Seq<SizeEntry>, reduced: bool) -> Seq<char>
    decreases es.len(),
{
    if es.len() == 0 {
        Seq::empty()
    } else {
        entry_lines(es.drop_last(), reduced) + entry_line(es.last(), reduced)
    }
}

/// The size report text: one line per entry, then the totals (with the saving when
/// a reduction was applied).
pub open spec fn size_report_text(r: SizeReport) -> Seq<char> {
    let reduced = r.stripped || r.upx;
    entry_lines(r.entries@, reduced) + if reduced {
        "  total "@ + crate::text::decimal(r.total_before as nat) + " -> "@ + crate::text::decimal(
            r.total_after as nat,
        ) + " bytes (saved "@ + crate::text::decimal(
            (if r.total_before >= r.total_after {
                r.total_before - r.total_after
            } else {
                0
            }) as nat,
        ) + ")"@
    } else {
        "  total "@ + crate::text::decimal(r.total_after as nat) + " bytes"@
    }
}

impl SizeReport {
    /// The size report as text.
    #[verifier::spinoff_prover]
    #[verifier::rlimit(30)]
    pub fn to_text(&self) -> (s: String)
        ensures
            s@ == size_report_text(*self),
    {
        let reduced = self.stripped || self.upx;
        let mut s = String::new();
        let mut i: usize = 0;
        while i < self.entries.len()
            invariant
                i <= self.entries.len(),
                reduced == (self.stripped || self.upx),
                s@ == entry_lines(self.entries@.take(i as int), reduced),
            decreases self.entries.len() - i,
        {
            let e = &self.entries[i];
            s.append("  ");
            if reduced {
                s.append(crate::text::pad_left_str(crate::text::decimal_string(e.before).as_str(), 10).as_str());
                s.append(" -> ");
                s.append(crate::text::pad_left_str(crate::text::decimal_string(e.after).as_str(), 10).as_str());
            } else {
                s.append(crate::text::pad_left_str(crate::text::decimal_string(e.after).as_str(), 10).as_str());
            }
            s.append("  ");
            s.append(e.path.as_str());
            s.append("\n");
            proof {
                assert(self.entries@.take(i + 1).drop_last() =~= self.entries@.take(i as int));
            }
            i += 1;
        }
        assert(self.entries@.take(self.entries.len() as int) =~= self.entries@);
        if reduced {
            let saved = if self.total_before >= self.total_after {
                self.total_before - self.total_after
            } else {
                0
            };
            s.append("  total ");
            s.append(crate::text::decimal_string(self.total_before).as_str());
            s.append(" -> ");
            s.append(crate::text::decimal_string(self.total_after).as_str());
            s.append(" bytes (saved ");
            s.append(crate::text::decimal_string(saved).as_str());
            s.append(")");
        } else {
            s.append("  total ");
            s.append(crate::text::decimal_string(self.total_after).as_str());
            s.append(" bytes");
        }
        s
    }
}

/// The staged ELF files whose sizes are reported: the binary, the loader, then each
/// library, at their places under the staging root. UPX applies to the first alone.
pub open spec fn spec_measure_targets(dest: Seq<char>, entrypoint: Seq<char>, r: crate::resolver::ResolutionView) -> Seq<Seq<char>> {
    seq![spec_under(dest, entrypoint)] + (match r.interpreter {
        Some(i) => seq![spec_under(dest, i.0)],
        None => Seq::empty(),
    }) + Seq::new(r.libs.len(), |i: int| spec_under(dest, r.libs[i].1))
}

/// The staged ELF files to measure (and optionally strip), in report order.
pub fn measure_targets(dest: &str, entrypoint: &str, resolution: &Resolution) -> (r: Vec<String>)
    ensures
        views(r@) == spec_measure_targets(dest@, entrypoint@, resolution@),
{
    let mut r: Vec<String> = Vec::new();
    r.push(under(dest, entrypoint));
    match &resolution.interpreter {
        Some(i) => {
            r.push(under(dest, i.image_path.as_str()));
        },
        None => {},
    }
    let ghost head = views(r@);
    let ghost rv = resolution@;
    assert(head =~= seq![spec_under(dest@, entrypoint@)] + (match rv.interpreter {
        Some(i) => seq![spec_under(dest@, i.0)],
        None => Seq::<Seq<char>>::empty(),
    }));
    let libs = &resolution.libs;
    let mut k: usize = 0;
    while k < libs.len()
        invariant
            k <= libs.len(),
            rv == resolution@,
            rv.libs == lib_views(libs@),
            views(r@) == head + Seq::new(k as nat, |i: int| spec_under(dest@, rv.libs[i].1)),
        decreases libs.len() - k,
    {
        assert(rv.libs[k as int] == (libs@[k as int].soname@, libs@[k as int].path@));
        let ghost before = r@;
        let u = under(dest, libs[k].path.as_str());
        r.push(u);
        proof {
            crate::text::lemma_views_push(before, u);
            assert(views(r@) =~= head + Seq::new((k + 1) as nat, |i: int| spec_under(dest@, rv.libs[i].1)));
        }
        k += 1;
    }
    r
}

/// The sum of the `before` (or `after`) sizes.
pub open spec fn size_sum(sizes: Seq<(u64, u64)>, after: bool) -> nat
    decreases sizes.len(),
{
    if sizes.len() == 0 {
        0
    } else {
        size_sum(sizes.drop_last(), after) + if after {
            sizes.last().1 as nat
        } else {
            sizes.last().0 as nat
        }
    }
}

proof fn lemma_size_sum_prefix(sizes: Seq<(u64, u64)>, k: int, after: bool)
    requires
        0 <= k <= sizes.len(),
    ensures
        size_sum(sizes.take(k), after) <= size_sum(sizes, after),
    decreases sizes.len(),
{
    if k < sizes.len() {
        lemma_size_sum_prefix(sizes.drop_last(), k, after);
        assert(sizes.drop_last().take(k) =~= sizes.take(k));
    } else {
        assert(sizes.take(k) =~= sizes);
    }
}

/// The size report of the measured files: each shown by its image path, with its
/// size before and after, and the totals.
pub fn size_report(
    dest: &str,
    targets: &Vec<String>,
    sizes: &Vec<(u64, u64)>,
    stripped: bool,
    upx: bool,
) -> (r: SizeReport)
    requires
        sizes@.len() == targets@.len(),
        size_sum(sizes@, false) <= u64::MAX,
        size_sum(sizes@, true) <= u64::MAX,
    ensures
        r.entries@.len() == targets@.len(),
        forall|i: int|
            0 <= i < targets@.len() ==> (#[trigger] r.entries@[i]).path@ == spec_display_image_path(
                dest@,
                targets@[i]@,
            ) && r.entries@[i].before == sizes@[i].0 && r.entries@[i].after == sizes@[i].1,
        r.total_before == size_sum(sizes@, false),
        r.total_after == size_sum(sizes@, true),
        r.stripped == stripped,
        r.upx == upx,
{
    let mut entries: Vec<SizeEntry> = Vec::new();
    let mut tb: u64 = 0;
    let mut ta: u64 = 0;
    let mut i: usize = 0;
    assert(sizes@.take(0) =~= Seq::<(u64, u64)>::empty());
    while i < targets.len()
        invariant
            i <= targets.len(),
            sizes@.len() == targets@.len(),
            size_sum(sizes@, false) <= u64::MAX,
            size_sum(sizes@, true) <= u64::MAX,
            entries@.len() == i,
            forall|k: int|
                0 <= k < i ==> (#[trigger] entries@[k]).path@ == spec_display_image_path(dest@, targets@[k]@)
                    && entries@[k].before == sizes@[k].0 && entries@[k].after == sizes@[k].1,
            tb == size_sum(sizes@.take(i as int), false),
            ta == size_sum(sizes@.take(i as int), true),
        decreases targets.len() - i,
    {
        proof {
            assert(sizes@.take(i + 1).drop_last() =~= sizes@.take(i as int));
            lemma_size_sum_prefix(sizes@, i + 1, false);
            lemma_size_sum_prefix(sizes@, i + 1, true);
        }
        let (before, after) = sizes[i];
        tb = tb + before;
        ta = ta + after;
        entries.push(SizeEntry { path: display_image_path(dest, targets[i].as_str()), before, after });
        i += 1;
    }
    assert(sizes@.take(targets.len() as int) =~= sizes@);
    SizeReport { entries, total_before: tb, total_after: ta, stripped, upx }
}

/// What an `--add-file` source turned out to be.
#[derive(Debug, Clone, Copy, PartialEq, Eq, Structural)]
pub enum SourceKind {
    /// It could not be read.
    Unreadable,
    /// A regular file (symlinks followed).
    File,
    /// A directory.
    Directory,
    /// Anything else (a socket, a device).
    Other,
}

/// Why an `--add-file` entry was refused while staging.
#[derive(Debug, Clone, PartialEq, Eq)]
pub enum AddedFileRefusal {
    /// The source could not be read.
    Unreadable { src: String },
    /// The source is not a regular file.
    NotRegular { src: String, directory: bool },
    /// Something already sits at the image path.
    AlreadyStaged { dst: String },
}

impl AddedFileRefusal {
    /// The error message.
    pub fn message(&self) -> (s: String)
        ensures
            s@ == match self {
                AddedFileRefusal::Unreadable { src } => "--add-file: cannot read "@ + src@,
                AddedFileRefusal::NotRegular { src, directory } => "--add-file: "@ + src@ + " is "@ + (if *directory {
                    "a directory"@
                } else {
                    "not a regular file"@
                }) + "; --add-file takes regular files"@,
                AddedFileRefusal::AlreadyStaged { dst } => "--add-file: "@ + dst@
                    + " is already in the image; --add-file will not replace a staged file, and each image path can be given only once"@,
            },
    {
        match self {
            AddedFileRefusal::Unreadable { src } => concat("--add-file: cannot read ", src.as_str()),
            AddedFileRefusal::NotRegular { src, directory } => {
                let mut s = concat("--add-file: ", src.as_str());
                s.append(" is ");
                s.append(if *directory {
                    "a directory"
                } else {
                    "not a regular file"
                });
                s.append("; --add-file takes regular files");
                s
            },
            AddedFileRefusal::AlreadyStaged { dst } => {
                let mut s = concat("--add-file: ", dst.as_str());
                s.append(
                    " is already in the image; --add-file will not replace a staged file, and each image path can be given only once",
                );
                s
            },
        }
    }
}

/// Decide whether an `--add-file` entry may be staged: its source must be a
/// readable regular file, and nothing may already sit at its image path (copying
/// would truncate it, or write through a soname symlink into the real library).
pub fn check_added_file(file: &AddFile, kind: SourceKind, already_staged: bool) -> (r: Result<(), AddedFileRefusal>)
    ensures
        match r {
            Ok(()) => kind == SourceKind::File && !already_staged,
            Err(AddedFileRefusal::Unreadable { src }) => kind == SourceKind::Unreadable && src@ == file.src@,
            Err(AddedFileRefusal::NotRegular { src, directory }) => (kind == SourceKind::Directory
                || kind == SourceKind::Other) && src@ == file.src@ && directory == (kind
                == SourceKind::Directory),
            Err(AddedFileRefusal::AlreadyStaged { dst }) => kind == SourceKind::File && already_staged
                && dst@ == file.dst@,
        },
{
    match kind {
        SourceKind::Unreadable => Err(AddedFileRefusal::Unreadable { src: file.src.clone() }),
        SourceKind::Directory => Err(AddedFileRefusal::NotRegular { src: file.src.clone(), directory: true }),
        SourceKind::Other => Err(AddedFileRefusal::NotRegular { src: file.src.clone(), directory: false }),
        SourceKind::File => {
            if already_staged {
                Err(AddedFileRefusal::AlreadyStaged { dst: file.dst.clone() })
            } else {
                Ok(())
            }
        },
    }
}

/// The error when `--ca-certs` finds no CA bundle.
pub fn missing_ca_bundle_message() -> (s: String)
    ensures
        s@ == "--ca-certs: CA bundle not found at "@ + CA_BUNDLE@,
{
    concat("--ca-certs: CA bundle not found at ", CA_BUNDLE)
}

} // verus!
