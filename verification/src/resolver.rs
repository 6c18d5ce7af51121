//! Resolve a binary's shared-library dependencies by emulating the `ld.so` search
//! order (never by scraping the host's `ldd`).
//!
//! The search is a breadth-first walk over the dependency graph. RPATH entries are
//! inherited by an object's descendants, RUNPATH entries apply to the object alone,
//! `$ORIGIN` is the directory of the object that declares the entry, and
//! `LD_LIBRARY_PATH` is never consulted. The walk is a state machine ([`Resolver`]):
//! it asks which of a list of candidate files exists first (and where it really
//! lives), or what the dynamic-linking facts of a file are, and it is told the
//! answer. Every transition is specified exactly.

use vstd::prelude::*;
use crate::elf::{goblin_elf, parse_elf, spec_facts, ElfError};
use crate::paths::{
    is_abs, join_path, parent, parent_of, path_join, path_starts_with, slash,
    starts_with_path, strip_root, strip_root_of,
};
use crate::text::{
    chars_of, contains_char, copy_str, lemma_views_push, lemma_views_take, replace, replace_all,
    views,
};

verus! {

// ---------------------------------------------------------------------------
// Dynamic-linking facts
// ---------------------------------------------------------------------------

/// How a binary is linked — decides whether it needs dependency staging at all.
#[derive(Debug, Clone, Copy, PartialEq, Eq, Structural)]
pub enum Linking {
    /// Needs an interpreter and/or shared libraries staged.
    Dynamic,
    /// Self-contained; packs as a single file with no dependency resolution.
    Static,
}

/// Dynamic-linking facts read straight from an ELF, before any path resolution.
///
/// RPATH and RUNPATH are kept apart: they differ in precedence and in scope, and
/// RUNPATH is not inherited by an object's own dependencies.
#[derive(Debug, Clone, PartialEq, Eq)]
pub struct ElfInfo {
    /// Program interpreter (PT_INTERP) — the dynamic loader.
    pub interpreter: Option<String>,
    /// DT_NEEDED: direct shared-library dependencies, by soname.
    pub needed: Vec<String>,
    /// DT_RPATH: searched transitively, only when the object has no RUNPATH.
    pub rpaths: Vec<String>,
    /// DT_RUNPATH: object-local search paths.
    pub runpaths: Vec<String>,
    /// DT_SONAME: this object's own soname, if it declares one.
    pub soname: Option<String>,
    /// 64-bit ELF; drives `$LIB` expansion.
    pub is_64: bool,
    /// ELF machine (`e_machine`); drives `$PLATFORM`.
    pub machine: u16,
    /// The object imports `dlopen`, so it may load libraries the graph cannot see.
    pub uses_dlopen: bool,
}

/// The view of an optional string.
pub open spec fn opt_view(o: Option<String>) -> Option<Seq<char>> {
    match o {
        Some(s) => Some(s@),
        None => None,
    }
}

/// The mathematical content of an [`ElfInfo`].
pub struct ElfInfoView {
    pub interpreter: Option<Seq<char>>,
    pub needed: Seq<Seq<char>>,
    pub rpaths: Seq<Seq<char>>,
    pub runpaths: Seq<Seq<char>>,
    pub soname: Option<Seq<char>>,
    pub is_64: bool,
    pub machine: u16,
    pub uses_dlopen: bool,
}

impl View for ElfInfo {
    type V = ElfInfoView;

    open spec fn view(&self) -> ElfInfoView {
        ElfInfoView {
            interpreter: opt_view(self.interpreter),
            needed: views(self.needed@),
            rpaths: views(self.rpaths@),
            runpaths: views(self.runpaths@),
            soname: opt_view(self.soname),
            is_64: self.is_64,
            machine: self.machine,
            uses_dlopen: self.uses_dlopen,
        }
    }
}

/// A dynamic musl binary: its interpreter is musl's loader.
pub open spec fn spec_is_musl(info: ElfInfoView) -> bool {
    info.interpreter matches Some(i) && crate::text::contains_seq(i, "ld-musl"@)
}

/// How an object with these facts is linked.
pub open spec fn spec_linking(info: ElfInfoView) -> Linking {
    if info.interpreter is None && info.needed.len() == 0 {
        Linking::Static
    } else {
        Linking::Dynamic
    }
}

impl ElfInfo {
    /// A binary is static when it has neither an interpreter nor any DT_NEEDED
    /// entries — nothing to resolve, so it packs as a single file.
    pub fn linking(&self) -> (l: Linking)
        ensures
            l == spec_linking(self@),
    {
        if self.interpreter.is_none() && self.needed.len() == 0 {
            Linking::Static
        } else {
            Linking::Dynamic
        }
    }

    /// Whether this is a dynamic musl binary, told by its interpreter.
    pub fn is_musl(&self) -> (b: bool)
        ensures
            b == spec_is_musl(self@),
    {
        match &self.interpreter {
            Some(i) => crate::text::contains(i.as_str(), "ld-musl"),
            None => false,
        }
    }

    /// An identical copy of these facts.
    pub fn duplicate(&self) -> (r: ElfInfo)
        ensures
            r@ == self@,
    {
        ElfInfo {
            interpreter: clone_opt(&self.interpreter),
            needed: clone_strings(&self.needed),
            rpaths: clone_strings(&self.rpaths),
            runpaths: clone_strings(&self.runpaths),
            soname: clone_opt(&self.soname),
            is_64: self.is_64,
            machine: self.machine,
            uses_dlopen: self.uses_dlopen,
        }
    }
}

/// Read the dynamic-linking facts out of ELF bytes; refused exactly when the ELF
/// parser refuses the bytes.
pub fn parse_elf_info(bytes: &[u8]) -> (r: Result<ElfInfo, ElfError>)
    ensures
        match r {
            Ok(i) => goblin_elf(bytes@) matches Some(g) && i@ == spec_facts(g).link,
            Err(_) => goblin_elf(bytes@) is None,
        },
{
    match parse_elf(bytes) {
        Ok(f) => Ok(f.link),
        Err(e) => Err(e),
    }
}

/// A copy of a list of strings.
pub fn clone_strings(v: &Vec<String>) -> (r: Vec<String>)
    ensures
        r@ == v@,
{
    let mut r: Vec<String> = Vec::new();
    let mut i: usize = 0;
    while i < v.len()
        invariant
            i <= v.len(),
            r@ == v@.take(i as int),
        decreases v.len() - i,
    {
        r.push(v[i].clone());
        i += 1;
        assert(r@ =~= v@.take(i as int));
    }
    assert(v@.take(v.len() as int) =~= v@);
    r
}

/// A copy of an optional string.
pub fn clone_opt(o: &Option<String>) -> (r: Option<String>)
    ensures
        r == *o,
{
    match o {
        Some(s) => Some(s.clone()),
        None => None,
    }
}

/// `v` followed by `w`.
pub fn concat_strings(v: &Vec<String>, w: &Vec<String>) -> (r: Vec<String>)
    ensures
        r@ == v@ + w@,
{
    let mut r = clone_strings(v);
    let mut i: usize = 0;
    while i < w.len()
        invariant
            i <= w.len(),
            r@ == v@ + w@.take(i as int),
        decreases w.len() - i,
    {
        r.push(w[i].clone());
        i += 1;
        assert(r@ =~= v@ + w@.take(i as int));
    }
    assert(w@.take(w.len() as int) =~= w@);
    r
}

// ---------------------------------------------------------------------------
// Search-path arithmetic
// ---------------------------------------------------------------------------

/// The value of `$PLATFORM` for an ELF machine. Only the targeted arches are
/// named; anything else expands to the empty string.
pub open spec fn platform_name(machine: u16) -> Seq<char> {
    if machine == 62 {
        "x86_64"@
    } else if machine == 183 {
        "aarch64"@
    } else {
        ""@
    }
}

/// The value of `$LIB`.
pub open spec fn lib_name(is_64: bool) -> Seq<char> {
    if is_64 {
        "lib64"@
    } else {
        "lib"@
    }
}

/// The `$PLATFORM` token value for `machine` (`EM_X86_64`, `EM_AARCH64`).
pub fn platform(machine: u16) -> (r: &'static str)
    ensures
        r@ == platform_name(machine),
{
    if machine == 62 {
        "x86_64"
    } else if machine == 183 {
        "aarch64"
    } else {
        ""
    }
}

/// Expand the ld.so tokens of a search-path entry against the object that owns
/// it: `$ORIGIN` is that object's directory, `$LIB` and `$PLATFORM` follow the top
/// binary's word size and machine. Each token is replaced in both its braced and
/// bare spelling, in this order.
pub open spec fn spec_expand_tokens(raw: Seq<char>, origin: Seq<char>, is_64: bool, machine: u16) -> Seq<char> {
    let s1 = replace_all(raw, "${ORIGIN}"@, origin);
    let s2 = replace_all(s1, "$ORIGIN"@, origin);
    let s3 = replace_all(s2, "${LIB}"@, lib_name(is_64));
    let s4 = replace_all(s3, "$LIB"@, lib_name(is_64));
    let s5 = replace_all(s4, "${PLATFORM}"@, platform_name(machine));
    replace_all(s5, "$PLATFORM"@, platform_name(machine))
}

/// Expand the ld.so tokens in a search path (see [`spec_expand_tokens`]).
pub fn expand_tokens(raw: &str, origin: &str, is_64: bool, machine: u16) -> (r: String)
    ensures
        r@ == spec_expand_tokens(raw@, origin@, is_64, machine),
{
    proof {
        reveal_strlit("${ORIGIN}");
        reveal_strlit("$ORIGIN");
        reveal_strlit("${LIB}");
        reveal_strlit("$LIB");
        reveal_strlit("${PLATFORM}");
        reveal_strlit("$PLATFORM");
    }
    let lib = if is_64 {
        "lib64"
    } else {
        "lib"
    };
    let plat = platform(machine);
    let s1 = replace(raw, "${ORIGIN}", origin);
    let s2 = replace(s1.as_str(), "$ORIGIN", origin);
    let s3 = replace(s2.as_str(), "${LIB}", lib);
    let s4 = replace(s3.as_str(), "$LIB", lib);
    let s5 = replace(s4.as_str(), "${PLATFORM}", plat);
    replace(s5.as_str(), "$PLATFORM", plat)
}

/// Reroot an absolute path inside the sysroot `root`. Paths already under the root
/// are left alone so they are not rooted twice.
pub open spec fn spec_reroot(root: Seq<char>, path: Seq<char>) -> Seq<char> {
    if root == slash() || path_starts_with(path, root) {
        path
    } else {
        match strip_root(path) {
            Some(rel) => path_join(root, rel),
            None => path,
        }
    }
}

/// Reroot `path` inside `root` (see [`spec_reroot`]).
pub fn reroot(root: &str, path: &str) -> (r: String)
    ensures
        r@ == spec_reroot(root@, path@),
{
    let rv = chars_of(root);
    let is_slash = rv.len() == 1 && rv[0] == '/';
    proof {
        if is_slash {
            assert(root@ =~= slash());
        }
        if root@ == slash() {
            assert(rv@.len() == 1);
        }
    }
    if is_slash || starts_with_path(path, root) {
        return copy_str(path);
    }
    match strip_root_of(path) {
        Some(rel) => join_path(root, rel.as_str()),
        None => copy_str(path),
    }
}

/// The directory `$ORIGIN` names for the object at `path`; `/` when it has no parent.
pub open spec fn origin_dir(path: Seq<char>) -> Seq<char> {
    match parent(path) {
        Some(d) => d,
        None => slash(),
    }
}

/// The directory one RPATH/RUNPATH entry names: tokens expanded, an absolute
/// result rerooted inside the sysroot, a relative one taken from the origin.
pub open spec fn spec_entry_dir(entry: Seq<char>, origin: Seq<char>, root: Seq<char>, is_64: bool, machine: u16) -> Seq<char> {
    let expanded = spec_expand_tokens(entry, origin, is_64, machine);
    if is_abs(expanded) {
        spec_reroot(root, expanded)
    } else {
        path_join(origin, expanded)
    }
}

/// The directories a list of RPATH/RUNPATH entries names, in order.
pub open spec fn spec_build_dirs(raw: Seq<Seq<char>>, origin: Seq<char>, root: Seq<char>, is_64: bool, machine: u16) -> Seq<Seq<char>> {
    Seq::new(raw.len(), |i: int| spec_entry_dir(raw[i], origin, root, is_64, machine))
}

/// Turn raw RPATH/RUNPATH entries into concrete directories.
pub fn build_dirs(raw: &Vec<String>, origin: &str, root: &str, is_64: bool, machine: u16) -> (r: Vec<String>)
    ensures
        views(r@) == spec_build_dirs(views(raw@), origin@, root@, is_64, machine),
{
    let mut r: Vec<String> = Vec::new();
    let mut i: usize = 0;
    while i < raw.len()
        invariant
            i <= raw.len(),
            views(r@) == spec_build_dirs(views(raw@.take(i as int)), origin@, root@, is_64, machine),
        decreases raw.len() - i,
    {
        let expanded = expand_tokens(raw[i].as_str(), origin, is_64, machine);
        let dir = if crate::paths::is_absolute(expanded.as_str()) {
            reroot(root, expanded.as_str())
        } else {
            join_path(origin, expanded.as_str())
        };
        let ghost old_r = r@;
        r.push(dir);
        i += 1;
        proof {
            lemma_views_push(old_r, r@.last());
            assert(r@ == old_r.push(r@.last()));
            lemma_views_take(raw@, i as int);
            lemma_views_take(raw@, i - 1);
            let b = spec_build_dirs(views(raw@.take(i as int)), origin@, root@, is_64, machine);
            let b0 = spec_build_dirs(views(raw@.take(i - 1)), origin@, root@, is_64, machine);
            assert(b =~= b0.push(spec_entry_dir(raw@[i - 1]@, origin@, root@, is_64, machine)));
        }
    }
    assert(raw@.take(raw.len() as int) =~= raw@);
    r
}

/// Add `item` to `v` unless it is already there.
pub open spec fn spec_push_unique(v: Seq<Seq<char>>, item: Seq<char>) -> Seq<Seq<char>> {
    if v.contains(item) {
        v
    } else {
        v.push(item)
    }
}

/// Is `item` among `v`?
pub fn contains_string(v: &Vec<String>, item: &str) -> (b: bool)
    ensures
        b == views(v@).contains(item@),
{
    let mut i: usize = 0;
    while i < v.len()
        invariant
            i <= v.len(),
            forall|j: int| 0 <= j < i ==> v@[j]@ != item@,
        decreases v.len() - i,
    {
        if crate::text::str_eq(v[i].as_str(), item) {
            proof {
                assert(views(v@)[i as int] == item@);
            }
            return true;
        }
        i += 1;
    }
    proof {
        if views(v@).contains(item@) {
            let k = choose|k: int| 0 <= k < views(v@).len() && views(v@)[k] == item@;
            assert(v@[k]@ == item@);
        }
    }
    false
}

/// Add `item` to `v` unless it is already there.
pub fn push_unique(v: &mut Vec<String>, item: String)
    ensures
        views(final(v)@) == spec_push_unique(views(old(v)@), item@),
{
    if !contains_string(v, item.as_str()) {
        v.push(item);
        proof {
            assert(views(v@) =~= views(old(v)@).push(item@));
        }
    }
}

// ---------------------------------------------------------------------------
// The sysroot
// ---------------------------------------------------------------------------

/// A pinned root filesystem to resolve against, plus the loader's default search
/// dirs under it. The host environment is never consulted.
#[derive(Debug)]
pub struct Sysroot {
    root: String,
    default_dirs: Vec<String>,
}

/// The loader's default directories, relative to the sysroot: the glibc lib
/// locations of the targeted arches.
pub open spec fn default_rel_dirs() -> Seq<Seq<char>> {
    seq![
        "lib64"@,
        "usr/lib64"@,
        "lib"@,
        "usr/lib"@,
        "lib/x86_64-linux-gnu"@,
        "usr/lib/x86_64-linux-gnu"@,
        "lib/aarch64-linux-gnu"@,
        "usr/lib/aarch64-linux-gnu"@,
    ]
}

impl Sysroot {
    /// The root directory.
    pub closed spec fn spec_root(&self) -> Seq<char> {
        self.root@
    }

    /// The default search directories, in search order.
    pub closed spec fn spec_default_dirs(&self) -> Seq<Seq<char>> {
        views(self.default_dirs@)
    }

    /// Build a sysroot rooted at `root`; its default dirs are the glibc lib
    /// locations joined under it.
    pub fn new(root: &str) -> (s: Sysroot)
        ensures
            s.spec_root() == root@,
            s.spec_default_dirs() == Seq::new(8, |i: int| path_join(root@, default_rel_dirs()[i])),
    {
        let mut dirs: Vec<String> = Vec::new();
        dirs.push(join_path(root, "lib64"));
        dirs.push(join_path(root, "usr/lib64"));
        dirs.push(join_path(root, "lib"));
        dirs.push(join_path(root, "usr/lib"));
        dirs.push(join_path(root, "lib/x86_64-linux-gnu"));
        dirs.push(join_path(root, "usr/lib/x86_64-linux-gnu"));
        dirs.push(join_path(root, "lib/aarch64-linux-gnu"));
        dirs.push(join_path(root, "usr/lib/aarch64-linux-gnu"));
        let s = Sysroot { root: copy_str(root), default_dirs: dirs };
        assert(s.spec_default_dirs() =~= Seq::new(8, |i: int| path_join(root@, default_rel_dirs()[i])));
        s
    }

    /// The root directory.
    pub fn root(&self) -> (r: &str)
        ensures
            r@ == self.spec_root(),
    {
        self.root.as_str()
    }
}

// ---------------------------------------------------------------------------
// Resolution results
// ---------------------------------------------------------------------------

/// A library located during resolution.
#[derive(Debug, Clone, PartialEq, Eq)]
pub struct ResolvedLib {
    /// The soname the loader searched for (`libfoo.so.1`).
    pub soname: String,
    /// The real file it resolved to, symlinks followed.
    pub path: String,
}

/// The dynamic loader: where the kernel execs it in the image, and the real file
/// in the sysroot that provides it.
#[derive(Debug, Clone, PartialEq, Eq)]
pub struct ResolvedInterp {
    /// The PT_INTERP path, verbatim — the loader must live at exactly this path.
    pub image_path: String,
    /// The real file in the sysroot.
    pub source: String,
}

/// The closed set of what a binary needs at runtime.
#[derive(Debug, Clone, PartialEq, Eq, Default)]
pub struct Resolution {
    /// The dynamic loader; `None` for a static binary or when the sysroot lacks it.
    pub interpreter: Option<ResolvedInterp>,
    /// Every transitive shared library, deduplicated by real path.
    pub libs: Vec<ResolvedLib>,
    /// Sonames that could not be located. Non-empty means the image would be broken.
    pub missing: Vec<String>,
}

/// The mathematical content of a [`Resolution`].
pub struct ResolutionView {
    pub interpreter: Option<(Seq<char>, Seq<char>)>,
    pub libs: Seq<(Seq<char>, Seq<char>)>,
    pub missing: Seq<Seq<char>>,
}

/// The (soname, path) pairs of a list of resolved libraries.
pub open spec fn lib_views(libs: Seq<ResolvedLib>) -> Seq<(Seq<char>, Seq<char>)> {
    libs.map_values(|l: ResolvedLib| (l.soname@, l.path@))
}

impl View for Resolution {
    type V = ResolutionView;

    open spec fn view(&self) -> ResolutionView {
        ResolutionView {
            interpreter: match self.interpreter {
                Some(i) => Some((i.image_path@, i.source@)),
                None => None,
            },
            libs: lib_views(self.libs@),
            missing: views(self.missing@),
        }
    }
}

impl Resolution {
    /// The loader's image path, when there is one.
    pub fn interpreter_path(&self) -> (r: Option<String>)
        ensures
            match r {
                Some(p) => self@.interpreter matches Some(i) && p@ == i.0,
                None => self@.interpreter is None,
            },
    {
        match &self.interpreter {
            Some(i) => Some(i.image_path.clone()),
            None => None,
        }
    }
}

// ---------------------------------------------------------------------------
// The search as a state machine
// ---------------------------------------------------------------------------

/// A resolved object waiting to have its own dependencies searched.
pub struct QueuedObject {
    /// Its real path.
    pub path: Seq<char>,
    /// Its dynamic-linking facts.
    pub info: ElfInfoView,
    /// The RPATH directories its ancestors contribute.
    pub inherited: Seq<Seq<char>>,
}

/// The object whose DT_NEEDED entries are being searched.
pub struct CurrentObject {
    /// Its directory (`$ORIGIN`).
    pub dir: Seq<char>,
    /// The directories searched for each bare soname, in order.
    pub search: Seq<Seq<char>>,
    /// The RPATH directories its children inherit.
    pub child_rpaths: Seq<Seq<char>>,
    /// Its DT_NEEDED sonames.
    pub needed: Seq<Seq<char>>,
    /// How many of them have been searched.
    pub next: nat,
}

/// The state of a resolution in progress.
pub struct ResolverState {
    pub root: Seq<char>,
    pub default_dirs: Seq<Seq<char>>,
    pub is_64: bool,
    pub machine: u16,
    pub queue: Seq<QueuedObject>,
    pub head: nat,
    pub visited: Seq<Seq<char>>,
    pub interp: Option<(Seq<char>, Seq<char>)>,
    pub libs: Seq<(Seq<char>, Seq<char>)>,
    pub missing: Seq<Seq<char>>,
    pub pending_interp: Option<Seq<char>>,
    pub cur: Option<CurrentObject>,
    pub reading: Option<Seq<char>>,
}

/// What the resolution needs to know next.
pub enum QueryView {
    /// The first of these files that exists, and its real path.
    Locate(Seq<Seq<char>>),
    /// The dynamic-linking facts of this file.
    Read(Seq<char>),
    /// Nothing: the resolution is complete.
    Done,
}

/// What the resolution needs to know next.
#[derive(Debug)]
pub enum Query {
    /// Report the real path of the first of these files that exists, or that none does.
    Locate(Vec<String>),
    /// Report the dynamic-linking facts of this file, or that it does not parse.
    Read(String),
    /// The resolution is complete.
    Done,
}

impl View for Query {
    type V = QueryView;

    open spec fn view(&self) -> QueryView {
        match self {
            Query::Locate(c) => QueryView::Locate(views(c@)),
            Query::Read(p) => QueryView::Read(p@),
            Query::Done => QueryView::Done,
        }
    }
}

/// Start searching the object `item`: its own RPATH (ignored when it declares a
/// RUNPATH), then the RPATH its ancestors contribute, then its RUNPATH, then the
/// default dirs. Its children inherit its own and its ancestors' RPATH, never its
/// RUNPATH.
pub open spec fn spec_begin(s: ResolverState, item: QueuedObject) -> CurrentObject {
    let dir = origin_dir(item.path);
    let own = if item.info.runpaths.len() == 0 {
        spec_build_dirs(item.info.rpaths, dir, s.root, s.is_64, s.machine)
    } else {
        Seq::empty()
    };
    let runpath_dirs = spec_build_dirs(item.info.runpaths, dir, s.root, s.is_64, s.machine);
    CurrentObject {
        dir,
        search: own + item.inherited + runpath_dirs + s.default_dirs,
        child_rpaths: own + item.inherited,
        needed: item.info.needed,
        next: 0,
    }
}

/// The files tried for `soname`: a soname holding a slash is a path (rerooted when
/// absolute, origin-relative otherwise); a bare soname is looked up in each search
/// directory in turn.
pub open spec fn spec_candidates(root: Seq<char>, cur: CurrentObject, soname: Seq<char>) -> Seq<Seq<char>> {
    if soname.contains('/') {
        seq![
            if is_abs(soname) {
                spec_reroot(root, soname)
            } else {
                path_join(cur.dir, soname)
            },
        ]
    } else {
        Seq::new(cur.search.len(), |i: int| path_join(cur.search[i], soname))
    }
}

/// Is the resolution waiting for an answer?
pub open spec fn waiting(s: ResolverState) -> bool {
    ||| s.pending_interp is Some
    ||| s.reading is Some
    ||| (s.cur matches Some(c) && c.next < c.needed.len())
}

/// Move to the next queued object until there is something to ask.
pub open spec fn spec_settle(s: ResolverState) -> ResolverState
    decreases s.queue.len() - s.head,
{
    if waiting(s) || s.head >= s.queue.len() {
        s
    } else {
        spec_settle(ResolverState { cur: Some(spec_begin(s, s.queue[s.head as int])), head: s.head + 1, ..s })
    }
}

/// The question a settled state asks.
pub open spec fn spec_query(s: ResolverState) -> QueryView {
    match s.pending_interp {
        Some(i) => QueryView::Locate(seq![spec_reroot(s.root, i)]),
        None => match s.reading {
            Some(p) => QueryView::Read(p),
            None => match s.cur {
                Some(c) => if c.next < c.needed.len() {
                    QueryView::Locate(spec_candidates(s.root, c, c.needed[c.next as int]))
                } else {
                    QueryView::Done
                },
                None => QueryView::Done,
            },
        },
    }
}

/// The state after a `Locate` question is answered with the real path of the first
/// existing candidate (`found`). The loader is recorded at its PT_INTERP path; a
/// library is recorded (and its facts asked for) only the first time its real path
/// is seen; an unlocated name is recorded as missing.
pub open spec fn spec_after_locate(s: ResolverState, found: Option<Seq<char>>) -> ResolverState {
    match s.pending_interp {
        Some(i) => match found {
            Some(real_path) => ResolverState { pending_interp: None, interp: Some((i, real_path)), ..s },
            None => ResolverState { pending_interp: None, missing: s.missing.push(i), ..s },
        },
        None => {
            let c = s.cur->0;
            let soname = c.needed[c.next as int];
            let next = CurrentObject { next: c.next + 1, ..c };
            match found {
                None => ResolverState {
                    cur: Some(next),
                    missing: spec_push_unique(s.missing, soname),
                    ..s
                },
                Some(real_path) => if s.visited.contains(real_path) {
                    ResolverState { cur: Some(next), ..s }
                } else {
                    ResolverState {
                        cur: Some(next),
                        visited: s.visited.push(real_path),
                        libs: s.libs.push((soname, real_path)),
                        reading: Some(real_path),
                        ..s
                    }
                },
            }
        },
    }
}

/// The state after a `Read` question is answered: a file that parses is queued with
/// the RPATH its parent passes down; one that does not stays a leaf.
pub open spec fn spec_after_read(s: ResolverState, info: Option<ElfInfoView>) -> ResolverState {
    match info {
        Some(i) => ResolverState {
            queue: s.queue.push(
                QueuedObject { path: s.reading->0, info: i, inherited: s.cur->0.child_rpaths },
            ),
            reading: None,
            ..s
        },
        None => ResolverState { reading: None, ..s },
    }
}

/// The initial state for the binary at `root_path` (its real path) with facts
/// `info`; `includes` are searched as extra direct dependencies of the binary.
pub open spec fn spec_start(root_path: Seq<char>, info: ElfInfoView, includes: Seq<Seq<char>>, root: Seq<char>, default_dirs: Seq<Seq<char>>) -> ResolverState {
    ResolverState {
        root,
        default_dirs,
        is_64: info.is_64,
        machine: info.machine,
        queue: seq![
            QueuedObject {
                path: root_path,
                info: ElfInfoView { needed: info.needed + includes, ..info },
                inherited: Seq::empty(),
            },
        ],
        head: 0,
        visited: seq![root_path],
        interp: None,
        libs: Seq::empty(),
        missing: Seq::empty(),
        pending_interp: info.interpreter,
        cur: None,
        reading: None,
    }
}

/// `--include` entries are searched as direct dependencies of the binary: a
/// resolution starts with the binary as its only queued object, and the list of
/// names searched for the binary is its own DT_NEEDED entries, in order, followed
/// by every include, in order. Nothing is searched yet and nothing is found yet.
pub proof fn law_includes_are_direct_dependencies(
    root_path: Seq<char>,
    info: ElfInfoView,
    includes: Seq<Seq<char>>,
    root: Seq<char>,
    default_dirs: Seq<Seq<char>>,
)
    ensures
        spec_start(root_path, info, includes, root, default_dirs).queue.len() == 1,
        spec_start(root_path, info, includes, root, default_dirs).queue[0].path == root_path,
        spec_start(root_path, info, includes, root, default_dirs).head == 0,
        ({
            let s = spec_start(root_path, info, includes, root, default_dirs);
            let needed = spec_begin(s, s.queue[0]).needed;
            &&& needed.len() == info.needed.len() + includes.len()
            &&& forall|j: int| 0 <= j < info.needed.len() ==> needed[j] == info.needed[j]
            &&& forall|j: int| 0 <= j < includes.len() ==> #[trigger] needed[info.needed.len() + j] == includes[j]
            &&& forall|j: int| 0 <= j < includes.len() ==> needed.contains(#[trigger] includes[j])
        }),
        spec_start(root_path, info, includes, root, default_dirs).libs.len() == 0,
        spec_start(root_path, info, includes, root, default_dirs).missing.len() == 0,
{
    let s = spec_start(root_path, info, includes, root, default_dirs);
    let needed = spec_begin(s, s.queue[0]).needed;
    assert forall|j: int| 0 <= j < includes.len() implies needed.contains(#[trigger] includes[j]) by {
        assert(needed[info.needed.len() + j] == includes[j]);
    }
}

/// The items of `v` are pairwise distinct.
pub open spec fn distinct(v: Seq<Seq<char>>) -> bool {
    forall|i: int, j: int| 0 <= i < j < v.len() ==> v[i] != v[j]
}

/// The paths of the resolved libraries.
pub open spec fn lib_paths(libs: Seq<(Seq<char>, Seq<char>)>) -> Seq<Seq<char>> {
    Seq::new(libs.len(), |i: int| libs[i].1)
}

/// What holds of every state the resolution passes through.
pub open spec fn resolver_inv(s: ResolverState) -> bool {
    &&& s.head <= s.queue.len()
    &&& distinct(s.visited)
    &&& distinct(lib_paths(s.libs))
    &&& forall|i: int| 0 <= i < s.libs.len() ==> s.visited.contains(#[trigger] s.libs[i].1)
    &&& distinct(s.missing)
    &&& (s.pending_interp is Some ==> s.missing.len() == 0 && s.reading is None)
    &&& (s.reading matches Some(p) ==> s.visited.contains(p) && s.cur is Some)
    &&& (s.cur matches Some(c) ==> c.next <= c.needed.len())
}

/// The resolution state machine. See the module documentation.
pub struct Resolver {
    sysroot: Sysroot,
    is_64: bool,
    machine: u16,
    queue: Vec<QueueEntry>,
    head: usize,
    visited: Vec<String>,
    resolution: Resolution,
    pending_interp: Option<String>,
    cur: Option<Current>,
    reading: Option<String>,
}

struct QueueEntry {
    path: String,
    info: ElfInfo,
    inherited: Vec<String>,
}

struct Current {
    dir: String,
    search: Vec<String>,
    child_rpaths: Vec<String>,
    needed: Vec<String>,
    next: usize,
}

impl View for QueueEntry {
    type V = QueuedObject;

    closed spec fn view(&self) -> QueuedObject {
        QueuedObject { path: self.path@, info: self.info@, inherited: views(self.inherited@) }
    }
}

impl View for Current {
    type V = CurrentObject;

    closed spec fn view(&self) -> CurrentObject {
        CurrentObject {
            dir: self.dir@,
            search: views(self.search@),
            child_rpaths: views(self.child_rpaths@),
            needed: views(self.needed@),
            next: self.next as nat,
        }
    }
}

impl View for Resolver {
    type V = ResolverState;

    closed spec fn view(&self) -> ResolverState {
        ResolverState {
            root: self.sysroot.root@,
            default_dirs: views(self.sysroot.default_dirs@),
            is_64: self.is_64,
            machine: self.machine,
            queue: self.queue@.map_values(|q: QueueEntry| q@),
            head: self.head as nat,
            visited: views(self.visited@),
            interp: self.resolution@.interpreter,
            libs: self.resolution@.libs,
            missing: self.resolution@.missing,
            pending_interp: opt_view(self.pending_interp),
            cur: match self.cur {
                Some(c) => Some(c@),
                None => None,
            },
            reading: opt_view(self.reading),
        }
    }
}

/// The candidates tried for `soname` from the object `cur`.
fn candidates(root: &str, cur: &Current, soname: &str) -> (r: Vec<String>)
    ensures
        views(r@) == spec_candidates(root@, cur@, soname@),
{
    let mut r: Vec<String> = Vec::new();
    if contains_char(soname, '/') {
        let c = if crate::paths::is_absolute(soname) {
            reroot(root, soname)
        } else {
            join_path(cur.dir.as_str(), soname)
        };
        r.push(c);
        assert(views(r@) =~= spec_candidates(root@, cur@, soname@));
        return r;
    }
    let mut i: usize = 0;
    while i < cur.search.len()
        invariant
            i <= cur.search.len(),
            !soname@.contains('/'),
            views(r@) == Seq::new(i as nat, |k: int| path_join(cur@.search[k], soname@)),
        decreases cur.search.len() - i,
    {
        let ghost old_r = r@;
        r.push(join_path(cur.search[i].as_str(), soname));
        i += 1;
        proof {
            lemma_views_push(old_r, r@.last());
            assert(r@ == old_r.push(r@.last()));
            let b = Seq::new(i as nat, |k: int| path_join(cur@.search[k], soname@));
            let b0 = Seq::new((i - 1) as nat, |k: int| path_join(cur@.search[k], soname@));
            assert(b =~= b0.push(path_join(cur@.search[i - 1], soname@)));
        }
    }
    r
}

impl Resolver {
    /// The state's invariant holds.
    pub open spec fn inv(&self) -> bool {
        resolver_inv(self@)
    }

    /// Start resolving the binary whose real path is `root_path` and whose facts are
    /// `info`, against `sysroot`. `includes` are force-staged extra libraries (sonames
    /// or paths), searched as direct dependencies of the binary.
    pub fn start(root_path: &str, info: &ElfInfo, includes: &Vec<String>, sysroot: Sysroot) -> (r: Resolver)
        ensures
            r@ == spec_start(root_path@, info@, views(includes@), sysroot.spec_root(), sysroot.spec_default_dirs()),
            r.inv(),
    {
        let mut root_info = info.duplicate();
        root_info.needed = concat_strings(&info.needed, includes);
        let mut queue: Vec<QueueEntry> = Vec::new();
        queue.push(QueueEntry { path: copy_str(root_path), info: root_info, inherited: Vec::new() });
        let mut visited: Vec<String> = Vec::new();
        visited.push(copy_str(root_path));
        let r = Resolver {
            sysroot,
            is_64: info.is_64,
            machine: info.machine,
            queue,
            head: 0,
            visited,
            resolution: Resolution { interpreter: None, libs: Vec::new(), missing: Vec::new() },
            pending_interp: clone_opt(&info.interpreter),
            cur: None,
            reading: None,
        };
        proof {
            let s = spec_start(root_path@, info@, views(includes@), sysroot.spec_root(), sysroot.spec_default_dirs());
            assert(views(r.queue@[0].info.needed@) =~= info@.needed + views(includes@));
            assert(r.queue@[0]@.info == s.queue[0].info);
            assert(views(r.queue@[0].inherited@) =~= Seq::<Seq<char>>::empty());
            assert(r@.queue =~= s.queue);
            assert(r@.visited =~= s.visited);
            assert(r@.libs =~= s.libs);
            assert(r@.missing =~= s.missing);
        }
        r
    }

    /// Advance to the next question. Objects whose dependencies have all been
    /// searched give way to the next queued object.
    pub fn next_query(&mut self) -> (q: Query)
        requires
            old(self).inv(),
        ensures
            final(self)@ == spec_settle(old(self)@),
            q@ == spec_query(final(self)@),
            final(self).inv(),
    {
        loop
            invariant
                self.inv(),
                spec_settle(self@) == spec_settle(old(self)@),
            ensures
                self.inv(),
                spec_settle(self@) == spec_settle(old(self)@),
                waiting(self@) || self@.head >= self@.queue.len(),
            decreases self.queue.len() - self.head,
        {
            let busy = self.pending_interp.is_some() || self.reading.is_some() || match &self.cur {
                Some(c) => c.next < c.needed.len(),
                None => false,
            };
            if busy || self.head >= self.queue.len() {
                break;
            }
            let ghost before = self@;
            let c = self.begin(self.head);
            self.cur = Some(c);
            self.head = self.head + 1;
            proof {
                assert(self@.queue =~= before.queue);
                assert(self@ == ResolverState {
                    cur: Some(spec_begin(before, before.queue[before.head as int])),
                    head: before.head + 1,
                    ..before
                });
            }
        }
        self.current_query()
    }

    /// Start searching the queued object at `idx`.
    fn begin(&self, idx: usize) -> (c: Current)
        requires
            idx < self.queue.len(),
        ensures
            c@ == spec_begin(self@, self@.queue[idx as int]),
    {
        let item = &self.queue[idx];
        let dir = match parent_of(item.path.as_str()) {
            Some(d) => d,
            None => {
                let mut s = String::new();
                crate::text::push_char(&mut s, '/');
                assert(s@ =~= slash());
                s
            },
        };
        let root = self.sysroot.root.as_str();
        let own = if item.info.runpaths.len() == 0 {
            build_dirs(&item.info.rpaths, dir.as_str(), root, self.is_64, self.machine)
        } else {
            Vec::new()
        };
        let runpath_dirs = build_dirs(&item.info.runpaths, dir.as_str(), root, self.is_64, self.machine);
        let child_rpaths = concat_strings(&own, &item.inherited);
        let a = concat_strings(&child_rpaths, &runpath_dirs);
        let search = concat_strings(&a, &self.sysroot.default_dirs);
        let c = Current { dir, search, child_rpaths, needed: clone_strings(&item.info.needed), next: 0 };
        proof {
            let q = self@.queue[idx as int];
            assert(q == item@);
            let spec = spec_begin(self@, q);
            assert(views(c.child_rpaths@) =~= spec.child_rpaths);
            assert(views(c.search@) =~= spec.search);
        }
        c
    }

    /// The question the current state asks.
    fn current_query(&self) -> (q: Query)
        requires
            self.inv(),
        ensures
            q@ == spec_query(self@),
    {
        if let Some(i) = &self.pending_interp {
            let mut v: Vec<String> = Vec::new();
            v.push(reroot(self.sysroot.root.as_str(), i.as_str()));
            assert(views(v@) =~= seq![spec_reroot(self@.root, i@)]);
            return Query::Locate(v);
        }
        if let Some(p) = &self.reading {
            return Query::Read(p.clone());
        }
        match &self.cur {
            Some(c) => {
                if c.next < c.needed.len() {
                    Query::Locate(candidates(self.sysroot.root.as_str(), c, c.needed[c.next].as_str()))
                } else {
                    Query::Done
                }
            },
            None => Query::Done,
        }
    }

    /// Answer a `Locate` question with the real path of the first candidate that
    /// exists, or `None` when none does.
    pub fn located(&mut self, found: Option<String>)
        requires
            old(self).inv(),
            spec_query(old(self)@) is Locate,
        ensures
            final(self)@ == spec_after_locate(old(self)@, opt_view(found)),
            final(self).inv(),
    {
        let ghost s = self@;
        if let Some(i) = self.pending_interp.take() {
            match found {
                Some(real_path) => {
                    self.resolution.interpreter = Some(ResolvedInterp { image_path: i, source: real_path });
                },
                None => {
                    self.resolution.missing.push(i);
                    proof {
                        assert(self@.missing =~= s.missing.push(s.pending_interp->0));
                    }
                },
            }
            proof {
                assert(self@.queue =~= s.queue);
                assert(self@.libs =~= s.libs);
                assert(self@ == spec_after_locate(s, opt_view(found)));
            }
            return;
        }
        proof {
            assert(s.cur->0.next < s.cur->0.needed.len());
        }
        let mut c = self.cur.take().unwrap();
        proof {
            assert(c@ == s.cur->0);
            assert(c@.needed.len() == c.needed@.len());
            assert(c.next < c.needed.len());
        }
        let soname = c.needed[c.next].clone();
        c.next = c.next + 1;
        match found {
            None => {
                push_unique(&mut self.resolution.missing, soname);
                self.cur = Some(c);
                proof {
                    assert(self@.queue =~= s.queue);
                    assert(self@.libs =~= s.libs);
                    assert(self@ == spec_after_locate(s, opt_view(found)));
                }
            },
            Some(real_path) => {
                if contains_string(&self.visited, real_path.as_str()) {
                    self.cur = Some(c);
                    proof {
                        assert(self@.queue =~= s.queue);
                        assert(self@.libs =~= s.libs);
                        assert(self@.missing =~= s.missing);
                        assert(self@ == spec_after_locate(s, opt_view(found)));
                    }
                } else {
                    self.visited.push(real_path.clone());
                    self.resolution.libs.push(ResolvedLib { soname, path: real_path.clone() });
                    self.reading = Some(real_path);
                    self.cur = Some(c);
                    proof {
                        let f = opt_view(found)->0;
                        assert(self@.queue =~= s.queue);
                        assert(self@.visited =~= s.visited.push(f));
                        assert(self@.libs =~= s.libs.push((s.cur->0.needed[s.cur->0.next as int], f)));
                        assert(self@.missing =~= s.missing);
                        assert(self@ == spec_after_locate(s, opt_view(found)));
                        let t = self@;
                        assert(lib_paths(t.libs) =~= lib_paths(s.libs).push(f));
                        assert forall|k: int| 0 <= k < t.libs.len() implies t.visited.contains(
                            #[trigger] t.libs[k].1,
                        ) by {
                            if k < s.libs.len() {
                                assert(s.visited.contains(s.libs[k].1));
                                let w = choose|w: int| 0 <= w < s.visited.len() && s.visited[w] == s.libs[k].1;
                                assert(t.visited[w] == t.libs[k].1);
                            } else {
                                assert(t.visited[s.visited.len() as int] == f);
                            }
                        }
                        assert(t.visited[s.visited.len() as int] == f);
                        assert forall|a: int, b: int| 0 <= a < b < lib_paths(t.libs).len() implies lib_paths(t.libs)[a] != lib_paths(t.libs)[b] by {
                            if b == s.libs.len() {
                                if lib_paths(t.libs)[a] == f {
                                    assert(s.visited.contains(s.libs[a].1));
                                }
                            }
                        }
                    }
                }
            },
        }
    }

    /// Answer a `Read` question with the file's dynamic-linking facts, or `None`
    /// when it does not parse (such a file stays a leaf).
    pub fn read(&mut self, info: Option<ElfInfo>)
        requires
            old(self).inv(),
            spec_query(old(self)@) is Read,
        ensures
            final(self)@ == spec_after_read(old(self)@, match info {
                Some(i) => Some(i@),
                None => None,
            }),
            final(self).inv(),
    {
        let ghost s = self@;
        let path = self.reading.take().unwrap();
        match info {
            Some(i) => {
                let inherited = match &self.cur {
                    Some(c) => clone_strings(&c.child_rpaths),
                    None => Vec::new(),
                };
                self.queue.push(QueueEntry { path, info: i, inherited });
                proof {
                    assert(self@.queue =~= s.queue.push(
                        QueuedObject { path: s.reading->0, info: i@, inherited: s.cur->0.child_rpaths },
                    ));
                }
            },
            None => {
                proof {
                    assert(self@.queue =~= s.queue);
                }
            },
        }
        proof {
            assert(self@.libs =~= s.libs);
        }
    }

    /// The resolution found so far (complete once the question is `Done`).
    pub fn finish(self) -> (r: Resolution)
        ensures
            r@ == (ResolutionView { interpreter: self@.interp, libs: self@.libs, missing: self@.missing }),
    {
        self.resolution
    }
}

/// The libraries of a resolved set are distinct by real path, and so are the
/// missing names: a library shared by several objects (a diamond) is staged once.
pub proof fn law_resolution_deduplicated(s: ResolverState)
    requires
        resolver_inv(s),
    ensures
        distinct(lib_paths(s.libs)),
        distinct(s.missing),
        forall|i: int| 0 <= i < s.libs.len() ==> s.visited.contains(#[trigger] s.libs[i].1),
{
}

/// The binary is the first object visited and is none of the libraries found.
pub open spec fn binary_apart(s: ResolverState, binary: Seq<char>) -> bool {
    &&& s.visited.len() > 0
    &&& s.visited[0] == binary
    &&& forall|i: int| 0 <= i < s.libs.len() ==> #[trigger] s.libs[i].1 != binary
}

/// Moving to the next queued object records nothing.
proof fn lemma_settle_keeps_found(s: ResolverState)
    ensures
        spec_settle(s).visited == s.visited,
        spec_settle(s).libs == s.libs,
    decreases s.queue.len() - s.head,
{
    if !(waiting(s) || s.head >= s.queue.len()) {
        lemma_settle_keeps_found(ResolverState { cur: Some(spec_begin(s, s.queue[s.head as int])), head: s.head + 1, ..s });
    }
}

/// The binary is never among its own resolved libraries, even when a dependency
/// resolves back to it: the resolution starts with the binary visited, and a real
/// path already visited is never recorded as a library. Every step keeps this.
pub proof fn law_binary_is_not_its_own_library(
    root_path: Seq<char>,
    info: ElfInfoView,
    includes: Seq<Seq<char>>,
    root: Seq<char>,
    default_dirs: Seq<Seq<char>>,
    s: ResolverState,
    found: Option<Seq<char>>,
    read: Option<ElfInfoView>,
)
    ensures
        binary_apart(spec_start(root_path, info, includes, root, default_dirs), root_path),
        binary_apart(s, root_path) ==> binary_apart(spec_settle(s), root_path),
        binary_apart(s, root_path) ==> binary_apart(spec_after_locate(s, found), root_path),
        binary_apart(s, root_path) ==> binary_apart(spec_after_read(s, read), root_path),
{
    lemma_settle_keeps_found(s);
    if binary_apart(s, root_path) {
        let n = spec_after_locate(s, found);
        if s.pending_interp is None {
            if let Some(real_path) = found {
                if !s.visited.contains(real_path) {
                    assert(real_path != s.visited[0]);
                    assert(n.visited[0] == s.visited[0]);
                    assert forall|i: int| 0 <= i < n.libs.len() implies #[trigger] n.libs[i].1 != root_path by {
                        if i < s.libs.len() {
                            assert(n.libs[i] == s.libs[i]);
                        }
                    }
                }
            }
        }
    }
}

/// Every step keeps the invariant.
pub proof fn law_steps_keep_invariant(s: ResolverState, found: Option<Seq<char>>, info: Option<ElfInfoView>)
    requires
        resolver_inv(s),
    ensures
        resolver_inv(spec_settle(s)),
        spec_query(s) is Locate ==> resolver_inv(spec_after_locate(s, found)),
        spec_query(s) is Read ==> resolver_inv(spec_after_read(s, info)),
{
    lemma_settle_inv(s);
    if spec_query(s) is Locate {
        lemma_locate_inv(s, found);
    }
}

proof fn lemma_settle_inv(s: ResolverState)
    requires
        resolver_inv(s),
    ensures
        resolver_inv(spec_settle(s)),
    decreases s.queue.len() - s.head,
{
    if !(waiting(s) || s.head >= s.queue.len()) {
        let t = ResolverState { cur: Some(spec_begin(s, s.queue[s.head as int])), head: s.head + 1, ..s };
        lemma_settle_inv(t);
    }
}

proof fn lemma_locate_inv(s: ResolverState, found: Option<Seq<char>>)
    requires
        resolver_inv(s),
        spec_query(s) is Locate,
    ensures
        resolver_inv(spec_after_locate(s, found)),
{
    let t = spec_after_locate(s, found);
    if s.pending_interp is None {
        if let Some(f) = found {
            if !s.visited.contains(f) {
                assert(lib_paths(t.libs) =~= lib_paths(s.libs).push(f));
                assert(t.visited[s.visited.len() as int] == f);
                assert forall|k: int| 0 <= k < t.libs.len() implies t.visited.contains(#[trigger] t.libs[k].1) by {
                    if k < s.libs.len() {
                        assert(s.visited.contains(s.libs[k].1));
                        let w = choose|w: int| 0 <= w < s.visited.len() && s.visited[w] == s.libs[k].1;
                        assert(t.visited[w] == t.libs[k].1);
                    }
                }
                assert forall|a: int, b: int| 0 <= a < b < lib_paths(t.libs).len() implies lib_paths(t.libs)[a] != lib_paths(t.libs)[b] by {
                    if b == s.libs.len() {
                        if lib_paths(t.libs)[a] == f {
                            assert(s.visited.contains(s.libs[a].1));
                        }
                    }
                }
            }
        } else {
            let c = s.cur->0;
            let soname = c.needed[c.next as int];
            if !s.missing.contains(soname) {
                assert forall|a: int, b: int| 0 <= a < b < t.missing.len() implies t.missing[a] != t.missing[b] by {
                    if b == s.missing.len() {
                        assert(t.missing[b] == soname);
                        assert(s.missing[a] == t.missing[a]);
                    }
                }
            }
        }
    }
}

/// Where a resolution ends from state `s` when the files answer its questions with
/// `answers`, one per question: a `Locate` takes the first part of an answer (the
/// real path of the first candidate that exists), a `Read` the second (the facts
/// of the file, or `None` when it does not parse); a `Done` ends it. The binary,
/// its includes, the sysroot and these answers are all that goes in: no
/// environment variable (`LD_LIBRARY_PATH` among them) does.
pub open spec fn spec_run(s: ResolverState, answers: Seq<(Option<Seq<char>>, Option<ElfInfoView>)>) -> ResolverState
    decreases answers.len(),
{
    let t = spec_settle(s);
    if answers.len() == 0 {
        t
    } else {
        match spec_query(t) {
            QueryView::Locate(_) => spec_run(spec_after_locate(t, answers[0].0), answers.skip(1)),
            QueryView::Read(_) => spec_run(spec_after_read(t, answers[0].1), answers.skip(1)),
            QueryView::Done => t,
        }
    }
}

proof fn lemma_run_keeps(s: ResolverState, answers: Seq<(Option<Seq<char>>, Option<ElfInfoView>)>, binary: Seq<char>)
    requires
        resolver_inv(s),
        binary_apart(s, binary),
    ensures
        resolver_inv(spec_run(s, answers)),
        binary_apart(spec_run(s, answers), binary),
    decreases answers.len(),
{
    let t = spec_settle(s);
    let a = if answers.len() > 0 { answers[0] } else { (None, None) };
    let none = ElfInfoView {
        interpreter: None,
        needed: Seq::empty(),
        rpaths: Seq::empty(),
        runpaths: Seq::empty(),
        soname: None,
        is_64: true,
        machine: 0,
        uses_dlopen: false,
    };
    law_steps_keep_invariant(s, a.0, a.1);
    law_steps_keep_invariant(t, a.0, a.1);
    law_binary_is_not_its_own_library(binary, none, Seq::empty(), Seq::empty(), Seq::empty(), s, a.0, a.1);
    law_binary_is_not_its_own_library(binary, none, Seq::empty(), Seq::empty(), Seq::empty(), t, a.0, a.1);
    if answers.len() > 0 {
        match spec_query(t) {
            QueryView::Locate(_) => lemma_run_keeps(spec_after_locate(t, a.0), answers.skip(1), binary),
            QueryView::Read(_) => lemma_run_keeps(spec_after_read(t, a.1), answers.skip(1), binary),
            QueryView::Done => {},
        }
    }
}

/// A whole resolution, whatever the files answer along the way: the libraries it
/// ends with are distinct by real path (a library shared by several objects is
/// staged once), the missing names are distinct, and the binary is none of its own
/// libraries.
pub proof fn law_whole_resolution(
    root_path: Seq<char>,
    info: ElfInfoView,
    includes: Seq<Seq<char>>,
    root: Seq<char>,
    default_dirs: Seq<Seq<char>>,
    answers: Seq<(Option<Seq<char>>, Option<ElfInfoView>)>,
)
    ensures
        distinct(lib_paths(spec_run(spec_start(root_path, info, includes, root, default_dirs), answers).libs)),
        distinct(spec_run(spec_start(root_path, info, includes, root, default_dirs), answers).missing),
        forall|i: int|
            0 <= i < spec_run(spec_start(root_path, info, includes, root, default_dirs), answers).libs.len()
                ==> #[trigger] spec_run(spec_start(root_path, info, includes, root, default_dirs), answers).libs[i].1
                != root_path,
{
    let s = spec_start(root_path, info, includes, root, default_dirs);
    law_binary_is_not_its_own_library(root_path, info, includes, root, default_dirs, s, None, None);
    assert(lib_paths(s.libs) =~= Seq::<Seq<char>>::empty());
    lemma_run_keeps(s, answers, root_path);
}

/// Children inherit their parent's own RPATH and its ancestors' RPATH, never its
/// RUNPATH: a library queued while searching an object carries exactly the
/// object's `child_rpaths`, which are the object's own RPATH directories (none when
/// it declares a RUNPATH) followed by what it inherited.
pub proof fn law_rpath_inherited_runpath_not(s: ResolverState, item: QueuedObject, info: ElfInfoView)
    requires
        s.reading is Some,
        s.cur == Some(spec_begin(s, item)),
    ensures
        spec_after_read(s, Some(info)).queue.last().inherited == (if item.info.runpaths.len() == 0 {
            spec_build_dirs(item.info.rpaths, origin_dir(item.path), s.root, s.is_64, s.machine)
        } else {
            Seq::empty()
        }) + item.inherited,
        item.info.runpaths.len() > 0 ==> spec_after_read(s, Some(info)).queue.last().inherited == item.inherited,
{
    if item.info.runpaths.len() > 0 {
        assert(Seq::<Seq<char>>::empty() + item.inherited =~= item.inherited);
    }
}

/// The search order for a bare soname: RPATH (own, then inherited), RUNPATH, then
/// the default directories — `LD_LIBRARY_PATH` plays no part.
pub proof fn law_search_order(s: ResolverState, item: QueuedObject, soname: Seq<char>)
    requires
        !soname.contains('/'),
    ensures
        spec_candidates(s.root, spec_begin(s, item), soname) == Seq::new(
            spec_begin(s, item).search.len(),
            |i: int| path_join(spec_begin(s, item).search[i], soname),
        ),
        spec_begin(s, item).search == spec_begin(s, item).child_rpaths + spec_build_dirs(
            item.info.runpaths,
            origin_dir(item.path),
            s.root,
            s.is_64,
            s.machine,
        ) + s.default_dirs,
{
}

} // verus!
