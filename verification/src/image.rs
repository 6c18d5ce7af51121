//! The image side of a pack: the user-facing image metadata and the defaults it
//! falls back to, the digests of a layer, the root-user and smoke-run checks, and
//! the content-addressed blob names of an OCI layout. Walking the staged tree,
//! writing archives and talking to a container engine are the caller's job.

use vstd::prelude::*;
use sha2::Digest;
use std::io::Write;
use crate::text::{
    concat, contains, copy_str, first_char_index, is_prefix, split_once, split_once_char,
    str_eq, views, contains_seq,
};

verus! {

// ---------------------------------------------------------------------------
// Image metadata
// ---------------------------------------------------------------------------

/// User-configurable image metadata. Empty fields fall back to defaults: the
/// entrypoint defaults to the packed binary, and PATH is always present.
#[derive(Debug)]
pub struct ImageConfig {
    /// Overrides the default entrypoint (the packed binary) when non-empty.
    pub entrypoint: Vec<String>,
    /// Default arguments (`Cmd`) appended to the entrypoint.
    pub cmd: Vec<String>,
    /// Extra environment entries (`KEY=VALUE`); override PATH by key if given.
    pub env: Vec<String>,
    /// Working directory inside the image.
    pub workdir: Option<String>,
    /// Image user; defaults to the non-root uid when unset.
    pub user: Option<String>,
    /// OCI image labels, `KEY=VALUE` each.
    pub labels: Vec<String>,
    /// The HEALTHCHECK command in exec form, when non-empty.
    pub healthcheck: Vec<String>,
}

/// The mathematical content of an [`ImageConfig`].
pub struct ImageConfigView {
    pub entrypoint: Seq<Seq<char>>,
    pub cmd: Seq<Seq<char>>,
    pub env: Seq<Seq<char>>,
    pub workdir: Option<Seq<char>>,
    pub user: Option<Seq<char>>,
    pub labels: Seq<Seq<char>>,
    pub healthcheck: Seq<Seq<char>>,
}

/// The view of an optional string.
pub open spec fn opt_view(o: Option<String>) -> Option<Seq<char>> {
    match o {
        Some(s) => Some(s@),
        None => None,
    }
}

impl View for ImageConfig {
    type V = ImageConfigView;

    open spec fn view(&self) -> ImageConfigView {
        ImageConfigView {
            entrypoint: views(self.entrypoint@),
            cmd: views(self.cmd@),
            env: views(self.env@),
            workdir: opt_view(self.workdir),
            user: opt_view(self.user),
            labels: views(self.labels@),
            healthcheck: views(self.healthcheck@),
        }
    }
}

impl Default for ImageConfig {
    fn default() -> (r: Self)
        ensures
            r@.entrypoint.len() == 0,
            r@.cmd.len() == 0,
            r@.env.len() == 0,
            r@.workdir is None,
            r@.user is None,
            r@.labels.len() == 0,
            r@.healthcheck.len() == 0,
    {
        ImageConfig {
            entrypoint: Vec::new(),
            cmd: Vec::new(),
            env: Vec::new(),
            workdir: None,
            user: None,
            labels: Vec::new(),
            healthcheck: Vec::new(),
        }
    }
}

/// A copy of a list of strings.
pub fn clone_list(v: &Vec<String>) -> (r: Vec<String>)
    ensures
        views(r@) == views(v@),
{
    let mut r: Vec<String> = Vec::new();
    let mut i: usize = 0;
    while i < v.len()
        invariant
            i <= v.len(),
            r@.len() == i,
            forall|k: int| 0 <= k < i ==> #[trigger] r@[k]@ == v@[k]@,
        decreases v.len() - i,
    {
        r.push(v[i].clone());
        i += 1;
    }
    assert(views(r@) =~= views(v@));
    r
}

/// A copy of an optional string.
pub fn clone_opt_string(o: &Option<String>) -> (r: Option<String>)
    ensures
        opt_view(r) == opt_view(*o),
{
    match o {
        Some(s) => Some(s.clone()),
        None => None,
    }
}

impl ImageConfig {
    /// A copy of this configuration.
    pub fn duplicate(&self) -> (r: ImageConfig)
        ensures
            r@ == self@,
    {
        ImageConfig {
            entrypoint: clone_list(&self.entrypoint),
            cmd: clone_list(&self.cmd),
            env: clone_list(&self.env),
            workdir: clone_opt_string(&self.workdir),
            user: clone_opt_string(&self.user),
            labels: clone_list(&self.labels),
            healthcheck: clone_list(&self.healthcheck),
        }
    }
}

/// The PATH every image starts from.
pub const DEFAULT_PATH: &'static str = "PATH=/usr/local/sbin:/usr/local/bin:/usr/sbin:/usr/bin:/sbin:/bin";

/// The distroless-style non-root `uid:gid`; the default so images never run as root.
pub const DEFAULT_USER: &'static str = "65532:65532";

// ---------------------------------------------------------------------------
// Users and environment
// ---------------------------------------------------------------------------

/// The part of `s` before the first `c` (all of `s` without one), as
/// `s.split(c).next()` gives it.
pub open spec fn before_first(s: Seq<char>, c: char) -> Seq<char> {
    match split_once(s, c) {
        Some(p) => p.0,
        None => s,
    }
}

/// The part of `s` before the first `c`.
pub fn before_first_of(s: &str, c: char) -> (r: String)
    ensures
        r@ == before_first(s@, c),
{
    match split_once_char(s, c) {
        Some((a, _)) => a,
        None => copy_str(s),
    }
}

/// An image user string that denotes root: uid `0` or the name `root`, in the
/// `uid`, `uid:gid` and name forms.
pub open spec fn spec_is_root_user(user: Seq<char>) -> bool {
    let uid = before_first(user, ':');
    uid == "0"@ || uid == "root"@
}

/// True when an image user string denotes root (uid 0 or `root`), so the caller
/// can warn. Accepts the `uid`, `uid:gid` and name forms.
pub fn is_root_user(user: &str) -> (b: bool)
    ensures
        b == spec_is_root_user(user@),
{
    let uid = before_first_of(user, ':');
    str_eq(uid.as_str(), "0") || str_eq(uid.as_str(), "root")
}

/// The key of an environment entry: what precedes its first `=`.
pub open spec fn env_key(e: Seq<char>) -> Seq<char> {
    before_first(e, '=')
}

/// The index of the first entry of `env` whose key is `k`.
pub open spec fn key_index(env: Seq<Seq<char>>, k: Seq<char>) -> Option<int>
    decreases env.len(),
{
    if env.len() == 0 {
        None
    } else {
        match key_index(env.drop_last(), k) {
            Some(i) => Some(i),
            None => if env_key(env.last()) == k {
                Some(env.len() - 1)
            } else {
                None
            },
        }
    }
}

/// `env` with `entry` applied: it replaces the first entry with the same key, or
/// is appended when no entry has that key.
pub open spec fn apply_env(env: Seq<Seq<char>>, entry: Seq<char>) -> Seq<Seq<char>> {
    match key_index(env, env_key(entry)) {
        Some(i) => env.update(i, entry),
        None => env.push(entry),
    }
}

/// The user entries applied in order over `base`.
pub open spec fn apply_all(base: Seq<Seq<char>>, user: Seq<Seq<char>>) -> Seq<Seq<char>>
    decreases user.len(),
{
    if user.len() == 0 {
        base
    } else {
        apply_env(apply_all(base, user.drop_last()), user.last())
    }
}

/// The image environment: the default PATH, then each user entry, overriding by key.
pub open spec fn spec_merged_env(user: Seq<Seq<char>>) -> Seq<Seq<char>> {
    apply_all(seq![DEFAULT_PATH@], user)
}

/// No two entries of `env` share a key.
pub open spec fn keys_distinct(env: Seq<Seq<char>>) -> bool {
    forall|i: int, j: int| 0 <= i < j < env.len() ==> env_key(#[trigger] env[i]) != env_key(#[trigger] env[j])
}

proof fn lemma_key_index(env: Seq<Seq<char>>, k: Seq<char>)
    ensures
        match key_index(env, k) {
            Some(i) => 0 <= i < env.len() && env_key(env[i]) == k && forall|j: int|
                0 <= j < i ==> env_key(#[trigger] env[j]) != k,
            None => forall|j: int| 0 <= j < env.len() ==> env_key(#[trigger] env[j]) != k,
        },
    decreases env.len(),
{
    if env.len() > 0 {
        lemma_key_index(env.drop_last(), k);
        match key_index(env.drop_last(), k) {
            Some(i) => {
                assert forall|j: int| 0 <= j < i implies env_key(#[trigger] env[j]) != k by {
                    assert(env[j] == env.drop_last()[j]);
                }
            },
            None => {
                assert forall|j: int| 0 <= j < env.len() - 1 implies env_key(#[trigger] env[j]) != k by {
                    assert(env[j] == env.drop_last()[j]);
                }
            },
        }
    }
}

proof fn lemma_apply_keeps_distinct(env: Seq<Seq<char>>, entry: Seq<char>)
    requires
        keys_distinct(env),
    ensures
        keys_distinct(apply_env(env, entry)),
        apply_env(env, entry).contains(entry),
        env.len() > 0 ==> env_key(apply_env(env, entry)[0]) == env_key(env[0]),
{
    lemma_key_index(env, env_key(entry));
    let r = apply_env(env, entry);
    match key_index(env, env_key(entry)) {
        Some(i) => {
            assert(r[i] == entry);
            assert forall|a: int, b: int| 0 <= a < b < r.len() implies env_key(#[trigger] r[a]) != env_key(
                #[trigger] r[b],
            ) by {
                if a != i && b != i {
                    assert(r[a] == env[a] && r[b] == env[b]);
                } else if a == i {
                    assert(r[b] == env[b]);
                } else {
                    assert(r[a] == env[a]);
                }
            }
        },
        None => {
            assert(r[env.len() as int] == entry);
            assert forall|a: int, b: int| 0 <= a < b < r.len() implies env_key(#[trigger] r[a]) != env_key(
                #[trigger] r[b],
            ) by {
                if b < env.len() {
                    assert(r[a] == env[a] && r[b] == env[b]);
                } else {
                    assert(r[a] == env[a]);
                }
            }
        },
    }
}

proof fn lemma_apply_all(base: Seq<Seq<char>>, user: Seq<Seq<char>>)
    requires
        keys_distinct(base),
        base.len() > 0,
    ensures
        keys_distinct(apply_all(base, user)),
        apply_all(base, user).len() > 0,
        env_key(apply_all(base, user)[0]) == env_key(base[0]),
        forall|k: int| 0 <= k < user.len() ==> exists|j: int|
            0 <= j < apply_all(base, user).len() && env_key(#[trigger] apply_all(base, user)[j]) == env_key(
                #[trigger] user[k],
            ),
    decreases user.len(),
{
    if user.len() > 0 {
        let prev = apply_all(base, user.drop_last());
        lemma_apply_all(base, user.drop_last());
        lemma_apply_keeps_distinct(prev, user.last());
        lemma_key_index(prev, env_key(user.last()));
        let r = apply_all(base, user);
        assert forall|k: int| 0 <= k < user.len() implies exists|j: int|
            0 <= j < r.len() && env_key(#[trigger] r[j]) == env_key(#[trigger] user[k]) by {
            if k == user.len() - 1 {
                let j = choose|j: int| 0 <= j < r.len() && r[j] == user.last();
                assert(env_key(r[j]) == env_key(user[k]));
            } else {
                assert(user[k] == user.drop_last()[k]);
                let j0 = choose|j: int| 0 <= j < prev.len() && env_key(#[trigger] prev[j]) == env_key(
                    user.drop_last()[k],
                );
                match key_index(prev, env_key(user.last())) {
                    Some(i) => {
                        if j0 == i {
                            assert(env_key(r[i]) == env_key(prev[i]));
                        } else {
                            assert(r[j0] == prev[j0]);
                        }
                    },
                    None => {
                        assert(r[j0] == prev[j0]);
                    },
                }
            }
        }
    }
}

/// The environment the image starts with: the default PATH, then each user entry,
/// overriding by key so a user-supplied PATH replaces the default rather than
/// duplicating it.
pub fn merged_env(user: &Vec<String>) -> (env: Vec<String>)
    ensures
        views(env@) == spec_merged_env(views(user@)),
{
    let mut env: Vec<String> = Vec::new();
    env.push(copy_str(DEFAULT_PATH));
    let ghost uv = views(user@);
    assert(views(env@) =~= seq![DEFAULT_PATH@]);
    assert(uv.take(0) =~= Seq::<Seq<char>>::empty());
    let mut i: usize = 0;
    while i < user.len()
        invariant
            i <= user.len(),
            uv == views(user@),
            views(env@) == apply_all(seq![DEFAULT_PATH@], uv.take(i as int)),
        decreases user.len() - i,
    {
        let entry = &user[i];
        let key = before_first_of(entry.as_str(), '=');
        let ghost ev = views(env@);
        let mut j: usize = 0;
        let mut found = false;
        while j < env.len()
            invariant_except_break
                !found,
            invariant
                j <= env.len(),
                ev == views(env@),
                key@ == env_key(entry@),
                forall|t: int| 0 <= t < j ==> env_key(#[trigger] ev[t]) != key@,
            ensures
                found ==> j < env.len() && env_key(ev[j as int]) == key@,
                !found ==> j == env.len(),
            decreases env.len() - j,
        {
            let k2 = before_first_of(env[j].as_str(), '=');
            if str_eq(k2.as_str(), key.as_str()) {
                found = true;
                break;
            }
            j += 1;
        }
        proof {
            lemma_key_index(ev, key@);
            let t = uv.take(i + 1);
            assert(t.drop_last() =~= uv.take(i as int));
            assert(t.last() == entry@);
        }
        if found {
            assert(key_index(ev, key@) == Some(j as int));
            env.set(j, entry.clone());
            assert(views(env@) =~= ev.update(j as int, entry@));
        } else {
            assert(key_index(ev, key@) is None);
            env.push(entry.clone());
            assert(views(env@) =~= ev.push(entry@));
        }
        i += 1;
    }
    assert(uv.take(user.len() as int) =~= uv);
    env
}

/// No two entries of the image environment share a key, the first entry is the
/// PATH (the default one, or the user's in its place), and every key the user
/// gave is present.
pub proof fn law_merged_env_keys(user: Seq<Seq<char>>)
    ensures
        keys_distinct(spec_merged_env(user)),
        spec_merged_env(user).len() > 0,
        env_key(spec_merged_env(user)[0]) == "PATH"@,
        forall|k: int| 0 <= k < user.len() ==> exists|j: int|
            0 <= j < spec_merged_env(user).len() && env_key(#[trigger] spec_merged_env(user)[j])
                == env_key(#[trigger] user[k]),
{
    reveal_strlit("PATH=/usr/local/sbin:/usr/local/bin:/usr/sbin:/usr/bin:/sbin:/bin");
    reveal_strlit("PATH");
    let d = DEFAULT_PATH@;
    assert(first_char_index(d, '=') == Some(4int)) by {
        reveal_with_fuel(first_char_index, 6);
        assert(d.skip(1).skip(1).skip(1).skip(1) =~= d.skip(4));
        assert(d.skip(1) =~= d.subrange(1, d.len() as int));
        assert(d.skip(1).skip(1) =~= d.subrange(2, d.len() as int));
        assert(d.skip(1).skip(1).skip(1) =~= d.subrange(3, d.len() as int));
    }
    assert(d.take(4) =~= "PATH"@);
    lemma_apply_all(seq![d], user);
}

// ---------------------------------------------------------------------------
// The image configuration document
// ---------------------------------------------------------------------------

/// The runtime settings written into the image configuration: the entrypoint (the
/// packed binary unless overridden), the merged environment, the user (non-root
/// unless set), `Cmd` and `WorkingDir` when given, and the layer's diff_id.
#[derive(Debug)]
pub struct ImagePlan {
    pub entrypoint: Vec<String>,
    pub env: Vec<String>,
    pub user: String,
    /// `Cmd`, present only when non-empty.
    pub cmd: Option<Vec<String>>,
    pub workdir: Option<String>,
    /// Each label as a key and a value.
    pub labels: Vec<(String, String)>,
    /// The HEALTHCHECK command, present only when non-empty.
    pub healthcheck: Option<Vec<String>>,
    /// The `rootfs.diff_ids` entry: `sha256:` and the uncompressed layer's digest.
    pub diff_id: String,
}

/// A label entry as a key and a value: split at the first `=`; a bare name has an
/// empty value.
pub open spec fn spec_label(entry: Seq<char>) -> (Seq<char>, Seq<char>) {
    match split_once(entry, '=') {
        Some(p) => p,
        None => (entry, Seq::empty()),
    }
}

/// A label entry splits at its first `=`: the key holds no `=`, and the key, `=`
/// and the value put back together give the entry; an entry without `=` is a key
/// with an empty value.
pub proof fn law_label_splits_at_first_equals(entry: Seq<char>)
    ensures
        entry.contains('=') ==> spec_label(entry).0 + seq!['='] + spec_label(entry).1 == entry
            && !spec_label(entry).0.contains('='),
        !entry.contains('=') ==> spec_label(entry) == (entry, Seq::<char>::empty()),
{
    crate::text::lemma_first_char_index(entry, '=');
    match first_char_index(entry, '=') {
        Some(i) => {
            assert(entry.take(i) + seq!['='] + entry.skip(i + 1) =~= entry);
            assert(entry.contains('=')) by {
                assert(entry[i] == '=');
            }
        },
        None => {
            if entry.contains('=') {
                let k = choose|k: int| 0 <= k < entry.len() && entry[k] == '=';
            }
        },
    }
}

/// The key and value of each label entry.
pub open spec fn spec_labels(entries: Seq<Seq<char>>) -> Seq<(Seq<char>, Seq<char>)> {
    entries.map_values(|e: Seq<char>| spec_label(e))
}

/// The key and value of a label entry.
pub fn label_pair(entry: &str) -> (r: (String, String))
    ensures
        (r.0@, r.1@) == spec_label(entry@),
{
    match split_once_char(entry, '=') {
        Some(p) => p,
        None => (copy_str(entry), String::new()),
    }
}

/// The key and value of each label entry.
pub fn label_pairs(entries: &Vec<String>) -> (r: Vec<(String, String)>)
    ensures
        crate::stager::pair_views(r@) == spec_labels(views(entries@)),
{
    let mut r: Vec<(String, String)> = Vec::new();
    let mut i: usize = 0;
    while i < entries.len()
        invariant
            i <= entries.len(),
            crate::stager::pair_views(r@) == spec_labels(views(entries@)).take(i as int),
        decreases entries.len() - i,
    {
        let pair = label_pair(entries[i].as_str());
        let ghost before = r@;
        r.push(pair);
        proof {
            assert(crate::stager::pair_views(r@) =~= crate::stager::pair_views(before).push((pair.0@, pair.1@)));
            assert(spec_labels(views(entries@)).take(i + 1) =~= spec_labels(views(entries@)).take(i as int).push(
                spec_label(entries@[i as int]@),
            ));
        }
        i += 1;
    }
    assert(spec_labels(views(entries@)).take(entries@.len() as int) =~= spec_labels(views(entries@)));
    r
}

/// The user an image runs as: the configured one, else the non-root default.
pub open spec fn spec_image_user(cfg: ImageConfigView) -> Seq<char> {
    match cfg.user {
        Some(u) => u,
        None => DEFAULT_USER@,
    }
}

/// The configured user always wins: when the configuration (or `--user`) sets a
/// user, the image runs as exactly that user, root included; only an unset user
/// falls back to the non-root `65532:65532`.
pub proof fn law_configured_user_wins(cfg: ImageConfigView)
    ensures
        cfg.user matches Some(u) ==> spec_image_user(cfg) == u,
        cfg.user is None ==> spec_image_user(cfg) == "65532:65532"@,
{
}

/// Build the settings of the image configuration for a layer whose uncompressed
/// digest is `diff_id`, with `default_entrypoint` the packed binary's image path.
pub fn image_plan(default_entrypoint: &str, diff_id: &str, cfg: &ImageConfig) -> (p: ImagePlan)
    ensures
        views(p.entrypoint@) == if cfg@.entrypoint.len() == 0 {
            seq![default_entrypoint@]
        } else {
            cfg@.entrypoint
        },
        views(p.env@) == spec_merged_env(cfg@.env),
        p.user@ == spec_image_user(cfg@),
        match p.cmd {
            Some(c) => cfg@.cmd.len() > 0 && views(c@) == cfg@.cmd,
            None => cfg@.cmd.len() == 0,
        },
        opt_view(p.workdir) == cfg@.workdir,
        crate::stager::pair_views(p.labels@) == spec_labels(cfg@.labels),
        match p.healthcheck {
            Some(h) => cfg@.healthcheck.len() > 0 && views(h@) == cfg@.healthcheck,
            None => cfg@.healthcheck.len() == 0,
        },
        p.diff_id@ == "sha256:"@ + diff_id@,
{
    let entrypoint = if cfg.entrypoint.len() == 0 {
        let mut v: Vec<String> = Vec::new();
        v.push(copy_str(default_entrypoint));
        assert(views(v@) =~= seq![default_entrypoint@]);
        v
    } else {
        clone_list(&cfg.entrypoint)
    };
    let user = match &cfg.user {
        Some(u) => u.clone(),
        None => copy_str(DEFAULT_USER),
    };
    let cmd = if cfg.cmd.len() == 0 {
        None
    } else {
        Some(clone_list(&cfg.cmd))
    };
    ImagePlan {
        entrypoint,
        env: merged_env(&cfg.env),
        user,
        cmd,
        workdir: clone_opt_string(&cfg.workdir),
        labels: label_pairs(&cfg.labels),
        healthcheck: if cfg.healthcheck.len() == 0 {
            None
        } else {
            Some(clone_list(&cfg.healthcheck))
        },
        diff_id: concat("sha256:", diff_id),
    }
}

/// An image whose configuration sets no user runs as the non-root default, which
/// is not root in any form.
pub proof fn law_default_user_is_not_root(cfg: ImageConfigView)
    requires
        cfg.user is None,
    ensures
        !spec_is_root_user(spec_image_user(cfg)),
{
    reveal_strlit("65532:65532");
    reveal_strlit("0");
    reveal_strlit("root");
    let d = DEFAULT_USER@;
    assert(first_char_index(d, ':') == Some(5int)) by {
        reveal_with_fuel(first_char_index, 7);
        assert(d.skip(1) =~= d.subrange(1, d.len() as int));
        assert(d.skip(1).skip(1) =~= d.subrange(2, d.len() as int));
        assert(d.skip(1).skip(1).skip(1) =~= d.subrange(3, d.len() as int));
        assert(d.skip(1).skip(1).skip(1).skip(1) =~= d.subrange(4, d.len() as int));
        assert(d.skip(1).skip(1).skip(1).skip(1).skip(1) =~= d.subrange(5, d.len() as int));
    }
    assert(before_first(d, ':').len() == 5);
}

// ---------------------------------------------------------------------------
// Container engines
// ---------------------------------------------------------------------------

/// The container engine that loads and smoke-runs an image.
#[derive(Clone, Copy, Debug, PartialEq, Eq, Structural)]
pub enum Runtime {
    Docker,
    Podman,
    Nerdctl,
}

/// The program of an engine.
pub open spec fn spec_runtime_program(r: Runtime) -> Seq<char> {
    match r {
        Runtime::Docker => "docker"@,
        Runtime::Podman => "podman"@,
        Runtime::Nerdctl => "nerdctl"@,
    }
}

impl Runtime {
    /// The program that runs this engine's commands.
    pub fn program(self) -> (s: &'static str)
        ensures
            s@ == spec_runtime_program(self),
    {
        match self {
            Runtime::Docker => "docker",
            Runtime::Podman => "podman",
            Runtime::Nerdctl => "nerdctl",
        }
    }
}

// ---------------------------------------------------------------------------
// Smoke runs
// ---------------------------------------------------------------------------

/// The result of running a packed image once.
#[derive(Debug)]
pub struct SmokeOutcome {
    /// Process exit code, or `None` if the container was killed (e.g. timeout).
    pub code: Option<i32>,
    pub stdout: String,
    pub stderr: String,
}

/// The dynamic loader failed to start the binary: exit 126 or 127, or one of the
/// loader's own messages on stderr.
pub open spec fn spec_loader_failed(code: Option<i32>, stderr: Seq<char>) -> bool {
    ||| code == Some(126i32)
    ||| code == Some(127i32)
    ||| contains_seq(stderr, "error while loading shared libraries"@)
    ||| contains_seq(stderr, "cannot open shared object file"@)
    ||| contains_seq(stderr, "no such file or directory"@)
}

impl SmokeOutcome {
    /// True when the dynamic loader failed to start the binary — a missing library,
    /// missing interpreter, or bad exec. This is the staging failure a smoke-run
    /// exists to catch, distinct from the app's own non-zero exit.
    pub fn loader_failed(&self) -> (b: bool)
        ensures
            b == spec_loader_failed(self.code, self.stderr@),
    {
        let by_code = match self.code {
            Some(c) => c == 126 || c == 127,
            None => false,
        };
        by_code || contains(self.stderr.as_str(), "error while loading shared libraries")
            || contains(self.stderr.as_str(), "cannot open shared object file")
            || contains(self.stderr.as_str(), "no such file or directory")
    }
}

// ---------------------------------------------------------------------------
// Registries
// ---------------------------------------------------------------------------

/// The host part of a registry: inside the brackets of `[v6]:port`, before the last
/// colon of `host:port`, else the whole string.
pub open spec fn registry_host(registry: Seq<char>) -> Seq<char> {
    if registry.len() > 0 && registry[0] == '[' {
        before_first(registry.skip(1), ']')
    } else {
        match crate::text::rsplit_once(registry, ':') {
            Some(p) => p.0,
            None => registry,
        }
    }
}

/// The registry is a localhost one.
pub open spec fn spec_is_local_registry(registry: Seq<char>) -> bool {
    let h = registry_host(registry);
    h == "localhost"@ || h == "127.0.0.1"@ || h == "::1"@
}

/// Is this registry a localhost one? Handles `host[:port]` and bracketed IPv6
/// (`[::1]:5000`); the colons inside a bare IPv6 address mean it cannot just be
/// split on `:`.
pub fn is_local_registry(registry: &str) -> (b: bool)
    ensures
        b == spec_is_local_registry(registry@),
{
    let v = crate::text::chars_of(registry);
    let host = if v.len() > 0 && v[0] == '[' {
        let rest = crate::text::string_of(&v, 1, v.len());
        assert(rest@ =~= registry@.skip(1));
        before_first_of(rest.as_str(), ']')
    } else {
        match crate::text::rsplit_once_char(registry, ':') {
            Some((h, _)) => h,
            None => copy_str(registry),
        }
    };
    str_eq(host.as_str(), "localhost") || str_eq(host.as_str(), "127.0.0.1") || str_eq(host.as_str(), "::1")
}

/// The path of a blob inside an OCI layout.
pub fn blob_path(digest_hex: &str) -> (r: String)
    ensures
        r@ == "blobs/sha256/"@ + digest_hex@,
{
    concat("blobs/sha256/", digest_hex)
}

// ---------------------------------------------------------------------------
// Digests
// ---------------------------------------------------------------------------

/// The lowercase hex digit for `n < 16`.
pub open spec fn hex_digit(n: nat) -> char {
    if n < 10 {
        ((n + 48) as u32) as char
    } else {
        ((n + 87) as u32) as char
    }
}

/// The lowercase hex rendering of `bytes`, two digits per byte.
pub open spec fn spec_hex(bytes: Seq<u8>) -> Seq<char>
    decreases bytes.len(),
{
    if bytes.len() == 0 {
        Seq::empty()
    } else {
        spec_hex(bytes.drop_last()) + seq![hex_digit((bytes.last() / 16) as nat), hex_digit((bytes.last() % 16) as nat)]
    }
}

proof fn lemma_hex_len(bytes: Seq<u8>)
    ensures
        spec_hex(bytes).len() == 2 * bytes.len(),
    decreases bytes.len(),
{
    if bytes.len() > 0 {
        lemma_hex_len(bytes.drop_last());
    }
}

fn hex_char(n: u8) -> (c: char)
    requires
        n < 16,
    ensures
        c == hex_digit(n as nat),
{
    if n < 10 {
        ((n + 48) as u8) as char
    } else {
        ((n + 87) as u8) as char
    }
}

/// The lowercase hex rendering of `bytes`.
pub fn hex(bytes: &[u8]) -> (s: String)
    ensures
        s@ == spec_hex(bytes@),
        s@.len() == 2 * bytes@.len(),
{
    let mut s = String::new();
    let mut i: usize = 0;
    while i < bytes.len()
        invariant
            i <= bytes.len(),
            s@ == spec_hex(bytes@.take(i as int)),
        decreases bytes.len() - i,
    {
        let b = bytes[i];
        crate::text::push_char(&mut s, hex_char(b / 16));
        crate::text::push_char(&mut s, hex_char(b % 16));
        proof {
            let t = bytes@.take(i + 1);
            assert(t.drop_last() =~= bytes@.take(i as int));
            assert(t.last() == b);
            assert(s@ =~= spec_hex(t));
        }
        i += 1;
    }
    assert(bytes@.take(bytes.len() as int) =~= bytes@);
    proof {
        lemma_hex_len(bytes@);
    }
    s
}

/// What `sha2::Sha256::digest` returns for `data`: its SHA-256 digest.
pub uninterp spec fn sha256_of(data: Seq<u8>) -> Seq<u8>;

/// The SHA-256 digest of `data`.
///
/// Trusted: calls `sha2::Sha256::digest`. The contract claims only that the
/// result is the digest of exactly these bytes, 32 bytes long (SHA-256 is a
/// 256-bit hash).
#[verifier::external_body]
pub(crate) fn sha256(data: &[u8]) -> (r: Vec<u8>)
    ensures
        r@ == sha256_of(data@),
        r@.len() == 32,
{
    sha2::Sha256::digest(data).to_vec()
}

/// The lower-case hex sha256 of `data`: how a blob is named in an image archive and
/// a manifest.
pub fn digest_hex(data: &[u8]) -> (s: String)
    ensures
        s@ == spec_hex(sha256_of(data@)),
        s@.len() == 64,
{
    let d = sha256(data);
    hex(d.as_slice())
}

/// What the layer compressor gives for `data`: the gzip stream that
/// `flate2::GzBuilder` writes with mtime 0, OS byte 255 and the default level, or
/// `None` when the encoder reports an error.
pub uninterp spec fn gzip_of(data: Seq<u8>) -> Option<Seq<u8>>;

/// The deterministic gzip stream of `data`: a fixed mtime and OS byte in the
/// header, so equal input gives equal output.
///
/// Trusted: builds a `flate2::GzBuilder` encoder over a `Vec`, writes `data` and
/// finishes it. The contract names the outcome, a stream or an error, as a
/// function of `data` alone: the encoder writes into memory with fixed settings,
/// so nothing else goes into it. When an error can occur is not stated: writing
/// into a `Vec` does not fail, but the compressor underneath keeps error paths of
/// its own (guards on its internal buffers) that its source does not show
/// unreachable in any short way.
#[verifier::external_body]
fn gzip(data: &[u8]) -> (r: Option<Vec<u8>>)
    ensures
        match r {
            Some(z) => gzip_of(data@) == Some(z@),
            None => gzip_of(data@) is None,
        },
{
    let mut enc = flate2::GzBuilder::new().mtime(0).operating_system(255).write(
        Vec::new(),
        flate2::Compression::default(),
    );
    match enc.write_all(data) {
        Ok(()) => {},
        Err(_) => return None,
    }
    enc.finish().ok()
}

/// A built image layer: the gzip bytes, plus the two hashes that must stay distinct.
#[derive(Debug)]
pub struct Layer {
    /// The gzip-compressed layer tar (what goes in the archive or is pushed).
    pub gzip: Vec<u8>,
    /// The sha256 of the uncompressed tar — the config's `rootfs.diff_ids` entry.
    pub diff_id: String,
    /// The sha256 of the gzip blob — the manifest's `layers[].digest`.
    pub digest: String,
}

/// Why a layer could not be built.
#[derive(Debug, Clone, PartialEq, Eq)]
pub enum LayerError {
    /// The compressor reported an error.
    Compress,
}

/// Build a layer from the bytes of its reproducible tar. The diff_id (from the
/// uncompressed tar) and the digest (from the gzip) are computed separately —
/// conflating them is the classic bug that yields unpullable images.
pub fn layer_from_tar(tar: &[u8]) -> (r: Result<Layer, LayerError>)
    ensures
        r is Ok <==> gzip_of(tar@) is Some,
        match r {
            Ok(l) => {
                &&& gzip_of(tar@) == Some(l.gzip@)
                &&& l.diff_id@ == spec_hex(sha256_of(tar@))
                &&& l.digest@ == spec_hex(sha256_of(l.gzip@))
                &&& l.diff_id@.len() == 64
                &&& l.digest@.len() == 64
            },
            Err(e) => e == LayerError::Compress,
        },
{
    let diff = sha256(tar);
    let diff_id = hex(diff.as_slice());
    let z = match gzip(tar) {
        Some(z) => z,
        None => return Err(LayerError::Compress),
    };
    let d = sha256(z.as_slice());
    let digest = hex(d.as_slice());
    Ok(Layer { gzip: z, diff_id, digest })
}

} // verus!
