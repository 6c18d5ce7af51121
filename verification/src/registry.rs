//! The decisions around a daemonless registry push: which protocol a registry is
//! spoken to with, how a Docker-config credential becomes registry auth, how the
//! token challenge is read, which sources may form a multi-arch index, and the
//! by-digest reference a push reports. The network exchanges themselves are the
//! caller's.

use vstd::prelude::*;
pub use crate::image::is_local_registry;
use crate::image::spec_is_local_registry;
use crate::text::{
    concat, contains, contains_seq, copy_str, find, find_char, first_char_index, find_seq,
    is_prefix, occurs_at, starts_with, str_eq, string_of, chars_of, views,
};

verus! {

// ---------------------------------------------------------------------------
// Protocols
// ---------------------------------------------------------------------------

/// `http` for a localhost registry (matching Docker's insecure-localhost default),
/// `https` otherwise.
pub fn registry_scheme(registry: &str) -> (s: &'static str)
    ensures
        s@ == if spec_is_local_registry(registry@) {
            "http"@
        } else {
            "https"@
        },
{
    if is_local_registry(registry) {
        "http"
    } else {
        "https"
    }
}

/// How the registry client talks to a registry.
#[derive(Debug, Clone, PartialEq, Eq)]
pub enum Protocol {
    /// HTTPS everywhere.
    Https,
    /// HTTPS except for these registries, which are spoken to over plain HTTP.
    HttpsExcept(Vec<String>),
}

/// Plain HTTP for a localhost registry, HTTPS otherwise.
pub fn registry_protocol(registry: &str) -> (p: Protocol)
    ensures
        match p {
            Protocol::Https => !spec_is_local_registry(registry@),
            Protocol::HttpsExcept(v) => spec_is_local_registry(registry@) && views(v@) == seq![registry@],
        },
{
    if is_local_registry(registry) {
        let mut v: Vec<String> = Vec::new();
        v.push(copy_str(registry));
        assert(views(v@) =~= seq![registry@]);
        Protocol::HttpsExcept(v)
    } else {
        Protocol::Https
    }
}

// ---------------------------------------------------------------------------
// Credentials
// ---------------------------------------------------------------------------

/// A credential found in the local Docker configuration.
#[derive(Debug, Clone, PartialEq, Eq)]
pub enum Credential {
    UsernamePassword(String, String),
    IdentityToken(String),
}

/// How a registry is authenticated against.
#[derive(Debug, Clone, PartialEq, Eq)]
pub enum Auth {
    Anonymous,
    Basic(String, String),
    Bearer(String),
}

/// What to do with a Docker-config credential: a username/password pair and "no
/// credential" are ready to use; an identity token needs a token exchange first.
#[derive(Debug, Clone, PartialEq, Eq)]
pub enum CredentialPlan {
    Ready(Auth),
    IdentityToken(String),
}

/// Map a Docker-config credential to what the push does with it. Token-auth
/// registries do the OAuth exchange from Basic credentials inside the client, so
/// those pass straight through; no credential is genuinely anonymous.
pub fn plan_credential(cred: Option<Credential>) -> (p: CredentialPlan)
    ensures
        match cred {
            Some(Credential::UsernamePassword(u, w)) => p == CredentialPlan::Ready(Auth::Basic(u, w)),
            Some(Credential::IdentityToken(t)) => p == CredentialPlan::IdentityToken(t),
            None => p == CredentialPlan::Ready(Auth::Anonymous),
        },
{
    match cred {
        Some(Credential::UsernamePassword(user, pass)) => CredentialPlan::Ready(Auth::Basic(user, pass)),
        Some(Credential::IdentityToken(token)) => CredentialPlan::IdentityToken(token),
        None => CredentialPlan::Ready(Auth::Anonymous),
    }
}

/// Pull a quoted parameter out of a `WWW-Authenticate: Bearer realm="…",service="…"`
/// header: what follows the first `key="` up to the next quote.
pub open spec fn spec_challenge_param(challenge: Seq<char>, key: Seq<char>) -> Option<Seq<char>> {
    let needle = key + "=\""@;
    match find_seq(challenge, needle) {
        Some(i) => {
            let rest = challenge.skip(i + needle.len());
            match first_char_index(rest, '"') {
                Some(j) => Some(rest.take(j)),
                None => None,
            }
        },
        None => None,
    }
}

/// Pull a quoted parameter out of a Bearer challenge. Reading only up to the
/// closing quote of the requested key means a comma inside a later value (as in
/// `scope="…:pull,push"`) cannot confuse it.
pub fn extract_challenge_param(challenge: &str, key: &str) -> (r: Option<String>)
    ensures
        match r {
            Some(v) => spec_challenge_param(challenge@, key@) == Some(v@),
            None => spec_challenge_param(challenge@, key@) is None,
        },
{
    let needle = concat(key, "=\"");
    let start = match find(challenge, needle.as_str()) {
        Some(i) => i,
        None => return None,
    };
    let v = chars_of(challenge);
    proof {
        crate::text::lemma_find_seq(challenge@, needle@);
        assert(occurs_at(challenge@, needle@, start as int));
    }
    let nlen = needle.as_str().unicode_len();
    assert(nlen == needle@.len());
    let total = v.len();
    assert(start + needle@.len() <= v@.len());
    assert(start + nlen <= total);
    let from = start + nlen;
    let rest = string_of(&v, from, v.len());
    assert(rest@ =~= challenge@.skip(from as int));
    match crate::text::split_once_char(rest.as_str(), '"') {
        Some((out, _)) => Some(out),
        None => None,
    }
}

/// The access token of a token-endpoint reply: a non-empty `access_token`, else a
/// non-empty `token` — each candidate is filtered before the fallback, so an empty
/// `access_token` cannot mask a usable `token`.
pub fn token_from_reply(access_token: Option<String>, token: Option<String>) -> (r: Option<String>)
    ensures
        r == match access_token {
            Some(a) if a@.len() > 0 => Some(a),
            _ => match token {
                Some(t) if t@.len() > 0 => Some(t),
                _ => None,
            },
        },
{
    match access_token {
        Some(a) => {
            if !a.as_str().is_empty() {
                return Some(a);
            }
        },
        None => {},
    }
    match token {
        Some(t) => {
            if !t.as_str().is_empty() {
                Some(t)
            } else {
                None
            }
        },
        None => None,
    }
}

/// The scope requested for a push: `repository:<repo>:pull,push`.
pub fn push_scope(repository: &str) -> (s: String)
    ensures
        s@ == "repository:"@ + repository@ + ":pull,push"@,
{
    let mut s = concat("repository:", repository);
    s.append(":pull,push");
    s
}

// ---------------------------------------------------------------------------
// Media types and platforms
// ---------------------------------------------------------------------------

/// An OCI image index or a Docker manifest list.
pub open spec fn spec_is_multi_arch(media_type: Seq<char>) -> bool {
    contains_seq(media_type, "index"@) || contains_seq(media_type, "manifest.list"@)
}

/// An OCI image index or a Docker manifest list — a multi-arch manifest, not a
/// single image.
pub fn is_multi_arch_media_type(media_type: &str) -> (b: bool)
    ensures
        b == spec_is_multi_arch(media_type@),
{
    contains(media_type, "index") || contains(media_type, "manifest.list")
}

/// Why a pulled source cannot be a child of an index.
#[derive(Debug, Clone, PartialEq, Eq)]
pub enum ChildError {
    /// The source is itself a multi-arch index.
    MultiArch { source: String, media_type: String },
    /// The source's image configuration names no architecture.
    NoArchitecture { source: String },
}

impl ChildError {
    /// The error message.
    pub fn message(&self) -> (s: String)
        ensures
            s@ == match self {
                ChildError::MultiArch { source, media_type } => "source "@ + source@
                    + " is itself a multi-arch index ("@ + media_type@
                    + "); pass the single-arch images, not an index"@,
                ChildError::NoArchitecture { source } => "the config for "@ + source@
                    + " has no architecture"@,
            },
    {
        match self {
            ChildError::MultiArch { source, media_type } => {
                let mut s = concat("source ", source.as_str());
                s.append(" is itself a multi-arch index (");
                s.append(media_type.as_str());
                s.append("); pass the single-arch images, not an index");
                s
            },
            ChildError::NoArchitecture { source } => {
                let mut s = concat("the config for ", source.as_str());
                s.append(" has no architecture");
                s
            },
        }
    }
}

/// The media type a manifest declares, an OCI image manifest when it declares none.
pub open spec fn spec_child_media_type(declared: Option<Seq<char>>) -> Seq<char> {
    match declared {
        Some(m) => m,
        None => "application/vnd.oci.image.manifest.v1+json"@,
    }
}

/// The media type of a source's manifest, refused when the source is itself a
/// multi-arch index (a list cannot be a child of a list).
pub fn child_media_type(source: &str, declared: Option<String>) -> (r: Result<String, ChildError>)
    ensures
        match r {
            Ok(m) => m@ == spec_child_media_type(crate::image::opt_view(declared))
                && !spec_is_multi_arch(m@),
            Err(e) => e matches ChildError::MultiArch { source: s, media_type: m } && s@ == source@
                && m@ == spec_child_media_type(crate::image::opt_view(declared)) && spec_is_multi_arch(m@),
        },
{
    let m = match declared {
        Some(m) => m,
        None => copy_str("application/vnd.oci.image.manifest.v1+json"),
    };
    if is_multi_arch_media_type(m.as_str()) {
        Err(ChildError::MultiArch { source: copy_str(source), media_type: m })
    } else {
        Ok(m)
    }
}

/// A child of an index from what was pulled of its source: the manifest's media
/// type, digest and stored size, and the configuration's architecture, OS
/// (`linux` when absent) and CPU variant. A configuration without an architecture
/// is refused.
pub fn index_child(
    source: &str,
    media_type: String,
    digest: String,
    size: i64,
    architecture: Option<String>,
    os: Option<String>,
    variant: Option<String>,
) -> (r: Result<IndexChild, ChildError>)
    ensures
        r is Ok <==> architecture is Some,
        match r {
            Ok(c) => {
                &&& c.source@ == source@
                &&& c.media_type == media_type
                &&& c.digest == digest
                &&& c.size == size
                &&& c.architecture == architecture->0
                &&& c.os@ == match os {
                    Some(o) => o@,
                    None => "linux"@,
                }
                &&& c.variant == variant
            },
            Err(e) => e matches ChildError::NoArchitecture { source: s } && s@ == source@,
        },
{
    let architecture = match architecture {
        Some(a) => a,
        None => return Err(ChildError::NoArchitecture { source: copy_str(source) }),
    };
    let os = match os {
        Some(o) => o,
        None => copy_str("linux"),
    };
    Ok(IndexChild { source: copy_str(source), media_type, digest, size, architecture, os, variant })
}

/// A child manifest gathered from the registry — everything an index entry needs.
#[derive(Debug, Clone, PartialEq, Eq)]
pub struct IndexChild {
    pub source: String,
    pub media_type: String,
    pub digest: String,
    pub size: i64,
    pub architecture: String,
    pub os: String,
    /// The CPU variant (e.g. `v7` for arm), part of a platform's identity.
    pub variant: Option<String>,
}

/// The platform of a child: (os, architecture, variant).
pub open spec fn platform_of(c: IndexChild) -> (Seq<char>, Seq<char>, Option<Seq<char>>) {
    (c.os@, c.architecture@, crate::image::opt_view(c.variant))
}

/// The label `os/arch` or `os/arch/variant`.
pub open spec fn spec_platform_label(c: IndexChild) -> Seq<char> {
    match c.variant {
        Some(v) => c.os@ + "/"@ + c.architecture@ + "/"@ + v@,
        None => c.os@ + "/"@ + c.architecture@,
    }
}

/// The human platform label of a child, for the report and error messages.
pub fn platform_label(c: &IndexChild) -> (s: String)
    ensures
        s@ == spec_platform_label(*c),
{
    let mut s = concat(c.os.as_str(), "/");
    s.append(c.architecture.as_str());
    match &c.variant {
        Some(v) => {
            s.append("/");
            s.append(v.as_str());
        },
        None => {},
    }
    s
}

/// A per-arch image that went into an index, for the report.
#[derive(Debug, Clone, PartialEq, Eq)]
pub struct IndexEntry {
    /// The source reference the user supplied.
    pub source: String,
    /// The detected platform, e.g. `linux/amd64`.
    pub platform: String,
    /// The child manifest's digest (`sha256:…`).
    pub digest: String,
}

/// The result of assembling and pushing a multi-arch index.
#[derive(Debug, Clone, PartialEq, Eq)]
pub struct IndexOutcome {
    /// The per-arch children that were assembled, in input order.
    pub entries: Vec<IndexEntry>,
    /// The pushed index's by-digest reference, when the registry reported a digest.
    pub digest_ref: Option<String>,
}

/// Entry `i` of an outcome reports child `i`: its source, its platform label and its
/// digest.
pub open spec fn reports_child(e: IndexEntry, c: IndexChild) -> bool {
    e.source@ == c.source@ && e.platform@ == spec_platform_label(c) && e.digest@ == c.digest@
}

/// The outcome of pushing an index of `children`: one entry per child, in order,
/// and the by-digest reference the push reported.
pub fn index_outcome(children: &Vec<IndexChild>, digest_ref: Option<String>) -> (r: IndexOutcome)
    ensures
        r.entries@.len() == children@.len(),
        forall|i: int| 0 <= i < children@.len() ==> #[trigger] reports_child(r.entries@[i], children@[i]),
        r.digest_ref == digest_ref,
{
    let mut entries: Vec<IndexEntry> = Vec::new();
    let mut i: usize = 0;
    while i < children.len()
        invariant
            i <= children.len(),
            entries@.len() == i,
            forall|k: int| 0 <= k < i ==> #[trigger] reports_child(entries@[k], children@[k]),
        decreases children.len() - i,
    {
        let c = &children[i];
        let e = IndexEntry { source: c.source.clone(), platform: platform_label(c), digest: c.digest.clone() };
        entries.push(e);
        i += 1;
    }
    IndexOutcome { entries, digest_ref }
}

/// What `index --sign` signs: the pushed index by digest. cosign signs a registry
/// image by digest, so a push that reported none cannot be signed.
pub fn index_sign_target(digest_ref: &Option<String>) -> (r: Result<String, String>)
    ensures
        match digest_ref {
            Some(d) => r matches Ok(s) && s@ == d@,
            None => r matches Err(m) && m@ == "cannot sign: the registry did not return a digest for the pushed index"@,
        },
{
    match digest_ref {
        Some(d) => Ok(d.clone()),
        None => Err(copy_str("cannot sign: the registry did not return a digest for the pushed index")),
    }
}

/// What `index` reports: the index pushed, its children, and the reference signed.
#[derive(Debug, Clone, PartialEq, Eq)]
pub struct IndexReport {
    pub pushed: String,
    pub manifests: Vec<IndexEntry>,
    pub signed: Option<String>,
}

/// The line of one child: `  platform  digest  (source)`.
pub open spec fn spec_entry_line(e: IndexEntry) -> Seq<char> {
    "  "@ + e.platform@ + "  "@ + e.digest@ + "  ("@ + e.source@ + ")"@
}

/// The lines of the children, each after a newline.
pub open spec fn spec_entry_lines(es: Seq<IndexEntry>) -> Seq<char>
    decreases es.len(),
{
    if es.len() == 0 {
        Seq::empty()
    } else {
        spec_entry_lines(es.drop_last()) + "\n"@ + spec_entry_line(es.last())
    }
}

/// The text of an index report: the index pushed, a line per child, and the
/// signed reference when there is one.
pub open spec fn spec_index_text(r: IndexReport) -> Seq<char> {
    "pushed index "@ + r.pushed@ + spec_entry_lines(r.manifests@) + match r.signed {
        Some(s) => "\nsigned "@ + s@,
        None => Seq::empty(),
    }
}

impl IndexReport {
    /// The human report.
    pub fn to_text(&self) -> (s: String)
        ensures
            s@ == spec_index_text(*self),
    {
        let mut s = concat("pushed index ", self.pushed.as_str());
        let ghost head = s@;
        let mut i: usize = 0;
        while i < self.manifests.len()
            invariant
                i <= self.manifests.len(),
                head == "pushed index "@ + self.pushed@,
                s@ == head + spec_entry_lines(self.manifests@.take(i as int)),
            decreases self.manifests.len() - i,
        {
            let e = &self.manifests[i];
            proof {
                assert(self.manifests@.take(i + 1).drop_last() =~= self.manifests@.take(i as int));
            }
            s.append("\n");
            s.append("  ");
            s.append(e.platform.as_str());
            s.append("  ");
            s.append(e.digest.as_str());
            s.append("  (");
            s.append(e.source.as_str());
            s.append(")");
            i += 1;
            proof {
                assert(s@ =~= head + spec_entry_lines(self.manifests@.take(i as int)));
            }
        }
        assert(self.manifests@.take(self.manifests.len() as int) =~= self.manifests@);
        match &self.signed {
            Some(r) => {
                s.append("\nsigned ");
                s.append(r.as_str());
            },
            None => {},
        }
        proof {
            assert(s@ =~= spec_index_text(*self));
        }
        s
    }
}

/// Child `j` repeats the platform of an earlier child.
pub open spec fn repeats_platform(cs: Seq<IndexChild>, j: int) -> bool {
    exists|i: int| 0 <= i < j && #[trigger] platform_of(cs[i]) == platform_of(cs[j])
}

/// Two children with the same platform: an ambiguous index.
#[derive(Debug, Clone, PartialEq, Eq)]
pub struct DuplicatePlatform {
    /// The label of the repeated platform.
    pub platform: String,
}

impl DuplicatePlatform {
    /// The error message.
    pub fn message(&self) -> (s: String)
        ensures
            s@ == "two source images resolve to the same platform "@ + self.platform@
                + "; each platform must be unique in an index"@,
    {
        let mut s = concat("two source images resolve to the same platform ", self.platform.as_str());
        s.append("; each platform must be unique in an index");
        s
    }
}

/// Do two children share a platform?
fn same_platform(a: &IndexChild, b: &IndexChild) -> (r: bool)
    ensures
        r == (platform_of(*a) == platform_of(*b)),
{
    let v = match (&a.variant, &b.variant) {
        (Some(x), Some(y)) => str_eq(x.as_str(), y.as_str()),
        (None, None) => true,
        _ => false,
    };
    str_eq(a.os.as_str(), b.os.as_str()) && str_eq(a.architecture.as_str(), b.architecture.as_str()) && v
}

/// Check that every platform is unique among the children. The first child that
/// repeats an earlier platform is reported by its label.
pub fn check_platforms(children: &Vec<IndexChild>) -> (r: Result<(), DuplicatePlatform>)
    ensures
        match r {
            Ok(()) => forall|j: int| 0 <= j < children@.len() ==> !repeats_platform(children@, j),
            Err(d) => exists|j: int|
                0 <= j < children@.len() && repeats_platform(children@, j) && (forall|k: int|
                    0 <= k < j ==> !repeats_platform(children@, k)) && d.platform@ == spec_platform_label(
                    children@[j],
                ),
        },
{
    let mut j: usize = 0;
    while j < children.len()
        invariant
            j <= children.len(),
            forall|k: int| 0 <= k < j ==> !repeats_platform(children@, k),
        decreases children.len() - j,
    {
        let mut i: usize = 0;
        while i < j
            invariant
                i <= j < children.len(),
                forall|k: int| 0 <= k < j ==> !repeats_platform(children@, k),
                forall|k: int| 0 <= k < i ==> platform_of(children@[k]) != platform_of(children@[j as int]),
            decreases j - i,
        {
            if same_platform(&children[i], &children[j]) {
                assert(platform_of(children@[i as int]) == platform_of(children@[j as int]));
                assert(repeats_platform(children@, j as int));
                return Err(DuplicatePlatform { platform: platform_label(&children[j]) });
            }
            i += 1;
        }
        assert(!repeats_platform(children@, j as int));
        j += 1;
    }
    Ok(())
}

// ---------------------------------------------------------------------------
// References
// ---------------------------------------------------------------------------

/// What parsing `s` as an image reference gives: its registry and repository.
pub uninterp spec fn reference_of(s: Seq<char>) -> Option<(Seq<char>, Seq<char>)>;

/// Parse an image reference into its registry and repository.
///
/// Trusted: calls `str::parse::<oci_client::Reference>` (oci-spec's
/// `Reference::try_from`) and reads `registry()` and `repository()`. The contract
/// names the result, and claims the one fact the source shows plainly: an empty
/// string does not parse.
#[verifier::external_body]
fn parse_reference(s: &str) -> (r: Option<(String, String)>)
    ensures
        match r {
            Some(p) => reference_of(s@) == Some((p.0@, p.1@)),
            None => reference_of(s@) is None,
        },
        s@.len() == 0 ==> r is None,
{
    match s.parse::<oci_client::Reference>() {
        Ok(r) => Some((r.registry().to_string(), r.repository().to_string())),
        Err(_) => None,
    }
}

/// The endpoint a parsed reference's registry is reached at: Docker Hub's
/// `docker.io` is served from `index.docker.io`.
pub open spec fn spec_endpoint(registry: Seq<char>) -> Seq<char> {
    if registry == "docker.io"@ {
        "index.docker.io"@
    } else {
        registry
    }
}

/// The endpoint a registry is reached at, as `Reference::resolve_registry` gives it
/// for a parsed reference.
pub fn endpoint_of(registry: &str) -> (s: String)
    ensures
        s@ == spec_endpoint(registry@),
{
    if str_eq(registry, "docker.io") {
        copy_str("index.docker.io")
    } else {
        copy_str(registry)
    }
}

/// A parsed image reference: where to push and what to call it.
#[derive(Debug, Clone, PartialEq, Eq)]
pub struct Target {
    /// The Docker-config key (e.g. `docker.io`).
    pub registry: String,
    pub repository: String,
    /// The endpoint spoken to (e.g. `index.docker.io`).
    pub endpoint: String,
}

/// Parse a push target.
pub fn push_target(reference: &str) -> (r: Option<Target>)
    ensures
        match r {
            Some(t) => reference_of(reference@) == Some((t.registry@, t.repository@)) && t.endpoint@
                == spec_endpoint(t.registry@),
            None => reference_of(reference@) is None,
        },
{
    match parse_reference(reference) {
        Some((registry, repository)) => {
            let endpoint = endpoint_of(registry.as_str());
            Some(Target { registry, repository, endpoint })
        },
        None => None,
    }
}

/// Why a set of sources cannot form an index on a target.
#[derive(Debug, Clone, PartialEq, Eq)]
pub enum IndexError {
    /// No source image was given.
    NoSources,
    /// The target does not parse as a reference.
    BadTarget { target: String },
    /// A source does not parse as a reference.
    BadSource { source: String },
    /// A source lives outside the target's repository.
    OtherRepository { source: String, registry: String, repository: String, target: Target },
}

/// The sources that may form an index on `target`: every one must parse and live
/// in the target's registry and repository (an index references its children by
/// digest, within one repository).
pub open spec fn spec_index_check(target: Seq<char>, sources: Seq<Seq<char>>) -> bool {
    &&& sources.len() > 0
    &&& reference_of(target) is Some
    &&& forall|i: int|
        0 <= i < sources.len() ==> #[trigger] reference_of(sources[i]) == reference_of(target)
}

/// The first `n` sources all live in the target's repository.
pub open spec fn all_in_target(target: Seq<char>, sources: Seq<String>, n: int) -> bool {
    forall|k: int| 0 <= k < n ==> #[trigger] reference_of(sources[k]@) == reference_of(target)
}

impl IndexError {
    /// The error message.
    pub fn message(&self) -> (s: String)
        ensures
            s@ == match self {
                IndexError::NoSources => "no source images given to assemble into an index"@,
                IndexError::BadTarget { target } => "invalid target reference \""@ + target@ + "\""@,
                IndexError::BadSource { source } => "invalid source reference \""@ + source@ + "\""@,
                IndexError::OtherRepository { source, registry, repository, target } => "source "@
                    + source@ + " is "@ + registry@ + "/"@ + repository@ + " but the target index is "@
                    + target.registry@ + "/"@ + target.repository@ + spec_other_repository_reason(),
            },
    {
        match self {
            IndexError::NoSources => copy_str("no source images given to assemble into an index"),
            IndexError::BadTarget { target } => {
                let mut s = concat("invalid target reference \"", target.as_str());
                s.append("\"");
                s
            },
            IndexError::BadSource { source } => {
                let mut s = concat("invalid source reference \"", source.as_str());
                s.append("\"");
                s
            },
            IndexError::OtherRepository { source, registry, repository, target } => {
                let mut s = concat("source ", source.as_str());
                s.append(" is ");
                s.append(registry.as_str());
                s.append("/");
                s.append(repository.as_str());
                s.append(" but the target index is ");
                s.append(target.registry.as_str());
                s.append("/");
                s.append(target.repository.as_str());
                s.append(other_repository_reason());
                s
            },
        }
    }
}

/// Why every source of an index must live in the target's repository.
pub open spec fn spec_other_repository_reason() -> Seq<char> {
    "; an image index references its children by digest within one repository, so every source must be in the target's repository (typically the same repo, a different tag)"@
}

/// Why every source of an index must live in the target's repository.
fn other_repository_reason() -> (s: &'static str)
    ensures
        s@ == spec_other_repository_reason(),
{
    "; an image index references its children by digest within one repository, so every source must be in the target's repository (typically the same repo, a different tag)"
}

/// Check the sources of a multi-arch index against its target, before any network
/// call: there must be at least one, the target must parse, and every source must
/// parse and live in the target's repository. Errors come in that order, the first
/// offending source first.
pub fn check_index_sources(target: &str, sources: &Vec<String>) -> (r: Result<Target, IndexError>)
    ensures
        r is Ok <==> spec_index_check(target@, views(sources@)),
        match r {
            Ok(t) => reference_of(target@) == Some((t.registry@, t.repository@)) && t.endpoint@
                == spec_endpoint(t.registry@),
            Err(IndexError::NoSources) => sources@.len() == 0,
            Err(IndexError::BadTarget { target: t }) => sources@.len() > 0 && reference_of(target@) is None
                && t@ == target@,
            Err(IndexError::BadSource { source }) => exists|i: int|
                0 <= i < sources@.len() && reference_of(sources@[i]@) is None && source@ == sources@[i]@
                    && reference_of(target@) is Some && all_in_target(target@, sources@, i),
            Err(IndexError::OtherRepository { source, registry, repository, target: t }) => exists|i: int|
                0 <= i < sources@.len() && reference_of(sources@[i]@) == Some((registry@, repository@))
                    && reference_of(sources@[i]@) != reference_of(target@) && source@ == sources@[i]@
                    && reference_of(target@) == Some((t.registry@, t.repository@))
                    && all_in_target(target@, sources@, i),
        },
{
    if sources.len() == 0 {
        return Err(IndexError::NoSources);
    }
    let t = match push_target(target) {
        Some(t) => t,
        None => return Err(IndexError::BadTarget { target: copy_str(target) }),
    };
    let mut i: usize = 0;
    while i < sources.len()
        invariant
            i <= sources.len(),
            reference_of(target@) == Some((t.registry@, t.repository@)),
            t.endpoint@ == spec_endpoint(t.registry@),
            forall|k: int| 0 <= k < i ==> #[trigger] reference_of(sources@[k]@) == reference_of(target@),
        decreases sources.len() - i,
    {
        assert(views(sources@)[i as int] == sources@[i as int]@);
        match parse_reference(sources[i].as_str()) {
            Some((reg, repo)) => {
                if !(str_eq(reg.as_str(), t.registry.as_str()) && str_eq(repo.as_str(), t.repository.as_str())) {
                    assert(reference_of(views(sources@)[i as int]) != reference_of(target@));
                    assert(all_in_target(target@, sources@, i as int));
                    return Err(
                        IndexError::OtherRepository { source: sources[i].clone(), registry: reg, repository: repo, target: t },
                    );
                }
            },
            None => {
                assert(reference_of(views(sources@)[i as int]) != reference_of(target@));
                assert(all_in_target(target@, sources@, i as int));
                return Err(IndexError::BadSource { source: sources[i].clone() });
            },
        }
        i += 1;
    }
    proof {
        assert forall|k: int| 0 <= k < views(sources@).len() implies #[trigger] reference_of(views(sources@)[k])
            == reference_of(target@) by {
            assert(views(sources@)[k] == sources@[k]@);
        }
    }
    Ok(t)
}

// ---------------------------------------------------------------------------
// The by-digest reference of a push
// ---------------------------------------------------------------------------

/// The index of the last occurrence of `n` in `s` at or before `i`.
pub open spec fn rfind_from(s: Seq<char>, n: Seq<char>, i: int) -> Option<int>
    decreases i + 1,
{
    if i < 0 {
        None
    } else if occurs_at(s, n, i) {
        Some(i)
    } else {
        rfind_from(s, n, i - 1)
    }
}

/// What follows the last `/manifests/` of a URL (the whole URL without one), as
/// `rsplit("/manifests/").next()` gives it.
pub open spec fn manifest_tail(url: Seq<char>) -> Seq<char> {
    match rfind_from(url, "/manifests/"@, url.len() - "/manifests/"@.len()) {
        Some(i) => url.skip(i + "/manifests/"@.len()),
        None => url,
    }
}

/// The index of the first `?` or `#` of `s`.
pub open spec fn query_start(s: Seq<char>) -> int
    decreases s.len(),
{
    if s.len() == 0 {
        0
    } else if s[0] == '?' || s[0] == '#' {
        0
    } else {
        1 + query_start(s.skip(1))
    }
}

/// The by-digest reference a push reports, when the manifest URL ends in a sha256
/// digest: `registry/repo@sha256:…`.
pub open spec fn spec_digest_ref(registry: Seq<char>, repository: Seq<char>, url: Seq<char>) -> Option<Seq<char>> {
    let tail = manifest_tail(url);
    let digest = tail.take(query_start(tail));
    if is_prefix("sha256:"@, digest) {
        Some(registry + "/"@ + repository + "@"@ + digest)
    } else {
        None
    }
}

proof fn lemma_query_start(s: Seq<char>, k: int)
    requires
        0 <= k <= s.len(),
        forall|j: int| 0 <= j < k ==> s[j] != '?' && s[j] != '#',
        k == s.len() || s[k] == '?' || s[k] == '#',
    ensures
        query_start(s) == k,
    decreases k,
{
    if k > 0 {
        assert forall|j: int| 0 <= j < k - 1 implies s.skip(1)[j] != '?' && s.skip(1)[j] != '#' by {
            assert(s.skip(1)[j] == s[j + 1]);
        }
        lemma_query_start(s.skip(1), k - 1);
    }
}

proof fn lemma_rfind_none(s: Seq<char>, n: Seq<char>, i: int)
    requires
        forall|j: int| 0 <= j <= i ==> !occurs_at(s, n, j),
    ensures
        rfind_from(s, n, i) is None,
    decreases i + 1,
{
    if i >= 0 {
        lemma_rfind_none(s, n, i - 1);
    }
}

proof fn lemma_rfind_some(s: Seq<char>, n: Seq<char>, i: int, k: int)
    requires
        0 <= k <= i,
        occurs_at(s, n, k),
        forall|j: int| k < j <= i ==> !occurs_at(s, n, j),
    ensures
        rfind_from(s, n, i) == Some(k),
    decreases i + 1,
{
    if i > k {
        lemma_rfind_some(s, n, i - 1, k);
    }
}

/// The by-digest reference (`registry/repo@sha256:…`) from a push response's
/// manifest URL, which ends in the pushed manifest's digest; `None` when the URL
/// carries no sha256 digest — the push still succeeded, so only signing, which
/// needs the digest, fails on that.
pub fn digest_ref_from(registry: &str, repository: &str, manifest_url: &str) -> (r: Option<String>)
    ensures
        match r {
            Some(d) => spec_digest_ref(registry@, repository@, manifest_url@) == Some(d@),
            None => spec_digest_ref(registry@, repository@, manifest_url@) is None,
        },
{
    let v = chars_of(manifest_url);
    let pat = chars_of("/manifests/");
    let ghost pv = "/manifests/"@;
    proof {
        reveal_strlit("/manifests/");
    }
    assert(pat@ == pv);
    let plen = pat.len();
    // Search the last occurrence from the right.
    let mut found: Option<usize> = None;
    if v.len() >= plen {
        let mut i: usize = v.len() - plen + 1;
        while i > 0
            invariant_except_break
                found is None,
            invariant
                i <= v.len() - plen + 1,
                v.len() >= plen,
                plen == 11,
                v@ == manifest_url@,
                pat@ == pv,
                plen == pv.len(),
                forall|j: int| i <= j <= v.len() - plen ==> !occurs_at(manifest_url@, pv, j),
            ensures
                found matches Some(k) ==> rfind_from(manifest_url@, pv, v.len() - plen) == Some(k as int) && k
                    + plen <= v.len(),
                found is None ==> forall|j: int| 0 <= j <= v.len() - plen ==> !occurs_at(manifest_url@, pv, j),
            decreases i,
        {
            if crate::text::chars_match_at(&v, &pat, i - 1) {
                found = Some(i - 1);
                proof {
                    lemma_rfind_some(manifest_url@, pv, v.len() - plen, i - 1);
                }
                break;
            }
            i -= 1;
        }
        proof {
            if found is None {
                lemma_rfind_none(manifest_url@, pv, v.len() - plen);
            }
        }
    } else {
        proof {
            assert forall|j: int| 0 <= j <= v.len() - plen implies !occurs_at(manifest_url@, pv, j) by {}
            lemma_rfind_none(manifest_url@, pv, v.len() - plen);
        }
    }
    let start = match found {
        Some(k) => k + plen,
        None => 0,
    };
    let ghost tail = manifest_tail(manifest_url@);
    assert(tail =~= manifest_url@.skip(start as int));
    let mut end = start;
    while end < v.len() && v[end] != '?' && v[end] != '#'
        invariant
            start <= end <= v.len(),
            v@ == manifest_url@,
            forall|j: int| start <= j < end ==> v@[j] != '?' && v@[j] != '#',
        decreases v.len() - end,
    {
        end += 1;
    }
    proof {
        lemma_query_start(tail, end - start);
    }
    let digest = string_of(&v, start, end);
    assert(digest@ =~= tail.take(query_start(tail)));
    if !starts_with(digest.as_str(), "sha256:") {
        return None;
    }
    let mut s = concat(registry, "/");
    s.append(repository);
    s.append("@");
    s.append(digest.as_str());
    Some(s)
}

} // verus!
