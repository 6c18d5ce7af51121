//! Extracting an OCI image archive back to a directory (the `unpack` subcommand):
//! which layer entries are whiteouts, where an entry may land under the
//! destination, how blobs are named and decompressed, and what the report says.
//! Reading the tarball and writing files are the caller's job.

use vstd::prelude::*;
use std::io::Read;
use crate::paths::{is_abs, path_join};
use crate::text::{concat, copy_str, is_prefix, is_suffix, ends_with, starts_with, str_eq, chars_of, string_of};

verus! {

/// What extracting an archive produced.
#[derive(Debug, Clone, PartialEq, Eq)]
pub struct UnpackReport {
    /// The archive read.
    pub source: String,
    /// The directory written.
    pub dir: String,
    /// The number of layers applied.
    pub layers: usize,
    /// The number of entries extracted.
    pub files: usize,
}

/// The text of an unpack report: what was read, where it went, and how much.
pub open spec fn spec_unpack_text(r: UnpackReport) -> Seq<char> {
    "unpacked "@ + r.source@ + " into "@ + r.dir@ + " ("@ + crate::text::decimal(r.layers as nat)
        + " layer(s), "@ + crate::text::decimal(r.files as nat) + " file(s))"@
}

impl UnpackReport {
    /// The human report.
    pub fn to_text(&self) -> (s: String)
        ensures
            s@ == spec_unpack_text(*self),
    {
        let mut s = concat("unpacked ", self.source.as_str());
        s.append(" into ");
        s.append(self.dir.as_str());
        s.append(" (");
        s.append(crate::text::decimal_string(self.layers as u64).as_str());
        s.append(" layer(s), ");
        s.append(crate::text::decimal_string(self.files as u64).as_str());
        s.append(" file(s))");
        s
    }
}

// ---------------------------------------------------------------------------
// Joining entry paths under the destination
// ---------------------------------------------------------------------------

/// The state of joining a relative path component by component: the path so far
/// (`None` once a component would escape) and the component being read.
pub open spec fn push_component(out: Option<Seq<char>>, comp: Seq<char>) -> Option<Seq<char>> {
    match out {
        None => None,
        Some(o) => if comp.len() == 0 || comp == "."@ {
            Some(o)
        } else if comp == ".."@ {
            None
        } else {
            Some(path_join(o, comp))
        },
    }
}

/// Reading `rel` character by character from `dest`: each `/` ends a component,
/// which is pushed (a normal name), skipped (empty or `.`), or refused (`..`).
pub open spec fn join_scan(dest: Seq<char>, rel: Seq<char>) -> (Option<Seq<char>>, Seq<char>)
    decreases rel.len(),
{
    if rel.len() == 0 {
        (Some(dest), Seq::empty())
    } else {
        let st = join_scan(dest, rel.drop_last());
        if rel.last() == '/' {
            (push_component(st.0, st.1), Seq::empty())
        } else {
            (st.0, st.1.push(rel.last()))
        }
    }
}

/// `rel` joined under `dest` one normal component at a time; `None` when `rel` is
/// absolute or holds a `..` component, either of which would escape `dest`.
pub open spec fn spec_safe_join(dest: Seq<char>, rel: Seq<char>) -> Option<Seq<char>> {
    if is_abs(rel) {
        None
    } else {
        let st = join_scan(dest, rel);
        push_component(st.0, st.1)
    }
}

/// Push one component onto the joined path.
/// Pushing a component without a separator onto a path under `dest` stays under
/// `dest`.
proof fn lemma_push_component_under(dest: Seq<char>, out: Option<Seq<char>>, comp: Seq<char>)
    requires
        out matches Some(o) ==> is_prefix(dest, o),
        forall|i: int| 0 <= i < comp.len() ==> comp[i] != '/',
    ensures
        push_component(out, comp) matches Some(p) ==> is_prefix(dest, p),
{
    if let Some(o) = out {
        if comp.len() > 0 && comp != "."@ && comp != ".."@ {
            assert(!is_abs(comp));
            let p = path_join(o, comp);
            if o.len() == 0 || o.last() == '/' {
                assert(p.take(dest.len() as int) =~= o.take(dest.len() as int));
            } else {
                assert(p.take(dest.len() as int) =~= o.take(dest.len() as int));
            }
        }
    }
}

/// Every path the scan has built so far is under `dest`, and the component being
/// read holds no separator.
proof fn lemma_join_scan_under(dest: Seq<char>, rel: Seq<char>)
    ensures
        join_scan(dest, rel).0 matches Some(o) ==> is_prefix(dest, o),
        forall|i: int| 0 <= i < join_scan(dest, rel).1.len() ==> join_scan(dest, rel).1[i] != '/',
    decreases rel.len(),
{
    if rel.len() == 0 {
        assert(dest.take(dest.len() as int) =~= dest);
    } else {
        lemma_join_scan_under(dest, rel.drop_last());
        let st = join_scan(dest, rel.drop_last());
        if rel.last() == '/' {
            lemma_push_component_under(dest, st.0, st.1);
        } else {
            assert forall|i: int| 0 <= i < st.1.push(rel.last()).len() implies st.1.push(rel.last())[i] != '/' by {
                if i < st.1.len() {
                    assert(st.1.push(rel.last())[i] == st.1[i]);
                }
            }
        }
    }
}

/// Extraction never escapes its directory: whatever relative entry name a layer
/// carries, a joined path exists only under `dest` (an absolute name or a `..`
/// component gives none).
pub proof fn law_safe_join_stays_under(dest: Seq<char>, rel: Seq<char>)
    ensures
        spec_safe_join(dest, rel) matches Some(p) ==> is_prefix(dest, p),
{
    if !is_abs(rel) {
        lemma_join_scan_under(dest, rel);
        let st = join_scan(dest, rel);
        lemma_push_component_under(dest, st.0, st.1);
    }
}

fn push_comp(out: Option<String>, comp: &str) -> (r: Option<String>)
    ensures
        crate::image::opt_view(r) == push_component(crate::image::opt_view(out), comp@),
{
    match out {
        None => None,
        Some(o) => {
            if comp.is_empty() || str_eq(comp, ".") {
                Some(o)
            } else if str_eq(comp, "..") {
                None
            } else {
                Some(crate::paths::join_path(o.as_str(), comp))
            }
        },
    }
}

/// Join `rel` under `dest`, refusing any component that could escape it (`..`, an
/// absolute path).
pub fn safe_join(dest: &str, rel: &str) -> (r: Option<String>)
    ensures
        crate::image::opt_view(r) == spec_safe_join(dest@, rel@),
{
    let v = chars_of(rel);
    if v.len() > 0 && v[0] == '/' {
        return None;
    }
    let mut out: Option<String> = Some(copy_str(dest));
    let mut comp = String::new();
    let mut i: usize = 0;
    assert(rel@.take(0) =~= Seq::<char>::empty());
    while i < v.len()
        invariant
            i <= v.len(),
            v@ == rel@,
            join_scan(dest@, rel@.take(i as int)) == (crate::image::opt_view(out), comp@),
        decreases v.len() - i,
    {
        proof {
            assert(rel@.take(i + 1).drop_last() =~= rel@.take(i as int));
            assert(rel@.take(i + 1).last() == v@[i as int]);
        }
        if v[i] == '/' {
            out = push_comp(out, comp.as_str());
            comp = String::new();
            assert(comp@ =~= Seq::<char>::empty());
        } else {
            crate::text::push_char(&mut comp, v[i]);
        }
        i += 1;
    }
    assert(rel@.take(v.len() as int) =~= rel@);
    push_comp(out, comp.as_str())
}

// ---------------------------------------------------------------------------
// Whiteouts, digests and blobs
// ---------------------------------------------------------------------------

/// What a layer entry named `.wh.<name>` asks for.
#[derive(Debug, Clone, PartialEq, Eq)]
pub enum Whiteout {
    /// `.wh..wh..opq`: everything the lower layers put in this directory is hidden.
    Opaque,
    /// `.wh.<name>`: `<name>` is deleted.
    Remove(String),
}

/// The whiteout a layer entry's file name asks for: `None` for an ordinary file,
/// `Opaque` for `.wh..wh..opq`, else the name to delete.
pub fn whiteout_of(name: &str) -> (r: Option<Whiteout>)
    ensures
        match r {
            None => !is_prefix(".wh."@, name@),
            Some(Whiteout::Opaque) => name@ == ".wh..wh..opq"@,
            Some(Whiteout::Remove(n)) => is_prefix(".wh."@, name@) && name@ != ".wh..wh..opq"@ && n@
                == name@.skip(4),
        },
{
    proof {
        reveal_strlit(".wh.");
    }
    if !starts_with(name, ".wh.") {
        return None;
    }
    if str_eq(name, ".wh..wh..opq") {
        return Some(Whiteout::Opaque);
    }
    let v = chars_of(name);
    let rest = string_of(&v, 4, v.len());
    assert(rest@ =~= name@.skip(4));
    Some(Whiteout::Remove(rest))
}

/// Where a whiteout found in the directory `parent` of a layer acts, under the
/// destination `dest`: the directory itself for an opaque whiteout (its contents
/// are cleared), the named sibling for a removal; `None` when that path would
/// escape `dest`.
pub open spec fn spec_whiteout_target(dest: Seq<char>, parent: Seq<char>, w: Whiteout) -> Option<Seq<char>> {
    match w {
        Whiteout::Opaque => spec_safe_join(dest, parent),
        Whiteout::Remove(t) => spec_safe_join(
            dest,
            if parent.len() == 0 {
                t@
            } else {
                parent + seq!['/'] + t@
            },
        ),
    }
}

/// The path a whiteout in the layer directory `parent` acts on under `dest`.
pub fn whiteout_target(dest: &str, parent: &str, w: &Whiteout) -> (r: Option<String>)
    ensures
        crate::image::opt_view(r) == spec_whiteout_target(dest@, parent@, *w),
{
    match w {
        Whiteout::Opaque => safe_join(dest, parent),
        Whiteout::Remove(t) => {
            if parent.is_empty() {
                safe_join(dest, t.as_str())
            } else {
                let mut rel = copy_str(parent);
                crate::text::push_char(&mut rel, '/');
                rel.append(t.as_str());
                assert(rel@ =~= parent@ + seq!['/'] + t@);
                safe_join(dest, rel.as_str())
            }
        },
    }
}

/// The hex part of a `sha256:` digest; the digest itself when it is not sha256.
pub fn strip_sha256(digest: &str) -> (r: Result<String, String>)
    ensures
        match r {
            Ok(h) => is_prefix("sha256:"@, digest@) && h@ == digest@.skip(7),
            Err(m) => !is_prefix("sha256:"@, digest@) && m@ == "digest is not sha256: "@ + digest@,
        },
{
    proof {
        reveal_strlit("sha256:");
    }
    if !starts_with(digest, "sha256:") {
        return Err(concat("digest is not sha256: ", digest));
    }
    let v = chars_of(digest);
    let rest = string_of(&v, 7, v.len());
    assert(rest@ =~= digest@.skip(7));
    Ok(rest)
}

/// The index of the blob stored under `digest` (the last one, as a map insert
/// keeps the last), when there is one.
pub fn find_blob(keys: &Vec<String>, digest: &str) -> (r: Option<usize>)
    ensures
        match r {
            Some(i) => i < keys@.len() && keys@[i as int]@ == digest@ && forall|j: int|
                i < j < keys@.len() ==> keys@[j]@ != digest@,
            None => forall|j: int| 0 <= j < keys@.len() ==> keys@[j]@ != digest@,
        },
{
    let mut i: usize = keys.len();
    while i > 0
        invariant
            i <= keys.len(),
            forall|j: int| i <= j < keys@.len() ==> keys@[j]@ != digest@,
        decreases i,
    {
        if str_eq(keys[i - 1].as_str(), digest) {
            return Some(i - 1);
        }
        i -= 1;
    }
    None
}

/// The message for a blob the archive lacks.
pub fn missing_blob_message(digest: &str) -> (s: String)
    ensures
        s@ == "archive is missing blob sha256:"@ + digest@,
{
    concat("archive is missing blob sha256:", digest)
}

/// What the layer decompressor returns for `data`: the bytes of the gzip stream,
/// or `None` when it is not a valid one.
pub uninterp spec fn gunzip_of(data: Seq<u8>) -> Option<Seq<u8>>;

/// Decompress a gzip stream.
///
/// Trusted: reads `data` to its end through `flate2::read::GzDecoder`. The
/// contract names the result; a decoding error gives `None`.
#[verifier::external_body]
fn gunzip(data: &[u8]) -> (r: Option<Vec<u8>>)
    ensures
        match r {
            Some(v) => gunzip_of(data@) == Some(v@),
            None => gunzip_of(data@) is None,
        },
{
    let mut out = Vec::new();
    match flate2::read::GzDecoder::new(data).read_to_end(&mut out) {
        Ok(_) => Some(out),
        Err(_) => None,
    }
}

/// The uncompressed tar of a layer blob: decompressed when its media type ends in
/// `gzip`, as stored otherwise; `None` when a gzip layer does not decompress.
pub fn layer_tar(blob: &Vec<u8>, media_type: &str) -> (r: Option<Vec<u8>>)
    ensures
        is_suffix("gzip"@, media_type@) ==> match r {
            Some(v) => gunzip_of(blob@) == Some(v@),
            None => gunzip_of(blob@) is None,
        },
        !is_suffix("gzip"@, media_type@) ==> (r matches Some(v) && v@ == blob@),
{
    if ends_with(media_type, "gzip") {
        gunzip(blob.as_slice())
    } else {
        Some(blob.clone())
    }
}

} // verus!
