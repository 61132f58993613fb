//! Resolving which artifact of a firmware entry to install and where it
//! lives locally.

use vstd::prelude::*;
use crate::text::{chars_of, dec_nat, extend_chars, extend_vec, push_dec_i64, string_of, trim_vec, trim_ws};

verus! {

/// One downloadable or local artifact of a firmware version.
#[derive(Clone, Debug, PartialEq, Eq)]
pub struct FirmwareFileArtifact {
    pub filename: Option<String>,
    pub url: Option<String>,
    pub sha256: String,
}

/// A firmware version and its artifacts.
#[derive(Clone, Debug, PartialEq, Eq)]
pub struct FirmwareEntry {
    pub version: String,
    pub files: Vec<FirmwareFileArtifact>,
}

#[derive(Clone, Debug, PartialEq, Eq)]
pub enum ResolvedFirmwareArtifactSource {
    Remote { url: String, sha256: String },
    Local,
}

#[derive(Clone, Debug, PartialEq, Eq)]
pub struct ResolvedFirmwareArtifact {
    pub local_path: String,
    pub source: ResolvedFirmwareArtifactSource,
}

/// The last `/`-separated segment of a URL.
pub open spec fn last_segment(url: Seq<char>) -> Seq<char>
    decreases url.len(),
{
    if url.len() == 0 {
        Seq::empty()
    } else if url.last() == '/' {
        Seq::empty()
    } else {
        last_segment(url.drop_last()).push(url.last())
    }
}

/// `dir` joined with a relative file name, as a path join does.
pub open spec fn join_path(dir: Seq<char>, name: Seq<char>) -> Seq<char> {
    if dir.len() == 0 {
        name
    } else if dir.last() == '/' {
        dir + name
    } else {
        dir + seq!['/'] + name
    }
}

/// Where a downloaded artifact is cached: the URL's file name in the cache
/// directory; none when the URL ends without a file name.
pub open spec fn cache_path(dir: Seq<char>, url: Seq<char>) -> Option<Seq<char>> {
    if last_segment(url).len() == 0 {
        None
    } else {
        Some(join_path(dir, last_segment(url)))
    }
}

pub fn firmware_cache_filename(dir: &str, url: &Vec<char>) -> (res: Option<String>)
    ensures
        match res {
            Some(p) => cache_path(dir@, url@) == Some(p@),
            None => cache_path(dir@, url@) is None,
        },
{
    let mut start: usize = url.len();
    assert(url@.take(start as int) =~= url@);
    assert(url@.subrange(start as int, url.len() as int) =~= Seq::<char>::empty());
    while start > 0 && url[start - 1] != '/'
        invariant
            start <= url.len(),
            last_segment(url@) == last_segment(url@.take(start as int)) + url@.subrange(start as int, url.len() as int),
        decreases start,
    {
        assert(url@.take(start as int).drop_last() =~= url@.take(start - 1));
        assert(url@.take(start as int).last() == url@[start - 1]);
        assert(url@.subrange(start - 1, url.len() as int) =~= seq![url@[start - 1]] + url@.subrange(
            start as int,
            url.len() as int,
        ));
        start = start - 1;
    }
    assert(last_segment(url@.take(start as int)) =~= Seq::<char>::empty()) by {
        if start > 0 {
            assert(url@.take(start as int).last() == url@[start - 1]);
        }
    }
    if start == url.len() {
        assert(last_segment(url@) =~= Seq::<char>::empty());
        return None;
    }
    let d = chars_of(dir);
    let mut out: Vec<char> = Vec::new();
    extend_vec(&mut out, &d);
    if d.len() > 0 && d[d.len() - 1] != '/' {
        out.push('/');
    }
    let mut i: usize = start;
    while i < url.len()
        invariant
            start <= i <= url.len(),
            out@ == (if d@.len() == 0 || d@.last() == '/' { d@ } else { d@ + seq!['/'] }) + url@.subrange(start as int, i as int),
        decreases url.len() - i,
    {
        out.push(url[i]);
        i = i + 1;
    }
    assert(last_segment(url@) =~= url@.subrange(start as int, url.len() as int));
    assert(out@ =~= join_path(dir@, last_segment(url@)));
    Some(string_of(&out))
}

/// The URL or filename of an artifact, trimmed, when not blank.
pub open spec fn present(s: Option<String>) -> Option<Seq<char>> {
    match s {
        Some(x) => if trim_ws(x@).len() > 0 {
            Some(trim_ws(x@))
        } else {
            None
        },
        None => None,
    }
}

pub open spec fn artifact_prefix(version: Seq<char>, pos: u32) -> Seq<char> {
    "firmware version "@ + version + " files[] artifact at index "@ + dec_nat(pos as nat)
}

/// What resolving an artifact gives: none without artifacts; an error for a
/// missing index, a URL without a file name, or an artifact naming neither;
/// else the cached download of the URL (with its checksum), or the local
/// filename when there is no URL.
pub open spec fn resolution(cache_dir: Seq<char>, firmware: FirmwareEntry, pos: u32) -> Result<Option<(Seq<char>, Option<(Seq<char>, Seq<char>)>)>, Seq<char>> {
    if firmware.files@.len() == 0 {
        Ok(None)
    } else if pos >= firmware.files@.len() {
        Err("firmware version "@ + firmware.version@ + " has no files[] artifact at index "@ + dec_nat(pos as nat))
    } else {
        let a = firmware.files@[pos as int];
        match present(a.url) {
            Some(url) => match cache_path(cache_dir, url) {
                Some(path) => Ok(Some((path, Some((url, a.sha256@))))),
                None => Err(artifact_prefix(firmware.version@, pos) + " URL does not include a filename"@),
            },
            None => match present(a.filename) {
                Some(f) => Ok(Some((f, None))),
                None => Err(artifact_prefix(firmware.version@, pos) + " has no filename or URL"@),
            },
        }
    }
}

/// The artifact resolved is the one at `pos`: a download comes from that
/// artifact's trimmed URL with that artifact's checksum and is cached under
/// the URL's file name; a local artifact is that artifact's trimmed
/// filename, used only when it has no URL. Two entries of one version that
/// hold the same artifact at `pos` resolve alike, whatever their other
/// artifacts. An entry without artifacts resolves to nothing, and an index
/// past its artifacts is an error.
pub proof fn lemma_resolution_uses_the_chosen_artifact(
    dir: Seq<char>,
    fw: FirmwareEntry,
    other: FirmwareEntry,
    pos: u32,
)
    ensures
        fw.files@.len() == 0 ==> resolution(dir, fw, pos) == Ok::<
            Option<(Seq<char>, Option<(Seq<char>, Seq<char>)>)>,
            Seq<char>,
        >(None),
        0 < fw.files@.len() <= pos ==> resolution(dir, fw, pos) is Err,
        pos < fw.files@.len() ==> ({
            let a = fw.files@[pos as int];
            let r = resolution(dir, fw, pos);
            &&& r is Ok ==> r->Ok_0 is Some
            &&& r matches Ok(Some((path, Some((url, sha))))) ==> a.url is Some && url == trim_ws(a.url->0@)
                && sha == a.sha256@ && path == join_path(dir, last_segment(trim_ws(a.url->0@)))
            &&& r matches Ok(Some((path, None))) ==> (a.url is None || trim_ws(a.url->0@).len() == 0)
                && a.filename is Some && path == trim_ws(a.filename->0@)
            &&& (a.url is Some && trim_ws(a.url->0@).len() > 0 && last_segment(trim_ws(a.url->0@)).len() > 0) ==> (r matches Ok(Some((_, Some(_)))))
        }),
        other.version@ == fw.version@ && pos < fw.files@.len() && pos < other.files@.len() && other.files@[pos as int]
            == fw.files@[pos as int]
            ==> resolution(dir, other, pos) == resolution(dir, fw, pos),
{
}

pub open spec fn resolved_view(r: ResolvedFirmwareArtifact) -> (Seq<char>, Option<(Seq<char>, Seq<char>)>) {
    (r.local_path@, match r.source {
        ResolvedFirmwareArtifactSource::Remote { url, sha256 } => Some((url@, sha256@)),
        ResolvedFirmwareArtifactSource::Local => None,
    })
}

fn trimmed_present(s: &Option<String>) -> (r: Option<Vec<char>>)
    ensures
        match r {
            Some(v) => present(*s) == Some(v@),
            None => present(*s) is None,
        },
{
    match s {
        Some(x) => {
            let cs = chars_of(x.as_str());
            let t = trim_vec(&cs);
            if t.len() > 0 {
                Some(t)
            } else {
                None
            }
        },
        None => None,
    }
}

fn artifact_error(version: &String, pos: u32, detail: &str) -> (e: String)
    ensures
        e@ == artifact_prefix(version@, pos) + detail@,
{
    let mut m: Vec<char> = Vec::new();
    extend_chars(&mut m, "firmware version ");
    extend_chars(&mut m, version.as_str());
    extend_chars(&mut m, " files[] artifact at index ");
    push_dec_i64(&mut m, pos as i64);
    extend_chars(&mut m, detail);
    assert(m@ =~= artifact_prefix(version@, pos) + detail@);
    string_of(&m)
}

/// Resolves the `pos`-th artifact of a firmware entry (see [`resolution`]).
pub fn resolve_files_firmware_artifact(
    firmware_cache_directory: &str,
    firmware: &FirmwareEntry,
    pos: u32,
) -> (res: Result<Option<ResolvedFirmwareArtifact>, String>)
    ensures
        match res {
            Ok(Some(r)) => resolution(firmware_cache_directory@, *firmware, pos) == Ok::<Option<(Seq<char>, Option<(Seq<char>, Seq<char>)>)>, Seq<char>>(Some(resolved_view(r))),
            Ok(None) => resolution(firmware_cache_directory@, *firmware, pos) == Ok::<Option<(Seq<char>, Option<(Seq<char>, Seq<char>)>)>, Seq<char>>(None),
            Err(e) => resolution(firmware_cache_directory@, *firmware, pos) == Err::<Option<(Seq<char>, Option<(Seq<char>, Seq<char>)>)>, Seq<char>>(e@),
        },
        pos < firmware.files@.len() ==> (res matches Ok(Some(r)) ==> (r.source matches ResolvedFirmwareArtifactSource::Remote {
            url,
            sha256,
        } ==> url@ == trim_ws(firmware.files@[pos as int].url->0@) && sha256@ == firmware.files@[pos as int].sha256@)),
{
    proof {
        lemma_resolution_uses_the_chosen_artifact(firmware_cache_directory@, *firmware, *firmware, pos);
    }
    if firmware.files.len() == 0 {
        return Ok(None);
    }
    if pos as usize >= firmware.files.len() {
        let mut m: Vec<char> = Vec::new();
        extend_chars(&mut m, "firmware version ");
        extend_chars(&mut m, firmware.version.as_str());
        extend_chars(&mut m, " has no files[] artifact at index ");
        push_dec_i64(&mut m, pos as i64);
        return Err(string_of(&m));
    }
    let artifact = &firmware.files[pos as usize];
    let url = trimmed_present(&artifact.url);
    match url {
        Some(u) => match firmware_cache_filename(firmware_cache_directory, &u) {
            Some(path) => Ok(
                Some(
                    ResolvedFirmwareArtifact {
                        local_path: path,
                        source: ResolvedFirmwareArtifactSource::Remote {
                            url: string_of(&u),
                            sha256: artifact.sha256.clone(),
                        },
                    },
                ),
            ),
            None => Err(artifact_error(&firmware.version, pos, " URL does not include a filename")),
        },
        None => match trimmed_present(&artifact.filename) {
            Some(f) => Ok(Some(ResolvedFirmwareArtifact { local_path: string_of(&f), source: ResolvedFirmwareArtifactSource::Local })),
            None => Err(artifact_error(&firmware.version, pos, " has no filename or URL")),
        },
    }
}

} // verus!
