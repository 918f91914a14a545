use vstd::prelude::*;
use crate::PipelineError;

verus! {

/// The two pointers the remote manifest keeps to its current versions.
#[derive(Debug, Clone)]
pub struct GameVersionLatest {
    pub release: String,
    pub snapshot: String,
}

/// One entry of the remote manifest: a version id, the label the manifest
/// gives its kind, and the URL of its per-version metadata document.
#[derive(Debug, Clone)]
pub struct GameVersionEntry {
    pub id: String,
    pub version_type: String,
    pub url: String,
}

/// The remote manifest: the latest pointers and the ordered entry list.
#[derive(Debug, Clone)]
pub struct GameVersionsResponse {
    pub latest: GameVersionLatest,
    pub versions: Vec<GameVersionEntry>,
}

/// One downloadable file of a version: its address, digest and size.
#[derive(Debug, Clone)]
pub struct GameVersionDownloadEntry {
    pub sha1: String,
    pub size: u64,
    pub url: String,
}

/// The downloads section of a version's metadata document.
#[derive(Debug, Clone)]
pub struct GameVersionDownloads {
    pub server: GameVersionDownloadEntry,
}

/// The per-version metadata document, fetched lazily for the one resolved
/// version.
#[derive(Debug, Clone)]
pub struct GameVersionMetadata {
    pub downloads: GameVersionDownloads,
    pub id: String,
}

/// Which of the two "latest" pointers a request without an explicit id asks
/// for.
#[derive(Debug, Clone, Copy, PartialEq, Eq, Structural)]
pub enum ReleaseType {
    Release,
    Snapshot,
}

/// A version selection request: an explicit id, or the latest version of the
/// requested kind.
#[derive(Debug, Clone)]
pub struct VersionRequest {
    pub explicit_id: Option<String>,
    pub release_kind: ReleaseType,
}

/// The id an entry must carry to satisfy `request` against manifest `m`.
pub open spec fn requested_id(m: GameVersionsResponse, request: VersionRequest) -> Seq<char> {
    match request.explicit_id {
        Some(id) => id@,
        None => match request.release_kind {
            ReleaseType::Release => m.latest.release@,
            ReleaseType::Snapshot => m.latest.snapshot@,
        },
    }
}

/// Whether entry `e` satisfies `request` against manifest `m`.
pub open spec fn entry_matches(e: GameVersionEntry, m: GameVersionsResponse, request: VersionRequest) -> bool {
    e.id@ == requested_id(m, request)
}

/// What resolution must return: the first matching entry of the manifest, or
/// `NotFound` exactly when no entry matches.
pub open spec fn resolution_ok(
    m: GameVersionsResponse,
    request: VersionRequest,
    r: Result<GameVersionEntry, PipelineError>,
) -> bool {
    match r {
        Ok(e) => exists|i: int|
            0 <= i < m.versions@.len() && m.versions@[i] == e && entry_matches(e, m, request)
                && (forall|k: int| 0 <= k < i ==> !entry_matches(#[trigger] m.versions@[k], m, request)),
        Err(err) => err == PipelineError::NotFound
            && (forall|k: int|
                0 <= k < m.versions@.len() ==> !entry_matches(#[trigger] m.versions@[k], m, request)),
    }
}

/// Resolves a version request against the manifest: the entry with the
/// explicit id, or the entry the matching "latest" pointer names. Returns the
/// first matching entry; fails with `NotFound` exactly when no entry matches.
pub fn resolve_version<'a>(
    manifest: &'a GameVersionsResponse,
    request: &VersionRequest,
) -> (r: Result<&'a GameVersionEntry, PipelineError>)
    ensures
        match r {
            Ok(e) => resolution_ok(*manifest, *request, Ok(*e)),
            Err(err) => resolution_ok(*manifest, *request, Err(err)),
        },
{
    let n = manifest.versions.len();
    let mut i: usize = 0;
    while i < n
        invariant
            i <= n,
            n == manifest.versions@.len(),
            forall|k: int|
                0 <= k < i ==> !entry_matches(#[trigger] manifest.versions@[k], *manifest, *request),
        decreases n - i,
    {
        let e = &manifest.versions[i];
        let matched = match &request.explicit_id {
            Some(id) => e.id == *id,
            None => match request.release_kind {
                ReleaseType::Release => e.id == manifest.latest.release,
                ReleaseType::Snapshot => e.id == manifest.latest.snapshot,
            },
        };
        if matched {
            return Ok(e);
        }
        i = i + 1;
    }
    Err(PipelineError::NotFound)
}

/// Law: when the manifest holds an entry whose id equals the "latest" pointer
/// of the requested kind, a request without an explicit id resolves to an
/// entry carrying exactly that id.
pub proof fn lemma_resolve_latest(
    m: GameVersionsResponse,
    request: VersionRequest,
    r: Result<GameVersionEntry, PipelineError>,
)
    requires
        request.explicit_id is None,
        resolution_ok(m, request, r),
        exists|i: int|
            0 <= i < m.versions@.len() && #[trigger] m.versions@[i].id@ == requested_id(m, request),
    ensures
        r matches Ok(e) && e.id@ == requested_id(m, request),
{
    let i = choose|i: int|
        0 <= i < m.versions@.len() && #[trigger] m.versions@[i].id@ == requested_id(m, request);
    assert(entry_matches(m.versions@[i], m, request));
}

/// Law: a request for an explicit id that no entry carries resolves to
/// `NotFound`, whatever else the manifest holds.
pub proof fn lemma_resolve_unknown_id(
    m: GameVersionsResponse,
    request: VersionRequest,
    id: String,
    r: Result<GameVersionEntry, PipelineError>,
)
    requires
        request.explicit_id == Some(id),
        forall|i: int| 0 <= i < m.versions@.len() ==> #[trigger] m.versions@[i].id@ != id@,
        resolution_ok(m, request, r),
    ensures
        r == Err::<GameVersionEntry, PipelineError>(PipelineError::NotFound),
{
    if r is Ok {
        let e = r->Ok_0;
        let i = choose|i: int|
            0 <= i < m.versions@.len() && m.versions@[i] == e && entry_matches(e, m, request)
                && (forall|k: int| 0 <= k < i ==> !entry_matches(#[trigger] m.versions@[k], m, request));
        assert(m.versions@[i].id@ != id@);
    }
}

} // verus!
