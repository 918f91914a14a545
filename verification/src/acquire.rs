use vstd::prelude::*;
use crate::manifest::GameVersionMetadata;
use crate::paths::{artifact_path, spec_artifact_path};

verus! {

/// What acquiring an artifact must do next: keep the file already at the
/// destination, or transfer the artifact's bytes to it.
#[derive(Debug, Clone)]
pub enum AcquireAction {
    UseExisting { path: String },
    Transfer { url: String, dest: String },
}

/// What a plan for `metadata` against `dir` must be: the destination is
/// always `{dir}/{id}.jar`, an existing destination is kept without any
/// transfer, and a missing one is filled from the server download URL.
pub open spec fn acquire_plan_ok(
    r: AcquireAction,
    dir: Seq<char>,
    metadata: GameVersionMetadata,
    dest_exists: bool,
) -> bool {
    match r {
        AcquireAction::UseExisting { path } => dest_exists && path@ == spec_artifact_path(
            dir,
            metadata.id@,
        ),
        AcquireAction::Transfer { url, dest } => !dest_exists && url@
            == metadata.downloads.server.url@ && dest@ == spec_artifact_path(dir, metadata.id@),
    }
}

/// Decides how to acquire the artifact `metadata` describes into
/// `versions_dir`, given whether its destination file already exists.
pub fn plan_acquisition(
    versions_dir: &str,
    metadata: &GameVersionMetadata,
    dest_exists: bool,
) -> (r: AcquireAction)
    ensures
        acquire_plan_ok(r, versions_dir@, *metadata, dest_exists),
{
    let path = artifact_path(versions_dir, metadata.id.as_str());
    if dest_exists {
        AcquireAction::UseExisting { path }
    } else {
        AcquireAction::Transfer { url: metadata.downloads.server.url.clone(), dest: path }
    }
}

/// Law: acquisition is idempotent. A first plan against a missing destination
/// transfers to some path; a second plan made once that file exists performs
/// no transfer and names the very same path.
pub proof fn lemma_acquire_idempotent(
    first: AcquireAction,
    second: AcquireAction,
    dir: Seq<char>,
    metadata: GameVersionMetadata,
)
    requires
        acquire_plan_ok(first, dir, metadata, false),
        acquire_plan_ok(second, dir, metadata, true),
    ensures
        first matches AcquireAction::Transfer { url: _, dest } && second
            matches AcquireAction::UseExisting { path } && path@ == dest@,
{
}

} // verus!
