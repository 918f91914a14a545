use aokami::manifest::{
    resolve_version, GameVersionEntry, GameVersionLatest, GameVersionsResponse, ReleaseType,
    VersionRequest,
};
use aokami::PipelineError;

fn entry(id: &str, kind: &str) -> GameVersionEntry {
    GameVersionEntry {
        id: id.to_string(),
        version_type: kind.to_string(),
        url: format!("https://example.invalid/{}.json", id),
    }
}

fn manifest() -> GameVersionsResponse {
    GameVersionsResponse {
        latest: GameVersionLatest {
            release: "1.20.1".to_string(),
            snapshot: "23w31a".to_string(),
        },
        versions: vec![
            entry("23w31a", "snapshot"),
            entry("1.20.1", "release"),
            entry("1.20.0", "release"),
            entry("1.19.4", "release"),
        ],
    }
}

#[test]
fn resolves_latest_release() {
    let m = manifest();
    let request = VersionRequest { explicit_id: None, release_kind: ReleaseType::Release };
    let e = resolve_version(&m, &request).unwrap();
    assert_eq!(e.id, "1.20.1");
    assert_eq!(e.version_type, "release");
}

#[test]
fn resolves_latest_snapshot() {
    let m = manifest();
    let request = VersionRequest { explicit_id: None, release_kind: ReleaseType::Snapshot };
    let e = resolve_version(&m, &request).unwrap();
    assert_eq!(e.id, "23w31a");
}

#[test]
fn resolves_explicit_id() {
    let m = manifest();
    let request = VersionRequest {
        explicit_id: Some("1.19.4".to_string()),
        release_kind: ReleaseType::Release,
    };
    let e = resolve_version(&m, &request).unwrap();
    assert_eq!(e.id, "1.19.4");
    assert_eq!(e.url, "https://example.invalid/1.19.4.json");
}

#[test]
fn unknown_explicit_id_is_not_found() {
    let m = manifest();
    let request = VersionRequest {
        explicit_id: Some("9.9.9".to_string()),
        release_kind: ReleaseType::Release,
    };
    let r = resolve_version(&m, &request);
    assert_eq!(r.err(), Some(PipelineError::NotFound));
}

#[test]
fn dangling_latest_pointer_is_not_found() {
    let mut m = manifest();
    m.latest.release = "0.0.0".to_string();
    let request = VersionRequest { explicit_id: None, release_kind: ReleaseType::Release };
    let r = resolve_version(&m, &request);
    assert_eq!(r.err(), Some(PipelineError::NotFound));
}

#[test]
fn returns_first_matching_entry() {
    let mut m = manifest();
    m.versions.insert(
        1,
        GameVersionEntry {
            id: "1.20.1".to_string(),
            version_type: "release".to_string(),
            url: "https://example.invalid/first.json".to_string(),
        },
    );
    let request = VersionRequest { explicit_id: None, release_kind: ReleaseType::Release };
    let e = resolve_version(&m, &request).unwrap();
    assert_eq!(e.url, "https://example.invalid/first.json");
}
