use aokami::acquire::{plan_acquisition, AcquireAction};
use aokami::generate::build_java_command;
use aokami::manifest::{GameVersionDownloadEntry, GameVersionDownloads, GameVersionMetadata};
use aokami::paths::{artifact_path, get_output_path, join_path};

fn metadata() -> GameVersionMetadata {
    GameVersionMetadata {
        downloads: GameVersionDownloads {
            server: GameVersionDownloadEntry {
                sha1: "da39a3ee5e6b4b0d3255bfef95601890afd80709".to_string(),
                size: 49_000_000,
                url: "https://example.invalid/server.jar".to_string(),
            },
        },
        id: "1.20.1".to_string(),
    }
}

#[test]
fn join_path_inserts_one_separator() {
    assert_eq!(join_path("output", "generated"), "output/generated");
    assert_eq!(join_path("output/", "generated"), "output/generated");
    assert_eq!(join_path("", "generated"), "generated");
}

#[test]
fn output_path_is_the_transformed_directory() {
    assert_eq!(get_output_path("output"), "output/transformed");
}

#[test]
fn artifact_path_is_id_dot_jar() {
    assert_eq!(artifact_path("versions", "1.20.1"), "versions/1.20.1.jar");
}

#[test]
fn missing_destination_plans_a_transfer() {
    let plan = plan_acquisition("versions", &metadata(), false);
    match plan {
        AcquireAction::Transfer { url, dest } => {
            assert_eq!(url, "https://example.invalid/server.jar");
            assert_eq!(dest, "versions/1.20.1.jar");
        }
        AcquireAction::UseExisting { .. } => panic!("expected a transfer"),
    }
}

#[test]
fn existing_destination_is_reused_without_a_transfer() {
    let first = plan_acquisition("versions", &metadata(), false);
    let second = plan_acquisition("versions", &metadata(), true);
    let dest = match first {
        AcquireAction::Transfer { dest, .. } => dest,
        AcquireAction::UseExisting { .. } => panic!("expected a transfer"),
    };
    match second {
        AcquireAction::UseExisting { path } => assert_eq!(path, dest),
        AcquireAction::Transfer { .. } => panic!("expected no second transfer"),
    }
}

#[test]
fn java_command_has_the_fixed_flag_set() {
    let (java, args) = build_java_command("/opt/jdk", "versions/1.20.1.jar", "--all");
    assert_eq!(java, "/opt/jdk/bin/java");
    assert_eq!(
        args,
        vec![
            "-DbundlerMainClass=net.minecraft.data.Main".to_string(),
            "-jar".to_string(),
            "versions/1.20.1.jar".to_string(),
            "--all".to_string(),
        ]
    );
}
