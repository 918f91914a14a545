use aokami::blocks::{transform_block_definitions, transform_blocks, BlockDefinition, BlockState};
use aokami::registry::{transform_registries, RegistryDirEntry, RegistryInput};
use aokami::PipelineError;

fn file(stem: &str, contents: &str) -> RegistryDirEntry {
    RegistryDirEntry::File { stem: stem.to_string(), contents: contents.to_string() }
}

#[test]
fn registry_entries_are_namespaced_by_stem() {
    let inputs = vec![RegistryInput {
        name: "item".to_string(),
        entries: Some(vec![
            file("stick", "{\"protocol_id\": 1}"),
            file("diamond", "{\"protocol_id\": 2}"),
        ]),
    }];
    let out = transform_registries(&inputs).unwrap();
    assert_eq!(out.len(), 1);
    assert_eq!(out[0].0, "minecraft:item");
    let entries = &out[0].1;
    assert_eq!(entries.len(), 2);
    assert_eq!(entries[0].0, "minecraft:stick");
    assert_eq!(
        entries[0].1,
        serde_json::from_str::<serde_json::Value>("{\"protocol_id\": 1}").unwrap()
    );
    assert_eq!(entries[1].0, "minecraft:diamond");
    assert_eq!(
        entries[1].1,
        serde_json::from_str::<serde_json::Value>("{\"protocol_id\": 2}").unwrap()
    );
}

#[test]
fn registries_keep_caller_order() {
    let inputs = vec![
        RegistryInput { name: "worldgen/biome".to_string(), entries: Some(vec![]) },
        RegistryInput { name: "item".to_string(), entries: Some(vec![]) },
    ];
    let out = transform_registries(&inputs).unwrap();
    assert_eq!(out[0].0, "minecraft:worldgen/biome");
    assert_eq!(out[1].0, "minecraft:item");
}

#[test]
fn non_file_entries_are_skipped() {
    let inputs = vec![RegistryInput {
        name: "worldgen".to_string(),
        entries: Some(vec![
            RegistryDirEntry::NonFile { name: "biome".to_string() },
            file("noise", "null"),
        ]),
    }];
    let out = transform_registries(&inputs).unwrap();
    assert_eq!(out[0].1.len(), 1);
    assert_eq!(out[0].1[0].0, "minecraft:noise");
}

#[test]
fn missing_registry_directory_aborts_the_whole_transform() {
    let inputs = vec![
        RegistryInput {
            name: "item".to_string(),
            entries: Some(vec![file("stick", "{}")]),
        },
        RegistryInput { name: "biome".to_string(), entries: None },
    ];
    let r = transform_registries(&inputs);
    assert_eq!(r.err(), Some(PipelineError::IoError("biome".to_string())));
}

#[test]
fn unparsable_registry_file_aborts_with_its_stem() {
    let inputs = vec![RegistryInput {
        name: "item".to_string(),
        entries: Some(vec![file("stick", "{"), file("diamond", "{}")]),
    }];
    let r = transform_registries(&inputs);
    assert_eq!(r.err(), Some(PipelineError::ParseError("stick".to_string())));
}

#[test]
fn block_report_maps_blocks_to_their_default_state_id() {
    let report = "{\"minecraft:stone\": {\"states\":[{\"id\":1,\"default\":false},{\"id\":2,\"default\":true}]}}";
    let out = transform_blocks(report).unwrap();
    assert_eq!(out, vec![("minecraft:stone".to_string(), 2)]);
}

#[test]
fn block_without_default_state_is_malformed() {
    let report = "{\"minecraft:stone\": {\"states\":[{\"id\":1,\"default\":false}]}}";
    let r = transform_blocks(report);
    assert_eq!(
        r.err(),
        Some(PipelineError::MalformedBlockState("minecraft:stone".to_string()))
    );
}

#[test]
fn default_state_without_integer_id_is_malformed() {
    let report = "{\"minecraft:stone\": {\"states\":[{\"default\":true}]}}";
    let r = transform_blocks(report);
    assert_eq!(
        r.err(),
        Some(PipelineError::MalformedBlockState("minecraft:stone".to_string()))
    );
}

#[test]
fn block_without_states_array_is_omitted() {
    let report = "{\"minecraft:air\": {\"definition\": {}}, \"minecraft:stone\": {\"states\":[{\"id\":7,\"default\":true}]}}";
    let out = transform_blocks(report).unwrap();
    assert_eq!(out, vec![("minecraft:stone".to_string(), 7)]);
}

#[test]
fn non_object_report_is_a_parse_error() {
    assert!(matches!(transform_blocks("[1, 2]"), Err(PipelineError::ParseError(_))));
    assert!(matches!(transform_blocks("{"), Err(PipelineError::ParseError(_))));
}

#[test]
fn definitions_keep_input_order_and_use_the_first_default() {
    let blocks = vec![
        (
            "minecraft:stone".to_string(),
            BlockDefinition {
                states: Some(vec![
                    BlockState { id: Some(1), default: Some(false) },
                    BlockState { id: Some(2), default: Some(true) },
                    BlockState { id: Some(3), default: Some(true) },
                ]),
            },
        ),
        ("minecraft:air".to_string(), BlockDefinition { states: None }),
        (
            "minecraft:dirt".to_string(),
            BlockDefinition {
                states: Some(vec![BlockState { id: Some(10), default: Some(true) }]),
            },
        ),
    ];
    let out = transform_block_definitions(&blocks).unwrap();
    assert_eq!(
        out,
        vec![("minecraft:stone".to_string(), 2), ("minecraft:dirt".to_string(), 10)]
    );
}

#[test]
fn first_bad_block_names_the_error() {
    let blocks = vec![
        (
            "minecraft:stone".to_string(),
            BlockDefinition {
                states: Some(vec![BlockState { id: Some(1), default: Some(true) }]),
            },
        ),
        (
            "minecraft:water".to_string(),
            BlockDefinition {
                states: Some(vec![BlockState { id: Some(4), default: Some(false) }]),
            },
        ),
    ];
    let r = transform_block_definitions(&blocks);
    assert_eq!(
        r.err(),
        Some(PipelineError::MalformedBlockState("minecraft:water".to_string()))
    );
}

#[test]
fn non_boolean_default_marker_does_not_count() {
    let report = "{\"minecraft:stone\": {\"states\":[{\"id\":1,\"default\":1},{\"id\":2,\"default\":true}]}}";
    let out = transform_blocks(report).unwrap();
    assert_eq!(out, vec![("minecraft:stone".to_string(), 2)]);
}
