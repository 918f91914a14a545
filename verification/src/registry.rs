use vstd::prelude::*;
use crate::PipelineError;
use crate::jsonio::{json_document_ok, json_value_of, parse_json_document};

verus! {

/// One entry of a registry directory, as the filesystem reports it: a
/// regular file with its stem and text, or anything else, which the
/// transform skips.
#[derive(Debug)]
pub enum RegistryDirEntry {
    File { stem: String, contents: String },
    NonFile { name: String },
}

/// One requested registry: its name, and the directory listing under
/// `minecraft/{name}`, or nothing when that directory could not be read.
#[derive(Debug)]
pub struct RegistryInput {
    pub name: String,
    pub entries: Option<Vec<RegistryDirEntry>>,
}

/// The namespaced key a registry or an entry is published under.
pub open spec fn registry_key(name: Seq<char>) -> Seq<char> {
    "minecraft:"@ + name
}

/// Whether a directory entry is acceptable: regular files must hold
/// well-formed JSON; anything else is skipped and never at fault.
pub open spec fn file_ok(e: RegistryDirEntry) -> bool {
    e matches RegistryDirEntry::File { stem: _, contents } ==> json_document_ok(contents@)
}

/// Whether a requested registry can be transformed: its directory was
/// readable and every file in it parses.
pub open spec fn input_ok(inp: RegistryInput) -> bool {
    match inp.entries {
        Some(entries) => forall|j: int| 0 <= j < entries@.len() ==> file_ok(#[trigger] entries@[j]),
        None => false,
    }
}

/// The stems of the regular files of a listing, in listing order.
pub open spec fn file_stems(entries: Seq<RegistryDirEntry>) -> Seq<Seq<char>>
    decreases entries.len(),
{
    if entries.len() == 0 {
        Seq::empty()
    } else {
        let rest = file_stems(entries.drop_last());
        match entries.last() {
            RegistryDirEntry::File { stem, contents: _ } => rest.push(stem@),
            RegistryDirEntry::NonFile { name: _ } => rest,
        }
    }
}

/// The texts of the regular files of a listing, in listing order.
pub open spec fn file_contents(entries: Seq<RegistryDirEntry>) -> Seq<Seq<char>>
    decreases entries.len(),
{
    if entries.len() == 0 {
        Seq::empty()
    } else {
        let rest = file_contents(entries.drop_last());
        match entries.last() {
            RegistryDirEntry::File { stem: _, contents } => rest.push(contents@),
            RegistryDirEntry::NonFile { name: _ } => rest,
        }
    }
}

/// The error owed for the first registry that cannot be transformed:
/// `IoError` naming the registry when its directory was unreadable, else
/// `ParseError` naming the stem of its first unparsable file.
pub open spec fn error_for_input(e: PipelineError, inp: RegistryInput) -> bool {
    match inp.entries {
        None => e matches PipelineError::IoError(n) && n@ == inp.name@,
        Some(entries) => exists|j: int|
            0 <= j < entries@.len() && !file_ok(#[trigger] entries@[j]) && (forall|k: int|
                0 <= k < j ==> file_ok(#[trigger] entries@[k])) && (entries@[j]
                matches RegistryDirEntry::File { stem, contents: _ } && e
                matches PipelineError::ParseError(p) && p@ == stem@),
    }
}

/// What one output row must be for its input: the registry's namespaced
/// key, and one entry per regular file, in listing order, keyed by the file
/// stem's namespaced key and holding the document parsed from that file's
/// text, carried through unmodified.
pub open spec fn row_ok(inp: RegistryInput, row: (String, Vec<(String, serde_json::Value)>)) -> bool {
    &&& row.0@ == registry_key(inp.name@)
    &&& inp.entries matches Some(entries) && row.1@.len() == file_stems(entries@).len() && (forall|
        m: int,
    |
        0 <= m < file_stems(entries@).len() ==> #[trigger] row.1@[m].0@ == registry_key(
            file_stems(entries@)[m],
        )) && (forall|m: int|
        0 <= m < file_contents(entries@).len() ==> (#[trigger] row.1@[m]).1 == json_value_of(
            file_contents(entries@)[m],
        ))
}

/// What the registry transform must return: when every requested registry
/// is readable and parses, the full assembled namespace, in caller order;
/// otherwise the error owed for the first registry at fault, and no output
/// at all.
pub open spec fn registries_result_ok(
    inputs: Seq<RegistryInput>,
    r: Result<Vec<(String, Vec<(String, serde_json::Value)>)>, PipelineError>,
) -> bool {
    match r {
        Ok(out) => (forall|i: int| 0 <= i < inputs.len() ==> input_ok(#[trigger] inputs[i]))
            && out@.len() == inputs.len() && (forall|i: int|
            0 <= i < inputs.len() ==> row_ok(#[trigger] inputs[i], #[trigger] out@[i])),
        Err(e) => exists|i: int|
            0 <= i < inputs.len() && !input_ok(#[trigger] inputs[i]) && (forall|k: int|
                0 <= k < i ==> input_ok(#[trigger] inputs[k])) && error_for_input(e, inputs[i]),
    }
}

/// Prefixes a name with the `minecraft:` namespace.
pub fn prefix_minecraft(name: &str) -> (r: String)
    ensures
        r@ == registry_key(name@),
{
    let mut key = "minecraft:".to_owned();
    key.append(name);
    key
}

/// Transforms the requested registries: every regular file of each
/// registry's directory becomes one entry holding its parsed document,
/// keyed by its namespaced stem, under the registry's namespaced key, in
/// the order given. Fails on the first registry whose directory was
/// unreadable (`IoError`) or whose file does not parse (`ParseError`),
/// transforming nothing in that case.
pub fn transform_registries(inputs: &Vec<RegistryInput>) -> (r: Result<
    Vec<(String, Vec<(String, serde_json::Value)>)>,
    PipelineError,
>)
    ensures
        registries_result_ok(inputs@, r),
{
    let mut out: Vec<(String, Vec<(String, serde_json::Value)>)> = Vec::new();
    let mut i: usize = 0;
    while i < inputs.len()
        invariant
            i <= inputs@.len(),
            out@.len() == i,
            forall|k: int| 0 <= k < i ==> input_ok(#[trigger] inputs@[k]),
            forall|k: int| 0 <= k < i ==> row_ok(#[trigger] inputs@[k], #[trigger] out@[k]),
        decreases inputs@.len() - i,
    {
        let inp = &inputs[i];
        match &inp.entries {
            None => {
                return Err(PipelineError::IoError(inp.name.clone()));
            },
            Some(entries) => {
                let mut row: Vec<(String, serde_json::Value)> = Vec::new();
                let mut j: usize = 0;
                while j < entries.len()
                    invariant
                        i < inputs@.len(),
                        inputs@[i as int].entries == Some(*entries),
                        forall|k: int| 0 <= k < i ==> input_ok(#[trigger] inputs@[k]),
                        j <= entries@.len(),
                        forall|k: int| 0 <= k < j ==> file_ok(#[trigger] entries@[k]),
                        row@.len() == file_stems(entries@.take(j as int)).len(),
                        row@.len() == file_contents(entries@.take(j as int)).len(),
                        forall|m: int|
                            0 <= m < file_stems(entries@.take(j as int)).len()
                                ==> #[trigger] row@[m].0@ == registry_key(
                                file_stems(entries@.take(j as int))[m],
                            ),
                        forall|m: int|
                            0 <= m < file_contents(entries@.take(j as int)).len() ==> (
                            #[trigger] row@[m]).1 == json_value_of(
                                file_contents(entries@.take(j as int))[m],
                            ),
                    decreases entries@.len() - j,
                {
                    proof {
                        assert(entries@.take(j as int + 1).drop_last() =~= entries@.take(j as int));
                    }
                    match &entries[j] {
                        RegistryDirEntry::NonFile { name: _ } => {},
                        RegistryDirEntry::File { stem, contents } => {
                            match parse_json_document(contents.as_str()) {
                                Err(_) => {
                                    proof {
                                        assert(!file_ok(entries@[j as int]));
                                        let es = inputs@[i as int].entries->0;
                                        assert(es == *entries);
                                        assert(!file_ok(es@[j as int]));
                                        assert(!input_ok(inputs@[i as int]));
                                    }
                                    return Err(PipelineError::ParseError(stem.clone()));
                                },
                                Ok(value) => {
                                    let key = prefix_minecraft(stem.as_str());
                                    row.push((key, value));
                                },
                            }
                        },
                    }
                    j = j + 1;
                }
                proof {
                    assert(entries@.take(entries@.len() as int) =~= entries@);
                }
                let key = prefix_minecraft(inp.name.as_str());
                out.push((key, row));
            },
        }
        i = i + 1;
    }
    Ok(out)
}

/// Law: when a requested registry's directory does not exist and every
/// registry before it is well-formed, the transform fails with `IoError`
/// naming that registry, and transforms no other registry in the same call:
/// the result carries no output at all.
pub proof fn lemma_missing_registry_aborts(
    inputs: Seq<RegistryInput>,
    r: Result<Vec<(String, Vec<(String, serde_json::Value)>)>, PipelineError>,
    i: int,
)
    requires
        registries_result_ok(inputs, r),
        0 <= i < inputs.len(),
        inputs[i].entries is None,
        forall|k: int| 0 <= k < i ==> input_ok(#[trigger] inputs[k]),
    ensures
        r matches Err(e) && e matches PipelineError::IoError(n) && n@ == inputs[i].name@,
{
    assert(!input_ok(inputs[i]));
    match r {
        Ok(_) => {
            assert(input_ok(inputs[i]));
        },
        Err(e) => {
            let ibad = choose|ib: int|
                0 <= ib < inputs.len() && !input_ok(#[trigger] inputs[ib]) && (forall|k: int|
                    0 <= k < ib ==> input_ok(#[trigger] inputs[k])) && error_for_input(
                    e,
                    inputs[ib],
                );
            if ibad < i {
                assert(input_ok(inputs[ibad]));
            }
            if i < ibad {
                assert(input_ok(inputs[i]));
            }
            assert(ibad == i);
        },
    }
}

} // verus!
