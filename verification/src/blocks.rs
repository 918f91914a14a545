use vstd::prelude::*;
use crate::PipelineError;
use crate::jsonio::{
    json_object_ok, json_members_of, json_member_of, json_elements_of, json_bool_of, json_int_of,
    parse_json_object, json_get, json_as_array, json_as_bool, json_as_i64,
};
use vstd::slice::slice_index_get;

verus! {

/// What the block transform reads of one state of a block: its protocol id,
/// when it carries an integer one, and its default marker, when it carries a
/// boolean one.
#[derive(Debug, Clone, Copy, PartialEq, Eq, Structural)]
pub struct BlockState {
    pub id: Option<i64>,
    pub default: Option<bool>,
}

/// What the block transform reads of one block definition: its states, when
/// it carries a `states` array.
#[derive(Debug, Clone)]
pub struct BlockDefinition {
    pub states: Option<Vec<BlockState>>,
}

/// Whether `states[j]` is the first state marked as the default.
pub open spec fn is_first_default(states: Seq<BlockState>, j: int) -> bool {
    0 <= j < states.len() && states[j].default == Some(true) && (forall|k: int|
        0 <= k < j ==> states[k].default != Some(true))
}

proof fn lemma_first_default_unique(states: Seq<BlockState>, j1: int, j2: int)
    requires
        is_first_default(states, j1),
        is_first_default(states, j2),
    ensures
        j1 == j2,
{
}

/// Whether a block definition is acceptable: either it has no `states`
/// array (and is skipped), or its first default state carries an integer id.
pub open spec fn block_ok(d: BlockDefinition) -> bool {
    match d.states {
        None => true,
        Some(states) => exists|j: int|
            #[trigger] is_first_default(states@, j) && states@[j].id is Some,
    }
}

/// The block-to-protocol-id table owed for `blocks`: one row per block with
/// a `states` array, in input order, carrying the id of its first default
/// state.
pub open spec fn spec_block_table(blocks: Seq<(String, BlockDefinition)>) -> Seq<(Seq<char>, i64)>
    decreases blocks.len(),
{
    if blocks.len() == 0 {
        Seq::empty()
    } else {
        let rest = spec_block_table(blocks.drop_last());
        let last = blocks.last();
        match last.1.states {
            None => rest,
            Some(states) => if exists|j: int|
                #[trigger] is_first_default(states@, j) && states@[j].id is Some {
                let j = choose|j: int| is_first_default(states@, j);
                rest.push((last.0@, states@[j].id->0))
            } else {
                rest
            },
        }
    }
}

/// What the block transform reads of one state value, stated over the named
/// results of the JSON accessors.
pub open spec fn spec_block_state_of(v: serde_json::Value) -> BlockState {
    BlockState {
        id: match json_member_of(v, "id"@) {
            Some(member) => json_int_of(member),
            None => None,
        },
        default: match json_member_of(v, "default"@) {
            Some(member) => json_bool_of(member),
            None => None,
        },
    }
}

/// The states the block transform reads of one block definition value:
/// nothing when the value has no `states` array member.
pub open spec fn spec_states_of(v: serde_json::Value) -> Option<Seq<BlockState>> {
    match json_member_of(v, "states"@) {
        None => None,
        Some(states_value) => match json_elements_of(states_value) {
            None => None,
            Some(elements) => Some(
                elements.map_values(|e: serde_json::Value| spec_block_state_of(e)),
            ),
        },
    }
}

/// Whether the read definition `d` is exactly what the block transform
/// reads of the value `v`.
pub open spec fn def_matches(d: BlockDefinition, v: serde_json::Value) -> bool {
    match spec_states_of(v) {
        None => d.states is None,
        Some(states) => d.states matches Some(sv) && sv@ == states,
    }
}

/// Whether a member's definition value is acceptable, stated directly over
/// the report's values.
pub open spec fn member_block_ok(v: serde_json::Value) -> bool {
    match spec_states_of(v) {
        None => true,
        Some(states) => exists|j: int|
            #[trigger] is_first_default(states, j) && states[j].id is Some,
    }
}

/// The block-to-protocol-id table owed for the report's members, stated
/// directly over the report's values.
pub open spec fn spec_report_table(members: Seq<(Seq<char>, serde_json::Value)>) -> Seq<
    (Seq<char>, i64),
>
    decreases members.len(),
{
    if members.len() == 0 {
        Seq::empty()
    } else {
        let rest = spec_report_table(members.drop_last());
        let last = members.last();
        match spec_states_of(last.1) {
            None => rest,
            Some(states) => if exists|j: int|
                #[trigger] is_first_default(states, j) && states[j].id is Some {
                let j = choose|j: int| is_first_default(states, j);
                rest.push((last.0, states[j].id->0))
            } else {
                rest
            },
        }
    }
}

/// Whether `defs` is exactly what the block transform reads of `members`.
pub open spec fn defs_correspond(
    members: Seq<(Seq<char>, serde_json::Value)>,
    defs: Seq<(String, BlockDefinition)>,
) -> bool {
    defs.len() == members.len() && (forall|i: int|
        0 <= i < members.len() ==> (#[trigger] defs[i]).0@ == members[i].0 && def_matches(
            defs[i].1,
            members[i].1,
        ))
}

/// Definitions read faithfully from the members owe the same table, and a
/// definition is acceptable exactly when its member is.
proof fn lemma_table_correspond(
    members: Seq<(Seq<char>, serde_json::Value)>,
    defs: Seq<(String, BlockDefinition)>,
)
    requires
        defs_correspond(members, defs),
    ensures
        spec_block_table(defs) == spec_report_table(members),
        forall|i: int|
            0 <= i < members.len() ==> (block_ok((#[trigger] defs[i]).1) <==> member_block_ok(
                members[i].1,
            )),
    decreases members.len(),
{
    if members.len() > 0 {
        assert(defs_correspond(members.drop_last(), defs.drop_last()));
        lemma_table_correspond(members.drop_last(), defs.drop_last());
        assert(defs.last() == defs[members.len() - 1]);
        assert(def_matches(defs.last().1, members.last().1));
        match spec_states_of(members.last().1) {
            None => {
                assert(spec_block_table(defs) == spec_report_table(members));
            },
            Some(states) => {
                assert(defs.last().1.states matches Some(sv) && sv@ == states);
                assert(spec_block_table(defs) == spec_report_table(members));
            },
        }
        assert forall|i: int|
            0 <= i < members.len() implies (block_ok((#[trigger] defs[i]).1)
            <==> member_block_ok(members[i].1)) by {
            if i < members.len() - 1 {
                assert(defs.drop_last()[i] == defs[i]);
                assert(members.drop_last()[i] == members[i]);
            }
        }
    }
}

/// The protocol id of the first default state, when there is a default
/// state and it carries an integer id.
fn default_protocol_id(states: &Vec<BlockState>) -> (r: Option<i64>)
    ensures
        match r {
            Some(pid) => exists|j: int|
                #[trigger] is_first_default(states@, j) && states@[j].id == Some(pid),
            None => !(exists|j: int|
                #[trigger] is_first_default(states@, j) && states@[j].id is Some),
        },
{
    let n = states.len();
    let mut j: usize = 0;
    while j < n
        invariant
            j <= n == states@.len(),
            forall|k: int| 0 <= k < j ==> states@[k].default != Some(true),
        decreases n - j,
    {
        let st = states[j];
        let is_def = match st.default {
            Some(d) => d,
            None => false,
        };
        if is_def {
            proof {
                assert(is_first_default(states@, j as int));
            }
            match st.id {
                Some(pid) => {
                    return Some(pid);
                },
                None => {
                    proof {
                        assert forall|jj: int| #[trigger]
                            is_first_default(states@, jj) implies jj == j as int by {
                            lemma_first_default_unique(states@, jj, j as int);
                        }
                    }
                    return None;
                },
            }
        }
        j = j + 1;
    }
    None
}

/// Builds the block-to-protocol-id table from the read block definitions:
/// blocks without a `states` array are omitted; every other block
/// contributes the integer id of its first default state, in input order.
/// Fails with `MalformedBlockState` naming the first block whose `states`
/// array has no default state with an integer id.
pub fn transform_block_definitions(blocks: &Vec<(String, BlockDefinition)>) -> (r: Result<
    Vec<(String, i64)>,
    PipelineError,
>)
    ensures
        match r {
            Ok(t) => (forall|i: int| 0 <= i < blocks@.len() ==> block_ok(#[trigger] blocks@[i].1))
                && t@.len() == spec_block_table(blocks@).len() && (forall|m: int|
                0 <= m < t@.len() ==> #[trigger] t@[m].0@ == spec_block_table(blocks@)[m].0
                    && t@[m].1 == spec_block_table(blocks@)[m].1),
            Err(e) => e is MalformedBlockState && exists|i: int|
                0 <= i < blocks@.len() && !block_ok(#[trigger] blocks@[i].1) && (forall|k: int|
                    0 <= k < i ==> block_ok(#[trigger] blocks@[k].1)) && (e
                    matches PipelineError::MalformedBlockState(b) && b@ == blocks@[i].0@),
        },
{
    let mut out: Vec<(String, i64)> = Vec::new();
    let mut i: usize = 0;
    while i < blocks.len()
        invariant
            i <= blocks@.len(),
            forall|k: int| 0 <= k < i ==> block_ok(#[trigger] blocks@[k].1),
            out@.len() == spec_block_table(blocks@.take(i as int)).len(),
            forall|m: int|
                0 <= m < out@.len() ==> #[trigger] out@[m].0@ == spec_block_table(
                    blocks@.take(i as int),
                )[m].0 && out@[m].1 == spec_block_table(blocks@.take(i as int))[m].1,
        decreases blocks@.len() - i,
    {
        proof {
            assert(blocks@.take(i as int + 1).drop_last() =~= blocks@.take(i as int));
            assert(blocks@.take(i as int + 1).last() == blocks@[i as int]);
        }
        let pair = &blocks[i];
        match &pair.1.states {
            None => {},
            Some(states) => {
                match default_protocol_id(states) {
                    Some(pid) => {
                        proof {
                            assert(blocks@[i as int].1.states == Some(*states));
                            let j = choose|j: int|
                                #[trigger] is_first_default(states@, j) && states@[j].id == Some(
                                    pid,
                                );
                            assert(block_ok(blocks@[i as int].1));
                            let jj = choose|jj: int| is_first_default(states@, jj);
                            lemma_first_default_unique(states@, j, jj);
                        }
                        out.push((pair.0.clone(), pid));
                    },
                    None => {
                        proof {
                            assert(blocks@[i as int].1.states == Some(*states));
                            assert(!block_ok(blocks@[i as int].1));
                        }
                        return Err(PipelineError::MalformedBlockState(pair.0.clone()));
                    },
                }
            },
        }
        i = i + 1;
    }
    proof {
        assert(blocks@.take(blocks@.len() as int) =~= blocks@);
    }
    Ok(out)
}

/// What the block transform reads of one state value.
fn read_block_state(v: &serde_json::Value) -> (r: BlockState)
    ensures
        r == spec_block_state_of(*v),
{
    let id = match json_get(v, "id") {
        Some(member) => json_as_i64(member),
        None => None,
    };
    let default = match json_get(v, "default") {
        Some(member) => json_as_bool(member),
        None => None,
    };
    BlockState { id, default }
}

/// What the block transform reads of one block definition value.
fn read_block_definition(v: &serde_json::Value) -> (r: BlockDefinition)
    ensures
        def_matches(r, *v),
{
    match json_get(v, "states") {
        None => BlockDefinition { states: None },
        Some(states_value) => match json_as_array(states_value) {
            None => BlockDefinition { states: None },
            Some(elements) => {
                let mut states: Vec<BlockState> = Vec::new();
                let mut j: usize = 0;
                while j < elements.len()
                    invariant
                        j <= elements@.len(),
                        states@.len() == j,
                        forall|k: int|
                            0 <= k < j ==> #[trigger] states@[k] == spec_block_state_of(
                                elements@[k],
                            ),
                    decreases elements@.len() - j,
                {
                    let st = read_block_state(slice_index_get(elements, j));
                    states.push(st);
                    j = j + 1;
                }
                proof {
                    assert(states@ =~= elements@.map_values(
                        |e: serde_json::Value| spec_block_state_of(e),
                    ));
                }
                BlockDefinition { states: Some(states) }
            },
        },
    }
}

/// What the block transform must return for the members of a well-formed
/// report: the full table `spec_report_table` describes, or
/// `MalformedBlockState` naming the first member at fault.
pub open spec fn report_result_ok(
    members: Seq<(Seq<char>, serde_json::Value)>,
    r: Result<Vec<(String, i64)>, PipelineError>,
) -> bool {
    match r {
        Ok(t) => (forall|i: int|
            0 <= i < members.len() ==> member_block_ok((#[trigger] members[i]).1)) && t@.len()
            == spec_report_table(members).len() && (forall|m: int|
            0 <= m < t@.len() ==> #[trigger] t@[m].0@ == spec_report_table(members)[m].0
                && t@[m].1 == spec_report_table(members)[m].1),
        Err(e) => e is MalformedBlockState && (exists|i: int|
            0 <= i < members.len() && !member_block_ok((#[trigger] members[i]).1) && (forall|
                k: int,
            |
                0 <= k < i ==> member_block_ok((#[trigger] members[k]).1)) && (e
                matches PipelineError::MalformedBlockState(b) && b@ == members[i].0)),
    }
}

/// Transforms the block report: parses its top-level JSON object, reads each
/// member's `states` array, and returns exactly the table
/// `spec_report_table` describes for the report's members. Fails with
/// `ParseError` when the report is not a JSON object, and with
/// `MalformedBlockState` naming the first block whose `states` array has no
/// default state with an integer id.
pub fn transform_blocks(report: &str) -> (r: Result<Vec<(String, i64)>, PipelineError>)
    ensures
        r is Ok ==> json_object_ok(report@),
        !json_object_ok(report@) ==> (r matches Err(e) && e is ParseError),
        json_object_ok(report@) ==> report_result_ok(json_members_of(report@), r),
{
    match parse_json_object(report) {
        Err(_) => Err(PipelineError::ParseError("blocks report".to_owned())),
        Ok(members) => {
            let mut defs: Vec<(String, BlockDefinition)> = Vec::new();
            let mut i: usize = 0;
            while i < members.len()
                invariant
                    i <= members@.len(),
                    members@.len() == json_members_of(report@).len(),
                    forall|k: int|
                        0 <= k < members@.len() ==> (#[trigger] members@[k]).0@ == json_members_of(
                            report@,
                        )[k].0 && members@[k].1 == json_members_of(report@)[k].1,
                    defs@.len() == i,
                    forall|k: int|
                        0 <= k < i ==> (#[trigger] defs@[k]).0@ == members@[k].0@ && def_matches(
                            defs@[k].1,
                            members@[k].1,
                        ),
                decreases members@.len() - i,
            {
                let pair = &members[i];
                let def = read_block_definition(&pair.1);
                defs.push((pair.0.clone(), def));
                i = i + 1;
            }
            proof {
                assert(defs_correspond(json_members_of(report@), defs@));
            }
            let table = transform_block_definitions(&defs);
            proof {
                lemma_table_correspond(json_members_of(report@), defs@);
                let jm = json_members_of(report@);
                if table is Ok {
                    assert forall|i2: int|
                        0 <= i2 < jm.len() implies member_block_ok((#[trigger] jm[i2]).1) by {
                        assert(block_ok(defs@[i2].1));
                    }
                } else {
                    let e = table->Err_0;
                    let ib = choose|ib: int|
                        0 <= ib < defs@.len() && !block_ok(#[trigger] defs@[ib].1) && (forall|
                            k: int,
                        |
                            0 <= k < ib ==> block_ok(#[trigger] defs@[k].1)) && (e
                            matches PipelineError::MalformedBlockState(b) && b@ == defs@[ib].0@);
                    assert(!member_block_ok((jm[ib]).1));
                    assert forall|k: int|
                        0 <= k < ib implies member_block_ok((#[trigger] jm[k]).1) by {
                        assert(block_ok(defs@[k].1));
                    }
                    assert(defs@[ib].0@ == jm[ib].0);
                }
                assert(report_result_ok(jm, table));
            }
            table
        },
    }
}

} // verus!
