//! The registry store: block states and entity types, loaded once at
//! startup and read-only afterwards.
//!
//! The caller parses the bundled report JSON outside this crate and hands
//! the tables over as plain values; the lookups here are the store's logic.

use vstd::prelude::*;

verus! {

/// An entity type's protocol id.
#[derive(Clone, Copy, Debug, PartialEq, Eq, Structural)]
pub struct EntityType {
    pub protocol_id: i32,
}

/// One block state: its global id and its property assignment.
#[derive(Debug)]
pub struct BlockState {
    pub id: i32,
    pub properties: Vec<(String, String)>,
}

/// One block: its name and its states, in report order.
#[derive(Debug)]
pub struct BlockEntry {
    pub name: String,
    pub states: Vec<BlockState>,
}

/// The block table of the report.
#[derive(Debug)]
pub struct BlockTable {
    pub blocks: Vec<BlockEntry>,
}

/// The entity-type table of the report.
#[derive(Debug)]
pub struct EntityTable {
    pub entries: Vec<(String, EntityType)>,
}

/// No entity type of that name.
#[derive(Debug)]
pub struct EntityTypeNotFound {
    pub id: String,
}

/// No block of that name, or none of its states carries the asked
/// properties.
#[derive(Debug)]
pub enum BlockStateNotFound {
    BlockNotFound { id: String },
    BlockStateNotFound { id: String },
}

/// Byte-for-byte string comparison.
pub fn str_eq(a: &str, b: &str) -> (r: bool)
    ensures
        r == (a@ == b@),
{
    let ab = a.as_bytes();
    let bb = b.as_bytes();
    if ab.len() != bb.len() {
        proof {
            assert(a@ != b@);
        }
        return false;
    }
    let mut i: usize = 0;
    while i < ab.len()
        invariant
            ab@ == vstd::utf8::encode_utf8(a@),
            bb@ == vstd::utf8::encode_utf8(b@),
            ab@.len() == bb@.len(),
            i <= ab@.len(),
            forall|j: int| 0 <= j < i ==> ab@[j] == bb@[j],
        decreases ab@.len() - i,
    {
        if ab[i] != bb[i] {
            proof {
                assert(ab@ != bb@);
            }
            return false;
        }
        i = i + 1;
    }
    proof {
        assert(ab@ =~= bb@);
        crate::roundtrip::lemma_utf8_injective(a@, b@);
    }
    true
}

/// Whether the state's property list assigns `value` to `key`.
pub open spec fn has_prop(props: Seq<(String, String)>, key: Seq<char>, value: Seq<char>) -> bool {
    exists|i: int| 0 <= i < props.len() && (#[trigger] props[i]).0@ == key && props[i].1@ == value
}

/// Whether the state carries every asked property, with exact string
/// equality on keys and values.
pub open spec fn props_match(props: Seq<(String, String)>, asked: Seq<(String, String)>) -> bool {
    forall|i: int|
        0 <= i < asked.len() ==> has_prop(props, (#[trigger] asked[i]).0@, asked[i].1@)
}

fn prop_lookup(props: &Vec<(String, String)>, key: &str, value: &str) -> (r: bool)
    ensures
        r == has_prop(props@, key@, value@),
{
    let mut i: usize = 0;
    while i < props.len()
        invariant
            i <= props@.len(),
            forall|j: int|
                0 <= j < i ==> !((#[trigger] props@[j]).0@ == key@ && props@[j].1@ == value@),
        decreases props@.len() - i,
    {
        if str_eq(props[i].0.as_str(), key) && str_eq(props[i].1.as_str(), value) {
            proof {
                assert((props@[i as int]).0@ == key@ && props@[i as int].1@ == value@);
            }
            return true;
        }
        i = i + 1;
    }
    false
}

fn state_matches(state: &BlockState, asked: &Vec<(String, String)>) -> (r: bool)
    ensures
        r == props_match(state.properties@, asked@),
{
    let mut i: usize = 0;
    while i < asked.len()
        invariant
            i <= asked@.len(),
            forall|j: int|
                0 <= j < i ==> has_prop(state.properties@, (#[trigger] asked@[j]).0@, asked@[j].1@),
        decreases asked@.len() - i,
    {
        if !prop_lookup(&state.properties, asked[i].0.as_str(), asked[i].1.as_str()) {
            return false;
        }
        i = i + 1;
    }
    true
}

impl EntityTable {
    /// Looks an entity type up by name: the first entry whose name matches,
    /// or `EntityTypeNotFound` when none does.
    pub fn entity_type(&self, id: &str) -> (r: Result<EntityType, EntityTypeNotFound>)
        ensures
            r matches Ok(e) ==> exists|i: int|
                0 <= i < self.entries@.len() && (#[trigger] self.entries@[i]).0@ == id@
                    && self.entries@[i].1 == e,
            r is Err ==> forall|i: int|
                0 <= i < self.entries@.len() ==> (#[trigger] self.entries@[i]).0@ != id@,
            (exists|i: int| 0 <= i < self.entries@.len() && (#[trigger] self.entries@[i]).0@ == id@)
                <==> r is Ok,
    {
        let mut i: usize = 0;
        while i < self.entries.len()
            invariant
                i <= self.entries@.len(),
                forall|j: int| 0 <= j < i ==> (#[trigger] self.entries@[j]).0@ != id@,
            decreases self.entries@.len() - i,
        {
            if str_eq(self.entries[i].0.as_str(), id) {
                return Ok(self.entries[i].1);
            }
            i = i + 1;
        }
        Err(EntityTypeNotFound { id: id.to_owned() })
    }
}

impl BlockTable {
    /// Resolves a block state: find the block by name, then return the id
    /// of its first state whose properties carry every asked pair.
    /// `BlockNotFound` when the name is absent, `BlockStateNotFound` when
    /// no state matches.
    pub fn block_state(&self, id: &str, properties: &Vec<(String, String)>) -> (r: Result<
        i32,
        BlockStateNotFound,
    >)
        ensures
            (r matches Err(e) && e matches BlockStateNotFound::BlockNotFound { .. }) <==> (forall|
                i: int,
            |
                0 <= i < self.blocks@.len() ==> (#[trigger] self.blocks@[i]).name@ != id@),
            forall|bi: int|
                (0 <= bi < self.blocks@.len() && (forall|j: int|
                    0 <= j < bi ==> (#[trigger] self.blocks@[j]).name@ != id@) && (
                #[trigger] self.blocks@[bi]).name@ == id@) ==> ({
                    let states = self.blocks@[bi].states@;
                    &&& (r matches Ok(sid) ==> exists|k: int|
                        0 <= k < states.len() && props_match(
                            (#[trigger] states[k]).properties@,
                            properties@,
                        ) && (forall|m: int|
                            0 <= m < k ==> !props_match(
                                (#[trigger] states[m]).properties@,
                                properties@,
                            )) && states[k].id == sid)
                    &&& (r is Ok <==> exists|k: int|
                        0 <= k < states.len() && props_match(
                            (#[trigger] states[k]).properties@,
                            properties@,
                        ))
                }),
    {
        let mut i: usize = 0;
        while i < self.blocks.len()
            invariant
                i <= self.blocks@.len(),
                forall|j: int| 0 <= j < i ==> (#[trigger] self.blocks@[j]).name@ != id@,
            decreases self.blocks@.len() - i,
        {
            if str_eq(self.blocks[i].name.as_str(), id) {
                let block = &self.blocks[i];
                let ghost bi = i as int;
                proof {
                    assert(0 <= bi < self.blocks@.len() && (forall|j: int|
                        0 <= j < bi ==> (#[trigger] self.blocks@[j]).name@ != id@) && self.blocks@[
                        bi].name@ == id@);
                }
                let mut k: usize = 0;
                while k < block.states.len()
                    invariant
                        block == &self.blocks@[bi],
                        0 <= bi < self.blocks@.len(),
                        (forall|j: int| 0 <= j < bi ==> (#[trigger] self.blocks@[j]).name@ != id@),
                        self.blocks@[bi].name@ == id@,
                        k <= block.states@.len(),
                        forall|m: int|
                            0 <= m < k ==> !props_match(
                                (#[trigger] block.states@[m]).properties@,
                                properties@,
                            ),
                    decreases block.states@.len() - k,
                {
                    if state_matches(&block.states[k], properties) {
                        return Ok(block.states[k].id);
                    }
                    k = k + 1;
                }
                return Err(BlockStateNotFound::BlockStateNotFound { id: id.to_owned() });
            }
            i = i + 1;
        }
        Err(BlockStateNotFound::BlockNotFound { id: id.to_owned() })
    }
}

} // verus!
