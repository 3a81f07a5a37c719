//! What holds of every configuration that is read into a database.
use vstd::prelude::*;
use crate::country::lemma_slot_in_range;
use crate::database::{
    ascii_lower,
    spec_country_slot,
    spec_add_node,
    spec_add_nodes,
    spec_apply_default,
    spec_apply_key,
    spec_apply_keys,
    spec_apply_self,
    spec_apply_self_key,
    spec_parse_node_id,
    spec_read_config,
    DatabaseView,
    Entry,
    NodeView,
    Sections,
};

verus! {

/// One entry of a node's section leaves the table of nodes and the node's id
/// as they are, and the database well-formed.
pub proof fn lemma_key_keeps_nodes(db: DatabaseView, node: NodeView, key: Seq<char>, value: Seq<char>)
    requires
        db.wf(),
    ensures
        spec_apply_key(db, node, key, value) matches Ok((after, filled)) ==> {
            &&& after.nodes == db.nodes
            &&& after.wf()
            &&& filled.id == node.id
        },
{
    if let Some(slot) = spec_country_slot(value) {
        lemma_slot_in_range(ascii_lower(value[0]), ascii_lower(value[1]));
    }
}

/// The entries of a node's section leave the table of nodes and the node's id
/// as they are, and the database well-formed.
pub proof fn lemma_keys_keep_nodes(db: DatabaseView, node: NodeView, entries: Seq<Entry>)
    requires
        db.wf(),
    ensures
        spec_apply_keys(db, node, entries) matches Ok((after, filled)) ==> {
            &&& after.nodes == db.nodes
            &&& after.wf()
            &&& filled.id == node.id
        },
    decreases entries.len(),
{
    if entries.len() > 0 {
        lemma_key_keeps_nodes(db, node, entries[0].0, entries[0].1);
        if let Ok((next_db, next_node)) = spec_apply_key(db, node, entries[0].0, entries[0].1) {
            lemma_keys_keep_nodes(next_db, next_node, entries.drop_first());
        }
    }
}

/// An accepted entry of `[Nodes]` puts a node at its id and removes none.
pub proof fn lemma_add_node_occupies(
    db: DatabaseView,
    sections: Sections,
    key: Seq<char>,
    name: Seq<char>,
)
    requires
        db.wf(),
    ensures
        spec_add_node(db, sections, key, name) matches Ok(after) ==> {
            &&& after.wf()
            &&& spec_parse_node_id(key) matches Some(id) && db.nodes[id as int] is None
                && after.nodes[id as int] is Some
            &&& forall|other: int|
                0 <= other < db.nodes.len() && db.nodes[other] is Some
                    ==> after.nodes[other] is Some
        },
{
    if let Some(id) = spec_parse_node_id(key) {
        if sections.contains_key(name) {
            lemma_keys_keep_nodes(db, crate::database::bare_node(id, name), sections[name]);
        }
    }
}

/// An entry of `[Nodes]` whose id is taken makes the section fail, wherever
/// in the section it stands.
pub proof fn lemma_taken_id_is_refused(
    db: DatabaseView,
    sections: Sections,
    entries: Seq<Entry>,
    j: int,
)
    requires
        db.wf(),
        0 <= j < entries.len(),
        spec_parse_node_id(entries[j].0) matches Some(id) && db.nodes[id as int] is Some,
    ensures
        spec_add_nodes(db, sections, entries) is Err,
    decreases entries.len(),
{
    if j > 0 {
        lemma_add_node_occupies(db, sections, entries[0].0, entries[0].1);
        if let Ok(next) = spec_add_node(db, sections, entries[0].0, entries[0].1) {
            assert(entries.drop_first()[j - 1] == entries[j]);
            lemma_taken_id_is_refused(next, sections, entries.drop_first(), j - 1);
        }
    }
}

/// Uniqueness: where two entries of `[Nodes]` give the same id, the entries
/// are refused.
pub proof fn lemma_shared_id_is_refused(
    db: DatabaseView,
    sections: Sections,
    entries: Seq<Entry>,
    i: int,
    j: int,
)
    requires
        db.wf(),
        0 <= i < j < entries.len(),
        spec_parse_node_id(entries[i].0) is Some,
        spec_parse_node_id(entries[i].0) == spec_parse_node_id(entries[j].0),
    ensures
        spec_add_nodes(db, sections, entries) is Err,
    decreases entries.len(),
{
    lemma_add_node_occupies(db, sections, entries[0].0, entries[0].1);
    if let Ok(next) = spec_add_node(db, sections, entries[0].0, entries[0].1) {
        let rest = entries.drop_first();
        assert(rest[j - 1] == entries[j]);
        if i == 0 {
            lemma_taken_id_is_refused(next, sections, rest, j - 1);
        } else {
            assert(rest[i - 1] == entries[i]);
            lemma_shared_id_is_refused(next, sections, rest, i - 1, j - 1);
        }
    }
}

/// Uniqueness: a configuration in which two entries of `[Nodes]` give the
/// same id is refused as a whole.
pub proof fn lemma_configuration_with_shared_id_is_refused(
    db: DatabaseView,
    sections: Sections,
    i: int,
    j: int,
)
    requires
        db.wf(),
        sections.contains_key("Nodes"@),
        0 <= i < j < sections["Nodes"@].len(),
        spec_parse_node_id(sections["Nodes"@][i].0) is Some,
        spec_parse_node_id(sections["Nodes"@][i].0) == spec_parse_node_id(sections["Nodes"@][j].0),
    ensures
        spec_read_config(db, sections) is Err,
{
    lemma_shared_id_is_refused(db, sections, sections["Nodes"@], i, j);
}

/// No section that `[Nodes]` names has an entry with the key `Country`.
pub open spec fn assigns_no_country(sections: Sections, nodes: Seq<Entry>) -> bool {
    forall|i: int, k: int|
        0 <= i < nodes.len() && sections.contains_key(nodes[i].1) && 0 <= k
            < sections[nodes[i].1].len() ==> (#[trigger] sections[nodes[i].1][k]).0 != "Country"@
}

/// The value of the first entry with the key `Default`.
pub open spec fn first_default(entries: Seq<Entry>) -> Option<Seq<char>>
    decreases entries.len(),
{
    if entries.len() == 0 {
        None
    } else if entries[0].0 == "Default"@ {
        Some(entries[0].1)
    } else {
        first_default(entries.drop_first())
    }
}

/// No slot of the table has a candidate.
pub open spec fn no_candidates(db: DatabaseView) -> bool {
    forall|slot: int| 0 <= slot < db.country_to_nodes.len() ==> db.candidates(slot).len() == 0
}

/// Every slot of the table has a candidate.
pub open spec fn all_slots_served(db: DatabaseView) -> bool {
    forall|slot: int| 0 <= slot < db.country_to_nodes.len() ==> db.candidates(slot).len() > 0
}

/// Default fallback, slot by slot: the default node becomes the only
/// candidate of a slot that had none, and any other slot keeps its
/// candidates.
pub proof fn lemma_default_fills_empty_slot(db: DatabaseView, id: u8, slot: int)
    requires
        0 <= slot < db.country_to_nodes.len(),
    ensures
        spec_apply_default(db, id).candidates(slot) == if db.candidates(slot).len() == 0 {
            seq![id]
        } else {
            db.candidates(slot)
        },
        spec_apply_default(db, id).candidates(slot).len() > 0,
{
}

/// Entries other than `Country` leave the candidates as they are.
proof fn lemma_keys_without_country(db: DatabaseView, node: NodeView, entries: Seq<Entry>)
    requires
        db.wf(),
        forall|k: int| 0 <= k < entries.len() ==> (#[trigger] entries[k]).0 != "Country"@,
    ensures
        spec_apply_keys(db, node, entries) matches Ok((after, _)) ==> after.country_to_nodes
            == db.country_to_nodes,
    decreases entries.len(),
{
    if entries.len() > 0 {
        assert(entries[0].0 != "Country"@);
        lemma_key_keeps_nodes(db, node, entries[0].0, entries[0].1);
        if let Ok((next_db, next_node)) = spec_apply_key(db, node, entries[0].0, entries[0].1) {
            let rest = entries.drop_first();
            assert forall|k: int| 0 <= k < rest.len() implies (#[trigger] rest[k]).0 != "Country"@ by {
                assert(rest[k] == entries[k + 1]);
            }
            lemma_keys_without_country(next_db, next_node, rest);
        }
    }
}

/// Nodes without `Country` entries leave the candidates as they are.
proof fn lemma_nodes_without_country(db: DatabaseView, sections: Sections, entries: Seq<Entry>)
    requires
        db.wf(),
        assigns_no_country(sections, entries),
    ensures
        spec_add_nodes(db, sections, entries) matches Ok(after) ==> after.country_to_nodes
            == db.country_to_nodes && after.wf(),
    decreases entries.len(),
{
    if entries.len() > 0 {
        let key = entries[0].0;
        let name = entries[0].1;
        lemma_add_node_occupies(db, sections, key, name);
        if let Ok(next) = spec_add_node(db, sections, key, name) {
            let id = spec_parse_node_id(key).unwrap();
            let keys = sections[name];
            assert forall|k: int| 0 <= k < keys.len() implies (#[trigger] keys[k]).0 != "Country"@ by {
                assert(sections[entries[0].1][k].0 != "Country"@);
            }
            lemma_keys_without_country(db, crate::database::bare_node(id, name), keys);
            let rest = entries.drop_first();
            assert forall|i: int, k: int|
                0 <= i < rest.len() && sections.contains_key(rest[i].1) && 0 <= k
                    < sections[rest[i].1].len() implies (#[trigger] sections[rest[i].1][k]).0
                != "Country"@ by {
                assert(rest[i] == entries[i + 1]);
                assert(sections[entries[i + 1].1][k].0 != "Country"@);
            }
            lemma_nodes_without_country(next, sections, rest);
        }
    }
}

/// Where every slot has a candidate, `[Self]` changes no candidate.
proof fn lemma_self_keeps_served_slots(db: DatabaseView, entries: Seq<Entry>)
    requires
        all_slots_served(db),
    ensures
        spec_apply_self(db, entries) matches Ok(after) ==> after.country_to_nodes
            == db.country_to_nodes,
    decreases entries.len(),
{
    if entries.len() > 0 {
        if let Ok(next) = spec_apply_self_key(db, entries[0].0, entries[0].1) {
            assert(next.country_to_nodes =~= db.country_to_nodes) by {
                assert forall|slot: int| 0 <= slot < db.country_to_nodes.len() implies
                    next.country_to_nodes[slot] == db.country_to_nodes[slot] by {
                    assert(db.candidates(slot).len() > 0);
                }
            }
            lemma_self_keeps_served_slots(next, entries.drop_first());
        }
    }
}

/// The first `Default` of `[Self]` decides: every slot that had no candidate
/// gets the default node as its only one, and every other slot keeps its
/// candidates.
proof fn lemma_self_applies_first_default(db: DatabaseView, entries: Seq<Entry>, id: u8)
    requires
        first_default(entries) matches Some(value) && spec_parse_node_id(value) == Some(id),
    ensures
        spec_apply_self(db, entries) matches Ok(after) ==> after.country_to_nodes
            == spec_apply_default(db, id).country_to_nodes,
    decreases entries.len(),
{
    if entries[0].0 == "Default"@ {
        let next = spec_apply_default(db, id);
        assert(all_slots_served(next)) by {
            assert forall|slot: int| 0 <= slot < next.country_to_nodes.len() implies next.candidates(
                slot,
            ).len() > 0 by {
                lemma_default_fills_empty_slot(db, id, slot);
            }
        }
        lemma_self_keeps_served_slots(next, entries.drop_first());
    } else {
        lemma_self_applies_first_default(db, entries.drop_first(), id);
    }
}

/// Fallback rule: once `[Self]` names a default node, every slot of an
/// accepted configuration has at least one candidate.
pub proof fn lemma_default_serves_every_slot(db: DatabaseView, sections: Sections, slot: int)
    requires
        db.wf(),
        sections.contains_key("Self"@) && first_default(sections["Self"@]) is Some,
        0 <= slot < db.country_to_nodes.len(),
    ensures
        spec_read_config(db, sections) matches Ok(after) ==> after.candidates(slot).len() > 0,
{
    if let Ok(after) = spec_read_config(db, sections) {
        let with_nodes = spec_add_nodes(db, sections, sections["Nodes"@]).unwrap();
        lemma_nodes_keep_wf(db, sections, sections["Nodes"@]);
        let entries = sections["Self"@];
        lemma_first_default_is_read(with_nodes, entries);
        let id = spec_parse_node_id(first_default(entries).unwrap()).unwrap();
        lemma_self_applies_first_default(with_nodes, entries, id);
        lemma_default_fills_empty_slot(with_nodes, id, slot);
    }
}

/// Default fallback: where no node declares a country and the database had no
/// candidates, the default node of `[Self]` is the one candidate of every
/// slot.
pub proof fn lemma_default_alone_serves_every_slot(
    db: DatabaseView,
    sections: Sections,
    id: u8,
    slot: int,
)
    requires
        db.wf(),
        no_candidates(db),
        sections.contains_key("Nodes"@) && assigns_no_country(sections, sections["Nodes"@]),
        sections.contains_key("Self"@),
        first_default(sections["Self"@]) matches Some(value) && spec_parse_node_id(value) == Some(
            id,
        ),
        0 <= slot < db.country_to_nodes.len(),
    ensures
        spec_read_config(db, sections) matches Ok(after) ==> after.candidates(slot) == seq![id],
{
    if let Ok(after) = spec_read_config(db, sections) {
        lemma_nodes_without_country(db, sections, sections["Nodes"@]);
        let with_nodes = spec_add_nodes(db, sections, sections["Nodes"@]).unwrap();
        lemma_self_applies_first_default(with_nodes, sections["Self"@], id);
        assert(with_nodes.candidates(slot) == db.candidates(slot));
        lemma_default_fills_empty_slot(with_nodes, id, slot);
    }
}

/// Accepted entries of `[Nodes]` leave the database well-formed.
pub proof fn lemma_nodes_keep_wf(db: DatabaseView, sections: Sections, entries: Seq<Entry>)
    requires
        db.wf(),
    ensures
        spec_add_nodes(db, sections, entries) matches Ok(after) ==> after.wf(),
    decreases entries.len(),
{
    if entries.len() > 0 {
        lemma_add_node_occupies(db, sections, entries[0].0, entries[0].1);
        if let Ok(next) = spec_add_node(db, sections, entries[0].0, entries[0].1) {
            lemma_nodes_keep_wf(next, sections, entries.drop_first());
        }
    }
}

/// Where `[Self]` is accepted, its first `Default` is a node id.
proof fn lemma_first_default_is_read(db: DatabaseView, entries: Seq<Entry>)
    requires
        first_default(entries) is Some,
        spec_apply_self(db, entries) is Ok,
    ensures
        spec_parse_node_id(first_default(entries).unwrap()) is Some,
    decreases entries.len(),
{
    if entries[0].0 != "Default"@ {
        lemma_first_default_is_read(db, entries.drop_first());
    }
}

} // verus!
