//! What a table of rules means: the table is the sequence of rules inserted
//! so far, and every answer of the engine is a function of that sequence.

use vstd::prelude::*;
use crate::flow::{Action, Flow, Packet, WILDCARD_PORT};
use crate::index::{lookup, Entry};

verus! {

/// The key of the exact-match table: masked source address, source port
/// pattern, masked destination address, destination port pattern.
pub type RuleKey = (u32, u16, u32, u16);

/// The entry that a rule registers in the source index.
pub open spec fn src_entry(flow: Flow) -> Entry {
    (flow.src.prefix_len, flow.src.network(), flow.src_port)
}

/// The entry that a rule registers in the destination index.
pub open spec fn dst_entry(flow: Flow) -> Entry {
    (flow.dst.prefix_len, flow.dst.network(), flow.dst_port)
}

/// The key under which a rule's action is stored.
pub open spec fn rule_key(flow: Flow) -> RuleKey {
    (flow.src.network(), flow.src_port, flow.dst.network(), flow.dst_port)
}

/// The source index of a sequence of rules.
pub open spec fn src_entries(flows: Seq<Flow>) -> Set<Entry> {
    Set::new(|e: Entry| exists|i: int| 0 <= i < flows.len() && src_entry(#[trigger] flows[i]) == e)
}

/// The destination index of a sequence of rules.
pub open spec fn dst_entries(flows: Seq<Flow>) -> Set<Entry> {
    Set::new(|e: Entry| exists|i: int| 0 <= i < flows.len() && dst_entry(#[trigger] flows[i]) == e)
}

/// The exact-match table of a sequence of rules: each key carries the action
/// of the last rule inserted under it.
pub open spec fn rule_map(flows: Seq<Flow>) -> Map<RuleKey, Action>
    decreases flows.len(),
{
    if flows.len() == 0 {
        Map::empty()
    } else {
        rule_map(flows.drop_last()).insert(rule_key(flows.last()), flows.last().action)
    }
}

/// One step of the cascade: resolve the source address under `src_port` and
/// the destination address under `dst_port`, each to its most specific
/// registered prefix, and look the resulting pair up in the exact-match table.
pub open spec fn resolve(flows: Seq<Flow>, packet: Packet, src_port: u16, dst_port: u16) -> Option<
    Action,
> {
    match (
        lookup(src_entries(flows), packet.src_ip, src_port),
        lookup(dst_entries(flows), packet.dst_ip, dst_port),
    ) {
        (Some(s), Some(d)) => {
            let key = (s.0, s.2, d.0, d.2);
            if rule_map(flows).contains_key(key) {
                Some(rule_map(flows)[key])
            } else {
                None
            }
        },
        _ => None,
    }
}

/// The action that wins a packet: the first step of the cascade that finds a
/// rule, trying explicit ports before wildcards, the source wildcard before
/// the destination wildcard.
pub open spec fn classify(flows: Seq<Flow>, packet: Packet) -> Option<Action> {
    if resolve(flows, packet, packet.src_port, packet.dst_port) is Some {
        resolve(flows, packet, packet.src_port, packet.dst_port)
    } else if resolve(flows, packet, WILDCARD_PORT, packet.dst_port) is Some {
        resolve(flows, packet, WILDCARD_PORT, packet.dst_port)
    } else if resolve(flows, packet, packet.src_port, WILDCARD_PORT) is Some {
        resolve(flows, packet, packet.src_port, WILDCARD_PORT)
    } else {
        resolve(flows, packet, WILDCARD_PORT, WILDCARD_PORT)
    }
}

/// Appending a rule registers its source entry.
pub proof fn lemma_src_entries_push(flows: Seq<Flow>, flow: Flow)
    ensures
        src_entries(flows.push(flow)) == src_entries(flows).insert(src_entry(flow)),
{
    let after = flows.push(flow);
    assert forall|e: Entry| src_entries(after).contains(e) <==> src_entries(flows).insert(
        src_entry(flow),
    ).contains(e) by {
        if src_entries(after).contains(e) {
            let i = choose|i: int| 0 <= i < after.len() && src_entry(#[trigger] after[i]) == e;
            assert(i < flows.len() ==> after[i] == flows[i]);
        }
        if src_entries(flows).contains(e) {
            let i = choose|i: int| 0 <= i < flows.len() && src_entry(#[trigger] flows[i]) == e;
            assert(after[i] == flows[i]);
        }
        if e == src_entry(flow) {
            assert(after[flows.len() as int] == flow);
        }
    }
}

/// Appending a rule registers its destination entry.
pub proof fn lemma_dst_entries_push(flows: Seq<Flow>, flow: Flow)
    ensures
        dst_entries(flows.push(flow)) == dst_entries(flows).insert(dst_entry(flow)),
{
    let after = flows.push(flow);
    assert forall|e: Entry| dst_entries(after).contains(e) <==> dst_entries(flows).insert(
        dst_entry(flow),
    ).contains(e) by {
        if dst_entries(after).contains(e) {
            let i = choose|i: int| 0 <= i < after.len() && dst_entry(#[trigger] after[i]) == e;
            assert(i < flows.len() ==> after[i] == flows[i]);
        }
        if dst_entries(flows).contains(e) {
            let i = choose|i: int| 0 <= i < flows.len() && dst_entry(#[trigger] flows[i]) == e;
            assert(after[i] == flows[i]);
        }
        if e == dst_entry(flow) {
            assert(after[flows.len() as int] == flow);
        }
    }
}

/// Appending a rule writes its action under its key, over whatever was there.
pub proof fn lemma_rule_map_push(flows: Seq<Flow>, flow: Flow)
    ensures
        rule_map(flows.push(flow)) == rule_map(flows).insert(rule_key(flow), flow.action),
{
    assert(flows.push(flow).drop_last() =~= flows);
}

/// The exact-match table of finitely many rules has finitely many keys.
pub proof fn lemma_rule_map_finite(flows: Seq<Flow>)
    ensures
        rule_map(flows).dom().finite(),
    decreases flows.len(),
{
    if flows.len() > 0 {
        lemma_rule_map_finite(flows.drop_last());
    }
}

/// A key is in the exact-match table exactly where some rule has it, and
/// then it carries the action of a rule that has it.
pub proof fn lemma_rule_map_keys(flows: Seq<Flow>, key: RuleKey)
    ensures
        rule_map(flows).contains_key(key) <==> exists|i: int|
            0 <= i < flows.len() && rule_key(#[trigger] flows[i]) == key,
        rule_map(flows).contains_key(key) ==> exists|i: int|
            0 <= i < flows.len() && rule_key(#[trigger] flows[i]) == key && flows[i].action
                == rule_map(flows)[key],
    decreases flows.len(),
{
    if flows.len() > 0 {
        let front = flows.drop_last();
        lemma_rule_map_keys(front, key);
        if rule_key(flows.last()) != key && rule_map(front).contains_key(key) {
            let i = choose|i: int|
                0 <= i < front.len() && rule_key(#[trigger] front[i]) == key && front[i].action
                    == rule_map(front)[key];
            assert(flows[i] == front[i]);
        }
        if exists|i: int| 0 <= i < flows.len() && rule_key(#[trigger] flows[i]) == key {
            let i = choose|i: int| 0 <= i < flows.len() && rule_key(#[trigger] flows[i]) == key;
            assert(i < front.len() ==> front[i] == flows[i]);
        }
    }
}

/// A rule's action stands under its key unless a later rule has the same key.
pub proof fn lemma_rule_map_last(flows: Seq<Flow>, at: int)
    requires
        0 <= at < flows.len(),
        forall|j: int|
            at < j < flows.len() ==> rule_key(#[trigger] flows[j]) != rule_key(flows[at]),
    ensures
        rule_map(flows).contains_key(rule_key(flows[at])),
        rule_map(flows)[rule_key(flows[at])] == flows[at].action,
    decreases flows.len(),
{
    if at < flows.len() - 1 {
        let front = flows.drop_last();
        assert forall|j: int| at < j < front.len() implies rule_key(#[trigger] front[j])
            != rule_key(front[at]) by {
            assert(front[j] == flows[j]);
        }
        lemma_rule_map_last(front, at);
    }
}

} // verus!
