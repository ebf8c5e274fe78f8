//! The rule table: two prefix indices and the exact-match table, filled one
//! rule at a time and then asked which rule wins a packet.

use vstd::prelude::*;
use vstd::set_lib::lemma_map_size;
use std::collections::HashMap;
use crate::flow::{Action, Flow, Packet, ValidationError, WILDCARD_PORT};
use crate::index::{get_net_port, PrefixIndex};
use crate::mask::prefix_mask;
use crate::model::{
    classify, dst_entries, lemma_dst_entries_push, lemma_rule_map_finite, lemma_rule_map_push,
    lemma_src_entries_push, rule_key, rule_map, src_entries, RuleKey,
};

verus! {

/// The integer under which the exact-match table stores a key.
pub open spec fn packed_key(key: RuleKey) -> u128 {
    (((key.0 as u128 * 0x1_0000 + key.1 as u128) * 0x1_0000_0000 + key.2 as u128) * 0x1_0000
        + key.3 as u128) as u128
}

fn pack_key(src_net: u32, src_port: u16, dst_net: u32, dst_port: u16) -> (packed: u128)
    ensures
        packed == packed_key((src_net, src_port, dst_net, dst_port)),
{
    ((src_net as u128 * 0x1_0000 + src_port as u128) * 0x1_0000_0000 + dst_net as u128) * 0x1_0000
        + dst_port as u128
}

/// Distinct keys are stored under distinct integers.
proof fn lemma_packed_key_injective(a: RuleKey, b: RuleKey)
    requires
        packed_key(a) == packed_key(b),
    ensures
        a == b,
{
}

/// A table of rules under construction.
pub struct FlowTable {
    src_map: PrefixIndex,
    dst_map: PrefixIndex,
    flow_map: HashMap<u128, Action>,
    flows: Ghost<Seq<Flow>>,
}

impl View for FlowTable {
    type V = Seq<Flow>;

    /// The rules inserted so far, oldest first.
    closed spec fn view(&self) -> Seq<Flow> {
        self.flows@
    }
}

impl FlowTable {
    /// The structural invariant: the two indices and the exact-match table
    /// hold what the inserted rules put there, and nothing else.
    pub closed spec fn wf(&self) -> bool {
        &&& self.src_map.wf()
        &&& self.dst_map.wf()
        &&& forall|i: int| 0 <= i < self.flows@.len() ==> (#[trigger] self.flows@[i]).valid()
        &&& self.src_map@ == src_entries(self.flows@)
        &&& self.dst_map@ == dst_entries(self.flows@)
        &&& forall|key: RuleKey|
            self.flow_map@.contains_key(#[trigger] packed_key(key)) <==> rule_map(
                self.flows@,
            ).contains_key(key)
        &&& forall|key: RuleKey|
            rule_map(self.flows@).contains_key(key) ==> self.flow_map@[#[trigger] packed_key(key)]
                == rule_map(self.flows@)[key]
        &&& forall|packed: u128| #[trigger]
            self.flow_map@.contains_key(packed) ==> exists|key: RuleKey|
                packed_key(key) == packed
    }

    /// Every rule that a table holds has prefix lengths of at most 32.
    pub proof fn lemma_rules_valid(&self)
        requires
            self.wf(),
        ensures
            forall|i: int| 0 <= i < self@.len() ==> (#[trigger] self@[i]).valid(),
    {
    }

    /// An empty table.
    pub fn new() -> (table: FlowTable)
        ensures
            table.wf(),
            table@ == Seq::<Flow>::empty(),
    {
        let table = FlowTable {
            src_map: PrefixIndex::new(),
            dst_map: PrefixIndex::new(),
            flow_map: HashMap::new(),
            flows: Ghost(Seq::empty()),
        };
        assert(src_entries(table.flows@) =~= Set::empty());
        assert(dst_entries(table.flows@) =~= Set::empty());
        table
    }

    /// Inserts a rule. The addresses are masked to their prefixes; a rule with
    /// the same masked addresses and port patterns as an earlier one replaces
    /// that rule's action. A rule with a prefix longer than 32 bits is
    /// refused, and the table stays as it was.
    pub fn add_flow(&mut self, flow: Flow) -> (done: Result<(), ValidationError>)
        requires
            old(self).wf(),
        ensures
            final(self).wf(),
            done == flow.validation(),
            done is Ok ==> final(self)@ == old(self)@.push(flow),
            done is Err ==> *final(self) == *old(self),
    {
        let checked = flow.validate();
        if checked.is_err() {
            return checked;
        }
        let src_net: u32 = flow.src.addr & prefix_mask(flow.src.prefix_len);
        let dst_net: u32 = flow.dst.addr & prefix_mask(flow.dst.prefix_len);
        let ghost before = self.flows@;
        let ghost after = before.push(flow);
        proof {
            lemma_src_entries_push(before, flow);
            lemma_dst_entries_push(before, flow);
            lemma_rule_map_push(before, flow);
        }
        self.src_map.insert(flow.src.prefix_len, src_net, flow.src_port);
        self.dst_map.insert(flow.dst.prefix_len, dst_net, flow.dst_port);
        self.flow_map.insert(pack_key(src_net, flow.src_port, dst_net, flow.dst_port), flow.action);
        self.flows = Ghost(after);
        proof {
            assert forall|key: RuleKey|
                self.flow_map@.contains_key(#[trigger] packed_key(key)) <==> rule_map(
                    after,
                ).contains_key(key) by {
                if packed_key(key) == packed_key(rule_key(flow)) {
                    lemma_packed_key_injective(key, rule_key(flow));
                }
            }
            assert forall|key: RuleKey| rule_map(after).contains_key(key) implies self.flow_map@[
                #[trigger] packed_key(key)
            ] == rule_map(after)[key] by {
                if packed_key(key) == packed_key(rule_key(flow)) {
                    lemma_packed_key_injective(key, rule_key(flow));
                }
            }
        }
        Ok(())
    }

    /// The number of distinct keys that carry an action.
    pub fn rule_count(&self) -> (count: usize)
        requires
            self.wf(),
        ensures
            count == rule_map(self@).dom().len(),
    {
        proof {
            let keys = rule_map(self.flows@).dom();
            let pack = |key: RuleKey| packed_key(key);
            lemma_rule_map_finite(self.flows@);
            assert forall|a: RuleKey, b: RuleKey| #[trigger] pack(a) == #[trigger] pack(b) implies a
                == b by {
                lemma_packed_key_injective(a, b);
            }
            assert forall|packed: u128| self.flow_map@.dom().contains(packed) <==> keys.map(
                pack,
            ).contains(packed) by {
                if self.flow_map@.contains_key(packed) {
                    let key = choose|key: RuleKey| packed_key(key) == packed;
                    assert(keys.contains(key) && pack(key) == packed);
                }
            }
            assert(keys.map(pack) =~= self.flow_map@.dom());
            lemma_map_size(keys, self.flow_map@.dom(), pack);
        }
        self.flow_map.len()
    }

    /// The action stored under an exact key, if there is one.
    pub fn lookup_exact(&self, src_net: u32, src_port: u16, dst_net: u32, dst_port: u16) -> (found:
        Option<&Action>)
        requires
            self.wf(),
        ensures
            match found {
                Some(action) => rule_map(self@).contains_key((src_net, src_port, dst_net, dst_port))
                    && *action == rule_map(self@)[(src_net, src_port, dst_net, dst_port)],
                None => !rule_map(self@).contains_key((src_net, src_port, dst_net, dst_port)),
            },
    {
        let packed = pack_key(src_net, src_port, dst_net, dst_port);
        self.flow_map.get(&packed)
    }

    /// One step of the cascade on two index results: the action stored for
    /// the resolved pair, if both sides resolved and the pair has a rule.
    fn resolve_pair(
        &self,
        src_hit: Option<(u32, u8, u16)>,
        dst_hit: Option<(u32, u8, u16)>,
    ) -> (found: Option<Action>)
        requires
            self.wf(),
        ensures
            found == match (src_hit, dst_hit) {
                (Some(s), Some(d)) => if rule_map(self@).contains_key((s.0, s.2, d.0, d.2)) {
                    Some(rule_map(self@)[(s.0, s.2, d.0, d.2)])
                } else {
                    None
                },
                _ => None,
            },
    {
        match (src_hit, dst_hit) {
            (Some((src_net, _, src_port)), Some((dst_net, _, dst_port))) => {
                match self.lookup_exact(src_net, src_port, dst_net, dst_port) {
                    Some(action) => Some(action.clone()),
                    None => None,
                }
            },
            _ => None,
        }
    }

    /// Decides which rule wins a packet and returns its action, or `None`
    /// where no step of the cascade finds a rule.
    pub fn match_flow(&self, packet: Packet) -> (verdict: Option<Action>)
        requires
            self.wf(),
        ensures
            verdict == classify(self@, packet),
    {
        let src_specific = get_net_port(packet.src_ip, packet.src_port, &self.src_map);
        let dst_specific = get_net_port(packet.dst_ip, packet.dst_port, &self.dst_map);
        let both_specific = self.resolve_pair(src_specific, dst_specific);
        if both_specific.is_some() {
            return both_specific;
        }
        let src_any = get_net_port(packet.src_ip, WILDCARD_PORT, &self.src_map);
        let src_wild = self.resolve_pair(src_any, dst_specific);
        if src_wild.is_some() {
            return src_wild;
        }
        let dst_any = get_net_port(packet.dst_ip, WILDCARD_PORT, &self.dst_map);
        let dst_wild = self.resolve_pair(src_specific, dst_any);
        if dst_wild.is_some() {
            return dst_wild;
        }
        self.resolve_pair(src_any, dst_any)
    }
}

} // verus!
