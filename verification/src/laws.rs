//! What holds of every table: the precedence rules of the classifier, stated
//! over the sequence of inserted rules and proved.

use vstd::prelude::*;
use crate::flow::{port_matches, Action, Flow, Packet, WILDCARD_PORT};
use crate::index::{lemma_lookup_from_hit, lemma_lookup_longest, lookup, registered_at, Entry};
use crate::mask::{net_mask, MAX_PREFIX_LEN};
use crate::model::{
    classify, dst_entries, dst_entry, lemma_dst_entries_push, lemma_rule_map_keys,
    lemma_rule_map_last, lemma_rule_map_push, lemma_src_entries_push, resolve, rule_key, rule_map,
    src_entries, src_entry, RuleKey,
};

verus! {

/// The full mask keeps every address as it is.
proof fn lemma_full_mask(addr: u32)
    ensures
        addr & net_mask(MAX_PREFIX_LEN) == addr,
{
    assert(addr & 0xffff_ffffu32 == addr) by (bit_vector);
}

/// Whether `rule` is as specific as any rule of the table that could be
/// resolved in its place: no rule with the same source port pattern has a
/// longer source prefix that contains the packet's source address, and
/// likewise for the destination.
pub open spec fn most_specific_for(flows: Seq<Flow>, rule: Flow, packet: Packet) -> bool {
    forall|j: int|
        0 <= j < flows.len() ==> {
            &&& (#[trigger] flows[j]).src_port == rule.src_port && flows[j].src.valid()
                && flows[j].src.contains(packet.src_ip) ==> flows[j].src.prefix_len
                <= rule.src.prefix_len
            &&& flows[j].dst_port == rule.dst_port && flows[j].dst.valid() && flows[j].dst.contains(
                packet.dst_ip,
            ) ==> flows[j].dst.prefix_len <= rule.dst.prefix_len
        }
}

/// In any table, the step of the cascade that asks for a rule's own port
/// patterns finds that rule's action, if its prefixes contain the packet's
/// addresses, no rule is more specific on either side, and no later rule was
/// inserted under the same key.
pub proof fn law_most_specific_rule_wins_its_step(flows: Seq<Flow>, at: int, packet: Packet)
    requires
        0 <= at < flows.len(),
        flows[at].valid(),
        flows[at].src.contains(packet.src_ip),
        flows[at].dst.contains(packet.dst_ip),
        most_specific_for(flows, flows[at], packet),
        forall|j: int|
            at < j < flows.len() ==> rule_key(#[trigger] flows[j]) != rule_key(flows[at]),
    ensures
        resolve(flows, packet, flows[at].src_port, flows[at].dst_port) == Some(flows[at].action),
{
    let rule = flows[at];
    let src = src_entries(flows);
    let dst = dst_entries(flows);
    assert(src.contains(src_entry(flows[at])));
    assert(dst.contains(dst_entry(flows[at])));
    assert forall|l: u8| rule.src.prefix_len < l <= MAX_PREFIX_LEN implies !#[trigger] registered_at(
        src,
        packet.src_ip,
        rule.src_port,
        l,
    ) by {
        if registered_at(src, packet.src_ip, rule.src_port, l) {
            let j = choose|j: int|
                0 <= j < flows.len() && src_entry(#[trigger] flows[j]) == (
                    l,
                    packet.src_ip & net_mask(l),
                    rule.src_port,
                );
            assert(flows[j].src.contains(packet.src_ip));
        }
    }
    assert forall|l: u8| rule.dst.prefix_len < l <= MAX_PREFIX_LEN implies !#[trigger] registered_at(
        dst,
        packet.dst_ip,
        rule.dst_port,
        l,
    ) by {
        if registered_at(dst, packet.dst_ip, rule.dst_port, l) {
            let j = choose|j: int|
                0 <= j < flows.len() && dst_entry(#[trigger] flows[j]) == (
                    l,
                    packet.dst_ip & net_mask(l),
                    rule.dst_port,
                );
            assert(flows[j].dst.contains(packet.dst_ip));
        }
    }
    lemma_lookup_from_hit(src, packet.src_ip, rule.src_port, MAX_PREFIX_LEN, rule.src.prefix_len);
    lemma_lookup_from_hit(dst, packet.dst_ip, rule.dst_port, MAX_PREFIX_LEN, rule.dst.prefix_len);
    lemma_rule_map_last(flows, at);
}

/// A rule with a 32-bit prefix on both sides wins the packet that carries
/// exactly its addresses and ports, whatever else the table holds, as long
/// as no later rule was inserted under the same key.
pub proof fn law_exact_host_wins(flows: Seq<Flow>, at: int, packet: Packet)
    requires
        0 <= at < flows.len(),
        flows[at].src.prefix_len == MAX_PREFIX_LEN,
        flows[at].dst.prefix_len == MAX_PREFIX_LEN,
        packet == (Packet {
            src_ip: flows[at].src.addr,
            dst_ip: flows[at].dst.addr,
            src_port: flows[at].src_port,
            dst_port: flows[at].dst_port,
        }),
        forall|j: int|
            at < j < flows.len() ==> rule_key(#[trigger] flows[j]) != rule_key(flows[at]),
    ensures
        classify(flows, packet) == Some(flows[at].action),
{
    lemma_full_mask(flows[at].src.addr);
    lemma_full_mask(flows[at].dst.addr);
    law_most_specific_rule_wins_its_step(flows, at, packet);
}

/// Inserting two rules with the same prefixes and port patterns one after
/// the other leaves the table as inserting the second alone would: the
/// indices and the keys are the same, only the second action is stored, and
/// every packet is classified alike.
pub proof fn law_upsert_keeps_last(flows: Seq<Flow>, first: Flow, second: Flow)
    requires
        first.src == second.src,
        first.dst == second.dst,
        first.src_port == second.src_port,
        first.dst_port == second.dst_port,
    ensures
        src_entries(flows.push(first).push(second)) == src_entries(flows.push(second)),
        dst_entries(flows.push(first).push(second)) == dst_entries(flows.push(second)),
        rule_map(flows.push(first).push(second)) == rule_map(flows.push(second)),
        rule_map(flows.push(first).push(second)).dom() == rule_map(flows.push(first)).dom(),
        rule_map(flows.push(first).push(second))[rule_key(second)] == second.action,
        forall|packet: Packet|
            #[trigger] classify(flows.push(first).push(second), packet) == classify(
                flows.push(second),
                packet,
            ),
{
    let both = flows.push(first).push(second);
    let once = flows.push(second);
    lemma_src_entries_push(flows, first);
    lemma_src_entries_push(flows.push(first), second);
    lemma_src_entries_push(flows, second);
    lemma_dst_entries_push(flows, first);
    lemma_dst_entries_push(flows.push(first), second);
    lemma_dst_entries_push(flows, second);
    lemma_rule_map_push(flows, first);
    lemma_rule_map_push(flows.push(first), second);
    lemma_rule_map_push(flows, second);
    assert(src_entries(both) =~= src_entries(once));
    assert(dst_entries(both) =~= dst_entries(once));
}

/// The indices and the exact-match table of a table of two rules.
proof fn lemma_two_rules(first: Flow, second: Flow)
    ensures
        src_entries(seq![first, second]) == set![src_entry(first), src_entry(second)],
        dst_entries(seq![first, second]) == set![dst_entry(first), dst_entry(second)],
        rule_map(seq![first, second]) == Map::<RuleKey, Action>::empty().insert(
            rule_key(first),
            first.action,
        ).insert(rule_key(second), second.action),
{
    let none = Seq::<Flow>::empty();
    let one = none.push(first);
    assert(seq![first, second] =~= one.push(second));
    lemma_src_entries_push(none, first);
    lemma_src_entries_push(one, second);
    lemma_dst_entries_push(none, first);
    lemma_dst_entries_push(one, second);
    lemma_rule_map_push(none, first);
    lemma_rule_map_push(one, second);
}

/// The lookup in an index whose entries all lie at the lengths `low <= high`:
/// a query that is registered at `high` resolves there.
proof fn lemma_lookup_prefers_longer(idx: Set<Entry>, ip: u32, port: u16, low: u8, high: u8)
    requires
        low <= high <= MAX_PREFIX_LEN,
        forall|e: Entry| #[trigger] idx.contains(e) ==> e.0 == low || e.0 == high,
        registered_at(idx, ip, port, high),
    ensures
        lookup(idx, ip, port) == Some((ip & net_mask(high), high, port)),
{
    lemma_lookup_longest(idx, ip, port);
}

/// The lookup finds nothing under a port pattern that no entry carries.
proof fn lemma_lookup_unknown_port(idx: Set<Entry>, ip: u32, port: u16)
    requires
        forall|e: Entry| #[trigger] idx.contains(e) ==> e.2 != port,
    ensures
        lookup(idx, ip, port) is None,
{
    lemma_lookup_longest(idx, ip, port);
}

/// The empty mask clears every address.
proof fn lemma_empty_mask(addr: u32)
    ensures
        addr & net_mask(0) == 0,
{
    assert(addr & 0u32 == 0) by (bit_vector);
}

/// Of two rules with the same prefixes, one of which has a wildcard wherever
/// the two port patterns differ, the other one wins every packet that it
/// covers, whichever was inserted first.
pub proof fn law_explicit_port_wins(
    explicit: Flow,
    wildcard: Flow,
    packet: Packet,
    wildcard_first: bool,
)
    requires
        explicit.valid(),
        wildcard.src == explicit.src,
        wildcard.dst == explicit.dst,
        wildcard.src_port == explicit.src_port || wildcard.src_port == WILDCARD_PORT,
        wildcard.dst_port == explicit.dst_port || wildcard.dst_port == WILDCARD_PORT,
        wildcard.src_port != explicit.src_port || wildcard.dst_port != explicit.dst_port,
        explicit.covers(packet),
    ensures
        classify(
            if wildcard_first {
                seq![wildcard, explicit]
            } else {
                seq![explicit, wildcard]
            },
            packet,
        ) == Some(explicit.action),
{
    let flows = if wildcard_first {
        seq![wildcard, explicit]
    } else {
        seq![explicit, wildcard]
    };
    if wildcard_first {
        lemma_two_rules(wildcard, explicit);
    } else {
        lemma_two_rules(explicit, wildcard);
    }
    let src = src_entries(flows);
    let dst = dst_entries(flows);
    let src_len = explicit.src.prefix_len;
    let dst_len = explicit.dst.prefix_len;
    assert forall|port: u16|
        lookup(src, packet.src_ip, port) == if port == explicit.src_port || port
            == wildcard.src_port {
            Some((explicit.src.network(), src_len, port))
        } else {
            None
        } by {
        if port == explicit.src_port || port == wildcard.src_port {
            lemma_lookup_prefers_longer(src, packet.src_ip, port, src_len, src_len);
        } else {
            lemma_lookup_unknown_port(src, packet.src_ip, port);
        }
    }
    assert forall|port: u16|
        lookup(dst, packet.dst_ip, port) == if port == explicit.dst_port || port
            == wildcard.dst_port {
            Some((explicit.dst.network(), dst_len, port))
        } else {
            None
        } by {
        if port == explicit.dst_port || port == wildcard.dst_port {
            lemma_lookup_prefers_longer(dst, packet.dst_ip, port, dst_len, dst_len);
        } else {
            lemma_lookup_unknown_port(dst, packet.dst_ip, port);
        }
    }
}

/// Of a catch-all rule, with prefix length 0 on both sides, and a rule with
/// the same port patterns and any prefixes, the second wins every packet that
/// it covers. Where both rules mask to address 0 on both sides they share one
/// key, and this holds only if the catch-all was inserted first.
pub proof fn law_longest_prefix_wins(
    catch_all: Flow,
    specific: Flow,
    packet: Packet,
    catch_all_first: bool,
)
    requires
        catch_all.src.prefix_len == 0,
        catch_all.dst.prefix_len == 0,
        specific.valid(),
        catch_all.src_port == specific.src_port,
        catch_all.dst_port == specific.dst_port,
        specific.covers(packet),
        catch_all_first || rule_key(specific) != rule_key(catch_all),
    ensures
        classify(
            if catch_all_first {
                seq![catch_all, specific]
            } else {
                seq![specific, catch_all]
            },
            packet,
        ) == Some(specific.action),
{
    let flows = if catch_all_first {
        seq![catch_all, specific]
    } else {
        seq![specific, catch_all]
    };
    if catch_all_first {
        lemma_two_rules(catch_all, specific);
    } else {
        lemma_two_rules(specific, catch_all);
    }
    lemma_empty_mask(catch_all.src.addr);
    lemma_empty_mask(catch_all.dst.addr);
    let src = src_entries(flows);
    let dst = dst_entries(flows);
    let src_len = specific.src.prefix_len;
    let dst_len = specific.dst.prefix_len;
    assert forall|port: u16|
        lookup(src, packet.src_ip, port) == if port == specific.src_port {
            Some((specific.src.network(), src_len, port))
        } else {
            None
        } by {
        if port == specific.src_port {
            lemma_lookup_prefers_longer(src, packet.src_ip, port, 0, src_len);
        } else {
            lemma_lookup_unknown_port(src, packet.src_ip, port);
        }
    }
    assert forall|port: u16|
        lookup(dst, packet.dst_ip, port) == if port == specific.dst_port {
            Some((specific.dst.network(), dst_len, port))
        } else {
            None
        } by {
        if port == specific.dst_port {
            lemma_lookup_prefers_longer(dst, packet.dst_ip, port, 0, dst_len);
        } else {
            lemma_lookup_unknown_port(dst, packet.dst_ip, port);
        }
    }
}

/// No two rules register the same masked address and port pattern at two
/// different prefix lengths, on either side.
pub open spec fn prefix_unambiguous(flows: Seq<Flow>) -> bool {
    forall|i: int, j: int|
        0 <= i < flows.len() && 0 <= j < flows.len() ==> {
            &&& (#[trigger] flows[i]).src.network() == (#[trigger] flows[j]).src.network()
                && flows[i].src_port == flows[j].src_port ==> flows[i].src.prefix_len
                == flows[j].src.prefix_len
            &&& flows[i].dst.network() == flows[j].dst.network() && flows[i].dst_port
                == flows[j].dst_port ==> flows[i].dst.prefix_len == flows[j].dst.prefix_len
        }
}

/// What one step of the cascade finds is the action of a rule that covers the packet.
proof fn lemma_step_finds_covering_rule(
    flows: Seq<Flow>,
    packet: Packet,
    src_port: u16,
    dst_port: u16,
)
    requires
        prefix_unambiguous(flows),
        port_matches(src_port, packet.src_port),
        port_matches(dst_port, packet.dst_port),
        resolve(flows, packet, src_port, dst_port) is Some,
    ensures
        exists|i: int|
            0 <= i < flows.len() && (#[trigger] flows[i]).covers(packet) && Some(flows[i].action)
                == resolve(flows, packet, src_port, dst_port),
{
    lemma_lookup_longest(src_entries(flows), packet.src_ip, src_port);
    lemma_lookup_longest(dst_entries(flows), packet.dst_ip, dst_port);
    let s = lookup(src_entries(flows), packet.src_ip, src_port)->0;
    let d = lookup(dst_entries(flows), packet.dst_ip, dst_port)->0;
    let key = (s.0, s.2, d.0, d.2);
    lemma_rule_map_keys(flows, key);
    let i = choose|i: int|
        0 <= i < flows.len() && rule_key(#[trigger] flows[i]) == key && flows[i].action
            == rule_map(flows)[key];
    let js = choose|j: int|
        0 <= j < flows.len() && src_entry(#[trigger] flows[j]) == (s.1, s.0, s.2);
    let jd = choose|j: int|
        0 <= j < flows.len() && dst_entry(#[trigger] flows[j]) == (d.1, d.0, d.2);
    assert(flows[i].src.prefix_len == flows[js].src.prefix_len);
    assert(flows[i].dst.prefix_len == flows[jd].dst.prefix_len);
    assert(flows[i].covers(packet));
}

/// Under unambiguous prefixes, the verdict on a packet is the action of a
/// rule whose prefixes and port patterns admit the packet.
pub proof fn law_verdict_from_covering_rule(flows: Seq<Flow>, packet: Packet)
    requires
        prefix_unambiguous(flows),
        classify(flows, packet) is Some,
    ensures
        exists|i: int|
            0 <= i < flows.len() && (#[trigger] flows[i]).covers(packet) && Some(flows[i].action)
                == classify(flows, packet),
{
    if resolve(flows, packet, packet.src_port, packet.dst_port) is Some {
        lemma_step_finds_covering_rule(flows, packet, packet.src_port, packet.dst_port);
    } else if resolve(flows, packet, WILDCARD_PORT, packet.dst_port) is Some {
        lemma_step_finds_covering_rule(flows, packet, WILDCARD_PORT, packet.dst_port);
    } else if resolve(flows, packet, packet.src_port, WILDCARD_PORT) is Some {
        lemma_step_finds_covering_rule(flows, packet, packet.src_port, WILDCARD_PORT);
    } else {
        lemma_step_finds_covering_rule(flows, packet, WILDCARD_PORT, WILDCARD_PORT);
    }
}

/// Under unambiguous prefixes, a packet that no inserted rule
/// covers gets no verdict.
pub proof fn law_uncovered_packet_unmatched(flows: Seq<Flow>, packet: Packet)
    requires
        prefix_unambiguous(flows),
        forall|i: int| 0 <= i < flows.len() ==> !(#[trigger] flows[i]).covers(packet),
    ensures
        classify(flows, packet) is None,
{
    if classify(flows, packet) is Some {
        law_verdict_from_covering_rule(flows, packet);
    }
}

/// An empty table gives no verdict on any packet.
pub proof fn law_empty_table_unmatched(packet: Packet)
    ensures
        classify(Seq::<Flow>::empty(), packet) is None,
{
    law_uncovered_packet_unmatched(Seq::<Flow>::empty(), packet);
}

} // verus!
