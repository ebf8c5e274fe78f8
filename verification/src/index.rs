//! The per-field prefix index: which (masked address, port pattern) pairs are
//! registered at which prefix length, searched from the most specific length down.

use vstd::prelude::*;
use std::collections::BTreeMap;
use std::collections::HashSet;
use vstd::std_specs::btree::increasing_seq;
use vstd::std_specs::iter::IteratorSpec;
use vstd::std_specs::cmp::OrdSpec;
use crate::mask::{host_mask, lemma_net_mask_increases, net_mask, prefix_mask, MAX_PREFIX_LEN};

verus! {

/// One registered entry of an index: prefix length, masked address, port pattern.
pub type Entry = (u8, u32, u16);

/// The integer under which a (masked address, port pattern) pair is stored.
pub open spec fn entry_key(net: u32, port: u16) -> u64 {
    (net as u64 * 0x1_0000 + port as u64) as u64
}

fn make_entry_key(net: u32, port: u16) -> (k: u64)
    ensures
        k == entry_key(net, port),
{
    net as u64 * 0x1_0000 + port as u64
}

/// The most specific registered prefix of `ip` under `port`, searching the
/// prefix lengths from `len` down to 0: the first length at which the masked
/// address is registered with that port pattern.
pub open spec fn lookup_from(idx: Set<Entry>, ip: u32, port: u16, len: u8) -> Option<
    (u32, u8, u16),
>
    decreases len,
{
    let net = ip & net_mask(len);
    if idx.contains((len, net, port)) {
        Some((net, len, port))
    } else if len == 0 {
        None
    } else {
        lookup_from(idx, ip, port, (len - 1) as u8)
    }
}

/// The longest-prefix lookup of an address under a port pattern.
pub open spec fn lookup(idx: Set<Entry>, ip: u32, port: u16) -> Option<(u32, u8, u16)> {
    lookup_from(idx, ip, port, MAX_PREFIX_LEN)
}

/// Whether the prefix of `ip` of length `len` is registered under `port`.
pub open spec fn registered_at(idx: Set<Entry>, ip: u32, port: u16, len: u8) -> bool {
    idx.contains((len, ip & net_mask(len), port))
}

/// The search from `from` down stops at the first registered length.
pub proof fn lemma_lookup_from_hit(idx: Set<Entry>, ip: u32, port: u16, from: u8, len: u8)
    requires
        len <= from,
        registered_at(idx, ip, port, len),
        forall|l: u8| len < l <= from ==> !#[trigger] registered_at(idx, ip, port, l),
    ensures
        lookup_from(idx, ip, port, from) == Some((ip & net_mask(len), len, port)),
    decreases from,
{
    if from > len {
        assert(!registered_at(idx, ip, port, from));
        lemma_lookup_from_hit(idx, ip, port, (from - 1) as u8, len);
    }
}

/// The search from `from` down finds nothing where no length is registered.
pub proof fn lemma_lookup_from_miss(idx: Set<Entry>, ip: u32, port: u16, from: u8)
    requires
        forall|l: u8| l <= from ==> !#[trigger] registered_at(idx, ip, port, l),
    ensures
        lookup_from(idx, ip, port, from) is None,
    decreases from,
{
    assert(!registered_at(idx, ip, port, from));
    if from > 0 {
        lemma_lookup_from_miss(idx, ip, port, (from - 1) as u8);
    }
}

/// What the search from `from` down returns is registered, lies at or below
/// `from`, and no longer prefix at or below `from` is registered; it returns
/// nothing only where no length at or below `from` is registered.
pub proof fn lemma_lookup_from_longest(idx: Set<Entry>, ip: u32, port: u16, from: u8)
    ensures
        match lookup_from(idx, ip, port, from) {
            Some((net, len, found_port)) => {
                &&& len <= from
                &&& found_port == port
                &&& net == ip & net_mask(len)
                &&& registered_at(idx, ip, port, len)
                &&& forall|l: u8| len < l <= from ==> !#[trigger] registered_at(idx, ip, port, l)
            },
            None => forall|l: u8| l <= from ==> !#[trigger] registered_at(idx, ip, port, l),
        },
    decreases from,
{
    if !registered_at(idx, ip, port, from) && from > 0 {
        lemma_lookup_from_longest(idx, ip, port, (from - 1) as u8);
    }
}

/// Longest-prefix match: the lookup returns the longest registered prefix
/// that contains `ip` under `port`, and nothing only where none is registered.
pub proof fn lemma_lookup_longest(idx: Set<Entry>, ip: u32, port: u16)
    ensures
        match lookup(idx, ip, port) {
            Some((net, len, found_port)) => {
                &&& len <= MAX_PREFIX_LEN
                &&& found_port == port
                &&& net == ip & net_mask(len)
                &&& registered_at(idx, ip, port, len)
                &&& forall|l: u8|
                    len < l <= MAX_PREFIX_LEN ==> !#[trigger] registered_at(idx, ip, port, l)
            },
            None => forall|l: u8|
                l <= MAX_PREFIX_LEN ==> !#[trigger] registered_at(idx, ip, port, l),
        },
{
    lemma_lookup_from_longest(idx, ip, port, MAX_PREFIX_LEN);
}

/// The pairs registered at one prefix length.
struct Level {
    prefix_len: u8,
    entries: HashSet<u64>,
}

/// The index of one address field.
pub struct PrefixIndex {
    levels: BTreeMap<u32, Level>,
}

/// Every level is stored under the host mask of its own prefix length.
spec fn levels_ok(levels: Map<u32, Level>) -> bool {
    forall|k: u32| #[trigger]
        levels.contains_key(k) ==> levels[k].prefix_len <= MAX_PREFIX_LEN && k == host_mask(
            levels[k].prefix_len,
        )
}

/// The entries that a map of levels registers.
spec fn holds(levels: Map<u32, Level>) -> Set<Entry> {
    Set::new(
        |e: Entry|
            e.0 <= MAX_PREFIX_LEN && levels.contains_key(host_mask(e.0)) && levels[host_mask(
                e.0,
            )].entries@.contains(entry_key(e.1, e.2)),
    )
}

/// A walk over the levels: ascending keys, each level of the map once.
spec fn is_walk(levels: Map<u32, Level>, all: Seq<(&u32, &Level)>) -> bool {
    &&& forall|i: int, j: int| 0 <= i < j < all.len() ==> *all[i].0 < *all[j].0
    &&& forall|k: u32| #[trigger] levels.contains_key(k) ==> all.contains((&k, &levels[k]))
    &&& forall|j: int|
        0 <= j < all.len() ==> levels.contains_key(*(#[trigger] all[j]).0) && levels[*all[j].0]
            == *all[j].1
}

/// Whether the level at position `j` of a walk registers the prefix of `ip` under `port`.
spec fn hit_at(all: Seq<(&u32, &Level)>, j: int, ip: u32, port: u16) -> bool {
    all[j].1.entries@.contains(entry_key(ip & ((u32::MAX - *all[j].0) as u32), port))
}

/// In a walk with no hit before position `upto`, no prefix length whose level
/// comes before `upto` is registered for `ip` under `port`.
proof fn lemma_walk_prefix_clear(
    levels: Map<u32, Level>,
    all: Seq<(&u32, &Level)>,
    upto: int,
    ip: u32,
    port: u16,
    len: u8,
)
    requires
        levels_ok(levels),
        is_walk(levels, all),
        0 <= upto <= all.len(),
        forall|j: int| 0 <= j < upto ==> !#[trigger] hit_at(all, j, ip, port),
        len <= MAX_PREFIX_LEN,
        upto < all.len() ==> host_mask(len) < *all[upto].0,
    ensures
        !registered_at(holds(levels), ip, port, len),
{
    let k = host_mask(len);
    if levels.contains_key(k) {
        let item = (&k, &levels[k]);
        let j = choose|j: int| 0 <= j < all.len() && all[j] == item;
        assert(j < upto);
        assert(!hit_at(all, j, ip, port));
    }
}

/// Distinct pairs are stored under distinct integers.
proof fn lemma_entry_key_injective(net1: u32, port1: u16, net2: u32, port2: u16)
    requires
        entry_key(net1, port1) == entry_key(net2, port2),
    ensures
        net1 == net2,
        port1 == port2,
{
}

/// Distinct prefix lengths have distinct host masks.
proof fn lemma_host_mask_injective(len1: u8, len2: u8)
    requires
        len1 <= MAX_PREFIX_LEN,
        len2 <= MAX_PREFIX_LEN,
        host_mask(len1) == host_mask(len2),
    ensures
        len1 == len2,
{
    if len1 < len2 {
        lemma_net_mask_increases(len1, len2);
    } else if len2 < len1 {
        lemma_net_mask_increases(len2, len1);
    }
}

impl View for PrefixIndex {
    type V = Set<Entry>;

    closed spec fn view(&self) -> Set<Entry> {
        holds(self.levels@)
    }
}

impl PrefixIndex {
    /// The structural invariant: every level sits under the specificity key
    /// of its own prefix length, so that ascending keys are descending lengths.
    pub closed spec fn wf(&self) -> bool {
        levels_ok(self.levels@)
    }

    /// An index with nothing registered.
    pub fn new() -> (idx: PrefixIndex)
        ensures
            idx.wf(),
            idx@ == Set::<Entry>::empty(),
    {
        let idx = PrefixIndex { levels: BTreeMap::new() };
        assert(idx@ =~= Set::<Entry>::empty());
        idx
    }

    /// Registers the pair `(net, port)` at the prefix length `prefix_len`.
    /// Registering a pair that is already there changes nothing.
    pub fn insert(&mut self, prefix_len: u8, net: u32, port: u16)
        requires
            old(self).wf(),
            prefix_len <= MAX_PREFIX_LEN,
        ensures
            final(self).wf(),
            final(self)@ == old(self)@.insert((prefix_len, net, port)),
    {
        let key: u32 = u32::MAX - prefix_mask(prefix_len);
        let mut level = match self.levels.remove(&key) {
            Some(level) => level,
            None => Level { prefix_len, entries: HashSet::new() },
        };
        level.entries.insert(make_entry_key(net, port));
        self.levels.insert(key, level);
        proof {
            let added = (prefix_len, net, port);
            assert forall|e: Entry| self@.contains(e) <==> old(self)@.insert(added).contains(
                e,
            ) by {
                if e.0 <= MAX_PREFIX_LEN {
                    if host_mask(e.0) == key {
                        lemma_host_mask_injective(e.0, prefix_len);
                    }
                    if entry_key(e.1, e.2) == entry_key(net, port) {
                        lemma_entry_key_injective(e.1, e.2, net, port);
                    }
                }
            }
            assert(self@ =~= old(self)@.insert(added));
        }
    }
}

/// The keys of a walk in increasing order are strictly ascending integers.
proof fn lemma_ascending_keys(keys: Seq<u32>)
    requires
        increasing_seq(keys),
    ensures
        forall|i: int, j: int| 0 <= i < j < keys.len() ==> keys[i] < keys[j],
{
    broadcast use vstd::laws_cmp::group_laws_cmp;

    vstd::std_specs::btree::axiom_increasing_seq_meaning(keys);
    assert forall|i: int, j: int| 0 <= i < j < keys.len() implies keys[i] < keys[j] by {
        assert(keys[i].cmp_spec(&keys[j]) is Less);
    }
}

/// Finds the most specific registered prefix that contains `ip` under the
/// port pattern `port`, and returns its masked address, its length and the port.
pub fn get_net_port(ip: u32, port: u16, map: &PrefixIndex) -> (found: Option<(u32, u8, u16)>)
    requires
        map.wf(),
    ensures
        found == lookup(map@, ip, port),
{
    let walk = map.levels.iter();
    let ghost all = walk.remaining();
    proof {
        let keys = all.map_values(|kv: (&u32, &Level)| *kv.0);
        lemma_ascending_keys(keys);
        assert forall|i: int, j: int| 0 <= i < j < all.len() implies *all[i].0 < *all[j].0 by {
            assert(keys[i] < keys[j]);
        }
    }
    for (key, level) in it: walk
        invariant
            levels_ok(map.levels@),
            it.seq() == all,
            is_walk(map.levels@, all),
            forall|j: int| 0 <= j < it.index() ==> !#[trigger] hit_at(all, j, ip, port),
    {
        let mask_bin: u32 = u32::MAX - *key;
        let masked: u32 = ip & mask_bin;
        if level.entries.contains(&make_entry_key(masked, port)) {
            proof {
                let len = level.prefix_len;
                assert forall|l: u8| len < l <= MAX_PREFIX_LEN implies !#[trigger] registered_at(
                    map@,
                    ip,
                    port,
                    l,
                ) by {
                    lemma_net_mask_increases(len, l);
                    lemma_walk_prefix_clear(map.levels@, all, it.index(), ip, port, l);
                }
                lemma_lookup_from_hit(map@, ip, port, MAX_PREFIX_LEN, len);
            }
            return Some((masked, level.prefix_len, port));
        }
    }
    proof {
        assert forall|l: u8| l <= MAX_PREFIX_LEN implies !#[trigger] registered_at(
            map@,
            ip,
            port,
            l,
        ) by {
            lemma_walk_prefix_clear(map.levels@, all, all.len() as int, ip, port, l);
        }
        lemma_lookup_from_miss(map@, ip, port, MAX_PREFIX_LEN);
    }
    None
}

} // verus!
