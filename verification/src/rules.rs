//! The egress rule table: a longest-prefix-match trie from IPv4 networks to
//! actions, in which a blocked network always overrides the same network
//! allowed.

use crate::net::{lemma_network_bits, network_bits, Ipv4Address, Ipv4Cidr};
use prefix_trie::PrefixMap;
use vstd::prelude::*;

verus! {

/// What the filter does with a packet whose destination matches a rule.
#[derive(Debug, Clone, Copy, PartialEq, Eq, Structural)]
pub enum Action {
    Block,
    Allow,
}

/// `prefix_trie::PrefixMap`, the trie that holds the rules. Nothing is
/// known of its inside; what it holds is named by `trie_entries`.
#[verifier::external_type_specification]
#[verifier::external_body]
#[verifier::reject_recursive_types(P)]
#[verifier::reject_recursive_types(T)]
pub struct ExPrefixMap<P, T>(PrefixMap<P, T>);

/// The entries of a trie: each stored network, as its bits with the host
/// part cleared and its prefix length, with the action stored under it.
pub uninterp spec fn trie_entries(trie: PrefixMap<(u32, u8), Action>) -> Map<(u32, u8), Action>;

/// The table without entries.
pub open spec fn no_rules() -> Map<(u32, u8), Action> {
    Map::empty()
}

/// Whether the network `key` holds the address `addr`.
pub open spec fn covers(key: (u32, u8), addr: u32) -> bool {
    key.1 <= 32 && key.0 == network_bits(addr, key.1)
}

/// Whether `key` is a network whose host bits are cleared.
pub open spec fn canonical(key: (u32, u8)) -> bool {
    key.1 <= 32 && key.0 == network_bits(key.0, key.1)
}

/// What it means for `found` to be the longest-prefix match of `addr`:
/// an entry whose network holds `addr` and is at least as long as every
/// other such entry, or nothing when no entry holds `addr`.
pub open spec fn is_longest_match(
    table: Map<(u32, u8), Action>,
    addr: u32,
    found: Option<((u32, u8), Action)>,
) -> bool {
    match found {
        Some((key, action)) => {
            &&& table.dom().contains(key)
            &&& table[key] == action
            &&& covers(key, addr)
            &&& forall|other: (u32, u8)| #[trigger]
                table.dom().contains(other) && covers(other, addr) ==> other.1 <= key.1
        },
        None => forall|other: (u32, u8)| #[trigger]
            table.dom().contains(other) ==> !covers(other, addr),
    }
}

/// The most specific entry among the networks of at most `len` bits that
/// hold `addr`.
pub open spec fn longest_match_upto(table: Map<(u32, u8), Action>, addr: u32, len: u8) -> Option<
    ((u32, u8), Action),
>
    decreases len,
{
    let key = (network_bits(addr, len), len);
    if table.dom().contains(key) {
        Some((key, table[key]))
    } else if len == 0 {
        None
    } else {
        longest_match_upto(table, addr, (len - 1) as u8)
    }
}

/// The most specific entry whose network holds `addr`, if any does.
pub open spec fn longest_match(table: Map<(u32, u8), Action>, addr: u32) -> Option<
    ((u32, u8), Action),
> {
    longest_match_upto(table, addr, 32)
}

/// Whether some network of `cidrs` has the key `key`.
pub open spec fn listed(cidrs: Seq<Ipv4Cidr>, key: (u32, u8)) -> bool {
    exists|i: int| 0 <= i < cidrs.len() && #[trigger] cidrs[i].key() == key
}

/// The table that a set of allowed and a set of blocked networks produce:
/// every listed network has an entry, and the entry is `Block` whenever the
/// network is blocked, whether or not it is also allowed.
pub open spec fn rule_map(allow: Seq<Ipv4Cidr>, block: Seq<Ipv4Cidr>) -> Map<(u32, u8), Action> {
    Map::new(
        |key: (u32, u8)| listed(allow, key) || listed(block, key),
        |key: (u32, u8)|
            if listed(block, key) {
                Action::Block
            } else {
                Action::Allow
            },
    )
}

/// `PrefixMap::new`: a trie without entries.
#[verifier::external_body]
fn trie_new() -> (trie: PrefixMap<(u32, u8), Action>)
    ensures
        trie_entries(trie) == no_rules(),
{
    PrefixMap::new()
}

/// `PrefixMap::insert`: stores `action` under the network of `len` bits
/// that holds `bits`, replacing what was stored there; the host bits of
/// `bits` play no part.
#[verifier::external_body]
fn trie_insert(trie: &mut PrefixMap<(u32, u8), Action>, bits: u32, len: u8, action: Action)
    requires
        len <= 32,
    ensures
        trie_entries(*final(trie)) == trie_entries(*old(trie)).insert(
            (network_bits(bits, len), len),
            action,
        ),
{
    trie.insert((bits, len), action);
}

/// `PrefixMap::is_empty`: whether the trie has no entry.
#[verifier::external_body]
fn trie_is_empty(trie: &PrefixMap<(u32, u8), Action>) -> (empty: bool)
    ensures
        empty == trie_entries(*trie).dom().is_empty(),
{
    trie.is_empty()
}

/// `PrefixMap::get_lpm`, asked for a single address: the entry with the
/// longest prefix among those whose network holds the address.
#[verifier::external_body]
fn trie_get_lpm(trie: &PrefixMap<(u32, u8), Action>, addr: u32) -> (found: Option<
    ((u32, u8), Action),
>)
    ensures
        is_longest_match(trie_entries(*trie), addr, found),
{
    trie.get_lpm(&(addr, 32)).map(|(key, action)| (key, *action))
}

/// `PrefixMap::iter`: every entry once.
#[verifier::external_body]
fn trie_iter(trie: &PrefixMap<(u32, u8), Action>) -> (entries: Vec<((u32, u8), Action)>)
    ensures
        forall|key: (u32, u8)| #[trigger]
            trie_entries(*trie).dom().contains(key) <==> exists|i: int|
                0 <= i < entries@.len() && (#[trigger] entries@[i]).0 == key,
        forall|i: int|
            0 <= i < entries@.len() ==> trie_entries(*trie)[(#[trigger] entries@[i]).0]
                == entries@[i].1,
        forall|i: int, j: int|
            0 <= i < j < entries@.len() ==> (#[trigger] entries@[i]).0 != (
            #[trigger] entries@[j]).0,
{
    trie.iter().map(|(key, action)| (key, *action)).collect()
}

/// Below a length at which the walk down from `len` stops, nothing longer
/// matches; and where the walk finds nothing, nothing matches at all.
proof fn lemma_longest_match_upto(table: Map<(u32, u8), Action>, addr: u32, len: u8)
    requires
        len <= 32,
    ensures
        match longest_match_upto(table, addr, len) {
            Some((key, action)) => {
                &&& table.dom().contains(key)
                &&& table[key] == action
                &&& covers(key, addr)
                &&& key.1 <= len
                &&& forall|l: u8|
                    key.1 < l <= len ==> !table.dom().contains((#[trigger] network_bits(addr, l), l))
            },
            None => forall|l: u8|
                l <= len ==> !table.dom().contains((#[trigger] network_bits(addr, l), l)),
        },
    decreases len,
{
    let key = (network_bits(addr, len), len);
    if !table.dom().contains(key) && len != 0 {
        lemma_longest_match_upto(table, addr, (len - 1) as u8);
    }
}

/// The longest-prefix match is unique: whatever satisfies its description
/// is the entry that walking down from 32 bits finds.
pub proof fn lemma_longest_match_unique(
    table: Map<(u32, u8), Action>,
    addr: u32,
    found: Option<((u32, u8), Action)>,
)
    requires
        is_longest_match(table, addr, found),
    ensures
        found == longest_match(table, addr),
{
    lemma_longest_match_upto(table, addr, 32);
    let walked = longest_match(table, addr);
    match found {
        Some((key, action)) => {
            assert(table.dom().contains((network_bits(addr, key.1), key.1)));
            let (other, _) = walked->0;
            assert(table.dom().contains(other) && covers(other, addr));
        },
        None => {
            if walked is Some {
                let (other, _) = walked->0;
                assert(table.dom().contains(other));
            }
        },
    }
}

/// The longest-prefix match of a table satisfies its description.
pub proof fn lemma_longest_match_is_longest(table: Map<(u32, u8), Action>, addr: u32)
    ensures
        is_longest_match(table, addr, longest_match(table, addr)),
{
    lemma_longest_match_upto(table, addr, 32);
    match longest_match(table, addr) {
        Some((key, action)) => {
            assert forall|other: (u32, u8)| #[trigger]
                table.dom().contains(other) && covers(other, addr) implies other.1 <= key.1 by {
                if other.1 > key.1 {
                    assert(!table.dom().contains((network_bits(addr, other.1), other.1)));
                }
            }
        },
        None => {
            assert forall|other: (u32, u8)| #[trigger] table.dom().contains(other) implies !covers(
                other,
                addr,
            ) by {
                if covers(other, addr) {
                    assert(!table.dom().contains((network_bits(addr, other.1), other.1)));
                }
            }
        },
    }
}

/// Listing one more network adds exactly its key.
proof fn lemma_listed_push(cidrs: Seq<Ipv4Cidr>, cidr: Ipv4Cidr, key: (u32, u8))
    ensures
        listed(cidrs.push(cidr), key) <==> listed(cidrs, key) || cidr.key() == key,
{
    let longer = cidrs.push(cidr);
    if listed(cidrs, key) {
        let i = choose|i: int| 0 <= i < cidrs.len() && #[trigger] cidrs[i].key() == key;
        assert(longer[i].key() == key);
    }
    if cidr.key() == key {
        assert(longer[cidrs.len() as int].key() == key);
    }
    if listed(longer, key) {
        let i = choose|i: int| 0 <= i < longer.len() && #[trigger] longer[i].key() == key;
        if i < cidrs.len() {
            assert(cidrs[i].key() == key);
        }
    }
}

/// Allowing one more network, with nothing blocked yet, stores `Allow`
/// under its key.
proof fn lemma_allow_one_more(allow: Seq<Ipv4Cidr>, cidr: Ipv4Cidr)
    ensures
        rule_map(allow.push(cidr), Seq::empty()) == rule_map(allow, Seq::empty()).insert(
            cidr.key(),
            Action::Allow,
        ),
{
    let before = rule_map(allow, Seq::empty());
    let after = rule_map(allow.push(cidr), Seq::empty());
    let expected = before.insert(cidr.key(), Action::Allow);
    assert forall|key: (u32, u8)| #[trigger]
        after.dom().contains(key) == expected.dom().contains(key) && (after.dom().contains(key)
            ==> after[key] == expected[key]) by {
        lemma_listed_push(allow, cidr, key);
        assert(!listed(Seq::<Ipv4Cidr>::empty(), key));
    }
    assert(after.dom() =~= expected.dom());
    assert(after =~= expected);
}

/// Blocking one more network stores `Block` under its key, whatever was
/// there.
proof fn lemma_block_one_more(allow: Seq<Ipv4Cidr>, block: Seq<Ipv4Cidr>, cidr: Ipv4Cidr)
    ensures
        rule_map(allow, block.push(cidr)) == rule_map(allow, block).insert(
            cidr.key(),
            Action::Block,
        ),
{
    let before = rule_map(allow, block);
    let after = rule_map(allow, block.push(cidr));
    let expected = before.insert(cidr.key(), Action::Block);
    assert forall|key: (u32, u8)| #[trigger]
        after.dom().contains(key) == expected.dom().contains(key) && (after.dom().contains(key)
            ==> after[key] == expected[key]) by {
        lemma_listed_push(block, cidr, key);
    }
    assert(after.dom() =~= expected.dom());
    assert(after =~= expected);
}

/// A network that is blocked has the entry `Block`, whether or not it is
/// allowed too, and two networks of the same length that hold the same
/// address are the same network.
pub proof fn lemma_block_overrides_allow(
    allow: Seq<Ipv4Cidr>,
    block: Seq<Ipv4Cidr>,
    allowed: Ipv4Cidr,
    blocked: Ipv4Cidr,
    addr: Ipv4Address,
)
    requires
        allow.contains(allowed),
        block.contains(blocked),
        allowed.spec_prefix_len() == blocked.spec_prefix_len(),
        allowed.spec_contains(addr),
        blocked.spec_contains(addr),
    ensures
        allowed.key() == blocked.key(),
        rule_map(allow, block).dom().contains(blocked.key()),
        rule_map(allow, block)[blocked.key()] == Action::Block,
{
    let j = choose|j: int| 0 <= j < block.len() && block[j] == blocked;
    assert(block[j].key() == blocked.key());
}

/// Where an allowed and a blocked network of the same length both hold an
/// address, and no listed network that holds it is longer, the longest-prefix
/// match of the address is the blocked network with `Block`.
pub proof fn lemma_block_wins(
    allow: Seq<Ipv4Cidr>,
    block: Seq<Ipv4Cidr>,
    allowed: Ipv4Cidr,
    blocked: Ipv4Cidr,
    addr: Ipv4Address,
)
    requires
        allow.contains(allowed),
        block.contains(blocked),
        blocked.wf(),
        allowed.spec_prefix_len() == blocked.spec_prefix_len(),
        allowed.spec_contains(addr),
        blocked.spec_contains(addr),
        forall|key: (u32, u8)| #[trigger]
            rule_map(allow, block).dom().contains(key) && covers(key, addr@) ==> key.1
                <= blocked.spec_prefix_len(),
    ensures
        longest_match(rule_map(allow, block), addr@) == Some((blocked.key(), Action::Block)),
{
    lemma_block_overrides_allow(allow, block, allowed, blocked, addr);
    blocked.lemma_wf();
    let table = rule_map(allow, block);
    let found = Some((blocked.key(), Action::Block));
    assert(covers(blocked.key(), addr@));
    lemma_longest_match_unique(table, addr@, found);
}

/// The longest-prefix match wins over shorter matches whatever the
/// actions are: where a listed network holds an address and no listed
/// network that holds it is longer, the match is that network, with `Block`
/// where it is blocked and `Allow` where it is only allowed.
pub proof fn lemma_longest_prefix_wins(
    allow: Seq<Ipv4Cidr>,
    block: Seq<Ipv4Cidr>,
    key: (u32, u8),
    addr: Ipv4Address,
)
    requires
        listed(allow, key) || listed(block, key),
        covers(key, addr@),
        forall|other: (u32, u8)| #[trigger]
            rule_map(allow, block).dom().contains(other) && covers(other, addr@) ==> other.1
                <= key.1,
    ensures
        longest_match(rule_map(allow, block), addr@) == Some(
            (
                key,
                if listed(block, key) {
                    Action::Block
                } else {
                    Action::Allow
                },
            ),
        ),
{
    let table = rule_map(allow, block);
    let found = Some((key, table[key]));
    lemma_longest_match_unique(table, addr@, found);
}

/// The egress rules of a proxy.
pub struct RuleTable {
    trie: PrefixMap<(u32, u8), Action>,
}

impl View for RuleTable {
    type V = Map<(u32, u8), Action>;

    closed spec fn view(&self) -> Map<(u32, u8), Action> {
        trie_entries(self.trie)
    }
}

impl RuleTable {
    /// Builds the table from the allowed and the blocked networks. Allowed
    /// networks go in first, so that a blocked network overwrites the same
    /// network allowed.
    pub fn new(allow: &Vec<Ipv4Cidr>, block: &Vec<Ipv4Cidr>) -> (table: RuleTable)
        ensures
            table@ == rule_map(allow@, block@),
    {
        let mut trie = trie_new();
        let mut i: usize = 0;
        assert(trie_entries(trie) =~= rule_map(allow@.take(0), Seq::empty()));
        while i < allow.len()
            invariant
                i <= allow.len(),
                trie_entries(trie) == rule_map(allow@.take(i as int), Seq::empty()),
            decreases allow.len() - i,
        {
            let cidr = allow[i];
            let ghost before = allow@.take(i as int);
            proof {
                assert(allow@.take(i + 1) =~= before.push(cidr));
                lemma_allow_one_more(before, cidr);
            }
            trie_insert(&mut trie, cidr.address().to_bits(), cidr.prefix_len(), Action::Allow);
            i += 1;
        }
        assert(allow@.take(i as int) =~= allow@);
        let mut j: usize = 0;
        assert(block@.take(0) =~= Seq::<Ipv4Cidr>::empty());
        while j < block.len()
            invariant
                j <= block.len(),
                trie_entries(trie) == rule_map(allow@, block@.take(j as int)),
            decreases block.len() - j,
        {
            let cidr = block[j];
            let ghost before = block@.take(j as int);
            proof {
                assert(block@.take(j + 1) =~= before.push(cidr));
                lemma_block_one_more(allow@, before, cidr);
            }
            trie_insert(&mut trie, cidr.address().to_bits(), cidr.prefix_len(), Action::Block);
            j += 1;
        }
        assert(block@.take(j as int) =~= block@);
        RuleTable { trie }
    }

    /// Whether the table has no rule at all.
    pub fn is_empty(&self) -> (empty: bool)
        ensures
            empty == self@.dom().is_empty(),
    {
        trie_is_empty(&self.trie)
    }

    /// The most specific rule whose network holds `addr`, with that
    /// network's bits and prefix length.
    pub fn get_lpm(&self, addr: Ipv4Address) -> (found: Option<((u32, u8), Action)>)
        ensures
            found == longest_match(self@, addr@),
    {
        let found = trie_get_lpm(&self.trie, addr.to_bits());
        proof {
            lemma_longest_match_unique(self@, addr@, found);
        }
        found
    }

    /// Every rule of the table once, each as its network's bits and prefix
    /// length with its action.
    pub fn entries(&self) -> (entries: Vec<((u32, u8), Action)>)
        ensures
            forall|key: (u32, u8)| #[trigger]
                self@.dom().contains(key) <==> exists|i: int|
                    0 <= i < entries@.len() && (#[trigger] entries@[i]).0 == key,
            forall|i: int|
                0 <= i < entries@.len() ==> self@[(#[trigger] entries@[i]).0] == entries@[i].1,
            forall|i: int, j: int|
                0 <= i < j < entries@.len() ==> (#[trigger] entries@[i]).0 != (
                #[trigger] entries@[j]).0,
    {
        trie_iter(&self.trie)
    }
}

} // verus!
