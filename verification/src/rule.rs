//! Rule records and the rule table with its longest-prefix lookup.

use crate::types::Rule;
use vstd::prelude::*;

verus! {

/// The fields a rule is matched on. Addresses and the port are in network
/// byte order: the first byte on the wire is the lowest byte of the
/// number, as a little-endian machine reads it from the packet.
#[derive(Debug, Clone, Copy, PartialEq, Eq, Structural)]
pub struct RuleKey {
    /// The source address.
    pub source_ip_range: u32,
    /// The destination address.
    pub destination_ip_range: u32,
    /// The IP protocol number.
    pub protocol: u8,
    /// The destination port.
    pub port_number: u16,
}

/// What a lookup in the rule table yields.
#[derive(Debug, Clone, Copy, PartialEq, Eq, Structural)]
pub struct RuleValue {
    /// The identifier of the rule; analytics are kept under it.
    pub id: u32,
    /// Packets allowed per source and window; 0 means unlimited.
    pub ratelimit: u32,
}

/// The mask that keeps the `bits` leading bits of a 32-bit number.
pub open spec fn prefix_mask(bits: u32) -> u32 {
    if bits == 0 {
        0u32
    } else if bits >= 32 {
        0xFFFF_FFFFu32
    } else {
        !(0xFFFF_FFFFu32 >> bits)
    }
}

/// A 32-bit number with its four bytes in the opposite order.
pub open spec fn swapped(x: u32) -> u32 {
    ((x & 0xFFu32) << 24u32) | ((x & 0xFF00u32) << 8u32) | ((x >> 8u32) & 0xFF00u32) | (x >> 24u32)
}

/// The mask that keeps the `bits` leading bits of an address in network
/// byte order: the leading bits are those of the first byte on the wire,
/// which is the lowest byte of the number.
pub open spec fn network_mask(bits: u32) -> u32 {
    swapped(prefix_mask(bits))
}

/// Computes [`network_mask`].
pub fn mask_of(bits: u32) -> (mask: u32)
    ensures
        mask == network_mask(bits),
{
    let x: u32 = if bits == 0 {
        0
    } else if bits >= 32 {
        0xFFFF_FFFF
    } else {
        !(0xFFFF_FFFFu32 >> bits)
    };
    ((x & 0xFFu32) << 24u32) | ((x & 0xFF00u32) << 8u32) | ((x >> 8u32) & 0xFF00u32) | (x >> 24u32)
}

/// A key of the rule table: the match fields and how many of their bits
/// count. The prefix length is the sum of what the fields contribute:
/// the prefix lengths of the two addresses, 8 for a protocol and 16 for a
/// port. As the sum alone does not tell how long each address prefix
/// is, the key carries both.
#[derive(Debug, Clone, Copy, PartialEq, Eq, Structural)]
pub struct LpmKey {
    /// The total number of significant bits over the four fields.
    pub prefix_len: u32,
    /// How many leading bits of the source address count.
    pub source_prefix: u32,
    /// How many leading bits of the destination address count.
    pub destination_prefix: u32,
    /// The field values.
    pub data: RuleKey,
}

/// One row of the rule table.
#[derive(Debug, Clone, Copy, PartialEq, Eq, Structural)]
pub struct RuleEntry {
    /// What a packet is matched against.
    pub key: LpmKey,
    /// What a matching packet is judged by.
    pub value: RuleValue,
}

/// Bits left for protocol and port once the two addresses took theirs.
pub open spec fn field_bits(key: LpmKey) -> int {
    key.prefix_len - key.source_prefix - key.destination_prefix
}

/// Bits the protocol contributes: 8 when the key is for one protocol, 0
/// when it is for any.
pub open spec fn protocol_bits(key: LpmKey) -> u32 {
    if field_bits(key) == 8 || field_bits(key) == 24 {
        8u32
    } else {
        0u32
    }
}

/// Bits the port contributes: 16 when the key is for one port, 0 when it
/// is for any.
pub open spec fn port_bits(key: LpmKey) -> u32 {
    if field_bits(key) == 16 || field_bits(key) == 24 {
        16u32
    } else {
        0u32
    }
}

/// A key is well formed when its prefix length is the sum of what its
/// fields contribute: up to 32 bits for each address, none or 8 for the
/// protocol, none or 16 for the port.
pub open spec fn key_well_formed(key: LpmKey) -> bool {
    &&& key.source_prefix <= 32
    &&& key.destination_prefix <= 32
    &&& field_bits(key) == 0 || field_bits(key) == 8 || field_bits(key) == 16 || field_bits(key)
        == 24
}

/// The prefix length of a well-formed key is the sum of what its fields
/// contribute, and at most 88, the number of bits of the four fields
/// together.
pub proof fn lemma_prefix_at_most_88(key: LpmKey)
    requires
        key_well_formed(key),
    ensures
        key.prefix_len == key.source_prefix + key.destination_prefix + protocol_bits(key)
            + port_bits(key),
        key.prefix_len <= 88,
{
}

/// Whether two addresses in network byte order agree on their `bits`
/// leading bits.
pub open spec fn same_prefix(a: u32, b: u32, bits: u32) -> bool {
    a & network_mask(bits) == b & network_mask(bits)
}

/// No bits at all are agreed on by any two addresses, and all 32 bits
/// only by an address and itself.
pub proof fn lemma_prefix_ends(a: u32, b: u32)
    ensures
        same_prefix(a, b, 0),
        same_prefix(a, b, 32) <==> a == b,
{
    assert(swapped(0u32) == 0u32) by (bit_vector);
    assert(swapped(0xFFFF_FFFFu32) == 0xFFFF_FFFFu32) by (bit_vector);
    assert(a & 0u32 == b & 0u32) by (bit_vector);
    assert((a & 0xFFFF_FFFFu32 == b & 0xFFFF_FFFFu32) <==> a == b) by (bit_vector);
}

/// Addresses that agree on a prefix agree on every shorter prefix.
pub proof fn lemma_shorter_prefix(a: u32, b: u32, longer: u32, shorter: u32)
    requires
        shorter <= longer <= 32,
        same_prefix(a, b, longer),
    ensures
        same_prefix(a, b, shorter),
{
    if shorter == 0 {
        lemma_prefix_ends(a, b);
    } else if longer == 32 {
        lemma_prefix_ends(a, b);
    } else {
        assert(a & swapped(!(0xFFFF_FFFFu32 >> shorter)) == b & swapped(
            !(0xFFFF_FFFFu32 >> shorter),
        )) by (bit_vector)
            requires
                0 < shorter <= longer < 32,
                a & swapped(!(0xFFFF_FFFFu32 >> longer)) == b & swapped(
                    !(0xFFFF_FFFFu32 >> longer),
                ),
        ;
    }
}

/// Whether a packet with the fields `packet` falls under `key`: on every field
/// that contributes bits, the packet agrees with the key on those bits.
pub open spec fn key_matches(key: LpmKey, packet: RuleKey) -> bool {
    &&& key_well_formed(key)
    &&& same_prefix(packet.source_ip_range, key.data.source_ip_range, key.source_prefix)
    &&& same_prefix(
        packet.destination_ip_range,
        key.data.destination_ip_range,
        key.destination_prefix,
    )
    &&& protocol_bits(key) != 0 ==> packet.protocol == key.data.protocol
    &&& port_bits(key) != 0 ==> packet.port_number == key.data.port_number
}

/// Whether entry `a` is preferred to entry `b` when both match: the longer
/// prefix wins, and among equal lengths the lower identifier.
pub open spec fn outranks(a: RuleEntry, b: RuleEntry) -> bool {
    a.key.prefix_len > b.key.prefix_len || (a.key.prefix_len == b.key.prefix_len && a.value.id
        <= b.value.id)
}

/// A table is well formed when every key is and no identifier occurs twice.
pub open spec fn table_well_formed(table: Seq<RuleEntry>) -> bool {
    &&& forall|i: int| 0 <= i < table.len() ==> key_well_formed(#[trigger] table[i].key)
    &&& forall|i: int, j: int|
        0 <= i < j < table.len() ==> (#[trigger] table[i]).value.id != (#[trigger] table[j]).value.id
}

/// Whether row `i` matches `packet` and outranks every other matching row.
pub open spec fn is_winner(table: Seq<RuleEntry>, packet: RuleKey, i: int) -> bool {
    &&& 0 <= i < table.len()
    &&& key_matches(table[i].key, packet)
    &&& forall|j: int|
        0 <= j < table.len() && key_matches(#[trigger] table[j].key, packet) ==> outranks(
            table[i],
            table[j],
        )
}

/// The value a lookup yields: that of the winning row, if any row matches.
pub open spec fn lookup_spec(table: Seq<RuleEntry>, packet: RuleKey) -> Option<RuleValue> {
    if exists|i: int| is_winner(table, packet, i) {
        Some(table[choose|i: int| is_winner(table, packet, i)].value)
    } else {
        None
    }
}

/// Decides [`key_well_formed`].
pub fn check_key(key: &LpmKey) -> (ok: bool)
    ensures
        ok == key_well_formed(*key),
{
    if key.source_prefix > 32 || key.destination_prefix > 32 {
        return false;
    }
    let addresses = key.source_prefix + key.destination_prefix;
    if key.prefix_len < addresses {
        return false;
    }
    let rest = key.prefix_len - addresses;
    rest == 0 || rest == 8 || rest == 16 || rest == 24
}

/// Decides [`key_matches`].
pub fn matches_key(key: &LpmKey, packet: &RuleKey) -> (hit: bool)
    ensures
        hit == key_matches(*key, *packet),
{
    if !check_key(key) {
        return false;
    }
    let rest = key.prefix_len - key.source_prefix - key.destination_prefix;
    let source = mask_of(key.source_prefix);
    let destination = mask_of(key.destination_prefix);
    (packet.source_ip_range & source) == (key.data.source_ip_range & source) && (
    packet.destination_ip_range & destination) == (key.data.destination_ip_range & destination)
        && (!(rest == 8 || rest == 24) || packet.protocol == key.data.protocol) && (!(rest == 16
        || rest == 24) || packet.port_number == key.data.port_number)
}

/// Decides [`outranks`].
pub fn prefer(a: &RuleEntry, b: &RuleEntry) -> (first: bool)
    ensures
        first == outranks(*a, *b),
{
    a.key.prefix_len > b.key.prefix_len || (a.key.prefix_len == b.key.prefix_len && a.value.id
        <= b.value.id)
}

/// In a well-formed table at most one row wins for a packet.
pub proof fn lemma_winner_unique(table: Seq<RuleEntry>, packet: RuleKey, i: int, j: int)
    requires
        table_well_formed(table),
        is_winner(table, packet, i),
        is_winner(table, packet, j),
    ensures
        i == j,
{
    if i != j {
        assert(outranks(table[i], table[j]));
        assert(outranks(table[j], table[i]));
        if i < j {
            assert(table[i].value.id != table[j].value.id);
        } else {
            assert(table[j].value.id != table[i].value.id);
        }
    }
}

/// A lookup in a well-formed table yields the value of row `i` exactly when
/// row `i` wins.
pub proof fn lemma_lookup_is_winner(table: Seq<RuleEntry>, packet: RuleKey, i: int)
    requires
        table_well_formed(table),
        is_winner(table, packet, i),
    ensures
        lookup_spec(table, packet) == Some(table[i].value),
{
    let w = choose|w: int| is_winner(table, packet, w);
    lemma_winner_unique(table, packet, i, w);
}


/// Among the first `n` rows, of which one matches, some matching row
/// outranks every other matching row.
proof fn lemma_best_of_prefix(table: Seq<RuleEntry>, packet: RuleKey, n: int) -> (b: int)
    requires
        0 <= n <= table.len(),
        exists|j: int| 0 <= j < n && key_matches(#[trigger] table[j].key, packet),
    ensures
        0 <= b < n,
        key_matches(table[b].key, packet),
        forall|j: int|
            0 <= j < n && key_matches(#[trigger] table[j].key, packet) ==> outranks(
                table[b],
                table[j],
            ),
    decreases n,
{
    let last = n - 1;
    if exists|j: int| 0 <= j < last && key_matches(#[trigger] table[j].key, packet) {
        let earlier = lemma_best_of_prefix(table, packet, last);
        if key_matches(table[last].key, packet) && !outranks(table[earlier], table[last]) {
            last
        } else {
            earlier
        }
    } else {
        last
    }
}

/// Whenever some row of a well-formed table matches a packet, the lookup
/// yields a value.
pub proof fn lemma_match_is_found(table: Seq<RuleEntry>, packet: RuleKey, i: int)
    requires
        table_well_formed(table),
        0 <= i < table.len(),
        key_matches(table[i].key, packet),
    ensures
        lookup_spec(table, packet) is Some,
{
    let b = lemma_best_of_prefix(table, packet, table.len() as int);
    assert(is_winner(table, packet, b));
}

/// Of two rows that match the same packet, the lookup never yields the
/// less specific one: the row with the longer prefix is preferred, and of
/// two rows with equal prefix lengths the one with the lower identifier.
pub proof fn lemma_most_specific_wins(table: Seq<RuleEntry>, packet: RuleKey, i: int, j: int)
    requires
        table_well_formed(table),
        0 <= i < table.len(),
        0 <= j < table.len(),
        key_matches(table[i].key, packet),
        key_matches(table[j].key, packet),
        table[i].key.prefix_len > table[j].key.prefix_len || (table[i].key.prefix_len
            == table[j].key.prefix_len && table[i].value.id < table[j].value.id),
    ensures
        lookup_spec(table, packet) is Some,
        lookup_spec(table, packet) != Some(table[j].value),
        exists|w: int|
            is_winner(table, packet, w) && lookup_spec(table, packet) == Some(table[w].value)
                && outranks(table[w], table[i]),
{
    let w = lemma_best_of_prefix(table, packet, table.len() as int);
    assert(is_winner(table, packet, w));
    lemma_lookup_is_winner(table, packet, w);
    assert(outranks(table[w], table[i]));
    assert(w != j);
    if w < j {
        assert(table[w].value.id != table[j].value.id);
    } else {
        assert(table[j].value.id != table[w].value.id);
    }
}

/// Why a rule set was refused.
#[derive(Debug, Clone, Copy, PartialEq, Eq, Structural)]
pub enum RuleError {
    /// The prefix length of the rule at `index` is not the sum of what its
    /// fields contribute.
    PrefixLength { index: usize },
    /// The rule at `index` carries the identifier of an earlier rule.
    DuplicateId { index: usize },
}

/// The table key a rule stands for.
pub open spec fn key_of(rule: Rule) -> LpmKey {
    LpmKey {
        prefix_len: rule.prefix_length,
        source_prefix: rule.source_prefix_length,
        destination_prefix: rule.destination_prefix_length,
        data: RuleKey {
            source_ip_range: rule.source_ip_range,
            destination_ip_range: rule.destination_ip_range,
            protocol: rule.protocol_number,
            port_number: rule.port_number,
        },
    }
}

/// The rate limit a rule stands for: its own, or 0 (unlimited) if it has none.
pub open spec fn limit_of(rule: Rule) -> u32 {
    match rule.ratelimit {
        Some(limit) => limit,
        None => 0u32,
    }
}

/// The table row a rule stands for, kept under the rule's own identifier.
pub open spec fn entry_of(rule: Rule) -> RuleEntry {
    RuleEntry { key: key_of(rule), value: RuleValue { id: rule.id, ratelimit: limit_of(rule) } }
}

/// The table a rule set stands for: one row per rule, in order.
pub open spec fn entries_of(rules: Seq<Rule>) -> Seq<RuleEntry> {
    Seq::new(rules.len(), |i: int| entry_of(rules[i]))
}

/// What is wrong with the rule at `i`, given the rules before it.
pub open spec fn rule_fault(rules: Seq<Rule>, i: int) -> Option<RuleError> {
    if !key_well_formed(key_of(rules[i])) {
        Some(RuleError::PrefixLength { index: i as usize })
    } else if exists|j: int| 0 <= j < i && rules[j].id == rules[i].id {
        Some(RuleError::DuplicateId { index: i as usize })
    } else {
        None
    }
}

/// Whether a rule set can be loaded: no rule has a fault.
pub open spec fn rules_loadable(rules: Seq<Rule>) -> bool {
    forall|i: int| 0 <= i < rules.len() ==> rule_fault(rules, i) is None
}

/// A loadable rule set stands for a well-formed table.
pub proof fn lemma_loadable_table(rules: Seq<Rule>)
    requires
        rules_loadable(rules),
    ensures
        table_well_formed(entries_of(rules)),
{
    let table = entries_of(rules);
    assert forall|i: int| 0 <= i < table.len() implies key_well_formed(#[trigger] table[i].key) by {
        assert(rule_fault(rules, i) is None);
    }
    assert forall|i: int, j: int| 0 <= i < j < table.len() implies (#[trigger] table[i]).value.id
        != (#[trigger] table[j]).value.id by {
        assert(rule_fault(rules, j) is None);
    }
}

/// Turns a rule into its table key and value, the value under `id`.
pub fn convert_rule(rule: Rule, id: u32) -> (row: (LpmKey, RuleValue))
    ensures
        row.0 == key_of(rule),
        row.1 == (RuleValue { id, ratelimit: limit_of(rule) }),
{
    (
        LpmKey {
            prefix_len: rule.prefix_length,
            source_prefix: rule.source_prefix_length,
            destination_prefix: rule.destination_prefix_length,
            data: RuleKey {
                source_ip_range: rule.source_ip_range,
                destination_ip_range: rule.destination_ip_range,
                protocol: rule.protocol_number,
                port_number: rule.port_number,
            },
        },
        RuleValue {
            id,
            ratelimit: match rule.ratelimit {
                Some(limit) => limit,
                None => 0,
            },
        },
    )
}

/// The rule table: rows matched by prefix, the most specific match winning.
pub struct RuleTable {
    entries: Vec<RuleEntry>,
}

impl View for RuleTable {
    type V = Seq<RuleEntry>;

    closed spec fn view(&self) -> Seq<RuleEntry> {
        self.entries@
    }
}

impl RuleTable {
    /// The invariant of the table.
    pub open spec fn wf(&self) -> bool {
        table_well_formed(self@)
    }

    /// An empty table: every lookup misses.
    pub fn new() -> (table: RuleTable)
        ensures
            table@ == Seq::<RuleEntry>::empty(),
            table.wf(),
    {
        RuleTable { entries: Vec::new() }
    }

    /// The number of rows.
    pub fn len(&self) -> (n: usize)
        ensures
            n == self@.len(),
    {
        self.entries.len()
    }

    /// All rows, in table order.
    pub fn entries(&self) -> (rows: Vec<RuleEntry>)
        ensures
            rows@ == self@,
    {
        let mut rows: Vec<RuleEntry> = Vec::new();
        let mut i: usize = 0;
        while i < self.entries.len()
            invariant
                i <= self.entries.len(),
                rows@ == self@.subrange(0, i as int),
            decreases self.entries.len() - i,
        {
            rows.push(self.entries[i]);
            assert(rows@ =~= self@.subrange(0, i + 1));
            i += 1;
        }
        assert(self@.subrange(0, i as int) =~= self@);
        rows
    }

    /// The keys of all rows, in table order.
    pub fn collect_lpm_trie_keys(&self) -> (keys: Vec<LpmKey>)
        ensures
            keys@.len() == self@.len(),
            forall|i: int| 0 <= i < self@.len() ==> keys@[i] == (#[trigger] self@[i]).key,
    {
        let mut collected_keys: Vec<LpmKey> = Vec::new();
        let mut i: usize = 0;
        while i < self.entries.len()
            invariant
                i <= self.entries.len(),
                collected_keys@.len() == i,
                forall|j: int| 0 <= j < i ==> collected_keys@[j] == (#[trigger] self@[j]).key,
            decreases self.entries.len() - i,
        {
            collected_keys.push(self.entries[i].key);
            i += 1;
        }
        collected_keys
    }

    /// The value of the most specific row that matches `packet`; among rows
    /// of equal prefix length, of the one with the lowest identifier.
    pub fn lookup(&self, packet: &RuleKey) -> (found: Option<RuleValue>)
        requires
            self.wf(),
        ensures
            found == lookup_spec(self@, *packet),
            found is None <==> forall|i: int|
                0 <= i < self@.len() ==> !key_matches(#[trigger] self@[i].key, *packet),
    {
        let mut best: Option<usize> = None;
        let mut i: usize = 0;
        while i < self.entries.len()
            invariant
                i <= self.entries.len(),
                match best {
                    Some(b) => b < i && key_matches(self@[b as int].key, *packet) && forall|j: int|
                        0 <= j < i && key_matches(#[trigger] self@[j].key, *packet) ==> outranks(
                            self@[b as int],
                            self@[j],
                        ),
                    None => forall|j: int|
                        0 <= j < i ==> !key_matches(#[trigger] self@[j].key, *packet),
                },
            decreases self.entries.len() - i,
        {
            if matches_key(&self.entries[i].key, packet) {
                let better = match best {
                    Some(b) => !prefer(&self.entries[b], &self.entries[i]),
                    None => true,
                };
                if better {
                    best = Some(i);
                }
            }
            i += 1;
        }
        match best {
            Some(b) => {
                proof {
                    assert(is_winner(self@, *packet, b as int));
                    lemma_lookup_is_winner(self@, *packet, b as int);
                }
                Some(self.entries[b].value)
            },
            None => {
                assert(forall|w: int| !is_winner(self@, *packet, w));
                None
            },
        }
    }

    /// Replaces the whole rule set, all or nothing. A rule set with a faulty
    /// rule is refused with the first fault and the table stays as it was;
    /// otherwise the table holds exactly the new rules from now on.
    pub fn replace(&mut self, rules: &Vec<Rule>) -> (outcome: Result<(), RuleError>)
        requires
            old(self).wf(),
        ensures
            final(self).wf(),
            match outcome {
                Ok(()) => rules_loadable(rules@) && final(self)@ == entries_of(rules@),
                Err(fault) => final(self)@ == old(self)@ && exists|i: int|
                    0 <= i < rules@.len() && rule_fault(rules@, i) == Some(fault) && forall|j: int|
                        0 <= j < i ==> rule_fault(rules@, j) is None,
            },
    {
        let mut fresh: Vec<RuleEntry> = Vec::new();
        let mut i: usize = 0;
        while i < rules.len()
            invariant
                i <= rules.len(),
                self.wf(),
                self@ == old(self)@,
                fresh@ == entries_of(rules@.subrange(0, i as int)),
                forall|j: int| 0 <= j < i ==> rule_fault(rules@, j) is None,
            decreases rules.len() - i,
        {
            let (key, value) = convert_rule(rules[i], rules[i].id);
            if !check_key(&key) {
                assert(rule_fault(rules@, i as int) == Some(RuleError::PrefixLength { index: i }));
                return Err(RuleError::PrefixLength { index: i });
            }
            let mut k: usize = 0;
            while k < i
                invariant
                    k <= i < rules.len(),
                    self.wf(),
                    self@ == old(self)@,
                    key_well_formed(key_of(rules@[i as int])),
                    forall|j: int| 0 <= j < i ==> rule_fault(rules@, j) is None,
                    forall|j: int| 0 <= j < k ==> rules@[j].id != rules@[i as int].id,
                decreases i - k,
            {
                if rules[k].id == rules[i].id {
                    assert(rule_fault(rules@, i as int) == Some(
                        RuleError::DuplicateId { index: i },
                    ));
                    return Err(RuleError::DuplicateId { index: i });
                }
                k += 1;
            }
            fresh.push(RuleEntry { key, value });
            assert(fresh@ =~= entries_of(rules@.subrange(0, i + 1)));
            i += 1;
        }
        proof {
            assert(rules@.subrange(0, i as int) =~= rules@);
            lemma_loadable_table(rules@);
        }
        self.entries = fresh;
        Ok(())
    }
}

} // verus!
