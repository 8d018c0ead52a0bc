use vstd::prelude::*;

use crate::field::{fields_view, Field, FieldView};
use crate::json::JsonValue;
use crate::metadata::DataConnectorLink;
use crate::sorted_map::{
    has_key, key_lt, keys_distinct, keys_increasing, law_increasing_pairs_determined_by_map,
    pairs_map, SortedMap,
};

verus! {

/// Draws 128 random bits from the operating system.
///
/// Calls `getrandom::fill` on 16 bytes and reads them as `u128::from_ne_bytes`
/// does, as `uuid` reads the bytes it draws for a version 4 UUID. Gives
/// `None` when the operating system gives no random bytes. Nothing is
/// claimed of the bits: they rest on chance.
#[verifier::external_body]
fn random_u128() -> (r: Option<u128>) {
    let mut bytes = [0u8; 16];
    match getrandom::fill(&mut bytes) {
        Ok(()) => Some(u128::from_ne_bytes(bytes)),
        Err(_) => None,
    }
}

/// The bits of a version 4 UUID that `uuid` keeps from the random bits.
pub const UUID_V4_MASK: u128 = 0xFFFFFFFFFFFF4FFFBFFFFFFFFFFFFFFFu128;

/// The version and variant bits that `uuid` sets in a version 4 UUID.
pub const UUID_V4_BITS: u128 = 0x40008000000000000000u128;

/// The version 4 UUID, as an integer, that `uuid::Uuid::new_v4` makes of the
/// random bits `random`.
pub open spec fn spec_uuid_v4(random: u128) -> u128 {
    (random & UUID_V4_MASK) | UUID_V4_BITS
}

/// Makes a version 4 UUID, as an integer, of the random bits `random`, as
/// `uuid::Uuid::new_v4` does: its version nibble is 4 and its variant bits
/// are `0b10`.
pub fn uuid_v4_from_random(random: u128) -> (key: u128)
    ensures
        key == spec_uuid_v4(random),
        (key >> 76u128) & 0xFu128 == 4,
        (key >> 62u128) & 0x3u128 == 2,
{
    let key = (random & UUID_V4_MASK) | UUID_V4_BITS;
    assert((((random & 0xFFFFFFFFFFFF4FFFBFFFFFFFFFFFFFFFu128) | 0x40008000000000000000u128) >> 76u128)
        & 0xFu128 == 4) by (bit_vector);
    assert((((random & 0xFFFFFFFFFFFF4FFFBFFFFFFFFFFFFFFFu128) | 0x40008000000000000000u128) >> 62u128)
        & 0x3u128 == 2) by (bit_vector);
    key
}

/// The remote predicates of a query, each under a random key.
#[derive(Debug)]
pub struct PredicateQueryTrees(pub std::collections::BTreeMap<u128, PredicateQueryTree>);

/// A query that evaluates a remote predicate, with the predicates it needs in turn.
#[derive(Debug)]
pub struct PredicateQueryTree {
    pub query: QueryExecutionPlan,
    pub children: PredicateQueryTrees,
}

/// An execution plan: all its predicates are local comparisons; remote
/// predicates are further plans under `remote_predicates`.
#[derive(Debug)]
pub struct QueryExecutionPlan {
    pub remote_predicates: PredicateQueryTrees,
    pub query_node: QueryNodeNew,
    /// The name of a collection
    pub collection: String,
    /// One set of named variables for each rowset to fetch. Each variable set
    /// should be subtituted in turn, and a fresh set of rows returned.
    pub variables: Option<Vec<SortedMap<JsonValue>>>,
    /// The data connector used to fetch the data
    pub data_connector: DataConnectorLink,
}

/// Query plan for fetching data
#[derive(Debug)]
pub struct QueryNodeNew {
    /// Optionally limit to N results
    pub limit: Option<u32>,
    /// Optionally offset from the Nth result
    pub offset: Option<u32>,
    /// Fields of the query
    pub fields: Option<FieldsSelection>,
}

/// The fields of a query, in order, each under its alias.
#[derive(Debug)]
pub struct FieldsSelection {
    pub fields: Vec<(String, Field)>,
}

/// The aliases of a list of fields, each by its view.
pub open spec fn aliases_view(fields: Seq<(String, Field)>) -> Seq<Seq<char>> {
    fields.map_values(|e: (String, Field)| e.0@)
}

/// The map from aliases to fields that a selection stands for. Two
/// selections (with distinct aliases) are equal when they stand for the same
/// map, whatever the order of their entries.
pub open spec fn selection_map(fields: Seq<(String, Field)>) -> Map<Seq<char>, FieldView> {
    pairs_map(fields_view(fields))
}

/// `keys` is what a hash of `fields` covers: the aliases, each once, in
/// increasing key order.
pub open spec fn hash_input(fields: Seq<(String, Field)>, keys: Seq<Seq<char>>) -> bool {
    &&& forall|i: int, j: int| 0 <= i < j < keys.len() ==> key_lt(#[trigger] keys[i], #[trigger] keys[j])
    &&& forall|k: Seq<char>| #[trigger] keys.contains(k) <==> aliases_view(fields).contains(k)
}

/// Pairs each key with `()`.
pub open spec fn unit_pairs(keys: Seq<Seq<char>>) -> Seq<(Seq<char>, ())> {
    keys.map_values(|k: Seq<char>| (k, ()))
}

/// The hash of a selection agrees with its equality: selections with
/// distinct aliases that stand for the same map of fields, in whatever
/// order, hash the same keys in the same order.
pub proof fn law_hash_agrees_with_equality(
    a: Seq<(String, Field)>,
    b: Seq<(String, Field)>,
    ka: Seq<Seq<char>>,
    kb: Seq<Seq<char>>,
)
    requires
        keys_distinct(fields_view(a)),
        keys_distinct(fields_view(b)),
        selection_map(a) == selection_map(b),
        hash_input(a, ka),
        hash_input(b, kb),
    ensures
        ka == kb,
{
    assert forall|k: Seq<char>| ka.contains(k) == kb.contains(k) by {
        if aliases_view(a).contains(k) {
            let i = choose|i: int| 0 <= i < aliases_view(a).len() && aliases_view(a)[i] == k;
            assert(fields_view(a)[i].0 == k);
            assert(has_key(fields_view(a), k));
            assert(selection_map(b).contains_key(k));
            let j = choose|j: int| 0 <= j < fields_view(b).len() && #[trigger] fields_view(b)[j].0 == k;
            assert(aliases_view(b)[j] == k);
        }
        if aliases_view(b).contains(k) {
            let i = choose|i: int| 0 <= i < aliases_view(b).len() && aliases_view(b)[i] == k;
            assert(fields_view(b)[i].0 == k);
            assert(has_key(fields_view(b), k));
            assert(selection_map(a).contains_key(k));
            let j = choose|j: int| 0 <= j < fields_view(a).len() && #[trigger] fields_view(a)[j].0 == k;
            assert(aliases_view(a)[j] == k);
        }
    }
    let ua = unit_pairs(ka);
    let ub = unit_pairs(kb);
    assert(keys_increasing(ua)) by {
        assert forall|i: int, j: int| 0 <= i < j < ua.len() implies key_lt(#[trigger] ua[i].0, #[trigger] ua[j].0) by {
            assert(ua[i].0 == ka[i]);
            assert(ua[j].0 == ka[j]);
        }
    }
    assert(keys_increasing(ub)) by {
        assert forall|i: int, j: int| 0 <= i < j < ub.len() implies key_lt(#[trigger] ub[i].0, #[trigger] ub[j].0) by {
            assert(ub[i].0 == kb[i]);
            assert(ub[j].0 == kb[j]);
        }
    }
    assert forall|k: Seq<char>| has_key(ua, k) == has_key(ub, k) by {
        if has_key(ua, k) {
            let i = choose|i: int| 0 <= i < ua.len() && #[trigger] ua[i].0 == k;
            assert(ka[i] == k);
            assert(kb.contains(k));
            let j = choose|j: int| 0 <= j < kb.len() && kb[j] == k;
            assert(ub[j].0 == k);
        }
        if has_key(ub, k) {
            let i = choose|i: int| 0 <= i < ub.len() && #[trigger] ub[i].0 == k;
            assert(kb[i] == k);
            assert(ka.contains(k));
            let j = choose|j: int| 0 <= j < ka.len() && ka[j] == k;
            assert(ua[j].0 == k);
        }
    }
    assert(pairs_map(ua) =~= pairs_map(ub));
    law_increasing_pairs_determined_by_map(ua, ub);
    assert forall|i: int| 0 <= i < ka.len() implies ka[i] == kb[i] by {
        assert(ua[i].0 == ka[i]);
        assert(ub[i].0 == kb[i]);
    }
    assert(ka =~= kb);
}

impl FieldsSelection {
    /// What a hash of the selection covers: the aliases, each once, in
    /// increasing key order, and not the fields under them; so selections
    /// that are equal whatever the order of their entries hash alike.
    pub fn hashed_keys(&self) -> (keys: Vec<String>)
        ensures
            hash_input(self.fields@, keys@.map_values(|k: String| k@)),
    {
        let mut set: SortedMap<()> = SortedMap::new();
        let n = self.fields.len();
        assert(set.map().dom() =~= Set::<Seq<char>>::empty());
        for i in 0..n
            invariant
                n == self.fields@.len(),
                forall|k: Seq<char>|
                    #[trigger] set.map().contains_key(k) <==> aliases_view(self.fields@).take(
                        i as int,
                    ).contains(k),
        {
            let ghost before = set.map();
            set.insert(self.fields[i].0.clone(), ());
            proof {
                let prefix = aliases_view(self.fields@).take(i + 1);
                assert(prefix =~= aliases_view(self.fields@).take(i as int).push(self.fields@[i as int].0@));
                assert(prefix[i as int] == self.fields@[i as int].0@);
                assert forall|k: Seq<char>| #[trigger] set.map().contains_key(k) <==> prefix.contains(k) by {
                    if prefix.contains(k) {
                        let j = choose|j: int| 0 <= j < prefix.len() && prefix[j] == k;
                        if j < i {
                            assert(aliases_view(self.fields@).take(i as int)[j] == k);
                            assert(before.contains_key(k));
                        }
                    }
                    if set.map().contains_key(k) {
                        if k == self.fields@[i as int].0@ {
                            assert(prefix[i as int] == k);
                        } else {
                            assert(before.contains_key(k));
                            let j = choose|j: int| 0 <= j < i && aliases_view(self.fields@).take(i as int)[j] == k;
                            assert(prefix[j] == k);
                        }
                    }
                }
            }
        }
        assert(aliases_view(self.fields@).take(n as int) =~= aliases_view(self.fields@));
        let entries = set.entries();
        let ghost pairs = set.pairs();
        let mut keys: Vec<String> = Vec::new();
        let m = entries.len();
        for i in 0..m
            invariant
                m == entries@.len(),
                entries@.map_values(|e: (String, ())| (e.0@, e.1)) == pairs,
                keys@.len() == i,
                forall|j: int| 0 <= j < i ==> (#[trigger] keys@[j])@ == pairs[j].0,
        {
            keys.push(entries[i].0.clone());
        }
        proof {
            let kv = keys@.map_values(|k: String| k@);
            assert(pairs.len() == m);
            assert forall|i: int, j: int| 0 <= i < j < kv.len() implies key_lt(#[trigger] kv[i], #[trigger] kv[j]) by {
                assert(kv[i] == pairs[i].0);
                assert(kv[j] == pairs[j].0);
            }
            assert forall|k: Seq<char>| #[trigger] kv.contains(k) <==> aliases_view(self.fields@).contains(k) by {
                if kv.contains(k) {
                    let j = choose|j: int| 0 <= j < kv.len() && kv[j] == k;
                    assert(pairs[j].0 == k);
                    assert(has_key(pairs, k));
                    assert(set.map().contains_key(k));
                }
                if aliases_view(self.fields@).contains(k) {
                    assert(set.map().contains_key(k));
                    let j = choose|j: int| 0 <= j < pairs.len() && #[trigger] pairs[j].0 == k;
                    assert(kv[j] == k);
                }
            }
        }
        keys
    }
}

impl PredicateQueryTrees {
    /// An empty set of predicate trees.
    pub fn new() -> (r: Self)
        ensures
            r.0@ == Map::<u128, PredicateQueryTree>::empty(),
    {
        PredicateQueryTrees(std::collections::BTreeMap::new())
    }

    /// Stores `value` under a fresh random version 4 UUID and returns the
    /// UUID; returns `None`, and leaves the trees as they were, when no
    /// random bits can be drawn.
    pub fn insert(&mut self, value: PredicateQueryTree) -> (key: Option<u128>)
        ensures
            match key {
                Some(k) => {
                    &&& final(self).0@ == old(self).0@.insert(k, value)
                    &&& exists|random: u128| k == spec_uuid_v4(random)
                    &&& (k >> 76u128) & 0xFu128 == 4
                    &&& (k >> 62u128) & 0x3u128 == 2
                },
                None => final(self).0@ == old(self).0@,
            },
    {
        match random_u128() {
            Some(random) => {
                let key = uuid_v4_from_random(random);
                self.0.insert(key, value);
                Some(key)
            },
            None => None,
        }
    }
}

impl Default for PredicateQueryTrees {
    /// An empty set of predicate trees.
    fn default() -> (r: Self)
        ensures
            r.0@ == Map::<u128, PredicateQueryTree>::empty(),
    {
        Self::new()
    }
}

} // verus!
