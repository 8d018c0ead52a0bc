use vstd::prelude::*;
use vstd::utf8::*;

verus! {

broadcast use vstd::utf8::encode_utf8_decode_utf8;

/// Lexicographic comparison of byte strings: -1, 0 or 1.
///
/// This is the order of `Ord` on `str` and `String`, applied to their UTF-8
/// encodings.
pub open spec fn lex_order(a: Seq<u8>, b: Seq<u8>) -> int
    decreases a.len(),
{
    if a.len() == 0 {
        if b.len() == 0 {
            0
        } else {
            -1
        }
    } else if b.len() == 0 {
        1
    } else if a[0] < b[0] {
        -1
    } else if a[0] > b[0] {
        1
    } else {
        lex_order(a.drop_first(), b.drop_first())
    }
}

/// `a` sorts strictly before `b` as a `String` key.
pub open spec fn key_lt(a: Seq<char>, b: Seq<char>) -> bool {
    lex_order(encode_utf8(a), encode_utf8(b)) < 0
}

/// The keys of `s` strictly increase.
pub open spec fn keys_increasing<V>(s: Seq<(Seq<char>, V)>) -> bool {
    forall|i: int, j: int| 0 <= i < j < s.len() ==> key_lt(#[trigger] s[i].0, #[trigger] s[j].0)
}

/// The keys of `s` are pairwise distinct.
pub open spec fn keys_distinct<V>(s: Seq<(Seq<char>, V)>) -> bool {
    forall|i: int, j: int| 0 <= i < s.len() && 0 <= j < s.len() && i != j ==> #[trigger] s[i].0 != #[trigger] s[j].0
}

/// `k` is the key of some entry of `s`.
pub open spec fn has_key<V>(s: Seq<(Seq<char>, V)>, k: Seq<char>) -> bool {
    exists|i: int| 0 <= i < s.len() && #[trigger] s[i].0 == k
}

/// The map from keys to values that an association list stands for (with
/// distinct keys).
pub open spec fn pairs_map<V>(s: Seq<(Seq<char>, V)>) -> Map<Seq<char>, V> {
    Map::new(
        |k: Seq<char>| has_key(s, k),
        |k: Seq<char>| s[choose|i: int| 0 <= i < s.len() && #[trigger] s[i].0 == k].1,
    )
}

pub proof fn lemma_lex_order_antisymmetric(a: Seq<u8>, b: Seq<u8>)
    ensures
        lex_order(a, b) == -lex_order(b, a),
    decreases a.len(),
{
    if a.len() > 0 && b.len() > 0 && a[0] == b[0] {
        lemma_lex_order_antisymmetric(a.drop_first(), b.drop_first());
    }
}

pub proof fn lemma_lex_order_zero(a: Seq<u8>, b: Seq<u8>)
    ensures
        (lex_order(a, b) == 0) == (a == b),
    decreases a.len(),
{
    if a.len() == 0 {
        if b.len() == 0 {
            assert(a =~= b);
        }
    } else if b.len() > 0 && a[0] == b[0] {
        lemma_lex_order_zero(a.drop_first(), b.drop_first());
        if a.drop_first() == b.drop_first() {
            assert forall|i: int| 0 <= i < a.len() implies a[i] == b[i] by {
                if i > 0 {
                    assert(a[i] == a.drop_first()[i - 1]);
                    assert(b[i] == b.drop_first()[i - 1]);
                }
            }
            assert(a =~= b);
        }
    }
}

pub proof fn lemma_lex_order_transitive(a: Seq<u8>, b: Seq<u8>, c: Seq<u8>)
    requires
        lex_order(a, b) < 0,
        lex_order(b, c) < 0,
    ensures
        lex_order(a, c) < 0,
    decreases a.len(),
{
    if a.len() > 0 && b.len() > 0 && c.len() > 0 && a[0] == b[0] && b[0] == c[0] {
        lemma_lex_order_transitive(a.drop_first(), b.drop_first(), c.drop_first());
    }
}

/// `a` comes first because at the first byte where they differ `a` has the
/// smaller one, or because `a` is a proper prefix of `b`, seen from the
/// witness `i`, the length of their common prefix.
proof fn lemma_lex_order_less_witness(a: Seq<u8>, b: Seq<u8>)
    ensures
        lex_order(a, b) == -1 || lex_order(a, b) == 0 || lex_order(a, b) == 1,
        lex_order(a, b) < 0 <==> exists|i: int|
            0 <= i <= a.len() && i <= b.len() && #[trigger] a.take(i) == b.take(i) && (i == a.len() && i < b.len()
                || i < a.len() && i < b.len() && a[i] < b[i]),
    decreases a.len(),
{
    if a.len() == 0 {
        if b.len() > 0 {
            assert(a.take(0) =~= b.take(0));
        }
    } else if b.len() == 0 {
    } else if a[0] < b[0] {
        assert(a.take(0) =~= b.take(0));
    } else if a[0] > b[0] {
        if exists|i: int|
            0 <= i <= a.len() && i <= b.len() && #[trigger] a.take(i) == b.take(i) && (i == a.len() && i < b.len()
                || i < a.len() && i < b.len() && a[i] < b[i]) {
            let i = choose|i: int|
                0 <= i <= a.len() && i <= b.len() && #[trigger] a.take(i) == b.take(i) && (i == a.len() && i < b.len()
                    || i < a.len() && i < b.len() && a[i] < b[i]);
            if i > 0 {
                assert(a.take(i)[0] == b.take(i)[0]);
            }
        }
    } else {
        let ta = a.drop_first();
        let tb = b.drop_first();
        lemma_lex_order_less_witness(ta, tb);
        if lex_order(ta, tb) < 0 {
            let j = choose|j: int|
                0 <= j <= ta.len() && j <= tb.len() && #[trigger] ta.take(j) == tb.take(j) && (j == ta.len() && j < tb.len()
                    || j < ta.len() && j < tb.len() && ta[j] < tb[j]);
            assert forall|k: int| 0 <= k < j + 1 implies #[trigger] a.take(j + 1)[k] == b.take(j + 1)[k] by {
                if k > 0 {
                    assert(ta.take(j)[k - 1] == tb.take(j)[k - 1]);
                }
            }
            assert(a.take(j + 1) =~= b.take(j + 1));
        }
        if exists|i: int|
            0 <= i <= a.len() && i <= b.len() && #[trigger] a.take(i) == b.take(i) && (i == a.len() && i < b.len()
                || i < a.len() && i < b.len() && a[i] < b[i]) {
            let i = choose|i: int|
                0 <= i <= a.len() && i <= b.len() && #[trigger] a.take(i) == b.take(i) && (i == a.len() && i < b.len()
                    || i < a.len() && i < b.len() && a[i] < b[i]);
            assert(i > 0);
            assert forall|k: int| 0 <= k < i - 1 implies #[trigger] ta.take(i - 1)[k] == tb.take(i - 1)[k] by {
                assert(a.take(i)[k + 1] == b.take(i)[k + 1]);
            }
            assert(ta.take(i - 1) =~= tb.take(i - 1));
            assert(i - 1 == ta.len() ==> i == a.len());
            assert(i - 1 < ta.len() ==> ta[i - 1] == a[i]);
            assert(i - 1 < tb.len() ==> tb[i - 1] == b[i]);
        }
    }
}

/// The order of keys is the order of bytes: `a` comes before `b` exactly when,
/// at the first byte where they differ, `a` has the smaller byte, or when `a`
/// is a proper prefix of `b`; they compare equal exactly when they are equal;
/// and the comparison gives -1, 0 or 1.
pub proof fn law_lex_order_is_byte_order(a: Seq<u8>, b: Seq<u8>)
    ensures
        lex_order(a, b) == -1 || lex_order(a, b) == 0 || lex_order(a, b) == 1,
        lex_order(a, b) == 0 <==> a == b,
        lex_order(a, b) < 0 <==> exists|i: int|
            0 <= i <= a.len() && i <= b.len() && #[trigger] a.take(i) == b.take(i) && (i == a.len() && i < b.len()
                || i < a.len() && i < b.len() && a[i] < b[i]),
        lex_order(a, b) > 0 <==> exists|i: int|
            0 <= i <= a.len() && i <= b.len() && #[trigger] b.take(i) == a.take(i) && (i == b.len() && i < a.len()
                || i < a.len() && i < b.len() && b[i] < a[i]),
{
    lemma_lex_order_less_witness(a, b);
    lemma_lex_order_less_witness(b, a);
    lemma_lex_order_antisymmetric(a, b);
    lemma_lex_order_zero(a, b);
}

/// Keys compare as their UTF-8 encodings do; equal encodings are equal keys.
pub proof fn lemma_key_order_total(a: Seq<char>, b: Seq<char>)
    ensures
        key_lt(a, b) || key_lt(b, a) || a == b,
        !(key_lt(a, b) && key_lt(b, a)),
        !key_lt(a, a),
{
    lemma_lex_order_antisymmetric(encode_utf8(a), encode_utf8(b));
    lemma_lex_order_zero(encode_utf8(a), encode_utf8(b));
    lemma_lex_order_zero(encode_utf8(a), encode_utf8(a));
    if encode_utf8(a) == encode_utf8(b) {
        assert(decode_utf8(encode_utf8(a)) == a);
        assert(decode_utf8(encode_utf8(b)) == b);
    }
}

pub proof fn lemma_key_lt_transitive(a: Seq<char>, b: Seq<char>, c: Seq<char>)
    requires
        key_lt(a, b),
        key_lt(b, c),
    ensures
        key_lt(a, c),
{
    lemma_lex_order_transitive(encode_utf8(a), encode_utf8(b), encode_utf8(c));
}

/// Increasing keys are distinct keys.
pub proof fn lemma_increasing_distinct<V>(s: Seq<(Seq<char>, V)>)
    requires
        keys_increasing(s),
    ensures
        keys_distinct(s),
{
    assert forall|i: int, j: int|
        0 <= i < s.len() && 0 <= j < s.len() && i != j implies #[trigger] s[i].0 != #[trigger] s[j].0 by {
        lemma_key_order_total(s[i].0, s[j].0);
    }
}

/// With distinct keys, the entry at index `i` is what the map holds under its key.
pub proof fn lemma_pairs_map_at<V>(s: Seq<(Seq<char>, V)>, i: int)
    requires
        keys_distinct(s),
        0 <= i < s.len(),
    ensures
        pairs_map(s).contains_key(s[i].0),
        pairs_map(s)[s[i].0] == s[i].1,
{
    assert(has_key(s, s[i].0));
}

/// Two association lists with the same keys, entry by entry, stand for maps
/// with the same keys; each map holds the value of the entry at that key.
pub proof fn lemma_pairs_map_pointwise<V, W>(s: Seq<(Seq<char>, V)>, t: Seq<(Seq<char>, W)>)
    requires
        keys_distinct(s),
        s.len() == t.len(),
        forall|i: int| 0 <= i < s.len() ==> #[trigger] s[i].0 == t[i].0,
    ensures
        keys_distinct(t),
        pairs_map(t).dom() == pairs_map(s).dom(),
        forall|k: Seq<char>| #[trigger] pairs_map(s).contains_key(k) ==> exists|i: int|
            0 <= i < s.len() && s[i].0 == k && pairs_map(s)[k] == s[i].1 && pairs_map(t)[k] == t[i].1,
{
    assert(keys_distinct(t)) by {
        assert forall|i: int, j: int|
            0 <= i < t.len() && 0 <= j < t.len() && i != j implies #[trigger] t[i].0 != #[trigger] t[j].0 by {
            assert(s[i].0 == t[i].0);
            assert(s[j].0 == t[j].0);
        }
    }
    assert forall|k: Seq<char>| has_key(t, k) == has_key(s, k) by {
        if has_key(t, k) {
            let i = choose|i: int| 0 <= i < t.len() && #[trigger] t[i].0 == k;
            assert(s[i].0 == k);
        }
        if has_key(s, k) {
            let i = choose|i: int| 0 <= i < s.len() && #[trigger] s[i].0 == k;
            assert(t[i].0 == k);
        }
    }
    assert(pairs_map(t).dom() =~= pairs_map(s).dom());
    assert forall|k: Seq<char>| #[trigger] pairs_map(s).contains_key(k) implies exists|i: int|
        0 <= i < s.len() && s[i].0 == k && pairs_map(s)[k] == s[i].1 && pairs_map(t)[k] == t[i].1 by {
        let i = choose|i: int| 0 <= i < s.len() && #[trigger] s[i].0 == k;
        assert(t[i].0 == k);
        lemma_pairs_map_at(s, i);
        lemma_pairs_map_at(t, i);
    }
}

/// With distinct keys, dropping the first entry removes its key from the map.
pub proof fn lemma_pairs_map_drop_first<V>(s: Seq<(Seq<char>, V)>)
    requires
        keys_distinct(s),
        s.len() > 0,
    ensures
        keys_distinct(s.drop_first()),
        pairs_map(s.drop_first()) == pairs_map(s).remove(s[0].0),
{
    let t = s.drop_first();
    assert(keys_distinct(t)) by {
        assert forall|i: int, j: int|
            0 <= i < t.len() && 0 <= j < t.len() && i != j implies #[trigger] t[i].0 != #[trigger] t[j].0 by {
            assert(t[i] == s[i + 1]);
            assert(t[j] == s[j + 1]);
        }
    }
    assert forall|k: Seq<char>| has_key(t, k) == (has_key(s, k) && k != s[0].0) by {
        if has_key(t, k) {
            let i = choose|i: int| 0 <= i < t.len() && #[trigger] t[i].0 == k;
            assert(s[i + 1].0 == k);
        }
        if has_key(s, k) && k != s[0].0 {
            let i = choose|i: int| 0 <= i < s.len() && #[trigger] s[i].0 == k;
            assert(t[i - 1].0 == k);
        }
    }
    assert forall|k: Seq<char>| #[trigger] pairs_map(t).contains_key(k) implies pairs_map(t)[k] == pairs_map(s)[k] by {
        let i = choose|i: int| 0 <= i < t.len() && #[trigger] t[i].0 == k;
        lemma_pairs_map_at(t, i);
        assert(s[i + 1] == t[i]);
        lemma_pairs_map_at(s, i + 1);
    }
    assert(pairs_map(t) =~= pairs_map(s).remove(s[0].0));
}

/// A map determines its entries in increasing key order: two association
/// lists with increasing keys that stand for the same map are the same list.
/// So a `SortedMap`, like a `BTreeMap`, lists the same entries in the same
/// order whenever it holds the same map.
pub proof fn law_increasing_pairs_determined_by_map<V>(s: Seq<(Seq<char>, V)>, t: Seq<(Seq<char>, V)>)
    requires
        keys_increasing(s),
        keys_increasing(t),
        pairs_map(s) == pairs_map(t),
    ensures
        s == t,
    decreases s.len() + t.len(),
{
    lemma_increasing_distinct(s);
    lemma_increasing_distinct(t);
    if s.len() == 0 && t.len() == 0 {
        assert(s =~= t);
    } else if s.len() == 0 {
        lemma_pairs_map_at(t, 0);
    } else if t.len() == 0 {
        lemma_pairs_map_at(s, 0);
    } else {
        lemma_pairs_map_at(s, 0);
        lemma_pairs_map_at(t, 0);
        let j = choose|j: int| 0 <= j < t.len() && #[trigger] t[j].0 == s[0].0;
        let i = choose|i: int| 0 <= i < s.len() && #[trigger] s[i].0 == t[0].0;
        if j > 0 {
            assert(key_lt(t[0].0, t[j].0));
            if i == 0 {
                lemma_key_order_total(t[0].0, t[0].0);
            } else {
                assert(key_lt(s[0].0, s[i].0));
                lemma_key_order_total(s[0].0, t[0].0);
            }
        }
        assert(s[0].0 == t[0].0);
        lemma_pairs_map_at(t, 0);
        assert(s[0].1 == t[0].1);
        lemma_pairs_map_drop_first(s);
        lemma_pairs_map_drop_first(t);
        assert(keys_increasing(s.drop_first())) by {
            assert forall|a: int, b: int| 0 <= a < b < s.drop_first().len() implies key_lt(
                #[trigger] s.drop_first()[a].0,
                #[trigger] s.drop_first()[b].0,
            ) by {
                assert(s.drop_first()[a] == s[a + 1]);
                assert(s.drop_first()[b] == s[b + 1]);
            }
        }
        assert(keys_increasing(t.drop_first())) by {
            assert forall|a: int, b: int| 0 <= a < b < t.drop_first().len() implies key_lt(
                #[trigger] t.drop_first()[a].0,
                #[trigger] t.drop_first()[b].0,
            ) by {
                assert(t.drop_first()[a] == t[a + 1]);
                assert(t.drop_first()[b] == t[b + 1]);
            }
        }
        law_increasing_pairs_determined_by_map(s.drop_first(), t.drop_first());
        assert forall|k: int| 0 <= k < s.len() implies s[k] == t[k] by {
            if k > 0 {
                assert(s[k] == s.drop_first()[k - 1]);
                assert(t[k] == t.drop_first()[k - 1]);
            }
        }
        assert(s =~= t);
    }
}

/// Compares two keys as `Ord` on `str` does: -1, 0 or 1.
pub fn compare_keys(a: &str, b: &str) -> (r: i8)
    ensures
        r as int == lex_order(encode_utf8(a@), encode_utf8(b@)),
{
    let x = a.as_bytes();
    let y = b.as_bytes();
    let mut i: usize = 0;
    assert(x@.skip(0) =~= x@);
    assert(y@.skip(0) =~= y@);
    while i < x.len() && i < y.len()
        invariant
            i <= x@.len(),
            i <= y@.len(),
            x@ == encode_utf8(a@),
            y@ == encode_utf8(b@),
            lex_order(x@, y@) == lex_order(x@.skip(i as int), y@.skip(i as int)),
        decreases x@.len() - i,
    {
        if x[i] < y[i] {
            return -1;
        }
        if x[i] > y[i] {
            return 1;
        }
        assert(x@.skip(i as int).drop_first() =~= x@.skip(i + 1));
        assert(y@.skip(i as int).drop_first() =~= y@.skip(i + 1));
        i = i + 1;
    }
    if i == x.len() && i == y.len() {
        0
    } else if i == x.len() {
        -1
    } else {
        1
    }
}

/// A map from `String` keys that keeps its entries in increasing key order,
/// as `BTreeMap<String, V>` does. vstd specifies `BTreeMap::insert` only for
/// keys whose `Ord` obeys its comparison spec, which it does not establish
/// for `String`; so the order is kept and proved here.
#[derive(Debug)]
pub struct SortedMap<V> {
    entries: Vec<(String, V)>,
}

impl<V> SortedMap<V> {
    /// The entries, keys taken by their view, in increasing key order.
    pub closed spec fn pairs(self) -> Seq<(Seq<char>, V)> {
        self.entries@.map_values(|e: (String, V)| (e.0@, e.1))
    }

    /// The map that the entries stand for.
    pub open spec fn map(self) -> Map<Seq<char>, V> {
        pairs_map(self.pairs())
    }

    #[verifier::type_invariant]
    spec fn increasing(self) -> bool {
        keys_increasing(self.pairs())
    }

    /// An empty map.
    pub fn new() -> (m: Self)
        ensures
            m.pairs() == Seq::<(Seq<char>, V)>::empty(),
            m.map() == Map::<Seq<char>, V>::empty(),
    {
        let m = SortedMap { entries: Vec::new() };
        assert(m.pairs() =~= Seq::<(Seq<char>, V)>::empty());
        assert(m.map() =~= Map::<Seq<char>, V>::empty());
        m
    }

    /// The number of entries.
    pub fn len(&self) -> (n: usize)
        ensures
            n == self.pairs().len(),
    {
        self.entries.len()
    }

    /// The entries in increasing key order.
    pub fn entries(&self) -> (r: &Vec<(String, V)>)
        ensures
            r@.map_values(|e: (String, V)| (e.0@, e.1)) == self.pairs(),
            keys_increasing(self.pairs()),
            keys_distinct(self.pairs()),
    {
        proof {
            use_type_invariant(self);
            lemma_increasing_distinct(self.pairs());
        }
        &self.entries
    }

    /// A map with the same keys, each value replaced by what `f` gives for it.
    pub fn map_values<W, F: Fn(&V) -> W>(&self, f: F) -> (r: SortedMap<W>)
        requires
            forall|i: int| 0 <= i < self.pairs().len() ==> call_requires(f, (&#[trigger] self.pairs()[i].1,)),
        ensures
            keys_distinct(self.pairs()),
            r.pairs().len() == self.pairs().len(),
            forall|i: int|
                0 <= i < self.pairs().len() ==> #[trigger] r.pairs()[i].0 == self.pairs()[i].0
                    && call_ensures(f, (&self.pairs()[i].1,), r.pairs()[i].1),
    {
        proof {
            use_type_invariant(self);
            lemma_increasing_distinct(self.pairs());
        }
        let mut out: Vec<(String, W)> = Vec::new();
        let n = self.entries.len();
        for i in 0..n
            invariant
                n == self.entries@.len(),
                keys_increasing(self.pairs()),
                forall|i: int| 0 <= i < self.pairs().len() ==> call_requires(f, (&#[trigger] self.pairs()[i].1,)),
                out@.len() == i,
                forall|j: int|
                    0 <= j < i ==> (#[trigger] out@[j]).0@ == self.pairs()[j].0 && call_ensures(
                        f,
                        (&self.pairs()[j].1,),
                        out@[j].1,
                    ),
        {
            assert(self.pairs()[i as int].1 == self.entries@[i as int].1);
            let w = f(&self.entries[i].1);
            out.push((self.entries[i].0.clone(), w));
        }
        let r = SortedMap { entries: out };
        assert(keys_increasing(r.pairs())) by {
            assert forall|i: int, j: int| 0 <= i < j < r.pairs().len() implies key_lt(
                #[trigger] r.pairs()[i].0,
                #[trigger] r.pairs()[j].0,
            ) by {
                assert(r.pairs()[i].0 == self.pairs()[i].0);
                assert(r.pairs()[j].0 == self.pairs()[j].0);
            }
        }
        r
    }

    /// Inserts `value` under `key`, replacing the value that was there.
    pub fn insert(&mut self, key: String, value: V)
        ensures
            final(self).map() == old(self).map().insert(key@, value),
            keys_increasing(final(self).pairs()),
    {
        proof {
            use_type_invariant(&*self);
            lemma_increasing_distinct(self.pairs());
        }
        let ghost old_pairs = self.pairs();
        let mut entries: Vec<(String, V)> = Vec::new();
        std::mem::swap(&mut entries, &mut self.entries);
        assert(entries@.map_values(|e: (String, V)| (e.0@, e.1)) == old_pairs);
        let n = entries.len();
        let mut p: usize = 0;
        let mut c: i8 = 1;
        let mut searching = true;
        while searching
            invariant
                n == entries@.len(),
                old_pairs == entries@.map_values(|e: (String, V)| (e.0@, e.1)),
                keys_increasing(old_pairs),
                p <= n,
                forall|j: int| 0 <= j < p ==> key_lt(#[trigger] old_pairs[j].0, key@),
                !searching ==> p == n || (c >= 0 && c as int == lex_order(
                    encode_utf8(old_pairs[p as int].0),
                    encode_utf8(key@),
                )),
            decreases n - p + (if searching { 1int } else { 0int }),
        {
            if p == n {
                searching = false;
            } else {
                c = compare_keys(entries[p].0.as_str(), key.as_str());
                if c >= 0 {
                    searching = false;
                } else {
                    p = p + 1;
                }
            }
        }
        if p < n && c == 0 {
            proof {
                lemma_lex_order_zero(encode_utf8(old_pairs[p as int].0), encode_utf8(key@));
                assert(decode_utf8(encode_utf8(old_pairs[p as int].0)) == old_pairs[p as int].0);
            }
            entries.set(p, (key, value));
            proof {
                let new_pairs = entries@.map_values(|e: (String, V)| (e.0@, e.1));
                assert(new_pairs =~= old_pairs.update(p as int, (key@, value)));
                assert(keys_increasing(new_pairs));
                lemma_increasing_distinct(new_pairs);
                lemma_pairs_map_at(new_pairs, p as int);
                assert forall|q: Seq<char>| q != key@ implies (#[trigger] has_key(new_pairs, q)) == has_key(
                    old_pairs,
                    q,
                ) && (has_key(new_pairs, q) ==> pairs_map(new_pairs)[q] == pairs_map(old_pairs)[q]) by {
                    if has_key(new_pairs, q) {
                        let i = choose|i: int| 0 <= i < new_pairs.len() && #[trigger] new_pairs[i].0 == q;
                        assert(old_pairs[i].0 == q);
                        lemma_pairs_map_at(new_pairs, i);
                        lemma_pairs_map_at(old_pairs, i);
                    }
                    if has_key(old_pairs, q) {
                        let i = choose|i: int| 0 <= i < old_pairs.len() && #[trigger] old_pairs[i].0 == q;
                        assert(new_pairs[i].0 == q);
                    }
                }
                assert(pairs_map(new_pairs) =~= pairs_map(old_pairs).insert(key@, value));
            }
            self.entries = entries;
        } else {
            proof {
                if p < n {
                    lemma_lex_order_antisymmetric(encode_utf8(old_pairs[p as int].0), encode_utf8(key@));
                    lemma_lex_order_zero(encode_utf8(old_pairs[p as int].0), encode_utf8(key@));
                    assert(key_lt(key@, old_pairs[p as int].0));
                    assert forall|j: int| p <= j < n implies key_lt(key@, #[trigger] old_pairs[j].0) by {
                        if j > p {
                            lemma_key_lt_transitive(key@, old_pairs[p as int].0, old_pairs[j].0);
                        }
                    }
                }
            }
            entries.insert(p, (key, value));
            proof {
                let new_pairs = entries@.map_values(|e: (String, V)| (e.0@, e.1));
                assert(new_pairs =~= old_pairs.insert(p as int, (key@, value)));
                assert forall|i: int, j: int| 0 <= i < j < new_pairs.len() implies key_lt(
                    #[trigger] new_pairs[i].0,
                    #[trigger] new_pairs[j].0,
                ) by {
                    if j < p {
                    } else if j == p {
                    } else if i < p {
                        lemma_key_lt_transitive(old_pairs[i].0, key@, old_pairs[j - 1].0);
                    } else if i == p {
                    } else {
                    }
                }
                assert(keys_increasing(new_pairs));
                lemma_increasing_distinct(new_pairs);
                lemma_pairs_map_at(new_pairs, p as int);
                assert forall|q: Seq<char>| q != key@ implies (#[trigger] has_key(new_pairs, q)) == has_key(
                    old_pairs,
                    q,
                ) && (has_key(new_pairs, q) ==> pairs_map(new_pairs)[q] == pairs_map(old_pairs)[q]) by {
                    if has_key(new_pairs, q) {
                        let i = choose|i: int| 0 <= i < new_pairs.len() && #[trigger] new_pairs[i].0 == q;
                        let oi = if i < p { i } else { i - 1 };
                        assert(i != p);
                        assert(old_pairs[oi].0 == q);
                        lemma_pairs_map_at(new_pairs, i);
                        lemma_pairs_map_at(old_pairs, oi);
                    }
                    if has_key(old_pairs, q) {
                        let i = choose|i: int| 0 <= i < old_pairs.len() && #[trigger] old_pairs[i].0 == q;
                        let ni = if i < p { i } else { i + 1 };
                        assert(new_pairs[ni].0 == q);
                    }
                }
                assert(pairs_map(new_pairs) =~= pairs_map(old_pairs).insert(key@, value));
            }
            self.entries = entries;
        }
    }
}

} // verus!
