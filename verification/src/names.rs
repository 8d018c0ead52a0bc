use vstd::prelude::*;

verus! {

/// A name qualified by the subgraph that defines it.
#[derive(Debug)]
pub struct Qualified {
    pub subgraph: String,
    pub name: String,
}

impl View for Qualified {
    type V = (Seq<char>, Seq<char>);

    open spec fn view(&self) -> (Seq<char>, Seq<char>) {
        (self.subgraph@, self.name@)
    }
}

impl Qualified {
    pub fn new(subgraph: String, name: String) -> (q: Qualified)
        ensures
            q.subgraph == subgraph,
            q.name == name,
    {
        Qualified { subgraph, name }
    }
}

impl Clone for Qualified {
    fn clone(&self) -> (r: Self)
        ensures
            r == *self,
    {
        Qualified { subgraph: self.subgraph.clone(), name: self.name.clone() }
    }
}

/// Two qualified names are the same name.
pub fn qualified_eq(a: &Qualified, b: &Qualified) -> (r: bool)
    ensures
        r == (a@ == b@),
{
    a.subgraph == b.subgraph && a.name == b.name
}

/// The value of the first entry of `s` whose key is `k`, taking keys by their view.
pub open spec fn lookup<K: View, V>(s: Seq<(K, V)>, k: K::V) -> Option<V>
    decreases s.len(),
{
    if s.len() == 0 {
        None
    } else if s[0].0@ == k {
        Some(s[0].1)
    } else {
        lookup(s.drop_first(), k)
    }
}

/// What a lookup finds is the value of an entry under the key; finding
/// nothing means no entry has the key.
pub proof fn lemma_lookup<K: View, V>(s: Seq<(K, V)>, k: K::V)
    ensures
        lookup(s, k) matches Some(v) ==> exists|i: int| 0 <= i < s.len() && (#[trigger] s[i]).0@ == k && s[i].1 == v,
        lookup(s, k) is None ==> forall|i: int| 0 <= i < s.len() ==> (#[trigger] s[i]).0@ != k,
    decreases s.len(),
{
    if s.len() > 0 && s[0].0@ != k {
        lemma_lookup(s.drop_first(), k);
        if let Some(v) = lookup(s, k) {
            let i = choose|i: int| 0 <= i < s.drop_first().len() && (#[trigger] s.drop_first()[i]).0@ == k && s.drop_first()[i].1 == v;
            assert(s[i + 1] == s.drop_first()[i]);
        } else {
            assert forall|i: int| 0 <= i < s.len() implies (#[trigger] s[i]).0@ != k by {
                if i > 0 {
                    assert(s[i] == s.drop_first()[i - 1]);
                }
            }
        }
    }
}

/// No two entries of `s` have the same key, taking keys by their view: the
/// invariant of a map kept as a list of entries.
pub open spec fn names_distinct<K: View, V>(s: Seq<(K, V)>) -> bool {
    forall|i: int, j: int| 0 <= i < j < s.len() ==> (#[trigger] s[i]).0@ != (#[trigger] s[j]).0@
}

/// The names in `s`, each by its view.
pub open spec fn names_view(s: Seq<String>) -> Seq<Seq<char>> {
    s.map_values(|x: String| x@)
}

/// Looks up an entry by name.
pub fn find_by_name<'a, V>(entries: &'a Vec<(String, V)>, key: &String) -> (r: Option<&'a V>)
    ensures
        match r {
            Some(v) => lookup(entries@, key@) == Some(*v),
            None => lookup(entries@, key@) is None,
        },
{
    let n = entries.len();
    let mut i: usize = 0;
    assert(entries@.skip(0) =~= entries@);
    while i < n
        invariant
            n == entries@.len(),
            i <= n,
            lookup(entries@, key@) == lookup(entries@.skip(i as int), key@),
        decreases n - i,
    {
        if entries[i].0 == *key {
            return Some(&entries[i].1);
        }
        assert(entries@.skip(i as int).drop_first() =~= entries@.skip(i + 1));
        i = i + 1;
    }
    None
}

/// Looks up an entry by qualified name.
pub fn find_by_qualified<'a, V>(entries: &'a Vec<(Qualified, V)>, key: &Qualified) -> (r: Option<&'a V>)
    ensures
        match r {
            Some(v) => lookup(entries@, key@) == Some(*v),
            None => lookup(entries@, key@) is None,
        },
{
    let n = entries.len();
    let mut i: usize = 0;
    assert(entries@.skip(0) =~= entries@);
    while i < n
        invariant
            n == entries@.len(),
            i <= n,
            lookup(entries@, key@) == lookup(entries@.skip(i as int), key@),
        decreases n - i,
    {
        if qualified_eq(&entries[i].0, key) {
            return Some(&entries[i].1);
        }
        assert(entries@.skip(i as int).drop_first() =~= entries@.skip(i + 1));
        i = i + 1;
    }
    None
}

/// Tells whether `name` is in `names`.
pub fn contains_name(names: &Vec<String>, name: &String) -> (r: bool)
    ensures
        r == names_view(names@).contains(name@),
{
    let n = names.len();
    for i in 0..n
        invariant
            n == names@.len(),
            forall|j: int| 0 <= j < i ==> names@[j]@ != name@,
    {
        if names[i] == *name {
            assert(names_view(names@)[i as int] == name@);
            return true;
        }
    }
    assert forall|j: int| 0 <= j < names_view(names@).len() implies names_view(names@)[j] != name@ by {
        assert(names_view(names@)[j] == names@[j]@);
    }
    false
}

} // verus!
