use vstd::prelude::*;

verus! {

/// Byte strings ordered as `String` keys of a `BTreeMap` are: byte by byte,
/// a proper prefix first.
pub open spec fn bytes_lt(a: Seq<u8>, b: Seq<u8>) -> bool
    decreases a.len(),
{
    if a.len() == 0 {
        b.len() > 0
    } else if b.len() == 0 {
        false
    } else if a[0] != b[0] {
        a[0] < b[0]
    } else {
        bytes_lt(a.drop_first(), b.drop_first())
    }
}

/// No name sorts before itself.
pub proof fn lemma_bytes_lt_irreflexive(a: Seq<u8>)
    ensures
        !bytes_lt(a, a),
    decreases a.len(),
{
    if a.len() > 0 {
        lemma_bytes_lt_irreflexive(a.drop_first());
    }
}

/// The byte order of names is transitive.
pub proof fn lemma_bytes_lt_transitive(a: Seq<u8>, b: Seq<u8>, c: Seq<u8>)
    requires
        bytes_lt(a, b),
        bytes_lt(b, c),
    ensures
        bytes_lt(a, c),
    decreases a.len(),
{
    if a.len() > 0 && b.len() > 0 && c.len() > 0 && a[0] == b[0] && b[0] == c[0] {
        lemma_bytes_lt_transitive(a.drop_first(), b.drop_first(), c.drop_first());
    }
}

/// Of two different names, one sorts before the other.
pub proof fn lemma_bytes_lt_total(a: Seq<u8>, b: Seq<u8>)
    requires
        a != b,
    ensures
        bytes_lt(a, b) || bytes_lt(b, a),
    decreases a.len(),
{
    if a.len() == 0 && b.len() == 0 {
        assert(a =~= b);
    }
    if a.len() > 0 && b.len() > 0 && a[0] == b[0] {
        if a.drop_first() == b.drop_first() {
            assert(a =~= seq![a[0]] + a.drop_first());
            assert(b =~= seq![b[0]] + b.drop_first());
            assert(false);
        } else {
            lemma_bytes_lt_total(a.drop_first(), b.drop_first());
        }
    }
}

/// Two names never sort before each other.
pub proof fn lemma_bytes_lt_asymmetric(a: Seq<u8>, b: Seq<u8>)
    requires
        bytes_lt(a, b),
    ensures
        !bytes_lt(b, a),
{
    if bytes_lt(b, a) {
        lemma_bytes_lt_transitive(a, b, a);
        lemma_bytes_lt_irreflexive(a);
    }
}

/// How two byte strings compare.
#[derive(Clone, Copy, Debug, PartialEq, Eq, Structural)]
pub enum ByteOrder {
    Less,
    Equal,
    Greater,
}

/// Compares two byte strings in the order of `bytes_lt`.
pub fn compare_bytes(a: &[u8], b: &[u8]) -> (r: ByteOrder)
    ensures
        r == ByteOrder::Less <==> bytes_lt(a@, b@),
        r == ByteOrder::Equal <==> a@ == b@,
        r == ByteOrder::Greater <==> bytes_lt(b@, a@),
{
    let mut i: usize = 0;
    while i < a.len() && i < b.len()
        invariant
            i <= a@.len(),
            i <= b@.len(),
            a@.subrange(0, i as int) == b@.subrange(0, i as int),
        decreases a@.len() - i,
    {
        if a[i] != b[i] {
            proof {
                lemma_bytes_lt_common_prefix(a@, b@, i as int);
                lemma_bytes_lt_common_prefix(b@, a@, i as int);
                lemma_bytes_lt_asymmetric_or_equal(a@, b@);
                assert(a@.subrange(i as int, a@.len() as int)[0] == a@[i as int]);
                assert(b@.subrange(i as int, b@.len() as int)[0] == b@[i as int]);
            }
            if a[i] < b[i] {
                return ByteOrder::Less;
            } else {
                return ByteOrder::Greater;
            }
        }
        proof {
            assert(a@.subrange(0, i + 1) =~= a@.subrange(0, i as int).push(a@[i as int]));
            assert(b@.subrange(0, i + 1) =~= b@.subrange(0, i as int).push(b@[i as int]));
        }
        i = i + 1;
    }
    proof {
        lemma_bytes_lt_common_prefix(a@, b@, i as int);
        lemma_bytes_lt_common_prefix(b@, a@, i as int);
        lemma_bytes_lt_asymmetric_or_equal(a@, b@);
        if a@.len() == b@.len() {
            assert(a@ =~= a@.subrange(0, i as int));
            assert(b@ =~= b@.subrange(0, i as int));
        }
    }
    if a.len() < b.len() {
        ByteOrder::Less
    } else if a.len() == b.len() {
        ByteOrder::Equal
    } else {
        ByteOrder::Greater
    }
}

proof fn lemma_bytes_lt_asymmetric_or_equal(a: Seq<u8>, b: Seq<u8>)
    ensures
        a == b ==> !bytes_lt(a, b) && !bytes_lt(b, a),
        bytes_lt(a, b) ==> !bytes_lt(b, a) && a != b,
        bytes_lt(b, a) ==> a != b,
{
    lemma_bytes_lt_irreflexive(a);
    if bytes_lt(a, b) {
        lemma_bytes_lt_asymmetric(a, b);
    }
}

/// Two byte strings that agree on their first `i` bytes compare as what
/// follows those bytes does.
proof fn lemma_bytes_lt_common_prefix(a: Seq<u8>, b: Seq<u8>, i: int)
    requires
        0 <= i <= a.len(),
        i <= b.len(),
        a.subrange(0, i) == b.subrange(0, i),
    ensures
        bytes_lt(a, b) == bytes_lt(a.subrange(i, a.len() as int), b.subrange(i, b.len() as int)),
    decreases i,
{
    if i > 0 {
        assert(a[0] == a.subrange(0, i)[0]);
        assert(b[0] == b.subrange(0, i)[0]);
        assert(a.drop_first().subrange(0, i - 1) =~= a.subrange(0, i).drop_first());
        assert(b.drop_first().subrange(0, i - 1) =~= b.subrange(0, i).drop_first());
        lemma_bytes_lt_common_prefix(a.drop_first(), b.drop_first(), i - 1);
        assert(a.drop_first().subrange(i - 1, a.len() - 1) =~= a.subrange(i, a.len() as int));
        assert(b.drop_first().subrange(i - 1, b.len() - 1) =~= b.subrange(i, b.len() as int));
    } else {
        assert(a.subrange(0, a.len() as int) =~= a);
        assert(b.subrange(0, b.len() as int) =~= b);
    }
}

/// A name and the node it leads to.
pub type NameEntry = (Vec<u8>, usize);

/// Entries in strictly increasing name order.
pub open spec fn sorted_names(s: Seq<(Seq<u8>, usize)>) -> bool {
    forall|i: int, j: int| 0 <= i < j < s.len() ==> bytes_lt(#[trigger] s[i].0, #[trigger] s[j].0)
}

/// The map the entries describe.
pub open spec fn entries_map(s: Seq<(Seq<u8>, usize)>) -> Map<Seq<u8>, usize>
    decreases s.len(),
{
    if s.len() == 0 {
        Map::empty()
    } else {
        entries_map(s.drop_last()).insert(s.last().0, s.last().1)
    }
}

/// In a sorted list of entries, each entry's name maps to its value.
pub proof fn lemma_entries_map_index(s: Seq<(Seq<u8>, usize)>, i: int)
    requires
        sorted_names(s),
        0 <= i < s.len(),
    ensures
        entries_map(s).contains_key(s[i].0),
        entries_map(s)[s[i].0] == s[i].1,
    decreases s.len(),
{
    if i < s.len() - 1 {
        lemma_entries_map_index(s.drop_last(), i);
        lemma_bytes_lt_irreflexive(s[i].0);
        assert(bytes_lt(s[i].0, s.last().0));
    }
}

/// A name that no entry carries is not in the map of the entries.
pub proof fn lemma_entries_map_absent(s: Seq<(Seq<u8>, usize)>, k: Seq<u8>)
    requires
        forall|i: int| 0 <= i < s.len() ==> s[i].0 != k,
    ensures
        !entries_map(s).contains_key(k),
    decreases s.len(),
{
    if s.len() > 0 {
        lemma_entries_map_absent(s.drop_last(), k);
    }
}

/// Every name in the map of the entries is carried by some entry.
pub proof fn lemma_entries_map_keys(s: Seq<(Seq<u8>, usize)>, k: Seq<u8>)
    requires
        entries_map(s).contains_key(k),
    ensures
        exists|i: int| 0 <= i < s.len() && s[i].0 == k,
    decreases s.len(),
{
    if s.len() > 0 && s.last().0 != k {
        lemma_entries_map_keys(s.drop_last(), k);
        let i = choose|i: int| 0 <= i < s.drop_last().len() && s.drop_last()[i].0 == k;
        assert(s[i].0 == k);
    }
}

/// The view of a byte-string vector entry.
pub open spec fn entry_view(e: NameEntry) -> (Seq<u8>, usize) {
    (e.0@, e.1)
}

/// A map from names to nodes kept as a vector in increasing name order, as
/// a `BTreeMap` keyed by strings would iterate it.
#[derive(Clone)]
pub struct NameMap {
    entries: Vec<NameEntry>,
}

impl NameMap {
    /// The entries in name order.
    pub closed spec fn seq(&self) -> Seq<(Seq<u8>, usize)> {
        self.entries@.map_values(|e: NameEntry| entry_view(e))
    }

    /// What the entries map each name to.
    pub open spec fn map(&self) -> Map<Seq<u8>, usize> {
        entries_map(self.seq())
    }

    /// The entries are in strictly increasing name order.
    pub open spec fn wf(&self) -> bool {
        sorted_names(self.seq())
    }

    /// No entries.
    pub fn new() -> (r: Self)
        ensures
            r.wf(),
            r.seq() == Seq::<(Seq<u8>, usize)>::empty(),
            r.map() == Map::<Seq<u8>, usize>::empty(),
    {
        let r = NameMap { entries: Vec::new() };
        assert(r.seq() =~= Seq::<(Seq<u8>, usize)>::empty());
        r
    }

    /// The number of entries.
    pub fn len(&self) -> (r: usize)
        ensures
            r == self.seq().len(),
    {
        self.entries.len()
    }

    /// The name and node of the entry at `i`.
    pub fn entry(&self, i: usize) -> (r: (&[u8], usize))
        requires
            i < self.seq().len(),
        ensures
            r.0@ == self.seq()[i as int].0,
            r.1 == self.seq()[i as int].1,
    {
        let e = &self.entries[i];
        (e.0.as_slice(), e.1)
    }

    /// Where `name` is: `Ok` with its position, or `Err` with the position it
    /// would be inserted at.
    fn search(&self, name: &[u8]) -> (r: Result<usize, usize>)
        requires
            self.wf(),
        ensures
            match r {
                Ok(i) => i < self.seq().len() && self.seq()[i as int].0 == name@,
                Err(i) => i <= self.seq().len() && (forall|j: int|
                    0 <= j < i ==> bytes_lt(#[trigger] self.seq()[j].0, name@)) && (forall|j: int|
                    i <= j < self.seq().len() ==> bytes_lt(name@, #[trigger] self.seq()[j].0)),
            },
    {
        let mut i: usize = 0;
        while i < self.entries.len()
            invariant
                self.wf(),
                i <= self.seq().len(),
                self.seq().len() == self.entries@.len(),
                forall|j: int| 0 <= j < i ==> bytes_lt(#[trigger] self.seq()[j].0, name@),
            decreases self.entries@.len() - i,
        {
            let c = compare_bytes(self.entries[i].0.as_slice(), name);
            assert(self.seq()[i as int] == entry_view(self.entries@[i as int]));
            match c {
                ByteOrder::Less => {},
                ByteOrder::Equal => {
                    return Ok(i);
                },
                ByteOrder::Greater => {
                    proof {
                        assert forall|j: int| i <= j < self.seq().len() implies bytes_lt(
                            name@,
                            #[trigger] self.seq()[j].0,
                        ) by {
                            if j > i {
                                lemma_bytes_lt_transitive(name@, self.seq()[i as int].0, self.seq()[j].0);
                            }
                        }
                    }
                    return Err(i);
                },
            }
            i = i + 1;
        }
        Err(i)
    }

    /// The node `name` maps to.
    pub fn get(&self, name: &[u8]) -> (r: Option<usize>)
        requires
            self.wf(),
        ensures
            match r {
                Some(n) => self.map().contains_key(name@) && self.map()[name@] == n,
                None => !self.map().contains_key(name@),
            },
    {
        match self.search(name) {
            Ok(i) => {
                proof {
                    lemma_entries_map_index(self.seq(), i as int);
                }
                assert(self.seq()[i as int] == entry_view(self.entries@[i as int]));
                Some(self.entries[i].1)
            },
            Err(i) => {
                proof {
                    assert forall|j: int| 0 <= j < self.seq().len() implies self.seq()[j].0 != name@ by {
                        lemma_bytes_lt_irreflexive(name@);
                    }
                    lemma_entries_map_absent(self.seq(), name@);
                }
                None
            },
        }
    }

    /// Whether `name` has an entry.
    pub fn contains(&self, name: &[u8]) -> (r: bool)
        requires
            self.wf(),
        ensures
            r == self.map().contains_key(name@),
    {
        self.get(name).is_some()
    }

    /// Maps `name` to `node`, replacing what it mapped to.
    pub fn insert(&mut self, name: &[u8], node: usize)
        requires
            old(self).wf(),
        ensures
            final(self).wf(),
            final(self).map() == old(self).map().insert(name@, node),
    {
        let ghost s0 = self.seq();
        match self.search(name) {
            Ok(i) => {
                self.entries.set(i, (vstd::slice::slice_to_vec(name), node));
                proof {
                    assert(self.seq() =~= s0.update(i as int, (name@, node)));
                    lemma_entries_map_update(s0, i as int, node);
                }
            },
            Err(i) => {
                self.entries.insert(i, (vstd::slice::slice_to_vec(name), node));
                proof {
                    assert(self.seq() =~= s0.insert(i as int, (name@, node)));
                    lemma_entries_map_insert(s0, i as int, name@, node);
                }
            },
        }
    }

    /// Removes the entry of `name`; whether there was one.
    pub fn remove(&mut self, name: &[u8]) -> (r: bool)
        requires
            old(self).wf(),
        ensures
            final(self).wf(),
            r == old(self).map().contains_key(name@),
            final(self).map() == old(self).map().remove(name@),
    {
        let ghost s0 = self.seq();
        match self.search(name) {
            Ok(i) => {
                self.entries.remove(i);
                proof {
                    assert(self.seq() =~= s0.remove(i as int));
                    lemma_entries_map_index(s0, i as int);
                    lemma_entries_map_remove(s0, i as int);
                }
                true
            },
            Err(i) => {
                proof {
                    assert forall|j: int| 0 <= j < s0.len() implies s0[j].0 != name@ by {
                        lemma_bytes_lt_irreflexive(name@);
                    }
                    lemma_entries_map_absent(s0, name@);
                    assert(s0 =~= self.seq());
                    assert(entries_map(s0).remove(name@) =~= entries_map(s0));
                }
                false
            },
        }
    }
}

proof fn lemma_entries_map_update(s: Seq<(Seq<u8>, usize)>, i: int, v: usize)
    requires
        sorted_names(s),
        0 <= i < s.len(),
    ensures
        sorted_names(s.update(i, (s[i].0, v))),
        entries_map(s.update(i, (s[i].0, v))) == entries_map(s).insert(s[i].0, v),
    decreases s.len(),
{
    let t = s.update(i, (s[i].0, v));
    assert(sorted_names(t)) by {
        assert forall|a: int, b: int| 0 <= a < b < t.len() implies bytes_lt(
            #[trigger] t[a].0,
            #[trigger] t[b].0,
        ) by {
            assert(t[a].0 == s[a].0 && t[b].0 == s[b].0);
        }
    }
    if i == s.len() - 1 {
        assert(t.drop_last() =~= s.drop_last());
        assert(entries_map(t) =~= entries_map(s).insert(s[i].0, v));
    } else {
        lemma_entries_map_update(s.drop_last(), i, v);
        assert(t.drop_last() =~= s.drop_last().update(i, (s[i].0, v)));
        assert(bytes_lt(s[i].0, s.last().0));
        lemma_bytes_lt_irreflexive(s[i].0);
        assert(entries_map(t) =~= entries_map(s).insert(s[i].0, v));
    }
}

proof fn lemma_entries_map_insert(s: Seq<(Seq<u8>, usize)>, i: int, k: Seq<u8>, v: usize)
    requires
        sorted_names(s),
        0 <= i <= s.len(),
        forall|j: int| 0 <= j < i ==> bytes_lt(#[trigger] s[j].0, k),
        forall|j: int| i <= j < s.len() ==> bytes_lt(k, #[trigger] s[j].0),
    ensures
        sorted_names(s.insert(i, (k, v))),
        entries_map(s.insert(i, (k, v))) == entries_map(s).insert(k, v),
    decreases s.len(),
{
    let t = s.insert(i, (k, v));
    assert(sorted_names(t)) by {
        assert forall|a: int, b: int| 0 <= a < b < t.len() implies bytes_lt(
            #[trigger] t[a].0,
            #[trigger] t[b].0,
        ) by {
            if b < i {
            } else if b == i {
            } else if a < i {
                lemma_bytes_lt_transitive(t[a].0, k, t[b].0);
            } else if a == i {
            } else {
            }
        }
    }
    if i == s.len() {
        assert(t.drop_last() =~= s);
    } else {
        lemma_entries_map_insert(s.drop_last(), i, k, v);
        assert(t.drop_last() =~= s.drop_last().insert(i, (k, v)));
        assert(bytes_lt(k, s.last().0));
        lemma_bytes_lt_irreflexive(k);
        assert(entries_map(t) =~= entries_map(s).insert(k, v));
    }
}

proof fn lemma_entries_map_remove(s: Seq<(Seq<u8>, usize)>, i: int)
    requires
        sorted_names(s),
        0 <= i < s.len(),
    ensures
        sorted_names(s.remove(i)),
        entries_map(s.remove(i)) == entries_map(s).remove(s[i].0),
    decreases s.len(),
{
    let t = s.remove(i);
    assert(sorted_names(t)) by {
        assert forall|a: int, b: int| 0 <= a < b < t.len() implies bytes_lt(
            #[trigger] t[a].0,
            #[trigger] t[b].0,
        ) by {
            if a < i && b >= i {
                assert(t[b] == s[b + 1]);
            } else if a >= i {
                assert(t[a] == s[a + 1] && t[b] == s[b + 1]);
            }
        }
    }
    if i == s.len() - 1 {
        assert(t =~= s.drop_last());
        assert forall|j: int| 0 <= j < t.len() implies t[j].0 != s[i].0 by {
            lemma_bytes_lt_irreflexive(s[i].0);
        }
        lemma_entries_map_absent(t, s[i].0);
        assert(entries_map(t) =~= entries_map(s).remove(s[i].0));
    } else {
        lemma_entries_map_remove(s.drop_last(), i);
        assert(t.drop_last() =~= s.drop_last().remove(i));
        assert(t.last() == s.last());
        assert(bytes_lt(s[i].0, s.last().0));
        lemma_bytes_lt_irreflexive(s[i].0);
        assert(entries_map(t) =~= entries_map(s).remove(s[i].0));
    }
}

} // verus!
