use vstd::prelude::*;

use crate::text::same_text;

verus! {

/// No key occurs twice.
pub open spec fn distinct_keys<V>(e: Seq<(Seq<char>, V)>) -> bool {
    forall|i: int, j: int| 0 <= i < j < e.len() ==> e[i].0 != e[j].0
}

/// The value stored under `key`, if any.
pub open spec fn lookup(e: Seq<(Seq<char>, Seq<char>)>, key: Seq<char>) -> Option<Seq<char>>
    decreases e.len(),
{
    if e.len() == 0 {
        None
    } else if e[0].0 == key {
        Some(e[0].1)
    } else {
        lookup(e.drop_first(), key)
    }
}

/// `e` with `value` stored under `key`: in the entry that holds the key, or in
/// a new last entry when none does.
pub open spec fn put<V>(e: Seq<(Seq<char>, V)>, key: Seq<char>, value: V) -> Seq<(Seq<char>, V)> {
    if exists|i: int| 0 <= i < e.len() && #[trigger] e[i].0 == key {
        e.update(choose|i: int| 0 <= i < e.len() && #[trigger] e[i].0 == key, (key, value))
    } else {
        e.push((key, value))
    }
}

/// The values given for the parameters of a tool call, each under its name.
/// Each name occurs once; entries keep the order in which their names first
/// arrived.
#[derive(Debug)]
pub struct ParameterMap {
    entries: Vec<(String, String)>,
}

impl View for ParameterMap {
    type V = Seq<(Seq<char>, Seq<char>)>;

    closed spec fn view(&self) -> Seq<(Seq<char>, Seq<char>)> {
        Seq::new(self.entries@.len(), |i: int| (self.entries@[i].0@, self.entries@[i].1@))
    }
}

impl ParameterMap {
    #[verifier::type_invariant]
    closed spec fn keys_are_distinct(self) -> bool {
        distinct_keys(self@)
    }

    /// An empty map.
    pub fn new() -> (r: Self)
        ensures
            r@ == Seq::<(Seq<char>, Seq<char>)>::empty(),
    {
        let r = ParameterMap { entries: Vec::new() };
        assert(r@ =~= Seq::<(Seq<char>, Seq<char>)>::empty());
        r
    }

    /// The number of names that hold a value.
    pub fn len(&self) -> (r: usize)
        ensures
            r == self@.len(),
            distinct_keys(self@),
    {
        proof {
            use_type_invariant(self);
        }
        self.entries.len()
    }

    /// Whether no name holds a value.
    pub fn is_empty(&self) -> (r: bool)
        ensures
            r == (self@.len() == 0),
    {
        self.entries.len() == 0
    }

    /// The name of the entry at position `i`.
    pub fn key_at(&self, i: usize) -> (r: &String)
        requires
            i < self@.len(),
        ensures
            r@ == self@[i as int].0,
    {
        &self.entries[i].0
    }

    /// The value of the entry at position `i`.
    pub fn value_at(&self, i: usize) -> (r: &String)
        requires
            i < self@.len(),
        ensures
            r@ == self@[i as int].1,
    {
        &self.entries[i].1
    }

    fn position(&self, key: &str) -> (r: Option<usize>)
        ensures
            match r {
                Some(i) => i < self@.len() && self@[i as int].0 == key@ && forall|j: int|
                    0 <= j < i ==> self@[j].0 != key@,
                None => forall|j: int| 0 <= j < self@.len() ==> self@[j].0 != key@,
            },
    {
        let mut i: usize = 0;
        while i < self.entries.len()
            invariant
                i <= self@.len(),
                self@.len() == self.entries@.len(),
                forall|j: int| 0 <= j < i ==> self@[j].0 != key@,
            decreases self.entries.len() - i,
        {
            if same_text(self.entries[i].0.as_str(), key) {
                return Some(i);
            }
            i = i + 1;
        }
        None
    }

    /// The value given for `key`.
    pub fn get(&self, key: &str) -> (r: Option<&String>)
        ensures
            match r {
                Some(v) => lookup(self@, key@) == Some(v@),
                None => lookup(self@, key@) is None,
            },
    {
        let p = self.position(key);
        proof {
            lemma_lookup_none(self@, key@);
            if let Some(i) = p {
                lemma_lookup_at(self@, key@, i as int);
            }
        }
        match p {
            Some(i) => Some(&self.entries[i].1),
            None => None,
        }
    }

    /// Stores `value` under `key`. A name that already holds a value keeps its
    /// place and takes the new value; a new name goes last.
    pub fn insert(&mut self, key: String, value: String)
        ensures
            final(self)@ == put(old(self)@, key@, value@),
            distinct_keys(final(self)@),
            forall|k: Seq<char>|
                #![trigger lookup(final(self)@, k)]
                lookup(final(self)@, k) == if k == key@ {
                    Some(value@)
                } else {
                    lookup(old(self)@, k)
                },
            lookup(old(self)@, key@) is None ==> final(self)@ == old(self)@.push((key@, value@)),
            lookup(old(self)@, key@) is Some ==> final(self)@.len() == old(self)@.len() && forall|
                i: int,
            |
                0 <= i < old(self)@.len() ==> #[trigger] final(self)@[i].0 == old(self)@[i].0,
    {
        proof {
            use_type_invariant(&*self);
            lemma_lookup_none(self@, key@);
        }
        let ghost before = self@;
        match self.position(key.as_str()) {
            Some(i) => {
                let mut entries: Vec<(String, String)> = Vec::new();
                std::mem::swap(&mut entries, &mut self.entries);
                let ghost key_view = key@;
                let ghost value_view = value@;
                entries.set(i, (key, value));
                proof {
                    let after = Seq::new(
                        entries@.len(),
                        |j: int| (entries@[j].0@, entries@[j].1@),
                    );
                    assert(after =~= before.update(i as int, (key_view, value_view)));
                    assert(distinct_keys(after));
                }
                self.entries = entries;
                proof {
                    let c = choose|c: int| 0 <= c < before.len() && #[trigger] before[c].0 == key@;
                    assert(before[i as int].0 == key@);
                    if c < i {
                        assert(before[c].0 != before[i as int].0);
                    } else if i < c {
                        assert(before[i as int].0 != before[c].0);
                    }
                    assert(self@ =~= put(before, key@, value@));
                }
                assert forall|k: Seq<char>| #[trigger]
                    lookup(self@, k) == if k == key@ {
                        Some(value@)
                    } else {
                        lookup(before, k)
                    } by {
                    lemma_lookup_none(self@, k);
                    lemma_lookup_none(before, k);
                    lemma_lookup_some(before, k);
                    assert forall|j: int| 0 <= j < self@.len() && j != i implies self@[j]
                        == before[j] by {}
                    if k == key@ {
                        assert(self@[i as int].0 == k);
                        lemma_lookup_at(self@, k, i as int);
                    } else {
                        assert forall|j: int| 0 <= j < self@.len() implies (self@[j].0 == k
                            <==> before[j].0 == k) by {
                            if j == i {
                            } else {
                                assert(self@[j] == before[j]);
                            }
                        }
                        if lookup(before, k) is Some {
                            let m = choose|m: int|
                                0 <= m < before.len() && before[m].0 == k && before[m].1
                                    == lookup(before, k)->0 && (forall|j: int|
                                    0 <= j < m ==> before[j].0 != k);
                            assert(self@[m] == before[m]);
                            lemma_lookup_at(self@, k, m);
                        }
                    }
                }
            },
            None => {
                let mut entries: Vec<(String, String)> = Vec::new();
                std::mem::swap(&mut entries, &mut self.entries);
                let ghost key_view = key@;
                let ghost value_view = value@;
                entries.push((key, value));
                proof {
                    let after = Seq::new(
                        entries@.len(),
                        |j: int| (entries@[j].0@, entries@[j].1@),
                    );
                    assert(after =~= before.push((key_view, value_view)));
                    assert(distinct_keys(after));
                }
                self.entries = entries;
                assert(self@ =~= before.push((key@, value@)));
                assert(self@ =~= put(before, key@, value@));
                assert forall|k: Seq<char>| #[trigger]
                    lookup(self@, k) == if k == key@ {
                        Some(value@)
                    } else {
                        lookup(before, k)
                    } by {
                    lemma_lookup_none(self@, k);
                    lemma_lookup_none(before, k);
                    lemma_lookup_some(before, k);
                    if k == key@ {
                        assert(self@[before.len() as int].0 == k);
                        lemma_lookup_at(self@, k, before.len() as int);
                    } else {
                        assert forall|j: int| 0 <= j < self@.len() implies (self@[j].0 == k
                            <==> (j < before.len() && before[j].0 == k)) by {
                            if j < before.len() {
                                assert(self@[j] == before[j]);
                            }
                        }
                        if lookup(before, k) is Some {
                            let m = choose|m: int|
                                0 <= m < before.len() && before[m].0 == k && before[m].1
                                    == lookup(before, k)->0 && (forall|j: int|
                                    0 <= j < m ==> before[j].0 != k);
                            assert(self@[m] == before[m]);
                            lemma_lookup_at(self@, k, m);
                        }
                    }
                }
            },
        }
    }
}

/// `lookup` finds nothing exactly when no entry holds the key.
pub proof fn lemma_lookup_none(e: Seq<(Seq<char>, Seq<char>)>, key: Seq<char>)
    ensures
        lookup(e, key) is None <==> forall|j: int| 0 <= j < e.len() ==> #[trigger] e[j].0 != key,
    decreases e.len(),
{
    if e.len() > 0 {
        let rest = e.drop_first();
        lemma_lookup_none(rest, key);
        assert forall|j: int| 0 < j < e.len() implies #[trigger] e[j] == rest[j - 1] by {}
        if lookup(e, key) is None {
            assert forall|j: int| 0 <= j < e.len() implies #[trigger] e[j].0 != key by {
                if j > 0 {
                    assert(e[j] == rest[j - 1]);
                }
            }
        } else {
            if e[0].0 != key {
                let j = choose|j: int| 0 <= j < rest.len() && #[trigger] rest[j].0 == key;
                assert(e[j + 1] == rest[j]);
            }
        }
    }
}

/// `lookup` gives the value of the first entry that holds the key.
pub proof fn lemma_lookup_at(e: Seq<(Seq<char>, Seq<char>)>, key: Seq<char>, i: int)
    requires
        0 <= i < e.len(),
        e[i].0 == key,
        forall|j: int| 0 <= j < i ==> #[trigger] e[j].0 != key,
    ensures
        lookup(e, key) == Some(e[i].1),
    decreases e.len(),
{
    if i > 0 {
        let rest = e.drop_first();
        assert(e[0].0 != key);
        assert(rest[i - 1] == e[i]);
        assert forall|j: int| 0 <= j < i - 1 implies #[trigger] rest[j].0 != key by {
            assert(rest[j] == e[j + 1]);
        }
        lemma_lookup_at(rest, key, i - 1);
    }
}

/// What `lookup` finds sits in the first entry that holds the key.
pub proof fn lemma_lookup_some(e: Seq<(Seq<char>, Seq<char>)>, key: Seq<char>)
    ensures
        lookup(e, key) matches Some(v) ==> exists|i: int|
            #![trigger e[i]]
            0 <= i < e.len() && e[i].0 == key && e[i].1 == v && (forall|j: int|
                0 <= j < i ==> #[trigger] e[j].0 != key),
    decreases e.len(),
{
    if e.len() > 0 && e[0].0 != key {
        let rest = e.drop_first();
        lemma_lookup_some(rest, key);
        if let Some(v) = lookup(e, key) {
            let i = choose|i: int|
                #![trigger rest[i]]
                0 <= i < rest.len() && rest[i].0 == key && rest[i].1 == v && (forall|j: int|
                    0 <= j < i ==> #[trigger] rest[j].0 != key);
            assert(e[i + 1] == rest[i]);
            assert forall|j: int| 0 <= j < i + 1 implies #[trigger] e[j].0 != key by {
                if j > 0 {
                    assert(e[j] == rest[j - 1]);
                }
            }
        }
    }
}

} // verus!
