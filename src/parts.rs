use vstd::prelude::*;

use crate::names::{seq_lt, str_lt, lemma_seq_lt_irreflexive, lemma_seq_lt_total, lemma_seq_lt_transitive, is_least};

verus! {

/// A byte blob, and whether it is encrypted for the secret's owners.
#[derive(Debug)]
pub struct SecretData {
    pub data: Vec<u8>,
    pub encrypted: bool,
}

impl View for SecretData {
    type V = (Seq<u8>, bool);

    open spec fn view(&self) -> (Seq<u8>, bool) {
        (self.data@, self.encrypted)
    }
}

impl SecretData {
    pub fn duplicate(&self) -> (r: SecretData)
        ensures
            r@ == self@,
    {
        SecretData { data: self.data.clone(), encrypted: self.encrypted }
    }
}

/// One named part of a secret.
#[derive(Debug)]
pub struct SecretPart {
    pub name: String,
    pub raw: SecretData,
}

/// Where a part named `n` stands in `v`.
pub open spec fn part_index(v: Seq<SecretPart>, n: Seq<char>) -> int {
    choose|i: int| 0 <= i < v.len() && v[i].name@ == n
}

pub open spec fn parts_map(v: Seq<SecretPart>) -> Map<Seq<char>, (Seq<u8>, bool)> {
    Map::new(
        |n: Seq<char>| exists|i: int| 0 <= i < v.len() && v[i].name@ == n,
        |n: Seq<char>| v[part_index(v, n)].raw@,
    )
}

pub open spec fn parts_sorted(v: Seq<SecretPart>) -> bool {
    forall|i: int, j: int|
        0 <= i < j < v.len() ==> seq_lt(#[trigger] v[i].name@, #[trigger] v[j].name@)
}

pub proof fn lemma_parts_sorted_distinct(v: Seq<SecretPart>, i: int, j: int)
    requires
        parts_sorted(v),
        0 <= i < v.len(),
        0 <= j < v.len(),
        i != j,
    ensures
        v[i].name@ != v[j].name@,
{
    if i < j {
        assert(seq_lt(v[i].name@, v[j].name@));
    } else {
        assert(seq_lt(v[j].name@, v[i].name@));
    }
    lemma_seq_lt_irreflexive(v[i].name@);
}

pub proof fn lemma_parts_map_at(v: Seq<SecretPart>, i: int)
    requires
        parts_sorted(v),
        0 <= i < v.len(),
    ensures
        parts_map(v).dom().contains(v[i].name@),
        parts_map(v)[v[i].name@] == v[i].raw@,
{
    let n = v[i].name@;
    assert(parts_map(v).dom().contains(n));
    let k = part_index(v, n);
    assert(parts_map(v)[n] == v[k].raw@);
    if k != i {
        lemma_parts_sorted_distinct(v, i, k);
    }
}

/// The parts of a secret by name, kept in increasing order of names, as a
/// `BTreeMap<String, _>` iterates.
#[derive(Debug)]
pub struct SecretParts {
    entries: Vec<SecretPart>,
}

impl View for SecretParts {
    type V = Map<Seq<char>, (Seq<u8>, bool)>;

    closed spec fn view(&self) -> Map<Seq<char>, (Seq<u8>, bool)> {
        parts_map(self.entries@)
    }
}

impl SecretParts {
    #[verifier::type_invariant]
    closed spec fn sorted(&self) -> bool {
        parts_sorted(self.entries@)
    }

    /// The parts in increasing order of names.
    pub closed spec fn entries_seq(&self) -> Seq<SecretPart> {
        self.entries@
    }

    pub fn new() -> (r: SecretParts)
        ensures
            r@ == Map::<Seq<char>, (Seq<u8>, bool)>::empty(),
    {
        let r = SecretParts { entries: Vec::new() };
        assert(r@ =~= Map::<Seq<char>, (Seq<u8>, bool)>::empty());
        r
    }

    /// The parts in increasing order of names.
    pub fn entries(&self) -> (r: &Vec<SecretPart>)
        ensures
            r@ == self.entries_seq(),
            parts_sorted(r@),
            parts_map(r@) == self@,
    {
        proof {
            use_type_invariant(self);
        }
        &self.entries
    }

    pub fn len(&self) -> (r: usize)
        ensures
            r == self.entries_seq().len(),
    {
        self.entries.len()
    }

    /// Where the part named `s` stands, or would stand.
    fn position(&self, s: &str) -> (r: (usize, bool))
        ensures
            r.0 <= self.entries@.len(),
            r.1 == self@.dom().contains(s@),
            r.1 ==> r.0 < self.entries@.len() && self.entries@[r.0 as int].name@ == s@,
            forall|i: int| 0 <= i < r.0 ==> seq_lt(#[trigger] self.entries@[i].name@, s@),
            forall|i: int|
                r.0 + (if r.1 { 1int } else { 0 }) <= i < self.entries@.len() ==> seq_lt(
                    s@,
                    #[trigger] self.entries@[i].name@,
                ),
    {
        proof {
            use_type_invariant(self);
        }
        let mut i: usize = 0;
        while i < self.entries.len()
            invariant
                i <= self.entries@.len(),
                parts_sorted(self.entries@),
                forall|k: int| 0 <= k < i ==> seq_lt(#[trigger] self.entries@[k].name@, s@),
            decreases self.entries@.len() - i,
        {
            if !str_lt(self.entries[i].name.as_str(), s) {
                let found = !str_lt(s, self.entries[i].name.as_str());
                proof {
                    let n = self.entries@[i as int].name@;
                    if n != s@ {
                        lemma_seq_lt_total(n, s@);
                    } else {
                        lemma_seq_lt_irreflexive(s@);
                    }
                    assert forall|k: int|
                        i + (if found { 1int } else { 0 }) <= k < self.entries@.len() implies seq_lt(
                        s@,
                        #[trigger] self.entries@[k].name@,
                    ) by {
                        if k != i {
                            assert(seq_lt(n, self.entries@[k].name@));
                            if !found {
                                lemma_seq_lt_transitive(s@, n, self.entries@[k].name@);
                            }
                        }
                    }
                    if found {
                        assert(self@.dom().contains(s@));
                    } else {
                        assert forall|k: int| 0 <= k < self.entries@.len() implies #[trigger] self.entries@[k].name@ != s@ by {
                            lemma_seq_lt_irreflexive(s@);
                        }
                    }
                }
                return (i, found);
            }
            i = i + 1;
        }
        proof {
            assert forall|k: int| 0 <= k < self.entries@.len() implies #[trigger] self.entries@[k].name@ != s@ by {
                lemma_seq_lt_irreflexive(s@);
            }
        }
        (i, false)
    }

    /// The part named `s`, if there is one.
    pub fn get(&self, s: &str) -> (r: Option<&SecretData>)
        ensures
            r is Some <==> self@.dom().contains(s@),
            r matches Some(d) ==> d@ == self@[s@],
    {
        let (p, found) = self.position(s);
        if found {
            proof {
                use_type_invariant(self);
                lemma_parts_map_at(self.entries@, p as int);
            }
            Some(&self.entries[p].raw)
        } else {
            None
        }
    }

    /// Sets the part named `name`; tells whether a part of that name was there before,
    /// as `BTreeMap::insert` does.
    pub fn insert(&mut self, name: String, raw: SecretData) -> (r: bool)
        ensures
            final(self)@ == old(self)@.insert(name@, raw@),
            r == old(self)@.dom().contains(name@),
    {
        let (p, found) = self.position(name.as_str());
        proof {
            use_type_invariant(&*self);
        }
        let ghost before = self.entries@;
        let ghost key = name@;
        let ghost val = raw@;
        let mut entries: Vec<SecretPart> = Vec::new();
        let mut i: usize = 0;
        while i < self.entries.len()
            invariant
                i <= before.len(),
                self.entries@ == before,
                entries@.len() == i,
                forall|k: int| 0 <= k < i ==> (#[trigger] entries@[k]).name@ == before[k].name@
                    && entries@[k].raw@ == before[k].raw@,
            decreases before.len() - i,
        {
            let e = &self.entries[i];
            entries.push(SecretPart { name: e.name.clone(), raw: e.raw.duplicate() });
            i = i + 1;
        }
        let ghost copied = entries@;
        if found {
            entries.set(p, SecretPart { name, raw });
        } else {
            entries.insert(p, SecretPart { name, raw });
        }
        proof {
            let e = entries@;
            let off: int = if found { 0 } else { 1 };
            assert forall|k: int| 0 <= k < e.len() && k != p implies (#[trigger] e[k]).name@
                == before[if k < p { k } else { k - off }].name@ && e[k].raw@ == before[if k < p { k } else { k - off }].raw@ by {
                if k < p {
                    assert(e[k] == copied[k]);
                } else {
                    assert(e[k] == copied[k - off]);
                }
            }
            assert forall|a: int, b: int| 0 <= a < b < e.len() implies seq_lt(
                #[trigger] e[a].name@,
                #[trigger] e[b].name@,
            ) by {
                let ia: int = if a < p { a } else { a - off };
                let ib: int = if b < p { b } else { b - off };
                if a == p {
                    assert(seq_lt(key, before[ib].name@));
                } else if b == p {
                    assert(seq_lt(before[ia].name@, key));
                } else if a < p && b > p {
                    assert(seq_lt(before[ia].name@, key));
                    assert(seq_lt(key, before[ib].name@));
                    lemma_seq_lt_transitive(before[ia].name@, key, before[ib].name@);
                } else {
                    assert(seq_lt(before[ia].name@, before[ib].name@));
                }
            }
            assert(e[p as int].name@ == key && e[p as int].raw@ == val);
            let m = parts_map(e);
            let old_m = parts_map(before);
            assert forall|n: Seq<char>| m.dom().contains(n) <==> old_m.insert(key, val).dom().contains(n) by {
                if m.dom().contains(n) {
                    let k = choose|k: int| 0 <= k < e.len() && e[k].name@ == n;
                    if k != p {
                        let j: int = if k < p { k } else { k - off };
                        assert(before[j].name@ == n);
                    }
                }
                if old_m.dom().contains(n) {
                    let j = choose|j: int| 0 <= j < before.len() && before[j].name@ == n;
                    if found && j == p {
                        assert(e[p as int].name@ == n);
                    } else if j < p {
                        assert(e[j].name@ == n);
                    } else {
                        assert(e[j + off].name@ == n);
                    }
                }
                if n == key {
                    assert(e[p as int].name@ == n);
                }
            }
            assert forall|n: Seq<char>| #[trigger] m.dom().contains(n) implies m[n] == old_m.insert(key, val)[n] by {
                let k = choose|k: int| 0 <= k < e.len() && e[k].name@ == n;
                lemma_parts_map_at(e, k);
                if k != p {
                    let j: int = if k < p { k } else { k - off };
                    lemma_parts_map_at(before, j);
                    if found {
                        lemma_parts_sorted_distinct(before, j, p as int);
                    }
                }
            }
            assert(m =~= old_m.insert(key, val));
        }
        *self = SecretParts { entries };
        found
    }

    /// The names of the parts, in increasing order.
    pub fn names(&self) -> (r: crate::names::NameSet)
        ensures
            r@ == self@.dom(),
    {
        proof {
            use_type_invariant(self);
        }
        let mut r = crate::names::NameSet::new();
        let mut i: usize = 0;
        while i < self.entries.len()
            invariant
                i <= self.entries@.len(),
                parts_sorted(self.entries@),
                r@ == Set::new(|n: Seq<char>| exists|k: int| 0 <= k < i && self.entries@[k].name@ == n),
            decreases self.entries@.len() - i,
        {
            r.insert(self.entries[i].name.clone());
            proof {
                let ghost a = Set::new(|n: Seq<char>| exists|k: int| 0 <= k < i + 1 && self.entries@[k].name@ == n);
                let ghost b = Set::new(|n: Seq<char>| exists|k: int| 0 <= k < i && self.entries@[k].name@ == n);
                assert forall|n: Seq<char>| a.contains(n) <==> b.insert(self.entries@[i as int].name@).contains(n) by {
                    if a.contains(n) {
                        let k = choose|k: int| 0 <= k < i + 1 && self.entries@[k].name@ == n;
                        if k < i {
                            assert(b.contains(n));
                        }
                    }
                    if b.contains(n) {
                        let k = choose|k: int| 0 <= k < i && self.entries@[k].name@ == n;
                        assert(a.contains(n));
                    }
                    if n == self.entries@[i as int].name@ {
                        assert(a.contains(n));
                    }
                }
                assert(a =~= b.insert(self.entries@[i as int].name@));
            }
            i = i + 1;
        }
        assert(r@ =~= self@.dom());
        r
    }
}

/// The part whose name is the least of `bad` comes first in the parts' order.
pub proof fn lemma_first_in_order_is_least(v: Seq<SecretPart>, i: int, bad: Set<Seq<char>>)
    requires
        parts_sorted(v),
        0 <= i < v.len(),
        bad.contains(v[i].name@),
        forall|n: Seq<char>| #[trigger] bad.contains(n) ==> exists|k: int| 0 <= k < v.len() && v[k].name@ == n,
        forall|k: int| 0 <= k < i ==> !bad.contains(#[trigger] v[k].name@),
    ensures
        is_least(v[i].name@, bad),
{
    assert forall|t: Seq<char>| bad.contains(t) && t != v[i].name@ implies seq_lt(v[i].name@, t) by {
        let k = choose|k: int| 0 <= k < v.len() && v[k].name@ == t;
        if k < i {
        } else if k == i {
        } else {
            assert(seq_lt(v[i].name@, v[k].name@));
        }
    }
}

/// A set has at most one least element.
pub proof fn lemma_least_unique(a: Seq<char>, b: Seq<char>, s: Set<Seq<char>>)
    requires
        is_least(a, s),
        is_least(b, s),
    ensures
        a == b,
{
    if a != b {
        lemma_seq_lt_transitive(a, b, a);
        lemma_seq_lt_irreflexive(a);
    }
}

} // verus!
