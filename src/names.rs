use vstd::prelude::*;
use vstd::string::StrSliceExecFns;

verus! {

/// Lexicographic order on character sequences by code point. On valid text this is
/// the order of `str`'s `Ord`, which compares UTF-8 bytes.
pub open spec fn seq_lt(a: Seq<char>, b: Seq<char>) -> bool
    decreases a.len(),
{
    if a.len() == 0 {
        b.len() > 0
    } else if b.len() == 0 {
        false
    } else if a[0] != b[0] {
        (a[0] as int) < (b[0] as int)
    } else {
        seq_lt(a.drop_first(), b.drop_first())
    }
}

pub proof fn lemma_seq_lt_irreflexive(a: Seq<char>)
    ensures
        !seq_lt(a, a),
    decreases a.len(),
{
    if a.len() > 0 {
        lemma_seq_lt_irreflexive(a.drop_first());
    }
}

pub proof fn lemma_seq_lt_transitive(a: Seq<char>, b: Seq<char>, c: Seq<char>)
    requires
        seq_lt(a, b),
        seq_lt(b, c),
    ensures
        seq_lt(a, c),
    decreases a.len(),
{
    if a.len() > 0 && b.len() > 0 && c.len() > 0 {
        if a[0] == b[0] && b[0] == c[0] {
            lemma_seq_lt_transitive(a.drop_first(), b.drop_first(), c.drop_first());
        }
    }
}

pub proof fn lemma_seq_lt_total(a: Seq<char>, b: Seq<char>)
    requires
        a != b,
    ensures
        seq_lt(a, b) || seq_lt(b, a),
    decreases a.len(),
{
    if a.len() > 0 && b.len() > 0 {
        if a[0] == b[0] {
            if a.drop_first() == b.drop_first() {
                assert(a =~= seq![a[0]] + a.drop_first());
                assert(b =~= seq![b[0]] + b.drop_first());
            }
            lemma_seq_lt_total(a.drop_first(), b.drop_first());
        } else {
            assert((a[0] as int) != (b[0] as int));
        }
    } else if a.len() == 0 && b.len() == 0 {
        assert(a =~= b);
    }
}

/// Compares two strings in the order of `seq_lt`.
pub fn str_lt(a: &str, b: &str) -> (r: bool)
    ensures
        r == seq_lt(a@, b@),
{
    let la = a.unicode_len();
    let lb = b.unicode_len();
    let mut i: usize = 0;
    assert(a@.skip(0) =~= a@);
    assert(b@.skip(0) =~= b@);
    while i < la && i < lb
        invariant
            i <= la,
            i <= lb,
            la == a@.len(),
            lb == b@.len(),
            seq_lt(a@, b@) == seq_lt(a@.skip(i as int), b@.skip(i as int)),
        decreases la - i,
    {
        let ca = a.get_char(i);
        let cb = b.get_char(i);
        if ca != cb {
            return (ca as u32) < (cb as u32);
        }
        assert(a@.skip(i as int).drop_first() =~= a@.skip(i + 1));
        assert(b@.skip(i as int).drop_first() =~= b@.skip(i + 1));
        i = i + 1;
    }
    i < lb
}

/// Whether two strings hold the same characters.
pub fn str_eq(a: &str, b: &str) -> (r: bool)
    ensures
        r == (a@ == b@),
{
    let r = !str_lt(a, b) && !str_lt(b, a);
    proof {
        if a@ != b@ {
            lemma_seq_lt_total(a@, b@);
        } else {
            lemma_seq_lt_irreflexive(a@);
        }
    }
    r
}

/// The least element of a set of names, in the order of `seq_lt`.
pub open spec fn is_least(s: Seq<char>, set: Set<Seq<char>>) -> bool {
    &&& set.contains(s)
    &&& forall|t: Seq<char>| set.contains(t) && t != s ==> seq_lt(s, t)
}

/// The least element of a set of names, where it has one.
pub open spec fn least_of(set: Set<Seq<char>>) -> Seq<char> {
    choose|s: Seq<char>| is_least(s, set)
}

/// The names held by a sequence of strings.
pub open spec fn names_of(v: Seq<String>) -> Set<Seq<char>> {
    Set::new(|s: Seq<char>| exists|i: int| 0 <= i < v.len() && v[i]@ == s)
}

/// Strictly increasing in the order of `seq_lt`.
pub open spec fn strictly_sorted(v: Seq<String>) -> bool {
    forall|i: int, j: int| 0 <= i < j < v.len() ==> seq_lt(#[trigger] v[i]@, #[trigger] v[j]@)
}

/// A finite set of names, kept in increasing order, as a `BTreeSet<String>` iterates.
#[derive(Debug)]
pub struct NameSet {
    names: Vec<String>,
}

impl View for NameSet {
    type V = Set<Seq<char>>;

    closed spec fn view(&self) -> Set<Seq<char>> {
        names_of(self.names@)
    }
}

impl NameSet {
    #[verifier::type_invariant]
    closed spec fn sorted(&self) -> bool {
        strictly_sorted(self.names@)
    }

    /// The names in increasing order.
    pub closed spec fn ordered(&self) -> Seq<Seq<char>> {
        self.names@.map_values(|s: String| s@)
    }

    fn order_facts(&self)
        ensures
            self.ordered().len() == self@.len(),
            self@.finite(),
            forall|i: int|
                0 <= i < self.ordered().len() ==> #[trigger] self@.contains(self.ordered()[i]),
            forall|s: Seq<char>|
                #[trigger] self@.contains(s) ==> exists|i: int|
                    0 <= i < self.ordered().len() && self.ordered()[i] == s,
            forall|i: int, j: int|
                0 <= i < j < self.ordered().len() ==> seq_lt(
                    #[trigger] self.ordered()[i],
                    #[trigger] self.ordered()[j],
                ),
    {
        proof {
        use_type_invariant(self);
        let o = self.ordered();
        assert forall|i: int| 0 <= i < o.len() implies #[trigger] self@.contains(o[i]) by {
            assert(self.names@[i]@ == o[i]);
        }
        assert forall|s: Seq<char>| #[trigger] self@.contains(s) implies exists|i: int|
            0 <= i < o.len() && o[i] == s by {
            let i = choose|i: int| 0 <= i < self.names@.len() && self.names@[i]@ == s;
            assert(o[i] == s);
        }
        assert forall|i: int, j: int| 0 <= i < j < o.len() implies seq_lt(
            #[trigger] o[i],
            #[trigger] o[j],
        ) by {
            assert(seq_lt(self.names@[i]@, self.names@[j]@));
        }
        lemma_sorted_distinct_len(o);
        assert(o.to_set() =~= self@);
        }
    }

    pub fn new() -> (r: NameSet)
        ensures
            r@ == Set::<Seq<char>>::empty(),
    {
        let r = NameSet { names: Vec::new() };
        assert(r@ =~= Set::<Seq<char>>::empty());
        r
    }

    pub fn len(&self) -> (r: usize)
        ensures
            r == self@.len(),
    {
        self.order_facts();
        self.names.len()
    }

    pub fn is_empty(&self) -> (r: bool)
        ensures
            r == (self@ == Set::<Seq<char>>::empty()),
    {
        proof {
            if self.names.len() > 0 {
                assert(self@.contains(self.names@[0]@));
            } else {
                assert(self@ =~= Set::<Seq<char>>::empty());
            }
        }
        self.names.len() == 0
    }

    /// The names in increasing order.
    pub fn as_vec(&self) -> (r: &Vec<String>)
        ensures
            r@.map_values(|s: String| s@) == self.ordered(),
            names_of(r@) == self@,
    {
        &self.names
    }

    /// Where `s` stands, or would stand, among the names.
    fn position(&self, s: &str) -> (r: (usize, bool))
        ensures
            r.0 <= self.names@.len(),
            r.1 == self@.contains(s@),
            r.1 ==> r.0 < self.names@.len() && self.names@[r.0 as int]@ == s@,
            forall|i: int| 0 <= i < r.0 ==> seq_lt(#[trigger] self.names@[i]@, s@),
            forall|i: int|
                r.0 + (if r.1 { 1int } else { 0 }) <= i < self.names@.len() ==> seq_lt(
                    s@,
                    #[trigger] self.names@[i]@,
                ),
    {
        proof {
            use_type_invariant(self);
        }
        let mut i: usize = 0;
        while i < self.names.len()
            invariant
                i <= self.names@.len(),
                strictly_sorted(self.names@),
                forall|k: int| 0 <= k < i ==> seq_lt(#[trigger] self.names@[k]@, s@),
            decreases self.names@.len() - i,
        {
            if !str_lt(self.names[i].as_str(), s) {
                let found = !str_lt(s, self.names[i].as_str());
                proof {
                    if self.names@[i as int]@ != s@ {
                        lemma_seq_lt_total(self.names@[i as int]@, s@);
                    } else {
                        lemma_seq_lt_irreflexive(s@);
                    }
                    assert forall|k: int|
                        i + (if found { 1int } else { 0 }) <= k < self.names@.len() implies seq_lt(
                        s@,
                        #[trigger] self.names@[k]@,
                    ) by {
                        if k != i {
                            assert(seq_lt(self.names@[i as int]@, self.names@[k]@));
                            if !found {
                                lemma_seq_lt_transitive(s@, self.names@[i as int]@, self.names@[k]@);
                            }
                        }
                    }
                    if !found {
                        assert forall|k: int| 0 <= k < self.names@.len() implies #[trigger] self.names@[k]@ != s@ by {
                            if k < i {
                                lemma_seq_lt_irreflexive(s@);
                            } else {
                                lemma_seq_lt_irreflexive(s@);
                            }
                        }
                    } else {
                        assert(self@.contains(s@));
                    }
                }
                return (i, found);
            }
            i = i + 1;
        }
        proof {
            assert forall|k: int| 0 <= k < self.names@.len() implies #[trigger] self.names@[k]@ != s@ by {
                lemma_seq_lt_irreflexive(s@);
            }
        }
        (i, false)
    }

    pub fn contains(&self, s: &str) -> (r: bool)
        ensures
            r == self@.contains(s@),
    {
        self.position(s).1
    }

    /// Adds `s`; tells whether it was absent before.
    pub fn insert(&mut self, s: String) -> (r: bool)
        ensures
            final(self)@ == old(self)@.insert(s@),
            r == !old(self)@.contains(s@),
    {
        let (p, found) = self.position(s.as_str());
        if found {
            assert(self@.insert(s@) =~= self@);
            return false;
        }
        proof {
            use_type_invariant(&*self);
        }
        let ghost before = self.names@;
        let mut names = self.names.clone();
        assert(names@ == before);
        names.insert(p, s);
        proof {
            assert forall|i: int, j: int| 0 <= i < j < names@.len() implies seq_lt(
                #[trigger] names@[i]@,
                #[trigger] names@[j]@,
            ) by {
                if j < p {
                } else if j == p {
                } else if i < p {
                    assert(names@[j] == before[j - 1]);
                    lemma_seq_lt_transitive(names@[i]@, names@[p as int]@, names@[j]@);
                } else if i == p {
                    assert(names@[j] == before[j - 1]);
                } else {
                    assert(names@[i] == before[i - 1]);
                    assert(names@[j] == before[j - 1]);
                }
            }
            assert forall|t: Seq<char>| names_of(names@).contains(t) <==> names_of(
                before,
            ).insert(s@).contains(t) by {
                if names_of(names@).contains(t) {
                    let i = choose|i: int| 0 <= i < names@.len() && names@[i]@ == t;
                    if i < p {
                        assert(before[i]@ == t);
                    } else if i > p {
                        assert(before[i - 1]@ == t);
                    }
                }
                if names_of(before).contains(t) {
                    let i = choose|i: int| 0 <= i < before.len() && before[i]@ == t;
                    if i < p {
                        assert(names@[i]@ == t);
                    } else {
                        assert(names@[i + 1]@ == t);
                    }
                }
                if t == s@ {
                    assert(names@[p as int]@ == t);
                }
            }
            assert(names_of(names@) =~= names_of(before).insert(s@));
        }
        *self = NameSet { names };
        true
    }

    /// Removes `s`; tells whether it was present before.
    pub fn remove(&mut self, s: &str) -> (r: bool)
        ensures
            final(self)@ == old(self)@.remove(s@),
            r == old(self)@.contains(s@),
    {
        let (p, found) = self.position(s);
        if !found {
            assert(self@.remove(s@) =~= self@);
            return false;
        }
        proof {
            use_type_invariant(&*self);
        }
        let ghost before = self.names@;
        let mut names = self.names.clone();
        assert(names@ == before);
        names.remove(p);
        proof {
            assert forall|i: int, j: int| 0 <= i < j < names@.len() implies seq_lt(
                #[trigger] names@[i]@,
                #[trigger] names@[j]@,
            ) by {
                if i < p && j >= p {
                    assert(names@[j] == before[j + 1]);
                } else if i >= p {
                    assert(names@[i] == before[i + 1]);
                    assert(names@[j] == before[j + 1]);
                }
            }
            assert forall|t: Seq<char>| names_of(names@).contains(t) <==> names_of(
                before,
            ).remove(s@).contains(t) by {
                if names_of(names@).contains(t) {
                    let i = choose|i: int| 0 <= i < names@.len() && names@[i]@ == t;
                    if i < p {
                        assert(before[i]@ == t);
                        assert(seq_lt(t, s@));
                        lemma_seq_lt_irreflexive(t);
                    } else {
                        assert(before[i + 1]@ == t);
                        assert(seq_lt(s@, t));
                        lemma_seq_lt_irreflexive(t);
                    }
                }
                if names_of(before).remove(s@).contains(t) {
                    let i = choose|i: int| 0 <= i < before.len() && before[i]@ == t;
                    if i < p {
                        assert(names@[i]@ == t);
                    } else {
                        assert(i != p);
                        assert(names@[i - 1]@ == t);
                    }
                }
            }
            assert(names_of(names@) =~= names_of(before).remove(s@));
        }
        *self = NameSet { names };
        true
    }

    /// The least name, as `BTreeSet::first` gives it.
    pub fn first(&self) -> (r: Option<&String>)
        ensures
            r is None <==> self@ == Set::<Seq<char>>::empty(),
            r matches Some(s) ==> is_least(s@, self@),
    {
        proof {
            use_type_invariant(self);
        }
        if self.names.len() == 0 {
            assert(self@ =~= Set::<Seq<char>>::empty());
            None
        } else {
            proof {
                assert(self@.contains(self.names@[0]@));
                assert forall|t: Seq<char>| self@.contains(t) && t != self.names@[0]@ implies seq_lt(
                    self.names@[0]@,
                    t,
                ) by {
                    let i = choose|i: int| 0 <= i < self.names@.len() && self.names@[i]@ == t;
                    assert(i != 0);
                }
            }
            Some(&self.names[0])
        }
    }

    /// The names of `self` that are not in `other`, as `BTreeSet::difference` gives them.
    pub fn difference(&self, other: &NameSet) -> (r: NameSet)
        ensures
            r@ == self@.difference(other@),
    {
        let mut r = NameSet::new();
        let mut i: usize = 0;
        while i < self.names.len()
            invariant
                i <= self.names@.len(),
                r@ == names_of(self.names@.take(i as int)).difference(other@),
            decreases self.names@.len() - i,
        {
            let name = &self.names[i];
            if !other.contains(name.as_str()) {
                r.insert(name.clone());
            }
            proof {
                lemma_names_of_take_next(self.names@, i as int);
            }
            i = i + 1;
        }
        assert(self.names@.take(i as int) =~= self.names@);
        r
    }

    /// All names of `self` and of `other`.
    pub fn union(&self, other: &NameSet) -> (r: NameSet)
        ensures
            r@ == self@.union(other@),
    {
        let mut r = self.clone_set();
        let mut i: usize = 0;
        while i < other.names.len()
            invariant
                i <= other.names@.len(),
                r@ == self@.union(names_of(other.names@.take(i as int))),
            decreases other.names@.len() - i,
        {
            r.insert(other.names[i].clone());
            proof {
                lemma_names_of_take_next(other.names@, i as int);
            }
            i = i + 1;
        }
        proof {
            assert(other.names@.take(i as int) =~= other.names@);
            assert(names_of(other.names@.take(0)) =~= Set::<Seq<char>>::empty());
        }
        r
    }

    /// A copy of the set, with the same names.
    pub fn clone_set(&self) -> (r: NameSet)
        ensures
            r@ == self@,
    {
        let mut r = NameSet::new();
        let mut i: usize = 0;
        while i < self.names.len()
            invariant
                i <= self.names@.len(),
                r@ == names_of(self.names@.take(i as int)),
            decreases self.names@.len() - i,
        {
            r.insert(self.names[i].clone());
            proof {
                lemma_names_of_take_next(self.names@, i as int);
            }
            i = i + 1;
        }
        proof {
            assert(self.names@.take(i as int) =~= self.names@);
            assert(names_of(self.names@.take(0)) =~= Set::<Seq<char>>::empty());
        }
        r
    }

    /// The set of the given names; repeated names count once.
    pub fn from_vec(v: Vec<String>) -> (r: NameSet)
        ensures
            r@ == names_of(v@),
    {
        let mut r = NameSet::new();
        let mut i: usize = 0;
        while i < v.len()
            invariant
                i <= v@.len(),
                r@ == names_of(v@.take(i as int)),
            decreases v@.len() - i,
        {
            r.insert(v[i].clone());
            proof {
                lemma_names_of_take_next(v@, i as int);
            }
            i = i + 1;
        }
        proof {
            assert(v@.take(i as int) =~= v@);
            assert(names_of(v@.take(0)) =~= Set::<Seq<char>>::empty());
        }
        r
    }

    /// Whether both sets hold the same names.
    pub fn same(&self, other: &NameSet) -> (r: bool)
        ensures
            r == (self@ == other@),
    {
        let a = self.difference(other);
        let b = other.difference(self);
        let r = a.is_empty() && b.is_empty();
        proof {
            if r {
                assert forall|t: Seq<char>| self@.contains(t) <==> other@.contains(t) by {
                    if self@.contains(t) && !other@.contains(t) {
                        assert(a@.contains(t));
                    }
                    if other@.contains(t) && !self@.contains(t) {
                        assert(b@.contains(t));
                    }
                }
                assert(self@ =~= other@);
            } else {
                if self@ == other@ {
                    assert(a@ =~= Set::<Seq<char>>::empty());
                    assert(b@ =~= Set::<Seq<char>>::empty());
                }
            }
        }
        r
    }
}

pub proof fn lemma_names_of_take_next(v: Seq<String>, i: int)
    requires
        0 <= i < v.len(),
    ensures
        names_of(v.take(i + 1)) == names_of(v.take(i)).insert(v[i]@),
{
    let a = v.take(i + 1);
    let b = v.take(i);
    assert forall|t: Seq<char>| names_of(a).contains(t) <==> names_of(b).insert(v[i]@).contains(t) by {
        if names_of(a).contains(t) {
            let k = choose|k: int| 0 <= k < a.len() && a[k]@ == t;
            if k < i {
                assert(b[k]@ == t);
            }
        }
        if names_of(b).contains(t) {
            let k = choose|k: int| 0 <= k < b.len() && b[k]@ == t;
            assert(a[k]@ == t);
        }
        if t == v[i]@ {
            assert(a[i]@ == t);
        }
    }
    assert(names_of(a) =~= names_of(b).insert(v[i]@));
}

pub proof fn lemma_sorted_distinct_len(o: Seq<Seq<char>>)
    requires
        forall|i: int, j: int| 0 <= i < j < o.len() ==> seq_lt(#[trigger] o[i], #[trigger] o[j]),
    ensures
        o.to_set().len() == o.len(),
        o.to_set().finite(),
{
    assert forall|i: int, j: int| 0 <= i < o.len() && 0 <= j < o.len() && i != j implies o[i]
        != o[j] by {
        if i < j {
            assert(seq_lt(o[i], o[j]));
            lemma_seq_lt_irreflexive(o[i]);
        } else {
            assert(seq_lt(o[j], o[i]));
            lemma_seq_lt_irreflexive(o[j]);
        }
    }
    assert(o.no_duplicates());
    o.unique_seq_to_set();
}

} // verus!
