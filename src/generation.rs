use vstd::prelude::*;

use crate::time::{Timestamp, spec_is_before};

verus! {

/// Where a generation's closure is kept.
#[derive(Clone, Copy, Debug, PartialEq, Eq, Structural)]
pub enum GenerationStorage {
    /// On the managed host itself.
    Machine,
    /// Only on the deployer, as a local backup.
    Deployer,
    /// On a pushing cache; not available in this version.
    Pusher,
}

/// A historical snapshot of a host's system, usable as a rollback target.
#[derive(Debug)]
pub struct Generation {
    pub id: String,
    pub datetime: Timestamp,
    pub store_path: String,
    pub current: bool,
    pub location: GenerationStorage,
}

pub struct GenerationModel {
    pub id: Seq<char>,
    pub datetime: Timestamp,
    pub store_path: Seq<char>,
    pub current: bool,
    pub location: GenerationStorage,
}

impl View for Generation {
    type V = GenerationModel;

    open spec fn view(&self) -> GenerationModel {
        GenerationModel {
            id: self.id@,
            datetime: self.datetime,
            store_path: self.store_path@,
            current: self.current,
            location: self.location,
        }
    }
}

pub open spec fn gens_view(v: Seq<Generation>) -> Seq<GenerationModel> {
    v.map_values(|g: Generation| g@)
}

/// Puts `g` before the first entry that is strictly later than it.
pub open spec fn insert_by_time(s: Seq<GenerationModel>, g: GenerationModel) -> Seq<GenerationModel>
    decreases s.len(),
{
    if s.len() == 0 {
        seq![g]
    } else if spec_is_before(g.datetime, s[0].datetime) {
        seq![g] + s
    } else {
        seq![s[0]] + insert_by_time(s.drop_first(), g)
    }
}

/// `s` ordered by time; entries with equal times keep their order, as `sort_by_key` does.
pub open spec fn sort_by_time(s: Seq<GenerationModel>) -> Seq<GenerationModel>
    decreases s.len(),
{
    if s.len() == 0 {
        s
    } else {
        insert_by_time(sort_by_time(s.drop_last()), s.last())
    }
}

/// A deployer-side backup, as it is listed among the host's rollback targets.
pub open spec fn as_deployer_backup(g: GenerationModel) -> GenerationModel {
    GenerationModel { current: false, location: GenerationStorage::Deployer, ..g }
}

pub open spec fn has_store_path(s: Seq<GenerationModel>, p: Seq<char>) -> bool {
    exists|i: int| 0 <= i < s.len() && s[i].store_path == p
}

/// The local backups whose closure the host does not hold itself, marked as
/// deployer-held and not current.
pub open spec fn local_only(
    on_machine: Seq<GenerationModel>,
    local: Seq<GenerationModel>,
) -> Seq<GenerationModel>
    decreases local.len(),
{
    if local.len() == 0 {
        local
    } else {
        let rest = local_only(on_machine, local.drop_last());
        if has_store_path(on_machine, local.last().store_path) {
            rest
        } else {
            rest.push(as_deployer_backup(local.last()))
        }
    }
}

/// All rollback targets: the local-only backups, then the host's own list, ordered by time.
pub open spec fn merged_generations(
    on_machine: Seq<GenerationModel>,
    local: Seq<GenerationModel>,
) -> Seq<GenerationModel> {
    sort_by_time(local_only(on_machine, local) + on_machine)
}

proof fn lemma_insert_at_first_later(s: Seq<GenerationModel>, g: GenerationModel, j: int)
    requires
        0 <= j <= s.len(),
        forall|k: int| 0 <= k < j ==> !spec_is_before(g.datetime, #[trigger] s[k].datetime),
        j < s.len() ==> spec_is_before(g.datetime, s[j].datetime),
    ensures
        insert_by_time(s, g) == s.insert(j, g),
    decreases s.len(),
{
    if s.len() == 0 {
        assert(s.insert(j, g) =~= seq![g]);
    } else if j == 0 {
        assert(s.insert(j, g) =~= seq![g] + s);
    } else {
        let t = s.drop_first();
        assert forall|k: int| 0 <= k < j - 1 implies !spec_is_before(g.datetime, #[trigger] t[k].datetime) by {
            assert(t[k] == s[k + 1]);
        }
        lemma_insert_at_first_later(t, g, j - 1);
        assert(s.insert(j, g) =~= seq![s[0]] + t.insert(j - 1, g));
    }
}

/// Copies a generation, with all its fields.
pub fn copy_generation(g: &Generation) -> (r: Generation)
    ensures
        r@ == g@,
{
    Generation {
        id: g.id.clone(),
        datetime: g.datetime,
        store_path: g.store_path.clone(),
        current: g.current,
        location: g.location,
    }
}

/// Orders generations by time, keeping the order of those with equal times.
pub fn sort_generations(v: Vec<Generation>) -> (r: Vec<Generation>)
    ensures
        gens_view(r@) == sort_by_time(gens_view(v@)),
{
    let ghost orig = gens_view(v@);
    let mut rest = v;
    let mut out: Vec<Generation> = Vec::new();
    let n = rest.len();
    let mut i: usize = 0;
    assert(orig.take(0) =~= Seq::<GenerationModel>::empty());
    while i < n
        invariant
            n == orig.len(),
            i <= n,
            gens_view(rest@) == orig.skip(i as int),
            gens_view(out@) == sort_by_time(orig.take(i as int)),
        decreases n - i,
    {
        let ghost before_rest = rest@;
        assert(gens_view(before_rest).len() == before_rest.len());
        assert(gens_view(before_rest)[0] == orig[i as int]);
        let g = rest.remove(0);
        proof {
            assert(g == before_rest[0]);
            assert(g@ == orig[i as int]);
            assert forall|k: int| 0 <= k < rest@.len() implies #[trigger] gens_view(rest@)[k] == orig.skip(i + 1)[k] by {
                assert(rest@[k] == before_rest[k + 1]);
                assert(gens_view(before_rest)[k + 1] == orig.skip(i as int)[k + 1]);
            }
            assert(gens_view(rest@) =~= orig.skip(i + 1));
        }
        let mut j: usize = 0;
        while j < out.len() && !g.datetime.is_before(&out[j].datetime)
            invariant
                j <= out@.len(),
                forall|k: int| 0 <= k < j ==> !spec_is_before(g.datetime, #[trigger] out@[k].datetime),
            decreases out@.len() - j,
        {
            j = j + 1;
        }
        proof {
            let s = gens_view(out@);
            assert forall|k: int| 0 <= k < j implies !spec_is_before(g@.datetime, #[trigger] s[k].datetime) by {
                assert(s[k] == out@[k]@);
            }
            if j < out@.len() {
                assert(s[j as int] == out@[j as int]@);
            }
            lemma_insert_at_first_later(s, g@, j as int);
            assert(orig.take(i + 1).drop_last() =~= orig.take(i as int));
        }
        let ghost before = out@;
        out.insert(j, g);
        proof {
            assert(gens_view(out@) =~= gens_view(before).insert(j as int, orig[i as int]));
        }
        i = i + 1;
    }
    assert(orig.take(n as int) =~= orig);
    out
}

/// Whether some generation of `v` has the closure `p`.
fn holds_store_path(v: &Vec<Generation>, p: &String) -> (r: bool)
    ensures
        r == has_store_path(gens_view(v@), p@),
{
    let mut i: usize = 0;
    while i < v.len()
        invariant
            i <= v@.len(),
            forall|k: int| 0 <= k < i ==> (#[trigger] v@[k]).store_path@ != p@,
        decreases v@.len() - i,
    {
        if v[i].store_path == *p {
            assert(gens_view(v@)[i as int].store_path == p@);
            return true;
        }
        i = i + 1;
    }
    proof {
        if has_store_path(gens_view(v@), p@) {
            let k = choose|k: int| 0 <= k < v@.len() && gens_view(v@)[k].store_path == p@;
            assert(v@[k].store_path@ == p@);
        }
    }
    false
}

/// Merges the generations that the host reports with the deployer's local backups of
/// it: a backup whose closure the host also holds is dropped, the other backups are
/// marked deployer-held and not current, and the whole is ordered by time.
pub fn merge_generations(on_machine: Vec<Generation>, stored_locally: Vec<Generation>) -> (r: Vec<Generation>)
    ensures
        gens_view(r@) == merged_generations(gens_view(on_machine@), gens_view(stored_locally@)),
{
    let ghost m = gens_view(on_machine@);
    let ghost l = gens_view(stored_locally@);
    let mut kept: Vec<Generation> = Vec::new();
    let mut i: usize = 0;
    assert(l.take(0) =~= Seq::<GenerationModel>::empty());
    while i < stored_locally.len()
        invariant
            i <= stored_locally@.len(),
            m == gens_view(on_machine@),
            l == gens_view(stored_locally@),
            gens_view(kept@) == local_only(m, l.take(i as int)),
        decreases stored_locally@.len() - i,
    {
        let g = &stored_locally[i];
        let held = holds_store_path(&on_machine, &g.store_path);
        proof {
            assert(l.take(i + 1).drop_last() =~= l.take(i as int));
            assert(l.take(i + 1).last() == g@);
        }
        if !held {
            let mut c = copy_generation(g);
            c.current = false;
            c.location = GenerationStorage::Deployer;
            let ghost before = kept@;
            kept.push(c);
            proof {
                assert(gens_view(kept@) =~= gens_view(before).push(as_deployer_backup(g@)));
            }
        }
        i = i + 1;
    }
    assert(l.take(i as int) =~= l);
    let ghost k = gens_view(kept@);
    let mut all = kept;
    let mut on_machine = on_machine;
    all.append(&mut on_machine);
    assert(gens_view(all@) =~= k + m);
    sort_generations(all)
}

/// How many entries of `s` satisfy `f`.
pub open spec fn count_where(s: Seq<GenerationModel>, f: spec_fn(GenerationModel) -> bool) -> nat
    decreases s.len(),
{
    if s.len() == 0 {
        0
    } else {
        (if f(s[0]) { 1nat } else { 0nat }) + count_where(s.drop_first(), f)
    }
}

/// Entries whose closure is `p`.
pub open spec fn path_is(p: Seq<char>) -> spec_fn(GenerationModel) -> bool {
    |g: GenerationModel| g.store_path == p
}

proof fn lemma_count_one(x: GenerationModel, f: spec_fn(GenerationModel) -> bool)
    ensures
        count_where(seq![x], f) == (if f(x) { 1nat } else { 0nat }),
{
    let s = seq![x];
    assert(s.drop_first() =~= Seq::<GenerationModel>::empty());
    assert(s[0] == x);
    assert(count_where(s.drop_first(), f) == 0);
    assert(count_where(s, f) == (if f(s[0]) { 1nat } else { 0nat }) + count_where(s.drop_first(), f));
}

proof fn lemma_count_concat(a: Seq<GenerationModel>, b: Seq<GenerationModel>, f: spec_fn(GenerationModel) -> bool)
    ensures
        count_where(a + b, f) == count_where(a, f) + count_where(b, f),
    decreases a.len(),
{
    if a.len() == 0 {
        assert(a + b =~= b);
    } else {
        assert((a + b).drop_first() =~= a.drop_first() + b);
        lemma_count_concat(a.drop_first(), b, f);
    }
}

proof fn lemma_count_insert(s: Seq<GenerationModel>, g: GenerationModel, f: spec_fn(GenerationModel) -> bool)
    ensures
        count_where(insert_by_time(s, g), f) == count_where(s, f) + (if f(g) { 1nat } else { 0nat }),
    decreases s.len(),
{
    if s.len() == 0 {
        lemma_count_one(g, f);
    } else if spec_is_before(g.datetime, s[0].datetime) {
        assert((seq![g] + s).drop_first() =~= s);
        assert((seq![g] + s)[0] == g);
    } else {
        let t = seq![s[0]] + insert_by_time(s.drop_first(), g);
        assert(t.drop_first() =~= insert_by_time(s.drop_first(), g));
        assert(t[0] == s[0]);
        lemma_count_insert(s.drop_first(), g, f);
    }
}

proof fn lemma_count_sort(s: Seq<GenerationModel>, f: spec_fn(GenerationModel) -> bool)
    ensures
        count_where(sort_by_time(s), f) == count_where(s, f),
    decreases s.len(),
{
    if s.len() > 0 {
        lemma_count_sort(s.drop_last(), f);
        lemma_count_insert(sort_by_time(s.drop_last()), s.last(), f);
        lemma_count_concat(s.drop_last(), seq![s.last()], f);
        assert(s.drop_last() + seq![s.last()] =~= s);
        lemma_count_one(s.last(), f);
    }
}

proof fn lemma_count_local_only(m: Seq<GenerationModel>, l: Seq<GenerationModel>, p: Seq<char>)
    requires
        has_store_path(m, p),
    ensures
        count_where(local_only(m, l), path_is(p)) == 0,
    decreases l.len(),
{
    let f = path_is(p);
    if l.len() > 0 {
        lemma_count_local_only(m, l.drop_last(), p);
        let rest = local_only(m, l.drop_last());
        if !has_store_path(m, l.last().store_path) {
            let x = as_deployer_backup(l.last());
            lemma_count_concat(rest, seq![x], f);
            assert(rest.push(x) =~= rest + seq![x]);
            lemma_count_one(x, f);
            assert(x.store_path != p);
        }
    }
}

proof fn lemma_count_single(s: Seq<GenerationModel>, i: int, f: spec_fn(GenerationModel) -> bool)
    requires
        0 <= i < s.len(),
        f(s[i]),
        forall|k: int| 0 <= k < s.len() && k != i ==> !f(#[trigger] s[k]),
    ensures
        count_where(s, f) == 1,
    decreases s.len(),
{
    let t = s.drop_first();
    if i == 0 {
        lemma_count_none(t, f);
    } else {
        assert forall|k: int| 0 <= k < t.len() && k != i - 1 implies !f(#[trigger] t[k]) by {
            assert(t[k] == s[k + 1]);
        }
        lemma_count_single(t, i - 1, f);
    }
}

proof fn lemma_count_none(s: Seq<GenerationModel>, f: spec_fn(GenerationModel) -> bool)
    requires
        forall|k: int| 0 <= k < s.len() ==> !f(#[trigger] s[k]),
    ensures
        count_where(s, f) == 0,
    decreases s.len(),
{
    if s.len() > 0 {
        let t = s.drop_first();
        assert forall|k: int| 0 <= k < t.len() implies !f(#[trigger] t[k]) by {
            assert(t[k] == s[k + 1]);
        }
        lemma_count_none(t, f);
    }
}

proof fn lemma_count_some(s: Seq<GenerationModel>, i: int, f: spec_fn(GenerationModel) -> bool)
    requires
        0 <= i < s.len(),
        f(s[i]),
    ensures
        count_where(s, f) >= 1,
    decreases s.len(),
{
    if i > 0 {
        assert(s.drop_first()[i - 1] == s[i]);
        lemma_count_some(s.drop_first(), i - 1, f);
    }
}

proof fn lemma_count_witness(s: Seq<GenerationModel>, f: spec_fn(GenerationModel) -> bool)
    requires
        count_where(s, f) >= 1,
    ensures
        exists|k: int| 0 <= k < s.len() && f(s[k]),
    decreases s.len(),
{
    if !f(s[0]) {
        lemma_count_witness(s.drop_first(), f);
        let k = choose|k: int| 0 <= k < s.len() - 1 && f(s.drop_first()[k]);
        assert(s[k + 1] == s.drop_first()[k]);
    }
}

/// A generation that the host reports stands exactly once among the merged rollback
/// targets, as the host reported it (its `current` flag and location included), even
/// where local backups hold the same closure. No other entry that the host reports
/// holds that closure.
pub proof fn lemma_merge_keeps_host_entry(
    on_machine: Seq<GenerationModel>,
    local: Seq<GenerationModel>,
    i: int,
)
    requires
        0 <= i < on_machine.len(),
        forall|k: int|
            0 <= k < on_machine.len() && k != i ==> #[trigger] on_machine[k].store_path
                != on_machine[i].store_path,
    ensures
        ({
            let r = merged_generations(on_machine, local);
            let p = on_machine[i].store_path;
            &&& count_where(r, path_is(p)) == 1
            &&& exists|k: int| 0 <= k < r.len() && r[k] == on_machine[i]
        }),
{
    let p = on_machine[i].store_path;
    let x = on_machine[i];
    let by_path = path_is(p);
    let is_x = |g: GenerationModel| g == x;
    let kept = local_only(on_machine, local);
    let all = kept + on_machine;
    assert(has_store_path(on_machine, p));
    lemma_count_local_only(on_machine, local, p);
    lemma_count_single(on_machine, i, by_path);
    lemma_count_concat(kept, on_machine, by_path);
    lemma_count_sort(all, by_path);
    lemma_count_some(on_machine, i, is_x);
    lemma_count_concat(kept, on_machine, is_x);
    lemma_count_sort(all, is_x);
    lemma_count_witness(sort_by_time(all), is_x);
}

/// The generations of `v` that are marked current.
pub open spec fn current_count(v: Seq<GenerationModel>) -> nat
    decreases v.len(),
{
    if v.len() == 0 {
        0
    } else {
        current_count(v.drop_last()) + if v.last().current { 1nat } else { 0nat }
    }
}

/// Why the current generation could not be told.
#[derive(Clone, Copy, Debug, PartialEq, Eq, Structural)]
pub enum CurrentGenerationError {
    /// No generation is marked current.
    NotFound,
    /// More than one generation is marked current.
    Ambiguous,
}

/// The single generation marked current; an error where none or several are.
pub fn current_generation(v: &Vec<Generation>) -> (r: Result<&Generation, CurrentGenerationError>)
    ensures
        current_count(gens_view(v@)) == 0 <==> r == Err::<&Generation, _>(CurrentGenerationError::NotFound),
        current_count(gens_view(v@)) > 1 <==> r == Err::<&Generation, _>(CurrentGenerationError::Ambiguous),
        r matches Ok(g) ==> current_count(gens_view(v@)) == 1 && g.current
            && exists|i: int| 0 <= i < v@.len() && v@[i] == *g,
{
    let ghost s = gens_view(v@);
    let mut found: Option<usize> = None;
    let mut i: usize = 0;
    assert(s.take(0) =~= Seq::<GenerationModel>::empty());
    while i < v.len()
        invariant
            i <= v@.len(),
            s == gens_view(v@),
            current_count(s.take(i as int)) <= 1,
            found is None <==> current_count(s.take(i as int)) == 0,
            found matches Some(k) ==> k < i && v@[k as int].current,
        decreases v@.len() - i,
    {
        proof {
            assert(s.take(i + 1).drop_last() =~= s.take(i as int));
            assert(s.take(i + 1).last() == v@[i as int]@);
        }
        if v[i].current {
            if found.is_some() {
                proof {
                    lemma_current_count_prefix(s, i + 1);
                }
                return Err(CurrentGenerationError::Ambiguous);
            }
            found = Some(i);
        }
        i = i + 1;
    }
    assert(s.take(i as int) =~= s);
    match found {
        Some(k) => Ok(&v[k]),
        None => Err(CurrentGenerationError::NotFound),
    }
}

proof fn lemma_current_count_prefix(s: Seq<GenerationModel>, n: int)
    requires
        0 <= n <= s.len(),
    ensures
        current_count(s.take(n)) <= current_count(s),
    decreases s.len(),
{
    if n < s.len() {
        assert(s.drop_last().take(n) =~= s.take(n));
        lemma_current_count_prefix(s.drop_last(), n);
    } else {
        assert(s.take(n) =~= s);
    }
}

/// The rollback target whose id is `id`.
pub fn find_generation<'a>(v: &'a Vec<Generation>, id: &String) -> (r: Option<&'a Generation>)
    ensures
        r is None <==> forall|i: int| 0 <= i < v@.len() ==> (#[trigger] v@[i]).id@ != id@,
        r matches Some(g) ==> g.id@ == id@ && exists|i: int| 0 <= i < v@.len() && v@[i] == *g,
{
    let mut i: usize = 0;
    while i < v.len()
        invariant
            i <= v@.len(),
            forall|k: int| 0 <= k < i ==> (#[trigger] v@[k]).id@ != id@,
        decreases v@.len() - i,
    {
        if v[i].id == *id {
            return Some(&v[i]);
        }
        i = i + 1;
    }
    None
}

} // verus!
