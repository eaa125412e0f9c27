//! The per-feed record of titles already observed: a bounded,
//! insertion-ordered set with first-in, first-out eviction.

use linked_hash_set::LinkedHashSet;
use vstd::prelude::*;

verus! {

/// `linked_hash_set::LinkedHashSet`, held as an opaque value; what it holds
/// is `linked_titles`.
#[verifier::external_type_specification]
#[verifier::external_body]
#[verifier::reject_recursive_types(T)]
#[verifier::reject_recursive_types(S)]
pub struct ExLinkedHashSet<T, S>(LinkedHashSet<T, S>);

/// The titles held by a set, oldest first (the set's iteration order).
pub uninterp spec fn linked_titles(s: LinkedHashSet<String>) -> Seq<Seq<char>>;

/// Relies on `LinkedHashSet::new`: the new set is empty.
#[verifier::external_body]
fn linked_new() -> (r: LinkedHashSet<String>)
    ensures
        linked_titles(r) == Seq::<Seq<char>>::empty(),
{
    LinkedHashSet::new()
}

/// Relies on `LinkedHashSet::len`: the number of values held.
#[verifier::external_body]
fn linked_len(s: &LinkedHashSet<String>) -> (r: usize)
    ensures
        r == linked_titles(*s).len(),
{
    s.len()
}

/// Relies on `LinkedHashSet::contains`: whether an equal value is held.
#[verifier::external_body]
fn linked_contains(s: &LinkedHashSet<String>, t: &str) -> (r: bool)
    ensures
        r == linked_titles(*s).contains(t@),
{
    s.contains(t)
}

/// Relies on `LinkedHashSet::insert_if_absent`: a value not yet held is
/// placed at the end of the order; a value already held leaves the set,
/// and its order, untouched.
#[verifier::external_body]
fn linked_insert_if_absent(s: &mut LinkedHashSet<String>, t: String) -> (r: bool)
    requires
        linked_titles(*old(s)).len() < usize::MAX,
    ensures
        r == !linked_titles(*old(s)).contains(t@),
        r ==> linked_titles(*final(s)) == linked_titles(*old(s)).push(t@),
        !r ==> linked_titles(*final(s)) == linked_titles(*old(s)),
{
    s.insert_if_absent(t)
}

/// Relies on `LinkedHashSet::pop_front`: removes and returns the oldest value.
#[verifier::external_body]
fn linked_pop_front(s: &mut LinkedHashSet<String>) -> (r: Option<String>)
    ensures
        linked_titles(*old(s)).len() == 0 ==> r is None && linked_titles(*final(s))
            == linked_titles(*old(s)),
        linked_titles(*old(s)).len() > 0 ==> r is Some && r->Some_0@ == linked_titles(
            *old(s),
        )[0] && linked_titles(*final(s)) == linked_titles(*old(s)).drop_first(),
{
    s.pop_front()
}

/// Relies on `LinkedHashSet::iter`: visits the values oldest first.
#[verifier::external_body]
fn linked_to_vec(s: &LinkedHashSet<String>) -> (r: Vec<String>)
    ensures
        r@.map_values(|t: String| t@) == linked_titles(*s),
{
    s.iter().cloned().collect()
}

/// `s` with `t` added at the newest end, unless `t` is already there.
pub open spec fn insert_title(s: Seq<Seq<char>>, t: Seq<char>) -> Seq<Seq<char>> {
    if s.contains(t) {
        s
    } else {
        s.push(t)
    }
}

/// `s` after inserting each of `ts` in turn.
pub open spec fn insert_titles(s: Seq<Seq<char>>, ts: Seq<Seq<char>>) -> Seq<Seq<char>>
    decreases ts.len(),
{
    if ts.len() == 0 {
        s
    } else {
        insert_title(insert_titles(s, ts.drop_last()), ts.last())
    }
}

/// `s` with its oldest entries dropped until at most `max` remain.
pub open spec fn evict_to(s: Seq<Seq<char>>, max: nat) -> Seq<Seq<char>> {
    if s.len() > max {
        s.subrange(s.len() - max, s.len() as int)
    } else {
        s
    }
}

/// The entries that `evict_to(s, max)` drops, oldest first.
pub open spec fn evicted_by(s: Seq<Seq<char>>, max: nat) -> Seq<Seq<char>> {
    if s.len() > max {
        s.subrange(0, s.len() - max)
    } else {
        Seq::empty()
    }
}

/// Inserting a batch adds exactly the titles of the batch that are missing.
pub proof fn lemma_insert_titles_contents(s: Seq<Seq<char>>, ts: Seq<Seq<char>>)
    ensures
        forall|t: Seq<char>| #[trigger]
            insert_titles(s, ts).contains(t) <==> s.contains(t) || ts.contains(t),
    decreases ts.len(),
{
    if ts.len() > 0 {
        let prev = ts.drop_last();
        lemma_insert_titles_contents(s, prev);
        let r = insert_titles(s, prev);
        assert forall|t: Seq<char>| #[trigger]
            insert_titles(s, ts).contains(t) <==> s.contains(t) || ts.contains(t) by {
            if insert_title(r, ts.last()).contains(t) && !r.contains(t) {
                if !r.contains(ts.last()) {
                    let j = choose|j: int| 0 <= j < r.push(ts.last()).len() && r.push(ts.last())[j] == t;
                    assert(j == r.len());
                }
                assert(ts[ts.len() - 1] == t);
            }
            if ts.contains(t) && !prev.contains(t) {
                let j = choose|j: int| 0 <= j < ts.len() && ts[j] == t;
                if j < ts.len() - 1 {
                    assert(prev[j] == t);
                }
                assert(r.push(ts.last())[r.len() as int] == t);
            }
            if prev.contains(t) {
                let j = choose|j: int| 0 <= j < prev.len() && prev[j] == t;
                assert(ts[j] == t);
            }
            if r.contains(t) && !r.contains(ts.last()) {
                let j = choose|j: int| 0 <= j < r.len() && r[j] == t;
                assert(r.push(ts.last())[j] == t);
            }
        }
    }
}

/// Inserting a batch keeps titles unique and adds at most one per batch entry.
pub proof fn lemma_insert_titles_unique(s: Seq<Seq<char>>, ts: Seq<Seq<char>>)
    requires
        s.no_duplicates(),
    ensures
        insert_titles(s, ts).no_duplicates(),
        insert_titles(s, ts).len() <= s.len() + ts.len(),
    decreases ts.len(),
{
    if ts.len() > 0 {
        let prev = ts.drop_last();
        lemma_insert_titles_unique(s, prev);
        let r = insert_titles(s, prev);
        if !r.contains(ts.last()) {
            assert forall|i: int, j: int|
                0 <= i < r.push(ts.last()).len() && 0 <= j < r.push(ts.last()).len() && i != j
                    implies r.push(ts.last())[i] != r.push(ts.last())[j] by {
                if i == r.len() {
                    assert(r[j] == r.push(ts.last())[j]);
                } else if j == r.len() {
                    assert(r[i] == r.push(ts.last())[i]);
                }
            }
        }
    }
}

/// The titles a feed has already observed, oldest first, each at most once.
#[derive(Debug)]
pub struct SeenSet {
    titles: LinkedHashSet<String>,
}

impl View for SeenSet {
    type V = Seq<Seq<char>>;

    closed spec fn view(&self) -> Seq<Seq<char>> {
        linked_titles(self.titles)
    }
}

impl SeenSet {
    #[verifier::type_invariant]
    pub(crate) closed spec fn unique(self) -> bool {
        linked_titles(self.titles).no_duplicates()
    }

    /// An empty set.
    pub fn new() -> (r: SeenSet)
        ensures
            r@ == Seq::<Seq<char>>::empty(),
    {
        SeenSet { titles: linked_new() }
    }

    /// Moves the titles out, leaving the set empty.
    fn take_titles(&mut self) -> (r: LinkedHashSet<String>)
        ensures
            linked_titles(r) == old(self)@,
            linked_titles(r).no_duplicates(),
            final(self)@ == Seq::<Seq<char>>::empty(),
    {
        proof {
            use_type_invariant(&*self);
        }
        let mut t = linked_new();
        std::mem::swap(&mut t, &mut self.titles);
        t
    }

    /// The number of titles held.
    pub fn size(&self) -> (r: usize)
        ensures
            r == self@.len(),
    {
        linked_len(&self.titles)
    }

    /// Whether `title` is held.
    pub fn contains(&self, title: &str) -> (r: bool)
        ensures
            r == self@.contains(title@),
    {
        linked_contains(&self.titles, title)
    }

    /// Adds `title` as the newest entry; a title already held keeps its place.
    /// Returns whether the title was new.
    pub fn insert(&mut self, title: String) -> (r: bool)
        requires
            old(self)@.len() < usize::MAX,
        ensures
            r == !old(self)@.contains(title@),
            final(self)@ == insert_title(old(self)@, title@),
    {
        let mut t = self.take_titles();
        let r = linked_insert_if_absent(&mut t, title);
        self.titles = t;
        r
    }

    /// Drops the oldest titles until at most `max` remain, and returns the
    /// dropped titles, oldest first.
    pub fn evict_excess(&mut self, max: usize) -> (r: Vec<String>)
        ensures
            final(self)@ == evict_to(old(self)@, max as nat),
            r@.map_values(|t: String| t@) == evicted_by(old(self)@, max as nat),
    {
        let mut t = self.take_titles();
        let ghost before = linked_titles(t);
        let mut evicted: Vec<String> = Vec::new();
        while linked_len(&t) > max
            invariant
                linked_titles(t).len() >= max ==> before == evicted@.map_values(|e: String| e@)
                    + linked_titles(t),
                before.len() <= max ==> evicted@.len() == 0 && linked_titles(t) == before,
                before.len() > max ==> linked_titles(t).len() >= max,
                linked_titles(t).no_duplicates(),
            decreases linked_titles(t).len(),
        {
            let e = linked_pop_front(&mut t);
            match e {
                Some(e) => evicted.push(e),
                None => {},
            }
        }
        proof {
            let ev = evicted@.map_values(|e: String| e@);
            if before.len() > max {
                assert(linked_titles(t) =~= before.subrange(before.len() - max, before.len() as int));
                assert(ev =~= before.subrange(0, before.len() - max));
            } else {
                assert(ev =~= Seq::<Seq<char>>::empty());
            }
        }
        self.titles = t;
        evicted
    }

    /// The titles held, oldest first.
    pub fn titles(&self) -> (r: Vec<String>)
        ensures
            r@.map_values(|t: String| t@) == self@,
    {
        linked_to_vec(&self.titles)
    }
}

} // verus!
