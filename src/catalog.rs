//! The catalog of network names already reported in this session.
use vstd::prelude::*;

verus! {

/// Whether a name is new to a catalog that holds `known`.
pub open spec fn first_sighting(known: Set<Seq<char>>, name: Seq<char>) -> bool {
    !known.contains(name)
}

/// What a catalog that holds `known` holds after it has observed `name`.
pub open spec fn after_observe(known: Set<Seq<char>>, name: Seq<char>) -> Set<Seq<char>> {
    known.insert(name)
}

/// A duplicate-free collection of network names. It only grows: names are
/// tested and inserted, never removed.
pub struct Catalog {
    names: Vec<String>,
}

impl View for Catalog {
    type V = Set<Seq<char>>;

    closed spec fn view(&self) -> Set<Seq<char>> {
        self.names_view().to_set()
    }
}

impl Catalog {
    /// The stored names, in the order they were first observed.
    closed spec fn names_view(&self) -> Seq<Seq<char>> {
        self.names@.map_values(|s: String| s@)
    }

    /// No name is stored twice.
    pub closed spec fn wf(&self) -> bool {
        self.names_view().no_duplicates()
    }

    /// An empty catalog.
    pub fn new() -> (r: Catalog)
        ensures
            r.wf(),
            r@ == Set::<Seq<char>>::empty(),
    {
        let r = Catalog { names: Vec::new() };
        assert(r.names_view() =~= Seq::<Seq<char>>::empty());
        assert(r@ =~= Set::<Seq<char>>::empty());
        r
    }

    fn holds(&self, name: &String) -> (r: bool)
        ensures
            r == self@.contains(name@),
    {
        let mut i: usize = 0;
        while i < self.names.len()
            invariant
                forall|j: int| 0 <= j < i ==> #[trigger] self.names_view()[j] != name@,
            decreases self.names@.len() - i,
        {
            if self.names[i] == *name {
                assert(self.names_view()[i as int] == name@);
                return true;
            }
            i = i + 1;
        }
        false
    }

    /// Whether `name` has been observed; names compare character for character.
    pub fn contains(&self, name: &str) -> (r: bool)
        ensures
            r == self@.contains(name@),
    {
        let owned = name.to_owned();
        self.holds(&owned)
    }

    /// The number of distinct names observed.
    pub fn len(&self) -> (r: usize)
        requires
            self.wf(),
        ensures
            r == self@.len(),
    {
        proof {
            self.names_view().unique_seq_to_set();
        }
        self.names.len()
    }

    /// Records a sighting of `name`. Returns `true` exactly when the name was
    /// not there before, in which case it is added; otherwise nothing changes.
    pub fn observe(&mut self, name: &str) -> (r: bool)
        requires
            old(self).wf(),
        ensures
            final(self).wf(),
            r == first_sighting(old(self)@, name@),
            final(self)@ == after_observe(old(self)@, name@),
    {
        let owned = name.to_owned();
        if self.holds(&owned) {
            assert(old(self)@.insert(name@) =~= old(self)@);
            false
        } else {
            let ghost before = self.names_view();
            self.names.push(owned);
            assert(self.names_view() =~= before.push(name@));
            assert(!before.contains(name@));
            assert forall|i: int, j: int|
                0 <= i < self.names_view().len() && 0 <= j < self.names_view().len() && i != j
                implies self.names_view()[i] != self.names_view()[j] by {
                if i < before.len() && j < before.len() {
                } else if i < before.len() {
                    assert(before.contains(before[i]));
                } else if j < before.len() {
                    assert(before.contains(before[j]));
                }
            }
            proof {
                Seq::lemma_to_set_insert_commutes(before, name@);
                assert(before + seq![name@] =~= before.push(name@));
            }
            assert(self@ =~= old(self)@.insert(name@));
            true
        }
    }
}

/// What a catalog that holds `known` holds after observing `names` in order.
pub open spec fn after_observe_all(known: Set<Seq<char>>, names: Seq<Seq<char>>) -> Set<Seq<char>>
    decreases names.len(),
{
    if names.len() == 0 {
        known
    } else {
        after_observe(after_observe_all(known, names.drop_last()), names.last())
    }
}

proof fn lemma_after_observe_all_contains(known: Set<Seq<char>>, names: Seq<Seq<char>>, x: Seq<char>)
    ensures
        after_observe_all(known, names).contains(x) <==> known.contains(x) || exists|j: int|
            0 <= j < names.len() && names[j] == x,
    decreases names.len(),
{
    if names.len() > 0 {
        let d = names.drop_last();
        lemma_after_observe_all_contains(known, d, x);
        if exists|j: int| 0 <= j < d.len() && d[j] == x {
            let j = choose|j: int| 0 <= j < d.len() && d[j] == x;
            assert(names[j] == x);
        }
        if exists|j: int| 0 <= j < names.len() && names[j] == x {
            let j = choose|j: int| 0 <= j < names.len() && names[j] == x;
            if j < d.len() {
                assert(d[j] == x);
            }
        }
    }
}

/// In a session that starts with an empty catalog and observes `names` in
/// order, the observation at position `i` returns `true` exactly when no
/// earlier observation had the same name: the first call with a name returns
/// `true`, every later one with that name returns `false`, and calls with
/// other names have no effect on the outcome.
pub proof fn law_observe_reports_once(names: Seq<Seq<char>>, i: int)
    requires
        0 <= i < names.len(),
    ensures
        first_sighting(after_observe_all(Set::empty(), names.take(i)), names[i]) <==> forall|j: int|
            0 <= j < i ==> names[j] != names[i],
{
    lemma_after_observe_all_contains(Set::empty(), names.take(i), names[i]);
    if exists|j: int| 0 <= j < i && names[j] == names[i] {
        let j = choose|j: int| 0 <= j < i && names[j] == names[i];
        assert(names.take(i)[j] == names[i]);
    }
}

} // verus!
