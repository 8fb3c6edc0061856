//! The solver registry: the collection of solver instances a loaded module
//! exposes, keyed by day.

use vstd::prelude::*;

verus! {

/// A day selection in a module's registration list: one day, or an
/// inclusive run of days.
#[derive(Debug, Clone, Copy)]
pub enum DaySpec {
    /// A single day.
    Single(u8),
    /// Every day from the first to the second, inclusive; an empty run when
    /// the first is larger.
    Range(u8, u8),
}

/// The days a selection denotes, in order.
pub open spec fn spec_days_of(s: DaySpec) -> Seq<u8> {
    match s {
        DaySpec::Single(d) => seq![d],
        DaySpec::Range(lo, hi) => Seq::new(
            (if lo <= hi {
                hi - lo + 1
            } else {
                0
            }) as nat,
            |k: int| (lo + k) as u8,
        ),
    }
}

/// The days a selection list denotes, in order.
pub open spec fn spec_expand_days(specs: Seq<DaySpec>) -> Seq<u8>
    decreases specs.len(),
{
    if specs.len() == 0 {
        Seq::empty()
    } else {
        spec_expand_days(specs.drop_last()) + spec_days_of(specs.last())
    }
}

/// Expands day selections into the listed days, in order: single days as
/// themselves and ranges inclusively.
pub fn expand_day_specs(specs: &Vec<DaySpec>) -> (r: Vec<u8>)
    ensures
        r@ == spec_expand_days(specs@),
{
    let mut r: Vec<u8> = Vec::new();
    let mut i: usize = 0;
    while i < specs.len()
        invariant
            i <= specs@.len(),
            r@ =~= spec_expand_days(specs@.take(i as int)),
        decreases specs@.len() - i,
    {
        proof {
            assert(specs@.take(i + 1).drop_last() =~= specs@.take(i as int));
            assert(specs@.take(i + 1).last() == specs@[i as int]);
        }
        let ghost before = r@;
        match specs[i] {
            DaySpec::Single(d) => {
                r.push(d);
                proof {
                    assert(r@ =~= before + spec_days_of(specs@[i as int]));
                }
            },
            DaySpec::Range(lo, hi) => {
                if lo <= hi {
                    let count: usize = (hi - lo) as usize + 1;
                    let mut k: usize = 0;
                    while k < count
                        invariant
                            lo <= hi,
                            count == hi - lo + 1,
                            k <= count,
                            r@ =~= before + spec_days_of(DaySpec::Range(lo, hi)).take(k as int),
                        decreases count - k,
                    {
                        proof {
                            assert(spec_days_of(DaySpec::Range(lo, hi)).take(k + 1)
                                =~= spec_days_of(DaySpec::Range(lo, hi)).take(k as int).push(
                                (lo + k) as u8,
                            ));
                        }
                        r.push(lo + (k as u8));
                        k = k + 1;
                    }
                    proof {
                        assert(spec_days_of(DaySpec::Range(lo, hi)).take(count as int)
                            =~= spec_days_of(DaySpec::Range(lo, hi)));
                    }
                } else {
                    proof {
                        assert(spec_days_of(specs@[i as int]) =~= Seq::<u8>::empty());
                    }
                }
                proof {
                    assert(r@ =~= before + spec_days_of(specs@[i as int]));
                }
            },
        }
        i = i + 1;
    }
    proof {
        assert(specs@.take(specs@.len() as int) =~= specs@);
    }
    r
}

/// One registered solver: a day key and the solver instance for it.
pub struct SolverEntry<S> {
    /// The day the solver answers, 1 to 25.
    pub day: u8,
    /// The solver instance.
    pub solver: S,
}

/// A mapping from day keys to solver instances. Keys are unique and lie in
/// 1 to 25; insertion order carries no meaning.
pub struct SolverRegistry<S> {
    entries: Vec<SolverEntry<S>>,
}

/// The map an entry sequence denotes; later entries would win, though a
/// well-formed registry never repeats a key.
pub open spec fn entries_map<S>(s: Seq<SolverEntry<S>>) -> Map<u8, S>
    decreases s.len(),
{
    if s.len() == 0 {
        Map::empty()
    } else {
        entries_map(s.drop_last()).insert(s.last().day, s.last().solver)
    }
}

/// A day is in the map exactly when some entry carries it.
proof fn lemma_entries_map_dom<S>(s: Seq<SolverEntry<S>>, day: u8)
    ensures
        entries_map(s).dom().contains(day) <==> exists|i: int|
            0 <= i < s.len() && (#[trigger] s[i]).day == day,
    decreases s.len(),
{
    if s.len() > 0 {
        lemma_entries_map_dom(s.drop_last(), day);
        if entries_map(s).dom().contains(day) {
            if s.last().day != day {
                let prefix = s.drop_last();
                let i = choose|i: int| 0 <= i < prefix.len() && (#[trigger] prefix[i]).day == day;
                assert(s[i].day == day);
            } else {
                assert(s[s.len() - 1].day == day);
            }
        }
        if exists|i: int| 0 <= i < s.len() && (#[trigger] s[i]).day == day {
            let i = choose|i: int| 0 <= i < s.len() && (#[trigger] s[i]).day == day;
            if i < s.len() - 1 {
                assert(s.drop_last()[i].day == day);
            }
        }
    }
}

/// The map of a sequence with one entry pushed.
proof fn lemma_entries_map_push<S>(s: Seq<SolverEntry<S>>, e: SolverEntry<S>)
    ensures
        entries_map(s.push(e)) == entries_map(s).insert(e.day, e.solver),
{
    assert(s.push(e).drop_last() =~= s);
    assert(s.push(e).last() == e);
}

impl<S> View for SolverRegistry<S> {
    type V = Map<u8, S>;

    closed spec fn view(&self) -> Map<u8, S> {
        entries_map(self.entries@)
    }
}

impl<S> SolverRegistry<S> {
    /// The days of the entries, in insertion order.
    pub closed spec fn spec_days(self) -> Seq<u8> {
        self.entries@.map_values(|e: SolverEntry<S>| e.day)
    }

    /// A well-formed registry has unique day keys, each between 1 and 25.
    pub closed spec fn wf(self) -> bool {
        &&& forall|i: int, j: int|
            0 <= i < j < self.entries@.len() ==> (#[trigger] self.entries@[i]).day != (
            #[trigger] self.entries@[j]).day
        &&& forall|i: int|
            0 <= i < self.entries@.len() ==> 1 <= (#[trigger] self.entries@[i]).day <= 25
    }

    /// An empty registry.
    pub fn new() -> (r: SolverRegistry<S>)
        ensures
            r.wf(),
            r@ == Map::<u8, S>::empty(),
            r.spec_days() == Seq::<u8>::empty(),
    {
        let r = SolverRegistry { entries: Vec::new() };
        proof {
            assert(r.spec_days() =~= Seq::<u8>::empty());
        }
        r
    }

    /// How many days have solvers.
    pub fn len(&self) -> (r: usize)
        requires
            self.wf(),
        ensures
            r == self.spec_days().len(),
            r == self@.dom().len(),
    {
        proof {
            self.lemma_dom_len();
        }
        self.entries.len()
    }

    /// Whether a solver is registered for the day.
    pub fn contains_day(&self, day: u8) -> (r: bool)
        ensures
            r == self@.dom().contains(day),
    {
        let mut i: usize = 0;
        while i < self.entries.len()
            invariant
                i <= self.entries@.len(),
                forall|k: int| 0 <= k < i ==> (#[trigger] self.entries@[k]).day != day,
            decreases self.entries@.len() - i,
        {
            if self.entries[i].day == day {
                proof {
                    lemma_entries_map_dom(self.entries@, day);
                }
                return true;
            }
            i = i + 1;
        }
        proof {
            lemma_entries_map_dom(self.entries@, day);
        }
        false
    }

    /// Registers a solver for a day. Returns whether it was taken: a day
    /// outside 1 to 25 or already registered is refused.
    pub fn insert(&mut self, day: u8, solver: S) -> (r: bool)
        requires
            old(self).wf(),
        ensures
            final(self).wf(),
            r == (1 <= day <= 25 && !old(self)@.dom().contains(day)),
            r ==> final(self)@ == old(self)@.insert(day, solver) && final(self).spec_days() == old(
                self,
            ).spec_days().push(day),
            !r ==> final(self)@ == old(self)@ && final(self).spec_days() == old(self).spec_days(),
    {
        if day < 1 || day > 25 {
            return false;
        }
        if self.contains_day(day) {
            return false;
        }
        proof {
            lemma_entries_map_dom(self.entries@, day);
            lemma_entries_map_push(self.entries@, SolverEntry { day, solver });
            assert(self.entries@.push(SolverEntry { day, solver }).map_values(
                |e: SolverEntry<S>| e.day,
            ) =~= self.spec_days().push(day));
        }
        self.entries.push(SolverEntry { day, solver });
        true
    }

    /// The solver registered for a day; callers borrow it and never own it.
    pub fn get(&self, day: u8) -> (r: Option<&S>)
        requires
            self.wf(),
        ensures
            match r {
                Some(s) => self@.dom().contains(day) && *s == self@[day],
                None => !self@.dom().contains(day),
            },
    {
        proof {
            lemma_entries_map_dom(self.entries@, day);
        }
        let mut i: usize = 0;
        while i < self.entries.len()
            invariant
                self.wf(),
                i <= self.entries@.len(),
                forall|k: int| 0 <= k < i ==> (#[trigger] self.entries@[k]).day != day,
            decreases self.entries@.len() - i,
        {
            if self.entries[i].day == day {
                proof {
                    self.lemma_get_at(i as int);
                }
                return Some(&self.entries[i].solver);
            }
            i = i + 1;
        }
        proof {
            lemma_entries_map_dom(self.entries@, day);
        }
        None
    }

    /// The days with registered solvers, in insertion order.
    pub fn days(&self) -> (r: Vec<u8>)
        requires
            self.wf(),
        ensures
            r@ == self.spec_days(),
            r@.no_duplicates(),
            forall|i: int| 0 <= i < r@.len() ==> self@.dom().contains(#[trigger] r@[i]),
            forall|d: u8| self@.dom().contains(d) ==> r@.contains(d),
            forall|i: int| 0 <= i < r@.len() ==> 1 <= #[trigger] r@[i] <= 25,
    {
        let mut r: Vec<u8> = Vec::new();
        let mut i: usize = 0;
        while i < self.entries.len()
            invariant
                self.wf(),
                i <= self.entries@.len(),
                r@ =~= self.entries@.take(i as int).map_values(|e: SolverEntry<S>| e.day),
            decreases self.entries@.len() - i,
        {
            proof {
                assert(self.entries@.take(i + 1).drop_last() =~= self.entries@.take(i as int));
                assert(self.entries@.take(i + 1).map_values(|e: SolverEntry<S>| e.day) =~= self
                    .entries@.take(i as int).map_values(|e: SolverEntry<S>| e.day).push(
                    self.entries@[i as int].day,
                ));
            }
            r.push(self.entries[i].day);
            i = i + 1;
        }
        proof {
            assert(self.entries@.take(self.entries@.len() as int) =~= self.entries@);
            assert forall|i: int| 0 <= i < r@.len() implies self@.dom().contains(
                #[trigger] r@[i],
            ) by {
                lemma_entries_map_dom(self.entries@, r@[i]);
            }
            assert forall|d: u8| self@.dom().contains(d) implies r@.contains(d) by {
                lemma_entries_map_dom(self.entries@, d);
                let i = choose|i: int|
                    0 <= i < self.entries@.len() && (#[trigger] self.entries@[i]).day == d;
                assert(r@[i] == d);
            }
        }
        r
    }

    /// In a well-formed registry, an entry's solver is the map's value at
    /// its day.
    proof fn lemma_get_at(&self, i: int)
        requires
            self.wf(),
            0 <= i < self.entries@.len(),
        ensures
            self@.dom().contains(self.entries@[i].day),
            self@[self.entries@[i].day] == self.entries@[i].solver,
    {
        lemma_get_at_seq(self.entries@, i);
    }

    /// The days map to solver counts consistently: as many days as entries.
    proof fn lemma_dom_len(&self)
        requires
            self.wf(),
        ensures
            self@.dom().len() == self.entries@.len(),
    {
        lemma_entries_map_len(self.entries@);
    }
}

/// In a key-unique entry sequence, each entry's solver is the map's value at
/// its day.
proof fn lemma_get_at_seq<S>(s: Seq<SolverEntry<S>>, i: int)
    requires
        0 <= i < s.len(),
        forall|a: int, b: int|
            0 <= a < b < s.len() ==> (#[trigger] s[a]).day != (#[trigger] s[b]).day,
    ensures
        entries_map(s).dom().contains(s[i].day),
        entries_map(s)[s[i].day] == s[i].solver,
    decreases s.len(),
{
    lemma_entries_map_dom(s, s[i].day);
    if i < s.len() - 1 {
        let prefix = s.drop_last();
        assert(prefix[i] == s[i]);
        lemma_get_at_seq(prefix, i);
        assert(s.last().day != s[i].day);
    }
}

/// A key-unique entry sequence denotes a map with one key per entry.
proof fn lemma_entries_map_len<S>(s: Seq<SolverEntry<S>>)
    requires
        forall|a: int, b: int|
            0 <= a < b < s.len() ==> (#[trigger] s[a]).day != (#[trigger] s[b]).day,
    ensures
        entries_map(s).dom().finite(),
        entries_map(s).dom().len() == s.len(),
    decreases s.len(),
{
    if s.len() > 0 {
        let prefix = s.drop_last();
        lemma_entries_map_len(prefix);
        lemma_entries_map_dom(prefix, s.last().day);
        assert(forall|i: int|
            0 <= i < prefix.len() ==> (#[trigger] prefix[i]).day != s.last().day);
        assert(!entries_map(prefix).dom().contains(s.last().day));
        assert(entries_map(s).dom() =~= entries_map(prefix).dom().insert(s.last().day));
    }
}

} // verus!
