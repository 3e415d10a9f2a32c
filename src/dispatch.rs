use crate::dates::ConfigError;
use crate::locations::{FetchError, FetchedLocation};
use vstd::multiset::group_multiset_axioms;
use vstd::prelude::*;
use vstd::seq_lib::{
    lemma_multiset_commutative, to_multiset_build, to_multiset_contains, to_multiset_len,
    to_multiset_remove,
};

verus! {

/// What the fetch of one date came to.
pub type Outcome = Result<Vec<FetchedLocation>, FetchError>;

/// The locations that one outcome contributes: its list on success, none on failure.
pub open spec fn items_of(o: Outcome) -> Seq<FetchedLocation> {
    match o {
        Ok(v) => v@,
        Err(_) => Seq::empty(),
    }
}

/// The locations of a run whose dates completed in the order of `outcomes`.
pub open spec fn aggregate(outcomes: Seq<Outcome>) -> Seq<FetchedLocation>
    decreases outcomes.len(),
{
    if outcomes.len() == 0 {
        Seq::empty()
    } else {
        aggregate(outcomes.drop_last()) + items_of(outcomes.last())
    }
}

/// Starts one fetch per date while holding at most `capacity` in flight, and
/// gathers what each finished fetch found, in the order in which they finish.
pub struct Dispatcher {
    pub dates: Vec<i32>,
    pub next: usize,
    pub capacity: usize,
    pub in_flight: usize,
    pub found: Vec<FetchedLocation>,
    pub failed: usize,
    pub finished: Ghost<Seq<Outcome>>,
}

impl Dispatcher {
    pub open spec fn wf(&self) -> bool {
        &&& self.next <= self.dates@.len()
        &&& self.in_flight <= self.capacity
        &&& self.finished@.len() + self.in_flight == self.next
        &&& self.found@ == aggregate(self.finished@)
        &&& self.failed <= self.finished@.len()
    }

    /// A dispatcher for `dates`, none started; an error where `capacity` is
    /// zero, since then no fetch could ever start.
    pub fn new(dates: Vec<i32>, capacity: usize) -> (r: Result<Dispatcher, ConfigError>)
        ensures
            capacity > 0 <==> r is Ok,
            capacity == 0 ==> r == Err::<Dispatcher, ConfigError>(ConfigError::NoConcurrency),
            r matches Ok(d) ==> {
                &&& d.wf()
                &&& d.dates@ == dates@
                &&& d.capacity == capacity
                &&& d.next == 0
                &&& d.in_flight == 0
                &&& d.finished@ == Seq::<Outcome>::empty()
            },
    {
        if capacity == 0 {
            return Err(ConfigError::NoConcurrency);
        }
        Ok(Dispatcher {
            dates,
            next: 0,
            capacity,
            in_flight: 0,
            found: Vec::new(),
            failed: 0,
            finished: Ghost(Seq::empty()),
        })
    }

    /// The next date to fetch, where one is left and a permit is free; the
    /// fetch then counts as in flight.
    pub fn start_next(&mut self) -> (r: Option<i32>)
        requires
            old(self).wf(),
        ensures
            final(self).wf(),
            final(self).in_flight <= final(self).capacity,
            final(self).dates == old(self).dates,
            final(self).capacity == old(self).capacity,
            final(self).finished == old(self).finished,
            final(self).found == old(self).found,
            (old(self).in_flight < old(self).capacity && old(self).next < old(self).dates@.len())
                <==> r is Some,
            r is Some ==> {
                &&& r == Some(old(self).dates@[old(self).next as int])
                &&& final(self).next == old(self).next + 1
                &&& final(self).in_flight == old(self).in_flight + 1
            },
            r is None ==> *final(self) == *old(self),
    {
        if self.in_flight < self.capacity && self.next < self.dates.len() {
            let d = self.dates[self.next];
            self.next = self.next + 1;
            self.in_flight = self.in_flight + 1;
            Some(d)
        } else {
            None
        }
    }

    /// Takes in what a finished fetch came to and frees its permit: its
    /// locations join the aggregate, a failure is only counted.
    pub fn complete(&mut self, outcome: Outcome)
        requires
            old(self).wf(),
            old(self).in_flight > 0,
        ensures
            final(self).wf(),
            final(self).dates == old(self).dates,
            final(self).capacity == old(self).capacity,
            final(self).next == old(self).next,
            final(self).in_flight == old(self).in_flight - 1,
            final(self).finished@ == old(self).finished@.push(outcome),
            final(self).found@ == old(self).found@ + items_of(outcome),
            final(self).failed == old(self).failed + if outcome is Err {
                1int
            } else {
                0
            },
    {
        let ghost before = self.finished@;
        proof {
            self.finished = Ghost(before.push(outcome));
            assert(self.finished@.drop_last() =~= before);
        }
        self.in_flight = self.in_flight - 1;
        match outcome {
            Ok(mut v) => {
                self.found.append(&mut v);
            },
            Err(_) => {
                self.failed = self.failed + 1;
            },
        }
    }

    /// Whether every date was fetched and every fetch has finished.
    pub fn is_finished(&self) -> (r: bool)
        requires
            self.wf(),
        ensures
            r == (self.next == self.dates@.len() && self.in_flight == 0),
            r ==> self.finished@.len() == self.dates@.len(),
    {
        self.next == self.dates.len() && self.in_flight == 0
    }

    /// Number of fetches that are running.
    pub fn in_flight(&self) -> (r: usize)
        ensures
            r == self.in_flight,
    {
        self.in_flight
    }

    /// The locations gathered so far, in the order in which their dates finished.
    pub fn into_found(self) -> (r: Vec<FetchedLocation>)
        requires
            self.wf(),
        ensures
            r@ == aggregate(self.finished@),
    {
        self.found
    }
}

proof fn lemma_aggregate_concat(s: Seq<Outcome>, t: Seq<Outcome>)
    ensures
        aggregate(s + t) == aggregate(s) + aggregate(t),
    decreases t.len(),
{
    if t.len() == 0 {
        assert(s + t =~= s);
        assert(aggregate(s) + aggregate(t) =~= aggregate(s));
    } else {
        lemma_aggregate_concat(s, t.drop_last());
        assert((s + t).drop_last() =~= s + t.drop_last());
        assert(aggregate(s + t) =~= aggregate(s) + aggregate(t));
    }
}

/// The aggregate holds the same locations, each as often, whatever order
/// the dates finish in: those of every successful date and nothing else.
pub proof fn lemma_aggregate_any_order(a: Seq<Outcome>, b: Seq<Outcome>)
    requires
        a.to_multiset() == b.to_multiset(),
    ensures
        aggregate(a).to_multiset() == aggregate(b).to_multiset(),
    decreases a.len(),
{
    broadcast use group_multiset_axioms;

    if a.len() == 0 {
        to_multiset_len(a);
        to_multiset_len(b);
        assert(b =~= a);
    } else {
        let x = a.last();
        let a1 = a.drop_last();
        assert(a1.push(x) =~= a);
        to_multiset_build(a1, x);
        to_multiset_contains(b, x);
        to_multiset_contains(a, x);
        assert(a.contains(x)) by {
            assert(a[a.len() - 1] == x);
        }
        let j = choose|j: int| 0 <= j < b.len() && b[j] == x;
        let b1 = b.remove(j);
        to_multiset_remove(b, j);
        assert(a1.to_multiset() =~= b1.to_multiset());
        lemma_aggregate_any_order(a1, b1);
        let p = b.subrange(0, j);
        let q = b.subrange(j + 1, b.len() as int);
        assert(b =~= p + seq![x] + q);
        assert(b1 =~= p + q);
        lemma_aggregate_concat(p + seq![x], q);
        lemma_aggregate_concat(p, seq![x]);
        lemma_aggregate_concat(p, q);
        assert(seq![x].drop_last() =~= Seq::<Outcome>::empty());
        assert(seq![x].last() == x);
        assert(aggregate(Seq::<Outcome>::empty()) == Seq::<FetchedLocation>::empty());
        assert(aggregate(seq![x]) =~= items_of(x));
        let ap = aggregate(p);
        let aq = aggregate(q);
        let ix = items_of(x);
        lemma_multiset_commutative(ap + ix, aq);
        lemma_multiset_commutative(ap, ix);
        lemma_multiset_commutative(ap, aq);
        lemma_multiset_commutative(aggregate(a1), ix);
        assert(aggregate(a) =~= aggregate(a1) + ix);
        assert(aggregate(a).to_multiset() =~= aggregate(b).to_multiset());
    }
}

/// The aggregate has as many locations as the successful dates found together.
pub proof fn lemma_aggregate_len(outcomes: Seq<Outcome>)
    ensures
        aggregate(outcomes).len() == found_count(outcomes),
    decreases outcomes.len(),
{
    if outcomes.len() > 0 {
        lemma_aggregate_len(outcomes.drop_last());
    }
}

/// The number of locations that the successful outcomes found.
pub open spec fn found_count(outcomes: Seq<Outcome>) -> nat
    decreases outcomes.len(),
{
    if outcomes.len() == 0 {
        0
    } else {
        found_count(outcomes.drop_last()) + items_of(outcomes.last()).len()
    }
}

} // verus!
