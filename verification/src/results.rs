//! The results of a paginated fetch, in the order in which they came.

use vstd::prelude::*;

verus! {

/// What one sub-fetch adds to the results: its units where it delivered,
/// nothing where it is absent.
pub open spec fn contribution<T>(sub: Option<Seq<T>>) -> Seq<T> {
    match sub {
        Some(units) => units,
        None => Seq::empty(),
    }
}

/// The results of a run from the sub-fetches in the order made.
pub open spec fn accumulate<T>(subs: Seq<Option<Seq<T>>>) -> Seq<T>
    decreases subs.len(),
{
    if subs.len() == 0 {
        Seq::empty()
    } else {
        accumulate(subs.drop_last()) + contribution(subs.last())
    }
}

/// An append-only list of results: nothing is reordered or dropped.
pub struct ResultAccumulator<T> {
    units: Vec<T>,
}

impl<T> View for ResultAccumulator<T> {
    type V = Seq<T>;

    closed spec fn view(&self) -> Seq<T> {
        self.units@
    }
}

impl<T> ResultAccumulator<T> {
    /// The empty list.
    pub fn new() -> (acc: Self)
        ensures
            acc@ == Seq::<T>::empty(),
    {
        ResultAccumulator { units: Vec::new() }
    }

    /// Appends what one sub-fetch delivered, in order; an absent one
    /// changes nothing.
    pub fn absorb(&mut self, sub: Option<Vec<T>>)
        ensures
            final(self)@ == old(self)@ + contribution(
                match sub {
                    Some(units) => Some(units@),
                    None => None,
                },
            ),
    {
        match sub {
            Some(units) => {
                let mut units = units;
                self.units.append(&mut units);
            },
            None => {
                proof {
                    assert(self.units@ + Seq::<T>::empty() =~= self.units@);
                }
            },
        }
    }

    /// The number of results so far.
    pub fn len(&self) -> (n: usize)
        ensures
            n == self@.len(),
    {
        self.units.len()
    }

    /// The results, in the order in which they came.
    pub fn into_vec(self) -> (units: Vec<T>)
        ensures
            units@ == self@,
    {
        self.units
    }
}

/// An absent sub-fetch contributes nothing: the results are those of the
/// run without it.
pub proof fn lemma_absent_contributes_nothing<T>(subs: Seq<Option<Seq<T>>>, i: int)
    requires
        0 <= i < subs.len(),
        subs[i] is None,
    ensures
        accumulate(subs) == accumulate(subs.remove(i)),
    decreases subs.len(),
{
    if i == subs.len() - 1 {
        assert(subs.remove(i) =~= subs.drop_last());
        assert(accumulate(subs.drop_last()) + Seq::<T>::empty() =~= accumulate(subs.drop_last()));
    } else {
        lemma_absent_contributes_nothing(subs.drop_last(), i);
        assert(subs.remove(i).drop_last() =~= subs.drop_last().remove(i));
        assert(subs.remove(i).last() == subs.last());
    }
}

/// Where every sub-fetch delivers one unit, there are as many results as
/// sub-fetches.
pub proof fn lemma_one_unit_each<T>(subs: Seq<Option<Seq<T>>>)
    requires
        forall|j: int| 0 <= j < subs.len() ==> (#[trigger] subs[j]) is Some && subs[j].unwrap().len()
            == 1,
    ensures
        accumulate(subs).len() == subs.len(),
    decreases subs.len(),
{
    if subs.len() > 0 {
        lemma_one_unit_each(subs.drop_last());
    }
}

/// Where one of the sub-fetches is absent and each of the others delivers
/// one unit, the run yields one result fewer than there were sub-fetches.
pub proof fn lemma_one_absent<T>(subs: Seq<Option<Seq<T>>>, i: int)
    requires
        0 <= i < subs.len(),
        subs[i] is None,
        forall|j: int| 0 <= j < subs.len() && j != i ==> (#[trigger] subs[j]) is Some
            && subs[j].unwrap().len() == 1,
    ensures
        accumulate(subs).len() == subs.len() - 1,
{
    lemma_absent_contributes_nothing(subs, i);
    lemma_one_unit_each(subs.remove(i));
}

} // verus!
