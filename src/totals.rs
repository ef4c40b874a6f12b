//! The result of a query: one signed total per nutrient that has events.
use vstd::prelude::*;
use crate::nutrient::Nutrient;

verus! {

/// Totals by nutrient; `None` marks a nutrient without any event in scope,
/// which a query reports as a missing key, not as zero.
#[derive(Clone, Copy, Debug, PartialEq, Eq)]
pub struct Totals {
    pub protein: Option<i64>,
    pub carbs: Option<i64>,
    pub vegetables: Option<i64>,
    pub fats: Option<i64>,
}

/// `[(n, v)]` where `v` is present, else nothing.
pub open spec fn entry_of(n: Nutrient, v: Option<i64>) -> Seq<(Nutrient, i64)> {
    match v {
        Some(x) => seq![(n, x)],
        None => Seq::empty(),
    }
}

impl Totals {
    /// The slot of nutrient `n`.
    pub open spec fn slot(&self, n: Nutrient) -> Option<i64> {
        match n {
            Nutrient::Protein => self.protein,
            Nutrient::Carbs => self.carbs,
            Nutrient::Vegetables => self.vegetables,
            Nutrient::Fats => self.fats,
        }
    }

    /// The present totals, in the order protein, carbs, vegetables, fats.
    pub open spec fn entries_spec(&self) -> Seq<(Nutrient, i64)> {
        entry_of(Nutrient::Protein, self.protein) + entry_of(Nutrient::Carbs, self.carbs)
            + entry_of(Nutrient::Vegetables, self.vegetables) + entry_of(
            Nutrient::Fats,
            self.fats,
        )
    }

    /// Totals with no key.
    pub fn empty() -> (r: Totals)
        ensures
            r@ == Map::<Nutrient, int>::empty(),
            forall|n: Nutrient| #[trigger] r.slot(n) is None,
    {
        let r = Totals { protein: None, carbs: None, vegetables: None, fats: None };
        assert(r@ =~= Map::<Nutrient, int>::empty());
        r
    }

    /// The total of `n`, or `None` where the mapping has no key `n`.
    pub fn get(&self, n: Nutrient) -> (r: Option<i64>)
        ensures
            r == self.slot(n),
            r.is_some() == self@.contains_key(n),
            r.is_some() ==> r.unwrap() == self@[n],
    {
        match n {
            Nutrient::Protein => self.protein,
            Nutrient::Carbs => self.carbs,
            Nutrient::Vegetables => self.vegetables,
            Nutrient::Fats => self.fats,
        }
    }

    /// Whether the mapping has no key at all.
    pub fn is_empty(&self) -> (r: bool)
        ensures
            r == (self@ == Map::<Nutrient, int>::empty()),
    {
        let r = self.protein.is_none() && self.carbs.is_none() && self.vegetables.is_none()
            && self.fats.is_none();
        if r {
            assert(self@ =~= Map::<Nutrient, int>::empty());
        } else if self.protein.is_some() {
            assert(self@.contains_key(Nutrient::Protein));
        } else if self.carbs.is_some() {
            assert(self@.contains_key(Nutrient::Carbs));
        } else if self.vegetables.is_some() {
            assert(self@.contains_key(Nutrient::Vegetables));
        } else {
            assert(self@.contains_key(Nutrient::Fats));
        }
        r
    }

    /// The present totals as (nutrient, total) pairs, in the order protein,
    /// carbs, vegetables, fats.
    pub fn entries(&self) -> (r: Vec<(Nutrient, i64)>)
        ensures
            r@ == self.entries_spec(),
    {
        let mut r: Vec<(Nutrient, i64)> = Vec::new();
        if let Some(x) = self.protein {
            r.push((Nutrient::Protein, x));
        }
        if let Some(x) = self.carbs {
            r.push((Nutrient::Carbs, x));
        }
        if let Some(x) = self.vegetables {
            r.push((Nutrient::Vegetables, x));
        }
        if let Some(x) = self.fats {
            r.push((Nutrient::Fats, x));
        }
        assert(r@ =~= self.entries_spec());
        r
    }

    /// Adds `delta` to the total of `n`, which counts as zero where absent.
    pub(crate) fn add(&mut self, n: Nutrient, delta: i64)
        requires
            i64::MIN <= old(self).slot(n).unwrap_or(0) + delta <= i64::MAX,
        ensures
            final(self).slot(n) == Some((old(self).slot(n).unwrap_or(0) + delta) as i64),
            forall|m: Nutrient| m != n ==> final(self).slot(m) == old(self).slot(m),
    {
        let v = self.get(n).unwrap_or(0) + delta;
        match n {
            Nutrient::Protein => self.protein = Some(v),
            Nutrient::Carbs => self.carbs = Some(v),
            Nutrient::Vegetables => self.vegetables = Some(v),
            Nutrient::Fats => self.fats = Some(v),
        }
    }
}

impl View for Totals {
    type V = Map<Nutrient, int>;

    open spec fn view(&self) -> Map<Nutrient, int> {
        Map::new(|n: Nutrient| self.slot(n).is_some(), |n: Nutrient| self.slot(n).unwrap() as int)
    }
}

proof fn lemma_slot_determined(a: Totals, b: Totals, n: Nutrient)
    requires
        a@ == b@,
    ensures
        a.slot(n) == b.slot(n),
{
    assert(a@.contains_key(n) == b@.contains_key(n));
    if a.slot(n).is_some() {
        assert(a@.contains_key(n));
        assert(b.slot(n).is_some());
        assert(a@[n] == a.slot(n).unwrap() as int);
        assert(b@[n] == b.slot(n).unwrap() as int);
    } else {
        assert(!a@.contains_key(n));
        assert(!b@.contains_key(n));
    }
}

/// Two results with the same mapping are the same value: a query whose
/// mapping is fixed by the log returns identical results on every call.
pub proof fn law_totals_determined(a: Totals, b: Totals)
    requires
        a@ == b@,
    ensures
        a == b,
{
    lemma_slot_determined(a, b, Nutrient::Protein);
    lemma_slot_determined(a, b, Nutrient::Carbs);
    lemma_slot_determined(a, b, Nutrient::Vegetables);
    lemma_slot_determined(a, b, Nutrient::Fats);
}

} // verus!
