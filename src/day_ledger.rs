//! The nutrient ledger: consume and unconsume events per (date, nutrient).
use vstd::prelude::*;
use crate::error::{LedgerError, Rejection};
use crate::log::{
    count, entry_matches, lemma_count_bound, lemma_count_push_all, lemma_count_repeated, lemma_empty_invariant, lemma_push_invariant,
    lemma_unseen_zero, log_invariant, repeated, seen, totals, Entry, MAX_EVENTS,
};
use crate::nutrient::{lemma_name_round_trip, name_of, nutrient_named, Nutrient};
use crate::totals::Totals;
use crate::validate::{has_date_shape, is_valid_date};

verus! {

/// The polarity of a nutrient event.
#[derive(Clone, Copy, Debug, PartialEq, Eq, Structural)]
pub enum ConsumptionKind {
    Consume,
    Unconsume,
}

/// One immutable event of the nutrient ledger.
#[derive(Clone, Debug)]
pub struct NutrientEvent {
    /// Position in the log; orders storage, never read by the logic.
    pub id: u64,
    pub nutrient: Nutrient,
    pub date: String,
    pub kind: ConsumptionKind,
}

impl NutrientEvent {
    /// What aggregation sees of this event.
    pub open spec fn entry(&self) -> Entry {
        day_entry(self.date@, self.nutrient, self.kind == ConsumptionKind::Consume)
    }
}

/// The entry of an event on `date` for `n`, positive for a consume.
pub open spec fn day_entry(date: Seq<char>, n: Nutrient, positive: bool) -> Entry {
    Entry { scope: date, nutrient: n, positive }
}

/// What `record_consumption` returns on a log.
pub open spec fn consume_outcome(log: Seq<Entry>, date: Seq<char>, name: Seq<char>) -> Result<
    (),
    LedgerError,
> {
    if !has_date_shape(date) {
        Err(LedgerError::InvalidRequest(Rejection::InvalidDate))
    } else if nutrient_named(name) is None {
        Err(LedgerError::InvalidRequest(Rejection::InvalidNutrient))
    } else if log.len() >= MAX_EVENTS {
        Err(LedgerError::StoreFailure)
    } else {
        Ok(())
    }
}

/// What `record_unconsumption` returns on a log: a count that is not above
/// zero (absent counts as zero) refuses the event.
pub open spec fn unconsume_outcome(log: Seq<Entry>, date: Seq<char>, name: Seq<char>) -> Result<
    (),
    LedgerError,
> {
    if !has_date_shape(date) {
        Err(LedgerError::InvalidRequest(Rejection::InvalidDate))
    } else if nutrient_named(name) is None {
        Err(LedgerError::InvalidRequest(Rejection::InvalidNutrient))
    } else if count(log, date, nutrient_named(name).unwrap()) <= 0 {
        Err(LedgerError::InvalidRequest(Rejection::CountAlreadyZero))
    } else if log.len() >= MAX_EVENTS {
        Err(LedgerError::StoreFailure)
    } else {
        Ok(())
    }
}

/// Starting from any log in which (`date`, `n`) has no event yet, consuming
/// `n` on `date` `consumed` times and then unconsuming it
/// `unconsumed <= consumed` times: every one of these commands succeeds, and
/// the day's total for `n` is then `consumed - unconsumed` (no key at all
/// where nothing was consumed).
pub proof fn law_consume_then_unconsume(
    start: Seq<Entry>,
    date: Seq<char>,
    n: Nutrient,
    consumed: nat,
    unconsumed: nat,
)
    requires
        !seen(start, date, n),
        has_date_shape(date),
        unconsumed <= consumed,
        start.len() + consumed + unconsumed <= MAX_EVENTS,
    ensures
        forall|k: nat|
            k < consumed ==> consume_outcome(
                #[trigger] repeated(start, day_entry(date, n, true), k),
                date,
                name_of(n),
            ) == Ok::<(), LedgerError>(()),
        forall|k: nat|
            k < unconsumed ==> unconsume_outcome(
                #[trigger] repeated(
                    repeated(start, day_entry(date, n, true), consumed),
                    day_entry(date, n, false),
                    k,
                ),
                date,
                name_of(n),
            ) == Ok::<(), LedgerError>(()),
        ({
            let last = repeated(
                repeated(start, day_entry(date, n, true), consumed),
                day_entry(date, n, false),
                unconsumed,
            );
            &&& totals(last, date).contains_key(n) == (consumed > 0)
            &&& consumed > 0 ==> totals(last, date)[n] == consumed - unconsumed
        }),
{
    lemma_name_round_trip(n);
    lemma_unseen_zero(start, date, n);
    let plus = day_entry(date, n, true);
    let minus = day_entry(date, n, false);
    let filled = repeated(start, plus, consumed);
    assert(entry_matches(plus, date, n));
    assert(entry_matches(minus, date, n));
    assert forall|k: nat| k < consumed implies consume_outcome(
        #[trigger] repeated(start, plus, k),
        date,
        name_of(n),
    ) == Ok::<(), LedgerError>(()) by {
        lemma_count_repeated(start, plus, k, date, n);
    }
    lemma_count_repeated(start, plus, consumed, date, n);
    assert forall|k: nat| k < unconsumed implies unconsume_outcome(
        #[trigger] repeated(filled, minus, k),
        date,
        name_of(n),
    ) == Ok::<(), LedgerError>(()) by {
        lemma_count_repeated(filled, minus, k, date, n);
    }
    lemma_count_repeated(filled, minus, unconsumed, date, n);
}

/// The append-only log of nutrient events. Commands take `&mut self`, so the
/// read-decide-append sequence of a decrement runs with exclusive access:
/// no other command can append between the check and the append.
pub struct NutrientLedger {
    events: Vec<NutrientEvent>,
}

impl View for NutrientLedger {
    type V = Seq<Entry>;

    closed spec fn view(&self) -> Seq<Entry> {
        self.events@.map_values(|e: NutrientEvent| e.entry())
    }
}

impl NutrientLedger {
    /// Ids follow positions, and no total is negative.
    pub closed spec fn wf(&self) -> bool {
        &&& log_invariant(self@)
        &&& forall|i: int| 0 <= i < self.events@.len() ==> #[trigger] self.events@[i].id == i
    }

    /// A well-formed ledger has the log invariant: no total is negative.
    pub proof fn lemma_wf_invariant(&self)
        requires
            self.wf(),
        ensures
            log_invariant(self@),
    {
    }

    /// A ledger without events.
    pub fn new() -> (r: NutrientLedger)
        ensures
            r.wf(),
            r@ == Seq::<Entry>::empty(),
    {
        let r = NutrientLedger { events: Vec::new() };
        proof {
            assert(r@ =~= Seq::<Entry>::empty());
            lemma_empty_invariant();
        }
        r
    }

    /// The number of events appended so far.
    pub fn len(&self) -> (r: usize)
        ensures
            r == self@.len(),
    {
        self.events.len()
    }

    fn append(&mut self, date: &str, n: Nutrient, kind: ConsumptionKind)
        requires
            old(self).wf(),
            old(self)@.len() < MAX_EVENTS,
            kind == ConsumptionKind::Consume || count(old(self)@, date@, n) > 0,
        ensures
            final(self).wf(),
            final(self)@ == old(self)@.push(
                day_entry(date@, n, kind == ConsumptionKind::Consume),
            ),
    {
        let id = self.events.len() as u64;
        let e = NutrientEvent { id, nutrient: n, date: date.to_owned(), kind };
        proof {
            lemma_push_invariant(old(self)@, e.entry());
        }
        self.events.push(e);
        assert(self@ =~= old(self)@.push(e.entry()));
    }

    /// The totals of `date`: for each nutrient with at least one event on
    /// exactly that date, consumes minus unconsumes. Any text is accepted as
    /// a date; one that no event carries gives empty totals.
    pub fn query_day(&self, date: &str) -> (r: Totals)
        requires
            self.wf(),
        ensures
            r@ == totals(self@, date@),
            forall|n: Nutrient| #[trigger] r@.contains_key(n) ==> r@[n] >= 0,
    {
        let key = date.to_owned();
        let mut t = Totals::empty();
        let mut i: usize = 0;
        while i < self.events.len()
            invariant
                self.wf(),
                key@ == date@,
                0 <= i <= self.events@.len(),
                forall|n: Nutrient|
                    #![trigger t.slot(n)]
                    t.slot(n).is_some() == seen(self@.take(i as int), date@, n),
                forall|n: Nutrient|
                    #![trigger t.slot(n)]
                    t.slot(n).is_some() ==> t.slot(n).unwrap() as int == count(
                        self@.take(i as int),
                        date@,
                        n,
                    ),
            decreases self.events@.len() - i,
        {
            let e = &self.events[i];
            let ghost prefix = self@.take(i as int);
            proof {
                assert(self@.take(i + 1) =~= prefix.push(e.entry()));
                assert(self@.len() <= MAX_EVENTS);
                lemma_count_bound(prefix, date@, e.nutrient);
                lemma_count_push_all(prefix, e.entry(), date@);
                if t.slot(e.nutrient).is_none() {
                    lemma_unseen_zero(prefix, date@, e.nutrient);
                }
            }
            if e.date == key {
                match e.kind {
                    ConsumptionKind::Consume => t.add(e.nutrient, 1),
                    ConsumptionKind::Unconsume => t.add(e.nutrient, -1),
                }
            }
            i = i + 1;
        }
        assert(self@.take(self@.len() as int) =~= self@);
        assert(t@ =~= totals(self@, date@));
        assert forall|n: Nutrient| #[trigger] t@.contains_key(n) implies t@[n] >= 0 by {
            assert(count(self@, date@, n) >= 0);
        }
        t
    }

    /// Appends a consume event for (`date`, `nutrient`) once both are valid.
    pub fn record_consumption(&mut self, date: &str, nutrient: &str) -> (r: Result<(), LedgerError>)
        requires
            old(self).wf(),
        ensures
            final(self).wf(),
            r == consume_outcome(old(self)@, date@, nutrient@),
            final(self)@ == if r is Ok {
                old(self)@.push(day_entry(date@, nutrient_named(nutrient@).unwrap(), true))
            } else {
                old(self)@
            },
    {
        if !is_valid_date(date) {
            return Err(LedgerError::InvalidRequest(Rejection::InvalidDate));
        }
        let n = match Nutrient::parse(nutrient) {
            Some(n) => n,
            None => {
                return Err(LedgerError::InvalidRequest(Rejection::InvalidNutrient));
            },
        };
        if self.events.len() as u64 >= MAX_EVENTS {
            return Err(LedgerError::StoreFailure);
        }
        self.append(date, n, ConsumptionKind::Consume);
        Ok(())
    }

    /// Appends an unconsume event for (`date`, `nutrient`) once both are
    /// valid and their current count is above zero.
    pub fn record_unconsumption(&mut self, date: &str, nutrient: &str) -> (r: Result<
        (),
        LedgerError,
    >)
        requires
            old(self).wf(),
        ensures
            final(self).wf(),
            r == unconsume_outcome(old(self)@, date@, nutrient@),
            final(self)@ == if r is Ok {
                old(self)@.push(day_entry(date@, nutrient_named(nutrient@).unwrap(), false))
            } else {
                old(self)@
            },
    {
        if !is_valid_date(date) {
            return Err(LedgerError::InvalidRequest(Rejection::InvalidDate));
        }
        let n = match Nutrient::parse(nutrient) {
            Some(n) => n,
            None => {
                return Err(LedgerError::InvalidRequest(Rejection::InvalidNutrient));
            },
        };
        let current = self.query_day(date).get(n);
        proof {
            if current.is_none() {
                lemma_unseen_zero(self@, date@, n);
            }
        }
        match current {
            None => {
                return Err(LedgerError::InvalidRequest(Rejection::CountAlreadyZero));
            },
            Some(c) => {
                if c == 0 {
                    return Err(LedgerError::InvalidRequest(Rejection::CountAlreadyZero));
                }
            },
        }
        if self.events.len() as u64 >= MAX_EVENTS {
            return Err(LedgerError::StoreFailure);
        }
        assert(count(self@, date@, n) >= 0);
        self.append(date, n, ConsumptionKind::Unconsume);
        Ok(())
    }
}

} // verus!
