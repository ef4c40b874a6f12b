//! The goal ledger: increment and decrement events per nutrient, with no
//! date dimension.
use vstd::prelude::*;
use crate::error::{LedgerError, Rejection};
use crate::log::{
    count, lemma_count_bound, lemma_count_push, lemma_count_push_all, lemma_empty_invariant,
    lemma_push_invariant, lemma_unseen_zero, log_invariant, seen, totals, Entry, MAX_EVENTS,
};
use crate::nutrient::{lemma_name_round_trip, name_of, nutrient_named, Nutrient};
use crate::totals::Totals;

verus! {

/// The polarity of a goal event.
#[derive(Clone, Copy, Debug, PartialEq, Eq, Structural)]
pub enum GoalKind {
    Inc,
    Dec,
}

/// One immutable event of the goal ledger.
#[derive(Clone, Copy, Debug)]
pub struct GoalEvent {
    /// Position in the log; orders storage, never read by the logic.
    pub id: u64,
    pub nutrient: Nutrient,
    pub kind: GoalKind,
}

/// Goal events all share one scope, the empty one.
pub open spec fn goal_entry(n: Nutrient, positive: bool) -> Entry {
    Entry { scope: Seq::empty(), nutrient: n, positive }
}

impl GoalEvent {
    /// What aggregation sees of this event.
    pub open spec fn entry(&self) -> Entry {
        goal_entry(self.nutrient, self.kind == GoalKind::Inc)
    }
}

/// The current goals of a log, by nutrient.
pub open spec fn goals_of(log: Seq<Entry>) -> Map<Nutrient, int> {
    totals(log, Seq::empty())
}

/// The current goal of `n` in a log; zero where it has no event.
pub open spec fn goal_count(log: Seq<Entry>, n: Nutrient) -> int {
    count(log, Seq::empty(), n)
}

/// What `increment_goal` returns on a log.
pub open spec fn inc_outcome(log: Seq<Entry>, name: Seq<char>) -> Result<(), LedgerError> {
    if nutrient_named(name) is None {
        Err(LedgerError::InvalidRequest(Rejection::InvalidNutrient))
    } else if log.len() >= MAX_EVENTS {
        Err(LedgerError::StoreFailure)
    } else {
        Ok(())
    }
}

/// What `decrement_goal` returns on a log: a goal that is not above zero
/// (absent counts as zero) refuses the event.
pub open spec fn dec_outcome(log: Seq<Entry>, name: Seq<char>) -> Result<(), LedgerError> {
    if nutrient_named(name) is None {
        Err(LedgerError::InvalidRequest(Rejection::InvalidNutrient))
    } else if goal_count(log, nutrient_named(name).unwrap()) <= 0 {
        Err(LedgerError::InvalidRequest(Rejection::GoalAlreadyZero))
    } else if log.len() >= MAX_EVENTS {
        Err(LedgerError::StoreFailure)
    } else {
        Ok(())
    }
}

/// On any log with the invariant, a decrement right after an increment of
/// the same nutrient succeeds, and afterwards every goal counts as before.
pub proof fn law_dec_undoes_inc(log: Seq<Entry>, n: Nutrient)
    requires
        log_invariant(log),
        log.len() + 2 <= MAX_EVENTS,
    ensures
        inc_outcome(log, name_of(n)) == Ok::<(), LedgerError>(()),
        dec_outcome(log.push(goal_entry(n, true)), name_of(n)) == Ok::<(), LedgerError>(()),
        forall|m: Nutrient|
            #[trigger] goal_count(log.push(goal_entry(n, true)).push(goal_entry(n, false)), m)
                == goal_count(log, m),
{
    lemma_name_round_trip(n);
    let up = log.push(goal_entry(n, true));
    lemma_count_push(log, goal_entry(n, true), Seq::empty(), n);
    assert(count(log, Seq::empty(), n) >= 0);
    assert forall|m: Nutrient|
        #[trigger] goal_count(up.push(goal_entry(n, false)), m) == goal_count(log, m) by {
        lemma_count_push(log, goal_entry(n, true), Seq::empty(), m);
        lemma_count_push(up, goal_entry(n, false), Seq::empty(), m);
    }
}

/// The append-only log of goal events. Commands take `&mut self`, so the
/// read-decide-append sequence of a decrement runs with exclusive access:
/// no other command can append between the check and the append.
pub struct GoalLedger {
    events: Vec<GoalEvent>,
}

impl View for GoalLedger {
    type V = Seq<Entry>;

    closed spec fn view(&self) -> Seq<Entry> {
        self.events@.map_values(|e: GoalEvent| e.entry())
    }
}

impl GoalLedger {
    /// Ids follow positions, and no goal is negative.
    pub closed spec fn wf(&self) -> bool {
        &&& log_invariant(self@)
        &&& forall|i: int| 0 <= i < self.events@.len() ==> #[trigger] self.events@[i].id == i
    }

    /// A well-formed ledger has the log invariant: no total is negative.
    pub proof fn lemma_wf_invariant(&self)
        requires
            self.wf(),
        ensures
            log_invariant(self@),
    {
    }

    /// A ledger without events.
    pub fn new() -> (r: GoalLedger)
        ensures
            r.wf(),
            r@ == Seq::<Entry>::empty(),
    {
        let r = GoalLedger { events: Vec::new() };
        proof {
            assert(r@ =~= Seq::<Entry>::empty());
            lemma_empty_invariant();
        }
        r
    }

    /// The number of events appended so far.
    pub fn len(&self) -> (r: usize)
        ensures
            r == self@.len(),
    {
        self.events.len()
    }

    fn append(&mut self, n: Nutrient, kind: GoalKind)
        requires
            old(self).wf(),
            old(self)@.len() < MAX_EVENTS,
            kind == GoalKind::Inc || goal_count(old(self)@, n) > 0,
        ensures
            final(self).wf(),
            final(self)@ == old(self)@.push(goal_entry(n, kind == GoalKind::Inc)),
    {
        let id = self.events.len() as u64;
        let e = GoalEvent { id, nutrient: n, kind };
        proof {
            lemma_push_invariant(old(self)@, e.entry());
        }
        self.events.push(e);
        assert(self@ =~= old(self)@.push(e.entry()));
    }

    /// The goals: for each nutrient with at least one event, increments
    /// minus decrements.
    pub fn query_goals(&self) -> (r: Totals)
        requires
            self.wf(),
        ensures
            r@ == goals_of(self@),
            forall|n: Nutrient| #[trigger] r@.contains_key(n) ==> r@[n] >= 0,
    {
        let ghost scope = Seq::<char>::empty();
        let mut t = Totals::empty();
        let mut i: usize = 0;
        while i < self.events.len()
            invariant
                self.wf(),
                scope == Seq::<char>::empty(),
                0 <= i <= self.events@.len(),
                forall|n: Nutrient|
                    #![trigger t.slot(n)]
                    t.slot(n).is_some() == seen(self@.take(i as int), scope, n),
                forall|n: Nutrient|
                    #![trigger t.slot(n)]
                    t.slot(n).is_some() ==> t.slot(n).unwrap() as int == count(
                        self@.take(i as int),
                        scope,
                        n,
                    ),
            decreases self.events@.len() - i,
        {
            let e = &self.events[i];
            let ghost prefix = self@.take(i as int);
            proof {
                assert(self@.take(i + 1) =~= prefix.push(e.entry()));
                assert(self@.len() <= MAX_EVENTS);
                lemma_count_bound(prefix, scope, e.nutrient);
                lemma_count_push_all(prefix, e.entry(), scope);
                if t.slot(e.nutrient).is_none() {
                    lemma_unseen_zero(prefix, scope, e.nutrient);
                }
            }
            match e.kind {
                GoalKind::Inc => t.add(e.nutrient, 1),
                GoalKind::Dec => t.add(e.nutrient, -1),
            }
            i = i + 1;
        }
        assert(self@.take(self@.len() as int) =~= self@);
        assert(t@ =~= goals_of(self@));
        assert forall|n: Nutrient| #[trigger] t@.contains_key(n) implies t@[n] >= 0 by {
            assert(count(self@, Seq::empty(), n) >= 0);
        }
        t
    }

    /// Appends an increment event for `nutrient` once it is valid.
    pub fn increment_goal(&mut self, nutrient: &str) -> (r: Result<(), LedgerError>)
        requires
            old(self).wf(),
        ensures
            final(self).wf(),
            r == inc_outcome(old(self)@, nutrient@),
            final(self)@ == if r is Ok {
                old(self)@.push(goal_entry(nutrient_named(nutrient@).unwrap(), true))
            } else {
                old(self)@
            },
    {
        let n = match Nutrient::parse(nutrient) {
            Some(n) => n,
            None => {
                return Err(LedgerError::InvalidRequest(Rejection::InvalidNutrient));
            },
        };
        if self.events.len() as u64 >= MAX_EVENTS {
            return Err(LedgerError::StoreFailure);
        }
        self.append(n, GoalKind::Inc);
        Ok(())
    }

    /// Appends a decrement event for `nutrient` once it is valid and its
    /// current goal is above zero.
    pub fn decrement_goal(&mut self, nutrient: &str) -> (r: Result<(), LedgerError>)
        requires
            old(self).wf(),
        ensures
            final(self).wf(),
            r == dec_outcome(old(self)@, nutrient@),
            final(self)@ == if r is Ok {
                old(self)@.push(goal_entry(nutrient_named(nutrient@).unwrap(), false))
            } else {
                old(self)@
            },
    {
        let n = match Nutrient::parse(nutrient) {
            Some(n) => n,
            None => {
                return Err(LedgerError::InvalidRequest(Rejection::InvalidNutrient));
            },
        };
        let current = self.query_goals().get(n);
        proof {
            if current.is_none() {
                lemma_unseen_zero(self@, Seq::empty(), n);
            }
        }
        match current {
            None => {
                return Err(LedgerError::InvalidRequest(Rejection::GoalAlreadyZero));
            },
            Some(c) => {
                if c == 0 {
                    return Err(LedgerError::InvalidRequest(Rejection::GoalAlreadyZero));
                }
            },
        }
        if self.events.len() as u64 >= MAX_EVENTS {
            return Err(LedgerError::StoreFailure);
        }
        assert(count(self@, Seq::empty(), n) >= 0);
        self.append(n, GoalKind::Dec);
        Ok(())
    }
}

} // verus!
