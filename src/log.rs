//! The mathematical model shared by both ledgers: a sequence of signed
//! entries, and the totals that aggregation derives from it.
use vstd::prelude::*;
use crate::nutrient::Nutrient;

verus! {

/// The most events a ledger holds: the largest signed 64-bit value, so
/// that every total fits an `i64` (and every id a store's signed row id).
pub const MAX_EVENTS: u64 = 0x7fff_ffff_ffff_ffff;

/// What aggregation sees of one event: its scope (a date, or empty where the
/// ledger has no date dimension), its subject, and its polarity.
pub struct Entry {
    pub scope: Seq<char>,
    pub nutrient: Nutrient,
    pub positive: bool,
}

/// +1 for a positive entry, -1 for a negative one.
pub open spec fn sign(e: Entry) -> int {
    if e.positive {
        1
    } else {
        -1
    }
}

/// The entry counts towards the key (`scope`, `n`).
pub open spec fn entry_matches(e: Entry, scope: Seq<char>, n: Nutrient) -> bool {
    e.scope == scope && e.nutrient == n
}

/// The signed sum of the entries of `log` that belong to (`scope`, `n`).
pub open spec fn count(log: Seq<Entry>, scope: Seq<char>, n: Nutrient) -> int
    decreases log.len(),
{
    if log.len() == 0 {
        0
    } else {
        count(log.drop_last(), scope, n) + if entry_matches(log.last(), scope, n) {
            sign(log.last())
        } else {
            0
        }
    }
}

/// At least one entry of `log` belongs to (`scope`, `n`).
pub open spec fn seen(log: Seq<Entry>, scope: Seq<char>, n: Nutrient) -> bool {
    exists|i: int| 0 <= i < log.len() && #[trigger] entry_matches(log[i], scope, n)
}

/// The current totals of a scope: one value per subject that has at least
/// one entry there, and no key for a subject without any.
pub open spec fn totals(log: Seq<Entry>, scope: Seq<char>) -> Map<Nutrient, int> {
    Map::new(|n: Nutrient| seen(log, scope, n), |n: Nutrient| count(log, scope, n))
}

/// No total that a query can observe is negative, and the log fits its ids.
pub open spec fn log_invariant(log: Seq<Entry>) -> bool {
    &&& log.len() <= MAX_EVENTS
    &&& forall|scope: Seq<char>, n: Nutrient| #[trigger] count(log, scope, n) >= 0
}

/// `log` with `e` appended `k` times.
pub open spec fn repeated(log: Seq<Entry>, e: Entry, k: nat) -> Seq<Entry>
    decreases k,
{
    if k == 0 {
        log
    } else {
        repeated(log, e, (k - 1) as nat).push(e)
    }
}

/// Appending one entry changes the count of its own key by its sign and
/// leaves every other count as it was.
pub proof fn lemma_count_push(log: Seq<Entry>, e: Entry, scope: Seq<char>, n: Nutrient)
    ensures
        count(log.push(e), scope, n) == count(log, scope, n) + if entry_matches(e, scope, n) {
            sign(e)
        } else {
            0
        },
        seen(log.push(e), scope, n) == (seen(log, scope, n) || entry_matches(e, scope, n)),
{
    assert(log.push(e).drop_last() =~= log);
    if seen(log, scope, n) {
        let i = choose|i: int| 0 <= i < log.len() && #[trigger] entry_matches(log[i], scope, n);
        assert(entry_matches(log.push(e)[i], scope, n));
    }
    if entry_matches(e, scope, n) {
        assert(entry_matches(log.push(e)[log.len() as int], scope, n));
    }
    if seen(log.push(e), scope, n) {
        let i = choose|i: int| 0 <= i < log.len() + 1 && #[trigger] entry_matches(log.push(e)[i], scope, n);
        if i < log.len() {
            assert(entry_matches(log[i], scope, n));
        }
    }
}

/// `lemma_count_push` for every key of one scope at once.
pub proof fn lemma_count_push_all(log: Seq<Entry>, e: Entry, scope: Seq<char>)
    ensures
        forall|n: Nutrient|
            #![trigger seen(log.push(e), scope, n)]
            #![trigger count(log.push(e), scope, n)]
            seen(log.push(e), scope, n) == (seen(log, scope, n) || entry_matches(e, scope, n))
                && count(log.push(e), scope, n) == count(log, scope, n) + if entry_matches(
                e,
                scope,
                n,
            ) {
                sign(e)
            } else {
                0
            },
{
    assert forall|n: Nutrient|
        #![trigger seen(log.push(e), scope, n)]
        #![trigger count(log.push(e), scope, n)]
        seen(log.push(e), scope, n) == (seen(log, scope, n) || entry_matches(e, scope, n)) && count(
            log.push(e),
            scope,
            n,
        ) == count(log, scope, n) + if entry_matches(e, scope, n) {
            sign(e)
        } else {
            0
        } by {
        lemma_count_push(log, e, scope, n);
    }
}

/// A count is bounded by the number of entries.
pub proof fn lemma_count_bound(log: Seq<Entry>, scope: Seq<char>, n: Nutrient)
    ensures
        -log.len() <= count(log, scope, n) <= log.len(),
    decreases log.len(),
{
    if log.len() > 0 {
        lemma_count_bound(log.drop_last(), scope, n);
    }
}

/// A key without entries counts zero.
pub proof fn lemma_unseen_zero(log: Seq<Entry>, scope: Seq<char>, n: Nutrient)
    requires
        !seen(log, scope, n),
    ensures
        count(log, scope, n) == 0,
    decreases log.len(),
{
    if log.len() > 0 {
        let prefix = log.drop_last();
        assert(log == prefix.push(log.last()));
        lemma_count_push(prefix, log.last(), scope, n);
        lemma_unseen_zero(prefix, scope, n);
    }
}

/// The empty log has the invariant.
pub proof fn lemma_empty_invariant()
    ensures
        log_invariant(Seq::<Entry>::empty()),
{
    assert forall|scope: Seq<char>, n: Nutrient| #[trigger] count(Seq::<Entry>::empty(), scope, n) >= 0 by {}
}

/// Appending a positive entry, or a negative one whose key counts above
/// zero, keeps the invariant.
pub proof fn lemma_push_invariant(log: Seq<Entry>, e: Entry)
    requires
        log_invariant(log),
        log.len() < MAX_EVENTS,
        e.positive || count(log, e.scope, e.nutrient) > 0,
    ensures
        log_invariant(log.push(e)),
{
    assert forall|scope: Seq<char>, n: Nutrient| #[trigger] count(log.push(e), scope, n) >= 0 by {
        lemma_count_push(log, e, scope, n);
        assert(count(log, scope, n) >= 0);
    }
}

/// Appending `e` `k` times moves the count of its key by `k` signs and
/// marks the key as seen once `k` is positive.
pub proof fn lemma_count_repeated(log: Seq<Entry>, e: Entry, k: nat, scope: Seq<char>, n: Nutrient)
    ensures
        repeated(log, e, k).len() == log.len() + k,
        count(repeated(log, e, k), scope, n) == count(log, scope, n) + if entry_matches(
            e,
            scope,
            n,
        ) {
            k * sign(e)
        } else {
            0
        },
        seen(repeated(log, e, k), scope, n) == (seen(log, scope, n) || (k > 0 && entry_matches(
            e,
            scope,
            n,
        ))),
    decreases k,
{
    if k > 0 {
        lemma_count_repeated(log, e, (k - 1) as nat, scope, n);
        lemma_count_push(repeated(log, e, (k - 1) as nat), e, scope, n);
        if entry_matches(e, scope, n) {
            assert((k - 1) * sign(e) + sign(e) == k * sign(e)) by (nonlinear_arith);
        }
    }
}

/// Queries on a ledger without events report no key at all.
pub proof fn law_empty_totals(scope: Seq<char>)
    ensures
        totals(Seq::<Entry>::empty(), scope) == Map::<Nutrient, int>::empty(),
{
    assert(totals(Seq::<Entry>::empty(), scope) =~= Map::<Nutrient, int>::empty());
}

} // verus!
