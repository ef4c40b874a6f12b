use portions::error::{LedgerError, Rejection};
use portions::goal_ledger::GoalLedger;
use portions::nutrient::Nutrient;

fn nutrient_error() -> Result<(), LedgerError> {
    Err(LedgerError::InvalidRequest(Rejection::InvalidNutrient))
}

fn goal_zero_error() -> Result<(), LedgerError> {
    Err(LedgerError::InvalidRequest(Rejection::GoalAlreadyZero))
}

#[test]
fn test_get_goals_empty() {
    let ledger = GoalLedger::new();
    let goals = ledger.query_goals();
    assert!(goals.is_empty());
    assert!(goals.entries().is_empty());
}

#[test]
fn test_inc_goal_validation() {
    let mut ledger = GoalLedger::new();
    assert_eq!(ledger.increment_goal("protein"), Ok(()));
    assert_eq!(ledger.increment_goal("carbs"), Ok(()));
    assert_eq!(ledger.increment_goal("fats"), Ok(()));
    assert_eq!(ledger.increment_goal("vegetables"), Ok(()));
    assert_eq!(ledger.increment_goal("bad"), nutrient_error());
}

#[test]
fn test_inc_goal() {
    let mut ledger = GoalLedger::new();
    assert_eq!(ledger.increment_goal("protein"), Ok(()));
    assert_eq!(ledger.increment_goal("protein"), Ok(()));
    assert_eq!(ledger.increment_goal("carbs"), Ok(()));
    let goals = ledger.query_goals();
    assert_eq!(
        goals.entries(),
        vec![(Nutrient::Protein, 2), (Nutrient::Carbs, 1)]
    );
    assert_eq!(goals.get(Nutrient::Carbs), Some(1));
    assert_eq!(goals.get(Nutrient::Protein), Some(2));
    assert_eq!(goals.get(Nutrient::Fats), None);
}

#[test]
fn test_dec_goal() {
    let mut ledger = GoalLedger::new();
    assert_eq!(ledger.increment_goal("protein"), Ok(()));
    assert_eq!(ledger.increment_goal("protein"), Ok(()));
    assert_eq!(ledger.decrement_goal("protein"), Ok(()));
    let goals = ledger.query_goals();
    assert_eq!(goals.entries(), vec![(Nutrient::Protein, 1)]);
}

#[test]
fn test_dec_goal_validation_empty() {
    let mut ledger = GoalLedger::new();
    assert_eq!(ledger.decrement_goal("protein"), goal_zero_error());
    assert!(ledger.query_goals().is_empty());
    assert_eq!(ledger.len(), 0);
}

#[test]
fn test_dec_goal_validation_0() {
    let mut ledger = GoalLedger::new();
    assert_eq!(ledger.increment_goal("protein"), Ok(()));
    assert_eq!(ledger.decrement_goal("protein"), Ok(()));
    assert_eq!(ledger.decrement_goal("protein"), goal_zero_error());
    assert_eq!(ledger.query_goals().get(Nutrient::Protein), Some(0));
    assert_eq!(ledger.len(), 2);
}

#[test]
fn dec_goal_rejects_unknown_nutrient() {
    let mut ledger = GoalLedger::new();
    assert_eq!(ledger.increment_goal("protein"), Ok(()));
    assert_eq!(ledger.decrement_goal("Protein"), nutrient_error());
    assert_eq!(ledger.decrement_goal(""), nutrient_error());
    assert_eq!(ledger.query_goals().get(Nutrient::Protein), Some(1));
}

#[test]
fn dec_goal_on_other_nutrient_is_refused() {
    let mut ledger = GoalLedger::new();
    assert_eq!(ledger.increment_goal("carbs"), Ok(()));
    assert_eq!(ledger.decrement_goal("fats"), goal_zero_error());
    assert_eq!(ledger.query_goals().entries(), vec![(Nutrient::Carbs, 1)]);
}

#[test]
fn goal_queries_repeat_identically() {
    let mut ledger = GoalLedger::new();
    assert_eq!(ledger.increment_goal("vegetables"), Ok(()));
    assert_eq!(ledger.increment_goal("fats"), Ok(()));
    let first = ledger.query_goals();
    let second = ledger.query_goals();
    assert_eq!(first, second);
    assert_eq!(
        first.entries(),
        vec![(Nutrient::Vegetables, 1), (Nutrient::Fats, 1)]
    );
}
