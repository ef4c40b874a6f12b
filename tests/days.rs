use portions::day_ledger::NutrientLedger;
use portions::error::{LedgerError, Rejection};
use portions::nutrient::Nutrient;

fn rejected(r: Rejection) -> Result<(), LedgerError> {
    Err(LedgerError::InvalidRequest(r))
}

#[test]
fn test_get_portions_empty() {
    let ledger = NutrientLedger::new();
    assert!(ledger.query_day("2026-01-01").is_empty());
}

#[test]
fn test_consume() {
    let mut ledger = NutrientLedger::new();
    assert_eq!(ledger.record_consumption("2026-01-01", "protein"), Ok(()));
    let day = ledger.query_day("2026-01-01");
    assert_eq!(day.entries(), vec![(Nutrient::Protein, 1)]);
    assert!(ledger.query_day("2026-01-02").is_empty());
}

#[test]
fn test_consume_validation() {
    let mut ledger = NutrientLedger::new();
    assert_eq!(
        ledger.record_consumption("2026-01-01", "bad"),
        rejected(Rejection::InvalidNutrient)
    );
    assert!(ledger.query_day("2026-01-01").is_empty());
}

#[test]
fn test_unconsume() {
    let mut ledger = NutrientLedger::new();
    assert_eq!(ledger.record_consumption("2026-01-01", "protein"), Ok(()));
    assert_eq!(ledger.record_consumption("2026-01-01", "protein"), Ok(()));
    assert_eq!(ledger.record_unconsumption("2026-01-01", "protein"), Ok(()));
    let day = ledger.query_day("2026-01-01");
    assert_eq!(day.entries(), vec![(Nutrient::Protein, 1)]);
    assert!(ledger.query_day("2026-01-02").is_empty());
}

#[test]
fn test_unconsume_validation_empty() {
    let mut ledger = NutrientLedger::new();
    assert_eq!(
        ledger.record_unconsumption("2026-01-01", "protein"),
        rejected(Rejection::CountAlreadyZero)
    );
    assert!(ledger.query_day("2026-01-01").is_empty());
}

#[test]
fn test_unconsume_validation_zero() {
    let mut ledger = NutrientLedger::new();
    assert_eq!(ledger.record_consumption("2026-01-01", "protein"), Ok(()));
    assert_eq!(ledger.record_unconsumption("2026-01-01", "protein"), Ok(()));
    assert_eq!(
        ledger.record_unconsumption("2026-01-01", "protein"),
        rejected(Rejection::CountAlreadyZero)
    );
    let day = ledger.query_day("2026-01-01");
    assert_eq!(day.entries(), vec![(Nutrient::Protein, 0)]);
}

#[test]
fn consume_then_unconsume_leaves_difference() {
    let mut ledger = NutrientLedger::new();
    for _ in 0..5 {
        assert_eq!(ledger.record_consumption("2026-03-04", "vegetables"), Ok(()));
    }
    for _ in 0..3 {
        assert_eq!(ledger.record_unconsumption("2026-03-04", "vegetables"), Ok(()));
    }
    assert_eq!(ledger.query_day("2026-03-04").get(Nutrient::Vegetables), Some(2));
    assert_eq!(ledger.len(), 8);
}

#[test]
fn consume_rejects_malformed_dates() {
    let mut ledger = NutrientLedger::new();
    for date in [
        "2026-1-01",
        "abcd-ef-gh",
        "",
        "20260101",
        "\u{ff12}026-01-01",
        "x2026-01-01y",
        "on 2026-01-01!",
    ] {
        assert_eq!(
            ledger.record_consumption(date, "protein"),
            rejected(Rejection::InvalidDate)
        );
        assert_eq!(
            ledger.record_unconsumption(date, "protein"),
            rejected(Rejection::InvalidDate)
        );
    }
    assert_eq!(ledger.len(), 0);
}

#[test]
fn date_check_is_shape_only() {
    let mut ledger = NutrientLedger::new();
    assert_eq!(ledger.record_consumption("2026-13-99", "fats"), Ok(()));
    assert_eq!(ledger.record_consumption("0000-99-99", "fats"), Ok(()));
    assert_eq!(ledger.query_day("2026-13-99").get(Nutrient::Fats), Some(1));
    assert_eq!(ledger.query_day("0000-99-99").get(Nutrient::Fats), Some(1));
    assert!(ledger.query_day("2026-01-01").is_empty());
}

#[test]
fn invalid_date_is_reported_before_invalid_nutrient() {
    let mut ledger = NutrientLedger::new();
    assert_eq!(
        ledger.record_consumption("bad", "bad"),
        rejected(Rejection::InvalidDate)
    );
    assert_eq!(
        ledger.record_unconsumption("2026-01-01", "Carbs"),
        rejected(Rejection::InvalidNutrient)
    );
}

#[test]
fn query_day_accepts_any_text() {
    let mut ledger = NutrientLedger::new();
    assert_eq!(ledger.record_consumption("2026-01-01", "carbs"), Ok(()));
    assert!(ledger.query_day("not a date").is_empty());
    assert!(ledger.query_day("").is_empty());
}

#[test]
fn day_totals_group_by_nutrient() {
    let mut ledger = NutrientLedger::new();
    assert_eq!(ledger.record_consumption("2026-01-01", "fats"), Ok(()));
    assert_eq!(ledger.record_consumption("2026-01-01", "protein"), Ok(()));
    assert_eq!(ledger.record_consumption("2026-01-02", "protein"), Ok(()));
    assert_eq!(ledger.record_consumption("2026-01-01", "fats"), Ok(()));
    let day = ledger.query_day("2026-01-01");
    assert_eq!(
        day.entries(),
        vec![(Nutrient::Protein, 1), (Nutrient::Fats, 2)]
    );
    assert_eq!(day, ledger.query_day("2026-01-01"));
}
