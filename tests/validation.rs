use portions::error::{LedgerError, Rejection};
use portions::nutrient::{is_valid_nutrient, Nutrient};
use portions::totals::Totals;
use portions::validate::is_valid_date;

#[test]
fn nutrient_names_are_exact() {
    assert!(is_valid_nutrient("protein"));
    assert!(is_valid_nutrient("carbs"));
    assert!(is_valid_nutrient("vegetables"));
    assert!(is_valid_nutrient("fats"));
    assert!(!is_valid_nutrient("Protein"));
    assert!(!is_valid_nutrient("protein "));
    assert!(!is_valid_nutrient("fat"));
    assert!(!is_valid_nutrient(""));
}

#[test]
fn nutrient_parse_and_name_agree() {
    for n in [Nutrient::Protein, Nutrient::Carbs, Nutrient::Vegetables, Nutrient::Fats] {
        assert_eq!(Nutrient::parse(n.name()), Some(n));
    }
    assert_eq!(Nutrient::Vegetables.name(), "vegetables");
    assert_eq!(Nutrient::parse("sugar"), None);
}

#[test]
fn date_shape() {
    assert!(is_valid_date("2026-01-01"));
    assert!(is_valid_date("0000-99-99"));
    assert!(!is_valid_date("x2026-01-01y"));
    assert!(!is_valid_date("2026-01-01 "));
    assert!(!is_valid_date("2026-01-01\n"));
    assert!(!is_valid_date("12026-01-01"));
    assert!(!is_valid_date("2026-01-1"));
    assert!(!is_valid_date("2026/01/01"));
    assert!(!is_valid_date("\u{0663}026-01-01"));
    assert!(!is_valid_date(""));
}

#[test]
fn rejection_reasons() {
    assert_eq!(Rejection::InvalidDate.reason(), "invalid date");
    assert_eq!(Rejection::InvalidNutrient.reason(), "invalid nutrient");
    assert_eq!(
        Rejection::CountAlreadyZero.reason(),
        "can't unconsume because the count is already 0"
    );
    assert_eq!(
        Rejection::GoalAlreadyZero.reason(),
        "can't decrease because the goal is already 0"
    );
}

#[test]
fn error_kinds() {
    assert!(LedgerError::InvalidRequest(Rejection::InvalidDate).is_invalid_request());
    assert!(!LedgerError::StoreFailure.is_invalid_request());
}

#[test]
fn empty_totals_have_no_keys() {
    let t = Totals::empty();
    assert!(t.is_empty());
    assert_eq!(t.get(Nutrient::Protein), None);
    assert!(t.entries().is_empty());
    let zero = Totals { protein: Some(0), carbs: None, vegetables: None, fats: None };
    assert!(!zero.is_empty());
    assert_eq!(zero.entries(), vec![(Nutrient::Protein, 0)]);
}
