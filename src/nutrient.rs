//! The closed set of nutrient categories that the ledgers track.
use vstd::prelude::*;

verus! {

/// One of the four tracked nutrient categories.
#[derive(Clone, Copy, Debug, PartialEq, Eq, Hash, Structural)]
pub enum Nutrient {
    Protein,
    Carbs,
    Vegetables,
    Fats,
}

/// The exact (case-sensitive) name of a nutrient.
pub open spec fn name_of(n: Nutrient) -> Seq<char> {
    match n {
        Nutrient::Protein => "protein"@,
        Nutrient::Carbs => "carbs"@,
        Nutrient::Vegetables => "vegetables"@,
        Nutrient::Fats => "fats"@,
    }
}

/// The nutrient whose name is exactly `s`, if any.
pub open spec fn nutrient_named(s: Seq<char>) -> Option<Nutrient> {
    if s == "protein"@ {
        Some(Nutrient::Protein)
    } else if s == "carbs"@ {
        Some(Nutrient::Carbs)
    } else if s == "vegetables"@ {
        Some(Nutrient::Vegetables)
    } else if s == "fats"@ {
        Some(Nutrient::Fats)
    } else {
        None
    }
}

/// Every nutrient is found again by its own name.
pub proof fn lemma_name_round_trip(n: Nutrient)
    ensures
        nutrient_named(name_of(n)) == Some(n),
{
    reveal_strlit("protein");
    reveal_strlit("carbs");
    reveal_strlit("vegetables");
    reveal_strlit("fats");
    assert("protein"@.len() == 7 && "carbs"@.len() == 5);
    assert("vegetables"@.len() == 10 && "fats"@.len() == 4);
}

fn same_text(a: &str, b: &str) -> (r: bool)
    ensures
        r == (a@ == b@),
{
    a.to_owned() == b.to_owned()
}

impl Nutrient {
    /// The nutrient named exactly `s`, or `None` for any other text.
    pub fn parse(s: &str) -> (r: Option<Nutrient>)
        ensures
            r == nutrient_named(s@),
    {
        if same_text(s, "protein") {
            Some(Nutrient::Protein)
        } else if same_text(s, "carbs") {
            Some(Nutrient::Carbs)
        } else if same_text(s, "vegetables") {
            Some(Nutrient::Vegetables)
        } else if same_text(s, "fats") {
            Some(Nutrient::Fats)
        } else {
            None
        }
    }

    /// The name under which this nutrient is stored and reported.
    pub fn name(&self) -> (r: &'static str)
        ensures
            r@ == name_of(*self),
    {
        match self {
            Nutrient::Protein => "protein",
            Nutrient::Carbs => "carbs",
            Nutrient::Vegetables => "vegetables",
            Nutrient::Fats => "fats",
        }
    }
}

/// Whether `s` is exactly the name of one of the four nutrients.
pub fn is_valid_nutrient(s: &str) -> (r: bool)
    ensures
        r == nutrient_named(s@).is_some(),
{
    Nutrient::parse(s).is_some()
}

} // verus!
