//! What the pages of the catalog make of what is typed into them.

use crate::decimal::{decimal_digits, decode_unsigned, parse_unsigned, render_u64};
use crate::model::{Quantity, COUNT, GRAM, ML, TSP};
use vstd::prelude::*;
use vstd::string::*;

verus! {

/// Why what was typed is no quantity.
#[derive(Debug, Clone, PartialEq, Eq)]
pub enum QuantityError {
    /// The amount is no number; holds what was typed.
    ParseNumber(String),
    /// The unit is none of the four; holds what was chosen.
    InvalidType(String),
}

fn same_text(a: &str, b: &str) -> (r: bool)
    ensures
        r == (a@ == b@),
{
    String::from_str(a) == String::from_str(b)
}

/// The quantity with the unit named `symbol` and the given amount, if
/// `symbol` names a unit.
pub open spec fn spec_quantity_from_symbol(symbol: Seq<char>, amount: usize) -> Option<Quantity> {
    if symbol == COUNT@ {
        Some(Quantity::Count(amount))
    } else if symbol == GRAM@ {
        Some(Quantity::Gram(amount))
    } else if symbol == TSP@ {
        Some(Quantity::Tsp(amount))
    } else if symbol == ML@ {
        Some(Quantity::Ml(amount))
    } else {
        None
    }
}

/// The quantity that a form stands for: the amount that was read, in the
/// unit that was chosen. An amount that could not be read is passed on as it
/// failed; a unit that is none of the four is refused.
pub fn quantity_from_symbol(symbol: &str, current_num: Result<usize, QuantityError>) -> (r: Result<
    Quantity,
    QuantityError,
>)
    ensures
        current_num matches Err(e) ==> r == Err::<Quantity, QuantityError>(e),
        current_num matches Ok(amount) ==> match spec_quantity_from_symbol(symbol@, amount) {
            Some(quantity) => r == Ok::<Quantity, QuantityError>(quantity),
            None => r matches Err(QuantityError::InvalidType(what)) && what@ == symbol@,
        },
{
    let amount = match current_num {
        Ok(amount) => amount,
        Err(e) => {
            return Err(e);
        },
    };
    if same_text(symbol, COUNT) {
        Ok(Quantity::Count(amount))
    } else if same_text(symbol, GRAM) {
        Ok(Quantity::Gram(amount))
    } else if same_text(symbol, TSP) {
        Ok(Quantity::Tsp(amount))
    } else if same_text(symbol, ML) {
        Ok(Quantity::Ml(amount))
    } else {
        Err(QuantityError::InvalidType(String::from_str(symbol)))
    }
}

/// The four units have four names, so a quantity is had back from the name
/// of its unit and its amount.
pub proof fn lemma_quantity_from_its_label(quantity: Quantity)
    ensures
        spec_quantity_from_symbol(quantity.spec_label(), quantity.spec_value()) == Some(quantity),
{
    reveal_strlit("count");
    reveal_strlit("gram");
    reveal_strlit("tsp");
    reveal_strlit("ml");
    assert("count"@.len() == 5 && "gram"@.len() == 4 && "tsp"@.len() == 3 && "ml"@.len() == 2);
}

/// The amount that was typed into a form.
pub fn quantity_handler(value: &str) -> (r: Result<usize, QuantityError>)
    ensures
        decode_unsigned(value@, usize::MAX as int) matches Some(amount) ==> r == Ok::<
            usize,
            QuantityError,
        >(amount as usize),
        decode_unsigned(value@, usize::MAX as int) is None ==> (r matches Err(
            QuantityError::ParseNumber(what),
        ) && what@ == value@),
{
    match parse_unsigned(value, usize::MAX as u64) {
        Some(amount) => Ok(amount as usize),
        None => Err(QuantityError::ParseNumber(String::from_str(value))),
    }
}

/// How a quantity is shown: the amount, and the unit's sign but for a count.
pub open spec fn quantity_text(quantity: Quantity) -> Seq<char> {
    match quantity {
        Quantity::Count(n) => decimal_digits(n as nat),
        Quantity::Tsp(n) => decimal_digits(n as nat) + " tsp."@,
        Quantity::Gram(n) => decimal_digits(n as nat) + " g"@,
        Quantity::Ml(n) => decimal_digits(n as nat) + " ml"@,
    }
}

/// Shows a quantity.
pub fn formatted_quantity(quantity: &Quantity) -> (r: String)
    ensures
        r@ == quantity_text(*quantity),
{
    match quantity {
        Quantity::Count(n) => render_u64(*n as u64),
        Quantity::Tsp(n) => {
            let mut r = render_u64(*n as u64);
            r.append(" tsp.");
            r
        },
        Quantity::Gram(n) => {
            let mut r = render_u64(*n as u64);
            r.append(" g");
            r
        },
        Quantity::Ml(n) => {
            let mut r = render_u64(*n as u64);
            r.append(" ml");
            r
        },
    }
}

/// Where a listing stands in the catalog.
#[derive(Debug, Clone, Copy, PartialEq, Eq, Structural)]
pub struct PageState {
    pub offset: u32,
    pub total_pages: i64,
}

impl PageState {
    /// Whether the listing stands at the catalog's last page.
    pub fn at_last_page(&self) -> (r: bool)
        ensures
            r == (self.offset == self.total_pages as u32),
    {
        self.offset == #[verifier::truncate]
        (self.total_pages as u32)
    }
}

} // verus!
