use crate::text::{digits_value, is_u64_numeral, numeral_digits, parse_u64};
use vstd::prelude::*;

verus! {

/// One field of a transaction record: a transaction name, or the numeric
/// start or end time of one.
#[derive(Debug)]
pub enum Item<'a> {
    Tx(&'a str),
    Start(u64),
    End(u64),
}

/// Reads one record field: a field that parses as an unsigned number is a
/// start time; anything else is a transaction name, handed back unchanged.
pub fn parse(s: &str) -> (r: Item<'_>)
    ensures
        (r is Start) <==> is_u64_numeral(s@) && digits_value(numeral_digits(s@)) <= u64::MAX,
        r is Start ==> r->Start_0 as nat == digits_value(numeral_digits(s@)),
        r is Tx ==> r->Tx_0@ == s@,
        !(r is End),
{
    match parse_u64(s) {
        Some(v) => Item::Start(v),
        None => Item::Tx(s),
    }
}

} // verus!
