//! Pair enumeration from the venue's symbol listing.
//!
//! The venue's exchange-information endpoint lists symbols as base and
//! quote asset names; the surrounding process fetches and decodes that
//! listing and hands the rows here to be turned into lowercase pairs.

use vstd::prelude::*;

use crate::pair::Pair;

verus! {

/// What `str::to_lowercase` returns for a string: a function of the
/// characters alone.
pub uninterp spec fn lower_of(s: Seq<char>) -> Seq<char>;

/// Relies on `str::to_lowercase`: the result depends on the input's
/// characters alone.
#[verifier::external_body]
fn to_lower(s: &str) -> (r: String)
    ensures
        r@ == lower_of(s@),
{
    s.to_lowercase()
}

/// One row of the venue's symbol listing.
pub struct SymbolInfo {
    pub base_asset: String,
    pub quote_asset: String,
}

/// Turn the venue's symbol listing into pairs, lowering each asset name,
/// in listing order.
pub fn pairs_from_symbols(symbols: &Vec<SymbolInfo>) -> (r: Vec<Pair>)
    ensures
        r@.len() == symbols@.len(),
        forall|i: int|
            0 <= i < r@.len() ==> r@[i].ba@ == lower_of(symbols@[i].base_asset@) && r@[i].qa@
                == lower_of(symbols@[i].quote_asset@),
{
    let mut r: Vec<Pair> = Vec::new();
    let mut i: usize = 0;
    while i < symbols.len()
        invariant
            i <= symbols@.len(),
            r@.len() == i,
            forall|j: int|
                0 <= j < i ==> r@[j].ba@ == lower_of(symbols@[j].base_asset@) && r@[j].qa@
                    == lower_of(symbols@[j].quote_asset@),
        decreases symbols@.len() - i,
    {
        let s = &symbols[i];
        r.push(Pair::new(to_lower(s.base_asset.as_str()), to_lower(s.quote_asset.as_str())));
        i = i + 1;
    }
    r
}

} // verus!
