//! Trading pairs and their venue-native display forms.

use vstd::prelude::*;

use vstd::string::StringExecFns;

verus! {

/// What `str::to_uppercase` returns for a string: a function of the
/// characters alone.
pub uninterp spec fn upper_of(s: Seq<char>) -> Seq<char>;

/// Relies on `str::to_uppercase`: the result depends on the input's
/// characters alone.
#[verifier::external_body]
fn to_upper(s: &str) -> (r: String)
    ensures
        r@ == upper_of(s@),
{
    s.to_uppercase()
}

/// A `(base asset, quote asset)` trading instrument, both identifiers
/// lowercase.
#[derive(Debug, Clone, PartialEq, Eq, Hash)]
pub struct Pair {
    /// Base asset
    pub ba: String,
    /// Quote asset
    pub qa: String,
}

impl Pair {
    /// The concatenated subscription form: base then quote.
    pub open spec fn spec_fused(&self) -> Seq<char> {
        self.ba@ + self.qa@
    }

    pub fn new(ba: String, qa: String) -> (r: Self)
        ensures
            r.ba@ == ba@,
            r.qa@ == qa@,
    {
        Self { ba, qa }
    }

    /// The lowercase fused symbol, e.g. `btcusdt`: the subscription form.
    pub fn fused(&self) -> (r: String)
        ensures
            r@ == self.spec_fused(),
    {
        let mut s = self.ba.clone();
        s.append(self.qa.as_str());
        s
    }

    /// The uppercase fused symbol, e.g. `BTCUSDT`: the venue's REST and
    /// event-symbol form.
    pub fn fused_upper(&self) -> (r: String)
        ensures
            r@ == upper_of(self.spec_fused()),
    {
        let f = self.fused();
        to_upper(f.as_str())
    }

    /// The human-readable form, e.g. `BTC/USDT`.
    pub fn display(&self) -> (r: String)
        ensures
            r@ == upper_of(self.ba@) + "/"@ + upper_of(self.qa@),
    {
        let mut s = to_upper(self.ba.as_str());
        s.append("/");
        let q = to_upper(self.qa.as_str());
        s.append(q.as_str());
        s
    }
}

} // verus!
