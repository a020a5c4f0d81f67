//! The venues the engine can connect to.
use vstd::prelude::*;

verus! {

/// A supported exchange.
#[derive(Debug, Clone, Copy, PartialEq, Eq, Structural)]
pub enum Exchange {
    Binance,
}

impl Exchange {
    pub open spec fn spec_name(&self) -> Seq<char> {
        match self {
            Exchange::Binance => "binance"@,
        }
    }

    /// The exchange's identifier.
    pub fn as_str(&self) -> (r: &'static str)
        ensures
            r@ == self.spec_name(),
    {
        match self {
            Exchange::Binance => "binance",
        }
    }
}

} // verus!
