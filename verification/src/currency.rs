//! Currencies and the trading pairs made of them.

use vstd::prelude::*;

verus! {

/// A currency that the feeds can quote.
#[non_exhaustive]
#[derive(Clone, Copy, Debug, PartialEq, Eq, Structural)]
pub enum Currency {
    Btc,
    Eth,
}

/// The lower-case form of a text, as `str::to_lowercase` gives it.
pub uninterp spec fn lowercase_of(s: Seq<char>) -> Seq<char>;

/// Calls `str::to_lowercase`. The lower-case form of a text depends on the
/// text alone; nothing more is claimed of it here.
#[verifier::external_body]
fn to_lowercase(s: &str) -> (r: String)
    ensures
        r@ == lowercase_of(s@),
{
    s.to_lowercase()
}

/// The message for a name that is no currency's.
pub open spec fn unsupported(name: Seq<char>) -> Seq<char> {
    "unsupported currency: `"@ + name + "`"@
}

impl Currency {
    /// The lower-case ticker of the currency, as the feeds spell it.
    pub open spec fn ticker(self) -> Seq<char> {
        match self {
            Currency::Btc => "btc"@,
            Currency::Eth => "eth"@,
        }
    }

    /// Whether `r` is what the name `given`, whose lower-case form is
    /// `lower`, reads as: the currency with that ticker, or the message that
    /// there is none.
    pub open spec fn reads_as(lower: Seq<char>, given: Seq<char>, r: Result<Currency, String>) -> bool {
        if lower == "btc"@ {
            r == Ok::<Currency, String>(Currency::Btc)
        } else if lower == "eth"@ {
            r == Ok::<Currency, String>(Currency::Eth)
        } else {
            r matches Err(message) && message@ == unsupported(given)
        }
    }

    /// The ticker of the currency.
    pub fn to_str(&self) -> (r: &'static str)
        ensures
            r@ == self.ticker(),
    {
        match self {
            Currency::Btc => "btc",
            Currency::Eth => "eth",
        }
    }

    /// Reads a name whose lower-case form is already at hand.
    pub fn from_lowercase(lower: &str, given: &str) -> (r: Result<Currency, String>)
        ensures
            Self::reads_as(lower@, given@, r),
    {
        let lower = String::from_str(lower);
        if lower == String::from_str("btc") {
            Ok(Currency::Btc)
        } else if lower == String::from_str("eth") {
            Ok(Currency::Eth)
        } else {
            let mut message = String::from_str("unsupported currency: `");
            message.append(given);
            message.append("`");
            Err(message)
        }
    }

    /// Reads the name of a currency, in upper or lower case.
    pub fn from_str(s: &str) -> (r: Result<Currency, String>)
        ensures
            Self::reads_as(lowercase_of(s@), s@, r),
    {
        let lower = to_lowercase(s);
        Currency::from_lowercase(lower.as_str(), s)
    }
}

impl std::str::FromStr for Currency {
    type Err = String;

    fn from_str(s: &str) -> (r: Result<Currency, String>)
        ensures
            Currency::reads_as(lowercase_of(s@), s@, r),
    {
        Currency::from_str(s)
    }
}

/// A trading pair: the currency that is priced and the currency it is priced
/// in.
#[derive(Clone, Copy, Debug)]
pub struct Conversion {
    from: Currency,
    to: Currency,
}

impl Conversion {
    /// The currency that is priced.
    pub closed spec fn target(&self) -> Currency {
        self.to
    }

    /// The currency that prices are given in.
    pub closed spec fn source(&self) -> Currency {
        self.from
    }

    /// The name of the pair as the feeds spell it: the two tickers, the
    /// priced currency first.
    pub open spec fn name(&self) -> Seq<char> {
        self.target().ticker() + self.source().ticker()
    }

    /// The pair that prices `to` in `from`.
    pub fn new(to: Currency, from: Currency) -> (r: Conversion)
        ensures
            r.target() == to,
            r.source() == from,
    {
        Conversion { from, to }
    }

    /// The name of the pair.
    pub fn to_string(&self) -> (r: String)
        ensures
            r@ == self.name(),
    {
        let mut name = String::from_str(self.to.to_str());
        name.append(self.from.to_str());
        name
    }
}

} // verus!
