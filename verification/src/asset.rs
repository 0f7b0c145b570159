use vstd::prelude::*;

verus! {

/// The chain an asset lives on, with its numeric chain id.
#[derive(Clone, Copy, Debug, PartialEq, Eq, Structural)]
pub enum Chain {
    /// Solana-style chain.
    Svm(u64),
    /// EVM L1/L2/L3 chain.
    Evm(u64),
}

/// An asset tracked by a price backend. Immutable value once constructed.
#[derive(Debug)]
pub struct Asset {
    pub address: String,
    pub symbol: String,
    pub chain: Chain,
    pub name: Option<String>,
    pub decimals: u8,
}

impl Asset {
    pub fn new(
        address: String,
        symbol: String,
        chain: Chain,
        name: Option<String>,
        decimals: u8,
    ) -> (r: Asset)
        ensures
            r.address == address,
            r.symbol == symbol,
            r.chain == chain,
            r.name == name,
            r.decimals == decimals,
    {
        Asset { address, symbol, chain, name, decimals }
    }
}

impl Clone for Asset {
    fn clone(&self) -> (r: Self)
        ensures
            r == *self,
    {
        let name = match &self.name {
            Some(n) => Some(n.clone()),
            None => None,
        };
        Asset {
            address: self.address.clone(),
            symbol: self.symbol.clone(),
            chain: self.chain,
            name,
            decimals: self.decimals,
        }
    }
}

/// A tag identifying which backend produced a price event.
#[derive(Clone, Copy, Debug, PartialEq, Eq, Structural)]
pub enum AssetPriceProvider {
    DeFiLlama,
}

/// A fixed-precision decimal price: `mantissa / 10^scale`.
///
/// Prices are never held as a floating type; a backend converts a feed's
/// numeric price to this representation before it reaches the library.
#[derive(Clone, Copy, Debug, PartialEq, Eq, Structural)]
pub struct Price {
    pub mantissa: i128,
    pub scale: u32,
}

impl Price {
    /// Decimal values keep at most 28 fractional digits.
    pub open spec fn wf(self) -> bool {
        self.scale <= 28
    }

    pub open spec fn spec_zero() -> Price {
        Price { mantissa: 0, scale: 0 }
    }

    pub fn zero() -> (r: Price)
        ensures
            r == Price::spec_zero(),
            r.wf(),
    {
        Price { mantissa: 0, scale: 0 }
    }

    pub fn new(mantissa: i128, scale: u32) -> (r: Option<Price>)
        ensures
            scale <= 28 ==> r == Some(Price { mantissa, scale }),
            scale > 28 ==> r is None,
            r is Some ==> r.unwrap().wf(),
    {
        if scale <= 28 {
            Some(Price { mantissa, scale })
        } else {
            None
        }
    }

    /// The price to publish for a feed entry: the converted value where the
    /// conversion succeeded, and zero where it overflowed or was not a number.
    pub fn or_zero(p: Option<Price>) -> (r: Price)
        ensures
            r == Price::spec_or_zero(p),
    {
        match p {
            Some(v) => v,
            None => Price { mantissa: 0, scale: 0 },
        }
    }

    pub open spec fn spec_or_zero(p: Option<Price>) -> Price {
        match p {
            Some(v) => v,
            None => Price::spec_zero(),
        }
    }
}

/// A price update published by a backend.
///
/// `asset` is a snapshot of the asset as registered at the moment of the
/// triggering fetch; a later removal does not invalidate the event.
/// `fetched_at` is the feed-provided unix timestamp in seconds, not the
/// wall clock at publish time.
#[derive(Debug)]
pub struct AssetPriceEvent {
    pub provider: AssetPriceProvider,
    pub asset: Asset,
    pub price: Price,
    pub fetched_at: u64,
}

impl Clone for AssetPriceEvent {
    fn clone(&self) -> (r: Self)
        ensures
            r == *self,
    {
        AssetPriceEvent {
            provider: self.provider,
            asset: self.asset.clone(),
            price: self.price,
            fetched_at: self.fetched_at,
        }
    }
}

} // verus!
