use vstd::prelude::*;
use crate::addr::Addr;

verus! {

/// The direction of a swap as reported by the upstream feed.
#[derive(Clone, Copy, PartialEq, Eq, Structural, Debug)]
pub enum SwapKind {
    Buy,
    Sell,
    Other,
}

/// A decoded swap event supplied by the upstream feed.  Optional fields are
/// absent when the feed could not decode them; the engine degrades
/// gracefully (the affected rules are skipped) rather than failing.
pub struct SwapEvent {
    /// The token mint the swap touched.
    pub token: Addr,
    /// The wallet that signed the transaction.
    pub wallet: Addr,
    pub kind: SwapKind,
    /// SOL amount of the swap, in lamports.
    pub sol_amount: Option<u64>,
    /// Token price, fixed-point in the caller's quote unit.
    pub price: Option<u64>,
    /// Pool liquidity, in lamports.
    pub liquidity: Option<u64>,
    pub token_name: Option<String>,
    pub token_symbol: Option<String>,
    pub dex_name: String,
}

/// The mathematical value of a [`SwapEvent`]: the same fields with strings
/// replaced by character sequences.
pub struct SwapEventV {
    pub token: Addr,
    pub wallet: Addr,
    pub kind: SwapKind,
    pub sol_amount: Option<u64>,
    pub price: Option<u64>,
    pub liquidity: Option<u64>,
    pub token_name: Option<Seq<char>>,
    pub token_symbol: Option<Seq<char>>,
    pub dex_name: Seq<char>,
}

/// The view of an optional string: the character sequence, if present.
pub open spec fn opt_str_view(o: Option<String>) -> Option<Seq<char>> {
    match o {
        Option::Some(s) => Option::Some(s@),
        Option::None => Option::None,
    }
}

impl View for SwapEvent {
    type V = SwapEventV;

    open spec fn view(&self) -> SwapEventV {
        SwapEventV {
            token: self.token,
            wallet: self.wallet,
            kind: self.kind,
            sol_amount: self.sol_amount,
            price: self.price,
            liquidity: self.liquidity,
            token_name: opt_str_view(self.token_name),
            token_symbol: opt_str_view(self.token_symbol),
            dex_name: self.dex_name@,
        }
    }
}

} // verus!
