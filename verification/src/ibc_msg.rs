//! Acknowledgement envelope and the decoded success payloads.
//!
//! Every packet is answered with one `StdAck`: either a success wrapping an
//! opaque result payload, or a human-readable error string. Which success
//! payload shape to expect is known only from the sender's own record of the
//! outstanding packet.

use vstd::prelude::*;

verus! {

/// One (denomination, amount) holding of the remote account.
#[derive(Debug, PartialEq, Clone)]
pub struct Coin {
    pub denom: String,
    pub amount: u128,
}

/// Mathematical value of a [`Coin`].
pub struct CoinView {
    pub denom: Seq<char>,
    pub amount: u128,
}

impl View for Coin {
    type V = CoinView;

    open spec fn view(&self) -> CoinView {
        CoinView { denom: self.denom@, amount: self.amount }
    }
}

impl Coin {
    /// A fresh coin with the same denomination and amount.
    pub fn duplicate(&self) -> (r: Coin)
        ensures
            r@ == self@,
    {
        Coin { denom: self.denom.clone(), amount: self.amount }
    }
}

/// The single acknowledgement envelope returned for every packet variant.
#[derive(Debug, PartialEq, Clone)]
pub enum StdAck {
    /// The remote side executed the packet; wraps the variant-specific
    /// result payload, opaque at this level.
    Success(Vec<u8>),
    /// The remote side reports a failure in human-readable form. Not a
    /// local fault: it is recorded or forwarded, never escalated.
    Error(String),
}

/// Mathematical value of a [`StdAck`].
pub enum StdAckView {
    Success(Seq<u8>),
    Error(Seq<char>),
}

impl View for StdAck {
    type V = StdAckView;

    open spec fn view(&self) -> StdAckView {
        match self {
            StdAck::Success(data) => StdAckView::Success(data@),
            StdAck::Error(msg) => StdAckView::Error(msg@),
        }
    }
}

impl StdAck {
    /// A fresh acknowledgement with the same contents.
    pub fn duplicate(&self) -> (r: StdAck)
        ensures
            r@ == self@,
    {
        match self {
            StdAck::Success(data) => StdAck::Success(vstd::slice::slice_to_vec(data.as_slice())),
            StdAck::Error(msg) => StdAck::Error(msg.clone()),
        }
    }
}

/// Success payload for a who-am-I packet: the remote account's address.
#[derive(Debug, PartialEq, Clone)]
pub struct WhoAmIResponse {
    pub account: String,
}

/// Mathematical value of a [`WhoAmIResponse`].
pub struct WhoAmIResponseView {
    pub account: Seq<char>,
}

impl View for WhoAmIResponse {
    type V = WhoAmIResponseView;

    open spec fn view(&self) -> WhoAmIResponseView {
        WhoAmIResponseView { account: self.account@ }
    }
}

/// Success payload for a balances packet: the remote account's address and
/// its holdings at the time the remote side answered.
#[derive(Debug, PartialEq, Clone)]
pub struct BalancesResponse {
    pub account: String,
    pub balances: Vec<Coin>,
}

/// Mathematical value of a [`BalancesResponse`].
pub struct BalancesResponseView {
    pub account: Seq<char>,
    pub balances: Seq<CoinView>,
}

impl View for BalancesResponse {
    type V = BalancesResponseView;

    open spec fn view(&self) -> BalancesResponseView {
        BalancesResponseView {
            account: self.account@,
            balances: self.balances@.map_values(|c: Coin| c@),
        }
    }
}

/// Success payload for a dispatch packet: one opaque result per message.
#[derive(Debug, PartialEq, Clone)]
pub struct DispatchResponse {
    pub results: Vec<Vec<u8>>,
}

impl View for DispatchResponse {
    type V = Seq<Seq<u8>>;

    open spec fn view(&self) -> Seq<Seq<u8>> {
        self.results@.map_values(|r: Vec<u8>| r@)
    }
}

/// Success payload for a remote-query packet: one opaque answer per query.
#[derive(Debug, PartialEq, Clone)]
pub struct IbcQueryResponse {
    pub results: Vec<Vec<u8>>,
}

impl View for IbcQueryResponse {
    type V = Seq<Seq<u8>>;

    open spec fn view(&self) -> Seq<Seq<u8>> {
        self.results@.map_values(|r: Vec<u8>| r@)
    }
}

} // verus!
