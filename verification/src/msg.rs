//! Caller-facing request and response shapes.
//!
//! Chain-specific remote messages and queries travel as opaque byte
//! payloads, so the core stays independent of any one chain's vocabulary.

use vstd::prelude::*;
use crate::ibc_msg::{Coin, CoinView, StdAck, StdAckView};
use crate::state::AccountData;
use crate::client_ibc_msg::opt_string_view;

verus! {

/// This needs no info. Owner of the contract is whoever instantiates it.
#[derive(Debug, PartialEq, Clone)]
pub struct InstantiateMsg {}

/// One instruction from a local caller.
#[derive(Debug, PartialEq, Clone)]
pub enum ExecuteMsg {
    /// Changes the admin.
    UpdateAdmin { admin: String },
    /// Execute chain-specific messages on the remote account.
    SendMsgs {
        channel_id: String,
        /// Messages already encoded for the remote chain.
        msgs: Vec<Vec<u8>>,
        /// If set, the original caller gets a callback with the result,
        /// along with this id.
        callback_id: Option<String>,
    },
    /// Ask the remote side for the account's balances; the answer updates
    /// the registry directly and is not correlated back to a caller.
    CheckRemoteBalance { channel_id: String },
    /// Run chain-specific queries on the remote chain.
    IbcQuery {
        channel_id: String,
        /// Queries already encoded for the remote chain.
        msgs: Vec<Vec<u8>>,
        /// If set, the original caller gets a callback with the result,
        /// along with this id.
        callback_id: Option<String>,
    },
    /// Forward attached funds to the account on the remote side of the
    /// given channel. Fails while the remote address is still unknown.
    SendFunds {
        /// The channel whose remote account receives the funds.
        ica_channel_id: String,
        /// The transfer channel to move them over; it is bound to a
        /// different port but should connect to the same chain.
        transfer_channel_id: String,
    },
}

/// One read-only question about the controller's state.
#[derive(Debug, PartialEq, Clone)]
pub enum QueryMsg {
    /// Returns the current admin.
    Admin {},
    /// Shows all open accounts with their remote info.
    ListAccounts {},
    /// The account of one channel.
    Account { channel_id: String },
    /// The latest remote-query acknowledgement seen on a channel.
    LatestQueryResult { channel_id: String },
}

#[derive(Debug, PartialEq, Clone)]
pub struct AdminResponse {
    pub admin: String,
}

/// The latest remote-query acknowledgement recorded for a channel.
#[derive(Debug, PartialEq, Clone)]
pub struct LatestQueryResponse {
    /// When that acknowledgement was processed; 0 is never.
    pub last_update_time: u64,
    pub response: StdAck,
}

/// Mathematical value of a [`LatestQueryResponse`].
pub struct LatestQueryResponseView {
    pub last_update_time: u64,
    pub response: StdAckView,
}

impl View for LatestQueryResponse {
    type V = LatestQueryResponseView;

    open spec fn view(&self) -> LatestQueryResponseView {
        LatestQueryResponseView {
            last_update_time: self.last_update_time,
            response: self.response@,
        }
    }
}

/// One channel's account, as listed by the all-accounts query.
#[derive(Debug, PartialEq, Clone)]
pub struct AccountInfo {
    pub channel_id: String,
    /// When the balance was last updated; 0 is never.
    pub last_update_time: u64,
    /// Normally set; empty in the window between binding the channel and
    /// the first who-am-I answer.
    pub remote_addr: Option<String>,
    pub remote_balance: Vec<Coin>,
}

/// Mathematical value of an [`AccountInfo`].
pub struct AccountInfoView {
    pub channel_id: Seq<char>,
    pub last_update_time: u64,
    pub remote_addr: Option<Seq<char>>,
    pub remote_balance: Seq<CoinView>,
}

impl View for AccountInfo {
    type V = AccountInfoView;

    open spec fn view(&self) -> AccountInfoView {
        AccountInfoView {
            channel_id: self.channel_id@,
            last_update_time: self.last_update_time,
            remote_addr: opt_string_view(self.remote_addr),
            remote_balance: self.remote_balance@.map_values(|c: Coin| c@),
        }
    }
}

impl AccountInfo {
    /// Pairs a channel id with that channel's account data.
    pub fn convert(channel_id: String, input: AccountData) -> (r: AccountInfo)
        ensures
            r@.channel_id == channel_id@,
            r@.last_update_time == input@.last_update_time,
            r@.remote_addr == input@.remote_addr,
            r@.remote_balance == input@.remote_balance,
    {
        AccountInfo {
            channel_id,
            last_update_time: input.last_update_time,
            remote_addr: input.remote_addr,
            remote_balance: input.remote_balance,
        }
    }
}

#[derive(Debug, PartialEq, Clone)]
pub struct ListAccountsResponse {
    pub accounts: Vec<AccountInfo>,
}

/// One channel's account, as returned by the single-account query.
#[derive(Debug, PartialEq, Clone)]
pub struct AccountResponse {
    /// When the balance was last updated; 0 is never.
    pub last_update_time: u64,
    /// Normally set; empty in the window between binding the channel and
    /// the first who-am-I answer.
    pub remote_addr: Option<String>,
    pub remote_balance: Vec<Coin>,
}

/// Mathematical value of an [`AccountResponse`].
pub struct AccountResponseView {
    pub last_update_time: u64,
    pub remote_addr: Option<Seq<char>>,
    pub remote_balance: Seq<CoinView>,
}

impl View for AccountResponse {
    type V = AccountResponseView;

    open spec fn view(&self) -> AccountResponseView {
        AccountResponseView {
            last_update_time: self.last_update_time,
            remote_addr: opt_string_view(self.remote_addr),
            remote_balance: self.remote_balance@.map_values(|c: Coin| c@),
        }
    }
}

impl From<AccountData> for AccountResponse {
    fn from(input: AccountData) -> (r: AccountResponse) {
        AccountResponse {
            last_update_time: input.last_update_time,
            remote_addr: input.remote_addr,
            remote_balance: input.remote_balance,
        }
    }
}

impl vstd::std_specs::convert::FromSpecImpl<AccountData> for AccountResponse {
    open spec fn obeys_from_spec() -> bool {
        true
    }

    open spec fn from_spec(input: AccountData) -> AccountResponse {
        AccountResponse {
            last_update_time: input.last_update_time,
            remote_addr: input.remote_addr,
            remote_balance: input.remote_balance,
        }
    }
}

} // verus!
