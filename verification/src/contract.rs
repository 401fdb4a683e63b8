//! The controller itself: admin guard, channel registry, dispatch
//! preconditions, and acknowledgement processing.
//!
//! Sending mutates nothing: a caller instruction only builds a packet, after
//! checking its preconditions. All account state changes happen when an
//! acknowledgement is processed, and each acknowledgement updates only the
//! fields its own packet kind concerns, so acks of different kinds may
//! arrive in any order.

use vstd::prelude::*;
use vstd::string::StringExecFns;
use crate::state::{AccountData, KvStore};
use crate::msg::{
    AccountInfo, AccountResponse, AdminResponse, ExecuteMsg, LatestQueryResponse,
    ListAccountsResponse, QueryMsg,
};
use crate::ibc_msg::{Coin, CoinView, StdAck, StdAckView, BalancesResponseView};
use crate::client_ibc_msg::{PacketMsg, PacketMsgView, opt_string_view};
use crate::callback::ReceiveIcaResponseMsg;
use crate::codec;

verus! {

/// Why a caller instruction or an acknowledgement was rejected.
#[derive(Debug, PartialEq, Clone)]
pub enum ContractError {
    /// The caller of an admin-only operation is not the current admin.
    Unauthorized,
    /// The named channel has not completed a handshake with this contract.
    ChannelNotFound { channel_id: String },
    /// Funds cannot be forwarded while the remote address is unknown;
    /// a who-am-I acknowledgement must arrive first.
    RemoteAddressUnknown,
    /// A who-am-I acknowledgement reported an address different from the
    /// one already recorded. The recorded address is kept: a remote account
    /// does not change its identity, so this is an anomaly to surface, not
    /// a value to overwrite.
    RemoteAddressChanged,
}

impl ContractError {
    /// The rejection in words.
    pub fn describe(&self) -> (r: String)
        ensures
            self is Unauthorized ==> r@ == "unauthorized"@,
            self matches ContractError::ChannelNotFound { channel_id } ==> r@
                == "channel not found: "@ + channel_id@,
            self is RemoteAddressUnknown ==> r@
                == "remote address unknown - complete a who-am-i exchange first"@,
            self is RemoteAddressChanged ==> r@
                == "remote address differs from the recorded one"@,
    {
        match self {
            ContractError::Unauthorized => String::from_str("unauthorized"),
            ContractError::ChannelNotFound { channel_id } => String::from_str(
                "channel not found: ",
            ).concat(channel_id.as_str()),
            ContractError::RemoteAddressUnknown => String::from_str(
                "remote address unknown - complete a who-am-i exchange first",
            ),
            ContractError::RemoteAddressChanged => String::from_str(
                "remote address differs from the recorded one",
            ),
        }
    }
}

/// The funds-transfer instruction handed to the host's transfer transport.
#[derive(Debug, PartialEq, Clone)]
pub struct TransferMsg {
    /// The transfer channel to move the funds over.
    pub channel_id: String,
    /// The remote account that receives them.
    pub to_address: String,
    pub amount: Vec<Coin>,
}

/// Mathematical value of a [`TransferMsg`].
pub struct TransferMsgView {
    pub channel_id: Seq<char>,
    pub to_address: Seq<char>,
    pub amount: Seq<CoinView>,
}

impl View for TransferMsg {
    type V = TransferMsgView;

    open spec fn view(&self) -> TransferMsgView {
        TransferMsgView {
            channel_id: self.channel_id@,
            to_address: self.to_address@,
            amount: self.amount@.map_values(|c: Coin| c@),
        }
    }
}

/// The acknowledgement as the processor sees the raw bytes: decoded, or an
/// error acknowledgement standing in for bytes that decode as nothing. A
/// malformed acknowledgement must not abort processing: the correlation
/// still has to be resolved.
pub open spec fn spec_ack_of_bytes(b: Seq<u8>) -> StdAckView {
    match codec::spec_decode_ack(b) {
        Option::Some(a) => a,
        Option::None => StdAckView::Error("cannot decode acknowledgement"@),
    }
}

/// The remote address a who-am-I acknowledgement reports, if it is a
/// well-formed success.
pub open spec fn spec_who_am_i_addr(a: StdAckView) -> Option<Seq<char>> {
    match a {
        StdAckView::Success(data) => match codec::spec_decode_who_am_i_response(data) {
            Option::Some(w) => Option::Some(w.account),
            Option::None => Option::None,
        },
        StdAckView::Error(_) => Option::None,
    }
}

/// The balance report a balances acknowledgement carries, if it is a
/// well-formed success.
pub open spec fn spec_balances_of(a: StdAckView) -> Option<BalancesResponseView> {
    match a {
        StdAckView::Success(data) => codec::spec_decode_balances_response(data),
        StdAckView::Error(_) => Option::None,
    }
}

/// How processing a who-am-I acknowledgement relates the account registry
/// before (`pre`) and after (`post`): an error acknowledgement or an
/// unreadable payload changes nothing; a reported address is recorded once
/// and never overwritten; a conflicting report is rejected unchanged.
pub open spec fn spec_who_am_i_step(
    pre: Map<Seq<char>, AccountData>,
    post: Map<Seq<char>, AccountData>,
    ch: Seq<char>,
    ack: StdAckView,
    err: Option<ContractError>,
) -> bool {
    match spec_who_am_i_addr(ack) {
        Option::None => err is None && post == pre,
        Option::Some(addr) => if !pre.contains_key(ch) {
            &&& post == pre
            &&& err matches Some(ContractError::ChannelNotFound { channel_id }) && channel_id@
                == ch
        } else {
            match pre[ch]@.remote_addr {
                Option::None => {
                    &&& err is None
                    &&& post.contains_key(ch)
                    &&& post[ch]@.remote_addr == Option::Some(addr)
                    &&& post[ch]@.last_update_time == pre[ch]@.last_update_time
                    &&& post[ch]@.remote_balance == pre[ch]@.remote_balance
                    &&& post.dom() == pre.dom()
                    &&& forall|k: Seq<char>|
                        #![auto]
                        k != ch && pre.contains_key(k) ==> post[k] == pre[k]
                },
                Option::Some(existing) => if existing == addr {
                    err is None && post == pre
                } else {
                    (err matches Some(ContractError::RemoteAddressChanged)) && post == pre
                },
            }
        },
    }
}

/// How processing a balances acknowledgement relates the registry before
/// and after: a well-formed report replaces the stored balance wholesale
/// (never merged) and advances the update time, which never goes backwards;
/// anything else changes nothing.
pub open spec fn spec_balances_step(
    pre: Map<Seq<char>, AccountData>,
    post: Map<Seq<char>, AccountData>,
    ch: Seq<char>,
    ack: StdAckView,
    now: u64,
    err: Option<ContractError>,
) -> bool {
    match spec_balances_of(ack) {
        Option::None => err is None && post == pre,
        Option::Some(b) => if !pre.contains_key(ch) {
            &&& post == pre
            &&& err matches Some(ContractError::ChannelNotFound { channel_id }) && channel_id@
                == ch
        } else {
            &&& err is None
            &&& post.contains_key(ch)
            &&& post[ch]@.remote_balance == b.balances
            &&& post[ch]@.remote_addr == pre[ch]@.remote_addr
            &&& post[ch]@.last_update_time == (if now >= pre[ch]@.last_update_time {
                now
            } else {
                pre[ch]@.last_update_time
            })
            &&& post[ch]@.last_update_time >= pre[ch]@.last_update_time
            &&& post.dom() == pre.dom()
            &&& forall|k: Seq<char>|
                #![auto]
                k != ch && pre.contains_key(k) ==> post[k] == pre[k]
        },
    }
}

/// Across any sequence of balance acknowledgements on a channel, each
/// well-formed report replaces the stored balance with exactly its own
/// payload, and the update time never decreases.
pub proof fn lemma_balances_step_replaces_and_advances(
    pre: Map<Seq<char>, AccountData>,
    post: Map<Seq<char>, AccountData>,
    ch: Seq<char>,
    ack: StdAckView,
    now: u64,
    err: Option<ContractError>,
)
    requires
        spec_balances_step(pre, post, ch, ack, now, err),
        pre.contains_key(ch),
        spec_balances_of(ack) is Some,
    ensures
        post[ch]@.remote_balance == spec_balances_of(ack)->0.balances,
        post[ch]@.last_update_time >= pre[ch]@.last_update_time,
{
}

/// No balances acknowledgement ever touches the remote address: a channel
/// that has seen no who-am-I acknowledgement keeps reading as
/// address-unknown, whatever balance reports arrive.
pub proof fn lemma_balances_step_preserves_remote_addr(
    pre: Map<Seq<char>, AccountData>,
    post: Map<Seq<char>, AccountData>,
    ch: Seq<char>,
    ack: StdAckView,
    now: u64,
    err: Option<ContractError>,
)
    requires
        spec_balances_step(pre, post, ch, ack, now, err),
        pre.contains_key(ch),
    ensures
        post.contains_key(ch),
        post[ch]@.remote_addr == pre[ch]@.remote_addr,
{
}

/// A channel's remote address, once recorded, is immutable for the life of
/// the channel: a later who-am-I acknowledgement either repeats it and
/// changes nothing, or conflicts and is rejected without a change.
pub proof fn lemma_remote_addr_immutable_once_set(
    pre: Map<Seq<char>, AccountData>,
    post: Map<Seq<char>, AccountData>,
    ch: Seq<char>,
    ack: StdAckView,
    err: Option<ContractError>,
)
    requires
        spec_who_am_i_step(pre, post, ch, ack, err),
        pre.contains_key(ch),
        pre[ch]@.remote_addr is Some,
    ensures
        post.contains_key(ch),
        post[ch]@.remote_addr == pre[ch]@.remote_addr,
{
}

/// The controller's whole state: the admin identity, the per-channel
/// account registry, and the latest remote-query result per channel.
pub struct IcaController {
    admin: String,
    accounts: KvStore<AccountData>,
    latest_queries: KvStore<LatestQueryResponse>,
}

impl IcaController {
    /// The two stores keep their keys unique.
    pub closed spec fn wf(&self) -> bool {
        self.accounts.wf() && self.latest_queries.wf()
    }

    /// The current admin identity.
    pub closed spec fn spec_admin(&self) -> Seq<char> {
        self.admin@
    }

    /// The account registry: channel id to account data.
    pub closed spec fn spec_accounts(&self) -> Map<Seq<char>, AccountData> {
        self.accounts@
    }

    /// The latest remote-query acknowledgement recorded per channel.
    pub closed spec fn spec_latest_queries(&self) -> Map<Seq<char>, LatestQueryResponse> {
        self.latest_queries@
    }

    /// Sets up a fresh controller: the instantiating caller becomes admin,
    /// and no channel is bound yet.
    pub fn instantiate(admin: String) -> (r: IcaController)
        ensures
            r.wf(),
            r.spec_admin() == admin@,
            r.spec_accounts() == Map::<Seq<char>, AccountData>::empty(),
            r.spec_latest_queries() == Map::<Seq<char>, LatestQueryResponse>::empty(),
    {
        IcaController {
            admin,
            accounts: KvStore::empty(),
            latest_queries: KvStore::empty(),
        }
    }

    /// Replaces the admin identity. Succeeds exactly when the caller is the
    /// current admin; the previous admin loses all privilege at once.
    pub fn update_admin(&mut self, caller: &str, new_admin: String) -> (r: Result<
        (),
        ContractError,
    >)
        requires
            old(self).wf(),
        ensures
            final(self).wf(),
            r is Ok <==> caller@ == old(self).spec_admin(),
            r is Ok ==> final(self).spec_admin() == new_admin@,
            r is Err ==> (r matches Err(ContractError::Unauthorized) && final(self).spec_admin()
                == old(self).spec_admin()),
            final(self).spec_accounts() == old(self).spec_accounts(),
            final(self).spec_latest_queries() == old(self).spec_latest_queries(),
    {
        let c = caller.to_owned();
        if c == self.admin {
            self.admin = new_admin;
            Ok(())
        } else {
            Err(ContractError::Unauthorized)
        }
    }

    /// Builds a dispatch packet for a known channel; nothing is mutated on
    /// send, state changes only when the acknowledgement arrives.
    pub fn handle_send_msgs(
        &self,
        sender: String,
        channel_id: &str,
        msgs: Vec<Vec<u8>>,
        callback_id: Option<String>,
    ) -> (r: Result<PacketMsg, ContractError>)
        requires
            self.wf(),
        ensures
            r is Ok <==> self.spec_accounts().contains_key(channel_id@),
            r matches Ok(p) ==> p@ == (PacketMsgView::Dispatch {
                sender: sender@,
                msgs: msgs@.map_values(|m: Vec<u8>| m@),
                callback_id: opt_string_view(callback_id),
            }),
            r matches Err(e) ==> (e matches ContractError::ChannelNotFound { channel_id: c } && c@
                == channel_id@),
    {
        if self.accounts.contains(channel_id) {
            Ok(PacketMsg::Dispatch { sender, msgs, callback_id })
        } else {
            Err(ContractError::ChannelNotFound { channel_id: channel_id.to_owned() })
        }
    }

    /// Builds a remote-query packet for a known channel.
    pub fn handle_ibc_query(
        &self,
        sender: String,
        channel_id: &str,
        msgs: Vec<Vec<u8>>,
        callback_id: Option<String>,
    ) -> (r: Result<PacketMsg, ContractError>)
        requires
            self.wf(),
        ensures
            r is Ok <==> self.spec_accounts().contains_key(channel_id@),
            r matches Ok(p) ==> p@ == (PacketMsgView::IbcQuery {
                sender: sender@,
                msgs: msgs@.map_values(|m: Vec<u8>| m@),
                callback_id: opt_string_view(callback_id),
            }),
            r matches Err(e) ==> (e matches ContractError::ChannelNotFound { channel_id: c } && c@
                == channel_id@),
    {
        if self.accounts.contains(channel_id) {
            Ok(PacketMsg::IbcQuery { sender, msgs, callback_id })
        } else {
            Err(ContractError::ChannelNotFound { channel_id: channel_id.to_owned() })
        }
    }

    /// Builds a balances packet for a known channel. No callback id is
    /// taken: the answer updates the registry directly and is not
    /// correlated back to a caller.
    pub fn handle_check_remote_balance(&self, channel_id: &str) -> (r: Result<
        PacketMsg,
        ContractError,
    >)
        requires
            self.wf(),
        ensures
            r is Ok <==> self.spec_accounts().contains_key(channel_id@),
            r matches Ok(p) ==> p@ == PacketMsgView::Balances,
            r matches Err(e) ==> (e matches ContractError::ChannelNotFound { channel_id: c } && c@
                == channel_id@),
    {
        if self.accounts.contains(channel_id) {
            Ok(PacketMsg::Balances {  })
        } else {
            Err(ContractError::ChannelNotFound { channel_id: channel_id.to_owned() })
        }
    }

    /// Builds the instruction that forwards attached funds to the remote
    /// account bound to `ica_channel_id`, over the separate transfer
    /// channel. Succeeds exactly when that channel is known and its remote
    /// address has already been reported by a who-am-I acknowledgement.
    pub fn handle_send_funds(
        &self,
        ica_channel_id: &str,
        transfer_channel_id: String,
        funds: Vec<Coin>,
    ) -> (r: Result<TransferMsg, ContractError>)
        requires
            self.wf(),
        ensures
            r is Ok <==> (self.spec_accounts().contains_key(ica_channel_id@)
                && self.spec_accounts()[ica_channel_id@]@.remote_addr is Some),
            r matches Ok(t) ==> ({
                &&& t@.channel_id == transfer_channel_id@
                &&& Option::Some(t@.to_address) == self.spec_accounts()[ica_channel_id@]@.remote_addr
                &&& t@.amount == funds@.map_values(|c: Coin| c@)
            }),
            !self.spec_accounts().contains_key(ica_channel_id@) ==> (r matches Err(
                ContractError::ChannelNotFound { channel_id: c },
            ) && c@ == ica_channel_id@),
            (self.spec_accounts().contains_key(ica_channel_id@)
                && self.spec_accounts()[ica_channel_id@]@.remote_addr is None) ==> r matches Err(
                ContractError::RemoteAddressUnknown,
            ),
    {
        match self.accounts.get(ica_channel_id) {
            Option::None => Err(
                ContractError::ChannelNotFound { channel_id: ica_channel_id.to_owned() },
            ),
            Option::Some(acct) => match &acct.remote_addr {
                Option::None => Err(ContractError::RemoteAddressUnknown),
                Option::Some(addr) => Ok(
                    TransferMsg {
                        channel_id: transfer_channel_id,
                        to_address: addr.clone(),
                        amount: funds,
                    },
                ),
            },
        }
    }

    /// A channel finished its handshake: bind it with a fresh account
    /// (nothing known yet) and ask the remote side who the account is.
    pub fn on_channel_connect(&mut self, channel_id: String) -> (p: PacketMsg)
        requires
            old(self).wf(),
        ensures
            final(self).wf(),
            p@ == PacketMsgView::WhoAmI,
            final(self).spec_admin() == old(self).spec_admin(),
            final(self).spec_latest_queries() == old(self).spec_latest_queries(),
            final(self).spec_accounts().contains_key(channel_id@),
            final(self).spec_accounts()[channel_id@]@.last_update_time == 0,
            final(self).spec_accounts()[channel_id@]@.remote_addr is None,
            final(self).spec_accounts()[channel_id@]@.remote_balance.len() == 0,
            final(self).spec_accounts().dom() == old(self).spec_accounts().dom().insert(
                channel_id@,
            ),
            forall|k: Seq<char>|
                #![auto]
                k != channel_id@ && old(self).spec_accounts().contains_key(k) ==> final(self).spec_accounts()[k] == old(self).spec_accounts()[k],
    {
        let ghost cid = channel_id@;
        self.accounts.set(channel_id, AccountData::fresh());
        proof {
            assert(self.accounts@.dom() =~= old(self).accounts@.dom().insert(cid));
        }
        PacketMsg::WhoAmI {  }
    }

    /// A channel closed: its registry entries are deleted.
    pub fn on_channel_close(&mut self, channel_id: &str)
        requires
            old(self).wf(),
        ensures
            final(self).wf(),
            final(self).spec_admin() == old(self).spec_admin(),
            final(self).spec_accounts() == old(self).spec_accounts().remove(channel_id@),
            final(self).spec_latest_queries() == old(self).spec_latest_queries().remove(
                channel_id@,
            ),
    {
        self.accounts.remove(channel_id);
        self.latest_queries.remove(channel_id);
    }

    /// Processes the who-am-I acknowledgement for `channel_id`.
    pub fn acknowledge_who_am_i(&mut self, channel_id: &str, ack: &StdAck) -> (r: Result<
        (),
        ContractError,
    >)
        requires
            old(self).wf(),
        ensures
            final(self).wf(),
            final(self).spec_admin() == old(self).spec_admin(),
            final(self).spec_latest_queries() == old(self).spec_latest_queries(),
            spec_who_am_i_step(
                old(self).spec_accounts(),
                final(self).spec_accounts(),
                channel_id@,
                ack@,
                if r is Ok {
                    Option::None
                } else {
                    Option::Some(r->Err_0)
                },
            ),
    {
        let addr = match ack {
            StdAck::Success(data) => match codec::decode_who_am_i_response(data.as_slice()) {
                Ok(w) => Option::Some(w.account),
                Err(_) => Option::None,
            },
            StdAck::Error(_) => Option::None,
        };
        match addr {
            Option::None => Ok(()),
            Option::Some(account) => {
                let dup = match self.accounts.get(channel_id) {
                    Option::None => Option::None,
                    Option::Some(a) => Option::Some(a.duplicate()),
                };
                match dup {
                    Option::None => Err(
                        ContractError::ChannelNotFound { channel_id: channel_id.to_owned() },
                    ),
                    Option::Some(mut acct) => match &acct.remote_addr {
                        Option::None => {
                            acct.remote_addr = Option::Some(account);
                            self.accounts.set(channel_id.to_owned(), acct);
                            proof {
                                assert(self.accounts@.dom() =~= old(self).accounts@.dom());
                            }
                            Ok(())
                        },
                        Option::Some(existing) => {
                            if *existing == account {
                                Ok(())
                            } else {
                                Err(ContractError::RemoteAddressChanged)
                            }
                        },
                    },
                }
            },
        }
    }

    /// Processes the balances acknowledgement for `channel_id` at
    /// processing time `now`.
    pub fn acknowledge_balances(&mut self, channel_id: &str, ack: &StdAck, now: u64) -> (r: Result<
        (),
        ContractError,
    >)
        requires
            old(self).wf(),
        ensures
            final(self).wf(),
            final(self).spec_admin() == old(self).spec_admin(),
            final(self).spec_latest_queries() == old(self).spec_latest_queries(),
            spec_balances_step(
                old(self).spec_accounts(),
                final(self).spec_accounts(),
                channel_id@,
                ack@,
                now,
                if r is Ok {
                    Option::None
                } else {
                    Option::Some(r->Err_0)
                },
            ),
    {
        let report = match ack {
            StdAck::Success(data) => match codec::decode_balances_response(data.as_slice()) {
                Ok(b) => Option::Some(b),
                Err(_) => Option::None,
            },
            StdAck::Error(_) => Option::None,
        };
        match report {
            Option::None => Ok(()),
            Option::Some(b) => {
                let dup = match self.accounts.get(channel_id) {
                    Option::None => Option::None,
                    Option::Some(a) => Option::Some(a.duplicate()),
                };
                match dup {
                    Option::None => Err(
                        ContractError::ChannelNotFound { channel_id: channel_id.to_owned() },
                    ),
                    Option::Some(mut acct) => {
                        acct.remote_balance = b.balances;
                        if now >= acct.last_update_time {
                            acct.last_update_time = now;
                        }
                        self.accounts.set(channel_id.to_owned(), acct);
                        proof {
                            assert(self.accounts@.dom() =~= old(self).accounts@.dom());
                        }
                        Ok(())
                    },
                }
            },
        }
    }

    /// Processes the acknowledgement returned for a previously sent packet.
    /// The packet is the controller's own record of what is outstanding;
    /// the channel id comes from the delivery context. Bytes that decode as
    /// nothing are treated as an error acknowledgement, never as a fault.
    /// Exactly one callback is emitted iff the originating packet carried a
    /// callback id, and it carries that id and the decoded acknowledgement.
    pub fn on_packet_ack(
        &mut self,
        channel_id: &str,
        packet: &PacketMsg,
        ack_bytes: &[u8],
        now: u64,
    ) -> (r: Result<Option<ReceiveIcaResponseMsg>, ContractError>)
        requires
            old(self).wf(),
        ensures
            final(self).wf(),
            final(self).spec_admin() == old(self).spec_admin(),
            packet@ matches PacketMsgView::Dispatch { callback_id: Option::Some(id), .. } ==> (
            r matches Ok(Some(cb)) && cb@.id == id && cb@.msg == spec_ack_of_bytes(ack_bytes@)),
            packet@ matches PacketMsgView::Dispatch { callback_id: Option::None, .. } ==> (
            r matches Ok(cb) && cb is None),
            packet@ is Dispatch ==> (final(self).spec_accounts() == old(self).spec_accounts()
                && final(self).spec_latest_queries() == old(self).spec_latest_queries()),
            packet@ matches PacketMsgView::IbcQuery { callback_id: Option::Some(id), .. } ==> (
            r matches Ok(Some(cb)) && cb@.id == id && cb@.msg == spec_ack_of_bytes(ack_bytes@)),
            packet@ matches PacketMsgView::IbcQuery { callback_id: Option::None, .. } ==> (
            r matches Ok(cb) && cb is None),
            packet@ is IbcQuery ==> ({
                &&& final(self).spec_accounts() == old(self).spec_accounts()
                &&& final(self).spec_latest_queries().contains_key(channel_id@)
                &&& final(self).spec_latest_queries()[channel_id@]@.last_update_time == now
                &&& final(self).spec_latest_queries()[channel_id@]@.response == spec_ack_of_bytes(
                    ack_bytes@,
                )
                &&& forall|k: Seq<char>|
                    #![auto]
                    k != channel_id@ ==> final(self).spec_latest_queries().contains_key(k) == old(self).spec_latest_queries().contains_key(k)
                &&& forall|k: Seq<char>|
                    #![auto]
                    k != channel_id@ && old(self).spec_latest_queries().contains_key(k) ==> final(self).spec_latest_queries()[k] == old(self).spec_latest_queries()[k]
            }),
            packet@ is WhoAmI ==> ({
                &&& final(self).spec_latest_queries() == old(self).spec_latest_queries()
                &&& (r is Ok ==> r->Ok_0 is None)
                &&& spec_who_am_i_step(
                    old(self).spec_accounts(),
                    final(self).spec_accounts(),
                    channel_id@,
                    spec_ack_of_bytes(ack_bytes@),
                    if r is Ok {
                        Option::None
                    } else {
                        Option::Some(r->Err_0)
                    },
                )
            }),
            packet@ is Balances ==> ({
                &&& final(self).spec_latest_queries() == old(self).spec_latest_queries()
                &&& (r is Ok ==> r->Ok_0 is None)
                &&& spec_balances_step(
                    old(self).spec_accounts(),
                    final(self).spec_accounts(),
                    channel_id@,
                    spec_ack_of_bytes(ack_bytes@),
                    now,
                    if r is Ok {
                        Option::None
                    } else {
                        Option::Some(r->Err_0)
                    },
                )
            }),
    {
        let ack = match codec::decode_ack(ack_bytes) {
            Ok(a) => a,
            Err(_) => StdAck::Error("cannot decode acknowledgement".to_owned()),
        };
        match packet {
            PacketMsg::Dispatch { callback_id, .. } => match callback_id {
                Option::None => Ok(Option::None),
                Option::Some(id) => Ok(
                    Option::Some(ReceiveIcaResponseMsg { id: id.clone(), msg: ack }),
                ),
            },
            PacketMsg::IbcQuery { callback_id, .. } => {
                self.latest_queries.set(
                    channel_id.to_owned(),
                    LatestQueryResponse { last_update_time: now, response: ack.duplicate() },
                );
                match callback_id {
                    Option::None => Ok(Option::None),
                    Option::Some(id) => Ok(
                        Option::Some(ReceiveIcaResponseMsg { id: id.clone(), msg: ack }),
                    ),
                }
            },
            PacketMsg::WhoAmI {  } => {
                self.acknowledge_who_am_i(channel_id, &ack)?;
                Ok(Option::None)
            },
            PacketMsg::Balances {  } => {
                self.acknowledge_balances(channel_id, &ack, now)?;
                Ok(Option::None)
            },
        }
    }

    /// The current admin.
    pub fn query_admin(&self) -> (r: AdminResponse)
        ensures
            r.admin@ == self.spec_admin(),
    {
        AdminResponse { admin: self.admin.clone() }
    }

    /// One channel's account. Fails exactly when the channel is unknown.
    pub fn query_account(&self, channel_id: &str) -> (r: Result<AccountResponse, ContractError>)
        requires
            self.wf(),
        ensures
            r is Ok <==> self.spec_accounts().contains_key(channel_id@),
            r matches Ok(a) ==> ({
                &&& a@.last_update_time == self.spec_accounts()[channel_id@]@.last_update_time
                &&& a@.remote_addr == self.spec_accounts()[channel_id@]@.remote_addr
                &&& a@.remote_balance == self.spec_accounts()[channel_id@]@.remote_balance
            }),
            r matches Err(e) ==> (e matches ContractError::ChannelNotFound { channel_id: c } && c@
                == channel_id@),
    {
        match self.accounts.get(channel_id) {
            Option::None => Err(
                ContractError::ChannelNotFound { channel_id: channel_id.to_owned() },
            ),
            Option::Some(a) => Ok(AccountResponse::from(a.duplicate())),
        }
    }

    /// The latest remote-query acknowledgement seen on a channel. Fails
    /// exactly when none has ever been recorded for it.
    pub fn query_latest_query_result(&self, channel_id: &str) -> (r: Result<
        LatestQueryResponse,
        ContractError,
    >)
        requires
            self.wf(),
        ensures
            r is Ok <==> self.spec_latest_queries().contains_key(channel_id@),
            r matches Ok(l) ==> l@ == self.spec_latest_queries()[channel_id@]@,
            r matches Err(e) ==> (e matches ContractError::ChannelNotFound { channel_id: c } && c@
                == channel_id@),
    {
        match self.latest_queries.get(channel_id) {
            Option::None => Err(
                ContractError::ChannelNotFound { channel_id: channel_id.to_owned() },
            ),
            Option::Some(l) => Ok(
                LatestQueryResponse {
                    last_update_time: l.last_update_time,
                    response: l.response.duplicate(),
                },
            ),
        }
    }

    /// All bound channels with their account info, one entry per channel.
    pub fn query_list_accounts(&self) -> (r: ListAccountsResponse)
        requires
            self.wf(),
        ensures
            forall|i: int|
                0 <= i < r.accounts@.len() ==> ({
                    &&& self.spec_accounts().contains_key(#[trigger] r.accounts@[i]@.channel_id)
                    &&& r.accounts@[i]@.last_update_time == self.spec_accounts()[r.accounts@[i]@.channel_id]@.last_update_time
                    &&& r.accounts@[i]@.remote_addr == self.spec_accounts()[r.accounts@[i]@.channel_id]@.remote_addr
                    &&& r.accounts@[i]@.remote_balance == self.spec_accounts()[r.accounts@[i]@.channel_id]@.remote_balance
                }),
            forall|k: Seq<char>|
                self.spec_accounts().contains_key(k) ==> exists|i: int|
                    0 <= i < r.accounts@.len() && #[trigger] r.accounts@[i]@.channel_id == k,
            forall|i: int, j: int|
                0 <= i < j < r.accounts@.len() ==> #[trigger] r.accounts@[i]@.channel_id
                    != #[trigger] r.accounts@[j]@.channel_id,
    {
        let entries = self.accounts.entries();
        let mut accounts: Vec<AccountInfo> = Vec::new();
        let mut i: usize = 0;
        while i < entries.len()
            invariant
                i <= entries@.len(),
                accounts@.len() == i,
                self.wf(),
                crate::state::unique_keys(entries@),
                forall|j: int|
                    0 <= j < entries@.len() ==> self.spec_accounts().contains_key(
                        #[trigger] entries@[j].0@,
                    ) && self.spec_accounts()[entries@[j].0@] == entries@[j].1,
                forall|j: int|
                    0 <= j < i ==> #[trigger] accounts@[j]@.channel_id == entries@[j].0@,
                forall|j: int|
                    0 <= j < i ==> ({
                        &&& (#[trigger] accounts@[j])@.last_update_time == entries@[j].1@.last_update_time
                        &&& accounts@[j]@.remote_addr == entries@[j].1@.remote_addr
                        &&& accounts@[j]@.remote_balance == entries@[j].1@.remote_balance
                    }),
            decreases entries@.len() - i,
        {
            let (channel_id, data) = &entries[i];
            accounts.push(AccountInfo::convert(channel_id.clone(), data.duplicate()));
            i = i + 1;
        }
        proof {
            assert forall|k: Seq<char>| self.spec_accounts().contains_key(k) implies exists|j: int|
                0 <= j < accounts@.len() && #[trigger] accounts@[j]@.channel_id == k by {
                let j = choose|j: int| 0 <= j < entries@.len() && #[trigger] entries@[j].0@ == k;
                assert(accounts@[j]@.channel_id == k);
            }
        }
        ListAccountsResponse { accounts }
    }
}


/// What a successfully executed instruction hands back to the host: a
/// packet to send on a channel, a funds transfer to enqueue, or nothing
/// beyond the state change (an admin update).
#[derive(Debug, PartialEq, Clone)]
pub enum ExecuteOutcome {
    SendPacket { channel_id: String, packet: PacketMsg },
    Transfer(TransferMsg),
    Nothing,
}

/// The answer to one query.
#[derive(Debug, PartialEq, Clone)]
pub enum QueryAnswer {
    Admin(AdminResponse),
    ListAccounts(ListAccountsResponse),
    Account(AccountResponse),
    LatestQueryResult(LatestQueryResponse),
}

impl IcaController {
    /// One caller instruction, dispatched to the operation it names.
    /// `caller` is the authenticated sender of the instruction and `funds`
    /// are the coins attached to it (used only by `SendFunds`).
    pub fn execute(&mut self, caller: String, funds: Vec<Coin>, msg: ExecuteMsg) -> (r: Result<
        ExecuteOutcome,
        ContractError,
    >)
        requires
            old(self).wf(),
        ensures
            final(self).wf(),
            final(self).spec_accounts() == old(self).spec_accounts(),
            final(self).spec_latest_queries() == old(self).spec_latest_queries(),
            msg matches ExecuteMsg::UpdateAdmin { admin } ==> ({
                &&& r is Ok <==> caller@ == old(self).spec_admin()
                &&& (r is Ok ==> final(self).spec_admin() == admin@ && r->Ok_0
                    == ExecuteOutcome::Nothing)
                &&& (r is Err ==> r->Err_0 == ContractError::Unauthorized && final(self).spec_admin() == old(self).spec_admin())
            }),
            !(msg is UpdateAdmin) ==> final(self).spec_admin() == old(self).spec_admin(),
            msg matches ExecuteMsg::SendMsgs { channel_id, msgs, callback_id } ==> ({
                &&& r is Ok <==> old(self).spec_accounts().contains_key(channel_id@)
                &&& (r matches Ok(ExecuteOutcome::SendPacket { channel_id: ch, packet }) ==> ch@
                    == channel_id@ && packet@ == (PacketMsgView::Dispatch {
                    sender: caller@,
                    msgs: msgs@.map_values(|m: Vec<u8>| m@),
                    callback_id: opt_string_view(callback_id),
                }))
                &&& (r is Ok ==> r->Ok_0 is SendPacket)
                &&& (r is Err ==> (r->Err_0 matches ContractError::ChannelNotFound {
                    channel_id: c,
                } && c@ == channel_id@))
            }),
            msg matches ExecuteMsg::IbcQuery { channel_id, msgs, callback_id } ==> ({
                &&& r is Ok <==> old(self).spec_accounts().contains_key(channel_id@)
                &&& (r matches Ok(ExecuteOutcome::SendPacket { channel_id: ch, packet }) ==> ch@
                    == channel_id@ && packet@ == (PacketMsgView::IbcQuery {
                    sender: caller@,
                    msgs: msgs@.map_values(|m: Vec<u8>| m@),
                    callback_id: opt_string_view(callback_id),
                }))
                &&& (r is Ok ==> r->Ok_0 is SendPacket)
                &&& (r is Err ==> (r->Err_0 matches ContractError::ChannelNotFound {
                    channel_id: c,
                } && c@ == channel_id@))
            }),
            msg matches ExecuteMsg::CheckRemoteBalance { channel_id } ==> ({
                &&& r is Ok <==> old(self).spec_accounts().contains_key(channel_id@)
                &&& (r matches Ok(ExecuteOutcome::SendPacket { channel_id: ch, packet }) ==> ch@
                    == channel_id@ && packet@ == PacketMsgView::Balances)
                &&& (r is Ok ==> r->Ok_0 is SendPacket)
                &&& (r is Err ==> (r->Err_0 matches ContractError::ChannelNotFound {
                    channel_id: c,
                } && c@ == channel_id@))
            }),
            msg matches ExecuteMsg::SendFunds { ica_channel_id, transfer_channel_id } ==> ({
                &&& r is Ok <==> (old(self).spec_accounts().contains_key(ica_channel_id@) && old(self).spec_accounts()[ica_channel_id@]@.remote_addr is Some)
                &&& (r matches Ok(ExecuteOutcome::Transfer(t)) ==> ({
                    &&& t@.channel_id == transfer_channel_id@
                    &&& Option::Some(t@.to_address) == old(self).spec_accounts()[ica_channel_id@]@.remote_addr
                    &&& t@.amount == funds@.map_values(|c: Coin| c@)
                }))
                &&& (r is Ok ==> r->Ok_0 is Transfer)
                &&& (!old(self).spec_accounts().contains_key(ica_channel_id@) ==> (r matches Err(
                    ContractError::ChannelNotFound { channel_id: c },
                ) && c@ == ica_channel_id@))
                &&& ((old(self).spec_accounts().contains_key(ica_channel_id@) && old(self).spec_accounts()[ica_channel_id@]@.remote_addr is None) ==> r matches Err(
                    ContractError::RemoteAddressUnknown,
                ))
            }),
    {
        match msg {
            ExecuteMsg::UpdateAdmin { admin } => {
                self.update_admin(caller.as_str(), admin)?;
                Ok(ExecuteOutcome::Nothing)
            },
            ExecuteMsg::SendMsgs { channel_id, msgs, callback_id } => {
                let packet = self.handle_send_msgs(
                    caller,
                    channel_id.as_str(),
                    msgs,
                    callback_id,
                )?;
                Ok(ExecuteOutcome::SendPacket { channel_id, packet })
            },
            ExecuteMsg::IbcQuery { channel_id, msgs, callback_id } => {
                let packet = self.handle_ibc_query(caller, channel_id.as_str(), msgs, callback_id)?;
                Ok(ExecuteOutcome::SendPacket { channel_id, packet })
            },
            ExecuteMsg::CheckRemoteBalance { channel_id } => {
                let packet = self.handle_check_remote_balance(channel_id.as_str())?;
                Ok(ExecuteOutcome::SendPacket { channel_id, packet })
            },
            ExecuteMsg::SendFunds { ica_channel_id, transfer_channel_id } => {
                let t = self.handle_send_funds(
                    ica_channel_id.as_str(),
                    transfer_channel_id,
                    funds,
                )?;
                Ok(ExecuteOutcome::Transfer(t))
            },
        }
    }

    /// One read-only question, dispatched to the query it names. Never
    /// mutates state; `&self` makes that a type-level fact.
    pub fn query(&self, msg: &QueryMsg) -> (r: Result<QueryAnswer, ContractError>)
        requires
            self.wf(),
        ensures
            msg is Admin ==> (r matches Ok(QueryAnswer::Admin(a)) && a.admin@
                == self.spec_admin()),
            msg is ListAccounts ==> (r matches Ok(QueryAnswer::ListAccounts(_))),
            msg matches QueryMsg::Account { channel_id } ==> ({
                &&& r is Ok <==> self.spec_accounts().contains_key(channel_id@)
                &&& (r matches Ok(QueryAnswer::Account(a)) ==> ({
                    &&& a@.last_update_time == self.spec_accounts()[channel_id@]@.last_update_time
                    &&& a@.remote_addr == self.spec_accounts()[channel_id@]@.remote_addr
                    &&& a@.remote_balance == self.spec_accounts()[channel_id@]@.remote_balance
                }))
                &&& (r is Ok ==> r->Ok_0 is Account)
                &&& (r matches Err(e) ==> (e matches ContractError::ChannelNotFound {
                    channel_id: c,
                } && c@ == channel_id@))
            }),
            msg matches QueryMsg::LatestQueryResult { channel_id } ==> ({
                &&& r is Ok <==> self.spec_latest_queries().contains_key(channel_id@)
                &&& (r matches Ok(QueryAnswer::LatestQueryResult(l)) ==> l@
                    == self.spec_latest_queries()[channel_id@]@)
                &&& (r is Ok ==> r->Ok_0 is LatestQueryResult)
                &&& (r matches Err(e) ==> (e matches ContractError::ChannelNotFound {
                    channel_id: c,
                } && c@ == channel_id@))
            }),
    {
        match msg {
            QueryMsg::Admin {  } => Ok(QueryAnswer::Admin(self.query_admin())),
            QueryMsg::ListAccounts {  } => Ok(QueryAnswer::ListAccounts(
                self.query_list_accounts(),
            )),
            QueryMsg::Account { channel_id } => Ok(
                QueryAnswer::Account(self.query_account(channel_id.as_str())?),
            ),
            QueryMsg::LatestQueryResult { channel_id } => Ok(
                QueryAnswer::LatestQueryResult(
                    self.query_latest_query_result(channel_id.as_str())?,
                ),
            ),
        }
    }
}

} // verus!
