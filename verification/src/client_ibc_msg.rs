//! The packet sent from the local controller to the remote side.
//!
//! Chain-specific messages and queries are an extension point: they travel
//! through this core as opaque byte payloads, already encoded in whatever
//! vocabulary the remote chain understands.

use vstd::prelude::*;

verus! {

/// This is the message we send over the channel to the remote side.
#[derive(Debug, PartialEq, Clone)]
pub enum PacketMsg {
    /// Execute a sequence of chain-specific messages on the remote account.
    /// `sender` identifies the local caller; `callback_id` is an opaque
    /// caller-chosen token echoed back in the callback, absent when no
    /// callback is wanted.
    Dispatch { sender: String, msgs: Vec<Vec<u8>>, callback_id: Option<String> },
    /// Run a sequence of chain-specific queries remotely; correlation works
    /// as for `Dispatch`.
    IbcQuery { sender: String, msgs: Vec<Vec<u8>>, callback_id: Option<String> },
    /// Ask the remote side for the remote account's address.
    WhoAmI {},
    /// Ask the remote side for the remote account's current balances.
    Balances {},
}

/// Mathematical value of a [`PacketMsg`].
pub enum PacketMsgView {
    Dispatch { sender: Seq<char>, msgs: Seq<Seq<u8>>, callback_id: Option<Seq<char>> },
    IbcQuery { sender: Seq<char>, msgs: Seq<Seq<u8>>, callback_id: Option<Seq<char>> },
    WhoAmI,
    Balances,
}

/// View of an optional owned string as an optional character sequence.
pub open spec fn opt_string_view(s: Option<String>) -> Option<Seq<char>> {
    match s {
        Option::None => Option::None,
        Option::Some(s) => Option::Some(s@),
    }
}

impl View for PacketMsg {
    type V = PacketMsgView;

    open spec fn view(&self) -> PacketMsgView {
        match self {
            PacketMsg::Dispatch { sender, msgs, callback_id } => PacketMsgView::Dispatch {
                sender: sender@,
                msgs: msgs@.map_values(|m: Vec<u8>| m@),
                callback_id: opt_string_view(*callback_id),
            },
            PacketMsg::IbcQuery { sender, msgs, callback_id } => PacketMsgView::IbcQuery {
                sender: sender@,
                msgs: msgs@.map_values(|m: Vec<u8>| m@),
                callback_id: opt_string_view(*callback_id),
            },
            PacketMsg::WhoAmI {  } => PacketMsgView::WhoAmI,
            PacketMsg::Balances {  } => PacketMsgView::Balances,
        }
    }
}

} // verus!
