//! The notification sent back to the caller that asked for one.

use vstd::prelude::*;
use crate::ibc_msg::{StdAck, StdAckView};

verus! {

/// Delivered to the original caller once the acknowledgement for its packet
/// arrives: the caller-chosen correlation id and the decoded result.
#[derive(Debug, PartialEq, Clone)]
pub struct ReceiveIcaResponseMsg {
    pub id: String,
    pub msg: StdAck,
}

/// Mathematical value of a [`ReceiveIcaResponseMsg`].
pub struct ReceiveIcaResponseMsgView {
    pub id: Seq<char>,
    pub msg: StdAckView,
}

impl View for ReceiveIcaResponseMsg {
    type V = ReceiveIcaResponseMsgView;

    open spec fn view(&self) -> ReceiveIcaResponseMsgView {
        ReceiveIcaResponseMsgView { id: self.id@, msg: self.msg@ }
    }
}

} // verus!
