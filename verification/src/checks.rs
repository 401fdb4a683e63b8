//! Handshake validation: a proposed channel is accepted exactly when its
//! protocol version string equals the fixed identifier and its delivery
//! ordering is unordered. Both phases of the handshake (propose and
//! confirm) run the same checks, before any packet flows.

use vstd::prelude::*;
use vstd::string::StringExecFns;

verus! {

/// Delivery ordering mode offered for a channel. Only `Unordered` is
/// accepted by this protocol: acknowledgements may arrive in any order
/// relative to send order, and the core is designed for that.
#[derive(Clone, Copy, PartialEq, Eq, Structural, Debug)]
pub enum ChannelOrder {
    Unordered,
    Ordered,
}

/// Why a proposed channel was rejected during the handshake.
#[derive(Debug, PartialEq, Clone)]
pub enum SimpleIcaError {
    /// The offered protocol version string is not the fixed identifier;
    /// carries the offered value so the rejection can name both sides.
    InvalidIbcVersion { version: String },
    /// The channel was proposed with ordered delivery.
    OnlyUnorderedChannels,
}

impl SimpleIcaError {
    /// The rejection in words; a version mismatch names both the expected
    /// and the offered value.
    pub fn describe(&self) -> (r: String)
        ensures
            self matches SimpleIcaError::InvalidIbcVersion { version } ==> r@
                == "only supports channel with ibc version simple-ica-v2, got "@ + version@,
            self is OnlyUnorderedChannels ==> r@ == "only supports unordered channels"@,
    {
        match self {
            SimpleIcaError::InvalidIbcVersion { version } => String::from_str(
                "only supports channel with ibc version simple-ica-v2, got ",
            ).concat(version.as_str()),
            SimpleIcaError::OnlyUnorderedChannels => String::from_str(
                "only supports unordered channels",
            ),
        }
    }
}

/// The fixed protocol version identifier both channel ends must offer.
pub open spec fn spec_ibc_app_version() -> Seq<char> {
    "simple-ica-v2"@
}

/// Executable form of the fixed protocol version identifier.
pub fn ibc_app_version() -> (v: &'static str)
    ensures
        v@ == spec_ibc_app_version(),
{
    "simple-ica-v2"
}

/// The delivery ordering this protocol fixes for every channel.
pub fn app_order() -> (r: ChannelOrder)
    ensures
        r is Unordered,
{
    ChannelOrder::Unordered
}

/// Accepts a proposed protocol version string exactly when it equals the
/// fixed identifier; any other string is rejected and echoed back.
pub fn check_version(version: &str) -> (r: Result<(), SimpleIcaError>)
    ensures
        r is Ok <==> version@ == spec_ibc_app_version(),
        r is Err ==> (r matches Err(SimpleIcaError::InvalidIbcVersion { version: v }) && v@
            == version@),
{
    let offered = version.to_owned();
    let expected = ibc_app_version().to_owned();
    if offered == expected {
        Ok(())
    } else {
        Err(SimpleIcaError::InvalidIbcVersion { version: offered })
    }
}

/// Accepts a delivery ordering mode exactly when it is unordered.
pub fn check_order(order: &ChannelOrder) -> (r: Result<(), SimpleIcaError>)
    ensures
        r is Ok <==> *order is Unordered,
        r is Err ==> r matches Err(SimpleIcaError::OnlyUnorderedChannels),
{
    match order {
        ChannelOrder::Unordered => Ok(()),
        ChannelOrder::Ordered => Err(SimpleIcaError::OnlyUnorderedChannels),
    }
}

/// One handshake step: ordering is checked first, then the version string.
/// Accepted exactly when the order is unordered and the version matches.
pub fn validate_channel(order: &ChannelOrder, version: &str) -> (r: Result<(), SimpleIcaError>)
    ensures
        r is Ok <==> (*order is Unordered && version@ == spec_ibc_app_version()),
        *order is Ordered ==> r matches Err(SimpleIcaError::OnlyUnorderedChannels),
        (*order is Unordered && version@ != spec_ibc_app_version()) ==> (r matches Err(
            SimpleIcaError::InvalidIbcVersion { version: v },
        ) && v@ == version@),
{
    check_order(order)?;
    check_version(version)?;
    Ok(())
}

} // verus!
