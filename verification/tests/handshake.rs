use simple_ica::checks::{check_order, check_version, ibc_app_version, validate_channel,
    ChannelOrder, SimpleIcaError};

#[test]
fn version_accepts_exact_identifier() {
    assert_eq!(ibc_app_version(), "simple-ica-v2");
    assert!(check_version("simple-ica-v2").is_ok());
}

#[test]
fn version_rejects_everything_else() {
    for bad in ["simple-ica-v1", "simple-ica-v2 ", "", "ics20-1", "SIMPLE-ICA-V2"] {
        match check_version(bad) {
            Err(SimpleIcaError::InvalidIbcVersion { version }) => assert_eq!(version, bad),
            other => panic!("expected a version rejection for {bad:?}, got {other:?}"),
        }
    }
}

#[test]
fn rejections_read_in_words() {
    let e = check_version("simple-ica-v1").unwrap_err();
    assert_eq!(
        e.describe(),
        "only supports channel with ibc version simple-ica-v2, got simple-ica-v1"
    );
    let e = check_order(&ChannelOrder::Ordered).unwrap_err();
    assert_eq!(e.describe(), "only supports unordered channels");
}

#[test]
fn order_accepts_only_unordered() {
    assert!(check_order(&ChannelOrder::Unordered).is_ok());
    assert_eq!(
        check_order(&ChannelOrder::Ordered),
        Err(SimpleIcaError::OnlyUnorderedChannels)
    );
}

#[test]
fn channel_accepted_iff_version_and_order_match() {
    assert!(validate_channel(&ChannelOrder::Unordered, "simple-ica-v2").is_ok());
    assert_eq!(
        validate_channel(&ChannelOrder::Ordered, "simple-ica-v2"),
        Err(SimpleIcaError::OnlyUnorderedChannels)
    );
    assert_eq!(
        validate_channel(&ChannelOrder::Unordered, "simple-ica-v3"),
        Err(SimpleIcaError::InvalidIbcVersion { version: "simple-ica-v3".to_string() })
    );
    // both wrong: the ordering rejection is reported
    assert_eq!(
        validate_channel(&ChannelOrder::Ordered, "simple-ica-v3"),
        Err(SimpleIcaError::OnlyUnorderedChannels)
    );
}
