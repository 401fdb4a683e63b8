use simple_ica::client_ibc_msg::PacketMsg;
use simple_ica::codec::{
    decode_ack, decode_balances_response, decode_packet, decode_who_am_i_response, encode_ack,
    encode_balances_response, encode_packet, encode_who_am_i_response,
};
use simple_ica::ibc_msg::{BalancesResponse, Coin, StdAck, WhoAmIResponse};

fn roundtrip_packet(p: PacketMsg) {
    let bytes = encode_packet(&p);
    let back = decode_packet(&bytes).expect("an encoded packet must decode");
    assert_eq!(back, p);
}

#[test]
fn packet_round_trips() {
    roundtrip_packet(PacketMsg::WhoAmI {});
    roundtrip_packet(PacketMsg::Balances {});
    roundtrip_packet(PacketMsg::Dispatch {
        sender: "alice".to_string(),
        msgs: vec![vec![1, 2, 3], vec![], vec![255, 0, 127]],
        callback_id: Some("job-42".to_string()),
    });
    roundtrip_packet(PacketMsg::Dispatch {
        sender: String::new(),
        msgs: vec![],
        callback_id: None,
    });
    roundtrip_packet(PacketMsg::IbcQuery {
        sender: "contract-μ".to_string(),
        msgs: vec![vec![9; 100]],
        callback_id: Some("überfrage".to_string()),
    });
}

#[test]
fn ack_round_trips() {
    for ack in [
        StdAck::Success(vec![]),
        StdAck::Success(vec![0, 1, 2, 3, 4]),
        StdAck::Error(String::new()),
        StdAck::Error("out of gas".to_string()),
    ] {
        let bytes = encode_ack(&ack);
        assert_eq!(decode_ack(&bytes).expect("an encoded ack must decode"), ack);
    }
}

#[test]
fn who_am_i_response_round_trips() {
    let w = WhoAmIResponse { account: "osmo1remoteaccount".to_string() };
    let bytes = encode_who_am_i_response(&w);
    assert_eq!(decode_who_am_i_response(&bytes).unwrap(), w);
}

#[test]
fn balances_response_round_trips() {
    let b = BalancesResponse {
        account: "osmo1remoteaccount".to_string(),
        balances: vec![
            Coin { denom: "uatom".to_string(), amount: 100 },
            Coin { denom: "uosmo".to_string(), amount: u128::MAX },
        ],
    };
    let bytes = encode_balances_response(&b);
    assert_eq!(decode_balances_response(&bytes).unwrap(), b);
    let empty = BalancesResponse { account: String::new(), balances: vec![] };
    let bytes = encode_balances_response(&empty);
    assert_eq!(decode_balances_response(&bytes).unwrap(), empty);
}

#[test]
fn decoding_rejects_malformed_bytes() {
    // empty input
    assert!(decode_packet(&[]).is_err());
    assert!(decode_ack(&[]).is_err());
    // unknown variant tag
    assert!(decode_packet(&[9]).is_err());
    assert!(decode_ack(&[7]).is_err());
    // truncated length prefix
    assert!(decode_packet(&[0, 1, 2]).is_err());
    // trailing garbage after a complete packet
    let mut bytes = encode_packet(&PacketMsg::WhoAmI {});
    bytes.push(0);
    assert!(decode_packet(&bytes).is_err());
    // a length prefix pointing past the end
    let ack_err = [1u8, 200, 0, 0, 0, 0, 0, 0, 0];
    assert!(decode_ack(&ack_err).is_err());
    // an error ack whose text is not UTF-8
    let bad_utf8 = [1u8, 1, 0, 0, 0, 0, 0, 0, 0, 0xFF];
    assert!(decode_ack(&bad_utf8).is_err());
}

#[test]
fn packet_encoding_is_tagged_and_length_prefixed() {
    // the fixed variants are a bare tag
    assert_eq!(encode_packet(&PacketMsg::WhoAmI {}), vec![2]);
    assert_eq!(encode_packet(&PacketMsg::Balances {}), vec![3]);
    // a dispatch: tag, sender ("ab"), empty msg list, no callback
    let p = PacketMsg::Dispatch {
        sender: "ab".to_string(),
        msgs: vec![],
        callback_id: None,
    };
    let expected = [
        vec![0u8],                              // dispatch tag
        vec![2, 0, 0, 0, 0, 0, 0, 0],           // sender byte length
        b"ab".to_vec(),                         // sender
        vec![0, 0, 0, 0, 0, 0, 0, 0],           // message count
        vec![0],                                // no callback id
    ]
    .concat();
    assert_eq!(encode_packet(&p), expected);
}

#[test]
fn non_ascii_text_survives_the_wire() {
    // exercises the UTF-8 decoding path with multi-byte characters
    let ack = StdAck::Error("ошибка: übermäßig 💥".to_string());
    let bytes = encode_ack(&ack);
    match decode_ack(&bytes).unwrap() {
        StdAck::Error(msg) => assert_eq!(msg, "ошибка: übermäßig 💥"),
        other => panic!("expected an error ack, got {other:?}"),
    }
}
