use simple_ica::callback::ReceiveIcaResponseMsg;
use simple_ica::client_ibc_msg::PacketMsg;
use simple_ica::codec::{encode_ack, encode_balances_response, encode_who_am_i_response};
use simple_ica::contract::{ContractError, IcaController};
use simple_ica::ibc_msg::{BalancesResponse, Coin, StdAck, WhoAmIResponse};
use simple_ica::msg::AccountInfo;
use simple_ica::state::AccountData;

fn controller_with_channel(channel: &str) -> IcaController {
    let mut c = IcaController::instantiate("alice".to_string());
    let packet = c.on_channel_connect(channel.to_string());
    assert_eq!(packet, PacketMsg::WhoAmI {});
    c
}

fn who_am_i_ack_bytes(account: &str) -> Vec<u8> {
    let payload = encode_who_am_i_response(&WhoAmIResponse { account: account.to_string() });
    encode_ack(&StdAck::Success(payload))
}

fn balances_ack_bytes(balances: Vec<Coin>) -> Vec<u8> {
    let payload = encode_balances_response(&BalancesResponse {
        account: "osmo1remote".to_string(),
        balances,
    });
    encode_ack(&StdAck::Success(payload))
}

#[test]
fn fresh_channel_reads_as_unknown() {
    // a channel that never received an ack: epoch-zero time, no address,
    // empty balance
    let c = controller_with_channel("chan-7");
    let account = c.query_account("chan-7").unwrap();
    assert_eq!(account.last_update_time, 0);
    assert_eq!(account.remote_addr, None);
    assert_eq!(account.remote_balance, vec![]);
}

#[test]
fn admin_update_transfers_privilege() {
    let mut c = IcaController::instantiate("alice".to_string());
    assert_eq!(c.query_admin().admin, "alice");
    c.update_admin("alice", "bob".to_string()).unwrap();
    assert_eq!(c.query_admin().admin, "bob");
    // the old admin lost all privilege at once
    assert_eq!(
        c.update_admin("alice", "carol".to_string()),
        Err(ContractError::Unauthorized)
    );
    assert_eq!(c.query_admin().admin, "bob");
}

#[test]
fn send_funds_requires_known_address() {
    let c = controller_with_channel("chan-7");
    // no who-am-I ack yet: the remote address is unknown
    let r = c.handle_send_funds(
        "chan-7",
        "chan-transfer-1".to_string(),
        vec![Coin { denom: "uatom".to_string(), amount: 5 }],
    );
    assert_eq!(r, Err(ContractError::RemoteAddressUnknown));
    // an unbound channel is reported as such
    let r = c.handle_send_funds("chan-9", "chan-transfer-1".to_string(), vec![]);
    assert_eq!(
        r,
        Err(ContractError::ChannelNotFound { channel_id: "chan-9".to_string() })
    );
}

#[test]
fn send_funds_after_who_am_i_targets_remote_address() {
    let mut c = controller_with_channel("chan-7");
    let cb = c
        .on_packet_ack("chan-7", &PacketMsg::WhoAmI {}, &who_am_i_ack_bytes("osmo1xyz"), 10)
        .unwrap();
    assert_eq!(cb, None);
    let account = c.query_account("chan-7").unwrap();
    assert_eq!(account.remote_addr, Some("osmo1xyz".to_string()));
    let transfer = c
        .handle_send_funds(
            "chan-7",
            "chan-transfer-1".to_string(),
            vec![Coin { denom: "uatom".to_string(), amount: 5 }],
        )
        .unwrap();
    assert_eq!(transfer.channel_id, "chan-transfer-1");
    assert_eq!(transfer.to_address, "osmo1xyz");
    assert_eq!(transfer.amount, vec![Coin { denom: "uatom".to_string(), amount: 5 }]);
}

#[test]
fn who_am_i_address_is_recorded_once() {
    let mut c = controller_with_channel("chan-7");
    c.on_packet_ack("chan-7", &PacketMsg::WhoAmI {}, &who_am_i_ack_bytes("osmo1xyz"), 10)
        .unwrap();
    // the same address again is fine
    c.on_packet_ack("chan-7", &PacketMsg::WhoAmI {}, &who_am_i_ack_bytes("osmo1xyz"), 11)
        .unwrap();
    // a different address is an anomaly and is not recorded
    let r = c.on_packet_ack("chan-7", &PacketMsg::WhoAmI {}, &who_am_i_ack_bytes("osmo1abc"), 12);
    assert_eq!(r, Err(ContractError::RemoteAddressChanged));
    let account = c.query_account("chan-7").unwrap();
    assert_eq!(account.remote_addr, Some("osmo1xyz".to_string()));
}

#[test]
fn error_ack_changes_no_account_state() {
    let mut c = controller_with_channel("chan-7");
    let err_ack = encode_ack(&StdAck::Error("remote failure".to_string()));
    c.on_packet_ack("chan-7", &PacketMsg::WhoAmI {}, &err_ack, 10).unwrap();
    c.on_packet_ack("chan-7", &PacketMsg::Balances {}, &err_ack, 10).unwrap();
    let account = c.query_account("chan-7").unwrap();
    assert_eq!(account.last_update_time, 0);
    assert_eq!(account.remote_addr, None);
    assert_eq!(account.remote_balance, vec![]);
}

#[test]
fn balance_ack_replaces_wholesale() {
    // a report of [(uatom, 100)] at time T, then of [] at T+1: the final
    // balance is [], not the union
    let mut c = controller_with_channel("chan-7");
    c.on_packet_ack(
        "chan-7",
        &PacketMsg::Balances {},
        &balances_ack_bytes(vec![Coin { denom: "uatom".to_string(), amount: 100 }]),
        1000,
    )
    .unwrap();
    let account = c.query_account("chan-7").unwrap();
    assert_eq!(account.remote_balance, vec![Coin { denom: "uatom".to_string(), amount: 100 }]);
    assert_eq!(account.last_update_time, 1000);
    c.on_packet_ack("chan-7", &PacketMsg::Balances {}, &balances_ack_bytes(vec![]), 1001)
        .unwrap();
    let account = c.query_account("chan-7").unwrap();
    assert_eq!(account.remote_balance, vec![]);
    assert_eq!(account.last_update_time, 1001);
}

#[test]
fn balance_update_time_never_goes_backwards() {
    let mut c = controller_with_channel("chan-7");
    c.on_packet_ack("chan-7", &PacketMsg::Balances {}, &balances_ack_bytes(vec![]), 1000)
        .unwrap();
    c.on_packet_ack(
        "chan-7",
        &PacketMsg::Balances {},
        &balances_ack_bytes(vec![Coin { denom: "uosmo".to_string(), amount: 7 }]),
        999,
    )
    .unwrap();
    let account = c.query_account("chan-7").unwrap();
    // the late report still lands, but the clock does not run backwards
    assert_eq!(account.remote_balance, vec![Coin { denom: "uosmo".to_string(), amount: 7 }]);
    assert_eq!(account.last_update_time, 1000);
}

#[test]
fn dispatch_ack_with_callback_emits_exactly_one() {
    let mut c = controller_with_channel("chan-7");
    let packet = c
        .handle_send_msgs(
            "caller-1".to_string(),
            "chan-7",
            vec![vec![1, 2]],
            Some("job-1".to_string()),
        )
        .unwrap();
    let ack = StdAck::Success(vec![42]);
    let cb = c.on_packet_ack("chan-7", &packet, &encode_ack(&ack), 50).unwrap();
    assert_eq!(cb, Some(ReceiveIcaResponseMsg { id: "job-1".to_string(), msg: ack }));
    // account state is untouched by dispatch results
    let account = c.query_account("chan-7").unwrap();
    assert_eq!(account.last_update_time, 0);
}

#[test]
fn dispatch_ack_without_callback_emits_none() {
    let mut c = controller_with_channel("chan-7");
    let packet = c
        .handle_send_msgs("caller-1".to_string(), "chan-7", vec![vec![1, 2]], None)
        .unwrap();
    let cb = c
        .on_packet_ack("chan-7", &packet, &encode_ack(&StdAck::Success(vec![])), 50)
        .unwrap();
    assert_eq!(cb, None);
}

#[test]
fn send_on_unknown_channel_is_rejected() {
    let c = IcaController::instantiate("alice".to_string());
    let r = c.handle_send_msgs("caller-1".to_string(), "chan-7", vec![], None);
    assert_eq!(
        r,
        Err(ContractError::ChannelNotFound { channel_id: "chan-7".to_string() })
    );
    let r = c.handle_ibc_query("caller-1".to_string(), "chan-7", vec![], None);
    assert_eq!(
        r,
        Err(ContractError::ChannelNotFound { channel_id: "chan-7".to_string() })
    );
    let r = c.handle_check_remote_balance("chan-7");
    assert_eq!(
        r,
        Err(ContractError::ChannelNotFound { channel_id: "chan-7".to_string() })
    );
}

#[test]
fn query_ack_records_latest_result_and_calls_back() {
    let mut c = controller_with_channel("chan-7");
    assert_eq!(
        c.query_latest_query_result("chan-7"),
        Err(ContractError::ChannelNotFound { channel_id: "chan-7".to_string() })
    );
    let packet = c
        .handle_ibc_query(
            "caller-1".to_string(),
            "chan-7",
            vec![vec![8]],
            Some("q-1".to_string()),
        )
        .unwrap();
    let ack = StdAck::Success(vec![1, 2, 3]);
    let cb = c.on_packet_ack("chan-7", &packet, &encode_ack(&ack), 77).unwrap();
    assert_eq!(cb, Some(ReceiveIcaResponseMsg { id: "q-1".to_string(), msg: ack.clone() }));
    let latest = c.query_latest_query_result("chan-7").unwrap();
    assert_eq!(latest.last_update_time, 77);
    assert_eq!(latest.response, ack);
}

#[test]
fn malformed_ack_becomes_an_error_ack() {
    let mut c = controller_with_channel("chan-7");
    let packet = c
        .handle_send_msgs("caller-1".to_string(), "chan-7", vec![], Some("job-9".to_string()))
        .unwrap();
    // bytes that decode as nothing still resolve the correlation
    let cb = c.on_packet_ack("chan-7", &packet, &[250, 251], 50).unwrap();
    assert_eq!(
        cb,
        Some(ReceiveIcaResponseMsg {
            id: "job-9".to_string(),
            msg: StdAck::Error("cannot decode acknowledgement".to_string()),
        })
    );
}

#[test]
fn list_accounts_shows_every_bound_channel() {
    let mut c = IcaController::instantiate("alice".to_string());
    c.on_channel_connect("chan-1".to_string());
    c.on_channel_connect("chan-2".to_string());
    c.on_packet_ack("chan-2", &PacketMsg::WhoAmI {}, &who_am_i_ack_bytes("osmo1xyz"), 5)
        .unwrap();
    let mut listed = c.query_list_accounts().accounts;
    listed.sort_by(|a, b| a.channel_id.cmp(&b.channel_id));
    assert_eq!(listed.len(), 2);
    assert_eq!(listed[0].channel_id, "chan-1");
    assert_eq!(listed[0].remote_addr, None);
    assert_eq!(listed[1].channel_id, "chan-2");
    assert_eq!(listed[1].remote_addr, Some("osmo1xyz".to_string()));
}

#[test]
fn closing_a_channel_deletes_its_entry() {
    let mut c = controller_with_channel("chan-7");
    assert!(c.query_account("chan-7").is_ok());
    c.on_channel_close("chan-7");
    assert_eq!(
        c.query_account("chan-7"),
        Err(ContractError::ChannelNotFound { channel_id: "chan-7".to_string() })
    );
    assert_eq!(c.query_list_accounts().accounts, vec![]);
}

#[test]
fn contract_errors_read_in_words() {
    let c = IcaController::instantiate("alice".to_string());
    let e = c.handle_check_remote_balance("chan-9").unwrap_err();
    assert_eq!(e.describe(), "channel not found: chan-9");
    assert_eq!(ContractError::Unauthorized.describe(), "unauthorized");
    assert_eq!(
        ContractError::RemoteAddressUnknown.describe(),
        "remote address unknown - complete a who-am-i exchange first"
    );
    assert_eq!(
        ContractError::RemoteAddressChanged.describe(),
        "remote address differs from the recorded one"
    );
}

#[test]
fn account_info_conversions_copy_fields() {
    let data = AccountData {
        last_update_time: 42,
        remote_addr: Some("osmo1xyz".to_string()),
        remote_balance: vec![Coin { denom: "uatom".to_string(), amount: 3 }],
    };
    let info = AccountInfo::convert("chan-7".to_string(), data.clone());
    assert_eq!(info.channel_id, "chan-7");
    assert_eq!(info.last_update_time, 42);
    assert_eq!(info.remote_addr, Some("osmo1xyz".to_string()));
    assert_eq!(info.remote_balance, vec![Coin { denom: "uatom".to_string(), amount: 3 }]);
    let resp = simple_ica::msg::AccountResponse::from(data);
    assert_eq!(resp.last_update_time, 42);
    assert_eq!(resp.remote_addr, Some("osmo1xyz".to_string()));
    assert_eq!(resp.remote_balance, vec![Coin { denom: "uatom".to_string(), amount: 3 }]);
}

#[test]
fn acks_of_different_kinds_commute_per_field() {
    // unordered delivery: a balances ack landing before the who-am-I ack
    // leaves the same state as the reverse order
    let mut first = controller_with_channel("chan-7");
    first
        .on_packet_ack(
            "chan-7",
            &PacketMsg::Balances {},
            &balances_ack_bytes(vec![Coin { denom: "uatom".to_string(), amount: 1 }]),
            100,
        )
        .unwrap();
    first
        .on_packet_ack("chan-7", &PacketMsg::WhoAmI {}, &who_am_i_ack_bytes("osmo1xyz"), 101)
        .unwrap();
    let mut second = controller_with_channel("chan-7");
    second
        .on_packet_ack("chan-7", &PacketMsg::WhoAmI {}, &who_am_i_ack_bytes("osmo1xyz"), 101)
        .unwrap();
    second
        .on_packet_ack(
            "chan-7",
            &PacketMsg::Balances {},
            &balances_ack_bytes(vec![Coin { denom: "uatom".to_string(), amount: 1 }]),
            100,
        )
        .unwrap();
    assert_eq!(first.query_account("chan-7"), second.query_account("chan-7"));
}
