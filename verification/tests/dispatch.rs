use simple_ica::client_ibc_msg::PacketMsg;
use simple_ica::contract::{ContractError, ExecuteOutcome, IcaController, QueryAnswer};
use simple_ica::ibc_msg::Coin;
use simple_ica::msg::{ExecuteMsg, QueryMsg};

#[test]
fn execute_dispatches_each_instruction() {
    let mut c = IcaController::instantiate("alice".to_string());
    c.on_channel_connect("chan-7".to_string());

    let out = c
        .execute(
            "alice".to_string(),
            vec![],
            ExecuteMsg::UpdateAdmin { admin: "bob".to_string() },
        )
        .unwrap();
    assert_eq!(out, ExecuteOutcome::Nothing);
    assert_eq!(c.query_admin().admin, "bob");

    let out = c
        .execute(
            "caller-1".to_string(),
            vec![],
            ExecuteMsg::SendMsgs {
                channel_id: "chan-7".to_string(),
                msgs: vec![vec![1]],
                callback_id: Some("job-1".to_string()),
            },
        )
        .unwrap();
    assert_eq!(
        out,
        ExecuteOutcome::SendPacket {
            channel_id: "chan-7".to_string(),
            packet: PacketMsg::Dispatch {
                sender: "caller-1".to_string(),
                msgs: vec![vec![1]],
                callback_id: Some("job-1".to_string()),
            },
        }
    );

    let out = c
        .execute(
            "caller-1".to_string(),
            vec![],
            ExecuteMsg::CheckRemoteBalance { channel_id: "chan-7".to_string() },
        )
        .unwrap();
    assert_eq!(
        out,
        ExecuteOutcome::SendPacket {
            channel_id: "chan-7".to_string(),
            packet: PacketMsg::Balances {},
        }
    );

    // funds cannot move before the remote address is known
    let r = c.execute(
        "caller-1".to_string(),
        vec![Coin { denom: "uatom".to_string(), amount: 1 }],
        ExecuteMsg::SendFunds {
            ica_channel_id: "chan-7".to_string(),
            transfer_channel_id: "chan-transfer-1".to_string(),
        },
    );
    assert_eq!(r, Err(ContractError::RemoteAddressUnknown));

    // a non-admin cannot take over
    let r = c.execute(
        "mallory".to_string(),
        vec![],
        ExecuteMsg::UpdateAdmin { admin: "mallory".to_string() },
    );
    assert_eq!(r, Err(ContractError::Unauthorized));
}

#[test]
fn query_dispatches_each_question() {
    let mut c = IcaController::instantiate("alice".to_string());
    c.on_channel_connect("chan-7".to_string());

    match c.query(&QueryMsg::Admin {}).unwrap() {
        QueryAnswer::Admin(a) => assert_eq!(a.admin, "alice"),
        other => panic!("expected an admin answer, got {other:?}"),
    }
    match c.query(&QueryMsg::ListAccounts {}).unwrap() {
        QueryAnswer::ListAccounts(l) => {
            assert_eq!(l.accounts.len(), 1);
            assert_eq!(l.accounts[0].channel_id, "chan-7");
        }
        other => panic!("expected an account listing, got {other:?}"),
    }
    match c.query(&QueryMsg::Account { channel_id: "chan-7".to_string() }).unwrap() {
        QueryAnswer::Account(a) => assert_eq!(a.last_update_time, 0),
        other => panic!("expected an account answer, got {other:?}"),
    }
    assert_eq!(
        c.query(&QueryMsg::Account { channel_id: "chan-8".to_string() }),
        Err(ContractError::ChannelNotFound { channel_id: "chan-8".to_string() })
    );
    assert_eq!(
        c.query(&QueryMsg::LatestQueryResult { channel_id: "chan-7".to_string() }),
        Err(ContractError::ChannelNotFound { channel_id: "chan-7".to_string() })
    );
}
