use mbp_channel::blockchain::{
    call_outcome, channel_is_open, create_channel, deposit_known, dispute_close, finalize_close,
    initiate_close, join_channel, join_known, lock_deposit, withdraw_funds, ContractCall,
};
use mbp_channel::config::{publish_port, ActorConfig, AppConfig, ContractsConfig};
use mbp_channel::network::operator::{alias_of, channel_id_of, get_actor_config, new_alias};

fn actor(name: &str, host: Option<&str>, port: Option<u16>) -> ActorConfig {
    ActorConfig {
        name: name.to_string(),
        host: host.map(|h| h.to_string()),
        port,
        private_key: "key".to_string(),
        address: [7; 20],
    }
}

fn config(operator: ActorConfig, users: Vec<ActorConfig>) -> AppConfig {
    AppConfig {
        rpc_url: "http://localhost:8545".to_string(),
        contracts: Some(ContractsConfig { payment_channel: [9; 20] }),
        operator,
        users,
    }
}

#[test]
fn calls_carry_their_money() {
    let id = [1u8; 32];
    assert!(matches!(
        lock_deposit(id, 10),
        ContractCall::Deposit { channel_id: [1, ..], value: 10 }
    ));
    assert!(matches!(
        create_channel(id, 20),
        ContractCall::CreateChannel { value: 20, .. }
    ));
    assert!(matches!(
        join_channel(id),
        ContractCall::JoinChannel { channel_id: [1, ..], value: 0 }
    ));
    assert!(matches!(
        finalize_close(id),
        ContractCall::FinalizeClose { channel_id: [1, ..] }
    ));
    assert!(matches!(withdraw_funds(), ContractCall::Withdraw));
}

#[test]
fn calls_to_close() {
    let id = [1u8; 32];
    match initiate_close(id, 4, vec![[2; 20]], vec![[5; 32]], vec![6]) {
        ContractCall::InitiateClose { channel_id, nonce, recipients, amounts, signature } => {
            assert_eq!(channel_id, id);
            assert_eq!(nonce, 4);
            assert_eq!(recipients, vec![[2; 20]]);
            assert_eq!(amounts, vec![[5; 32]]);
            assert_eq!(signature, vec![6]);
        }
        _ => panic!(),
    }
    assert!(matches!(
        dispute_close(id, 4, Vec::new(), Vec::new(), Vec::new()),
        ContractCall::DisputeClose { nonce: 4, .. }
    ));
}

#[test]
fn reverted_calls() {
    let id = [1u8; 32];
    let tx = || "0xabc".to_string();
    assert_eq!(call_outcome(&lock_deposit(id, 1), true, tx()).unwrap(), "0xabc");
    assert_eq!(
        call_outcome(&lock_deposit(id, 1), false, tx()).unwrap_err(),
        "❌ 交易失败 (Reverted): 0xabc"
    );
    assert_eq!(
        call_outcome(&create_channel(id, 1), false, tx()).unwrap_err(),
        "❌ 创建失败 (Reverted): 0xabc"
    );
    assert_eq!(
        call_outcome(&join_channel(id), false, tx()).unwrap_err(),
        "❌ 加入失败 (Reverted): 0xabc"
    );
    assert_eq!(call_outcome(&finalize_close(id), false, tx()).unwrap(), "0xabc");
}

#[test]
fn known_failures() {
    assert!(deposit_known("tx already known"));
    assert!(deposit_known("nonce too low: 3"));
    assert!(!deposit_known("Already joined"));
    assert!(join_known("revert: Already joined"));
    assert!(join_known("execution reverted"));
    assert!(!join_known("nonce too low"));
    assert!(channel_is_open(0));
    assert!(!channel_is_open(1));
}

#[test]
fn configuration() {
    let config = config(
        actor("op", None, None),
        vec![
            actor("alice", Some("a"), Some(1)),
            actor("bob", None, Some(2)),
            actor("alice", Some("b"), Some(3)),
            actor("carol", Some("c"), None),
        ],
    );
    assert_eq!(config.get_user_port("alice"), Some(1));
    assert_eq!(config.get_user_host("alice").unwrap(), "a");
    assert_eq!(config.get_user_host("bob"), None);
    assert_eq!(config.get_user_port("dave"), None);
    assert!(config.find_user("dave").is_none());
    assert_eq!(config.find_user("carol").unwrap().listen_port(), 6000);
    assert_eq!(config.find_user("bob").unwrap().listen_port(), 2);
    assert_eq!(config.reply_port(), 5555);
    assert_eq!(config.operator_host(), "127.0.0.1");
    assert_eq!(publish_port(config.reply_port()), 5556);
    assert_eq!(
        config.vote_endpoints(),
        vec![("a".to_string(), 1), ("b".to_string(), 3)]
    );
}

#[test]
fn operator_account() {
    let config = config(actor("op", Some("h"), Some(70)), Vec::new());
    let actor = get_actor_config(&config);
    assert_eq!(actor.name, "op");
    assert_eq!(actor.host.unwrap(), "h");
    assert_eq!(actor.port, Some(70));
    assert_eq!(actor.private_key, "key");
    assert_eq!(actor.address, [7; 20]);
    assert_eq!(config.reply_port(), 70);
    assert_eq!(config.operator_host(), "h");
}

#[test]
fn channel_names() {
    assert_eq!(alias_of("67e55044-10b1-426f-9247-bb680e5fe0c8"), "ch-67e55044");
    let alias = new_alias();
    assert_eq!(alias.len(), 11);
    assert!(alias.starts_with("ch-"));
    assert!(alias[3..].chars().all(|c| c.is_ascii_digit() || ('a'..='f').contains(&c)));
    assert_ne!(alias, new_alias());
    let id: String = channel_id_of("").iter().map(|b| format!("{:02x}", b)).collect();
    assert_eq!(
        id,
        "c5d2460186f7233c927e7db2dcc703c0e500b653ca82273b7bfad8045d85a470"
    );
}
