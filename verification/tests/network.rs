use mbp_channel::blockchain::ContractCall;
use mbp_channel::config::ActorConfig;
use mbp_channel::crypto::blind::unblind;
use mbp_channel::crypto::commitment::{commit, homomorphic_add, homomorphic_sub};
use mbp_channel::crypto::common::{SharedParameters, PP};
use mbp_channel::crypto::multisig::{aggregate_public_keys, sign, verify_aggregate, KeyPair};
use mbp_channel::crypto::range_proof::{generate_proof, verify_proof};
use mbp_channel::crypto::wrapper::{Fr, G1, G2};
use mbp_channel::encoding::{base64_decode, u64_to_be_bytes32};
use mbp_channel::network::message::NetworkMessage;
use mbp_channel::network::operator::{
    channel_id_of, threshold, vote_share, Conclusion, IngressStep, Operator, Proposal,
    SequencerTask,
};
use mbp_channel::network::user::{
    close_accepted, deposit_amount, parse_channel_id, parse_command, Ballot,
    BroadcastStep, ChannelIdError, Command, CompletionStep, PayStep, PaymentNotice, PeerStep,
    UserNode,
};

const ALIAS: &str = "ch-12345678";

fn scalar(n: u64) -> Fr {
    Fr::from_u64(n)
}

fn hex(bytes: &[u8]) -> String {
    bytes.iter().map(|b| format!("{:02x}", b)).collect()
}

fn actor(name: &str) -> ActorConfig {
    ActorConfig {
        name: name.to_string(),
        host: None,
        port: None,
        private_key: String::new(),
        address: [0; 20],
    }
}

fn address(last: u8) -> [u8; 20] {
    let mut address = [0u8; 20];
    address[19] = last;
    address
}

fn user(name: &str, deposit: u64, sk: u64, r: u64) -> UserNode {
    let pp = SharedParameters::new();
    let keys = KeyPair::from_secret(scalar(sk), &pp.get());
    UserNode::new(name.to_string(), channel_id_of(ALIAS), deposit, pp, keys, scalar(r))
}

fn reply(step: IngressStep) -> (NetworkMessage, bool) {
    match step {
        IngressStep::Reply { reply, wake } => (reply, wake),
        IngressStep::Settle { .. } => panic!(),
    }
}

fn join_answer(step: IngressStep) -> (String, String, String, bool) {
    match reply(step) {
        (NetworkMessage::JoinResponse { status, message, channel_id_hex }, wake) => {
            (status, message, channel_id_hex, wake)
        }
        _ => panic!(),
    }
}

fn update_answer(step: IngressStep) -> (String, String, bool) {
    match reply(step) {
        (NetworkMessage::UpdateResponse { status, message, aggregated_signature_hex }, wake) => {
            assert!(aggregated_signature_hex.is_none());
            (status, message, wake)
        }
        _ => panic!(),
    }
}

/// An operator with alice, who has ten, and bob, who has eleven.
fn channel() -> (Operator, UserNode, UserNode) {
    let mut operator = Operator::new(ALIAS, vec![actor("alice"), actor("bob")]);
    let alice = user("alice", 10, 101, 1001);
    let bob = user("bob", 11, 102, 1002);
    let (_, _, _, wake) = join_answer(operator.handle_request(alice.join_request(&address(1)).unwrap()));
    assert!(!wake);
    let (status, message, id, wake) =
        join_answer(operator.handle_request(bob.join_request(&address(2)).unwrap()));
    assert_eq!((status.as_str(), message.as_str()), ("OK", "Welcome"));
    assert_eq!(id, hex(&channel_id_of(ALIAS)));
    assert!(wake);
    (operator, alice, bob)
}

fn announce(operator: &mut Operator, users: &mut [&mut UserNode]) {
    let message = operator.initial_broadcast().unwrap();
    for user in users.iter_mut() {
        assert!(matches!(
            user.handle_broadcast(message.clone()),
            BroadcastStep::Synced
        ));
    }
}

fn proposal(user_name: &str, counterparty_name: &str, tx_id: u64) -> NetworkMessage {
    NetworkMessage::UpdateProposal {
        user_name: user_name.to_string(),
        counterparty_name: counterparty_name.to_string(),
        tx_id,
        prev_tx_id: 0,
        amount: 3,
        tx_amount_comm_hex: "amount".to_string(),
        range_proof_b64: "proof".to_string(),
        proof_comm_value_b64: "value".to_string(),
        sender_new_comm_hex: "sender".to_string(),
        receiver_new_comm_hex: "receiver".to_string(),
        proposer_ephemeral_pk_hex: String::new(),
        proposer_signature_b64: String::new(),
        counterparty_ephemeral_pk_hex: None,
        counterparty_signature_b64: None,
    }
}

#[test]
fn join_request_is_complete() {
    let alice = user("alice", 10, 101, 1001);
    let pp = PP::new();
    let mut whale = address(0);
    whale.copy_from_slice(&[
        0xd8, 0xda, 0x6b, 0xf2, 0x69, 0x64, 0xaf, 0x9d, 0x7e, 0xed, 0x9e, 0x03, 0xe5, 0x34, 0x15,
        0xd3, 0x7a, 0xa9, 0x60, 0x45,
    ]);
    match alice.join_request(&whale).unwrap() {
        NetworkMessage::JoinRequest {
            user_name,
            user_addr_str,
            pk_hex,
            initial_balance_comm_hex,
            initial_balance_proof_b64,
            initial_balance,
        } => {
            assert_eq!(user_name, "alice");
            assert_eq!(user_addr_str, "0xd8dA6BF26964aF9D7eEd9e03E53415D37aA96045");
            assert_eq!(pk_hex, (pp.g2 * scalar(101)).to_hex());
            assert_eq!(initial_balance_comm_hex, commit(10, scalar(1001), &pp).to_hex());
            assert_eq!(initial_balance, 10);
            let (_, comm_b64) = generate_proof(10, 0, &scalar(1001), &pp).unwrap();
            assert!(verify_proof(&initial_balance_proof_b64, &comm_b64, 0, &pp));
        }
        _ => panic!(),
    }
    let failed = alice.join_request_with(&whale, Err("why".to_string()));
    assert_eq!(failed.unwrap_err(), "why");
}

#[test]
fn started_users_have_keys_of_their_own() {
    let a = UserNode::start("a".to_string(), [0; 32], 5);
    let b = UserNode::start("b".to_string(), [0; 32], 5);
    assert_eq!((a.balance(), a.current_tx_id()), (5, 0));
    let texts = |node: &UserNode| match node.join_request(&address(1)).unwrap() {
        NetworkMessage::JoinRequest { pk_hex, initial_balance_comm_hex, .. } => {
            (pk_hex, initial_balance_comm_hex)
        }
        _ => panic!(),
    };
    assert_ne!(texts(&a).0, texts(&b).0);
    assert_ne!(texts(&a).1, texts(&b).1);
}

#[test]
fn everyone_joins_and_is_announced_once() {
    let (mut operator, mut alice, mut bob) = channel();
    assert_eq!(operator.joined_count(), 2);
    assert_eq!(operator.channel_id(), channel_id_of(ALIAS));
    let pp = PP::new();
    let message = operator.initial_broadcast().unwrap();
    match &message {
        NetworkMessage::ChannelFinalized { channel_id_hex, participants } => {
            assert_eq!(*channel_id_hex, hex(&channel_id_of(ALIAS)));
            assert_eq!(participants.len(), 2);
            assert_eq!(
                participants[0],
                (
                    "alice".to_string(),
                    (pp.g2 * scalar(101)).to_hex(),
                    commit(10, scalar(1001), &pp).to_hex(),
                    10
                )
            );
            assert_eq!(participants[1].0, "bob");
            assert_eq!(participants[1].3, 11);
        }
        _ => panic!(),
    }
    assert!(operator.initial_broadcast().is_none());
    alice.handle_broadcast(message.clone());
    bob.handle_broadcast(message);
    let mut balances = alice.balances();
    balances.sort();
    assert_eq!(balances, vec![("alice".to_string(), 10), ("bob".to_string(), 11)]);
}

#[test]
fn everyone_is_announced_with_the_balance_joined_with() {
    let names = [("dave", 1000), ("carol", 50), ("alice", 7)];
    let mut operator = Operator::new(ALIAS, names.iter().map(|n| actor(n.0)).collect());
    assert!(operator.initial_broadcast().is_none());
    let mut nodes = Vec::new();
    for (name, deposit) in [names[2], names[0], names[1]] {
        let node = user(name, deposit, 7, 8);
        operator.handle_request(node.join_request(&address(1)).unwrap());
        nodes.push(node);
    }
    let message = operator.initial_broadcast().unwrap();
    match &message {
        NetworkMessage::ChannelFinalized { participants, .. } => {
            let listed: Vec<(&str, u64)> =
                participants.iter().map(|p| (p.0.as_str(), p.3)).collect();
            assert_eq!(listed, names.to_vec());
        }
        _ => panic!(),
    }
    for node in nodes.iter_mut() {
        node.handle_broadcast(message.clone());
        let mut listed = node.balances();
        listed.sort();
        assert_eq!(
            listed,
            vec![("alice".to_string(), 7), ("carol".to_string(), 50), ("dave".to_string(), 1000)]
        );
    }
    let mut nobody = Operator::new(ALIAS, Vec::new());
    assert!(nobody.initial_broadcast().is_none());
}

#[test]
fn joining_again_replaces_the_balance() {
    let mut operator = Operator::new(ALIAS, vec![actor("alice")]);
    for deposit in [5, 6] {
        let node = user("alice", deposit, 7, 8);
        operator.handle_request(node.join_request(&address(1)).unwrap());
    }
    match operator.initial_broadcast().unwrap() {
        NetworkMessage::ChannelFinalized { participants, .. } => {
            assert_eq!((participants.len(), participants[0].3), (1, 6));
        }
        _ => panic!(),
    }
}

#[test]
fn a_covered_payment_goes_through_whatever_the_deposit() {
    let mut operator = Operator::new(ALIAS, vec![actor("dave"), actor("bob")]);
    let mut dave = user("dave", 1000, 101, 1001);
    let mut bob = user("bob", 3, 102, 1002);
    operator.handle_request(dave.join_request(&address(1)).unwrap());
    operator.handle_request(bob.join_request(&address(2)).unwrap());
    announce(&mut operator, &mut [&mut dave, &mut bob]);
    assert!(matches!(dave.prepare_payment(1, 999), PayStep::Prepared { .. }));
    assert!(matches!(dave.prepare_payment(2, 2), PayStep::Insufficient { balance: 1 }));
    match dave.close_request() {
        NetworkMessage::CloseRequest { mut final_balances, .. } => {
            final_balances.sort();
            assert_eq!(final_balances, vec![("bob".to_string(), 3), ("dave".to_string(), 1)]);
        }
        _ => panic!(),
    }
}

#[test]
fn joining_fails_with_a_bad_format_or_proof() {
    let mut operator = Operator::new(ALIAS, vec![actor("alice")]);
    let pp = PP::new();
    let pk_hex = (pp.g2 * scalar(3)).to_hex();
    let comm_hex = commit(10, scalar(4), &pp).to_hex();
    let (proof_b64, _) = generate_proof(10, 0, &scalar(4), &pp).unwrap();
    let addr = format!("{:040x}", 1);
    let (answer, wake) = operator.join("alice", "0x12", &pk_hex, &comm_hex, &proof_b64, 10);
    assert!(!wake);
    assert!(matches!(answer, NetworkMessage::JoinResponse { status, message, channel_id_hex }
        if status == "ERR" && message == "Bad Format" && channel_id_hex.is_empty()));
    for (pk, comm) in [("00", comm_hex.as_str()), (pk_hex.as_str(), "00")] {
        let (answer, _) = operator.join("alice", &addr, pk, comm, &proof_b64, 10);
        assert!(matches!(answer, NetworkMessage::JoinResponse { message, .. } if message == "Bad Format"));
    }
    let other = commit(11, scalar(4), &pp).to_hex();
    let (answer, _) = operator.join("alice", &addr, &pk_hex, &other, &proof_b64, 10);
    assert!(matches!(answer, NetworkMessage::JoinResponse { status, message, channel_id_hex }
        if status == "ERR" && message == "Invalid Proof" && channel_id_hex.is_empty()));
    assert_eq!(operator.joined_count(), 0);
    for addr in [addr.clone(), format!("0x{}", addr), format!("0X{}", addr)] {
        let (answer, wake) = operator.join("alice", &addr, &pk_hex, &comm_hex, &proof_b64, 10);
        assert!(wake);
        assert!(matches!(answer, NetworkMessage::JoinResponse { status, .. } if status == "OK"));
    }
    assert_eq!(operator.joined_count(), 1);
    let (answer, _) =
        operator.answer_join("bob", address(2), G2::generator(), G1::generator(), 10, false);
    assert!(matches!(answer, NetworkMessage::JoinResponse { message, .. } if message == "Invalid Proof"));
}

#[test]
fn proposals_are_queued_in_order() {
    let (mut operator, _, _) = channel();
    for tx_id in [5, 4] {
        let (status, message, wake) =
            update_answer(operator.handle_request(proposal("alice", "bob", tx_id)));
        assert_eq!((status.as_str(), message.as_str(), wake), ("QUEUED", "Queued", true));
    }
    assert_eq!(operator.queue_len(), 2);
    for (name, tx_id) in [("alice", 0), ("dave", 6)] {
        let (status, message, wake) =
            update_answer(operator.handle_request(proposal(name, "bob", tx_id)));
        assert_eq!(
            (status.as_str(), message.as_str(), wake),
            ("REJECT", "Duplicate/Invalid", false)
        );
    }
    assert_eq!(operator.queue_len(), 2);
    for expected in [5, 4] {
        match operator.next_task() {
            SequencerTask::CollectVotes { proposal, .. } => assert_eq!(proposal.tx_id, expected),
            _ => panic!(),
        }
    }
    assert!(matches!(operator.next_task(), SequencerTask::Idle));
}

#[test]
fn vote_requests_show_the_old_commitments() {
    let (mut operator, _, _) = channel();
    operator.handle_request(proposal("alice", "bob", 1));
    let pp = PP::new();
    match operator.next_task() {
        SequencerTask::CollectVotes { proposal, request } => {
            assert_eq!(proposal.user_name, "alice");
            assert_eq!(proposal.counterparty_name, "bob");
            assert_eq!(proposal.amount, 3);
            match request {
                NetworkMessage::VoteRequest {
                    tx_id,
                    proposer_name,
                    tx_amount_comm_hex,
                    range_proof_b64,
                    proof_comm_value_b64,
                    sender_new_comm_hex,
                    sender_old_comm_hex,
                    receiver_new_comm_hex,
                    receiver_old_comm_hex,
                    prev_tx_id,
                    prev_aggregated_sig_hex,
                } => {
                    assert_eq!((tx_id, prev_tx_id), (1, 0));
                    assert_eq!(proposer_name, "alice");
                    assert_eq!(tx_amount_comm_hex, "amount");
                    assert_eq!(range_proof_b64, "proof");
                    assert_eq!(proof_comm_value_b64, "value");
                    assert_eq!(sender_new_comm_hex, "sender");
                    assert_eq!(receiver_new_comm_hex, "receiver");
                    assert_eq!(sender_old_comm_hex, commit(10, scalar(1001), &pp).to_hex());
                    assert_eq!(receiver_old_comm_hex, commit(11, scalar(1002), &pp).to_hex());
                    assert!(prev_aggregated_sig_hex.is_none());
                }
                _ => panic!(),
            }
        }
        _ => panic!(),
    }
}

#[test]
fn payments_to_strangers_cannot_be_voted_on() {
    let (mut operator, _, _) = channel();
    operator.handle_request(proposal("alice", "dave", 1));
    assert!(matches!(operator.next_task(), SequencerTask::UnknownParty));
    assert_eq!(operator.queue_len(), 0);
}

#[test]
fn other_requests_are_unknown() {
    let (mut operator, _, _) = channel();
    let request = NetworkMessage::CloseConsensus {
        status: String::new(),
        final_tx_id: 0,
        close_token: String::new(),
    };
    let (status, message, wake) = update_answer(operator.handle_request(request));
    assert_eq!((status.as_str(), message.as_str(), wake), ("ERR", "Unknown", false));
}

#[test]
fn thresholds() {
    let expected = [(0, 0), (1, 1), (2, 2), (3, 2), (4, 3), (5, 4), (6, 4), (7, 5), (100, 67)];
    for (n, needed) in expected {
        assert_eq!(threshold(n), needed);
    }
    assert_eq!(threshold(usize::MAX) as u128, (usize::MAX as u128 * 2 + 2) / 3);
}

#[test]
fn shares_of_votes() {
    let vote = |status: &str| NetworkMessage::VoteResponse {
        tx_id: 1,
        voter_name: "me".to_string(),
        status: status.to_string(),
        sig_share_hex: Some("share".to_string()),
    };
    assert_eq!(vote_share(vote("OK")).unwrap(), "share");
    assert!(vote_share(vote("REJECT")).is_none());
    assert!(vote_share(proposal("alice", "bob", 1)).is_none());
}

fn round(sender_new: &str, receiver_new: &str) -> Proposal {
    Proposal {
        user_name: "alice".to_string(),
        counterparty_name: "bob".to_string(),
        tx_id: 9,
        amount: 3,
        sender_new_comm_hex: sender_new.to_string(),
        receiver_new_comm_hex: receiver_new.to_string(),
    }
}

#[test]
fn votes_commit_a_payment() {
    let (mut operator, _, _) = channel();
    let g = G1::generator();
    let proposed = round(&(g * scalar(5)).to_hex(), &(g * scalar(6)).to_hex());
    let votes = vec![
        Some((g * scalar(20)).to_hex()),
        None,
        Some("junk".to_string()),
        Some((g * scalar(22)).to_hex()),
    ];
    let expected = (g * scalar(42)).to_hex();
    match operator.conclude_vote(&proposed, &votes) {
        Conclusion::Committed { announcement } => match announcement {
            NetworkMessage::ConsensusReached {
                tx_id,
                status,
                all_signatures,
                sender_name,
                sender_new_comm_hex,
                receiver_name,
                receiver_new_comm_hex,
                amount,
            } => {
                assert_eq!((tx_id, amount), (9, 3));
                assert_eq!(status, "COMMITTED");
                assert_eq!(all_signatures, vec![expected.clone()]);
                assert_eq!((sender_name.as_str(), receiver_name.as_str()), ("alice", "bob"));
                assert_eq!(sender_new_comm_hex, proposed.sender_new_comm_hex);
                assert_eq!(receiver_new_comm_hex, proposed.receiver_new_comm_hex);
            }
            _ => panic!(),
        },
        _ => panic!(),
    }
    assert_eq!(operator.last_committed_tx_id(), 9);
    let (status, _, _) = update_answer(operator.handle_request(proposal("bob", "alice", 9)));
    assert_eq!(status, "REJECT");
    operator.handle_request(proposal("bob", "alice", 10));
    match operator.next_task() {
        SequencerTask::CollectVotes { request, .. } => match request {
            NetworkMessage::VoteRequest {
                sender_old_comm_hex,
                receiver_old_comm_hex,
                prev_tx_id,
                prev_aggregated_sig_hex,
                ..
            } => {
                assert_eq!(sender_old_comm_hex, proposed.receiver_new_comm_hex);
                assert_eq!(receiver_old_comm_hex, proposed.sender_new_comm_hex);
                assert_eq!(prev_tx_id, 9);
                assert_eq!(prev_aggregated_sig_hex.unwrap(), expected);
            }
            _ => panic!(),
        },
        _ => panic!(),
    }
}

#[test]
fn votes_that_do_not_commit() {
    let (mut operator, _, _) = channel();
    let g = G1::generator().to_hex();
    let good = round(&g, &g);
    match operator.conclude_vote(&good, &vec![Some(g.clone()), None]) {
        Conclusion::Insufficient { got, needed } => assert_eq!((got, needed), (1, 2)),
        _ => panic!(),
    }
    let votes = vec![Some(g.clone()), Some(g.clone())];
    for bad in [round("junk", &g), round(&g, "junk")] {
        assert!(matches!(
            operator.conclude_vote(&bad, &votes),
            Conclusion::BadCommitment
        ));
    }
    assert_eq!(operator.last_committed_tx_id(), 0);
    let mut nobody = Operator::new(ALIAS, Vec::new());
    assert!(matches!(
        nobody.conclude_vote(&good, &Vec::new()),
        Conclusion::AggregationFailed
    ));
}

#[test]
fn closing_pays_everyone_in_order() {
    let mut operator = Operator::new(ALIAS, vec![actor("alice"), actor("bob"), actor("carol")]);
    for (name, last) in [("carol", 3), ("alice", 1), ("bob", 2)] {
        let node = user(name, 10, 7, 8);
        operator.handle_request(node.join_request(&address(last)).unwrap());
    }
    let request = |id: String| NetworkMessage::CloseRequest {
        user_name: "alice".to_string(),
        channel_id_hex: id,
        final_tx_id: 7,
        signature_b64: "AQID".to_string(),
        final_balances: vec![("carol".to_string(), 30), ("alice".to_string(), 10)],
    };
    let id = format!("0x{}", hex(&channel_id_of(ALIAS)));
    match operator.handle_request(request(id.clone())) {
        IngressStep::Settle { call, closer, channel_id_hex, final_tx_id } => {
            assert_eq!((closer.as_str(), final_tx_id), ("alice", 7));
            assert_eq!(channel_id_hex, id);
            match call {
                ContractCall::InitiateClose { channel_id, nonce, recipients, amounts, signature } => {
                    assert_eq!(channel_id, channel_id_of(ALIAS));
                    assert_eq!(nonce, 7);
                    assert_eq!(recipients, vec![address(1), address(2), address(3)]);
                    assert_eq!(amounts, [10, 0, 30].map(u64_to_be_bytes32).to_vec());
                    assert_eq!(signature, vec![1, 2, 3]);
                }
                _ => panic!(),
            }
        }
        _ => panic!(),
    }
    match reply(operator.handle_request(request("0x00".to_string()))) {
        (NetworkMessage::CloseConsensus { status, final_tx_id, close_token }, wake) => {
            assert_eq!((status.as_str(), final_tx_id), ("REJECT", 0));
            assert_eq!(close_token, "Invalid ID");
            assert!(!wake);
        }
        _ => panic!(),
    }
}

#[test]
fn settling_announces_the_end() {
    let (mut operator, _, mut bob) = channel();
    let (answer, closed) = operator.settled(
        "alice".to_string(),
        "id".to_string(),
        7,
        Err("down".to_string()),
    );
    assert!(!closed);
    assert!(matches!(answer, NetworkMessage::CloseConsensus { status, final_tx_id: 0, close_token }
        if status == "ERROR" && close_token == "down"));
    assert_eq!(operator.queue_len(), 0);
    assert!(matches!(operator.next_task(), SequencerTask::Idle));
    let (answer, closed) =
        operator.settled("alice".to_string(), "id".to_string(), 7, Ok("0xabc".to_string()));
    assert!(closed);
    assert!(matches!(answer, NetworkMessage::CloseConsensus { status, final_tx_id: 7, close_token }
        if status == "OK" && close_token == "0xabc"));
    match operator.next_task() {
        SequencerTask::Broadcast { message } => match bob.handle_broadcast(message) {
            BroadcastStep::Closed { closer, final_tx_id } => {
                assert_eq!((closer.as_str(), final_tx_id), ("alice", 7));
            }
            _ => panic!(),
        },
        _ => panic!(),
    }
    assert!(matches!(operator.next_task(), SequencerTask::Stop));
}

#[test]
fn what_waits_is_done_before_the_sequencer_stops() {
    let (mut operator, _, _) = channel();
    operator.handle_request(proposal("alice", "bob", 1));
    operator.settled("bob".to_string(), "id".to_string(), 1, Ok("0xabc".to_string()));
    operator.handle_request(proposal("bob", "alice", 2));
    assert!(matches!(operator.next_task(), SequencerTask::CollectVotes { .. }));
    assert!(matches!(
        operator.next_task(),
        SequencerTask::Broadcast { message: NetworkMessage::ChannelClosed { .. } }
    ));
    assert!(matches!(operator.next_task(), SequencerTask::CollectVotes { .. }));
    assert!(matches!(operator.next_task(), SequencerTask::Stop));
}

#[test]
fn deposits() {
    assert_eq!(deposit_amount(None), Some(10));
    assert_eq!(deposit_amount(Some(1000)), Some(1000));
    assert_eq!(deposit_amount(Some(0)), Some(0));
    assert_eq!(deposit_amount(Some(u64::MAX as u128)), Some(u64::MAX));
    assert_eq!(deposit_amount(Some(1u128 << 64)), None);
    assert_eq!(deposit_amount(Some((1u128 << 64) + 5)), None);
}

#[test]
fn channel_identifiers() {
    let digits = "0a".repeat(32);
    assert_eq!(parse_channel_id(&format!(" 0x{}\n", digits)).unwrap(), [0x0a; 32]);
    assert_eq!(parse_channel_id(&digits).unwrap(), [0x0a; 32]);
    assert!(matches!(parse_channel_id("0xzz"), Err(ChannelIdError::NotHex)));
    assert!(matches!(parse_channel_id("0x0a"), Err(ChannelIdError::WrongLength)));
    assert!(matches!(parse_channel_id(""), Err(ChannelIdError::WrongLength)));
}

#[test]
fn commands() {
    assert!(matches!(parse_command("  \n"), Command::Empty));
    assert!(matches!(parse_command(" balance now"), Command::Balance));
    assert!(matches!(parse_command("close"), Command::Close));
    assert!(matches!(parse_command("pay bob 3"), Command::PayUsage));
    assert!(matches!(parse_command("PAY bob 3 4"), Command::Unknown));
    assert!(matches!(parse_command("pay bob 3 4 5"), Command::Pay { target, amount: 3, tx_id: 4 }
        if target == "bob"));
    assert!(matches!(parse_command("pay bob x y"), Command::Pay { amount: 10, tx_id: 1, .. }));
}

#[test]
fn close_answers() {
    assert!(close_accepted("{\"type\":\"CloseConsensus\",\"status\":\"OK\",\"final_tx_id\":1}"));
    assert!(!close_accepted("{\"status\":\"ERROR\"}"));
    assert!(!close_accepted("{\"status\": \"OK\"}"));
}

#[test]
fn numbers_in_thirty_two_bytes() {
    let mut expected = [0u8; 32];
    expected[30] = 1;
    expected[31] = 2;
    assert_eq!(u64_to_be_bytes32(0x0102), expected);
    assert_eq!(u64_to_be_bytes32(u64::MAX)[24..], [0xff; 8]);
    assert_eq!(u64_to_be_bytes32(u64::MAX)[..24], [0; 24]);
}

#[test]
fn syncing_keeps_what_can_be_read() {
    let mut alice = user("alice", 10, 101, 1001);
    let g = G1::generator().to_hex();
    let pk = G2::generator().to_hex();
    let participants = vec![
        ("bob".to_string(), pk.clone(), g.clone(), 11),
        ("carol".to_string(), pk, "junk".to_string(), 12),
    ];
    alice.sync(&participants);
    let mut expected = channel_id_of(ALIAS).to_vec();
    expected.extend_from_slice(&[0; 32]);
    expected.extend_from_slice(&G1::generator().to_compressed());
    assert_eq!(alice.close_message(), expected);
    assert_eq!(alice.balances().len(), 2);
}

#[test]
fn committed_payments_are_noted() {
    let (mut operator, mut alice, mut bob) = channel();
    announce(&mut operator, &mut [&mut alice, &mut bob]);
    let g = G1::generator();
    let reached = |tx_id: u64, comm_hex: &str| NetworkMessage::ConsensusReached {
        tx_id,
        status: "COMMITTED".to_string(),
        all_signatures: Vec::new(),
        sender_name: "alice".to_string(),
        sender_new_comm_hex: comm_hex.to_string(),
        receiver_name: "bob".to_string(),
        receiver_new_comm_hex: g.to_hex(),
        amount: 1,
    };
    assert!(matches!(
        bob.handle_broadcast(reached(5, &(g + g).to_hex())),
        BroadcastStep::Updated
    ));
    assert_eq!(bob.current_tx_id(), 5);
    let mut expected = channel_id_of(ALIAS).to_vec();
    expected.extend_from_slice(&u64_to_be_bytes32(5));
    expected.extend_from_slice(&(g + g).to_compressed());
    expected.extend_from_slice(&g.to_compressed());
    assert_eq!(bob.close_message(), expected);
    bob.handle_broadcast(reached(4, &g.to_hex()));
    assert_eq!(bob.current_tx_id(), 5);
    assert!(matches!(
        bob.handle_broadcast(reached(6, "junk")),
        BroadcastStep::Ignored
    ));
    assert_eq!(bob.current_tx_id(), 5);
    assert_eq!(bob.balance(), 11);
    assert!(matches!(
        bob.handle_broadcast(proposal("a", "b", 1)),
        BroadcastStep::Ignored
    ));
}

#[test]
fn close_request_is_signed() {
    let (mut operator, mut alice, mut bob) = channel();
    announce(&mut operator, &mut [&mut alice, &mut bob]);
    let pp = PP::new();
    match alice.close_request() {
        NetworkMessage::CloseRequest {
            user_name,
            channel_id_hex,
            final_tx_id,
            signature_b64,
            mut final_balances,
        } => {
            assert_eq!((user_name.as_str(), final_tx_id), ("alice", 0));
            assert_eq!(channel_id_hex, hex(&channel_id_of(ALIAS)));
            final_balances.sort();
            assert_eq!(
                final_balances,
                vec![("alice".to_string(), 10), ("bob".to_string(), 11)]
            );
            let sigma = G1::from_hex(&hex(&base64_decode(&signature_b64).unwrap())).unwrap();
            assert!(sigma == sign(scalar(101), &alice.close_message()));
            assert!(verify_aggregate(
                sigma,
                pp.g2 * scalar(101),
                &alice.close_message(),
                &pp
            ));
        }
        _ => panic!(),
    }
}

#[test]
fn payments_are_covered_and_proved() {
    let mut alice = user("alice", 10, 101, 1001);
    assert!(matches!(
        alice.prepare_payment(1, 11),
        PayStep::Insufficient { balance: 10 }
    ));
    let failed = alice.prepare_payment_with(1, 4, scalar(5), scalar(6), Err("no".to_string()));
    assert!(matches!(failed, PayStep::ProofFailed { reason } if reason == "no"));
    let texts = Ok(("*".to_string(), String::new()));
    let failed = alice.prepare_payment_with(1, 4, scalar(5), scalar(6), texts);
    assert!(matches!(failed, PayStep::Fault));
    assert_eq!(alice.balance(), 10);
    let texts = Ok(("AQID".to_string(), "AA==".to_string()));
    let pp = PP::new();
    match alice.prepare_payment_with(1, 4, scalar(5), scalar(6), texts) {
        PayStep::Prepared { payment } => {
            let c_m = commit(4, scalar(5), &pp);
            let rest = homomorphic_sub(commit(10, scalar(1001), &pp), c_m);
            assert_eq!((payment.tx_id, payment.amount), (1, 4));
            assert_eq!(payment.commitment_hex, c_m.to_hex());
            assert_eq!(payment.range_proof_b64, "AQID");
            assert_eq!(payment.comm_value_b64, "AA==");
            assert_eq!(payment.new_comm_hex, rest.to_hex());
            assert_eq!(
                payment.blinded_point_hex,
                (sign(scalar(6), &[1, 2, 3])).to_hex()
            );
            assert!(payment.blinding == scalar(6));
        }
        _ => panic!(),
    }
    assert_eq!((alice.balance(), alice.current_tx_id()), (6, 1));
}

#[test]
fn listed_balance_must_cover_a_payment() {
    let (mut operator, _, mut bob) = channel();
    let mut alice = user("alice", 100, 101, 1001);
    announce(&mut operator, &mut [&mut alice, &mut bob]);
    assert!(matches!(alice.prepare_payment(1, 11), PayStep::Fault));
    assert_eq!(alice.balance(), 100);
    assert!(matches!(alice.prepare_payment(1, 10), PayStep::Prepared { .. }));
    assert_eq!(alice.balance(), 90);
}

fn notice(alice: &mut UserNode, amount: u64) -> PaymentNotice {
    match alice.prepare_payment(1, amount) {
        PayStep::Prepared { payment } => PaymentNotice {
            tx_id: payment.tx_id,
            amount: payment.amount,
            commitment_hex: payment.commitment_hex,
            range_proof_b64: payment.range_proof_b64,
            comm_value_b64: payment.comm_value_b64,
            blinded_tx_point_hex: payment.blinded_point_hex,
        },
        _ => panic!(),
    }
}

#[test]
fn payments_without_a_valid_proof_are_not_answered() {
    let mut alice = user("alice", 10, 101, 1001);
    let mut bob = user("bob", 11, 102, 1002);
    let mut announced = notice(&mut alice, 4);
    announced.range_proof_b64 = "AAAA".to_string();
    assert!(matches!(bob.take_payment(&announced), PeerStep::Silent));
    assert_eq!((bob.balance(), bob.current_tx_id()), (11, 0));
}

#[test]
fn payments_that_cannot_be_taken() {
    let mut alice = user("alice", 10, 101, 1001);
    let mut bob = user("bob", 11, 102, 1002);
    let good = notice(&mut alice, 4);
    let mut announced = notice(&mut alice, 1);
    announced.commitment_hex = "junk".to_string();
    assert!(matches!(bob.take_payment(&announced), PeerStep::Fault));
    let mut announced = notice(&mut alice, 1);
    announced.blinded_tx_point_hex = "junk".to_string();
    assert!(matches!(bob.take_payment(&announced), PeerStep::Fault));
    let mut announced = notice(&mut alice, 1);
    announced.amount = u64::MAX;
    assert!(matches!(bob.take_payment(&announced), PeerStep::Fault));
    assert_eq!((bob.balance(), bob.current_tx_id()), (11, 0));
    assert!(matches!(bob.take_payment(&good), PeerStep::Answer { .. }));
    assert_eq!((bob.balance(), bob.current_tx_id()), (15, 1));
    let keys = KeyPair::generate(&PP::new());
    assert!(matches!(
        bob.take_payment_with(&good, false, keys),
        PeerStep::Silent
    ));
}

#[test]
fn answers_of_payees_that_are_not_used() {
    let mut alice = user("alice", 10, 101, 1001);
    let payment = match alice.prepare_payment(1, 4) {
        PayStep::Prepared { payment } => payment,
        _ => panic!(),
    };
    let g = G1::generator().to_hex();
    let answer = |status: &str, pk: Option<&str>, sig: Option<&str>, comm: Option<&str>| {
        NetworkMessage::P2PUpdateResp {
            tx_id: 1,
            status: status.to_string(),
            ephemeral_pk_hex: pk.map(|s| s.to_string()),
            blinded_signature_hex: sig.map(|s| s.to_string()),
            receiver_new_comm_hex: comm.map(|s| s.to_string()),
        }
    };
    let step = |response| alice.complete_payment(&payment, "bob", 0, response);
    assert!(matches!(
        step(answer("NO", Some("pk"), Some(&g), Some("c"))),
        CompletionStep::Nothing
    ));
    assert!(matches!(
        step(answer("OK", None, Some(&g), Some("c"))),
        CompletionStep::Nothing
    ));
    assert!(matches!(
        step(answer("OK", Some("pk"), None, Some("c"))),
        CompletionStep::Nothing
    ));
    assert!(matches!(step(proposal("a", "b", 1)), CompletionStep::Nothing));
    assert!(matches!(
        step(answer("OK", Some("pk"), Some("junk"), Some("c"))),
        CompletionStep::Fault
    ));
    assert!(matches!(
        step(answer("OK", Some("pk"), Some(&g), None)),
        CompletionStep::Fault
    ));
    let keys = KeyPair::from_secret(scalar(9), &PP::new());
    let response = answer("OK", Some("pk"), Some(&g), Some("c"));
    match alice.complete_payment_with(&payment, "bob", 4, response, keys) {
        CompletionStep::Propose { proposal } => match proposal {
            NetworkMessage::UpdateProposal {
                user_name,
                counterparty_name,
                prev_tx_id,
                amount,
                receiver_new_comm_hex,
                proposer_ephemeral_pk_hex,
                proposer_signature_b64,
                counterparty_ephemeral_pk_hex,
                counterparty_signature_b64,
                ..
            } => {
                assert_eq!((user_name.as_str(), counterparty_name.as_str()), ("alice", "bob"));
                assert_eq!((prev_tx_id, amount), (0, 4));
                assert_eq!(receiver_new_comm_hex, "c");
                assert_eq!(proposer_ephemeral_pk_hex, keys.pk.to_hex());
                let bytes = base64_decode(&payment.range_proof_b64).unwrap();
                assert_eq!(
                    base64_decode(&proposer_signature_b64).unwrap(),
                    sign(scalar(9), &bytes).to_compressed().to_vec()
                );
                assert_eq!(counterparty_ephemeral_pk_hex.unwrap(), "pk");
                assert_eq!(
                    base64_decode(&counterparty_signature_b64.unwrap()).unwrap(),
                    unblind(G1::generator(), payment.blinding).to_compressed().to_vec()
                );
            }
            _ => panic!(),
        },
        _ => panic!(),
    }
}

#[test]
fn votes_reject_payments_that_do_not_add_up() {
    let (mut operator, mut alice, mut bob) = channel();
    announce(&mut operator, &mut [&mut alice, &mut bob]);
    let pp = PP::new();
    let (proof_b64, comm_b64) = generate_proof(10, 4, &scalar(1001), &pp).unwrap();
    let old_s = commit(10, scalar(1001), &pp);
    let old_r = commit(11, scalar(1002), &pp);
    let c_m = commit(4, scalar(5), &pp);
    let ballot = |sender_new: G1, receiver_new: G1| Ballot {
        tx_id: 1,
        proposer_name: "alice".to_string(),
        tx_amount_comm_hex: c_m.to_hex(),
        range_proof_b64: proof_b64.clone(),
        proof_comm_value_b64: comm_b64.clone(),
        sender_new_comm_hex: sender_new.to_hex(),
        sender_old_comm_hex: old_s.to_hex(),
        receiver_new_comm_hex: receiver_new.to_hex(),
        receiver_old_comm_hex: old_r.to_hex(),
        prev_tx_id: 0,
        prev_aggregated_sig_hex: None,
    };
    let status = |bob: &mut UserNode, ballot: &Ballot| match bob.vote(ballot) {
        NetworkMessage::VoteResponse { tx_id, voter_name, status, sig_share_hex } => {
            assert_eq!((tx_id, voter_name.as_str()), (1, "me"));
            assert_eq!(status == "OK", sig_share_hex.is_some());
            (status, sig_share_hex)
        }
        _ => panic!(),
    };
    let new_s = homomorphic_sub(old_s, c_m);
    let new_r = homomorphic_add(old_r, c_m);
    let (verdict, share) = status(&mut bob, &ballot(new_s, new_r));
    assert_eq!(verdict, "OK");
    let bytes = base64_decode(&proof_b64).unwrap();
    assert_eq!(share.unwrap(), sign(scalar(102), &bytes).to_hex());
    for bad in [ballot(new_s, old_r), ballot(old_s, new_r), ballot(new_r, new_s)] {
        assert_eq!(status(&mut bob, &bad).0, "REJECT");
    }
    let mut stranger = ballot(new_s, new_r);
    stranger.proposer_name = "bob".to_string();
    assert_eq!(status(&mut bob, &stranger).0, "REJECT");
    stranger.proposer_name = "dave".to_string();
    assert_eq!(status(&mut bob, &stranger).0, "REJECT");
    let mut unreadable = ballot(new_s, new_r);
    unreadable.receiver_old_comm_hex = "junk".to_string();
    assert_eq!(status(&mut bob, &unreadable).0, "REJECT");
    let mut unproved = ballot(new_s, new_r);
    unproved.range_proof_b64 = "AAAA".to_string();
    assert_eq!(status(&mut bob, &unproved).0, "REJECT");
    let rejected = bob.vote_with(&ballot(new_s, new_r), false);
    assert!(matches!(rejected, NetworkMessage::VoteResponse { status, .. } if status == "REJECT"));
}

#[test]
fn other_messages_to_a_user_are_not_answered() {
    let mut bob = user("bob", 11, 102, 1002);
    assert!(matches!(
        bob.handle_peer(proposal("a", "b", 1)),
        PeerStep::Silent
    ));
}

#[test]
fn payment_from_order_to_consensus() {
    let (mut operator, mut alice, mut bob) = channel();
    announce(&mut operator, &mut [&mut alice, &mut bob]);
    let pp = PP::new();

    let payment = match alice.prepare_payment(1, 4) {
        PayStep::Prepared { payment } => payment,
        _ => panic!(),
    };
    let consent = match bob.handle_peer(UserNode::payment_notice(&payment)) {
        PeerStep::Answer { reply } => reply,
        _ => panic!(),
    };
    assert_eq!(alice.balance() + bob.balance(), 21);
    assert_eq!((alice.balance(), bob.balance()), (6, 15));
    let mut balances = bob.balances();
    balances.sort();
    assert_eq!(balances, vec![("alice".to_string(), 10), ("bob".to_string(), 15)]);

    let proposed = match alice.complete_payment(&payment, "bob", 4, consent) {
        CompletionStep::Propose { proposal } => proposal,
        _ => panic!(),
    };
    match &proposed {
        NetworkMessage::UpdateProposal {
            counterparty_ephemeral_pk_hex,
            counterparty_signature_b64,
            range_proof_b64,
            ..
        } => {
            let pk = G2::from_hex(counterparty_ephemeral_pk_hex.as_ref().unwrap()).unwrap();
            let bytes = base64_decode(counterparty_signature_b64.as_ref().unwrap()).unwrap();
            let sigma = G1::from_hex(&hex(&bytes)).unwrap();
            let msg = base64_decode(range_proof_b64).unwrap();
            assert!(verify_aggregate(sigma, pk, &msg, &pp));
        }
        _ => panic!(),
    }
    let (status, _, _) = update_answer(operator.handle_request(proposed));
    assert_eq!(status, "QUEUED");

    let (round, request) = match operator.next_task() {
        SequencerTask::CollectVotes { proposal, request } => (proposal, request),
        _ => panic!(),
    };
    let mut votes = Vec::new();
    for node in [&mut alice, &mut bob] {
        match node.handle_peer(request.clone()) {
            PeerStep::Answer { reply } => votes.push(vote_share(reply)),
            _ => panic!(),
        }
    }
    assert!(votes.iter().all(|v| v.is_some()));
    let announcement = match operator.conclude_vote(&round, &votes) {
        Conclusion::Committed { announcement } => announcement,
        _ => panic!(),
    };
    match &announcement {
        NetworkMessage::ConsensusReached { all_signatures, .. } => {
            let sigma = G1::from_hex(&all_signatures[0]).unwrap();
            let keys = vec![pp.g2 * scalar(101), pp.g2 * scalar(102)];
            let cpk = aggregate_public_keys(keys).unwrap();
            let msg = base64_decode(&payment.range_proof_b64).unwrap();
            assert!(verify_aggregate(sigma, cpk, &msg, &pp));
        }
        _ => panic!(),
    }
    for node in [&mut alice, &mut bob] {
        assert!(matches!(
            node.handle_broadcast(announcement.clone()),
            BroadcastStep::Updated
        ));
        assert_eq!(node.current_tx_id(), 1);
    }
    assert_eq!(alice.close_message(), bob.close_message());
    match operator.handle_request(bob.close_request()) {
        IngressStep::Settle { call: ContractCall::InitiateClose { amounts, .. }, .. } => {
            assert_eq!(amounts, [10, 15].map(u64_to_be_bytes32).to_vec());
        }
        _ => panic!(),
    }
}

#[test]
fn a_vote_changes_the_two_parties_alone() {
    let names = ["alice", "bob", "carol"];
    let mut operator = Operator::new(ALIAS, names.iter().map(|n| actor(n)).collect());
    for (i, name) in names.iter().enumerate() {
        let node = user(name, 10, 7, 100 + i as u64);
        operator.handle_request(node.join_request(&address(1)).unwrap());
    }
    let g = G1::generator();
    let proposed = round(&(g * scalar(5)).to_hex(), &(g * scalar(6)).to_hex());
    let votes = vec![Some(g.to_hex()), Some(g.to_hex())];
    assert!(matches!(
        operator.conclude_vote(&proposed, &votes),
        Conclusion::Committed { .. }
    ));
    assert_eq!(operator.joined_count(), 3);
    operator.handle_request(proposal("carol", "alice", 10));
    match operator.next_task() {
        SequencerTask::CollectVotes { request, .. } => match request {
            NetworkMessage::VoteRequest { sender_old_comm_hex, receiver_old_comm_hex, .. } => {
                let pp = PP::new();
                assert_eq!(sender_old_comm_hex, commit(10, scalar(102), &pp).to_hex());
                assert_eq!(receiver_old_comm_hex, proposed.sender_new_comm_hex);
            }
            _ => panic!(),
        },
        _ => panic!(),
    }
}

#[test]
fn a_vote_does_not_touch_the_voter() {
    let (mut operator, mut alice, mut bob) = channel();
    announce(&mut operator, &mut [&mut alice, &mut bob]);
    let before = (bob.balance(), bob.current_tx_id(), bob.close_message());
    operator.handle_request(proposal("alice", "bob", 1));
    match operator.next_task() {
        SequencerTask::CollectVotes { request, .. } => {
            assert!(matches!(bob.handle_peer(request), PeerStep::Answer { .. }));
        }
        _ => panic!(),
    }
    assert_eq!(before, (bob.balance(), bob.current_tx_id(), bob.close_message()));
}

#[test]
fn a_second_payment_builds_on_the_first() {
    let (mut operator, mut alice, mut bob) = channel();
    announce(&mut operator, &mut [&mut alice, &mut bob]);
    for (tx_id, amount) in [(1, 3), (2, 2)] {
        let payment = match alice.prepare_payment(tx_id, amount) {
            PayStep::Prepared { payment } => payment,
            _ => panic!(),
        };
        let consent = match bob.handle_peer(UserNode::payment_notice(&payment)) {
            PeerStep::Answer { reply } => reply,
            _ => panic!(),
        };
        match alice.complete_payment(&payment, "bob", 0, consent) {
            CompletionStep::Propose { proposal } => {
                assert!(matches!(&proposal, NetworkMessage::UpdateProposal { prev_tx_id, .. }
                    if *prev_tx_id == tx_id - 1));
                operator.handle_request(proposal);
            }
            _ => panic!(),
        }
        let (round, request) = match operator.next_task() {
            SequencerTask::CollectVotes { proposal, request } => (proposal, request),
            _ => panic!(),
        };
        let mut votes = Vec::new();
        for node in [&mut alice, &mut bob] {
            match node.handle_peer(request.clone()) {
                PeerStep::Answer { reply } => votes.push(vote_share(reply)),
                _ => panic!(),
            }
        }
        match operator.conclude_vote(&round, &votes) {
            Conclusion::Committed { announcement } => {
                alice.handle_broadcast(announcement.clone());
                bob.handle_broadcast(announcement);
            }
            _ => panic!(),
        }
        assert_eq!(alice.close_message(), bob.close_message());
    }
    assert_eq!((alice.balance(), bob.balance()), (5, 16));
    assert_eq!(operator.last_committed_tx_id(), 2);
}
