//! The messages that the nodes exchange.
use vstd::prelude::*;

verus! {

/// A message of the channel protocol. Points are written as the hexadecimal text of their
/// compressed encodings, proofs and signatures as base64 text.
#[allow(inconsistent_fields)]
#[derive(Debug, Clone)]
pub enum NetworkMessage {
    /// From a user to the operator: takes part in the channel.
    JoinRequest {
        user_name: String,
        user_addr_str: String,
        pk_hex: String,
        initial_balance_comm_hex: String,
        initial_balance_proof_b64: String,
        initial_balance: u64,
    },
    /// From the operator to the user: the answer to a join request.
    JoinResponse { status: String, message: String, channel_id_hex: String },
    /// From the sequencer to all: the participants with their keys, commitments and balances.
    ChannelFinalized {
        channel_id_hex: String,
        participants: Vec<(String, String, String, u64)>,
    },
    /// From the payer to the payee: announces a payment.
    P2PUpdateReq {
        tx_id: u64,
        amount: u64,
        commitment_hex: String,
        range_proof_b64: String,
        comm_value_b64: String,
        blinded_tx_point_hex: String,
    },
    /// From the payee to the payer: signs the announced payment blindly.
    P2PUpdateResp {
        tx_id: u64,
        status: String,
        ephemeral_pk_hex: Option<String>,
        blinded_signature_hex: Option<String>,
        receiver_new_comm_hex: Option<String>,
    },
    /// From the payer to the operator: proposes the payment to all.
    UpdateProposal {
        user_name: String,
        counterparty_name: String,
        tx_id: u64,
        prev_tx_id: u64,
        amount: u64,
        tx_amount_comm_hex: String,
        range_proof_b64: String,
        proof_comm_value_b64: String,
        sender_new_comm_hex: String,
        receiver_new_comm_hex: String,
        proposer_ephemeral_pk_hex: String,
        proposer_signature_b64: String,
        counterparty_ephemeral_pk_hex: Option<String>,
        counterparty_signature_b64: Option<String>,
    },
    /// From the operator to the payer: the answer to a proposal.
    UpdateResponse {
        status: String,
        message: String,
        aggregated_signature_hex: Option<String>,
    },
    /// From the sequencer to a user: asks for a vote on a payment.
    VoteRequest {
        tx_id: u64,
        proposer_name: String,
        tx_amount_comm_hex: String,
        range_proof_b64: String,
        proof_comm_value_b64: String,
        sender_new_comm_hex: String,
        sender_old_comm_hex: String,
        receiver_new_comm_hex: String,
        receiver_old_comm_hex: String,
        prev_tx_id: u64,
        prev_aggregated_sig_hex: Option<String>,
    },
    /// From a user to the sequencer: the vote.
    VoteResponse {
        tx_id: u64,
        voter_name: String,
        status: String,
        sig_share_hex: Option<String>,
    },
    /// From the sequencer to all: a payment is committed.
    ConsensusReached {
        tx_id: u64,
        status: String,
        all_signatures: Vec<String>,
        sender_name: String,
        sender_new_comm_hex: String,
        receiver_name: String,
        receiver_new_comm_hex: String,
        amount: u64,
    },
    /// From a user to the operator: closes the channel with the balances that the user knows.
    CloseRequest {
        user_name: String,
        channel_id_hex: String,
        final_tx_id: u64,
        signature_b64: String,
        final_balances: Vec<(String, u64)>,
    },
    /// From the operator to the user: the answer to a close request.
    CloseConsensus { status: String, final_tx_id: u64, close_token: String },
    /// From the sequencer to all: the channel is closed.
    ChannelClosed { channel_id_hex: String, closer: String, final_tx_id: u64 },
}

/// The text of an optional string.
pub open spec fn option_text(text: Option<String>) -> Option<Seq<char>> {
    match text {
        Some(s) => Some(s@),
        None => None,
    }
}

/// A participant of the channel as texts: name, public key, commitment and balance.
pub open spec fn participant_texts(p: (String, String, String, u64)) -> (
    Seq<char>,
    Seq<char>,
    Seq<char>,
    u64,
) {
    (p.0@, p.1@, p.2@, p.3)
}

impl NetworkMessage {
    /// Whether this is the given answer to a join request.
    pub open spec fn is_join_response(
        self,
        with_status: Seq<char>,
        with_message: Seq<char>,
        with_id: Seq<char>,
    ) -> bool {
        self matches NetworkMessage::JoinResponse { status, message, channel_id_hex } && status@
            == with_status && message@ == with_message && channel_id_hex@ == with_id
    }

    /// Whether this announces the given participants.
    pub open spec fn is_channel_finalized(
        self,
        with_id: Seq<char>,
        with_participants: Seq<(Seq<char>, Seq<char>, Seq<char>, u64)>,
    ) -> bool {
        self matches NetworkMessage::ChannelFinalized { channel_id_hex, participants }
            && channel_id_hex@ == with_id && participants@.map_values(
            |p: (String, String, String, u64)| participant_texts(p),
        ) == with_participants
    }

    /// Whether this is the given answer to a proposal, without a signature.
    pub open spec fn is_update_response(
        self,
        with_status: Seq<char>,
        with_message: Seq<char>,
    ) -> bool {
        self matches NetworkMessage::UpdateResponse { status, message, aggregated_signature_hex }
            && status@ == with_status && message@ == with_message && aggregated_signature_hex is None
    }

    /// Whether this is the given answer to a close request.
    pub open spec fn is_close_consensus(
        self,
        with_status: Seq<char>,
        with_tx_id: u64,
        with_token: Seq<char>,
    ) -> bool {
        self matches NetworkMessage::CloseConsensus { status, final_tx_id, close_token } && status@
            == with_status && final_tx_id == with_tx_id && close_token@ == with_token
    }

    /// Whether this announces the given end of the channel.
    pub open spec fn is_channel_closed(
        self,
        with_id: Seq<char>,
        with_closer: Seq<char>,
        with_tx_id: u64,
    ) -> bool {
        self matches NetworkMessage::ChannelClosed { channel_id_hex, closer, final_tx_id }
            && channel_id_hex@ == with_id && closer@ == with_closer && final_tx_id == with_tx_id
    }

    /// Whether this is the given vote.
    pub open spec fn is_vote_response(
        self,
        with_tx_id: u64,
        with_name: Seq<char>,
        with_status: Seq<char>,
        with_share: Option<Seq<char>>,
    ) -> bool {
        self matches NetworkMessage::VoteResponse { tx_id, voter_name, status, sig_share_hex }
            && tx_id == with_tx_id && voter_name@ == with_name && status@ == with_status
            && option_text(sig_share_hex) == with_share
    }
}

} // verus!
