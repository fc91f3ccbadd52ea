//! A user of a channel: pays, is paid, votes on payments and closes the channel.
use crate::blockchain::{address_of, address_text, checksum_text, checksum_text_round_trip};
use crate::crypto::backend::{
    g1_at, g1_compressed, g1_in_group, g1_negation, g1_sum, g1_times, g2_at, g2_times, group_order,
    group_order_large, reduced,
};
use crate::crypto::blind;
use crate::crypto::blind::{scaled, BlindedMessage};
use crate::crypto::commitment;
use crate::crypto::commitment::{commitment_to, is_difference, is_sum, opens};
use crate::crypto::common::{PP, SharedParameters};
use crate::crypto::multisig;
use crate::crypto::multisig::{message_point, signed_with, KeyPair};
use crate::crypto::range_proof;
use crate::crypto::range_proof::{is_proof_outcome, is_proof_verdict, proof_decodes, proof_holds};
use crate::crypto::wrapper::{g1_hex, g1_of_hex, g2_of_hex, is_drawn, readable, Fr, G1, G2};
use crate::encoding::{
    append_bytes, base64_bytes, base64_decode, base64_encode, base64_text, be_bytes, hex_bytes,
    hex_decode, hex_decodes, hex_encode, hex_text, u64_to_be_bytes32,
};
use crate::names::{distinct_names, entry_of, NameMap};
use crate::network::message::{option_text, NetworkMessage};
use crate::text::{
    contains, contains_text, parse_u64, strip_0x, text_equal, texts, trim, trimmed_end,
    trimmed_start, u64_of, without_0x, words, words_of,
};
use std::collections::{HashMap, HashSet};
use vstd::prelude::*;

verus! {

broadcast use vstd::std_specs::hash::group_hash_axioms;

/// What a user locks who does not say how much.
pub const DEFAULT_DEPOSIT: u64 = 10;

/// The deposit of a user: what was asked for, or the default. There is none where what was asked for
/// does not fit into 64 bits.
pub fn deposit_amount(init_deposit: Option<u128>) -> (res: Option<u64>)
    ensures
        match init_deposit {
            Some(amount) => if amount <= u64::MAX {
                res == Some(amount as u64)
            } else {
                res is None
            },
            None => res == Some(DEFAULT_DEPOSIT),
        },
{
    match init_deposit {
        Some(amount) => {
            if amount <= u64::MAX as u128 {
                Some(amount as u64)
            } else {
                None
            }
        },
        None => Some(DEFAULT_DEPOSIT),
    }
}

/// Why a text does not give the identifier of a channel.
#[derive(Debug)]
pub enum ChannelIdError {
    /// It is not made of hexadecimal digits.
    NotHex,
    /// It does not have 32 bytes.
    WrongLength,
}

/// The digits in a line that gives the identifier of a channel.
pub open spec fn channel_id_digits(input: Seq<char>) -> Seq<char> {
    without_0x(trimmed_end(trimmed_start(input)))
}

/// Reads the identifier of a channel from a line: 64 hexadecimal digits after any number of `0x`,
/// with white space around.
pub fn parse_channel_id(input: &str) -> (res: Result<[u8; 32], ChannelIdError>)
    ensures
        match res {
            Ok(id) => {
                &&& hex_decodes(channel_id_digits(input@))
                &&& id@ == hex_bytes(channel_id_digits(input@))
            },
            Err(ChannelIdError::NotHex) => !hex_decodes(channel_id_digits(input@)),
            Err(ChannelIdError::WrongLength) => {
                &&& hex_decodes(channel_id_digits(input@))
                &&& channel_id_digits(input@).len() != 64
            },
        },
{
    let clean_hex = strip_0x(trim(input));
    let bytes = match hex_decode(clean_hex) {
        Ok(bytes) => bytes,
        Err(_) => return Err(ChannelIdError::NotHex),
    };
    if bytes.len() != 32 {
        return Err(ChannelIdError::WrongLength);
    }
    let mut id: [u8; 32] = [0; 32];
    let mut i: usize = 0;
    while i < 32
        invariant
            i <= 32,
            bytes@.len() == 32,
            forall|j: int| 0 <= j < i ==> id@[j] == bytes@[j],
        decreases 32 - i,
    {
        id[i] = bytes[i];
        i += 1;
    }
    assert(id@ =~= bytes@);
    Ok(id)
}

/// A command of the user.
#[derive(Debug)]
pub enum Command {
    /// There is none.
    Empty,
    /// Shows the balance.
    Balance,
    /// Closes the channel.
    Close,
    /// Pays somebody.
    Pay { target: String, amount: u64, tx_id: u64 },
    /// Pays, but does not say whom, how much or under which number.
    PayUsage,
    /// Something else.
    Unknown,
}

/// Whether `command` is what a line says, by its words. An amount that is not a number is ten, a
/// payment number that is not a number is one.
pub open spec fn is_command(line: Seq<char>, command: Command) -> bool {
    let parts = words_of(line);
    if parts.len() == 0 {
        command is Empty
    } else if parts[0] == "balance"@ {
        command is Balance
    } else if parts[0] == "close"@ {
        command is Close
    } else if parts[0] == "pay"@ {
        if parts.len() < 4 {
            command is PayUsage
        } else {
            command matches Command::Pay { target, amount, tx_id } && target@ == parts[1] && amount
                == match u64_of(parts[2]) {
                Some(n) => n,
                None => 10,
            } && tx_id == match u64_of(parts[3]) {
                Some(n) => n,
                None => 1,
            }
        }
    } else {
        command is Unknown
    }
}

/// Reads a command from a line.
pub fn parse_command(line: &str) -> (res: Command)
    ensures
        is_command(line@, res),
{
    let parts = words(line);
    assert(forall|i: int| 0 <= i < parts@.len() ==> texts(parts@)[i] == (#[trigger] parts@[i])@);
    if parts.is_empty() {
        return Command::Empty;
    }
    if text_equal(&parts[0], "balance") {
        Command::Balance
    } else if text_equal(&parts[0], "close") {
        Command::Close
    } else if text_equal(&parts[0], "pay") {
        if parts.len() < 4 {
            return Command::PayUsage;
        }
        let amount: u64 = match parse_u64(&parts[2]) {
            Some(n) => n,
            None => 10,
        };
        let tx_id: u64 = match parse_u64(&parts[3]) {
            Some(n) => n,
            None => 1,
        };
        Command::Pay { target: parts[1].clone(), amount, tx_id }
    } else {
        Command::Unknown
    }
}

/// Whether the answer to a close request, as it came, says that the channel is closed.
pub fn close_accepted(response: &str) -> (res: bool)
    ensures
        res == contains_text(response@, "\"status\":\"OK\""@),
{
    contains(response, "\"status\":\"OK\"")
}

/// What the state of a user stands for.
#[verifier::ext_equal]
pub struct UserView {
    /// The name of the user.
    pub name: Seq<char>,
    /// The identifier of the channel.
    pub channel_id: Seq<u8>,
    /// The public parameters.
    pub pp: PP,
    /// The secret key of the user.
    pub sk: int,
    /// The public key of the user.
    pub pk: Seq<u8>,
    /// The balance of the user.
    pub balance: u64,
    /// The scalar that hid the balance at the start.
    pub r: int,
    /// The commitment to the balance.
    pub comm: Seq<u64>,
    /// The last payment that the user knows of.
    pub current_tx_id: u64,
    /// The public keys of the participants.
    pub pks: Map<Seq<char>, Seq<u8>>,
    /// The commitments of the participants.
    pub commitments: Map<Seq<char>, Seq<u64>>,
    /// The balances of the participants as far as the user knows them.
    pub balances: Map<Seq<char>, u64>,
    /// The names of the participants in the order in which they were announced.
    pub order: Seq<Seq<char>>,
    /// The payments that are committed.
    pub finalized: Set<u64>,
    /// The range proofs of the payments that the user voted on.
    pub history: Map<u64, Seq<u8>>,
}

/// What a user keeps of a channel.
pub struct UserNode {
    name: String,
    channel_id: [u8; 32],
    pp: SharedParameters,
    keys: KeyPair,
    balance: u64,
    r: Fr,
    comm: G1,
    current_tx_id: u64,
    all_pks: NameMap<G2>,
    all_commitments: NameMap<G1>,
    all_balances: NameMap<u64>,
    participant_order: Vec<String>,
    finalized_txs: HashSet<u64>,
    tx_history_data: HashMap<u64, Vec<u8>>,
}

impl View for UserNode {
    type V = UserView;

    closed spec fn view(&self) -> UserView {
        UserView {
            name: self.name@,
            channel_id: self.channel_id@,
            pp: self.pp@,
            sk: self.keys.sk@,
            pk: self.keys.pk@,
            balance: self.balance,
            r: self.r@,
            comm: self.comm@,
            current_tx_id: self.current_tx_id,
            pks: self.all_pks@,
            commitments: self.all_commitments@,
            balances: self.all_balances@,
            order: texts(self.participant_order@),
            finalized: self.finalized_txs@,
            history: self.tx_history_data@.map_values(|proof_bytes: Vec<u8>| proof_bytes@),
        }
    }
}

/// A payment that a payer announces.
pub struct PaymentNotice {
    pub tx_id: u64,
    pub amount: u64,
    pub commitment_hex: String,
    pub range_proof_b64: String,
    pub comm_value_b64: String,
    pub blinded_tx_point_hex: String,
}

/// A payment that a user is asked to vote on.
pub struct Ballot {
    pub tx_id: u64,
    pub proposer_name: String,
    pub tx_amount_comm_hex: String,
    pub range_proof_b64: String,
    pub proof_comm_value_b64: String,
    pub sender_new_comm_hex: String,
    pub sender_old_comm_hex: String,
    pub receiver_new_comm_hex: String,
    pub receiver_old_comm_hex: String,
    pub prev_tx_id: u64,
    pub prev_aggregated_sig_hex: Option<String>,
}

/// What becomes of a message from another node.
pub enum PeerStep {
    /// It is not answered.
    Silent,
    /// It is answered.
    Answer { reply: NetworkMessage },
    /// Its payment cannot be taken: a point in it cannot be read, or a balance would run over.
    Fault,
}

/// What becomes of a message to all.
pub enum BroadcastStep {
    /// The participants are known.
    Synced,
    /// A payment is committed.
    Updated,
    /// The channel is closed.
    Closed { closer: String, final_tx_id: u64 },
    /// Nothing.
    Ignored,
}

/// A payment that has been taken off the balance and waits for the payee.
pub struct PendingPayment {
    pub tx_id: u64,
    pub amount: u64,
    pub commitment_hex: String,
    pub range_proof_b64: String,
    pub comm_value_b64: String,
    pub new_comm_hex: String,
    pub blinded_point_hex: String,
    pub blinding: Fr,
}

/// What becomes of an order to pay.
pub enum PayStep {
    /// The balance does not cover it.
    Insufficient { balance: u64 },
    /// It is taken off the balance.
    Prepared { payment: PendingPayment },
    /// The range proof could not be made.
    ProofFailed { reason: String },
    /// The balance in the list of all balances does not cover it.
    Fault,
}

/// What becomes of the answer of a payee.
pub enum CompletionStep {
    /// The payment is proposed to the operator.
    Propose { proposal: NetworkMessage },
    /// The answer is not a consent.
    Nothing,
    /// The consent cannot be used: a point in it cannot be read, or the new commitment is missing.
    Fault,
}

/// The state after the participants are announced: names in order and balances of all, keys and
/// commitments of those whose texts can be read.
pub open spec fn synced(
    before: UserView,
    participants: Seq<(String, String, String, u64)>,
) -> UserView
    decreases participants.len(),
{
    if participants.len() == 0 {
        UserView { order: Seq::empty(), ..before }
    } else {
        let head = synced(before, participants.drop_last());
        let (name, pk_hex, comm_hex, balance) = participants.last();
        let named = UserView {
            order: head.order.push(name@),
            balances: head.balances.insert(name@, balance),
            ..head
        };
        if g2_of_hex(pk_hex@) is Some && g1_of_hex(comm_hex@) is Some {
            UserView {
                pks: named.pks.insert(name@, g2_of_hex(pk_hex@).unwrap()),
                commitments: named.commitments.insert(name@, g1_of_hex(comm_hex@).unwrap()),
                ..named
            }
        } else {
            named
        }
    }
}

/// The state after a payment is announced as committed.
pub open spec fn updated(
    before: UserView,
    tx_id: u64,
    sender: Seq<char>,
    sender_comm: Seq<u64>,
    receiver: Seq<char>,
    receiver_comm: Seq<u64>,
) -> UserView {
    UserView {
        commitments: before.commitments.insert(sender, sender_comm).insert(receiver, receiver_comm),
        finalized: before.finalized.insert(tx_id),
        current_tx_id: if tx_id > before.current_tx_id {
            tx_id
        } else {
            before.current_tx_id
        },
        ..before
    }
}

/// Whether `step` and the state `after` are what a message to all comes to.
pub open spec fn is_broadcast_step(
    before: UserView,
    after: UserView,
    message: NetworkMessage,
    step: BroadcastStep,
) -> bool {
    match message {
        NetworkMessage::ChannelFinalized { participants, .. } => {
            &&& after == synced(before, participants@)
            &&& step is Synced
        },
        NetworkMessage::ConsensusReached {
            tx_id,
            sender_name,
            sender_new_comm_hex,
            receiver_name,
            receiver_new_comm_hex,
            ..
        } => if g1_of_hex(sender_new_comm_hex@) is Some && g1_of_hex(
            receiver_new_comm_hex@,
        ) is Some {
            &&& after == updated(
                before,
                tx_id,
                sender_name@,
                g1_of_hex(sender_new_comm_hex@).unwrap(),
                receiver_name@,
                g1_of_hex(receiver_new_comm_hex@).unwrap(),
            )
            &&& step is Updated
        } else {
            after == before && step is Ignored
        },
        NetworkMessage::ChannelClosed { closer: by, final_tx_id: last, .. } => {
            &&& after == before
            &&& step matches BroadcastStep::Closed { closer, final_tx_id } && closer@ == by@
                && final_tx_id == last
        },
        _ => after == before && step is Ignored,
    }
}

/// Whether a payment of `amount` fits into the balances of the user.
pub open spec fn payment_fits(state: UserView, amount: u64) -> bool {
    &&& state.balance + amount <= u64::MAX
    &&& state.balances.dom().contains(state.name) ==> state.balances[state.name] + amount
        <= u64::MAX
}

/// The state after the user has been paid.
pub open spec fn received(
    before: UserView,
    tx_id: u64,
    amount: u64,
    payment: Seq<u64>,
) -> UserView {
    UserView {
        balance: (before.balance + amount) as u64,
        comm: g1_sum(before.comm, payment),
        current_tx_id: tx_id,
        balances: if before.balances.dom().contains(before.name) {
            before.balances.insert(
                before.name,
                (before.balances[before.name] + amount) as u64,
            )
        } else {
            before.balances
        },
        ..before
    }
}

/// Whether `message` consents to a payment with the given texts.
pub open spec fn is_consent(
    message: NetworkMessage,
    paid: u64,
    pk_hex: Seq<char>,
    sig_hex: Seq<char>,
    comm_hex: Seq<char>,
) -> bool {
    message matches NetworkMessage::P2PUpdateResp {
        tx_id,
        status,
        ephemeral_pk_hex,
        blinded_signature_hex,
        receiver_new_comm_hex,
    } && {
        &&& tx_id == paid
        &&& status@ == "OK"@
        &&& option_text(ephemeral_pk_hex) == Some(pk_hex)
        &&& option_text(blinded_signature_hex) == Some(sig_hex)
        &&& option_text(receiver_new_comm_hex) == Some(comm_hex)
    }
}

/// Whether `step` and the state `after` are what an announced payment comes to, given the verdict on
/// its range proof and the key pair that signs it: it is taken only with an accepted proof, and is
/// then signed blindly.
pub open spec fn is_receipt(
    before: UserView,
    after: UserView,
    notice: PaymentNotice,
    accepted: bool,
    ephemeral: KeyPair,
    step: PeerStep,
) -> bool {
    let payment = g1_of_hex(notice.commitment_hex@);
    let point = g1_of_hex(notice.blinded_tx_point_hex@);
    if !accepted {
        after == before && step is Silent
    } else if payment is None || point is None || !payment_fits(before, notice.amount) {
        after == before && step is Fault
    } else {
        let blinded_sig = g1_times(point.unwrap(), ephemeral.sk@);
        &&& after == received(before, notice.tx_id, notice.amount, payment.unwrap())
        &&& is_sum(after.comm, before.comm, payment.unwrap())
        &&& g1_in_group(after.comm) ==> readable(after.comm)
        &&& scaled(point.unwrap(), ephemeral.sk@, blinded_sig)
        &&& g1_in_group(blinded_sig) ==> readable(blinded_sig)
        &&& step matches PeerStep::Answer { reply } && is_consent(
            reply,
            notice.tx_id,
            hex_text(ephemeral.pk@),
            g1_hex(blinded_sig),
            g1_hex(after.comm),
        )
    }
}

/// Whether `step` and the state `after` are what an announced payment can come to.
pub open spec fn is_payment_outcome(
    before: UserView,
    after: UserView,
    notice: PaymentNotice,
    step: PeerStep,
) -> bool {
    exists|accepted: bool, ephemeral: KeyPair|
        {
            &&& #[trigger] ephemeral.belongs_to(before.pp)
            &&& is_drawn(ephemeral.sk@)
            &&& #[trigger] is_proof_verdict(
                accepted,
                notice.range_proof_b64@,
                notice.comm_value_b64@,
                before.pp,
            )
            &&& is_receipt(before, after, notice, accepted, ephemeral, step)
        }
}

/// The state after a user has taken note of a payment that is voted on: the payment before it counts
/// as committed if it comes with a signature, and the range proof is kept.
pub open spec fn noted(before: UserView, ballot: Ballot) -> UserView {
    UserView {
        finalized: if ballot.prev_aggregated_sig_hex is Some && ballot.prev_tx_id > 0 {
            before.finalized.insert(ballot.prev_tx_id)
        } else {
            before.finalized
        },
        history: match base64_bytes(ballot.range_proof_b64@) {
            Some(bytes) => before.history.insert(ballot.tx_id, bytes),
            None => before.history,
        },
        ..before
    }
}

/// Whether the five commitments of a ballot can be read.
pub open spec fn ballot_decodes(ballot: Ballot) -> bool {
    &&& g1_of_hex(ballot.tx_amount_comm_hex@) is Some
    &&& g1_of_hex(ballot.sender_new_comm_hex@) is Some
    &&& g1_of_hex(ballot.sender_old_comm_hex@) is Some
    &&& g1_of_hex(ballot.receiver_new_comm_hex@) is Some
    &&& g1_of_hex(ballot.receiver_old_comm_hex@) is Some
}

/// Whether the user knows the old commitment of the payer.
pub open spec fn payer_known(state: UserView, ballot: Ballot) -> bool {
    &&& state.commitments.dom().contains(ballot.proposer_name@)
    &&& g1_hex(state.commitments[ballot.proposer_name@]) == ballot.sender_old_comm_hex@
}

/// Whether a payment moves what it says: it goes off the commitment of the payer and onto that of the
/// payee.
pub open spec fn ballot_balances(ballot: Ballot) -> bool {
    let payment = g1_of_hex(ballot.tx_amount_comm_hex@).unwrap();
    &&& g1_of_hex(ballot.sender_new_comm_hex@).unwrap() == g1_sum(
        g1_of_hex(ballot.sender_old_comm_hex@).unwrap(),
        g1_negation(payment),
    )
    &&& g1_of_hex(ballot.receiver_new_comm_hex@).unwrap() == g1_sum(
        g1_of_hex(ballot.receiver_old_comm_hex@).unwrap(),
        payment,
    )
}

/// Whether the user votes for a payment, given the verdict on its range proof.
pub open spec fn vote_granted(state: UserView, ballot: Ballot, accepted: bool) -> bool {
    payer_known(state, ballot) && accepted && ballot_decodes(ballot) && ballot_balances(ballot)
}

/// The bytes that a vote signs: those of the range proof.
pub open spec fn ballot_bytes(ballot: Ballot) -> Seq<u8> {
    match base64_bytes(ballot.range_proof_b64@) {
        Some(bytes) => bytes,
        None => Seq::empty(),
    }
}

/// Whether `reply` and the state `after` are what a ballot comes to, given the verdict on its range
/// proof: a vote in favour brings the signature of the range proof.
pub open spec fn is_vote(
    before: UserView,
    after: UserView,
    ballot: Ballot,
    accepted: bool,
    reply: NetworkMessage,
) -> bool {
    let sigma = g1_times(message_point(ballot_bytes(ballot)), before.sk);
    &&& after == noted(before, ballot)
    &&& if vote_granted(before, ballot, accepted) {
        &&& signed_with(sigma, before.sk, ballot_bytes(ballot))
        &&& is_difference(
            g1_of_hex(ballot.sender_new_comm_hex@).unwrap(),
            g1_of_hex(ballot.sender_old_comm_hex@).unwrap(),
            g1_of_hex(ballot.tx_amount_comm_hex@).unwrap(),
        )
        &&& is_sum(
            g1_of_hex(ballot.receiver_new_comm_hex@).unwrap(),
            g1_of_hex(ballot.receiver_old_comm_hex@).unwrap(),
            g1_of_hex(ballot.tx_amount_comm_hex@).unwrap(),
        )
        &&& reply.is_vote_response(ballot.tx_id, "me"@, "OK"@, Some(g1_hex(sigma)))
        &&& readable(sigma)
    } else {
        reply.is_vote_response(ballot.tx_id, "me"@, "REJECT"@, None)
    }
}

/// Whether `reply` and the state `after` are what a ballot can come to.
pub open spec fn is_vote_outcome(
    before: UserView,
    after: UserView,
    ballot: Ballot,
    reply: NetworkMessage,
) -> bool {
    exists|accepted: bool|
        #[trigger] is_proof_verdict(
            accepted,
            ballot.range_proof_b64@,
            ballot.proof_comm_value_b64@,
            before.pp,
        ) && is_vote(before, after, ballot, accepted, reply)
}

/// Some verdict on two texts is possible.
proof fn some_verdict(proof_b64: Seq<char>, comm_b64: Seq<char>, pp: PP) -> (accepted: bool)
    ensures
        is_proof_verdict(accepted, proof_b64, comm_b64, pp),
{
    group_order_large();
    let accepted = proof_decodes(proof_b64, comm_b64) && proof_holds(
        base64_bytes(proof_b64).unwrap(),
        base64_bytes(comm_b64).unwrap(),
        pp,
        0,
    );
    if proof_decodes(proof_b64, comm_b64) {
        assert(accepted == proof_holds(
            base64_bytes(proof_b64).unwrap(),
            base64_bytes(comm_b64).unwrap(),
            pp,
            0,
        ));
    }
    accepted
}

impl UserNode {
    /// A user who has locked a deposit, with the given keys and the scalar that hides the balance.
    pub fn new(
        name: String,
        channel_id: [u8; 32],
        deposit: u64,
        pp: SharedParameters,
        keys: KeyPair,
        r: Fr,
    ) -> (res: UserNode)
        ensures
            res@ == (UserView {
                name: name@,
                channel_id: channel_id@,
                pp: pp@,
                sk: keys.sk@,
                pk: keys.pk@,
                balance: deposit,
                r: r@,
                comm: commitment_to(deposit as int, r@, pp@),
                current_tx_id: 0,
                pks: Map::empty(),
                commitments: Map::empty(),
                balances: Map::empty(),
                order: Seq::empty(),
                finalized: set![0u64],
                history: Map::empty(),
            }),
            opens(res@.comm, deposit as int, r@, pp@),
    {
        let mut finalized_txs: HashSet<u64> = HashSet::new();
        finalized_txs.insert(0);
        let parameters = pp.get();
        let comm = commitment::commit(deposit, r, &parameters);
        let res = UserNode {
            name,
            channel_id,
            pp,
            keys,
            balance: deposit,
            r,
            comm,
            current_tx_id: 0,
            all_pks: NameMap::new(),
            all_commitments: NameMap::new(),
            all_balances: NameMap::new(),
            participant_order: Vec::new(),
            finalized_txs,
            tx_history_data: HashMap::new(),
        };
        assert(res@.finalized =~= set![0u64]);
        assert(res@.order =~= Seq::<Seq<char>>::empty());
        assert(res@.history =~= Map::<u64, Seq<u8>>::empty());
        res
    }

    /// A user who has locked a deposit, with keys and a blinding scalar drawn at random.
    pub fn start(name: String, channel_id: [u8; 32], deposit: u64) -> (res: UserNode)
        ensures
            res@.pp.standard(),
            res@.name == name@,
            res@.channel_id == channel_id@,
            res@.pk == g2_times(res@.pp.g2@, res@.sk),
            g2_at(res@.pk, res@.sk),
            res@.balance == deposit,
            res@.comm == commitment_to(deposit as int, res@.r, res@.pp),
            opens(res@.comm, deposit as int, res@.r, res@.pp),
            res@.current_tx_id == 0,
            res@.pks == Map::<Seq<char>, Seq<u8>>::empty(),
            res@.commitments == Map::<Seq<char>, Seq<u64>>::empty(),
            res@.balances == Map::<Seq<char>, u64>::empty(),
            res@.order == Seq::<Seq<char>>::empty(),
            res@.finalized == set![0u64],
            res@.history == Map::<u64, Seq<u8>>::empty(),
            is_drawn(res@.sk),
            is_drawn(res@.r),
    {
        let pp = SharedParameters::new();
        let keys = KeyPair::generate(&pp.get());
        let r = Fr::random();
        UserNode::new(name, channel_id, deposit, pp, keys, r)
    }

    /// The balance of the user.
    pub fn balance(&self) -> (res: u64)
        ensures
            res == self@.balance,
    {
        self.balance
    }

    /// The last payment that the user knows of.
    pub fn current_tx_id(&self) -> (res: u64)
        ensures
            res == self@.current_tx_id,
    {
        self.current_tx_id
    }

    /// The balances of the participants as far as the user knows them.
    pub fn balances(&self) -> (res: Vec<(String, u64)>)
        ensures
            lists_balances(res@, self@.balances),
    {
        self.all_balances.to_entries()
    }

    /// The request to join the channel: with a range proof of the balance. Fails where the proof
    /// cannot be made.
    pub fn join_request(&self, address: &[u8; 20]) -> (res: Result<NetworkMessage, String>)
        ensures
            exists|proving: Result<(String, String), String>|
                {
                    &&& #[trigger] is_proof_outcome(proving, self@.balance, 0, self@.r, self@.pp)
                    &&& is_join_request(self@, address@, proving, res)
                },
    {
        let proving = range_proof::generate_proof(self.balance, 0, &self.r, &self.pp.get());
        assert(is_proof_outcome(proving, self@.balance, 0, self@.r, self@.pp));
        self.join_request_with(address, proving)
    }

    /// The request to join the channel, given what proving the range of the balance came to.
    pub fn join_request_with(
        &self,
        address: &[u8; 20],
        proving: Result<(String, String), String>,
    ) -> (res: Result<NetworkMessage, String>)
        ensures
            is_join_request(self@, address@, proving, res),
    {
        let (proof_b64, _) = match proving {
            Ok(texts) => texts,
            Err(reason) => return Err(reason),
        };
        proof {
            checksum_text_round_trip(address@);
        }
        Ok(
            NetworkMessage::JoinRequest {
                user_name: self.name.clone(),
                user_addr_str: address_text(address),
                pk_hex: self.keys.pk.to_hex(),
                initial_balance_comm_hex: self.comm.to_hex(),
                initial_balance_proof_b64: proof_b64,
                initial_balance: self.balance,
            },
        )
    }

    /// Takes note of the participants.
    pub fn sync(&mut self, participants: &Vec<(String, String, String, u64)>)
        ensures
            final(self)@ == synced(old(self)@, participants@),
    {
        self.participant_order.clear();
        let mut i: usize = 0;
        assert(participants@.take(0) =~= Seq::<(String, String, String, u64)>::empty());
        assert(self@ =~= synced(old(self)@, participants@.take(0)));
        while i < participants.len()
            invariant
                i <= participants.len(),
                self@ == synced(old(self)@, participants@.take(i as int)),
            decreases participants.len() - i,
        {
            let ghost head = self@;
            let ghost next = participants@.take(i + 1);
            assert(next.drop_last() =~= participants@.take(i as int));
            assert(next.last() == participants@[i as int]);
            let (name, pk_hex, comm_hex, balance) = &participants[i];
            let ghost listed = self.participant_order@;
            self.participant_order.push(name.clone());
            assert(texts(self.participant_order@) =~= texts(listed).push(name@));
            self.all_balances.insert(name, *balance);
            if let (Ok(pk), Ok(comm)) = (G2::from_hex(pk_hex), G1::from_hex(comm_hex)) {
                self.all_pks.insert(name, pk);
                self.all_commitments.insert(name, comm);
            }
            assert(self@ =~= synced(old(self)@, next));
            i += 1;
        }
        assert(participants@.take(i as int) =~= participants@);
    }

    /// Takes note of a message to all.
    pub fn handle_broadcast(&mut self, message: NetworkMessage) -> (res: BroadcastStep)
        ensures
            is_broadcast_step(old(self)@, final(self)@, message, res),
    {
        match message {
            NetworkMessage::ChannelFinalized { participants, .. } => {
                self.sync(&participants);
                BroadcastStep::Synced
            },
            NetworkMessage::ConsensusReached {
                tx_id,
                sender_name,
                sender_new_comm_hex,
                receiver_name,
                receiver_new_comm_hex,
                ..
            } => {
                if let (Ok(c_s), Ok(c_r)) = (
                    G1::from_hex(&sender_new_comm_hex),
                    G1::from_hex(&receiver_new_comm_hex),
                ) {
                    self.all_commitments.insert(&sender_name, c_s);
                    self.all_commitments.insert(&receiver_name, c_r);
                    self.finalized_txs.insert(tx_id);
                    if tx_id > self.current_tx_id {
                        self.current_tx_id = tx_id;
                    }
                    BroadcastStep::Updated
                } else {
                    BroadcastStep::Ignored
                }
            },
            NetworkMessage::ChannelClosed { closer, final_tx_id, .. } => {
                BroadcastStep::Closed { closer, final_tx_id }
            },
            _ => BroadcastStep::Ignored,
        }
    }

    /// Takes an announced payment, given the verdict on its range proof and the key pair that signs
    /// it.
    pub fn take_payment_with(
        &mut self,
        notice: &PaymentNotice,
        accepted: bool,
        ephemeral: KeyPair,
    ) -> (res: PeerStep)
        ensures
            is_receipt(old(self)@, final(self)@, *notice, accepted, ephemeral, res),
    {
        if !accepted {
            return PeerStep::Silent;
        }
        let (c_m, blinded_point) = match (
            G1::from_hex(&notice.commitment_hex),
            G1::from_hex(&notice.blinded_tx_point_hex),
        ) {
            (Ok(c_m), Ok(blinded_point)) => (c_m, blinded_point),
            _ => return PeerStep::Fault,
        };
        let balance: u64 = match self.balance.checked_add(notice.amount) {
            Some(balance) => balance,
            None => return PeerStep::Fault,
        };
        if let Some(listed) = self.all_balances.get(&self.name) {
            match listed.checked_add(notice.amount) {
                Some(listed) => self.all_balances.insert(&self.name, listed),
                None => return PeerStep::Fault,
            }
        }
        let new_comm = commitment::homomorphic_add(self.comm, c_m);
        self.balance = balance;
        self.comm = new_comm;
        self.current_tx_id = notice.tx_id;
        let blinded_sig = blind::sign_blinded(ephemeral.sk, blinded_point);
        let reply = NetworkMessage::P2PUpdateResp {
            tx_id: notice.tx_id,
            status: "OK".to_owned(),
            ephemeral_pk_hex: Some(ephemeral.pk.to_hex()),
            blinded_signature_hex: Some(blinded_sig.to_hex()),
            receiver_new_comm_hex: Some(new_comm.to_hex()),
        };
        PeerStep::Answer { reply }
    }

    /// Takes an announced payment if its range proof is accepted, and signs it blindly with a key
    /// pair of its own.
    pub fn take_payment(&mut self, notice: &PaymentNotice) -> (res: PeerStep)
        ensures
            is_payment_outcome(old(self)@, final(self)@, *notice, res),
    {
        let pp = self.pp.get();
        let accepted = range_proof::verify_proof(
            &notice.range_proof_b64,
            &notice.comm_value_b64,
            0,
            &pp,
        );
        let ephemeral = KeyPair::generate(&pp);
        let res = self.take_payment_with(notice, accepted, ephemeral);
        assert(ephemeral.belongs_to(old(self)@.pp));
        res
    }

    /// Whether the user votes for a payment whose range proof is accepted.
    fn ballot_is_sound(&self, ballot: &Ballot) -> (res: bool)
        ensures
            res == (ballot_decodes(*ballot) && ballot_balances(*ballot)),
            res ==> is_difference(
                g1_of_hex(ballot.sender_new_comm_hex@).unwrap(),
                g1_of_hex(ballot.sender_old_comm_hex@).unwrap(),
                g1_of_hex(ballot.tx_amount_comm_hex@).unwrap(),
            ),
            res ==> is_sum(
                g1_of_hex(ballot.receiver_new_comm_hex@).unwrap(),
                g1_of_hex(ballot.receiver_old_comm_hex@).unwrap(),
                g1_of_hex(ballot.tx_amount_comm_hex@).unwrap(),
            ),
    {
        match (
            G1::from_hex(&ballot.tx_amount_comm_hex),
            G1::from_hex(&ballot.sender_new_comm_hex),
            G1::from_hex(&ballot.sender_old_comm_hex),
            G1::from_hex(&ballot.receiver_new_comm_hex),
            G1::from_hex(&ballot.receiver_old_comm_hex),
        ) {
            (Ok(c_m), Ok(c_s_new), Ok(c_s_old), Ok(c_r_new), Ok(c_r_old)) => {
                c_s_new == commitment::homomorphic_sub(c_s_old, c_m) && c_r_new
                    == commitment::homomorphic_add(c_r_old, c_m)
            },
            _ => false,
        }
    }

    /// Takes note of a payment that is voted on.
    fn note(&mut self, ballot: &Ballot)
        ensures
            final(self)@ == noted(old(self)@, *ballot),
    {
        if ballot.prev_aggregated_sig_hex.is_some() && ballot.prev_tx_id > 0 {
            self.finalized_txs.insert(ballot.prev_tx_id);
        }
        if let Some(proof_bytes) = base64_decode(&ballot.range_proof_b64) {
            self.tx_history_data.insert(ballot.tx_id, proof_bytes);
        }
        assert(self@.history =~= noted(old(self)@, *ballot).history);
    }

    /// Whether the user knows the old commitment of the payer.
    fn knows_payer(&self, ballot: &Ballot) -> (res: bool)
        ensures
            res == payer_known(self@, *ballot),
    {
        match self.all_commitments.get(&ballot.proposer_name) {
            Some(local_old) => text_equal(&local_old.to_hex(), &ballot.sender_old_comm_hex),
            None => false,
        }
    }

    /// Votes on a payment, given the verdict on its range proof.
    pub fn vote_with(&mut self, ballot: &Ballot, accepted: bool) -> (res: NetworkMessage)
        ensures
            is_vote(old(self)@, final(self)@, *ballot, accepted, res),
    {
        self.note(ballot);
        let granted: bool = self.knows_payer(ballot) && accepted && self.ballot_is_sound(ballot);
        if granted {
            let msg_bytes = match base64_decode(&ballot.range_proof_b64) {
                Some(bytes) => bytes,
                None => Vec::new(),
            };
            let sig = multisig::sign(self.keys.sk, &msg_bytes);
            assert(msg_bytes@ =~= ballot_bytes(*ballot));
            NetworkMessage::VoteResponse {
                tx_id: ballot.tx_id,
                voter_name: "me".to_owned(),
                status: "OK".to_owned(),
                sig_share_hex: Some(sig.to_hex()),
            }
        } else {
            NetworkMessage::VoteResponse {
                tx_id: ballot.tx_id,
                voter_name: "me".to_owned(),
                status: "REJECT".to_owned(),
                sig_share_hex: None,
            }
        }
    }

    /// Votes on a payment: in favour of one whose payer has the commitment that the user knows, whose
    /// range proof is accepted, and which moves what it says.
    pub fn vote(&mut self, ballot: &Ballot) -> (res: NetworkMessage)
        ensures
            is_vote_outcome(old(self)@, final(self)@, *ballot, res),
    {
        if self.knows_payer(ballot) {
            let accepted = range_proof::verify_proof(
                &ballot.range_proof_b64,
                &ballot.proof_comm_value_b64,
                0,
                &self.pp.get(),
            );
            self.vote_with(ballot, accepted)
        } else {
            let res = self.vote_with(ballot, false);
            proof {
                let verdict = some_verdict(
                    ballot.range_proof_b64@,
                    ballot.proof_comm_value_b64@,
                    old(self)@.pp,
                );
                assert(is_vote(old(self)@, self@, *ballot, verdict, res));
            }
            res
        }
    }

    /// Decides on a message from another node.
    pub fn handle_peer(&mut self, message: NetworkMessage) -> (res: PeerStep)
        ensures
            is_peer_step(old(self)@, final(self)@, message, res),
    {
        match message {
            NetworkMessage::P2PUpdateReq {
                tx_id,
                amount,
                commitment_hex,
                range_proof_b64,
                comm_value_b64,
                blinded_tx_point_hex,
            } => {
                let notice = PaymentNotice {
                    tx_id,
                    amount,
                    commitment_hex,
                    range_proof_b64,
                    comm_value_b64,
                    blinded_tx_point_hex,
                };
                self.take_payment(&notice)
            },
            NetworkMessage::VoteRequest {
                tx_id,
                proposer_name,
                tx_amount_comm_hex,
                range_proof_b64,
                proof_comm_value_b64,
                sender_new_comm_hex,
                sender_old_comm_hex,
                receiver_new_comm_hex,
                receiver_old_comm_hex,
                prev_tx_id,
                prev_aggregated_sig_hex,
            } => {
                let ballot = Ballot {
                    tx_id,
                    proposer_name,
                    tx_amount_comm_hex,
                    range_proof_b64,
                    proof_comm_value_b64,
                    sender_new_comm_hex,
                    sender_old_comm_hex,
                    receiver_new_comm_hex,
                    receiver_old_comm_hex,
                    prev_tx_id,
                    prev_aggregated_sig_hex,
                };
                let reply = self.vote(&ballot);
                PeerStep::Answer { reply }
            },
            _ => PeerStep::Silent,
        }
    }
}

/// Whether a list gives every participant with a balance that balance, each once.
pub open spec fn lists_balances(list: Seq<(String, u64)>, balances: Map<Seq<char>, u64>) -> bool {
    &&& distinct_names(list)
    &&& forall|name: Seq<char>| #[trigger]
        balances.dom().contains(name) <==> entry_of(list, name) is Some
    &&& forall|name: Seq<char>| #[trigger]
        balances.dom().contains(name) ==> entry_of(list, name).unwrap() == balances[name]
}

/// Whether `res` is the request of a user to join, given what proving the range of the balance came
/// to. Address and key can be read back from it, and the commitment if it is in the group.
pub open spec fn is_join_request(
    state: UserView,
    address: Seq<u8>,
    proving: Result<(String, String), String>,
    res: Result<NetworkMessage, String>,
) -> bool {
    match proving {
        Ok((proof_b64, _)) => res matches Ok(message) && message matches NetworkMessage::JoinRequest {
            user_name,
            user_addr_str,
            pk_hex,
            initial_balance_comm_hex,
            initial_balance_proof_b64,
            initial_balance,
        } && {
            &&& user_name@ == state.name
            &&& user_addr_str@ == checksum_text(address)
            &&& pk_hex@ == hex_text(state.pk)
            &&& initial_balance_comm_hex@ == g1_hex(state.comm)
            &&& initial_balance_proof_b64@ == proof_b64@
            &&& initial_balance == state.balance
            &&& address_of(user_addr_str@) == Some(address)
            &&& g2_of_hex(pk_hex@) == Some(state.pk)
            &&& hex_bytes(initial_balance_comm_hex@) == g1_compressed(state.comm)
            &&& g1_in_group(state.comm) ==> readable(state.comm)
        },
        Err(reason) => res matches Err(e) && e@ == reason@,
    }
}

/// Whether `step` and the state `after` are what a message from another node can come to.
pub open spec fn is_peer_step(
    before: UserView,
    after: UserView,
    message: NetworkMessage,
    step: PeerStep,
) -> bool {
    match message {
        NetworkMessage::P2PUpdateReq {
            tx_id,
            amount,
            commitment_hex,
            range_proof_b64,
            comm_value_b64,
            blinded_tx_point_hex,
        } => is_payment_outcome(
            before,
            after,
            PaymentNotice {
                tx_id,
                amount,
                commitment_hex,
                range_proof_b64,
                comm_value_b64,
                blinded_tx_point_hex,
            },
            step,
        ),
        NetworkMessage::VoteRequest {
            tx_id,
            proposer_name,
            tx_amount_comm_hex,
            range_proof_b64,
            proof_comm_value_b64,
            sender_new_comm_hex,
            sender_old_comm_hex,
            receiver_new_comm_hex,
            receiver_old_comm_hex,
            prev_tx_id,
            prev_aggregated_sig_hex,
        } => step matches PeerStep::Answer { reply } && is_vote_outcome(
            before,
            after,
            Ballot {
                tx_id,
                proposer_name,
                tx_amount_comm_hex,
                range_proof_b64,
                proof_comm_value_b64,
                sender_new_comm_hex,
                sender_old_comm_hex,
                receiver_new_comm_hex,
                receiver_old_comm_hex,
                prev_tx_id,
                prev_aggregated_sig_hex,
            },
            reply,
        ),
        _ => after == before && step is Silent,
    }
}

/// The state after the user has paid.
pub open spec fn paid(before: UserView, tx_id: u64, amount: u64, payment: Seq<u64>) -> UserView {
    UserView {
        balance: (before.balance - amount) as u64,
        comm: g1_sum(before.comm, g1_negation(payment)),
        current_tx_id: tx_id,
        balances: if before.balances.dom().contains(before.name) {
            before.balances.insert(
                before.name,
                (before.balances[before.name] - amount) as u64,
            )
        } else {
            before.balances
        },
        ..before
    }
}

/// Whether the balance that the list of all balances gives the user covers an amount.
pub open spec fn listed_balance_covers(state: UserView, amount: u64) -> bool {
    state.balances.dom().contains(state.name) ==> state.balances[state.name] >= amount
}

/// Whether `payment` is a payment of `amount` by the user, made with the given scalars and texts: its
/// range proof is what the payee signs blindly.
pub open spec fn is_pending_payment(
    payment: PendingPayment,
    after: UserView,
    tx_id: u64,
    amount: u64,
    r_m: int,
    blinding: Fr,
    proof_b64: Seq<char>,
    comm_b64: Seq<char>,
) -> bool {
    &&& payment.tx_id == tx_id
    &&& payment.amount == amount
    &&& payment.commitment_hex@ == g1_hex(commitment_to(amount as int, r_m, after.pp))
    &&& payment.range_proof_b64@ == proof_b64
    &&& payment.comm_value_b64@ == comm_b64
    &&& payment.new_comm_hex@ == g1_hex(after.comm)
    &&& payment.blinding == blinding
    &&& base64_bytes(proof_b64) is Some
    &&& exists|blinded: BlindedMessage|
        {
            &&& #[trigger] blinded.hides(base64_bytes(proof_b64).unwrap())
            &&& blinded.r == blinding
            &&& payment.blinded_point_hex@ == g1_hex(blinded.point@)
            &&& readable(blinded.point@)
        }
}

/// Whether `step` and the state `after` are what an order to pay comes to that the balance covers,
/// given the scalars that are drawn for it and what proving came to.
pub open spec fn is_pay_step(
    before: UserView,
    after: UserView,
    tx_id: u64,
    amount: u64,
    r_m: Fr,
    blinding: Fr,
    proving: Result<(String, String), String>,
    step: PayStep,
) -> bool {
    match proving {
        Err(e) => {
            &&& after == before
            &&& step matches PayStep::ProofFailed { reason } && reason@ == e@
        },
        Ok((proof_b64, comm_b64)) => if base64_bytes(proof_b64@) is None || !listed_balance_covers(
            before,
            amount,
        ) {
            after == before && step is Fault
        } else {
            let payment = commitment_to(amount as int, r_m@, before.pp);
            &&& after == paid(before, tx_id, amount, payment)
            &&& opens(payment, amount as int, r_m@, before.pp)
            &&& readable(payment)
            &&& is_difference(after.comm, before.comm, payment)
            &&& g1_in_group(after.comm) ==> readable(after.comm)
            &&& step matches PayStep::Prepared { payment: pending } && is_pending_payment(
                pending,
                after,
                tx_id,
                amount,
                r_m@,
                blinding,
                proof_b64@,
                comm_b64@,
            )
        },
    }
}

/// Whether `step` and the state `after` are what an order to pay can come to.
pub open spec fn is_pay_outcome(
    before: UserView,
    after: UserView,
    tx_id: u64,
    amount: u64,
    step: PayStep,
) -> bool {
    if before.balance < amount {
        &&& after == before
        &&& step matches PayStep::Insufficient { balance } && balance == before.balance
    } else {
        exists|r_m: Fr, blinding: Fr, proving: Result<(String, String), String>|
            {
                &&& is_drawn(r_m@)
                &&& is_drawn(blinding@)
                &&& is_proof_outcome(proving, before.balance, amount, before.r, before.pp)
                &&& #[trigger] is_pay_step(
                    before,
                    after,
                    tx_id,
                    amount,
                    r_m,
                    blinding,
                    proving,
                    step,
                )
            }
    }
}

/// Whether `message` announces a payment to the payee.
pub open spec fn is_payment_notice(message: NetworkMessage, payment: PendingPayment) -> bool {
    message matches NetworkMessage::P2PUpdateReq {
        tx_id,
        amount,
        commitment_hex,
        range_proof_b64,
        comm_value_b64,
        blinded_tx_point_hex,
    } && {
        &&& tx_id == payment.tx_id
        &&& amount == payment.amount
        &&& commitment_hex@ == payment.commitment_hex@
        &&& range_proof_b64@ == payment.range_proof_b64@
        &&& comm_value_b64@ == payment.comm_value_b64@
        &&& blinded_tx_point_hex@ == payment.blinded_point_hex@
    }
}

/// The number of the payment before a payment.
pub open spec fn previous_tx_id(tx_id: u64) -> u64 {
    if tx_id > 1 {
        (tx_id - 1) as u64
    } else {
        0
    }
}

/// The inverse of a blinding scalar: of zero, zero.
pub open spec fn is_inverse(r: int, k: int) -> bool {
    &&& 0 <= k < group_order()
    &&& if r == 0 {
        k == 0
    } else {
        reduced(r * k) == 1
    }
}

/// Whether `message` proposes a payment to the operator, with the signature of the payer under a key
/// pair of its own and the unblinded signature of the payee.
pub open spec fn is_proposal(
    message: NetworkMessage,
    state: UserView,
    payment: PendingPayment,
    target: Seq<char>,
    disclosed: u64,
    ephemeral: KeyPair,
    peer_pk_hex: Seq<char>,
    blinded_sig: Seq<u64>,
    peer_comm_hex: Seq<char>,
) -> bool {
    let proof_bytes = base64_bytes(payment.range_proof_b64@).unwrap();
    let own_sig = g1_times(message_point(proof_bytes), ephemeral.sk@);
    message matches NetworkMessage::UpdateProposal {
        user_name,
        counterparty_name,
        tx_id,
        prev_tx_id,
        amount,
        tx_amount_comm_hex,
        range_proof_b64,
        proof_comm_value_b64,
        sender_new_comm_hex,
        receiver_new_comm_hex,
        proposer_ephemeral_pk_hex,
        proposer_signature_b64,
        counterparty_ephemeral_pk_hex,
        counterparty_signature_b64,
    } && {
        &&& user_name@ == state.name
        &&& counterparty_name@ == target
        &&& tx_id == payment.tx_id
        &&& prev_tx_id == previous_tx_id(payment.tx_id)
        &&& amount == disclosed
        &&& tx_amount_comm_hex@ == payment.commitment_hex@
        &&& range_proof_b64@ == payment.range_proof_b64@
        &&& proof_comm_value_b64@ == payment.comm_value_b64@
        &&& sender_new_comm_hex@ == payment.new_comm_hex@
        &&& receiver_new_comm_hex@ == peer_comm_hex
        &&& proposer_ephemeral_pk_hex@ == hex_text(ephemeral.pk@)
        &&& signed_with(own_sig, ephemeral.sk@, proof_bytes)
        &&& proposer_signature_b64@ == base64_text(g1_compressed(own_sig))
        &&& option_text(counterparty_ephemeral_pk_hex) == Some(peer_pk_hex)
        &&& exists|k: int, sigma: Seq<u64>|
            {
                &&& #[trigger] is_inverse(payment.blinding@, k)
                &&& sigma == g1_times(blinded_sig, k)
                &&& #[trigger] scaled(blinded_sig, k, sigma)
                &&& option_text(counterparty_signature_b64) == Some(
                    base64_text(g1_compressed(sigma)),
                )
            }
    }
}

/// Whether `step` is what the answer of a payee comes to, given the key pair that the payer signs
/// with.
pub open spec fn is_completion(
    state: UserView,
    payment: PendingPayment,
    target: Seq<char>,
    disclosed: u64,
    response: NetworkMessage,
    ephemeral: KeyPair,
    step: CompletionStep,
) -> bool {
    match response {
        NetworkMessage::P2PUpdateResp {
            status,
            ephemeral_pk_hex: Some(peer_pk),
            blinded_signature_hex: Some(sig_hex),
            receiver_new_comm_hex,
            ..
        } => if status@ != "OK"@ {
            step is Nothing
        } else if g1_of_hex(sig_hex@) is None || receiver_new_comm_hex is None || base64_bytes(
            payment.range_proof_b64@,
        ) is None {
            step is Fault
        } else {
            step matches CompletionStep::Propose { proposal } && is_proposal(
                proposal,
                state,
                payment,
                target,
                disclosed,
                ephemeral,
                peer_pk@,
                g1_of_hex(sig_hex@).unwrap(),
                receiver_new_comm_hex.unwrap()@,
            )
        },
        _ => step is Nothing,
    }
}

/// The commitments of the participants in the order in which they were announced, one after the
/// other.
pub open spec fn commitments_in_order(
    order: Seq<Seq<char>>,
    commitments: Map<Seq<char>, Seq<u64>>,
) -> Seq<u8>
    decreases order.len(),
{
    if order.len() == 0 {
        Seq::empty()
    } else {
        let head = commitments_in_order(order.drop_last(), commitments);
        if commitments.dom().contains(order.last()) {
            head + g1_compressed(commitments[order.last()])
        } else {
            head
        }
    }
}

/// The bytes that a user signs to close the channel: its identifier, the number of the last payment
/// in 32 bytes and the commitments of the participants.
pub open spec fn close_bytes(state: UserView) -> Seq<u8> {
    state.channel_id + be_bytes(state.current_tx_id as nat, 32) + commitments_in_order(
        state.order,
        state.commitments,
    )
}

/// Whether `message` is the request of a user to close the channel.
pub open spec fn is_close_request(message: NetworkMessage, state: UserView) -> bool {
    let sigma = g1_times(message_point(close_bytes(state)), state.sk);
    message matches NetworkMessage::CloseRequest {
        user_name,
        channel_id_hex,
        final_tx_id,
        signature_b64,
        final_balances,
    } && {
        &&& user_name@ == state.name
        &&& channel_id_hex@ == hex_text(state.channel_id)
        &&& final_tx_id == state.current_tx_id
        &&& signed_with(sigma, state.sk, close_bytes(state))
        &&& signature_b64@ == base64_text(g1_compressed(sigma))
        &&& lists_balances(final_balances@, state.balances)
    }
}

impl UserNode {
    /// Takes a payment off the balance, given the scalars that are drawn for it and what proving came
    /// to. The balance covers it.
    pub fn prepare_payment_with(
        &mut self,
        tx_id: u64,
        amount: u64,
        r_m: Fr,
        blinding: Fr,
        proving: Result<(String, String), String>,
    ) -> (res: PayStep)
        requires
            old(self)@.balance >= amount,
        ensures
            is_pay_step(old(self)@, final(self)@, tx_id, amount, r_m, blinding, proving, res),
    {
        let (range_proof_b64, comm_value_b64) = match proving {
            Ok(texts) => texts,
            Err(reason) => return PayStep::ProofFailed { reason },
        };
        let msg_content_bytes = match base64_decode(&range_proof_b64) {
            Some(bytes) => bytes,
            None => return PayStep::Fault,
        };
        if let Some(listed) = self.all_balances.get(&self.name) {
            match listed.checked_sub(amount) {
                Some(listed) => self.all_balances.insert(&self.name, listed),
                None => return PayStep::Fault,
            }
        }
        let pp = self.pp.get();
        let c_m = commitment::commit(amount, r_m, &pp);
        let new_comm = commitment::homomorphic_sub(self.comm, c_m);
        self.balance = self.balance - amount;
        self.comm = new_comm;
        self.current_tx_id = tx_id;
        let blinded = blind::blind_with(&msg_content_bytes, blinding);
        let payment = PendingPayment {
            tx_id,
            amount,
            commitment_hex: c_m.to_hex(),
            range_proof_b64,
            comm_value_b64,
            new_comm_hex: new_comm.to_hex(),
            blinded_point_hex: blinded.point.to_hex(),
            blinding,
        };
        proof {
            let bytes = base64_bytes(range_proof_b64@).unwrap();
            assert(blinded.hides(bytes));
            let m = choose|m: int| g1_at(message_point(bytes), m);
            assert(g1_at(blinded.point@, m * blinding@));
            let g = choose|g: int| g1_at(pp.g1@, g);
            let h = choose|h: int| g1_at(pp.h@, h);
            assert(g1_at(c_m@, g * amount as int + h * r_m@));
        }
        PayStep::Prepared { payment }
    }

    /// Takes a payment off the balance, if the balance covers it: with a commitment to the amount,
    /// and a range proof of what is left that the payee is to sign blindly.
    pub fn prepare_payment(&mut self, tx_id: u64, amount: u64) -> (res: PayStep)
        ensures
            is_pay_outcome(old(self)@, final(self)@, tx_id, amount, res),
    {
        if self.balance < amount {
            return PayStep::Insufficient { balance: self.balance };
        }
        let r_m = Fr::random();
        let blinding = Fr::random();
        let proving = range_proof::generate_proof(self.balance, amount, &self.r, &self.pp.get());
        let ghost outcome = proving;
        let res = self.prepare_payment_with(tx_id, amount, r_m, blinding, proving);
        assert(is_pay_step(old(self)@, self@, tx_id, amount, r_m, blinding, outcome, res));
        res
    }

    /// The message that announces a payment to the payee.
    pub fn payment_notice(payment: &PendingPayment) -> (res: NetworkMessage)
        ensures
            is_payment_notice(res, *payment),
    {
        NetworkMessage::P2PUpdateReq {
            tx_id: payment.tx_id,
            amount: payment.amount,
            commitment_hex: payment.commitment_hex.clone(),
            range_proof_b64: payment.range_proof_b64.clone(),
            comm_value_b64: payment.comm_value_b64.clone(),
            blinded_tx_point_hex: payment.blinded_point_hex.clone(),
        }
    }

    /// Proposes a payment to which the payee consents, given the key pair that the payer signs with.
    /// `disclosed` is the amount that everyone is shown.
    pub fn complete_payment_with(
        &self,
        payment: &PendingPayment,
        target: &str,
        disclosed: u64,
        response: NetworkMessage,
        ephemeral: KeyPair,
    ) -> (res: CompletionStep)
        ensures
            is_completion(self@, *payment, target@, disclosed, response, ephemeral, res),
    {
        match response {
            NetworkMessage::P2PUpdateResp {
                status,
                ephemeral_pk_hex: Some(peer_pk),
                blinded_signature_hex: Some(sig_hex),
                receiver_new_comm_hex,
                ..
            } => {
                if !text_equal(&status, "OK") {
                    return CompletionStep::Nothing;
                }
                let b_sig = match G1::from_hex(&sig_hex) {
                    Ok(b_sig) => b_sig,
                    Err(_) => return CompletionStep::Fault,
                };
                let receiver_new_comm_hex = match receiver_new_comm_hex {
                    Some(comm_hex) => comm_hex,
                    None => return CompletionStep::Fault,
                };
                let proof_bytes = match base64_decode(&payment.range_proof_b64) {
                    Some(bytes) => bytes,
                    None => return CompletionStep::Fault,
                };
                let real_sig = blind::unblind(b_sig, payment.blinding);
                let real_sig_b64 = base64_encode(&real_sig.to_compressed());
                let my_sig = multisig::sign(ephemeral.sk, &proof_bytes);
                let my_sig_b64 = base64_encode(&my_sig.to_compressed());
                let prev_tx_id: u64 = if payment.tx_id > 1 {
                    payment.tx_id - 1
                } else {
                    0
                };
                proof {
                    let k = choose|k: int|
                        {
                            &&& 0 <= k < group_order()
                            &&& if payment.blinding@ == 0 {
                                k == 0
                            } else {
                                reduced(payment.blinding@ * k) == 1
                            }
                            &&& #[trigger] g1_times(b_sig@, k) == real_sig@
                            &&& scaled(b_sig@, k, real_sig@)
                        };
                    assert(is_inverse(payment.blinding@, k));
                    assert(scaled(b_sig@, k, real_sig@));
                }
                let proposal = NetworkMessage::UpdateProposal {
                    user_name: self.name.clone(),
                    counterparty_name: target.to_owned(),
                    tx_id: payment.tx_id,
                    prev_tx_id,
                    amount: disclosed,
                    tx_amount_comm_hex: payment.commitment_hex.clone(),
                    range_proof_b64: payment.range_proof_b64.clone(),
                    proof_comm_value_b64: payment.comm_value_b64.clone(),
                    sender_new_comm_hex: payment.new_comm_hex.clone(),
                    receiver_new_comm_hex,
                    proposer_ephemeral_pk_hex: ephemeral.pk.to_hex(),
                    proposer_signature_b64: my_sig_b64,
                    counterparty_ephemeral_pk_hex: Some(peer_pk),
                    counterparty_signature_b64: Some(real_sig_b64),
                };
                CompletionStep::Propose { proposal }
            },
            _ => CompletionStep::Nothing,
        }
    }

    /// Proposes a payment to which the payee consents.
    pub fn complete_payment(
        &self,
        payment: &PendingPayment,
        target: &str,
        disclosed: u64,
        response: NetworkMessage,
    ) -> (res: CompletionStep)
        ensures
            exists|ephemeral: KeyPair|
                {
                    &&& #[trigger] ephemeral.belongs_to(self@.pp)
                    &&& is_drawn(ephemeral.sk@)
                    &&& is_completion(self@, *payment, target@, disclosed, response, ephemeral, res)
                },
    {
        let ephemeral = KeyPair::generate(&self.pp.get());
        assert(ephemeral.belongs_to(self@.pp));
        self.complete_payment_with(payment, target, disclosed, response, ephemeral)
    }

    /// The bytes that the user signs to close the channel.
    pub fn close_message(&self) -> (res: Vec<u8>)
        ensures
            res@ == close_bytes(self@),
    {
        let mut msg: Vec<u8> = Vec::new();
        append_bytes(&mut msg, &self.channel_id);
        append_bytes(&mut msg, &u64_to_be_bytes32(self.current_tx_id));
        let ghost start = self@.channel_id + be_bytes(self@.current_tx_id as nat, 32);
        let mut i: usize = 0;
        assert(self@.order.take(0) =~= Seq::<Seq<char>>::empty());
        assert(msg@ =~= start + commitments_in_order(self@.order.take(0), self@.commitments));
        while i < self.participant_order.len()
            invariant
                i <= self.participant_order.len(),
                msg@ == start + commitments_in_order(
                    self@.order.take(i as int),
                    self@.commitments,
                ),
            decreases self.participant_order.len() - i,
        {
            let ghost next = self@.order.take(i + 1);
            assert(next.drop_last() =~= self@.order.take(i as int));
            assert(next.last() == self.participant_order@[i as int]@);
            let ghost before = msg@;
            if let Some(comm) = self.all_commitments.get(&self.participant_order[i]) {
                append_bytes(&mut msg, &comm.to_compressed());
                assert(msg@ =~= start + commitments_in_order(next, self@.commitments));
            }
            i += 1;
        }
        assert(self@.order.take(i as int) =~= self@.order);
        msg
    }

    /// The request to close the channel with the balances that the user knows.
    pub fn close_request(&self) -> (res: NetworkMessage)
        ensures
            is_close_request(res, self@),
    {
        let msg = self.close_message();
        let sig = multisig::sign(self.keys.sk, &msg);
        NetworkMessage::CloseRequest {
            user_name: self.name.clone(),
            channel_id_hex: hex_encode(&self.channel_id),
            final_tx_id: self.current_tx_id,
            signature_b64: base64_encode(&sig.to_compressed()),
            final_balances: self.all_balances.to_entries(),
        }
    }
}

/// Whether the commitment of a user is to the balance of the user, whatever hides it.
pub open spec fn backed(state: UserView) -> bool {
    exists|s: int| opens(state.comm, state.balance as int, s, state.pp)
}

/// Paying keeps the commitment of the payer a commitment to the balance.
pub proof fn paying_keeps_backing(
    before: UserView,
    after: UserView,
    tx_id: u64,
    amount: u64,
    r_m: Fr,
    blinding: Fr,
    proving: Result<(String, String), String>,
    step: PayStep,
)
    requires
        before.balance >= amount,
        backed(before),
        is_pay_step(before, after, tx_id, amount, r_m, blinding, proving, step),
    ensures
        backed(after),
{
    if step is Prepared {
        let s = choose|s: int| opens(before.comm, before.balance as int, s, before.pp);
        assert(opens(after.comm, after.balance as int, s - r_m@, after.pp));
    }
}

/// Being paid keeps the commitment of the payee a commitment to the balance, if the payment is a
/// commitment to the amount that it is announced with.
pub proof fn being_paid_keeps_backing(
    before: UserView,
    after: UserView,
    notice: PaymentNotice,
    accepted: bool,
    ephemeral: KeyPair,
    step: PeerStep,
    t: int,
)
    requires
        backed(before),
        is_receipt(before, after, notice, accepted, ephemeral, step),
        g1_of_hex(notice.commitment_hex@) matches Some(payment) && opens(
            payment,
            notice.amount as int,
            t,
            before.pp,
        ),
    ensures
        backed(after),
{
    if step is Answer {
        let s = choose|s: int| opens(before.comm, before.balance as int, s, before.pp);
        assert(opens(after.comm, after.balance as int, s + t, after.pp));
    }
}

/// A message to all does not touch the balance of a user, and takes no payment back. None but the
/// announcement of the participants touches the list of all balances.
pub proof fn broadcasts_keep_balance(
    before: UserView,
    after: UserView,
    message: NetworkMessage,
    step: BroadcastStep,
)
    requires
        is_broadcast_step(before, after, message, step),
    ensures
        after.balance == before.balance,
        after.comm == before.comm,
        after.r == before.r,
        after.current_tx_id >= before.current_tx_id,
        before.finalized.subset_of(after.finalized),
        backed(before) ==> backed(after),
        message !is ChannelFinalized && ledger_agrees(before) ==> ledger_agrees(after),
{
    if let NetworkMessage::ChannelFinalized { participants, .. } = message {
        syncing_keeps_balance(before, participants@);
    }
    if backed(before) {
        let s = choose|s: int| opens(before.comm, before.balance as int, s, before.pp);
        assert(opens(after.comm, after.balance as int, s, after.pp));
    }
}

/// Syncing touches neither the balance of a user nor the name.
pub proof fn syncing_keeps_balance(before: UserView, participants: Seq<(String, String, String, u64)>)
    ensures
        synced(before, participants).balance == before.balance,
        synced(before, participants).comm == before.comm,
        synced(before, participants).r == before.r,
        synced(before, participants).pp == before.pp,
        synced(before, participants).name == before.name,
        synced(before, participants).current_tx_id == before.current_tx_id,
        synced(before, participants).finalized == before.finalized,
    decreases participants.len(),
{
    if participants.len() > 0 {
        syncing_keeps_balance(before, participants.drop_last());
    }
}

/// After syncing the names are those of the participants in their order.
pub proof fn syncing_keeps_order(
    before: UserView,
    participants: Seq<(String, String, String, u64)>,
)
    ensures
        synced(before, participants).order == participants.map_values(
            |p: (String, String, String, u64)| p.0@,
        ),
    decreases participants.len(),
{
    let names = participants.map_values(|p: (String, String, String, u64)| p.0@);
    if participants.len() > 0 {
        syncing_keeps_order(before, participants.drop_last());
        assert(names =~= participants.drop_last().map_values(
            |p: (String, String, String, u64)| p.0@,
        ).push(participants.last().0@));
    } else {
        assert(names =~= Seq::<Seq<char>>::empty());
    }
}

/// A vote does not touch the balance of a user, and takes no payment back.
pub proof fn votes_keep_balance(
    before: UserView,
    after: UserView,
    ballot: Ballot,
    reply: NetworkMessage,
)
    requires
        is_vote_outcome(before, after, ballot, reply),
    ensures
        after.balance == before.balance,
        after.comm == before.comm,
        after.current_tx_id == before.current_tx_id,
        after.commitments == before.commitments,
        before.finalized.subset_of(after.finalized),
        backed(before) ==> backed(after),
        ledger_agrees(before) ==> ledger_agrees(after),
{
    if backed(before) {
        let s = choose|s: int| opens(before.comm, before.balance as int, s, before.pp);
        assert(opens(after.comm, after.balance as int, s, after.pp));
    }
}

/// A payment that a user votes for conserves value: if the old commitments and that of the payment
/// are to `v`, `w` and `m`, then the new ones are to `v - m` and `w + m`.
pub proof fn granted_vote_conserves_value(
    before: UserView,
    after: UserView,
    ballot: Ballot,
    accepted: bool,
    reply: NetworkMessage,
    v: int,
    r: int,
    w: int,
    s: int,
    m: int,
    t: int,
    pp: PP,
)
    requires
        is_vote(before, after, ballot, accepted, reply),
        vote_granted(before, ballot, accepted),
        opens(g1_of_hex(ballot.sender_old_comm_hex@).unwrap(), v, r, pp),
        opens(g1_of_hex(ballot.receiver_old_comm_hex@).unwrap(), w, s, pp),
        opens(g1_of_hex(ballot.tx_amount_comm_hex@).unwrap(), m, t, pp),
    ensures
        opens(g1_of_hex(ballot.sender_new_comm_hex@).unwrap(), v - m, r - t, pp),
        opens(g1_of_hex(ballot.receiver_new_comm_hex@).unwrap(), w + m, s + t, pp),
{
}

/// Whether the list of all balances gives the user the balance that the user has, if it gives one.
pub open spec fn ledger_agrees(state: UserView) -> bool {
    state.balances.dom().contains(state.name) ==> state.balances[state.name] == state.balance
}

/// Paying keeps the list of all balances in agreement with the balance of the payer; and where they
/// agree, a payment that the balance covers and that was proved is taken off it.
pub proof fn paying_keeps_ledger(
    before: UserView,
    after: UserView,
    tx_id: u64,
    amount: u64,
    r_m: Fr,
    blinding: Fr,
    proving: Result<(String, String), String>,
    step: PayStep,
)
    requires
        ledger_agrees(before),
        before.balance >= amount,
        is_pay_step(before, after, tx_id, amount, r_m, blinding, proving, step),
        is_proof_outcome(proving, before.balance, amount, before.r, before.pp),
    ensures
        ledger_agrees(after),
        step is Prepared <==> proving is Ok,
        step !is Fault,
{
}

/// Being paid keeps the list of all balances in agreement with the balance of the payee.
pub proof fn being_paid_keeps_ledger(
    before: UserView,
    after: UserView,
    notice: PaymentNotice,
    accepted: bool,
    ephemeral: KeyPair,
    step: PeerStep,
)
    requires
        ledger_agrees(before),
        is_receipt(before, after, notice, accepted, ephemeral, step),
    ensures
        ledger_agrees(after),
{
}

} // verus!
