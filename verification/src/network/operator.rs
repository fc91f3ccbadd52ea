//! The operator of a channel: takes requests in, and orders and commits payments.
use crate::blockchain;
use crate::blockchain::{address_of, keccak256, parse_address, ContractCall};
use crate::config::{ActorConfig, AppConfig};
use crate::crypto::backend::g1_in_group;
use crate::crypto::common::{PP, SharedParameters};
use crate::crypto::multisig;
use crate::crypto::multisig::{
    adds_up_keys, adds_up_signatures, aggregate_is_accepted, all_keys_of, all_signed_with,
    g1_points, g1_total, is_verdict, signature_is_unique, sum_of,
};
use crate::crypto::range_proof;
use crate::crypto::range_proof::is_proof_verdict;
use crate::crypto::wrapper::{g1_hex, g1_of_hex, g2_of_hex, readable, G1, G2};
use crate::encoding::{
    base64_bytes, base64_decode, base64_encode, base64_text, be_bytes, hex_bytes, hex_decode,
    hex_digit, hex_encode, hex_text, u64_to_be_bytes32,
};
use crate::names::{entry_of, is_sorted_listing, place_of_first, NameMap};
use crate::network::message::{option_text, participant_texts, NetworkMessage};
use crate::text::{strip_0x, text_equal, texts, without_0x};
use std::collections::{HashSet, VecDeque};
use uuid::Uuid;
use vstd::prelude::*;

verus! {

broadcast use vstd::std_specs::hash::group_hash_axioms;

/// What the operator puts into a new channel.
pub const INITIAL_DEPOSIT: u128 = 20;

/// The account that the operator acts for.
pub fn get_actor_config(config: &AppConfig) -> (res: ActorConfig)
    ensures
        res == config.operator,
{
    config.operator.clone()
}

/// Whether a text has the form of a hyphenated UUID in lower case.
pub open spec fn is_uuid_text(text: Seq<char>) -> bool {
    &&& text.len() == 36
    &&& forall|i: int|
        0 <= i < 36 ==> if i == 8 || i == 13 || i == 18 || i == 23 {
            #[trigger] text[i] == '-'
        } else {
            exists|d: int| 0 <= d < 16 && text[i] == #[trigger] hex_digit(d)
        }
}

/// Calls `new_v4` and `to_string` of `uuid::Uuid`. The digits are drawn at random; the text has the
/// hyphenated form.
#[verifier::external_body]
fn new_uuid_text() -> (res: String)
    ensures
        is_uuid_text(res@),
{
    Uuid::new_v4().to_string()
}

/// Whether a text is that of a UUID that was drawn at random.
pub closed spec fn is_drawn_uuid(text: Seq<char>) -> bool {
    exists|uuid_text: String|
        #[trigger] call_ensures(new_uuid_text, (), uuid_text) && uuid_text@ == text
}

/// The alias of a channel that is named after a UUID.
pub fn alias_of(uuid_text: &str) -> (res: String)
    requires
        uuid_text@.len() >= 8,
    ensures
        res@ == "ch-"@ + uuid_text@.take(8),
{
    assert(uuid_text@.subrange(0, 8) =~= uuid_text@.take(8));
    "ch-".to_owned().concat(uuid_text.substring_char(0, 8))
}

/// The alias of a new channel: `ch-` and eight random hexadecimal digits.
pub fn new_alias() -> (res: String)
    ensures
        exists|uuid_text: Seq<char>|
            is_uuid_text(uuid_text) && is_drawn_uuid(uuid_text) && res@ == "ch-"@
                + #[trigger] uuid_text.take(8),
{
    let uuid_text = new_uuid_text();
    assert(is_drawn_uuid(uuid_text@));
    alias_of(&uuid_text)
}

/// The identifier of a channel on the chain: the digest of its alias.
pub fn channel_id_of(alias: &str) -> (res: [u8; 32])
    ensures
        res@ == keccak256(vstd::utf8::encode_utf8(alias@)),
{
    blockchain::keccak256_digest(alias.as_bytes())
}

/// What the state of the operator stands for.
#[verifier::ext_equal]
pub struct OperatorView {
    /// The identifier of the channel.
    pub channel_id: Seq<u8>,
    /// The public parameters.
    pub pp: PP,
    /// The public keys of those who joined.
    pub keys: Map<Seq<char>, Seq<u8>>,
    /// The addresses of those who joined.
    pub addresses: Map<Seq<char>, Seq<u8>>,
    /// The commitments to the balances of those who joined.
    pub commitments: Map<Seq<char>, Seq<u64>>,
    /// The balances that those who joined announced.
    pub balances: Map<Seq<char>, u64>,
    /// The payments that are committed.
    pub finalized: Set<u64>,
    /// The signature of the last payment that was committed.
    pub last_sig: Option<Seq<char>>,
    /// The last payment that was committed.
    pub last_tx_id: u64,
    /// The messages that wait for the sequencer, the oldest first.
    pub queue: Seq<NetworkMessage>,
    /// The users that the channel is configured for.
    pub users: Seq<ActorConfig>,
    /// Whether the participants have been announced.
    pub announced: bool,
    /// Whether the channel is closed on the chain.
    pub closed: bool,
}

/// What the operator keeps of a channel.
pub struct Operator {
    channel_id: [u8; 32],
    pp: SharedParameters,
    multisig_keys: NameMap<G2>,
    user_addresses: NameMap<[u8; 20]>,
    balance_commitments: NameMap<G1>,
    initial_balances: NameMap<u64>,
    finalized_txs: HashSet<u64>,
    last_committed_sig: Option<String>,
    last_committed_tx_id: u64,
    mempool: VecDeque<NetworkMessage>,
    users: Vec<ActorConfig>,
    initial_broadcast_done: bool,
    closed: bool,
}

impl View for Operator {
    type V = OperatorView;

    closed spec fn view(&self) -> OperatorView {
        OperatorView {
            channel_id: self.channel_id@,
            pp: self.pp@,
            keys: self.multisig_keys@,
            addresses: self.user_addresses@,
            commitments: self.balance_commitments@,
            balances: self.initial_balances@,
            finalized: self.finalized_txs@,
            last_sig: option_text(self.last_committed_sig),
            last_tx_id: self.last_committed_tx_id,
            queue: self.mempool@,
            users: self.users@,
            announced: self.initial_broadcast_done,
            closed: self.closed,
        }
    }
}

/// What becomes of a request.
pub enum IngressStep {
    /// It is answered; `wake` says whether the sequencer has work.
    Reply { reply: NetworkMessage, wake: bool },
    /// The channel is to be closed on the chain first.
    Settle { call: ContractCall, closer: String, channel_id_hex: String, final_tx_id: u64 },
}

/// A payment that the sequencer is working on.
pub struct Proposal {
    pub user_name: String,
    pub counterparty_name: String,
    pub tx_id: u64,
    pub amount: u64,
    pub sender_new_comm_hex: String,
    pub receiver_new_comm_hex: String,
}

/// What the sequencer does next.
pub enum SequencerTask {
    /// It waits for a request.
    Idle,
    /// It stops: the channel is closed, and nothing is left to do.
    Stop,
    /// It announces a message to all.
    Broadcast { message: NetworkMessage },
    /// It asks for votes on a payment.
    CollectVotes { proposal: Proposal, request: NetworkMessage },
    /// It cannot ask for votes: a party of the payment has not joined.
    UnknownParty,
    /// It passes over a message that is not for it.
    Skip,
}

/// What the votes on a payment come to.
pub enum Conclusion {
    /// The payment is committed and announced.
    Committed { announcement: NetworkMessage },
    /// The votes are too few.
    Insufficient { got: usize, needed: usize },
    /// There is nothing to add up.
    AggregationFailed,
    /// There are votes enough, and a new commitment is not a point.
    BadCommitment,
}

/// How many votes a payment needs of `n` users: two thirds, rounded up.
pub open spec fn threshold_of(n: int) -> int {
    (n * 2 + 2) / 3
}

/// How many votes a payment needs of `n` users.
pub fn threshold(n: usize) -> (res: usize)
    ensures
        res == threshold_of(n as int),
{
    n - n / 3
}

/// The votes that a payment needs are at least two thirds of the users and at most all of them, and
/// one vote less is less than two thirds.
pub proof fn threshold_is_two_thirds(n: int)
    requires
        n > 0,
    ensures
        3 * threshold_of(n) >= 2 * n,
        3 * (threshold_of(n) - 1) < 2 * n,
        1 <= threshold_of(n) <= n,
{
}

/// Whether the texts of a join request can be read.
pub open spec fn join_decodes(
    addr_str: Seq<char>,
    pk_hex: Seq<char>,
    comm_hex: Seq<char>,
) -> bool {
    &&& address_of(addr_str) is Some
    &&& g2_of_hex(pk_hex) is Some
    &&& g1_of_hex(comm_hex) is Some
}

/// The state after a user has joined: with an address, a key, a commitment and the balance that the
/// user announced.
pub open spec fn joined(
    before: OperatorView,
    name: Seq<char>,
    address: Seq<u8>,
    pk: Seq<u8>,
    comm: Seq<u64>,
    balance: u64,
) -> OperatorView {
    OperatorView {
        keys: before.keys.insert(name, pk),
        addresses: before.addresses.insert(name, address),
        commitments: before.commitments.insert(name, comm),
        balances: before.balances.insert(name, balance),
        ..before
    }
}

/// Whether `reply`, `wake` and the state `after` are what a join request comes to that can be read,
/// given the verdict on its range proof.
pub open spec fn is_admission(
    before: OperatorView,
    after: OperatorView,
    reply: NetworkMessage,
    wake: bool,
    name: Seq<char>,
    address: Seq<u8>,
    pk: Seq<u8>,
    comm: Seq<u64>,
    balance: u64,
    accepted: bool,
) -> bool {
    if accepted {
        &&& after == joined(before, name, address, pk, comm, balance)
        &&& reply.is_join_response("OK"@, "Welcome"@, hex_text(before.channel_id))
        &&& wake == (after.keys.dom().len() == before.users.len())
    } else {
        &&& after == before
        &&& reply.is_join_response("ERR"@, "Invalid Proof"@, ""@)
        &&& !wake
    }
}

/// Whether `reply`, `wake` and the state `after` are what a join request can come to.
pub open spec fn is_join_outcome(
    before: OperatorView,
    after: OperatorView,
    reply: NetworkMessage,
    wake: bool,
    name: Seq<char>,
    addr_str: Seq<char>,
    pk_hex: Seq<char>,
    comm_hex: Seq<char>,
    proof_b64: Seq<char>,
    balance: u64,
) -> bool {
    if join_decodes(addr_str, pk_hex, comm_hex) {
        exists|accepted: bool|
            #[trigger] is_proof_verdict(
                accepted,
                proof_b64,
                base64_text(hex_bytes(comm_hex)),
                before.pp,
            ) && is_admission(
                before,
                after,
                reply,
                wake,
                name,
                address_of(addr_str).unwrap(),
                g2_of_hex(pk_hex).unwrap(),
                g1_of_hex(comm_hex).unwrap(),
                balance,
                accepted,
            )
    } else {
        &&& after == before
        &&& reply.is_join_response("ERR"@, "Bad Format"@, ""@)
        &&& !wake
    }
}

/// Whether a proposal by `name` of the payment `tx_id` is let into the queue.
pub open spec fn proposal_is_valid(state: OperatorView, name: Seq<char>, tx_id: u64) -> bool {
    !state.finalized.contains(tx_id) && state.commitments.dom().contains(name)
}

/// Whether a close request names this channel.
pub open spec fn names_channel(state: OperatorView, channel_id_hex: Seq<char>) -> bool {
    hex_text(state.channel_id) == without_0x(channel_id_hex)
}

/// What a list of balances gives a name: the balance, or nothing.
pub open spec fn balance_in(balances: Seq<(String, u64)>, name: Seq<char>) -> u64 {
    match entry_of(balances, name) {
        Some(balance) => balance,
        None => 0,
    }
}

/// Whether the two lists are the addresses of those who joined, in the order of their names, and the
/// balances that the list gives them, in 32 bytes.
pub open spec fn is_payout(
    state: OperatorView,
    balances: Seq<(String, u64)>,
    recipients: Seq<[u8; 20]>,
    amounts: Seq<[u8; 32]>,
) -> bool {
    exists|names: Seq<Seq<char>>|
        {
            &&& #[trigger] is_sorted_listing(names, state.addresses.dom())
            &&& recipients.len() == names.len()
            &&& amounts.len() == names.len()
            &&& forall|i: int|
                0 <= i < names.len() ==> (#[trigger] recipients[i])@ == state.addresses[names[i]]
            &&& forall|i: int|
                0 <= i < names.len() ==> (#[trigger] amounts[i])@ == be_bytes(
                    balance_in(balances, names[i]) as nat,
                    32,
                )
        }
}

/// Whether a user has joined: with a key, a commitment and a balance.
pub open spec fn has_joined(state: OperatorView, name: Seq<char>) -> bool {
    &&& state.keys.dom().contains(name)
    &&& state.commitments.dom().contains(name)
    &&& state.balances.dom().contains(name)
}

/// The users that have joined, as they are announced: in the order of the configuration, each with the
/// balance that the user joined with.
pub open spec fn announced_users(state: OperatorView, users: Seq<ActorConfig>) -> Seq<
    (Seq<char>, Seq<char>, Seq<char>, u64),
>
    decreases users.len(),
{
    if users.len() == 0 {
        Seq::empty()
    } else {
        let head = announced_users(state, users.drop_last());
        let name = users.last().name@;
        if has_joined(state, name) {
            head.push(
                (
                    name,
                    hex_text(state.keys[name]),
                    g1_hex(state.commitments[name]),
                    state.balances[name],
                ),
            )
        } else {
            head
        }
    }
}

/// Whether it is time to announce the participants: all have joined, and it has not been done.
pub open spec fn announcement_due(state: OperatorView) -> bool {
    !state.announced && state.keys.dom().len() == state.users.len() && state.users.len() > 0
}

/// Whether `res` and the state `after` are what becomes of the announcement of the participants: it is
/// made when it is due, and noted.
pub open spec fn is_initial_broadcast(
    before: OperatorView,
    after: OperatorView,
    res: Option<NetworkMessage>,
) -> bool {
    if announcement_due(before) {
        &&& after == (OperatorView { announced: true, ..before })
        &&& res is Some
        &&& res.unwrap().is_channel_finalized(
            hex_text(before.channel_id),
            announced_users(before, before.users),
        )
    } else {
        after == before && res is None
    }
}

/// Whether `proposal` and `request` are what the sequencer makes of a proposed payment.
pub open spec fn is_vote_round(
    state: OperatorView,
    message: NetworkMessage,
    proposal: Proposal,
    request: NetworkMessage,
) -> bool {
    match message {
        NetworkMessage::UpdateProposal {
            user_name,
            counterparty_name,
            tx_id: paid,
            amount,
            tx_amount_comm_hex: amount_comm,
            range_proof_b64: range_proof,
            proof_comm_value_b64: proof_comm,
            sender_new_comm_hex: sender_new,
            receiver_new_comm_hex: receiver_new,
            ..
        } => {
            &&& proposal.user_name@ == user_name@
            &&& proposal.counterparty_name@ == counterparty_name@
            &&& proposal.tx_id == paid
            &&& proposal.amount == amount
            &&& proposal.sender_new_comm_hex@ == sender_new@
            &&& proposal.receiver_new_comm_hex@ == receiver_new@
            &&& request matches NetworkMessage::VoteRequest {
                tx_id,
                proposer_name,
                tx_amount_comm_hex,
                range_proof_b64,
                proof_comm_value_b64,
                sender_new_comm_hex,
                sender_old_comm_hex,
                receiver_new_comm_hex,
                receiver_old_comm_hex,
                prev_tx_id,
                prev_aggregated_sig_hex,
            } && {
                &&& tx_id == paid
                &&& proposer_name@ == user_name@
                &&& tx_amount_comm_hex@ == amount_comm@
                &&& range_proof_b64@ == range_proof@
                &&& proof_comm_value_b64@ == proof_comm@
                &&& sender_new_comm_hex@ == sender_new@
                &&& sender_old_comm_hex@ == g1_hex(state.commitments[user_name@])
                &&& receiver_new_comm_hex@ == receiver_new@
                &&& receiver_old_comm_hex@ == g1_hex(state.commitments[counterparty_name@])
                &&& prev_tx_id == state.last_tx_id
                &&& option_text(prev_aggregated_sig_hex) == state.last_sig
            }
        },
        _ => false,
    }
}

/// Whether both parties of a proposed payment have joined.
pub open spec fn parties_known(state: OperatorView, message: NetworkMessage) -> bool {
    message matches NetworkMessage::UpdateProposal { user_name, counterparty_name, .. }
        && state.commitments.dom().contains(user_name@) && state.commitments.dom().contains(
        counterparty_name@,
    )
}

/// Whether `task` is what the sequencer does with the oldest message in the queue.
pub open spec fn is_task(state: OperatorView, message: NetworkMessage, task: SequencerTask) -> bool {
    match message {
        NetworkMessage::ChannelClosed { channel_id_hex, closer, final_tx_id } => task matches
            SequencerTask::Broadcast { message: sent } && sent.is_channel_closed(
            channel_id_hex@,
            closer@,
            final_tx_id,
        ),
        NetworkMessage::UpdateProposal { .. } => if parties_known(state, message) {
            task matches SequencerTask::CollectVotes { proposal, request } && is_vote_round(
                state,
                message,
                proposal,
                request,
            )
        } else {
            task is UnknownParty
        },
        _ => task is Skip,
    }
}

/// The signatures among the votes that can be read, in order.
pub open spec fn shares_in(votes: Seq<Option<String>>) -> Seq<Seq<u64>>
    decreases votes.len(),
{
    if votes.len() == 0 {
        Seq::empty()
    } else {
        let head = shares_in(votes.drop_last());
        match votes.last() {
            Some(share_hex) => match g1_of_hex(share_hex@) {
                Some(share) => head.push(share),
                None => head,
            },
            None => head,
        }
    }
}

/// The state after a payment is committed.
pub open spec fn committed(
    before: OperatorView,
    proposal: Proposal,
    sig_hex: Seq<char>,
) -> OperatorView {
    OperatorView {
        finalized: before.finalized.insert(proposal.tx_id),
        last_tx_id: proposal.tx_id,
        last_sig: Some(sig_hex),
        commitments: before.commitments.insert(
            proposal.user_name@,
            g1_of_hex(proposal.sender_new_comm_hex@).unwrap(),
        ).insert(
            proposal.counterparty_name@,
            g1_of_hex(proposal.receiver_new_comm_hex@).unwrap(),
        ),
        ..before
    }
}

/// Whether this announces a payment as committed under the given signature.
pub open spec fn is_announcement(
    message: NetworkMessage,
    proposal: Proposal,
    sig_hex: Seq<char>,
) -> bool {
    message matches NetworkMessage::ConsensusReached {
        tx_id,
        status,
        all_signatures,
        sender_name,
        sender_new_comm_hex,
        receiver_name,
        receiver_new_comm_hex,
        amount,
    } && {
        &&& tx_id == proposal.tx_id
        &&& status@ == "COMMITTED"@
        &&& texts(all_signatures@) == seq![sig_hex]
        &&& sender_name@ == proposal.user_name@
        &&& sender_new_comm_hex@ == proposal.sender_new_comm_hex@
        &&& receiver_name@ == proposal.counterparty_name@
        &&& receiver_new_comm_hex@ == proposal.receiver_new_comm_hex@
        &&& amount == proposal.amount
    }
}

/// Whether `res` and the state `after` are what the votes on a payment come to.
pub open spec fn is_conclusion(
    before: OperatorView,
    after: OperatorView,
    proposal: Proposal,
    votes: Seq<Option<String>>,
    res: Conclusion,
) -> bool {
    let shares = shares_in(votes);
    let needed = threshold_of(before.users.len() as int);
    let sig_hex = g1_hex(g1_total(shares));
    let decodes = g1_of_hex(proposal.sender_new_comm_hex@) is Some && g1_of_hex(
        proposal.receiver_new_comm_hex@,
    ) is Some;
    if shares.len() < needed {
        &&& after == before
        &&& res matches Conclusion::Insufficient { got, needed: threshold } && got == shares.len()
            && threshold == needed
    } else if shares.len() == 0 {
        after == before && res is AggregationFailed
    } else if !decodes {
        after == before && res is BadCommitment
    } else {
        &&& after == committed(before, proposal, sig_hex)
        &&& adds_up_signatures(shares, g1_total(shares))
        &&& g1_in_group(g1_total(shares)) ==> readable(g1_total(shares))
        &&& res matches Conclusion::Committed { announcement } && is_announcement(
            announcement,
            proposal,
            sig_hex,
        )
    }
}

/// The share that a reply to a vote request brings: that of a vote in favour.
pub fn vote_share(reply: NetworkMessage) -> (res: Option<String>)
    ensures
        match reply {
            NetworkMessage::VoteResponse { status, sig_share_hex, .. } => if status@ == "OK"@ {
                res == sig_share_hex
            } else {
                res is None
            },
            _ => res is None,
        },
{
    match reply {
        NetworkMessage::VoteResponse { status, sig_share_hex, .. } => {
            if text_equal(&status, "OK") {
                sig_share_hex
            } else {
                None
            }
        },
        _ => None,
    }
}

/// The balance of a name in a list.
fn find_balance(balances: &Vec<(String, u64)>, name: &str) -> (res: u64)
    ensures
        res == balance_in(balances@, name@),
{
    let mut i: usize = 0;
    while i < balances.len()
        invariant
            i <= balances.len(),
            forall|j: int| 0 <= j < i ==> (#[trigger] balances@[j]).0@ != name@,
        decreases balances.len() - i,
    {
        if text_equal(balances[i].0.as_str(), name) {
            proof {
                place_of_first(balances@, name@, i as int);
            }
            return balances[i].1;
        }
        i += 1;
    }
    proof {
        place_of_first(balances@, name@, i as int);
    }
    0
}

impl Operator {
    /// The operator of a new channel with nobody in it. The payment zero counts as committed.
    pub fn new(channel_alias: &str, users: Vec<ActorConfig>) -> (res: Operator)
        ensures
            res@.pp.standard(),
            res@ == (OperatorView {
                channel_id: keccak256(vstd::utf8::encode_utf8(channel_alias@)),
                pp: res@.pp,
                keys: Map::empty(),
                addresses: Map::empty(),
                commitments: Map::empty(),
                balances: Map::empty(),
                finalized: set![0u64],
                last_sig: None,
                last_tx_id: 0,
                queue: Seq::empty(),
                users: users@,
                announced: false,
                closed: false,
            }),
            consistent(res@),
    {
        let mut finalized_txs: HashSet<u64> = HashSet::new();
        finalized_txs.insert(0);
        let res = Operator {
            channel_id: channel_id_of(channel_alias),
            pp: SharedParameters::new(),
            multisig_keys: NameMap::new(),
            user_addresses: NameMap::new(),
            balance_commitments: NameMap::new(),
            initial_balances: NameMap::new(),
            finalized_txs,
            last_committed_sig: None,
            last_committed_tx_id: 0,
            mempool: VecDeque::new(),
            users,
            initial_broadcast_done: false,
            closed: false,
        };
        assert(res@.finalized =~= set![0u64]);
        res
    }

    /// The identifier of the channel.
    pub fn channel_id(&self) -> (res: [u8; 32])
        ensures
            res@ == self@.channel_id,
    {
        self.channel_id
    }

    /// How many users have joined.
    pub fn joined_count(&self) -> (res: usize)
        ensures
            res == self@.keys.dom().len(),
    {
        self.multisig_keys.len()
    }

    /// How many messages wait for the sequencer.
    pub fn queue_len(&self) -> (res: usize)
        ensures
            res == self@.queue.len(),
    {
        self.mempool.len()
    }

    /// The last payment that was committed.
    pub fn last_committed_tx_id(&self) -> (res: u64)
        ensures
            res == self@.last_tx_id,
    {
        self.last_committed_tx_id
    }

    /// Answers a join request that can be read, given the verdict on its range proof.
    pub fn answer_join(
        &mut self,
        user_name: &str,
        address: [u8; 20],
        pk: G2,
        comm: G1,
        initial_balance: u64,
        accepted: bool,
    ) -> (res: (NetworkMessage, bool))
        ensures
            is_admission(
                old(self)@,
                final(self)@,
                res.0,
                res.1,
                user_name@,
                address@,
                pk@,
                comm@,
                initial_balance,
                accepted,
            ),
    {
        if accepted {
            self.multisig_keys.insert(user_name, pk);
            self.user_addresses.insert(user_name, address);
            self.balance_commitments.insert(user_name, comm);
            self.initial_balances.insert(user_name, initial_balance);
            let wake: bool = self.multisig_keys.len() == self.users.len();
            let reply = NetworkMessage::JoinResponse {
                status: "OK".to_owned(),
                message: "Welcome".to_owned(),
                channel_id_hex: hex_encode(&self.channel_id),
            };
            (reply, wake)
        } else {
            let reply = NetworkMessage::JoinResponse {
                status: "ERR".to_owned(),
                message: "Invalid Proof".to_owned(),
                channel_id_hex: "".to_owned(),
            };
            (reply, false)
        }
    }

    /// Answers a join request: a user whose address, key and commitment can be read joins if the
    /// range proof of the commitment is accepted, with the balance that the request announces.
    pub fn join(
        &mut self,
        user_name: &str,
        user_addr_str: &str,
        pk_hex: &str,
        initial_balance_comm_hex: &str,
        initial_balance_proof_b64: &str,
        initial_balance: u64,
    ) -> (res: (NetworkMessage, bool))
        ensures
            is_join_outcome(
                old(self)@,
                final(self)@,
                res.0,
                res.1,
                user_name@,
                user_addr_str@,
                pk_hex@,
                initial_balance_comm_hex@,
                initial_balance_proof_b64@,
                initial_balance,
            ),
    {
        let address = parse_address(user_addr_str);
        let pk = G2::from_hex(pk_hex);
        let comm = G1::from_hex(initial_balance_comm_hex);
        match (address, pk, comm) {
            (Some(address), Ok(pk), Ok(comm)) => {
                let comm_bytes = match hex_decode(initial_balance_comm_hex) {
                    Ok(bytes) => bytes,
                    Err(_) => Vec::new(),
                };
                let comm_b64 = base64_encode(&comm_bytes);
                let pp = self.pp.get();
                let accepted = range_proof::verify_proof(
                    initial_balance_proof_b64,
                    &comm_b64,
                    0,
                    &pp,
                );
                self.answer_join(user_name, address, pk, comm, initial_balance, accepted)
            },
            _ => {
                let reply = NetworkMessage::JoinResponse {
                    status: "ERR".to_owned(),
                    message: "Bad Format".to_owned(),
                    channel_id_hex: "".to_owned(),
                };
                (reply, false)
            },
        }
    }

    /// Takes a proposed payment in: one that is not committed yet, by a user who joined, waits for
    /// the sequencer. Anything else is turned down.
    pub fn queue_proposal(&mut self, request: NetworkMessage) -> (res: (NetworkMessage, bool))
        ensures
            request matches NetworkMessage::UpdateProposal { user_name, tx_id, .. }
                && proposal_is_valid(old(self)@, user_name@, tx_id) ==> {
                &&& final(self)@ == (OperatorView {
                    queue: old(self)@.queue.push(request),
                    ..old(self)@
                })
                &&& res.0.is_update_response("QUEUED"@, "Queued"@)
                &&& res.1
            },
            !(request matches NetworkMessage::UpdateProposal { user_name, tx_id, .. }
                && proposal_is_valid(old(self)@, user_name@, tx_id)) ==> {
                &&& final(self)@ == old(self)@
                &&& res.0.is_update_response("REJECT"@, "Duplicate/Invalid"@)
                &&& !res.1
            },
    {
        let is_valid: bool = match &request {
            NetworkMessage::UpdateProposal { user_name, tx_id, .. } => {
                if self.finalized_txs.contains(tx_id) {
                    false
                } else {
                    self.balance_commitments.contains_key(user_name)
                }
            },
            _ => false,
        };
        if is_valid {
            self.mempool.push_back(request);
            let reply = NetworkMessage::UpdateResponse {
                status: "QUEUED".to_owned(),
                message: "Queued".to_owned(),
                aggregated_signature_hex: None,
            };
            (reply, true)
        } else {
            let reply = NetworkMessage::UpdateResponse {
                status: "REJECT".to_owned(),
                message: "Duplicate/Invalid".to_owned(),
                aggregated_signature_hex: None,
            };
            (reply, false)
        }
    }

    /// The payout of a channel: everyone who joined, in the order of the names, with the balance that
    /// the list gives them.
    pub fn payout(&self, final_balances: &Vec<(String, u64)>) -> (res: (
        Vec<[u8; 20]>,
        Vec<[u8; 32]>,
    ))
        ensures
            is_payout(self@, final_balances@, res.0@, res.1@),
    {
        let sorted_users = self.user_addresses.sorted_names();
        let ghost names = texts(sorted_users@);
        let mut recipients: Vec<[u8; 20]> = Vec::new();
        let mut amounts: Vec<[u8; 32]> = Vec::new();
        let mut i: usize = 0;
        while i < sorted_users.len()
            invariant
                i <= sorted_users.len(),
                names == texts(sorted_users@),
                is_sorted_listing(names, self@.addresses.dom()),
                recipients@.len() == i,
                amounts@.len() == i,
                forall|j: int|
                    0 <= j < i ==> (#[trigger] recipients@[j])@ == self@.addresses[names[j]],
                forall|j: int|
                    0 <= j < i ==> (#[trigger] amounts@[j])@ == be_bytes(
                        balance_in(final_balances@, names[j]) as nat,
                        32,
                    ),
            decreases sorted_users.len() - i,
        {
            assert(names[i as int] == sorted_users@[i as int]@);
            assert(names.contains(names[i as int]));
            assert(self@.addresses.dom().contains(names[i as int]));
            if let Some(address) = self.user_addresses.get(&sorted_users[i]) {
                recipients.push(address);
                amounts.push(u64_to_be_bytes32(find_balance(final_balances, &sorted_users[i])));
            }
            i += 1;
        }
        (recipients, amounts)
    }

    /// Decides on a close request: one that names this channel is settled on the chain with the
    /// payout of the balances it brings.
    pub fn request_close(
        &self,
        user_name: String,
        channel_id_hex: String,
        final_tx_id: u64,
        signature_b64: &str,
        final_balances: &Vec<(String, u64)>,
    ) -> (res: IngressStep)
        ensures
            is_close_step(
                self@,
                res,
                user_name@,
                channel_id_hex@,
                final_tx_id,
                signature_b64@,
                final_balances@,
            ),
    {
        let id_hex = hex_encode(&self.channel_id);
        if text_equal(&id_hex, strip_0x(&channel_id_hex)) {
            let (recipients, amounts) = self.payout(final_balances);
            let signature = match base64_decode(signature_b64) {
                Some(bytes) => bytes,
                None => Vec::new(),
            };
            let call = blockchain::initiate_close(
                self.channel_id,
                final_tx_id,
                recipients,
                amounts,
                signature,
            );
            IngressStep::Settle { call, closer: user_name, channel_id_hex, final_tx_id }
        } else {
            let reply = NetworkMessage::CloseConsensus {
                status: "REJECT".to_owned(),
                final_tx_id: 0,
                close_token: "Invalid ID".to_owned(),
            };
            IngressStep::Reply { reply, wake: false }
        }
    }

    /// Decides on a request.
    pub fn handle_request(&mut self, request: NetworkMessage) -> (res: IngressStep)
        ensures
            is_ingress_step(old(self)@, final(self)@, request, res),
    {
        match request {
            NetworkMessage::JoinRequest {
                user_name,
                user_addr_str,
                pk_hex,
                initial_balance_comm_hex,
                initial_balance_proof_b64,
                initial_balance,
            } => {
                let (reply, wake) = self.join(
                    &user_name,
                    &user_addr_str,
                    &pk_hex,
                    &initial_balance_comm_hex,
                    &initial_balance_proof_b64,
                    initial_balance,
                );
                IngressStep::Reply { reply, wake }
            },
            NetworkMessage::UpdateProposal { .. } => {
                let (reply, wake) = self.queue_proposal(request);
                IngressStep::Reply { reply, wake }
            },
            NetworkMessage::CloseRequest {
                user_name,
                channel_id_hex,
                final_tx_id,
                signature_b64,
                final_balances,
            } => self.request_close(
                user_name,
                channel_id_hex,
                final_tx_id,
                &signature_b64,
                &final_balances,
            ),
            _ => {
                let reply = NetworkMessage::UpdateResponse {
                    status: "ERR".to_owned(),
                    message: "Unknown".to_owned(),
                    aggregated_signature_hex: None,
                };
                IngressStep::Reply { reply, wake: false }
            },
        }
    }

    /// Answers a close request once the chain has: after a success the end of the channel waits to be
    /// announced. The second result says whether the channel is closed.
    pub fn settled(
        &mut self,
        closer: String,
        channel_id_hex: String,
        final_tx_id: u64,
        outcome: Result<String, String>,
    ) -> (res: (NetworkMessage, bool))
        ensures
            is_settlement(
                old(self)@,
                final(self)@,
                closer@,
                channel_id_hex@,
                final_tx_id,
                outcome,
                res.0,
                res.1,
            ),
    {
        match outcome {
            Ok(tx) => {
                self.mempool.push_back(
                    NetworkMessage::ChannelClosed { channel_id_hex, closer, final_tx_id },
                );
                self.closed = true;
                assert(self@.queue.drop_last() =~= old(self)@.queue);
                let reply = NetworkMessage::CloseConsensus {
                    status: "OK".to_owned(),
                    final_tx_id,
                    close_token: tx,
                };
                (reply, true)
            },
            Err(e) => {
                let reply = NetworkMessage::CloseConsensus {
                    status: "ERROR".to_owned(),
                    final_tx_id: 0,
                    close_token: e,
                };
                (reply, false)
            },
        }
    }

    /// Announces the participants once, when everyone that the channel is configured for has joined.
    pub fn initial_broadcast(&mut self) -> (res: Option<NetworkMessage>)
        ensures
            is_initial_broadcast(old(self)@, final(self)@, res),
    {
        let total_users: usize = self.users.len();
        if self.initial_broadcast_done || self.multisig_keys.len() != total_users || total_users
            == 0 {
            return None;
        }
        let ghost state = self@;
        let mut participants: Vec<(String, String, String, u64)> = Vec::new();
        let mut i: usize = 0;
        assert(self.users@.take(0) =~= Seq::<ActorConfig>::empty());
        assert(participants@.map_values(
            |p: (String, String, String, u64)| participant_texts(p),
        ) =~= announced_users(state, self.users@.take(0)));
        while i < total_users
            invariant
                i <= total_users,
                total_users == self.users@.len(),
                state == self@,
                participants@.map_values(
                    |p: (String, String, String, u64)| participant_texts(p),
                ) == announced_users(state, self.users@.take(i as int)),
            decreases total_users - i,
        {
            let ghost before = participants@;
            let ghost next = self.users@.take(i + 1);
            assert(next.drop_last() =~= self.users@.take(i as int));
            assert(next.last() == self.users@[i as int]);
            let name = self.users[i].name.clone();
            if let (Some(pk), Some(comm), Some(init_bal)) = (
                self.multisig_keys.get(&name),
                self.balance_commitments.get(&name),
                self.initial_balances.get(&name),
            ) {
                participants.push((name, pk.to_hex(), comm.to_hex(), init_bal));
                assert(participants@.map_values(
                    |p: (String, String, String, u64)| participant_texts(p),
                ) =~= before.map_values(
                    |p: (String, String, String, u64)| participant_texts(p),
                ).push(participant_texts(participants@.last())));
            }
            i += 1;
        }
        assert(self.users@.take(i as int) =~= self.users@);
        self.initial_broadcast_done = true;
        Some(
            NetworkMessage::ChannelFinalized {
                channel_id_hex: hex_encode(&self.channel_id),
                participants,
            },
        )
    }

    /// Takes the oldest message from the queue and says what to do with it. When none is left, the
    /// sequencer waits for more, or stops if the channel is closed.
    pub fn next_task(&mut self) -> (res: SequencerTask)
        ensures
            is_next_task(old(self)@, final(self)@, res),
    {
        let message = match self.mempool.pop_front() {
            Some(message) => message,
            None => {
                return if self.closed {
                    SequencerTask::Stop
                } else {
                    SequencerTask::Idle
                };
            },
        };
        assert(self@.queue =~= old(self)@.queue.skip(1));
        match message {
            NetworkMessage::ChannelClosed { channel_id_hex, closer, final_tx_id } => {
                SequencerTask::Broadcast {
                    message: NetworkMessage::ChannelClosed { channel_id_hex, closer, final_tx_id },
                }
            },
            NetworkMessage::UpdateProposal {
                user_name,
                counterparty_name,
                tx_id,
                amount,
                tx_amount_comm_hex,
                range_proof_b64,
                proof_comm_value_b64,
                sender_new_comm_hex,
                receiver_new_comm_hex,
                ..
            } => {
                let (sender_old, receiver_old) = match (
                    self.balance_commitments.get(&user_name),
                    self.balance_commitments.get(&counterparty_name),
                ) {
                    (Some(sender_old), Some(receiver_old)) => (sender_old, receiver_old),
                    _ => return SequencerTask::UnknownParty,
                };
                let request = NetworkMessage::VoteRequest {
                    tx_id,
                    proposer_name: user_name.clone(),
                    tx_amount_comm_hex,
                    range_proof_b64,
                    proof_comm_value_b64,
                    sender_new_comm_hex: sender_new_comm_hex.clone(),
                    sender_old_comm_hex: sender_old.to_hex(),
                    receiver_new_comm_hex: receiver_new_comm_hex.clone(),
                    receiver_old_comm_hex: receiver_old.to_hex(),
                    prev_tx_id: self.last_committed_tx_id,
                    prev_aggregated_sig_hex: match &self.last_committed_sig {
                        Some(sig) => Some(sig.clone()),
                        None => None,
                    },
                };
                let proposal = Proposal {
                    user_name,
                    counterparty_name,
                    tx_id,
                    amount,
                    sender_new_comm_hex,
                    receiver_new_comm_hex,
                };
                SequencerTask::CollectVotes { proposal, request }
            },
            _ => SequencerTask::Skip,
        }
    }

    /// Concludes a vote: with votes enough the signatures are added up, and the payment is committed
    /// and announced. Nothing changes otherwise.
    pub fn conclude_vote(&mut self, proposal: &Proposal, votes: &Vec<Option<String>>) -> (res:
        Conclusion)
        ensures
            is_conclusion(old(self)@, final(self)@, *proposal, votes@, res),
    {
        let mut shares: Vec<G1> = Vec::new();
        let mut i: usize = 0;
        assert(votes@.take(0) =~= Seq::<Option<String>>::empty());
        assert(g1_points(shares@) =~= shares_in(votes@.take(0)));
        while i < votes.len()
            invariant
                i <= votes.len(),
                g1_points(shares@) == shares_in(votes@.take(i as int)),
            decreases votes.len() - i,
        {
            let ghost before = shares@;
            let ghost next = votes@.take(i + 1);
            assert(next.drop_last() =~= votes@.take(i as int));
            assert(next.last() == votes@[i as int]);
            if let Some(share_hex) = &votes[i] {
                if let Ok(share) = G1::from_hex(share_hex) {
                    shares.push(share);
                    assert(g1_points(shares@) =~= g1_points(before).push(share@));
                }
            }
            i += 1;
        }
        assert(votes@.take(i as int) =~= votes@);
        let got: usize = shares.len();
        let needed: usize = threshold(self.users.len());
        if got < needed {
            return Conclusion::Insufficient { got, needed };
        }
        let agg_sig = match multisig::aggregate_signatures(shares) {
            Ok(agg_sig) => agg_sig,
            Err(_) => return Conclusion::AggregationFailed,
        };
        let agg_sig_hex = agg_sig.to_hex();
        let (new_s, new_r) = match (
            G1::from_hex(&proposal.sender_new_comm_hex),
            G1::from_hex(&proposal.receiver_new_comm_hex),
        ) {
            (Ok(new_s), Ok(new_r)) => (new_s, new_r),
            _ => return Conclusion::BadCommitment,
        };
        self.finalized_txs.insert(proposal.tx_id);
        self.last_committed_tx_id = proposal.tx_id;
        self.last_committed_sig = Some(agg_sig_hex.clone());
        self.balance_commitments.insert(&proposal.user_name, new_s);
        self.balance_commitments.insert(&proposal.counterparty_name, new_r);
        let mut all_signatures: Vec<String> = Vec::new();
        all_signatures.push(agg_sig_hex);
        assert(texts(all_signatures@) =~= seq![agg_sig_hex@]);
        let announcement = NetworkMessage::ConsensusReached {
            tx_id: proposal.tx_id,
            status: "COMMITTED".to_owned(),
            all_signatures,
            sender_name: proposal.user_name.clone(),
            sender_new_comm_hex: proposal.sender_new_comm_hex.clone(),
            receiver_name: proposal.counterparty_name.clone(),
            receiver_new_comm_hex: proposal.receiver_new_comm_hex.clone(),
            amount: proposal.amount,
        };
        Conclusion::Committed { announcement }
    }
}

/// Whether `reply`, `closed` and the state `after` are what a close request comes to once the chain has
/// answered: after a success the channel is closed, and its end waits to be announced.
pub open spec fn is_settlement(
    before: OperatorView,
    after: OperatorView,
    closer: Seq<char>,
    channel_id_hex: Seq<char>,
    final_tx_id: u64,
    outcome: Result<String, String>,
    reply: NetworkMessage,
    closed: bool,
) -> bool {
    match outcome {
        Ok(tx) => {
            &&& after.queue.len() == before.queue.len() + 1
            &&& after.queue.drop_last() == before.queue
            &&& after.queue.last().is_channel_closed(channel_id_hex, closer, final_tx_id)
            &&& after == (OperatorView { queue: after.queue, closed: true, ..before })
            &&& reply.is_close_consensus("OK"@, final_tx_id, tx@)
            &&& closed
        },
        Err(e) => {
            &&& after == before
            &&& reply.is_close_consensus("ERROR"@, 0, e@)
            &&& !closed
        },
    }
}

/// Whether `task` and the state `after` are what the sequencer does next: with the oldest message in
/// the queue, or, when none is left, to stop if the channel is closed and to wait if it is not.
pub open spec fn is_next_task(
    before: OperatorView,
    after: OperatorView,
    task: SequencerTask,
) -> bool {
    if before.queue.len() > 0 {
        &&& after == (OperatorView { queue: before.queue.skip(1), ..before })
        &&& is_task(before, before.queue[0], task)
    } else {
        &&& after == before
        &&& if before.closed {
            task is Stop
        } else {
            task is Idle
        }
    }
}

/// Whether `step` is what a close request comes to.
pub open spec fn is_close_step(
    state: OperatorView,
    step: IngressStep,
    name: Seq<char>,
    id_hex: Seq<char>,
    tx_id: u64,
    signature_b64: Seq<char>,
    balances: Seq<(String, u64)>,
) -> bool {
    if names_channel(state, id_hex) {
        step matches IngressStep::Settle { call, closer, channel_id_hex, final_tx_id } && {
            &&& closer@ == name
            &&& channel_id_hex@ == id_hex
            &&& final_tx_id == tx_id
            &&& call matches ContractCall::InitiateClose {
                channel_id,
                nonce,
                recipients,
                amounts,
                signature,
            } && {
                &&& channel_id@ == state.channel_id
                &&& nonce == tx_id
                &&& is_payout(state, balances, recipients@, amounts@)
                &&& signature@ == match base64_bytes(signature_b64) {
                    Some(bytes) => bytes,
                    None => Seq::empty(),
                }
            }
        }
    } else {
        step matches IngressStep::Reply { reply, wake } && !wake && reply.is_close_consensus(
            "REJECT"@,
            0,
            "Invalid ID"@,
        )
    }
}

/// Whether `step` and the state `after` are what a request can come to.
pub open spec fn is_ingress_step(
    before: OperatorView,
    after: OperatorView,
    request: NetworkMessage,
    step: IngressStep,
) -> bool {
    match request {
        NetworkMessage::JoinRequest {
            user_name,
            user_addr_str,
            pk_hex,
            initial_balance_comm_hex,
            initial_balance_proof_b64,
            initial_balance,
        } => step matches IngressStep::Reply { reply, wake } && is_join_outcome(
            before,
            after,
            reply,
            wake,
            user_name@,
            user_addr_str@,
            pk_hex@,
            initial_balance_comm_hex@,
            initial_balance_proof_b64@,
            initial_balance,
        ),
        NetworkMessage::UpdateProposal { user_name, tx_id, .. } => step matches IngressStep::Reply {
            reply,
            wake,
        } && if proposal_is_valid(before, user_name@, tx_id) {
            &&& after == (OperatorView { queue: before.queue.push(request), ..before })
            &&& reply.is_update_response("QUEUED"@, "Queued"@)
            &&& wake
        } else {
            &&& after == before
            &&& reply.is_update_response("REJECT"@, "Duplicate/Invalid"@)
            &&& !wake
        },
        NetworkMessage::CloseRequest {
            user_name,
            channel_id_hex,
            final_tx_id,
            signature_b64,
            final_balances,
        } => after == before && is_close_step(
            before,
            step,
            user_name@,
            channel_id_hex@,
            final_tx_id,
            signature_b64@,
            final_balances@,
        ),
        _ => {
            &&& after == before
            &&& step matches IngressStep::Reply { reply, wake } && !wake
                && reply.is_update_response("ERR"@, "Unknown"@)
        },
    }
}

/// Whether the records of the operator fit together: everyone with a key has an address, a commitment
/// and a balance and the other way round, and the payment zero counts as committed.
pub open spec fn consistent(state: OperatorView) -> bool {
    &&& state.keys.dom() == state.addresses.dom()
    &&& state.keys.dom() == state.commitments.dom()
    &&& state.balances.dom() == state.keys.dom()
    &&& state.finalized.contains(0)
}

/// No request takes a payment back, drops anyone, tears the records apart, or changes the balance that
/// anyone but its sender joined with.
pub proof fn requests_keep_records(
    before: OperatorView,
    after: OperatorView,
    request: NetworkMessage,
    step: IngressStep,
)
    requires
        is_ingress_step(before, after, request, step),
    ensures
        after.finalized == before.finalized,
        after.last_tx_id == before.last_tx_id,
        after.last_sig == before.last_sig,
        after.announced == before.announced,
        after.closed == before.closed,
        before.keys.dom().subset_of(after.keys.dom()),
        forall|name: Seq<char>|
            !(request matches NetworkMessage::JoinRequest { user_name, .. } && user_name@ == name)
                ==> {
                &&& after.balances.dom().contains(name) == #[trigger]
                    before.balances.dom().contains(name)
                &&& after.balances[name] == before.balances[name]
            },
        consistent(before) ==> consistent(after),
{
    assert(consistent(before) ==> after.keys.dom() =~= after.addresses.dom());
    assert(consistent(before) ==> after.keys.dom() =~= after.commitments.dom());
    assert(consistent(before) ==> after.balances.dom() =~= after.keys.dom());
}

/// No request takes a message out of the queue or changes the order of the queue: at most one is put
/// behind the others.
pub proof fn requests_keep_queue(
    before: OperatorView,
    after: OperatorView,
    request: NetworkMessage,
    step: IngressStep,
)
    requires
        is_ingress_step(before, after, request, step),
    ensures
        after.queue == before.queue || after.queue == before.queue.push(request),
{
}

/// A vote takes no payment back, changes the commitments of the two parties alone, leaves the queue and
/// the balances of the start as they are, and does not tear the records apart.
pub proof fn votes_keep_records(
    before: OperatorView,
    after: OperatorView,
    proposal: Proposal,
    votes: Seq<Option<String>>,
    res: Conclusion,
)
    requires
        is_conclusion(before, after, proposal, votes, res),
    ensures
        before.finalized.subset_of(after.finalized),
        after.balances == before.balances,
        after.queue == before.queue,
        after.closed == before.closed,
        forall|name: Seq<char>|
            name != proposal.user_name@ && name != proposal.counterparty_name@ ==> {
                &&& after.commitments.dom().contains(name) == #[trigger]
                    before.commitments.dom().contains(name)
                &&& after.commitments[name] == before.commitments[name]
            },
        consistent(before) && before.commitments.dom().contains(proposal.user_name@)
            && before.commitments.dom().contains(proposal.counterparty_name@) ==> consistent(after),
{
    if consistent(before) && before.commitments.dom().contains(proposal.user_name@)
        && before.commitments.dom().contains(proposal.counterparty_name@) {
        assert(after.commitments.dom() =~= before.commitments.dom());
    }
}

/// What is committed has the votes of two thirds of the users, and is the last payment from then on.
pub proof fn committed_has_two_thirds(
    before: OperatorView,
    after: OperatorView,
    proposal: Proposal,
    votes: Seq<Option<String>>,
    res: Conclusion,
)
    requires
        is_conclusion(before, after, proposal, votes, res),
        res is Committed,
    ensures
        3 * shares_in(votes).len() >= 2 * before.users.len(),
        after.last_tx_id == proposal.tx_id,
        after.finalized.contains(proposal.tx_id),
{
}

/// A committed payment is not let into the queue again, whoever proposes it.
pub proof fn committed_is_refused(
    before: OperatorView,
    after: OperatorView,
    proposal: Proposal,
    votes: Seq<Option<String>>,
    res: Conclusion,
    name: Seq<char>,
)
    requires
        is_conclusion(before, after, proposal, votes, res),
        res is Committed,
    ensures
        !proposal_is_valid(after, name, proposal.tx_id),
{
}

/// The signature that a committed payment is announced with is accepted under the sum of the public
/// keys of the voters, if each vote is the signature of one message under the key of the voter.
pub proof fn announced_signature_is_accepted(
    before: OperatorView,
    after: OperatorView,
    proposal: Proposal,
    votes: Seq<Option<String>>,
    res: Conclusion,
    pks: Seq<Seq<u8>>,
    cpk: Seq<u8>,
    xs: Seq<int>,
    msg: Seq<u8>,
    accepted: bool,
)
    requires
        is_conclusion(before, after, proposal, votes, res),
        res is Committed,
        before.pp.standard(),
        all_signed_with(shares_in(votes), xs, msg),
        all_keys_of(pks, xs),
        adds_up_keys(pks, cpk),
        is_verdict(
            accepted,
            g1_of_hex(g1_hex(g1_total(shares_in(votes)))).unwrap(),
            cpk,
            msg,
            before.pp,
        ),
    ensures
        accepted,
{
    let shares = shares_in(votes);
    let sigma = g1_total(shares);
    signature_is_unique(sigma, sigma, sum_of(xs), msg);
    aggregate_is_accepted(shares, sigma, pks, cpk, xs, msg, before.pp, accepted);
}

/// Whether a run of the sequencer is one: each of its tasks is what it does next, and between two tasks
/// nothing leaves the queue or changes its order.
pub open spec fn is_sequencer_run(
    befores: Seq<OperatorView>,
    afters: Seq<OperatorView>,
    tasks: Seq<SequencerTask>,
) -> bool {
    &&& befores.len() == tasks.len()
    &&& afters.len() == tasks.len()
    &&& forall|i: int|
        0 <= i < tasks.len() ==> is_next_task(befores[i], afters[i], #[trigger] tasks[i])
    &&& forall|i: int|
        0 <= i < tasks.len() - 1 ==> (#[trigger] afters[i]).queue.is_prefix_of(
            befores[i + 1].queue,
        )
}

/// Messages are handled in the order of the queue: what waits at place `p` is what the run does at its
/// step `p`, and the run does not stop before.
proof fn queue_is_worked_off(
    befores: Seq<OperatorView>,
    afters: Seq<OperatorView>,
    tasks: Seq<SequencerTask>,
    p: int,
    k: int,
)
    requires
        is_sequencer_run(befores, afters, tasks),
        0 <= k < tasks.len(),
        0 <= p < befores[0].queue.len(),
    ensures
        k <= p ==> {
            &&& p - k < befores[k].queue.len()
            &&& befores[k].queue[p - k] == befores[0].queue[p]
            &&& tasks[k] !is Stop
        },
    decreases k,
{
    if 0 < k <= p {
        queue_is_worked_off(befores, afters, tasks, p, k - 1);
        let head = afters[k - 1].queue;
        assert(is_next_task(befores[k - 1], afters[k - 1], tasks[k - 1]));
        assert(head.is_prefix_of(befores[k - 1 + 1].queue));
        assert(head[p - k] == befores[k - 1].queue[p - k + 1]);
        assert(befores[k].queue[p - k] == head[p - k]);
    }
    if k <= p {
        assert(is_next_task(befores[k], afters[k], tasks[k]));
    }
}

/// After a close request that the chain has settled the sequencer does not stop before it has announced
/// the end of the channel to all.
pub proof fn end_is_announced_before_stop(
    before: OperatorView,
    after: OperatorView,
    closer: Seq<char>,
    channel_id_hex: Seq<char>,
    final_tx_id: u64,
    outcome: Result<String, String>,
    reply: NetworkMessage,
    closed: bool,
    befores: Seq<OperatorView>,
    afters: Seq<OperatorView>,
    tasks: Seq<SequencerTask>,
    stop: int,
)
    requires
        is_settlement(
            before,
            after,
            closer,
            channel_id_hex,
            final_tx_id,
            outcome,
            reply,
            closed,
        ),
        outcome is Ok,
        is_sequencer_run(befores, afters, tasks),
        0 <= stop < tasks.len(),
        after.queue.is_prefix_of(befores[0].queue),
        tasks[stop] is Stop,
    ensures
        exists|i: int|
            0 <= i < stop && (#[trigger] tasks[i] matches SequencerTask::Broadcast { message }
                && message.is_channel_closed(channel_id_hex, closer, final_tx_id)),
{
    let p = after.queue.len() - 1;
    assert(befores[0].queue[p] == after.queue[p]);
    queue_is_worked_off(befores, afters, tasks, p, stop);
    queue_is_worked_off(befores, afters, tasks, p, p);
    assert(is_next_task(befores[p], afters[p], tasks[p]));
}

/// A sequencer whose channel is closed comes to an end: where the queue gets no more messages, it stops
/// once it has handled those that wait.
pub proof fn closed_sequencer_stops(
    befores: Seq<OperatorView>,
    afters: Seq<OperatorView>,
    tasks: Seq<SequencerTask>,
)
    requires
        is_sequencer_run(befores, afters, tasks),
        tasks.len() > 0,
        befores[0].closed,
        tasks.len() == befores[0].queue.len() + 1,
        forall|i: int|
            0 <= i < tasks.len() - 1 ==> {
                &&& (#[trigger] afters[i]).queue == befores[i + 1].queue
                &&& afters[i].closed ==> befores[i + 1].closed
            },
    ensures
        tasks.last() is Stop,
{
    closed_queue_shrinks(befores, afters, tasks, tasks.len() - 1);
    assert(is_next_task(befores.last(), afters.last(), tasks[tasks.len() - 1]));
}

/// Each task takes one message out of a queue that gets no more.
proof fn closed_queue_shrinks(
    befores: Seq<OperatorView>,
    afters: Seq<OperatorView>,
    tasks: Seq<SequencerTask>,
    k: int,
)
    requires
        is_sequencer_run(befores, afters, tasks),
        0 <= k < tasks.len(),
        befores[0].closed,
        tasks.len() == befores[0].queue.len() + 1,
        forall|i: int|
            0 <= i < tasks.len() - 1 ==> {
                &&& (#[trigger] afters[i]).queue == befores[i + 1].queue
                &&& afters[i].closed ==> befores[i + 1].closed
            },
    ensures
        befores[k].closed,
        befores[k].queue.len() == befores[0].queue.len() - k,
    decreases k,
{
    if k > 0 {
        closed_queue_shrinks(befores, afters, tasks, k - 1);
        assert(is_next_task(befores[k - 1], afters[k - 1], tasks[k - 1]));
        assert(afters[k - 1].queue == befores[k - 1 + 1].queue);
    }
}

/// The participants are announced once.
pub proof fn announced_once(state: OperatorView)
    requires
        state.announced,
    ensures
        !announcement_due(state),
{
}

} // verus!
