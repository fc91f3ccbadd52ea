//! What a user can count on: each step of a user in terms of what goes into it and what comes out.
use crate::blockchain::address_of;
use crate::crypto::backend::{
    g1_compressed, g1_hash, g1_negation, g1_sum, g1_times, g2_at, g2_times, group_order, reduced,
};
use crate::crypto::common::SharedParameters;
use crate::crypto::multisig::{is_verdict, signature_is_accepted, signed_with, KeyPair};
use crate::crypto::range_proof::{
    always_holds, is_proof_verdict, proof_decodes, proof_holds, prover_reports,
};
use crate::crypto::wrapper::{g1_of_hex, g2_of_hex, is_drawn, Fr};
use crate::encoding::{
    base64_bytes, base64_text, be_bytes, be_value, hex_bytes, hex_decodes, hex_digit_value,
    hex_round_trip, hex_text,
};
use crate::network::message::NetworkMessage;
use crate::network::user::{
    close_accepted, commitments_in_order, deposit_amount, is_broadcast_step, is_completion,
    is_join_request, is_pay_outcome, is_pay_step, is_payment_outcome, is_peer_step, is_receipt,
    is_vote, is_vote_outcome, parse_channel_id, parse_command, synced, Ballot, BroadcastStep,
    ChannelIdError, Command, CompletionStep, PayStep, PaymentNotice, PeerStep, PendingPayment,
    UserNode, UserView,
};
use crate::text::{
    is_white_space, one_more_prefix_is_taken_off, stands_at, trimmed_end, trimmed_start,
    trimming_undoes_padding, u64_of, without_0x, words_of,
};
use vstd::prelude::*;

verus! {

/// The bytes that signatures are made of a message under.
pub open spec fn tag() -> Seq<u8> {
    vstd::utf8::encode_utf8("MBPChannel-V1-SIG-G1"@)
}

/// Whether two states differ in nothing that a payment does not touch.
pub open spec fn same_but_for_payment(before: UserView, after: UserView) -> bool {
    &&& after.name == before.name
    &&& after.channel_id == before.channel_id
    &&& after.pp == before.pp
    &&& after.sk == before.sk
    &&& after.pk == before.pk
    &&& after.r == before.r
    &&& after.pks == before.pks
    &&& after.commitments == before.commitments
    &&& after.order == before.order
    &&& after.finalized == before.finalized
    &&& after.history == before.history
}

/// Whether the list of all balances has changed by `change` for the user, if it has the user, and for
/// nobody else.
pub open spec fn listed_balance_moved(before: UserView, after: UserView, change: int) -> bool {
    &&& forall|name: Seq<char>|
        after.balances.dom().contains(name) <==> #[trigger] before.balances.dom().contains(name)
    &&& forall|name: Seq<char>| #[trigger]
        before.balances.dom().contains(name) && name != before.name ==> after.balances[name]
            == before.balances[name]
    &&& before.balances.dom().contains(before.name) ==> after.balances[before.name] as int
        == before.balances[before.name] as int + change
}

/// A payment is taken whenever its range proof is accepted, its two points can be read, and the balances
/// stay in 64 bits: the balance grows by the amount, the commitment by that of the payment, and the
/// payee answers with a signature of the hidden message and the new commitment. With an accepted proof
/// it fails in no other case than these, and without one it is passed over; both change nothing.
pub proof fn payment_is_taken(
    before: UserView,
    after: UserView,
    notice: PaymentNotice,
    accepted: bool,
    ephemeral: KeyPair,
    step: PeerStep,
)
    requires
        is_receipt(before, after, notice, accepted, ephemeral, step),
    ensures
        !accepted ==> step is Silent && after == before,
        accepted && (g1_of_hex(notice.commitment_hex@) is None || g1_of_hex(
            notice.blinded_tx_point_hex@,
        ) is None || before.balance as int + notice.amount as int > 0xffff_ffff_ffff_ffff || (
        before.balances.dom().contains(before.name) && before.balances[before.name] as int
            + notice.amount as int > 0xffff_ffff_ffff_ffff)) ==> step is Fault && after == before,
        accepted && g1_of_hex(notice.commitment_hex@) is Some && g1_of_hex(
            notice.blinded_tx_point_hex@,
        ) is Some && before.balance as int + notice.amount as int <= 0xffff_ffff_ffff_ffff && (
        before.balances.dom().contains(before.name) ==> before.balances[before.name] as int
            + notice.amount as int <= 0xffff_ffff_ffff_ffff) ==> {
            let payment = g1_of_hex(notice.commitment_hex@).unwrap();
            let point = g1_of_hex(notice.blinded_tx_point_hex@).unwrap();
            &&& after.balance as int == before.balance as int + notice.amount as int
            &&& after.comm == g1_sum(before.comm, payment)
            &&& after.current_tx_id == notice.tx_id
            &&& listed_balance_moved(before, after, notice.amount as int)
            &&& same_but_for_payment(before, after)
            &&& step matches PeerStep::Answer { reply } && reply matches NetworkMessage::P2PUpdateResp {
                tx_id,
                status,
                ephemeral_pk_hex: Some(pk_hex),
                blinded_signature_hex: Some(sig_hex),
                receiver_new_comm_hex: Some(comm_hex),
            } && {
                &&& tx_id == notice.tx_id
                &&& status@ == "OK"@
                &&& pk_hex@ == hex_text(ephemeral.pk@)
                &&& sig_hex@ == hex_text(g1_compressed(g1_times(point, ephemeral.sk@)))
                &&& comm_hex@ == hex_text(g1_compressed(g1_sum(before.comm, payment)))
            }
        },
{
}

/// A payment between users of small balances is always answered, if its range proof is accepted
/// whatever the weight and its points can be read.
pub proof fn proved_payment_is_answered(
    before: UserView,
    after: UserView,
    notice: PaymentNotice,
    step: PeerStep,
)
    requires
        is_payment_outcome(before, after, notice, step),
        proof_decodes(notice.range_proof_b64@, notice.comm_value_b64@),
        always_holds(
            base64_bytes(notice.range_proof_b64@).unwrap(),
            base64_bytes(notice.comm_value_b64@).unwrap(),
            before.pp,
        ),
        g1_of_hex(notice.commitment_hex@) is Some,
        g1_of_hex(notice.blinded_tx_point_hex@) is Some,
        before.balance < 0x8000_0000_0000_0000,
        before.balances.dom().contains(before.name) ==> before.balances[before.name]
            < 0x8000_0000_0000_0000,
        notice.amount < 0x8000_0000_0000_0000,
    ensures
        step is Answer,
        after.balance == before.balance + notice.amount,
        after.comm == g1_sum(before.comm, g1_of_hex(notice.commitment_hex@).unwrap()),
{
    let (accepted, ephemeral) = choose|accepted: bool, ephemeral: KeyPair|
        {
            &&& #[trigger] ephemeral.belongs_to(before.pp)
            &&& #[trigger] is_proof_verdict(
                accepted,
                notice.range_proof_b64@,
                notice.comm_value_b64@,
                before.pp,
            )
            &&& is_receipt(before, after, notice, accepted, ephemeral, step)
        };
    payment_is_taken(before, after, notice, accepted, ephemeral, step);
}

/// A payment without a range proof, or with one that is refused whatever the weight, is passed over and
/// changes nothing.
pub proof fn unproved_payment_is_passed_over(
    before: UserView,
    after: UserView,
    notice: PaymentNotice,
    step: PeerStep,
)
    requires
        is_payment_outcome(before, after, notice, step),
        !proof_decodes(notice.range_proof_b64@, notice.comm_value_b64@) || forall|w: int|
            0 <= w < group_order() ==> !#[trigger] proof_holds(
                base64_bytes(notice.range_proof_b64@).unwrap(),
                base64_bytes(notice.comm_value_b64@).unwrap(),
                before.pp,
                w,
            ),
    ensures
        step is Silent,
        after == before,
{
    let (accepted, ephemeral) = choose|accepted: bool, ephemeral: KeyPair|
        {
            &&& #[trigger] ephemeral.belongs_to(before.pp)
            &&& #[trigger] is_proof_verdict(
                accepted,
                notice.range_proof_b64@,
                notice.comm_value_b64@,
                before.pp,
            )
            &&& is_receipt(before, after, notice, accepted, ephemeral, step)
        };
    payment_is_taken(before, after, notice, accepted, ephemeral, step);
}

/// A user signs what is voted on: a vote in favour brings the signature of the bytes of the range proof
/// under the key of the voter, whatever came before it. It is given exactly where the old commitment of
/// the payer is the one that the voter knows, the range proof is accepted, and the payment goes off the
/// one commitment and onto the other. Anything else is rejected.
pub proof fn vote_signs_the_range_proof(
    before: UserView,
    after: UserView,
    ballot: Ballot,
    accepted: bool,
    reply: NetworkMessage,
)
    requires
        is_vote(before, after, ballot, accepted, reply),
    ensures
        ({
            let payment = g1_of_hex(ballot.tx_amount_comm_hex@);
            let sender_old = g1_of_hex(ballot.sender_old_comm_hex@);
            let sender_new = g1_of_hex(ballot.sender_new_comm_hex@);
            let receiver_old = g1_of_hex(ballot.receiver_old_comm_hex@);
            let receiver_new = g1_of_hex(ballot.receiver_new_comm_hex@);
            let name = ballot.proposer_name@;
            if before.commitments.dom().contains(name) && hex_text(
                g1_compressed(before.commitments[name]),
            ) == ballot.sender_old_comm_hex@ && accepted && payment is Some && sender_old is Some
                && sender_new is Some && receiver_old is Some && receiver_new is Some
                && sender_new.unwrap() == g1_sum(
                sender_old.unwrap(),
                g1_negation(payment.unwrap()),
            ) && receiver_new.unwrap() == g1_sum(receiver_old.unwrap(), payment.unwrap()) {
                reply matches NetworkMessage::VoteResponse {
                    tx_id,
                    voter_name,
                    status,
                    sig_share_hex: Some(share),
                } && {
                    &&& tx_id == ballot.tx_id
                    &&& voter_name@ == "me"@
                    &&& status@ == "OK"@
                    &&& base64_bytes(ballot.range_proof_b64@) matches Some(bytes) ==> {
                        let sigma = g1_times(g1_hash(bytes, tag()), before.sk);
                        &&& share@ == hex_text(g1_compressed(sigma))
                        &&& g1_of_hex(share@) == Some(sigma)
                        &&& signed_with(sigma, before.sk, bytes)
                    }
                    &&& base64_bytes(ballot.range_proof_b64@) is None ==> share@ == hex_text(
                        g1_compressed(g1_times(g1_hash(Seq::empty(), tag()), before.sk)),
                    )
                }
            } else {
                reply matches NetworkMessage::VoteResponse {
                    tx_id,
                    voter_name,
                    status,
                    sig_share_hex: None,
                } && tx_id == ballot.tx_id && voter_name@ == "me"@ && status@ == "REJECT"@
            }
        }),
{
}

/// The share of a vote in favour is accepted for the bytes of the range proof that was voted on under
/// the public key of the voter.
pub proof fn vote_share_is_accepted_for_the_range_proof(
    before: UserView,
    after: UserView,
    ballot: Ballot,
    accepted: bool,
    reply: NetworkMessage,
    share: Seq<u64>,
    bytes: Seq<u8>,
    verdict: bool,
)
    requires
        is_vote(before, after, ballot, accepted, reply),
        before.pp.standard(),
        g2_at(before.pk, before.sk),
        base64_bytes(ballot.range_proof_b64@) == Some(bytes),
        reply matches NetworkMessage::VoteResponse { sig_share_hex: Some(share_hex), .. }
            && g1_of_hex(share_hex@) == Some(share),
        is_verdict(verdict, share, before.pk, bytes, before.pp),
    ensures
        verdict,
{
    vote_signs_the_range_proof(before, after, ballot, accepted, reply);
    signature_is_accepted(share, before.sk, before.pk, bytes, before.pp, verdict);
}

/// A vote changes what the user takes note of and nothing else: the payment before the one that is voted
/// on counts as committed if it has a number and comes with a signature, and the bytes of the range
/// proof are kept under the number of the payment.
pub proof fn vote_takes_note(
    before: UserView,
    after: UserView,
    ballot: Ballot,
    accepted: bool,
    reply: NetworkMessage,
)
    requires
        is_vote(before, after, ballot, accepted, reply),
    ensures
        same_but_for_payment(
            before,
            UserView { finalized: before.finalized, history: before.history, ..after },
        ),
        after.balance == before.balance,
        after.comm == before.comm,
        after.current_tx_id == before.current_tx_id,
        after.balances == before.balances,
        forall|tx: u64|
            #![trigger after.finalized.contains(tx)]
            after.finalized.contains(tx) <==> before.finalized.contains(tx) || (
            ballot.prev_aggregated_sig_hex is Some && tx == ballot.prev_tx_id && tx != 0),
        base64_bytes(ballot.range_proof_b64@) matches Some(bytes) ==> after.history
            == before.history.insert(ballot.tx_id, bytes),
        base64_bytes(ballot.range_proof_b64@) is None ==> after.history == before.history,
{
}

/// A payment with a range proof that is accepted whatever the weight gets the vote of everyone who
/// knows the old commitment of the payer, if it goes off the one commitment and onto the other; and one
/// without a range proof gets no vote.
pub proof fn vote_goes_by_the_range_proof(
    before: UserView,
    after: UserView,
    ballot: Ballot,
    reply: NetworkMessage,
)
    requires
        is_vote_outcome(before, after, ballot, reply),
    ensures
        !proof_decodes(ballot.range_proof_b64@, ballot.proof_comm_value_b64@) ==> (reply matches
            NetworkMessage::VoteResponse { status, sig_share_hex: None, .. } && status@
            == "REJECT"@),
        proof_decodes(ballot.range_proof_b64@, ballot.proof_comm_value_b64@) && always_holds(
            base64_bytes(ballot.range_proof_b64@).unwrap(),
            base64_bytes(ballot.proof_comm_value_b64@).unwrap(),
            before.pp,
        ) && before.commitments.dom().contains(ballot.proposer_name@) && hex_text(
            g1_compressed(before.commitments[ballot.proposer_name@]),
        ) == ballot.sender_old_comm_hex@ && g1_of_hex(ballot.tx_amount_comm_hex@) is Some
            && g1_of_hex(ballot.sender_old_comm_hex@) is Some && g1_of_hex(
            ballot.receiver_old_comm_hex@,
        ) is Some && g1_of_hex(ballot.sender_new_comm_hex@) == Some(
            g1_sum(
                g1_of_hex(ballot.sender_old_comm_hex@).unwrap(),
                g1_negation(g1_of_hex(ballot.tx_amount_comm_hex@).unwrap()),
            ),
        ) && g1_of_hex(ballot.receiver_new_comm_hex@) == Some(
            g1_sum(
                g1_of_hex(ballot.receiver_old_comm_hex@).unwrap(),
                g1_of_hex(ballot.tx_amount_comm_hex@).unwrap(),
            ),
        ) ==> (reply matches NetworkMessage::VoteResponse { status, sig_share_hex: Some(_), .. }
            && status@ == "OK"@),
{
    let accepted = choose|accepted: bool|
        #[trigger] is_proof_verdict(
            accepted,
            ballot.range_proof_b64@,
            ballot.proof_comm_value_b64@,
            before.pp,
        ) && is_vote(before, after, ballot, accepted, reply);
    vote_signs_the_range_proof(before, after, ballot, accepted, reply);
}

/// An order to pay is refused exactly where the balance is smaller than the amount, and then changes
/// nothing. Otherwise it fails only where the prover itself fails on what is left, or where the list of
/// all balances has less than the amount; in every other case, the whole balance among them, it is
/// taken off.
pub proof fn covered_order_is_prepared(
    before: UserView,
    after: UserView,
    tx_id: u64,
    amount: u64,
    step: PayStep,
)
    requires
        is_pay_outcome(before, after, tx_id, amount, step),
    ensures
        amount > before.balance ==> after == before && step == (PayStep::Insufficient {
            balance: before.balance,
        }),
        amount <= before.balance ==> {
            ||| after == before && (step matches PayStep::ProofFailed { reason } && exists|
                rest: u64,
                why: String,
            |
                {
                    &&& rest + amount == before.balance
                    &&& #[trigger] prover_reports(rest, before.r, before.pp, Err(why))
                    &&& reason@ == "Proof generation failed: "@ + why@
                })
            ||| after == before && step is Fault && before.balances.dom().contains(before.name)
                && before.balances[before.name] < amount
            ||| step is Prepared && after.balance as int == before.balance as int - amount as int
        },
{
    if amount <= before.balance {
        let (r_m, blinding, proving) = choose|
            r_m: Fr,
            blinding: Fr,
            proving: Result<(String, String), String>,
        |
            {
                &&& crate::crypto::range_proof::is_proof_outcome(
                    proving,
                    before.balance,
                    amount,
                    before.r,
                    before.pp,
                )
                &&& #[trigger] is_pay_step(
                    before,
                    after,
                    tx_id,
                    amount,
                    r_m,
                    blinding,
                    proving,
                    step,
                )
            };
        if let Err(e) = proving {
            let rest: u64 = (before.balance - amount) as u64;
            let why = choose|why: String|
                {
                    &&& #[trigger] prover_reports(rest, before.r, before.pp, Err(why))
                    &&& e@ == "Proof generation failed: "@ + why@
                };
            assert(prover_reports(rest, before.r, before.pp, Err(why)));
        }
    }
}

/// A payment takes its amount off the balance, and a commitment to it off the commitment; its range
/// proof and that commitment go to the payee with the hash of the proof, hidden by the blinding scalar.
/// Where proving failed, or the list of all balances has less than the amount, nothing changes.
pub proof fn payment_is_taken_off(
    before: UserView,
    after: UserView,
    tx_id: u64,
    amount: u64,
    r_m: Fr,
    blinding: Fr,
    proving: Result<(String, String), String>,
    step: PayStep,
)
    requires
        before.balance >= amount,
        is_pay_step(before, after, tx_id, amount, r_m, blinding, proving, step),
    ensures
        match proving {
            Err(e) => after == before && (step matches PayStep::ProofFailed { reason } && reason@
                == e@),
            Ok((proof_b64, comm_b64)) => if base64_bytes(proof_b64@) is Some && (
            before.balances.dom().contains(before.name) ==> before.balances[before.name]
                >= amount) {
                let payment = g1_sum(
                    g1_times(before.pp.g1@, amount as int),
                    g1_times(before.pp.h@, r_m@),
                );
                let bytes = base64_bytes(proof_b64@).unwrap();
                &&& after.balance as int == before.balance as int - amount as int
                &&& after.comm == g1_sum(before.comm, g1_negation(payment))
                &&& after.current_tx_id == tx_id
                &&& listed_balance_moved(before, after, -(amount as int))
                &&& same_but_for_payment(before, after)
                &&& step matches PayStep::Prepared { payment: pending } && {
                    &&& pending.tx_id == tx_id
                    &&& pending.amount == amount
                    &&& pending.commitment_hex@ == hex_text(g1_compressed(payment))
                    &&& pending.range_proof_b64@ == proof_b64@
                    &&& pending.comm_value_b64@ == comm_b64@
                    &&& pending.new_comm_hex@ == hex_text(g1_compressed(after.comm))
                    &&& pending.blinded_point_hex@ == hex_text(
                        g1_compressed(g1_times(g1_hash(bytes, tag()), blinding@)),
                    )
                    &&& pending.blinding@ == blinding@
                }
            } else {
                after == before && step is Fault
            },
        },
{
}

/// The notice of a payment shows the payee all of it but the new commitment of the payer and the
/// blinding scalar.
pub proof fn notice_shows_the_payment(payment: &PendingPayment, message: NetworkMessage)
    requires
        call_ensures(UserNode::payment_notice, (payment,), message),
    ensures
        message matches NetworkMessage::P2PUpdateReq {
            tx_id,
            amount,
            commitment_hex,
            range_proof_b64,
            comm_value_b64,
            blinded_tx_point_hex,
        } && tx_id == payment.tx_id && amount == payment.amount && commitment_hex@
            == payment.commitment_hex@ && range_proof_b64@ == payment.range_proof_b64@
            && comm_value_b64@ == payment.comm_value_b64@ && blinded_tx_point_hex@
            == payment.blinded_point_hex@,
{
}

/// A payment is proposed exactly where the payee has answered with a consent whose signature can be
/// read and which brings the new commitment, for a range proof that can be read. The proposal brings
/// the signature of the range proof by the payer, and that of the payee times the inverse of the
/// blinding scalar. What is no consent is passed over, and a consent that cannot be used is a fault.
pub proof fn consent_is_proposed(
    state: UserView,
    payment: PendingPayment,
    target: Seq<char>,
    disclosed: u64,
    response: NetworkMessage,
    ephemeral: KeyPair,
    step: CompletionStep,
)
    requires
        is_completion(state, payment, target, disclosed, response, ephemeral, step),
    ensures
        match response {
            NetworkMessage::P2PUpdateResp {
                tx_id: _,
                status,
                ephemeral_pk_hex: Some(peer_pk),
                blinded_signature_hex: Some(sig_hex),
                receiver_new_comm_hex,
            } => if status@ != "OK"@ {
                step is Nothing
            } else if g1_of_hex(sig_hex@) is Some && receiver_new_comm_hex is Some && base64_bytes(
                payment.range_proof_b64@,
            ) is Some {
                let bytes = base64_bytes(payment.range_proof_b64@).unwrap();
                step matches CompletionStep::Propose { proposal } && proposal matches
                    NetworkMessage::UpdateProposal {
                    user_name,
                    counterparty_name,
                    tx_id,
                    prev_tx_id,
                    amount,
                    tx_amount_comm_hex,
                    range_proof_b64,
                    proof_comm_value_b64,
                    sender_new_comm_hex,
                    receiver_new_comm_hex: new_comm_hex,
                    proposer_ephemeral_pk_hex,
                    proposer_signature_b64,
                    counterparty_ephemeral_pk_hex: Some(counterparty_pk),
                    counterparty_signature_b64: Some(counterparty_sig),
                } && {
                    &&& user_name@ == state.name
                    &&& counterparty_name@ == target
                    &&& tx_id == payment.tx_id
                    &&& tx_id > 0 ==> prev_tx_id + 1 == tx_id
                    &&& tx_id == 0 ==> prev_tx_id == 0
                    &&& amount == disclosed
                    &&& tx_amount_comm_hex@ == payment.commitment_hex@
                    &&& range_proof_b64@ == payment.range_proof_b64@
                    &&& proof_comm_value_b64@ == payment.comm_value_b64@
                    &&& sender_new_comm_hex@ == payment.new_comm_hex@
                    &&& new_comm_hex@ == receiver_new_comm_hex.unwrap()@
                    &&& proposer_ephemeral_pk_hex@ == hex_text(ephemeral.pk@)
                    &&& proposer_signature_b64@ == base64_text(
                        g1_compressed(g1_times(g1_hash(bytes, tag()), ephemeral.sk@)),
                    )
                    &&& counterparty_pk@ == peer_pk@
                    &&& exists|k: int|
                        {
                            &&& 0 <= k < group_order()
                            &&& payment.blinding@ != 0 ==> reduced(payment.blinding@ * k) == 1
                            &&& payment.blinding@ == 0 ==> k == 0
                            &&& counterparty_sig@ == base64_text(
                                g1_compressed(#[trigger] g1_times(g1_of_hex(sig_hex@).unwrap(), k)),
                            )
                        }
                }
            } else {
                step is Fault
            },
            _ => step is Nothing,
        },
{
    if let NetworkMessage::P2PUpdateResp {
        tx_id: _,
        status,
        ephemeral_pk_hex: Some(peer_pk),
        blinded_signature_hex: Some(sig_hex),
        receiver_new_comm_hex,
    } = response {
        if let CompletionStep::Propose { proposal } = step {
            if let NetworkMessage::UpdateProposal { counterparty_signature_b64, .. } = proposal {
                let blinded_sig = g1_of_hex(sig_hex@).unwrap();
                let (k, sigma) = choose|k: int, sigma: Seq<u64>|
                    {
                        &&& #[trigger] crate::network::user::is_inverse(payment.blinding@, k)
                        &&& sigma == g1_times(blinded_sig, k)
                        &&& #[trigger] crate::crypto::blind::scaled(blinded_sig, k, sigma)
                        &&& crate::network::message::option_text(counterparty_signature_b64)
                            == Some(base64_text(g1_compressed(sigma)))
                    };
                assert(counterparty_signature_b64 matches Some(sig) && sig@ == base64_text(
                    g1_compressed(g1_times(blinded_sig, k)),
                ));
            }
        }
    }
}

/// A request to join brings the name, the address, the key, the commitment and the balance of the user
/// as they are, with the range proof that was made; it fails exactly where proving did, with its reason.
pub proof fn join_request_brings_the_user(
    node: &UserNode,
    address: &[u8; 20],
    proving: Result<(String, String), String>,
    res: Result<NetworkMessage, String>,
)
    requires
        call_ensures(UserNode::join_request_with, (node, address, proving), res),
    ensures
        match proving {
            Ok((proof_b64, comm_b64)) => res matches Ok(message) && message matches
                NetworkMessage::JoinRequest {
                user_name,
                user_addr_str,
                pk_hex,
                initial_balance_comm_hex,
                initial_balance_proof_b64,
                initial_balance,
            } && {
                &&& user_name@ == node@.name
                &&& address_of(user_addr_str@) == Some(address@)
                &&& pk_hex@ == hex_text(node@.pk)
                &&& g2_of_hex(pk_hex@) == Some(node@.pk)
                &&& initial_balance_comm_hex@ == hex_text(g1_compressed(node@.comm))
                &&& initial_balance_proof_b64@ == proof_b64@
                &&& initial_balance == node@.balance
            },
            Err(reason) => res matches Err(e) && e@ == reason@,
        },
{
}

/// A user can always ask to join: the request fails only where the prover itself fails on the balance.
pub proof fn join_request_fails_with_the_prover(
    node: &UserNode,
    address: &[u8; 20],
    res: Result<NetworkMessage, String>,
)
    requires
        call_ensures(UserNode::join_request, (node, address), res),
    ensures
        res matches Err(e) ==> exists|why: String|
            {
                &&& #[trigger] prover_reports(node@.balance, node@.r, node@.pp, Err(why))
                &&& e@ == "Proof generation failed: "@ + why@
            },
        res matches Ok(message) ==> (message matches NetworkMessage::JoinRequest {
            user_name,
            initial_balance_comm_hex,
            initial_balance,
            ..
        } && user_name@ == node@.name && initial_balance == node@.balance
            && initial_balance_comm_hex@ == hex_text(g1_compressed(node@.comm))),
{
    let proving = choose|proving: Result<(String, String), String>|
        {
            &&& #[trigger] crate::crypto::range_proof::is_proof_outcome(
                proving,
                node@.balance,
                0,
                node@.r,
                node@.pp,
            )
            &&& is_join_request(node@, address@, proving, res)
        };
}

/// What is announced as committed counts as committed from then on, gives the two parties the announced
/// commitments and is the last payment, unless a later one is known. Balances stay as they are. Where
/// one of the commitments cannot be read, nothing changes.
pub proof fn consensus_is_noted(
    before: UserView,
    after: UserView,
    message: NetworkMessage,
    step: BroadcastStep,
)
    requires
        is_broadcast_step(before, after, message, step),
        message is ConsensusReached,
    ensures
        message matches NetworkMessage::ConsensusReached {
            tx_id,
            sender_name,
            sender_new_comm_hex,
            receiver_name,
            receiver_new_comm_hex,
            ..
        } && match (g1_of_hex(sender_new_comm_hex@), g1_of_hex(receiver_new_comm_hex@)) {
            (Some(c_s), Some(c_r)) => {
                &&& step is Updated
                &&& forall|tx: u64|
                    #![trigger after.finalized.contains(tx)]
                    after.finalized.contains(tx) <==> before.finalized.contains(tx) || tx == tx_id
                &&& after.commitments[receiver_name@] == c_r
                &&& sender_name@ != receiver_name@ ==> after.commitments[sender_name@] == c_s
                &&& forall|name: Seq<char>| #[trigger]
                    after.commitments.dom().contains(name) <==> before.commitments.dom().contains(
                        name,
                    ) || name == sender_name@ || name == receiver_name@
                &&& forall|name: Seq<char>|
                    name != sender_name@ && name != receiver_name@
                        ==> #[trigger] after.commitments[name] == before.commitments[name]
                &&& after.current_tx_id >= before.current_tx_id
                &&& after.current_tx_id >= tx_id
                &&& after.current_tx_id == before.current_tx_id || after.current_tx_id == tx_id
                &&& after.balance == before.balance
                &&& after.comm == before.comm
                &&& after.balances == before.balances
                &&& after.order == before.order
                &&& after.pks == before.pks
                &&& after.history == before.history
                &&& after.name == before.name
                &&& after.sk == before.sk
                &&& after.r == before.r
            },
            _ => step is Ignored && after == before,
        },
{
}

/// The end of the channel is passed on with who closed it and the last payment, and changes nothing; a
/// message that is not for all changes nothing either.
pub proof fn other_broadcasts_change_nothing(
    before: UserView,
    after: UserView,
    message: NetworkMessage,
    step: BroadcastStep,
)
    requires
        is_broadcast_step(before, after, message, step),
        message !is ConsensusReached,
        message !is ChannelFinalized,
    ensures
        after == before,
        message matches NetworkMessage::ChannelClosed { closer, final_tx_id, .. } ==> (step matches
            BroadcastStep::Closed { closer: by, final_tx_id: last } && by@ == closer@ && last
            == final_tx_id),
        message !is ChannelClosed ==> step is Ignored,
{
}

/// Whether two states know the same about a name.
pub open spec fn same_about(before: UserView, after: UserView, name: Seq<char>) -> bool {
    &&& after.balances.dom().contains(name) == before.balances.dom().contains(name)
    &&& after.balances[name] == before.balances[name]
    &&& after.commitments.dom().contains(name) == before.commitments.dom().contains(name)
    &&& after.commitments[name] == before.commitments[name]
    &&& after.pks.dom().contains(name) == before.pks.dom().contains(name)
    &&& after.pks[name] == before.pks[name]
}

/// Syncing gives every participant the announced balance, the last one where a name comes twice, and
/// the announced key and commitment where both can be read; nobody else is touched, and neither is
/// anything that the user has.
pub proof fn syncing_lists_the_participants(
    before: UserView,
    participants: Seq<(String, String, String, u64)>,
)
    ensures
        synced(before, participants).order.len() == participants.len(),
        forall|i: int|
            0 <= i < participants.len() ==> #[trigger] synced(before, participants).order[i]
                == participants[i].0@,
        forall|i: int|
            0 <= i < participants.len() && (forall|j: int|
                i < j < participants.len() ==> participants[j].0@ != participants[i].0@) ==> {
                let (name, pk_hex, comm_hex, balance) = #[trigger] participants[i];
                let after = synced(before, participants);
                &&& after.balances.dom().contains(name@)
                &&& after.balances[name@] == balance
                &&& g2_of_hex(pk_hex@) is Some && g1_of_hex(comm_hex@) is Some ==> {
                    &&& after.pks.dom().contains(name@)
                    &&& after.commitments.dom().contains(name@)
                    &&& Some(after.pks[name@]) == g2_of_hex(pk_hex@)
                    &&& Some(after.commitments[name@]) == g1_of_hex(comm_hex@)
                }
            },
        forall|name: Seq<char>|
            (forall|i: int| 0 <= i < participants.len() ==> participants[i].0@ != name)
                ==> #[trigger] same_about(before, synced(before, participants), name),
        ({
            let after = synced(before, participants);
            &&& after.name == before.name
            &&& after.channel_id == before.channel_id
            &&& after.pp == before.pp
            &&& after.sk == before.sk
            &&& after.pk == before.pk
            &&& after.balance == before.balance
            &&& after.r == before.r
            &&& after.comm == before.comm
            &&& after.current_tx_id == before.current_tx_id
            &&& after.finalized == before.finalized
            &&& after.history == before.history
        }),
    decreases participants.len(),
{
    if participants.len() > 0 {
        let head = participants.drop_last();
        let last = participants.len() - 1;
        syncing_lists_the_participants(before, head);
        assert forall|i: int|
            0 <= i < participants.len() && (forall|j: int|
                i < j < participants.len() ==> participants[j].0@ != participants[i].0@) implies {
            let (name, pk_hex, comm_hex, balance) = #[trigger] participants[i];
            let after = synced(before, participants);
            &&& after.balances.dom().contains(name@)
            &&& after.balances[name@] == balance
            &&& g2_of_hex(pk_hex@) is Some && g1_of_hex(comm_hex@) is Some ==> {
                &&& after.pks.dom().contains(name@)
                &&& after.commitments.dom().contains(name@)
                &&& Some(after.pks[name@]) == g2_of_hex(pk_hex@)
                &&& Some(after.commitments[name@]) == g1_of_hex(comm_hex@)
            }
        } by {
            if i < last {
                assert(head[i] == participants[i]);
                assert(participants[last].0@ != participants[i].0@);
                assert forall|j: int| i < j < head.len() implies head[j].0@ != head[i].0@ by {
                    assert(head[j] == participants[j]);
                }
            }
        }
        assert forall|name: Seq<char>|
            (forall|i: int| 0 <= i < participants.len() ==> participants[i].0@
                != name) implies #[trigger] same_about(
            before,
            synced(before, participants),
            name,
        ) by {
            assert forall|i: int| 0 <= i < head.len() implies head[i].0@ != name by {
                assert(head[i] == participants[i]);
            }
            assert(participants[last].0@ != name);
            assert(same_about(before, synced(before, head), name));
        }
    }
}

/// A message to all that announces the participants is synced with.
pub proof fn participants_are_synced_with(
    before: UserView,
    after: UserView,
    message: NetworkMessage,
    step: BroadcastStep,
)
    requires
        is_broadcast_step(before, after, message, step),
    ensures
        message matches NetworkMessage::ChannelFinalized { participants, .. } ==> step is Synced
            && after == synced(before, participants@),
{
}

/// A user answers votes and payments and nothing else: a request for a vote is voted on with every part
/// of it, and a notice of a payment is decided on with every part of it.
pub proof fn peers_are_heard(
    before: UserView,
    after: UserView,
    message: NetworkMessage,
    step: PeerStep,
    ballot: Ballot,
    notice: PaymentNotice,
)
    requires
        is_peer_step(before, after, message, step),
        message matches NetworkMessage::VoteRequest {
            tx_id,
            proposer_name,
            tx_amount_comm_hex,
            range_proof_b64,
            proof_comm_value_b64,
            sender_new_comm_hex,
            sender_old_comm_hex,
            receiver_new_comm_hex,
            receiver_old_comm_hex,
            prev_tx_id,
            prev_aggregated_sig_hex,
        } ==> {
            &&& tx_id == ballot.tx_id
            &&& proposer_name == ballot.proposer_name
            &&& tx_amount_comm_hex == ballot.tx_amount_comm_hex
            &&& range_proof_b64 == ballot.range_proof_b64
            &&& proof_comm_value_b64 == ballot.proof_comm_value_b64
            &&& sender_new_comm_hex == ballot.sender_new_comm_hex
            &&& sender_old_comm_hex == ballot.sender_old_comm_hex
            &&& receiver_new_comm_hex == ballot.receiver_new_comm_hex
            &&& receiver_old_comm_hex == ballot.receiver_old_comm_hex
            &&& prev_tx_id == ballot.prev_tx_id
            &&& prev_aggregated_sig_hex == ballot.prev_aggregated_sig_hex
        },
        message matches NetworkMessage::P2PUpdateReq {
            tx_id,
            amount,
            commitment_hex,
            range_proof_b64,
            comm_value_b64,
            blinded_tx_point_hex,
        } ==> {
            &&& tx_id == notice.tx_id
            &&& amount == notice.amount
            &&& commitment_hex == notice.commitment_hex
            &&& range_proof_b64 == notice.range_proof_b64
            &&& comm_value_b64 == notice.comm_value_b64
            &&& blinded_tx_point_hex == notice.blinded_tx_point_hex
        },
    ensures
        message is VoteRequest ==> (step matches PeerStep::Answer { reply } && is_vote_outcome(
            before,
            after,
            ballot,
            reply,
        )),
        message is P2PUpdateReq ==> is_payment_outcome(before, after, notice, step),
        message !is VoteRequest && message !is P2PUpdateReq ==> step is Silent && after == before,
{
}

/// The commitments that a user signs to close the channel: those of the names in order, the names
/// without one passed over.
pub proof fn closing_signs_commitments_in_order(
    order: Seq<Seq<char>>,
    commitments: Map<Seq<char>, Seq<u64>>,
)
    ensures
        commitments_in_order(order, commitments) == order.filter(
            |name: Seq<char>| commitments.dom().contains(name),
        ).map_values(|name: Seq<char>| g1_compressed(commitments[name])).flatten(),
    decreases order.len(),
{
    let known = |name: Seq<char>| commitments.dom().contains(name);
    let encoded = |name: Seq<char>| g1_compressed(commitments[name]);
    reveal(Seq::filter);
    if order.len() == 0 {
        assert(order.filter(known).map_values(encoded) =~= Seq::<Seq<u8>>::empty());
        assert(Seq::<Seq<u8>>::empty().flatten() =~= Seq::<u8>::empty());
    } else {
        let head = order.drop_last();
        closing_signs_commitments_in_order(head, commitments);
        let parts = head.filter(known).map_values(encoded);
        if known(order.last()) {
            let all = order.filter(known).map_values(encoded);
            assert(all =~= parts.push(encoded(order.last())));
            parts.lemma_flatten_push(encoded(order.last()));
        } else {
            assert(order.filter(known) =~= head.filter(known));
        }
    }
}

/// What a user signs to close the channel: the identifier of the channel, 32 bytes that stand for the
/// number of the last payment, and the commitments in order.
pub proof fn closing_signs_the_state(node: &UserNode, message: Vec<u8>)
    requires
        call_ensures(UserNode::close_message, (node,), message),
        node@.channel_id.len() == 32,
    ensures
        message@.len() >= 64,
        message@.take(32) == node@.channel_id,
        be_value(message@.subrange(32, 64)) == node@.current_tx_id,
        message@.skip(64) == node@.order.filter(
            |name: Seq<char>| node@.commitments.dom().contains(name),
        ).map_values(|name: Seq<char>| g1_compressed(node@.commitments[name])).flatten(),
{
    let n = node@.current_tx_id as nat;
    crate::encoding::be_bytes_len(n, 32);
    crate::encoding::sixty_four_bits_fit(node@.current_tx_id);
    closing_signs_commitments_in_order(node@.order, node@.commitments);
    assert(message@.take(32) =~= node@.channel_id);
    assert(message@.subrange(32, 64) =~= be_bytes(n, 32));
    assert(message@.skip(64) =~= commitments_in_order(node@.order, node@.commitments));
}

/// A request to close brings the name, the channel, the last payment, the signature of the bytes that
/// close the channel, and the balances that the user knows: each of them once, and no others.
pub proof fn close_request_brings_the_state(
    node: &UserNode,
    request: NetworkMessage,
    message: Vec<u8>,
)
    requires
        call_ensures(UserNode::close_request, (node,), request),
        call_ensures(UserNode::close_message, (node,), message),
    ensures
        request matches NetworkMessage::CloseRequest {
            user_name,
            channel_id_hex,
            final_tx_id,
            signature_b64,
            final_balances,
        } && {
            &&& user_name@ == node@.name
            &&& channel_id_hex@ == hex_text(node@.channel_id)
            &&& final_tx_id == node@.current_tx_id
            &&& signature_b64@ == base64_text(
                g1_compressed(g1_times(g1_hash(message@, tag()), node@.sk)),
            )
            &&& balances_are_listed(final_balances@, node@.balances)
        },
{
    if let NetworkMessage::CloseRequest { final_balances, .. } = request {
        listing_is_exact(final_balances@, node@.balances);
    }
}

/// Whether a list holds each name of a map with its balance, each once, and nothing else.
pub open spec fn balances_are_listed(
    list: Seq<(String, u64)>,
    balances: Map<Seq<char>, u64>,
) -> bool {
    &&& forall|i: int|
        0 <= i < list.len() ==> balances.dom().contains((#[trigger] list[i]).0@)
            && balances[list[i].0@] == list[i].1
    &&& forall|i: int, j: int|
        0 <= i < j < list.len() ==> (#[trigger] list[i]).0@ != (#[trigger] list[j]).0@
    &&& forall|name: Seq<char>| #[trigger]
        balances.dom().contains(name) ==> exists|i: int|
            0 <= i < list.len() && (#[trigger] list[i]).0@ == name
}

/// A list of balances is exact.
proof fn listing_is_exact(list: Seq<(String, u64)>, balances: Map<Seq<char>, u64>)
    requires
        crate::network::user::lists_balances(list, balances),
    ensures
        balances_are_listed(list, balances),
{
    assert forall|i: int| 0 <= i < list.len() implies balances.dom().contains(
        (#[trigger] list[i]).0@,
    ) && balances[list[i].0@] == list[i].1 by {
        crate::names::place_of_first(list, list[i].0@, i);
        assert(balances.dom().contains(list[i].0@));
    }
    assert forall|name: Seq<char>| #[trigger] balances.dom().contains(name) implies exists|i: int|
        0 <= i < list.len() && (#[trigger] list[i]).0@ == name by {
        crate::names::place_of_bounds(list, name);
        assert(list[crate::names::place_of(list, name)].0@ == name);
    }
}

/// The balances that a user shows are those that the user knows.
pub proof fn shown_balances_are_known(node: &UserNode, list: Vec<(String, u64)>)
    requires
        call_ensures(UserNode::balances, (node,), list),
    ensures
        balances_are_listed(list@, node@.balances),
{
    listing_is_exact(list@, node@.balances);
}

/// A user starts with the deposit as balance and a commitment to it, with a key pair under the shared
/// parameters, and knows of nobody and of no payment but the payment zero.
pub proof fn user_starts_with_the_deposit(
    name: String,
    channel_id: [u8; 32],
    deposit: u64,
    node: UserNode,
)
    requires
        call_ensures(UserNode::start, (name, channel_id, deposit), node),
    ensures
        node@.name == name@,
        node@.channel_id == channel_id@,
        node@.pp.standard(),
        node@.pk == g2_times(node@.pp.g2@, node@.sk),
        node@.balance == deposit,
        node@.comm == g1_sum(
            g1_times(node@.pp.g1@, deposit as int),
            g1_times(node@.pp.h@, node@.r),
        ),
        node@.current_tx_id == 0,
        node@.order.len() == 0,
        forall|n: Seq<char>|
            !(#[trigger] node@.balances.dom().contains(n)) && !node@.commitments.dom().contains(n)
                && !node@.pks.dom().contains(n),
        forall|tx: u64| #[trigger] node@.finalized.contains(tx) <==> tx == 0,
        forall|tx: u64| !#[trigger] node@.history.dom().contains(tx),
{
}

/// The identifier of a channel is read from its 64 hexadecimal digits of either case, however many `0x`
/// stand before them and whatever white space around. Nothing else is read: what has other characters,
/// or an odd number of digits, is not hexadecimal, and what has another number of digits has the wrong
/// length.
pub proof fn channel_identifier_is_read(line: &str, res: Result<[u8; 32], ChannelIdError>)
    requires
        call_ensures(parse_channel_id, (line,), res),
    ensures
        ({
            let digits = without_0x(trimmed_end(trimmed_start(line@)));
            match res {
                Ok(id) => hex_decodes(digits) && digits.len() == 64 && id@ == hex_bytes(digits),
                Err(ChannelIdError::NotHex) => !hex_decodes(digits),
                Err(ChannelIdError::WrongLength) => hex_decodes(digits) && digits.len() != 64,
            }
        }),
{
    let digits = without_0x(trimmed_end(trimmed_start(line@)));
    if let Ok(id) = res {
        assert(id@.len() == 32);
        assert(hex_bytes(digits).len() == 32);
    }
}

/// The identifier of a channel is read back from its text, with or without `0x` before it and with white
/// space around.
#[verifier::rlimit(40)]
pub proof fn channel_identifier_is_read_back(
    id: [u8; 32],
    before: Seq<char>,
    after: Seq<char>,
    prefixed: bool,
    line: &str,
    res: Result<[u8; 32], ChannelIdError>,
)
    requires
        forall|i: int| 0 <= i < before.len() ==> is_white_space(#[trigger] before[i]),
        forall|i: int| 0 <= i < after.len() ==> is_white_space(#[trigger] after[i]),
        line@ == before + (if prefixed {
            seq!['0', 'x'] + hex_text(id@)
        } else {
            hex_text(id@)
        }) + after,
        call_ensures(parse_channel_id, (line,), res),
    ensures
        res matches Ok(read) && read@ == id@,
{
    let digits = hex_text(id@);
    let text = if prefixed {
        seq!['0', 'x'] + digits
    } else {
        digits
    };
    hex_round_trip(id@);
    assert(id@.len() == 32);
    assert(digits.len() == 64);
    assert(hex_digit_value(digits[0]) is Some);
    assert(hex_digit_value(digits[1]) is Some);
    assert(hex_digit_value(digits[63]) is Some);
    assert(text.last() == digits[63]);
    assert(!is_white_space(text[0]));
    assert(!is_white_space(text.last()));
    trimming_undoes_padding(before, text, after);
    one_more_prefix_is_taken_off(digits);
    assert(digits[1] != 'x');
    channel_identifier_is_read(line, res);
}

/// A line is understood by its words: no word is no command, `balance` and `close` are what they say
/// whatever follows, `pay` with three more words pays the second word the amount of the third under the
/// number of the fourth, ten and one where these are no numbers, `pay` with fewer words asks for them,
/// and any other first word is unknown.
pub proof fn commands_are_understood(line: &str, command: Command)
    requires
        call_ensures(parse_command, (line,), command),
    ensures
        ({
            let parts = words_of(line@);
            &&& parts.len() == 0 ==> command is Empty
            &&& parts.len() > 0 && parts[0] == "balance"@ ==> command is Balance
            &&& parts.len() > 0 && parts[0] == "close"@ ==> command is Close
            &&& 0 < parts.len() < 4 && parts[0] == "pay"@ ==> command is PayUsage
            &&& parts.len() >= 4 && parts[0] == "pay"@ ==> (command matches Command::Pay {
                target,
                amount,
                tx_id,
            } && {
                &&& target@ == parts[1]
                &&& match u64_of(parts[2]) {
                    Some(n) => amount == n,
                    None => amount == 10,
                }
                &&& match u64_of(parts[3]) {
                    Some(n) => tx_id == n,
                    None => tx_id == 1,
                }
            })
            &&& parts.len() > 0 && parts[0] != "balance"@ && parts[0] != "close"@ && parts[0]
                != "pay"@ ==> command is Unknown
        }),
{
    reveal_strlit("balance");
    reveal_strlit("close");
    reveal_strlit("pay");
    assert("balance"@.len() == 7 && "close"@.len() == 5 && "pay"@.len() == 3);
}

/// The deposit is what was asked for wherever it fits into 64 bits, and ten where nothing was asked for.
pub proof fn deposit_is_what_was_asked_for(asked: Option<u128>, res: Option<u64>)
    requires
        call_ensures(deposit_amount, (asked,), res),
    ensures
        match (asked, res) {
            (Some(amount), Some(deposit)) => deposit as int == amount as int,
            (Some(amount), None) => amount as int > 0xffff_ffff_ffff_ffff,
            (None, Some(deposit)) => deposit == 10,
            (None, None) => false,
        },
{
}

/// A close request counts as accepted exactly where the answer says that its status is `OK`.
pub proof fn closing_is_accepted_with_ok(answer: &str, res: bool)
    requires
        call_ensures(close_accepted, (answer,), res),
    ensures
        res <==> exists|before: Seq<char>, after: Seq<char>|
            answer@ == #[trigger] (before + "\"status\":\"OK\""@ + after),
{
    let part = "\"status\":\"OK\""@;
    if res {
        let i = choose|i: int| stands_at(answer@, part, i);
        let before = answer@.take(i);
        let after = answer@.skip(i + part.len());
        assert(answer@ =~= before + part + after);
    }
    if exists|before: Seq<char>, after: Seq<char>| answer@ == #[trigger] (before + part + after) {
        let (before, after) = choose|before: Seq<char>, after: Seq<char>|
            answer@ == #[trigger] (before + part + after);
        let i = before.len() as int;
        assert(answer@.subrange(i, i + part.len()) =~= part);
        assert(stands_at(answer@, part, i));
    }
}

/// Syncing makes the state what the announced participants make of it.
pub proof fn syncing_goes_by_the_participants(
    node: &mut UserNode,
    participants: &Vec<(String, String, String, u64)>,
)
    requires
        call_ensures(UserNode::sync, (node, participants), ()),
    ensures
        final(node)@ == synced(old(node)@, participants@),
{
}

/// A message to all is taken note of as what is said here of messages to all.
pub proof fn broadcasts_are_taken_note_of(
    node: &mut UserNode,
    message: NetworkMessage,
    step: BroadcastStep,
)
    requires
        call_ensures(UserNode::handle_broadcast, (node, message), step),
    ensures
        is_broadcast_step(old(node)@, final(node)@, message, step),
{
}

/// A payment is taken with the verdict and the key pair that are given, and without them with a verdict
/// that verification can give and a key pair of the parameters.
pub proof fn payments_are_taken_with_the_verdict(
    node: &mut UserNode,
    other: &mut UserNode,
    notice: &PaymentNotice,
    accepted: bool,
    ephemeral: KeyPair,
    given: PeerStep,
    drawn: PeerStep,
)
    requires
        call_ensures(UserNode::take_payment_with, (node, notice, accepted, ephemeral), given),
        call_ensures(UserNode::take_payment, (other, notice), drawn),
    ensures
        is_receipt(old(node)@, final(node)@, *notice, accepted, ephemeral, given),
        exists|accepted: bool, ephemeral: KeyPair|
            {
                &&& ephemeral.pk@ == g2_times(old(other)@.pp.g2@, ephemeral.sk@)
                &&& is_drawn(ephemeral.sk@)
                &&& #[trigger] is_proof_verdict(
                    accepted,
                    notice.range_proof_b64@,
                    notice.comm_value_b64@,
                    old(other)@.pp,
                )
                &&& #[trigger] is_receipt(
                    old(other)@,
                    final(other)@,
                    *notice,
                    accepted,
                    ephemeral,
                    drawn,
                )
            },
{
}

/// A vote is cast with the verdict that is given, and without one with a verdict that verification can
/// give.
pub proof fn votes_are_cast_with_the_verdict(
    node: &mut UserNode,
    other: &mut UserNode,
    ballot: &Ballot,
    accepted: bool,
    given: NetworkMessage,
    drawn: NetworkMessage,
)
    requires
        call_ensures(UserNode::vote_with, (node, ballot, accepted), given),
        call_ensures(UserNode::vote, (other, ballot), drawn),
    ensures
        is_vote(old(node)@, final(node)@, *ballot, accepted, given),
        exists|accepted: bool|
            #[trigger] is_proof_verdict(
                accepted,
                ballot.range_proof_b64@,
                ballot.proof_comm_value_b64@,
                old(other)@.pp,
            ) && is_vote(old(other)@, final(other)@, *ballot, accepted, drawn),
{
}

/// A message from another node is decided on as what is said here of such messages.
pub proof fn peer_messages_are_decided_on(
    node: &mut UserNode,
    message: NetworkMessage,
    step: PeerStep,
)
    requires
        call_ensures(UserNode::handle_peer, (node, message), step),
    ensures
        is_peer_step(old(node)@, final(node)@, message, step),
{
}

/// An order to pay is carried out for its own number and amount: with the scalars and the outcome of
/// proving that are given, and without them with those that are drawn.
pub proof fn orders_are_carried_out(
    node: &mut UserNode,
    other: &mut UserNode,
    tx_id: u64,
    amount: u64,
    r_m: Fr,
    blinding: Fr,
    proving: Result<(String, String), String>,
    given: PayStep,
    drawn: PayStep,
)
    requires
        old(node)@.balance >= amount,
        call_ensures(
            UserNode::prepare_payment_with,
            (node, tx_id, amount, r_m, blinding, proving),
            given,
        ),
        call_ensures(UserNode::prepare_payment, (other, tx_id, amount), drawn),
    ensures
        is_pay_step(old(node)@, final(node)@, tx_id, amount, r_m, blinding, proving, given),
        is_pay_outcome(old(other)@, final(other)@, tx_id, amount, drawn),
        drawn matches PayStep::Prepared { payment } ==> is_drawn(payment.blinding@) && exists|
            r_m: Fr,
        |
            is_drawn(r_m@) && payment.commitment_hex@ == hex_text(
                g1_compressed(
                    g1_sum(
                        g1_times(old(other)@.pp.g1@, amount as int),
                        #[trigger] g1_times(old(other)@.pp.h@, r_m@),
                    ),
                ),
            ),
{
    if drawn is Prepared {
        let (r_m, blinding, proving) = choose|
            r_m: Fr,
            blinding: Fr,
            proving: Result<(String, String), String>,
        |
            {
                &&& is_drawn(r_m@)
                &&& is_drawn(blinding@)
                &&& #[trigger] is_pay_step(
                    old(other)@,
                    final(other)@,
                    tx_id,
                    amount,
                    r_m,
                    blinding,
                    proving,
                    drawn,
                )
            };
        assert(drawn->payment.commitment_hex@ == hex_text(
            g1_compressed(
                g1_sum(
                    g1_times(old(other)@.pp.g1@, amount as int),
                    g1_times(old(other)@.pp.h@, r_m@),
                ),
            ),
        ));
    }
}

/// The answer of a payee is worked on with the key pair that is given, and without one with a key pair
/// of the parameters; the amount that is shown is the one to be disclosed.
pub proof fn answers_are_worked_on(
    node: &UserNode,
    payment: &PendingPayment,
    target: &str,
    disclosed: u64,
    response: NetworkMessage,
    ephemeral: KeyPair,
    given: CompletionStep,
    drawn: CompletionStep,
)
    requires
        call_ensures(
            UserNode::complete_payment_with,
            (node, payment, target, disclosed, response, ephemeral),
            given,
        ),
        call_ensures(
            UserNode::complete_payment,
            (node, payment, target, disclosed, response),
            drawn,
        ),
    ensures
        is_completion(node@, *payment, target@, disclosed, response, ephemeral, given),
        exists|ephemeral: KeyPair|
            {
                &&& ephemeral.pk@ == g2_times(node@.pp.g2@, ephemeral.sk@)
                &&& is_drawn(ephemeral.sk@)
                &&& #[trigger] is_completion(
                    node@,
                    *payment,
                    target@,
                    disclosed,
                    response,
                    ephemeral,
                    drawn,
                )
            },
        drawn matches CompletionStep::Propose { proposal } ==> proposal is UpdateProposal
            && proposal->UpdateProposal_amount == disclosed && proposal->UpdateProposal_tx_id
            == payment.tx_id && proposal->UpdateProposal_counterparty_name@ == target@,
{
}

/// A new user has what the user is made with, and nothing of others.
pub proof fn new_user_has_what_was_given(
    name: String,
    channel_id: [u8; 32],
    deposit: u64,
    pp: SharedParameters,
    keys: KeyPair,
    r: Fr,
    node: UserNode,
    balance: u64,
    tx_id: u64,
)
    requires
        call_ensures(UserNode::new, (name, channel_id, deposit, pp, keys, r), node),
        call_ensures(UserNode::balance, (&node,), balance),
        call_ensures(UserNode::current_tx_id, (&node,), tx_id),
    ensures
        balance == deposit,
        tx_id == 0,
        node@.name == name@,
        node@.channel_id == channel_id@,
        node@.sk == keys.sk@,
        node@.pk == keys.pk@,
        node@.r == r@,
        node@.comm == g1_sum(g1_times(pp@.g1@, deposit as int), g1_times(pp@.h@, r@)),
        node@.order.len() == 0,
        forall|other: Seq<char>|
            !(#[trigger] node@.pks.dom().contains(other))
                && !node@.commitments.dom().contains(other)
                && !node@.balances.dom().contains(other),
        forall|tx: u64| #[trigger] node@.finalized.contains(tx) <==> tx == 0,
        forall|tx: u64| !(#[trigger] node@.history.dom().contains(tx)),
{
}

/// What a user shows is what the user has.
pub proof fn user_shows_the_state(node: &UserNode, balance: u64, tx_id: u64)
    requires
        call_ensures(UserNode::balance, (node,), balance),
        call_ensures(UserNode::current_tx_id, (node,), tx_id),
    ensures
        balance == node@.balance,
        tx_id == node@.current_tx_id,
{
}

/// A user starts with a secret key and a blinding scalar that are drawn at random.
pub proof fn secrets_are_drawn(name: String, channel_id: [u8; 32], deposit: u64, node: UserNode)
    requires
        call_ensures(UserNode::start, (name, channel_id, deposit), node),
    ensures
        is_drawn(node@.sk),
        is_drawn(node@.r),
{
}

} // verus!
