//! What holds of the nodes together: of a payment from the payer over the payee to the vote.
use crate::config::{is_configured, ActorConfig};
use crate::crypto::backend::{g1_at, g1_compressed, g1_in_group, g1_times, g2_at, group_order};
use crate::crypto::blind::{scaled, unblinded_is_accepted, BlindedMessage};
use crate::crypto::commitment::{commitment_to, opens};
use crate::crypto::common::PP;
use crate::crypto::multisig::{is_verdict, message_point, signature_is_accepted, KeyPair};
use crate::crypto::range_proof::{
    generated_proof_is_accepted, holds_neutral_point, is_proof_outcome, is_proof_verdict,
    proof_commitment_is_commitment, proof_decodes, proof_holds,
};
use crate::crypto::wrapper::{g1_hex, g1_of_hex, g2_of_hex, readable, Fr};
use crate::encoding::{base64_bytes, base64_round_trip, base64_text, hex_text};
use crate::network::message::{participant_texts, NetworkMessage};
use crate::network::operator::{
    announced_users, consistent, has_joined, is_conclusion, is_ingress_step, joined, Conclusion,
    IngressStep, OperatorView, Proposal,
};
use crate::network::user::{
    ballot_bytes, close_bytes, is_broadcast_step, is_close_request, is_inverse, is_join_request,
    is_pay_step, is_receipt, is_vote, ledger_agrees, synced, syncing_keeps_balance, vote_granted,
    Ballot, BroadcastStep, PayStep, PaymentNotice, PeerStep, PendingPayment, UserView,
};
use vstd::prelude::*;

verus! {

/// Whether a payee gets to see a payment as the payer announces it.
pub open spec fn announces(payment: PendingPayment, notice: PaymentNotice) -> bool {
    &&& notice.tx_id == payment.tx_id
    &&& notice.amount == payment.amount
    &&& notice.commitment_hex@ == payment.commitment_hex@
    &&& notice.range_proof_b64@ == payment.range_proof_b64@
    &&& notice.comm_value_b64@ == payment.comm_value_b64@
    &&& notice.blinded_tx_point_hex@ == payment.blinded_point_hex@
}

/// Whether a payment has gone from the payer to the payee: it was taken off the balance of the one,
/// announced, and put onto that of the other.
pub open spec fn is_transfer(
    payer_before: UserView,
    payer_after: UserView,
    payee_before: UserView,
    payee_after: UserView,
    payment: PendingPayment,
    notice: PaymentNotice,
    r_m: Fr,
    proving: Result<(String, String), String>,
    ephemeral: KeyPair,
    consent: NetworkMessage,
) -> bool {
    &&& payer_before.balance >= payment.amount
    &&& is_pay_step(
        payer_before,
        payer_after,
        payment.tx_id,
        payment.amount,
        r_m,
        payment.blinding,
        proving,
        PayStep::Prepared { payment },
    )
    &&& announces(payment, notice)
    &&& is_receipt(
        payee_before,
        payee_after,
        notice,
        true,
        ephemeral,
        PeerStep::Answer { reply: consent },
    )
}

/// A transfer moves the amount from the one balance to the other.
pub proof fn transfer_moves_amount(
    payer_before: UserView,
    payer_after: UserView,
    payee_before: UserView,
    payee_after: UserView,
    payment: PendingPayment,
    notice: PaymentNotice,
    r_m: Fr,
    proving: Result<(String, String), String>,
    ephemeral: KeyPair,
    consent: NetworkMessage,
)
    requires
        is_transfer(
            payer_before,
            payer_after,
            payee_before,
            payee_after,
            payment,
            notice,
            r_m,
            proving,
            ephemeral,
            consent,
        ),
    ensures
        payer_after.balance == payer_before.balance - payment.amount,
        payee_after.balance == payee_before.balance + payment.amount,
        payer_after.balance + payee_after.balance == payer_before.balance + payee_before.balance,
{
}

/// Whether a ballot asks for votes on a transfer, with the commitments of the two parties before and
/// after it.
pub open spec fn is_ballot_on(
    ballot: Ballot,
    payment: PendingPayment,
    payer_before: UserView,
    payer_after: UserView,
    payee_before: UserView,
    payee_after: UserView,
) -> bool {
    &&& ballot.tx_id == payment.tx_id
    &&& ballot.proposer_name@ == payer_before.name
    &&& ballot.tx_amount_comm_hex@ == payment.commitment_hex@
    &&& ballot.range_proof_b64@ == payment.range_proof_b64@
    &&& ballot.proof_comm_value_b64@ == payment.comm_value_b64@
    &&& ballot.sender_old_comm_hex@ == g1_hex(payer_before.comm)
    &&& ballot.sender_new_comm_hex@ == g1_hex(payer_after.comm)
    &&& ballot.receiver_old_comm_hex@ == g1_hex(payee_before.comm)
    &&& ballot.receiver_new_comm_hex@ == g1_hex(payee_after.comm)
}

/// A transfer gets the vote of everyone who knows the old commitment of the payer and accepts the
/// range proof, if the old commitments of the parties are in the group and can be read.
pub proof fn transfer_gets_vote(
    payer_before: UserView,
    payer_after: UserView,
    payee_before: UserView,
    payee_after: UserView,
    payment: PendingPayment,
    notice: PaymentNotice,
    r_m: Fr,
    proving: Result<(String, String), String>,
    ephemeral: KeyPair,
    consent: NetworkMessage,
    ballot: Ballot,
    voter: UserView,
)
    requires
        is_transfer(
            payer_before,
            payer_after,
            payee_before,
            payee_after,
            payment,
            notice,
            r_m,
            proving,
            ephemeral,
            consent,
        ),
        is_ballot_on(ballot, payment, payer_before, payer_after, payee_before, payee_after),
        g1_in_group(payer_before.comm),
        g1_in_group(payee_before.comm),
        readable(payer_before.comm),
        readable(payee_before.comm),
        voter.commitments.dom().contains(payer_before.name),
        voter.commitments[payer_before.name] == payer_before.comm,
    ensures
        vote_granted(voter, ballot, true),
{
    let amount = commitment_to(payment.amount as int, r_m@, payer_before.pp);
    let v = choose|v: int| g1_at(payer_before.comm, v);
    let w = choose|w: int| g1_at(payee_before.comm, w);
    let g = choose|g: int| g1_at(payer_before.pp.g1@, g);
    let h = choose|h: int| g1_at(payer_before.pp.h@, h);
    let m = g * payment.amount as int + h * r_m@;
    assert(g1_at(amount, m));
    assert(g1_at(payer_after.comm, v - m));
    assert(g1_at(payee_after.comm, w + m));
}

/// The unblinded signature of the payee is accepted for the range proof of the payment under the key
/// that the payee signed with, unless the blinding scalar is zero.
pub proof fn payee_signature_is_accepted(
    payer_before: UserView,
    payer_after: UserView,
    payee_before: UserView,
    payee_after: UserView,
    payment: PendingPayment,
    notice: PaymentNotice,
    r_m: Fr,
    proving: Result<(String, String), String>,
    ephemeral: KeyPair,
    consent: NetworkMessage,
    k: int,
    sigma: Seq<u64>,
    pp: PP,
    accepted: bool,
)
    requires
        is_transfer(
            payer_before,
            payer_after,
            payee_before,
            payee_after,
            payment,
            notice,
            r_m,
            proving,
            ephemeral,
            consent,
        ),
        pp.standard(),
        ephemeral.belongs_to(pp),
        payment.blinding@ != 0,
        is_inverse(payment.blinding@, k),
        consent matches NetworkMessage::P2PUpdateResp { blinded_signature_hex: Some(sig_hex), .. }
            && g1_of_hex(sig_hex@) matches Some(blinded_sig) && scaled(blinded_sig, k, sigma),
        is_verdict(
            accepted,
            sigma,
            ephemeral.pk@,
            base64_bytes(payment.range_proof_b64@).unwrap(),
            pp,
        ),
    ensures
        accepted,
{
    let msg = base64_bytes(payment.range_proof_b64@).unwrap();
    let blinded = choose|blinded: BlindedMessage|
        {
            &&& #[trigger] blinded.hides(msg)
            &&& blinded.r == payment.blinding
            &&& payment.blinded_point_hex@ == g1_hex(blinded.point@)
            &&& readable(blinded.point@)
        };
    let x = ephemeral.sk@;
    let blinded_sig = g1_times(blinded.point@, x);
    let m = choose|m: int| g1_at(message_point(msg), m);
    assert(g1_at(blinded.point@, m * payment.blinding@));
    assert(g1_at(blinded_sig, m * payment.blinding@ * x));
    unblinded_is_accepted(
        msg,
        blinded,
        x,
        ephemeral.pk@,
        blinded_sig,
        k,
        sigma,
        pp,
        accepted,
    );
}

/// A vote in favour is the signature of the range proof of the payment, and is accepted under the
/// public key of the voter.
pub proof fn vote_is_accepted(
    before: UserView,
    after: UserView,
    ballot: Ballot,
    reply: NetworkMessage,
    sigma: Seq<u64>,
    accepted: bool,
)
    requires
        is_vote(before, after, ballot, true, reply),
        before.pp.standard(),
        g2_at(before.pk, before.sk),
        reply matches NetworkMessage::VoteResponse { sig_share_hex: Some(share_hex), .. }
            && g1_of_hex(share_hex@) == Some(sigma),
        is_verdict(accepted, sigma, before.pk, ballot_bytes(ballot), before.pp),
    ensures
        accepted,
{
    signature_is_accepted(
        sigma,
        before.sk,
        before.pk,
        ballot_bytes(ballot),
        before.pp,
        accepted,
    );
}

/// The signature of a close request is accepted for the bytes that it closes the channel with under
/// the public key of the user.
pub proof fn close_signature_is_accepted(
    state: UserView,
    request: NetworkMessage,
    accepted: bool,
)
    requires
        is_close_request(request, state),
        state.pp.standard(),
        g2_at(state.pk, state.sk),
        is_verdict(
            accepted,
            g1_times(message_point(close_bytes(state)), state.sk),
            state.pk,
            close_bytes(state),
            state.pp,
        ),
    ensures
        accepted,
{
    signature_is_accepted(
        g1_times(message_point(close_bytes(state)), state.sk),
        state.sk,
        state.pk,
        close_bytes(state),
        state.pp,
        accepted,
    );
}

/// Whether a user still has the commitment of the start: to the balance, hidden by the scalar that was
/// drawn for it.
pub open spec fn fresh(user: UserView) -> bool {
    &&& user.comm == commitment_to(user.balance as int, user.r, user.pp)
    &&& opens(user.comm, user.balance as int, user.r, user.pp)
}

/// What a user commits to is in the group.
proof fn opened_is_in_group(c: Seq<u64>, v: int, r: int, pp: PP)
    requires
        opens(c, v, r, pp),
    ensures
        g1_in_group(c),
{
    let g = choose|g: int| g1_at(pp.g1@, g);
    let h = choose|h: int| g1_at(pp.h@, h);
    assert(g1_at(c, g * v + h * r));
}

/// A user with a balance of 32 bits who has just started is let in, and the operator then has the
/// key, the address, the commitment and the balance of the user. Left out is a range proof that holds
/// the neutral point.
pub proof fn fresh_user_is_let_in(
    user: UserView,
    address: Seq<u8>,
    proving: Result<(String, String), String>,
    request: Result<NetworkMessage, String>,
    before: OperatorView,
    after: OperatorView,
    step: IngressStep,
)
    requires
        fresh(user),
        user.pp.standard(),
        before.pp.standard(),
        user.balance <= u32::MAX,
        is_proof_outcome(proving, user.balance, 0, user.r, user.pp),
        proving is Ok,
        !holds_neutral_point(base64_bytes(proving.unwrap().0@).unwrap()),
        is_join_request(user, address, proving, request),
        request is Ok,
        is_ingress_step(before, after, request.unwrap(), step),
    ensures
        after == joined(before, user.name, address, user.pk, user.comm, user.balance),
        step matches IngressStep::Reply { reply, wake } && reply.is_join_response(
            "OK"@,
            "Welcome"@,
            hex_text(before.channel_id),
        ) && wake == (after.keys.dom().len() == before.users.len()),
{
    opened_is_in_group(user.comm, user.balance as int, user.r, user.pp);
    proof_commitment_is_commitment(user.balance as int, user.r, user.pp);
    let (proof_b64, comm_b64) = proving.unwrap();
    let comm = g1_compressed(user.comm);
    assert(comm_b64@ == base64_text(comm));
    base64_round_trip(comm);
    assert forall|accepted: bool| #[trigger]
        is_proof_verdict(accepted, proof_b64@, base64_text(comm), before.pp) implies accepted by {
        assert forall|w: int| #[trigger]
            proof_holds(base64_bytes(proof_b64@).unwrap(), comm, before.pp, w) == proof_holds(
            base64_bytes(proof_b64@).unwrap(),
            comm,
            user.pp,
            w,
        ) by {}
        assert(is_proof_verdict(accepted, proof_b64@, comm_b64@, user.pp));
        generated_proof_is_accepted(proving, user.balance, 0, user.r, user.pp, accepted);
    }
}

/// The range proof of a transfer is accepted, where what is left to the payer has 32 bits and the
/// proof holds no neutral point.
pub proof fn transfer_proof_is_accepted(
    payer_before: UserView,
    payer_after: UserView,
    payee_before: UserView,
    payee_after: UserView,
    payment: PendingPayment,
    notice: PaymentNotice,
    r_m: Fr,
    proving: Result<(String, String), String>,
    ephemeral: KeyPair,
    consent: NetworkMessage,
    pp: PP,
    accepted: bool,
)
    requires
        is_transfer(
            payer_before,
            payer_after,
            payee_before,
            payee_after,
            payment,
            notice,
            r_m,
            proving,
            ephemeral,
            consent,
        ),
        is_proof_outcome(
            proving,
            payer_before.balance,
            payment.amount,
            payer_before.r,
            payer_before.pp,
        ),
        payer_after.balance <= u32::MAX,
        !holds_neutral_point(base64_bytes(payment.range_proof_b64@).unwrap()),
        payer_before.pp.standard(),
        pp.standard(),
        is_proof_verdict(accepted, payment.range_proof_b64@, payment.comm_value_b64@, pp),
    ensures
        accepted,
{
    let (proof_b64, comm_b64) = proving.unwrap();
    assert(is_proof_verdict(accepted, proof_b64@, comm_b64@, payer_before.pp)) by {
        if proof_decodes(proof_b64@, comm_b64@) {
            let w = choose|w: int|
                0 <= w < group_order() && accepted == #[trigger] proof_holds(
                    base64_bytes(proof_b64@).unwrap(),
                    base64_bytes(comm_b64@).unwrap(),
                    pp,
                    w,
                );
            assert(accepted == proof_holds(
                base64_bytes(proof_b64@).unwrap(),
                base64_bytes(comm_b64@).unwrap(),
                payer_before.pp,
                w,
            ));
        }
    }
    generated_proof_is_accepted(
        proving,
        payer_before.balance,
        payment.amount,
        payer_before.r,
        payer_before.pp,
        accepted,
    );
}

/// Whether a user knows the commitments as the operator has them.
pub open spec fn agrees(user: UserView, operator: OperatorView) -> bool {
    forall|name: Seq<char>| #[trigger]
        operator.commitments.dom().contains(name) ==> user.commitments.dom().contains(name)
            && user.commitments[name] == operator.commitments[name]
}

/// Announcing a committed payment keeps the commitments that users know those that the operator has.
pub proof fn consensus_keeps_agreement(
    user_before: UserView,
    user_after: UserView,
    before: OperatorView,
    after: OperatorView,
    proposal: Proposal,
    votes: Seq<Option<String>>,
    announcement: NetworkMessage,
    step: BroadcastStep,
)
    requires
        agrees(user_before, before),
        is_conclusion(before, after, proposal, votes, Conclusion::Committed { announcement }),
        is_broadcast_step(user_before, user_after, announcement, step),
    ensures
        agrees(user_after, after),
        user_after.finalized.contains(proposal.tx_id),
        user_after.current_tx_id >= proposal.tx_id,
{
}

/// A committed transfer leaves the operator with the new commitments of the payer and the payee.
pub proof fn commit_records_transfer(
    payer_before: UserView,
    payer_after: UserView,
    payee_before: UserView,
    payee_after: UserView,
    payment: PendingPayment,
    notice: PaymentNotice,
    r_m: Fr,
    proving: Result<(String, String), String>,
    ephemeral: KeyPair,
    consent: NetworkMessage,
    before: OperatorView,
    after: OperatorView,
    proposal: Proposal,
    votes: Seq<Option<String>>,
    announcement: NetworkMessage,
)
    requires
        is_transfer(
            payer_before,
            payer_after,
            payee_before,
            payee_after,
            payment,
            notice,
            r_m,
            proving,
            ephemeral,
            consent,
        ),
        g1_in_group(payer_after.comm),
        g1_in_group(payee_after.comm),
        payer_before.name != payee_before.name,
        proposal.tx_id == payment.tx_id,
        proposal.user_name@ == payer_before.name,
        proposal.counterparty_name@ == payee_before.name,
        proposal.sender_new_comm_hex@ == payment.new_comm_hex@,
        consent matches NetworkMessage::P2PUpdateResp { receiver_new_comm_hex: Some(comm_hex), .. }
            && proposal.receiver_new_comm_hex@ == comm_hex@,
        is_conclusion(before, after, proposal, votes, Conclusion::Committed { announcement }),
    ensures
        after.commitments[payer_before.name] == payer_after.comm,
        after.commitments[payee_before.name] == payee_after.comm,
        after.finalized.contains(payment.tx_id),
{
}

/// Whether no two participants have one name.
pub open spec fn distinct_participants(
    participants: Seq<(Seq<char>, Seq<char>, Seq<char>, u64)>,
) -> bool {
    forall|i: int, j: int|
        0 <= i < j < participants.len() ==> (#[trigger] participants[i]).0 != (
        #[trigger] participants[j]).0
}

/// Whether no two users are configured with one name.
pub open spec fn distinct_users(users: Seq<ActorConfig>) -> bool {
    forall|i: int, j: int|
        0 <= i < j < users.len() ==> (#[trigger] users[i]).name@ != (#[trigger] users[j]).name@
}

/// After syncing a user knows the balance of every participant, and the commitment of every one whose
/// texts can be read.
proof fn synced_knows(
    before: UserView,
    participants: Seq<(String, String, String, u64)>,
    i: int,
)
    requires
        0 <= i < participants.len(),
        forall|j: int, k: int|
            0 <= j < k < participants.len() ==> (#[trigger] participants[j]).0@ != (
            #[trigger] participants[k]).0@,
    ensures
        g2_of_hex(participants[i].1@) is Some && g1_of_hex(participants[i].2@) is Some ==> {
            &&& synced(before, participants).commitments.dom().contains(participants[i].0@)
            &&& synced(before, participants).commitments[participants[i].0@] == g1_of_hex(
                participants[i].2@,
            ).unwrap()
        },
        synced(before, participants).balances.dom().contains(participants[i].0@),
        synced(before, participants).balances[participants[i].0@] == participants[i].3,
    decreases participants.len(),
{
    let head = participants.drop_last();
    if i < participants.len() - 1 {
        assert(head[i] == participants[i]);
        assert forall|j: int, k: int| 0 <= j < k < head.len() implies (#[trigger] head[j]).0@ != (
        #[trigger] head[k]).0@ by {
            assert(head[j] == participants[j] && head[k] == participants[k]);
        }
        synced_knows(before, head, i);
        assert(participants[i].0@ != participants[participants.len() - 1].0@);
    }
}

/// Everyone who has joined is announced, under the name in the configuration, and nobody else is.
proof fn joined_is_announced(state: OperatorView, users: Seq<ActorConfig>)
    requires
        distinct_users(users),
    ensures
        distinct_participants(announced_users(state, users)),
        forall|i: int|
            0 <= i < announced_users(state, users).len() ==> exists|k: int|
                0 <= k < users.len() && (#[trigger] users[k]).name@ == (
                #[trigger] announced_users(state, users)[i]).0,
        forall|k: int|
            0 <= k < users.len() && has_joined(state, (#[trigger] users[k]).name@) ==> exists|i: int|
                0 <= i < announced_users(state, users).len() && (
                #[trigger] announced_users(state, users)[i]) == (
                    users[k].name@,
                    hex_text(state.keys[users[k].name@]),
                    g1_hex(state.commitments[users[k].name@]),
                    state.balances[users[k].name@],
                ),
    decreases users.len(),
{
    if users.len() > 0 {
        let head = users.drop_last();
        let last = users.last();
        let listed = announced_users(state, head);
        let all = announced_users(state, users);
        assert forall|i: int, j: int| 0 <= i < j < head.len() implies (#[trigger] head[i]).name@
            != (#[trigger] head[j]).name@ by {
            assert(head[i] == users[i] && head[j] == users[j]);
        }
        joined_is_announced(state, head);
        assert forall|i: int| 0 <= i < listed.len() implies (#[trigger] listed[i]).0
            != last.name@ by {
            let k = choose|k: int|
                0 <= k < head.len() && (#[trigger] head[k]).name@ == listed[i].0;
            assert(users[k].name@ != users[users.len() - 1].name@);
        }
        assert forall|i: int, j: int| 0 <= i < j < all.len() implies (#[trigger] all[i]).0 != (
        #[trigger] all[j]).0 by {
            if j < listed.len() {
                assert(all[i] == listed[i] && all[j] == listed[j]);
            } else {
                assert(all[i] == listed[i]);
            }
        }
        assert forall|i: int| 0 <= i < all.len() implies exists|k: int|
            0 <= k < users.len() && (#[trigger] users[k]).name@ == (#[trigger] all[i]).0 by {
            if i < listed.len() {
                assert(all[i] == listed[i]);
                let k = choose|k: int|
                    0 <= k < head.len() && (#[trigger] head[k]).name@ == listed[i].0;
                assert(users[k].name@ == all[i].0);
            } else {
                assert(users[users.len() - 1].name@ == all[i].0);
            }
        }
        assert forall|k: int|
            0 <= k < users.len() && has_joined(state, (#[trigger] users[k]).name@) implies exists|i: int|
            0 <= i < all.len() && (#[trigger] all[i]) == (
                users[k].name@,
                hex_text(state.keys[users[k].name@]),
                g1_hex(state.commitments[users[k].name@]),
                state.balances[users[k].name@],
            ) by {
            if k < head.len() {
                assert(head[k] == users[k]);
                let i = choose|i: int|
                    0 <= i < listed.len() && (#[trigger] listed[i]) == (
                        head[k].name@,
                        hex_text(state.keys[head[k].name@]),
                        g1_hex(state.commitments[head[k].name@]),
                        state.balances[head[k].name@],
                    );
                assert(all[i] == listed[i]);
            } else {
                assert(all[listed.len() as int].0 == users[k].name@);
            }
        }
    }
}

/// The announcement of the participants leaves every user with the commitments that the operator has,
/// if everyone who joined is configured, under one name each, and the keys and commitments can be
/// read.
pub proof fn announcement_brings_agreement(
    operator: OperatorView,
    user_before: UserView,
    user_after: UserView,
    message: NetworkMessage,
    step: BroadcastStep,
)
    requires
        consistent(operator),
        distinct_users(operator.users),
        forall|name: Seq<char>| #[trigger]
            operator.keys.dom().contains(name) ==> {
                &&& is_configured(operator.users, name)
                &&& g2_of_hex(hex_text(operator.keys[name])) is Some
                &&& readable(operator.commitments[name])
            },
        message.is_channel_finalized(
            hex_text(operator.channel_id),
            announced_users(operator, operator.users),
        ),
        is_broadcast_step(user_before, user_after, message, step),
    ensures
        agrees(user_after, operator),
{
    if let NetworkMessage::ChannelFinalized { participants, .. } = message {
        let parts = participants@;
        let announced = announced_users(operator, operator.users);
        joined_is_announced(operator, operator.users);
        assert forall|i: int| 0 <= i < parts.len() implies participant_texts(#[trigger] parts[i])
            == announced[i] by {
            assert(parts.map_values(
                |p: (String, String, String, u64)| participant_texts(p),
            )[i] == participant_texts(parts[i]));
        }
        assert forall|j: int, k: int| 0 <= j < k < parts.len() implies (#[trigger] parts[j]).0@
            != (#[trigger] parts[k]).0@ by {
            assert(announced[j].0 != announced[k].0);
        }
        assert forall|name: Seq<char>| #[trigger]
            operator.commitments.dom().contains(name) implies user_after.commitments.dom().contains(
            name,
        ) && user_after.commitments[name] == operator.commitments[name] by {
            assert(operator.keys.dom().contains(name));
            let k = choose|k: int|
                0 <= k < operator.users.len() && (#[trigger] operator.users[k]).name@ == name;
            let i = choose|i: int|
                0 <= i < announced.len() && (#[trigger] announced[i]) == (
                    name,
                    hex_text(operator.keys[name]),
                    g1_hex(operator.commitments[name]),
                    operator.balances[name],
                );
            assert(participant_texts(parts[i]) == announced[i]);
            synced_knows(user_before, parts, i);
        }
    }
}

/// When everyone has joined, the participants that are announced are the users of the configuration, in
/// its order, each once, with the key, the commitment and the balance that the user joined with.
pub proof fn everyone_is_announced(state: OperatorView, users: Seq<ActorConfig>)
    requires
        forall|i: int| 0 <= i < users.len() ==> has_joined(state, (#[trigger] users[i]).name@),
    ensures
        announced_users(state, users).len() == users.len(),
        forall|i: int|
            0 <= i < users.len() ==> #[trigger] announced_users(state, users)[i] == (
                users[i].name@,
                hex_text(state.keys[users[i].name@]),
                g1_hex(state.commitments[users[i].name@]),
                state.balances[users[i].name@],
            ),
    decreases users.len(),
{
    if users.len() > 0 {
        let head = users.drop_last();
        assert forall|i: int| 0 <= i < head.len() implies has_joined(
            state,
            (#[trigger] head[i]).name@,
        ) by {
            assert(head[i] == users[i]);
        }
        everyone_is_announced(state, head);
        let last = users[users.len() - 1];
        assert(has_joined(state, last.name@));
        assert forall|i: int| 0 <= i < users.len() implies #[trigger] announced_users(
            state,
            users,
        )[i] == (
            users[i].name@,
            hex_text(state.keys[users[i].name@]),
            g1_hex(state.commitments[users[i].name@]),
            state.balances[users[i].name@],
        ) by {
            if i < head.len() {
                assert(announced_users(state, users)[i] == announced_users(state, head)[i]);
                assert(head[i] == users[i]);
            }
        }
    }
}

/// The announcement of the participants leaves every user with a list that gives each participant the
/// balance that the participant joined with, if everyone who joined is configured, under one name each.
pub proof fn announcement_lists_balances(
    operator: OperatorView,
    user_before: UserView,
    user_after: UserView,
    message: NetworkMessage,
    step: BroadcastStep,
)
    requires
        consistent(operator),
        distinct_users(operator.users),
        forall|name: Seq<char>| #[trigger]
            operator.keys.dom().contains(name) ==> is_configured(operator.users, name),
        message.is_channel_finalized(
            hex_text(operator.channel_id),
            announced_users(operator, operator.users),
        ),
        is_broadcast_step(user_before, user_after, message, step),
    ensures
        forall|name: Seq<char>| #[trigger]
            operator.keys.dom().contains(name) ==> user_after.balances.dom().contains(name)
                && user_after.balances[name] == operator.balances[name],
{
    if let NetworkMessage::ChannelFinalized { participants, .. } = message {
        let parts = participants@;
        let announced = announced_users(operator, operator.users);
        joined_is_announced(operator, operator.users);
        assert forall|i: int| 0 <= i < parts.len() implies participant_texts(#[trigger] parts[i])
            == announced[i] by {
            assert(parts.map_values(
                |p: (String, String, String, u64)| participant_texts(p),
            )[i] == participant_texts(parts[i]));
        }
        assert forall|j: int, k: int| 0 <= j < k < parts.len() implies (#[trigger] parts[j]).0@
            != (#[trigger] parts[k]).0@ by {
            assert(announced[j].0 != announced[k].0);
        }
        assert forall|name: Seq<char>| #[trigger]
            operator.keys.dom().contains(name) implies user_after.balances.dom().contains(name)
            && user_after.balances[name] == operator.balances[name] by {
            assert(has_joined(operator, name));
            let k = choose|k: int|
                0 <= k < operator.users.len() && (#[trigger] operator.users[k]).name@ == name;
            let i = choose|i: int|
                0 <= i < announced.len() && (#[trigger] announced[i]) == (
                    name,
                    hex_text(operator.keys[name]),
                    g1_hex(operator.commitments[name]),
                    operator.balances[name],
                );
            assert(participant_texts(parts[i]) == announced[i]);
            synced_knows(user_before, parts, i);
        }
    }
}

/// A user who has joined with the balance of the start and is announced with it has a list of all
/// balances that agrees with the balance.
pub proof fn announcement_brings_ledger(
    operator: OperatorView,
    user_before: UserView,
    user_after: UserView,
    message: NetworkMessage,
    step: BroadcastStep,
)
    requires
        consistent(operator),
        distinct_users(operator.users),
        forall|name: Seq<char>| #[trigger]
            operator.keys.dom().contains(name) ==> is_configured(operator.users, name),
        message.is_channel_finalized(
            hex_text(operator.channel_id),
            announced_users(operator, operator.users),
        ),
        is_broadcast_step(user_before, user_after, message, step),
        operator.keys.dom().contains(user_before.name),
        operator.balances[user_before.name] == user_before.balance,
    ensures
        user_after.balance == user_before.balance,
        ledger_agrees(user_after),
{
    announcement_lists_balances(operator, user_before, user_after, message, step);
    if let NetworkMessage::ChannelFinalized { participants, .. } = message {
        syncing_keeps_balance(user_before, participants@);
    }
}

} // verus!
