//! What the users of a channel can count on: each step of the operator in terms of what goes into it and
//! what comes out.
use crate::blockchain::{address_of, keccak256, ContractCall};
use crate::config::{ActorConfig, AppConfig};
use crate::crypto::backend::g1_compressed;
use crate::crypto::multisig::g1_total;
use crate::crypto::range_proof::{always_holds, is_proof_verdict, proof_decodes};
use crate::crypto::wrapper::{g1_of_hex, g2_of_hex, G1, G2};
use crate::encoding::{
    base64_bytes, base64_text, be_bytes, be_value, hex_bytes, hex_digit, hex_text,
    sixty_four_bits_fit,
};
use crate::names::{is_sorted_listing, place_of_first};
use crate::network::message::{participant_texts, NetworkMessage};
use crate::network::operator::{
    alias_of, announced_users, balance_in, channel_id_of, get_actor_config, is_admission,
    is_conclusion, is_drawn_uuid, is_ingress_step, is_initial_broadcast, is_join_outcome,
    is_next_task, is_payout, is_settlement, new_alias, shares_in, threshold, vote_share, Conclusion,
    IngressStep, Operator, OperatorView, Proposal, SequencerTask,
};
use crate::network::protocol::everyone_is_announced;
use crate::text::{text_less, texts, without_0x};
use vstd::prelude::*;

verus! {

/// A request to join is taken exactly where its address, key and commitment can be read and its range
/// proof is accepted: the user then has that address, key, commitment and the announced balance, and
/// nobody else is touched. The sequencer is woken when as many have joined as are configured. A request
/// that cannot be read, or whose proof is refused, changes nothing.
pub proof fn joining_is_recorded(
    before: OperatorView,
    after: OperatorView,
    reply: NetworkMessage,
    wake: bool,
    name: Seq<char>,
    addr_str: Seq<char>,
    pk_hex: Seq<char>,
    comm_hex: Seq<char>,
    proof_b64: Seq<char>,
    balance: u64,
)
    requires
        is_join_outcome(
            before,
            after,
            reply,
            wake,
            name,
            addr_str,
            pk_hex,
            comm_hex,
            proof_b64,
            balance,
        ),
    ensures
        match (address_of(addr_str), g2_of_hex(pk_hex), g1_of_hex(comm_hex)) {
            (Some(address), Some(pk), Some(comm)) => exists|accepted: bool|
                {
                    &&& #[trigger] is_proof_verdict(
                        accepted,
                        proof_b64,
                        base64_text(hex_bytes(comm_hex)),
                        before.pp,
                    )
                    &&& accepted ==> {
                        &&& after.keys == before.keys.insert(name, pk)
                        &&& after.addresses == before.addresses.insert(name, address)
                        &&& after.commitments == before.commitments.insert(name, comm)
                        &&& after.balances == before.balances.insert(name, balance)
                        &&& same_but_for_joining(before, after)
                        &&& wake <==> after.keys.dom().len() == before.users.len()
                        &&& is_answer_to_join(
                            reply,
                            "OK"@,
                            "Welcome"@,
                            hex_text(before.channel_id),
                        )
                    }
                    &&& !accepted ==> after == before && !wake && is_answer_to_join(
                        reply,
                        "ERR"@,
                        "Invalid Proof"@,
                        ""@,
                    )
                },
            _ => after == before && !wake && is_answer_to_join(reply, "ERR"@, "Bad Format"@, ""@),
        },
{
    match (address_of(addr_str), g2_of_hex(pk_hex), g1_of_hex(comm_hex)) {
        (Some(address), Some(pk), Some(comm)) => {
            let accepted = choose|accepted: bool|
                #[trigger] is_proof_verdict(
                    accepted,
                    proof_b64,
                    base64_text(hex_bytes(comm_hex)),
                    before.pp,
                ) && is_admission(
                    before,
                    after,
                    reply,
                    wake,
                    name,
                    address,
                    pk,
                    comm,
                    balance,
                    accepted,
                );
            assert(is_proof_verdict(
                accepted,
                proof_b64,
                base64_text(hex_bytes(comm_hex)),
                before.pp,
            ));
        },
        _ => {},
    }
}

/// Whether two states differ in nothing that joining does not touch.
pub open spec fn same_but_for_joining(before: OperatorView, after: OperatorView) -> bool {
    &&& after.channel_id == before.channel_id
    &&& after.pp == before.pp
    &&& after.finalized == before.finalized
    &&& after.last_sig == before.last_sig
    &&& after.last_tx_id == before.last_tx_id
    &&& after.queue == before.queue
    &&& after.users == before.users
    &&& after.announced == before.announced
    &&& after.closed == before.closed
}

/// Whether a message answers a request to join with the given texts.
pub open spec fn is_answer_to_join(
    reply: NetworkMessage,
    with_status: Seq<char>,
    with_message: Seq<char>,
    with_id: Seq<char>,
) -> bool {
    reply matches NetworkMessage::JoinResponse { status, message, channel_id_hex } && status@
        == with_status && message@ == with_message && channel_id_hex@ == with_id
}

/// Whoever sends readable texts and a range proof that is accepted whatever the weight joins, whatever
/// the name and the balance; and whoever sends no range proof does not.
pub proof fn proved_user_joins(
    before: OperatorView,
    after: OperatorView,
    request: NetworkMessage,
    step: IngressStep,
)
    requires
        is_ingress_step(before, after, request, step),
        request is JoinRequest,
    ensures
        request matches NetworkMessage::JoinRequest {
            user_name,
            user_addr_str,
            pk_hex,
            initial_balance_comm_hex,
            initial_balance_proof_b64,
            initial_balance,
        } && {
            let readable = address_of(user_addr_str@) is Some && g2_of_hex(pk_hex@) is Some
                && g1_of_hex(initial_balance_comm_hex@) is Some;
            let comm_b64 = base64_text(hex_bytes(initial_balance_comm_hex@));
            let decodes = proof_decodes(initial_balance_proof_b64@, comm_b64);
            &&& step is Reply
            &&& readable && decodes && always_holds(
                base64_bytes(initial_balance_proof_b64@).unwrap(),
                base64_bytes(comm_b64).unwrap(),
                before.pp,
            ) ==> {
                &&& after.keys.dom().contains(user_name@)
                &&& Some(after.keys[user_name@]) == g2_of_hex(pk_hex@)
                &&& Some(after.addresses[user_name@]) == address_of(user_addr_str@)
                &&& Some(after.commitments[user_name@]) == g1_of_hex(initial_balance_comm_hex@)
                &&& after.balances[user_name@] == initial_balance
                &&& forall|other: Seq<char>|
                    other != user_name@ ==> after.keys.dom().contains(other)
                        == #[trigger] before.keys.dom().contains(other) && after.keys[other]
                        == before.keys[other] && after.balances[other] == before.balances[other]
                        && after.addresses[other] == before.addresses[other]
                        && after.commitments[other] == before.commitments[other]
            }
            &&& !readable || !decodes ==> after == before
        },
{
    if let NetworkMessage::JoinRequest {
        user_name,
        user_addr_str,
        pk_hex,
        initial_balance_comm_hex,
        initial_balance_proof_b64,
        initial_balance,
    } = request {
        if let IngressStep::Reply { reply, wake } = step {
            joining_is_recorded(
                before,
                after,
                reply,
                wake,
                user_name@,
                user_addr_str@,
                pk_hex@,
                initial_balance_comm_hex@,
                initial_balance_proof_b64@,
                initial_balance,
            );
        }
    }
}

/// A proposal waits for the sequencer exactly where its number has not been committed and its sender has
/// a commitment; then the sequencer is woken. Any other is rejected and changes nothing.
pub proof fn proposal_is_queued(
    before: OperatorView,
    after: OperatorView,
    request: NetworkMessage,
    step: IngressStep,
)
    requires
        is_ingress_step(before, after, request, step),
        request is UpdateProposal,
    ensures
        request matches NetworkMessage::UpdateProposal { user_name, tx_id, .. } && step matches
            IngressStep::Reply { reply, wake } && reply matches NetworkMessage::UpdateResponse {
            status,
            message,
            aggregated_signature_hex,
        } && aggregated_signature_hex is None && if before.commitments.dom().contains(user_name@)
            && !before.finalized.contains(tx_id) {
            &&& wake
            &&& status@ == "QUEUED"@
            &&& message@ == "Queued"@
            &&& after.queue.len() == before.queue.len() + 1
            &&& after.queue.last() == request
            &&& after.queue.drop_last() == before.queue
            &&& after == (OperatorView { queue: after.queue, ..before })
        } else {
            &&& !wake
            &&& status@ == "REJECT"@
            &&& message@ == "Duplicate/Invalid"@
            &&& after == before
        },
{
    assert(before.queue.push(request).drop_last() =~= before.queue);
}

/// What is neither a request to join nor a proposal nor a request to close is unknown and changes
/// nothing.
pub proof fn other_requests_are_unknown(
    before: OperatorView,
    after: OperatorView,
    request: NetworkMessage,
    step: IngressStep,
)
    requires
        is_ingress_step(before, after, request, step),
        request !is JoinRequest,
        request !is UpdateProposal,
        request !is CloseRequest,
    ensures
        after == before,
        step matches IngressStep::Reply { reply, wake } && !wake && (reply matches
            NetworkMessage::UpdateResponse { status, message, aggregated_signature_hex: None }
            && status@ == "ERR"@ && message@ == "Unknown"@),
{
}

/// The integers that 32-byte amounts stand for.
pub open spec fn amount_values(amounts: Seq<[u8; 32]>) -> Seq<int> {
    amounts.map_values(|amount: [u8; 32]| be_value(amount@) as int)
}

/// The balances in a list.
pub open spec fn listed_values(list: Seq<(String, u64)>) -> Seq<int> {
    list.map_values(|entry: (String, u64)| entry.1 as int)
}

/// A request to close that names this channel leads to the call that closes it on the chain with the
/// signature of the request: everyone who joined is paid, in the order of the names, each exactly the
/// balance that the request lists for the name, or nothing where it lists none. A request that names
/// another channel is rejected. Either way nothing changes before the chain has answered.
pub proof fn closing_pays_the_listed_balances(
    before: OperatorView,
    after: OperatorView,
    request: NetworkMessage,
    step: IngressStep,
)
    requires
        is_ingress_step(before, after, request, step),
        request is CloseRequest,
    ensures
        after == before,
        request matches NetworkMessage::CloseRequest {
            user_name,
            channel_id_hex,
            final_tx_id,
            signature_b64,
            final_balances,
        } && if without_0x(channel_id_hex@) == hex_text(before.channel_id) {
            step matches IngressStep::Settle {
                call,
                closer,
                channel_id_hex: settled_id,
                final_tx_id: settled_tx,
            } && closer@ == user_name@ && settled_id@ == channel_id_hex@ && settled_tx
                == final_tx_id && (call matches ContractCall::InitiateClose {
                channel_id,
                nonce,
                recipients,
                amounts,
                signature,
            } && {
                &&& channel_id@ == before.channel_id
                &&& nonce == final_tx_id
                &&& base64_bytes(signature_b64@) matches Some(bytes) ==> signature@ == bytes
                &&& base64_bytes(signature_b64@) is None ==> signature@.len() == 0
                &&& pays_the_listed(before, final_balances@, recipients@, amounts@)
            })
        } else {
            step matches IngressStep::Reply { reply, wake } && !wake && (reply matches
                NetworkMessage::CloseConsensus { status, final_tx_id: tx, close_token }
                && status@ == "REJECT"@ && tx == 0 && close_token@ == "Invalid ID"@)
        },
{
    if let NetworkMessage::CloseRequest { final_balances, .. } = request {
        if let IngressStep::Settle { call, .. } = step {
            if let ContractCall::InitiateClose { recipients, amounts, .. } = call {
                payout_is_the_listed(before, final_balances@, recipients@, amounts@);
            }
        }
    }
}

/// Whether everyone who joined is paid what a list gives the name: the recipients are the addresses of
/// those names, sorted and each once, and the 32 bytes of each amount stand for the balance in the entry
/// of that name, the first one, or for zero where there is none.
pub open spec fn pays_the_listed(
    state: OperatorView,
    balances: Seq<(String, u64)>,
    recipients: Seq<[u8; 20]>,
    amounts: Seq<[u8; 32]>,
) -> bool {
    exists|names: Seq<Seq<char>>| #[trigger]
        pays_names(state, balances, recipients, amounts, names)
}

/// Whether those of the given names are paid, in that order, what a list gives the name.
pub open spec fn pays_names(
    state: OperatorView,
    balances: Seq<(String, u64)>,
    recipients: Seq<[u8; 20]>,
    amounts: Seq<[u8; 32]>,
    names: Seq<Seq<char>>,
) -> bool {
    &&& recipients.len() == names.len()
    &&& amounts.len() == names.len()
    &&& forall|i: int, j: int|
        0 <= i < j < names.len() ==> text_less(#[trigger] names[i], #[trigger] names[j])
    &&& forall|name: Seq<char>| #[trigger]
        state.addresses.dom().contains(name) <==> names.contains(name)
    &&& forall|i: int|
        0 <= i < names.len() ==> (#[trigger] recipients[i])@ == state.addresses[names[i]]
    &&& forall|i: int, k: int|
        0 <= i < names.len() && 0 <= k < balances.len() && (#[trigger] balances[k]).0@ == names[i]
            && (forall|l: int| 0 <= l < k ==> (#[trigger] balances[l]).0@ != names[i]) ==> be_value(
            (#[trigger] amounts[i])@,
        ) == balances[k].1
    &&& forall|i: int|
        0 <= i < names.len() && (forall|k: int|
            0 <= k < balances.len() ==> (#[trigger] balances[k]).0@ != names[i]) ==> be_value(
            (#[trigger] amounts[i])@,
        ) == 0
}

/// A payout pays what the list gives.
pub proof fn payout_is_the_listed(
    state: OperatorView,
    balances: Seq<(String, u64)>,
    recipients: Seq<[u8; 20]>,
    amounts: Seq<[u8; 32]>,
)
    requires
        is_payout(state, balances, recipients, amounts),
    ensures
        pays_the_listed(state, balances, recipients, amounts),
{
    let names = choose|names: Seq<Seq<char>>|
        {
            &&& #[trigger] is_sorted_listing(names, state.addresses.dom())
            &&& recipients.len() == names.len()
            &&& amounts.len() == names.len()
            &&& forall|i: int|
                0 <= i < names.len() ==> (#[trigger] recipients[i])@ == state.addresses[names[i]]
            &&& forall|i: int|
                0 <= i < names.len() ==> (#[trigger] amounts[i])@ == be_bytes(
                    balance_in(balances, names[i]) as nat,
                    32,
                )
        };
    assert forall|i: int, k: int|
        0 <= i < names.len() && 0 <= k < balances.len() && (#[trigger] balances[k]).0@ == names[i]
            && (forall|l: int| 0 <= l < k ==> (#[trigger] balances[l]).0@
            != names[i]) implies be_value((#[trigger] amounts[i])@) == balances[k].1 by {
        place_of_first(balances, names[i], k);
        sixty_four_bits_fit(balances[k].1);
    }
    assert forall|i: int|
        0 <= i < names.len() && (forall|k: int|
            0 <= k < balances.len() ==> (#[trigger] balances[k]).0@ != names[i]) implies be_value(
        (#[trigger] amounts[i])@,
    ) == 0 by {
        place_of_first(balances, names[i], balances.len() as int);
        sixty_four_bits_fit(0);
    }
    assert(pays_names(state, balances, recipients, amounts, names));
}

/// Where a list names everyone who joined once and nobody else, what is paid out adds up to what is
/// listed.
pub proof fn payout_adds_up(
    state: OperatorView,
    balances: Seq<(String, u64)>,
    recipients: Seq<[u8; 20]>,
    amounts: Seq<[u8; 32]>,
)
    requires
        is_payout(state, balances, recipients, amounts),
        forall|i: int, j: int|
            0 <= i < j < balances.len() ==> (#[trigger] balances[i]).0@ != (
            #[trigger] balances[j]).0@,
        forall|name: Seq<char>| #[trigger]
            state.addresses.dom().contains(name) <==> exists|i: int|
                0 <= i < balances.len() && (#[trigger] balances[i]).0@ == name,
    ensures
        amount_values(amounts).fold_left(0int, |sum: int, x: int| sum + x) == listed_values(
            balances,
        ).fold_left(0int, |sum: int, x: int| sum + x),
{
    let names = choose|names: Seq<Seq<char>>|
        {
            &&& #[trigger] is_sorted_listing(names, state.addresses.dom())
            &&& recipients.len() == names.len()
            &&& amounts.len() == names.len()
            &&& forall|i: int|
                0 <= i < names.len() ==> (#[trigger] recipients[i])@ == state.addresses[names[i]]
            &&& forall|i: int|
                0 <= i < names.len() ==> (#[trigger] amounts[i])@ == be_bytes(
                    balance_in(balances, names[i]) as nat,
                    32,
                )
        };
    assert forall|i: int, j: int| 0 <= i < names.len() && 0 <= j < names.len() && i
        != j implies names[i] != names[j] by {
        if i < j {
            crate::text::text_less_total(names[i], names[i]);
            assert(text_less(names[i], names[j]));
        } else {
            crate::text::text_less_total(names[i], names[i]);
            assert(text_less(names[j], names[i]));
        }
    }
    assert(names.no_duplicates());
    assert forall|name: Seq<char>| #[trigger] names.contains(name) <==> exists|i: int|
        0 <= i < balances.len() && (#[trigger] balances[i]).0@ == name by {
        assert(state.addresses.dom().contains(name) <==> names.contains(name));
    }
    let paid = names.map_values(|name: Seq<char>| balance_in(balances, name) as int);
    assert forall|i: int| 0 <= i < names.len() implies amount_values(amounts)[i] == paid[i] by {
        assert(amounts[i]@ == be_bytes(balance_in(balances, names[i]) as nat, 32));
        sixty_four_bits_fit(balance_in(balances, names[i]));
    }
    assert(amount_values(amounts) =~= paid);
    names_add_up(names, balances);
}

/// The entries of a list add up to what the list gives its names.
proof fn names_add_up(names: Seq<Seq<char>>, list: Seq<(String, u64)>)
    requires
        names.no_duplicates(),
        forall|i: int, j: int|
            0 <= i < j < list.len() ==> (#[trigger] list[i]).0@ != (#[trigger] list[j]).0@,
        forall|name: Seq<char>| #[trigger]
            names.contains(name) <==> exists|i: int|
                0 <= i < list.len() && (#[trigger] list[i]).0@ == name,
    ensures
        names.map_values(|name: Seq<char>| balance_in(list, name) as int).fold_left(
            0int,
            |sum: int, x: int| sum + x,
        ) == listed_values(list).fold_left(0int, |sum: int, x: int| sum + x),
    decreases list.len(),
{
    let add = |sum: int, x: int| sum + x;
    let given = names.map_values(|name: Seq<char>| balance_in(list, name) as int);
    if list.len() == 0 {
        if names.len() > 0 {
            assert(names.contains(names[0]));
        }
        assert(given =~= Seq::<int>::empty());
        assert(listed_values(list) =~= Seq::<int>::empty());
    } else {
        let n = list.len() - 1;
        let last = list[n];
        let head = list.drop_last();
        assert(last.0@ == list[n].0@);
        assert(names.contains(last.0@));
        let at = names.index_of(last.0@);
        let others = names.remove(at);
        assert forall|i: int| 0 <= i < others.len() implies #[trigger] others[i] == names[if i < at {
            i
        } else {
            i + 1
        }] by {}
        assert(others.no_duplicates());
        assert forall|name: Seq<char>| #[trigger] others.contains(name) <==> exists|i: int|
            0 <= i < head.len() && (#[trigger] head[i]).0@ == name by {
            if others.contains(name) {
                let k = choose|k: int| 0 <= k < others.len() && others[k] == name;
                let l = if k < at {
                    k
                } else {
                    k + 1
                };
                assert(names[l] == name);
                assert(names.contains(name));
                let i = choose|i: int| 0 <= i < list.len() && (#[trigger] list[i]).0@ == name;
                assert(i != n) by {
                    if i == n {
                        assert(names[at] == name);
                    }
                }
                assert(head[i].0@ == name);
            }
            if exists|i: int| 0 <= i < head.len() && (#[trigger] head[i]).0@ == name {
                let i = choose|i: int| 0 <= i < head.len() && (#[trigger] head[i]).0@ == name;
                assert(list[i].0@ == name);
                assert(names.contains(name));
                let l = choose|l: int| 0 <= l < names.len() && names[l] == name;
                assert(l != at);
                assert(others[if l < at {
                    l
                } else {
                    l - 1
                }] == name);
            }
        }
        assert forall|i: int, j: int| 0 <= i < j < head.len() implies (#[trigger] head[i]).0@ != (
        #[trigger] head[j]).0@ by {
            assert(head[i] == list[i] && head[j] == list[j]);
        }
        names_add_up(others, head);
        let rest = others.map_values(|name: Seq<char>| balance_in(head, name) as int);
        assert forall|i: int| 0 <= i < others.len() implies rest[i] == given.remove(at)[i] by {
            let name = others[i];
            assert(others.contains(name));
            let k = choose|k: int| 0 <= k < head.len() && (#[trigger] head[k]).0@ == name;
            assert forall|j: int| 0 <= j < k implies (#[trigger] head[j]).0@ != name by {
                assert(head[j].0@ != head[k].0@);
            }
            place_of_first(head, name, k);
            assert forall|j: int| 0 <= j < k implies (#[trigger] list[j]).0@ != name by {
                assert(head[j] == list[j]);
            }
            assert(list[k] == head[k]);
            place_of_first(list, name, k);
        }
        assert(rest =~= given.remove(at));
        assert forall|j: int| 0 <= j < n implies (#[trigger] list[j]).0@ != last.0@ by {
            assert(list[j].0@ != list[n].0@);
        }
        place_of_first(list, last.0@, n);
        assert(given[at] == last.1 as int);
        sum_without(given, at);
        assert(listed_values(list).drop_last() =~= listed_values(head));
        reveal_with_fuel(Seq::fold_left, 2);
        assert(listed_values(list).last() == last.1 as int);
    }
}

/// Leaving one out of a list of integers takes it off their sum.
proof fn sum_without(xs: Seq<int>, j: int)
    requires
        0 <= j < xs.len(),
    ensures
        xs.fold_left(0int, |sum: int, x: int| sum + x) == xs.remove(j).fold_left(
            0int,
            |sum: int, x: int| sum + x,
        ) + xs[j],
    decreases xs.len(),
{
    let add = |sum: int, x: int| sum + x;
    let rest = xs.remove(j);
    if j == xs.len() - 1 {
        assert(rest =~= xs.drop_last());
    } else {
        sum_without(xs.drop_last(), j);
        assert(rest.drop_last() =~= xs.drop_last().remove(j));
        assert(rest.last() == xs.last());
    }
}

/// Once the chain has closed the channel the requester is told so with the transaction, the end waits
/// behind everything else in the queue, and the channel is closed; where the chain refused, the
/// requester is told why, and nothing changes.
pub proof fn settling_closes_the_channel(
    before: OperatorView,
    after: OperatorView,
    closer: Seq<char>,
    id_hex: Seq<char>,
    tx_id: u64,
    outcome: Result<String, String>,
    reply: NetworkMessage,
    closed: bool,
)
    requires
        is_settlement(before, after, closer, id_hex, tx_id, outcome, reply, closed),
    ensures
        closed <==> outcome is Ok,
        outcome matches Ok(tx) ==> {
            &&& after.closed
            &&& after.queue.len() == before.queue.len() + 1
            &&& after.queue.drop_last() == before.queue
            &&& after.queue.last() matches NetworkMessage::ChannelClosed {
                channel_id_hex,
                closer: by,
                final_tx_id,
            } && channel_id_hex@ == id_hex && by@ == closer && final_tx_id == tx_id
            &&& after == (OperatorView { queue: after.queue, closed: true, ..before })
            &&& reply matches NetworkMessage::CloseConsensus { status, final_tx_id, close_token }
                && status@ == "OK"@ && final_tx_id == tx_id && close_token@ == tx@
        },
        outcome matches Err(e) ==> {
            &&& after == before
            &&& reply matches NetworkMessage::CloseConsensus { status, final_tx_id, close_token }
                && status@ == "ERROR"@ && final_tx_id == 0 && close_token@ == e@
        },
{
}

/// The participants are announced only when everyone has joined: while fewer or more names have a key
/// than there are users in the configuration, nothing is announced and nothing changes. They are
/// announced as soon as as many have joined, and once.
pub proof fn announcement_waits_for_everyone(
    before: OperatorView,
    after: OperatorView,
    res: Option<NetworkMessage>,
)
    requires
        is_initial_broadcast(before, after, res),
    ensures
        before.keys.dom().len() != before.users.len() ==> res is None && after == before,
        before.users.len() == 0 ==> res is None && after == before,
        before.announced ==> res is None && after == before,
        before.keys.dom().len() == before.users.len() && before.users.len() > 0
            && !before.announced ==> res is Some && after.announced,
        res is Some ==> after == (OperatorView { announced: true, ..before }),
        res matches Some(message) ==> (message matches NetworkMessage::ChannelFinalized {
            channel_id_hex,
            ..
        } && channel_id_hex@ == hex_text(before.channel_id)),
{
}

/// Two announcements never follow each other.
pub proof fn announcement_is_made_once(
    first: OperatorView,
    middle: OperatorView,
    second: OperatorView,
    last: OperatorView,
    one: Option<NetworkMessage>,
    two: Option<NetworkMessage>,
)
    requires
        is_initial_broadcast(first, middle, one),
        is_initial_broadcast(second, last, two),
        second.announced == middle.announced,
        one is Some,
    ensures
        two is None,
{
}

/// What is announced is everyone: where the configured names are distinct and everyone who joined is
/// configured and has a commitment and a balance, each configured user is announced once, in the order
/// of the configuration, with the key, the commitment and the balance that the user joined with.
pub proof fn announcement_is_of_everyone(
    before: OperatorView,
    after: OperatorView,
    message: NetworkMessage,
)
    requires
        is_initial_broadcast(before, after, Some(message)),
        before.keys.dom().finite(),
        before.commitments.dom() == before.keys.dom(),
        before.balances.dom() == before.keys.dom(),
        forall|i: int, j: int|
            0 <= i < j < before.users.len() ==> (#[trigger] before.users[i]).name@ != (
            #[trigger] before.users[j]).name@,
        forall|name: Seq<char>| #[trigger]
            before.keys.dom().contains(name) ==> exists|i: int|
                0 <= i < before.users.len() && (#[trigger] before.users[i]).name@ == name,
    ensures
        forall|i: int|
            0 <= i < before.users.len() ==> before.keys.dom().contains(
                (#[trigger] before.users[i]).name@,
            ),
        message matches NetworkMessage::ChannelFinalized { participants, .. } && participants@.len()
            == before.users.len() && forall|i: int|
            0 <= i < before.users.len() ==> {
                let (name, pk_hex, comm_hex, balance) = #[trigger] participants@[i];
                &&& name@ == before.users[i].name@
                &&& pk_hex@ == hex_text(before.keys[name@])
                &&& comm_hex@ == hex_text(g1_compressed(before.commitments[name@]))
                &&& balance == before.balances[name@]
            },
{
    let users = before.users;
    let names = users.map_values(|user: ActorConfig| user.name@);
    assert(names.no_duplicates());
    names.unique_seq_to_set();
    assert forall|name: Seq<char>| #[trigger]
        before.keys.dom().contains(name) implies names.to_set().contains(name) by {
        let i = choose|i: int| 0 <= i < users.len() && (#[trigger] users[i]).name@ == name;
        assert(names[i] == name);
    }
    assert(before.keys.dom().subset_of(names.to_set()));
    vstd::set_lib::lemma_subset_equality(before.keys.dom(), names.to_set());
    assert forall|i: int| 0 <= i < users.len() implies before.keys.dom().contains(
        (#[trigger] users[i]).name@,
    ) by {
        assert(names[i] == users[i].name@);
        assert(names.contains(names[i]));
        assert(names.to_set().contains(names[i]));
    }
    everyone_is_announced(before, users);
    if let NetworkMessage::ChannelFinalized { participants, .. } = message {
        let shown = participants@.map_values(
            |p: (String, String, String, u64)| participant_texts(p),
        );
        assert forall|i: int| 0 <= i < users.len() implies {
            let (name, pk_hex, comm_hex, balance) = #[trigger] participants@[i];
            &&& name@ == users[i].name@
            &&& pk_hex@ == hex_text(before.keys[name@])
            &&& comm_hex@ == hex_text(g1_compressed(before.commitments[name@]))
            &&& balance == before.balances[name@]
        } by {
            assert(shown[i] == participant_texts(participants@[i]));
            assert(shown[i] == announced_users(before, users)[i]);
        }
    }
}

/// The sequencer takes the messages in the order in which they came. The end of the channel it announces
/// as it is. A payment between two parties with commitments it puts to the vote, with their commitments
/// as the operator has them and the last committed payment with its signature; one with a party that has
/// none it cannot. Other messages it passes over. With nothing left it stops if the channel is closed,
/// and waits if it is not.
pub proof fn sequencer_works_in_order(
    before: OperatorView,
    after: OperatorView,
    task: SequencerTask,
)
    requires
        is_next_task(before, after, task),
    ensures
        before.queue.len() == 0 ==> after == before && (if before.closed {
            task is Stop
        } else {
            task is Idle
        }),
        before.queue.len() > 0 ==> {
            &&& after == (OperatorView { queue: after.queue, ..before })
            &&& before.queue == seq![before.queue[0]] + after.queue
            &&& match before.queue[0] {
                NetworkMessage::ChannelClosed { channel_id_hex, closer, final_tx_id } => task
                    matches SequencerTask::Broadcast { message } && message matches
                    NetworkMessage::ChannelClosed {
                    channel_id_hex: id,
                    closer: by,
                    final_tx_id: last,
                } && id@ == channel_id_hex@ && by@ == closer@ && last == final_tx_id,
                NetworkMessage::UpdateProposal {
                    user_name,
                    counterparty_name,
                    tx_id,
                    amount,
                    tx_amount_comm_hex,
                    range_proof_b64,
                    proof_comm_value_b64,
                    sender_new_comm_hex,
                    receiver_new_comm_hex,
                    ..
                } => if before.commitments.dom().contains(user_name@)
                    && before.commitments.dom().contains(counterparty_name@) {
                    task matches SequencerTask::CollectVotes { proposal, request } && {
                        &&& proposal.user_name@ == user_name@
                        &&& proposal.counterparty_name@ == counterparty_name@
                        &&& proposal.tx_id == tx_id
                        &&& proposal.amount == amount
                        &&& proposal.sender_new_comm_hex@ == sender_new_comm_hex@
                        &&& proposal.receiver_new_comm_hex@ == receiver_new_comm_hex@
                        &&& request matches NetworkMessage::VoteRequest {
                            tx_id: asked,
                            proposer_name,
                            tx_amount_comm_hex: asked_amount,
                            range_proof_b64: asked_proof,
                            proof_comm_value_b64: asked_value,
                            sender_new_comm_hex: asked_sender_new,
                            sender_old_comm_hex: asked_sender_old,
                            receiver_new_comm_hex: asked_receiver_new,
                            receiver_old_comm_hex: asked_receiver_old,
                            prev_tx_id,
                            prev_aggregated_sig_hex,
                        } && {
                            &&& asked == tx_id
                            &&& proposer_name@ == user_name@
                            &&& asked_amount@ == tx_amount_comm_hex@
                            &&& asked_proof@ == range_proof_b64@
                            &&& asked_value@ == proof_comm_value_b64@
                            &&& asked_sender_new@ == sender_new_comm_hex@
                            &&& asked_sender_old@ == hex_text(
                                g1_compressed(before.commitments[user_name@]),
                            )
                            &&& asked_receiver_new@ == receiver_new_comm_hex@
                            &&& asked_receiver_old@ == hex_text(
                                g1_compressed(before.commitments[counterparty_name@]),
                            )
                            &&& prev_tx_id == before.last_tx_id
                            &&& match (prev_aggregated_sig_hex, before.last_sig) {
                                (Some(sig), Some(last)) => sig@ == last,
                                (None, None) => true,
                                _ => false,
                            }
                        }
                    }
                } else {
                    task is UnknownParty
                },
                _ => task is Skip,
            }
        },
{
    if before.queue.len() > 0 {
        assert(before.queue =~= seq![before.queue[0]] + before.queue.skip(1));
    }
}

/// The shares of votes are those of each vote in turn: a vote with a point that can be read brings that
/// point, and any other brings none.
pub proof fn shares_are_those_of_each_vote(
    first: Seq<Option<String>>,
    second: Seq<Option<String>>,
    vote: Option<String>,
)
    ensures
        shares_in(Seq::empty()) == Seq::<Seq<u64>>::empty(),
        shares_in(first + second) == shares_in(first) + shares_in(second),
        vote is None ==> shares_in(seq![vote]).len() == 0,
        vote is Some && g1_of_hex(vote.unwrap()@) is None ==> shares_in(seq![vote]).len() == 0,
        vote is Some && g1_of_hex(vote.unwrap()@) is Some ==> shares_in(seq![vote])
            == seq![g1_of_hex(vote.unwrap()@).unwrap()],
    decreases second.len(),
{
    assert(seq![vote].drop_last() =~= Seq::<Option<String>>::empty());
    assert(shares_in(Seq::<Option<String>>::empty()) =~= Seq::<Seq<u64>>::empty());
    assert(seq![vote].last() == vote);
    if vote is Some && g1_of_hex(vote.unwrap()@) is Some {
        let point = g1_of_hex(vote.unwrap()@).unwrap();
        assert(shares_in(seq![vote]) =~= seq![point]);
    }
    if second.len() == 0 {
        assert(first + second =~= first);
        assert(shares_in(first) + shares_in(second) =~= shares_in(first));
    } else {
        let head = second.drop_last();
        shares_are_those_of_each_vote(first, head, vote);
        let all = first + second;
        assert(all.drop_last() =~= first + head);
        assert(all.last() == second.last());
        assert(shares_in(all) =~= shares_in(first) + shares_in(second));
    }
}

/// A payment is committed exactly where its votes are at least one and at least two thirds of the users,
/// and its new commitments can be read: then the parties have these commitments and nobody else is
/// touched, its number counts as committed and as the last, and it is announced to all as it was
/// proposed, with the sum of the shares. Where the votes are too few, or a commitment cannot be read,
/// nothing changes.
pub proof fn two_thirds_commit(
    before: OperatorView,
    after: OperatorView,
    proposal: Proposal,
    votes: Seq<Option<String>>,
    res: Conclusion,
)
    requires
        is_conclusion(before, after, proposal, votes, res),
    ensures
        ({
            let shares = shares_in(votes);
            let new_s = g1_of_hex(proposal.sender_new_comm_hex@);
            let new_r = g1_of_hex(proposal.receiver_new_comm_hex@);
            if 3 * shares.len() < 2 * before.users.len() {
                &&& after == before
                &&& res matches Conclusion::Insufficient { got, needed } && got == shares.len()
                    && 2 * before.users.len() <= 3 * needed < 2 * before.users.len() + 3
            } else if shares.len() == 0 {
                after == before && res is AggregationFailed
            } else if new_s is None || new_r is None {
                after == before && res is BadCommitment
            } else {
                let sig_hex = hex_text(g1_compressed(g1_total(shares)));
                &&& after.commitments.dom().contains(proposal.user_name@)
                &&& after.commitments.dom().contains(proposal.counterparty_name@)
                &&& after.commitments[proposal.counterparty_name@] == new_r.unwrap()
                &&& proposal.user_name@ != proposal.counterparty_name@
                    ==> after.commitments[proposal.user_name@] == new_s.unwrap()
                &&& forall|name: Seq<char>|
                    name != proposal.user_name@ && name != proposal.counterparty_name@ ==> {
                        &&& #[trigger] after.commitments.dom().contains(name)
                            == before.commitments.dom().contains(name)
                        &&& after.commitments[name] == before.commitments[name]
                    }
                &&& forall|tx: u64| #[trigger]
                    after.finalized.contains(tx) <==> before.finalized.contains(tx) || tx
                        == proposal.tx_id
                &&& after.last_tx_id == proposal.tx_id
                &&& after.last_sig == Some(sig_hex)
                &&& after.channel_id == before.channel_id
                &&& after.pp == before.pp
                &&& after.keys == before.keys
                &&& after.addresses == before.addresses
                &&& after.balances == before.balances
                &&& after.queue == before.queue
                &&& after.users == before.users
                &&& after.announced == before.announced
                &&& after.closed == before.closed
                &&& res matches Conclusion::Committed { announcement } && announcement matches
                    NetworkMessage::ConsensusReached {
                    tx_id,
                    status,
                    all_signatures,
                    sender_name,
                    sender_new_comm_hex,
                    receiver_name,
                    receiver_new_comm_hex,
                    amount,
                } && {
                    &&& tx_id == proposal.tx_id
                    &&& status@ == "COMMITTED"@
                    &&& all_signatures@.len() == 1
                    &&& all_signatures@[0]@ == sig_hex
                    &&& sender_name@ == proposal.user_name@
                    &&& sender_new_comm_hex@ == proposal.sender_new_comm_hex@
                    &&& receiver_name@ == proposal.counterparty_name@
                    &&& receiver_new_comm_hex@ == proposal.receiver_new_comm_hex@
                    &&& amount == proposal.amount
                }
            }
        }),
{
    if let Conclusion::Committed { announcement } = res {
        if let NetworkMessage::ConsensusReached { all_signatures, .. } = announcement {
            let listed = texts(all_signatures@);
            assert(listed.len() == 1);
            assert(listed[0] == all_signatures@[0]@);
        }
    }
}

/// The votes that are needed are the fewest that make two thirds.
pub proof fn needed_votes_are_two_thirds(n: usize, res: usize)
    requires
        call_ensures(threshold, (n,), res),
    ensures
        3 * res >= 2 * n,
        forall|fewer: int| fewer < res ==> #[trigger] (3 * fewer) < 2 * n,
{
}

/// A vote brings its share exactly where it is in favour.
pub proof fn votes_in_favour_count(reply: NetworkMessage, res: Option<String>)
    requires
        call_ensures(vote_share, (reply,), res),
    ensures
        reply matches NetworkMessage::VoteResponse { status, .. } && status@ == "OK"@
            ==> res == reply->VoteResponse_sig_share_hex,
        !(reply matches NetworkMessage::VoteResponse { status, .. } && status@ == "OK"@) ==> res
            is None,
{
}

/// A channel is named after the first eight characters of a UUID, and its identifier is the digest of
/// its alias.
pub proof fn channel_is_named_after_uuid(uuid: &str, alias: String, shown: &str, id: [u8; 32])
    requires
        call_ensures(alias_of, (uuid,), alias),
        shown@ == alias@,
        call_ensures(channel_id_of, (shown,), id),
        uuid@.len() >= 8,
    ensures
        alias@.len() == 11,
        alias@[0] == 'c' && alias@[1] == 'h' && alias@[2] == '-',
        forall|i: int| 0 <= i < 8 ==> alias@[3 + i] == #[trigger] uuid@[i],
        id@ == keccak256(vstd::utf8::encode_utf8(alias@)),
{
    reveal_strlit("ch-");
}

/// A new alias is `ch-` and eight hexadecimal digits in lower case.
pub proof fn new_alias_has_eight_digits(alias: String)
    requires
        call_ensures(new_alias, (), alias),
    ensures
        alias@.len() == 11,
        alias@[0] == 'c' && alias@[1] == 'h' && alias@[2] == '-',
        forall|i: int|
            3 <= i < 11 ==> '0' <= #[trigger] alias@[i] <= '9' || 'a' <= alias@[i] <= 'f',
{
    reveal_strlit("ch-");
    let uuid = choose|uuid: Seq<char>|
        crate::network::operator::is_uuid_text(uuid) && alias@ == "ch-"@ + #[trigger] uuid.take(8);
    assert forall|i: int| 3 <= i < 11 implies '0' <= #[trigger] alias@[i] <= '9' || 'a' <= alias@[i]
        <= 'f' by {
        assert(alias@[i] == uuid[i - 3]);
        let d = choose|d: int| 0 <= d < 16 && uuid[i - 3] == #[trigger] hex_digit(d);
        assert(alias@[i] == hex_digit(d));
    }
}

/// A new alias is named after a UUID that is drawn at random.
pub proof fn new_alias_is_drawn(alias: String)
    requires
        call_ensures(new_alias, (), alias),
    ensures
        exists|uuid: Seq<char>|
            is_drawn_uuid(uuid) && uuid.len() == 36 && alias@ == "ch-"@ + #[trigger] uuid.take(8),
{
}

/// The operator acts for the account that the configuration gives it.
pub proof fn operator_acts_for_its_account(config: &AppConfig, res: ActorConfig)
    requires
        call_ensures(get_actor_config, (config,), res),
    ensures
        res == config.operator,
{
}

/// A new channel has nobody in it and nothing to do; its identifier is the digest of its alias, and the
/// payment zero alone counts as committed.
pub proof fn new_channel_is_empty(alias: &str, users: Vec<ActorConfig>, operator: Operator)
    requires
        call_ensures(Operator::new, (alias, users), operator),
    ensures
        operator@.channel_id == keccak256(vstd::utf8::encode_utf8(alias@)),
        operator@.pp.standard(),
        operator@.users == users@,
        operator@.queue.len() == 0,
        operator@.last_sig is None,
        operator@.last_tx_id == 0,
        !operator@.announced,
        !operator@.closed,
        forall|name: Seq<char>|
            !(#[trigger] operator@.keys.dom().contains(name))
                && !operator@.addresses.dom().contains(name)
                && !operator@.commitments.dom().contains(name)
                && !operator@.balances.dom().contains(name),
        forall|tx: u64| #[trigger] operator@.finalized.contains(tx) <==> tx == 0,
{
}

/// What the operator shows of the channel is what it has.
pub proof fn operator_shows_the_state(
    operator: &Operator,
    id: [u8; 32],
    joined: usize,
    waiting: usize,
    last: u64,
)
    requires
        call_ensures(Operator::channel_id, (operator,), id),
        call_ensures(Operator::joined_count, (operator,), joined),
        call_ensures(Operator::queue_len, (operator,), waiting),
        call_ensures(Operator::last_committed_tx_id, (operator,), last),
    ensures
        id@ == operator@.channel_id,
        joined == operator@.keys.dom().len(),
        waiting == operator@.queue.len(),
        last == operator@.last_tx_id,
{
}

/// A request to join is answered with the verdict that is given, and without one with what verification
/// can say of its range proof; and any request is decided on as what is said here of requests.
pub proof fn requests_are_decided_on(
    one: &mut Operator,
    two: &mut Operator,
    three: &mut Operator,
    user_name: &str,
    user_addr_str: &str,
    pk_hex: &str,
    comm_hex: &str,
    proof_b64: &str,
    address: [u8; 20],
    pk: G2,
    comm: G1,
    balance: u64,
    accepted: bool,
    answer: (NetworkMessage, bool),
    joining: (NetworkMessage, bool),
    request: NetworkMessage,
    step: IngressStep,
)
    requires
        call_ensures(
            Operator::answer_join,
            (one, user_name, address, pk, comm, balance, accepted),
            answer,
        ),
        call_ensures(
            Operator::join,
            (two, user_name, user_addr_str, pk_hex, comm_hex, proof_b64, balance),
            joining,
        ),
        call_ensures(Operator::handle_request, (three, request), step),
    ensures
        is_admission(
            old(one)@,
            final(one)@,
            answer.0,
            answer.1,
            user_name@,
            address@,
            pk@,
            comm@,
            balance,
            accepted,
        ),
        is_join_outcome(
            old(two)@,
            final(two)@,
            joining.0,
            joining.1,
            user_name@,
            user_addr_str@,
            pk_hex@,
            comm_hex@,
            proof_b64@,
            balance,
        ),
        is_ingress_step(old(three)@, final(three)@, request, step),
{
}

/// A proposed payment waits at the end of the queue if it is not committed yet and its payer joined;
/// otherwise nothing changes.
pub proof fn proposals_wait_their_turn(
    operator: &mut Operator,
    request: NetworkMessage,
    res: (NetworkMessage, bool),
)
    requires
        call_ensures(Operator::queue_proposal, (operator, request), res),
        request is UpdateProposal,
    ensures
        ({
            let tx_id = request->UpdateProposal_tx_id;
            let name = request->UpdateProposal_user_name@;
            if !old(operator)@.finalized.contains(tx_id)
                && old(operator)@.commitments.dom().contains(name) {
                &&& final(operator)@.queue == old(operator)@.queue.push(request)
                &&& final(operator)@ == (OperatorView {
                    queue: final(operator)@.queue,
                    ..old(operator)@
                })
                &&& res.1
            } else {
                final(operator)@ == old(operator)@ && !res.1
            }
        }),
{
}

/// A close request is decided on with what it brings itself, and everyone who joined is paid what its
/// list says.
pub proof fn close_requests_are_decided_on(
    operator: &Operator,
    user_name: String,
    channel_id_hex: String,
    final_tx_id: u64,
    signature_b64: &str,
    balances: &Vec<(String, u64)>,
    step: IngressStep,
    paid: (Vec<[u8; 20]>, Vec<[u8; 32]>),
)
    requires
        call_ensures(
            Operator::request_close,
            (operator, user_name, channel_id_hex, final_tx_id, signature_b64, balances),
            step,
        ),
        call_ensures(Operator::payout, (operator, balances), paid),
    ensures
        pays_the_listed(operator@, balances@, paid.0@, paid.1@),
        if hex_text(operator@.channel_id) == without_0x(channel_id_hex@) {
            step matches IngressStep::Settle { call, closer, channel_id_hex: id, final_tx_id: last }
                && {
                &&& closer@ == user_name@
                &&& id@ == channel_id_hex@
                &&& last == final_tx_id
                &&& call matches ContractCall::InitiateClose {
                    channel_id,
                    nonce,
                    recipients,
                    amounts,
                    signature,
                } && {
                    &&& channel_id@ == operator@.channel_id
                    &&& nonce == final_tx_id
                    &&& pays_the_listed(operator@, balances@, recipients@, amounts@)
                    &&& base64_bytes(signature_b64@) matches Some(bytes) ==> signature@ == bytes
                    &&& base64_bytes(signature_b64@) is None ==> signature@.len() == 0
                }
            }
        } else {
            step matches IngressStep::Reply { reply, wake } && {
                &&& !wake
                &&& reply matches NetworkMessage::CloseConsensus {
                    status,
                    final_tx_id: last,
                    close_token,
                } && status@ == "REJECT"@ && last == 0 && close_token@ == "Invalid ID"@
            }
        },
{
    payout_is_the_listed(operator@, balances@, paid.0@, paid.1@);
    if let IngressStep::Settle { call, .. } = step {
        if let ContractCall::InitiateClose { recipients, amounts, .. } = call {
            payout_is_the_listed(operator@, balances@, recipients@, amounts@);
        }
    }
}

/// The answer of the chain, the announcement, the next task and the end of a vote are what is said here
/// of them.
pub proof fn sequencing_goes_as_stated(
    one: &mut Operator,
    two: &mut Operator,
    three: &mut Operator,
    four: &mut Operator,
    closer: String,
    channel_id_hex: String,
    final_tx_id: u64,
    outcome: Result<String, String>,
    settlement: (NetworkMessage, bool),
    announced: Option<NetworkMessage>,
    task: SequencerTask,
    proposal: &Proposal,
    votes: &Vec<Option<String>>,
    conclusion: Conclusion,
)
    requires
        call_ensures(
            Operator::settled,
            (one, closer, channel_id_hex, final_tx_id, outcome),
            settlement,
        ),
        call_ensures(Operator::initial_broadcast, (two,), announced),
        call_ensures(Operator::next_task, (three,), task),
        call_ensures(Operator::conclude_vote, (four, proposal, votes), conclusion),
    ensures
        is_settlement(
            old(one)@,
            final(one)@,
            closer@,
            channel_id_hex@,
            final_tx_id,
            outcome,
            settlement.0,
            settlement.1,
        ),
        is_initial_broadcast(old(two)@, final(two)@, announced),
        is_next_task(old(three)@, final(three)@, task),
        is_conclusion(old(four)@, final(four)@, *proposal, votes@, conclusion),
{
}

} // verus!
