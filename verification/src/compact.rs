//! History compaction: keeps the conversation under a size budget while the
//! preamble, the latest message and at most one status snapshot stay.

use vstd::prelude::*;
use crate::message::{is_status, Message, MessageView};

verus! {

/// Whether `log` is a conversation: its first message is there and is the
/// system preamble.
pub open spec fn is_conversation(log: Seq<MessageView>) -> bool {
    log.len() > 0 && log[0] is System
}

/// Total weight of the messages of `log` at index `from` and later.
pub open spec fn weight_from(log: Seq<MessageView>, from: int) -> nat
    decreases log.len() - from,
{
    if from < 0 || from >= log.len() {
        0
    } else {
        log[from].weight() + weight_from(log, from + 1)
    }
}

/// Whether a status snapshot stands at index `from` or later.
pub open spec fn status_from(log: Seq<MessageView>, from: int) -> bool {
    exists|j: int| from <= j < log.len() && 0 <= j && (#[trigger] log[j]).is_status()
}

/// Whether the message at `index` lies in the retained window: it is not the
/// preamble, and the messages more recent than it weigh no more than `budget`.
/// The message that first pushes the total over the budget is thus still in.
pub open spec fn in_window(log: Seq<MessageView>, budget: nat, index: int) -> bool {
    1 <= index < log.len() && weight_from(log, index + 1) <= budget
}

/// Whether the message at `index` is a status snapshot that a more recent one
/// has superseded.
pub open spec fn is_stale(log: Seq<MessageView>, index: int) -> bool {
    log[index].is_status() && status_from(log, index + 1)
}

/// Whether compaction keeps the message at `index`: the preamble always, any
/// other message if it lies in the window and is not a stale status.
pub open spec fn survives(log: Seq<MessageView>, budget: nat, index: int) -> bool {
    0 <= index < log.len() && (index == 0 || (in_window(log, budget, index) && !is_stale(
        log,
        index,
    )))
}

/// The surviving messages among those at index `from` and later, oldest first.
pub open spec fn survivors_from(log: Seq<MessageView>, budget: nat, from: int) -> Seq<MessageView>
    decreases log.len() - from,
{
    if from < 0 || from >= log.len() {
        Seq::empty()
    } else if survives(log, budget, from) {
        seq![log[from]] + survivors_from(log, budget, from + 1)
    } else {
        survivors_from(log, budget, from + 1)
    }
}

/// The compacted conversation: every surviving message, in its old order.
pub open spec fn compacted(log: Seq<MessageView>, budget: nat) -> Seq<MessageView> {
    survivors_from(log, budget, 0)
}

/// The indices of the surviving messages among those at `from` and later,
/// in increasing order.
pub open spec fn kept_indices(log: Seq<MessageView>, budget: nat, from: int) -> Seq<int>
    decreases log.len() - from,
{
    if from < 0 || from >= log.len() {
        Seq::empty()
    } else if survives(log, budget, from) {
        seq![from] + kept_indices(log, budget, from + 1)
    } else {
        kept_indices(log, budget, from + 1)
    }
}

/// `origin` embeds `part` into `whole`: it names, for each message of `part`,
/// the place of that message in `whole`, and it is strictly increasing.
pub open spec fn embeds(part: Seq<MessageView>, whole: Seq<MessageView>, origin: Seq<int>) -> bool {
    &&& origin.len() == part.len()
    &&& forall|k: int|
        0 <= k < part.len() ==> 0 <= #[trigger] origin[k] < whole.len() && part[k] == whole[origin[k]]
    &&& forall|k: int, l: int|
        0 <= k < l < part.len() ==> #[trigger] origin[k] < #[trigger] origin[l]
}

/// Compacts a conversation to a size budget.
///
/// The preamble (the first message) always stays and does not count. Of the
/// rest, the most recent messages stay for as long as the messages after them
/// weigh no more than `size`; among those, only the most recent status
/// snapshot stays. The order of the messages that stay is unchanged.
///
/// The first clause says all of this exactly; the others spell out what
/// follows for the preamble, the latest message, the status snapshots and
/// the order.
pub fn prune(messages: Vec<Message>, size: u64) -> (kept: Vec<Message>)
    ensures
        kept.deep_view() == compacted(messages.deep_view(), size as nat),
        messages.len() > 0 ==> kept.len() > 0 && kept.deep_view()[0] == messages.deep_view()[0],
        messages.len() >= 2 ==> kept.len() >= 2 && kept.deep_view().last()
            == messages.deep_view().last(),
        messages.len() <= 1 ==> kept.deep_view() == messages.deep_view(),
        forall|k: int, l: int|
            1 <= k < l < kept.len() ==> !((#[trigger] kept.deep_view()[k]).is_status() && (
            #[trigger] kept.deep_view()[l]).is_status()),
        forall|k: int|
            1 <= k < kept.len() && (#[trigger] kept.deep_view()[k]).is_status() ==> exists|i: int|
                in_window(messages.deep_view(), size as nat, i) && !status_from(
                    messages.deep_view(),
                    i + 1,
                ) && kept.deep_view()[k] == #[trigger] messages.deep_view()[i],
        exists|origin: Seq<int>| embeds(kept.deep_view(), messages.deep_view(), origin),
{
    let ghost log = messages.deep_view();
    let ghost budget = size as nat;
    let mut messages = messages;
    let mut recent: Vec<Message> = Vec::new();
    let mut room: u64 = size;
    let mut exceeded = false;
    let mut seen_status = false;
    while messages.len() > 1 && !exceeded
        invariant
            messages.len() <= log.len(),
            log.len() > 0 ==> messages.len() > 0,
            messages.deep_view() == log.take(messages.len() as int),
            recent.deep_view().reverse() == survivors_from(log, budget, messages.len() as int),
            !exceeded ==> room + weight_from(log, messages.len() as int) == budget,
            exceeded ==> weight_from(log, messages.len() as int) > budget,
            seen_status == status_from(log, messages.len() as int),
            budget == size,
        decreases messages.len(),
    {
        let ghost n = messages.len() as int;
        let ghost before = recent.deep_view();
        let msg = messages.pop().unwrap();
        let weight: u128 = msg.weight();
        let status = is_status(&msg);
        proof {
            assert(msg@ == log[n - 1]) by {
                assert(log.take(n)[n - 1] == log[n - 1]);
            }
            assert(messages.deep_view() == log.take(n - 1));
            assert(status_from(log, n - 1) == (status || seen_status)) by {
                if status_from(log, n - 1) && !status {
                    let j = choose|j: int|
                        n - 1 <= j < log.len() && 0 <= j && (#[trigger] log[j]).is_status();
                    assert(n <= j);
                }
                if seen_status {
                    let j = choose|j: int|
                        n <= j < log.len() && 0 <= j && (#[trigger] log[j]).is_status();
                    assert(n - 1 <= j);
                }
            }
            assert(in_window(log, budget, n - 1));
            assert(is_stale(log, n - 1) == (status && seen_status));
        }
        if !(status && seen_status) {
            recent.push(msg);
            proof {
                assert(recent.deep_view() == before.push(log[n - 1]));
                assert(before.push(log[n - 1]).reverse() == seq![log[n - 1]] + before.reverse());
            }
        }
        if status {
            seen_status = true;
        }
        if weight > room as u128 {
            exceeded = true;
        } else {
            room = room - weight as u64;
        }
    }
    let ghost scanned = messages.len() as int;
    messages.truncate(1);
    proof {
        if scanned > 1 {
            lemma_nothing_survives_before_cut(log, budget, 1, scanned);
        }
        if scanned >= 1 {
            assert(log.take(scanned)[0] == log[0]);
            assert(messages.deep_view() == seq![log[0]]);
        } else {
            assert(messages.deep_view() == Seq::<MessageView>::empty());
        }
    }
    while recent.len() > 0
        invariant
            messages.deep_view() + recent.deep_view().reverse() == compacted(log, budget),
        decreases recent.len(),
    {
        let ghost head = messages.deep_view();
        let ghost rest = recent.deep_view();
        let msg = recent.pop().unwrap();
        messages.push(msg);
        proof {
            let last = rest.len() - 1;
            assert(recent.deep_view() == rest.take(last));
            assert(messages.deep_view() == head.push(rest[last]));
            assert(head + rest.reverse() == head.push(rest[last]) + rest.take(last).reverse());
        }
    }
    proof {
        assert(recent.deep_view().reverse() == Seq::<MessageView>::empty());
        assert(messages.deep_view() + Seq::<MessageView>::empty() == messages.deep_view());
        if log.len() >= 2 {
            law_latest_kept(log, budget);
        }
        if log.len() <= 1 {
            law_preamble_alone(log, budget);
        }
        law_single_status(log, budget);
        let origin = law_order_kept(log, budget);
        assert(embeds(messages.deep_view(), log, origin));
    }
    messages
}

/// The preamble always stays in first place.
pub proof fn law_preamble_kept(log: Seq<MessageView>, budget: nat)
    requires
        log.len() > 0,
    ensures
        compacted(log, budget).len() > 0,
        compacted(log, budget)[0] == log[0],
{
}

/// A compacted conversation is a conversation still.
pub proof fn law_conversation_kept(log: Seq<MessageView>, budget: nat)
    requires
        is_conversation(log),
    ensures
        is_conversation(compacted(log, budget)),
{
}

/// A conversation that holds the preamble alone, or nothing, is unchanged.
pub proof fn law_preamble_alone(log: Seq<MessageView>, budget: nat)
    requires
        log.len() <= 1,
    ensures
        compacted(log, budget) == log,
{
    if log.len() == 1 {
        assert(survivors_from(log, budget, 1) == Seq::<MessageView>::empty());
        assert(compacted(log, budget) == log);
    }
}

/// Whatever the budget, zero included, the preamble and the most recent
/// message both stay, the latter in last place.
pub proof fn law_latest_kept(log: Seq<MessageView>, budget: nat)
    requires
        log.len() >= 2,
    ensures
        compacted(log, budget).len() >= 2,
        compacted(log, budget)[0] == log[0],
        compacted(log, budget).last() == log.last(),
{
    let out = compacted(log, budget);
    let origin = kept_indices(log, budget, 0);
    let latest = log.len() - 1;
    lemma_kept_indices(log, budget, 0);
    assert(survives(log, budget, latest)) by {
        assert(weight_from(log, latest + 1) == 0);
        assert(!status_from(log, latest + 1));
    }
    let k = choose|k: int| 0 <= k < origin.len() && origin[k] == latest;
    assert(origin[0] == 0);
    if k + 1 < origin.len() {
        assert(origin[k] < origin[k + 1]);
    }
}

/// Compaction keeps the order of the messages: the result is embedded in the
/// conversation by a strictly increasing map of places, which is returned.
/// What is left out lies before the window or is a stale status snapshot, and
/// the window is a suffix of the conversation.
pub proof fn law_order_kept(log: Seq<MessageView>, budget: nat) -> (origin: Seq<int>)
    ensures
        embeds(compacted(log, budget), log, origin),
        forall|i: int|
            0 <= i < log.len() ==> (origin.contains(i) <==> i == 0 || (in_window(log, budget, i)
                && !is_stale(log, i))),
        forall|i: int, j: int|
            in_window(log, budget, i) && i <= j < log.len() ==> in_window(log, budget, j),
{
    let origin = kept_indices(log, budget, 0);
    lemma_kept_indices(log, budget, 0);
    assert forall|i: int| 0 <= i < log.len() && origin.contains(i) implies survives(
        log,
        budget,
        i,
    ) by {
        let k = choose|k: int| 0 <= k < origin.len() && origin[k] == i;
        assert(survives(log, budget, origin[k]));
    }
    assert forall|i: int, j: int| in_window(log, budget, i) && i <= j < log.len() implies in_window(
        log,
        budget,
        j,
    ) by {
        lemma_weight_from_monotone(log, i + 1, j + 1);
    }
    origin
}

/// After the preamble at most one status snapshot stays, and it is the most
/// recent status snapshot of the window; one stays whenever the window holds
/// one. In a conversation, whose preamble is no status snapshot, the result
/// thus holds at most one in all.
pub proof fn law_single_status(log: Seq<MessageView>, budget: nat)
    ensures
        forall|k: int, l: int|
            1 <= k < l < compacted(log, budget).len() ==> !((#[trigger] compacted(
                log,
                budget,
            )[k]).is_status() && (#[trigger] compacted(log, budget)[l]).is_status()),
        forall|k: int|
            1 <= k < compacted(log, budget).len() && (#[trigger] compacted(
                log,
                budget,
            )[k]).is_status() ==> exists|i: int|
                in_window(log, budget, i) && !status_from(log, i + 1) && compacted(log, budget)[k]
                    == #[trigger] log[i],
        forall|i: int|
            in_window(log, budget, i) && (#[trigger] log[i]).is_status() ==> exists|k: int|
                1 <= k < compacted(log, budget).len() && (#[trigger] compacted(
                    log,
                    budget,
                )[k]).is_status(),
        is_conversation(log) ==> forall|k: int, l: int|
            0 <= k < l < compacted(log, budget).len() ==> !((#[trigger] compacted(
                log,
                budget,
            )[k]).is_status() && (#[trigger] compacted(log, budget)[l]).is_status()),
{
    let out = compacted(log, budget);
    let origin = kept_indices(log, budget, 0);
    lemma_kept_indices(log, budget, 0);
    assert forall|k: int, l: int| 1 <= k < l < out.len() implies !((#[trigger] out[k]).is_status()
        && (#[trigger] out[l]).is_status()) by {
        if out[k].is_status() && out[l].is_status() {
            assert(origin[0] < origin[k] < origin[l]);
            assert(survives(log, budget, origin[k]));
            assert(log[origin[l]].is_status());
            assert(status_from(log, origin[k] + 1));
        }
    }
    assert forall|k: int| 1 <= k < out.len() && (#[trigger] out[k]).is_status() implies exists|
        i: int,
    |
        in_window(log, budget, i) && !status_from(log, i + 1) && out[k] == #[trigger] log[i] by {
        assert(origin[0] < origin[k]);
        assert(survives(log, budget, origin[k]));
        assert(out[k] == log[origin[k]]);
    }
    assert forall|i: int| in_window(log, budget, i) && (#[trigger] log[i]).is_status() implies exists|
        k: int,
    |
        1 <= k < out.len() && (#[trigger] out[k]).is_status() by {
        let newest = newest_status(log, i);
        lemma_newest_status(log, i);
        lemma_weight_from_monotone(log, i + 1, newest + 1);
        assert(survives(log, budget, newest));
        let k = choose|k: int| 0 <= k < origin.len() && origin[k] == newest;
        assert(origin[0] == 0);
        assert(out[k] == log[origin[k]]);
    }
}

/// Compacting a compacted conversation again, to the same budget, changes
/// nothing.
pub proof fn law_idempotent(log: Seq<MessageView>, budget: nat)
    ensures
        compacted(compacted(log, budget), budget) == compacted(log, budget),
{
    let out = compacted(log, budget);
    lemma_result_in_window(log, budget);
    law_single_status(log, budget);
    lemma_all_survive(out, budget, 0);
    assert(out.skip(0) == out);
}

/// The budget is a soft ceiling: what stays after the preamble may outweigh
/// the budget, but by no more than the weight of the oldest message that
/// stays.
pub proof fn law_soft_ceiling(log: Seq<MessageView>, budget: nat)
    ensures
        compacted(log, budget).len() >= 2 ==> weight_from(compacted(log, budget), 1) <= budget
            + compacted(log, budget)[1].weight(),
{
    let out = compacted(log, budget);
    lemma_result_in_window(log, budget);
    if out.len() >= 2 {
        assert(in_window(out, budget, 1));
    }
}

/// A conversation whose messages after the preamble weigh no more than the
/// budget, and hold at most one status snapshot, is unchanged.
pub proof fn law_within_budget_unchanged(log: Seq<MessageView>, budget: nat)
    requires
        weight_from(log, 1) <= budget,
        forall|i: int, j: int|
            1 <= i < j < log.len() ==> !((#[trigger] log[i]).is_status() && (
            #[trigger] log[j]).is_status()),
    ensures
        compacted(log, budget) == log,
{
    assert forall|k: int| 1 <= k < log.len() implies #[trigger] in_window(log, budget, k) by {
        lemma_weight_from_monotone(log, 1, k + 1);
    }
    lemma_all_survive(log, budget, 0);
    assert(log.skip(0) == log);
}

/// The weight of a suffix shrinks as the suffix does.
proof fn lemma_weight_from_monotone(log: Seq<MessageView>, i: int, j: int)
    requires
        0 <= i <= j,
    ensures
        weight_from(log, j) <= weight_from(log, i),
    decreases j - i,
{
    if i < j && i < log.len() {
        lemma_weight_from_monotone(log, i + 1, j);
    }
}

/// Once the messages from `cut` on outweigh the budget, nothing between the
/// preamble and `cut` survives.
proof fn lemma_nothing_survives_before_cut(log: Seq<MessageView>, budget: nat, from: int, cut: int)
    requires
        1 <= from <= cut <= log.len(),
        weight_from(log, cut) > budget,
    ensures
        survivors_from(log, budget, from) == survivors_from(log, budget, cut),
    decreases cut - from,
{
    if from < cut {
        lemma_weight_from_monotone(log, from + 1, cut);
        lemma_nothing_survives_before_cut(log, budget, from + 1, cut);
    }
}

/// The survivors from `from` on are the messages at the kept indices, which
/// are exactly the surviving indices from `from` on, in increasing order.
proof fn lemma_kept_indices(log: Seq<MessageView>, budget: nat, from: int)
    requires
        0 <= from,
    ensures
        embeds(survivors_from(log, budget, from), log, kept_indices(log, budget, from)),
        forall|k: int|
            0 <= k < kept_indices(log, budget, from).len() ==> from <= #[trigger] kept_indices(
                log,
                budget,
                from,
            )[k] && survives(log, budget, kept_indices(log, budget, from)[k]),
        forall|i: int|
            from <= i < log.len() && survives(log, budget, i) ==> kept_indices(
                log,
                budget,
                from,
            ).contains(i),
    decreases log.len() - from,
{
    let here = kept_indices(log, budget, from);
    if from < log.len() {
        lemma_kept_indices(log, budget, from + 1);
        let rest = kept_indices(log, budget, from + 1);
        if survives(log, budget, from) {
            assert(here[0] == from);
            assert forall|k: int| 1 <= k < here.len() implies here[k] == rest[k - 1] by {}
            assert forall|i: int|
                from <= i < log.len() && survives(log, budget, i) implies here.contains(i) by {
                if i == from {
                    assert(here[0] == i);
                } else {
                    let k = choose|k: int| 0 <= k < rest.len() && rest[k] == i;
                    assert(here[k + 1] == i);
                }
            }
        }
    }
}

/// A part embedded in a whole weighs, from any of its messages on, no more
/// than the whole does from that message's place on.
proof fn lemma_embedded_weight(
    part: Seq<MessageView>,
    whole: Seq<MessageView>,
    origin: Seq<int>,
    k: int,
)
    requires
        embeds(part, whole, origin),
        0 <= k < part.len(),
    ensures
        weight_from(part, k) <= weight_from(whole, origin[k]),
    decreases part.len() - k,
{
    assert(0 <= origin[k] < whole.len() && part[k] == whole[origin[k]]);
    if k + 1 < part.len() {
        lemma_embedded_weight(part, whole, origin, k + 1);
        assert(origin[k] < origin[k + 1]);
        lemma_weight_from_monotone(whole, origin[k] + 1, origin[k + 1]);
    } else {
        assert(weight_from(part, k + 1) == 0);
    }
}

/// In a compacted conversation every message after the preamble lies in the
/// window.
proof fn lemma_result_in_window(log: Seq<MessageView>, budget: nat)
    ensures
        forall|k: int|
            1 <= k < compacted(log, budget).len() ==> #[trigger] in_window(
                compacted(log, budget),
                budget,
                k,
            ),
{
    let out = compacted(log, budget);
    let origin = kept_indices(log, budget, 0);
    lemma_kept_indices(log, budget, 0);
    assert forall|k: int| 1 <= k < out.len() implies #[trigger] in_window(out, budget, k) by {
        assert(origin[0] < origin[k]);
        assert(survives(log, budget, origin[k]));
        if k + 1 < out.len() {
            lemma_embedded_weight(out, log, origin, k + 1);
            assert(origin[k] < origin[k + 1]);
            lemma_weight_from_monotone(log, origin[k] + 1, origin[k + 1]);
        }
    }
}

/// A conversation in which every message after the preamble lies in the
/// window and no two of them are status snapshots is left as it is.
proof fn lemma_all_survive(log: Seq<MessageView>, budget: nat, from: int)
    requires
        0 <= from <= log.len(),
        forall|k: int| 1 <= k < log.len() ==> #[trigger] in_window(log, budget, k),
        forall|i: int, j: int|
            1 <= i < j < log.len() ==> !((#[trigger] log[i]).is_status() && (
            #[trigger] log[j]).is_status()),
    ensures
        survivors_from(log, budget, from) == log.skip(from),
    decreases log.len() - from,
{
    if from < log.len() {
        lemma_all_survive(log, budget, from + 1);
        assert(survives(log, budget, from)) by {
            if from >= 1 && is_stale(log, from) {
                let j = choose|j: int|
                    from + 1 <= j < log.len() && 0 <= j && (#[trigger] log[j]).is_status();
                assert(log[from].is_status() && log[j].is_status());
            }
        }
        assert(log.skip(from) == seq![log[from]] + log.skip(from + 1));
    } else {
        assert(log.skip(from) == Seq::<MessageView>::empty());
    }
}

/// The place of the most recent status snapshot at `from` or later, given
/// that one stands at `from`.
spec fn newest_status(log: Seq<MessageView>, from: int) -> int
    decreases log.len() - from,
{
    if from + 1 < log.len() && status_from(log, from + 1) {
        let next = choose|j: int|
            from + 1 <= j < log.len() && 0 <= j && (#[trigger] log[j]).is_status();
        newest_status(log, next)
    } else {
        from
    }
}

/// The newest status snapshot from `from` on is one, and none follows it.
proof fn lemma_newest_status(log: Seq<MessageView>, from: int)
    requires
        0 <= from < log.len(),
        log[from].is_status(),
    ensures
        from <= newest_status(log, from) < log.len(),
        log[newest_status(log, from)].is_status(),
        !status_from(log, newest_status(log, from) + 1),
    decreases log.len() - from,
{
    if from + 1 < log.len() && status_from(log, from + 1) {
        let next = choose|j: int|
            from + 1 <= j < log.len() && 0 <= j && (#[trigger] log[j]).is_status();
        lemma_newest_status(log, next);
    }
}

} // verus!
