//! What holds of the packet path over more than one frame.

use crate::egress::{ends_flow, lemma_egress_tracks_flow, lemma_reset_forgets_flow, lemma_tc_keeps_state, tc_spec};
use crate::flow::{egress_flow, flow_hash, ingress_flow, lemma_reply_shares_flow};
use crate::ingress::{lemma_tracked_flow_passes, lemma_unmatched_is_dropped, lemma_xdp_keeps_state, packet_key, xdp_spec};
use crate::lru::{lemma_put, lru_contains, lru_get};
use crate::packet::{decode_spec, Decoded, Packet};
use crate::ratelimit::{next_count, ratelimit_key};
use crate::rule::{key_matches, lookup_spec, table_well_formed, RuleEntry, RuleValue};
use crate::state::{state_well_formed, StateView};
use crate::verdict::{XDP_DROP, XDP_PASS};
use vstd::prelude::*;

verus! {

/// Whether `reply` travels the way back of `sent`.
pub open spec fn answers(reply: Packet, sent: Packet) -> bool {
    &&& reply.source_ip == sent.destination_ip
    &&& reply.source_port == sent.destination_port
    &&& reply.destination_ip == sent.source_ip
    &&& reply.destination_port == sent.source_port
}

/// Stateful return: once a packet has left that does not end its flow,
/// a packet that answers it passes on ingress, whatever the rules are.
pub proof fn lemma_return_traffic_passes(
    pre: StateView,
    out_frame: Seq<u8>,
    out_time: u64,
    sent: Packet,
    in_frame: Seq<u8>,
    in_time: u64,
    reply: Packet,
)
    requires
        state_well_formed(pre),
        decode_spec(out_frame) == Decoded::Ip(sent),
        !ends_flow(sent),
        decode_spec(in_frame) == Decoded::Ip(reply),
        answers(reply, sent),
    ensures
        xdp_spec(tc_spec(pre, out_frame, out_time).0, in_frame, in_time).1 == XDP_PASS,
{
    let mid = tc_spec(pre, out_frame, out_time).0;
    lemma_tc_keeps_state(pre, out_frame, out_time);
    lemma_egress_tracks_flow(pre, out_frame, out_time, sent);
    lemma_reply_shares_flow(sent, reply);
    lemma_tracked_flow_passes(mid, in_frame, in_time, reply);
}

/// A change of rules does not close a flow this host opened: a packet
/// that answers one that left passes, whatever rule table took the place
/// of the one in force when the flow was opened.
pub proof fn lemma_rule_change_keeps_open_flows(
    pre: StateView,
    out_frame: Seq<u8>,
    out_time: u64,
    sent: Packet,
    rules: Seq<RuleEntry>,
    in_frame: Seq<u8>,
    in_time: u64,
    reply: Packet,
)
    requires
        state_well_formed(pre),
        decode_spec(out_frame) == Decoded::Ip(sent),
        !ends_flow(sent),
        table_well_formed(rules),
        decode_spec(in_frame) == Decoded::Ip(reply),
        answers(reply, sent),
    ensures
        xdp_spec(
            StateView { rules, ..tc_spec(pre, out_frame, out_time).0 },
            in_frame,
            in_time,
        ).1 == XDP_PASS,
{
    let mid = StateView { rules, ..tc_spec(pre, out_frame, out_time).0 };
    lemma_tc_keeps_state(pre, out_frame, out_time);
    lemma_egress_tracks_flow(pre, out_frame, out_time, sent);
    lemma_reply_shares_flow(sent, reply);
    lemma_tracked_flow_passes(mid, in_frame, in_time, reply);
}

/// Once a TCP reset has left, a packet that answers it is judged by the
/// rules alone again: with no rule that matches it, it is dropped.
pub proof fn lemma_reset_closes_return_path(
    pre: StateView,
    out_frame: Seq<u8>,
    out_time: u64,
    sent: Packet,
    in_frame: Seq<u8>,
    in_time: u64,
    reply: Packet,
)
    requires
        state_well_formed(pre),
        decode_spec(out_frame) == Decoded::Ip(sent),
        ends_flow(sent),
        decode_spec(in_frame) == Decoded::Ip(reply),
        answers(reply, sent),
        forall|i: int|
            0 <= i < pre.rules.len() ==> !key_matches(
                (#[trigger] pre.rules[i]).key,
                packet_key(reply),
            ),
    ensures
        xdp_spec(tc_spec(pre, out_frame, out_time).0, in_frame, in_time).1 == XDP_DROP,
{
    let mid = tc_spec(pre, out_frame, out_time).0;
    lemma_tc_keeps_state(pre, out_frame, out_time);
    lemma_reset_forgets_flow(pre, out_frame, out_time, sent);
    lemma_reply_shares_flow(sent, reply);
    lemma_unmatched_is_dropped(mid, in_frame, in_time, reply);
}

/// The verdict on the frame at place `at` of a stream of frames that
/// arrive one after the other, `frames[i]` at `times[i]`.
pub open spec fn verdict_at(pre: StateView, frames: Seq<Seq<u8>>, times: Seq<u64>, at: nat) -> u32
    decreases at,
{
    if at == 0 {
        xdp_spec(pre, frames[0], times[0]).1
    } else {
        verdict_at(
            xdp_spec(pre, frames[0], times[0]).0,
            frames.drop_first(),
            times.drop_first(),
            (at - 1) as nat,
        )
    }
}

/// How many frames of a stream pass.
pub open spec fn passed_frames(pre: StateView, frames: Seq<Seq<u8>>, times: Seq<u64>) -> nat
    decreases frames.len(),
{
    if frames.len() == 0 {
        0
    } else {
        let first: nat = if xdp_spec(pre, frames[0], times[0]).1 == XDP_PASS {
            1
        } else {
            0
        };
        first + passed_frames(
            xdp_spec(pre, frames[0], times[0]).0,
            frames.drop_first(),
            times.drop_first(),
        )
    }
}

/// The packets counted so far under `key` in the current window.
pub open spec fn counted(limits: Seq<crate::lru::Slot>, key: u64) -> nat {
    match lru_get(limits, key) {
        Some(count) => count as nat,
        None => 0,
    }
}

/// Whether `frame` carries a packet from `source` that belongs to no
/// tracked flow and is judged by `rule`.
pub open spec fn frame_under_rule(pre: StateView, frame: Seq<u8>, source: u32, rule: RuleValue)
    -> bool {
    match decode_spec(frame) {
        Decoded::Ip(packet) => packet.source_ip == source && !lru_contains(
            pre.flows,
            flow_hash(ingress_flow(packet)),
        ) && lookup_spec(pre.rules, packet_key(packet)) == Some(rule),
        _ => false,
    }
}

/// Whether every frame of a stream carries a packet from `source` that
/// belongs to no tracked flow and is judged by `rule`.
pub open spec fn stream_under_rule(
    pre: StateView,
    frames: Seq<Seq<u8>>,
    source: u32,
    rule: RuleValue,
) -> bool {
    forall|i: int|
        0 <= i < frames.len() ==> frame_under_rule(pre, #[trigger] frames[i], source, rule)
}

/// One frame of such a stream passes exactly if it brings the count to
/// no more than the limit, is dropped otherwise, and leaves the count one
/// higher with flows and rules as they were.
proof fn lemma_limited_step(
    pre: StateView,
    frame: Seq<u8>,
    now: u64,
    source: u32,
    rule: RuleValue,
)
    requires
        state_well_formed(pre),
        rule.ratelimit != 0,
        frame_under_rule(pre, frame, source, rule),
    ensures
        state_well_formed(xdp_spec(pre, frame, now).0),
        xdp_spec(pre, frame, now).0.flows == pre.flows,
        xdp_spec(pre, frame, now).0.rules == pre.rules,
        counted(xdp_spec(pre, frame, now).0.limits, ratelimit_key(source, rule.id)) == next_count(
            lru_get(pre.limits, ratelimit_key(source, rule.id)),
        ),
        xdp_spec(pre, frame, now).1 == if counted(pre.limits, ratelimit_key(source, rule.id)) + 1
            <= rule.ratelimit {
            XDP_PASS
        } else {
            XDP_DROP
        },
{
    let key = ratelimit_key(source, rule.id);
    lemma_xdp_keeps_state(pre, frame, now);
    lemma_put(pre.limits, pre.limit_capacity, key, next_count(lru_get(pre.limits, key)));
}

/// Within one window, the frames of one source that one rate-limited
/// rule judges pass until the rule's limit is used up, and are dropped
/// from then on: the frame at place `at` passes exactly if the packets
/// counted before the stream, those before it in the stream, and itself
/// are no more than the limit.
pub proof fn lemma_ratelimit_by_place(
    pre: StateView,
    frames: Seq<Seq<u8>>,
    times: Seq<u64>,
    source: u32,
    rule: RuleValue,
    at: nat,
)
    requires
        state_well_formed(pre),
        times.len() == frames.len(),
        rule.ratelimit != 0,
        stream_under_rule(pre, frames, source, rule),
        at < frames.len(),
    ensures
        verdict_at(pre, frames, times, at) == if counted(
            pre.limits,
            ratelimit_key(source, rule.id),
        ) + at + 1 <= rule.ratelimit {
            XDP_PASS
        } else {
            XDP_DROP
        },
    decreases at,
{
    lemma_limited_step(pre, frames[0], times[0], source, rule);
    if at > 0 {
        let post = xdp_spec(pre, frames[0], times[0]).0;
        let rest = frames.drop_first();
        assert forall|i: int| 0 <= i < rest.len() implies frame_under_rule(
            post,
            #[trigger] rest[i],
            source,
            rule,
        ) by {
            assert(rest[i] == frames[i + 1]);
            assert(frame_under_rule(pre, frames[i + 1], source, rule));
        }
        lemma_ratelimit_by_place(post, rest, times.drop_first(), source, rule, (at - 1) as nat);
    }
}

/// Within one window, of the frames of one source that one rate-limited
/// rule judges, no more pass than the rule allows; not even as many
/// where packets of that source were counted before.
pub proof fn lemma_ratelimit_is_a_ceiling(
    pre: StateView,
    frames: Seq<Seq<u8>>,
    times: Seq<u64>,
    source: u32,
    rule: RuleValue,
)
    requires
        state_well_formed(pre),
        times.len() == frames.len(),
        rule.ratelimit != 0,
        stream_under_rule(pre, frames, source, rule),
    ensures
        passed_frames(pre, frames, times) <= rule.ratelimit,
        passed_frames(pre, frames, times) + counted(pre.limits, ratelimit_key(source, rule.id))
            <= rule.ratelimit || passed_frames(pre, frames, times) == 0,
    decreases frames.len(),
{
    if frames.len() > 0 {
        lemma_limited_step(pre, frames[0], times[0], source, rule);
        let post = xdp_spec(pre, frames[0], times[0]).0;
        let rest = frames.drop_first();
        assert forall|i: int| 0 <= i < rest.len() implies frame_under_rule(
            post,
            #[trigger] rest[i],
            source,
            rule,
        ) by {
            assert(rest[i] == frames[i + 1]);
            assert(frame_under_rule(pre, frames[i + 1], source, rule));
        }
        lemma_ratelimit_is_a_ceiling(post, rest, times.drop_first(), source, rule);
    }
}

} // verus!
