//! The ingress decision engine: what happens to a frame that arrives.

use crate::analytics::{
    action_count, analytics_of, count_up, record_action, record_evaluated, record_passed,
    with_action, with_evaluated, with_passed, RuleAnalytics,
};
use crate::ledger::lemma_ledger_set;
use crate::flow::{flow_hash, flow_of_ingress, hash_flow, ingress_flow};
use crate::lru::{lemma_put, lru_contains, lru_get, lru_put};
use crate::packet::{decode, decode_spec, Decoded, Packet};
use crate::ratelimit::{check_limit, key_for, next_count, ratelimit_key, within_limit};
use crate::rule::{is_winner, key_matches, lookup_spec, RuleKey};
use crate::state::{state_well_formed, State, StateView};
use crate::verdict::{is_ingress_verdict, XDP_ABORTED, XDP_DROP, XDP_PASS};
use vstd::prelude::*;

verus! {

/// The fields of a packet that rules are matched on.
pub open spec fn packet_key(packet: Packet) -> RuleKey {
    RuleKey {
        source_ip_range: packet.source_ip,
        destination_ip_range: packet.destination_ip,
        protocol: packet.protocol,
        port_number: packet.destination_port,
    }
}

/// The verdict on a decoded packet that arrives at `now`, and the state
/// it leaves. A packet of a flow this host opened passes, and the flow is
/// seen anew. Any other packet is judged by the most specific rule it
/// matches: without one it is dropped; with one it is counted as judged,
/// then counted against the rule's rate limit, if it has one, and dropped
/// if that brings the count over the limit; else it is counted as passed
/// and passes.
pub open spec fn judge_spec(pre: StateView, packet: Packet, now: u64) -> (StateView, u32) {
    let flow = flow_hash(ingress_flow(packet));
    if lru_contains(pre.flows, flow) {
        (StateView { flows: lru_put(pre.flows, pre.flow_capacity, flow, now), ..pre }, XDP_PASS)
    } else {
        match lookup_spec(pre.rules, packet_key(packet)) {
            None => (pre, XDP_DROP),
            Some(rule) => {
                let judged = with_evaluated(pre.rule_stats, rule.id);
                if rule.ratelimit != 0 {
                    let key = ratelimit_key(packet.source_ip, rule.id);
                    let count = next_count(lru_get(pre.limits, key));
                    let limits = lru_put(pre.limits, pre.limit_capacity, key, count);
                    if !within_limit(count, rule.ratelimit) {
                        (StateView { rule_stats: judged, limits, ..pre }, XDP_DROP)
                    } else {
                        (
                            StateView { rule_stats: with_passed(judged, rule.id), limits, ..pre },
                            XDP_PASS,
                        )
                    }
                } else {
                    (StateView { rule_stats: with_passed(judged, rule.id), ..pre }, XDP_PASS)
                }
            },
        }
    }
}

/// What the ingress engine makes of a frame: a frame that cannot be
/// decoded is an error, a frame that is not IPv4 or whose transport is
/// not tracked passes, any other is judged as [`judge_spec`] says.
pub open spec fn ingress_spec(pre: StateView, frame: Seq<u8>, now: u64) -> (
    StateView,
    Result<u32, u32>,
) {
    match decode_spec(frame) {
        Decoded::BoundsExceeded => (pre, Err(XDP_ABORTED)),
        Decoded::NotIpv4 => (pre, Ok(XDP_PASS)),
        Decoded::Unsupported => (pre, Ok(XDP_PASS)),
        Decoded::Ip(packet) => (judge_spec(pre, packet, now).0, Ok(judge_spec(pre, packet, now).1)),
    }
}

/// What the ingress hook makes of a frame: the verdict of the engine, an
/// error counting as aborted, and the state with that verdict counted.
pub open spec fn xdp_spec(pre: StateView, frame: Seq<u8>, now: u64) -> (StateView, u32) {
    let mid = ingress_spec(pre, frame, now).0;
    let verdict = match ingress_spec(pre, frame, now).1 {
        Ok(code) => code,
        Err(_) => XDP_ABORTED,
    };
    (StateView { xdp_counts: with_action(mid.xdp_counts, verdict as i64), ..mid }, verdict)
}

/// Judges a decoded packet; see [`judge_spec`].
fn judge(state: &mut State, packet: &Packet, now: u64) -> (verdict: u32)
    requires
        old(state).wf(),
    ensures
        final(state).wf(),
        final(state)@ == judge_spec(old(state)@, *packet, now).0,
        verdict == judge_spec(old(state)@, *packet, now).1,
{
    let flow = hash_flow(&flow_of_ingress(packet));
    if state.holepunched.get(flow).is_some() {
        state.holepunched.upsert(flow, now);
        return XDP_PASS;
    }
    let key = RuleKey {
        source_ip_range: packet.source_ip,
        destination_ip_range: packet.destination_ip,
        protocol: packet.protocol,
        port_number: packet.destination_port,
    };
    match state.rule_map.lookup(&key) {
        None => XDP_DROP,
        Some(rule) => {
            record_evaluated(&mut state.rule_analytic_map, rule.id);
            if rule.ratelimit != 0 {
                let count = state.rule_ratelimit_map.increment(key_for(packet.source_ip, rule.id));
                if !check_limit(count, rule.ratelimit) {
                    return XDP_DROP;
                }
            }
            record_passed(&mut state.rule_analytic_map, rule.id);
            XDP_PASS
        },
    }
}

/// The ingress engine: decides what happens to a frame that arrived at
/// `now`; see [`ingress_spec`].
pub fn ghostwire_ingress_fallible(state: &mut State, frame: &[u8], now: u64) -> (outcome: Result<
    u32,
    u32,
>)
    requires
        old(state).wf(),
    ensures
        final(state).wf(),
        final(state)@ == ingress_spec(old(state)@, frame@, now).0,
        outcome == ingress_spec(old(state)@, frame@, now).1,
{
    match decode(frame) {
        Decoded::BoundsExceeded => Err(XDP_ABORTED),
        Decoded::NotIpv4 => Ok(XDP_PASS),
        Decoded::Unsupported => Ok(XDP_PASS),
        Decoded::Ip(packet) => Ok(judge(state, &packet, now)),
    }
}

/// The ingress hook: the verdict on a frame that arrived at `now`, which
/// is pass, drop or aborted, with the verdict counted; see [`xdp_spec`].
pub fn ghostwire_xdp(state: &mut State, frame: &[u8], now: u64) -> (verdict: u32)
    requires
        old(state).wf(),
    ensures
        final(state).wf(),
        final(state)@ == xdp_spec(old(state)@, frame@, now).0,
        verdict == xdp_spec(old(state)@, frame@, now).1,
        verdict == XDP_PASS || verdict == XDP_DROP || verdict == XDP_ABORTED,
{
    let verdict = match ghostwire_ingress_fallible(state, frame, now) {
        Ok(code) => code,
        Err(_) => XDP_ABORTED,
    };
    record_action(&mut state.xdp_analytic_map, verdict as i64);
    verdict
}


/// Every frame gets one of the three ingress verdicts: pass, drop or
/// aborted.
pub proof fn lemma_verdict_is_pass_drop_or_aborted(pre: StateView, frame: Seq<u8>, now: u64)
    ensures
        is_ingress_verdict(xdp_spec(pre, frame, now).1),
        xdp_spec(pre, frame, now).1 == XDP_ABORTED <==> decode_spec(frame)
            is BoundsExceeded,
{
}

/// The ingress hook keeps the state well formed and touches neither the
/// rules, nor the capacities, nor the egress counts, nor the interface.
pub proof fn lemma_xdp_keeps_state(pre: StateView, frame: Seq<u8>, now: u64)
    requires
        state_well_formed(pre),
    ensures
        state_well_formed(xdp_spec(pre, frame, now).0),
        xdp_spec(pre, frame, now).0.rules == pre.rules,
        xdp_spec(pre, frame, now).0.flow_capacity == pre.flow_capacity,
        xdp_spec(pre, frame, now).0.limit_capacity == pre.limit_capacity,
        xdp_spec(pre, frame, now).0.tc_counts == pre.tc_counts,
        xdp_spec(pre, frame, now).0.interface == pre.interface,
{
    let mid = ingress_spec(pre, frame, now).0;
    let verdict = xdp_spec(pre, frame, now).1;
    match decode_spec(frame) {
        Decoded::Ip(packet) => {
            let flow = flow_hash(ingress_flow(packet));
            lemma_put(pre.flows, pre.flow_capacity, flow, now);
            match lookup_spec(pre.rules, packet_key(packet)) {
                Some(rule) => {
                    let kept = analytics_of(pre.rule_stats, rule.id);
                    let judged = with_evaluated(pre.rule_stats, rule.id);
                    lemma_ledger_set(
                        pre.rule_stats,
                        rule.id as i64,
                        RuleAnalytics {
                            rule_id: kept.rule_id,
                            evaluated: count_up(kept.evaluated),
                            passed: kept.passed,
                        },
                    );
                    let again = analytics_of(judged, rule.id);
                    lemma_ledger_set(
                        judged,
                        rule.id as i64,
                        RuleAnalytics {
                            rule_id: again.rule_id,
                            evaluated: again.evaluated,
                            passed: count_up(again.passed),
                        },
                    );
                    let key = ratelimit_key(packet.source_ip, rule.id);
                    lemma_put(
                        pre.limits,
                        pre.limit_capacity,
                        key,
                        next_count(lru_get(pre.limits, key)),
                    );
                },
                None => {},
            }
        },
        _ => {},
    }
    lemma_ledger_set(
        mid.xdp_counts,
        verdict as i64,
        count_up(action_count(mid.xdp_counts, verdict as i64)),
    );
}

/// The analytics only ever grow: whatever frame arrives, no rule's count
/// of packets judged or passed and no verdict's count is lower after it
/// than before.
pub proof fn lemma_analytics_never_decrease(
    pre: StateView,
    frame: Seq<u8>,
    now: u64,
    id: u32,
    action: i64,
)
    requires
        state_well_formed(pre),
    ensures
        analytics_of(xdp_spec(pre, frame, now).0.rule_stats, id).evaluated >= analytics_of(
            pre.rule_stats,
            id,
        ).evaluated,
        analytics_of(xdp_spec(pre, frame, now).0.rule_stats, id).passed >= analytics_of(
            pre.rule_stats,
            id,
        ).passed,
        action_count(xdp_spec(pre, frame, now).0.xdp_counts, action) >= action_count(
            pre.xdp_counts,
            action,
        ),
{
    let mid = ingress_spec(pre, frame, now).0;
    let verdict = xdp_spec(pre, frame, now).1;
    lemma_ledger_set(
        mid.xdp_counts,
        verdict as i64,
        count_up(action_count(mid.xdp_counts, verdict as i64)),
    );
    match decode_spec(frame) {
        Decoded::Ip(packet) => {
            match lookup_spec(pre.rules, packet_key(packet)) {
                Some(rule) => {
                    let kept = analytics_of(pre.rule_stats, rule.id);
                    let judged = with_evaluated(pre.rule_stats, rule.id);
                    lemma_ledger_set(
                        pre.rule_stats,
                        rule.id as i64,
                        RuleAnalytics {
                            rule_id: kept.rule_id,
                            evaluated: count_up(kept.evaluated),
                            passed: kept.passed,
                        },
                    );
                    let again = analytics_of(judged, rule.id);
                    lemma_ledger_set(
                        judged,
                        rule.id as i64,
                        RuleAnalytics {
                            rule_id: again.rule_id,
                            evaluated: again.evaluated,
                            passed: count_up(again.passed),
                        },
                    );
                },
                None => {},
            }
        },
        _ => {},
    }
}

/// The ingress hook opens no flow: a flow that is tracked after a frame
/// arrived was tracked before.
pub proof fn lemma_ingress_opens_no_flow(pre: StateView, frame: Seq<u8>, now: u64, key: u64)
    requires
        state_well_formed(pre),
        lru_contains(xdp_spec(pre, frame, now).0.flows, key),
    ensures
        lru_contains(pre.flows, key),
{
    match decode_spec(frame) {
        Decoded::Ip(packet) => {
            let flow = flow_hash(ingress_flow(packet));
            if lru_contains(pre.flows, flow) && key != flow {
                lemma_put(pre.flows, pre.flow_capacity, flow, now);
                let after = lru_put(pre.flows, pre.flow_capacity, flow, now);
                assert(lru_get(after, key) == lru_get(pre.flows, key));
            }
        },
        _ => {},
    }
}

/// Default drop: a packet of no tracked flow that no rule matches is
/// dropped.
pub proof fn lemma_unmatched_is_dropped(pre: StateView, frame: Seq<u8>, now: u64, packet: Packet)
    requires
        state_well_formed(pre),
        decode_spec(frame) == Decoded::Ip(packet),
        !lru_contains(pre.flows, flow_hash(ingress_flow(packet))),
        forall|i: int|
            0 <= i < pre.rules.len() ==> !key_matches(
                (#[trigger] pre.rules[i]).key,
                packet_key(packet),
            ),
    ensures
        xdp_spec(pre, frame, now).1 == XDP_DROP,
{
    if lookup_spec(pre.rules, packet_key(packet)) is Some {
        let w = choose|w: int| is_winner(pre.rules, packet_key(packet), w);
        assert(key_matches(pre.rules[w].key, packet_key(packet)));
    }
}

/// The flow table is consulted before the rules: a packet of a tracked
/// flow passes whatever the rules say, and its flow is seen anew.
pub proof fn lemma_tracked_flow_passes(pre: StateView, frame: Seq<u8>, now: u64, packet: Packet)
    requires
        state_well_formed(pre),
        decode_spec(frame) == Decoded::Ip(packet),
        lru_contains(pre.flows, flow_hash(ingress_flow(packet))),
    ensures
        xdp_spec(pre, frame, now).1 == XDP_PASS,
        lru_get(xdp_spec(pre, frame, now).0.flows, flow_hash(ingress_flow(packet))) == Some(now),
        xdp_spec(pre, frame, now).0.rule_stats == pre.rule_stats,
        xdp_spec(pre, frame, now).0.limits == pre.limits,
{
    lemma_put(pre.flows, pre.flow_capacity, flow_hash(ingress_flow(packet)), now);
}

} // verus!
