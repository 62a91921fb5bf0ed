//! The egress flow recorder: what an outgoing frame leaves behind.

use crate::analytics::{action_count, count_up, record_action, with_action};
use crate::ledger::lemma_ledger_set;
use crate::flow::{egress_flow, flow_hash, flow_of_egress, hash_flow};
use crate::lru::{lemma_put, lemma_without, lru_contains, lru_get, lru_put, lru_without};
use crate::packet::{decode, decode_spec, Decoded, Packet, PROTO_TCP};
use crate::state::{state_well_formed, State, StateView};
use crate::verdict::TC_ACT_PIPE;
use vstd::prelude::*;

verus! {

/// Whether an outgoing packet ends its flow: a TCP segment with the reset
/// flag does; nothing else does, a segment that only finishes one
/// direction included.
pub open spec fn ends_flow(packet: Packet) -> bool {
    packet.protocol == PROTO_TCP && packet.reset
}

/// The state an outgoing packet leaves at `now`: its flow is forgotten if
/// the packet ends it, and seen anew otherwise.
pub open spec fn record_spec(pre: StateView, packet: Packet, now: u64) -> StateView {
    let flow = flow_hash(egress_flow(packet));
    if ends_flow(packet) {
        StateView { flows: lru_without(pre.flows, flow), ..pre }
    } else {
        StateView { flows: lru_put(pre.flows, pre.flow_capacity, flow, now), ..pre }
    }
}

/// What the egress recorder makes of a frame: a frame that cannot be
/// decoded is an error and leaves nothing behind; any other goes through, and if it carries a
/// packet of a tracked transport, its flow is recorded as
/// [`record_spec`] says.
pub open spec fn egress_spec(pre: StateView, frame: Seq<u8>, now: u64) -> (
    StateView,
    Result<i32, ()>,
) {
    match decode_spec(frame) {
        Decoded::BoundsExceeded => (pre, Err(())),
        Decoded::NotIpv4 => (pre, Ok(TC_ACT_PIPE)),
        Decoded::Unsupported => (pre, Ok(TC_ACT_PIPE)),
        Decoded::Ip(packet) => (record_spec(pre, packet, now), Ok(TC_ACT_PIPE)),
    }
}

/// What the egress hook makes of a frame: every frame goes through,
/// also one that the recorder could not decode, and the state is what
/// the recorder left, with the verdict counted.
pub open spec fn tc_spec(pre: StateView, frame: Seq<u8>, now: u64) -> (StateView, i32) {
    let mid = egress_spec(pre, frame, now).0;
    (StateView { tc_counts: with_action(mid.tc_counts, TC_ACT_PIPE as i64), ..mid }, TC_ACT_PIPE)
}

/// The egress recorder: records the flow of a frame that leaves at `now`;
/// see [`egress_spec`].
pub fn ghostwire_egress_fallible(state: &mut State, frame: &[u8], now: u64) -> (outcome: Result<
    i32,
    (),
>)
    requires
        old(state).wf(),
    ensures
        final(state).wf(),
        final(state)@ == egress_spec(old(state)@, frame@, now).0,
        outcome == egress_spec(old(state)@, frame@, now).1,
{
    match decode(frame) {
        Decoded::BoundsExceeded => Err(()),
        Decoded::NotIpv4 => Ok(TC_ACT_PIPE),
        Decoded::Unsupported => Ok(TC_ACT_PIPE),
        Decoded::Ip(packet) => {
            let flow = hash_flow(&flow_of_egress(&packet));
            if packet.protocol == PROTO_TCP && packet.reset {
                state.holepunched.remove(flow);
            } else {
                state.holepunched.upsert(flow, now);
            }
            Ok(TC_ACT_PIPE)
        },
    }
}

/// The egress hook: records the flow of a frame that leaves at `now` and
/// lets the frame go through, whatever it is; see [`tc_spec`].
pub fn ghostwire_tc(state: &mut State, frame: &[u8], now: u64) -> (verdict: i32)
    requires
        old(state).wf(),
    ensures
        final(state).wf(),
        final(state)@ == tc_spec(old(state)@, frame@, now).0,
        verdict == tc_spec(old(state)@, frame@, now).1,
        verdict == TC_ACT_PIPE,
{
    let verdict = match ghostwire_egress_fallible(state, frame, now) {
        Ok(code) => code,
        Err(_) => TC_ACT_PIPE,
    };
    record_action(&mut state.tc_analytic_map, verdict as i64);
    verdict
}


/// The egress hook keeps the state well formed and touches nothing but
/// the flow table and its own counts.
pub proof fn lemma_tc_keeps_state(pre: StateView, frame: Seq<u8>, now: u64)
    requires
        state_well_formed(pre),
    ensures
        state_well_formed(tc_spec(pre, frame, now).0),
        tc_spec(pre, frame, now).0 == (StateView {
            flows: tc_spec(pre, frame, now).0.flows,
            tc_counts: tc_spec(pre, frame, now).0.tc_counts,
            ..pre
        }),
{
    let mid = egress_spec(pre, frame, now).0;
    let verdict = tc_spec(pre, frame, now).1;
    match decode_spec(frame) {
        Decoded::Ip(packet) => {
            let flow = flow_hash(egress_flow(packet));
            lemma_put(pre.flows, pre.flow_capacity, flow, now);
            lemma_without(pre.flows, pre.flow_capacity, flow);
        },
        _ => {},
    }
    lemma_ledger_set(
        mid.tc_counts,
        verdict as i64,
        count_up(action_count(mid.tc_counts, verdict as i64)),
    );
}

/// Egress is never blocked: every frame goes through.
pub proof fn lemma_egress_goes_through(pre: StateView, frame: Seq<u8>, now: u64)
    ensures
        tc_spec(pre, frame, now).1 == TC_ACT_PIPE,
{
}

/// An outgoing packet that does not end its flow leaves the flow
/// tracked, seen at the time the packet left.
pub proof fn lemma_egress_tracks_flow(pre: StateView, frame: Seq<u8>, now: u64, packet: Packet)
    requires
        state_well_formed(pre),
        decode_spec(frame) == Decoded::Ip(packet),
        !ends_flow(packet),
    ensures
        lru_get(tc_spec(pre, frame, now).0.flows, flow_hash(egress_flow(packet))) == Some(now),
{
    lemma_put(pre.flows, pre.flow_capacity, flow_hash(egress_flow(packet)), now);
}

/// An outgoing TCP reset leaves its flow untracked.
pub proof fn lemma_reset_forgets_flow(pre: StateView, frame: Seq<u8>, now: u64, packet: Packet)
    requires
        state_well_formed(pre),
        decode_spec(frame) == Decoded::Ip(packet),
        ends_flow(packet),
    ensures
        !lru_contains(tc_spec(pre, frame, now).0.flows, flow_hash(egress_flow(packet))),
{
    lemma_without(pre.flows, pre.flow_capacity, flow_hash(egress_flow(packet)));
}

} // verus!
