//! Verdict codes of the two packet hooks and their metric labels.

use vstd::prelude::*;

verus! {

/// What the ingress hook returns for a frame that could not be decoded.
pub const XDP_ABORTED: u32 = 0;

/// What the ingress hook returns for a frame that is discarded.
pub const XDP_DROP: u32 = 1;

/// What the ingress hook returns for a frame that goes on into the host.
pub const XDP_PASS: u32 = 2;

/// What other ingress programs return for a frame that is sent back out.
pub const XDP_TX: u32 = 3;

/// What other ingress programs return for a frame that goes to another
/// interface.
pub const XDP_REDIRECT: u32 = 4;

/// What an egress program returns for a packet that is accepted.
pub const TC_ACT_OK: i32 = 0;

/// What an egress program returns for a packet that is discarded.
pub const TC_ACT_SHOT: i32 = 2;

/// What the egress hook returns for a packet that goes on to the next
/// action.
pub const TC_ACT_PIPE: i32 = 3;

/// Whether `code` is one of the three verdicts the ingress engine gives.
pub open spec fn is_ingress_verdict(code: u32) -> bool {
    code == XDP_PASS || code == XDP_DROP || code == XDP_ABORTED
}

/// The metric label of an ingress verdict.
pub fn xdp_action_to_string(action: u32) -> (label: &'static str)
    ensures
        label@ == xdp_label(action as i64),
{
    match action {
        0 => "ABORTED",
        1 => "DROP",
        2 => "PASS",
        3 => "TX",
        4 => "REDIRECT",
        _ => "Unknown",
    }
}

/// The metric label of an egress verdict.
pub fn tc_action_to_string(action: i32) -> (label: &'static str)
    ensures
        label@ == tc_label(action as i64),
{
    match action {
        0 => "OK",
        2 => "SHOT",
        3 => "PIPE",
        _ => "Unknown",
    }
}


/// The metric label of the ingress verdict that is counted under `key`.
pub open spec fn xdp_label(key: i64) -> Seq<char> {
    if key == 0 {
        "ABORTED"@
    } else if key == 1 {
        "DROP"@
    } else if key == 2 {
        "PASS"@
    } else if key == 3 {
        "TX"@
    } else if key == 4 {
        "REDIRECT"@
    } else {
        "Unknown"@
    }
}

/// The metric label of the egress verdict that is counted under `key`.
pub open spec fn tc_label(key: i64) -> Seq<char> {
    if key == 0 {
        "OK"@
    } else if key == 2 {
        "SHOT"@
    } else if key == 3 {
        "PIPE"@
    } else {
        "Unknown"@
    }
}

} // verus!
