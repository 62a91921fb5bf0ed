//! Counters the packet path keeps: per rule and per verdict.

use crate::ledger::{ledger_get, ledger_set, Ledger, Row};
use vstd::prelude::*;

verus! {

/// How often a rule was consulted and how often it let a packet pass.
#[derive(Debug, Clone, Copy, PartialEq, Eq, Structural)]
pub struct RuleAnalytics {
    /// The identifier of the rule.
    pub rule_id: u32,
    /// Packets judged by the rule.
    pub evaluated: u128,
    /// Packets the rule let pass.
    pub passed: u128,
}

/// A counter after one more event: it never decreases and stays at its
/// largest value once there.
pub open spec fn count_up(count: u128) -> u128 {
    if count < u128::MAX {
        (count + 1) as u128
    } else {
        count
    }
}

/// The analytics of rule `id`: what is kept for it, or zeros.
pub open spec fn analytics_of(rows: Seq<Row<RuleAnalytics>>, id: u32) -> RuleAnalytics {
    match ledger_get(rows, id as i64) {
        Some(kept) => kept,
        None => RuleAnalytics { rule_id: id, evaluated: 0, passed: 0 },
    }
}

/// `rows` after rule `id` judged one more packet.
pub open spec fn with_evaluated(rows: Seq<Row<RuleAnalytics>>, id: u32) -> Seq<
    Row<RuleAnalytics>,
> {
    let kept = analytics_of(rows, id);
    ledger_set(
        rows,
        id as i64,
        RuleAnalytics {
            rule_id: kept.rule_id,
            evaluated: count_up(kept.evaluated),
            passed: kept.passed,
        },
    )
}

/// `rows` after rule `id` let one more packet pass.
pub open spec fn with_passed(rows: Seq<Row<RuleAnalytics>>, id: u32) -> Seq<Row<RuleAnalytics>> {
    let kept = analytics_of(rows, id);
    ledger_set(
        rows,
        id as i64,
        RuleAnalytics {
            rule_id: kept.rule_id,
            evaluated: kept.evaluated,
            passed: count_up(kept.passed),
        },
    )
}

/// How often verdict `action` was given.
pub open spec fn action_count(rows: Seq<Row<u128>>, action: i64) -> u128 {
    match ledger_get(rows, action) {
        Some(count) => count,
        None => 0u128,
    }
}

/// `rows` after verdict `action` was given once more.
pub open spec fn with_action(rows: Seq<Row<u128>>, action: i64) -> Seq<Row<u128>> {
    ledger_set(rows, action, count_up(action_count(rows, action)))
}

/// Adds one to a counter, stopping at the largest value.
fn one_more(count: u128) -> (next: u128)
    ensures
        next == count_up(count),
{
    count.saturating_add(1)
}

/// Counts one more packet judged by rule `id`.
pub fn record_evaluated(table: &mut Ledger<RuleAnalytics>, id: u32)
    requires
        old(table).wf(),
    ensures
        final(table).wf(),
        final(table)@ == with_evaluated(old(table)@, id),
{
    let kept = match table.get(id as i64) {
        Some(kept) => kept,
        None => RuleAnalytics { rule_id: id, evaluated: 0, passed: 0 },
    };
    table.set(
        id as i64,
        RuleAnalytics {
            rule_id: kept.rule_id,
            evaluated: one_more(kept.evaluated),
            passed: kept.passed,
        },
    );
}

/// Counts one more packet that rule `id` let pass.
pub fn record_passed(table: &mut Ledger<RuleAnalytics>, id: u32)
    requires
        old(table).wf(),
    ensures
        final(table).wf(),
        final(table)@ == with_passed(old(table)@, id),
{
    let kept = match table.get(id as i64) {
        Some(kept) => kept,
        None => RuleAnalytics { rule_id: id, evaluated: 0, passed: 0 },
    };
    table.set(
        id as i64,
        RuleAnalytics {
            rule_id: kept.rule_id,
            evaluated: kept.evaluated,
            passed: one_more(kept.passed),
        },
    );
}

/// Counts one more verdict `action`.
pub fn record_action(table: &mut Ledger<u128>, action: i64)
    requires
        old(table).wf(),
    ensures
        final(table).wf(),
        final(table)@ == with_action(old(table)@, action),
{
    let count = match table.get(action) {
        Some(count) => count,
        None => 0,
    };
    table.set(action, one_more(count));
}

} // verus!
