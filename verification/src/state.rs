//! The state of the daemon, and of the firewall while it is enabled: the
//! interface it filters and the tables its two packet hooks share.

use crate::analytics::RuleAnalytics;
use crate::egress::{ghostwire_tc, tc_spec};
use crate::flow::FlowTable;
use crate::ingress::{ghostwire_xdp, xdp_spec};
use crate::prometheus::{
    evaluated_readings, family_of, fed, label_hash, passed_readings, stands_at, tc_readings,
    with_family, with_label, xdp_readings, CountersView, Family, FamilyView, PromCounters,
};
use crate::rule::{entries_of, rule_fault, rules_loadable, RuleError};
use crate::text::{decimal, decimal_text};
use crate::types::Rule;
use crate::ledger::{ledger_set, ledger_well_formed, Ledger, Row};
use crate::lru::{lru_well_formed, Slot};
use crate::ratelimit::RatelimitTable;
use crate::rule::{table_well_formed, RuleEntry, RuleTable};
use vstd::prelude::*;
use vstd::string::StringExecFns;

verus! {

/// The state of the firewall while it is enabled.
pub struct State {
    /// The interface the hooks are attached to.
    pub interface: String,
    /// The flows this host opened, by flow key, with the time last seen.
    pub holepunched: FlowTable,
    /// The rules in force.
    pub rule_map: RuleTable,
    /// Packets counted per source and rule in the current window.
    pub rule_ratelimit_map: RatelimitTable,
    /// Per rule: packets judged and packets passed.
    pub rule_analytic_map: Ledger<RuleAnalytics>,
    /// How often each verdict on ingress was given.
    pub xdp_analytic_map: Ledger<u128>,
    /// How often each verdict on egress was given.
    pub tc_analytic_map: Ledger<u128>,
}

/// What a [`State`] holds, as mathematical values.
pub struct StateView {
    /// The name of the interface.
    pub interface: Seq<char>,
    /// The tracked flows, least recently written first.
    pub flows: Seq<Slot>,
    /// How many flows are tracked at most.
    pub flow_capacity: nat,
    /// The rows of the rule table.
    pub rules: Seq<RuleEntry>,
    /// The rate-limit counters, least recently written first.
    pub limits: Seq<Slot>,
    /// How many rate-limit counters are kept at most.
    pub limit_capacity: nat,
    /// The analytics per rule.
    pub rule_stats: Seq<Row<RuleAnalytics>>,
    /// The counts per ingress verdict.
    pub xdp_counts: Seq<Row<u128>>,
    /// The counts per egress verdict.
    pub tc_counts: Seq<Row<u128>>,
}

/// Every table of the state satisfies its invariant.
pub open spec fn state_well_formed(view: StateView) -> bool {
    &&& lru_well_formed(view.flows, view.flow_capacity)
    &&& table_well_formed(view.rules)
    &&& lru_well_formed(view.limits, view.limit_capacity)
    &&& ledger_well_formed(view.rule_stats)
    &&& ledger_well_formed(view.xdp_counts)
    &&& ledger_well_formed(view.tc_counts)
}

impl View for State {
    type V = StateView;

    open spec fn view(&self) -> StateView {
        StateView {
            interface: self.interface@,
            flows: self.holepunched@,
            flow_capacity: self.holepunched.capacity(),
            rules: self.rule_map@,
            limits: self.rule_ratelimit_map@,
            limit_capacity: self.rule_ratelimit_map.capacity(),
            rule_stats: self.rule_analytic_map@,
            xdp_counts: self.xdp_analytic_map@,
            tc_counts: self.tc_analytic_map@,
        }
    }
}

impl State {
    /// The invariant of the state.
    pub open spec fn wf(&self) -> bool {
        state_well_formed(self@)
    }

    /// The state of a firewall freshly attached to `interface`: no flows,
    /// no rules, no counts, tables of the default capacities.
    pub fn new(interface: String) -> (state: State)
        ensures
            state.wf(),
            state@ == fresh_state(interface@),
    {
        State {
            interface,
            holepunched: FlowTable::with_default_capacity(),
            rule_map: RuleTable::new(),
            rule_ratelimit_map: RatelimitTable::with_default_capacity(),
            rule_analytic_map: Ledger::new(),
            xdp_analytic_map: Ledger::new(),
            tc_analytic_map: Ledger::new(),
        }
    }

    /// Lets the exported counters take in what the analytics tables of
    /// this state read: each family follows its table, counter by
    /// counter, and no counter is set back.
    pub fn prometheus_metrics(&self, counters: &mut PromCounters)
        ensures
            final(counters)@ == exported(old(counters)@, self@),
    {
        counters.absorb_state(self);
    }
}

/// What a freshly attached firewall holds.
pub open spec fn fresh_state(interface: Seq<char>) -> StateView {
    StateView {
        interface,
        flows: Seq::empty(),
        flow_capacity: crate::flow::DEFAULT_FLOW_CAPACITY as nat,
        rules: Seq::empty(),
        limits: Seq::empty(),
        limit_capacity: crate::ratelimit::DEFAULT_RATELIMIT_CAPACITY as nat,
        rule_stats: Seq::empty(),
        xdp_counts: Seq::empty(),
        tc_counts: Seq::empty(),
    }
}


/// The state of the daemon: whether the firewall is enabled, what it
/// holds while it is, and the exported counters.
pub struct OverallState {
    enabled: bool,
    state: Option<State>,
    counters: PromCounters,
}

/// What an [`OverallState`] holds, as mathematical values.
pub struct OverallView {
    /// Whether the firewall is enabled.
    pub enabled: bool,
    /// What the enabled firewall holds.
    pub state: Option<StateView>,
    /// The exported counters.
    pub counters: CountersView,
}

/// The firewall is enabled exactly while it holds a state, and what it
/// holds is well formed.
pub open spec fn overall_well_formed(view: OverallView) -> bool {
    &&& view.enabled <==> view.state is Some
    &&& view.state matches Some(state) ==> state_well_formed(state)
}

/// The counters after an export: each family took in the readings of its
/// analytics table.
pub open spec fn exported(counters: CountersView, state: StateView) -> CountersView {
    CountersView {
        families: counters.families,
        rule_evaluated: fed(counters.rule_evaluated, evaluated_readings(state.rule_stats)),
        rule_passed: fed(counters.rule_passed, passed_readings(state.rule_stats)),
        xdp_action: fed(counters.xdp_action, xdp_readings(state.xdp_counts)),
        tc_action: fed(counters.tc_action, tc_readings(state.tc_counts)),
    }
}

/// The summary of the daemon's state for the user: whether the firewall
/// is enabled, and if it is, on which interface and with how many rules.
pub open spec fn status_text(view: OverallView) -> Seq<char> {
    match view.state {
        Some(state) => "Ghostwire is enabled on interface "@ + state.interface + " with "@
            + decimal_text(state.rules.len()) + " rules"@,
        None => "Ghostwire is disabled"@,
    }
}

impl View for OverallState {
    type V = OverallView;

    closed spec fn view(&self) -> OverallView {
        OverallView {
            enabled: self.enabled,
            state: match self.state {
                Some(state) => Some(state@),
                None => None,
            },
            counters: self.counters@,
        }
    }
}

impl OverallState {
    /// The invariant of the daemon's state.
    pub open spec fn wf(&self) -> bool {
        overall_well_formed(self@)
    }

    /// The state of a daemon that starts: the firewall is disabled.
    pub fn new(counters: PromCounters) -> (overall: OverallState)
        ensures
            overall.wf(),
            overall@ == (OverallView { enabled: false, state: None, counters: counters@ }),
    {
        OverallState { enabled: false, state: None, counters }
    }

    /// Whether the firewall is enabled.
    pub fn enabled(&self) -> (enabled: bool)
        ensures
            enabled == self@.enabled,
    {
        self.enabled
    }

    /// What the enabled firewall holds.
    pub fn state(&self) -> (state: Option<&State>)
        ensures
            match state {
                Some(held) => self@.state == Some(held@),
                None => self@.state is None,
            },
    {
        self.state.as_ref()
    }

    /// The exported counters.
    pub fn counters(&self) -> (counters: &PromCounters)
        ensures
            counters@ == self@.counters,
    {
        &self.counters
    }

    /// Where the counter of `label` in the family `family` of the
    /// exported counters stands. A counter that was never counted on
    /// stands at 0, and is held by its family from now on.
    pub fn counter(&mut self, family: Family, label: &str) -> (count: u64)
        requires
            old(self).wf(),
        ensures
            final(self).wf(),
            stands_at(family_of(old(self)@.counters, family).values, label_hash(label@), count),
            final(self)@ == (OverallView {
                counters: with_family(
                    old(self)@.counters,
                    family,
                    (FamilyView {
                        labels: with_label(family_of(old(self)@.counters, family).labels, label@),
                        ..family_of(old(self)@.counters, family)
                    }),
                ),
                ..old(self)@
            }),
    {
        self.counters.get(family, label)
    }

    /// Words the summary of the state; see [`status_text`].
    pub fn fmt(&self) -> (text: String)
        requires
            self.wf(),
        ensures
            text@ == status_text(self@),
    {
        match &self.state {
            Some(state) => {
                let mut text = String::from_str("Ghostwire is enabled on interface ");
                text.append(state.interface.as_str());
                text.append(" with ");
                text.append(decimal(state.rule_map.len() as u64).as_str());
                text.append(" rules");
                text
            },
            None => String::from_str("Ghostwire is disabled"),
        }
    }

    /// Takes up the state of a firewall that was just attached.
    pub fn load(&mut self, state: State)
        requires
            old(self).wf(),
            !old(self)@.enabled,
            state.wf(),
        ensures
            final(self).wf(),
            final(self)@ == (OverallView {
                enabled: true,
                state: Some(state@),
                counters: old(self)@.counters,
            }),
    {
        self.state = Some(state);
        self.enabled = true;
    }

    /// Lets go of the state the firewall held, if any.
    pub fn unload(&mut self)
        requires
            old(self).wf(),
        ensures
            final(self).wf(),
            final(self)@ == (OverallView {
                enabled: false,
                state: None,
                counters: old(self)@.counters,
            }),
    {
        self.state = None;
        self.enabled = false;
    }

    /// Replaces the rule set of the enabled firewall, all or nothing; a
    /// disabled firewall has no rule table and stays as it is.
    pub fn replace_rules(&mut self, rules: &Vec<Rule>) -> (outcome: Option<Result<(), RuleError>>)
        requires
            old(self).wf(),
        ensures
            final(self).wf(),
            outcome is None <==> !old(self)@.enabled,
            outcome is None ==> final(self)@ == old(self)@,
            outcome matches Some(Ok(())) ==> rules_loadable(rules@) && final(self)@ == (
            OverallView {
                state: Some(
                    StateView { rules: entries_of(rules@), ..old(self)@.state->Some_0 },
                ),
                ..old(self)@
            }),
            outcome matches Some(Err(fault)) ==> final(self)@ == old(self)@ && exists|i: int|
                0 <= i < rules@.len() && rule_fault(rules@, i) == Some(fault) && forall|j: int|
                    0 <= j < i ==> rule_fault(rules@, j) is None,
    {
        match &mut self.state {
            Some(state) => Some(state.rule_map.replace(rules)),
            None => None,
        }
    }

    /// Starts a new rate-limit window on the enabled firewall; says
    /// whether there was one to start.
    pub fn clear_ratelimits(&mut self) -> (cleared: bool)
        requires
            old(self).wf(),
        ensures
            final(self).wf(),
            cleared == old(self)@.enabled,
            final(self)@ == match old(self)@.state {
                Some(state) => OverallView {
                    state: Some(StateView { limits: Seq::empty(), ..state }),
                    ..old(self)@
                },
                None => old(self)@,
            },
    {
        match &mut self.state {
            Some(state) => {
                state.rule_ratelimit_map.clear_all();
                true
            },
            None => false,
        }
    }

    /// Lets the exported counters take in what the analytics tables of
    /// the enabled firewall read; says whether there was anything to read.
    pub fn export(&mut self) -> (read: bool)
        requires
            old(self).wf(),
        ensures
            final(self).wf(),
            read == old(self)@.enabled,
            final(self)@ == match old(self)@.state {
                Some(state) => OverallView {
                    counters: exported(old(self)@.counters, state),
                    ..old(self)@
                },
                None => old(self)@,
            },
    {
        match &self.state {
            Some(state) => {
                state.prometheus_metrics(&mut self.counters);
                true
            },
            None => false,
        }
    }

    /// Takes up one reading of a rule's analytics on the enabled
    /// firewall, in place of what was kept for the rule; says whether
    /// there was a firewall to take it.
    pub fn record_rule_sample(&mut self, sample: RuleAnalytics) -> (taken: bool)
        requires
            old(self).wf(),
        ensures
            final(self).wf(),
            taken == old(self)@.enabled,
            final(self)@ == match old(self)@.state {
                Some(state) => OverallView {
                    state: Some(
                        StateView {
                            rule_stats: ledger_set(
                                state.rule_stats,
                                sample.rule_id as i64,
                                sample,
                            ),
                            ..state
                        },
                    ),
                    ..old(self)@
                },
                None => old(self)@,
            },
    {
        match &mut self.state {
            Some(state) => {
                state.rule_analytic_map.set(sample.rule_id as i64, sample);
                true
            },
            None => false,
        }
    }

    /// Takes up one reading of how often an ingress verdict was given.
    pub fn record_xdp_sample(&mut self, action: u32, count: u128) -> (taken: bool)
        requires
            old(self).wf(),
        ensures
            final(self).wf(),
            taken == old(self)@.enabled,
            final(self)@ == match old(self)@.state {
                Some(state) => OverallView {
                    state: Some(
                        StateView {
                            xdp_counts: ledger_set(state.xdp_counts, action as i64, count),
                            ..state
                        },
                    ),
                    ..old(self)@
                },
                None => old(self)@,
            },
    {
        match &mut self.state {
            Some(state) => {
                state.xdp_analytic_map.set(action as i64, count);
                true
            },
            None => false,
        }
    }

    /// Takes up one reading of how often an egress verdict was given.
    pub fn record_tc_sample(&mut self, action: i32, count: u128) -> (taken: bool)
        requires
            old(self).wf(),
        ensures
            final(self).wf(),
            taken == old(self)@.enabled,
            final(self)@ == match old(self)@.state {
                Some(state) => OverallView {
                    state: Some(
                        StateView {
                            tc_counts: ledger_set(state.tc_counts, action as i64, count),
                            ..state
                        },
                    ),
                    ..old(self)@
                },
                None => old(self)@,
            },
    {
        match &mut self.state {
            Some(state) => {
                state.tc_analytic_map.set(action as i64, count);
                true
            },
            None => false,
        }
    }

    /// Runs the ingress hook of the enabled firewall on a frame; a
    /// disabled firewall has no hook and gives no verdict.
    pub fn xdp(&mut self, frame: &[u8], now: u64) -> (verdict: Option<u32>)
        requires
            old(self).wf(),
        ensures
            final(self).wf(),
            match old(self)@.state {
                Some(state) => verdict == Some(xdp_spec(state, frame@, now).1) && final(self)@ == (
                OverallView { state: Some(xdp_spec(state, frame@, now).0), ..old(self)@ }),
                None => verdict is None && final(self)@ == old(self)@,
            },
    {
        match &mut self.state {
            Some(state) => Some(ghostwire_xdp(state, frame, now)),
            None => None,
        }
    }

    /// Runs the egress hook of the enabled firewall on a frame; a
    /// disabled firewall has no hook and gives no verdict.
    pub fn tc(&mut self, frame: &[u8], now: u64) -> (verdict: Option<i32>)
        requires
            old(self).wf(),
        ensures
            final(self).wf(),
            match old(self)@.state {
                Some(state) => verdict == Some(tc_spec(state, frame@, now).1) && final(self)@ == (
                OverallView { state: Some(tc_spec(state, frame@, now).0), ..old(self)@ }),
                None => verdict is None && final(self)@ == old(self)@,
            },
    {
        match &mut self.state {
            Some(state) => Some(ghostwire_tc(state, frame, now)),
            None => None,
        }
    }
}

} // verus!
