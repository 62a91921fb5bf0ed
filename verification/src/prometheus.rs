//! The exported counters and how they follow the analytics tables.

use crate::analytics::RuleAnalytics;
use crate::ledger::{Ledger, Row};
use crate::state::{exported, OverallState, OverallView, State};
use crate::text::{signed_decimal, signed_text};
use crate::verdict::{tc_action_to_string, tc_label, xdp_action_to_string, xdp_label};
use vstd::prelude::*;
use vstd::string::StrSliceExecFns;
use vstd::string::StringSliceAdditionalSpecFns;

verus! {

/// Name of the counters of packets judged, by rule.
pub const RULE_EVALUATED_NAME: &'static str = "gw_rule_evaluated";

/// Name of the counters of packets passed, by rule.
pub const RULE_PASSED_NAME: &'static str = "gw_rule_passed";

/// Name of the counters of ingress verdicts, by verdict.
pub const XDP_ACTION_NAME: &'static str = "gw_xdp_action";

/// Name of the counters of egress verdicts, by verdict.
pub const TC_ACTION_NAME: &'static str = "gw_tc_action";

/// Name of the label that tells the counters of rules apart.
pub const RULE_LABEL: &'static str = "rule_id";

/// Name of the label that tells the counters of verdicts apart.
pub const ACTION_LABEL: &'static str = "action";

/// The metrics registry of the `prometheus` crate.
#[verifier::external_type_specification]
#[verifier::external_body]
pub struct ExRegistry(::prometheus::Registry);

/// The error type of the `prometheus` crate.
#[verifier::external_type_specification]
#[verifier::external_body]
pub struct ExPrometheusError(::prometheus::Error);

/// One family of metrics as the registry of the `prometheus` crate
/// gathers it.
#[verifier::external_type_specification]
#[verifier::external_body]
pub struct ExMetricFamily(::prometheus::proto::MetricFamily);

/// The encoder of the `prometheus` crate for the text exposition format.
#[verifier::external_type_specification]
#[verifier::external_body]
pub struct ExTextEncoder(::prometheus::TextEncoder);

/// A family of counters told apart by the value of one label: an
/// `IntCounterVec` of the `prometheus` crate, held in a field because
/// that type is an alias over a type the crate keeps private. Nothing of
/// it is proved; what is taken for granted of it is stated over
/// [`counter_values`], [`counter_labels`] and [`family_description`].
/// Every value of this type is made by `new_counter_vec`, with one label
/// name.
#[verifier::external_body]
pub struct CounterVec {
    inner: ::prometheus::IntCounterVec,
}

/// Where each counter of a family stands. The `prometheus` crate keeps
/// the counters of a family under the 64-bit hash of their label value.
/// This map holds every hash: for a hash that has a counter, where the
/// counter stands, and 0 for every other.
pub uninterp spec fn counter_values(counters: CounterVec) -> Map<u64, u64>;

/// The label value of each counter that a family holds, under the hash
/// the counter is kept under: the value it was first asked for with.
pub uninterp spec fn counter_labels(counters: CounterVec) -> Map<u64, Seq<char>>;

/// What a family was made with: its name, its help text and its label
/// name, in this order.
pub uninterp spec fn family_description(counters: CounterVec) -> Seq<Seq<char>>;

/// The hash under which the `prometheus` crate keeps the counter of a
/// label value: what its `hash_label_values` returns for that one value.
pub uninterp spec fn label_hash(label: Seq<char>) -> u64;

/// The descriptions of the families that a registry holds, in the order
/// they were registered.
pub uninterp spec fn registry_families(registry: ::prometheus::Registry) -> Seq<Seq<Seq<char>>>;

/// Whether a registry that holds the families of the descriptions `held`
/// takes one more family of the description `description`: what
/// `Registry::register` of the `prometheus` crate decides, by the hashes
/// it makes of names, help texts and label names.
pub uninterp spec fn registry_accepts(
    held: Seq<Seq<Seq<char>>>,
    description: Seq<Seq<char>>,
) -> bool;

/// The families of metrics that `Registry::gather` of the `prometheus`
/// crate returns for a registry that holds the families of the
/// descriptions `held`, where these stand as `values` and `labels` say,
/// family by family: families by name, counters by label value.
pub uninterp spec fn gathered(
    held: Seq<Seq<Seq<char>>>,
    values: Seq<Map<u64, u64>>,
    labels: Seq<Map<u64, Seq<char>>>,
) -> Seq<::prometheus::proto::MetricFamily>;

/// The text that the text encoder of the `prometheus` crate makes of
/// families of metrics, or nothing where it refuses them.
pub uninterp spec fn encoded(families: Seq<::prometheus::proto::MetricFamily>) -> Option<Seq<u8>>;

/// Whether the map holds `count` under `hash`.
pub open spec fn stands_at(values: Map<u64, u64>, hash: u64, count: u64) -> bool {
    values.dom().contains(hash) && values[hash] == count
}

/// The labels of a family after a counter was asked for with `label`: a
/// counter that is there keeps its label, a new one gets this label.
pub open spec fn with_label(labels: Map<u64, Seq<char>>, label: Seq<char>) -> Map<
    u64,
    Seq<char>,
> {
    if labels.dom().contains(label_hash(label)) {
        labels
    } else {
        labels.insert(label_hash(label), label)
    }
}

/// What a family of counters holds, as mathematical values.
pub struct FamilyView {
    /// Name, help text and label name.
    pub description: Seq<Seq<char>>,
    /// Where the counter under each hash stands.
    pub values: Map<u64, u64>,
    /// The label value of each counter held.
    pub labels: Map<u64, Seq<char>>,
}

/// What `counters` holds.
pub open spec fn family_view(counters: CounterVec) -> FamilyView {
    FamilyView {
        description: family_description(counters),
        values: counter_values(counters),
        labels: counter_labels(counters),
    }
}

/// A family of the given description that holds no counter yet.
pub open spec fn fresh_family(description: Seq<Seq<char>>) -> FamilyView {
    FamilyView {
        description,
        values: Map::total(|hash: u64| 0u64),
        labels: Map::empty(),
    }
}

/// Whether `c` can start a name: a letter of the ASCII alphabet or an
/// underscore, and in the name of a metric also a colon.
pub open spec fn name_start(c: char, colon: bool) -> bool {
    65 <= c as u32 <= 90 || 97 <= c as u32 <= 122 || c as u32 == 95 || (colon && c as u32 == 58)
}

/// Whether `text` is a name as the `prometheus` crate takes it: it is
/// not empty, starts with a character that can start a name, and goes
/// on with such characters and decimal digits.
pub open spec fn valid_name(text: Seq<char>, colon: bool) -> bool {
    &&& text.len() >= 1
    &&& name_start(text[0], colon)
    &&& forall|i: int|
        1 <= i < text.len() ==> name_start(#[trigger] text[i], colon) || 48 <= text[i] as u32
            <= 57
}

/// Whether the `prometheus` crate makes a family of counters of this
/// name, help text and label name: the help text is not empty, the name
/// is the name of a metric, and the label name is the name of a label.
pub open spec fn family_accepted(name: Seq<char>, help: Seq<char>, label_name: Seq<char>) -> bool {
    help.len() >= 1 && valid_name(name, true) && valid_name(label_name, false)
}

/// Calls `IntCounterVec::new` of the `prometheus` crate with the options
/// that `Opts::new` makes of the name and the help text, and with one
/// label name. Claimed: a family is made exactly if the crate's checks
/// of the description pass, which are those of [`family_accepted`]; and
/// a family that was made has this description and no counter yet, so it
/// stands at 0 under every hash.
#[verifier::external_body]
fn new_counter_vec(name: &str, help: &str, label_name: &str) -> (made: Result<
    CounterVec,
    ::prometheus::Error,
>)
    ensures
        made is Ok <==> family_accepted(name@, help@, label_name@),
        made matches Ok(counters) ==> family_view(counters) == fresh_family(
            seq![name@, help@, label_name@],
        ),
{
    match ::prometheus::IntCounterVec::new(::prometheus::Opts::new(name, help), &[label_name]) {
        Ok(inner) => Ok(CounterVec { inner }),
        Err(error) => Err(error),
    }
}

/// Calls `Registry::new` of the `prometheus` crate. Claimed: the new
/// registry holds no family.
#[verifier::external_body]
fn new_registry() -> (registry: ::prometheus::Registry)
    ensures
        registry_families(registry) == Seq::<Seq<Seq<char>>>::empty(),
{
    ::prometheus::Registry::new()
}

/// Calls `Registry::register` of the `prometheus` crate with a handle to
/// the family. Claimed: whether the registry takes the family is a
/// matter of what it holds and of the family's description alone, which
/// [`registry_accepts`] stands for; a family that is taken is held from
/// then on, behind the others, and a refusal leaves the registry as it
/// was.
#[verifier::external_body]
fn register(registry: &mut ::prometheus::Registry, counters: &CounterVec) -> (outcome: Result<
    (),
    ::prometheus::Error,
>)
    ensures
        outcome is Ok <==> registry_accepts(
            registry_families(*old(registry)),
            family_description(*counters),
        ),
        registry_families(*final(registry)) == if outcome is Ok {
            registry_families(*old(registry)).push(family_description(*counters))
        } else {
            registry_families(*old(registry))
        },
{
    registry.register(Box::new(counters.inner.clone()))
}

/// Calls `with_label_values` of the `prometheus` crate with the one
/// label value, and `get` on the counter it returns. Claimed: the result
/// is where the counter under the hash of the label value stands; no
/// counter moves; and if the family had no counter under that hash, it
/// has one with this label now, which stands at 0.
#[verifier::external_body]
fn counter_get(counters: &mut CounterVec, label: &str) -> (count: u64)
    ensures
        stands_at(counter_values(*old(counters)), label_hash(label@), count),
        family_view(*final(counters)) == (FamilyView {
            labels: with_label(counter_labels(*old(counters)), label@),
            ..family_view(*old(counters))
        }),
{
    counters.inner.with_label_values(&[label]).get()
}

/// Calls `with_label_values` of the `prometheus` crate with the one
/// label value, and `inc_by` on the counter it returns. Claimed: the
/// counter under the hash of the label value grows by `by`, wrapping
/// around at the top as the atomic addition in the crate does; no other
/// counter of the family moves; and if the family had no counter under
/// that hash, it has one with this label now.
#[verifier::external_body]
fn counter_inc_by(counters: &mut CounterVec, label: &str, by: u64)
    ensures
        family_view(*final(counters)) == (FamilyView {
            values: counter_values(*old(counters)).insert(
                label_hash(label@),
                vstd::wrapping::u64_specs::wrapping_add(
                    counter_values(*old(counters))[label_hash(label@)],
                    by,
                ),
            ),
            labels: with_label(counter_labels(*old(counters)), label@),
            ..family_view(*old(counters))
        }),
{
    counters.inner.with_label_values(&[label]).inc_by(by)
}

/// Calls `Registry::gather` of the `prometheus` crate on the registry of
/// the counters. Claimed: what it returns is a matter of the families
/// the registry holds and of where their counters stand, which
/// [`gathered`] stands for. The registry of a [`PromCounters`] holds its
/// four families, as [`create_prometheus_counters`] alone makes one.
#[verifier::external_body]
fn gather(counters: &PromCounters) -> (families: Vec<::prometheus::proto::MetricFamily>)
    ensures
        families@ == gathered(
            counters@.families,
            family_values(counters@),
            family_labels(counters@),
        ),
{
    counters.registry.gather()
}

/// Calls `TextEncoder::new` of the `prometheus` crate.
#[verifier::external_body]
fn new_text_encoder() -> (encoder: ::prometheus::TextEncoder) {
    ::prometheus::TextEncoder::new()
}

/// Calls `Encoder::encode` of the `prometheus` crate on a fresh buffer
/// and hands the buffer back. Claimed: the text, and whether there is
/// one, is a matter of the families alone, which [`encoded`] stands for.
#[verifier::external_body]
fn encode_text(
    encoder: &::prometheus::TextEncoder,
    families: &Vec<::prometheus::proto::MetricFamily>,
) -> (text: Result<Vec<u8>, ::prometheus::Error>)
    ensures
        match text {
            Ok(bytes) => encoded(families@) == Some(bytes@),
            Err(_) => encoded(families@) is None,
        },
{
    let mut buffer: Vec<u8> = Vec::new();
    match ::prometheus::Encoder::encode(encoder, families, &mut buffer) {
        Ok(()) => Ok(buffer),
        Err(error) => Err(error),
    }
}

/// The four families of counters.
#[derive(Debug, Clone, Copy, PartialEq, Eq, Structural)]
pub enum Family {
    /// Packets judged, by rule.
    RuleEvaluated,
    /// Packets passed, by rule.
    RulePassed,
    /// Ingress verdicts given.
    XdpAction,
    /// Egress verdicts given.
    TcAction,
}

/// Why the counters could not be set up.
#[derive(Debug, Clone, Copy, PartialEq, Eq, Structural)]
pub enum CounterError {
    /// The family could not be made.
    NotCreated(Family),
    /// The family could not be registered.
    NotRegistered(Family),
}

/// What setting up one family comes to, given what came of making it
/// and, if it was made, of registering it.
pub fn family_outcome(
    family: Family,
    made: Result<CounterVec, ::prometheus::Error>,
    registered: Option<Result<(), ::prometheus::Error>>,
) -> (outcome: Result<CounterVec, CounterError>)
    ensures
        match made {
            Err(_) => outcome == Err::<CounterVec, CounterError>(
                CounterError::NotCreated(family),
            ),
            Ok(counters) => match registered {
                Some(Ok(())) => outcome == Ok::<CounterVec, CounterError>(counters),
                _ => outcome == Err::<CounterVec, CounterError>(
                    CounterError::NotRegistered(family),
                ),
            },
        },
{
    match made {
        Err(_) => Err(CounterError::NotCreated(family)),
        Ok(counters) => match registered {
            Some(Ok(())) => Ok(counters),
            _ => Err(CounterError::NotRegistered(family)),
        },
    }
}

/// The exported counters and the registry they are exposed through. The
/// counters only ever grow, and outlive the tables they are fed from.
/// The registry holds the four families and nothing else:
/// [`create_prometheus_counters`] alone makes a value of this type.
pub struct PromCounters {
    registry: ::prometheus::Registry,
    rule_evaluated: CounterVec,
    rule_passed: CounterVec,
    xdp_action: CounterVec,
    tc_action: CounterVec,
}

/// What [`PromCounters`] hold, as mathematical values.
pub struct CountersView {
    /// The descriptions of the families the registry holds, in the order
    /// they were registered.
    pub families: Seq<Seq<Seq<char>>>,
    /// Packets judged, by rule identifier.
    pub rule_evaluated: FamilyView,
    /// Packets passed, by rule identifier.
    pub rule_passed: FamilyView,
    /// Ingress verdicts given, by verdict.
    pub xdp_action: FamilyView,
    /// Egress verdicts given, by verdict.
    pub tc_action: FamilyView,
}

impl View for PromCounters {
    type V = CountersView;

    closed spec fn view(&self) -> CountersView {
        CountersView {
            families: registry_families(self.registry),
            rule_evaluated: family_view(self.rule_evaluated),
            rule_passed: family_view(self.rule_passed),
            xdp_action: family_view(self.xdp_action),
            tc_action: family_view(self.tc_action),
        }
    }
}

/// The family of `view` that `family` names.
pub open spec fn family_of(view: CountersView, family: Family) -> FamilyView {
    match family {
        Family::RuleEvaluated => view.rule_evaluated,
        Family::RulePassed => view.rule_passed,
        Family::XdpAction => view.xdp_action,
        Family::TcAction => view.tc_action,
    }
}

/// `view` with `held` in place of the family that `family` names.
pub open spec fn with_family(view: CountersView, family: Family, held: FamilyView) -> CountersView {
    match family {
        Family::RuleEvaluated => CountersView { rule_evaluated: held, ..view },
        Family::RulePassed => CountersView { rule_passed: held, ..view },
        Family::XdpAction => CountersView { xdp_action: held, ..view },
        Family::TcAction => CountersView { tc_action: held, ..view },
    }
}

/// Where the counters of the four families stand, in the order the
/// families were registered.
pub open spec fn family_values(view: CountersView) -> Seq<Map<u64, u64>> {
    seq![
        view.rule_evaluated.values,
        view.rule_passed.values,
        view.xdp_action.values,
        view.tc_action.values,
    ]
}

/// The label values of the counters of the four families, in the order
/// the families were registered.
pub open spec fn family_labels(view: CountersView) -> Seq<Map<u64, Seq<char>>> {
    seq![
        view.rule_evaluated.labels,
        view.rule_passed.labels,
        view.xdp_action.labels,
        view.tc_action.labels,
    ]
}

/// The descriptions of the four families: name, help text and label
/// name of each, in the order the families are registered.
pub open spec fn family_descriptions() -> Seq<Seq<Seq<char>>> {
    seq![
        seq![RULE_EVALUATED_NAME@, "The number of times a rule was evaluated"@, RULE_LABEL@],
        seq![RULE_PASSED_NAME@, "The number of times a rule allowed traffic"@, RULE_LABEL@],
        seq![XDP_ACTION_NAME@, "The number of times an XDP action was taken"@, ACTION_LABEL@],
        seq![TC_ACTION_NAME@, "The number of times a TC action was taken"@, ACTION_LABEL@],
    ]
}

/// Whether a registry that holds the families before place `i` takes the
/// family at place `i`.
pub open spec fn family_taken(i: int) -> bool {
    registry_accepts(family_descriptions().subrange(0, i), family_descriptions()[i])
}

/// The counters as they are created: the registry holds the four
/// families, and no family holds a counter.
pub open spec fn fresh_counters() -> CountersView {
    CountersView {
        families: family_descriptions(),
        rule_evaluated: fresh_family(family_descriptions()[0]),
        rule_passed: fresh_family(family_descriptions()[1]),
        xdp_action: fresh_family(family_descriptions()[2]),
        tc_action: fresh_family(family_descriptions()[3]),
    }
}

/// What creating the counters comes to: the counters, if the registry
/// takes the four families in turn; else the first family it refuses.
pub open spec fn creation() -> Result<CountersView, CounterError> {
    if !family_taken(0) {
        Err(CounterError::NotRegistered(Family::RuleEvaluated))
    } else if !family_taken(1) {
        Err(CounterError::NotRegistered(Family::RulePassed))
    } else if !family_taken(2) {
        Err(CounterError::NotRegistered(Family::XdpAction))
    } else if !family_taken(3) {
        Err(CounterError::NotRegistered(Family::TcAction))
    } else {
        Ok(fresh_counters())
    }
}

/// Makes one family of counters and registers it. The family is made
/// exactly if the crate accepts its description, and comes back exactly
/// if the registry then takes it.
fn create_family(
    registry: &mut ::prometheus::Registry,
    family: Family,
    name: &str,
    help: &str,
    label_name: &str,
) -> (outcome: Result<CounterVec, CounterError>)
    requires
        family_accepted(name@, help@, label_name@),
    ensures
        outcome is Ok <==> registry_accepts(
            registry_families(*old(registry)),
            seq![name@, help@, label_name@],
        ),
        match outcome {
            Ok(counters) => family_view(counters) == fresh_family(seq![name@, help@, label_name@])
                && registry_families(*final(registry)) == registry_families(*old(registry)).push(
                seq![name@, help@, label_name@],
            ),
            Err(error) => error == CounterError::NotRegistered(family) && registry_families(
                *final(registry),
            ) == registry_families(*old(registry)),
        },
{
    let made = new_counter_vec(name, help, label_name);
    let registered = match &made {
        Ok(counters) => Some(register(registry, counters)),
        Err(_) => None,
    };
    family_outcome(family, made, registered)
}

/// The names, help texts and label names of the four families are such
/// as the `prometheus` crate accepts.
pub proof fn lemma_families_accepted()
    ensures
        family_accepted(
            RULE_EVALUATED_NAME@,
            "The number of times a rule was evaluated"@,
            RULE_LABEL@,
        ),
        family_accepted(
            RULE_PASSED_NAME@,
            "The number of times a rule allowed traffic"@,
            RULE_LABEL@,
        ),
        family_accepted(
            XDP_ACTION_NAME@,
            "The number of times an XDP action was taken"@,
            ACTION_LABEL@,
        ),
        family_accepted(TC_ACTION_NAME@, "The number of times a TC action was taken"@, ACTION_LABEL@),
{
    reveal_strlit("gw_rule_evaluated");
    reveal_strlit("gw_rule_passed");
    reveal_strlit("gw_xdp_action");
    reveal_strlit("gw_tc_action");
    reveal_strlit("rule_id");
    reveal_strlit("action");
    reveal_strlit("The number of times a rule was evaluated");
    reveal_strlit("The number of times a rule allowed traffic");
    reveal_strlit("The number of times an XDP action was taken");
    reveal_strlit("The number of times a TC action was taken");
}

/// Creates the registry and the four families of counters, and
/// registers each family with it, in the order of
/// [`family_descriptions`]. The four families are always made, as their
/// descriptions are such as the `prometheus` crate accepts. The counters
/// come back exactly if the registry takes each family in turn; else
/// the error names the first family it refused. The registry of the
/// counters that come back holds the four families, and no family holds
/// a counter yet.
pub fn create_prometheus_counters() -> (created: Result<PromCounters, CounterError>)
    ensures
        match created {
            Ok(counters) => creation() == Ok::<CountersView, CounterError>(counters@),
            Err(error) => creation() == Err::<CountersView, CounterError>(error),
        },
{
    proof {
        lemma_families_accepted();
    }
    let ghost wanted = family_descriptions();
    let mut registry = new_registry();
    assert(registry_families(registry) =~= wanted.subrange(0, 0));
    let rule_evaluated = match create_family(
        &mut registry,
        Family::RuleEvaluated,
        RULE_EVALUATED_NAME,
        "The number of times a rule was evaluated",
        RULE_LABEL,
    ) {
        Ok(counters) => counters,
        Err(error) => {
            return Err(error);
        },
    };
    assert(registry_families(registry) =~= wanted.subrange(0, 1));
    let rule_passed = match create_family(
        &mut registry,
        Family::RulePassed,
        RULE_PASSED_NAME,
        "The number of times a rule allowed traffic",
        RULE_LABEL,
    ) {
        Ok(counters) => counters,
        Err(error) => {
            return Err(error);
        },
    };
    assert(registry_families(registry) =~= wanted.subrange(0, 2));
    let xdp_action = match create_family(
        &mut registry,
        Family::XdpAction,
        XDP_ACTION_NAME,
        "The number of times an XDP action was taken",
        ACTION_LABEL,
    ) {
        Ok(counters) => counters,
        Err(error) => {
            return Err(error);
        },
    };
    assert(registry_families(registry) =~= wanted.subrange(0, 3));
    let tc_action = match create_family(
        &mut registry,
        Family::TcAction,
        TC_ACTION_NAME,
        "The number of times a TC action was taken",
        ACTION_LABEL,
    ) {
        Ok(counters) => counters,
        Err(error) => {
            return Err(error);
        },
    };
    assert(registry_families(registry) =~= wanted);
    Ok(PromCounters { registry, rule_evaluated, rule_passed, xdp_action, tc_action })
}

/// A reading of an analytics counter as far as an exported counter can
/// follow it.
pub open spec fn clipped(observed: u128) -> u64 {
    if observed > u64::MAX {
        u64::MAX
    } else {
        observed as u64
    }
}

/// By how much an exported counter that stands at `exported` grows when
/// the analytics counter it follows reads `observed`: by what the
/// reading is ahead, and by nothing if it is not.
pub open spec fn delta_spec(exported: u64, observed: u128) -> u64 {
    if clipped(observed) > exported {
        (clipped(observed) - exported) as u64
    } else {
        0u64
    }
}

/// Where an exported counter stands after it took in a reading.
pub open spec fn advanced(exported: u64, observed: u128) -> u64 {
    (exported + delta_spec(exported, observed)) as u64
}

/// Computes [`delta_spec`].
pub fn counter_delta(exported: u64, observed: u128) -> (delta: u64)
    ensures
        delta == delta_spec(exported, observed),
{
    let reading: u64 = if observed > u64::MAX as u128 {
        u64::MAX
    } else {
        observed as u64
    };
    if reading > exported {
        reading - exported
    } else {
        0
    }
}

/// What an analytics counter reads, with the label its exported counter
/// goes by.
pub struct Reading {
    /// The value of the label.
    pub label: Seq<char>,
    /// What the analytics counter reads.
    pub observed: u128,
}

/// A family of counters after it took in `readings`, one after the
/// other.
pub open spec fn absorb(values: Map<u64, u64>, readings: Seq<Reading>) -> Map<u64, u64>
    decreases readings.len(),
{
    if readings.len() == 0 {
        values
    } else {
        let before = absorb(values, readings.drop_last());
        let hash = label_hash(readings.last().label);
        before.insert(hash, advanced(before[hash], readings.last().observed))
    }
}

/// The readings of packets judged, by rule: the label is the numeral of
/// the rule's identifier.
pub open spec fn evaluated_readings(rows: Seq<Row<RuleAnalytics>>) -> Seq<Reading> {
    Seq::new(
        rows.len(),
        |i: int| Reading { label: signed_text(rows[i].key as int), observed: rows[i].value.evaluated },
    )
}

/// The readings of packets passed, by rule: the label is the numeral of
/// the rule's identifier.
pub open spec fn passed_readings(rows: Seq<Row<RuleAnalytics>>) -> Seq<Reading> {
    Seq::new(
        rows.len(),
        |i: int| Reading { label: signed_text(rows[i].key as int), observed: rows[i].value.passed },
    )
}

/// The readings of ingress verdicts given, by the label of the verdict.
pub open spec fn xdp_readings(rows: Seq<Row<u128>>) -> Seq<Reading> {
    Seq::new(rows.len(), |i: int| Reading { label: xdp_label(rows[i].key), observed: rows[i].value })
}

/// The readings of egress verdicts given, by the label of the verdict.
pub open spec fn tc_readings(rows: Seq<Row<u128>>) -> Seq<Reading> {
    Seq::new(rows.len(), |i: int| Reading { label: tc_label(rows[i].key), observed: rows[i].value })
}

/// Taking in readings never sets a counter back.
pub proof fn lemma_absorb_never_decreases(values: Map<u64, u64>, readings: Seq<Reading>, hash: u64)
    ensures
        absorb(values, readings)[hash] >= values[hash],
    decreases readings.len(),
{
    if readings.len() > 0 {
        lemma_absorb_never_decreases(values, readings.drop_last(), hash);
    }
}

/// After readings were taken in, the counter of each reading stands at
/// least where the reading is, as far as a counter can follow.
pub proof fn lemma_absorb_reaches_readings(values: Map<u64, u64>, readings: Seq<Reading>, i: int)
    requires
        0 <= i < readings.len(),
    ensures
        absorb(values, readings)[label_hash(readings[i].label)] >= clipped(readings[i].observed),
    decreases readings.len(),
{
    if i < readings.len() - 1 {
        let earlier = readings.drop_last();
        assert(earlier[i] == readings[i]);
        lemma_absorb_reaches_readings(values, earlier, i);
    }
}

/// After readings were taken in, a counter stands where it stood or
/// where one of its readings is: it counts nothing that was not read.
pub proof fn lemma_absorb_only_follows(values: Map<u64, u64>, readings: Seq<Reading>, hash: u64)
    ensures
        absorb(values, readings)[hash] == values[hash] || exists|i: int|
            0 <= i < readings.len() && label_hash(#[trigger] readings[i].label) == hash && absorb(
                values,
                readings,
            )[hash] == clipped(readings[i].observed),
    decreases readings.len(),
{
    if readings.len() > 0 {
        let earlier = readings.drop_last();
        let last = readings.len() - 1;
        lemma_absorb_only_follows(values, earlier, hash);
        let before = absorb(values, earlier);
        if label_hash(readings[last].label) == hash && absorb(values, readings)[hash]
            != before[hash] {
            assert(absorb(values, readings)[hash] == clipped(readings[last].observed));
        } else if before[hash] != values[hash] {
            let i = choose|i: int|
                0 <= i < earlier.len() && label_hash(#[trigger] earlier[i].label) == hash
                    && before[hash] == clipped(earlier[i].observed);
            assert(readings[i] == earlier[i]);
        }
    }
}

/// The labels of a family after it took in `readings`, one after the
/// other: each reading's counter is there from then on.
pub open spec fn absorb_labels(labels: Map<u64, Seq<char>>, readings: Seq<Reading>) -> Map<
    u64,
    Seq<char>,
>
    decreases readings.len(),
{
    if readings.len() == 0 {
        labels
    } else {
        with_label(absorb_labels(labels, readings.drop_last()), readings.last().label)
    }
}

/// A family after it took in `readings`, one after the other.
pub open spec fn fed(family: FamilyView, readings: Seq<Reading>) -> FamilyView {
    FamilyView {
        description: family.description,
        values: absorb(family.values, readings),
        labels: absorb_labels(family.labels, readings),
    }
}

/// Lets the counter of `label` take in one reading.
fn feed(counters: &mut CounterVec, label: &str, observed: u128)
    ensures
        family_view(*final(counters)) == (FamilyView {
            values: counter_values(*old(counters)).insert(
                label_hash(label@),
                advanced(counter_values(*old(counters))[label_hash(label@)], observed),
            ),
            labels: with_label(counter_labels(*old(counters)), label@),
            ..family_view(*old(counters))
        }),
{
    let exported = counter_get(counters, label);
    counter_inc_by(counters, label, counter_delta(exported, observed));
    assert(with_label(with_label(counter_labels(*old(counters)), label@), label@) =~= with_label(
        counter_labels(*old(counters)),
        label@,
    ));
}

/// Lets `counters` take in what the rules' analytics read: the packets
/// passed if `passed` is set, the packets judged otherwise.
fn absorb_rule_counts(counters: &mut CounterVec, table: &Ledger<RuleAnalytics>, passed: bool)
    ensures
        family_view(*final(counters)) == fed(
            family_view(*old(counters)),
            if passed {
                passed_readings(table@)
            } else {
                evaluated_readings(table@)
            },
        ),
{
    let ghost readings = if passed {
        passed_readings(table@)
    } else {
        evaluated_readings(table@)
    };
    let mut i: usize = 0;
    assert(readings.subrange(0, 0) =~= Seq::<Reading>::empty());
    while i < table.len()
        invariant
            i <= table@.len(),
            readings.len() == table@.len(),
            readings == if passed {
                passed_readings(table@)
            } else {
                evaluated_readings(table@)
            },
            family_view(*counters) == fed(family_view(*old(counters)), readings.subrange(0, i as int)),
        decreases table@.len() - i,
    {
        let row = table.row(i);
        let observed = if passed {
            row.value.passed
        } else {
            row.value.evaluated
        };
        let label = signed_decimal(row.key);
        feed(counters, label.as_str(), observed);
        proof {
            let upto = readings.subrange(0, i + 1);
            assert(upto.drop_last() =~= readings.subrange(0, i as int));
            assert(upto.last() == readings[i as int]);
        }
        i += 1;
    }
    assert(readings.subrange(0, i as int) =~= readings);
}

/// Lets `counters` take in what the counts of verdicts read: those of
/// the ingress hook if `ingress` is set, those of the egress hook
/// otherwise.
fn absorb_action_counts(counters: &mut CounterVec, table: &Ledger<u128>, ingress: bool)
    ensures
        family_view(*final(counters)) == fed(
            family_view(*old(counters)),
            if ingress {
                xdp_readings(table@)
            } else {
                tc_readings(table@)
            },
        ),
{
    let ghost readings = if ingress {
        xdp_readings(table@)
    } else {
        tc_readings(table@)
    };
    let mut i: usize = 0;
    assert(readings.subrange(0, 0) =~= Seq::<Reading>::empty());
    while i < table.len()
        invariant
            i <= table@.len(),
            readings.len() == table@.len(),
            readings == if ingress {
                xdp_readings(table@)
            } else {
                tc_readings(table@)
            },
            family_view(*counters) == fed(family_view(*old(counters)), readings.subrange(0, i as int)),
        decreases table@.len() - i,
    {
        let row = table.row(i);
        let label = if ingress {
            xdp_label_of(row.key)
        } else {
            tc_label_of(row.key)
        };
        feed(counters, label, row.value);
        proof {
            let upto = readings.subrange(0, i + 1);
            assert(upto.drop_last() =~= readings.subrange(0, i as int));
            assert(upto.last() == readings[i as int]);
        }
        i += 1;
    }
    assert(readings.subrange(0, i as int) =~= readings);
}

/// The label of the ingress verdict kept under `key`.
fn xdp_label_of(key: i64) -> (label: &'static str)
    ensures
        label@ == xdp_label(key),
{
    if 0 <= key && key <= 0xFFFF_FFFF {
        xdp_action_to_string(key as u32)
    } else {
        "Unknown"
    }
}

/// The label of the egress verdict kept under `key`.
fn tc_label_of(key: i64) -> (label: &'static str)
    ensures
        label@ == tc_label(key),
{
    if -0x8000_0000 <= key && key <= 0x7FFF_FFFF {
        tc_action_to_string(key as i32)
    } else {
        "Unknown"
    }
}

impl PromCounters {
    /// Where the counter of `label` in the family `family` stands. A
    /// counter that was never counted on stands at 0, and is held by
    /// its family from now on.
    pub fn get(&mut self, family: Family, label: &str) -> (count: u64)
        ensures
            stands_at(family_of(old(self)@, family).values, label_hash(label@), count),
            final(self)@ == with_family(
                old(self)@,
                family,
                (FamilyView {
                    labels: with_label(family_of(old(self)@, family).labels, label@),
                    ..family_of(old(self)@, family)
                }),
            ),
    {
        match family {
            Family::RuleEvaluated => counter_get(&mut self.rule_evaluated, label),
            Family::RulePassed => counter_get(&mut self.rule_passed, label),
            Family::XdpAction => counter_get(&mut self.xdp_action, label),
            Family::TcAction => counter_get(&mut self.tc_action, label),
        }
    }

    /// Lets the counters take in what the analytics tables of `state`
    /// read: each family follows its table, counter by counter, and no
    /// counter is set back.
    pub fn absorb_state(&mut self, state: &State)
        ensures
            final(self)@ == exported(old(self)@, state@),
    {
        absorb_rule_counts(&mut self.rule_evaluated, &state.rule_analytic_map, false);
        absorb_rule_counts(&mut self.rule_passed, &state.rule_analytic_map, true);
        absorb_action_counts(&mut self.xdp_action, &state.xdp_analytic_map, true);
        absorb_action_counts(&mut self.tc_action, &state.tc_analytic_map, false);
    }
}

/// One export: if the firewall is enabled, each family of counters
/// takes in the readings of its analytics table; nothing else changes.
pub fn prometheus_metrics(overall: &mut OverallState)
    requires
        old(overall).wf(),
    ensures
        final(overall).wf(),
        final(overall)@ == match old(overall)@.state {
            Some(state) => OverallView {
                counters: exported(old(overall)@.counters, state),
                ..old(overall)@
            },
            None => old(overall)@,
        },
{
    overall.export();
}

/// The answer the metrics endpoint gives to a request.
#[derive(Debug, Clone, PartialEq, Eq)]
pub struct HttpReply {
    /// The HTTP status code.
    pub status: u16,
    /// The body.
    pub body: Vec<u8>,
}

/// HTTP status of an answer that carries the metrics.
pub const HTTP_OK: u16 = 200;

/// HTTP status of an answer that tells of a failure of the server.
pub const HTTP_INTERNAL_SERVER_ERROR: u16 = 500;

/// The status of the answer to a request, given the text the counters
/// were encoded to, if they were.
pub open spec fn reply_status(text: Option<Seq<u8>>) -> u16 {
    if text is Some {
        HTTP_OK
    } else {
        HTTP_INTERNAL_SERVER_ERROR
    }
}

/// The body of the answer to a request, given the text the counters
/// were encoded to, if they were: the text, or a sentence that says
/// that encoding failed.
pub open spec fn reply_body(text: Option<Seq<u8>>) -> Seq<u8> {
    match text {
        Some(bytes) => bytes,
        None => "Failed to encode prometheus metrics".spec_bytes(),
    }
}

/// The text that is exposed of counters that stand as `view` says.
pub open spec fn exposition(view: CountersView) -> Option<Seq<u8>> {
    encoded(gathered(view.families, family_values(view), family_labels(view)))
}

/// The answer to a request to the metrics endpoint, given what came of
/// encoding the counters: the text goes out as it is; a failure is
/// answered with status 500 and a sentence that says so.
pub fn http_reply(encoded: Result<Vec<u8>, ::prometheus::Error>) -> (reply: HttpReply)
    ensures
        match encoded {
            Ok(text) => reply.status == HTTP_OK && reply.body == text,
            Err(_) => reply.status == HTTP_INTERNAL_SERVER_ERROR && reply.body@
                == "Failed to encode prometheus metrics".spec_bytes(),
        },
{
    match encoded {
        Ok(text) => HttpReply { status: HTTP_OK, body: text },
        Err(_) => HttpReply {
            status: HTTP_INTERNAL_SERVER_ERROR,
            body: "Failed to encode prometheus metrics".as_bytes_vec(),
        },
    }
}

/// Answers a request to the metrics endpoint, whatever it asks for:
/// gathers the counters from the registry, encodes them as text and
/// answers with the text, or with status 500 where encoding fails.
pub fn prom_http(counters: &PromCounters) -> (reply: HttpReply)
    ensures
        reply.status == reply_status(exposition(counters@)),
        reply.body@ == reply_body(exposition(counters@)),
{
    let metric_families = gather(counters);
    let encoder = new_text_encoder();
    http_reply(encode_text(&encoder, &metric_families))
}

} // verus!
