use ghostwire::client::{handle_arguments, load_request, send_message, CliError, CliStep};
use ghostwire::clippy::{run_clippy, Architecture, Options};
use ghostwire::ebpf::{load_ebpf, unload_ebpf, AttachMode, Attempt, LoadReport, LoadStep};
use ghostwire::map_management::{manage_maps, RATELIMIT_WINDOW_SECONDS};
use ghostwire::prometheus::{
    counter_delta, create_prometheus_counters, family_outcome, http_reply, prom_http,
    prometheus_metrics,
    CounterError, Family, HttpReply, ACTION_LABEL, RULE_EVALUATED_NAME, RULE_LABEL,
    RULE_PASSED_NAME, TC_ACTION_NAME, XDP_ACTION_NAME,
};
use ghostwire::analytics::RuleAnalytics;
use ghostwire::rule::RuleError;
use ghostwire::socket::{
    handle_disable, handle_enable, handle_load, handle_server_request,
    handle_server_request_fallible, handle_status_request, load_needed, RequestError,
    REQUEST_LIMIT, SOCKET_PATH,
};
use ghostwire::ledger::Ledger;
use ghostwire::state::OverallState;
use ghostwire::types::{ClientMessage, ClientReqType, Rule, ServerMessage};
use ghostwire::verdict::{tc_action_to_string, xdp_action_to_string};
use ghostwire::yaml::{YamlError, YamlRule};

fn loaded() -> Option<LoadReport> {
    Some(LoadReport::Loaded(AttachMode::Native))
}

fn fresh() -> OverallState {
    OverallState::new(create_prometheus_counters().unwrap())
}

fn rule(id: u32, prefix_length: u32, protocol: u8, port: u16, limit: Option<u32>) -> Rule {
    let fields = if protocol != 0 { 8 } else { 0 } + if port != 0 { 16 } else { 0 };
    Rule {
        id,
        prefix_length,
        source_prefix_length: prefix_length.saturating_sub(fields),
        destination_prefix_length: 0,
        source_ip_range: 0,
        destination_ip_range: 0,
        protocol_number: protocol,
        port_number: u16::from_le_bytes(port.to_be_bytes()),
        ratelimit: limit,
    }
}

fn request(req_type: ClientReqType, rules: Option<Vec<Rule>>, interface: Option<&str>) -> ClientMessage {
    ClientMessage { req_type, rules, interface: interface.map(|s| s.to_string()) }
}

fn udp_frame(source: u32, port: u16) -> Vec<u8> {
    let mut frame = vec![0u8; 42];
    frame[12] = 0x08;
    frame[14] = 0x45;
    frame[23] = 17;
    frame[26..30].copy_from_slice(&source.to_be_bytes());
    frame[30..34].copy_from_slice(&[10, 0, 0, 1]);
    frame[34..36].copy_from_slice(&4000u16.to_be_bytes());
    frame[36..38].copy_from_slice(&port.to_be_bytes());
    frame
}

fn ok(text: &str) -> Result<ServerMessage, RequestError> {
    Ok(ServerMessage { request_success: true, message: text.to_string() })
}

#[test]
fn status_tells_interface_and_rule_count() {
    let mut overall = fresh();
    assert!(!overall.enabled());
    assert_eq!(overall.fmt(), "Ghostwire is disabled");
    assert_eq!(handle_status_request(&overall), ok("Ghostwire is disabled"));
    assert_eq!(handle_enable(&mut overall, "eth0".to_string(), loaded()), ok("Firewall enabled"));
    assert!(overall.enabled());
    assert_eq!(
        handle_status_request(&overall),
        ok("Ghostwire is enabled on interface eth0 with 0 rules")
    );
    let rules: Vec<Rule> = (0..12).map(|i| rule(i, 16, 0, 1000 + i as u16, None)).collect();
    assert_eq!(handle_load(&mut overall, rules, "eth1".to_string(), None), ok("Rules updated"));
    assert_eq!(overall.fmt(), "Ghostwire is enabled on interface eth0 with 12 rules");
    assert_eq!(overall.state().unwrap().interface, "eth0");
}

#[test]
fn enable_fails_when_enabled_or_when_loading_failed() {
    let mut overall = fresh();
    assert_eq!(
        handle_enable(&mut overall, "lo".to_string(), None),
        Err(RequestError::NotLoaded)
    );
    assert_eq!(
        handle_enable(
            &mut overall,
            "lo".to_string(),
            Some(LoadReport::Failed("failed to attach XDP".to_string()))
        ),
        Err(RequestError::LoadFailed("failed to attach XDP".to_string()))
    );
    assert!(!overall.enabled());
    assert!(overall.state().is_none());
    assert_eq!(
        handle_enable(&mut overall, "lo".to_string(), Some(LoadReport::Loaded(AttachMode::Skb))),
        ok("Firewall enabled")
    );
    assert_eq!(
        handle_enable(&mut overall, "eth0".to_string(), loaded()),
        Err(RequestError::AlreadyEnabled)
    );
    assert_eq!(overall.state().unwrap().interface, "lo");
}

#[test]
fn disable_fails_when_disabled_and_drops_the_state() {
    let mut overall = fresh();
    assert_eq!(handle_disable(&mut overall), Err(RequestError::AlreadyDisabled));
    handle_enable(&mut overall, "lo".to_string(), loaded()).unwrap();
    overall.tc(&udp_frame(1, 53), 1);
    assert_eq!(overall.state().unwrap().holepunched.len(), 1);
    assert_eq!(handle_disable(&mut overall), ok("Firewall disabled"));
    assert!(!overall.enabled());
    assert!(overall.state().is_none());
    assert_eq!(handle_disable(&mut overall), Err(RequestError::AlreadyDisabled));
    handle_enable(&mut overall, "lo".to_string(), loaded()).unwrap();
    assert_eq!(overall.state().unwrap().holepunched.len(), 0);
    unload_ebpf(&mut overall);
    unload_ebpf(&mut overall);
    assert!(!overall.enabled());
}

#[test]
fn rules_request_enables_first() {
    let mut overall = fresh();
    let rules = vec![rule(1, 24, 6, 22, None)];
    assert_eq!(
        handle_load(&mut overall, rules.clone(), "lo".to_string(), None),
        Err(RequestError::NotLoaded)
    );
    assert!(!overall.enabled());
    assert_eq!(
        handle_load(&mut overall, rules.clone(), "lo".to_string(), loaded()),
        ok("Rules updated")
    );
    assert!(overall.enabled());
    assert_eq!(overall.state().unwrap().rule_map.len(), 1);
    assert_eq!(overall.state().unwrap().interface, "lo");
}

#[test]
fn rules_request_with_faulty_rules_is_refused() {
    let mut overall = fresh();
    let bad = vec![rule(1, 24, 6, 22, None), rule(1, 24, 6, 23, None)];
    assert_eq!(
        handle_load(&mut overall, bad, "lo".to_string(), loaded()),
        Err(RequestError::Rules(RuleError::DuplicateId { index: 1 }))
    );
    assert!(overall.enabled());
    assert_eq!(overall.state().unwrap().rule_map.len(), 0);
    let bad = vec![rule(1, 23, 6, 22, None)];
    assert_eq!(
        handle_load(&mut overall, bad, "lo".to_string(), None),
        Err(RequestError::Rules(RuleError::PrefixLength { index: 0 }))
    );
}

#[test]
fn requests_are_dispatched_by_type() {
    let mut overall = fresh();
    let status = request(ClientReqType::STATUS, None, None);
    assert_eq!(
        handle_server_request_fallible(&mut overall, status.clone(), None),
        ok("Ghostwire is disabled")
    );
    assert_eq!(
        handle_server_request_fallible(&mut overall, request(ClientReqType::ENABLE, None, None), loaded()),
        Err(RequestError::MissingEnableInterface)
    );
    assert_eq!(
        handle_server_request_fallible(
            &mut overall,
            request(ClientReqType::RULES, None, Some("lo")),
            loaded()
        ),
        Err(RequestError::MissingRules)
    );
    assert_eq!(
        handle_server_request_fallible(
            &mut overall,
            request(ClientReqType::RULES, Some(vec![]), None),
            loaded()
        ),
        Err(RequestError::MissingRulesInterface)
    );
    assert_eq!(
        handle_server_request_fallible(
            &mut overall,
            request(ClientReqType::RULES, None, None),
            loaded()
        ),
        Err(RequestError::MissingRules)
    );
    assert!(!overall.enabled());
    assert_eq!(
        handle_server_request_fallible(
            &mut overall,
            request(ClientReqType::ENABLE, None, Some("lo")),
            loaded()
        ),
        ok("Firewall enabled")
    );
    assert_eq!(
        handle_server_request_fallible(
            &mut overall,
            request(ClientReqType::RULES, Some(vec![rule(3, 8, 17, 0, None)]), Some("lo")),
            None
        ),
        ok("Rules updated")
    );
    assert_eq!(
        handle_server_request_fallible(&mut overall, status, None),
        ok("Ghostwire is enabled on interface lo with 1 rules")
    );
    assert_eq!(
        handle_server_request_fallible(&mut overall, request(ClientReqType::DISABLE, None, None), None),
        ok("Firewall disabled")
    );
}

#[test]
fn errors_are_worded_for_the_client() {
    let mut overall = fresh();
    let answer = handle_server_request(&mut overall, request(ClientReqType::DISABLE, None, None), None);
    assert_eq!(
        answer,
        ServerMessage { request_success: false, message: "Firewall is already disabled".to_string() }
    );
    let answer = handle_server_request(
        &mut overall,
        request(ClientReqType::ENABLE, None, Some("lo")),
        loaded(),
    );
    assert_eq!(
        answer,
        ServerMessage { request_success: true, message: "Firewall enabled".to_string() }
    );
    let texts = [
        (RequestError::MissingRules, "request to change rules didn't include rules"),
        (
            RequestError::MissingRulesInterface,
            "request to change rules didn't include the interface",
        ),
        (RequestError::MissingEnableInterface, "enable message didn't include the interface"),
        (RequestError::AlreadyEnabled, "Firewall is already enabled"),
        (RequestError::AlreadyDisabled, "Firewall is already disabled"),
        (RequestError::NotLoaded, "Firewall could not be enabled: nothing was loaded"),
        (RequestError::LoadFailed("no such device".to_string()), "no such device"),
        (
            RequestError::Rules(RuleError::PrefixLength { index: 12 }),
            "rule 12: prefix length does not fit the fields",
        ),
        (
            RequestError::Rules(RuleError::DuplicateId { index: 0 }),
            "rule 0: identifier is used by an earlier rule",
        ),
    ];
    for (error, text) in texts.iter() {
        assert_eq!(error.message(), *text);
    }
}

#[test]
fn load_is_needed_only_to_enable() {
    let mut overall = fresh();
    let enable = request(ClientReqType::ENABLE, None, Some("lo"));
    let rules = request(ClientReqType::RULES, Some(vec![]), Some("lo"));
    assert!(load_needed(&overall, &enable));
    assert!(load_needed(&overall, &rules));
    assert!(!load_needed(&overall, &request(ClientReqType::ENABLE, None, None)));
    assert!(!load_needed(&overall, &request(ClientReqType::RULES, None, Some("lo"))));
    assert!(!load_needed(&overall, &request(ClientReqType::RULES, Some(vec![]), None)));
    assert!(!load_needed(&overall, &request(ClientReqType::STATUS, None, Some("lo"))));
    assert!(!load_needed(&overall, &request(ClientReqType::DISABLE, None, Some("lo"))));
    handle_enable(&mut overall, "lo".to_string(), loaded()).unwrap();
    assert!(!load_needed(&overall, &enable));
    assert!(!load_needed(&overall, &rules));
    assert_eq!(SOCKET_PATH, "/tmp/ghostwire.sock");
    assert_eq!(REQUEST_LIMIT, 1024);
}

#[test]
fn loading_retries_once_in_generic_mode() {
    assert_eq!(load_ebpf(None), LoadStep::Try(AttachMode::Native));
    let native_ok = Attempt { mode: AttachMode::Native, failure: None };
    assert_eq!(load_ebpf(Some(native_ok)), LoadStep::Done(LoadReport::Loaded(AttachMode::Native)));
    let native_bad = Attempt { mode: AttachMode::Native, failure: Some("busy".to_string()) };
    assert_eq!(load_ebpf(Some(native_bad)), LoadStep::Try(AttachMode::Skb));
    let skb_ok = Attempt { mode: AttachMode::Skb, failure: None };
    assert_eq!(load_ebpf(Some(skb_ok)), LoadStep::Done(LoadReport::Loaded(AttachMode::Skb)));
    let skb_bad = Attempt { mode: AttachMode::Skb, failure: Some("no device".to_string()) };
    assert_eq!(
        load_ebpf(Some(skb_bad)),
        LoadStep::Done(LoadReport::Failed("no device".to_string()))
    );
}

#[test]
fn maintenance_clears_only_the_ratelimit_counters() {
    let mut overall = fresh();
    manage_maps(&mut overall);
    assert!(!overall.enabled());
    handle_load(&mut overall, vec![rule(1, 24, 17, 53, Some(2))], "lo".to_string(), loaded())
        .unwrap();
    overall.tc(&udp_frame(7, 99), 1);
    overall.xdp(&udp_frame(7, 53), 2);
    overall.xdp(&udp_frame(8, 53), 3);
    {
        let state = overall.state().unwrap();
        assert_eq!(state.rule_ratelimit_map.len(), 2);
        assert_eq!(state.holepunched.len(), 1);
    }
    manage_maps(&mut overall);
    let state = overall.state().unwrap();
    assert_eq!(state.rule_ratelimit_map.len(), 0);
    assert_eq!(state.holepunched.len(), 1);
    assert_eq!(state.rule_map.len(), 1);
    assert_eq!(state.rule_analytic_map.get(1).unwrap().evaluated, 2);
    assert_eq!(state.xdp_analytic_map.get(2), Some(2));
    assert_eq!(RATELIMIT_WINDOW_SECONDS, 60);
}

#[test]
fn fresh_counters_have_counted_nothing() {
    let mut counters = create_prometheus_counters().unwrap();
    for label in ["0", "5", "PASS", "DROP", "Unknown", ""] {
        assert_eq!(counters.get(Family::RuleEvaluated, label), 0);
        assert_eq!(counters.get(Family::RulePassed, label), 0);
        assert_eq!(counters.get(Family::XdpAction, label), 0);
        assert_eq!(counters.get(Family::TcAction, label), 0);
    }
    assert!(create_prometheus_counters().is_ok());
    assert!(!matches!(create_prometheus_counters(), Err(CounterError::NotCreated(_))));
    assert_eq!(
        (RULE_EVALUATED_NAME, RULE_PASSED_NAME, XDP_ACTION_NAME, TC_ACTION_NAME),
        ("gw_rule_evaluated", "gw_rule_passed", "gw_xdp_action", "gw_tc_action")
    );
    assert_eq!((RULE_LABEL, ACTION_LABEL), ("rule_id", "action"));
}

#[test]
fn export_adds_what_the_tables_are_ahead() {
    let mut overall = fresh();
    prometheus_metrics(&mut overall);
    assert_eq!(overall.counter(Family::XdpAction, "PASS"), 0);
    handle_load(&mut overall, vec![rule(5, 24, 17, 53, Some(2))], "lo".to_string(), loaded())
        .unwrap();
    for tick in 0..3 {
        overall.xdp(&udp_frame(7, 53), tick);
    }
    overall.xdp(&udp_frame(7, 54), 9);
    overall.tc(&udp_frame(7, 54), 9);
    assert_eq!(overall.counter(Family::RuleEvaluated, "5"), 0);
    prometheus_metrics(&mut overall);
    {
        assert_eq!(overall.counter(Family::RuleEvaluated, "5"), 3);
        assert_eq!(overall.counter(Family::RulePassed, "5"), 2);
        assert_eq!(overall.counter(Family::RulePassed, "6"), 0);
        assert_eq!(overall.counter(Family::XdpAction, "PASS"), 2);
        assert_eq!(overall.counter(Family::XdpAction, "DROP"), 2);
        assert_eq!(overall.counter(Family::XdpAction, "ABORTED"), 0);
        assert_eq!(overall.counter(Family::TcAction, "PIPE"), 1);
        assert_eq!(overall.counter(Family::TcAction, "SHOT"), 0);
    }
    prometheus_metrics(&mut overall);
    assert_eq!(overall.counter(Family::RuleEvaluated, "5"), 3);
    overall.xdp(&udp_frame(7, 53), 10);
    prometheus_metrics(&mut overall);
    assert_eq!(overall.counter(Family::RuleEvaluated, "5"), 4);
    assert_eq!(overall.counter(Family::RulePassed, "5"), 2);
    handle_disable(&mut overall).unwrap();
    handle_enable(&mut overall, "lo".to_string(), loaded()).unwrap();
    overall.xdp(&udp_frame(7, 53), 11);
    prometheus_metrics(&mut overall);
    assert_eq!(overall.counter(Family::RuleEvaluated, "5"), 4);
    assert_eq!(overall.counter(Family::XdpAction, "DROP"), 3);
    for tick in 0..2 {
        overall.xdp(&udp_frame(7, 53), 12 + tick);
    }
    prometheus_metrics(&mut overall);
    assert_eq!(overall.counter(Family::XdpAction, "DROP"), 3);
    overall.xdp(&udp_frame(7, 53), 14);
    prometheus_metrics(&mut overall);
    assert_eq!(overall.counter(Family::XdpAction, "DROP"), 4);
}

#[test]
fn a_state_feeds_counters_of_its_own() {
    let mut state = ghostwire::state::State::new("lo".to_string());
    assert!(state.rule_map.replace(&vec![rule(8, 24, 17, 53, None)]).is_ok());
    ghostwire::ingress::ghostwire_xdp(&mut state, &udp_frame(7, 53), 1);
    ghostwire::egress::ghostwire_tc(&mut state, &udp_frame(7, 53), 2);
    ghostwire::egress::ghostwire_tc(&mut state, &[0u8; 3], 3);
    let mut counters = create_prometheus_counters().unwrap();
    state.prometheus_metrics(&mut counters);
    assert_eq!(counters.get(Family::RuleEvaluated, "8"), 1);
    assert_eq!(counters.get(Family::RulePassed, "8"), 1);
    assert_eq!(counters.get(Family::XdpAction, "PASS"), 1);
    assert_eq!(counters.get(Family::TcAction, "PIPE"), 2);
    assert_eq!(counters.get(Family::TcAction, "SHOT"), 0);
    assert_eq!(counters.get(Family::TcAction, "OK"), 0);
}

#[test]
fn counter_delta_never_goes_back_and_stops_at_the_top() {
    assert_eq!(counter_delta(0, 0), 0);
    assert_eq!(counter_delta(0, 7), 7);
    assert_eq!(counter_delta(5, 7), 2);
    assert_eq!(counter_delta(7, 7), 0);
    assert_eq!(counter_delta(9, 7), 0);
    assert_eq!(counter_delta(1, u128::MAX), u64::MAX - 1);
    assert_eq!(counter_delta(u64::MAX, u128::MAX), 0);
    assert_eq!(counter_delta(0, u64::MAX as u128 + 1), u64::MAX);
}

#[test]
fn counters_take_in_readings_under_their_labels() {
    let mut counters = create_prometheus_counters().unwrap();
    let mut state = ghostwire::state::State::new("lo".to_string());
    for (key, count) in [(2, 4), (1, 12), (0, u128::MAX), (7, 30), (-3, 20), (1 << 40, 25)] {
        state.xdp_analytic_map.set(key, count);
        state.tc_analytic_map.set(key, count);
    }
    state.prometheus_metrics(&mut counters);
    assert_eq!(counters.get(Family::XdpAction, "PASS"), 4);
    assert_eq!(counters.get(Family::XdpAction, "DROP"), 12);
    assert_eq!(counters.get(Family::XdpAction, "ABORTED"), u64::MAX);
    assert_eq!(counters.get(Family::XdpAction, "Unknown"), 30);
    assert_eq!(counters.get(Family::XdpAction, "TX"), 0);
    assert_eq!(counters.get(Family::TcAction, "OK"), u64::MAX);
    assert_eq!(counters.get(Family::TcAction, "SHOT"), 4);
    assert_eq!(counters.get(Family::TcAction, "PIPE"), 0);
    assert_eq!(counters.get(Family::TcAction, "Unknown"), 30);
    state.xdp_analytic_map.set(2, 3);
    state.xdp_analytic_map.set(1, 13);
    state.rule_analytic_map.set(12, RuleAnalytics { rule_id: 12, evaluated: 9, passed: 8 });
    state.rule_analytic_map.set(-4, RuleAnalytics { rule_id: 0, evaluated: 2, passed: 1 });
    state.prometheus_metrics(&mut counters);
    assert_eq!(counters.get(Family::XdpAction, "PASS"), 4);
    assert_eq!(counters.get(Family::XdpAction, "DROP"), 13);
    assert_eq!(counters.get(Family::XdpAction, "ABORTED"), u64::MAX);
    assert_eq!(counters.get(Family::TcAction, "SHOT"), 4);
    assert_eq!(counters.get(Family::RuleEvaluated, "12"), 9);
    assert_eq!(counters.get(Family::RulePassed, "12"), 8);
    assert_eq!(counters.get(Family::RuleEvaluated, "-4"), 2);
    assert_eq!(counters.get(Family::RulePassed, "-4"), 1);
    assert_eq!(counters.get(Family::RulePassed, "4"), 0);
}

#[test]
fn setting_up_a_family_fails_where_the_crate_refuses() {
    let failure = || prometheus::Error::Msg("refused".to_string());
    assert_eq!(
        family_outcome(Family::XdpAction, Err(failure()), None).map(|_| ()),
        Err(CounterError::NotCreated(Family::XdpAction))
    );
    assert_eq!(
        family_outcome(Family::TcAction, Err(failure()), Some(Ok(()))).map(|_| ()),
        Err(CounterError::NotCreated(Family::TcAction))
    );
    assert_eq!(
        family_outcome(Family::RulePassed, Err(failure()), Some(Err(failure()))).map(|_| ()),
        Err(CounterError::NotCreated(Family::RulePassed))
    );
}

#[test]
fn metrics_endpoint_answers_with_text_or_status_500() {
    assert_eq!(
        http_reply(Ok(b"gw_xdp_action{action=\"PASS\"} 2\n".to_vec())),
        HttpReply { status: 200, body: b"gw_xdp_action{action=\"PASS\"} 2\n".to_vec() }
    );
    assert_eq!(
        http_reply(Err(prometheus::Error::Msg("broken".to_string()))),
        HttpReply { status: 500, body: b"Failed to encode prometheus metrics".to_vec() }
    );
    let mut overall = fresh();
    handle_load(&mut overall, vec![rule(5, 24, 17, 53, None)], "lo".to_string(), loaded())
        .unwrap();
    overall.xdp(&udp_frame(7, 53), 1);
    overall.xdp(&udp_frame(7, 53), 2);
    prometheus_metrics(&mut overall);
    let reply = prom_http(overall.counters());
    assert_eq!(reply.status, 200);
    let text = String::from_utf8(reply.body).unwrap();
    assert!(text.contains("gw_xdp_action{action=\"PASS\"} 2\n"), "{}", text);
    assert!(text.contains("gw_rule_evaluated{rule_id=\"5\"} 2\n"), "{}", text);
    assert!(text.contains("gw_rule_passed{rule_id=\"5\"} 2\n"), "{}", text);
    assert!(text.contains("# TYPE gw_xdp_action counter\n"), "{}", text);
    assert!(!text.contains("gw_tc_action"), "{}", text);
}

#[test]
fn verdict_labels() {
    let xdp: Vec<&str> = (0..6).map(xdp_action_to_string).collect();
    assert_eq!(xdp, ["ABORTED", "DROP", "PASS", "TX", "REDIRECT", "Unknown"]);
    assert_eq!(xdp_action_to_string(u32::MAX), "Unknown");
    let tc: Vec<&str> = (-1..5).map(tc_action_to_string).collect();
    assert_eq!(tc, ["Unknown", "OK", "Unknown", "SHOT", "PIPE", "Unknown"]);
}

#[test]
fn commands_become_requests() {
    assert_eq!(
        handle_arguments(Some("status")),
        Ok(CliStep::Send(request(ClientReqType::STATUS, None, None)))
    );
    assert_eq!(
        handle_arguments(Some("disable")),
        Ok(CliStep::Send(request(ClientReqType::DISABLE, None, None)))
    );
    assert_eq!(handle_arguments(Some("load")), Ok(CliStep::ReadRules));
    assert_eq!(handle_arguments(Some("enable")), Err(CliError::NoSubcommand));
    assert_eq!(handle_arguments(Some("Status")), Err(CliError::NoSubcommand));
    assert_eq!(handle_arguments(Some("")), Err(CliError::NoSubcommand));
    assert_eq!(handle_arguments(None), Err(CliError::NoSubcommand));
}

#[test]
fn rule_file_becomes_a_rules_request() {
    let yaml = YamlRule {
        source_ip_range: "10.0.0.0/8".to_string(),
        destination_ip_range: "0.0.0.0/0".to_string(),
        protocol: Some("tcp".to_string()),
        port: Some(22),
        ratelimit: Some(100),
    };
    let message = load_request(vec![yaml.clone(), yaml.clone()], Some("eth0".to_string())).unwrap();
    assert_eq!(message.req_type, ClientReqType::RULES);
    assert_eq!(message.interface, Some("eth0".to_string()));
    let rules = message.rules.unwrap();
    assert_eq!(rules.len(), 2);
    assert_eq!(
        rules[1],
        Rule {
            id: 1,
            prefix_length: 32,
            source_prefix_length: 8,
            destination_prefix_length: 0,
            source_ip_range: u32::from_le_bytes([10, 0, 0, 0]),
            destination_ip_range: 0,
            protocol_number: 6,
            port_number: u16::from_le_bytes([0, 22]),
            ratelimit: Some(100),
        }
    );
    assert_eq!(load_request(vec![yaml], None), Err(YamlError::InterfaceMissing));
}

#[test]
fn answers_are_read_for_the_user() {
    let good = ServerMessage { request_success: true, message: "Rules updated".to_string() };
    assert_eq!(send_message(good), Ok("Rules updated".to_string()));
    let bad = ServerMessage {
        request_success: false,
        message: "Firewall is already disabled".to_string(),
    };
    assert_eq!(
        send_message(bad),
        Err("The server responded with an error: Firewall is already disabled".to_string())
    );
}

#[test]
fn lint_arguments_follow_the_options() {
    let none = Options {
        bpf_target: Architecture::BpfEl,
        fix: false,
        allow_dirty: false,
        allow_staged: false,
    };
    assert_eq!(run_clippy(none), ["clippy"]);
    assert_eq!(run_clippy(Options { fix: true, ..none }), ["clippy", "--fix"]);
    assert_eq!(
        run_clippy(Options { allow_staged: true, allow_dirty: true, ..none }),
        ["clippy", "--allow-dirty", "--allow-staged"]
    );
    let all = Options {
        bpf_target: Architecture::BpfEb,
        fix: true,
        allow_dirty: true,
        allow_staged: true,
    };
    assert_eq!(run_clippy(all), ["clippy", "--fix", "--allow-dirty", "--allow-staged"]);
}
