//! From the rules of a rule file to the rules the daemon loads.

use crate::rule::{
    key_of, key_well_formed, mask_of, network_mask, port_bits, protocol_bits, rule_fault,
    rules_loadable,
};
use crate::types::{Protocol, Rule};
use vstd::prelude::*;
use vstd::string::StringExecFns;

verus! {

/// A rule as the rule file states it.
#[derive(Debug, Clone, PartialEq, Eq)]
pub struct YamlRule {
    /// The source network: an address, or an address, `/` and a prefix length.
    pub source_ip_range: String,
    /// The destination network, in the same notation.
    pub destination_ip_range: String,
    /// The protocol by name, if the rule is for one protocol.
    pub protocol: Option<String>,
    /// The destination port, if the rule is for one port.
    pub port: Option<u16>,
    /// Packets allowed per source address and minute, if limited.
    pub ratelimit: Option<u32>,
}

/// Why a rule file was refused.
#[derive(Debug, Clone, Copy, PartialEq, Eq, Structural)]
pub enum YamlError {
    /// An address is not four decimal octets with dots between them.
    InvalidIpAddress,
    /// A prefix length is not a decimal number from 0 to 32.
    InvalidPrefixLength,
    /// A protocol name is none of the names known.
    InvalidProtocol,
    /// A port is given, but no protocol.
    PortWithoutProtocol,
    /// The file holds more rules than identifiers exist.
    TooManyRules,
    /// The file names no interface.
    InterfaceMissing,
}

/// The sentence that tells the user what is wrong with a rule file.
pub open spec fn yaml_error_text(error: YamlError) -> Seq<char> {
    match error {
        YamlError::InvalidIpAddress => "Invalid IP address"@,
        YamlError::InvalidPrefixLength => "Invalid prefix length"@,
        YamlError::InvalidProtocol => "Invalid protocol"@,
        YamlError::PortWithoutProtocol => "Port provided without protocol"@,
        YamlError::TooManyRules => "Too many rules"@,
        YamlError::InterfaceMissing => "interface not provided"@,
    }
}

impl YamlError {
    /// The sentence that tells the user of this error.
    pub fn message(&self) -> (text: String)
        ensures
            text@ == yaml_error_text(*self),
    {
        match self {
            YamlError::InvalidIpAddress => String::from_str("Invalid IP address"),
            YamlError::InvalidPrefixLength => String::from_str("Invalid prefix length"),
            YamlError::InvalidProtocol => String::from_str("Invalid protocol"),
            YamlError::PortWithoutProtocol => String::from_str("Port provided without protocol"),
            YamlError::TooManyRules => String::from_str("Too many rules"),
            YamlError::InterfaceMissing => String::from_str("interface not provided"),
        }
    }
}

/// Whether `c` is a decimal digit.
pub open spec fn is_digit(c: char) -> bool {
    48 <= c as u32 <= 57
}

/// Whether `text` holds decimal digits only.
pub open spec fn all_digits(text: Seq<char>) -> bool {
    forall|i: int| 0 <= i < text.len() ==> is_digit(#[trigger] text[i])
}

/// The number a string of decimal digits stands for.
pub open spec fn number_of(text: Seq<char>) -> nat
    decreases text.len(),
{
    if text.len() == 0 {
        0
    } else {
        number_of(text.drop_last()) * 10 + (text.last() as u32 - 48) as nat
    }
}

/// The octet `text` stands for: one to three digits, no leading zero, at
/// most 255.
pub open spec fn octet_of(text: Seq<char>) -> Option<u8> {
    if 1 <= text.len() <= 3 && all_digits(text) && (text.len() == 1 || text[0] != '0')
        && number_of(text) <= 255 {
        Some(number_of(text) as u8)
    } else {
        None
    }
}

/// The prefix length `text` stands for: one or two digits, at most 32.
pub open spec fn prefix_of(text: Seq<char>) -> Option<u32> {
    if 1 <= text.len() <= 2 && all_digits(text) && number_of(text) <= 32 {
        Some(number_of(text) as u32)
    } else {
        None
    }
}

/// Whether `at` is where `mark` first stands in `text`, or the length of
/// `text` if it stands nowhere.
pub open spec fn is_first(text: Seq<char>, mark: char, at: int) -> bool {
    &&& 0 <= at <= text.len()
    &&& at < text.len() ==> text[at] == mark
    &&& forall|i: int| 0 <= i < at ==> text[i] != mark
}

/// Where `mark` first stands in `text`, or the length of `text`.
pub open spec fn first_index(text: Seq<char>, mark: char) -> int {
    choose|at: int| is_first(text, mark, at)
}

/// What stands before the first `mark` of `text`.
pub open spec fn head(text: Seq<char>, mark: char) -> Seq<char> {
    text.subrange(0, first_index(text, mark))
}

/// What stands behind the first `mark` of `text`, if there is a `mark`.
pub open spec fn tail(text: Seq<char>, mark: char) -> Option<Seq<char>> {
    if first_index(text, mark) < text.len() {
        Some(text.subrange(first_index(text, mark) + 1, text.len() as int))
    } else {
        None
    }
}

/// The address of the four octets in network byte order: the first
/// octet is the lowest byte of the number.
pub open spec fn address_from(a: u8, b: u8, c: u8, d: u8) -> u32 {
    (a + b * 256 + c * 65536 + d * 16777216) as u32
}

/// A port in network byte order: its high byte is the lowest byte of the
/// number.
pub open spec fn port_to_network(port: u16) -> u16 {
    ((port % 256) * 256 + port / 256) as u16
}

/// Computes [`port_to_network`].
pub fn network_port(port: u16) -> (value: u16)
    ensures
        value == port_to_network(port),
{
    (port % 256) * 256 + port / 256
}

/// The address `text` stands for: four octets with dots between them.
pub open spec fn address_of(text: Seq<char>) -> Option<u32> {
    match tail(text, '.') {
        None => None,
        Some(second) => match tail(second, '.') {
            None => None,
            Some(third) => match tail(third, '.') {
                None => None,
                Some(fourth) => match (
                    octet_of(head(text, '.')),
                    octet_of(head(second, '.')),
                    octet_of(head(third, '.')),
                    octet_of(fourth),
                ) {
                    (Some(a), Some(b), Some(c), Some(d)) => Some(address_from(a, b, c, d)),
                    _ => None,
                },
            },
        },
    }
}

/// The network `text` stands for, as its first address in network byte
/// order and its prefix length: an address alone is a network of that
/// one address; behind a `/` stands the prefix length, and the address
/// is cut down to it.
pub open spec fn range_of(text: Seq<char>) -> Result<(u32, u32), YamlError> {
    match address_of(head(text, '/')) {
        None => Err(YamlError::InvalidIpAddress),
        Some(address) => match tail(text, '/') {
            None => Ok((address, 32u32)),
            Some(length) => match prefix_of(length) {
                None => Err(YamlError::InvalidPrefixLength),
                Some(bits) => Ok((address & network_mask(bits), bits)),
            },
        },
    }
}

/// At most one place is the first.
proof fn lemma_first_unique(text: Seq<char>, mark: char, at: int)
    requires
        is_first(text, mark, at),
    ensures
        first_index(text, mark) == at,
{
    let chosen = first_index(text, mark);
    assert(is_first(text, mark, chosen));
    if chosen < at {
        assert(text[chosen] != mark);
    } else if at < chosen {
        assert(text[at] != mark);
    }
}

/// The characters of a string.
fn chars_of(text: &str) -> (chars: Vec<char>)
    ensures
        chars@ == text@,
{
    let n = text.unicode_len();
    let mut chars: Vec<char> = Vec::new();
    let mut i: usize = 0;
    while i < n
        invariant
            i <= n,
            n == text@.len(),
            chars@ == text@.subrange(0, i as int),
        decreases n - i,
    {
        chars.push(text.get_char(i));
        assert(chars@ =~= text@.subrange(0, i + 1));
        i += 1;
    }
    assert(text@.subrange(0, n as int) =~= text@);
    chars
}

/// Where `mark` first stands in `chars[from..to]`, counted from `from`.
fn find(chars: &Vec<char>, from: usize, to: usize, mark: char) -> (at: usize)
    requires
        from <= to <= chars@.len(),
    ensures
        from <= at <= to,
        at - from == first_index(chars@.subrange(from as int, to as int), mark),
{
    let ghost part = chars@.subrange(from as int, to as int);
    let mut at: usize = from;
    while at < to
        invariant
            from <= at <= to <= chars@.len(),
            part == chars@.subrange(from as int, to as int),
            forall|i: int| 0 <= i < at - from ==> part[i] != mark,
        decreases to - at,
    {
        if chars[at] == mark {
            proof {
                assert(part[at - from] == chars@[at as int]);
                lemma_first_unique(part, mark, at - from);
            }
            return at;
        }
        assert(part[at - from] == chars@[at as int]);
        at += 1;
    }
    proof {
        lemma_first_unique(part, mark, at - from);
    }
    at
}

/// The number `chars[from..to]` stands for, if these are one to three
/// decimal digits.
fn read_number(chars: &Vec<char>, from: usize, to: usize) -> (number: Option<u32>)
    requires
        from <= to <= chars@.len(),
    ensures
        number is Some <==> 1 <= to - from <= 3 && all_digits(
            chars@.subrange(from as int, to as int),
        ),
        number matches Some(n) ==> n == number_of(chars@.subrange(from as int, to as int)),
{
    let ghost part = chars@.subrange(from as int, to as int);
    if to - from < 1 || to - from > 3 {
        return None;
    }
    let mut number: u32 = 0;
    let mut at: usize = from;
    assert(part.subrange(0, 0) =~= Seq::<char>::empty());
    while at < to
        invariant
            from <= at <= to <= chars@.len(),
            to - from <= 3,
            part == chars@.subrange(from as int, to as int),
            all_digits(part.subrange(0, at - from)),
            number == number_of(part.subrange(0, at - from)),
            number <= 999,
            at - from <= 2 ==> number <= 99,
            at - from <= 1 ==> number <= 9,
            at - from <= 0 ==> number == 0,
        decreases to - at,
    {
        let code = chars[at] as u32;
        assert(part[at - from] == chars@[at as int]);
        if code < 48 || code > 57 {
            assert(!is_digit(part[at - from]));
            return None;
        }
        proof {
            let upto = part.subrange(0, at - from + 1);
            assert(upto.drop_last() =~= part.subrange(0, at - from));
            assert(upto.last() == part[at - from]);
            assert forall|i: int| 0 <= i < upto.len() implies is_digit(#[trigger] upto[i]) by {
                if i < at - from {
                    assert(upto[i] == part.subrange(0, at - from)[i]);
                }
            }
        }
        number = number * 10 + (code - 48);
        at += 1;
    }
    assert(part.subrange(0, at - from) =~= part);
    Some(number)
}

/// Reads [`octet_of`] from `chars[from..to]`.
fn read_octet(chars: &Vec<char>, from: usize, to: usize) -> (octet: Option<u8>)
    requires
        from <= to <= chars@.len(),
    ensures
        octet == octet_of(chars@.subrange(from as int, to as int)),
{
    let ghost part = chars@.subrange(from as int, to as int);
    match read_number(chars, from, to) {
        None => None,
        Some(number) => {
            assert(part[0] == chars@[from as int]);
            if (to - from > 1 && chars[from] == '0') || number > 255 {
                None
            } else {
                Some(number as u8)
            }
        },
    }
}

/// Reads [`address_of`] from `chars[from..to]`.
fn read_address(chars: &Vec<char>, from: usize, to: usize) -> (address: Option<u32>)
    requires
        from <= to <= chars@.len(),
    ensures
        address == address_of(chars@.subrange(from as int, to as int)),
{
    let ghost text = chars@.subrange(from as int, to as int);
    let dot1 = find(chars, from, to, '.');
    if dot1 >= to {
        return None;
    }
    let ghost second = chars@.subrange(dot1 + 1, to as int);
    assert(tail(text, '.') == Some(second)) by {
        assert(text.subrange(dot1 - from + 1, text.len() as int) =~= second);
    }
    assert(head(text, '.') =~= chars@.subrange(from as int, dot1 as int));
    let dot2 = find(chars, dot1 + 1, to, '.');
    if dot2 >= to {
        return None;
    }
    let ghost third = chars@.subrange(dot2 + 1, to as int);
    assert(tail(second, '.') == Some(third)) by {
        assert(second.subrange(dot2 - dot1, second.len() as int) =~= third);
    }
    assert(head(second, '.') =~= chars@.subrange(dot1 + 1, dot2 as int));
    let dot3 = find(chars, dot2 + 1, to, '.');
    if dot3 >= to {
        return None;
    }
    let ghost fourth = chars@.subrange(dot3 + 1, to as int);
    assert(tail(third, '.') == Some(fourth)) by {
        assert(third.subrange(dot3 - dot2, third.len() as int) =~= fourth);
    }
    assert(head(third, '.') =~= chars@.subrange(dot2 + 1, dot3 as int));
    let a = read_octet(chars, from, dot1);
    let b = read_octet(chars, dot1 + 1, dot2);
    let c = read_octet(chars, dot2 + 1, dot3);
    let d = read_octet(chars, dot3 + 1, to);
    match (a, b, c, d) {
        (Some(a), Some(b), Some(c), Some(d)) => Some(
            (a as u32) + (b as u32) * 256 + (c as u32) * 65536 + (d as u32) * 16777216,
        ),
        _ => None,
    }
}

/// Reads a network in the notation of the rule file: its first address
/// and its prefix length; see [`range_of`].
pub fn parse_ip_range(ip_range: &str) -> (range: Result<(u32, u32), YamlError>)
    ensures
        range == range_of(ip_range@),
{
    let chars = chars_of(ip_range);
    let n = chars.len();
    let slash = find(&chars, 0, n, '/');
    assert(chars@.subrange(0, n as int) =~= chars@);
    assert(head(chars@, '/') =~= chars@.subrange(0, slash as int));
    match read_address(&chars, 0, slash) {
        None => Err(YamlError::InvalidIpAddress),
        Some(address) => {
            if slash >= n {
                Ok((address, 32))
            } else {
                let ghost length = chars@.subrange(slash + 1, n as int);
                if n - (slash + 1) > 2 {
                    return Err(YamlError::InvalidPrefixLength);
                }
                match read_number(&chars, slash + 1, n) {
                    None => Err(YamlError::InvalidPrefixLength),
                    Some(bits) => if bits > 32 {
                        Err(YamlError::InvalidPrefixLength)
                    } else {
                        Ok((address & mask_of(bits), bits))
                    },
                }
            }
        },
    }
}


/// Whether `c` is the small letter `letter` or its capital.
pub open spec fn same_letter(c: char, letter: char) -> bool {
    c == letter || (65 <= c as u32 <= 90 && c as u32 + 32 == letter as u32)
}

/// Whether `text` spells `word`, a word in small letters, in small
/// letters or capitals.
pub open spec fn spells(text: Seq<char>, word: Seq<char>) -> bool {
    &&& text.len() == word.len()
    &&& forall|i: int| 0 <= i < text.len() ==> same_letter(#[trigger] text[i], word[i])
}

/// The protocol that `name` names.
pub open spec fn protocol_named(name: Seq<char>) -> Option<Protocol> {
    if spells(name, seq!['i', 'c', 'm', 'p']) {
        Some(Protocol::ICMP)
    } else if spells(name, seq!['t', 'c', 'p']) {
        Some(Protocol::TCP)
    } else if spells(name, seq!['u', 'd', 'p']) {
        Some(Protocol::UDP)
    } else {
        None
    }
}

/// Decides [`spells`].
fn check_word(text: &Vec<char>, word: &Vec<char>) -> (same: bool)
    ensures
        same == spells(text@, word@),
{
    if text.len() != word.len() {
        return false;
    }
    let mut i: usize = 0;
    while i < text.len()
        invariant
            i <= text@.len(),
            text@.len() == word@.len(),
            forall|k: int| 0 <= k < i ==> same_letter(#[trigger] text@[k], word@[k]),
        decreases text@.len() - i,
    {
        let c = text[i] as u32;
        let w = word[i] as u32;
        if !(text[i] == word[i] || (c >= 65 && c <= 90 && c + 32 == w)) {
            assert(!same_letter(text@[i as int], word@[i as int]));
            return false;
        }
        i += 1;
    }
    true
}

/// Finds the protocol that `name` names; see [`protocol_named`].
pub fn protocol_by_name(name: &str) -> (protocol: Option<Protocol>)
    ensures
        protocol == protocol_named(name@),
{
    let chars = chars_of(name);
    let first = vec!['i', 'c', 'm', 'p'];
    let second = vec!['t', 'c', 'p'];
    let third = vec!['u', 'd', 'p'];
    assert(first@ =~= seq!['i', 'c', 'm', 'p']);
    assert(second@ =~= seq!['t', 'c', 'p']);
    assert(third@ =~= seq!['u', 'd', 'p']);
    if check_word(&chars, &first) {
        Some(Protocol::ICMP)
    } else if check_word(&chars, &second) {
        Some(Protocol::TCP)
    } else if check_word(&chars, &third) {
        Some(Protocol::UDP)
    } else {
        None
    }
}

/// The rule a rule of the rule file stands for, under the identifier
/// `id`. Source and destination are read as [`range_of`] says, the
/// protocol as [`protocol_named`] says, and a port needs a protocol. The
/// prefix length is what the fields contribute together: the prefix
/// lengths of source and destination, 8 for a protocol, 16 for a port.
/// Addresses and port are in network byte order.
pub open spec fn convert_spec(rule: YamlRule, id: u32) -> Result<Rule, YamlError> {
    match range_of(rule.source_ip_range@) {
        Err(error) => Err(error),
        Ok(source) => match range_of(rule.destination_ip_range@) {
            Err(error) => Err(error),
            Ok(destination) => if rule.protocol matches Some(name) && protocol_named(name@)
                is None {
                Err(YamlError::InvalidProtocol)
            } else if rule.port is Some && rule.protocol is None {
                Err(YamlError::PortWithoutProtocol)
            } else {
                Ok(
                    Rule {
                        id,
                        prefix_length: (source.1 + destination.1 + (if rule.protocol is Some {
                            8int
                        } else {
                            0int
                        }) + (if rule.port is Some {
                            16int
                        } else {
                            0int
                        })) as u32,
                        source_prefix_length: source.1,
                        destination_prefix_length: destination.1,
                        source_ip_range: source.0,
                        destination_ip_range: destination.0,
                        protocol_number: match rule.protocol {
                            Some(name) => protocol_named(name@)->Some_0.number_spec(),
                            None => 0u8,
                        },
                        port_number: match rule.port {
                            Some(port) => port_to_network(port),
                            None => 0u16,
                        },
                        ratelimit: rule.ratelimit,
                    },
                )
            },
        },
    }
}

/// A prefix length read from a rule file is at most 32.
pub proof fn lemma_range_bits(text: Seq<char>)
    ensures
        range_of(text) matches Ok(range) ==> range.1 <= 32,
{
}

/// Turns a rule of the rule file into a rule the daemon loads; see
/// [`convert_spec`]. The prefix length of the rule it makes is the sum of
/// what its fields contribute, so the rule table takes it.
pub fn convert_to_rule(yaml_rule: &YamlRule, id: u32) -> (rule: Result<Rule, YamlError>)
    ensures
        rule == convert_spec(*yaml_rule, id),
        rule matches Ok(made) ==> key_well_formed(key_of(made)) && protocol_bits(key_of(made))
            == (if yaml_rule.protocol is Some {
            8u32
        } else {
            0u32
        }) && port_bits(key_of(made)) == (if yaml_rule.port is Some {
            16u32
        } else {
            0u32
        }),
{
    proof {
        lemma_range_bits(yaml_rule.source_ip_range@);
        lemma_range_bits(yaml_rule.destination_ip_range@);
    }
    let mut prefix_length: u32 = 0;
    let (source_ip_range, source_prefix_length) = match parse_ip_range(
        yaml_rule.source_ip_range.as_str(),
    ) {
        Ok(range) => range,
        Err(error) => {
            return Err(error);
        },
    };
    prefix_length += source_prefix_length;
    let (destination_ip_range, destination_prefix_length) = match parse_ip_range(
        yaml_rule.destination_ip_range.as_str(),
    ) {
        Ok(range) => range,
        Err(error) => {
            return Err(error);
        },
    };
    prefix_length += destination_prefix_length;
    let mut protocol: Option<u8> = None;
    match &yaml_rule.protocol {
        Some(name) => {
            match protocol_by_name(name.as_str()) {
                Some(found) => {
                    protocol = Some(found.number());
                },
                None => {
                    return Err(YamlError::InvalidProtocol);
                },
            }
            prefix_length += 8;
        },
        None => {},
    }
    match yaml_rule.port {
        Some(_) => {
            if protocol.is_none() {
                return Err(YamlError::PortWithoutProtocol);
            }
            prefix_length += 16;
        },
        None => {},
    }
    Ok(
        Rule {
            id,
            prefix_length,
            source_prefix_length,
            destination_prefix_length,
            source_ip_range,
            destination_ip_range,
            protocol_number: match protocol {
                Some(number) => number,
                None => 0,
            },
            port_number: match yaml_rule.port {
                Some(port) => network_port(port),
                None => 0,
            },
            ratelimit: yaml_rule.ratelimit,
        },
    )
}

/// What the rule at place `i` of a rule file converts to, its place
/// being its identifier.
pub open spec fn converted(rules: Seq<YamlRule>, i: int) -> Result<Rule, YamlError> {
    convert_spec(rules[i], i as u32)
}

/// Whether the rule at place `at` is the first that cannot be converted.
pub open spec fn first_failure(rules: Seq<YamlRule>, at: int) -> bool {
    &&& 0 <= at < rules.len()
    &&& converted(rules, at) is Err
    &&& forall|j: int| 0 <= j < at ==> (#[trigger] converted(rules, j)) is Ok
}

/// What is wrong with a rule file, if anything: the first rule that
/// cannot be converted decides; a file with more rules than identifiers
/// is refused before that, a file without an interface after that.
pub open spec fn file_fault(rules: Seq<YamlRule>, interface: Option<String>) -> Option<YamlError> {
    if rules.len() > u32::MAX {
        Some(YamlError::TooManyRules)
    } else if exists|at: int| first_failure(rules, at) {
        Some(converted(rules, choose|at: int| first_failure(rules, at))->Err_0)
    } else if interface is None {
        Some(YamlError::InterfaceMissing)
    } else {
        None
    }
}

/// Turns what a rule file holds into the rules to load and the
/// interface to load them on. Each rule gets its place in the file as
/// its identifier. The rules that come out can be loaded: every prefix
/// length fits its fields and no identifier occurs twice.
pub fn parse_yaml(rules: Vec<YamlRule>, interface: Option<String>) -> (parsed: Result<
    (Vec<Rule>, String),
    YamlError,
>)
    ensures
        match parsed {
            Ok(made) => file_fault(rules@, interface) is None && interface == Some(made.1)
                && made.0@.len() == rules@.len() && forall|i: int|
                0 <= i < rules@.len() ==> (#[trigger] converted(rules@, i)) == Ok::<
                    Rule,
                    YamlError,
                >(made.0@[i]),
            Err(error) => file_fault(rules@, interface) == Some(error),
        },
        parsed matches Ok(made) ==> rules_loadable(made.0@),
{
    if rules.len() > u32::MAX as usize {
        return Err(YamlError::TooManyRules);
    }
    let mut parsed_rules: Vec<Rule> = Vec::new();
    let mut i: usize = 0;
    while i < rules.len()
        invariant
            i <= rules@.len() <= u32::MAX,
            parsed_rules@.len() == i,
            forall|j: int|
                0 <= j < i ==> (#[trigger] converted(rules@, j)) == Ok::<Rule, YamlError>(
                    parsed_rules@[j],
                ),
            forall|j: int|
                0 <= j < i ==> (#[trigger] parsed_rules@[j]).id == j && key_well_formed(
                    key_of(parsed_rules@[j]),
                ),
        decreases rules@.len() - i,
    {
        match convert_to_rule(&rules[i], i as u32) {
            Ok(rule) => {
                parsed_rules.push(rule);
                assert(converted(rules@, i as int) == Ok::<Rule, YamlError>(rule));
            },
            Err(error) => {
                proof {
                    assert(converted(rules@, i as int) == Err::<Rule, YamlError>(error));
                    assert(first_failure(rules@, i as int));
                    let first = choose|at: int| first_failure(rules@, at);
                    if first < i {
                        assert(converted(rules@, first) is Ok);
                    } else if i < first {
                        assert(converted(rules@, i as int) is Ok);
                    }
                }
                return Err(error);
            },
        }
        i += 1;
    }
    proof {
        if exists|at: int| first_failure(rules@, at) {
            let at = choose|at: int| first_failure(rules@, at);
            assert(converted(rules@, at) is Ok);
        }
        assert forall|k: int| 0 <= k < parsed_rules@.len() implies rule_fault(
            parsed_rules@,
            k,
        ) is None by {
            assert(parsed_rules@[k].id == k);
            assert(forall|j: int| 0 <= j < k ==> (#[trigger] parsed_rules@[j]).id == j);
        }
    }
    match interface {
        Some(name) => Ok((parsed_rules, name)),
        None => Err(YamlError::InterfaceMissing),
    }
}

} // verus!
