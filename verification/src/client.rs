//! The client's side of the management socket: which request a command
//! stands for, and what the answer means.

use crate::rule::rules_loadable;
use crate::types::{ClientMessage, ClientReqType, Rule, ServerMessage};
use crate::yaml::{converted, file_fault, parse_yaml, YamlError, YamlRule};
use vstd::prelude::*;
use vstd::string::StringExecFns;

verus! {

/// What the client does for a command.
#[derive(Debug, Clone, PartialEq, Eq)]
pub enum CliStep {
    /// Send the request as it is.
    Send(ClientMessage),
    /// Read the rule file the command names, then send its rules.
    ReadRules,
}

/// Why the client did nothing.
#[derive(Debug, Clone, Copy, PartialEq, Eq, Structural)]
pub enum CliError {
    /// No command was given, or none that is known.
    NoSubcommand,
}

/// What to do for the command `name`: `status` and `disable` are
/// requests of their own, `load` needs a rule file read first, and
/// anything else is no command.
pub fn handle_arguments(name: Option<&str>) -> (step: Result<CliStep, CliError>)
    ensures
        match name {
            Some(word) => if word@ == "status"@ {
                step matches Ok(CliStep::Send(message)) && message.req_type
                    == ClientReqType::STATUS && message.rules is None && message.interface
                    is None
            } else if word@ == "disable"@ {
                step matches Ok(CliStep::Send(message)) && message.req_type
                    == ClientReqType::DISABLE && message.rules is None && message.interface
                    is None
            } else if word@ == "load"@ {
                step == Ok::<CliStep, CliError>(CliStep::ReadRules)
            } else {
                step == Err::<CliStep, CliError>(CliError::NoSubcommand)
            },
            None => step == Err::<CliStep, CliError>(CliError::NoSubcommand),
        },
{
    match name {
        Some(word) => {
            let word = String::from_str(word);
            if word == String::from_str("status") {
                Ok(
                    CliStep::Send(
                        ClientMessage {
                            req_type: ClientReqType::STATUS,
                            interface: None,
                            rules: None,
                        },
                    ),
                )
            } else if word == String::from_str("disable") {
                Ok(
                    CliStep::Send(
                        ClientMessage {
                            req_type: ClientReqType::DISABLE,
                            interface: None,
                            rules: None,
                        },
                    ),
                )
            } else if word == String::from_str("load") {
                Ok(CliStep::ReadRules)
            } else {
                Err(CliError::NoSubcommand)
            }
        },
        None => Err(CliError::NoSubcommand),
    }
}

/// The request that loads what a rule file holds: its rules, converted,
/// and its interface; or what is wrong with the file. The rules of the
/// request can be loaded as they are.
pub fn load_request(rules: Vec<YamlRule>, interface: Option<String>) -> (request: Result<
    ClientMessage,
    YamlError,
>)
    ensures
        match request {
            Ok(message) => file_fault(rules@, interface) is None && message.req_type
                == ClientReqType::RULES && message.interface == interface && message.rules
                is Some && message.rules->Some_0@.len() == rules@.len() && forall|i: int|
                0 <= i < rules@.len() ==> (#[trigger] converted(rules@, i)) == Ok::<
                    Rule,
                    YamlError,
                >(message.rules->Some_0@[i]),
            Err(error) => file_fault(rules@, interface) == Some(error),
        },
        request matches Ok(message) ==> message.rules is Some && rules_loadable(
            message.rules->Some_0@,
        ),
{
    match parse_yaml(rules, interface) {
        Ok(parsed) => Ok(
            ClientMessage {
                req_type: ClientReqType::RULES,
                interface: Some(parsed.1),
                rules: Some(parsed.0),
            },
        ),
        Err(error) => Err(error),
    }
}

/// What the answer of the daemon means to the user: the message of a
/// success, or an error that says the server refused and why.
pub fn send_message(response: ServerMessage) -> (outcome: Result<String, String>)
    ensures
        match outcome {
            Ok(text) => response.request_success && text@ == response.message@,
            Err(text) => !response.request_success && text@
                == "The server responded with an error: "@ + response.message@,
        },
{
    if response.request_success {
        Ok(response.message)
    } else {
        let mut text = String::from_str("The server responded with an error: ");
        text.append(response.message.as_str());
        Err(text)
    }
}

} // verus!
