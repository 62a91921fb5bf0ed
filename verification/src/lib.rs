//! Ghostwire: a stateful, default-drop IPv4 packet filter.
//!
//! Outgoing traffic opens flows; incoming traffic passes if it belongs to
//! an open flow or to a rule, and is dropped otherwise. The packet path is
//! kept as plain values: frames are byte slices, the tables are held in
//! memory, and time is a number the caller passes in.
//!
//! * [`packet`] decodes frames; [`flow`], [`rule`], [`ratelimit`] and
//!   [`analytics`] are the tables, built on [`lru`] and [`ledger`].
//! * [`ingress`] and [`egress`] are the two packet hooks over a
//!   [`state::State`]; [`traffic`] says what holds over many frames.
//! * [`socket`] carries out the requests of the client on a
//!   [`state::OverallState`]; [`ebpf`] plans the loading of the hooks,
//!   [`map_management`] is the periodic maintenance and [`prometheus`] the
//!   export of the analytics to the metrics registry.
//! * [`yaml`] and [`client`] are the client's side: from a rule file to a
//!   request, and from the answer to a message for the user.

pub mod analytics;
pub mod client;
pub mod clippy;
pub mod ebpf;
pub mod egress;
pub mod flow;
pub mod ingress;
pub mod ledger;
pub mod lru;
pub mod map_management;
pub mod packet;
pub mod prometheus;
pub mod ratelimit;
pub mod rule;
pub mod socket;
pub mod state;
pub mod text;
pub mod traffic;
pub mod types;
pub mod verdict;
pub mod yaml;
