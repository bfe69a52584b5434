//! The Connections page: the text of each column of a live connection.

use vstd::prelude::*;

use crate::text::{chars_of, owned, push_str, string_of};

verus! {

/// How often the Connections page reads the connection list, in
/// milliseconds.
pub const POLL_INTERVAL_MS: u64 = 2000;

/// What the core reports of a connection's endpoints.
#[derive(Debug, Clone)]
pub struct ConnMetadata {
    pub network: String,
    /// The connection type (serialized as `type`).
    pub conn_type: String,
    pub host: String,
    pub destination_port: String,
    pub process: String,
    pub source_ip: String,
    pub source_port: String,
}

/// One live connection.
#[derive(Debug, Clone)]
pub struct Connection {
    pub id: String,
    pub metadata: ConnMetadata,
    pub upload: u64,
    pub download: u64,
    pub start: String,
    /// The proxies the connection passes, outermost first.
    pub chains: Vec<String>,
    pub rule: String,
    pub rule_payload: String,
}

/// The text columns of a connection's row.
#[derive(Debug, Clone)]
pub struct ConnRow {
    pub host: String,
    pub network: String,
    pub process: String,
    pub rule: String,
    pub chain: String,
}

/// The host column: `host:port`, or `source-ip:port` when the host is
/// unknown.
pub open spec fn host_text(m: ConnMetadata) -> Seq<char> {
    if m.host@.len() == 0 {
        m.source_ip@ + seq![':'] + m.destination_port@
    } else {
        m.host@ + seq![':'] + m.destination_port@
    }
}

/// The rule column: the rule, with its payload in brackets when it has
/// one.
pub open spec fn rule_text(rule: Seq<char>, payload: Seq<char>) -> Seq<char> {
    if payload.len() == 0 {
        rule
    } else {
        rule + " ("@ + payload + ")"@
    }
}

/// The chain column: the first proxy of the chain, or nothing.
pub open spec fn chain_text(chains: Seq<String>) -> Seq<char> {
    if chains.len() == 0 {
        Seq::empty()
    } else {
        chains[0]@
    }
}

/// The text columns of a connection.
pub fn row_of(c: &Connection) -> (r: ConnRow)
    ensures
        r.host@ == host_text(c.metadata),
        r.network@ == c.metadata.network@ + seq!['/'] + c.metadata.conn_type@,
        r.process@ == c.metadata.process@,
        r.rule@ == rule_text(c.rule@, c.rule_payload@),
        r.chain@ == chain_text(c.chains@),
{
    let m = &c.metadata;
    let mut h = if m.host.as_str().is_empty() {
        chars_of(m.source_ip.as_str())
    } else {
        chars_of(m.host.as_str())
    };
    h.push(':');
    push_str(&mut h, m.destination_port.as_str());
    let host = string_of(h.as_slice());
    let chain = if c.chains.len() > 0 {
        owned(c.chains[0].as_str())
    } else {
        String::new()
    };
    let rule = if c.rule_payload.as_str().is_empty() {
        owned(c.rule.as_str())
    } else {
        let mut v = chars_of(c.rule.as_str());
        push_str(&mut v, " (");
        push_str(&mut v, c.rule_payload.as_str());
        push_str(&mut v, ")");
        string_of(v.as_slice())
    };
    let mut n = chars_of(m.network.as_str());
    n.push('/');
    push_str(&mut n, m.conn_type.as_str());
    ConnRow {
        host,
        network: string_of(n.as_slice()),
        process: owned(m.process.as_str()),
        rule,
        chain,
    }
}

} // verus!
