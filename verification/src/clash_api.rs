//! Records of mihomo's REST API as the older API client reads them, and
//! the client's endpoint and authorization texts.

use vstd::prelude::*;

use crate::text::{chars_of, push_str, string_of};

verus! {

/// Client of a clash-compatible controller at `base_url`.
pub struct ClashApi {
    base_url: String,
    secret: Option<String>,
}

/// A group from `/proxies`.
#[derive(Debug)]
pub struct ProxyGroup {
    pub name: String,
    /// (serialized as `type`)
    pub kind: String,
    pub now: Option<String>,
    pub all: Vec<String>,
}

/// A proxy from `/proxies`.
#[derive(Debug)]
pub struct ProxyItem {
    pub name: String,
    /// (serialized as `type`)
    pub kind: String,
    pub history: Vec<ProxyHistory>,
}

/// One delay sample of a proxy.
#[derive(Debug, Clone, Copy)]
pub struct ProxyHistory {
    pub delay: u32,
}

/// Where a connection goes.
#[derive(Debug)]
pub struct ConnectionMetadata {
    pub host: String,
    pub network: String,
    /// (serialized as `type`)
    pub kind: String,
    /// (serialized as `destinationPort`)
    pub destination_port: String,
}

/// Traffic totals pushed by `/traffic`.
#[derive(Debug, Clone, Copy)]
pub struct TrafficData {
    pub up: u64,
    pub down: u64,
}

impl ClashApi {
    pub closed spec fn base(&self) -> Seq<char> {
        self.base_url@
    }

    pub closed spec fn secret_view(&self) -> Option<Seq<char>> {
        match self.secret {
            Some(s) => Some(s@),
            None => None,
        }
    }

    /// A client of the controller at `base_url`, authenticated by `secret`
    /// when one is given.
    pub fn new(base_url: String, secret: Option<String>) -> (r: Self)
        ensures
            r.base() == base_url@,
            r.secret_view() == (match secret {
                Some(s) => Some(s@),
                None => None,
            }),
    {
        ClashApi { base_url, secret }
    }

    /// Full URL of an API path such as `/proxies`.
    pub fn endpoint(&self, path: &str) -> (r: String)
        ensures
            r@ == self.base() + path@,
    {
        let mut v = chars_of(self.base_url.as_str());
        push_str(&mut v, path);
        string_of(v.as_slice())
    }

    /// The `Authorization` header value sent with every request:
    /// `Bearer <secret>`, when a secret is set.
    pub fn authorization(&self) -> (r: Option<String>)
        ensures
            match self.secret_view() {
                Some(s) => r matches Some(h) && h@ == "Bearer "@ + s,
                None => r is None,
            },
    {
        match &self.secret {
            Some(s) => {
                let mut v = chars_of("Bearer ");
                push_str(&mut v, s.as_str());
                Some(string_of(v.as_slice()))
            },
            None => None,
        }
    }
}

} // verus!
