//! Proxy and group records of mihomo's `/proxies` API, and the controller
//! URLs the Proxies page calls.

use vstd::prelude::*;
use vstd::utf8::encode_utf8;

use crate::text::{chars_of, dec, push_decimal, push_str, str_eq, string_of};

verus! {

/// mihomo's external controller.
pub const BASE_URL: &'static str = "http://127.0.0.1:9090";

/// One delay measurement; a delay of 0 means timeout or unreachable.
#[derive(Debug, Clone)]
pub struct DelaySample {
    pub time: String,
    pub delay: u32,
}

/// A proxy or group entry: groups have `now` and `all`, leaf nodes have a
/// delay `history`.
#[derive(Debug, Clone)]
pub struct ProxyNode {
    pub name: String,
    /// The policy or protocol (serialized as `type`).
    pub kind: String,
    pub now: Option<String>,
    pub all: Vec<String>,
    pub history: Vec<DelaySample>,
    pub udp: bool,
}

/// Group kinds: the policies whose entries hold other proxies.
pub open spec fn is_group_kind(kind: Seq<char>) -> bool {
    ||| kind == "Selector"@
    ||| kind == "URLTest"@
    ||| kind == "Fallback"@
    ||| kind == "LoadBalance"@
    ||| kind == "Relay"@
    ||| kind == "Smart"@
}

impl ProxyNode {
    /// The most recent delay sample in ms, if any.
    pub fn last_delay(&self) -> (r: Option<u32>)
        ensures
            self.history@.len() == 0 ==> r is None,
            self.history@.len() > 0 ==> r == Some(self.history@.last().delay),
    {
        let n = self.history.len();
        if n == 0 {
            None
        } else {
            Some(self.history[n - 1].delay)
        }
    }

    /// Is this entry a group of proxies?
    pub fn is_group(&self) -> (r: bool)
        ensures
            r == is_group_kind(self.kind@),
    {
        let k = self.kind.as_str();
        str_eq(k, "Selector") || str_eq(k, "URLTest") || str_eq(k, "Fallback") || str_eq(
            k,
            "LoadBalance",
        ) || str_eq(k, "Relay") || str_eq(k, "Smart")
    }

    /// Does the user pick this group's node directly? Only `Selector`
    /// groups; the others choose automatically.
    pub fn is_user_selectable(&self) -> (r: bool)
        ensures
            r == (self.kind@ == "Selector"@),
    {
        str_eq(self.kind.as_str(), "Selector")
    }
}

/// Bytes that percent-encoding leaves as they are.
pub open spec fn is_unreserved(b: u8) -> bool {
    ||| 0x30 <= b <= 0x39
    ||| 0x41 <= b <= 0x5A
    ||| 0x61 <= b <= 0x7A
    ||| b == 0x2D
    ||| b == 0x2E
    ||| b == 0x5F
    ||| b == 0x7E
}

/// Upper-case hex digit.
pub open spec fn hex_upper(d: nat) -> char {
    if d < 10 {
        crate::text::digit_char(d)
    } else {
        ((d - 10) + 0x41) as char
    }
}

/// The encoding of one byte.
pub open spec fn encode_byte(b: u8) -> Seq<char> {
    if is_unreserved(b) {
        seq![b as char]
    } else {
        seq!['%', hex_upper((b / 16) as nat), hex_upper((b % 16) as nat)]
    }
}

/// Percent-encoding of a byte string.
pub open spec fn percent_encode(bytes: Seq<u8>) -> Seq<char>
    decreases bytes.len(),
{
    if bytes.len() == 0 {
        Seq::empty()
    } else {
        percent_encode(bytes.drop_last()) + encode_byte(bytes.last())
    }
}

/// `urlencoding::encode`: every byte of the UTF-8 text except ASCII
/// letters, digits and `-`, `.`, `_`, `~` becomes `%XX` (upper-case hex).
#[verifier::external_body]
fn url_encode(s: &str) -> (r: String)
    ensures
        r@ == percent_encode(encode_utf8(s@)),
{
    urlencoding::encode(s).into_owned()
}

/// URL that selects a node in a group (`PUT`).
pub open spec fn select_url(group: Seq<char>) -> Seq<char> {
    BASE_URL@ + "/proxies/"@ + percent_encode(encode_utf8(group))
}

/// URL that runs a delay test of `node` against `test_url` (`GET`).
pub open spec fn delay_url(node: Seq<char>, test_url: Seq<char>, timeout_ms: u32) -> Seq<char> {
    BASE_URL@ + "/proxies/"@ + percent_encode(encode_utf8(node)) + "/delay?url="@
        + percent_encode(encode_utf8(test_url)) + "&timeout="@ + dec(timeout_ms as nat)
}

/// URL of the whole proxy state (`GET`).
pub fn proxies_url() -> (r: String)
    ensures
        r@ == BASE_URL@ + "/proxies"@,
{
    crate::text::concat2(BASE_URL, "/proxies")
}

/// URL of the running config (`PUT` with `{"path": ...}` reloads it).
pub fn configs_url() -> (r: String)
    ensures
        r@ == BASE_URL@ + "/configs"@,
{
    crate::text::concat2(BASE_URL, "/configs")
}

/// URL that switches the selected node of `group`.
pub fn select_proxy_url(group: &str) -> (r: String)
    ensures
        r@ == select_url(group@),
{
    let enc = url_encode(group);
    crate::text::concat3(BASE_URL, "/proxies/", enc.as_str())
}

/// URL that tests the delay of `node`.
pub fn delay_test_url(node: &str, test_url: &str, timeout_ms: u32) -> (r: String)
    ensures
        r@ == delay_url(node@, test_url@, timeout_ms),
{
    let mut v = chars_of(BASE_URL);
    push_str(&mut v, "/proxies/");
    let n = url_encode(node);
    push_str(&mut v, n.as_str());
    push_str(&mut v, "/delay?url=");
    let u = url_encode(test_url);
    push_str(&mut v, u.as_str());
    push_str(&mut v, "&timeout=");
    push_decimal(&mut v, timeout_ms as u64);
    string_of(v.as_slice())
}

} // verus!
