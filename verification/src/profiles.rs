//! Subscription profiles: the persisted list and the active profile, the
//! edits the Profiles page makes to them, and the texts shown on a card.

use vstd::prelude::*;

use crate::subscription::{FetchResult, SubscriptionInfo};
use crate::calendar::{civil_from_days, days_to_ymd};
use crate::text::{
    chars_of, dec, dec_padded, find_char, first_index_of, has_prefix, lemma_first_index_of,
    matches_at, push_decimal, push_decimal_padded, push_str, slice_chars, str_eq, string_of,
    trim, trim_chars,
};

verus! {

/// Traffic counters stored with a profile.
#[derive(Debug, Clone, Copy, PartialEq, Eq, Structural)]
pub struct ProfileExtra {
    pub upload: u64,
    pub download: u64,
    pub total: u64,
    pub expire: u64,
}

/// One profile of the list.
#[derive(Debug, Clone)]
pub struct ProfileItem {
    pub uid: String,
    /// `"remote"` for subscriptions (serialized as `type`).
    pub profile_type: String,
    pub name: String,
    pub desc: Option<String>,
    pub url: Option<String>,
    pub updated: Option<u64>,
    pub extra: Option<ProfileExtra>,
}

/// `s` with `p` removed from its front as many times as it occurs there
/// (`str::trim_start_matches` with a string pattern).
pub open spec fn strip_all_prefix(s: Seq<char>, p: Seq<char>) -> Seq<char>
    decreases s.len(),
{
    if p.len() > 0 && has_prefix(s, p) {
        strip_all_prefix(s.subrange(p.len() as int, s.len() as int), p)
    } else {
        s
    }
}

/// The part of `s` before the first `c` (what `split(c).next()` yields).
pub open spec fn before_first(s: Seq<char>, c: char) -> Seq<char> {
    match first_index_of(s, c) {
        Some(i) => s.subrange(0, i),
        None => s,
    }
}

/// The host part of a URL: scheme prefixes removed, cut at the first `/`.
pub open spec fn url_host(url: Seq<char>) -> Seq<char> {
    before_first(strip_all_prefix(strip_all_prefix(url, "http://"@), "https://"@), '/')
}

/// The part of `s` after its last `c` (all of `s` when there is none).
pub open spec fn after_last(s: Seq<char>, c: char) -> Seq<char>
    decreases s.len(),
{
    if s.len() == 0 {
        s
    } else if s.last() == c {
        Seq::empty()
    } else {
        after_last(s.drop_last(), c).push(s.last())
    }
}

/// `s` without its last `c` and what follows it.
pub open spec fn before_last(s: Seq<char>, c: char) -> Seq<char> {
    s.subrange(0, s.len() - after_last(s, c).len() - 1)
}

/// Does `s` hold the character `c`?
pub open spec fn has_char(s: Seq<char>, c: char) -> bool {
    exists|i: int| 0 <= i < s.len() && s[i] == c
}

/// Default profile name for a subscription URL: the host's second-to-last
/// label (`"https://a.b.xin/sub?x"` gives `"b"`), the single label of a
/// host without dots, or `"Profile"` when there is no host.
pub open spec fn name_from_url(url: Seq<char>) -> Seq<char> {
    let host = url_host(url);
    if host.len() == 0 {
        "Profile"@
    } else {
        let h = if has_prefix(host, "www."@) {
            host.subrange(4, host.len() as int)
        } else {
            host
        };
        if has_char(h, '.') {
            after_last(before_last(h, '.'), '.')
        } else {
            h
        }
    }
}

fn strip_all_prefix_exec(v: &[char], p: &str) -> (r: Vec<char>)
    ensures
        r@ == strip_all_prefix(v@, p@),
{
    let pc = chars_of(p);
    let n = v.len();
    let mut i: usize = 0;
    assert(v@.subrange(0, n as int) == v@);
    loop
        invariant
            i <= n == v@.len(),
            pc@ == p@,
            strip_all_prefix(v@, p@) == strip_all_prefix(v@.subrange(i as int, n as int), p@),
        decreases n - i,
    {
        let ghost s = v@.subrange(i as int, n as int);
        if pc.len() > 0 && matches_at(v, i, pc.as_slice()) {
            assert(s.subrange(pc@.len() as int, s.len() as int) == v@.subrange(
                i + pc@.len(),
                n as int,
            ));
            i = i + pc.len();
        } else {
            return slice_chars(v, i, n);
        }
    }
}

fn before_first_exec(v: &[char], c: char) -> (r: Vec<char>)
    ensures
        r@ == before_first(v@, c),
{
    match find_char(v, c) {
        Some(i) => slice_chars(v, 0, i),
        None => slice_chars(v, 0, v.len()),
    }
}

fn url_host_exec(url: &str) -> (r: Vec<char>)
    ensures
        r@ == url_host(url@),
{
    let v = chars_of(url);
    let a = strip_all_prefix_exec(v.as_slice(), "http://");
    let b = strip_all_prefix_exec(a.as_slice(), "https://");
    assert(b@.subrange(0, b@.len() as int) == b@);
    before_first_exec(b.as_slice(), '/')
}

/// Length of `after_last(s, c)`; and the `c` before it when `s` holds one.
proof fn lemma_after_last(s: Seq<char>, c: char)
    ensures
        after_last(s, c).len() <= s.len(),
        after_last(s, c) == s.subrange(s.len() - after_last(s, c).len(), s.len() as int),
        forall|k: int|
            s.len() - after_last(s, c).len() <= k < s.len() ==> #[trigger] s[k] != c,
        has_char(s, c) ==> after_last(s, c).len() < s.len() && s[s.len() - after_last(s, c).len()
            - 1] == c,
        !has_char(s, c) ==> after_last(s, c) == s,
    decreases s.len(),
{
    if s.len() > 0 && s.last() != c {
        let t = s.drop_last();
        lemma_after_last(t, c);
        if has_char(s, c) {
            let w = choose|i: int| 0 <= i < s.len() && s[i] == c;
            assert(t[w] == c);
        }
        if !has_char(s, c) {
            assert forall|i: int| 0 <= i < t.len() implies t[i] != c by {
                assert(t[i] == s[i]);
            }
            assert(!has_char(t, c));
        }
        assert(after_last(s, c) == after_last(t, c).push(s.last()));
        assert forall|k: int| s.len() - after_last(s, c).len() <= k < s.len() implies #[trigger] s[k]
            != c by {
            if k < s.len() - 1 {
                assert(s[k] == t[k]);
            }
        }
    } else if s.len() > 0 {
        assert(has_char(s, c));
    } else {
        assert(s == Seq::<char>::empty());
    }
}

/// Start index of `after_last(v, c)` inside `v`.
fn after_last_start(v: &[char], c: char) -> (r: usize)
    ensures
        r as int == v@.len() - after_last(v@, c).len(),
{
    proof {
        lemma_after_last(v@, c);
    }
    let mut j: usize = v.len();
    while j > 0 && v[j - 1] != c
        invariant
            j <= v@.len(),
            forall|k: int| j <= k < v@.len() ==> #[trigger] v@[k] != c,
        decreases j,
    {
        j = j - 1;
    }
    proof {
        let a = after_last(v@, c);
        let start = v@.len() - a.len();
        if j > start {
            // v[j - 1] == c with j - 1 >= start: contradicts the tail of after_last
            assert(v@[j - 1] != c);
        }
        if j < start {
            assert(has_char(v@, c));
            assert(v@[start - 1] == c);
        }
    }
    j
}

/// Default profile name derived from a subscription URL.
pub fn extract_name_from_url(url: &str) -> (r: String)
    ensures
        r@ == name_from_url(url@),
{
    let host = url_host_exec(url);
    if host.len() == 0 {
        return crate::text::owned("Profile");
    }
    let www = chars_of("www.");
    proof {
        reveal_strlit("www.");
    }
    let h = if matches_at(host.as_slice(), 0, www.as_slice()) {
        assert(host@.subrange(0, host@.len() as int) == host@);
        slice_chars(host.as_slice(), 4, host.len())
    } else {
        assert(host@.subrange(0, host@.len() as int) == host@);
        host
    };
    proof {
        lemma_after_last(h@, '.');
    }
    let j = after_last_start(h.as_slice(), '.');
    if j == 0 {
        // no dot: a single label
        assert(!has_char(h@, '.'));
        return string_of(h.as_slice());
    }
    let before = slice_chars(h.as_slice(), 0, j - 1);
    let k = after_last_start(before.as_slice(), '.');
    proof {
        lemma_after_last(before@, '.');
    }
    string_of(slice_chars(before.as_slice(), k, before.len()).as_slice())
}

/// The host of a subscription URL, as shown on a profile card.
pub fn extract_domain(url: &str) -> (r: String)
    ensures
        r@ == url_host(url@),
{
    let h = url_host_exec(url);
    string_of(h.as_slice())
}

/// Relative age of an update time: `never`, `just now`, `<n>m ago`,
/// `<n>h ago` or `<n>d ago`.
pub open spec fn age_text(ts: Option<u64>, now: u64) -> Seq<char> {
    match ts {
        Some(t) => {
            let diff: nat = if now >= t {
                (now - t) as nat
            } else {
                0
            };
            if diff < 60 {
                "just now"@
            } else if diff < 3600 {
                dec(diff / 60) + "m ago"@
            } else if diff < 86400 {
                dec(diff / 3600) + "h ago"@
            } else {
                dec(diff / 86400) + "d ago"@
            }
        },
        None => "never"@,
    }
}

/// How long ago a profile was updated, relative to `now` (seconds since
/// the Unix epoch).
pub fn format_timestamp(ts: Option<u64>, now: u64) -> (r: String)
    ensures
        r@ == age_text(ts, now),
{
    match ts {
        Some(t) => {
            let diff = now.saturating_sub(t);
            if diff < 60 {
                crate::text::owned("just now")
            } else {
                let mut v: Vec<char> = Vec::new();
                if diff < 3600 {
                    push_decimal(&mut v, diff / 60);
                    push_str(&mut v, "m ago");
                } else if diff < 86400 {
                    push_decimal(&mut v, diff / 3600);
                    push_str(&mut v, "h ago");
                } else {
                    push_decimal(&mut v, diff / 86400);
                    push_str(&mut v, "d ago");
                }
                string_of(v.as_slice())
            }
        },
        None => crate::text::owned("never"),
    }
}

/// `yyyy-mm-dd` of day `days` counted from 1970-01-01.
pub open spec fn ymd_text(days: int) -> Seq<char> {
    let c = civil_from_days(days);
    dec_padded((c.0 as u32) as nat, 4) + "-"@ + dec_padded(c.1 as nat, 2) + "-"@ + dec_padded(
        c.2 as nat,
        2,
    )
}

/// Expiry of a subscription as shown on its card: nothing for `0`,
/// `expired` once `now` has reached it, else its date, with the days left
/// when there are 30 or fewer.
pub open spec fn expire_text(expire: u64, now: u64) -> Seq<char> {
    if expire == 0 {
        Seq::empty()
    } else if expire <= now {
        "expired"@
    } else {
        let left = ((expire - now) as nat) / 86400;
        let date = ymd_text((expire as nat / 86400) as int);
        if left <= 30 {
            date + " ("@ + dec(left) + "d left)"@
        } else {
            date
        }
    }
}

/// Expiry text of a subscription, relative to `now` (seconds since the
/// Unix epoch).
pub fn format_expire(expire_secs: u64, now: u64) -> (r: String)
    ensures
        r@ == expire_text(expire_secs, now),
{
    if expire_secs == 0 {
        return String::new();
    }
    if expire_secs <= now {
        return crate::text::owned("expired");
    }
    let days = (expire_secs - now) / 86400;
    let secs_per_day = 86400u64;
    let date_days = expire_secs / secs_per_day;
    let (year, month, day) = days_to_ymd(date_days);
    let mut v: Vec<char> = Vec::new();
    push_decimal_padded(&mut v, year as u64, 4);
    push_str(&mut v, "-");
    push_decimal_padded(&mut v, month as u64, 2);
    push_str(&mut v, "-");
    push_decimal_padded(&mut v, day as u64, 2);
    if days <= 30 {
        push_str(&mut v, " (");
        push_decimal(&mut v, days);
        push_str(&mut v, "d left)");
    }
    string_of(v.as_slice())
}

/// Uid of a newly imported profile: `R` and eight lower-case hex digits.
pub open spec fn hex8(n: u32) -> Seq<char> {
    Seq::new(8, |i: int| hex_digit(((n as nat) / pow16((7 - i) as nat)) % 16))
}

pub open spec fn pow16(k: nat) -> nat
    decreases k,
{
    if k == 0 {
        1
    } else {
        16 * pow16((k - 1) as nat)
    }
}

pub open spec fn hex_digit(d: nat) -> char {
    if d < 10 {
        crate::text::digit_char(d)
    } else if d == 10 {
        'a'
    } else if d == 11 {
        'b'
    } else if d == 12 {
        'c'
    } else if d == 13 {
        'd'
    } else if d == 14 {
        'e'
    } else {
        'f'
    }
}

fn hex_char(d: u32) -> (c: char)
    requires
        d < 16,
    ensures
        c == hex_digit(d as nat),
{
    match d {
        0 => '0',
        1 => '1',
        2 => '2',
        3 => '3',
        4 => '4',
        5 => '5',
        6 => '6',
        7 => '7',
        8 => '8',
        9 => '9',
        10 => 'a',
        11 => 'b',
        12 => 'c',
        13 => 'd',
        14 => 'e',
        _ => 'f',
    }
}

/// `format!("R{:08x}", seed)`: the uid given to an imported profile.
pub fn profile_uid(seed: u32) -> (r: String)
    ensures
        r@ == seq!['R'] + hex8(seed),
{
    let mut v: Vec<char> = Vec::new();
    v.push('R');
    let mut i: usize = 0;
    let mut div: u32 = 268435456;
    proof {
        reveal_with_fuel(pow16, 8);
    }
    while i < 8
        invariant
            i <= 8,
            div as nat == pow16((7 - i) as nat) || (i == 8),
            v@ == seq!['R'] + hex8(seed).take(i as int),
        decreases 8 - i,
    {
        proof {
            reveal_with_fuel(pow16, 8);
        }
        let d = (seed / div) % 16;
        v.push(hex_char(d));
        assert(hex8(seed).take(i + 1) == hex8(seed).take(i as int).push(hex8(seed)[i as int]));
        i = i + 1;
        if i < 8 {
            div = div / 16;
        }
    }
    assert(hex8(seed).take(8) == hex8(seed));
    string_of(v.as_slice())
}

/// Position of the first profile with this uid.
pub open spec fn uid_index(ps: Seq<ProfileItem>, uid: Seq<char>) -> Option<int> {
    if exists|i: int| 0 <= i < ps.len() && ps[i].uid@ == uid {
        Some(
            choose|i: int|
                0 <= i < ps.len() && ps[i].uid@ == uid && forall|k: int|
                    0 <= k < i ==> ps[k].uid@ != uid,
        )
    } else {
        None
    }
}

proof fn lemma_uid_index_first(ps: Seq<ProfileItem>, uid: Seq<char>, i: int)
    requires
        0 <= i < ps.len(),
        ps[i].uid@ == uid,
        forall|k: int| 0 <= k < i ==> ps[k].uid@ != uid,
    ensures
        uid_index(ps, uid) == Some(i),
{
    let j = uid_index(ps, uid)->0;
    if j < i {
    } else if j > i {
    }
}

/// Finds the first profile with `uid`.
fn find_uid(ps: &Vec<ProfileItem>, uid: &str) -> (r: Option<usize>)
    ensures
        match r {
            Some(i) => uid_index(ps@, uid@) == Some(i as int) && i < ps@.len(),
            None => uid_index(ps@, uid@) is None,
        },
{
    let mut i: usize = 0;
    while i < ps.len()
        invariant
            i <= ps@.len(),
            forall|k: int| 0 <= k < i ==> ps@[k].uid@ != uid@,
        decreases ps.len() - i,
    {
        if str_eq(ps[i].uid.as_str(), uid) {
            proof {
                lemma_uid_index_first(ps@, uid@, i as int);
            }
            return Some(i);
        }
        i = i + 1;
    }
    None
}

/// Is `s` blank (empty after trimming whitespace)?
fn is_blank(s: &str) -> (r: bool)
    ensures
        r == (trim(s@).len() == 0),
{
    let v = chars_of(s);
    let t = trim_chars(v.as_slice());
    t.len() == 0
}

/// `o` as an optional character sequence.
pub open spec fn opt_view(o: Option<String>) -> Option<Seq<char>> {
    match o {
        Some(s) => Some(s@),
        None => None,
    }
}

/// The profile list with the active profile, as persisted in
/// `profiles.json`.
#[derive(Debug)]
pub struct ProfilesState {
    pub profiles: Vec<ProfileItem>,
    pub current_uid: Option<String>,
}

impl ProfilesState {
    /// An empty list with no active profile.
    pub fn new() -> (s: Self)
        ensures
            s.profiles@.len() == 0,
            s.current_uid is None,
    {
        ProfilesState { profiles: Vec::new(), current_uid: None }
    }

    /// Adds a remote profile for `url` (ignored when the URL is blank). Its
    /// name is `desc` when given, else derived from the URL; it becomes the
    /// active profile when none is active. Returns whether it was added.
    pub fn import_profile(&mut self, uid: String, url: String, desc: Option<String>, now: u64) -> (added: bool)
        ensures
            added == (trim(url@).len() != 0),
            !added ==> final(self).profiles@ == old(self).profiles@ && final(self).current_uid
                == old(self).current_uid,
            added ==> {
                let p = final(self).profiles@.last();
                &&& final(self).profiles@.len() == old(self).profiles@.len() + 1
                &&& final(self).profiles@.drop_last() == old(self).profiles@
                &&& p.uid@ == uid@
                &&& p.profile_type@ == "remote"@
                &&& p.name@ == (match desc {
                    Some(d) => d@,
                    None => name_from_url(url@),
                })
                &&& opt_view(p.desc) == opt_view(desc)
                &&& opt_view(p.url) == Some(url@)
                &&& p.updated == Some(now)
                &&& p.extra is None
                &&& opt_view(final(self).current_uid) == (match old(self).current_uid {
                    Some(c) => Some(c@),
                    None => Some(uid@),
                })
            },
    {
        if is_blank(url.as_str()) {
            return false;
        }
        let name = match &desc {
            Some(d) => d.clone(),
            None => extract_name_from_url(url.as_str()),
        };
        let item = ProfileItem {
            uid: uid.clone(),
            profile_type: crate::text::owned("remote"),
            name,
            desc,
            url: Some(url),
            updated: Some(now),
            extra: None,
        };
        self.profiles.push(item);
        if self.current_uid.is_none() {
            self.current_uid = Some(uid);
        }
        true
    }

    /// Makes `uid` the active profile; returns false (and changes nothing)
    /// when it already is.
    pub fn select_profile(&mut self, uid: String) -> (changed: bool)
        ensures
            changed == !(opt_view(old(self).current_uid) == Some(uid@)),
            opt_view(final(self).current_uid) == Some(uid@),
            final(self).profiles@ == old(self).profiles@,
    {
        let same = match &self.current_uid {
            Some(c) => str_eq(c.as_str(), uid.as_str()),
            None => false,
        };
        if same {
            return false;
        }
        self.current_uid = Some(uid);
        true
    }

    /// Applies the edit dialog to the profile `uid`: a non-blank name and a
    /// non-blank URL replace the old ones, and the update time is `now`.
    pub fn apply_edit(&mut self, uid: &str, new_name: String, new_url: String, now: u64)
        ensures
            final(self).current_uid == old(self).current_uid,
            final(self).profiles@.len() == old(self).profiles@.len(),
            match uid_index(old(self).profiles@, uid@) {
                None => final(self).profiles@ == old(self).profiles@,
                Some(i) => {
                    let o = old(self).profiles@[i];
                    let p = final(self).profiles@[i];
                    &&& forall|k: int|
                        0 <= k < final(self).profiles@.len() && k != i ==> final(self).profiles@[k]
                            == old(self).profiles@[k]
                    &&& p.uid == o.uid && p.profile_type == o.profile_type && p.desc == o.desc
                    &&& p.extra == o.extra
                    &&& p.name@ == (if trim(new_name@).len() != 0 {
                        new_name@
                    } else {
                        o.name@
                    })
                    &&& opt_view(p.url) == (if trim(new_url@).len() != 0 {
                        Some(new_url@)
                    } else {
                        opt_view(o.url)
                    })
                    &&& p.updated == Some(now)
                },
            },
    {
        match find_uid(&self.profiles, uid) {
            None => {},
            Some(i) => {
                let ghost before = self.profiles@;
                let mut item = self.profiles.remove(i);
                if !is_blank(new_name.as_str()) {
                    item.name = new_name;
                }
                if !is_blank(new_url.as_str()) {
                    item.url = Some(new_url);
                }
                item.updated = Some(now);
                self.profiles.insert(i, item);
                assert forall|k: int|
                    0 <= k < self.profiles@.len() && k != i implies self.profiles@[k] == before[k] by {
                    if k < i {
                    } else {
                    }
                }
            },
        }
    }

    /// Records the outcome of the first download after an import:
    /// on success the provider's name replaces a URL-derived name (one the
    /// user did not give), its counters are stored, and the update time is
    /// `now`; on failure the name is marked ` (fetch failed)`.
    pub fn apply_import_fetch(&mut self, uid: &str, outcome: Option<&FetchResult>, now: u64)
        ensures
            final(self).current_uid == old(self).current_uid,
            final(self).profiles@.len() == old(self).profiles@.len(),
            match uid_index(old(self).profiles@, uid@) {
                None => final(self).profiles@ == old(self).profiles@,
                Some(i) => {
                    let o = old(self).profiles@[i];
                    let p = final(self).profiles@[i];
                    &&& forall|k: int|
                        0 <= k < final(self).profiles@.len() && k != i ==> final(self).profiles@[k]
                            == old(self).profiles@[k]
                    &&& p.uid == o.uid && p.profile_type == o.profile_type && p.desc == o.desc
                        && p.url == o.url
                    &&& match outcome {
                        Some(f) => {
                            &&& p.name@ == (match (f.name, o.desc) {
                                (Some(n), None) => n@,
                                _ => o.name@,
                            })
                            &&& p.extra == (match f.extra {
                                Some(x) => Some(extra_of(x)),
                                None => o.extra,
                            })
                            &&& p.updated == Some(now)
                        },
                        None => {
                            &&& p.name@ == o.name@ + " (fetch failed)"@
                            &&& p.extra == o.extra
                            &&& p.updated == o.updated
                        },
                    }
                },
            },
    {
        match find_uid(&self.profiles, uid) {
            None => {},
            Some(i) => {
                let ghost before = self.profiles@;
                let mut item = self.profiles.remove(i);
                match outcome {
                    Some(f) => {
                        if let Some(remote_name) = &f.name {
                            if item.desc.is_none() {
                                item.name = remote_name.clone();
                            }
                        }
                        if let Some(x) = f.extra {
                            item.extra = Some(to_extra(x));
                        }
                        item.updated = Some(now);
                    },
                    None => {
                        let mut v = chars_of(item.name.as_str());
                        push_str(&mut v, " (fetch failed)");
                        item.name = string_of(v.as_slice());
                    },
                }
                self.profiles.insert(i, item);
                assert forall|k: int|
                    0 <= k < self.profiles@.len() && k != i implies self.profiles@[k] == before[k] by {
                    if k < i {
                    } else {
                    }
                }
            },
        }
    }

    /// Records the outcome of a manual update: counters from a successful
    /// download are stored; the update time becomes `now` either way.
    pub fn apply_update(&mut self, uid: &str, outcome: Option<Option<SubscriptionInfo>>, now: u64)
        ensures
            final(self).current_uid == old(self).current_uid,
            final(self).profiles@.len() == old(self).profiles@.len(),
            match uid_index(old(self).profiles@, uid@) {
                None => final(self).profiles@ == old(self).profiles@,
                Some(i) => {
                    let o = old(self).profiles@[i];
                    let p = final(self).profiles@[i];
                    &&& forall|k: int|
                        0 <= k < final(self).profiles@.len() && k != i ==> final(self).profiles@[k]
                            == old(self).profiles@[k]
                    &&& p.uid == o.uid && p.profile_type == o.profile_type && p.desc == o.desc
                        && p.url == o.url && p.name == o.name
                    &&& p.extra == (match outcome {
                        Some(Some(x)) => Some(extra_of(x)),
                        _ => o.extra,
                    })
                    &&& p.updated == Some(now)
                },
            },
    {
        match find_uid(&self.profiles, uid) {
            None => {},
            Some(i) => {
                let ghost before = self.profiles@;
                let mut item = self.profiles.remove(i);
                if let Some(Some(x)) = outcome {
                    item.extra = Some(to_extra(x));
                }
                item.updated = Some(now);
                self.profiles.insert(i, item);
                assert forall|k: int|
                    0 <= k < self.profiles@.len() && k != i implies self.profiles@[k] == before[k] by {
                    if k < i {
                    } else {
                    }
                }
            },
        }
    }

    /// Removes every profile with `uid`. When it was the active one, the
    /// first remaining profile (if any) becomes active, and its uid is
    /// returned so that the core can switch to it.
    pub fn delete_profile(&mut self, uid: &str) -> (switch_to: Option<String>)
        ensures
            final(self).profiles@ == without_uid(old(self).profiles@, uid@),
            opt_view(old(self).current_uid) == Some(uid@) ==> {
                &&& opt_view(final(self).current_uid) == (if final(self).profiles@.len() > 0 {
                    Some(final(self).profiles@[0].uid@)
                } else {
                    None
                })
                &&& opt_view(switch_to) == opt_view(final(self).current_uid)
            },
            opt_view(old(self).current_uid) != Some(uid@) ==> final(self).current_uid == old(
                self,
            ).current_uid && switch_to is None,
    {
        let was_active = match &self.current_uid {
            Some(c) => str_eq(c.as_str(), uid),
            None => false,
        };
        let mut old_list: Vec<ProfileItem> = Vec::new();
        std::mem::swap(&mut old_list, &mut self.profiles);
        let ghost orig = old_list@;
        let mut kept: Vec<ProfileItem> = Vec::new();
        let n = old_list.len();
        let mut rest = old_list;
        let mut i: usize = 0;
        while i < n
            invariant
                n == orig.len(),
                i <= n,
                rest@ == orig.subrange(i as int, n as int),
                kept@ == orig.take(i as int).filter(uid_differs(uid@)),
            decreases n - i,
        {
            let item = rest.remove(0);
            proof {
                reveal(Seq::filter);
                assert(orig.take(i + 1).drop_last() == orig.take(i as int));
            }
            if !str_eq(item.uid.as_str(), uid) {
                kept.push(item);
            }
            assert(rest@ == orig.subrange(i + 1, n as int));
            i = i + 1;
        }
        assert(orig.take(n as int) == orig);
        self.profiles = kept;
        if was_active {
            self.current_uid = if self.profiles.len() > 0 {
                Some(self.profiles[0].uid.clone())
            } else {
                None
            };
            match &self.current_uid {
                Some(c) => Some(c.clone()),
                None => None,
            }
        } else {
            None
        }
    }
}

/// The stored form of a provider's counters.
pub open spec fn extra_of(x: SubscriptionInfo) -> ProfileExtra {
    ProfileExtra { upload: x.upload, download: x.download, total: x.total, expire: x.expire }
}

fn to_extra(x: SubscriptionInfo) -> (r: ProfileExtra)
    ensures
        r == extra_of(x),
{
    ProfileExtra { upload: x.upload, download: x.download, total: x.total, expire: x.expire }
}

/// The profiles whose uid is not `uid`, in order.
pub open spec fn without_uid(ps: Seq<ProfileItem>, uid: Seq<char>) -> Seq<ProfileItem> {
    ps.filter(uid_differs(uid))
}

/// Holds of a profile whose uid is not `uid`.
pub open spec fn uid_differs(uid: Seq<char>) -> spec_fn(ProfileItem) -> bool {
    |p: ProfileItem| p.uid@ != uid
}

/// Deleting a profile leaves no profile with its uid.
pub proof fn lemma_delete_removes(old_list: Seq<ProfileItem>, uid: Seq<char>)
    ensures
        forall|k: int|
            0 <= k < without_uid(old_list, uid).len() ==> #[trigger] without_uid(old_list, uid)[k].uid@
                != uid,
{
    assert forall|k: int| 0 <= k < without_uid(old_list, uid).len() implies #[trigger] without_uid(
        old_list,
        uid,
    )[k].uid@ != uid by {
        old_list.lemma_filter_pred(uid_differs(uid), k);
    }
}

/// Every profile whose uid differs from `uid` survives a delete of `uid`.
proof fn lemma_without_absent(ps: Seq<ProfileItem>, uid: Seq<char>)
    requires
        forall|k: int| 0 <= k < ps.len() ==> ps[k].uid@ != uid,
    ensures
        without_uid(ps, uid) == ps,
    decreases ps.len(),
{
    if ps.len() > 0 {
        let init = ps.drop_last();
        lemma_without_absent(init, uid);
        init.lemma_filter_push(ps.last(), uid_differs(uid));
        assert(init.push(ps.last()) == ps);
    } else {
        assert(ps.filter(uid_differs(uid)) =~= ps) by {
            reveal(Seq::filter);
        }
    }
}

/// Importing a profile under a new uid and then deleting that uid gives
/// back the list as it was.
pub proof fn lemma_import_then_delete(old_list: Seq<ProfileItem>, added: ProfileItem)
    requires
        forall|k: int| 0 <= k < old_list.len() ==> old_list[k].uid@ != added.uid@,
    ensures
        without_uid(old_list.push(added), added.uid@) == old_list,
{
    lemma_without_absent(old_list, added.uid@);
    old_list.lemma_filter_push(added, uid_differs(added.uid@));
}

} // verus!
