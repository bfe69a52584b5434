//! The settings that a profile is completed with before it becomes the
//! core's `runtime.yaml`: each top-level key that the profile lacks gets
//! its default, and nothing the profile sets is touched.

use vstd::prelude::*;

use crate::paths::opt_view;
use crate::text::{chars_of, push_str, slice_chars, str_eq, string_of, views};

verus! {

/// The top-level settings that `runtime.yaml` always has.
#[derive(Debug, Clone, Copy, PartialEq, Eq, Structural)]
pub enum RuntimeDefault {
    MixedPort,
    ExternalController,
    Mode,
    LogLevel,
    AllowLan,
    Tun,
}

/// Every default, in the order in which they are added.
pub open spec fn all_defaults() -> Seq<RuntimeDefault> {
    seq![
        RuntimeDefault::MixedPort,
        RuntimeDefault::ExternalController,
        RuntimeDefault::Mode,
        RuntimeDefault::LogLevel,
        RuntimeDefault::AllowLan,
        RuntimeDefault::Tun,
    ]
}

/// The top-level key of a default.
pub open spec fn key_of(d: RuntimeDefault) -> Seq<char> {
    match d {
        RuntimeDefault::MixedPort => "mixed-port"@,
        RuntimeDefault::ExternalController => "external-controller"@,
        RuntimeDefault::Mode => "mode"@,
        RuntimeDefault::LogLevel => "log-level"@,
        RuntimeDefault::AllowLan => "allow-lan"@,
        RuntimeDefault::Tun => "tun"@,
    }
}

/// The defaults among `ds` whose key is not among `keys`, in order.
pub open spec fn missing_from(ds: Seq<RuntimeDefault>, keys: Seq<Seq<char>>) -> Seq<RuntimeDefault>
    decreases ds.len(),
{
    if ds.len() == 0 {
        Seq::empty()
    } else {
        let rest = missing_from(ds.drop_last(), keys);
        if keys.contains(key_of(ds.last())) {
            rest
        } else {
            rest.push(ds.last())
        }
    }
}

/// Every default, in order.
pub fn runtime_defaults() -> (r: Vec<RuntimeDefault>)
    ensures
        r@ == all_defaults(),
{
    let r = vec![
        RuntimeDefault::MixedPort,
        RuntimeDefault::ExternalController,
        RuntimeDefault::Mode,
        RuntimeDefault::LogLevel,
        RuntimeDefault::AllowLan,
        RuntimeDefault::Tun,
    ];
    assert(r@ =~= all_defaults());
    r
}

/// The top-level key of a default.
pub fn default_key(d: RuntimeDefault) -> (r: &'static str)
    ensures
        r@ == key_of(d),
{
    match d {
        RuntimeDefault::MixedPort => "mixed-port",
        RuntimeDefault::ExternalController => "external-controller",
        RuntimeDefault::Mode => "mode",
        RuntimeDefault::LogLevel => "log-level",
        RuntimeDefault::AllowLan => "allow-lan",
        RuntimeDefault::Tun => "tun",
    }
}

/// The entry that a default adds, as one member of a YAML flow mapping:
/// its key and its value. The TUN block is off at start and has the shape
/// it takes once switched on (stack, DNS hijack, routing).
pub open spec fn entry_text(d: RuntimeDefault) -> Seq<char> {
    match d {
        RuntimeDefault::MixedPort => "\"mixed-port\": 7890"@,
        RuntimeDefault::ExternalController => "\"external-controller\": \"127.0.0.1:9090\""@,
        RuntimeDefault::Mode => "\"mode\": \"rule\""@,
        RuntimeDefault::LogLevel => "\"log-level\": \"info\""@,
        RuntimeDefault::AllowLan => "\"allow-lan\": false"@,
        RuntimeDefault::Tun => "\"tun\": {\"enable\": false, \"stack\": \"gvisor\", \"dns-hijack\": [\"any:53\"], \"auto-route\": true, \"auto-detect-interface\": true}"@,
    }
}

/// The entry that a default adds.
pub fn default_entry(d: RuntimeDefault) -> (r: &'static str)
    ensures
        r@ == entry_text(d),
{
    match d {
        RuntimeDefault::MixedPort => "\"mixed-port\": 7890",
        RuntimeDefault::ExternalController => "\"external-controller\": \"127.0.0.1:9090\"",
        RuntimeDefault::Mode => "\"mode\": \"rule\"",
        RuntimeDefault::LogLevel => "\"log-level\": \"info\"",
        RuntimeDefault::AllowLan => "\"allow-lan\": false",
        RuntimeDefault::Tun => "\"tun\": {\"enable\": false, \"stack\": \"gvisor\", \"dns-hijack\": [\"any:53\"], \"auto-route\": true, \"auto-detect-interface\": true}",
    }
}

/// The entries of `ds`, in order, separated by `", "`.
pub open spec fn joined_entries(ds: Seq<RuntimeDefault>) -> Seq<char>
    decreases ds.len(),
{
    if ds.len() == 0 {
        Seq::empty()
    } else if ds.len() == 1 {
        entry_text(ds[0])
    } else {
        joined_entries(ds.drop_last()) + seq![',', ' '] + entry_text(ds.last())
    }
}

/// The flow mapping that holds the entries of `ds`: `{}` when there are none.
pub open spec fn defaults_flow(ds: Seq<RuntimeDefault>) -> Seq<char> {
    seq!['{'] + joined_entries(ds) + seq!['}']
}

/// Writes the flow mapping of the entries of `ds`.
pub fn defaults_flow_text(ds: &Vec<RuntimeDefault>) -> (r: String)
    ensures
        r@ == defaults_flow(ds@),
{
    let mut out: Vec<char> = Vec::new();
    out.push('{');
    let mut i: usize = 0;
    while i < ds.len()
        invariant
            i <= ds@.len(),
            out@ == seq!['{'] + joined_entries(ds@.take(i as int)),
        decreases ds.len() - i,
    {
        assert(ds@.take(i + 1).drop_last() =~= ds@.take(i as int));
        assert(ds@.take(i + 1).last() == ds@[i as int]);
        if i > 0 {
            out.push(',');
            out.push(' ');
        }
        push_str(&mut out, default_entry(ds[i]));
        proof {
            if i == 0 {
                assert(ds@.take(1)[0] == ds@[0]);
                assert(joined_entries(ds@.take(0)) =~= Seq::<char>::empty());
            }
        }
        assert(out@ =~= seq!['{'] + joined_entries(ds@.take(i + 1)));
        i = i + 1;
    }
    out.push('}');
    assert(ds@.take(ds@.len() as int) =~= ds@);
    assert(out@ =~= defaults_flow(ds@));
    string_of(out.as_slice())
}

fn contains_key(keys: &Vec<String>, key: &str) -> (r: bool)
    ensures
        r == views(keys@).contains(key@),
{
    let mut i: usize = 0;
    while i < keys.len()
        invariant
            i <= keys@.len(),
            forall|k: int| 0 <= k < i ==> keys@[k]@ != key@,
        decreases keys.len() - i,
    {
        if str_eq(keys[i].as_str(), key) {
            assert(views(keys@)[i as int] == key@);
            return true;
        }
        i = i + 1;
    }
    assert forall|k: int| 0 <= k < views(keys@).len() implies views(keys@)[k] != key@ by {
        assert(views(keys@)[k] == keys@[k]@);
    }
    false
}

/// The defaults that a profile with top-level keys `keys` lacks, in the
/// order in which they are added.
pub fn missing_runtime_defaults(keys: &Vec<String>) -> (r: Vec<RuntimeDefault>)
    ensures
        r@ == missing_from(all_defaults(), views(keys@)),
{
    let all = runtime_defaults();
    let mut out: Vec<RuntimeDefault> = Vec::new();
    let mut i: usize = 0;
    while i < all.len()
        invariant
            i <= all@.len(),
            all@ == all_defaults(),
            out@ == missing_from(all_defaults().take(i as int), views(keys@)),
        decreases all.len() - i,
    {
        let d = all[i];
        assert(all_defaults().take(i + 1).drop_last() == all_defaults().take(i as int));
        assert(all_defaults().take(i + 1).last() == d);
        if !contains_key(keys, default_key(d)) {
            out.push(d);
        }
        i = i + 1;
    }
    assert(all_defaults().take(6) == all_defaults());
    out
}

/// The keys of a list of defaults.
pub open spec fn keys_of(ds: Seq<RuntimeDefault>) -> Seq<Seq<char>> {
    ds.map_values(|d: RuntimeDefault| key_of(d))
}

/// A default is added exactly when the profile lacks its key: settings
/// that the profile has are never overwritten, and none that it lacks is
/// skipped.
pub proof fn lemma_missing_exactly_absent(ds: Seq<RuntimeDefault>, keys: Seq<Seq<char>>)
    ensures
        forall|d: RuntimeDefault| #[trigger] missing_from(ds, keys).contains(d) <==> (ds.contains(d)
            && !keys.contains(key_of(d))),
    decreases ds.len(),
{
    if ds.len() > 0 {
        lemma_missing_exactly_absent(ds.drop_last(), keys);
        assert forall|d: RuntimeDefault| #[trigger] missing_from(ds, keys).contains(d) <==> (
        ds.contains(d) && !keys.contains(key_of(d))) by {
            let rest = missing_from(ds.drop_last(), keys);
            assert(rest.contains(d) <==> (ds.drop_last().contains(d) && !keys.contains(key_of(d))));
            if ds.contains(d) && d != ds.last() {
                let k = choose|k: int| 0 <= k < ds.len() && ds[k] == d;
                assert(ds.drop_last()[k] == d);
            }
            if ds.drop_last().contains(d) {
                let k = choose|k: int| 0 <= k < ds.drop_last().len() && ds.drop_last()[k] == d;
                assert(ds[k] == d);
            }
            if !keys.contains(key_of(ds.last())) {
                assert(rest.push(ds.last())[rest.len() as int] == ds.last());
                if rest.push(ds.last()).contains(d) && d != ds.last() {
                    let k = choose|k: int| 0 <= k < rest.push(ds.last()).len() && rest.push(ds.last())[k] == d;
                    assert(rest[k] == d);
                }
                if rest.contains(d) {
                    let k = choose|k: int| 0 <= k < rest.len() && rest[k] == d;
                    assert(rest.push(ds.last())[k] == d);
                }
            }
            assert(ds[ds.len() - 1] == ds.last());
        }
    }
}

/// Completing a profile twice adds nothing the second time.
pub proof fn lemma_complete_idempotent(keys: Seq<Seq<char>>)
    ensures
        missing_from(all_defaults(), keys + keys_of(missing_from(all_defaults(), keys))) =~= Seq::<
            RuntimeDefault,
        >::empty(),
{
    let added = missing_from(all_defaults(), keys);
    let keys2 = keys + keys_of(added);
    lemma_missing_exactly_absent(all_defaults(), keys);
    lemma_missing_exactly_absent(all_defaults(), keys2);
    assert forall|d: RuntimeDefault| !(#[trigger] missing_from(all_defaults(), keys2).contains(d)) by {
        if all_defaults().contains(d) && !keys.contains(key_of(d)) {
            assert(added.contains(d));
            let k = choose|k: int| 0 <= k < added.len() && added[k] == d;
            assert(keys2[keys.len() + k] == key_of(d));
        }
        if keys.contains(key_of(d)) {
            let k = choose|k: int| 0 <= k < keys.len() && keys[k] == key_of(d);
            assert(keys2[k] == key_of(d));
        }
    }
    let m = missing_from(all_defaults(), keys2);
    if m.len() > 0 {
        assert(m.contains(m[0]));
    }
}

/// The top level of a YAML document, as read for completing it: `None`
/// when the text does not parse; `Some(None)` when the document is not a
/// mapping; otherwise each key in order, with its string when it is one and
/// whether its value is itself a mapping.
pub type TopKeys = Option<Option<Vec<(Option<String>, bool)>>>;

/// A key of a top-level mapping, by its view.
pub open spec fn key_view(k: (Option<String>, bool)) -> (Option<Seq<char>>, bool) {
    (
        match k.0 {
            Some(s) => Some(s@),
            None => None,
        },
        k.1,
    )
}

/// The view of what `read_yaml_top_keys` returns.
pub open spec fn top_keys_view(t: TopKeys) -> Option<Option<Seq<(Option<Seq<char>>, bool)>>> {
    match t {
        None => None,
        Some(None) => Some(None),
        Some(Some(ks)) => Some(Some(ks@.map_values(|k: (Option<String>, bool)| key_view(k)))),
    }
}

/// The top level of the YAML document in `text`, as `serde_yaml` reads it
/// (see `TopKeys`).
pub uninterp spec fn yaml_top_keys(text: Seq<char>) -> Option<Option<Seq<(Option<Seq<char>>, bool)>>>;

/// The text that `serde_yaml` writes for the document in `text` after the
/// entries of the mapping in `extra` are appended to its top-level mapping
/// (`None` when either text does not parse or writing fails).
pub uninterp spec fn yaml_merged(text: Seq<char>, extra: Seq<char>) -> Option<Seq<char>>;

/// The text that `serde_yaml` writes for the document in `text` after, in
/// the mapping under the top-level key `table`, `key` is set to `value`
/// (`None` when the text does not parse or writing fails).
pub uninterp spec fn yaml_with_nested_flag(text: Seq<char>, table: Seq<char>, key: Seq<char>, value: bool) -> Option<Seq<char>>;

/// Parses `text` with `serde_yaml::from_str` into a `serde_yaml::Value` and
/// reports its top level: each key of a top-level mapping, with the string
/// it holds when it is a plain string, and whether its value is a mapping.
/// The contract claims only that this is `yaml_top_keys` of the text.
#[verifier::external_body]
fn read_yaml_top_keys(text: &str) -> (r: TopKeys)
    ensures
        top_keys_view(r) == yaml_top_keys(text@),
{
    let doc: serde_yaml::Value = serde_yaml::from_str(text).ok()?;
    match doc {
        serde_yaml::Value::Mapping(m) => Some(Some(m.iter().map(|(k, v)| (match k {
            serde_yaml::Value::String(s) => Some(s.clone()),
            _ => None,
        }, matches!(v, serde_yaml::Value::Mapping(_)))).collect())),
        _ => Some(None),
    }
}

/// Parses `text` into a `serde_yaml::Value` and `extra` into a
/// `serde_yaml::Mapping` with `serde_yaml::from_str`, extends the first,
/// when it is a mapping, with the second (`Mapping::extend`), and writes it
/// with `serde_yaml::to_string`. The contract claims only that the result
/// is `yaml_merged` of the two texts.
#[verifier::external_body]
fn write_yaml_merged(text: &str, extra: &str) -> (r: Option<String>)
    ensures
        opt_view(r) == yaml_merged(text@, extra@),
{
    let mut doc: serde_yaml::Value = serde_yaml::from_str(text).ok()?;
    let more: serde_yaml::Mapping = serde_yaml::from_str(extra).ok()?;
    if let serde_yaml::Value::Mapping(m) = &mut doc {
        m.extend(more);
    }
    serde_yaml::to_string(&doc).ok()
}

/// Parses `text` with `serde_yaml::from_str`; when it is a mapping whose
/// value under `table` is a mapping, inserts `key: value` there
/// (`Mapping::insert`); writes the document with `serde_yaml::to_string`.
/// The contract claims only that the result is `yaml_with_nested_flag` of
/// the arguments.
#[verifier::external_body]
fn write_yaml_nested_flag(text: &str, table: &str, key: &str, value: bool) -> (r: Option<String>)
    ensures
        opt_view(r) == yaml_with_nested_flag(text@, table@, key@, value),
{
    let mut doc: serde_yaml::Value = serde_yaml::from_str(text).ok()?;
    if let serde_yaml::Value::Mapping(m) = &mut doc {
        if let Some(serde_yaml::Value::Mapping(t)) = m.get_mut(table) {
            t.insert(key.into(), value.into());
        }
    }
    serde_yaml::to_string(&doc).ok()
}

/// The string keys among the top-level keys `ks`, in order.
pub open spec fn string_keys(ks: Seq<(Option<Seq<char>>, bool)>) -> Seq<Seq<char>>
    decreases ks.len(),
{
    if ks.len() == 0 {
        Seq::empty()
    } else {
        let rest = string_keys(ks.drop_last());
        match ks.last().0 {
            Some(k) => rest.push(k),
            None => rest,
        }
    }
}

/// The defaults that completing a document with top level `top` adds: all
/// of them when the text does not parse (it counts as an empty mapping),
/// none when the document is not a mapping, otherwise those whose key the
/// mapping lacks.
pub open spec fn defaults_to_add(top: Option<Option<Seq<(Option<Seq<char>>, bool)>>>) -> Seq<RuntimeDefault> {
    match top {
        None => all_defaults(),
        Some(None) => Seq::empty(),
        Some(Some(ks)) => missing_from(all_defaults(), string_keys(ks)),
    }
}

/// The document that is completed: the profile's text, or an empty mapping
/// when that text does not parse.
pub open spec fn completed_source(profile: Seq<char>, top: Option<Option<Seq<(Option<Seq<char>>, bool)>>>) -> Seq<char> {
    match top {
        None => seq!['{', '}'],
        _ => profile,
    }
}

/// The text of `runtime.yaml` made from a profile's text.
pub open spec fn runtime_text(profile: Seq<char>) -> Option<Seq<char>> {
    let top = yaml_top_keys(profile);
    yaml_merged(completed_source(profile, top), defaults_flow(defaults_to_add(top)))
}

fn string_keys_of(ks: &Vec<(Option<String>, bool)>) -> (r: Vec<String>)
    ensures
        views(r@) == string_keys(ks@.map_values(|k: (Option<String>, bool)| key_view(k))),
{
    let ghost kv = ks@.map_values(|k: (Option<String>, bool)| key_view(k));
    let mut out: Vec<String> = Vec::new();
    let mut i: usize = 0;
    while i < ks.len()
        invariant
            i <= ks@.len(),
            kv == ks@.map_values(|k: (Option<String>, bool)| key_view(k)),
            views(out@) == string_keys(kv.take(i as int)),
        decreases ks.len() - i,
    {
        assert(kv.take(i + 1).drop_last() =~= kv.take(i as int));
        assert(kv.take(i + 1).last() == key_view(ks@[i as int]));
        match &ks[i].0 {
            Some(s) => {
                out.push(s.clone());
                assert(views(out@) =~= string_keys(kv.take(i as int)).push(s@));
            },
            None => {},
        }
        i = i + 1;
    }
    assert(kv.take(ks@.len() as int) =~= kv);
    out
}

/// Completes a profile's text into the text of `runtime.yaml`: each default
/// whose key the profile's top-level mapping lacks is appended, in order,
/// and nothing the profile sets is touched. Text that does not parse counts
/// as an empty mapping; a document that is not a mapping is written back
/// as it is. `None` when writing fails.
pub fn runtime_yaml_text(profile: &str) -> (r: Option<String>)
    ensures
        opt_view(r) == runtime_text(profile@),
{
    let top = read_yaml_top_keys(profile);
    let ghost tv = top_keys_view(top);
    match top {
        None => {
            let all = runtime_defaults();
            let frag = defaults_flow_text(&all);
            let empty: Vec<RuntimeDefault> = Vec::new();
            let source = defaults_flow_text(&empty);
            assert(joined_entries(empty@) =~= Seq::<char>::empty());
            assert(source@ =~= seq!['{', '}']);
            write_yaml_merged(source.as_str(), frag.as_str())
        },
        Some(None) => {
            let empty: Vec<RuntimeDefault> = Vec::new();
            let frag = defaults_flow_text(&empty);
            assert(empty@ =~= Seq::<RuntimeDefault>::empty());
            write_yaml_merged(profile, frag.as_str())
        },
        Some(Some(ks)) => {
            let keys = string_keys_of(&ks);
            let missing = missing_runtime_defaults(&keys);
            let frag = defaults_flow_text(&missing);
            write_yaml_merged(profile, frag.as_str())
        },
    }
}

/// Whether the top-level keys `ks` hold `name` with a mapping as its value.
pub open spec fn has_table(ks: Seq<(Option<Seq<char>>, bool)>, name: Seq<char>) -> bool {
    exists|i: int| 0 <= i < ks.len() && #[trigger] ks[i] == (Some(name), true)
}

/// The text of `runtime.yaml` with the TUN switch set to `enable`: only
/// when the document is a mapping whose `tun` value is a mapping.
pub open spec fn tun_text(runtime: Seq<char>, enable: bool) -> Option<Seq<char>> {
    match yaml_top_keys(runtime) {
        Some(Some(ks)) => if has_table(ks, "tun"@) {
            yaml_with_nested_flag(runtime, "tun"@, "enable"@, enable)
        } else {
            None
        },
        _ => None,
    }
}

/// Sets `enable` in the `tun` block of a `runtime.yaml` text, so that the
/// switch outlasts a restart of the core. `None` when the document is not a
/// mapping with a `tun` mapping (the file is then left as it is), or when
/// writing fails.
pub fn tun_enable_text(runtime: &str, enable: bool) -> (r: Option<String>)
    ensures
        opt_view(r) == tun_text(runtime@, enable),
{
    let top = read_yaml_top_keys(runtime);
    match top {
        Some(Some(ks)) => {
            let tun = "tun";
            let mut found = false;
            let mut i: usize = 0;
            while i < ks.len()
                invariant
                    i <= ks@.len(),
                    tun@ == "tun"@,
                    found <==> exists|j: int| 0 <= j < i && key_view(#[trigger] ks@[j]) == (Some(tun@), true),
                decreases ks.len() - i,
            {
                let hit = match &ks[i].0 {
                    Some(s) => ks[i].1 && str_eq(s.as_str(), tun),
                    None => false,
                };
                assert(hit <==> key_view(ks@[i as int]) == (Some(tun@), true));
                found = found || hit;
                i = i + 1;
            }
            let ghost kv = ks@.map_values(|k: (Option<String>, bool)| key_view(k));
            assert(found <==> has_table(kv, "tun"@)) by {
                if found {
                    let j = choose|j: int| 0 <= j < ks@.len() && key_view(#[trigger] ks@[j]) == (Some(tun@), true);
                    assert(kv[j] == (Some("tun"@), true));
                }
                if has_table(kv, "tun"@) {
                    let j = choose|j: int| 0 <= j < kv.len() && #[trigger] kv[j] == (Some("tun"@), true);
                    assert(key_view(ks@[j]) == kv[j]);
                }
            }
            if found {
                write_yaml_nested_flag(runtime, tun, "enable", enable)
            } else {
                None
            }
        },
        _ => None,
    }
}

/// The top-level mapping with keys `ks` has the string key `k`, whatever
/// its value.
pub open spec fn has_string_key(ks: Seq<(Option<Seq<char>>, bool)>, k: Seq<char>) -> bool {
    exists|i: int| 0 <= i < ks.len() && #[trigger] ks[i] == (Some(k), ks[i].1)
}

/// Holds of a default whose key the mapping with keys `ks` lacks.
pub open spec fn lacks_key(ks: Seq<(Option<Seq<char>>, bool)>) -> spec_fn(RuntimeDefault) -> bool {
    |d: RuntimeDefault| !has_string_key(ks, key_of(d))
}

proof fn lemma_string_keys_has(ks: Seq<(Option<Seq<char>>, bool)>, k: Seq<char>)
    ensures
        string_keys(ks).contains(k) <==> has_string_key(ks, k),
    decreases ks.len(),
{
    if ks.len() > 0 {
        let init = ks.drop_last();
        lemma_string_keys_has(init, k);
        let rest = string_keys(init);
        if has_string_key(init, k) {
            let i = choose|i: int| 0 <= i < init.len() && #[trigger] init[i] == (Some(k), init[i].1);
            assert(ks[i] == init[i]);
        }
        if has_string_key(ks, k) {
            let i = choose|i: int| 0 <= i < ks.len() && #[trigger] ks[i] == (Some(k), ks[i].1);
            if i < init.len() {
                assert(init[i] == ks[i]);
            }
        }
        match ks.last().0 {
            Some(x) => {
                assert(rest.push(x)[rest.len() as int] == x);
                assert(ks[ks.len() - 1] == ks.last());
                if rest.push(x).contains(k) && x != k {
                    let j = choose|j: int| 0 <= j < rest.push(x).len() && rest.push(x)[j] == k;
                    assert(rest[j] == k);
                }
                if rest.contains(k) {
                    let j = choose|j: int| 0 <= j < rest.len() && rest[j] == k;
                    assert(rest.push(x)[j] == k);
                }
            },
            None => {
                assert(ks[ks.len() - 1] == ks.last());
            },
        }
    }
}

proof fn lemma_missing_is_filter(ds: Seq<RuntimeDefault>, ks: Seq<(Option<Seq<char>>, bool)>)
    ensures
        missing_from(ds, string_keys(ks)) == ds.filter(lacks_key(ks)),
    decreases ds.len(),
{
    reveal(Seq::filter);
    if ds.len() > 0 {
        lemma_missing_is_filter(ds.drop_last(), ks);
        lemma_string_keys_has(ks, key_of(ds.last()));
    }
}

/// What activation writes, stated over the profile's top level: a profile
/// that does not parse is an empty mapping completed with every default; a
/// document that is not a mapping gets nothing; a mapping gets, in order,
/// exactly the defaults whose key is none of its string keys, whatever
/// the values under those keys.
pub proof fn lemma_runtime_text_adds_absent_keys(profile: Seq<char>)
    ensures
        yaml_top_keys(profile) is None ==> runtime_text(profile) == yaml_merged(
            seq!['{', '}'],
            defaults_flow(all_defaults()),
        ),
        yaml_top_keys(profile) == Some(None::<Seq<(Option<Seq<char>>, bool)>>) ==> runtime_text(profile)
            == yaml_merged(profile, seq!['{', '}']),
        yaml_top_keys(profile) matches Some(Some(ks)) ==> runtime_text(profile) == yaml_merged(
            profile,
            defaults_flow(all_defaults().filter(lacks_key(ks))),
        ),
{
    match yaml_top_keys(profile) {
        Some(Some(ks)) => {
            lemma_missing_is_filter(all_defaults(), ks);
        },
        Some(None) => {
            assert(joined_entries(Seq::<RuntimeDefault>::empty()) =~= Seq::<char>::empty());
            assert(defaults_flow(Seq::<RuntimeDefault>::empty()) =~= seq!['{', '}']);
        },
        None => {},
    }
}

/// A default is added exactly when the profile's mapping has no string key
/// equal to its key.
pub proof fn lemma_default_added_iff_key_absent(ks: Seq<(Option<Seq<char>>, bool)>, d: RuntimeDefault)
    ensures
        all_defaults().filter(lacks_key(ks)).contains(d) <==> !has_string_key(ks, key_of(d)),
{
    let ds = all_defaults();
    let f = ds.filter(lacks_key(ks));
    let i: int = match d {
        RuntimeDefault::MixedPort => 0,
        RuntimeDefault::ExternalController => 1,
        RuntimeDefault::Mode => 2,
        RuntimeDefault::LogLevel => 3,
        RuntimeDefault::AllowLan => 4,
        RuntimeDefault::Tun => 5,
    };
    assert(ds[i] == d);
    if !has_string_key(ks, key_of(d)) {
        ds.lemma_filter_contains(lacks_key(ks), i);
    }
    if f.contains(d) {
        let j = choose|j: int| 0 <= j < f.len() && f[j] == d;
        ds.lemma_filter_pred(lacks_key(ks), j);
    }
}

/// `path` without a leading `\\?\` (the verbatim prefix that Windows
/// puts on canonical paths and the core's API does not accept).
pub open spec fn without_verbatim_prefix(path: Seq<char>) -> Seq<char> {
    let p = seq!['\\', '\\', '?', '\\'];
    if path.len() >= 4 && path.subrange(0, 4) == p {
        path.subrange(4, path.len() as int)
    } else {
        path
    }
}

/// Strips the Windows verbatim prefix from a canonical path.
pub fn strip_verbatim_prefix(path: &str) -> (r: String)
    ensures
        r@ == without_verbatim_prefix(path@),
{
    let v = chars_of(path);
    if v.len() >= 4 && v[0] == '\\' && v[1] == '\\' && v[2] == '?' && v[3] == '\\' {
        assert(v@.subrange(0, 4) =~= seq!['\\', '\\', '?', '\\']);
        let rest = slice_chars(v.as_slice(), 4, v.len());
        string_of(rest.as_slice())
    } else {
        assert(v@.len() >= 4 ==> v@.subrange(0, 4)[0] == v@[0] && v@.subrange(0, 4)[1] == v@[1]
            && v@.subrange(0, 4)[2] == v@[2] && v@.subrange(0, 4)[3] == v@[3]);
        string_of(v.as_slice())
    }
}

} // verus!
