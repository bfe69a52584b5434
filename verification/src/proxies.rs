//! The Proxies page's model: which groups are listed and in what order,
//! which are expanded, how their node cards are laid out in rows, node
//! selection, delay-test bookkeeping and the icons chosen for names.

use vstd::prelude::*;

use crate::mihomo_api::{DelaySample, ProxyNode, is_group_kind};
use crate::order::{Named, sort_by_name, sorted_by_name};
use crate::paths::{path_extension, path_file_stem, std_path_extension, std_path_file_stem};
use crate::text::{chars_of, contains, find_chars, lemma_find, push_str, str_eq, string_of};

verus! {

broadcast use vstd::seq_lib::group_to_multiset_ensures;

impl Named for ProxyNode {
    open spec fn name_view(&self) -> Seq<char> {
        self.name@
    }

    fn name_str(&self) -> (r: &str) {
        self.name.as_str()
    }
}

/// Holds of a group entry.
pub open spec fn is_group_node() -> spec_fn(ProxyNode) -> bool {
    |p: ProxyNode| is_group_kind(p.kind@)
}

/// The groups among all proxies, sorted by name. (The proxies come from a
/// map whose order is arbitrary; the result is the same set of groups
/// whatever that order.)
pub fn list_groups(proxies: Vec<ProxyNode>) -> (r: Vec<ProxyNode>)
    ensures
        sorted_by_name(r@),
        r@.to_multiset() == proxies@.filter(is_group_node()).to_multiset(),
{
    let ghost orig = proxies@;
    let mut rest = proxies;
    let mut groups: Vec<ProxyNode> = Vec::new();
    let n = rest.len();
    let mut i: usize = 0;
    assert(rest@ == orig.subrange(0, n as int));
    while i < n
        invariant
            n == orig.len(),
            i <= n,
            rest@ == orig.subrange(i as int, n as int),
            groups@ == orig.take(i as int).filter(is_group_node()),
        decreases n - i,
    {
        let p = rest.remove(0);
        proof {
            reveal(Seq::filter);
            assert(orig.take(i + 1).drop_last() == orig.take(i as int));
        }
        if p.is_group() {
            groups.push(p);
        }
        assert(rest@ == orig.subrange(i + 1, n as int));
        i = i + 1;
    }
    assert(orig.take(n as int) == orig);
    sort_by_name(groups)
}

/// The kinds that make an entry a group, named one by one.
pub open spec fn is_listed_kind(kind: Seq<char>) -> bool {
    kind == "Selector"@ || kind == "URLTest"@ || kind == "Fallback"@ || kind == "LoadBalance"@
        || kind == "Relay"@ || kind == "Smart"@
}

/// An entry is a group (`ProxyNode::is_group`) exactly when its kind is
/// one of the six group kinds.
pub proof fn lemma_group_kind_is_listed(kind: Seq<char>)
    ensures
        is_group_kind(kind) <==> is_listed_kind(kind),
{
}

/// The Proxies page lists an entry exactly when the core reported it and
/// its kind is Selector, URLTest, Fallback, LoadBalance, Relay or Smart
/// (for any list that `list_groups` may return).
pub proof fn lemma_listed_groups(proxies: Seq<ProxyNode>, listed: Seq<ProxyNode>, p: ProxyNode)
    requires
        listed.to_multiset() == proxies.filter(is_group_node()).to_multiset(),
    ensures
        listed.contains(p) <==> (proxies.contains(p) && is_listed_kind(p.kind@)),
{
    let f = proxies.filter(is_group_node());
    assert(listed.contains(p) <==> listed.to_multiset().contains(p));
    assert(f.contains(p) <==> f.to_multiset().contains(p));
    if f.contains(p) {
        proxies.lemma_filter_contains_rev(is_group_node(), p);
        let j = choose|j: int| 0 <= j < f.len() && f[j] == p;
        proxies.lemma_filter_pred(is_group_node(), j);
    }
    if proxies.contains(p) && is_listed_kind(p.kind@) {
        let i = choose|i: int| 0 <= i < proxies.len() && proxies[i] == p;
        proxies.lemma_filter_contains(is_group_node(), i);
    }
}

/// A set of group names (the expanded groups, the groups under test),
/// held as a list in which no name occurs twice: a set keyed by `String`
/// would leave Verus nothing to prove about membership.
pub struct NameSet {
    names: Vec<String>,
}

impl NameSet {
    /// Is `name` expanded?
    pub closed spec fn has(&self, name: Seq<char>) -> bool {
        exists|i: int| 0 <= i < self.names@.len() && self.names@[i]@ == name
    }

    /// No name is held twice.
    pub closed spec fn wf(&self) -> bool {
        forall|i: int, j: int|
            0 <= i < j < self.names@.len() ==> self.names@[i]@ != self.names@[j]@
    }

    /// The number of expanded groups.
    pub closed spec fn count(&self) -> nat {
        self.names@.len()
    }

    /// Nothing expanded.
    pub fn new() -> (r: Self)
        ensures
            r.wf(),
            r.count() == 0,
            forall|n: Seq<char>| !r.has(n),
    {
        NameSet { names: Vec::new() }
    }

    fn position(&self, name: &str) -> (r: Option<usize>)
        ensures
            match r {
                Some(i) => i < self.names@.len() && self.names@[i as int]@ == name@,
                None => !self.has(name@),
            },
    {
        let mut i: usize = 0;
        while i < self.names.len()
            invariant
                i <= self.names@.len(),
                forall|k: int| 0 <= k < i ==> self.names@[k]@ != name@,
            decreases self.names.len() - i,
        {
            if str_eq(self.names[i].as_str(), name) {
                return Some(i);
            }
            i = i + 1;
        }
        None
    }

    /// Is `name` in the set?
    pub fn contains(&self, name: &str) -> (r: bool)
        ensures
            r == self.has(name@),
    {
        self.position(name).is_some()
    }

    /// Adds `name` if absent, removes it if present (expanding or
    /// collapsing a group).
    pub fn toggle(&mut self, name: String)
        requires
            old(self).wf(),
        ensures
            final(self).wf(),
            final(self).has(name@) == !old(self).has(name@),
            forall|n: Seq<char>| n != name@ ==> final(self).has(n) == old(self).has(n),
    {
        match self.position(name.as_str()) {
            Some(i) => {
                let ghost before = self.names@;
                self.names.remove(i);
                assert forall|n: Seq<char>| n != name@ implies self.has(n) == (exists|k: int|
                    0 <= k < before.len() && before[k]@ == n) by {
                    if exists|k: int| 0 <= k < before.len() && before[k]@ == n {
                        let k = choose|k: int| 0 <= k < before.len() && before[k]@ == n;
                        if k < i {
                            assert(self.names@[k] == before[k]);
                        } else {
                            assert(self.names@[k - 1] == before[k]);
                        }
                    }
                    if self.has(n) {
                        let k = choose|k: int| 0 <= k < self.names@.len() && self.names@[k]@ == n;
                        if k < i {
                            assert(self.names@[k] == before[k]);
                        } else {
                            assert(self.names@[k] == before[k + 1]);
                        }
                    }
                }
                assert(!self.has(name@)) by {
                    if self.has(name@) {
                        let k = choose|k: int| 0 <= k < self.names@.len() && self.names@[k]@ == name@;
                        if k < i {
                            assert(self.names@[k] == before[k]);
                        } else {
                            assert(self.names@[k] == before[k + 1]);
                        }
                    }
                }
                assert forall|a: int, b: int| 0 <= a < b < self.names@.len() implies self.names@[a]@
                    != self.names@[b]@ by {
                    let a0 = if a < i { a } else { a + 1 };
                    let b0 = if b < i { b } else { b + 1 };
                    assert(self.names@[a] == before[a0]);
                    assert(self.names@[b] == before[b0]);
                }
            },
            None => {
                let ghost before = self.names@;
                self.names.push(name);
                assert(self.names@[before.len() as int]@ == name@);
                assert forall|n: Seq<char>| n != name@ implies self.has(n) == (exists|k: int|
                    0 <= k < before.len() && before[k]@ == n) by {
                    if self.has(n) {
                        let k = choose|k: int| 0 <= k < self.names@.len() && self.names@[k]@ == n;
                        assert(self.names@[k] == before[k]);
                    }
                    if exists|k: int| 0 <= k < before.len() && before[k]@ == n {
                        let k = choose|k: int| 0 <= k < before.len() && before[k]@ == n;
                        assert(self.names@[k] == before[k]);
                    }
                }
            },
        }
    }
}

/// On a load of the groups with nothing expanded, the first group is
/// expanded so that the page does not open fully collapsed; otherwise the
/// expanded set is kept.
pub fn expand_first_on_load(expanded: &mut NameSet, groups: &Vec<ProxyNode>)
    requires
        old(expanded).wf(),
    ensures
        final(expanded).wf(),
        ((forall|n: Seq<char>| !old(expanded).has(n)) && groups@.len() > 0) ==> (forall|n: Seq<char>|
            final(expanded).has(n) == (n == groups@[0].name@)),
        !((forall|n: Seq<char>| !old(expanded).has(n)) && groups@.len() > 0) ==> forall|n: Seq<char>|
            final(expanded).has(n) == old(expanded).has(n),
{
    if expanded.names.len() == 0 {
        if groups.len() > 0 {
            insert_name(expanded, crate::text::owned(groups[0].name.as_str()));
        }
    } else {
        assert(expanded.has(expanded.names@[0]@));
    }
}

/// Adds `name` to `set` unless it is there.
pub fn insert_name(set: &mut NameSet, name: String)
    requires
        old(set).wf(),
    ensures
        final(set).wf(),
        final(set).has(name@),
        forall|n: Seq<char>| n != name@ ==> final(set).has(n) == old(set).has(n),
{
    if !set.contains(name.as_str()) {
        set.toggle(name);
    }
}

/// Removes `name` from `set` if it is there.
pub fn remove_name(set: &mut NameSet, name: String)
    requires
        old(set).wf(),
    ensures
        final(set).wf(),
        !final(set).has(name@),
        forall|n: Seq<char>| n != name@ ==> final(set).has(n) == old(set).has(n),
{
    if set.contains(name.as_str()) {
        set.toggle(name);
    }
}

/// The first group named `name`.
pub open spec fn group_named(groups: Seq<ProxyNode>, name: Seq<char>) -> Option<ProxyNode>
    decreases groups.len(),
{
    if groups.len() == 0 {
        None
    } else if groups[0].name@ == name {
        Some(groups[0])
    } else {
        group_named(groups.drop_first(), name)
    }
}

/// Starts a delay test of `group`: nothing when it is already under test,
/// unknown, or empty; otherwise the group is marked as under test and its
/// node names are returned.
pub fn begin_delay_test(groups: &Vec<ProxyNode>, testing: &mut NameSet, group: &str) -> (r: Option<Vec<String>>)
    requires
        old(testing).wf(),
    ensures
        final(testing).wf(),
        old(testing).has(group@) ==> r is None && forall|n: Seq<char>| final(testing).has(n) == old(testing).has(n),
        !old(testing).has(group@) ==> match group_named(groups@, group@) {
            Some(g) if g.all@.len() > 0 => r matches Some(nodes) && nodes@ == g.all@ && final(testing).has(group@)
                && forall|n: Seq<char>| n != group@ ==> final(testing).has(n) == old(testing).has(n),
            _ => r is None && forall|n: Seq<char>| final(testing).has(n) == old(testing).has(n),
        },
{
    if testing.contains(group) {
        return None;
    }
    let mut i: usize = 0;
    assert(groups@.subrange(0, groups@.len() as int) == groups@);
    while i < groups.len()
        invariant
            i <= groups@.len(),
            *testing == *old(testing),
            testing.wf(),
            !testing.has(group@),
            group_named(groups@, group@) == group_named(groups@.subrange(i as int, groups@.len() as int), group@),
        decreases groups.len() - i,
    {
        let ghost rest = groups@.subrange(i as int, groups@.len() as int);
        assert(rest[0] == groups@[i as int]);
        if str_eq(groups[i].name.as_str(), group) {
            if groups[i].all.len() == 0 {
                return None;
            }
            let nodes = groups[i].all.clone();
            insert_name(testing, crate::text::owned(group));
            return Some(nodes);
        }
        assert(rest.drop_first() == groups@.subrange(i + 1, groups@.len() as int));
        i = i + 1;
    }
    None
}

/// Toggling a group twice leaves the expanded set as it was.
pub proof fn lemma_toggle_twice(a: &NameSet, b: &NameSet, c: &NameSet, name: Seq<char>)
    requires
        b.has(name) == !a.has(name),
        forall|n: Seq<char>| n != name ==> b.has(n) == a.has(n),
        c.has(name) == !b.has(name),
        forall|n: Seq<char>| n != name ==> c.has(n) == b.has(n),
    ensures
        forall|n: Seq<char>| c.has(n) == a.has(n),
{
}

/// One row of the flattened proxy list: a group header, or up to a row's
/// worth of node cards of an expanded group.
#[derive(Debug, Clone, Copy, PartialEq, Eq, Structural)]
pub enum Row {
    GroupHeader { group_idx: usize },
    NodeCardRow { group_idx: usize, start: usize, count: usize },
}

/// The card rows of group `gi` with `total` nodes, from node `start` on,
/// at most `cols` cards per row.
pub open spec fn card_rows(gi: usize, start: nat, total: nat, cols: nat) -> Seq<Row>
    decreases total - start,
{
    if start >= total || cols == 0 {
        Seq::empty()
    } else {
        let count = if total - start < cols {
            (total - start) as nat
        } else {
            cols
        };
        seq![Row::NodeCardRow { group_idx: gi, start: start as usize, count: count as usize }]
            + card_rows(gi, start + count, total, cols)
    }
}

/// The rows of groups `0..upto`: each group's header, followed by its card
/// rows when it is expanded.
pub open spec fn list_rows(sizes: Seq<(bool, nat)>, upto: nat, cols: nat) -> Seq<Row>
    decreases upto,
{
    if upto == 0 {
        Seq::empty()
    } else {
        let gi = (upto - 1) as nat;
        list_rows(sizes, gi, cols) + seq![Row::GroupHeader { group_idx: gi as usize }] + (if sizes[gi as int].0 {
            card_rows(gi as usize, 0, sizes[gi as int].1, cols)
        } else {
            Seq::empty()
        })
    }
}

/// For each group: whether it is expanded and how many nodes it has.
pub open spec fn group_sizes(groups: Seq<ProxyNode>, expanded: NameSet) -> Seq<(bool, nat)> {
    groups.map_values(|g: ProxyNode| (expanded.has(g.name@), g.all@.len()))
}

fn push_card_rows(rows: &mut Vec<Row>, gi: usize, total: usize, cols: usize)
    requires
        cols > 0,
    ensures
        final(rows)@ == old(rows)@ + card_rows(gi, 0, total as nat, cols as nat),
{
    let ghost base = old(rows)@;
    let mut start: usize = 0;
    while start < total
        invariant
            cols > 0,
            start <= total,
            base + card_rows(gi, 0, total as nat, cols as nat) == rows@ + card_rows(gi, start as nat, total as nat, cols as nat),
        decreases total - start,
    {
        let count = if total - start < cols { total - start } else { cols };
        let ghost before = rows@;
        rows.push(Row::NodeCardRow { group_idx: gi, start, count });
        assert(card_rows(gi, start as nat, total as nat, cols as nat) == seq![Row::NodeCardRow { group_idx: gi, start, count }] + card_rows(gi, (start + count) as nat, total as nat, cols as nat));
        assert(before + card_rows(gi, start as nat, total as nat, cols as nat) == rows@ + card_rows(gi, (start + count) as nat, total as nat, cols as nat));
        start = start + count;
    }
    assert(rows@ + card_rows(gi, start as nat, total as nat, cols as nat) == rows@);
}

/// Flattens the groups into the rows of the virtual list, with `cols`
/// cards per row.
pub fn flatten_rows(groups: &Vec<ProxyNode>, expanded: &NameSet, cols: usize) -> (r: Vec<Row>)
    requires
        cols > 0,
    ensures
        r@ == list_rows(group_sizes(groups@, *expanded), groups@.len(), cols as nat),
{
    let ghost sizes = group_sizes(groups@, *expanded);
    let mut rows: Vec<Row> = Vec::new();
    let mut gi: usize = 0;
    while gi < groups.len()
        invariant
            cols > 0,
            gi <= groups@.len(),
            sizes == group_sizes(groups@, *expanded),
            rows@ == list_rows(sizes, gi as nat, cols as nat),
        decreases groups.len() - gi,
    {
        rows.push(Row::GroupHeader { group_idx: gi });
        let ghost after_header = rows@;
        if expanded.contains(groups[gi].name.as_str()) {
            push_card_rows(&mut rows, gi, groups[gi].all.len(), cols);
        } else {
            assert(rows@ == after_header + Seq::<Row>::empty());
        }
        gi = gi + 1;
    }
    rows
}

/// The card rows of one group cover its nodes exactly once, in order, each
/// row holding between 1 and `cols` cards.
pub proof fn lemma_card_rows_cover(gi: usize, start: nat, total: nat, cols: nat)
    requires
        cols > 0,
        start <= total <= usize::MAX,
        cols <= usize::MAX,
    ensures
        forall|k: int|
            0 <= k < card_rows(gi, start, total, cols).len() ==> {
                let r = #[trigger] card_rows(gi, start, total, cols)[k];
                r matches Row::NodeCardRow { group_idx, start: s, count } && group_idx == gi && 1 <= count
                    <= cols && s >= start && s + count <= total
            },
        card_rows(gi, start, total, cols).len() > 0 ==> (card_rows(gi, start, total, cols)[0] matches Row::NodeCardRow { start: s, .. } && s == start),
        total_cards(card_rows(gi, start, total, cols)) == total - start,
    decreases total - start,
{
    if start < total {
        let count = if total - start < cols { (total - start) as nat } else { cols };
        lemma_card_rows_cover(gi, start + count, total, cols);
        let tail = card_rows(gi, start + count, total, cols);
        let head = Row::NodeCardRow { group_idx: gi, start: start as usize, count: count as usize };
        assert(card_rows(gi, start, total, cols) == seq![head] + tail);
        assert((seq![head] + tail).drop_first() == tail);
        assert(total_cards(seq![head] + tail) == count + total_cards(tail));
        assert forall|k: int| 0 <= k < card_rows(gi, start, total, cols).len() implies {
            let r = #[trigger] card_rows(gi, start, total, cols)[k];
            r matches Row::NodeCardRow { group_idx, start: s, count } && group_idx == gi && 1 <= count
                <= cols && s >= start && s + count <= total
        } by {
            if k > 0 {
                assert(card_rows(gi, start, total, cols)[k] == tail[k - 1]);
            }
        }
    }
}

/// Number of cards in a list of rows.
pub open spec fn total_cards(rows: Seq<Row>) -> nat
    decreases rows.len(),
{
    if rows.len() == 0 {
        0
    } else {
        (match rows[0] {
            Row::NodeCardRow { count, .. } => count as nat,
            Row::GroupHeader { .. } => 0,
        }) + total_cards(rows.drop_first())
    }
}

/// Optimistic selection: every entry named `group` gets `node` as its
/// current choice.
pub fn select_node(entries: &mut Vec<ProxyNode>, group: &str, node: &str)
    ensures
        final(entries)@.len() == old(entries)@.len(),
        names_unique(old(entries)@) ==> names_unique(final(entries)@),
        forall|k: int|
            0 <= k < old(entries)@.len() ==> {
                let o = old(entries)@[k];
                let p = #[trigger] final(entries)@[k];
                &&& p.name == o.name && p.kind == o.kind && p.all == o.all && p.history == o.history
                    && p.udp == o.udp
                &&& if o.name@ == group@ {
                    p.now matches Some(n) && n@ == node@
                } else {
                    p.now == o.now
                }
            },
{
    let ghost orig = entries@;
    let mut i: usize = 0;
    while i < entries.len()
        invariant
            i <= entries@.len(),
            entries@.len() == orig.len(),
            forall|k: int| i <= k < orig.len() ==> entries@[k] == orig[k],
            forall|k: int|
                0 <= k < i ==> {
                    let o = orig[k];
                    let p = #[trigger] entries@[k];
                    &&& p.name == o.name && p.kind == o.kind && p.all == o.all && p.history
                        == o.history && p.udp == o.udp
                    &&& if o.name@ == group@ {
                        p.now matches Some(n) && n@ == node@
                    } else {
                        p.now == o.now
                    }
                },
        decreases entries.len() - i,
    {
        if str_eq(entries[i].name.as_str(), group) {
            let ghost before = entries@;
            let mut e = entries.remove(i);
            e.now = Some(crate::text::owned(node));
            entries.insert(i, e);
            assert forall|k: int| 0 <= k < entries@.len() && k != i implies entries@[k] == before[k] by {
                if k < i {
                } else {
                }
            }
        }
        i = i + 1;
    }
}

/// `after` is `before` followed by new samples, each with an empty time.
pub open spec fn extends_untimed(before: Seq<DelaySample>, after: Seq<DelaySample>) -> bool {
    &&& before.len() <= after.len()
    &&& after.subrange(0, before.len() as int) == before
    &&& forall|i: int| before.len() <= i < after.len() ==> (#[trigger] after[i]).time@.len() == 0
}

proof fn lemma_extends_untimed_trans(a: Seq<DelaySample>, b: Seq<DelaySample>, c: Seq<DelaySample>)
    requires
        extends_untimed(a, b),
        extends_untimed(b, c),
    ensures
        extends_untimed(a, c),
{
    assert(c.subrange(0, a.len() as int) =~= b.subrange(0, a.len() as int));
    assert forall|i: int| a.len() <= i < c.len() implies (#[trigger] c[i]).time@.len() == 0 by {
        if i < b.len() {
            assert(c[i] == c.subrange(0, b.len() as int)[i]);
        }
    }
}

/// Records delay results: each `(name, delay)` adds a sample (with an
/// empty time) to the history of every entry of that name.
pub fn apply_delay_results(entries: &mut Vec<ProxyNode>, results: &Vec<(String, u32)>)
    ensures
        final(entries)@.len() == old(entries)@.len(),
        names_unique(old(entries)@) ==> names_unique(final(entries)@),
        forall|k: int|
            0 <= k < old(entries)@.len() ==> {
                let o = old(entries)@[k];
                let p = #[trigger] final(entries)@[k];
                &&& p.name == o.name && p.kind == o.kind && p.all == o.all && p.now == o.now
                    && p.udp == o.udp
                &&& p.history@.map_values(|s: DelaySample| s.delay) == o.history@.map_values(
                    |s: DelaySample| s.delay,
                ) + delays_for(results@, o.name@)
                &&& extends_untimed(o.history@, p.history@)
            },
{
    let ghost orig = entries@;
    assert forall|k: int| 0 <= k < orig.len() implies (#[trigger] orig[k]).history@.subrange(
        0,
        orig[k].history@.len() as int,
    ) =~= orig[k].history@ by {}
    let mut j: usize = 0;
    while j < results.len()
        invariant
            j <= results@.len(),
            entries@.len() == orig.len(),
            forall|k: int|
                0 <= k < orig.len() ==> {
                    let o = orig[k];
                    let p = #[trigger] entries@[k];
                    &&& p.name == o.name && p.kind == o.kind && p.all == o.all && p.now == o.now
                        && p.udp == o.udp
                    &&& p.history@.map_values(|s: DelaySample| s.delay) == o.history@.map_values(
                        |s: DelaySample| s.delay,
                    ) + delays_for(results@.take(j as int), o.name@)
                    &&& extends_untimed(o.history@, p.history@)
                },
        decreases results.len() - j,
    {
        let ghost at_j = entries@;
        let mut i: usize = 0;
        while i < entries.len()
            invariant
                j < results@.len(),
                i <= entries@.len(),
                entries@.len() == at_j.len(),
                forall|k: int| i <= k < at_j.len() ==> entries@[k] == at_j[k],
                forall|k: int|
                    0 <= k < i ==> {
                        let o = at_j[k];
                        let p = #[trigger] entries@[k];
                        &&& p.name == o.name && p.kind == o.kind && p.all == o.all && p.now
                            == o.now && p.udp == o.udp
                        &&& p.history@.map_values(|s: DelaySample| s.delay) == o.history@.map_values(
                            |s: DelaySample| s.delay,
                        ) + (if o.name@ == results@[j as int].0@ {
                            seq![results@[j as int].1]
                        } else {
                            Seq::empty()
                        })
                        &&& extends_untimed(o.history@, p.history@)
                    },
            decreases entries.len() - i,
        {
            let ghost before = entries@;
            if str_eq(entries[i].name.as_str(), results[j].0.as_str()) {
                let mut e = entries.remove(i);
                let ghost h0 = e.history@;
                let stamp = String::new();
                assert(stamp@.len() == 0);
                e.history.push(DelaySample { time: stamp, delay: results[j].1 });
                assert(e.history@.subrange(0, h0.len() as int) =~= h0);
                assert(extends_untimed(h0, e.history@));
                assert(e.history@.map_values(|s: DelaySample| s.delay) =~= h0.map_values(
                    |s: DelaySample| s.delay,
                ).push(results@[j as int].1));
                entries.insert(i, e);
                assert forall|k: int| 0 <= k < entries@.len() && k != i implies entries@[k] == before[k] by {
                    if k < i {
                    } else {
                    }
                }
            } else {
                assert(entries@[i as int].history@.subrange(0, entries@[i as int].history@.len() as int)
                    =~= entries@[i as int].history@);
                assert(entries@[i as int].history@.map_values(|s: DelaySample| s.delay) =~= entries@[i as int].history@.map_values(|s: DelaySample| s.delay) + Seq::<u32>::empty());
            }
            i = i + 1;
        }
        proof {
            assert forall|k: int| 0 <= k < orig.len() implies {
                let o = orig[k];
                let p = #[trigger] entries@[k];
                &&& p.name == o.name && p.kind == o.kind && p.all == o.all && p.now == o.now
                    && p.udp == o.udp
                &&& p.history@.map_values(|s: DelaySample| s.delay) == o.history@.map_values(
                    |s: DelaySample| s.delay,
                ) + delays_for(results@.take(j + 1), o.name@)
                &&& extends_untimed(o.history@, p.history@)
            } by {
                lemma_extends_untimed_trans(orig[k].history@, at_j[k].history@, entries@[k].history@);
                assert(results@.take(j + 1).drop_last() == results@.take(j as int));
                assert(at_j[k].name == orig[k].name);
            }
        }
        j = j + 1;
    }
    assert(results@.take(results@.len() as int) == results@);
}

/// The delays, in order, that `results` reports for `name`.
pub open spec fn delays_for(results: Seq<(String, u32)>, name: Seq<char>) -> Seq<u32>
    decreases results.len(),
{
    if results.len() == 0 {
        Seq::empty()
    } else {
        delays_for(results.drop_last(), name) + (if results.last().0@ == name {
            seq![results.last().1]
        } else {
            Seq::empty()
        })
    }
}

/// How a node's delay badge is coloured: 0 (failed) red, under 100 ms
/// green, up to 300 ms amber, slower orange.
pub fn delay_level(delay: u32) -> (r: crate::home::LatencyLevel)
    ensures
        r == (if delay == 0 {
            crate::home::LatencyLevel::Failed
        } else if delay < 100 {
            crate::home::LatencyLevel::Fast
        } else if delay <= 300 {
            crate::home::LatencyLevel::Medium
        } else {
            crate::home::LatencyLevel::Slow
        }),
{
    if delay == 0 {
        crate::home::LatencyLevel::Failed
    } else if delay < 100 {
        crate::home::LatencyLevel::Fast
    } else if delay <= 300 {
        crate::home::LatencyLevel::Medium
    } else {
        crate::home::LatencyLevel::Slow
    }
}


/// The delay badge of a node card: `—` for a failed test, `<n> ms`
/// otherwise, nothing before any test; with the colour family (none:
/// muted).
pub open spec fn badge_of(delay: Option<u32>) -> (Seq<char>, Option<crate::home::LatencyLevel>) {
    match delay {
        Some(d) => if d == 0 {
            ("—"@, Some(crate::home::LatencyLevel::Failed))
        } else {
            (
                crate::text::dec(d as nat) + " ms"@,
                Some(
                    if d < 100 {
                        crate::home::LatencyLevel::Fast
                    } else if d <= 300 {
                        crate::home::LatencyLevel::Medium
                    } else {
                        crate::home::LatencyLevel::Slow
                    },
                ),
            )
        },
        None => (Seq::empty(), None),
    }
}

/// The delay badge of a node card, from the node's last delay.
pub fn delay_badge(delay: Option<u32>) -> (r: (String, Option<crate::home::LatencyLevel>))
    ensures
        r.0@ == badge_of(delay).0,
        r.1 == badge_of(delay).1,
{
    match delay {
        Some(d) => {
            if d == 0 {
                (crate::text::owned("—"), Some(delay_level(0)))
            } else {
                let mut v: Vec<char> = Vec::new();
                crate::text::push_decimal(&mut v, d as u64);
                crate::text::push_str(&mut v, " ms");
                (crate::text::string_of(v.as_slice()), Some(delay_level(d)))
            }
        },
        None => (String::new(), None),
    }
}

/// No two entries share a name. The core reports its proxies as a JSON
/// object keyed by name, so a list read from it has this; the list is a
/// `Vec` searched by name rather than a map keyed by `String`, a key type of
/// which Verus proves nothing.
pub open spec fn names_unique(entries: Seq<ProxyNode>) -> bool {
    forall|i: int, j: int|
        0 <= i < j < entries.len() ==> (#[trigger] entries[i]).name@ != (#[trigger] entries[j]).name@
}

/// In a list whose names are unique, looking a name up finds the one entry
/// that has it.
pub proof fn lemma_entry_named_unique(entries: Seq<ProxyNode>, k: int)
    requires
        names_unique(entries),
        0 <= k < entries.len(),
    ensures
        entry_named(entries, entries[k].name@) == Some(entries[k]),
    decreases entries.len(),
{
    if k > 0 {
        assert(entries[0].name@ != entries[k].name@);
        let rest = entries.drop_first();
        assert(rest[k - 1] == entries[k]);
        assert forall|i: int, j: int| 0 <= i < j < rest.len() implies (#[trigger] rest[i]).name@
            != (#[trigger] rest[j]).name@ by {
            assert(rest[i] == entries[i + 1] && rest[j] == entries[j + 1]);
        }
        lemma_entry_named_unique(rest, k - 1);
    }
}

/// The first entry named `name`.
pub open spec fn entry_named(entries: Seq<ProxyNode>, name: Seq<char>) -> Option<ProxyNode>
    decreases entries.len(),
{
    if entries.len() == 0 {
        None
    } else if entries[0].name@ == name {
        Some(entries[0])
    } else {
        entry_named(entries.drop_first(), name)
    }
}

/// The protocol shown on a node card (`?` for a node that is not known)
/// and the node's last delay.
pub fn node_card_info(entries: &Vec<ProxyNode>, name: &str) -> (r: (String, Option<u32>))
    ensures
        match entry_named(entries@, name@) {
            Some(n) => r.0@ == n.kind@ && r.1 == (if n.history@.len() > 0 {
                Some(n.history@.last().delay)
            } else {
                None
            }),
            None => r.0@ == "?"@ && r.1 is None,
        },
{
    let mut i: usize = 0;
    assert(entries@.subrange(0, entries@.len() as int) == entries@);
    while i < entries.len()
        invariant
            i <= entries@.len(),
            entry_named(entries@, name@) == entry_named(entries@.subrange(i as int, entries@.len() as int), name@),
        decreases entries.len() - i,
    {
        let ghost rest = entries@.subrange(i as int, entries@.len() as int);
        assert(rest[0] == entries@[i as int]);
        if str_eq(entries[i].name.as_str(), name) {
            return (crate::text::owned(entries[i].kind.as_str()), entries[i].last_delay());
        }
        assert(rest.drop_first() == entries@.subrange(i + 1, entries@.len() as int));
        i = i + 1;
    }
    (crate::text::owned("?"), None)
}

/// Icon shown for a group, by its policy.
#[derive(Debug, Clone, Copy, PartialEq, Eq, Structural)]
pub enum GroupIcon {
    CircleUser,
    ChartPie,
    Heart,
    Network,
    Bot,
    Folder,
}

/// Picks the icon of a group from its policy.
pub fn icon_for_group(kind: &str) -> (r: GroupIcon)
    ensures
        r == (if kind@ == "Selector"@ {
            GroupIcon::CircleUser
        } else if kind@ == "URLTest"@ || kind@ == "LoadBalance"@ {
            GroupIcon::ChartPie
        } else if kind@ == "Fallback"@ {
            GroupIcon::Heart
        } else if kind@ == "Relay"@ {
            GroupIcon::Network
        } else if kind@ == "Smart"@ {
            GroupIcon::Bot
        } else {
            GroupIcon::Folder
        }),
{
    if str_eq(kind, "Selector") {
        GroupIcon::CircleUser
    } else if str_eq(kind, "URLTest") || str_eq(kind, "LoadBalance") {
        GroupIcon::ChartPie
    } else if str_eq(kind, "Fallback") {
        GroupIcon::Heart
    } else if str_eq(kind, "Relay") {
        GroupIcon::Network
    } else if str_eq(kind, "Smart") {
        GroupIcon::Bot
    } else {
        GroupIcon::Folder
    }
}

/// Icon shown for a leaf node, by its protocol.
#[derive(Debug, Clone, Copy, PartialEq, Eq, Structural)]
pub enum NodeIcon {
    ArrowRight,
    CircleX,
    Globe,
}

/// Picks the icon of a leaf node: direct and reject outlets have their
/// own, every proxy protocol shows a globe.
pub fn icon_for_node(kind: &str) -> (r: NodeIcon)
    ensures
        r == (if kind@ == "Direct"@ || kind@ == "DIRECT"@ {
            NodeIcon::ArrowRight
        } else if kind@ == "Reject"@ || kind@ == "REJECT"@ {
            NodeIcon::CircleX
        } else {
            NodeIcon::Globe
        }),
{
    if str_eq(kind, "Direct") || str_eq(kind, "DIRECT") {
        NodeIcon::ArrowRight
    } else if str_eq(kind, "Reject") || str_eq(kind, "REJECT") {
        NodeIcon::CircleX
    } else {
        NodeIcon::Globe
    }
}

/// Service keywords (English or abbreviated) and the icon stem they map to.
pub open spec fn service_alias_entries() -> Seq<(&'static str, &'static str)> {
    seq![
        ("apple", "苹果"),
        ("icloud", "苹果"),
        ("appstore", "苹果"),
        ("bilibili", "哔哩哔哩"),
        ("b站", "哔哩哔哩"),
        ("哔哩", "哔哩哔哩"),
        ("google", "谷歌"),
        ("youtube", "谷歌"),
        ("gmail", "谷歌"),
        ("油管", "谷歌"),
        ("microsoft", "微软"),
        ("msn", "微软"),
        ("outlook", "微软"),
        ("office", "微软"),
        ("azure", "微软"),
        ("tiktok", "抖音"),
        ("twitter", "推特"),
        ("x.com", "推特"),
        ("telegram", "电报"),
        ("tg", "电报"),
        ("whatsapp", "WhatsApp"),
    ]
}

/// Country and region keywords and the ISO-2 stem of their flag.
pub open spec fn country_alias_entries() -> Seq<(&'static str, &'static str)> {
    seq![
        ("hk", "hk"),
        ("香港", "hk"),
        ("hong kong", "hk"),
        ("hongkong", "hk"),
        ("🇭🇰", "hk"),
        ("us", "us"),
        ("usa", "us"),
        ("美国", "us"),
        ("united states", "us"),
        ("🇺🇸", "us"),
        ("uk", "gb"),
        ("gb", "gb"),
        ("英国", "gb"),
        ("england", "gb"),
        ("british", "gb"),
        ("🇬🇧", "gb"),
        ("vn", "vn"),
        ("越南", "vn"),
        ("vietnam", "vn"),
        ("🇻🇳", "vn"),
        ("ca", "ca"),
        ("加拿大", "ca"),
        ("canada", "ca"),
        ("🇨🇦", "ca"),
        ("de", "de"),
        ("德国", "de"),
        ("germany", "de"),
        ("🇩🇪", "de"),
        ("sg", "sg"),
        ("新加坡", "sg"),
        ("singapore", "sg"),
        ("🇸🇬", "sg"),
        ("jp", "jp"),
        ("日本", "jp"),
        ("japan", "jp"),
        ("🇯🇵", "jp"),
        ("tw", "tw"),
        ("台湾", "tw"),
        ("台灣", "tw"),
        ("taiwan", "tw"),
        ("🇹🇼", "tw"),
        ("kr", "kr"),
        ("韩国", "kr"),
        ("韓國", "kr"),
        ("korea", "kr"),
        ("🇰🇷", "kr"),
        ("fr", "fr"),
        ("法国", "fr"),
        ("france", "fr"),
        ("🇫🇷", "fr"),
        ("ru", "ru"),
        ("俄罗斯", "ru"),
        ("俄国", "ru"),
        ("russia", "ru"),
        ("🇷🇺", "ru"),
        ("au", "au"),
        ("澳大利亚", "au"),
        ("澳洲", "au"),
        ("australia", "au"),
        ("🇦🇺", "au"),
        ("in", "in"),
        ("印度", "in"),
        ("india", "in"),
        ("🇮🇳", "in"),
        ("nl", "nl"),
        ("荷兰", "nl"),
        ("netherlands", "nl"),
        ("🇳🇱", "nl"),
        ("th", "th"),
        ("泰国", "th"),
        ("thailand", "th"),
        ("🇹🇭", "th"),
        ("my", "my"),
        ("马来西亚", "my"),
        ("malaysia", "my"),
        ("🇲🇾", "my"),
        ("ph", "ph"),
        ("菲律宾", "ph"),
        ("philippines", "ph"),
        ("🇵🇭", "ph"),
        ("id", "id"),
        ("印尼", "id"),
        ("印度尼西亚", "id"),
        ("indonesia", "id"),
        ("🇮🇩", "id"),
        ("tr", "tr"),
        ("土耳其", "tr"),
        ("turkey", "tr"),
        ("🇹🇷", "tr"),
        ("br", "br"),
        ("巴西", "br"),
        ("brazil", "br"),
        ("🇧🇷", "br"),
        ("ar", "ar"),
        ("阿根廷", "ar"),
        ("argentina", "ar"),
        ("🇦🇷", "ar"),
        ("it", "it"),
        ("意大利", "it"),
        ("italy", "it"),
        ("🇮🇹", "it"),
        ("es", "es"),
        ("西班牙", "es"),
        ("spain", "es"),
        ("🇪🇸", "es"),
        ("ch", "ch"),
        ("瑞士", "ch"),
        ("switzerland", "ch"),
        ("🇨🇭", "ch"),
        ("se", "se"),
        ("瑞典", "se"),
        ("sweden", "se"),
        ("🇸🇪", "se"),
        ("no", "no"),
        ("挪威", "no"),
        ("norway", "no"),
        ("🇳🇴", "no"),
        ("fi", "fi"),
        ("芬兰", "fi"),
        ("finland", "fi"),
        ("🇫🇮", "fi"),
        ("dk", "dk"),
        ("丹麦", "dk"),
        ("denmark", "dk"),
        ("🇩🇰", "dk"),
        ("ie", "ie"),
        ("爱尔兰", "ie"),
        ("ireland", "ie"),
        ("🇮🇪", "ie"),
        ("at", "at"),
        ("奥地利", "at"),
        ("austria", "at"),
        ("🇦🇹", "at"),
        ("be", "be"),
        ("比利时", "be"),
        ("belgium", "be"),
        ("🇧🇪", "be"),
        ("pt", "pt"),
        ("葡萄牙", "pt"),
        ("portugal", "pt"),
        ("🇵🇹", "pt"),
        ("nz", "nz"),
        ("新西兰", "nz"),
        ("new zealand", "nz"),
        ("🇳🇿", "nz"),
        ("ae", "ae"),
        ("阿联酋", "ae"),
        ("uae", "ae"),
        ("🇦🇪", "ae"),
        ("za", "za"),
        ("南非", "za"),
        ("south africa", "za"),
        ("🇿🇦", "za"),
        ("mx", "mx"),
        ("墨西哥", "mx"),
        ("mexico", "mx"),
        ("🇲🇽", "mx"),
        ("cn", "cn"),
        ("中国", "cn"),
        ("china", "cn"),
        ("🇨🇳", "cn"),
        ("mo", "mo"),
        ("澳门", "mo"),
        ("macau", "mo"),
        ("🇲🇴", "mo"),
    ]
}

/// Service brand aliases: extra keywords pointing at the same icon stem.
pub fn service_aliases() -> (r: Vec<(&'static str, &'static str)>)
    ensures
        r@ == service_alias_entries(),
{
    let r = vec![
        ("apple", "苹果"),
        ("icloud", "苹果"),
        ("appstore", "苹果"),
        ("bilibili", "哔哩哔哩"),
        ("b站", "哔哩哔哩"),
        ("哔哩", "哔哩哔哩"),
        ("google", "谷歌"),
        ("youtube", "谷歌"),
        ("gmail", "谷歌"),
        ("油管", "谷歌"),
        ("microsoft", "微软"),
        ("msn", "微软"),
        ("outlook", "微软"),
        ("office", "微软"),
        ("azure", "微软"),
        ("tiktok", "抖音"),
        ("twitter", "推特"),
        ("x.com", "推特"),
        ("telegram", "电报"),
        ("tg", "电报"),
        ("whatsapp", "WhatsApp"),
    ];
    assert(r@ =~= service_alias_entries());
    r
}

/// Country aliases: keywords pointing at the ISO-2 stem of a flag. Flags
/// are reached only through this table, never by matching two-letter
/// stems inside words.
pub fn country_aliases() -> (r: Vec<(&'static str, &'static str)>)
    ensures
        r@ == country_alias_entries(),
{
    let r = vec![
        ("hk", "hk"),
        ("香港", "hk"),
        ("hong kong", "hk"),
        ("hongkong", "hk"),
        ("🇭🇰", "hk"),
        ("us", "us"),
        ("usa", "us"),
        ("美国", "us"),
        ("united states", "us"),
        ("🇺🇸", "us"),
        ("uk", "gb"),
        ("gb", "gb"),
        ("英国", "gb"),
        ("england", "gb"),
        ("british", "gb"),
        ("🇬🇧", "gb"),
        ("vn", "vn"),
        ("越南", "vn"),
        ("vietnam", "vn"),
        ("🇻🇳", "vn"),
        ("ca", "ca"),
        ("加拿大", "ca"),
        ("canada", "ca"),
        ("🇨🇦", "ca"),
        ("de", "de"),
        ("德国", "de"),
        ("germany", "de"),
        ("🇩🇪", "de"),
        ("sg", "sg"),
        ("新加坡", "sg"),
        ("singapore", "sg"),
        ("🇸🇬", "sg"),
        ("jp", "jp"),
        ("日本", "jp"),
        ("japan", "jp"),
        ("🇯🇵", "jp"),
        ("tw", "tw"),
        ("台湾", "tw"),
        ("台灣", "tw"),
        ("taiwan", "tw"),
        ("🇹🇼", "tw"),
        ("kr", "kr"),
        ("韩国", "kr"),
        ("韓國", "kr"),
        ("korea", "kr"),
        ("🇰🇷", "kr"),
        ("fr", "fr"),
        ("法国", "fr"),
        ("france", "fr"),
        ("🇫🇷", "fr"),
        ("ru", "ru"),
        ("俄罗斯", "ru"),
        ("俄国", "ru"),
        ("russia", "ru"),
        ("🇷🇺", "ru"),
        ("au", "au"),
        ("澳大利亚", "au"),
        ("澳洲", "au"),
        ("australia", "au"),
        ("🇦🇺", "au"),
        ("in", "in"),
        ("印度", "in"),
        ("india", "in"),
        ("🇮🇳", "in"),
        ("nl", "nl"),
        ("荷兰", "nl"),
        ("netherlands", "nl"),
        ("🇳🇱", "nl"),
        ("th", "th"),
        ("泰国", "th"),
        ("thailand", "th"),
        ("🇹🇭", "th"),
        ("my", "my"),
        ("马来西亚", "my"),
        ("malaysia", "my"),
        ("🇲🇾", "my"),
        ("ph", "ph"),
        ("菲律宾", "ph"),
        ("philippines", "ph"),
        ("🇵🇭", "ph"),
        ("id", "id"),
        ("印尼", "id"),
        ("印度尼西亚", "id"),
        ("indonesia", "id"),
        ("🇮🇩", "id"),
        ("tr", "tr"),
        ("土耳其", "tr"),
        ("turkey", "tr"),
        ("🇹🇷", "tr"),
        ("br", "br"),
        ("巴西", "br"),
        ("brazil", "br"),
        ("🇧🇷", "br"),
        ("ar", "ar"),
        ("阿根廷", "ar"),
        ("argentina", "ar"),
        ("🇦🇷", "ar"),
        ("it", "it"),
        ("意大利", "it"),
        ("italy", "it"),
        ("🇮🇹", "it"),
        ("es", "es"),
        ("西班牙", "es"),
        ("spain", "es"),
        ("🇪🇸", "es"),
        ("ch", "ch"),
        ("瑞士", "ch"),
        ("switzerland", "ch"),
        ("🇨🇭", "ch"),
        ("se", "se"),
        ("瑞典", "se"),
        ("sweden", "se"),
        ("🇸🇪", "se"),
        ("no", "no"),
        ("挪威", "no"),
        ("norway", "no"),
        ("🇳🇴", "no"),
        ("fi", "fi"),
        ("芬兰", "fi"),
        ("finland", "fi"),
        ("🇫🇮", "fi"),
        ("dk", "dk"),
        ("丹麦", "dk"),
        ("denmark", "dk"),
        ("🇩🇰", "dk"),
        ("ie", "ie"),
        ("爱尔兰", "ie"),
        ("ireland", "ie"),
        ("🇮🇪", "ie"),
        ("at", "at"),
        ("奥地利", "at"),
        ("austria", "at"),
        ("🇦🇹", "at"),
        ("be", "be"),
        ("比利时", "be"),
        ("belgium", "be"),
        ("🇧🇪", "be"),
        ("pt", "pt"),
        ("葡萄牙", "pt"),
        ("portugal", "pt"),
        ("🇵🇹", "pt"),
        ("nz", "nz"),
        ("新西兰", "nz"),
        ("new zealand", "nz"),
        ("🇳🇿", "nz"),
        ("ae", "ae"),
        ("阿联酋", "ae"),
        ("uae", "ae"),
        ("🇦🇪", "ae"),
        ("za", "za"),
        ("南非", "za"),
        ("south africa", "za"),
        ("🇿🇦", "za"),
        ("mx", "mx"),
        ("墨西哥", "mx"),
        ("mexico", "mx"),
        ("🇲🇽", "mx"),
        ("cn", "cn"),
        ("中国", "cn"),
        ("china", "cn"),
        ("🇨🇳", "cn"),
        ("mo", "mo"),
        ("澳门", "mo"),
        ("macau", "mo"),
        ("🇲🇴", "mo"),
    ];
    assert(r@ =~= country_alias_entries());
    r
}

/// What `str::to_lowercase` returns for a text (full Unicode case mapping).
pub uninterp spec fn unicode_lower(s: Seq<char>) -> Seq<char>;

/// `str::to_lowercase`. Nothing is stated of the mapping beyond its name.
#[verifier::external_body]
pub(crate) fn to_lowercase(s: &str) -> (r: String)
    ensures
        r@ == unicode_lower(s@),
{
    s.to_lowercase()
}

/// An icon index: (lower-case stem, asset path) pairs.
pub open spec fn index_view(idx: Seq<(String, String)>) -> Seq<(Seq<char>, Seq<char>)> {
    idx.map_values(|e: (String, String)| (e.0@, e.1@))
}

/// The path of the first index entry whose stem occurs in `lower`.
pub open spec fn stem_hit(idx: Seq<(Seq<char>, Seq<char>)>, lower: Seq<char>) -> Option<Seq<char>>
    decreases idx.len(),
{
    if idx.len() == 0 {
        None
    } else if contains(lower, idx[0].0) {
        Some(idx[0].1)
    } else {
        stem_hit(idx.drop_first(), lower)
    }
}

/// The path stored under `key`.
pub open spec fn index_get(idx: Seq<(Seq<char>, Seq<char>)>, key: Seq<char>) -> Option<Seq<char>>
    decreases idx.len(),
{
    if idx.len() == 0 {
        None
    } else if idx[0].0 == key {
        Some(idx[0].1)
    } else {
        index_get(idx.drop_first(), key)
    }
}

/// The path reached through the first alias whose keyword occurs in the
/// name (lower-cased, or as written) and whose target is in the index.
pub open spec fn alias_hit(
    aliases: Seq<(&'static str, &'static str)>,
    raw: Seq<char>,
    lower: Seq<char>,
    idx: Seq<(Seq<char>, Seq<char>)>,
) -> Option<Seq<char>>
    decreases aliases.len(),
{
    if aliases.len() == 0 {
        None
    } else {
        let kw = aliases[0].0@;
        let hit = contains(lower, unicode_lower(kw)) || contains(raw, kw);
        match index_get(idx, unicode_lower(aliases[0].1@)) {
            Some(p) if hit => Some(p),
            _ => alias_hit(aliases.drop_first(), raw, lower, idx),
        }
    }
}

/// The icon for a group or node name, given the name lower-cased: a
/// service stem occurring in the lower-cased name, else a service alias,
/// else a country alias.
pub open spec fn icon_for_lowered(
    raw: Seq<char>,
    lower: Seq<char>,
    services: Seq<(Seq<char>, Seq<char>)>,
    countries: Seq<(Seq<char>, Seq<char>)>,
) -> Option<Seq<char>> {
    match stem_hit(services, lower) {
        Some(p) => Some(p),
        None => match alias_hit(service_alias_entries(), raw, lower, services) {
            Some(p) => Some(p),
            None => alias_hit(country_alias_entries(), raw, lower, countries),
        },
    }
}

/// The icon for a group or node name.
pub open spec fn icon_for_name(
    raw: Seq<char>,
    services: Seq<(Seq<char>, Seq<char>)>,
    countries: Seq<(Seq<char>, Seq<char>)>,
) -> Option<Seq<char>> {
    icon_for_lowered(raw, unicode_lower(raw), services, countries)
}

fn text_contains(s: &str, p: &str) -> (r: bool)
    ensures
        r == contains(s@, p@),
{
    let a = chars_of(s);
    let b = chars_of(p);
    proof {
        lemma_find(a@, b@);
    }
    find_chars(a.as_slice(), b.as_slice()).is_some()
}

fn index_lookup(idx: &Vec<(String, String)>, key: &str) -> (r: Option<String>)
    ensures
        match r {
            Some(p) => index_get(index_view(idx@), key@) == Some(p@),
            None => index_get(index_view(idx@), key@) is None,
        },
{
    let ghost v = index_view(idx@);
    let mut i: usize = 0;
    assert(v.subrange(0, v.len() as int) == v);
    while i < idx.len()
        invariant
            i <= idx@.len(),
            v == index_view(idx@),
            index_get(v, key@) == index_get(v.subrange(i as int, v.len() as int), key@),
        decreases idx.len() - i,
    {
        let ghost rest = v.subrange(i as int, v.len() as int);
        assert(rest[0] == v[i as int]);
        if str_eq(idx[i].0.as_str(), key) {
            return Some(idx[i].1.clone());
        }
        assert(rest.drop_first() == v.subrange(i + 1, v.len() as int));
        i = i + 1;
    }
    None
}

fn alias_lookup(
    aliases: &Vec<(&'static str, &'static str)>,
    raw: &str,
    lower: &str,
    idx: &Vec<(String, String)>,
) -> (r: Option<String>)
    ensures
        match r {
            Some(p) => alias_hit(aliases@, raw@, lower@, index_view(idx@)) == Some(p@),
            None => alias_hit(aliases@, raw@, lower@, index_view(idx@)) is None,
        },
{
    let mut i: usize = 0;
    assert(aliases@.subrange(0, aliases@.len() as int) == aliases@);
    while i < aliases.len()
        invariant
            i <= aliases@.len(),
            alias_hit(aliases@, raw@, lower@, index_view(idx@)) == alias_hit(
                aliases@.subrange(i as int, aliases@.len() as int),
                raw@,
                lower@,
                index_view(idx@),
            ),
        decreases aliases.len() - i,
    {
        let ghost rest = aliases@.subrange(i as int, aliases@.len() as int);
        assert(rest[0] == aliases@[i as int]);
        let (kw, target) = aliases[i];
        let kw_lower = to_lowercase(kw);
        let hit = text_contains(lower, kw_lower.as_str()) || text_contains(raw, kw);
        let t_lower = to_lowercase(target);
        let found = index_lookup(idx, t_lower.as_str());
        if hit && found.is_some() {
            return found;
        }
        assert(rest.drop_first() == aliases@.subrange(i + 1, aliases@.len() as int));
        i = i + 1;
    }
    None
}

/// Finds the icon asset for a group or node name whose lower-cased form is
/// `lower`, given the service-icon and country-flag indexes ((lower-case
/// stem, asset path) pairs).
pub fn icon_for_lowered_name(
    raw: &str,
    lower: &str,
    services: &Vec<(String, String)>,
    countries: &Vec<(String, String)>,
) -> (r: Option<String>)
    ensures
        match r {
            Some(p) => icon_for_lowered(raw@, lower@, index_view(services@), index_view(countries@)) == Some(p@),
            None => icon_for_lowered(raw@, lower@, index_view(services@), index_view(countries@)) is None,
        },
{
    let ghost sv = index_view(services@);
    let mut i: usize = 0;
    assert(sv.subrange(0, sv.len() as int) == sv);
    while i < services.len()
        invariant
            i <= services@.len(),
            sv == index_view(services@),
            stem_hit(sv, lower@) == stem_hit(sv.subrange(i as int, sv.len() as int), lower@),
        decreases services.len() - i,
    {
        let ghost rest = sv.subrange(i as int, sv.len() as int);
        assert(rest[0] == sv[i as int]);
        if text_contains(lower, services[i].0.as_str()) {
            return Some(services[i].1.clone());
        }
        assert(rest.drop_first() == sv.subrange(i + 1, sv.len() as int));
        i = i + 1;
    }
    let sa = service_aliases();
    match alias_lookup(&sa, raw, lower, services) {
        Some(p) => Some(p),
        None => {
            let ca = country_aliases();
            alias_lookup(&ca, raw, lower, countries)
        },
    }
}

/// Finds the icon asset for a group or node name, given the service-icon
/// and country-flag indexes ((lower-case stem, asset path) pairs).
pub fn service_icon_for_name(raw: &str, services: &Vec<(String, String)>, countries: &Vec<(String, String)>) -> (r: Option<String>)
    ensures
        match r {
            Some(p) => icon_for_name(raw@, index_view(services@), index_view(countries@)) == Some(p@),
            None => icon_for_name(raw@, index_view(services@), index_view(countries@)) is None,
        },
{
    let lower = to_lowercase(raw);
    icon_for_lowered_name(raw, lower.as_str(), services, countries)
}

/// The asset path of an icon file stem: `service-icons/<stem>.svg`, or
/// `service-icons/country/<stem>.svg` for a flag.
pub open spec fn icon_asset(stem: Seq<char>, country: bool) -> Seq<char> {
    (if country {
        "service-icons/country/"@
    } else {
        "service-icons/"@
    }) + stem + ".svg"@
}

/// The index entry of one file of an icons folder: files with the `svg`
/// extension, keyed by their lower-cased stem.
pub open spec fn index_entry(path: Seq<char>, is_file: bool, country: bool) -> Option<(Seq<char>, Seq<char>)> {
    entry_from_parts(
        is_file,
        std_path_extension(path),
        match std_path_file_stem(path) {
            Some(stem) => Some((stem, unicode_lower(stem))),
            None => None,
        },
        country,
    )
}

/// The index entry of a folder entry, given whether it is a file, its
/// extension, and its stem with the stem lower-cased: `(lower stem, asset)`
/// for an `.svg` file with a stem.
pub open spec fn entry_from_parts(
    is_file: bool,
    ext: Option<Seq<char>>,
    stem: Option<(Seq<char>, Seq<char>)>,
    country: bool,
) -> Option<(Seq<char>, Seq<char>)> {
    if is_file && ext == Some("svg"@) {
        match stem {
            Some((s, key)) => Some((key, icon_asset(s, country))),
            None => None,
        }
    } else {
        None
    }
}

/// Position of the entry with key `key`.
pub open spec fn index_pos(idx: Seq<(Seq<char>, Seq<char>)>, key: Seq<char>) -> Option<int>
    decreases idx.len(),
{
    if idx.len() == 0 {
        None
    } else if idx.last().0 == key {
        Some(idx.len() - 1)
    } else {
        index_pos(idx.drop_last(), key)
    }
}

/// Stores `value` under `key`, replacing an entry with that key in place
/// (as a map's insert does).
pub open spec fn index_insert(idx: Seq<(Seq<char>, Seq<char>)>, key: Seq<char>, value: Seq<char>) -> Seq<
    (Seq<char>, Seq<char>),
> {
    match index_pos(idx, key) {
        Some(i) => idx.update(i, (key, value)),
        None => idx.push((key, value)),
    }
}

/// The icon index of a folder listing ((path, is a file) pairs), later
/// files replacing earlier ones with the same key.
pub open spec fn build_index(files: Seq<(Seq<char>, bool)>, country: bool) -> Seq<(Seq<char>, Seq<char>)>
    decreases files.len(),
{
    if files.len() == 0 {
        Seq::empty()
    } else {
        let prev = build_index(files.drop_last(), country);
        match index_entry(files.last().0, files.last().1, country) {
            Some(e) => index_insert(prev, e.0, e.1),
            None => prev,
        }
    }
}

proof fn lemma_index_pos(idx: Seq<(Seq<char>, Seq<char>)>, key: Seq<char>)
    ensures
        index_pos(idx, key) matches Some(i) ==> 0 <= i < idx.len() && idx[i].0 == key,
        index_pos(idx, key) is None ==> forall|k: int| 0 <= k < idx.len() ==> idx[k].0 != key,
    decreases idx.len(),
{
    if idx.len() > 0 {
        lemma_index_pos(idx.drop_last(), key);
        if idx.last().0 != key {
            assert forall|k: int| 0 <= k < idx.len() - 1 implies idx[k] == idx.drop_last()[k] by {}
        }
    }
}

/// No two entries of an index share a key.
pub open spec fn keys_unique(idx: Seq<(Seq<char>, Seq<char>)>) -> bool {
    forall|i: int, j: int| 0 <= i < j < idx.len() ==> #[trigger] idx[i].0 != #[trigger] idx[j].0
}

/// The asset path of the last file of a listing whose key is `key`.
pub open spec fn last_entry_for(files: Seq<(Seq<char>, bool)>, country: bool, key: Seq<char>) -> Option<
    Seq<char>,
>
    decreases files.len(),
{
    if files.len() == 0 {
        None
    } else {
        match index_entry(files.last().0, files.last().1, country) {
            Some(e) if e.0 == key => Some(e.1),
            _ => last_entry_for(files.drop_last(), country, key),
        }
    }
}

proof fn lemma_get_at(idx: Seq<(Seq<char>, Seq<char>)>, key: Seq<char>, i: int)
    requires
        keys_unique(idx),
        0 <= i < idx.len(),
        idx[i].0 == key,
    ensures
        index_get(idx, key) == Some(idx[i].1),
    decreases idx.len(),
{
    if i > 0 {
        let t = idx.drop_first();
        assert(idx[0].0 != idx[i].0);
        assert forall|a: int, b: int| 0 <= a < b < t.len() implies #[trigger] t[a].0 != #[trigger] t[b].0 by {
            assert(t[a] == idx[a + 1] && t[b] == idx[b + 1]);
        }
        assert(t[i - 1] == idx[i]);
        lemma_get_at(t, key, i - 1);
    }
}

proof fn lemma_get_absent(idx: Seq<(Seq<char>, Seq<char>)>, key: Seq<char>)
    requires
        forall|i: int| 0 <= i < idx.len() ==> idx[i].0 != key,
    ensures
        index_get(idx, key) is None,
    decreases idx.len(),
{
    if idx.len() > 0 {
        let t = idx.drop_first();
        assert forall|i: int| 0 <= i < t.len() implies t[i].0 != key by {
            assert(t[i] == idx[i + 1]);
        }
        lemma_get_absent(t, key);
    }
}

/// Looking up a key right after storing it gives what was stored; other
/// keys are untouched; keys stay unique.
proof fn lemma_get_insert(idx: Seq<(Seq<char>, Seq<char>)>, k: Seq<char>, v: Seq<char>, key: Seq<char>)
    requires
        keys_unique(idx),
    ensures
        keys_unique(index_insert(idx, k, v)),
        index_get(index_insert(idx, k, v), key) == (if key == k {
            Some(v)
        } else {
            index_get(idx, key)
        }),
{
    lemma_index_pos(idx, k);
    let n = index_insert(idx, k, v);
    match index_pos(idx, k) {
        Some(p) => {
            assert(n == idx.update(p, (k, v)));
            assert forall|a: int, b: int| 0 <= a < b < n.len() implies #[trigger] n[a].0 != #[trigger] n[b].0 by {
                assert(n[a].0 == idx[a].0);
                assert(n[b].0 == idx[b].0);
            }
        },
        None => {
            assert(n == idx.push((k, v)));
            assert forall|a: int, b: int| 0 <= a < b < n.len() implies #[trigger] n[a].0 != #[trigger] n[b].0 by {
                if b == idx.len() {
                    assert(n[a] == idx[a]);
                } else {
                    assert(n[a] == idx[a] && n[b] == idx[b]);
                }
            }
        },
    }
    if key == k {
        match index_pos(idx, k) {
            Some(p) => lemma_get_at(n, key, p),
            None => lemma_get_at(n, key, idx.len() as int),
        }
    } else {
        if exists|i: int| 0 <= i < idx.len() && idx[i].0 == key {
            let i = choose|i: int| 0 <= i < idx.len() && idx[i].0 == key;
            lemma_get_at(idx, key, i);
            assert(n[i] == idx[i]);
            lemma_get_at(n, key, i);
        } else {
            lemma_get_absent(idx, key);
            assert forall|i: int| 0 <= i < n.len() implies n[i].0 != key by {
                if i < idx.len() {
                    assert(n[i].0 == idx[i].0);
                }
            }
            lemma_get_absent(n, key);
        }
    }
}

/// An icon index behaves as a map filled file by file: each key is stored
/// once, and it finds, for each key, the asset of the last file with that
/// key.
pub proof fn lemma_index_last_wins(files: Seq<(Seq<char>, bool)>, country: bool, key: Seq<char>)
    ensures
        keys_unique(build_index(files, country)),
        index_get(build_index(files, country), key) == last_entry_for(files, country, key),
    decreases files.len(),
{
    if files.len() == 0 {
    } else {
        lemma_index_last_wins(files.drop_last(), country, key);
        let prev = build_index(files.drop_last(), country);
        match index_entry(files.last().0, files.last().1, country) {
            Some(e) => {
                lemma_get_insert(prev, e.0, e.1, key);
            },
            None => {},
        }
    }
}

/// The view of a folder listing.
pub open spec fn listing_view(files: Seq<(String, bool)>) -> Seq<(Seq<char>, bool)> {
    files.map_values(|f: (String, bool)| (f.0@, f.1))
}

/// The index entry of a folder entry from its parts (see
/// `entry_from_parts`).
pub fn index_entry_from_parts(
    is_file: bool,
    ext: Option<&str>,
    stem: Option<(&str, &str)>,
    country: bool,
) -> (r: Option<(String, String)>)
    ensures
        match r {
            Some(e) => entry_from_parts(
                is_file,
                match ext {
                    Some(x) => Some(x@),
                    None => None,
                },
                match stem {
                    Some(p) => Some((p.0@, p.1@)),
                    None => None,
                },
                country,
            ) == Some((e.0@, e.1@)),
            None => entry_from_parts(
                is_file,
                match ext {
                    Some(x) => Some(x@),
                    None => None,
                },
                match stem {
                    Some(p) => Some((p.0@, p.1@)),
                    None => None,
                },
                country,
            ) is None,
        },
{
    if !is_file {
        return None;
    }
    match ext {
        Some(x) => {
            if !str_eq(x, "svg") {
                return None;
            }
        },
        None => {
            return None;
        },
    }
    match stem {
        Some((s, key)) => {
            let mut v = if country {
                chars_of("service-icons/country/")
            } else {
                chars_of("service-icons/")
            };
            push_str(&mut v, s);
            push_str(&mut v, ".svg");
            Some((crate::text::owned(key), string_of(v.as_slice())))
        },
        None => None,
    }
}

fn file_entry(path: &str, is_file: bool, country: bool) -> (r: Option<(String, String)>)
    ensures
        match r {
            Some(e) => index_entry(path@, is_file, country) == Some((e.0@, e.1@)),
            None => index_entry(path@, is_file, country) is None,
        },
{
    let ext = path_extension(path);
    let stem = path_file_stem(path);
    let ext_ref: Option<&str> = match &ext {
        Some(x) => Some(x.as_str()),
        None => None,
    };
    match &stem {
        Some(s) => {
            let key = to_lowercase(s.as_str());
            index_entry_from_parts(is_file, ext_ref, Some((s.as_str(), key.as_str())), country)
        },
        None => index_entry_from_parts(is_file, ext_ref, None, country),
    }
}

fn find_key(idx: &Vec<(String, String)>, key: &str) -> (r: Option<usize>)
    ensures
        match r {
            Some(k) => index_pos(index_view(idx@), key@) == Some(k as int),
            None => index_pos(index_view(idx@), key@) is None,
        },
{
    let ghost v = index_view(idx@);
    let mut j: usize = idx.len();
    assert(v.take(v.len() as int) == v);
    while j > 0
        invariant
            j <= idx@.len(),
            v == index_view(idx@),
            index_pos(v, key@) == index_pos(v.take(j as int), key@),
        decreases j,
    {
        assert(v.take(j as int).last() == v[j - 1]);
        assert(v.take(j as int).drop_last() == v.take(j - 1));
        if str_eq(idx[j - 1].0.as_str(), key) {
            return Some(j - 1);
        }
        j = j - 1;
    }
    None
}

/// Builds an icon index from a folder listing: for each file with the
/// `svg` extension, its lower-cased stem mapped to its asset path.
pub fn build_icon_index(files: &Vec<(String, bool)>, country: bool) -> (r: Vec<(String, String)>)
    ensures
        index_view(r@) == build_index(listing_view(files@), country),
{
    let mut idx: Vec<(String, String)> = Vec::new();
    let ghost lv = listing_view(files@);
    let mut i: usize = 0;
    while i < files.len()
        invariant
            i <= files@.len(),
            lv == listing_view(files@),
            index_view(idx@) == build_index(lv.take(i as int), country),
        decreases files.len() - i,
    {
        assert(lv.take(i + 1).drop_last() == lv.take(i as int));
        assert(lv.take(i + 1).last() == (files@[i as int].0@, files@[i as int].1));
        match file_entry(files[i].0.as_str(), files[i].1, country) {
            Some(e) => {
                let ghost before = index_view(idx@);
                proof {
                    lemma_index_pos(before, e.0@);
                }
                let found = find_key(&idx, e.0.as_str());
                match found {
                    Some(k) => {
                        let (key, value) = e;
                        idx.set(k, (key, value));
                        assert(index_view(idx@) =~= before.update(k as int, (e.0@, e.1@)));
                    },
                    None => {
                        let ghost ev = (e.0@, e.1@);
                        idx.push(e);
                        assert(index_view(idx@) =~= before.push(ev));
                    },
                }
            },
            None => {},
        }
        i = i + 1;
    }
    assert(lv.take(lv.len() as int) == lv);
    idx
}

} // verus!
