//! Lexicographic order of texts (by code point, which for UTF-8 strings is
//! the order `String` compares them in) and a stable sort by name.

use vstd::prelude::*;

verus! {

broadcast use vstd::seq_lib::group_to_multiset_ensures;

/// `a` comes strictly before `b`.
pub open spec fn lex_lt(a: Seq<char>, b: Seq<char>) -> bool
    decreases a.len(),
{
    if b.len() == 0 {
        false
    } else if a.len() == 0 {
        true
    } else if a[0] != b[0] {
        a[0] < b[0]
    } else {
        lex_lt(a.drop_first(), b.drop_first())
    }
}

/// `a` comes before `b` or equals it.
pub open spec fn lex_le(a: Seq<char>, b: Seq<char>) -> bool {
    lex_lt(a, b) || a == b
}

pub proof fn lemma_lex_irreflexive(a: Seq<char>)
    ensures
        !lex_lt(a, a),
    decreases a.len(),
{
    if a.len() > 0 {
        lemma_lex_irreflexive(a.drop_first());
    }
}

pub proof fn lemma_lex_transitive(a: Seq<char>, b: Seq<char>, c: Seq<char>)
    requires
        lex_lt(a, b),
        lex_lt(b, c),
    ensures
        lex_lt(a, c),
    decreases a.len(),
{
    if a.len() > 0 && b.len() > 0 && c.len() > 0 {
        if a[0] == b[0] && b[0] == c[0] {
            lemma_lex_transitive(a.drop_first(), b.drop_first(), c.drop_first());
        }
    }
}

pub proof fn lemma_lex_total(a: Seq<char>, b: Seq<char>)
    ensures
        lex_lt(a, b) || lex_lt(b, a) || a == b,
    decreases a.len(),
{
    if a.len() > 0 && b.len() > 0 {
        if a[0] == b[0] {
            lemma_lex_total(a.drop_first(), b.drop_first());
            if a.drop_first() == b.drop_first() {
                assert(a =~= seq![a[0]] + a.drop_first());
                assert(b =~= seq![b[0]] + b.drop_first());
            }
        }
    } else if a.len() == 0 && b.len() == 0 {
        assert(a =~= b);
    }
}

/// Strict comparison of two texts.
pub fn lex_less(a: &str, b: &str) -> (r: bool)
    ensures
        r == lex_lt(a@, b@),
{
    let x = crate::text::chars_of(a);
    let y = crate::text::chars_of(b);
    let mut i: usize = 0;
    assert(x@.subrange(0, x@.len() as int) == x@);
    assert(y@.subrange(0, y@.len() as int) == y@);
    while i < x.len() && i < y.len() && x[i] == y[i]
        invariant
            i <= x@.len(),
            i <= y@.len(),
            x@ == a@,
            y@ == b@,
            lex_lt(a@, b@) == lex_lt(x@.subrange(i as int, x@.len() as int), y@.subrange(i as int, y@.len() as int)),
        decreases x.len() - i,
    {
        let ghost xs = x@.subrange(i as int, x@.len() as int);
        let ghost ys = y@.subrange(i as int, y@.len() as int);
        assert(xs.drop_first() == x@.subrange(i + 1, x@.len() as int));
        assert(ys.drop_first() == y@.subrange(i + 1, y@.len() as int));
        i = i + 1;
    }
    if i == y.len() {
        false
    } else if i == x.len() {
        true
    } else {
        x[i] < y[i]
    }
}

/// Something ordered by a name.
pub trait Named {
    spec fn name_view(&self) -> Seq<char>;

    fn name_str(&self) -> (r: &str)
        ensures
            r@ == self.name_view();
}

impl Named for String {
    open spec fn name_view(&self) -> Seq<char> {
        self@
    }

    fn name_str(&self) -> (r: &str) {
        self.as_str()
    }
}

/// Names in non-decreasing order.
pub open spec fn sorted_by_name<T: Named>(s: Seq<T>) -> bool {
    forall|i: int, j: int| 0 <= i < j < s.len() ==> lex_le(#[trigger] s[i].name_view(), #[trigger] s[j].name_view())
}

/// Sorts by name.
pub fn sort_by_name<T: Named>(items: Vec<T>) -> (r: Vec<T>)
    ensures
        sorted_by_name(r@),
        r@.to_multiset() == items@.to_multiset(),
        r@.len() == items@.len(),
{
    let ghost orig = items@;
    let mut rest = items;
    let mut out: Vec<T> = Vec::new();
    assert(rest@ == orig.subrange(0, orig.len() as int));
    while rest.len() > 0
        invariant
            sorted_by_name(out@),
            out@.to_multiset().add(rest@.to_multiset()) == orig.to_multiset(),
            out@.len() + rest@.len() == orig.len(),
        decreases rest@.len(),
    {
        let ghost before_rest = rest@;
        let x = rest.remove(0);
        proof {
            assert(before_rest.remove(0) == rest@);
            assert(before_rest.remove(0).to_multiset() == before_rest.to_multiset().remove(before_rest[0]));
        }
        // position after every name not greater than x's
        let mut j: usize = 0;
        while j < out.len() && !lex_less(x.name_str(), out[j].name_str())
            invariant
                j <= out@.len(),
                forall|k: int| 0 <= k < j ==> lex_le(#[trigger] out@[k].name_view(), x.name_view()),
            decreases out.len() - j,
        {
            proof {
                lemma_lex_total(x.name_view(), out@[j as int].name_view());
            }
            j = j + 1;
        }
        let ghost before_out = out@;
        proof {
            if j < out@.len() {
                // x < out[j] <= out[k] for all k >= j
                assert forall|k: int| j <= k < out@.len() implies lex_lt(x.name_view(), #[trigger] out@[k].name_view()) by {
                    if k > j {
                        assert(lex_le(out@[j as int].name_view(), out@[k].name_view()));
                        if lex_lt(out@[j as int].name_view(), out@[k].name_view()) {
                            lemma_lex_transitive(x.name_view(), out@[j as int].name_view(), out@[k].name_view());
                        }
                    }
                }
            }
        }
        out.insert(j, x);
        proof {
            let xv = out@[j as int];
            assert(out@.remove(j as int) == before_out);
            assert(out@.remove(j as int).to_multiset() == out@.to_multiset().remove(xv));
            assert(out@.to_multiset().count(xv) > 0) by {
                assert(out@.contains(xv)) by {
                    assert(out@[j as int] == xv);
                }
            }
            assert(out@.to_multiset() == before_out.to_multiset().insert(xv));
            assert(before_rest[0] == xv);
            assert forall|a: int, b: int| 0 <= a < b < out@.len() implies lex_le(
                #[trigger] out@[a].name_view(),
                #[trigger] out@[b].name_view(),
            ) by {
                if b < j {
                    assert(out@[a] == before_out[a] && out@[b] == before_out[b]);
                } else if b == j {
                    assert(out@[a] == before_out[a]);
                } else if a == j {
                    assert(out@[b] == before_out[b - 1]);
                } else if a < j {
                    assert(out@[a] == before_out[a] && out@[b] == before_out[b - 1]);
                    assert(lex_le(before_out[a].name_view(), xv.name_view()));
                    assert(lex_lt(xv.name_view(), before_out[b - 1].name_view()));
                    if lex_lt(before_out[a].name_view(), xv.name_view()) {
                        lemma_lex_transitive(before_out[a].name_view(), xv.name_view(), before_out[b - 1].name_view());
                    }
                } else {
                    assert(out@[a] == before_out[a - 1] && out@[b] == before_out[b - 1]);
                }
            }
        }
    }
    out
}

} // verus!
