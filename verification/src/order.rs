//! The lexicographic order of texts, and sorting by it.
use vstd::prelude::*;

use crate::text::chars_of;

verus! {

/// `a` does not come after `b`: texts are ordered by their first differing character, and a
/// text comes before its own extensions.
pub open spec fn not_after(a: Seq<char>, b: Seq<char>) -> bool
    decreases a.len(),
{
    if a.len() == 0 {
        true
    } else if b.len() == 0 {
        false
    } else if a[0] != b[0] {
        a[0] < b[0]
    } else {
        not_after(a.skip(1), b.skip(1))
    }
}

/// Each text does not come after the ones that follow it.
pub open spec fn in_order(texts: Seq<Seq<char>>) -> bool {
    forall|i: int, j: int|
        0 <= i < j < texts.len() ==> not_after(#[trigger] texts[i], #[trigger] texts[j])
}

/// Of two texts, one does not come after the other.
pub proof fn lemma_order_total(a: Seq<char>, b: Seq<char>)
    ensures
        not_after(a, b) || not_after(b, a),
    decreases a.len(),
{
    if a.len() > 0 && b.len() > 0 && a[0] == b[0] {
        lemma_order_total(a.skip(1), b.skip(1));
    }
}

/// The order is transitive.
pub proof fn lemma_order_transitive(a: Seq<char>, b: Seq<char>, c: Seq<char>)
    requires
        not_after(a, b),
        not_after(b, c),
    ensures
        not_after(a, c),
    decreases a.len(),
{
    if a.len() > 0 && b.len() > 0 && c.len() > 0 && a[0] == b[0] && b[0] == c[0] {
        lemma_order_transitive(a.skip(1), b.skip(1), c.skip(1));
    }
}

/// Whether `a` does not come after `b`.
pub fn is_not_after(a: &str, b: &str) -> (result: bool)
    ensures
        result == not_after(a@, b@),
{
    let x = chars_of(a);
    let y = chars_of(b);
    let mut i: usize = 0;
    assert(a@.skip(0) =~= a@);
    assert(b@.skip(0) =~= b@);
    while i < x.len() && i < y.len()
        invariant
            x@ == a@,
            y@ == b@,
            i <= x@.len(),
            i <= y@.len(),
            not_after(a@, b@) == not_after(a@.skip(i as int), b@.skip(i as int)),
        decreases x@.len() - i,
    {
        if x[i] != y[i] {
            return x[i] < y[i];
        }
        assert(a@.skip(i as int).skip(1) =~= a@.skip(i + 1));
        assert(b@.skip(i as int).skip(1) =~= b@.skip(i + 1));
        i += 1;
    }
    i == x.len()
}

/// Puts `text` into its place among `texts`.
fn insert_in_order(texts: &mut Vec<String>, text: String)
    requires
        in_order(old(texts).deep_view()),
    ensures
        in_order(final(texts).deep_view()),
        final(texts).deep_view().to_multiset() == old(texts).deep_view().to_multiset().insert(
            text@,
        ),
{
    let mut at: usize = 0;
    while at < texts.len() && is_not_after(texts[at].as_str(), text.as_str())
        invariant
            *texts == *old(texts),
            at <= texts@.len(),
            forall|j: int| 0 <= j < at ==> not_after(#[trigger] texts.deep_view()[j], text@),
        decreases texts@.len() - at,
    {
        at += 1;
    }
    let ghost before = texts.deep_view();
    let ghost added = text@;
    texts.insert(at, text);
    let ghost after = texts.deep_view();
    assert(after =~= before.insert(at as int, added));
    proof {
        vstd::seq_lib::to_multiset_insert(before, at as int, added);
        if at < before.len() {
            lemma_order_total(before[at as int], added);
        }
        assert forall|i: int, j: int| 0 <= i < j < after.len() implies not_after(
            #[trigger] after[i],
            #[trigger] after[j],
        ) by {
            if j == at {
                assert(after[i] == before[i]);
            } else if i == at {
                assert(after[j] == before[j - 1]);
                if j - 1 > at {
                    assert(not_after(before[at as int], before[j - 1]));
                    lemma_order_transitive(added, before[at as int], before[j - 1]);
                }
            } else {
                let (bi, bj) = (if i < at { i } else { i - 1 }, if j < at { j } else { j - 1 });
                assert(after[i] == before[bi] && after[j] == before[bj]);
            }
        }
    }
}

/// Sorts `texts`.
pub fn sorted(texts: &Vec<String>) -> (out: Vec<String>)
    ensures
        in_order(out.deep_view()),
        out.deep_view().to_multiset() == texts.deep_view().to_multiset(),
{
    let ghost views = texts.deep_view();
    let mut out: Vec<String> = Vec::new();
    assert(out.deep_view() =~= views.take(0));
    let mut i: usize = 0;
    while i < texts.len()
        invariant
            views == texts.deep_view(),
            i <= texts@.len(),
            in_order(out.deep_view()),
            out.deep_view().to_multiset() == views.take(i as int).to_multiset(),
        decreases texts@.len() - i,
    {
        let ghost taken = views.take(i as int);
        insert_in_order(&mut out, texts[i].clone());
        proof {
            assert(views.take(i + 1) =~= taken.push(views[i as int]));
            vstd::seq_lib::to_multiset_build(taken, views[i as int]);
        }
        i += 1;
    }
    assert(views.take(i as int) =~= views);
    out
}

/// Texts are ordered as in a dictionary: one does not come after another if and only if the
/// other begins with it, or it has the smaller character where the two first differ.
pub proof fn law_dictionary_order(a: Seq<char>, b: Seq<char>)
    ensures
        not_after(a, b) <==> {
            ||| a.len() <= b.len() && a == b.take(a.len() as int)
            ||| exists|i: int|
                #![trigger a[i]]
                0 <= i < a.len() && i < b.len() && a[i] < b[i] && a.take(i) == b.take(i)
        },
    decreases a.len(),
{
    if a.len() == 0 {
        assert(b.take(0) =~= a);
    } else if b.len() > 0 {
        let (x, y) = (a.skip(1), b.skip(1));
        law_dictionary_order(x, y);
        if a[0] != b[0] {
            assert(a.take(0) =~= b.take(0));
            if a.len() <= b.len() && a == b.take(a.len() as int) {
                assert(a[0] == b.take(a.len() as int)[0]);
            }
            if exists|i: int|
                #![trigger a[i]]
                0 <= i < a.len() && i < b.len() && a[i] < b[i] && a.take(i) == b.take(i) {
                let i = choose|i: int|
                    #![trigger a[i]]
                    0 <= i < a.len() && i < b.len() && a[i] < b[i] && a.take(i) == b.take(i);
                if i > 0 {
                    assert(a.take(i)[0] == b.take(i)[0]);
                }
            }
        } else {
            if x.len() <= y.len() && x == y.take(x.len() as int) {
                assert forall|j: int| 0 <= j < a.len() implies a[j] == b[j] by {
                    if j > 0 {
                        assert(x[j - 1] == y.take(x.len() as int)[j - 1]);
                    }
                }
                assert(a =~= b.take(a.len() as int));
            }
            if a.len() <= b.len() && a == b.take(a.len() as int) {
                assert forall|j: int| 0 <= j < x.len() implies x[j] == y[j] by {
                    assert(a[j + 1] == b.take(a.len() as int)[j + 1]);
                }
                assert(x =~= y.take(x.len() as int));
            }
            if exists|i: int|
                #![trigger x[i]]
                0 <= i < x.len() && i < y.len() && x[i] < y[i] && x.take(i) == y.take(i) {
                let i = choose|i: int|
                    #![trigger x[i]]
                    0 <= i < x.len() && i < y.len() && x[i] < y[i] && x.take(i) == y.take(i);
                assert(a[i + 1] < b[i + 1]);
                assert forall|j: int| 0 <= j < i + 1 implies a[j] == b[j] by {
                    if j > 0 {
                        assert(x.take(i)[j - 1] == y.take(i)[j - 1]);
                    }
                }
                assert(a.take(i + 1) =~= b.take(i + 1));
            }
            if exists|i: int|
                #![trigger a[i]]
                0 <= i < a.len() && i < b.len() && a[i] < b[i] && a.take(i) == b.take(i) {
                let i = choose|i: int|
                    #![trigger a[i]]
                    0 <= i < a.len() && i < b.len() && a[i] < b[i] && a.take(i) == b.take(i);
                assert(i > 0);
                assert(x[i - 1] < y[i - 1]);
                assert forall|j: int| 0 <= j < i - 1 implies x[j] == y[j] by {
                    assert(a.take(i)[j + 1] == b.take(i)[j + 1]);
                }
                assert(x.take(i - 1) =~= y.take(i - 1));
            }
        }
    }
}

} // verus!
