//! The order of strings, and sorted lists of strings.
use vstd::prelude::*;

use crate::text::chars_of;

verus! {

/// Whether `a` stands before `b` in the order of strings: at the first difference `a` has the
/// smaller character, or `a` ends there.
pub open spec fn text_before(a: Seq<char>, b: Seq<char>) -> bool
    decreases a.len(),
{
    if b.len() == 0 {
        false
    } else if a.len() == 0 {
        true
    } else if a[0] == b[0] {
        text_before(a.skip(1), b.skip(1))
    } else {
        a[0] < b[0]
    }
}

/// No string stands before itself.
pub proof fn law_before_irreflexive(a: Seq<char>)
    ensures
        !text_before(a, a),
    decreases a.len(),
{
    if a.len() > 0 {
        law_before_irreflexive(a.skip(1));
    }
}

/// Of two different strings one stands before the other.
pub proof fn law_before_total(a: Seq<char>, b: Seq<char>)
    requires
        a != b,
    ensures
        text_before(a, b) || text_before(b, a),
    decreases a.len(),
{
    if a.len() == 0 || b.len() == 0 {
        if a.len() == 0 && b.len() == 0 {
            assert(a =~= b);
        }
    } else if a[0] == b[0] {
        if a.skip(1) == b.skip(1) {
            assert(a =~= seq![a[0]] + a.skip(1));
            assert(b =~= seq![b[0]] + b.skip(1));
        }
        law_before_total(a.skip(1), b.skip(1));
    }
}

/// The order of strings is transitive.
pub proof fn law_before_transitive(a: Seq<char>, b: Seq<char>, c: Seq<char>)
    requires
        text_before(a, b),
        text_before(b, c),
    ensures
        text_before(a, c),
    decreases a.len(),
{
    if a.len() > 0 && b.len() > 0 && c.len() > 0 && a[0] == b[0] && b[0] == c[0] {
        law_before_transitive(a.skip(1), b.skip(1), c.skip(1));
    }
}

/// Whether `left` stands before `right` in the order of strings.
pub fn before(left: &str, right: &str) -> (r: bool)
    ensures
        r == text_before(left@, right@),
{
    let a = chars_of(left);
    let b = chars_of(right);
    let mut i: usize = 0;
    assert(a@.skip(0) =~= a@);
    assert(b@.skip(0) =~= b@);
    while i < a.len() && i < b.len() && a[i] == b[i]
        invariant
            i <= a@.len(),
            i <= b@.len(),
            text_before(a@, b@) == text_before(a@.skip(i as int), b@.skip(i as int)),
        decreases a@.len() - i,
    {
        assert(a@.skip(i as int).skip(1) =~= a@.skip(i + 1));
        assert(b@.skip(i as int).skip(1) =~= b@.skip(i + 1));
        i = i + 1;
    }
    if i == b.len() {
        false
    } else if i == a.len() {
        true
    } else {
        a[i] < b[i]
    }
}

/// Whether every string of `s` stands before the strings that follow it.
pub open spec fn strictly_sorted(s: Seq<Seq<char>>) -> bool {
    forall|i: int, j: int| 0 <= i < j < s.len() ==> text_before(#[trigger] s[i], #[trigger] s[j])
}

/// The strings of `items`, each once, in order.
pub fn sorted_unique(items: Vec<String>) -> (sorted: Vec<String>)
    ensures
        strictly_sorted(sorted.deep_view()),
        forall|x: Seq<char>|
            #[trigger] sorted.deep_view().contains(x) <==> items.deep_view().contains(x),
{
    let mut sorted: Vec<String> = Vec::new();
    let mut n: usize = 0;
    let ghost all = items.deep_view();
    while n < items.len()
        invariant
            n <= items@.len(),
            all == items.deep_view(),
            strictly_sorted(sorted.deep_view()),
            forall|x: Seq<char>|
                #[trigger] sorted.deep_view().contains(x) <==> all.take(n as int).contains(x),
        decreases items@.len() - n,
    {
        let item = items[n].clone();
        let ghost old_sorted = sorted.deep_view();
        // Everything in front of `at` stands before the item.
        let mut at: usize = 0;
        while at < sorted.len() && before(sorted[at].as_str(), item.as_str())
            invariant
                at <= sorted@.len(),
                forall|k: int| 0 <= k < at ==> text_before(#[trigger] sorted.deep_view()[k], item@),
            decreases sorted@.len() - at,
        {
            at = at + 1;
        }
        assert(all.take(n + 1) =~= all.take(n as int).push(item@));
        let present = at < sorted.len() && crate::text::same_text(
            sorted[at].as_str(),
            item.as_str(),
        );
        if present {
            assert(old_sorted[at as int] == item@);
            assert(old_sorted.contains(item@));
            assert forall|x: Seq<char>| #[trigger] sorted.deep_view().contains(x) <==> all.take(
                n + 1,
            ).contains(x) by {
                lemma_push_contains(all.take(n as int), item@, x);
            }
        } else {
            sorted.insert(at, item);
            let ghost now = sorted.deep_view();
            assert(now =~= old_sorted.insert(at as int, item@));
            proof {
                if at < old_sorted.len() {
                    law_before_total(item@, old_sorted[at as int]);
                    assert(text_before(item@, old_sorted[at as int]));
                }
                assert forall|i: int, j: int| 0 <= i < j < now.len() implies text_before(
                    #[trigger] now[i],
                    #[trigger] now[j],
                ) by {
                    if i == at {
                        assert(now[j] == old_sorted[j - 1]);
                        if j - 1 > at {
                            law_before_transitive(item@, old_sorted[at as int], old_sorted[j - 1]);
                        }
                    } else if j == at {
                        assert(now[i] == old_sorted[i]);
                    } else {
                        let a = if i < at { i } else { i - 1 };
                        let b = if j < at { j } else { j - 1 };
                        assert(now[i] == old_sorted[a]);
                        assert(now[j] == old_sorted[b]);
                    }
                }
                assert forall|x: Seq<char>| #[trigger] now.contains(x) <==> all.take(
                    n + 1,
                ).contains(x) by {
                    lemma_push_contains(all.take(n as int), item@, x);
                    lemma_insert_contains(old_sorted, at as int, item@, x);
                }
            }
        }
        n = n + 1;
    }
    assert(all.take(n as int) =~= all);
    sorted
}

/// Pushing adds exactly the pushed element.
pub proof fn lemma_push_contains<A>(s: Seq<A>, a: A, x: A)
    ensures
        s.push(a).contains(x) <==> s.contains(x) || x == a,
{
    if s.contains(x) {
        let i = choose|i: int| 0 <= i < s.len() && s[i] == x;
        assert(s.push(a)[i] == x);
    }
    if x == a {
        assert(s.push(a)[s.len() as int] == x);
    }
}

/// Inserting adds exactly the inserted element.
pub proof fn lemma_insert_contains<A>(s: Seq<A>, at: int, a: A, x: A)
    requires
        0 <= at <= s.len(),
    ensures
        s.insert(at, a).contains(x) <==> s.contains(x) || x == a,
{
    let t = s.insert(at, a);
    if s.contains(x) {
        let i = choose|i: int| 0 <= i < s.len() && s[i] == x;
        let j = if i < at { i } else { i + 1 };
        assert(t[j] == x);
    }
    if x == a {
        assert(t[at] == x);
    }
    if t.contains(x) {
        let j = choose|j: int| 0 <= j < t.len() && t[j] == x;
        if j != at {
            let i = if j < at { j } else { j - 1 };
            assert(s[i] == x);
        }
    }
}

/// There is one way only to put strings in order, each once.
pub proof fn law_order_is_unique(a: Seq<Seq<char>>, b: Seq<Seq<char>>)
    requires
        strictly_sorted(a),
        strictly_sorted(b),
        forall|x: Seq<char>| #[trigger] a.contains(x) <==> b.contains(x),
    ensures
        a == b,
    decreases a.len(),
{
    if a.len() == 0 {
        if b.len() > 0 {
            assert(b.contains(b[0]));
            assert(a.contains(b[0]));
        }
        assert(a =~= b);
    } else {
        assert(a.contains(a[0]));
        assert(b.contains(a[0]));
        assert(b.contains(b[0]));
        assert(a.contains(b[0]));
        let i = choose|i: int| 0 <= i < a.len() && a[i] == b[0];
        let j = choose|j: int| 0 <= j < b.len() && b[j] == a[0];
        if a[0] != b[0] {
            assert(text_before(a[0], a[i]));
            assert(text_before(b[0], b[j]));
            law_before_transitive(a[0], b[0], a[0]);
            law_before_irreflexive(a[0]);
        }
        let rest_a = a.skip(1);
        let rest_b = b.skip(1);
        assert forall|x: Seq<char>| #[trigger] rest_a.contains(x) <==> rest_b.contains(x) by {
            law_before_irreflexive(x);
            if rest_a.contains(x) {
                let k = choose|k: int| 0 <= k < rest_a.len() && rest_a[k] == x;
                assert(a[k + 1] == x);
                assert(a.contains(x));
                assert(b.contains(x));
                let m = choose|m: int| 0 <= m < b.len() && b[m] == x;
                assert(text_before(a[0], a[k + 1]));
                assert(rest_b[m - 1] == x);
            }
            if rest_b.contains(x) {
                let k = choose|k: int| 0 <= k < rest_b.len() && rest_b[k] == x;
                assert(b[k + 1] == x);
                assert(b.contains(x));
                assert(a.contains(x));
                let m = choose|m: int| 0 <= m < a.len() && a[m] == x;
                assert(text_before(b[0], b[k + 1]));
                assert(rest_a[m - 1] == x);
            }
        }
        law_order_is_unique(rest_a, rest_b);
        assert(a =~= seq![a[0]] + rest_a);
        assert(b =~= seq![b[0]] + rest_b);
    }
}

/// At the first difference the smaller character decides, and a string stands before what it is the
/// beginning of.
pub proof fn law_first_difference_decides(
    common: Seq<char>,
    x: char,
    a: Seq<char>,
    y: char,
    b: Seq<char>,
)
    ensures
        x != y ==> (text_before(common.push(x) + a, common.push(y) + b) <==> (x as int) < (
        y as int)),
        text_before(common, common.push(x) + a),
        !text_before(common.push(x) + a, common),
    decreases common.len(),
{
    let left = common.push(x) + a;
    let right = common.push(y) + b;
    if common.len() > 0 {
        let rest = common.skip(1);
        law_first_difference_decides(rest, x, a, y, b);
        assert(left.skip(1) =~= rest.push(x) + a);
        assert(right.skip(1) =~= rest.push(y) + b);
        assert(left[0] == common[0] && right[0] == common[0]);
    }
}

} // verus!
