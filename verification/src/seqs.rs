//! Small facts about sequences: membership and repetition under `push` and
//! concatenation.

use vstd::prelude::*;

verus! {

/// What a sequence holds after a push: what it held, and the new element.
pub proof fn lemma_push_contains<T>(s: Seq<T>, a: T)
    ensures
        forall|x: T| #[trigger] s.push(a).contains(x) <==> s.contains(x) || x == a,
{
    let t = s.push(a);
    assert forall|x: T| #[trigger] t.contains(x) <==> s.contains(x) || x == a by {
        if t.contains(x) {
            let i = choose|i: int| 0 <= i < t.len() && t[i] == x;
            if i < s.len() {
                assert(s[i] == x);
            }
        }
        if s.contains(x) {
            let i = choose|i: int| 0 <= i < s.len() && s[i] == x;
            assert(t[i] == x);
        }
        if x == a {
            assert(t[s.len() as int] == x);
        }
    }
}

/// Pushing an element that is not yet there keeps a sequence free of
/// repetitions.
pub proof fn lemma_push_no_duplicates<T>(s: Seq<T>, a: T)
    requires
        s.no_duplicates(),
        !s.contains(a),
    ensures
        s.push(a).no_duplicates(),
{
    let t = s.push(a);
    assert forall|i: int, j: int| 0 <= i < t.len() && 0 <= j < t.len() && i != j implies t[i]
        != t[j] by {
        if i < s.len() && j < s.len() {
        } else if i < s.len() {
            assert(s[i] == t[i]);
        } else {
            assert(s[j] == t[j]);
        }
    }
}

/// What a concatenation holds: what either part holds.
pub proof fn lemma_concat_contains<T>(a: Seq<T>, b: Seq<T>)
    ensures
        forall|x: T| #[trigger] (a + b).contains(x) <==> a.contains(x) || b.contains(x),
{
    let t = a + b;
    assert forall|x: T| #[trigger] t.contains(x) <==> a.contains(x) || b.contains(x) by {
        if t.contains(x) {
            let i = choose|i: int| 0 <= i < t.len() && t[i] == x;
            if i < a.len() {
                assert(a[i] == x);
            } else {
                assert(b[i - a.len()] == x);
            }
        }
        if a.contains(x) {
            let i = choose|i: int| 0 <= i < a.len() && a[i] == x;
            assert(t[i] == x);
        }
        if b.contains(x) {
            let i = choose|i: int| 0 <= i < b.len() && b[i] == x;
            assert(t[a.len() + i] == x);
        }
    }
}

/// Two sequences without repetitions and without a common element make a
/// concatenation without repetitions.
pub proof fn lemma_concat_no_duplicates<T>(a: Seq<T>, b: Seq<T>)
    requires
        a.no_duplicates(),
        b.no_duplicates(),
        forall|x: T| a.contains(x) ==> !b.contains(x),
    ensures
        (a + b).no_duplicates(),
{
    let t = a + b;
    assert forall|i: int, j: int| 0 <= i < t.len() && 0 <= j < t.len() && i != j implies t[i]
        != t[j] by {
        if i < a.len() && j >= a.len() {
            assert(a.contains(a[i]));
            assert(b.contains(b[j - a.len()]));
        } else if j < a.len() && i >= a.len() {
            assert(a.contains(a[j]));
            assert(b.contains(b[i - a.len()]));
        }
    }
}

/// What a filtered sequence holds: the elements that pass the filter. A
/// sequence without repetitions stays so.
pub proof fn lemma_filter_facts<T>(s: Seq<T>, pred: spec_fn(T) -> bool)
    ensures
        forall|x: T| #[trigger] s.filter(pred).contains(x) <==> s.contains(x) && pred(x),
        s.no_duplicates() ==> s.filter(pred).no_duplicates(),
    decreases s.len(),
{
    reveal(Seq::filter);
    if s.len() == 0 {
        assert forall|x: T| #[trigger] s.filter(pred).contains(x) <==> s.contains(x) && pred(
            x,
        ) by {}
    } else {
        let init = s.drop_last();
        let a = s.last();
        lemma_filter_facts(init, pred);
        assert(init.push(a) =~= s);
        lemma_push_contains(init, a);
        if pred(a) {
            lemma_push_contains(init.filter(pred), a);
        }
        if s.no_duplicates() {
            assert(init.no_duplicates()) by {
                assert forall|i: int, j: int|
                    0 <= i < init.len() && 0 <= j < init.len() && i != j implies init[i]
                    != init[j] by {
                    assert(init[i] == s[i] && init[j] == s[j]);
                }
            }
            assert(!init.contains(a)) by {
                if init.contains(a) {
                    let i = choose|i: int| 0 <= i < init.len() && init[i] == a;
                    assert(s[i] == s[s.len() - 1]);
                }
            }
            if pred(a) {
                lemma_push_no_duplicates(init.filter(pred), a);
            }
        }
    }
}

} // verus!
