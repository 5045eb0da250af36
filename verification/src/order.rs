//! The order of `String`s (code point by code point, as their UTF-8 bytes
//! compare) and sorted, duplicate-free sequences of texts.

use vstd::prelude::*;

verus! {

/// `a` sorts strictly before `b`: lexicographic by code point, a proper
/// prefix first.
pub open spec fn text_lt(a: Seq<char>, b: Seq<char>) -> bool
    decreases a.len(),
{
    if a.len() == 0 {
        b.len() > 0
    } else if b.len() == 0 {
        false
    } else if a[0] != b[0] {
        (a[0] as u32) < (b[0] as u32)
    } else {
        text_lt(a.drop_first(), b.drop_first())
    }
}

pub proof fn lemma_text_lt_irreflexive(a: Seq<char>)
    ensures
        !text_lt(a, a),
    decreases a.len(),
{
    if a.len() > 0 {
        lemma_text_lt_irreflexive(a.drop_first());
    }
}

pub proof fn lemma_text_lt_asymmetric(a: Seq<char>, b: Seq<char>)
    ensures
        text_lt(a, b) ==> !text_lt(b, a),
    decreases a.len(),
{
    if a.len() > 0 && b.len() > 0 && a[0] == b[0] {
        lemma_text_lt_asymmetric(a.drop_first(), b.drop_first());
    }
}

pub proof fn lemma_text_lt_transitive(a: Seq<char>, b: Seq<char>, c: Seq<char>)
    ensures
        text_lt(a, b) && text_lt(b, c) ==> text_lt(a, c),
    decreases a.len(),
{
    if a.len() > 0 && b.len() > 0 && c.len() > 0 && a[0] == b[0] && b[0] == c[0] {
        lemma_text_lt_transitive(a.drop_first(), b.drop_first(), c.drop_first());
    }
}

pub proof fn lemma_text_lt_total(a: Seq<char>, b: Seq<char>)
    ensures
        a != b ==> text_lt(a, b) || text_lt(b, a),
    decreases a.len(),
{
    if a.len() == 0 {
        if b.len() == 0 {
            assert(a == b);
        }
    } else if b.len() > 0 {
        if a[0] == b[0] {
            lemma_text_lt_total(a.drop_first(), b.drop_first());
            if a.drop_first() == b.drop_first() {
                assert(a == seq![a[0]] + a.drop_first());
                assert(b == seq![b[0]] + b.drop_first());
            }
        } else {
            vstd::utf8::char_u32_cast(a[0], a[0] as u32);
            vstd::utf8::char_u32_cast(b[0], b[0] as u32);
        }
    }
}

/// Each element sorts strictly before every later one.
pub open spec fn sorted_strict(ns: Seq<Seq<char>>) -> bool {
    forall|i: int, j: int| 0 <= i < j < ns.len() ==> text_lt(ns[i], ns[j])
}

/// Two strictly sorted sequences with the same elements are the same.
pub proof fn lemma_sorted_unique(a: Seq<Seq<char>>, b: Seq<Seq<char>>)
    requires
        sorted_strict(a),
        sorted_strict(b),
        a.to_set() == b.to_set(),
    ensures
        a == b,
    decreases a.len(),
{
    if a.len() == 0 {
        if b.len() > 0 {
            assert(b.to_set().contains(b[0]));
        }
    } else if b.len() == 0 {
        assert(a.to_set().contains(a[0]));
    } else {
        // The first elements are the least of the common set.
        assert(a.to_set().contains(a[0]));
        assert(b.to_set().contains(a[0]));
        let k = choose|k: int| 0 <= k < b.len() && b[k] == a[0];
        assert(b.to_set().contains(b[0]));
        assert(a.to_set().contains(b[0]));
        let m = choose|m: int| 0 <= m < a.len() && a[m] == b[0];
        if a[0] != b[0] {
            assert(k > 0 && m > 0);
            assert(text_lt(b[0], b[k]));
            assert(text_lt(a[0], a[m]));
            lemma_text_lt_asymmetric(a[0], b[0]);
            assert(false);
        }
        let a1 = a.drop_first();
        let b1 = b.drop_first();
        assert forall|x: Seq<char>| a1.to_set().contains(x) implies b1.to_set().contains(x) by {
            let i = choose|i: int| 0 <= i < a1.len() && a1[i] == x;
            assert(a.to_set().contains(x));
            let j = choose|j: int| 0 <= j < b.len() && b[j] == x;
            assert(text_lt(a[0], a[i + 1]));
            if j == 0 {
                lemma_text_lt_irreflexive(x);
            }
            assert(b1[j - 1] == x);
        }
        assert forall|x: Seq<char>| b1.to_set().contains(x) implies a1.to_set().contains(x) by {
            let i = choose|i: int| 0 <= i < b1.len() && b1[i] == x;
            assert(b.to_set().contains(x));
            let j = choose|j: int| 0 <= j < a.len() && a[j] == x;
            assert(text_lt(b[0], b[i + 1]));
            if j == 0 {
                lemma_text_lt_irreflexive(x);
            }
            assert(a1[j - 1] == x);
        }
        assert(a1.to_set() == b1.to_set());
        lemma_sorted_unique(a1, b1);
        assert(a == seq![a[0]] + a1);
        assert(b == seq![b[0]] + b1);
    }
}

/// Whether `a` sorts strictly before `b`.
pub fn chars_lt(a: &Vec<char>, b: &Vec<char>) -> (r: bool)
    ensures
        r == text_lt(a@, b@),
{
    let mut i: usize = 0;
    assert(a@.skip(0) == a@ && b@.skip(0) == b@);
    while i < a.len() && i < b.len() && a[i] == b[i]
        invariant
            i <= a.len(),
            i <= b.len(),
            text_lt(a@, b@) == text_lt(a@.skip(i as int), b@.skip(i as int)),
        decreases a.len() - i,
    {
        proof {
            let sa = a@.skip(i as int);
            let sb = b@.skip(i as int);
            assert(sa.drop_first() == a@.skip(i + 1));
            assert(sb.drop_first() == b@.skip(i + 1));
        }
        i += 1;
    }
    if i == a.len() {
        i < b.len()
    } else if i == b.len() {
        false
    } else {
        (a[i] as u32) < (b[i] as u32)
    }
}

/// Whether `a` and `b` hold the same characters.
pub fn chars_eq(a: &Vec<char>, b: &Vec<char>) -> (r: bool)
    ensures
        r == (a@ == b@),
{
    if a.len() != b.len() {
        return false;
    }
    let mut i: usize = 0;
    while i < a.len()
        invariant
            i <= a.len(),
            a.len() == b.len(),
            forall|j: int| 0 <= j < i ==> a@[j] == b@[j],
        decreases a.len() - i,
    {
        if a[i] != b[i] {
            return false;
        }
        i += 1;
    }
    assert(a@ == b@);
    true
}

/// The character sequences held by a list of character vectors.
pub open spec fn char_views(v: Seq<Vec<char>>) -> Seq<Seq<char>> {
    v.map_values(|x: Vec<char>| x@)
}

/// Adds `x` to the strictly sorted `names` unless it is already there,
/// keeping them strictly sorted.
pub fn insert_sorted(names: &mut Vec<Vec<char>>, x: Vec<char>)
    requires
        sorted_strict(char_views(old(names)@)),
    ensures
        sorted_strict(char_views(final(names)@)),
        char_views(final(names)@).to_set() == char_views(old(names)@).to_set().insert(x@),
{
    let ghost old_ns = char_views(names@);
    let mut i: usize = 0;
    while i < names.len() && chars_lt(&names[i], &x)
        invariant
            i <= names.len(),
            char_views(names@) == old_ns,
            forall|j: int| 0 <= j < i ==> text_lt(old_ns[j], x@),
        decreases names.len() - i,
    {
        i += 1;
    }
    if i < names.len() && chars_eq(&names[i], &x) {
        assert(old_ns.to_set().insert(x@) =~= old_ns.to_set()) by {
            assert(old_ns[i as int] == x@);
        }
        return;
    }
    let ghost xv = x@;
    names.insert(i, x);
    proof {
        let ns = char_views(names@);
        assert(ns =~= old_ns.take(i as int).push(xv) + old_ns.skip(i as int));
        if i < old_ns.len() {
            lemma_text_lt_total(old_ns[i as int], xv);
        }
        assert forall|a: int, b: int| 0 <= a < b < ns.len() implies text_lt(ns[a], ns[b]) by {
            if a < i && b > i {
                lemma_text_lt_transitive(ns[a], xv, ns[b]);
                if b > i + 1 {
                    lemma_text_lt_transitive(xv, old_ns[i as int], ns[b]);
                }
            } else if a == i && b > i + 1 {
                lemma_text_lt_transitive(xv, old_ns[i as int], ns[b]);
            }
        }
        assert forall|y: Seq<char>| ns.to_set().contains(y) <==> old_ns.to_set().insert(xv).contains(y) by {
            if ns.to_set().contains(y) {
                let k = choose|k: int| 0 <= k < ns.len() && ns[k] == y;
                if k < i {
                    assert(old_ns[k] == y);
                } else if k > i {
                    assert(old_ns[k - 1] == y);
                }
            }
            if old_ns.to_set().contains(y) {
                let k = choose|k: int| 0 <= k < old_ns.len() && old_ns[k] == y;
                if k < i {
                    assert(ns[k] == y);
                } else {
                    assert(ns[k + 1] == y);
                }
            }
            if y == xv {
                assert(ns[i as int] == y);
            }
        }
        assert(ns.to_set() =~= old_ns.to_set().insert(xv));
    }
}

} // verus!
