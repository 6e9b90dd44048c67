//! Lexicographic order on sequences, and the facts that make it a strict
//! total order when the order on elements is one.
use vstd::prelude::*;

verus! {

pub open spec fn agree_upto<T>(a: Seq<T>, b: Seq<T>, i: int) -> bool {
    forall|j: int| 0 <= j < i ==> a[j] == b[j]
}

/// `a` and `b` agree before `i`, and at `i` either `a` ends while `b` goes
/// on, or `a`'s element is the smaller.
pub open spec fn diverges_at<T>(a: Seq<T>, b: Seq<T>, lt: spec_fn(T, T) -> bool, i: int) -> bool {
    &&& 0 <= i <= a.len()
    &&& i <= b.len()
    &&& agree_upto(a, b, i)
    &&& (i == a.len() && i < b.len()) || (i < a.len() && i < b.len() && lt(a[i], b[i]))
}

/// Lexicographic order built on `lt`.
pub open spec fn seq_lt<T>(a: Seq<T>, b: Seq<T>, lt: spec_fn(T, T) -> bool) -> bool {
    exists|i: int| #[trigger] diverges_at(a, b, lt, i)
}

pub open spec fn strict_total_order<T>(lt: spec_fn(T, T) -> bool) -> bool {
    &&& forall|a: T| !#[trigger] lt(a, a)
    &&& forall|a: T, b: T, c: T| #[trigger] lt(a, b) && #[trigger] lt(b, c) ==> lt(a, c)
    &&& forall|a: T, b: T| a != b ==> #[trigger] lt(a, b) || #[trigger] lt(b, a)
}

pub open spec fn lex<T>(lt: spec_fn(T, T) -> bool) -> spec_fn(Seq<T>, Seq<T>) -> bool {
    |a: Seq<T>, b: Seq<T>| seq_lt(a, b, lt)
}

proof fn lemma_lex_total_from<T>(a: Seq<T>, b: Seq<T>, lt: spec_fn(T, T) -> bool, i: int)
    requires
        strict_total_order(lt),
        a != b,
        0 <= i <= a.len(),
        i <= b.len(),
        agree_upto(a, b, i),
    ensures
        seq_lt(a, b, lt) || seq_lt(b, a, lt),
    decreases a.len() - i,
{
    if i == a.len() && i == b.len() {
        assert(a =~= b);
    } else if i == a.len() {
        assert(diverges_at(a, b, lt, i));
    } else if i == b.len() {
        assert(diverges_at(b, a, lt, i));
    } else if a[i] == b[i] {
        lemma_lex_total_from(a, b, lt, i + 1);
    } else if lt(a[i], b[i]) {
        assert(diverges_at(a, b, lt, i));
    } else {
        assert(lt(b[i], a[i]));
        assert(diverges_at(b, a, lt, i));
    }
}

/// The lexicographic order on a strict total order is one too.
pub proof fn lemma_lex_strict_total<T>(lt: spec_fn(T, T) -> bool)
    requires
        strict_total_order(lt),
    ensures
        strict_total_order(lex(lt)),
{
    let l = lex(lt);
    assert forall|a: Seq<T>| !#[trigger] l(a, a) by {
        if seq_lt(a, a, lt) {
            let i = choose|i: int| #[trigger] diverges_at(a, a, lt, i);
        }
    }
    assert forall|a: Seq<T>, b: Seq<T>, c: Seq<T>| #[trigger] l(a, b) && #[trigger] l(b, c) implies l(a, c) by {
        let i = choose|i: int| #[trigger] diverges_at(a, b, lt, i);
        let k = choose|k: int| #[trigger] diverges_at(b, c, lt, k);
        if i < k {
            assert(diverges_at(a, c, lt, i));
        } else if k < i {
            assert(a[k] == b[k]);
            assert(diverges_at(a, c, lt, k));
        } else {
            if i < a.len() {
                assert(lt(a[i], c[i]));
            }
            assert(diverges_at(a, c, lt, i));
        }
    }
    assert forall|a: Seq<T>, b: Seq<T>| a != b implies #[trigger] l(a, b) || #[trigger] l(b, a) by {
        lemma_lex_total_from(a, b, lt, 0);
    }
}

/// Every element is below every later one.
pub open spec fn strictly_sorted<T>(s: Seq<T>, lt: spec_fn(T, T) -> bool) -> bool {
    forall|a: int, b: int| 0 <= a < b < s.len() ==> lt(#[trigger] s[a], #[trigger] s[b])
}

/// Two strictly sorted sequences with the same elements are equal.
pub proof fn lemma_sorted_unique<T>(s: Seq<T>, t: Seq<T>, lt: spec_fn(T, T) -> bool)
    requires
        strict_total_order(lt),
        strictly_sorted(s, lt),
        strictly_sorted(t, lt),
        s.to_set() == t.to_set(),
    ensures
        s == t,
    decreases s.len(),
{
    if s.len() == 0 {
        if t.len() > 0 {
            assert(t.to_set().contains(t[0]));
        }
        assert(t =~= s);
    } else if t.len() == 0 {
        assert(s.to_set().contains(s[0]));
    } else {
        // the first elements are the least of the common set
        assert(t.to_set().contains(s[0]));
        assert(s.to_set().contains(t[0]));
        let a = choose|a: int| 0 <= a < t.len() && t[a] == s[0];
        let b = choose|b: int| 0 <= b < s.len() && s[b] == t[0];
        if s[0] != t[0] {
            if lt(s[0], t[0]) {
                if a > 0 {
                    assert(lt(t[0], t[a]));
                }
            } else {
                assert(lt(t[0], s[0]));
                if b > 0 {
                    assert(lt(s[0], s[b]));
                }
            }
        }
        let s1 = s.drop_first();
        let t1 = t.drop_first();
        assert forall|x: T| s1.to_set().contains(x) <==> t1.to_set().contains(x) by {
            if s1.to_set().contains(x) {
                let i = choose|i: int| 0 <= i < s1.len() && s1[i] == x;
                assert(s[i + 1] == x);
                assert(lt(s[0], s[i + 1]));
                assert(t.to_set().contains(x));
                let j = choose|j: int| 0 <= j < t.len() && t[j] == x;
                if j == 0 {
                    assert(lt(x, x));
                }
                assert(t1[j - 1] == x);
            }
            if t1.to_set().contains(x) {
                let i = choose|i: int| 0 <= i < t1.len() && t1[i] == x;
                assert(t[i + 1] == x);
                assert(lt(t[0], t[i + 1]));
                assert(s.to_set().contains(x));
                let j = choose|j: int| 0 <= j < s.len() && s[j] == x;
                if j == 0 {
                    assert(lt(x, x));
                }
                assert(s1[j - 1] == x);
            }
        }
        assert(s1.to_set() =~= t1.to_set());
        assert forall|a: int, b: int| 0 <= a < b < s1.len() implies lt(#[trigger] s1[a], #[trigger] s1[b]) by {
            assert(s1[a] == s[a + 1] && s1[b] == s[b + 1]);
        }
        assert forall|a: int, b: int| 0 <= a < b < t1.len() implies lt(#[trigger] t1[a], #[trigger] t1[b]) by {
            assert(t1[a] == t[a + 1] && t1[b] == t[b + 1]);
        }
        lemma_sorted_unique(s1, t1, lt);
        assert(s =~= seq![s[0]] + s1);
        assert(t =~= seq![t[0]] + t1);
    }
}

} // verus!
