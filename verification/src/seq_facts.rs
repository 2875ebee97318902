use vstd::prelude::*;

verus! {

/// In a sequence without duplicates, an element is found where it stands.
pub proof fn lemma_unique_index<A>(s: Seq<A>, i: int)
    requires
        s.no_duplicates(),
        0 <= i < s.len(),
    ensures
        s.contains(s[i]),
        s.index_of(s[i]) == i,
{
    let j = s.index_of(s[i]);
    assert(0 <= j < s.len() && s[j] == s[i]);
}

/// An element that a sequence holds stands at the place `index_of` names.
pub proof fn lemma_index_of_holds<A>(s: Seq<A>, a: A)
    requires
        s.contains(a),
    ensures
        0 <= s.index_of(a) < s.len(),
        s[s.index_of(a)] == a,
{
}

/// Appending an element that is absent keeps a sequence free of duplicates
/// and every other element at its place.
pub proof fn lemma_unique_push<A>(s: Seq<A>, a: A)
    requires
        s.no_duplicates(),
        !s.contains(a),
    ensures
        s.push(a).no_duplicates(),
        forall|x: A| #[trigger] s.push(a).contains(x) <==> (s.contains(x) || x == a),
        s.push(a).index_of(a) == s.len(),
        forall|x: A| s.contains(x) ==> #[trigger] s.push(a).index_of(x) == s.index_of(x),
{
    let t = s.push(a);
    assert forall|i: int, j: int| 0 <= i < t.len() && 0 <= j < t.len() && i != j implies t[i]
        != t[j] by {
        if i < s.len() {
            assert(s[i] == t[i]);
        }
        if j < s.len() {
            assert(s[j] == t[j]);
        }
    }
    assert forall|x: A| #[trigger] t.contains(x) <==> (s.contains(x) || x == a) by {
        if s.contains(x) {
            let j = s.index_of(x);
            assert(t[j] == x);
        }
        if x == a {
            assert(t[s.len() as int] == x);
        }
        if t.contains(x) {
            let j = t.index_of(x);
            assert(0 <= j < t.len() && t[j] == x);
            if j < s.len() {
                assert(s[j] == x);
            }
        }
    }
    lemma_unique_index(t, s.len() as int);
    assert forall|x: A| s.contains(x) implies #[trigger] t.index_of(x) == s.index_of(x) by {
        let j = s.index_of(x);
        assert(t[j] == x);
        lemma_unique_index(t, j);
    }
}

/// Taking the element at one place away keeps a sequence free of
/// duplicates; the elements behind that place move one place forward.
pub proof fn lemma_unique_remove<A>(s: Seq<A>, i: int)
    requires
        s.no_duplicates(),
        0 <= i < s.len(),
    ensures
        s.remove(i).len() == s.len() - 1,
        s.remove(i).no_duplicates(),
        forall|x: A| #[trigger] s.remove(i).contains(x) <==> (s.contains(x) && x != s[i]),
        forall|x: A|
            s.contains(x) && x != s[i] ==> #[trigger] s.remove(i).index_of(x) == if s.index_of(x)
                < i {
                s.index_of(x)
            } else {
                s.index_of(x) - 1
            },
{
    let t = s.remove(i);
    s.remove_ensures(i);
    assert forall|k: int| 0 <= k < t.len() implies t[k] == s[if k < i {
        k
    } else {
        k + 1
    }] by {}
    assert forall|a: int, b: int| 0 <= a < t.len() && 0 <= b < t.len() && a != b implies t[a]
        != t[b] by {
        let a1 = if a < i {
            a
        } else {
            a + 1
        };
        let b1 = if b < i {
            b
        } else {
            b + 1
        };
        assert(t[a] == s[a1]);
        assert(t[b] == s[b1]);
    }
    assert forall|x: A| #[trigger] t.contains(x) <==> (s.contains(x) && x != s[i]) by {
        if t.contains(x) {
            let k = t.index_of(x);
            assert(0 <= k < t.len() && t[k] == x);
            let k1 = if k < i {
                k
            } else {
                k + 1
            };
            assert(s[k1] == x);
        }
        if s.contains(x) && x != s[i] {
            let k = s.index_of(x);
            assert(0 <= k < s.len() && s[k] == x);
            let k2 = if k < i {
                k
            } else {
                k - 1
            };
            assert(t[k2] == x);
        }
    }
    assert forall|x: A| s.contains(x) && x != s[i] implies #[trigger] t.index_of(x) == if s.index_of(
        x,
    ) < i {
        s.index_of(x)
    } else {
        s.index_of(x) - 1
    } by {
        let k = s.index_of(x);
        assert(0 <= k < s.len() && s[k] == x);
        let k2 = if k < i {
            k
        } else {
            k - 1
        };
        assert(t[k2] == x);
        lemma_unique_index(t, k2);
    }
}

} // verus!
