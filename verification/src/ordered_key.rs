//! The order of `String` keys (`Ord for str`): lexicographic by code point.
use vstd::prelude::*;
use vstd::string::*;

verus! {

/// Length of the longest common prefix of `a` and `b`.
pub open spec fn first_difference(a: Seq<char>, b: Seq<char>) -> nat
    decreases a.len(),
{
    if a.len() == 0 || b.len() == 0 || a[0] != b[0] {
        0
    } else {
        1 + first_difference(a.drop_first(), b.drop_first())
    }
}

/// `a` sorts strictly before `b`.
pub open spec fn key_less(a: Seq<char>, b: Seq<char>) -> bool {
    let k = first_difference(a, b);
    k < b.len() && (k == a.len() || a[k as int] < b[k as int])
}

/// Two different texts differ first at some position or one is a prefix of the other.
pub proof fn lemma_first_difference(a: Seq<char>, b: Seq<char>)
    ensures
        first_difference(a, b) <= a.len(),
        first_difference(a, b) <= b.len(),
        forall|j: int| 0 <= j < first_difference(a, b) ==> a[j] == b[j],
        first_difference(a, b) < a.len() && first_difference(a, b) < b.len() ==> a[first_difference(
            a,
            b,
        ) as int] != b[first_difference(a, b) as int],
    decreases a.len(),
{
    if a.len() == 0 || b.len() == 0 || a[0] != b[0] {
    } else {
        lemma_first_difference(a.drop_first(), b.drop_first());
        let k = first_difference(a, b);
        assert forall|j: int| 0 <= j < k implies a[j] == b[j] by {
            if j > 0 {
                assert(a.drop_first()[j - 1] == b.drop_first()[j - 1]);
            }
        }
    }
}

/// `m` is the first difference of `a` and `b` whenever it has its defining properties.
pub proof fn lemma_first_difference_is(a: Seq<char>, b: Seq<char>, m: nat)
    requires
        m <= a.len(),
        m <= b.len(),
        forall|j: int| 0 <= j < m ==> a[j] == b[j],
        m < a.len() && m < b.len() ==> a[m as int] != b[m as int],
    ensures
        first_difference(a, b) == m,
{
    lemma_first_difference(a, b);
    let k = first_difference(a, b);
    if k < m {
        assert(a[k as int] == b[k as int]);
    } else if k > m {
        assert(a[m as int] == b[m as int]);
    }
}

/// The key order is total and irreflexive.
pub proof fn lemma_key_less_total(a: Seq<char>, b: Seq<char>)
    ensures
        a != b ==> key_less(a, b) || key_less(b, a),
        key_less(a, b) ==> !key_less(b, a) && a != b,
{
    lemma_first_difference(a, b);
    lemma_first_difference(b, a);
    let k = first_difference(a, b);
    lemma_first_difference_is(b, a, k);
    if k == a.len() && k == b.len() {
        assert(a =~= b);
    } else if k < a.len() && k < b.len() {
        let x = a[k as int];
        let y = b[k as int];
        assert(x != y);
    }
}

/// The key order is transitive.
pub proof fn lemma_key_less_transitive(a: Seq<char>, b: Seq<char>, c: Seq<char>)
    requires
        key_less(a, b),
        key_less(b, c),
    ensures
        key_less(a, c),
{
    lemma_first_difference(a, b);
    lemma_first_difference(b, c);
    let k1 = first_difference(a, b);
    let k2 = first_difference(b, c);
    if k1 < k2 {
        if k1 == a.len() {
            lemma_first_difference_is(a, c, k1);
        } else {
            assert(b[k1 as int] == c[k1 as int]);
            lemma_first_difference_is(a, c, k1);
        }
    } else if k2 < k1 {
        assert(a[k2 as int] == b[k2 as int]);
        lemma_first_difference_is(a, c, k2);
    } else {
        lemma_first_difference_is(a, c, k1);
    }
}

/// Whether `a` sorts strictly before `b`.
pub fn str_less(a: &str, b: &str) -> (r: bool)
    ensures
        r == key_less(a@, b@),
{
    let n = a.unicode_len();
    let m = b.unicode_len();
    let mut i: usize = 0;
    while i < n && i < m && a.get_char(i) == b.get_char(i)
        invariant
            i <= n,
            i <= m,
            n == a@.len(),
            m == b@.len(),
            forall|j: int| 0 <= j < i ==> a@[j] == b@[j],
        decreases n - i,
    {
        i = i + 1;
    }
    proof {
        lemma_first_difference_is(a@, b@, i as nat);
    }
    if i >= m {
        false
    } else if i == n {
        true
    } else {
        a.get_char(i) < b.get_char(i)
    }
}

} // verus!
