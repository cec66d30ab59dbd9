//! Lexicographic order on names, by character code, and its laws.

use vstd::prelude::*;

verus! {

/// `a` sorts before `b`, comparing from position `k` on, character by
/// character; a proper prefix sorts first.
pub open spec fn lt_from(a: Seq<char>, b: Seq<char>, k: nat) -> bool
    decreases a.len() - k,
{
    if k >= a.len() {
        k < b.len()
    } else if k >= b.len() {
        false
    } else if a[k as int] != b[k as int] {
        (a[k as int] as int) < (b[k as int] as int)
    } else {
        lt_from(a, b, k + 1)
    }
}

/// `a` sorts strictly before `b` in lexicographic order.
pub open spec fn name_lt(a: Seq<char>, b: Seq<char>) -> bool {
    lt_from(a, b, 0)
}

proof fn lemma_lt_from_irreflexive(a: Seq<char>, k: nat)
    ensures
        !lt_from(a, a, k),
    decreases a.len() - k,
{
    if k < a.len() {
        lemma_lt_from_irreflexive(a, k + 1);
    }
}

proof fn lemma_lt_from_asymmetric(a: Seq<char>, b: Seq<char>, k: nat)
    requires
        lt_from(a, b, k),
    ensures
        !lt_from(b, a, k),
    decreases a.len() - k,
{
    if k < a.len() && k < b.len() && a[k as int] == b[k as int] {
        lemma_lt_from_asymmetric(a, b, k + 1);
    }
}

proof fn lemma_lt_from_transitive(a: Seq<char>, b: Seq<char>, c: Seq<char>, k: nat)
    requires
        lt_from(a, b, k),
        lt_from(b, c, k),
    ensures
        lt_from(a, c, k),
    decreases a.len() - k,
{
    if k < a.len() && k < b.len() && k < c.len() && a[k as int] == b[k as int] && b[k as int]
        == c[k as int] {
        lemma_lt_from_transitive(a, b, c, k + 1);
    }
}

proof fn lemma_lt_from_total(a: Seq<char>, b: Seq<char>, k: nat)
    requires
        k <= a.len(),
        k <= b.len(),
        !lt_from(a, b, k),
        !lt_from(b, a, k),
    ensures
        a.len() == b.len(),
        forall|j: int| k <= j < a.len() ==> a[j] == b[j],
    decreases a.len() - k,
{
    if k < a.len() && k < b.len() {
        lemma_lt_from_total(a, b, k + 1);
    }
}

/// The name order is a strict total order.
pub proof fn lemma_name_order(a: Seq<char>, b: Seq<char>, c: Seq<char>)
    ensures
        !name_lt(a, a),
        name_lt(a, b) ==> !name_lt(b, a),
        name_lt(a, b) && name_lt(b, c) ==> name_lt(a, c),
        a != b ==> name_lt(a, b) || name_lt(b, a),
{
    lemma_lt_from_irreflexive(a, 0);
    if name_lt(a, b) {
        lemma_lt_from_asymmetric(a, b, 0);
        if name_lt(b, c) {
            lemma_lt_from_transitive(a, b, c, 0);
        }
    }
    if !name_lt(a, b) && !name_lt(b, a) {
        lemma_lt_from_total(a, b, 0);
        assert(a =~= b);
    }
}

/// Whether `a` sorts strictly before `b`.
pub fn name_less(a: &str, b: &str) -> (r: bool)
    ensures
        r == name_lt(a@, b@),
{
    let la = a.unicode_len();
    let lb = b.unicode_len();
    let mut k: usize = 0;
    while k < la && k < lb
        invariant
            la == a@.len(),
            lb == b@.len(),
            k <= la,
            k <= lb,
            lt_from(a@, b@, k as nat) == name_lt(a@, b@),
        decreases la - k,
    {
        let ca = a.get_char(k);
        let cb = b.get_char(k);
        if ca != cb {
            return (ca as u32) < (cb as u32);
        }
        k = k + 1;
    }
    k < lb
}

} // verus!
