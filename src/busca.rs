use vstd::prelude::*;

verus! {

/// Index of the first element that satisfies `f`, or -1 when none does.
pub open spec fn primeiro_indice<A>(s: Seq<A>, f: spec_fn(A) -> bool) -> int {
    if exists|i: int| 0 <= i < s.len() && f(s[i]) && (forall|j: int| 0 <= j < i ==> !f(s[j])) {
        choose|i: int| 0 <= i < s.len() && f(s[i]) && (forall|j: int| 0 <= j < i ==> !f(s[j]))
    } else {
        -1
    }
}

/// The first satisfying index is the one that a scan from the front stops at.
pub proof fn lemma_primeiro<A>(s: Seq<A>, f: spec_fn(A) -> bool, i: int)
    requires
        0 <= i < s.len(),
        f(s[i]),
        forall|j: int| 0 <= j < i ==> !f(s[j]),
    ensures
        primeiro_indice(s, f) == i,
{
    let k = primeiro_indice(s, f);
    assert(0 <= k < s.len() && f(s[k]) && (forall|j: int| 0 <= j < k ==> !f(s[j])));
    if k < i {
        assert(!f(s[k]));
    } else if k > i {
        assert(!f(s[i]));
    }
}

/// A scan that finds nothing gives -1.
pub proof fn lemma_nenhum<A>(s: Seq<A>, f: spec_fn(A) -> bool)
    requires
        forall|j: int| 0 <= j < s.len() ==> !f(s[j]),
    ensures
        primeiro_indice(s, f) == -1,
{
}

/// What the first satisfying index is, when there is one.
pub proof fn lemma_primeiro_valido<A>(s: Seq<A>, f: spec_fn(A) -> bool)
    ensures
        -1 <= primeiro_indice(s, f) < s.len(),
        primeiro_indice(s, f) >= 0 ==> f(s[primeiro_indice(s, f)]),
        primeiro_indice(s, f) >= 0 ==> forall|j: int|
            0 <= j < primeiro_indice(s, f) ==> !f(s[j]),
        primeiro_indice(s, f) == -1 ==> forall|j: int| 0 <= j < s.len() ==> !f(s[j]),
{
    if primeiro_indice(s, f) == -1 {
        assert forall|j: int| 0 <= j < s.len() implies !f(s[j]) by {
            if f(s[j]) {
                // the least satisfying index exists
                lemma_menor_satisfaz(s, f, j);
            }
        }
    }
}

proof fn lemma_menor_satisfaz<A>(s: Seq<A>, f: spec_fn(A) -> bool, j: int)
    requires
        0 <= j < s.len(),
        f(s[j]),
    ensures
        exists|i: int| 0 <= i < s.len() && f(s[i]) && (forall|k: int| 0 <= k < i ==> !f(s[k])),
    decreases j,
{
    if exists|k: int| 0 <= k < j && f(s[k]) {
        let k = choose|k: int| 0 <= k < j && f(s[k]);
        lemma_menor_satisfaz(s, f, k);
    } else {
        assert(0 <= j < s.len() && f(s[j]) && (forall|k: int| 0 <= k < j ==> !f(s[k])));
    }
}

} // verus!
