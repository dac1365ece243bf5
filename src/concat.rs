use vstd::prelude::*;

verus! {

/// The concatenation of `f(x)` over the items `x` of `s`, in order.
pub open spec fn concat_map<A>(s: Seq<A>, f: spec_fn(A) -> Seq<u8>) -> Seq<u8>
    decreases s.len(),
{
    if s.len() == 0 {
        seq![]
    } else {
        concat_map(s.drop_last(), f) + f(s.last())
    }
}

/// Where every `f(x)` has `k` bytes, the concatenation over `s` has `k * s.len()` bytes.
pub proof fn lemma_concat_map_len<A>(s: Seq<A>, f: spec_fn(A) -> Seq<u8>, k: nat)
    requires
        forall|x: A| #[trigger] f(x).len() == k,
    ensures
        concat_map(s, f).len() == k * s.len(),
    decreases s.len(),
{
    if s.len() > 0 {
        lemma_concat_map_len(s.drop_last(), f, k);
        assert(k * (s.len() - 1) + k == k * s.len()) by (nonlinear_arith);
    }
}

/// Taking one more item appends its bytes.
pub proof fn lemma_concat_map_take<A>(s: Seq<A>, f: spec_fn(A) -> Seq<u8>, k: int)
    requires
        0 <= k < s.len(),
    ensures
        concat_map(s.take(k + 1), f) == concat_map(s.take(k), f) + f(s[k]),
{
    assert(s.take(k + 1).drop_last() =~= s.take(k));
}

/// Where every byte of every `f(x)` satisfies `p`, every byte of the concatenation does.
pub proof fn lemma_concat_map_all<A>(s: Seq<A>, f: spec_fn(A) -> Seq<u8>, p: spec_fn(u8) -> bool)
    requires
        forall|x: A, j: int| 0 <= j < f(x).len() ==> #[trigger] p(f(x)[j]),
    ensures
        forall|i: int| 0 <= i < concat_map(s, f).len() ==> #[trigger] p(concat_map(s, f)[i]),
    decreases s.len(),
{
    if s.len() > 0 {
        lemma_concat_map_all(s.drop_last(), f, p);
        let a = concat_map(s.drop_last(), f);
        let b = f(s.last());
        assert forall|i: int| 0 <= i < concat_map(s, f).len() implies #[trigger] p(
            concat_map(s, f)[i],
        ) by {
            if i >= a.len() {
                assert(concat_map(s, f)[i] == b[i - a.len()]);
            } else {
                assert(concat_map(s, f)[i] == a[i]);
            }
        }
    }
}

} // verus!
