//! First in, first out: what a run of appends and takes from the front does
//! to a sequence. Each queue of the library (the packet queue, socket queues,
//! connection queues) changes its contents exactly this way, by the contracts
//! of its push and pop operations.
use vstd::prelude::*;

verus! {

/// `s` after appending each element of `es` in turn.
pub open spec fn push_all<A>(s: Seq<A>, es: Seq<A>) -> Seq<A>
    decreases es.len(),
{
    if es.len() == 0 {
        s
    } else {
        push_all(s, es.drop_last()).push(es.last())
    }
}

/// `s` after `k` takes from the front; a take from an empty sequence leaves
/// it empty.
pub open spec fn take_n<A>(s: Seq<A>, k: nat) -> Seq<A>
    decreases k,
{
    if k == 0 {
        s
    } else {
        let t = take_n(s, (k - 1) as nat);
        if t.len() > 0 {
            t.drop_first()
        } else {
            t
        }
    }
}

proof fn lemma_push_all<A>(s: Seq<A>, es: Seq<A>)
    ensures
        push_all(s, es) == s + es,
    decreases es.len(),
{
    if es.len() > 0 {
        lemma_push_all(s, es.drop_last());
        assert(s + es.drop_last().push(es.last()) =~= s + es);
        assert((s + es.drop_last()).push(es.last()) =~= s + es.drop_last().push(es.last()));
    } else {
        assert(s + es =~= s);
    }
}

proof fn lemma_take_n<A>(s: Seq<A>, k: nat)
    ensures
        k <= s.len() ==> take_n(s, k) == s.skip(k as int),
        k > s.len() ==> take_n(s, k).len() == 0,
    decreases k,
{
    if k == 0 {
        assert(s.skip(0) =~= s);
    } else {
        lemma_take_n(s, (k - 1) as nat);
        if k <= s.len() {
            assert(s.skip(k - 1).drop_first() =~= s.skip(k as int));
        }
    }
}

/// Law: starting from an empty sequence, appending `es` one by one and then
/// taking from the front gives back the elements of `es` in the order they
/// were appended: the take numbered `k` (from zero) sees `es[k]` at the
/// front, and after `es.len()` takes the sequence is empty again.
pub proof fn lemma_fifo_run<A>(es: Seq<A>)
    ensures
        push_all(Seq::<A>::empty(), es) == es,
        forall|k: nat| k < es.len() ==> #[trigger] take_n(es, k).len() > 0 && take_n(es, k)[0] == es[k as int],
        take_n(es, es.len()).len() == 0,
{
    lemma_push_all(Seq::<A>::empty(), es);
    assert(Seq::<A>::empty() + es =~= es);
    assert forall|k: nat| k < es.len() implies #[trigger] take_n(es, k).len() > 0 && take_n(es, k)[0] == es[k as int] by {
        lemma_take_n(es, k);
    }
    lemma_take_n(es, es.len());
}

} // verus!
