//! Bounded FIFO buffers.
//!
//! Both the per-channel sample history and the diagnostics log keep the most
//! recent entries up to a fixed capacity, evicting the oldest entry first.
//! The behaviour of one append is the spec function [`spec_push_evict`]; the
//! retention law over any number of appends is [`lemma_fill_keeps_latest`].

use vstd::prelude::*;

verus! {

/// One append to a bounded FIFO of capacity `cap`: the value goes to the
/// back, and the oldest entry leaves if the buffer is already full.
pub open spec fn spec_push_evict<T>(s: Seq<T>, v: T, cap: int) -> Seq<T> {
    if s.len() < cap {
        s.push(v)
    } else {
        s.skip(s.len() - cap + 1).push(v)
    }
}

/// The contents of a bounded FIFO of capacity `cap` that held `init` after
/// appending the whole of `all`, in order.
pub open spec fn spec_fill_from<T>(init: Seq<T>, all: Seq<T>, cap: int) -> Seq<T>
    decreases all.len(),
{
    if all.len() == 0 {
        init
    } else {
        spec_fill_from(spec_push_evict(init, all.first(), cap), all.drop_first(), cap)
    }
}

/// Feeding one more entry after `all` is one more push-evict step on the
/// result of feeding `all`.
pub proof fn lemma_fill_from_snoc<T>(init: Seq<T>, all: Seq<T>, x: T, cap: int)
    ensures
        spec_fill_from(init, all.push(x), cap) == spec_push_evict(
            spec_fill_from(init, all, cap),
            x,
            cap,
        ),
    decreases all.len(),
{
    if all.len() == 0 {
        assert(all.push(x).first() == x);
        assert(all.push(x).drop_first() =~= Seq::<T>::empty());
        assert(spec_fill_from(spec_push_evict(init, x, cap), Seq::<T>::empty(), cap)
            == spec_push_evict(init, x, cap));
        assert(spec_fill_from(init, Seq::<T>::empty(), cap) == init);
    } else {
        assert(all.push(x).first() == all.first());
        assert(all.push(x).drop_first() =~= all.drop_first().push(x));
        lemma_fill_from_snoc(spec_push_evict(init, all.first(), cap), all.drop_first(), x, cap);
    }
}

/// Retention law: a bounded FIFO holding `init` and then fed `all` retains
/// exactly the most recent `cap` of `init + all`, oldest evicted first.  In
/// particular, a buffer filled from empty with more than `cap` entries
/// holds the last `cap` of them, and the absolute index of the oldest
/// retained entry equals `all.len() - cap`.
pub proof fn lemma_fill_keeps_latest<T>(init: Seq<T>, all: Seq<T>, cap: int)
    requires
        1 <= cap,
        init.len() <= cap,
    ensures
        spec_fill_from(init, all, cap) == if init.len() + all.len() <= cap {
            init + all
        } else {
            (init + all).skip(init.len() + all.len() - cap)
        },
    decreases all.len(),
{
    if all.len() == 0 {
        assert(init + all =~= init);
    } else {
        let next = spec_push_evict(init, all.first(), cap);
        let rest = all.drop_first();
        lemma_fill_keeps_latest(next, rest, cap);
        if init.len() < cap {
            assert(next + rest =~= init + all);
            if next.len() + rest.len() > cap {
                assert((next + rest).skip(next.len() + rest.len() - cap) =~= (init + all).skip(
                    init.len() + all.len() - cap,
                ));
            }
        } else {
            assert(next =~= init.skip(1).push(all.first()));
            assert(next + rest =~= (init + all).skip(1));
            if next.len() + rest.len() <= cap {
                assert(rest.len() == 0);
                assert(next + rest =~= (init + all).skip(init.len() + all.len() - cap));
            } else {
                assert((next + rest).skip(next.len() + rest.len() - cap) =~= (init + all).skip(
                    init.len() + all.len() - cap,
                ));
            }
        }
    }
}

/// Appends `v` to `buf`, evicting the oldest element when `buf` already
/// holds `cap` elements, so that `buf` never grows beyond `cap`.
pub fn push_bounded<T>(buf: &mut Vec<T>, v: T, cap: usize)
    requires
        1 <= cap,
        old(buf)@.len() <= cap,
    ensures
        final(buf)@ == spec_push_evict(old(buf)@, v, cap as int),
        final(buf)@.len() == if old(buf)@.len() < cap {
            old(buf)@.len() + 1int
        } else {
            cap as int
        },
{
    if buf.len() == cap {
        buf.remove(0);
        proof {
            assert(buf@ =~= old(buf)@.skip(1));
        }
    }
    buf.push(v);
    proof {
        assert(buf@ =~= spec_push_evict(old(buf)@, v, cap as int));
    }
}

} // verus!
