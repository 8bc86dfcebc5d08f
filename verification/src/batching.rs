//! The batch decomposition of a record sequence, and what it preserves.
//!
//! A cycle splits its record sequence into consecutive chunks: full batches
//! of `batch_size` records, then one final, possibly empty tail batch of
//! fewer. These laws say that the decomposition loses nothing, reorders
//! nothing, and has the expected shape.

use vstd::prelude::*;
use vstd::arithmetic::div_mod::lemma_fundamental_div_mod_converse;
use crate::record::MetricView;

verus! {

/// The batches a cycle flushes for a record sequence: consecutive chunks
/// of `bs` records, and one final chunk of fewer — possibly empty — that
/// is the tail batch.
pub open spec fn spec_batches<A>(s: Seq<A>, bs: int) -> Seq<Seq<A>>
    decreases s.len(),
{
    if bs < 1 {
        Seq::empty()
    } else if s.len() < bs {
        seq![s]
    } else {
        seq![s.take(bs)] + spec_batches(s.skip(bs), bs)
    }
}

/// Nothing is lost or duplicated by batching: the concatenation of the
/// flushed batches, in flush order, is the record sequence itself.
pub proof fn lemma_batches_flatten<A>(s: Seq<A>, bs: int)
    requires
        bs >= 1,
    ensures
        spec_batches(s, bs).flatten() == s,
    decreases s.len(),
{
    let b = spec_batches(s, bs);
    if s.len() < bs {
        assert(b == seq![s]);
        assert(b.drop_first() =~= Seq::<Seq<A>>::empty());
        assert(Seq::<Seq<A>>::empty().flatten() == Seq::<A>::empty());
        assert(b.flatten() =~= s);
    } else {
        lemma_batches_flatten(s.skip(bs), bs);
        assert(b.first() == s.take(bs));
        assert(b.drop_first() =~= spec_batches(s.skip(bs), bs));
        assert(b.flatten() == s.take(bs) + spec_batches(s.skip(bs), bs).flatten());
        assert(s.take(bs) + s.skip(bs) =~= s);
    }
}

/// The shape of the decomposition: there is always at least the tail
/// batch; every batch before it holds exactly `bs` records; the tail
/// holds fewer; and the batch count follows from the record count.
pub proof fn lemma_batch_shapes<A>(s: Seq<A>, bs: int)
    requires
        bs >= 1,
    ensures
        spec_batches(s, bs).len() >= 1,
        forall|k: int|
            0 <= k < spec_batches(s, bs).len() - 1 ==> (#[trigger] spec_batches(s, bs)[k]).len()
                == bs,
        spec_batches(s, bs).last().len() < bs,
        s.len() == (spec_batches(s, bs).len() - 1) * bs + spec_batches(s, bs).last().len(),
    decreases s.len(),
{
    let b = spec_batches(s, bs);
    if s.len() < bs {
        assert(b == seq![s]);
    } else {
        let rest = spec_batches(s.skip(bs), bs);
        lemma_batch_shapes(s.skip(bs), bs);
        assert(b == seq![s.take(bs)] + rest);
        assert(b.last() == rest.last());
        assert forall|k: int| 0 <= k < b.len() - 1 implies (#[trigger] b[k]).len() == bs by {
            if k > 0 {
                assert(b[k] == rest[k - 1]);
            }
        }
        assert((b.len() - 1) * bs == (rest.len() - 1) * bs + bs) by (nonlinear_arith)
            requires
                b.len() == rest.len() + 1,
        ;
    }
}

/// The number of flush calls a fully delivered cycle makes: one for each
/// complete group of `bs` records, and one for the tail; the tail's size
/// is the remainder.
pub proof fn lemma_batch_count<A>(s: Seq<A>, bs: int)
    requires
        bs >= 1,
    ensures
        spec_batches(s, bs).len() == s.len() as int / bs + 1,
        spec_batches(s, bs).last().len() == s.len() as int % bs,
{
    lemma_batch_shapes(s, bs);
    let q = spec_batches(s, bs).len() - 1;
    let r = spec_batches(s, bs).last().len() as int;
    lemma_fundamental_div_mod_converse(s.len() as int, bs, q, r);
}

/// The batch a cycle issues when `d` records stand in delivered full
/// batches is precisely the chunk at index `d / bs` of the decomposition:
/// the cycle works through `spec_batches` in order.
pub proof fn lemma_issued_batch_is_chunk<A>(s: Seq<A>, bs: int, d: int)
    requires
        bs >= 1,
        0 <= d <= s.len(),
        d % bs == 0,
    ensures
        0 <= d / bs < spec_batches(s, bs).len(),
        spec_batches(s, bs)[d / bs] == s.subrange(
            d,
            if s.len() - d < bs {
                s.len() as int
            } else {
                d + bs
            },
        ),
    decreases s.len(),
{
    lemma_batch_count(s, bs);
    let b = spec_batches(s, bs);
    if d == 0 {
        assert(d / bs == 0) by (nonlinear_arith)
            requires
                bs >= 1,
                d == 0,
        ;
        if s.len() < bs {
            assert(b[0] == s);
            assert(s.subrange(0, s.len() as int) =~= s);
        } else {
            assert(b[0] == s.take(bs));
            assert(s.subrange(0, bs) =~= s.take(bs));
        }
        assert(0 <= d / bs < b.len()) by (nonlinear_arith)
            requires
                d == 0,
                b.len() >= 1,
                d / bs == 0,
        ;
    } else {
        assert(s.len() >= bs) by (nonlinear_arith)
            requires
                bs >= 1,
                0 < d <= s.len(),
                d % bs == 0,
        ;
        let rest = s.skip(bs);
        assert(d - bs >= 0 && (d - bs) % bs == 0 && d / bs == (d - bs) / bs + 1)
            by (nonlinear_arith)
            requires
                bs >= 1,
                0 < d,
                d % bs == 0,
        ;
        lemma_issued_batch_is_chunk(rest, bs, d - bs);
        assert(b == seq![s.take(bs)] + spec_batches(rest, bs));
        assert(b[d / bs] == spec_batches(rest, bs)[(d - bs) / bs]);
        let hi = if s.len() - d < bs {
            s.len() as int
        } else {
            d + bs
        };
        let hir = if rest.len() - (d - bs) < bs {
            rest.len() as int
        } else {
            (d - bs) + bs
        };
        assert(rest.subrange(d - bs, hir) =~= s.subrange(d, hi));
    }
}

/// Ascending timestamp order over a record-view sequence.
pub open spec fn sorted_by_time(s: Seq<MetricView>) -> bool {
    forall|i: int, j: int| 0 <= i <= j < s.len() ==> s[i].time <= s[j].time
}

/// Ordering preservation: batching splits the record sequence into
/// consecutive chunks, so a sequence sorted ascending by timestamp stays
/// sorted within every batch, and the concatenation of the batches — the
/// order in which records reach the destination — is the sorted sequence
/// itself.
pub proof fn lemma_ordering_preserved(s: Seq<MetricView>, bs: int)
    requires
        bs >= 1,
        sorted_by_time(s),
    ensures
        spec_batches(s, bs).flatten() == s,
        sorted_by_time(spec_batches(s, bs).flatten()),
        forall|k: int| 0 <= k < spec_batches(s, bs).len() ==> sorted_by_time(
            #[trigger] spec_batches(s, bs)[k],
        ),
    decreases s.len(),
{
    lemma_batches_flatten(s, bs);
    let b = spec_batches(s, bs);
    if s.len() < bs {
        assert(b == seq![s]);
        assert(forall|k: int| 0 <= k < b.len() ==> #[trigger] b[k] == s);
    } else {
        let rest = spec_batches(s.skip(bs), bs);
        assert(sorted_by_time(s.skip(bs)));
        lemma_ordering_preserved(s.skip(bs), bs);
        assert(b == seq![s.take(bs)] + rest);
        assert(sorted_by_time(s.take(bs)));
        assert forall|k: int| 0 <= k < b.len() implies sorted_by_time(#[trigger] b[k]) by {
            if k > 0 {
                assert(b[k] == rest[k - 1]);
            }
        }
    }
}

} // verus!
