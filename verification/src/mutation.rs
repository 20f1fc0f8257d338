//! Planning of the bulk unsubscribe/mark-read run.
//!
//! The orchestrator decides, from the filtered batch and the run mode, what
//! the driver must do: report an empty batch, preview the candidates, wait
//! for confirmation, or mutate.  Mutations are dispatched in bounded chunks:
//! for every candidate one unsubscribe and one mark-as-read request, at most
//! `CHUNK_SIZE` candidates in flight at a time, each chunk awaited before
//! the next is launched.  A failure inside a chunk aborts the rest of the
//! run; candidates of chunks already completed remain mutated.

use vstd::prelude::*;

use crate::filters::CHUNK_SIZE;
use crate::subscription::Subscription;
use crate::subscription::ThreadID;

verus! {

/// How a mutation run is gated.
#[derive(Clone, Copy, Debug, PartialEq, Eq, Structural)]
pub enum RunMode {
    /// Print every candidate and mutate nothing.
    Dry,
    /// Print every candidate, wait for one line on standard input, then
    /// mutate.
    Confirm,
    /// Mutate immediately.
    Execute,
}

/// What the driver of a mutation run must do.
pub enum MutationPlan {
    /// The batch is empty: report "No notification matched", touch nothing.
    NothingMatched,
    /// Print every candidate; perform no mutation.
    Preview,
    /// Print every candidate, block for one line of input (any input
    /// proceeds; a read failure is fatal), then mutate chunk by chunk.
    ConfirmThenMutate(Vec<Vec<ThreadID>>),
    /// Mutate chunk by chunk.
    Mutate(Vec<Vec<ThreadID>>),
}

/// The thread ids of a batch, in batch order.
pub open spec fn spec_thread_ids(ss: Seq<Subscription>) -> Seq<ThreadID> {
    ss.map_values(|s: Subscription| s.thread_id)
}

/// `ids` cut into chunks of `size`, in order: every chunk but the last is
/// full, the last holds the remainder.
pub open spec fn spec_chunked(ids: Seq<ThreadID>, size: int) -> Seq<Seq<ThreadID>>
    decreases ids.len(),
        when size > 0
{
    if ids.len() == 0 {
        Seq::empty()
    } else if ids.len() <= size {
        seq![ids]
    } else {
        seq![ids.take(size)] + spec_chunked(ids.skip(size), size)
    }
}

/// Chunking loses nothing and bounds concurrency: the chunks concatenate
/// back to the ids in order, and no chunk is empty or larger than `size`.
pub proof fn lemma_chunks_sound(ids: Seq<ThreadID>, size: int)
    requires
        size > 0,
    ensures
        spec_chunked(ids, size).flatten() == ids,
        forall|i: int|
            0 <= i < spec_chunked(ids, size).len() ==> 0 < (
            #[trigger] spec_chunked(ids, size)[i]).len() <= size,
    decreases ids.len(),
{
    let chunks = spec_chunked(ids, size);
    if ids.len() == 0 {
        assert(chunks.flatten() =~= ids);
    } else if ids.len() <= size {
        assert(chunks =~= seq![ids]);
        assert(chunks.drop_first() =~= Seq::<Seq<ThreadID>>::empty());
        assert(Seq::<Seq<ThreadID>>::empty().flatten() =~= Seq::<ThreadID>::empty());
        assert(chunks.flatten() =~= ids);
    } else {
        lemma_chunks_sound(ids.skip(size), size);
        let rest = spec_chunked(ids.skip(size), size);
        assert(chunks.first() == ids.take(size));
        assert(chunks.drop_first() =~= rest);
        assert(chunks.flatten() == ids.take(size) + rest.flatten());
        assert(ids.take(size) + ids.skip(size) =~= ids);
    }
}

/// The thread ids of a batch, in batch order.
pub fn thread_ids(ss: &Vec<Subscription>) -> (r: Vec<ThreadID>)
    ensures
        r@ == spec_thread_ids(ss@),
{
    let mut r: Vec<ThreadID> = Vec::new();
    let mut i: usize = 0;
    while i < ss.len()
        invariant
            i <= ss@.len(),
            r@ == spec_thread_ids(ss@.take(i as int)),
        decreases ss@.len() - i,
    {
        r.push(ss[i].thread_id);
        proof {
            assert(spec_thread_ids(ss@.take(i as int + 1)) =~= spec_thread_ids(
                ss@.take(i as int),
            ).push(ss@[i as int].thread_id));
        }
        i = i + 1;
    }
    proof {
        assert(ss@.take(ss@.len() as int) =~= ss@);
    }
    r
}

/// Cut `ids` into chunks of at most `size`, in order.
pub fn chunk_ids(ids: Vec<ThreadID>, size: usize) -> (r: Vec<Vec<ThreadID>>)
    requires
        size > 0,
    ensures
        r.deep_view() == spec_chunked(ids@, size as int),
{
    let ghost ids0 = ids@;
    let mut rest = ids;
    let mut out: Vec<Vec<ThreadID>> = Vec::new();
    while rest.len() > size
        invariant
            size > 0,
            spec_chunked(ids0, size as int) == out.deep_view() + spec_chunked(
                rest@,
                size as int,
            ),
        decreases rest@.len(),
    {
        let ghost rest0 = rest@;
        let tail = rest.split_off(size);
        proof {
            assert(rest@ =~= rest0.take(size as int));
            assert(tail@ =~= rest0.skip(size as int));
            assert(rest.deep_view() =~= rest@);
        }
        let ghost out0 = out.deep_view();
        out.push(rest);
        proof {
            assert(out.deep_view() =~= out0.push(rest0.take(size as int)));
            assert(out0.push(rest0.take(size as int)) =~= out0 + seq![rest0.take(size as int)]);
            assert(out.deep_view() + spec_chunked(tail@, size as int) =~= out0 + (seq![
                rest0.take(size as int),
            ] + spec_chunked(rest0.skip(size as int), size as int)));
        }
        rest = tail;
    }
    if rest.len() > 0 {
        let ghost out0 = out.deep_view();
        let ghost rest0 = rest@;
        proof {
            assert(rest.deep_view() =~= rest@);
        }
        out.push(rest);
        proof {
            assert(out.deep_view() =~= out0.push(rest0));
            assert(out0.push(rest0) =~= out0 + seq![rest0]);
        }
    }
    proof {
        if rest@.len() == 0 {
            assert(out.deep_view() + spec_chunked(rest@, size as int) =~= out.deep_view());
        }
    }
    out
}

/// Decide a mutation run.  An empty batch matches nothing whatever the
/// mode; a non-empty batch is previewed, confirmed or mutated according to
/// the mode, with the candidates' thread ids cut into chunks of at most
/// `CHUNK_SIZE` in batch order.
pub fn mutation_plan(ss: &Vec<Subscription>, mode: RunMode) -> (r: MutationPlan)
    ensures
        ss@.len() == 0 ==> r is NothingMatched,
        ss@.len() > 0 && mode == RunMode::Dry ==> r is Preview,
        ss@.len() > 0 && mode == RunMode::Confirm ==> (r matches
            MutationPlan::ConfirmThenMutate(c) && c.deep_view() == spec_chunked(
            spec_thread_ids(ss@),
            CHUNK_SIZE as int,
        )),
        ss@.len() > 0 && mode == RunMode::Execute ==> (r matches MutationPlan::Mutate(c)
            && c.deep_view() == spec_chunked(spec_thread_ids(ss@), CHUNK_SIZE as int)),
{
    if ss.len() == 0 {
        return MutationPlan::NothingMatched;
    }
    match mode {
        RunMode::Dry => MutationPlan::Preview,
        RunMode::Confirm => {
            let ids = thread_ids(ss);
            MutationPlan::ConfirmThenMutate(chunk_ids(ids, CHUNK_SIZE))
        },
        RunMode::Execute => {
            let ids = thread_ids(ss);
            MutationPlan::Mutate(chunk_ids(ids, CHUNK_SIZE))
        },
    }
}

} // verus!
