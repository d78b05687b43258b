use vstd::prelude::*;
use itertools::Itertools;
use crate::engine::SystemEvent;
use crate::entity::EntityManager;
use crate::system::{step_outcome, stepped, System, WindowState};

verus! {

/// `a / b`, rounded up.
pub open spec fn ceil_div(a: nat, b: nat) -> nat {
    if a % b == 0 {
        a / b
    } else {
        a / b + 1
    }
}

/// Units per worker: `ceil(n / w)`, where `w` is the thread count clamped to
/// at most `n` units.
pub open spec fn chunk_size_spec(no_of_systems: nat, thread_count: nat) -> nat {
    if no_of_systems == 0 {
        1
    } else if thread_count < no_of_systems {
        ceil_div(no_of_systems, thread_count)
    } else {
        1
    }
}

/// Number of workers, which is the number of batches a frame waits for.
pub open spec fn worker_count_spec(no_of_systems: nat, thread_count: nat) -> nat {
    ceil_div(no_of_systems, chunk_size_spec(no_of_systems, thread_count))
}

/// The `i`-th chunk of `s` cut into runs of `c`.
pub open spec fn chunk_of<T>(s: Seq<T>, c: nat, i: int) -> Seq<T> {
    s.subrange(i * c, if (i + 1) * c < s.len() { (i + 1) * c } else { s.len() as int })
}

/// The chunks, joined back together in order.
pub open spec fn flatten_chunks<T>(chunks: Seq<Vec<T>>) -> Seq<T>
    decreases chunks.len(),
{
    if chunks.len() == 0 {
        Seq::empty()
    } else {
        flatten_chunks(chunks.drop_last()) + chunks.last()@
    }
}

fn ceil_div_exec(a: usize, b: usize) -> (r: usize)
    requires
        b > 0,
    ensures
        r == ceil_div(a as nat, b as nat),
{
    if a % b == 0 {
        a / b
    } else {
        proof {
            assert(a >= 1) by (nonlinear_arith)
                requires
                    b > 0,
                    a % b != 0,
            ;
            assert(a / b < a) by (nonlinear_arith)
                requires
                    b >= 2,
                    a >= 1,
            ;
        }
        a / b + 1
    }
}

/// How many units each worker owns.
pub fn chunk_size(no_of_systems: usize, thread_count: usize) -> (r: usize)
    requires
        thread_count >= 1,
    ensures
        r == chunk_size_spec(no_of_systems as nat, thread_count as nat),
        r >= 1,
{
    if no_of_systems == 0 {
        1
    } else if thread_count < no_of_systems {
        let r = ceil_div_exec(no_of_systems, thread_count);
        proof {
            assert(r >= 1) by (nonlinear_arith)
                requires
                    thread_count >= 1,
                    no_of_systems >= 1,
                    r == ceil_div(no_of_systems as nat, thread_count as nat),
            ;
        }
        r
    } else {
        1
    }
}

/// How many worker batches a frame waits for: one per worker.
pub fn events_channel_size(no_of_systems: usize, thread_count: usize) -> (r: usize)
    requires
        thread_count >= 1,
    ensures
        r == worker_count_spec(no_of_systems as nat, thread_count as nat),
{
    let c = chunk_size(no_of_systems, thread_count);
    ceil_div_exec(no_of_systems, c)
}

/// Relies on itertools::Itertools::chunks: consecutive runs of `size` items
/// in their order, the last one shorter where the items run out.
#[verifier::external_body]
fn chunk_by_size(items: Vec<System>, size: usize) -> (r: Vec<Vec<System>>)
    requires
        size > 0,
    ensures
        r@.len() == ceil_div(items@.len(), size as nat),
        forall|i: int| 0 <= i < r@.len() ==> (#[trigger] r@[i])@ == chunk_of(items@, size as nat, i),
{
    items.into_iter().chunks(size).into_iter().map(|chunk| chunk.collect()).collect()
}

proof fn lemma_chunk_index_bound(n: nat, c: nat, i: int)
    requires
        c > 0,
        0 <= i < ceil_div(n, c),
    ensures
        i * c < n,
{
    assert(n == c * (n / c) + n % c) by (nonlinear_arith) requires c > 0;
    if n % c == 0 {
        assert(i * c < n) by (nonlinear_arith)
            requires
                c > 0,
                0 <= i < n / c,
                n == c * (n / c) + n % c,
                n % c == 0,
        ;
    } else {
        assert(i * c < n) by (nonlinear_arith)
            requires
                c > 0,
                0 <= i <= n / c,
                n == c * (n / c) + n % c,
                n % c > 0,
        ;
    }
}

proof fn lemma_chunks_cover(n: nat, c: nat)
    requires
        c > 0,
    ensures
        ceil_div(n, c) * c >= n,
{
    assert(n == c * (n / c) + n % c) by (nonlinear_arith) requires c > 0;
    assert(n % c < c) by (nonlinear_arith) requires c > 0;
    assert(ceil_div(n, c) * c >= n) by (nonlinear_arith)
        requires
            c > 0,
            n == c * (n / c) + n % c,
            n % c < c,
            ceil_div(n, c) == if n % c == 0 { n / c } else { n / c + 1 },
    ;
}

proof fn lemma_flatten_prefix(items: Seq<System>, r: Seq<Vec<System>>, c: nat, i: int)
    requires
        c > 0,
        r.len() == ceil_div(items.len(), c),
        forall|j: int| 0 <= j < r.len() ==> (#[trigger] r[j])@ == chunk_of(items, c, j),
        0 <= i <= r.len(),
    ensures
        flatten_chunks(r.take(i)) == items.take(if i * c < items.len() { i * c } else { items.len() as int }),
    decreases i,
{
    if i == 0 {
        assert(r.take(0) =~= Seq::<Vec<System>>::empty());
        assert(items.take(0) =~= Seq::<System>::empty());
        assert(0 * c == 0);
        assert(flatten_chunks(r.take(0)) == Seq::<System>::empty());
    } else {
        lemma_flatten_prefix(items, r, c, i - 1);
        lemma_chunk_index_bound(items.len(), c, i - 1);
        assert(r.take(i).drop_last() =~= r.take(i - 1));
        assert((i - 1) * c + c == i * c) by (nonlinear_arith);
        assert((i - 1 + 1) * c == i * c);
        assert(r.take(i).last() == r[i - 1]);
        let lo = (i - 1) * c;
        let hi = if i * c < items.len() { i * c } else { items.len() as int };
        assert(r.take(i).last()@ == items.subrange(lo, hi));
        assert(items.take(lo) + items.subrange(lo, hi) =~= items.take(hi));
        assert(flatten_chunks(r.take(i)) == flatten_chunks(r.take(i).drop_last()) + r.take(i).last()@);
        assert(flatten_chunks(r.take(i)) == items.take(hi));
    }
}

/// Splits the units into one contiguous chunk per worker, in order: chunks
/// of `chunk_size` units, the last one possibly shorter, none empty.
pub fn partition_systems(systems: Vec<System>, thread_count: usize) -> (r: Vec<Vec<System>>)
    requires
        thread_count >= 1,
    ensures
        r@.len() == worker_count_spec(systems@.len(), thread_count as nat),
        forall|i: int|
            0 <= i < r@.len() ==> (#[trigger] r@[i])@ == chunk_of(
                systems@,
                chunk_size_spec(systems@.len(), thread_count as nat),
                i,
            ),
        forall|i: int|
            0 <= i < r@.len() ==> 1 <= (#[trigger] r@[i])@.len() <= chunk_size_spec(
                systems@.len(),
                thread_count as nat,
            ),
        flatten_chunks(r@) == systems@,
        thread_count >= systems@.len() ==> forall|i: int|
            0 <= i < r@.len() ==> (#[trigger] r@[i])@.len() <= 1,
{
    let c = chunk_size(systems.len(), thread_count);
    let ghost items = systems@;
    let r = chunk_by_size(systems, c);
    proof {
        assert forall|i: int| 0 <= i < r@.len() implies 1 <= (#[trigger] r@[i])@.len() <= c by {
            lemma_chunk_index_bound(items.len(), c as nat, i);
            assert((i + 1) * c == i * c + c) by (nonlinear_arith);
        }
        lemma_flatten_prefix(items, r@, c as nat, r@.len() as int);
        lemma_chunks_cover(items.len(), c as nat);
        assert(r@.take(r@.len() as int) =~= r@);
        assert(items.take(items.len() as int) =~= items);
    }
    r
}

/// The events that stepping `u` adds to its worker's batch: none where the
/// step fails.
pub open spec fn unit_events(u: System, w: WindowState) -> Seq<SystemEvent> {
    match step_outcome(u, w) {
        Some(e) => e,
        None => Seq::empty(),
    }
}

/// The events of one frame of a worker's units, unit by unit in chunk order.
pub open spec fn frame_events(units: Seq<System>, w: WindowState) -> Seq<SystemEvent>
    decreases units.len(),
{
    if units.len() == 0 {
        Seq::empty()
    } else {
        frame_events(units.drop_last(), w) + unit_events(units.last(), w)
    }
}

/// Steps each owned unit once, in order, appending its events to the batch;
/// a failed step adds nothing and the rest still run. Each unit is left as
/// its step leaves it.
pub fn step_units(
    units: &mut Vec<System>,
    tick: usize,
    window: &WindowState,
    world: &EntityManager,
    buffer: &mut Vec<SystemEvent>,
)
    ensures
        final(buffer)@ == old(buffer)@ + frame_events(old(units)@, *window),
        final(units)@.len() == old(units)@.len(),
        forall|j: int|
            0 <= j < old(units)@.len() ==> (#[trigger] final(units)@[j]) == stepped(
                old(units)@[j],
                *window,
            ),
{
    let ghost start = units@;
    let mut i: usize = 0;
    while i < units.len()
        invariant
            0 <= i <= units@.len(),
            units@.len() == start.len(),
            start == old(units)@,
            forall|j: int| 0 <= j < i ==> (#[trigger] units@[j]) == stepped(start[j], *window),
            forall|j: int| i <= j < units@.len() ==> (#[trigger] units@[j]) == start[j],
            buffer@ == old(buffer)@ + frame_events(start.take(i as int), *window),
        decreases units@.len() - i,
    {
        match units[i].update(tick, window, world) {
            Ok(events) => {
                let mut events = events;
                buffer.append(&mut events);
            },
            Err(_) => {},
        }
        proof {
            assert(start.take(i + 1).drop_last() =~= start.take(i as int));
            assert(start.take(i + 1).last() == start[i as int]);
        }
        i = i + 1;
    }
    proof {
        assert(start.take(i as int) =~= start);
    }
}

/// Settles the batch after a send: a delivered batch is cleared, one that
/// timed out is kept for the next frame.
pub fn finish_hand_off(buffer: &mut Vec<SystemEvent>, delivered: bool)
    ensures
        delivered ==> final(buffer)@ == Seq::<SystemEvent>::empty(),
        !delivered ==> final(buffer)@ == old(buffer)@,
{
    if delivered {
        buffer.clear();
    }
}

/// A worker that owns `[s0, s1]` puts the events of `s0` before those of
/// `s1` in its batch.
pub proof fn lemma_frame_order(s0: System, s1: System, w: WindowState)
    ensures
        frame_events(seq![s0, s1], w) == unit_events(s0, w) + unit_events(s1, w),
{
    let s = seq![s0, s1];
    assert(s.drop_last() =~= seq![s0]);
    assert(seq![s0].drop_last() =~= Seq::<System>::empty());
    assert(frame_events(Seq::<System>::empty(), w) == Seq::<SystemEvent>::empty());
    assert(Seq::<SystemEvent>::empty() + unit_events(s0, w) =~= unit_events(s0, w));
    assert(frame_events(seq![s0], w) == unit_events(s0, w));
    assert(frame_events(s, w) == frame_events(seq![s0], w) + unit_events(s1, w));
}

} // verus!
