//! The capture source: slices each raw input buffer into packets and offers
//! them to the capture relay queue.
use crate::relay::{pushed_all, RelayQueue};
use vstd::prelude::*;

verus! {

/// `data` cut into consecutive pieces of `size` samples, the last one possibly
/// shorter; an empty buffer gives no pieces.
pub open spec fn chunks(data: Seq<u32>, size: nat) -> Seq<Seq<u32>>
    decreases data.len(),
{
    if data.len() == 0 || size == 0 {
        Seq::empty()
    } else if data.len() <= size {
        seq![data]
    } else {
        seq![data.take(size as int)] + chunks(data.skip(size as int), size)
    }
}

/// The views of a sequence of packets.
pub open spec fn views(v: Seq<Vec<u32>>) -> Seq<Seq<u32>> {
    v.map_values(|p: Vec<u32>| p@)
}

/// A copy of `data[start..end]`.
pub(crate) fn copy_range(data: &Vec<u32>, start: usize, end: usize) -> (r: Vec<u32>)
    requires
        start <= end <= data@.len(),
    ensures
        r@ == data@.subrange(start as int, end as int),
{
    let mut r: Vec<u32> = Vec::with_capacity(end - start);
    let mut i: usize = start;
    while i < end
        invariant
            start <= i <= end <= data@.len(),
            r@ == data@.subrange(start as int, i as int),
        decreases end - i,
    {
        r.push(data[i]);
        i = i + 1;
    }
    r
}

/// Where the piece that starts at `start` ends.
pub(crate) fn chunk_end(len: usize, start: usize, size: usize) -> (end: usize)
    requires
        start < len,
        size > 0,
    ensures
        end == if len - start > size { start + size } else { len as int },
{
    if len - start > size {
        start + size
    } else {
        len
    }
}

/// Cuts `data` into packets of at most `size` samples, in order.
pub fn chunk_samples(data: &Vec<u32>, size: usize) -> (r: Vec<Vec<u32>>)
    requires
        size > 0,
    ensures
        views(r@) == chunks(data@, size as nat),
{
    let mut r: Vec<Vec<u32>> = Vec::new();
    let mut start: usize = 0;
    proof {
        assert(data@.skip(0) == data@);
        assert(views(r@) + chunks(data@, size as nat) == chunks(data@, size as nat));
    }
    while start < data.len()
        invariant
            size > 0,
            start <= data@.len(),
            views(r@) + chunks(data@.skip(start as int), size as nat) == chunks(
                data@,
                size as nat,
            ),
        decreases data@.len() - start,
    {
        let end = chunk_end(data.len(), start, size);
        let piece = copy_range(data, start, end);
        proof {
            let rest = data@.skip(start as int);
            assert(rest.take(size as int) == data@.subrange(start as int, end as int)
                || rest.len() <= size);
            if rest.len() <= size {
                assert(rest == data@.subrange(start as int, end as int));
                assert(data@.skip(end as int).len() == 0);
            } else {
                assert(rest.skip(size as int) == data@.skip(end as int));
            }
            assert(views(r@.push(piece)) == views(r@).push(piece@));
        }
        r.push(piece);
        start = end;
    }
    proof {
        assert(data@.skip(start as int).len() == 0);
        assert(views(r@) + Seq::<Seq<u32>>::empty() == views(r@));
    }
    r
}

/// Handles one input buffer from the hardware: each packet of at most `size`
/// samples is offered to `queue` in order, and those that find it full are
/// dropped. Returns how many were dropped.
pub fn capture(queue: &mut RelayQueue, data: &Vec<u32>, size: usize) -> (dropped: usize)
    requires
        size > 0,
    ensures
        final(queue).capacity_spec() == old(queue).capacity_spec(),
        final(queue).items() == pushed_all(
            old(queue).items(),
            old(queue).capacity_spec(),
            chunks(data@, size as nat),
        ),
        dropped == chunks(data@, size as nat).len() + old(queue).items().len()
            - final(queue).items().len(),
{
    let pieces = chunk_samples(data, size);
    let ghost cs = chunks(data@, size as nat);
    let ghost q0 = queue.items();
    let ghost cap = queue.capacity_spec();
    let mut dropped: usize = 0;
    let mut i: usize = 0;
    while i < pieces.len()
        invariant
            i <= pieces@.len(),
            views(pieces@) == cs,
            queue.capacity_spec() == cap,
            queue.items() == pushed_all(q0, cap, cs.take(i as int)),
            q0.len() <= queue.items().len() <= q0.len() + i,
            dropped == i + q0.len() - queue.items().len(),
        decreases pieces@.len() - i,
    {
        proof {
            assert(cs.take(i + 1).drop_last() == cs.take(i as int));
            assert(cs[i as int] == pieces@[i as int]@);
        }
        let piece = copy_range(&pieces[i], 0, pieces[i].len());
        proof {
            assert(piece@ == pieces@[i as int]@.subrange(0, pieces@[i as int]@.len() as int));
            assert(piece@ == pieces@[i as int]@);
        }
        if !queue.push(piece) {
            dropped = dropped + 1;
        }
        i = i + 1;
    }
    proof {
        assert(cs.take(i as int) == cs);
    }
    dropped
}

} // verus!
