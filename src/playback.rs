//! The playback sink: fills each hardware output buffer from the playback
//! relay queue, with silence on underrun.
use crate::capture::{chunk_end, chunks};
use crate::relay::RelayQueue;
use vstd::prelude::*;

verus! {

/// `seg` with its first `min(seg.len(), p.len())` samples taken from `p`; the
/// rest keeps what `seg` held.
pub open spec fn overlay(seg: Seq<u32>, p: Seq<u32>) -> Seq<u32> {
    Seq::new(seg.len(), |j: int| if j < p.len() { p[j] } else { seg[j] })
}

/// `n` samples of silence.
pub open spec fn silence(n: nat) -> Seq<u32> {
    Seq::new(n, |j: int| 0u32)
}

/// The packets left after one is taken, if any is there.
pub open spec fn rest_of(packets: Seq<Seq<u32>>) -> Seq<Seq<u32>> {
    if packets.len() > 0 {
        packets.drop_first()
    } else {
        packets
    }
}

/// The output buffer after a fill: it is cut into segments of `size` samples
/// (the last possibly shorter); each segment in turn takes the next packet
/// and is overlaid with it, or, when no packet is left, becomes silence.
pub open spec fn filled(out: Seq<u32>, packets: Seq<Seq<u32>>, size: nat) -> Seq<u32>
    decreases out.len(),
{
    if out.len() == 0 || size == 0 {
        out
    } else {
        let n = if out.len() <= size { out.len() } else { size };
        let seg = out.take(n as int);
        let head = if packets.len() > 0 { overlay(seg, packets[0]) } else { silence(n) };
        head + filled(out.skip(n as int), rest_of(packets), size)
    }
}

/// The packets left in the queue after a fill that cut the output buffer into
/// `segments` segments: one is taken per segment while any remain.
pub open spec fn left_after_fill(packets: Seq<Seq<u32>>, segments: nat) -> Seq<Seq<u32>> {
    if segments <= packets.len() {
        packets.skip(segments as int)
    } else {
        Seq::empty()
    }
}

/// For an output segment of `L` samples (`L` at most `size`) and an available
/// packet of `P` samples, exactly the first `min(L, P)` samples are taken from
/// the packet and the others keep their earlier value; with no packet, all `L`
/// samples are silence.
pub proof fn lemma_segment_rule(seg: Seq<u32>, packets: Seq<Seq<u32>>, size: nat)
    requires
        0 < seg.len() <= size,
    ensures
        filled(seg, packets, size).len() == seg.len(),
        packets.len() > 0 ==> forall|j: int|
            0 <= j < seg.len() ==> filled(seg, packets, size)[j] == if j < packets[0].len() {
                packets[0][j]
            } else {
                seg[j]
            },
        packets.len() == 0 ==> forall|j: int|
            0 <= j < seg.len() ==> filled(seg, packets, size)[j] == 0u32,
{
    let n = seg.len();
    assert(seg.take(n as int) == seg);
    assert(seg.skip(n as int).len() == 0);
    let rest = filled(seg.skip(n as int), rest_of(packets), size);
    assert(rest == seg.skip(n as int));
    let head = if packets.len() > 0 { overlay(seg, packets[0]) } else { silence(n) };
    assert(head + rest == head);
}

/// Overwrites `out[start..start + n]` with `src[0..n]`.
fn overwrite(out: &mut Vec<u32>, start: usize, src: &Vec<u32>, n: usize)
    requires
        n <= src@.len(),
        start + n <= old(out)@.len(),
    ensures
        final(out)@.len() == old(out)@.len(),
        forall|j: int|
            0 <= j < final(out)@.len() ==> final(out)@[j] == if start <= j < start + n {
                src@[j - start]
            } else {
                old(out)@[j]
            },
{
    let len = out.len();
    let mut i: usize = 0;
    while i < n
        invariant
            i <= n <= src@.len(),
            start + n <= len,
            len == out@.len(),
            out@.len() == old(out)@.len(),
            forall|j: int|
                0 <= j < out@.len() ==> out@[j] == if start <= j < start + i {
                    src@[j - start]
                } else {
                    old(out)@[j]
                },
        decreases n - i,
    {
        out.set(start + i, src[i]);
        i = i + 1;
    }
}

/// Sets `out[start..end]` to silence.
fn silence_range(out: &mut Vec<u32>, start: usize, end: usize)
    requires
        start <= end <= old(out)@.len(),
    ensures
        final(out)@.len() == old(out)@.len(),
        forall|j: int|
            0 <= j < final(out)@.len() ==> final(out)@[j] == if start <= j < end {
                0u32
            } else {
                old(out)@[j]
            },
{
    let mut i: usize = start;
    while i < end
        invariant
            start <= i <= end <= out@.len(),
            out@.len() == old(out)@.len(),
            forall|j: int|
                0 <= j < out@.len() ==> out@[j] == if start <= j < i {
                    0u32
                } else {
                    old(out)@[j]
                },
        decreases end - i,
    {
        out.set(i, 0);
        i = i + 1;
    }
}

/// Handles one output buffer request from the hardware. The buffer is cut into
/// segments of at most `size` samples; each segment takes the next packet from
/// `queue` and has its first `min(segment length, packet length)` samples
/// overwritten by it, or is set to silence when the queue is empty.
pub fn fill_output(queue: &mut RelayQueue, out: &mut Vec<u32>, size: usize)
    requires
        size > 0,
    ensures
        final(out)@ == filled(old(out)@, old(queue).items(), size as nat),
        final(queue).items() == left_after_fill(
            old(queue).items(),
            chunks(old(out)@, size as nat).len(),
        ),
        final(queue).capacity_spec() == old(queue).capacity_spec(),
{
    let ghost out0 = out@;
    let ghost items0 = queue.items();
    let len = out.len();
    let mut start: usize = 0;
    let ghost mut k: nat = 0;
    proof {
        assert(out0.skip(0) == out0);
        assert(out@.take(0) + filled(out0, items0, size as nat) == filled(out0, items0, size as nat));
        assert(items0.skip(0) == items0);
    }
    while start < len
        invariant
            size > 0,
            len == out@.len(),
            start <= len,
            out@.len() == out0.len(),
            queue.capacity_spec() == old(queue).capacity_spec(),
            out@.take(start as int) + filled(out0.skip(start as int), queue.items(), size as nat)
                == filled(out0, items0, size as nat),
            out@.skip(start as int) == out0.skip(start as int),
            chunks(out0, size as nat).len() == k + chunks(out0.skip(start as int), size as nat).len(),
            queue.items() == left_after_fill(items0, k),
        decreases len - start,
    {
        let end = chunk_end(len, start, size);
        let ghost q = queue.items();
        let ghost before = out@;
        let ghost rest = out0.skip(start as int);
        let ghost n = (end - start) as nat;
        let popped = queue.pop();
        match popped {
            Some(p) => {
                let m = if end - start <= p.len() { end - start } else { p.len() };
                overwrite(out, start, &p, m);
                proof {
                    let head = overlay(rest.take(n as int), q[0]);
                    assert(out@.take(end as int) =~= before.take(start as int) + head) by {
                        assert forall|j: int| start <= j < end implies out@[j] == head[j - start] by {
                            assert(before.skip(start as int)[j - start] == rest[j - start]);
                        }
                    }
                }
            },
            None => {
                silence_range(out, start, end);
                proof {
                    let head = silence(n);
                    assert(out@.take(end as int) =~= before.take(start as int) + head);
                }
            },
        }
        proof {
            assert(rest.skip(n as int) =~= out0.skip(end as int));
            assert(rest.take(n as int).len() == n);
            assert(out@.skip(end as int) =~= out0.skip(end as int)) by {
                assert forall|j: int| 0 <= j < out@.skip(end as int).len() implies out@.skip(end as int)[j] == out0.skip(end as int)[j] by {
                    assert(before.skip(start as int)[j + end - start] == rest[j + end - start]);
                }
            }
            assert(queue.items() == rest_of(q));
            if k + 1 <= items0.len() {
                assert(items0.skip(k + 1 as int) =~= items0.skip(k as int).drop_first());
            } else {
                assert(left_after_fill(items0, k + 1) =~= rest_of(q));
            }
            let head = if q.len() > 0 { overlay(rest.take(n as int), q[0]) } else { silence(n) };
            assert(filled(rest, q, size as nat) == head + filled(out0.skip(end as int), rest_of(q), size as nat));
            assert(before.take(start as int) + (head + filled(out0.skip(end as int), rest_of(q), size as nat))
                =~= (before.take(start as int) + head) + filled(out0.skip(end as int), rest_of(q), size as nat));
        }
        start = end;
        proof {
            k = k + 1;
        }
    }
    proof {
        assert(out0.skip(len as int).len() == 0);
        assert(out@.take(len as int) =~= out@);
        assert(out@ + filled(out0.skip(len as int), queue.items(), size as nat) =~= out@);
    }
}

} // verus!
