//! Flow ingest: hands each item of an inbound stream to the playback queue.
use crate::relay::{pushed, RelayQueue};
use vstd::prelude::*;

verus! {

/// What became of one inbound item.
#[derive(Debug, Clone, Copy, PartialEq, Eq, Structural)]
pub enum IngestOutcome {
    /// The packet was appended to the queue.
    Queued,
    /// The queue was full and the packet was dropped.
    Dropped,
    /// The item was an error or not a well-formed packet, and was skipped.
    Skipped,
}

/// Handles one inbound item: `None` stands for an item that arrived as an
/// error. A packet of at most `size` samples is offered to `queue` (and
/// dropped if the queue is full); anything else is skipped.
pub fn ingest(queue: &mut RelayQueue, item: Option<Vec<u32>>, size: usize) -> (r: IngestOutcome)
    ensures
        final(queue).capacity_spec() == old(queue).capacity_spec(),
        match item {
            Some(p) if p@.len() <= size => {
                &&& final(queue).items() == pushed(
                    old(queue).items(),
                    old(queue).capacity_spec(),
                    p@,
                )
                &&& r == if old(queue).items().len() < old(queue).capacity_spec() {
                    IngestOutcome::Queued
                } else {
                    IngestOutcome::Dropped
                }
            },
            _ => r == IngestOutcome::Skipped && final(queue).items() == old(queue).items(),
        },
{
    match item {
        Some(p) => {
            if p.len() > size {
                IngestOutcome::Skipped
            } else if queue.push(p) {
                IngestOutcome::Queued
            } else {
                IngestOutcome::Dropped
            }
        },
        None => IngestOutcome::Skipped,
    }
}

} // verus!
