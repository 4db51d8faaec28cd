//! What holds of the ring over every state and every run of enqueues and
//! dequeues.

use vstd::prelude::*;
use crate::request::Request;
use crate::request::{KEY_CAPACITY, REQUEST_SIZE, VALUE_CAPACITY};
use crate::ring::{
    after_dequeue, after_enqueue, next_index, pending_records, Header, CAPACITY, HEADER_SIZE,
    SHARED_MEMORY_SIZE,
};

verus! {

/// One call on the ring: the producer's or the consumer's.
pub enum Event {
    Enqueue(Request),
    Dequeue,
}

/// The pending records after one event.
pub open spec fn step(pending: Seq<Request>, event: Event) -> Seq<Request> {
    match event {
        Event::Enqueue(request) => after_enqueue(pending, request),
        Event::Dequeue => after_dequeue(pending),
    }
}

/// The pending records after a run of events.
pub open spec fn run(pending: Seq<Request>, events: Seq<Event>) -> Seq<Request>
    decreases events.len(),
{
    if events.len() == 0 {
        pending
    } else {
        step(run(pending, events.drop_last()), events.last())
    }
}

/// The records whose enqueue succeeded during a run, in the order of the
/// calls.
pub open spec fn accepted(pending: Seq<Request>, events: Seq<Event>) -> Seq<Request>
    decreases events.len(),
{
    if events.len() == 0 {
        Seq::empty()
    } else {
        let earlier = accepted(pending, events.drop_last());
        match events.last() {
            Event::Enqueue(request) => if run(pending, events.drop_last()).len() < CAPACITY - 1 {
                earlier.push(request)
            } else {
                earlier
            },
            Event::Dequeue => earlier,
        }
    }
}

/// The records that the dequeues of a run returned, in the order of the
/// calls.
pub open spec fn delivered(pending: Seq<Request>, events: Seq<Event>) -> Seq<Request>
    decreases events.len(),
{
    if events.len() == 0 {
        Seq::empty()
    } else {
        let earlier = delivered(pending, events.drop_last());
        let before = run(pending, events.drop_last());
        match events.last() {
            Event::Enqueue(_) => earlier,
            Event::Dequeue => if before.len() > 0 {
                earlier.push(before[0])
            } else {
                earlier
            },
        }
    }
}

/// Records leave the ring in the order in which they were accepted: what was
/// delivered, followed by what is still pending, is what was pending at the
/// start followed by what was accepted since. Nothing is lost, doubled or
/// reordered.
pub proof fn lemma_fifo(pending: Seq<Request>, events: Seq<Event>)
    ensures
        delivered(pending, events) + run(pending, events) == pending + accepted(pending, events),
    decreases events.len(),
{
    if events.len() == 0 {
        assert(Seq::<Request>::empty() + pending =~= pending + Seq::<Request>::empty());
    } else {
        let earlier = events.drop_last();
        lemma_fifo(pending, earlier);
        let before = run(pending, earlier);
        let d = delivered(pending, earlier);
        let a = accepted(pending, earlier);
        assert(d + before == pending + a);
        match events.last() {
            Event::Enqueue(request) => {
                if before.len() < CAPACITY - 1 {
                    assert(d + before.push(request) =~= (d + before).push(request));
                    assert(pending + a.push(request) =~= (pending + a).push(request));
                }
            },
            Event::Dequeue => {
                if before.len() > 0 {
                    assert(d.push(before[0]) + before.drop_first() =~= d + before);
                }
            },
        }
    }
}

/// Started empty, a ring has delivered a prefix of what it accepted.
pub proof fn lemma_delivered_is_prefix(events: Seq<Event>)
    ensures
        delivered(Seq::empty(), events).len() <= accepted(Seq::empty(), events).len(),
        delivered(Seq::empty(), events) == accepted(Seq::empty(), events).take(
            delivered(Seq::empty(), events).len() as int,
        ),
{
    let none = Seq::<Request>::empty();
    lemma_fifo(none, events);
    let d = delivered(none, events);
    let a = accepted(none, events);
    assert(none + a =~= a);
    assert((d + run(none, events)).take(d.len() as int) =~= d);
}

/// The ring never overfills: no run of events takes the number of pending
/// records above `CAPACITY - 1`.
pub proof fn lemma_never_overfull(pending: Seq<Request>, events: Seq<Event>)
    requires
        pending.len() <= CAPACITY - 1,
    ensures
        run(pending, events).len() <= CAPACITY - 1,
    decreases events.len(),
{
    if events.len() > 0 {
        lemma_never_overfull(pending, events.drop_last());
    }
}

/// In every state of the header the distance from the read index to the
/// write index, taken modulo `CAPACITY`, is below `CAPACITY`; it is 0 exactly
/// where the ring is empty and `CAPACITY - 1` exactly where it is full.
pub proof fn lemma_pending_bounds(header: Header)
    requires
        header.wf(),
    ensures
        0 <= header.pending() < CAPACITY,
        header.pending() == (header.write_index - header.read_index) % (CAPACITY as int),
        header.spec_is_empty() <==> header.pending() == 0,
        header.spec_is_full() <==> header.pending() == CAPACITY - 1,
{
}

/// Publishing a write index on a ring that is not full, or a read index on
/// one that is not empty, leaves the header well formed and moves the number
/// of pending records by one.
pub proof fn lemma_publish_steps(header: Header)
    requires
        header.wf(),
    ensures
        !header.spec_is_full() ==> {
            let after = Header {
                read_index: header.read_index,
                write_index: next_index(header.write_index as int) as usize,
            };
            after.wf() && after.pending() == header.pending() + 1
        },
        !header.spec_is_empty() ==> {
            let after = Header {
                read_index: next_index(header.read_index as int) as usize,
                write_index: header.write_index,
            };
            after.wf() && after.pending() == header.pending() - 1
        },
{
}

/// The segment is the header followed by `CAPACITY` records, and a record is
/// the operation byte followed by the two buffers.
pub proof fn lemma_segment_layout()
    ensures
        REQUEST_SIZE == 1 + KEY_CAPACITY + VALUE_CAPACITY,
        SHARED_MEMORY_SIZE == HEADER_SIZE + CAPACITY * REQUEST_SIZE,
{
}

/// A slot that was written and not published is invisible: whatever a slot
/// outside the published range holds, the pending records are the same. The
/// slot at the write index is such a slot.
pub proof fn lemma_unpublished_slot_invisible(
    header: Header,
    slots: Seq<Request>,
    index: int,
    record: Request,
)
    requires
        header.wf(),
        slots.len() == CAPACITY,
        0 <= index < CAPACITY,
        (index - header.read_index) % (CAPACITY as int) >= header.pending(),
    ensures
        pending_records(header, slots.update(index, record)) == pending_records(header, slots),
        (header.write_index - header.read_index) % (CAPACITY as int) >= header.pending(),
{
    assert(pending_records(header, slots.update(index, record)) =~= pending_records(
        header,
        slots,
    ));
}

/// One enqueue for each of `requests`, in order.
pub open spec fn enqueues(requests: Seq<Request>) -> Seq<Event> {
    Seq::new(requests.len(), |i: int| Event::Enqueue(requests[i]))
}

/// An empty ring accepts up to `CAPACITY - 1` records in a row and then
/// holds them in order; once it holds `CAPACITY - 1`, the next enqueue is
/// refused and changes nothing.
pub proof fn lemma_capacity(requests: Seq<Request>, extra: Request)
    requires
        requests.len() <= CAPACITY - 1,
    ensures
        run(Seq::empty(), enqueues(requests)) == requests,
        accepted(Seq::empty(), enqueues(requests)) == requests,
        requests.len() == CAPACITY - 1 ==> after_enqueue(requests, extra) == requests,
        requests.len() < CAPACITY - 1 ==> after_enqueue(requests, extra) == requests.push(extra),
    decreases requests.len(),
{
    if requests.len() == 0 {
        assert(enqueues(requests) =~= Seq::<Event>::empty());
        assert(requests =~= Seq::<Request>::empty());
    } else {
        let earlier = requests.drop_last();
        lemma_capacity(earlier, requests.last());
        assert(enqueues(requests).drop_last() =~= enqueues(earlier));
        assert(enqueues(requests).last() == Event::Enqueue(requests.last()));
        assert(earlier.push(requests.last()) =~= requests);
    }
}

} // verus!
