//! The ring protocol: a header of two indices over a fixed number of slots.
//! The ring is empty where the indices are equal and full where the write
//! index stands one slot behind the read index, so one slot always stays
//! unused.

use vstd::prelude::*;
use crate::request::{Operation, Request, REQUEST_SIZE};

verus! {

/// The number of slots in the ring.
pub const CAPACITY: usize = 10;

/// The size of the header in the shared segment: two 64-bit words.
pub const HEADER_SIZE: usize = 16;

/// The name of the shared segment.
pub const SEGMENT_NAME: &'static str = "RequestQueue";

/// The size of the shared segment: the header, then the slots.
pub const SHARED_MEMORY_SIZE: usize = HEADER_SIZE + REQUEST_SIZE * CAPACITY;

/// The index that follows `index` in the ring.
pub open spec fn next_index(index: int) -> int {
    (index + 1) % (CAPACITY as int)
}

/// The two indices of the ring. The consumer owns `read_index`, the producer
/// owns `write_index`.
#[derive(Debug, Copy, Clone, PartialEq, Eq, Structural)]
pub struct Header {
    pub read_index: usize,
    pub write_index: usize,
}

/// Why an enqueue or a dequeue did nothing.
#[derive(Debug, Copy, Clone, PartialEq, Eq, Structural)]
pub enum QueueError {
    /// The producer found the write index one slot behind the read index.
    QueueFull,
    /// The consumer found the two indices equal.
    QueueEmpty,
}

impl QueueError {
    /// The error in words.
    pub open spec fn spec_message(self) -> Seq<char> {
        match self {
            QueueError::QueueFull => "Queue is full"@,
            QueueError::QueueEmpty => "Queue is empty"@,
        }
    }

    /// The error in words.
    pub fn message(self) -> (message: &'static str)
        ensures
            message@ == self.spec_message(),
    {
        match self {
            QueueError::QueueFull => "Queue is full",
            QueueError::QueueEmpty => "Queue is empty",
        }
    }
}

/// One step of the protocol that was found possible: the slot to copy the
/// record into or out of, and the index to publish after the copy.
#[derive(Debug, Copy, Clone, PartialEq, Eq, Structural)]
pub struct Ticket {
    pub slot: usize,
    pub next: usize,
}

impl Header {
    /// Both indices address a slot.
    pub open spec fn wf(self) -> bool {
        self.read_index < CAPACITY && self.write_index < CAPACITY
    }

    /// The number of records that were published and not yet consumed.
    pub open spec fn pending(self) -> int {
        (self.write_index - self.read_index) % (CAPACITY as int)
    }

    /// The consumer has nothing to take.
    pub open spec fn spec_is_empty(self) -> bool {
        self.read_index == self.write_index
    }

    /// The producer has no slot to fill.
    pub open spec fn spec_is_full(self) -> bool {
        next_index(self.write_index as int) == self.read_index
    }

    /// The header of an empty ring.
    pub fn new() -> (header: Header)
        ensures
            header.read_index == 0,
            header.write_index == 0,
            header.wf(),
            header.pending() == 0,
    {
        Header { read_index: 0, write_index: 0 }
    }

    /// Whether both indices address a slot.
    pub fn is_valid(&self) -> (valid: bool)
        ensures
            valid == self.wf(),
    {
        self.read_index < CAPACITY && self.write_index < CAPACITY
    }

    /// The number of records that were published and not yet consumed.
    pub fn len(&self) -> (n: usize)
        requires
            self.wf(),
        ensures
            n == self.pending(),
            n <= CAPACITY - 1,
    {
        if self.write_index >= self.read_index {
            self.write_index - self.read_index
        } else {
            CAPACITY - self.read_index + self.write_index
        }
    }

    /// Whether the consumer has nothing to take.
    pub fn is_empty(&self) -> (empty: bool)
        requires
            self.wf(),
        ensures
            empty == self.spec_is_empty(),
            empty == (self.pending() == 0),
    {
        self.read_index == self.write_index
    }

    /// Whether the producer has no slot to fill.
    pub fn is_full(&self) -> (full: bool)
        requires
            self.wf(),
        ensures
            full == self.spec_is_full(),
            full == (self.pending() == CAPACITY - 1),
    {
        (self.write_index + 1) % CAPACITY == self.read_index
    }

    /// The producer's decision: the slot to copy the record into and the
    /// write index to publish after the copy, or `QueueFull`.
    pub fn plan_enqueue(&self) -> (plan: Result<Ticket, QueueError>)
        requires
            self.wf(),
        ensures
            match plan {
                Ok(ticket) => {
                    &&& !self.spec_is_full()
                    &&& ticket.slot == self.write_index
                    &&& ticket.next == next_index(self.write_index as int)
                },
                Err(error) => self.spec_is_full() && error == QueueError::QueueFull,
            },
    {
        let next = (self.write_index + 1) % CAPACITY;
        if next == self.read_index {
            Err(QueueError::QueueFull)
        } else {
            Ok(Ticket { slot: self.write_index, next })
        }
    }

    /// The consumer's decision: the slot to copy the record out of and the
    /// read index to publish after the copy, or `QueueEmpty`.
    pub fn plan_dequeue(&self) -> (plan: Result<Ticket, QueueError>)
        requires
            self.wf(),
        ensures
            match plan {
                Ok(ticket) => {
                    &&& !self.spec_is_empty()
                    &&& ticket.slot == self.read_index
                    &&& ticket.next == next_index(self.read_index as int)
                },
                Err(error) => self.spec_is_empty() && error == QueueError::QueueEmpty,
            },
    {
        if self.read_index == self.write_index {
            Err(QueueError::QueueEmpty)
        } else {
            Ok(Ticket { slot: self.read_index, next: (self.read_index + 1) % CAPACITY })
        }
    }
}

/// The byte offset of slot `index` in the shared segment.
pub fn slot_offset(index: usize) -> (offset: usize)
    requires
        index < CAPACITY,
    ensures
        offset == HEADER_SIZE + index * REQUEST_SIZE,
        offset + REQUEST_SIZE <= SHARED_MEMORY_SIZE,
{
    HEADER_SIZE + index * REQUEST_SIZE
}

/// The records that a ring holds for the consumer, oldest first: those in
/// the slots from the read index up to the write index.
pub open spec fn pending_records(header: Header, slots: Seq<Request>) -> Seq<Request> {
    Seq::new(
        header.pending() as nat,
        |i: int| slots[(header.read_index + i) % (CAPACITY as int)],
    )
}

/// The pending records after an enqueue: the record joins at the tail unless
/// the ring is full.
pub open spec fn after_enqueue(pending: Seq<Request>, request: Request) -> Seq<Request> {
    if pending.len() < CAPACITY - 1 {
        pending.push(request)
    } else {
        pending
    }
}

/// The pending records after a dequeue: the oldest one leaves unless the ring
/// is empty.
pub open spec fn after_dequeue(pending: Seq<Request>) -> Seq<Request> {
    if pending.len() > 0 {
        pending.drop_first()
    } else {
        pending
    }
}

/// A ring of records with its header, held in this process's memory.
pub struct RequestQueue {
    header: Header,
    slots: Vec<Request>,
}

impl View for RequestQueue {
    type V = Seq<Request>;

    /// The pending records, oldest first.
    open spec fn view(&self) -> Seq<Request> {
        pending_records(self.spec_header(), self.spec_slots())
    }
}

/// The record that a zero-filled slot holds: a `GET` with an empty key and an
/// empty value.
pub open spec fn is_blank(request: Request) -> bool {
    &&& request.operation == Operation::GET
    &&& forall|i: int| 0 <= i < 64 ==> request.key@[i] == 0
    &&& forall|i: int| 0 <= i < 256 ==> request.value@[i] == 0
}

impl RequestQueue {
    /// The ring's header.
    pub closed spec fn spec_header(&self) -> Header {
        self.header
    }

    /// What the slots hold, published or not.
    pub closed spec fn spec_slots(&self) -> Seq<Request> {
        self.slots@
    }

    /// The header addresses slots, and there are `CAPACITY` of them.
    pub open spec fn wf(&self) -> bool {
        &&& self.spec_header().wf()
        &&& self.spec_slots().len() == CAPACITY
    }

    /// An empty ring whose slots are zero filled.
    pub fn new() -> (queue: RequestQueue)
        ensures
            queue.wf(),
            queue@ == Seq::<Request>::empty(),
            queue.spec_header() == (Header { read_index: 0, write_index: 0 }),
            forall|i: int| 0 <= i < CAPACITY ==> is_blank(#[trigger] queue.spec_slots()[i]),
    {
        let blank = Request { operation: Operation::GET, key: [0u8;64], value: [0u8;256] };
        let mut slots: Vec<Request> = Vec::new();
        let mut i: usize = 0;
        while i < CAPACITY
            invariant
                i <= CAPACITY,
                slots@.len() == i,
                is_blank(blank),
                forall|k: int| 0 <= k < i ==> slots@[k] == blank,
            decreases CAPACITY - i,
        {
            slots.push(blank);
            i += 1;
        }
        let queue = RequestQueue { header: Header::new(), slots };
        assert(queue@ =~= Seq::<Request>::empty());
        queue
    }

    /// A copy of the header.
    pub fn header(&self) -> (header: Header)
        ensures
            header == self.spec_header(),
    {
        self.header
    }

    /// A copy of what slot `index` holds, published or not.
    pub fn slot(&self, index: usize) -> (request: Request)
        requires
            self.wf(),
            index < CAPACITY,
        ensures
            request == self.spec_slots()[index as int],
    {
        self.slots[index]
    }

    /// The number of pending records.
    pub fn len(&self) -> (n: usize)
        requires
            self.wf(),
        ensures
            n == self@.len(),
            n <= CAPACITY - 1,
    {
        self.header.len()
    }

    /// The producer's first step alone: copies `request` into the slot at the
    /// write index and publishes nothing. The consumer sees no change.
    pub fn stage(&mut self, request: Request) -> (plan: Result<Ticket, QueueError>)
        requires
            old(self).wf(),
        ensures
            final(self).wf(),
            final(self)@ == old(self)@,
            final(self).spec_header() == old(self).spec_header(),
            match plan {
                Ok(ticket) => {
                    &&& old(self)@.len() < CAPACITY - 1
                    &&& ticket.slot == old(self).spec_header().write_index
                    &&& ticket.next == next_index(ticket.slot as int)
                    &&& final(self).spec_slots() == old(self).spec_slots().update(
                        ticket.slot as int,
                        request,
                    )
                },
                Err(error) => {
                    &&& old(self)@.len() == CAPACITY - 1
                    &&& error == QueueError::QueueFull
                    &&& final(self).spec_slots() == old(self).spec_slots()
                },
            },
    {
        match self.header.plan_enqueue() {
            Ok(ticket) => {
                self.slots.set(ticket.slot, request);
                assert(self@ =~= old(self)@);
                Ok(ticket)
            },
            Err(error) => Err(error),
        }
    }

    /// The producer's second step alone: advances the write index, which
    /// hands the record in the slot at the write index to the consumer.
    pub fn publish(&mut self)
        requires
            old(self).wf(),
            old(self)@.len() < CAPACITY - 1,
        ensures
            final(self).wf(),
            final(self)@ == old(self)@.push(
                old(self).spec_slots()[old(self).spec_header().write_index as int],
            ),
            final(self).spec_slots() == old(self).spec_slots(),
            final(self).spec_header() == (Header {
                read_index: old(self).spec_header().read_index,
                write_index: next_index(old(self).spec_header().write_index as int) as usize,
            }),
    {
        self.header.write_index = (self.header.write_index + 1) % CAPACITY;
        assert(self@ =~= old(self)@.push(old(self).slots@[old(self).header.write_index as int]));
    }

    /// Appends `request` behind the pending records, or fails with
    /// `QueueFull` and changes nothing where `CAPACITY - 1` records are
    /// pending.
    pub fn enqueue(&mut self, request: Request) -> (done: Result<(), QueueError>)
        requires
            old(self).wf(),
        ensures
            final(self).wf(),
            final(self)@ == after_enqueue(old(self)@, request),
            match done {
                Ok(_) => {
                    &&& old(self)@.len() < CAPACITY - 1
                    &&& final(self).spec_slots() == old(self).spec_slots().update(
                        old(self).spec_header().write_index as int,
                        request,
                    )
                    &&& final(self).spec_header() == (Header {
                        read_index: old(self).spec_header().read_index,
                        write_index: next_index(old(self).spec_header().write_index as int) as usize,
                    })
                },
                Err(error) => {
                    &&& old(self)@.len() == CAPACITY - 1
                    &&& error == QueueError::QueueFull
                    &&& final(self).spec_header() == old(self).spec_header()
                    &&& final(self).spec_slots() == old(self).spec_slots()
                },
            },
    {
        match self.stage(request) {
            Ok(_) => {
                self.publish();
                Ok(())
            },
            Err(error) => Err(error),
        }
    }

    /// Takes the oldest pending record, or fails with `QueueEmpty` and
    /// changes nothing where none is pending.
    pub fn dequeue(&mut self) -> (taken: Result<Request, QueueError>)
        requires
            old(self).wf(),
        ensures
            final(self).wf(),
            final(self)@ == after_dequeue(old(self)@),
            final(self).spec_slots() == old(self).spec_slots(),
            match taken {
                Ok(request) => {
                    &&& old(self)@.len() > 0
                    &&& request == old(self)@[0]
                    &&& final(self).spec_header() == (Header {
                        read_index: next_index(old(self).spec_header().read_index as int) as usize,
                        write_index: old(self).spec_header().write_index,
                    })
                },
                Err(error) => {
                    &&& old(self)@.len() == 0
                    &&& error == QueueError::QueueEmpty
                    &&& final(self).spec_header() == old(self).spec_header()
                },
            },
    {
        match self.header.plan_dequeue() {
            Ok(ticket) => {
                let request = self.slots[ticket.slot];
                self.header.read_index = ticket.next;
                assert(self@ =~= old(self)@.drop_first());
                Ok(request)
            },
            Err(error) => Err(error),
        }
    }
}

} // verus!
