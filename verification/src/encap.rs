use vstd::prelude::*;

use crate::grpc::{GrpcCode, Status};
use crate::io_error::IoErrorKind;

verus! {

/// The bytes of the chunks, one after the other.
pub open spec fn flatten(chunks: Seq<Seq<u8>>) -> Seq<u8>
    decreases chunks.len(),
{
    if chunks.len() == 0 {
        Seq::<u8>::empty()
    } else {
        flatten(chunks.drop_last()) + chunks.last()
    }
}

/// The byte vectors of a vector of chunks, as texts.
pub open spec fn chunks_of(v: Seq<Vec<u8>>) -> Seq<Seq<u8>> {
    v.map_values(|c: Vec<u8>| c@)
}

/// Appending chunks to a queue appends their bytes to the queue's bytes: what is
/// written comes out in the order it went in.
pub proof fn lemma_flatten_append(a: Seq<Seq<u8>>, b: Seq<Seq<u8>>)
    ensures
        flatten(a + b) == flatten(a) + flatten(b),
    decreases b.len(),
{
    if b.len() == 0 {
        assert(a + b =~= a);
        assert(flatten(a) + flatten(b) =~= flatten(a));
    } else {
        lemma_flatten_append(a, b.drop_last());
        assert((a + b).drop_last() =~= a + b.drop_last());
        assert((a + b).last() == b.last());
        assert(flatten(a + b) =~= flatten(a) + flatten(b));
    }
}

/// What is handed out of a frame and what is kept of it make up the frame: no byte
/// is lost, repeated or reordered, whatever room the reader has.
pub proof fn lemma_frame_split(food: Seq<u8>, room: int)
    requires
        room >= 0,
    ensures
        food.take(min(room, food.len() as int)) + food.skip(min(room, food.len() as int)) == food,
{
    assert(food.take(min(room, food.len() as int)) + food.skip(min(room, food.len() as int)) =~= food);
}

/// What the write queue holds, as far as its users can tell: the queued chunks
/// and whether the writer has shut down.
pub struct QueueModel {
    pub pending: Seq<Seq<u8>>,
    pub eof: bool,
}

/// A call on the write queue.
pub enum QueueOp {
    Write(Seq<u8>),
    Flush,
    Shutdown,
    Next,
}

/// The queue after a write: the bytes are queued, unless the queue already holds
/// at least `TO_GATEWAY_BUFFER` bytes, in which case the writer waits.
pub open spec fn after_write(pending: Seq<Seq<u8>>, buf: Seq<u8>) -> Seq<Seq<u8>> {
    if flatten(pending).len() >= TO_GATEWAY_BUFFER {
        pending
    } else {
        pending.push(buf)
    }
}

/// The write queue holds at most 500 bytes before writers wait: a write to a
/// queue holding fewer than 500 bytes is queued whole, behind what is there,
/// whatever its own length; at 500 bytes or more nothing is queued.
pub proof fn lemma_write_limit(pending: Seq<Seq<u8>>, buf: Seq<u8>)
    ensures
        flatten(pending).len() < 500 ==> after_write(pending, buf) == pending.push(buf),
        flatten(pending).len() >= 500 ==> after_write(pending, buf) == pending,
        flatten(pending).len() < 500 ==> flatten(after_write(pending, buf)) == flatten(pending) + buf,
{
    if flatten(pending).len() < 500 {
        assert(pending.push(buf).drop_last() =~= pending);
    }
}

/// The queue after one call.
pub open spec fn apply_op(q: QueueModel, op: QueueOp) -> QueueModel {
    match op {
        QueueOp::Write(buf) => QueueModel { pending: after_write(q.pending, buf), eof: q.eof },
        QueueOp::Flush => q,
        QueueOp::Shutdown => QueueModel { pending: q.pending, eof: true },
        QueueOp::Next => if q.pending.len() > 0 {
            QueueModel { pending: Seq::<Seq<u8>>::empty(), eof: q.eof }
        } else {
            q
        },
    }
}

/// The queue after a run of calls.
pub open spec fn run_ops(q: QueueModel, ops: Seq<QueueOp>) -> QueueModel
    decreases ops.len(),
{
    if ops.len() == 0 {
        q
    } else {
        run_ops(apply_op(q, ops[0]), ops.skip(1))
    }
}

/// What the reader gets when it takes from the queue.
pub enum NextOutcome {
    /// Every queued chunk, in order.
    Batch(Seq<Seq<u8>>),
    /// The end of the stream.
    End,
    /// Nothing yet: the reader waits.
    Wait,
}

pub open spec fn next_outcome(q: QueueModel) -> NextOutcome {
    if q.pending.len() > 0 {
        NextOutcome::Batch(q.pending)
    } else if q.eof {
        NextOutcome::End
    } else {
        NextOutcome::Wait
    }
}

/// The queue after each of the writes, one after the other.
pub open spec fn run_writes(pending: Seq<Seq<u8>>, writes: Seq<Seq<u8>>) -> Seq<Seq<u8>>
    decreases writes.len(),
{
    if writes.len() == 0 {
        pending
    } else {
        run_writes(after_write(pending, writes[0]), writes.skip(1))
    }
}

/// Writes that each found fewer than `TO_GATEWAY_BUFFER` bytes queued are queued
/// one after the other, in order, behind what was queued before: from an empty
/// queue the reader's next take is exactly the writes, none merged, dropped or
/// reordered, and afterwards the queue is empty, so a flush is ready at once.
pub proof fn lemma_writes_then_take(pending: Seq<Seq<u8>>, writes: Seq<Seq<u8>>)
    requires
        forall|i: int|
            0 <= i < writes.len() ==> #[trigger] flatten(pending + writes.take(i)).len()
                < TO_GATEWAY_BUFFER,
    ensures
        run_writes(pending, writes) == pending + writes,
        writes.len() > 0 ==> next_outcome(QueueModel { pending: run_writes(pending, writes), eof: false })
            == NextOutcome::Batch(pending + writes),
        writes.len() > 0 ==> apply_op(
            QueueModel { pending: run_writes(pending, writes), eof: false },
            QueueOp::Next,
        ).pending.len() == 0,
    decreases writes.len(),
{
    if writes.len() == 0 {
        assert(pending + writes =~= pending);
    } else {
        assert(pending + writes.take(0) =~= pending);
        assert(flatten(pending + writes.take(0)).len() < TO_GATEWAY_BUFFER);
        let p2 = pending.push(writes[0]);
        let w2 = writes.skip(1);
        assert forall|i: int| 0 <= i < w2.len() implies #[trigger] flatten(p2 + w2.take(i)).len()
            < TO_GATEWAY_BUFFER by {
            assert(p2 + w2.take(i) =~= pending + writes.take(i + 1));
            assert(flatten(pending + writes.take(i + 1)).len() < TO_GATEWAY_BUFFER);
        }
        lemma_writes_then_take(p2, w2);
        assert(p2 + w2 =~= pending + writes);
    }
}

/// Once the writer has shut down, no call opens the queue again.
pub proof fn lemma_eof_is_sticky(q: QueueModel, ops: Seq<QueueOp>)
    requires
        q.eof,
    ensures
        run_ops(q, ops).eof,
    decreases ops.len(),
{
    if ops.len() > 0 {
        lemma_eof_is_sticky(apply_op(q, ops[0]), ops.skip(1));
    }
}

/// After shut down, once the reader has taken what was left and nothing more is
/// written, every later take is the end of the stream: never a wait.
pub proof fn lemma_end_after_shutdown(q: QueueModel, ops: Seq<QueueOp>)
    requires
        q.eof,
        q.pending.len() == 0,
        forall|i: int| 0 <= i < ops.len() ==> !(#[trigger] ops[i] is Write),
    ensures
        run_ops(q, ops).eof,
        run_ops(q, ops).pending.len() == 0,
        next_outcome(run_ops(q, ops)) == NextOutcome::End,
    decreases ops.len(),
{
    if ops.len() > 0 {
        let q2 = apply_op(q, ops[0]);
        assert(!(ops[0] is Write));
        assert forall|i: int| 0 <= i < ops.skip(1).len() implies !(#[trigger] ops.skip(1)[i] is Write) by {
            assert(ops.skip(1)[i] == ops[i + 1]);
        }
        lemma_end_after_shutdown(q2, ops.skip(1));
    }
}

/// One poll of the tunnel's reading side, given the frames that the gateway
/// will still send: the bytes handed out, what is left over afterwards, and the
/// frames not yet taken. Leftover bytes are served first; otherwise empty frames
/// are skipped and the first frame with bytes is served as `accept_frame` serves
/// it; with no frame left the poll hands out nothing, the end of the stream.
pub open spec fn poll_read_model(leftover: Seq<u8>, frames: Seq<Seq<u8>>, room: nat) -> (
    Seq<u8>,
    Seq<u8>,
    Seq<Seq<u8>>,
)
    decreases frames.len(),
{
    if leftover.len() > 0 {
        let n = min(room as int, leftover.len() as int);
        (leftover.take(n), leftover.skip(n), frames)
    } else if frames.len() == 0 {
        (Seq::<u8>::empty(), Seq::<u8>::empty(), frames)
    } else if frames[0].len() == 0 {
        poll_read_model(leftover, frames.skip(1), room)
    } else {
        let n = min(room as int, frames[0].len() as int);
        (frames[0].take(n), frames[0].skip(n), frames.skip(1))
    }
}

/// One poll keeps every byte in order and hands out no more than the room; a
/// poll with room that hands out nothing comes only once every byte is out.
pub proof fn lemma_poll_read_step(leftover: Seq<u8>, frames: Seq<Seq<u8>>, room: nat)
    ensures
        ({
            let (put, left, rest) = poll_read_model(leftover, frames, room);
            &&& put + left + flatten_front(rest) == leftover + flatten_front(frames)
            &&& put.len() <= room
            &&& room > 0 && put.len() == 0 ==> leftover.len() == 0 && flatten_front(frames).len() == 0
                && left.len() == 0 && flatten_front(rest).len() == 0
        }),
    decreases frames.len(),
{
    if leftover.len() > 0 {
        let n = min(room as int, leftover.len() as int);
        assert(leftover.take(n) + leftover.skip(n) =~= leftover);
    } else if frames.len() == 0 {
        assert(leftover =~= Seq::<u8>::empty());
    } else if frames[0].len() == 0 {
        lemma_poll_read_step(leftover, frames.skip(1), room);
        assert(flatten_front(frames) == frames[0] + flatten_front(frames.skip(1)));
        assert(frames[0] + flatten_front(frames.skip(1)) =~= flatten_front(frames.skip(1)));
    } else {
        let f = frames[0];
        let n = min(room as int, f.len() as int);
        assert(flatten_front(frames) == f + flatten_front(frames.skip(1)));
        assert(f.take(n) + f.skip(n) =~= f);
        assert(leftover =~= Seq::<u8>::empty());
        assert(f.take(n) + f.skip(n) + flatten_front(frames.skip(1)) =~= leftover + (f
            + flatten_front(frames.skip(1))));
    }
}

/// The frames' bytes one after the other, counted from the first frame.
pub open spec fn flatten_front(frames: Seq<Seq<u8>>) -> Seq<u8>
    decreases frames.len(),
{
    if frames.len() == 0 {
        Seq::<u8>::empty()
    } else {
        frames[0] + flatten_front(frames.skip(1))
    }
}

/// What a run of polls with the given rooms hands out, one poll after the other.
pub open spec fn run_reads(leftover: Seq<u8>, frames: Seq<Seq<u8>>, rooms: Seq<nat>) -> (
    Seq<u8>,
    Seq<u8>,
    Seq<Seq<u8>>,
)
    decreases rooms.len(),
{
    if rooms.len() == 0 {
        (Seq::<u8>::empty(), leftover, frames)
    } else {
        let (put, left, rest) = poll_read_model(leftover, frames, rooms[0]);
        let (more, left2, rest2) = run_reads(left, rest, rooms.skip(1));
        (put + more, left2, rest2)
    }
}

/// Over any run of polls, the bytes handed out, then what is left over, then the
/// frames not yet taken are the leftover and the frames' bytes, in order: the
/// tunnel delivers every byte the gateway sends, whole and in order, none lost or
/// repeated.
pub proof fn lemma_reads_deliver_in_order(leftover: Seq<u8>, frames: Seq<Seq<u8>>, rooms: Seq<nat>)
    ensures
        ({
            let (out, left, rest) = run_reads(leftover, frames, rooms);
            out + left + flatten_front(rest) == leftover + flatten_front(frames)
        }),
    decreases rooms.len(),
{
    if rooms.len() > 0 {
        let (put, left, rest) = poll_read_model(leftover, frames, rooms[0]);
        lemma_poll_read_step(leftover, frames, rooms[0]);
        lemma_reads_deliver_in_order(left, rest, rooms.skip(1));
        let (more, left2, rest2) = run_reads(left, rest, rooms.skip(1));
        assert(put + more + left2 + flatten_front(rest2) =~= put + (more + left2 + flatten_front(
            rest2,
        )));
        assert(put + left + flatten_front(rest) =~= put + (left + flatten_front(rest)));
    } else {
        assert(Seq::<u8>::empty() + leftover + flatten_front(frames) =~= leftover + flatten_front(
            frames,
        ));
    }
}

/// Puts all the chunks into one vector, in order.
pub fn concat_chunks(chunks: Vec<Vec<u8>>) -> (r: Vec<u8>)
    ensures
        r@ == flatten(chunks_of(chunks@)),
{
    let ghost all = chunks_of(chunks@);
    let mut r: Vec<u8> = Vec::new();
    let mut i: usize = 0;
    while i < chunks.len()
        invariant
            i <= chunks.len(),
            all == chunks_of(chunks@),
            r@ == flatten(all.take(i as int)),
        decreases chunks.len() - i,
    {
        assert(all.take(i + 1).drop_last() =~= all.take(i as int));
        assert(all[i as int] == chunks[i as int]@);
        let mut j: usize = 0;
        let ghost start = r@;
        while j < chunks[i].len()
            invariant
                i < chunks.len(),
                j <= chunks[i as int].len(),
                r@ == start + chunks[i as int]@.take(j as int),
            decreases chunks[i as int].len() - j,
        {
            r.push(chunks[i][j]);
            j = j + 1;
            assert(r@ =~= start + chunks[i as int]@.take(j as int));
        }
        assert(chunks[i as int]@.take(j as int) =~= chunks[i as int]@);
        i = i + 1;
    }
    assert(all.take(chunks.len() as int) =~= all);
    r
}

/// The outcome of polling: ready with a value, or pending until a wake-up.
#[derive(Debug, PartialEq, Eq)]
pub enum PollState<T> {
    Ready(T),
    Pending,
}

/// What a poll of the write queue answers, and the waker, if any, that must be
/// woken as a consequence.
pub struct Polled<T, W> {
    pub poll: PollState<T>,
    pub wake: Option<W>,
}

/// Past this many queued bytes, a writer waits for the queue to be sent before
/// it queues more.
pub const TO_GATEWAY_BUFFER: usize = 500;

/// The queue of bytes on their way to the gateway, shared by the writer (the
/// local side of the tunnel) and the reader (the stream of requests to the
/// gateway). Each side parks its waker here when it must wait for the other.
pub struct ToGateway<W> {
    len: usize,
    data: Vec<Vec<u8>>,
    eof: bool,
    waiting_for_data: Option<W>,
    waiting_for_reader: Option<W>,
}

impl<W> ToGateway<W> {
    /// The chunks queued and not yet taken by the reader.
    pub closed spec fn pending(&self) -> Seq<Seq<u8>> {
        chunks_of(self.data@)
    }

    /// The writer has shut down its side.
    pub closed spec fn eof(&self) -> bool {
        self.eof
    }

    /// The reader's waker, parked while it waits for data.
    pub closed spec fn waiting_for_data(&self) -> Option<W> {
        self.waiting_for_data
    }

    /// The writer's waker, parked while it waits for the reader.
    pub closed spec fn waiting_for_reader(&self) -> Option<W> {
        self.waiting_for_reader
    }

    /// What the queue holds, as its users can tell.
    pub open spec fn model(&self) -> QueueModel {
        QueueModel { pending: self.pending(), eof: self.eof() }
    }

    /// The count of queued bytes that the queue keeps.
    pub closed spec fn queued_len(&self) -> nat {
        self.len as nat
    }

    /// The count of queued bytes matches the queue.
    pub closed spec fn wf(&self) -> bool {
        self.len == flatten(chunks_of(self.data@)).len()
    }

    /// The queue's count is the number of bytes in its chunks, so a queue that
    /// counts any byte holds a chunk. Every operation keeps this, as its
    /// `wf` postcondition says, and `new` establishes it.
    pub proof fn lemma_queued_len(&self)
        requires
            self.wf(),
        ensures
            self.queued_len() == flatten(self.pending()).len(),
            self.queued_len() > 0 ==> self.pending().len() > 0,
    {
        if self.pending().len() == 0 {
            assert(flatten(self.pending()) =~= Seq::<u8>::empty());
        }
    }

    /// An empty queue, open, with no waker parked.
    pub fn new() -> (r: Self)
        ensures
            r.wf(),
            r.pending() == Seq::<Seq<u8>>::empty(),
            !r.eof(),
            r.waiting_for_data() is None,
            r.waiting_for_reader() is None,
    {
        let r = ToGateway {
            len: 0,
            data: Vec::new(),
            eof: false,
            waiting_for_data: None,
            waiting_for_reader: None,
        };
        assert(r.pending() =~= Seq::<Seq<u8>>::empty());
        r
    }

    /// Waits until the reader has taken everything queued: ready at once when the
    /// queue is empty; otherwise wakes the reader and parks the writer's waker.
    pub fn poll_flush(&mut self, waker: W) -> (r: Polled<(), W>)
        requires
            old(self).wf(),
        ensures
            final(self).wf(),
            final(self).model() == apply_op(old(self).model(), QueueOp::Flush),
            final(self).pending() == old(self).pending(),
            final(self).eof() == old(self).eof(),
            old(self).pending().len() == 0 ==> r.poll == PollState::Ready(()) && r.wake is None
                && final(self).waiting_for_data() == old(self).waiting_for_data()
                && final(self).waiting_for_reader() == old(self).waiting_for_reader(),
            old(self).pending().len() > 0 ==> r.poll == PollState::<()>::Pending && r.wake
                == old(self).waiting_for_data() && final(self).waiting_for_data() is None
                && final(self).waiting_for_reader() == Some(waker),
    {
        if self.data.len() == 0 {
            Polled { poll: PollState::Ready(()), wake: None }
        } else {
            let wake = self.waiting_for_data.take();
            self.waiting_for_reader = Some(waker);
            Polled { poll: PollState::Pending, wake }
        }
    }

    /// Queues the bytes of `buf`, unless the queue already holds at least
    /// `TO_GATEWAY_BUFFER` bytes: then it first waits, as `poll_flush` does, for
    /// the reader to take them.
    pub fn poll_write(&mut self, waker: W, buf: &[u8]) -> (r: Polled<usize, W>)
        requires
            old(self).wf(),
            buf@.len() + TO_GATEWAY_BUFFER <= usize::MAX,
        ensures
            final(self).wf(),
            final(self).model() == apply_op(old(self).model(), QueueOp::Write(buf@)),
            final(self).eof() == old(self).eof(),
            flatten(old(self).pending()).len() >= TO_GATEWAY_BUFFER ==> r.poll
                == PollState::<usize>::Pending && r.wake == old(self).waiting_for_data()
                && final(self).pending() == old(self).pending() && final(self).waiting_for_data() is None
                && final(self).waiting_for_reader() == Some(waker),
            flatten(old(self).pending()).len() < TO_GATEWAY_BUFFER ==> r.poll == PollState::Ready(
                buf@.len() as usize,
            ) && r.wake is None && final(self).pending() == old(self).pending().push(buf@)
                && final(self).waiting_for_data() == old(self).waiting_for_data()
                && final(self).waiting_for_reader() == old(self).waiting_for_reader(),
    {
        if self.len >= TO_GATEWAY_BUFFER {
            if self.data.len() > 0 {
                let wake = self.waiting_for_data.take();
                self.waiting_for_reader = Some(waker);
                return Polled { poll: PollState::Pending, wake };
            }
            assert(chunks_of(self.data@) =~= Seq::<Seq<u8>>::empty());
        }
        let ghost before = self.data@;
        let mut chunk: Vec<u8> = Vec::new();
        let mut i: usize = 0;
        while i < buf.len()
            invariant
                i <= buf@.len(),
                chunk@ == buf@.take(i as int),
            decreases buf@.len() - i,
        {
            chunk.push(buf[i]);
            i = i + 1;
            assert(chunk@ =~= buf@.take(i as int));
        }
        assert(buf@.take(buf@.len() as int) =~= buf@);
        self.data.push(chunk);
        self.len = self.len + buf.len();
        assert(chunks_of(self.data@) =~= chunks_of(before).push(buf@));
        assert(chunks_of(self.data@).drop_last() =~= chunks_of(before));
        Polled { poll: PollState::Ready(buf.len()), wake: None }
    }

    /// Writes from the tunnel's local side: an empty buffer is accepted at once,
    /// without touching the queue; any other buffer goes to `poll_write`.
    pub fn write_from_tunnel(&mut self, waker: W, buf: &[u8]) -> (r: Polled<usize, W>)
        requires
            old(self).wf(),
            buf@.len() + TO_GATEWAY_BUFFER <= usize::MAX,
        ensures
            final(self).wf(),
            buf@.len() == 0 ==> r.poll == PollState::Ready(0usize) && r.wake is None && *final(self)
                == *old(self),
            buf@.len() > 0 ==> final(self).model() == apply_op(old(self).model(), QueueOp::Write(buf@)),
            buf@.len() > 0 && flatten(old(self).pending()).len() >= TO_GATEWAY_BUFFER ==> r.poll
                == PollState::<usize>::Pending && r.wake == old(self).waiting_for_data()
                && final(self).pending() == old(self).pending() && final(self).waiting_for_data() is None
                && final(self).waiting_for_reader() == Some(waker),
            buf@.len() > 0 && flatten(old(self).pending()).len() < TO_GATEWAY_BUFFER ==> r.poll
                == PollState::Ready(buf@.len() as usize) && r.wake is None && final(self).pending()
                == old(self).pending().push(buf@) && final(self).waiting_for_data() == old(
                self,
            ).waiting_for_data() && final(self).waiting_for_reader() == old(self).waiting_for_reader(),
    {
        if buf.len() == 0 {
            return Polled { poll: PollState::Ready(0), wake: None };
        }
        self.poll_write(waker, buf)
    }

    /// Marks the writer's side as shut down, then waits as `poll_flush` does.
    pub fn poll_shutdown(&mut self, waker: W) -> (r: Polled<(), W>)
        requires
            old(self).wf(),
        ensures
            final(self).wf(),
            final(self).model() == apply_op(old(self).model(), QueueOp::Shutdown),
            final(self).pending() == old(self).pending(),
            final(self).eof(),
            old(self).pending().len() == 0 ==> r.poll == PollState::Ready(()) && r.wake is None
                && final(self).waiting_for_data() == old(self).waiting_for_data()
                && final(self).waiting_for_reader() == old(self).waiting_for_reader(),
            old(self).pending().len() > 0 ==> r.poll == PollState::<()>::Pending && r.wake
                == old(self).waiting_for_data() && final(self).waiting_for_data() is None
                && final(self).waiting_for_reader() == Some(waker),
    {
        self.eof = true;
        self.poll_flush(waker)
    }

    /// Takes everything queued, as one batch of chunks. Where nothing is queued:
    /// the end of the stream once the writer has shut down; otherwise wakes the
    /// writer and parks the reader's waker.
    pub fn poll_next(&mut self, waker: W) -> (r: Polled<Option<Vec<Vec<u8>>>, W>)
        requires
            old(self).wf(),
        ensures
            final(self).wf(),
            final(self).model() == apply_op(old(self).model(), QueueOp::Next),
            match next_outcome(old(self).model()) {
                NextOutcome::Batch(b) => r.poll matches PollState::Ready(Some(d)) && chunks_of(d@) == b,
                NextOutcome::End => r.poll matches PollState::Ready(None),
                NextOutcome::Wait => r.poll is Pending,
            },
            final(self).eof() == old(self).eof(),
            old(self).pending().len() > 0 ==> (r.poll matches PollState::Ready(Some(d))
                && chunks_of(d@) == old(self).pending()) && r.wake is None
                && final(self).pending() == Seq::<Seq<u8>>::empty()
                && final(self).waiting_for_data() == old(self).waiting_for_data()
                && final(self).waiting_for_reader() == old(self).waiting_for_reader(),
            old(self).pending().len() == 0 && old(self).eof() ==> (r.poll matches PollState::Ready(
                None,
            )) && r.wake is None && final(self).pending() == old(self).pending()
                && final(self).waiting_for_data() == old(self).waiting_for_data()
                && final(self).waiting_for_reader() == old(self).waiting_for_reader(),
            old(self).pending().len() == 0 && !old(self).eof() ==> r.poll is Pending && r.wake
                == old(self).waiting_for_reader() && final(self).pending() == old(self).pending()
                && final(self).waiting_for_reader() is None && final(self).waiting_for_data()
                == Some(waker),
    {
        if self.data.len() > 0 {
            let mut data: Vec<Vec<u8>> = Vec::new();
            std::mem::swap(&mut data, &mut self.data);
            self.len = 0;
            assert(chunks_of(self.data@) =~= Seq::<Seq<u8>>::empty());
            return Polled { poll: PollState::Ready(Some(data)), wake: None };
        }
        if self.eof {
            return Polled { poll: PollState::Ready(None), wake: None };
        }
        let wake = self.waiting_for_reader.take();
        self.waiting_for_data = Some(waker);
        Polled { poll: PollState::Pending, wake }
    }
}

/// Where the gateway should connect a stream: a port of a pod in a namespace.
#[derive(Debug)]
pub struct Destination {
    pub namespace: Option<String>,
    pub pod: Option<String>,
    pub port: Option<u32>,
}

/// The destination for a port of a pod in a namespace.
pub fn destination(namespace: String, pod: String, port: u16) -> (r: Destination)
    ensures
        r.namespace == Some(namespace),
        r.pod == Some(pod),
        r.port == Some(port as u32),
{
    Destination { namespace: Some(namespace), pod: Some(pod), port: Some(port as u32) }
}

/// A message of the stream to the gateway: the destination, in the first
/// message only, and bytes.
#[derive(Debug)]
pub struct StreamRequest {
    pub connect_to: Option<Destination>,
    pub b: Option<Vec<u8>>,
}

/// A message of the stream from the gateway: bytes.
#[derive(Debug)]
pub struct StreamResponse {
    pub b: Option<Vec<u8>>,
}

/// Turns the batches that the write queue hands out into the requests of the
/// stream to the gateway.
pub struct ToGatewayStream {
    connect_to: Option<Destination>,
}

impl ToGatewayStream {
    /// The destination that the next request will carry, if any.
    pub closed spec fn connect_to(&self) -> Option<Destination> {
        self.connect_to
    }

    pub fn new(connect_to: Destination) -> (r: ToGatewayStream)
        ensures
            r.connect_to() == Some(connect_to),
    {
        ToGatewayStream { connect_to: Some(connect_to) }
    }

    /// The request that carries a batch: its bytes are the batch's chunks one after
    /// the other, and only the first request carries the destination.
    pub fn request_for(&mut self, bufs: Vec<Vec<u8>>) -> (r: StreamRequest)
        ensures
            r.connect_to == old(self).connect_to(),
            final(self).connect_to() is None,
            r.b matches Some(b) && b@ == flatten(chunks_of(bufs@)),
    {
        StreamRequest { connect_to: self.connect_to.take(), b: Some(concat_chunks(bufs)) }
    }

    /// Takes the next request of the stream from the write queue: a batch becomes
    /// a request (`request_for`), the queue's end becomes the end of the stream,
    /// and while the queue is empty and open the stream waits with it.
    pub fn poll_next_request<W>(&mut self, q: &mut ToGateway<W>, waker: W) -> (r: Polled<
        Option<StreamRequest>,
        W,
    >)
        requires
            old(q).wf(),
        ensures
            final(q).wf(),
            final(q).model() == apply_op(old(q).model(), QueueOp::Next),
            match next_outcome(old(q).model()) {
                NextOutcome::Batch(b) => (r.poll matches PollState::Ready(Some(req))
                    && req.connect_to == old(self).connect_to() && (req.b matches Some(x) && x@
                    == flatten(b))) && final(self).connect_to() is None && r.wake is None
                    && final(q).waiting_for_data() == old(q).waiting_for_data()
                    && final(q).waiting_for_reader() == old(q).waiting_for_reader(),
                NextOutcome::End => (r.poll matches PollState::Ready(None)) && final(self).connect_to()
                    == old(self).connect_to() && r.wake is None && final(q).waiting_for_data()
                    == old(q).waiting_for_data() && final(q).waiting_for_reader() == old(
                    q,
                ).waiting_for_reader(),
                NextOutcome::Wait => r.poll is Pending && final(self).connect_to() == old(
                    self,
                ).connect_to() && r.wake == old(q).waiting_for_reader() && final(q).waiting_for_data()
                    == Some(waker) && final(q).waiting_for_reader() is None,
            },
    {
        let p = q.poll_next(waker);
        match p.poll {
            PollState::Ready(Some(bufs)) => Polled {
                poll: PollState::Ready(Some(self.request_for(bufs))),
                wake: p.wake,
            },
            PollState::Ready(None) => Polled { poll: PollState::Ready(None), wake: p.wake },
            PollState::Pending => Polled { poll: PollState::Pending, wake: p.wake },
        }
    }
}

/// The destination and the bytes of each request that a run of batches becomes,
/// the first request carrying `first`.
pub open spec fn stream_requests(first: Option<Destination>, batches: Seq<Seq<Seq<u8>>>) -> Seq<
    (Option<Destination>, Seq<u8>),
>
    decreases batches.len(),
{
    if batches.len() == 0 {
        Seq::empty()
    } else {
        seq![(first, flatten(batches[0]))] + stream_requests(None, batches.skip(1))
    }
}

/// Over a run of batches, the stream to the gateway sends one request per batch,
/// with the batch's bytes in order; only the first request names the destination.
pub proof fn lemma_only_first_request_names_destination(
    first: Option<Destination>,
    batches: Seq<Seq<Seq<u8>>>,
)
    ensures
        stream_requests(first, batches).len() == batches.len(),
        forall|i: int|
            0 <= i < batches.len() ==> (#[trigger] stream_requests(first, batches)[i]).1 == flatten(
                batches[i],
            ),
        batches.len() > 0 ==> stream_requests(first, batches)[0].0 == first,
        forall|i: int| 0 < i < batches.len() ==> (#[trigger] stream_requests(first, batches)[i]).0 is None,
    decreases batches.len(),
{
    if batches.len() > 0 {
        lemma_only_first_request_names_destination(None, batches.skip(1));
        let rest = stream_requests(None, batches.skip(1));
        assert forall|i: int| 0 <= i < batches.len() implies (#[trigger] stream_requests(
            first,
            batches,
        )[i]).1 == flatten(batches[i]) by {
            if i > 0 {
                assert(stream_requests(first, batches)[i] == rest[i - 1]);
                assert(batches.skip(1)[i - 1] == batches[i]);
            }
        }
        assert forall|i: int| 0 < i < batches.len() implies (#[trigger] stream_requests(
            first,
            batches,
        )[i]).0 is None by {
            assert(stream_requests(first, batches)[i] == rest[i - 1]);
        }
    }
}

/// The kind of input/output failure that stands for a gRPC status code.
pub open spec fn io_kind_for_code(code: GrpcCode) -> IoErrorKind {
    match code {
        GrpcCode::InvalidArgument => IoErrorKind::InvalidInput,
        GrpcCode::DeadlineExceeded => IoErrorKind::TimedOut,
        GrpcCode::NotFound => IoErrorKind::NotFound,
        GrpcCode::AlreadyExists => IoErrorKind::AlreadyExists,
        GrpcCode::PermissionDenied => IoErrorKind::PermissionDenied,
        GrpcCode::ResourceExhausted => IoErrorKind::QuotaExceeded,
        GrpcCode::FailedPrecondition => IoErrorKind::InvalidInput,
        GrpcCode::Unauthenticated => IoErrorKind::PermissionDenied,
        _ => IoErrorKind::Other,
    }
}

/// The kind of input/output failure that a gRPC status from the gateway becomes.
pub fn status_to_io(code: GrpcCode) -> (r: IoErrorKind)
    ensures
        r == io_kind_for_code(code),
        (r == IoErrorKind::InvalidInput) <==> (code == GrpcCode::InvalidArgument || code
            == GrpcCode::FailedPrecondition),
        (r == IoErrorKind::PermissionDenied) <==> (code == GrpcCode::PermissionDenied || code
            == GrpcCode::Unauthenticated),
        (r == IoErrorKind::TimedOut) <==> (code == GrpcCode::DeadlineExceeded),
        (r == IoErrorKind::NotFound) <==> (code == GrpcCode::NotFound),
        (r == IoErrorKind::AlreadyExists) <==> (code == GrpcCode::AlreadyExists),
        (r == IoErrorKind::QuotaExceeded) <==> (code == GrpcCode::ResourceExhausted),
        r == IoErrorKind::InvalidInput || r == IoErrorKind::PermissionDenied || r
            == IoErrorKind::TimedOut || r == IoErrorKind::NotFound || r == IoErrorKind::AlreadyExists
            || r == IoErrorKind::QuotaExceeded || r == IoErrorKind::Other,
{
    match code {
        GrpcCode::InvalidArgument => IoErrorKind::InvalidInput,
        GrpcCode::DeadlineExceeded => IoErrorKind::TimedOut,
        GrpcCode::NotFound => IoErrorKind::NotFound,
        GrpcCode::AlreadyExists => IoErrorKind::AlreadyExists,
        GrpcCode::PermissionDenied => IoErrorKind::PermissionDenied,
        GrpcCode::ResourceExhausted => IoErrorKind::QuotaExceeded,
        GrpcCode::FailedPrecondition => IoErrorKind::InvalidInput,
        GrpcCode::Unauthenticated => IoErrorKind::PermissionDenied,
        _ => IoErrorKind::Other,
    }
}

/// A frame from the gateway that did not fit into the reader's buffer: the bytes
/// not yet handed out are `food[eaten..]`.
pub struct UnfinishedMeal {
    food: Vec<u8>,
    eaten: usize,
}

/// The reading side of a tunnel: the part of the last frame that is still to be
/// handed out.
pub struct ReadBuffer {
    unfinished_meal: Option<UnfinishedMeal>,
}

pub open spec fn min(a: int, b: int) -> int {
    if a <= b {
        a
    } else {
        b
    }
}

impl ReadBuffer {
    /// The bytes received and not yet handed out.
    pub closed spec fn leftover(&self) -> Seq<u8> {
        match self.unfinished_meal {
            None => Seq::<u8>::empty(),
            Some(m) => m.food@.skip(m.eaten as int),
        }
    }

    /// Some bytes are left over exactly where a frame is unfinished.
    pub closed spec fn wf(&self) -> bool {
        match self.unfinished_meal {
            None => true,
            Some(m) => m.eaten < m.food@.len(),
        }
    }

    /// A reader with nothing left over.
    pub fn new() -> (r: ReadBuffer)
        ensures
            r.wf(),
            r.leftover() == Seq::<u8>::empty(),
    {
        ReadBuffer { unfinished_meal: None }
    }

    /// Whether bytes are left over from an earlier frame.
    pub fn has_leftover(&self) -> (r: bool)
        requires
            self.wf(),
        ensures
            r == (self.leftover().len() > 0),
    {
        match &self.unfinished_meal {
            None => false,
            Some(_) => true,
        }
    }

    /// Hands out as much of the leftover as fits in `room` bytes, the first bytes
    /// first; `None` where nothing is left over.
    pub fn take_leftover(&mut self, room: usize) -> (r: Option<Vec<u8>>)
        requires
            old(self).wf(),
        ensures
            final(self).wf(),
            old(self).leftover().len() == 0 ==> r is None && final(self).leftover() == old(
                self,
            ).leftover(),
            old(self).leftover().len() > 0 ==> (r matches Some(put) && put@ == old(
                self,
            ).leftover().take(min(room as int, old(self).leftover().len() as int))
                && final(self).leftover() == old(self).leftover().skip(
                min(room as int, old(self).leftover().len() as int),
            )),
    {
        match self.unfinished_meal.take() {
            None => None,
            Some(meal) => {
                let rest_len = meal.food.len() - meal.eaten;
                let n = if rest_len <= room {
                    rest_len
                } else {
                    room
                };
                let put = slice_of(&meal.food, meal.eaten, meal.eaten + n);
                assert(put@ =~= meal.food@.skip(meal.eaten as int).take(n as int));
                if rest_len > room {
                    let eaten = meal.eaten + n;
                    self.unfinished_meal = Some(UnfinishedMeal { food: meal.food, eaten });
                    assert(self.leftover() =~= meal.food@.skip(meal.eaten as int).skip(n as int));
                } else {
                    assert(meal.food@.skip(meal.eaten as int).skip(n as int) =~= Seq::<
                        u8,
                    >::empty());
                }
                Some(put)
            },
        }
    }

    /// Takes a frame from the gateway while nothing is left over: an empty frame
    /// is skipped (`None`); otherwise as much of it as fits in `room` bytes is
    /// handed out and the rest is kept.
    pub fn accept_frame(&mut self, food: Vec<u8>, room: usize) -> (r: Option<Vec<u8>>)
        requires
            old(self).wf(),
            old(self).leftover().len() == 0,
        ensures
            final(self).wf(),
            food@.len() == 0 ==> r is None && final(self).leftover().len() == 0,
            food@.len() > 0 ==> (r matches Some(put) && put@ == food@.take(
                min(room as int, food@.len() as int),
            ) && final(self).leftover() == food@.skip(min(room as int, food@.len() as int))),
    {
        if food.len() == 0 {
            self.unfinished_meal = None;
            return None;
        }
        if food.len() <= room {
            self.unfinished_meal = None;
            assert(food@.take(food@.len() as int) =~= food@);
            assert(food@.skip(food@.len() as int) =~= Seq::<u8>::empty());
            return Some(food);
        }
        let put = slice_of(&food, 0, room);
        assert(put@ =~= food@.take(room as int));
        self.unfinished_meal = Some(UnfinishedMeal { food, eaten: room });
        Some(put)
    }
}

/// What the reading side of a tunnel does with the next message from the gateway.
#[derive(Debug)]
pub enum ReadStep {
    /// Hand these bytes to the reader.
    Deliver(Vec<u8>),
    /// The message carried no bytes: take the next one.
    NeedFrame,
    /// The gateway's stream is over: the end of the tunnel's bytes.
    End,
    /// The gateway's stream failed: an input/output failure of this kind, for
    /// this status.
    Fail(IoErrorKind, Status),
}

/// The bytes of a message, none where it carries none.
pub open spec fn bytes_or_empty(b: Option<Vec<u8>>) -> Seq<u8> {
    match b {
        Some(v) => v@,
        None => Seq::<u8>::empty(),
    }
}

impl ReadBuffer {
    /// Takes the next message of the gateway's stream while nothing is left over:
    /// its bytes as `accept_frame` takes them (a message without bytes counts as
    /// empty), the end of the stream as the end of the tunnel's bytes, and the
    /// stream's failure as the input/output failure that its code stands for.
    pub fn on_frame(&mut self, frame: Option<Result<StreamResponse, Status>>, room: usize) -> (r:
        ReadStep)
        requires
            old(self).wf(),
            old(self).leftover().len() == 0,
        ensures
            final(self).wf(),
            match frame {
                None => r is End && final(self).leftover().len() == 0,
                Some(Err(s)) => {
                    &&& r == ReadStep::Fail(io_kind_for_code(s.code), s)
                    &&& final(self).leftover().len() == 0
                },
                Some(Ok(m)) => if bytes_or_empty(m.b).len() == 0 {
                    r is NeedFrame && final(self).leftover().len() == 0
                } else {
                    &&& r matches ReadStep::Deliver(put) && put@ == bytes_or_empty(m.b).take(
                        min(room as int, bytes_or_empty(m.b).len() as int),
                    )
                    &&& final(self).leftover() == bytes_or_empty(m.b).skip(
                        min(room as int, bytes_or_empty(m.b).len() as int),
                    )
                },
            },
    {
        match frame {
            None => ReadStep::End,
            Some(Err(s)) => {
                let kind = status_to_io(s.code);
                ReadStep::Fail(kind, s)
            },
            Some(Ok(m)) => {
                let food = match m.b {
                    Some(v) => v,
                    None => Vec::new(),
                };
                match self.accept_frame(food, room) {
                    Some(put) => ReadStep::Deliver(put),
                    None => ReadStep::NeedFrame,
                }
            },
        }
    }
}

fn slice_of(v: &Vec<u8>, from: usize, to: usize) -> (r: Vec<u8>)
    requires
        from <= to <= v@.len(),
    ensures
        r@ == v@.subrange(from as int, to as int),
{
    let mut r: Vec<u8> = Vec::new();
    let mut i: usize = from;
    while i < to
        invariant
            from <= i <= to,
            to <= v@.len(),
            r@ == v@.subrange(from as int, i as int),
        decreases to - i,
    {
        r.push(v[i]);
        i = i + 1;
        assert(r@ =~= v@.subrange(from as int, i as int));
    }
    r
}

} // verus!
