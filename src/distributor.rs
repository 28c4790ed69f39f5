use vstd::prelude::*;

verus! {

/// One event as received from a relay.
#[derive(Debug)]
pub struct InboundEvent {
    pub id: Vec<u8>,
    pub payload: Vec<u8>,
    pub relay: String,
    pub received_at_ms: u64,
}

/// Batches admitted events by count and by age. A batch is handed out when
/// it reaches `max_batch` events, or when its oldest event has waited
/// `max_latency_ms`, whichever comes first.
pub struct Distributor {
    buffer: Vec<InboundEvent>,
    oldest_at: u64,
    max_batch: usize,
    max_latency_ms: u64,
}

/// Whether a batch started at `oldest_at` is due at `now`.
pub open spec fn overdue(oldest_at: u64, now: u64, max_latency_ms: u64) -> bool {
    now as int >= oldest_at as int + max_latency_ms as int
}

impl Distributor {
    /// The buffered events, oldest first.
    pub closed spec fn view(&self) -> Seq<InboundEvent> {
        self.buffer@
    }

    /// When the oldest buffered event was buffered.
    pub closed spec fn oldest(&self) -> u64 {
        self.oldest_at
    }

    pub closed spec fn batch_limit(&self) -> nat {
        self.max_batch as nat
    }

    pub closed spec fn latency(&self) -> u64 {
        self.max_latency_ms
    }

    pub closed spec fn wf(&self) -> bool {
        &&& self.max_batch >= 1
        &&& self.buffer@.len() < self.max_batch
    }

    /// What `push(ev, now)` leaves and returns: the event joins the buffer,
    /// and the buffer is handed out whole when it reaches the batch size or its
    /// oldest event is due; otherwise it is kept.
    pub open spec fn push_post(&self, fin: Self, ev: InboundEvent, now: u64, r: Option<Vec<InboundEvent>>) -> bool {
        let buf = self.view().push(ev);
        let start = if self.view().len() == 0 { now } else { self.oldest() };
        &&& fin.batch_limit() == self.batch_limit()
        &&& fin.latency() == self.latency()
        &&& if buf.len() == self.batch_limit() || overdue(start, now, self.latency()) {
            r.is_some() && r.unwrap()@ == buf && fin.view() == Seq::<InboundEvent>::empty()
        } else {
            r.is_none() && fin.view() == buf && fin.oldest() == start
        }
    }

    /// Creates an empty distributor; a batch size of 0 is taken as 1.
    pub fn new(max_batch: usize, max_latency_ms: u64) -> (r: Self)
        ensures
            r.wf(),
            r.view() == Seq::<InboundEvent>::empty(),
            r.batch_limit() == if max_batch == 0 { 1 } else { max_batch as nat },
            r.latency() == max_latency_ms,
    {
        Distributor {
            buffer: Vec::new(),
            oldest_at: 0,
            max_batch: if max_batch == 0 { 1 } else { max_batch },
            max_latency_ms,
        }
    }

    /// Number of buffered events.
    pub fn len(&self) -> (r: usize)
        ensures
            r == self.view().len(),
    {
        self.buffer.len()
    }

    /// When the buffered batch falls due, if anything is buffered; the flush
    /// timer is to be armed for that instant.
    pub fn next_deadline(&self) -> (r: Option<u64>)
        ensures
            self.view().len() == 0 ==> r.is_none(),
            self.view().len() > 0 ==> r == Some((if self.oldest() as int + self.latency() as int > u64::MAX {
                u64::MAX as int
            } else {
                self.oldest() as int + self.latency() as int
            }) as u64),
    {
        if self.buffer.len() == 0 {
            None
        } else if self.oldest_at > u64::MAX - self.max_latency_ms {
            Some(u64::MAX)
        } else {
            Some(self.oldest_at + self.max_latency_ms)
        }
    }

    fn take_all(&mut self) -> (r: Vec<InboundEvent>)
        requires
            old(self).max_batch >= 1,
        ensures
            final(self).wf(),
            r@ == old(self).view(),
            final(self).view() == Seq::<InboundEvent>::empty(),
            final(self).max_batch == old(self).max_batch,
            final(self).max_latency_ms == old(self).max_latency_ms,
    {
        let mut out: Vec<InboundEvent> = Vec::new();
        std::mem::swap(&mut out, &mut self.buffer);
        out
    }

    /// Hands out everything buffered, oldest first, and empties the buffer
    /// (on shutdown, so that a partial batch is not lost).
    pub fn flush(&mut self) -> (r: Vec<InboundEvent>)
        requires
            old(self).wf(),
        ensures
            final(self).wf(),
            r@ == old(self).view(),
            final(self).view() == Seq::<InboundEvent>::empty(),
            final(self).batch_limit() == old(self).batch_limit(),
            final(self).latency() == old(self).latency(),
    {
        self.take_all()
    }

    /// Buffers `ev`, arriving at `now`. Returns the batch to deliver when the
    /// buffer has reached the batch size, or its oldest event is due.
    pub fn push(&mut self, ev: InboundEvent, now: u64) -> (r: Option<Vec<InboundEvent>>)
        requires
            old(self).wf(),
        ensures
            final(self).wf(),
            old(self).push_post(*final(self), ev, now, r),
    {
        if self.buffer.len() == 0 {
            self.oldest_at = now;
        }
        self.buffer.push(ev);
        let due = now >= self.oldest_at && now - self.oldest_at >= self.max_latency_ms;
        if self.buffer.len() == self.max_batch || due {
            Some(self.take_all())
        } else {
            None
        }
    }

    /// The flush timer fired at `now`: hands out the buffered batch if its
    /// oldest event is due, however few events it holds.
    pub fn tick(&mut self, now: u64) -> (r: Option<Vec<InboundEvent>>)
        requires
            old(self).wf(),
        ensures
            final(self).wf(),
            final(self).batch_limit() == old(self).batch_limit(),
            final(self).latency() == old(self).latency(),
            if old(self).view().len() > 0 && overdue(old(self).oldest(), now, old(self).latency()) {
                r.is_some() && r.unwrap()@ == old(self).view() && final(self).view() == Seq::<InboundEvent>::empty()
            } else {
                r.is_none() && final(self).view() == old(self).view() && final(self).oldest() == old(self).oldest()
            },
    {
        if self.buffer.len() > 0 && now >= self.oldest_at && now - self.oldest_at >= self.max_latency_ms {
            Some(self.take_all())
        } else {
            None
        }
    }
}

/// A batch never holds more events than the batch size: a well-formed
/// distributor buffers fewer, and `push` hands the buffer out when it fills.
pub proof fn lemma_batch_within_limit(d: &Distributor, fin: Distributor, ev: InboundEvent, now: u64, r: Option<Vec<InboundEvent>>)
    requires
        d.wf(),
        d.push_post(fin, ev, now, r),
    ensures
        d.view().len() < d.batch_limit(),
        r.is_some() ==> r.unwrap()@.len() <= d.batch_limit(),
        d.view().len() + 1 == d.batch_limit() ==> r.is_some() && r.unwrap()@.len() == d.batch_limit(),
{
}

} // verus!
