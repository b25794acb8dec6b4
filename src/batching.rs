//! Cutting a stream of items into batches bounded by size and by age.
//!
//! The adapter is a state machine: the driver hands it each item with the
//! time it arrived and whether a batch may end after it, tells it when its
//! deadline has passed, and tells it when the upstream has ended; each of
//! these may hand back one batch. A batch ends only after an item that may
//! end one, or at the end of the upstream.
use vstd::prelude::*;

verus! {

/// Bounds of a batch: it is emitted once it holds `max_size` items, or once
/// `max_fill_millis` have passed since its first item, at the first item
/// after which a batch may end.
#[derive(Clone, Copy, Debug, PartialEq, Eq, Structural)]
pub struct BatchConfig {
    pub max_size: usize,
    pub max_fill_millis: u64,
}

impl BatchConfig {
    pub fn new(max_size: usize, max_fill_millis: u64) -> (r: BatchConfig)
        requires
            max_size > 0,
        ensures
            r.max_size == max_size,
            r.max_fill_millis == max_fill_millis,
    {
        BatchConfig { max_size, max_fill_millis }
    }
}

/// The items of the batches, in order.
pub open spec fn concat_batches<T>(batches: Seq<Seq<T>>) -> Seq<T>
    decreases batches.len(),
{
    if batches.len() == 0 {
        Seq::empty()
    } else {
        concat_batches(batches.drop_last()) + batches.last()
    }
}

/// The sum of the batch lengths.
pub open spec fn total_len<T>(batches: Seq<Seq<T>>) -> nat
    decreases batches.len(),
{
    if batches.len() == 0 {
        0
    } else {
        total_len(batches.drop_last()) + batches.last().len()
    }
}

/// Batches of items, filled as items arrive.
pub struct BatchTimeoutStream<T> {
    config: BatchConfig,
    buf: Vec<T>,
    /// Arrival time of the first item of `buf`.
    started_at: Option<u64>,
    ended: bool,
    /// Whether a batch may end after the last item of `buf`.
    last_ends_batch: bool,
    /// Every item received so far.
    received: Ghost<Seq<T>>,
    /// Every batch emitted so far.
    emitted: Ghost<Seq<Seq<T>>>,
}

impl<T> BatchTimeoutStream<T> {
    /// Every item received so far.
    pub closed spec fn spec_received(&self) -> Seq<T> {
        self.received@
    }

    /// Every batch emitted so far.
    pub closed spec fn spec_emitted(&self) -> Seq<Seq<T>> {
        self.emitted@
    }

    pub closed spec fn spec_config(&self) -> BatchConfig {
        self.config
    }

    /// Items of the batch being filled.
    pub closed spec fn pending(&self) -> Seq<T> {
        self.buf@
    }

    pub closed spec fn spec_started_at(&self) -> Option<u64> {
        self.started_at
    }

    pub closed spec fn spec_ended(&self) -> bool {
        self.ended
    }

    /// Whether a batch may end after the last pending item.
    pub closed spec fn pending_may_end(&self) -> bool {
        self.last_ends_batch
    }

    /// Emitted batches followed by the pending batch are exactly the items
    /// received, in order; no batch is empty; a batch is pending exactly when
    /// its start time is known.
    pub closed spec fn wf(&self) -> bool {
        &&& self.config.max_size > 0
        &&& concat_batches(self.emitted@) + self.buf@ == self.received@
        &&& forall|i: int| 0 <= i < self.emitted@.len() ==> 0 < #[trigger] self.emitted@[i].len()
        &&& (self.buf@.len() > 0 <==> self.started_at is Some)
        &&& (self.ended ==> self.buf@.len() == 0)
    }

    pub fn new(config: BatchConfig) -> (r: Self)
        requires
            config.max_size > 0,
        ensures
            r.wf(),
            r.spec_config() == config,
            r.spec_received() == Seq::<T>::empty(),
            r.spec_emitted() == Seq::<Seq<T>>::empty(),
            r.pending() == Seq::<T>::empty(),
            !r.spec_ended(),
    {
        let r = BatchTimeoutStream {
            config,
            buf: Vec::new(),
            started_at: None,
            ended: false,
            last_ends_batch: false,
            received: Ghost(Seq::empty()),
            emitted: Ghost(Seq::empty()),
        };
        assert(concat_batches(r.spec_emitted()) + r.buf@ =~= r.spec_received());
        r
    }

    /// When the pending batch must be emitted at the latest; `None` when no
    /// batch is pending, so that no timer needs to run.
    pub fn deadline(&self) -> (r: Option<u64>)
        requires
            self.wf(),
        ensures
            r is None <==> self.pending().len() == 0,
            r matches Some(d) ==> d as int == self.spec_started_at()->0 + self.spec_config().max_fill_millis
                || (d == u64::MAX && self.spec_started_at()->0 + self.spec_config().max_fill_millis > u64::MAX),
    {
        match self.started_at {
            Some(s) => Some(s.saturating_add(self.config.max_fill_millis)),
            None => None,
        }
    }

    fn take_batch(&mut self) -> (batch: Vec<T>)
        requires
            old(self).wf(),
            old(self).buf@.len() > 0,
        ensures
            final(self).wf(),
            batch@ == old(self).buf@,
            final(self).buf@.len() == 0,
            final(self).spec_emitted() == old(self).spec_emitted().push(batch@),
            final(self).spec_received() == old(self).spec_received(),
            final(self).config == old(self).config,
            final(self).ended == old(self).ended,
    {
        let mut batch: Vec<T> = Vec::new();
        std::mem::swap(&mut self.buf, &mut batch);
        self.started_at = None;
        let ghost e = self.emitted@.push(batch@);
        assert(e.drop_last() =~= self.emitted@);
        assert(concat_batches(e) + self.buf@ =~= self.received@);
        self.emitted = Ghost(e);
        batch
    }

    /// An item arrived at `now`; `ends_batch` tells whether a batch may end
    /// after it. A batch that this item brings to `max_size` items is emitted
    /// at once if it may end here; the clock is not consulted for that.
    pub fn push(&mut self, item: T, ends_batch: bool, now: u64) -> (r: Option<Vec<T>>)
        requires
            old(self).wf(),
            !old(self).spec_ended(),
        ensures
            final(self).wf(),
            !final(self).spec_ended(),
            final(self).spec_config() == old(self).spec_config(),
            final(self).spec_received() == old(self).spec_received().push(item),
            ends_batch && old(self).pending().len() + 1 >= old(self).spec_config().max_size ==> {
                &&& r matches Some(b)
                &&& b@ == old(self).pending().push(item)
                &&& final(self).spec_emitted() == old(self).spec_emitted().push(b@)
                &&& final(self).pending().len() == 0
            },
            !(ends_batch && old(self).pending().len() + 1 >= old(self).spec_config().max_size) ==> {
                &&& r is None
                &&& final(self).spec_emitted() == old(self).spec_emitted()
                &&& final(self).pending() == old(self).pending().push(item)
                &&& final(self).pending_may_end() == ends_batch
                &&& final(self).spec_started_at() == if old(self).pending().len() == 0 {
                    Some(now)
                } else {
                    old(self).spec_started_at()
                }
            },
    {
        if self.started_at.is_none() {
            self.started_at = Some(now);
        }
        let ghost rec = self.received@.push(item);
        self.buf.push(item);
        self.received = Ghost(rec);
        self.last_ends_batch = ends_batch;
        assert(concat_batches(self.emitted@) + self.buf@ =~= self.received@);
        if ends_batch && self.buf.len() >= self.config.max_size {
            Some(self.take_batch())
        } else {
            None
        }
    }

    /// The clock reads `now`: the pending batch is emitted when it has
    /// waited for `max_fill_millis` since its first item and may end after
    /// its last item.
    pub fn poll_deadline(&mut self, now: u64) -> (r: Option<Vec<T>>)
        requires
            old(self).wf(),
        ensures
            final(self).wf(),
            final(self).spec_config() == old(self).spec_config(),
            final(self).spec_ended() == old(self).spec_ended(),
            final(self).spec_received() == old(self).spec_received(),
            ({
                let due = old(self).pending().len() > 0 && old(self).pending_may_end()
                    && now >= old(self).spec_started_at()->0
                    && now - old(self).spec_started_at()->0 >= old(self).spec_config().max_fill_millis;
                if due {
                    &&& r matches Some(b)
                    &&& b@ == old(self).pending()
                    &&& final(self).spec_emitted() == old(self).spec_emitted().push(b@)
                    &&& final(self).pending().len() == 0
                } else {
                    &&& r is None
                    &&& final(self).spec_emitted() == old(self).spec_emitted()
                    &&& final(self).pending() == old(self).pending()
                    &&& final(self).spec_started_at() == old(self).spec_started_at()
                    &&& final(self).pending_may_end() == old(self).pending_may_end()
                }
            }),
    {
        match self.started_at {
            Some(s) => {
                if self.last_ends_batch && now >= s && now - s >= self.config.max_fill_millis {
                    Some(self.take_batch())
                } else {
                    None
                }
            },
            None => None,
        }
    }

    /// The upstream ended: the pending batch, if any, is emitted, and nothing
    /// follows.
    pub fn finish(&mut self) -> (r: Option<Vec<T>>)
        requires
            old(self).wf(),
        ensures
            final(self).wf(),
            final(self).spec_ended(),
            final(self).spec_config() == old(self).spec_config(),
            final(self).spec_received() == old(self).spec_received(),
            old(self).pending().len() > 0 ==> {
                &&& r matches Some(b)
                &&& b@ == old(self).pending()
                &&& final(self).spec_emitted() == old(self).spec_emitted().push(b@)
            },
            old(self).pending().len() == 0 ==> r is None && final(self).spec_emitted() == old(self).spec_emitted(),
    {
        let r = if self.buf.len() > 0 {
            Some(self.take_batch())
        } else {
            None
        };
        self.ended = true;
        r
    }
}

proof fn lemma_total_len<T>(batches: Seq<Seq<T>>)
    ensures
        total_len(batches) == concat_batches(batches).len(),
    decreases batches.len(),
{
    if batches.len() > 0 {
        lemma_total_len(batches.drop_last());
    }
}

/// Once the upstream has ended, the emitted batches hold every item received,
/// in arrival order; no batch is empty, and the batch lengths add up to the
/// number of items received.
pub proof fn lemma_batches_complete<T>(s: BatchTimeoutStream<T>)
    requires
        s.wf(),
        s.spec_ended(),
    ensures
        concat_batches(s.spec_emitted()) == s.spec_received(),
        total_len(s.spec_emitted()) == s.spec_received().len(),
        forall|i: int| 0 <= i < s.spec_emitted().len() ==> 0 < #[trigger] s.spec_emitted()[i].len(),
{
    assert(concat_batches(s.spec_emitted()) + s.pending() == s.spec_received());
    assert(s.pending() =~= Seq::<T>::empty());
    assert(concat_batches(s.spec_emitted()) + s.pending() =~= concat_batches(s.spec_emitted()));
    lemma_total_len(s.spec_emitted());
}

/// At any moment, the emitted batches followed by the pending items are
/// exactly the items received, in arrival order.
pub proof fn lemma_batches_in_order<T>(s: BatchTimeoutStream<T>)
    requires
        s.wf(),
    ensures
        concat_batches(s.spec_emitted()) + s.pending() == s.spec_received(),
{
}

} // verus!
