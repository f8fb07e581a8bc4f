//! The broadcast bus: a bounded, single-producer, multi-consumer channel of
//! byte chunks.  Publishing never blocks; a subscriber that falls more than
//! the capacity behind skips the oldest chunks instead of stalling the
//! producer.  What a subscriber receives is always a gap-tolerant, in-order
//! selection of what was published.

use vstd::prelude::*;

verus! {

/// The bus: the published history, the lag bound, and whether the producer
/// is done.
pub struct Bus {
    chunks: Vec<Vec<u8>>,
    capacity: usize,
    closed: bool,
}

/// One subscriber's cursor into the bus, with the ghost record of the
/// history positions it has received.
pub struct BusReader {
    cursor: usize,
    delivered: Ghost<Seq<int>>,
}

/// What one poll of the bus yields.
#[derive(Clone, Debug, PartialEq, Eq)]
pub enum BusPoll {
    /// The next chunk, in publish order.
    Chunk(Vec<u8>),
    /// The subscriber fell behind by the given number of chunks, which are
    /// skipped; polling again resumes at the oldest retained chunk.
    Lagged(usize),
    /// Nothing new yet; the producer is still running.
    Pending,
    /// The producer is done and everything published has been received.
    Closed,
}

impl Bus {
    /// The published history.
    pub closed spec fn history(&self) -> Seq<Seq<u8>> {
        self.chunks@.map_values(|c: Vec<u8>| c@)
    }

    pub closed spec fn capacity(&self) -> int {
        self.capacity as int
    }

    pub closed spec fn is_closed(&self) -> bool {
        self.closed
    }

    /// The position of the oldest chunk still retained.
    pub open spec fn oldest(&self) -> int {
        if self.history().len() <= self.capacity() {
            0
        } else {
            self.history().len() - self.capacity()
        }
    }

    pub fn new(capacity: usize) -> (r: Bus)
        requires
            capacity >= 1,
        ensures
            r.history() == Seq::<Seq<u8>>::empty(),
            r.capacity() == capacity,
            !r.is_closed(),
    {
        let r = Bus { chunks: Vec::new(), capacity, closed: false };
        proof {
            assert(r.history() =~= Seq::<Seq<u8>>::empty());
        }
        r
    }

    /// Publishes one chunk.  Never blocks and never fails: the chunk is
    /// appended to the history whether or not anyone is subscribed.
    pub fn publish(&mut self, chunk: Vec<u8>)
        requires
            !old(self).is_closed(),
        ensures
            final(self).history() == old(self).history().push(chunk@),
            final(self).capacity() == old(self).capacity(),
            !final(self).is_closed(),
    {
        self.chunks.push(chunk);
        proof {
            assert(final(self).history() =~= old(self).history().push(chunk@));
        }
    }

    /// Marks the producer as done.
    pub fn close(&mut self)
        ensures
            final(self).history() == old(self).history(),
            final(self).capacity() == old(self).capacity(),
            final(self).is_closed(),
    {
        self.closed = true;
    }

    /// Opens a subscription.  A new subscriber sees only what is published
    /// after this point.
    pub fn subscribe(&self) -> (r: BusReader)
        ensures
            r.cursor() == self.history().len(),
            r.received(self) == Seq::<Seq<u8>>::empty(),
            reader_wf(self, &r),
    {
        let r = BusReader { cursor: self.chunks.len(), delivered: Ghost(Seq::empty()) };
        proof {
            assert(r.received(self) =~= Seq::<Seq<u8>>::empty());
        }
        r
    }

    /// Polls for the subscriber's next chunk.
    pub fn poll(&self, reader: &mut BusReader) -> (r: BusPoll)
        requires
            reader_wf(self, old(reader)),
        ensures
            reader_wf(self, final(reader)),
            match r {
                BusPoll::Chunk(c) => {
                    &&& old(reader).cursor() < self.history().len()
                    &&& self.oldest() <= old(reader).cursor()
                    &&& c@ == self.history()[old(reader).cursor()]
                    &&& final(reader).cursor() == old(reader).cursor() + 1
                    &&& final(reader).delivered() == old(reader).delivered().push(
                        old(reader).cursor() as int,
                    )
                },
                BusPoll::Lagged(n) => {
                    &&& old(reader).cursor() + self.capacity() < self.history().len()
                    &&& n == self.oldest() - old(reader).cursor()
                    &&& final(reader).cursor() == self.oldest()
                    &&& final(reader).delivered() == old(reader).delivered()
                },
                BusPoll::Pending => {
                    &&& old(reader).cursor() == self.history().len()
                    &&& !self.is_closed()
                    &&& *final(reader) == *old(reader)
                },
                BusPoll::Closed => {
                    &&& old(reader).cursor() == self.history().len()
                    &&& self.is_closed()
                    &&& *final(reader) == *old(reader)
                },
            },
    {
        let len = self.chunks.len();
        if reader.cursor < len {
            let oldest = if len <= self.capacity {
                0
            } else {
                len - self.capacity
            };
            if reader.cursor < oldest {
                let n = oldest - reader.cursor;
                reader.cursor = oldest;
                BusPoll::Lagged(n)
            } else {
                let chunk = vec_clone_u8(&self.chunks[reader.cursor]);
                let ghost c = reader.cursor as int;
                reader.cursor = reader.cursor + 1;
                proof {
                    reader.delivered@ = reader.delivered@.push(c);
                    assert(forall|k: int|
                        0 <= k < old(reader).delivered().len()
                            ==> #[trigger] reader.delivered()[k] == old(reader).delivered()[k]);
                    assert(reader.delivered()[reader.delivered().len() - 1] == c);
                }
                BusPoll::Chunk(chunk)
            }
        } else {
            if self.closed {
                BusPoll::Closed
            } else {
                BusPoll::Pending
            }
        }
    }
}

/// Clones a byte chunk.
fn vec_clone_u8(v: &Vec<u8>) -> (r: Vec<u8>)
    ensures
        r@ == v@,
{
    let mut r: Vec<u8> = Vec::new();
    let mut i: usize = 0;
    while i < v.len()
        invariant
            0 <= i <= v@.len(),
            r@ == v@.subrange(0, i as int),
        decreases v@.len() - i,
    {
        r.push(v[i]);
        proof {
            assert(r@ =~= v@.subrange(0, i as int + 1));
        }
        i = i + 1;
    }
    proof {
        assert(v@.subrange(0, v@.len() as int) =~= v@);
    }
    r
}

impl BusReader {
    pub closed spec fn cursor(&self) -> int {
        self.cursor as int
    }

    /// The history positions received so far, in order.
    pub closed spec fn delivered(&self) -> Seq<int> {
        self.delivered@
    }

    /// The chunks received so far, in order.
    pub open spec fn received(&self, bus: &Bus) -> Seq<Seq<u8>> {
        self.delivered().map_values(|i: int| bus.history()[i])
    }
}

/// The subscriber's record is consistent with the bus: the cursor is inside
/// the history and the received positions climb strictly below it.
pub open spec fn reader_wf(bus: &Bus, r: &BusReader) -> bool {
    &&& r.cursor() <= bus.history().len()
    &&& forall|k: int| 0 <= k < r.delivered().len() ==> 0 <= #[trigger] r.delivered()[k]
        < r.cursor()
    &&& forall|a: int, b: int|
        0 <= a < b < r.delivered().len() ==> r.delivered()[a] < r.delivered()[b]
}

/// `xs` is a subsequence of `ys`: `ys` with some elements removed, order
/// kept.
pub open spec fn is_subsequence<T>(xs: Seq<T>, ys: Seq<T>) -> bool
    decreases ys.len(), xs.len(),
{
    if xs.len() == 0 {
        true
    } else if ys.len() == 0 {
        false
    } else {
        (xs[0] == ys[0] && is_subsequence(xs.drop_first(), ys.drop_first())) || is_subsequence(
            xs,
            ys.drop_first(),
        )
    }
}

/// Selecting positions in strictly increasing order, all at or past `k`,
/// yields a subsequence of the history from `k` on.
proof fn lemma_selection_is_subsequence_from<T>(idx: Seq<int>, ys: Seq<T>, k: int)
    requires
        0 <= k <= ys.len(),
        forall|a: int| 0 <= a < idx.len() ==> k <= #[trigger] idx[a] < ys.len(),
        forall|a: int, b: int| 0 <= a < b < idx.len() ==> idx[a] < idx[b],
    ensures
        is_subsequence(idx.map_values(|i: int| ys[i]), ys.subrange(k, ys.len() as int)),
    decreases ys.len() - k,
{
    let xs = idx.map_values(|i: int| ys[i]);
    let tail = ys.subrange(k, ys.len() as int);
    if idx.len() == 0 {
        assert(xs.len() == 0);
    } else {
        assert(k <= idx[0] && idx[0] < ys.len());
        if idx[0] == k {
            let idx1 = idx.drop_first();
            assert(forall|a: int, b: int| 0 <= a < b < idx1.len() ==> idx1[a] < idx1[b]) by {
                assert(forall|a: int| 0 <= a < idx1.len() ==> idx1[a] == idx[a + 1]);
            }
            assert(forall|a: int| 0 <= a < idx1.len() ==> k + 1 <= #[trigger] idx1[a]
                < ys.len()) by {
                assert(forall|a: int| 0 <= a < idx1.len() ==> idx1[a] == idx[a + 1]);
                assert(forall|a: int| 0 <= a < idx1.len() ==> idx[0] < #[trigger] idx[a + 1]);
            }
            lemma_selection_is_subsequence_from(idx1, ys, k + 1);
            assert(xs.drop_first() =~= idx1.map_values(|i: int| ys[i]));
            assert(tail.drop_first() =~= ys.subrange(k + 1, ys.len() as int));
            assert(xs[0] == ys[k]);
            assert(tail[0] == ys[k]);
        } else {
            assert(k < idx[0]);
            assert(forall|a: int| 0 <= a < idx.len() ==> k + 1 <= #[trigger] idx[a] < ys.len())
                by {
                assert(forall|a: int| 0 < a < idx.len() ==> idx[0] < #[trigger] idx[a]);
            }
            lemma_selection_is_subsequence_from(idx, ys, k + 1);
            assert(tail.drop_first() =~= ys.subrange(k + 1, ys.len() as int));
            assert(tail.len() > 0);
        }
    }
}

/// The fan-out law: whatever a subscriber has received is a subsequence of
/// the published history — gaps are possible, reordering and duplication
/// are not.
pub proof fn lemma_received_is_subsequence(bus: &Bus, r: &BusReader)
    requires
        reader_wf(bus, r),
    ensures
        is_subsequence(r.received(bus), bus.history()),
{
    lemma_selection_is_subsequence_from(r.delivered(), bus.history(), 0);
    assert(bus.history().subrange(0, bus.history().len() as int) =~= bus.history());
}

/// Prepending the same prefix to both sides preserves the subsequence
/// relation.
proof fn lemma_subsequence_prepend<T>(h: Seq<T>, a: Seq<T>, b: Seq<T>)
    requires
        is_subsequence(a, b),
    ensures
        is_subsequence(h + a, h + b),
    decreases h.len(),
{
    if h.len() == 0 {
        assert(h + a =~= a);
        assert(h + b =~= b);
    } else {
        lemma_subsequence_prepend(h.drop_first(), a, b);
        assert((h + a).drop_first() =~= h.drop_first() + a);
        assert((h + b).drop_first() =~= h.drop_first() + b);
        assert((h + a)[0] == (h + b)[0]);
    }
}

/// Prepending to the longer side alone preserves the subsequence relation.
proof fn lemma_subsequence_pad<T>(a: Seq<T>, h: Seq<T>, b: Seq<T>)
    requires
        is_subsequence(a, b),
    ensures
        is_subsequence(a, h + b),
    decreases h.len(),
{
    if h.len() == 0 {
        assert(h + b =~= b);
    } else if a.len() == 0 {
    } else {
        lemma_subsequence_pad(a, h.drop_first(), b);
        assert((h + b).drop_first() =~= h.drop_first() + b);
    }
}

/// Dropping whole chunks keeps the flattened bytes a subsequence.
proof fn lemma_subsequence_flatten<T>(xs: Seq<Seq<T>>, ys: Seq<Seq<T>>)
    requires
        is_subsequence(xs, ys),
    ensures
        is_subsequence(xs.flatten(), ys.flatten()),
    decreases ys.len(), xs.len(),
{
    if xs.len() == 0 {
        assert(xs.flatten() =~= Seq::<T>::empty());
    } else if (xs[0] == ys[0] && is_subsequence(xs.drop_first(), ys.drop_first())) {
        lemma_subsequence_flatten(xs.drop_first(), ys.drop_first());
        assert(xs.flatten() == xs.first() + xs.drop_first().flatten());
        assert(ys.flatten() == ys.first() + ys.drop_first().flatten());
        lemma_subsequence_prepend(ys.first(), xs.drop_first().flatten(), ys.drop_first().flatten());
        assert(xs.first() + xs.drop_first().flatten() =~= ys.first() + xs.drop_first().flatten());
    } else {
        lemma_subsequence_flatten(xs, ys.drop_first());
        assert(ys.flatten() == ys.first() + ys.drop_first().flatten());
        lemma_subsequence_pad(xs.flatten(), ys.first(), ys.drop_first().flatten());
    }
}

/// The fan-out law at byte level: the byte stream a subscriber has received
/// is the published byte stream with some whole chunks left out — relative
/// order kept, nothing reordered or duplicated.
pub proof fn lemma_received_bytes_subsequence(bus: &Bus, r: &BusReader)
    requires
        reader_wf(bus, r),
    ensures
        is_subsequence(r.received(bus).flatten(), bus.history().flatten()),
{
    lemma_received_is_subsequence(bus, r);
    lemma_subsequence_flatten(r.received(bus), bus.history());
}

} // verus!
