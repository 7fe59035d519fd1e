//! The chunked reader: reassembles a value that the host hands over one
//! page at a time.
//!
//! The host fills a buffer of fixed capacity at a given offset and answers
//! with the number of bytes written, with 0 at the end of the value, or with
//! its failure sentinel.  The reader decides after each answer whether the
//! value is complete; whoever talks to the host asks for the next page.

use crate::error::Error;
use vstd::prelude::*;
use vstd::slice::slice_subrange;

verus! {

/// The capacity of the buffer that contracts read pages into.
pub const BUF_SIZE: usize = 128;

/// The host's answer for "not found" or "failed".
pub const SENTINEL: i32 = -1;

/// How far a read has come.
#[derive(Debug, Clone, Copy, PartialEq, Eq, Structural)]
pub enum ReadStatus {
    /// The next page has to be asked for.
    Pending,
    /// The value is complete.
    Complete,
    /// The host has no such value.
    NotFound,
    /// The host answered outside the protocol.
    Failed,
}

/// A read in progress.
pub struct ChunkedReader {
    capacity: usize,
    value: Vec<u8>,
    status: ReadStatus,
}

/// A read in progress, as specifications speak of it.
pub struct ReaderView {
    pub capacity: nat,
    pub value: Seq<u8>,
    pub status: ReadStatus,
}

impl View for ChunkedReader {
    type V = ReaderView;

    closed spec fn view(&self) -> ReaderView {
        ReaderView { capacity: self.capacity as nat, value: self.value@, status: self.status }
    }
}

/// A read before its first page.
pub open spec fn start(capacity: nat) -> ReaderView {
    ReaderView { capacity, value: Seq::empty(), status: ReadStatus::Pending }
}

/// The read after the host has answered `ret` and left its bytes in `buf`.
///
/// The sentinel ends the read with `NotFound` and 0 completes it.  A positive
/// count appends that many bytes of the buffer; the read goes on only if the
/// page was full.  Any other answer fails the read.  A read that is over
/// stays as it is.
pub open spec fn step(r: ReaderView, ret: int, buf: Seq<u8>) -> ReaderView {
    if r.status != ReadStatus::Pending {
        r
    } else if ret == SENTINEL {
        ReaderView { status: ReadStatus::NotFound, ..r }
    } else if ret == 0 {
        ReaderView { status: ReadStatus::Complete, ..r }
    } else if 0 < ret <= r.capacity && ret <= buf.len() {
        ReaderView {
            value: r.value + buf.take(ret),
            status: if ret == r.capacity {
                ReadStatus::Pending
            } else {
                ReadStatus::Complete
            },
            ..r
        }
    } else {
        ReaderView { status: ReadStatus::Failed, ..r }
    }
}

/// What a read that is over hands to its caller; `None` while it is pending.
pub open spec fn outcome(r: ReaderView) -> Option<Result<Seq<u8>, Error>> {
    match r.status {
        ReadStatus::Pending => None,
        ReadStatus::Complete => Some(Ok(r.value)),
        ReadStatus::NotFound => Some(Err(Error::NotFound)),
        ReadStatus::Failed => Some(Err(Error::HostCallFailure)),
    }
}

/// The result of a read, seen through the view of the value.
pub open spec fn value_view(r: Option<Result<Vec<u8>, Error>>) -> Option<Result<Seq<u8>, Error>> {
    match r {
        None => None,
        Some(Ok(v)) => Some(Ok(v@)),
        Some(Err(e)) => Some(Err(e)),
    }
}

impl ChunkedReader {
    /// Starts a read with pages of `capacity` bytes.
    pub fn new(capacity: usize) -> (reader: ChunkedReader)
        ensures
            reader@ == start(capacity as nat),
    {
        ChunkedReader { capacity, value: Vec::new(), status: ReadStatus::Pending }
    }

    /// The capacity of the buffer that the host is to fill.
    pub fn capacity(&self) -> (capacity: usize)
        ensures
            capacity == self@.capacity,
    {
        self.capacity
    }

    /// The offset of the next page: the number of bytes read so far.
    pub fn offset(&self) -> (offset: usize)
        ensures
            offset == self@.value.len(),
    {
        self.value.len()
    }

    pub fn status(&self) -> (status: ReadStatus)
        ensures
            status == self@.status,
    {
        self.status
    }

    /// Whether another page has to be asked for.
    pub fn is_pending(&self) -> (pending: bool)
        ensures
            pending == (self@.status == ReadStatus::Pending),
    {
        self.status == ReadStatus::Pending
    }

    /// Takes the host's answer `ret` to the request for the page at
    /// `self.offset()`, with the buffer that the host wrote to.
    pub fn feed(&mut self, ret: i32, buf: &[u8])
        ensures
            final(self)@ == step(old(self)@, ret as int, buf@),
    {
        if self.status != ReadStatus::Pending {
            return ;
        }
        if ret == SENTINEL {
            self.status = ReadStatus::NotFound;
        } else if ret == 0 {
            self.status = ReadStatus::Complete;
        } else if ret > 0 && ret as usize <= self.capacity && ret as usize <= buf.len() {
            let n: usize = ret as usize;
            let ghost before = self.value@;
            self.value.extend_from_slice(slice_subrange(buf, 0, n));
            assert(self.value@ =~= before + buf@.take(n as int));
            if n < self.capacity {
                self.status = ReadStatus::Complete;
            }
        } else {
            self.status = ReadStatus::Failed;
        }
    }

    /// Hands out the result of the read once it is over and starts afresh;
    /// `None`, and no change, while the read is pending.
    pub fn take_result(&mut self) -> (r: Option<Result<Vec<u8>, Error>>)
        ensures
            value_view(r) == outcome(old(self)@),
            final(self)@ == if old(self)@.status == ReadStatus::Pending {
                old(self)@
            } else {
                start(old(self)@.capacity)
            },
    {
        let status = self.status;
        if status == ReadStatus::Pending {
            return None;
        }
        let mut value: Vec<u8> = Vec::new();
        std::mem::swap(&mut value, &mut self.value);
        self.status = ReadStatus::Pending;
        match status {
            ReadStatus::Complete => Some(Ok(value)),
            ReadStatus::NotFound => Some(Err(Error::NotFound)),
            _ => Some(Err(Error::HostCallFailure)),
        }
    }

    /// The result of the read once it is over, `None` before.
    pub fn finish(self) -> (r: Option<Result<Vec<u8>, Error>>)
        ensures
            value_view(r) == outcome(self@),
    {
        match self.status {
            ReadStatus::Pending => None,
            ReadStatus::Complete => Some(Ok(self.value)),
            ReadStatus::NotFound => Some(Err(Error::NotFound)),
            ReadStatus::Failed => Some(Err(Error::HostCallFailure)),
        }
    }
}

/// What a host that holds `stored` answers to the request for the page at
/// `offset` into a buffer of `capacity` bytes: its answer and the bytes that
/// it writes.
pub open spec fn page(stored: Option<Seq<u8>>, offset: nat, capacity: nat) -> (int, Seq<u8>) {
    match stored {
        None => (SENTINEL as int, Seq::empty()),
        Some(value) => if offset >= value.len() {
            (0, Seq::empty())
        } else if value.len() - offset < capacity {
            (value.len() - offset, value.skip(offset as int))
        } else {
            (capacity as int, value.subrange(offset as int, (offset + capacity) as int))
        },
    }
}

/// The bytes of `stored` that a read has not seen yet.
pub open spec fn unread(stored: Option<Seq<u8>>, r: ReaderView) -> nat {
    match stored {
        Some(value) if value.len() > r.value.len() => (value.len() - r.value.len()) as nat,
        _ => 0,
    }
}

/// The end of a read against a host that holds `stored`, with the number
/// of requests made on the way there, counted on from `trips`.
pub open spec fn read_all(stored: Option<Seq<u8>>, r: ReaderView, trips: nat) -> (ReaderView, nat)
    decreases unread(stored, r), (if r.status == ReadStatus::Pending { 1nat } else { 0nat }),
{
    if r.status != ReadStatus::Pending || r.capacity == 0 {
        (r, trips)
    } else {
        let (ret, data) = page(stored, r.value.len(), r.capacity);
        read_all(stored, step(r, ret, data), trips + 1)
    }
}

proof fn lemma_read_all_from(value: Seq<u8>, r: ReaderView, trips: nat)
    requires
        r.capacity > 0,
        r.status == ReadStatus::Pending,
        r.value.len() <= value.len(),
        r.value == value.take(r.value.len() as int),
    ensures
        read_all(Some(value), r, trips) == (
            ReaderView { value, status: ReadStatus::Complete, ..r },
            (trips + (value.len() - r.value.len()) / (r.capacity as int) + 1) as nat,
        ),
    decreases value.len() - r.value.len(),
{
    let offset = r.value.len() as int;
    let left = value.len() - offset;
    let capacity = r.capacity as int;
    let (ret, data) = page(Some(value), r.value.len(), r.capacity);
    let next = step(r, ret, data);
    reveal_with_fuel(read_all, 2);
    assert(read_all(Some(value), r, trips) == read_all(Some(value), next, trips + 1));
    if left == 0 {
        assert(r.value =~= value);
        assert(left / capacity == 0) by (nonlinear_arith)
            requires
                left == 0,
                capacity > 0,
        ;
    } else if left < capacity {
        assert(next.value =~= value);
        assert(left / capacity == 0) by (nonlinear_arith)
            requires
                0 < left < capacity,
        ;
    } else {
        assert(next.value =~= value.take(offset + capacity));
        assert(next.value.len() == offset + capacity);
        lemma_read_all_from(value, next, trips + 1);
        assert((left - capacity) / capacity + 1 == left / capacity) by (nonlinear_arith)
            requires
                0 < capacity <= left,
        ;
    }
}

/// Chunked reassembly: a read against a host that holds `value` ends with
/// exactly `value`, after one request for each full page and one more, which
/// the host answers with the short last page or with 0.
pub proof fn lemma_reassembly(value: Seq<u8>, capacity: nat)
    requires
        capacity > 0,
    ensures
        read_all(Some(value), start(capacity), 0) == (
            ReaderView { capacity, value, status: ReadStatus::Complete },
            value.len() / capacity + 1,
        ),
        outcome(read_all(Some(value), start(capacity), 0).0) == Some(
            Ok::<Seq<u8>, Error>(value),
        ),
{
    assert(value.take(0) =~= Seq::<u8>::empty());
    lemma_read_all_from(value, start(capacity), 0);
}

/// A read of what the host does not hold ends with `NotFound` after one request.
pub proof fn lemma_read_absent(capacity: nat)
    requires
        capacity > 0,
    ensures
        read_all(None, start(capacity), 0) == (
            ReaderView { capacity, value: Seq::empty(), status: ReadStatus::NotFound },
            1nat,
        ),
        outcome(read_all(None, start(capacity), 0).0) == Some(
            Err::<Seq<u8>, Error>(Error::NotFound),
        ),
{
    reveal_with_fuel(read_all, 2);
}

/// The state of a host that keeps what it is told: the value last written
/// under each key.
pub type HostState = Map<Seq<u8>, Seq<u8>>;

/// The state after `value` has been written under `key`.
pub open spec fn written(state: HostState, key: Seq<u8>, value: Seq<u8>) -> HostState {
    state.insert(key, value)
}

/// What the state holds under `key`.
pub open spec fn stored(state: HostState, key: Seq<u8>) -> Option<Seq<u8>> {
    if state.dom().contains(key) {
        Some(state[key])
    } else {
        None
    }
}

/// Read your writes: against a host that keeps what it is told, a read of
/// `key` after a write of `value` under `key` ends with exactly `value`,
/// whatever the state was before and whatever else was written under
/// other keys in between.
pub proof fn lemma_read_your_writes(
    state: HostState,
    key: Seq<u8>,
    value: Seq<u8>,
    capacity: nat,
)
    requires
        capacity > 0,
    ensures
        outcome(read_all(stored(written(state, key, value), key), start(capacity), 0).0) == Some(
            Ok::<Seq<u8>, Error>(value),
        ),
        forall|other: Seq<u8>, v: Seq<u8>|
            other != key ==> stored(written(written(state, key, value), other, v), key) == Some(
                value,
            ),
{
    lemma_reassembly(value, capacity);
}

} // verus!
