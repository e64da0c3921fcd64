use vstd::prelude::*;

verus! {

/// The length of the virtio network header that precedes each packet when
/// offload is enabled.
pub const VIRTIO_NET_HDR_LEN: usize = 10;

/// The largest number of packet buffers a batch may hold.
pub const MAX_BATCH_BUFFERS: usize = 65535;

/// Why a packet batch was refused.
#[derive(Clone, Copy, Debug, PartialEq, Eq, Structural)]
pub enum BatchError {
    /// No buffers were given, or not as many sizes as buffers.
    BufsMismatch,
    /// More buffers were given than a batch holds.
    TooManyBuffers,
    /// The offset lies beyond the end of a buffer.
    InvalidOffset,
    /// A packet read with offload enabled is no longer than its virtio header.
    ShortPacket { len: usize },
}

impl BatchError {
    /// Whether the error is reported as invalid input (else as another error).
    pub fn is_invalid_input(&self) -> (r: bool)
        ensures
            r == (*self == BatchError::TooManyBuffers || *self == BatchError::InvalidOffset),
    {
        match self {
            BatchError::TooManyBuffers => true,
            BatchError::InvalidOffset => true,
            _ => false,
        }
    }
}

/// Where a batched receive reads its packet.
#[derive(Clone, Copy, Debug, PartialEq, Eq, Structural)]
pub enum RecvTarget {
    /// Into the buffer that holds the virtio header and the whole packet, to
    /// be split into the segment buffers afterwards.
    Original,
    /// Straight into the first segment buffer, from `offset` on.
    FirstBuffer { offset: usize },
}

/// Where a batched receive of `n_bufs` segment buffers and `n_sizes` size
/// slots reads, or why it is refused; `first_len` is the length of the first
/// segment buffer.
pub open spec fn recv_target_spec(
    n_bufs: nat,
    n_sizes: nat,
    vnet_hdr: bool,
    first_len: nat,
    offset: nat,
) -> Result<RecvTarget, BatchError> {
    if n_bufs == 0 || n_bufs != n_sizes {
        Err(BatchError::BufsMismatch)
    } else if n_bufs > MAX_BATCH_BUFFERS {
        Err(BatchError::TooManyBuffers)
    } else if vnet_hdr {
        Ok(RecvTarget::Original)
    } else if offset > first_len {
        Err(BatchError::InvalidOffset)
    } else {
        Ok(RecvTarget::FirstBuffer { offset: offset as usize })
    }
}

/// Decides where a batched receive reads its packet.
pub fn recv_target(
    n_bufs: usize,
    n_sizes: usize,
    vnet_hdr: bool,
    first_len: usize,
    offset: usize,
) -> (r: Result<RecvTarget, BatchError>)
    ensures
        r == recv_target_spec(n_bufs as nat, n_sizes as nat, vnet_hdr, first_len as nat, offset as nat),
{
    if n_bufs == 0 || n_bufs != n_sizes {
        return Err(BatchError::BufsMismatch);
    }
    if n_bufs > MAX_BATCH_BUFFERS {
        return Err(BatchError::TooManyBuffers);
    }
    if vnet_hdr {
        return Ok(RecvTarget::Original);
    }
    if offset > first_len {
        return Err(BatchError::InvalidOffset);
    }
    Ok(RecvTarget::FirstBuffer { offset })
}

/// Checks the length of a packet read with offload enabled: it must be longer
/// than the virtio header.
pub fn check_virtio_len(len: usize) -> (r: Result<(), BatchError>)
    ensures
        len <= VIRTIO_NET_HDR_LEN ==> r == Err::<(), BatchError>(BatchError::ShortPacket { len }),
        len > VIRTIO_NET_HDR_LEN ==> r == Ok::<(), BatchError>(()),
{
    if len <= VIRTIO_NET_HDR_LEN {
        return Err(BatchError::ShortPacket { len });
    }
    Ok(())
}

/// Records a packet of `len` bytes read straight into the first segment
/// buffer: its size goes into the first size slot, and one packet was read.
pub fn record_single_packet(sizes: &mut Vec<usize>, len: usize) -> (r: usize)
    requires
        old(sizes)@.len() > 0,
    ensures
        r == 1,
        final(sizes)@ == old(sizes)@.update(0, len),
{
    sizes.set(0, len);
    1
}

/// How a batched send of `n_bufs` buffers starts: an empty batch sends
/// nothing, a batch that is too large is refused, and any other goes on.
pub fn send_batch_start(n_bufs: usize) -> (r: Option<Result<usize, BatchError>>)
    ensures
        n_bufs == 0 ==> r == Some(Ok::<usize, BatchError>(0)),
        n_bufs > MAX_BATCH_BUFFERS ==> r == Some(Err::<usize, BatchError>(BatchError::TooManyBuffers)),
        0 < n_bufs <= MAX_BATCH_BUFFERS ==> r is None,
{
    if n_bufs == 0 {
        return Some(Ok(0));
    }
    if n_bufs > MAX_BATCH_BUFFERS {
        return Some(Err(BatchError::TooManyBuffers));
    }
    None
}

/// Where in each buffer the packet to send starts: with offload enabled the
/// virtio header written before the packet is sent too.
pub fn send_offset(offset: usize, vnet_hdr: bool) -> (r: usize)
    requires
        vnet_hdr ==> offset >= VIRTIO_NET_HDR_LEN,
    ensures
        r == (if vnet_hdr { offset - VIRTIO_NET_HDR_LEN } else { offset as int }),
{
    if vnet_hdr {
        offset - VIRTIO_NET_HDR_LEN
    } else {
        offset
    }
}

/// The buffers of a batch without coalescing: each one, in order.
pub fn default_write_order(n_bufs: usize) -> (r: Vec<usize>)
    ensures
        r@.len() == n_bufs,
        forall|i: int| 0 <= i < n_bufs ==> #[trigger] r@[i] == i,
{
    let mut order: Vec<usize> = Vec::new();
    for i in 0..n_bufs
        invariant
            order@.len() == i,
            forall|j: int| 0 <= j < i ==> #[trigger] order@[j] == j,
    {
        order.push(i);
    }
    order
}

/// What a batched send does next.
#[derive(Clone, Copy, Debug, PartialEq, Eq, Structural)]
pub enum SendAction {
    /// Send buffer `index` from byte `start` on.
    Send { index: usize, start: usize },
    /// Stop: the offset lies beyond the end of the next buffer.
    InvalidOffset,
    /// Stop: every buffer of the order was handled; the outcome is ready.
    Done,
}

/// A batched send in progress: the buffers to send in order, the bytes sent,
/// and the error of the last send that failed.
pub struct BatchSend<E> {
    order: Vec<usize>,
    lens: Vec<usize>,
    offset: usize,
    next: usize,
    total: usize,
    last_error: Option<E>,
}

impl<E> BatchSend<E> {
    /// The indices of the buffers to send, in order.
    pub closed spec fn order(&self) -> Seq<usize> {
        self.order@
    }

    /// The lengths of the buffers.
    pub closed spec fn lens(&self) -> Seq<usize> {
        self.lens@
    }

    /// Where the packet starts in each buffer.
    pub closed spec fn offset(&self) -> usize {
        self.offset
    }

    /// How many buffers of the order have been handled.
    pub closed spec fn next(&self) -> nat {
        self.next as nat
    }

    /// The bytes sent so far.
    pub closed spec fn total(&self) -> nat {
        self.total as nat
    }

    /// The error of the last send that failed so far, if any.
    pub closed spec fn last_error(&self) -> Option<E> {
        self.last_error
    }

    /// The send is within its bounds.
    pub closed spec fn wf(&self) -> bool {
        &&& self.next <= self.order@.len()
        &&& forall|i: int| 0 <= i < self.order@.len() ==> #[trigger] self.order@[i] < self.lens@.len()
    }

    /// The action that the state of a send calls for.
    pub open spec fn action_spec(&self) -> SendAction {
        if self.next() == self.order().len() {
            SendAction::Done
        } else {
            let index = self.order()[self.next() as int];
            if self.offset() > self.lens()[index as int] {
                SendAction::InvalidOffset
            } else {
                SendAction::Send { index, start: self.offset() }
            }
        }
    }

    /// The outcome of a finished send: the error of the last failed send, if
    /// any send failed, else the bytes sent in all.
    pub open spec fn outcome_spec(&self) -> Result<usize, E> {
        match self.last_error() {
            Some(e) => Err(e),
            None => Ok(self.total() as usize),
        }
    }

    /// Starts a send of the buffers `order` (indices into buffers of lengths
    /// `lens`) from byte `offset` of each.
    pub fn new(order: Vec<usize>, lens: Vec<usize>, offset: usize) -> (r: Self)
        requires
            forall|i: int| 0 <= i < order@.len() ==> #[trigger] order@[i] < lens@.len(),
        ensures
            r.wf(),
            r.order() == order@,
            r.lens() == lens@,
            r.offset() == offset,
            r.next() == 0,
            r.total() == 0,
            r.last_error() is None,
    {
        BatchSend { order, lens, offset, next: 0, total: 0, last_error: None }
    }

    /// The bytes sent so far.
    pub fn total_sent(&self) -> (r: usize)
        ensures
            r == self.total(),
    {
        self.total
    }

    /// What to do next.
    pub fn action(&self) -> (r: SendAction)
        requires
            self.wf(),
        ensures
            r == self.action_spec(),
    {
        if self.next == self.order.len() {
            SendAction::Done
        } else {
            let index = self.order[self.next];
            if self.offset > self.lens[index] {
                SendAction::InvalidOffset
            } else {
                SendAction::Send { index, start: self.offset }
            }
        }
    }

    /// The pending send wrote `n` bytes: they count towards the total, and the
    /// send moves on to the next buffer.
    pub fn sent(&mut self, n: usize)
        requires
            old(self).wf(),
            old(self).action_spec() is Send,
            old(self).total() + n <= usize::MAX,
        ensures
            final(self).wf(),
            final(self).order() == old(self).order(),
            final(self).lens() == old(self).lens(),
            final(self).offset() == old(self).offset(),
            final(self).next() == old(self).next() + 1,
            final(self).total() == old(self).total() + n,
            final(self).last_error() == old(self).last_error(),
    {
        let n_order = self.order.len();
        assert(self.next < n_order);
        self.total = self.total + n;
        self.next = self.next + 1;
    }

    /// The pending send failed with `error`. A closed descriptor ends the
    /// batch at once with this error, which is handed back; any other error
    /// is remembered as the last one, and the send moves on to the next buffer.
    pub fn send_failed(&mut self, error: E, bad_descriptor: bool) -> (r: Option<E>)
        requires
            old(self).wf(),
            old(self).action_spec() is Send,
        ensures
            final(self).wf(),
            final(self).order() == old(self).order(),
            final(self).lens() == old(self).lens(),
            final(self).offset() == old(self).offset(),
            final(self).total() == old(self).total(),
            bad_descriptor ==> r == Some(error) && final(self).next() == old(self).next()
                && final(self).last_error() == old(self).last_error(),
            !bad_descriptor ==> r is None && final(self).next() == old(self).next() + 1
                && final(self).last_error() == Some(error),
    {
        if bad_descriptor {
            return Some(error);
        }
        let n_order = self.order.len();
        assert(self.next < n_order);
        self.last_error = Some(error);
        self.next = self.next + 1;
        None
    }

    /// The outcome of the finished send.
    pub fn outcome(self) -> (r: Result<usize, E>)
        requires
            self.action_spec() == SendAction::Done,
        ensures
            r == self.outcome_spec(),
    {
        match self.last_error {
            Some(e) => Err(e),
            None => Ok(self.total),
        }
    }
}


/// While buffers of the write order remain, a send sends the next one of the
/// order, from the offset, and only when the offset lies within it; once the
/// order is exhausted it is done.
pub proof fn law_send_follows_write_order<E>(s: BatchSend<E>)
    requires
        s.wf(),
    ensures
        s.next() == s.order().len() <==> s.action_spec() == SendAction::Done,
        s.next() < s.order().len() ==> {
            let index = s.order()[s.next() as int];
            &&& s.offset() <= s.lens()[index as int] ==> s.action_spec() == SendAction::Send {
                index,
                start: s.offset(),
            }
            &&& s.offset() > s.lens()[index as int] ==> s.action_spec() == SendAction::InvalidOffset
        },
        s.action_spec() matches SendAction::Send { index, start } ==> index == s.order()[s.next() as int]
            && start == s.offset() && start <= s.lens()[index as int],
{
}

/// A finished send reports the error of the last failed send if any send
/// failed, and otherwise the bytes sent in all.
pub proof fn law_send_outcome<E>(s: BatchSend<E>)
    ensures
        s.last_error() matches Some(e) ==> s.outcome_spec() == Err::<usize, E>(e),
        s.last_error() is None ==> s.outcome_spec() == Ok::<usize, E>(s.total() as usize),
{
}

/// A batched receive is accepted exactly when there is at least one buffer,
/// as many size slots as buffers, no more buffers than a batch holds, and,
/// without offload, an offset within the first buffer. With offload it reads
/// into the buffer that holds the whole packet; without, into the first
/// buffer from the given offset.
pub proof fn law_recv_target(n_bufs: nat, n_sizes: nat, vnet_hdr: bool, first_len: nat, offset: nat)
    requires
        offset <= usize::MAX,
    ensures
        recv_target_spec(n_bufs, n_sizes, vnet_hdr, first_len, offset) is Ok <==> (n_bufs > 0
            && n_bufs == n_sizes && n_bufs <= MAX_BATCH_BUFFERS && (vnet_hdr || offset <= first_len)),
        recv_target_spec(n_bufs, n_sizes, vnet_hdr, first_len, offset) matches Ok(t) ==> (vnet_hdr
            <==> t == RecvTarget::Original),
        recv_target_spec(n_bufs, n_sizes, vnet_hdr, first_len, offset) matches Ok(RecvTarget::FirstBuffer { offset: o }) ==> o == offset,
        (n_bufs == 0 || n_bufs != n_sizes) ==> recv_target_spec(n_bufs, n_sizes, vnet_hdr, first_len, offset)
            == Err::<RecvTarget, BatchError>(BatchError::BufsMismatch),
{
}

} // verus!
