//! Transfers of device-resident data into the host store: the requests, their
//! preparation on the producer side and their resolution on the consumer side.

use crossbeam_channel::{Receiver, Sender};
use vstd::multiset::Multiset;
use vstd::prelude::*;

use crate::channel::{try_drain, try_send};
use crate::ids::{BufferRef, DestinationId, GpuResourceDescriptor, SourceRef};
use crate::in_flight::InFlightSet;
use crate::retry_queue::RetryQueue;
use crate::store::{store_write, HostStore};

verus! {

/// A request to move the bytes of `source` through `staging_buffer` into the
/// store slot `destination`.
#[derive(Clone, Copy, Debug, PartialEq, Eq, Structural)]
pub struct Transfer {
    pub source: SourceRef,
    pub destination: DestinationId,
    pub staging_buffer: BufferRef,
}

impl Transfer {
    pub fn new(source: SourceRef, destination: DestinationId, staging_buffer: BufferRef) -> (t:
        Self)
        ensures
            t == (Transfer { source, destination, staging_buffer }),
    {
        Transfer { source, destination, staging_buffer }
    }
}

/// The byte ranges of one device copy: `size` bytes from `source` at
/// `source_offset` to `destination`, a staging buffer, at `destination_offset`.
#[derive(Clone, Copy, Debug, PartialEq, Eq, Structural)]
pub struct GpuTransfer {
    pub source: BufferRef,
    pub source_offset: u64,
    pub destination: BufferRef,
    pub destination_offset: u64,
    pub size: u64,
}

impl GpuTransfer {
    /// The staged range ends at an address that a `u64` can hold.
    pub open spec fn well_formed(&self) -> bool {
        self.destination_offset + self.size <= u64::MAX
    }

    pub fn is_well_formed(&self) -> (ok: bool)
        ensures
            ok == self.well_formed(),
    {
        self.size <= u64::MAX - self.destination_offset
    }
}

/// The transfers that a cycle prepared, each request with its device copy.
pub type PreparedTransfers = Vec<(Transfer, GpuTransfer)>;

/// A staging buffer whose map completed, with the bytes that the map made
/// readable.
#[derive(Clone, Debug, PartialEq, Eq)]
pub struct MappedBuffer {
    pub id: BufferRef,
    pub data: Vec<u8>,
}

/// What crosses from the producer side to the consumer side when a map
/// completes: where the result belongs, and the mapped buffer.
pub type CompletionMessage = (DestinationId, MappedBuffer);

/// Why a decoder did not return a value.
#[derive(Clone, Debug, PartialEq, Eq)]
pub enum DecodeOutcome {
    /// The bytes cannot be decoded yet; the same bytes are offered again in
    /// the next cycle.
    RetryLater,
    /// The bytes can never be decoded; the transfer is given up.
    Fatal(String),
}

/// The producer side's view of the device-resident resources.
pub trait IntoTransfer {
    /// Where `source` lives on the device, or `None` while it is not ready.
    fn resolve_source(&self, source: SourceRef) -> Option<GpuResourceDescriptor>;
}

/// The decoder that turns staged bytes into values of the host store.
pub trait FromTransfer {
    type Value;

    /// Decodes the bytes of a mapped buffer. It may be offered the same bytes
    /// again after it answered `RetryLater`.
    fn decode(&mut self, data: &[u8]) -> Result<Self::Value, DecodeOutcome>;
}

/// The sending end of the completion channel.
#[derive(Clone)]
pub struct TransferSender(pub Sender<CompletionMessage>);

/// The receiving end of the completion channel.
pub struct TransferReceiver(pub Receiver<CompletionMessage>);

impl TransferSender {
    /// Hands `message` to the consumer side without blocking. A message that
    /// could not be sent comes back unchanged.
    pub fn send(&self, message: CompletionMessage) -> (r: Result<(), CompletionMessage>)
        ensures
            r matches Err(returned) ==> returned == message,
    {
        try_send(&self.0, message)
    }
}

impl TransferReceiver {
    /// The completions that have arrived, oldest first. Never waits for more.
    pub fn drain(&self) -> (arrived: Vec<CompletionMessage>) {
        try_drain(&self.0)
    }
}

/// Makes the two ends of a new completion channel.
pub fn create_transfer_channels() -> (ends: (TransferSender, TransferReceiver)) {
    let (s, r) = crossbeam_channel::unbounded();
    (TransferSender(s), TransferReceiver(r))
}

/// Requests that could not be prepared in this cycle.
pub struct PrepareNextFrameTransfers {
    pub transfers: RetryQueue<Transfer>,
}

impl PrepareNextFrameTransfers {
    pub open spec fn view(&self) -> Seq<Transfer> {
        self.transfers@
    }
}

impl Default for PrepareNextFrameTransfers {
    fn default() -> (q: Self)
        ensures
            q@ == Seq::<Transfer>::empty(),
    {
        PrepareNextFrameTransfers { transfers: RetryQueue::new() }
    }
}

/// Completions whose bytes could not be decoded in this cycle.
pub struct ResolveNextFrameTransfers {
    pub transfers: RetryQueue<CompletionMessage>,
}

impl ResolveNextFrameTransfers {
    pub open spec fn view(&self) -> Seq<CompletionMessage> {
        self.transfers@
    }
}

impl Default for ResolveNextFrameTransfers {
    fn default() -> (q: Self)
        ensures
            q@ == Seq::<CompletionMessage>::empty(),
    {
        ResolveNextFrameTransfers { transfers: RetryQueue::new() }
    }
}

/// What the producer side holds in the course of a cycle: the transfers
/// prepared so far, the requests put off to the next cycle, and the staging
/// buffers in flight.
pub struct PrepareState {
    pub prepared: Seq<(Transfer, GpuTransfer)>,
    pub next_frame: Seq<Transfer>,
    pub in_flight: Set<BufferRef>,
}

/// The state at the start of a cycle.
pub open spec fn prepare_start(in_flight: Set<BufferRef>) -> PrepareState {
    PrepareState { prepared: Seq::empty(), next_frame: Seq::empty(), in_flight }
}

/// The device copy for a request whose source resolved to `descriptor`: the
/// whole resource, to the start of the request's staging buffer.
pub open spec fn gpu_transfer_for(
    transfer: Transfer,
    descriptor: GpuResourceDescriptor,
) -> GpuTransfer {
    GpuTransfer {
        source: descriptor.buffer,
        source_offset: 0,
        destination: transfer.staging_buffer,
        destination_offset: 0,
        size: descriptor.size,
    }
}

/// One request of a cycle. It is prepared, and its staging buffer goes in
/// flight, when its source resolved and its staging buffer is idle. It is put
/// off to the next cycle, unchanged, when the source is not ready or the
/// buffer is in flight.
pub open spec fn prepare_one(
    state: PrepareState,
    transfer: Transfer,
    resolved: Option<GpuResourceDescriptor>,
) -> PrepareState {
    if resolved is Some && !state.in_flight.contains(transfer.staging_buffer) {
        PrepareState {
            prepared: state.prepared.push((transfer, gpu_transfer_for(transfer, resolved->Some_0))),
            next_frame: state.next_frame,
            in_flight: state.in_flight.insert(transfer.staging_buffer),
        }
    } else {
        PrepareState {
            prepared: state.prepared,
            next_frame: state.next_frame.push(transfer),
            in_flight: state.in_flight,
        }
    }
}

/// The requests of a cycle, taken in order, each with the answer that the
/// lookup of its source gave.
pub open spec fn prepare_all(
    state: PrepareState,
    transfers: Seq<Transfer>,
    resolved: Seq<Option<GpuResourceDescriptor>>,
) -> PrepareState
    recommends
        resolved.len() == transfers.len(),
    decreases transfers.len(),
{
    if transfers.len() == 0 {
        state
    } else {
        prepare_one(
            prepare_all(state, transfers.drop_last(), resolved.drop_last()),
            transfers.last(),
            resolved.last(),
        )
    }
}

/// Takes one request of a cycle, given what the lookup of its source
/// returned.
pub fn prepare_transfer(
    transfer: Transfer,
    resolved: Option<GpuResourceDescriptor>,
    in_flight: &mut InFlightSet,
    prepared: &mut PreparedTransfers,
    prepare_next_frame: &mut PrepareNextFrameTransfers,
)
    ensures
        (PrepareState {
            prepared: final(prepared)@,
            next_frame: final(prepare_next_frame)@,
            in_flight: final(in_flight)@,
        }) == prepare_one(
            PrepareState {
                prepared: old(prepared)@,
                next_frame: old(prepare_next_frame)@,
                in_flight: old(in_flight)@,
            },
            transfer,
            resolved,
        ),
{
    match resolved {
        Some(descriptor) => {
            if in_flight.contains(transfer.staging_buffer) {
                prepare_next_frame.transfers.push(transfer);
            } else {
                in_flight.try_acquire(transfer.staging_buffer);
                prepared.push(
                    (
                        transfer,
                        GpuTransfer {
                            source: descriptor.buffer,
                            source_offset: 0,
                            destination: transfer.staging_buffer,
                            destination_offset: 0,
                            size: descriptor.size,
                        },
                    ),
                );
            }
        },
        None => {
            prepare_next_frame.transfers.push(transfer);
        },
    }
}

/// The producer side's step of a cycle. Takes the requests put off by the
/// cycle before, then the new requests of `transfers`, looks each source up
/// in `render_assets`, and prepares what can be prepared. The new requests
/// are taken out of `transfers`; what could not be prepared waits in
/// `prepare_next_frame_transfers`.
///
/// What a lookup answers is up to `render_assets`. Whatever it answered, the
/// outcome is that of `prepare_all` on those answers.
pub fn prepare_transfers<R: IntoTransfer>(
    transfers: &mut Vec<Transfer>,
    prepare_next_frame_transfers: &mut PrepareNextFrameTransfers,
    render_assets: &R,
    in_flight: &mut InFlightSet,
) -> (prepared: PreparedTransfers)
    ensures
        final(transfers)@ == Seq::<Transfer>::empty(),
        exists|resolved: Seq<Option<GpuResourceDescriptor>>|
            {
                &&& resolved.len() == old(prepare_next_frame_transfers)@.len() + old(
                    transfers,
                )@.len()
                &&& (PrepareState {
                    prepared: prepared@,
                    next_frame: final(prepare_next_frame_transfers)@,
                    in_flight: final(in_flight)@,
                }) == #[trigger] prepare_all(
                    prepare_start(old(in_flight)@),
                    old(prepare_next_frame_transfers)@ + old(transfers)@,
                    resolved,
                )
            },
{
    let mut pending: Vec<Transfer> = prepare_next_frame_transfers.transfers.drain_all();
    pending.append(transfers);
    let mut prepared: PreparedTransfers = Vec::new();
    let ghost start = prepare_start(old(in_flight)@);
    let ghost all = old(prepare_next_frame_transfers)@ + old(transfers)@;
    let ghost mut resolved: Seq<Option<GpuResourceDescriptor>> = Seq::empty();
    let mut i: usize = 0;
    while i < pending.len()
        invariant
            i <= pending.len(),
            pending@ == all,
            transfers@ == Seq::<Transfer>::empty(),
            resolved.len() == i,
            (PrepareState {
                prepared: prepared@,
                next_frame: prepare_next_frame_transfers@,
                in_flight: in_flight@,
            }) == prepare_all(start, pending@.take(i as int), resolved),
        decreases pending.len() - i,
    {
        let transfer = pending[i];
        let lookup = render_assets.resolve_source(transfer.source);
        proof {
            assert(pending@.take(i + 1).drop_last() =~= pending@.take(i as int));
            assert(resolved.push(lookup).drop_last() =~= resolved);
            resolved = resolved.push(lookup);
        }
        prepare_transfer(transfer, lookup, in_flight, &mut prepared, prepare_next_frame_transfers);
        i += 1;
    }
    assert(pending@.take(pending.len() as int) =~= pending@);
    assert((PrepareState {
        prepared: prepared@,
        next_frame: prepare_next_frame_transfers@,
        in_flight: in_flight@,
    }) == prepare_all(start, all, resolved));
    prepared
}

/// The requests of a list of prepared transfers, in order.
pub open spec fn requests_of(prepared: Seq<(Transfer, GpuTransfer)>) -> Seq<Transfer> {
    prepared.map_values(|p: (Transfer, GpuTransfer)| p.0)
}

/// The staging buffers that a list of prepared transfers goes through.
pub open spec fn staging_buffers_of(prepared: Seq<(Transfer, GpuTransfer)>) -> Set<BufferRef> {
    Set::new(
        |b: BufferRef|
            exists|k: int| 0 <= k < prepared.len() && (#[trigger] prepared[k]).0.staging_buffer == b,
    )
}

/// No staging buffer is mapped twice at once. Whatever the lookups answered,
/// a cycle prepares no transfer through a buffer that was in flight when the
/// cycle began, prepares no two transfers through one buffer, stages each
/// prepared transfer into the buffer of its request, and ends with exactly
/// the buffers in flight that were so before or that it prepared a transfer
/// through.
pub proof fn lemma_one_map_per_buffer(
    in_flight: Set<BufferRef>,
    transfers: Seq<Transfer>,
    resolved: Seq<Option<GpuResourceDescriptor>>,
)
    requires
        resolved.len() == transfers.len(),
    ensures
        ({
            let end = prepare_all(prepare_start(in_flight), transfers, resolved);
            &&& forall|k: int|
                0 <= k < end.prepared.len() ==> !in_flight.contains(
                    (#[trigger] end.prepared[k]).0.staging_buffer,
                )
            &&& forall|j: int, k: int|
                0 <= j < k < end.prepared.len() ==> (#[trigger] end.prepared[j]).0.staging_buffer
                    != (#[trigger] end.prepared[k]).0.staging_buffer
            &&& forall|k: int|
                0 <= k < end.prepared.len() ==> (#[trigger] end.prepared[k]).1.destination
                    == end.prepared[k].0.staging_buffer
            &&& end.in_flight == in_flight.union(staging_buffers_of(end.prepared))
        }),
    decreases transfers.len(),
{
    let end = prepare_all(prepare_start(in_flight), transfers, resolved);
    if transfers.len() == 0 {
        assert(end.in_flight =~= in_flight.union(staging_buffers_of(end.prepared)));
    } else {
        lemma_one_map_per_buffer(in_flight, transfers.drop_last(), resolved.drop_last());
        let before = prepare_all(
            prepare_start(in_flight),
            transfers.drop_last(),
            resolved.drop_last(),
        );
        let transfer = transfers.last();
        if resolved.last() is Some && !before.in_flight.contains(transfer.staging_buffer) {
            let n = before.prepared.len() as int;
            assert(end.prepared[n].0.staging_buffer == transfer.staging_buffer);
            assert forall|k: int| 0 <= k < n implies end.prepared[k] == before.prepared[k] by {}
            assert forall|j: int, k: int| 0 <= j < k < end.prepared.len() implies (
            #[trigger] end.prepared[j]).0.staging_buffer != (
            #[trigger] end.prepared[k]).0.staging_buffer by {
                if k == n {
                    assert(before.prepared[j].0.staging_buffer == end.prepared[j].0.staging_buffer);
                    assert(staging_buffers_of(before.prepared).contains(
                        before.prepared[j].0.staging_buffer,
                    ));
                }
            }
            assert forall|b: BufferRef|
                end.in_flight.contains(b) <==> in_flight.union(
                    staging_buffers_of(end.prepared),
                ).contains(b) by {
                if staging_buffers_of(before.prepared).contains(b) {
                    let k = choose|k: int|
                        0 <= k < before.prepared.len() && (
                        #[trigger] before.prepared[k]).0.staging_buffer == b;
                    assert(end.prepared[k].0.staging_buffer == b);
                }
                if staging_buffers_of(end.prepared).contains(b) {
                    let k = choose|k: int|
                        0 <= k < end.prepared.len() && (#[trigger] end.prepared[k]).0.staging_buffer
                            == b;
                    if k < n {
                        assert(before.prepared[k].0.staging_buffer == b);
                    }
                }
            }
            assert(end.in_flight =~= in_flight.union(staging_buffers_of(end.prepared)));
        }
    }
}

/// No request is lost on the producer side. Whatever the lookups answered,
/// every request that a cycle took is afterwards either prepared or put off
/// to the next cycle, once, and nothing else is.
pub proof fn lemma_no_request_lost(
    in_flight: Set<BufferRef>,
    transfers: Seq<Transfer>,
    resolved: Seq<Option<GpuResourceDescriptor>>,
)
    requires
        resolved.len() == transfers.len(),
    ensures
        ({
            let end = prepare_all(prepare_start(in_flight), transfers, resolved);
            &&& end.prepared.len() + end.next_frame.len() == transfers.len()
            &&& requests_of(end.prepared).to_multiset().add(end.next_frame.to_multiset())
                == transfers.to_multiset()
        }),
    decreases transfers.len(),
{
    broadcast use vstd::seq_lib::to_multiset_build;
    broadcast use vstd::multiset::group_multiset_axioms;

    let end = prepare_all(prepare_start(in_flight), transfers, resolved);
    if transfers.len() == 0 {
        assert(requests_of(end.prepared) =~= Seq::<Transfer>::empty());
        assert(transfers =~= Seq::<Transfer>::empty());
        assert(Seq::<Transfer>::empty().to_multiset() =~= Multiset::<Transfer>::empty()) by {
            Seq::<Transfer>::empty().to_multiset_ensures();
            vstd::multiset::lemma_multiset_empty_len(Seq::<Transfer>::empty().to_multiset());
        }
        assert(requests_of(end.prepared).to_multiset().add(end.next_frame.to_multiset())
            =~= transfers.to_multiset());
    } else {
        lemma_no_request_lost(in_flight, transfers.drop_last(), resolved.drop_last());
        let before = prepare_all(
            prepare_start(in_flight),
            transfers.drop_last(),
            resolved.drop_last(),
        );
        let transfer = transfers.last();
        assert(transfers =~= transfers.drop_last().push(transfer));
        if resolved.last() is Some && !before.in_flight.contains(transfer.staging_buffer) {
            assert(requests_of(end.prepared) =~= requests_of(before.prepared).push(transfer));
        }
        assert(requests_of(end.prepared).to_multiset().add(end.next_frame.to_multiset())
            =~= transfers.to_multiset());
    }
}

/// A request whose source resolved and whose staging buffer is idle when
/// its turn comes is prepared in that cycle.
pub proof fn lemma_ready_request_is_prepared(
    state: PrepareState,
    transfer: Transfer,
    descriptor: GpuResourceDescriptor,
)
    requires
        !state.in_flight.contains(transfer.staging_buffer),
    ensures
        ({
            let end = prepare_one(state, transfer, Some(descriptor));
            &&& end.prepared == state.prepared.push(
                (transfer, gpu_transfer_for(transfer, descriptor)),
            )
            &&& end.next_frame == state.next_frame
            &&& end.in_flight.contains(transfer.staging_buffer)
        }),
{
}

/// What the consumer side did in a cycle.
#[derive(Clone, Debug, PartialEq, Eq)]
pub struct ResolveReport {
    /// The staging buffers that were unmapped, in the order of their
    /// completions. Each is to be taken out of the in-flight set.
    pub unmapped: Vec<BufferRef>,
    /// The destinations of the completions whose bytes were decoded.
    pub resolved: Vec<DestinationId>,
    /// The destinations of the completions that were given up.
    pub failed: Vec<DestinationId>,
}

impl ResolveReport {
    pub fn new() -> (report: Self)
        ensures
            report.unmapped@ == Seq::<BufferRef>::empty(),
            report.resolved@ == Seq::<DestinationId>::empty(),
            report.failed@ == Seq::<DestinationId>::empty(),
    {
        ResolveReport { unmapped: Vec::new(), resolved: Vec::new(), failed: Vec::new() }
    }
}

/// What the consumer side holds in the course of a cycle: the store, the
/// completions put off to the next cycle, and what it reports.
pub struct ResolveState<V> {
    pub store: Map<DestinationId, Option<V>>,
    pub next_frame: Seq<CompletionMessage>,
    pub unmapped: Seq<BufferRef>,
    pub resolved: Seq<DestinationId>,
    pub failed: Seq<DestinationId>,
}

/// The state at the start of a cycle.
pub open spec fn resolve_start<V>(store: Map<DestinationId, Option<V>>) -> ResolveState<V> {
    ResolveState {
        store,
        next_frame: Seq::empty(),
        unmapped: Seq::empty(),
        resolved: Seq::empty(),
        failed: Seq::empty(),
    }
}

/// The state that a store, a retry queue and a report make up.
pub open spec fn resolve_state<V>(
    store: Map<DestinationId, Option<V>>,
    next_frame: Seq<CompletionMessage>,
    report: ResolveReport,
) -> ResolveState<V> {
    ResolveState {
        store,
        next_frame,
        unmapped: report.unmapped@,
        resolved: report.resolved@,
        failed: report.failed@,
    }
}

/// One completion of a cycle, given what the decoder made of its bytes.
/// A value is written to the store and the buffer is unmapped. On
/// `RetryLater` the completion is put off unchanged, its buffer stays mapped
/// and the store is not touched. On `Fatal` the completion is dropped and
/// the buffer is unmapped.
pub open spec fn resolve_one<V>(
    state: ResolveState<V>,
    message: CompletionMessage,
    outcome: Result<V, DecodeOutcome>,
) -> ResolveState<V> {
    match outcome {
        Ok(value) => ResolveState {
            store: store_write(state.store, message.0, value),
            next_frame: state.next_frame,
            unmapped: state.unmapped.push(message.1.id),
            resolved: state.resolved.push(message.0),
            failed: state.failed,
        },
        Err(DecodeOutcome::RetryLater) => ResolveState {
            store: state.store,
            next_frame: state.next_frame.push(message),
            unmapped: state.unmapped,
            resolved: state.resolved,
            failed: state.failed,
        },
        Err(DecodeOutcome::Fatal(_)) => ResolveState {
            store: state.store,
            next_frame: state.next_frame,
            unmapped: state.unmapped.push(message.1.id),
            resolved: state.resolved,
            failed: state.failed.push(message.0),
        },
    }
}

/// The completions of a cycle, taken in order, each with what the decoder
/// made of its bytes.
pub open spec fn resolve_all<V>(
    state: ResolveState<V>,
    messages: Seq<CompletionMessage>,
    outcomes: Seq<Result<V, DecodeOutcome>>,
) -> ResolveState<V>
    recommends
        outcomes.len() == messages.len(),
    decreases messages.len(),
{
    if messages.len() == 0 {
        state
    } else {
        resolve_one(
            resolve_all(state, messages.drop_last(), outcomes.drop_last()),
            messages.last(),
            outcomes.last(),
        )
    }
}

/// Takes one completion of a cycle, given what the decoder made of its
/// bytes.
pub fn resolve_transfer<V>(
    message: CompletionMessage,
    outcome: Result<V, DecodeOutcome>,
    store: &mut HostStore<V>,
    resolve_next_frame: &mut ResolveNextFrameTransfers,
    report: &mut ResolveReport,
)
    ensures
        resolve_state(final(store)@, final(resolve_next_frame)@, *final(report)) == resolve_one(
            resolve_state(old(store)@, old(resolve_next_frame)@, *old(report)),
            message,
            outcome,
        ),
{
    match outcome {
        Ok(value) => {
            store.write(message.0, value);
            report.unmapped.push(message.1.id);
            report.resolved.push(message.0);
        },
        Err(DecodeOutcome::RetryLater) => {
            resolve_next_frame.transfers.push(message);
        },
        Err(DecodeOutcome::Fatal(_)) => {
            report.unmapped.push(message.1.id);
            report.failed.push(message.0);
        },
    }
}

/// The consumer side's step of a cycle. Takes the completions put off by the
/// cycle before, then those that have arrived on the channel, never waiting
/// for more, and offers the bytes of each to `decoder`.
///
/// What arrives is up to the channel, and what a decoding returns is up to
/// `decoder`. Whatever they were, the outcome is that of `resolve_all` on
/// them.
pub fn resolve_pending_transfers<D: FromTransfer>(
    transfer_receiver: &TransferReceiver,
    resolve_next_frame: &mut ResolveNextFrameTransfers,
    store: &mut HostStore<D::Value>,
    decoder: &mut D,
) -> (report: ResolveReport)
    ensures
        exists|arrived: Seq<CompletionMessage>, outcomes: Seq<Result<D::Value, DecodeOutcome>>|
            {
                &&& outcomes.len() == old(resolve_next_frame)@.len() + arrived.len()
                &&& resolve_state(final(store)@, final(resolve_next_frame)@, report)
                    == #[trigger] resolve_all(
                    resolve_start(old(store)@),
                    old(resolve_next_frame)@ + arrived,
                    outcomes,
                )
            },
{
    let mut pending: Vec<CompletionMessage> = resolve_next_frame.transfers.drain_all();
    let mut arrived: Vec<CompletionMessage> = transfer_receiver.drain();
    let ghost all = old(resolve_next_frame)@ + arrived@;
    pending.append(&mut arrived);
    let mut report = ResolveReport::new();
    let ghost start = resolve_start(old(store)@);
    let ghost mut outcomes: Seq<Result<D::Value, DecodeOutcome>> = Seq::empty();
    assert(resolve_state(store@, resolve_next_frame@, report) == start);
    for message in it: pending.into_iter()
        invariant
            it.seq() == all,
            outcomes.len() == it.index(),
            resolve_state(store@, resolve_next_frame@, report) == resolve_all(
                start,
                all.take(it.index() as int),
                outcomes,
            ),
    {
        let outcome = decoder.decode(message.1.data.as_slice());
        proof {
            assert(all.take(it.index() + 1).drop_last() =~= all.take(it.index() as int));
            assert(all.take(it.index() + 1).last() == message);
            assert(outcomes.push(outcome).drop_last() =~= outcomes);
            outcomes = outcomes.push(outcome);
        }
        resolve_transfer(message, outcome, store, resolve_next_frame, &mut report);
    }
    assert(all.take(all.len() as int) =~= all);
    report
}

/// No completion is lost on the consumer side. Whatever the decodings
/// returned, every completion that a cycle took is afterwards resolved, given
/// up or put off to the next cycle, and a buffer was unmapped for exactly
/// those that were resolved or given up.
pub proof fn lemma_no_completion_lost<V>(
    store: Map<DestinationId, Option<V>>,
    messages: Seq<CompletionMessage>,
    outcomes: Seq<Result<V, DecodeOutcome>>,
)
    requires
        outcomes.len() == messages.len(),
    ensures
        ({
            let end = resolve_all(resolve_start(store), messages, outcomes);
            &&& end.resolved.len() + end.failed.len() + end.next_frame.len() == messages.len()
            &&& end.unmapped.len() == end.resolved.len() + end.failed.len()
            &&& end.store.dom() == store.dom()
        }),
    decreases messages.len(),
{
    let end = resolve_all(resolve_start(store), messages, outcomes);
    if messages.len() > 0 {
        lemma_no_completion_lost(store, messages.drop_last(), outcomes.drop_last());
        let before = resolve_all(resolve_start(store), messages.drop_last(), outcomes.drop_last());
        assert(end.store.dom() =~= before.store.dom());
    }
}

/// Retrying is idempotent. A completion whose bytes the decoder put off in
/// one cycle and decoded to `value` in the next leaves the store as a single
/// cycle that decoded them to `value` at once: the attempt that was put off
/// wrote nothing and unmapped nothing, the completion came back unchanged,
/// and the buffer was unmapped once.
pub proof fn lemma_retry_is_idempotent<V>(
    store: Map<DestinationId, Option<V>>,
    message: CompletionMessage,
    value: V,
)
    ensures
        ({
            let first = resolve_all(
                resolve_start(store),
                seq![message],
                seq![Err::<V, DecodeOutcome>(DecodeOutcome::RetryLater)],
            );
            let second = resolve_all(
                resolve_start(first.store),
                first.next_frame,
                seq![Ok::<V, DecodeOutcome>(value)],
            );
            let direct = resolve_all(
                resolve_start(store),
                seq![message],
                seq![Ok::<V, DecodeOutcome>(value)],
            );
            &&& first.store == store
            &&& first.unmapped == Seq::<BufferRef>::empty()
            &&& first.next_frame == seq![message]
            &&& second == direct
            &&& direct.store == store_write(store, message.0, value)
            &&& direct.unmapped == seq![message.1.id]
            &&& direct.next_frame == Seq::<CompletionMessage>::empty()
        }),
{
    let retry = seq![Err::<V, DecodeOutcome>(DecodeOutcome::RetryLater)];
    let done = seq![Ok::<V, DecodeOutcome>(value)];
    let one = seq![message];
    assert(one.drop_last() =~= Seq::<CompletionMessage>::empty());
    assert(retry.drop_last() =~= Seq::<Result<V, DecodeOutcome>>::empty());
    assert(done.drop_last() =~= Seq::<Result<V, DecodeOutcome>>::empty());
    assert(one.last() == message);
    let start = resolve_start(store);
    assert(resolve_all(start, one.drop_last(), retry.drop_last()) == start);
    assert(resolve_all(start, one.drop_last(), done.drop_last()) == start);
    let first = resolve_all(start, one, retry);
    assert(first == resolve_one(start, message, retry.last()));
    assert(first.next_frame =~= one);
    assert(first.unmapped =~= Seq::<BufferRef>::empty());
    let direct = resolve_all(start, one, done);
    assert(direct == resolve_one(start, message, done.last()));
    assert(direct.unmapped =~= seq![message.1.id]);
    let second = resolve_all(resolve_start(first.store), first.next_frame, done);
    assert(second == direct);
}

} // verus!
