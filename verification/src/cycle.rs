//! The two sides of the pipeline, each stepped once per cycle.

use vstd::prelude::*;

use crate::compute::graph::{
    all_well_formed, copies_of, stage, staging_schedule, DeviceCommand, NodeRunError,
};
use crate::ids::{BufferRef, DestinationId, GpuResourceDescriptor, SourceRef};
use crate::in_flight::InFlightSet;
use crate::store::HostStore;
use crate::transfer::{
    prepare_all, prepare_start, prepare_transfers, resolve_all, resolve_pending_transfers,
    resolve_start, resolve_state, CompletionMessage, DecodeOutcome, FromTransfer, GpuTransfer,
    IntoTransfer, PrepareNextFrameTransfers, PrepareState, PreparedTransfers,
    ResolveNextFrameTransfers, ResolveReport, Transfer, TransferReceiver,
};

verus! {

/// What the producer side hands to the device for one cycle.
#[derive(Clone, Debug, PartialEq, Eq)]
pub struct ProducerTick {
    /// The transfers that the cycle prepared.
    pub prepared: PreparedTransfers,
    /// The schedule that stages them.
    pub schedule: Vec<DeviceCommand>,
}

/// The producer side: the queue of new requests, the requests put off, and
/// the staging buffers in flight.
pub struct Producer {
    pub queue: Vec<Transfer>,
    pub prepare_next_frame: PrepareNextFrameTransfers,
    pub in_flight: InFlightSet,
}

/// Every prepared transfer of a cycle stages from the start of its buffer,
/// so the list is well formed.
pub proof fn lemma_prepared_is_well_formed(
    in_flight: Set<BufferRef>,
    transfers: Seq<Transfer>,
    resolved: Seq<Option<GpuResourceDescriptor>>,
)
    requires
        resolved.len() == transfers.len(),
    ensures
        all_well_formed(
            copies_of(prepare_all(prepare_start(in_flight), transfers, resolved).prepared),
        ),
    decreases transfers.len(),
{
    let end = prepare_all(prepare_start(in_flight), transfers, resolved);
    if transfers.len() > 0 {
        lemma_prepared_is_well_formed(in_flight, transfers.drop_last(), resolved.drop_last());
        let before = prepare_all(
            prepare_start(in_flight),
            transfers.drop_last(),
            resolved.drop_last(),
        );
        assert forall|i: int| 0 <= i < copies_of(end.prepared).len() implies (#[trigger] copies_of(
            end.prepared,
        )[i]).well_formed() by {
            if i < before.prepared.len() {
                assert(copies_of(end.prepared)[i] == copies_of(before.prepared)[i]);
            }
        }
    }
}

impl Producer {
    pub fn new() -> (p: Self)
        ensures
            p.queue@ == Seq::<Transfer>::empty(),
            p.prepare_next_frame@ == Seq::<Transfer>::empty(),
            p.in_flight@ == Set::<BufferRef>::empty(),
    {
        Producer {
            queue: Vec::new(),
            prepare_next_frame: PrepareNextFrameTransfers::default(),
            in_flight: InFlightSet::new(),
        }
    }

    /// Queues a request behind those already queued.
    pub fn submit_transfer(
        &mut self,
        source: SourceRef,
        destination: DestinationId,
        staging_buffer: BufferRef,
    )
        ensures
            final(self).queue@ == old(self).queue@.push(
                Transfer { source, destination, staging_buffer },
            ),
            final(self).prepare_next_frame == old(self).prepare_next_frame,
            final(self).in_flight == old(self).in_flight,
    {
        self.queue.push(Transfer::new(source, destination, staging_buffer));
    }

    /// One cycle of the producer side. Prepares what can be prepared of the
    /// requests put off and the requests queued, and makes the schedule that
    /// stages them. `unmapped` names the staging buffers whose unmap the
    /// consumer side has acknowledged: they count as in flight while this
    /// cycle prepares, and are idle from the next cycle on.
    pub fn tick_producer<R: IntoTransfer>(
        &mut self,
        render_assets: &R,
        unmapped: &Vec<BufferRef>,
    ) -> (tick: ProducerTick)
        ensures
            final(self).queue@ == Seq::<Transfer>::empty(),
            tick.schedule@ == staging_schedule(copies_of(tick.prepared@)),
            exists|resolved: Seq<Option<GpuResourceDescriptor>>|
                {
                    let end = #[trigger] prepare_all(
                        prepare_start(old(self).in_flight@),
                        old(self).prepare_next_frame@ + old(self).queue@,
                        resolved,
                    );
                    &&& resolved.len() == old(self).prepare_next_frame@.len() + old(
                        self,
                    ).queue@.len()
                    &&& tick.prepared@ == end.prepared
                    &&& final(self).prepare_next_frame@ == end.next_frame
                    &&& final(self).in_flight@ == end.in_flight.difference(
                        unmapped@.to_set().intersect(old(self).in_flight@),
                    )
                },
    {
        let mut acknowledged: Vec<BufferRef> = Vec::new();
        let mut i: usize = 0;
        while i < unmapped.len()
            invariant
                i <= unmapped.len(),
                self == old(self),
                acknowledged@.to_set() == unmapped@.take(i as int).to_set().intersect(
                    self.in_flight@,
                ),
            decreases unmapped.len() - i,
        {
            let buffer = unmapped[i];
            let ghost before = acknowledged@;
            if self.in_flight.contains(buffer) {
                acknowledged.push(buffer);
            }
            proof {
                assert(unmapped@.take(i + 1) =~= unmapped@.take(i as int).push(buffer));
                lemma_to_set_push(unmapped@.take(i as int), buffer);
                lemma_to_set_push(before, buffer);
                assert(acknowledged@.to_set() =~= unmapped@.take(i + 1).to_set().intersect(
                    self.in_flight@,
                ));
            }
            i += 1;
        }
        assert(unmapped@.take(unmapped.len() as int) =~= unmapped@);
        let prepared = prepare_transfers(
            &mut self.queue,
            &mut self.prepare_next_frame,
            render_assets,
            &mut self.in_flight,
        );
        let ghost resolved = choose|resolved: Seq<Option<GpuResourceDescriptor>>|
            {
                &&& resolved.len() == old(self).prepare_next_frame@.len() + old(self).queue@.len()
                &&& (PrepareState {
                    prepared: prepared@,
                    next_frame: self.prepare_next_frame@,
                    in_flight: self.in_flight@,
                }) == #[trigger] prepare_all(
                    prepare_start(old(self).in_flight@),
                    old(self).prepare_next_frame@ + old(self).queue@,
                    resolved,
                )
            };
        proof {
            lemma_prepared_is_well_formed(
                old(self).in_flight@,
                old(self).prepare_next_frame@ + old(self).queue@,
                resolved,
            );
        }
        let mut copies: Vec<GpuTransfer> = Vec::new();
        let mut j: usize = 0;
        while j < prepared.len()
            invariant
                j <= prepared.len(),
                copies@ == copies_of(prepared@.take(j as int)),
            decreases prepared.len() - j,
        {
            let copy = prepared[j].1;
            copies.push(copy);
            proof {
                assert(prepared@.take(j + 1) =~= prepared@.take(j as int).push(prepared@[j as int]));
                assert(copies@ =~= copies_of(prepared@.take(j + 1)));
            }
            j += 1;
        }
        assert(prepared@.take(prepared.len() as int) =~= prepared@);
        let schedule = match stage(&copies) {
            Ok(schedule) => schedule,
            Err(NodeRunError::Malformed(_)) => vstd::pervasive::unreached(),
        };
        self.in_flight.release_all(&acknowledged);
        ProducerTick { prepared, schedule }
    }
}

/// The set of a list with one more item is the set of the list with that
/// item put in.
proof fn lemma_to_set_push(s: Seq<BufferRef>, b: BufferRef)
    ensures
        s.push(b).to_set() == s.to_set().insert(b),
{
    assert forall|x: BufferRef| s.push(b).to_set().contains(x) <==> s.to_set().insert(b).contains(
        x,
    ) by {
        if s.push(b).contains(x) {
            let k = choose|k: int| 0 <= k < s.push(b).len() && s.push(b)[k] == x;
            if k < s.len() {
                assert(s[k] == x);
            }
        }
        if s.contains(x) {
            let k = choose|k: int| 0 <= k < s.len() && s[k] == x;
            assert(s.push(b)[k] == x);
        }
        if x == b {
            assert(s.push(b)[s.len() as int] == x);
        }
    }
    assert(s.push(b).to_set() =~= s.to_set().insert(b));
}

/// The consumer side: the receiving end of the completion channel, the
/// completions put off, and the store.
pub struct Consumer<V> {
    pub transfer_receiver: TransferReceiver,
    pub resolve_next_frame: ResolveNextFrameTransfers,
    pub store: HostStore<V>,
}

impl<V> Consumer<V> {
    pub fn new(transfer_receiver: TransferReceiver) -> (c: Self)
        ensures
            c.resolve_next_frame@ == Seq::<CompletionMessage>::empty(),
            c.store@ == Map::<DestinationId, Option<V>>::empty(),
    {
        Consumer {
            transfer_receiver,
            resolve_next_frame: ResolveNextFrameTransfers::default(),
            store: HostStore::new(),
        }
    }

    /// One cycle of the consumer side. Resolves what can be resolved of the
    /// completions put off and the completions that have arrived, and
    /// reports the staging buffers to unmap and to acknowledge to the
    /// producer side.
    pub fn tick_consumer<D: FromTransfer<Value = V>>(&mut self, decoder: &mut D) -> (report:
        ResolveReport)
        ensures
            exists|arrived: Seq<CompletionMessage>, outcomes: Seq<Result<V, DecodeOutcome>>|
                {
                    &&& outcomes.len() == old(self).resolve_next_frame@.len() + arrived.len()
                    &&& resolve_state(final(self).store@, final(self).resolve_next_frame@, report)
                        == #[trigger] resolve_all(
                        resolve_start(old(self).store@),
                        old(self).resolve_next_frame@ + arrived,
                        outcomes,
                    )
                },
    {
        resolve_pending_transfers(
            &self.transfer_receiver,
            &mut self.resolve_next_frame,
            &mut self.store,
            decoder,
        )
    }
}

/// What the lookups of a cycle answer when the device-resident resources are
/// those of `table`.
pub open spec fn lookups(
    transfers: Seq<Transfer>,
    table: spec_fn(SourceRef) -> Option<GpuResourceDescriptor>,
) -> Seq<Option<GpuResourceDescriptor>> {
    transfers.map_values(|t: Transfer| table(t.source))
}

/// The requests that still wait after `cycles` cycles of the producer side,
/// when the lookups answer from `table` and every staging buffer that a cycle
/// put in flight is released before the next cycle begins.
pub open spec fn waiting_after(
    transfers: Seq<Transfer>,
    table: spec_fn(SourceRef) -> Option<GpuResourceDescriptor>,
    cycles: nat,
) -> Seq<Transfer>
    decreases cycles,
{
    if cycles == 0 {
        transfers
    } else {
        let before = waiting_after(transfers, table, (cycles - 1) as nat);
        prepare_all(prepare_start(Set::empty()), before, lookups(before, table)).next_frame
    }
}

/// A cycle that begins with no buffer in flight and finds every source ready
/// prepares at least one of its requests, and puts off only requests that it
/// took.
pub proof fn lemma_cycle_makes_progress(
    transfers: Seq<Transfer>,
    resolved: Seq<Option<GpuResourceDescriptor>>,
)
    requires
        resolved.len() == transfers.len(),
        forall|i: int| 0 <= i < resolved.len() ==> (#[trigger] resolved[i]) is Some,
    ensures
        ({
            let end = prepare_all(prepare_start(Set::empty()), transfers, resolved);
            &&& transfers.len() > 0 ==> end.prepared.len() >= 1
            &&& end.prepared.len() + end.next_frame.len() == transfers.len()
            &&& forall|k: int|
                0 <= k < end.next_frame.len() ==> transfers.contains(#[trigger] end.next_frame[k])
        }),
    decreases transfers.len(),
{
    let end = prepare_all(prepare_start(Set::empty()), transfers, resolved);
    if transfers.len() > 0 {
        let shorter = transfers.drop_last();
        lemma_cycle_makes_progress(shorter, resolved.drop_last());
        let before = prepare_all(prepare_start(Set::empty()), shorter, resolved.drop_last());
        assert(resolved.last() == resolved[resolved.len() - 1]);
        assert forall|k: int| 0 <= k < end.next_frame.len() implies transfers.contains(
            #[trigger] end.next_frame[k],
        ) by {
            if k < before.next_frame.len() {
                assert(end.next_frame[k] == before.next_frame[k]);
                let i = choose|i: int| 0 <= i < shorter.len() && shorter[i] == before.next_frame[k];
                assert(transfers[i] == end.next_frame[k]);
            } else {
                assert(transfers[transfers.len() - 1] == end.next_frame[k]);
            }
        }
    }
}

/// No request waits for ever. When every source of a list of requests is
/// ready, and every staging buffer that a cycle put in flight is released
/// before the next cycle begins, each cycle prepares at least one request
/// that still waits: after as many cycles as there are requests, none waits.
pub proof fn lemma_every_request_is_prepared_in_time(
    transfers: Seq<Transfer>,
    table: spec_fn(SourceRef) -> Option<GpuResourceDescriptor>,
    cycles: nat,
)
    requires
        forall|i: int| 0 <= i < transfers.len() ==> table((#[trigger] transfers[i]).source) is Some,
    ensures
        waiting_after(transfers, table, cycles).len() + cycles <= transfers.len()
            || waiting_after(transfers, table, cycles).len() == 0,
        forall|k: int|
            0 <= k < waiting_after(transfers, table, cycles).len() ==> transfers.contains(
                #[trigger] waiting_after(transfers, table, cycles)[k],
            ),
        cycles >= transfers.len() ==> waiting_after(transfers, table, cycles)
            == Seq::<Transfer>::empty(),
    decreases cycles,
{
    let after = waiting_after(transfers, table, cycles);
    if cycles == 0 {
        assert forall|k: int| 0 <= k < after.len() implies transfers.contains(
            #[trigger] after[k],
        ) by {
            assert(transfers[k] == after[k]);
        }
    } else {
        lemma_every_request_is_prepared_in_time(transfers, table, (cycles - 1) as nat);
        let before = waiting_after(transfers, table, (cycles - 1) as nat);
        let resolved = lookups(before, table);
        assert forall|i: int| 0 <= i < resolved.len() implies (#[trigger] resolved[i]) is Some by {
            assert(transfers.contains(before[i]));
            let j = choose|j: int| 0 <= j < transfers.len() && transfers[j] == before[i];
            assert(table(transfers[j].source) is Some);
        }
        lemma_cycle_makes_progress(before, resolved);
        assert forall|k: int| 0 <= k < after.len() implies transfers.contains(
            #[trigger] after[k],
        ) by {
            assert(before.contains(after[k]));
            let i = choose|i: int| 0 <= i < before.len() && before[i] == after[k];
            assert(transfers.contains(before[i]));
        }
    }
    assert(after.len() == 0 ==> after =~= Seq::<Transfer>::empty());
}

} // verus!
