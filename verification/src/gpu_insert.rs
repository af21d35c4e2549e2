//! Inserts into the host side from staged buffers: the commands that ask for
//! one, and their conclusion on the consumer side.

use crossbeam_channel::{Receiver, Sender};
use std::ops::Range;
use vstd::prelude::*;

use crate::channel::{try_drain, try_send};
use crate::ids::BufferRef;
use crate::retry_queue::RetryQueue;
use crate::transfer::GpuTransfer;

verus! {

/// Asks for the bytes of `buffer` within `bounds` to be copied to
/// `staging_buffer` at `staging_buffer_offset`, staged, and then inserted
/// together with `info`.
#[derive(Debug, PartialEq, Eq)]
pub struct GpuInsertCommand<I> {
    pub buffer: BufferRef,
    pub bounds: Range<u64>,
    pub staging_buffer: BufferRef,
    pub staging_buffer_offset: u64,
    pub info: I,
}

impl<I> GpuInsertCommand<I> {
    /// The bounds do not run backwards, and the staged range ends at an
    /// address that a `u64` can hold.
    pub open spec fn well_formed(&self) -> bool {
        &&& self.bounds.start <= self.bounds.end
        &&& self.staging_buffer_offset + (self.bounds.end - self.bounds.start) <= u64::MAX
    }

    /// The device copy that the command asks for.
    pub open spec fn transfer(&self) -> GpuTransfer {
        GpuTransfer {
            source: self.buffer,
            source_offset: self.bounds.start,
            destination: self.staging_buffer,
            destination_offset: self.staging_buffer_offset,
            size: (self.bounds.end - self.bounds.start) as u64,
        }
    }

    /// The device copy that the command asks for, or `None` for a command that
    /// is not well formed.
    pub fn to_transfer(&self) -> (t: Option<GpuTransfer>)
        ensures
            t is Some <==> self.well_formed(),
            t is Some ==> t->Some_0 == self.transfer() && t->Some_0.well_formed(),
    {
        if self.bounds.start > self.bounds.end {
            return None;
        }
        let size: u64 = self.bounds.end - self.bounds.start;
        if size > u64::MAX - self.staging_buffer_offset {
            return None;
        }
        Some(
            GpuTransfer {
                source: self.buffer,
                source_offset: self.bounds.start,
                destination: self.staging_buffer,
                destination_offset: self.staging_buffer_offset,
                size,
            },
        )
    }
}

impl<I: Clone> Clone for GpuInsertCommand<I> {
    /// A command for the same buffers and ranges, with a clone of `info`.
    fn clone(&self) -> (c: Self)
        ensures
            c.buffer == self.buffer,
            c.bounds == self.bounds,
            c.staging_buffer == self.staging_buffer,
            c.staging_buffer_offset == self.staging_buffer_offset,
            c.well_formed() == self.well_formed(),
            c.transfer() == self.transfer(),
    {
        GpuInsertCommand {
            buffer: self.buffer,
            bounds: Range { start: self.bounds.start, end: self.bounds.end },
            staging_buffer: self.staging_buffer,
            staging_buffer_offset: self.staging_buffer_offset,
            info: self.info.clone(),
        }
    }
}

/// Why an insert did not conclude.
#[derive(Clone, Copy, Debug, PartialEq, Eq, Structural)]
pub enum GpuInsertError {
    /// The staged bytes cannot be inserted yet; the same bytes are offered
    /// again in the next cycle.
    RetryNextUpdate,
    /// The staged bytes can never be inserted; the command is given up.
    Fatal,
}

/// An insert command whose staging buffer was mapped, with the bytes that
/// the map made readable.
#[derive(Clone, Debug, PartialEq, Eq)]
pub struct StagedInsert<I> {
    pub command: GpuInsertCommand<I>,
    pub data: Vec<u8>,
}

/// Inserts data into the host side from staged bytes.
pub trait GpuInsert {
    /// What a command carries along for the insert.
    type Info: Clone;

    /// Inserts the staged bytes. It may be offered the same bytes again after
    /// it answered `RetryNextUpdate`.
    fn insert(&mut self, data: &[u8], info: Self::Info) -> Result<(), GpuInsertError>;
}

/// The sending end of the channel for staged inserts, on the device side.
#[derive(Clone)]
#[verifier::reject_recursive_types(I)]
pub struct GpuInsertSender<I>(pub Sender<StagedInsert<I>>);

/// The receiving end of the channel for staged inserts, on the host side.
#[verifier::reject_recursive_types(I)]
pub struct GpuInsertReceiver<I>(pub Receiver<StagedInsert<I>>);

impl<I> GpuInsertSender<I> {
    /// Hands `staged` to the host side without blocking. One that could not
    /// be sent comes back unchanged.
    pub fn send(&self, staged: StagedInsert<I>) -> (r: Result<(), StagedInsert<I>>)
        ensures
            r matches Err(returned) ==> returned == staged,
    {
        try_send(&self.0, staged)
    }
}

impl<I> GpuInsertReceiver<I> {
    /// The staged inserts that have arrived, oldest first. Never waits for
    /// more.
    pub fn drain(&self) -> (arrived: Vec<StagedInsert<I>>) {
        try_drain(&self.0)
    }
}

/// Makes the two ends of a new channel for staged inserts.
pub fn create_transfer_channels<I>() -> (ends: (GpuInsertSender<I>, GpuInsertReceiver<I>)) {
    let (s, r) = crossbeam_channel::unbounded();
    (GpuInsertSender(s), GpuInsertReceiver(r))
}

/// Inserts that did not conclude, to be taken up again in the next cycle.
pub struct InsertNextFrame<I> {
    pub commands: RetryQueue<StagedInsert<I>>,
}

impl<I> InsertNextFrame<I> {
    pub open spec fn view(&self) -> Seq<StagedInsert<I>> {
        self.commands@
    }
}

impl<I> Default for InsertNextFrame<I> {
    fn default() -> (q: Self)
        ensures
            q@ == Seq::<StagedInsert<I>>::empty(),
    {
        InsertNextFrame { commands: RetryQueue::new() }
    }
}

/// Empties the list of insert commands once their cycle has been staged.
pub fn clear_gpu_insert_commands<I>(commands: &mut Vec<GpuInsertCommand<I>>)
    ensures
        final(commands)@ == Seq::<GpuInsertCommand<I>>::empty(),
{
    commands.clear();
}

/// What a cycle of inserts did.
#[derive(Clone, Debug, PartialEq, Eq)]
pub struct InsertReport {
    /// The staging buffers that were unmapped, in the order of their inserts.
    pub unmapped: Vec<BufferRef>,
    /// The staging buffers of the inserts that were given up.
    pub failed: Vec<BufferRef>,
}

/// What the host side holds in the course of a cycle of inserts.
pub struct InsertState<I> {
    pub next_frame: Seq<StagedInsert<I>>,
    pub unmapped: Seq<BufferRef>,
    pub failed: Seq<BufferRef>,
}

/// The state at the start of a cycle.
pub open spec fn insert_start<I>() -> InsertState<I> {
    InsertState { next_frame: Seq::empty(), unmapped: Seq::empty(), failed: Seq::empty() }
}

/// The state that a retry queue and a report make up.
pub open spec fn insert_state<I>(
    next_frame: Seq<StagedInsert<I>>,
    report: InsertReport,
) -> InsertState<I> {
    InsertState { next_frame, unmapped: report.unmapped@, failed: report.failed@ }
}

/// One staged insert of a cycle, given what the insert returned. After a
/// success the staging buffer is unmapped. On `RetryNextUpdate` the staged
/// insert is put off unchanged and its buffer stays mapped. On `Fatal` it is
/// dropped and the buffer is unmapped.
pub open spec fn insert_one<I>(
    state: InsertState<I>,
    staged: StagedInsert<I>,
    outcome: Result<(), GpuInsertError>,
) -> InsertState<I> {
    match outcome {
        Ok(_) => InsertState {
            next_frame: state.next_frame,
            unmapped: state.unmapped.push(staged.command.staging_buffer),
            failed: state.failed,
        },
        Err(GpuInsertError::RetryNextUpdate) => InsertState {
            next_frame: state.next_frame.push(staged),
            unmapped: state.unmapped,
            failed: state.failed,
        },
        Err(GpuInsertError::Fatal) => InsertState {
            next_frame: state.next_frame,
            unmapped: state.unmapped.push(staged.command.staging_buffer),
            failed: state.failed.push(staged.command.staging_buffer),
        },
    }
}

/// The staged inserts of a cycle, taken in order, each with what its insert
/// returned.
pub open spec fn insert_all<I>(
    state: InsertState<I>,
    staged: Seq<StagedInsert<I>>,
    outcomes: Seq<Result<(), GpuInsertError>>,
) -> InsertState<I>
    recommends
        outcomes.len() == staged.len(),
    decreases staged.len(),
{
    if staged.len() == 0 {
        state
    } else {
        insert_one(
            insert_all(state, staged.drop_last(), outcomes.drop_last()),
            staged.last(),
            outcomes.last(),
        )
    }
}

/// Concludes one staged insert of a cycle, given what the insert returned.
pub fn conclude_insert<I>(
    staged: StagedInsert<I>,
    outcome: Result<(), GpuInsertError>,
    insert_next_frame: &mut InsertNextFrame<I>,
    report: &mut InsertReport,
)
    ensures
        insert_state(final(insert_next_frame)@, *final(report)) == insert_one(
            insert_state(old(insert_next_frame)@, *old(report)),
            staged,
            outcome,
        ),
{
    match outcome {
        Ok(_) => {
            report.unmapped.push(staged.command.staging_buffer);
        },
        Err(GpuInsertError::RetryNextUpdate) => {
            insert_next_frame.commands.push(staged);
        },
        Err(GpuInsertError::Fatal) => {
            report.unmapped.push(staged.command.staging_buffer);
            report.failed.push(staged.command.staging_buffer);
        },
    }
}

/// The host side's step of a cycle of inserts. Takes the staged inserts put
/// off by the cycle before, then those that have arrived on the channel,
/// never waiting for more, and offers the bytes of each to `inserter`.
///
/// What arrives is up to the channel, and what an insert returns is up to
/// `inserter`. Whatever they were, the outcome is that of `insert_all` on
/// them.
pub fn insert<T: GpuInsert>(
    transfer_receiver: &GpuInsertReceiver<T::Info>,
    insert_next_frame: &mut InsertNextFrame<T::Info>,
    inserter: &mut T,
) -> (report: InsertReport)
    ensures
        exists|arrived: Seq<StagedInsert<T::Info>>, outcomes: Seq<Result<(), GpuInsertError>>|
            {
                &&& outcomes.len() == old(insert_next_frame)@.len() + arrived.len()
                &&& insert_state(final(insert_next_frame)@, report) == #[trigger] insert_all(
                    insert_start(),
                    old(insert_next_frame)@ + arrived,
                    outcomes,
                )
            },
{
    let mut pending: Vec<StagedInsert<T::Info>> = insert_next_frame.commands.drain_all();
    let mut arrived: Vec<StagedInsert<T::Info>> = transfer_receiver.drain();
    let ghost all = old(insert_next_frame)@ + arrived@;
    pending.append(&mut arrived);
    let mut report = InsertReport { unmapped: Vec::new(), failed: Vec::new() };
    let ghost start = insert_start::<T::Info>();
    let ghost mut outcomes: Seq<Result<(), GpuInsertError>> = Seq::empty();
    assert(insert_state(insert_next_frame@, report) == start);
    for staged in it: pending.into_iter()
        invariant
            it.seq() == all,
            outcomes.len() == it.index(),
            insert_state(insert_next_frame@, report) == insert_all(
                start,
                all.take(it.index() as int),
                outcomes,
            ),
    {
        let info = staged.command.info.clone();
        let outcome = inserter.insert(staged.data.as_slice(), info);
        proof {
            assert(all.take(it.index() + 1).drop_last() =~= all.take(it.index() as int));
            assert(all.take(it.index() + 1).last() == staged);
            assert(outcomes.push(outcome).drop_last() =~= outcomes);
            outcomes = outcomes.push(outcome);
        }
        conclude_insert(staged, outcome, insert_next_frame, &mut report);
    }
    assert(all.take(all.len() as int) =~= all);
    report
}

} // verus!
