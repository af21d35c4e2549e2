//! Staging: the device commands that copy data into staging buffers and make
//! those buffers readable by the host.

use vstd::prelude::*;

use crate::gpu_insert::GpuInsertCommand;
use crate::ids::BufferRef;
use crate::transfer::{GpuTransfer, Transfer};

verus! {

/// One step of the schedule that the device executes for a cycle.
#[derive(Clone, Copy, Debug, PartialEq, Eq, Structural)]
pub enum DeviceCommand {
    /// Encode a copy of `size` bytes between two buffers.
    CopyBufferToBuffer {
        source: BufferRef,
        source_offset: u64,
        destination: BufferRef,
        destination_offset: u64,
        size: u64,
    },
    /// Submit everything encoded so far to the device queue.
    Submit,
    /// Ask for the bytes `start..end` of `buffer` to be mapped for reading.
    /// The request returns at once; its completion is observed later.
    MapRead { buffer: BufferRef, start: u64, end: u64 },
}

/// Why no schedule could be made.
#[derive(Clone, Copy, Debug, PartialEq, Eq, Structural)]
pub enum NodeRunError {
    /// The entry at this index is not well formed.
    Malformed(usize),
}

/// The copy that `t` asks for.
pub open spec fn copy_of(t: GpuTransfer) -> DeviceCommand {
    DeviceCommand::CopyBufferToBuffer {
        source: t.source,
        source_offset: t.source_offset,
        destination: t.destination,
        destination_offset: t.destination_offset,
        size: t.size,
    }
}

/// The map request for the range that `t` stages.
pub open spec fn map_of(t: GpuTransfer) -> DeviceCommand {
    DeviceCommand::MapRead {
        buffer: t.destination,
        start: t.destination_offset,
        end: (t.destination_offset + t.size) as u64,
    }
}

/// The schedule of a cycle: every copy, in order; one submission; then every
/// map request, in the same order.
pub open spec fn staging_schedule(transfers: Seq<GpuTransfer>) -> Seq<DeviceCommand> {
    transfers.map_values(|t: GpuTransfer| copy_of(t)) + seq![DeviceCommand::Submit]
        + transfers.map_values(|t: GpuTransfer| map_of(t))
}

/// Every transfer of the list is well formed.
pub open spec fn all_well_formed(transfers: Seq<GpuTransfer>) -> bool {
    forall|i: int| 0 <= i < transfers.len() ==> (#[trigger] transfers[i]).well_formed()
}

/// In the schedule of a cycle the copy of each transfer is submitted before
/// any buffer is asked to be mapped: the copies fill the first places, the
/// submission follows them, and every map request stands behind it.
pub proof fn lemma_copies_precede_maps(transfers: Seq<GpuTransfer>)
    ensures
        staging_schedule(transfers).len() == 2 * transfers.len() + 1,
        staging_schedule(transfers)[transfers.len() as int] == DeviceCommand::Submit,
        forall|i: int|
            0 <= i < transfers.len() ==> {
                &&& #[trigger] staging_schedule(transfers)[i] == copy_of(transfers[i])
                &&& staging_schedule(transfers)[transfers.len() + 1 + i] == map_of(transfers[i])
            },
        forall|i: int, j: int|
            0 <= i < staging_schedule(transfers).len() && 0 <= j < staging_schedule(
                transfers,
            ).len() && (#[trigger] staging_schedule(transfers)[i]) is CopyBufferToBuffer
                && (#[trigger] staging_schedule(transfers)[j]) is MapRead ==> i < transfers.len()
                < j,
{
    let n = transfers.len() as int;
    let s = staging_schedule(transfers);
    assert forall|i: int| 0 <= i < s.len() implies (i < n ==> s[i] == copy_of(transfers[i])) && (i
        == n ==> s[i] == DeviceCommand::Submit) && (i > n ==> s[i] == map_of(
        transfers[i - n - 1],
    )) by {}
}

/// Builds the schedule of a cycle for `transfers`.
pub fn stage(transfers: &Vec<GpuTransfer>) -> (r: Result<Vec<DeviceCommand>, NodeRunError>)
    ensures
        match r {
            Ok(schedule) => all_well_formed(transfers@) && schedule@ == staging_schedule(
                transfers@,
            ),
            Err(NodeRunError::Malformed(i)) => {
                &&& i < transfers.len()
                &&& !transfers[i as int].well_formed()
                &&& all_well_formed(transfers@.take(i as int))
            },
        },
{
    let mut schedule: Vec<DeviceCommand> = Vec::new();
    let mut i: usize = 0;
    while i < transfers.len()
        invariant
            i <= transfers.len(),
            all_well_formed(transfers@.take(i as int)),
            schedule@ == transfers@.take(i as int).map_values(|t: GpuTransfer| copy_of(t)),
        decreases transfers.len() - i,
    {
        let t = transfers[i];
        if !t.is_well_formed() {
            return Err(NodeRunError::Malformed(i));
        }
        schedule.push(
            DeviceCommand::CopyBufferToBuffer {
                source: t.source,
                source_offset: t.source_offset,
                destination: t.destination,
                destination_offset: t.destination_offset,
                size: t.size,
            },
        );
        proof {
            assert(transfers@.take(i + 1) =~= transfers@.take(i as int).push(t));
            assert(schedule@ =~= transfers@.take(i + 1).map_values(|t: GpuTransfer| copy_of(t)));
        }
        i += 1;
    }
    assert(transfers@.take(transfers.len() as int) =~= transfers@);
    schedule.push(DeviceCommand::Submit);
    let ghost copies = transfers@.map_values(|t: GpuTransfer| copy_of(t)) + seq![
        DeviceCommand::Submit,
    ];
    assert(schedule@ =~= copies);
    let mut j: usize = 0;
    while j < transfers.len()
        invariant
            j <= transfers.len(),
            all_well_formed(transfers@),
            schedule@ == copies + transfers@.take(j as int).map_values(|t: GpuTransfer| map_of(t)),
        decreases transfers.len() - j,
    {
        let t = transfers[j];
        assert(transfers@[j as int].well_formed());
        let end: u64 = t.destination_offset + t.size;
        schedule.push(DeviceCommand::MapRead { buffer: t.destination, start: t.destination_offset, end });
        proof {
            assert(transfers@.take(j + 1) =~= transfers@.take(j as int).push(t));
            assert(schedule@ =~= copies + transfers@.take(j + 1).map_values(
                |t: GpuTransfer| map_of(t),
            ));
        }
        j += 1;
    }
    assert(transfers@.take(transfers.len() as int) =~= transfers@);
    Ok(schedule)
}

/// The copies that a list of insert commands asks for, in order.
pub open spec fn transfers_of<I>(commands: Seq<GpuInsertCommand<I>>) -> Seq<GpuTransfer> {
    commands.map_values(|c: GpuInsertCommand<I>| c.transfer())
}

/// The copies that a list of prepared transfers asks for, in order.
pub open spec fn copies_of(prepared: Seq<(Transfer, GpuTransfer)>) -> Seq<GpuTransfer> {
    prepared.map_values(|p: (Transfer, GpuTransfer)| p.1)
}

/// The node of the device's work graph that stages the buffers of a cycle.
pub struct StagingNode {}

impl StagingNode {
    /// The schedule that stages `commands`: all copies, submitted as one
    /// batch, and only then one map request per command. Fails on the first
    /// command that is not well formed, and schedules nothing then.
    pub fn run<I>(&self, commands: &Vec<GpuInsertCommand<I>>) -> (r: Result<
        Vec<DeviceCommand>,
        NodeRunError,
    >)
        ensures
            match r {
                Ok(schedule) => {
                    &&& forall|i: int|
                        0 <= i < commands.len() ==> (#[trigger] commands[i]).well_formed()
                    &&& schedule@ == staging_schedule(transfers_of(commands@))
                },
                Err(NodeRunError::Malformed(i)) => {
                    &&& i < commands.len()
                    &&& !commands[i as int].well_formed()
                    &&& forall|j: int| 0 <= j < i ==> (#[trigger] commands[j]).well_formed()
                },
            },
    {
        let mut transfers: Vec<GpuTransfer> = Vec::new();
        let mut i: usize = 0;
        while i < commands.len()
            invariant
                i <= commands.len(),
                forall|j: int| 0 <= j < i ==> (#[trigger] commands[j]).well_formed(),
                transfers@ == transfers_of(commands@.take(i as int)),
                all_well_formed(transfers@),
            decreases commands.len() - i,
        {
            match commands[i].to_transfer() {
                Some(t) => {
                    transfers.push(t);
                },
                None => {
                    return Err(NodeRunError::Malformed(i));
                },
            }
            proof {
                assert(commands@.take(i + 1) =~= commands@.take(i as int).push(commands@[i as int]));
                assert(transfers@ =~= transfers_of(commands@.take(i + 1)));
            }
            i += 1;
        }
        assert(commands@.take(commands.len() as int) =~= commands@);
        match stage(&transfers) {
            Ok(schedule) => Ok(schedule),
            Err(NodeRunError::Malformed(k)) => {
                proof {
                    assert(transfers@[k as int].well_formed());
                }
                Err(NodeRunError::Malformed(k))
            },
        }
    }
}

impl Default for StagingNode {
    fn default() -> (node: Self)
        ensures
            node == (StagingNode {  }),
    {
        StagingNode {  }
    }
}

} // verus!
