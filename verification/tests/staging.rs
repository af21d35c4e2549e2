use bevy_gpu_insert::compute::graph::{stage, DeviceCommand, NodeRunError};
use bevy_gpu_insert::gpu_insert::{
    clear_gpu_insert_commands, create_transfer_channels, insert, GpuInsert, StagedInsert,
};
use bevy_gpu_insert::ids::BufferRef;
use bevy_gpu_insert::transfer::GpuTransfer;
use bevy_gpu_insert::{GpuInsertCommand, GpuInsertError, InsertNextFrame, StagingNode};

fn command(buffer: u64, start: u64, end: u64, staging: u64, offset: u64) -> GpuInsertCommand<u32> {
    GpuInsertCommand {
        buffer: BufferRef(buffer),
        bounds: start..end,
        staging_buffer: BufferRef(staging),
        staging_buffer_offset: offset,
        info: 0,
    }
}

#[test]
fn every_copy_is_submitted_before_any_map() {
    let commands = vec![command(1, 0, 16, 10, 0), command(2, 8, 24, 11, 32), command(3, 4, 4, 12, 0)];
    let schedule = StagingNode::default().run(&commands).unwrap();
    assert_eq!(
        schedule,
        vec![
            DeviceCommand::CopyBufferToBuffer {
                source: BufferRef(1),
                source_offset: 0,
                destination: BufferRef(10),
                destination_offset: 0,
                size: 16,
            },
            DeviceCommand::CopyBufferToBuffer {
                source: BufferRef(2),
                source_offset: 8,
                destination: BufferRef(11),
                destination_offset: 32,
                size: 16,
            },
            DeviceCommand::CopyBufferToBuffer {
                source: BufferRef(3),
                source_offset: 4,
                destination: BufferRef(12),
                destination_offset: 0,
                size: 0,
            },
            DeviceCommand::Submit,
            DeviceCommand::MapRead { buffer: BufferRef(10), start: 0, end: 16 },
            DeviceCommand::MapRead { buffer: BufferRef(11), start: 32, end: 48 },
            DeviceCommand::MapRead { buffer: BufferRef(12), start: 0, end: 0 },
        ]
    );
    let submit = schedule.iter().position(|c| *c == DeviceCommand::Submit).unwrap();
    for (place, step) in schedule.iter().enumerate() {
        match step {
            DeviceCommand::CopyBufferToBuffer { .. } => assert!(place < submit),
            DeviceCommand::MapRead { .. } => assert!(place > submit),
            DeviceCommand::Submit => assert_eq!(place, submit),
        }
    }
}

#[test]
fn an_empty_cycle_still_submits() {
    let commands: Vec<GpuInsertCommand<u32>> = Vec::new();
    assert_eq!(StagingNode::default().run(&commands), Ok(vec![DeviceCommand::Submit]));
    assert_eq!(stage(&Vec::new()), Ok(vec![DeviceCommand::Submit]));
}

#[test]
fn bounds_that_run_backwards_are_refused() {
    let commands = vec![command(1, 0, 16, 10, 0), command(2, 24, 8, 11, 0), command(3, 9, 1, 12, 0)];
    assert_eq!(StagingNode::default().run(&commands), Err(NodeRunError::Malformed(1)));
    assert_eq!(commands[1].to_transfer(), None);
}

#[test]
fn a_staged_range_past_the_last_address_is_refused() {
    let fits = command(1, 0, 16, 10, u64::MAX - 16);
    let too_far = command(1, 0, 16, 10, u64::MAX - 15);
    assert_eq!(
        StagingNode::default().run(&vec![fits.clone()]).unwrap()[2],
        DeviceCommand::MapRead { buffer: BufferRef(10), start: u64::MAX - 16, end: u64::MAX }
    );
    assert_eq!(StagingNode::default().run(&vec![fits, too_far]), Err(NodeRunError::Malformed(1)));

    let transfer = GpuTransfer {
        source: BufferRef(1),
        source_offset: 0,
        destination: BufferRef(2),
        destination_offset: u64::MAX,
        size: 1,
    };
    assert!(!transfer.is_well_formed());
    assert_eq!(stage(&vec![transfer]), Err(NodeRunError::Malformed(0)));
}

#[test]
fn a_command_gives_its_copy() {
    assert_eq!(
        command(1, 8, 24, 11, 32).to_transfer(),
        Some(GpuTransfer {
            source: BufferRef(1),
            source_offset: 8,
            destination: BufferRef(11),
            destination_offset: 32,
            size: 16,
        })
    );
    let first = command(1, 8, 24, 11, 32);
    assert_eq!(first.clone(), first);
}

#[test]
fn clearing_leaves_no_command() {
    let mut commands = vec![command(1, 0, 16, 10, 0), command(2, 0, 16, 11, 0)];
    clear_gpu_insert_commands(&mut commands);
    assert!(commands.is_empty());
}

/// Collects what it is given, after refusing a given number of times; gives
/// up on empty data.
struct Collector {
    refusals_left: u32,
    inserted: Vec<(u32, Vec<u8>)>,
}

impl GpuInsert for Collector {
    type Info = u32;

    fn insert(&mut self, data: &[u8], info: u32) -> Result<(), GpuInsertError> {
        if data.is_empty() {
            return Err(GpuInsertError::Fatal);
        }
        if self.refusals_left > 0 {
            self.refusals_left -= 1;
            return Err(GpuInsertError::RetryNextUpdate);
        }
        self.inserted.push((info, data.to_vec()));
        Ok(())
    }
}

fn staged(info: u32, staging: u64, data: Vec<u8>) -> StagedInsert<u32> {
    StagedInsert {
        command: GpuInsertCommand {
            buffer: BufferRef(1),
            bounds: 0..data.len() as u64,
            staging_buffer: BufferRef(staging),
            staging_buffer_offset: 0,
            info,
        },
        data,
    }
}

#[test]
fn an_insert_that_is_refused_is_offered_again() {
    let (sender, receiver) = create_transfer_channels::<u32>();
    let mut next_frame: InsertNextFrame<u32> = InsertNextFrame::default();
    let mut collector = Collector { refusals_left: 1, inserted: Vec::new() };
    assert!(sender.send(staged(1, 10, vec![1, 2])).is_ok());
    assert!(sender.clone().send(staged(2, 11, vec![3])).is_ok());

    let report = insert(&receiver, &mut next_frame, &mut collector);
    assert_eq!(report.unmapped, vec![BufferRef(11)]);
    assert!(report.failed.is_empty());
    assert_eq!(next_frame.commands.len(), 1);
    assert_eq!(collector.inserted, vec![(2, vec![3])]);

    // Nothing new has arrived; the one that was put off is taken up again,
    // with the bytes it had.
    let report = insert(&receiver, &mut next_frame, &mut collector);
    assert_eq!(report.unmapped, vec![BufferRef(10)]);
    assert!(next_frame.commands.is_empty());
    assert_eq!(collector.inserted, vec![(2, vec![3]), (1, vec![1, 2])]);

    let report = insert(&receiver, &mut next_frame, &mut collector);
    assert!(report.unmapped.is_empty());
    assert!(report.failed.is_empty());
}

#[test]
fn an_insert_that_fails_for_good_is_dropped() {
    let (sender, receiver) = create_transfer_channels::<u32>();
    let mut next_frame: InsertNextFrame<u32> = InsertNextFrame::default();
    let mut collector = Collector { refusals_left: 0, inserted: Vec::new() };
    assert!(sender.send(staged(1, 10, vec![])).is_ok());
    assert!(sender.send(staged(2, 11, vec![5])).is_ok());

    let report = insert(&receiver, &mut next_frame, &mut collector);
    assert_eq!(report.unmapped, vec![BufferRef(10), BufferRef(11)]);
    assert_eq!(report.failed, vec![BufferRef(10)]);
    assert!(next_frame.commands.is_empty());
    assert_eq!(collector.inserted, vec![(2, vec![5])]);
}

#[test]
fn a_staged_insert_that_cannot_be_sent_comes_back() {
    let (sender, receiver) = create_transfer_channels::<u32>();
    drop(receiver);
    assert_eq!(sender.send(staged(1, 10, vec![1])), Err(staged(1, 10, vec![1])));
}
