use std::collections::HashMap;

use bevy_gpu_insert::compute::graph::DeviceCommand;
use bevy_gpu_insert::cycle::{Consumer, Producer, ProducerTick};
use bevy_gpu_insert::ids::{BufferRef, DestinationId, GpuResourceDescriptor, SourceRef};
use bevy_gpu_insert::transfer::{
    create_transfer_channels, DecodeOutcome, FromTransfer, IntoTransfer, MappedBuffer,
    TransferSender,
};

/// Device-resident resources, by source.
struct Resources {
    ready: HashMap<u64, GpuResourceDescriptor>,
}

impl Resources {
    fn new() -> Self {
        Resources { ready: HashMap::new() }
    }

    fn upload(&mut self, source: u64, buffer: u64, size: u64) {
        self.ready.insert(source, GpuResourceDescriptor { buffer: BufferRef(buffer), size });
    }
}

impl IntoTransfer for Resources {
    fn resolve_source(&self, source: SourceRef) -> Option<GpuResourceDescriptor> {
        self.ready.get(&source.0).copied()
    }
}

/// A device that keeps the bytes of its buffers in memory, runs a schedule
/// in order, and completes every map at once.
struct Device {
    memory: HashMap<u64, Vec<u8>>,
    submitted: bool,
    maps_issued: Vec<u64>,
}

impl Device {
    fn new() -> Self {
        Device { memory: HashMap::new(), submitted: false, maps_issued: Vec::new() }
    }

    fn fill(&mut self, buffer: u64, bytes: &[u8]) {
        self.memory.insert(buffer, bytes.to_vec());
    }

    fn run(&mut self, tick: &ProducerTick, sender: &TransferSender) {
        self.submitted = false;
        let mut pending: Vec<(u64, u64, u64, u64, u64)> = Vec::new();
        let mut next_map = 0;
        for command in tick.schedule.iter() {
            match *command {
                DeviceCommand::CopyBufferToBuffer {
                    source,
                    source_offset,
                    destination,
                    destination_offset,
                    size,
                } => {
                    assert!(!self.submitted, "a copy was encoded after the submission");
                    pending.push((source.0, source_offset, destination.0, destination_offset, size));
                }
                DeviceCommand::Submit => {
                    for (src, src_off, dst, dst_off, size) in pending.drain(..) {
                        let bytes =
                            self.memory[&src][src_off as usize..(src_off + size) as usize].to_vec();
                        let staging = self.memory.entry(dst).or_insert_with(Vec::new);
                        if staging.len() < (dst_off + size) as usize {
                            staging.resize((dst_off + size) as usize, 0);
                        }
                        staging[dst_off as usize..(dst_off + size) as usize]
                            .copy_from_slice(&bytes);
                    }
                    self.submitted = true;
                }
                DeviceCommand::MapRead { buffer, start, end } => {
                    assert!(self.submitted, "a map was requested before the submission");
                    self.maps_issued.push(buffer.0);
                    let data = self.memory[&buffer.0][start as usize..end as usize].to_vec();
                    let destination = tick.prepared[next_map].0.destination;
                    assert_eq!(tick.prepared[next_map].1.destination, buffer);
                    next_map += 1;
                    let sent = sender.send((destination, MappedBuffer { id: buffer, data }));
                    assert!(sent.is_ok());
                }
            }
        }
        assert_eq!(next_map, tick.prepared.len());
    }
}

/// Decodes the staged bytes as they are, after answering `RetryLater` a
/// given number of times.
struct Bytes {
    retries_left: u32,
    attempts: u32,
}

impl Bytes {
    fn ready() -> Self {
        Bytes { retries_left: 0, attempts: 0 }
    }

    fn after(retries: u32) -> Self {
        Bytes { retries_left: retries, attempts: 0 }
    }
}

impl FromTransfer for Bytes {
    type Value = Vec<u8>;

    fn decode(&mut self, data: &[u8]) -> Result<Vec<u8>, DecodeOutcome> {
        self.attempts += 1;
        if self.retries_left > 0 {
            self.retries_left -= 1;
            return Err(DecodeOutcome::RetryLater);
        }
        if data.is_empty() {
            return Err(DecodeOutcome::Fatal(String::from("no bytes")));
        }
        Ok(data.to_vec())
    }
}

#[test]
fn source_unresolved_for_three_cycles_then_resolved() {
    let (sender, receiver) = create_transfer_channels();
    let mut producer = Producer::new();
    let mut consumer: Consumer<Vec<u8>> = Consumer::new(receiver);
    let mut resources = Resources::new();
    let mut device = Device::new();
    let mut decoder = Bytes::ready();
    device.fill(10, &[1, 2, 3, 4]);
    consumer.store.register(DestinationId(7));

    producer.submit_transfer(SourceRef(1), DestinationId(7), BufferRef(20));
    let mut acknowledged: Vec<BufferRef> = Vec::new();
    for _cycle in 1..=3 {
        let tick = producer.tick_producer(&resources, &acknowledged);
        assert!(tick.prepared.is_empty());
        assert_eq!(tick.schedule, vec![DeviceCommand::Submit]);
        device.run(&tick, &sender);
        let report = consumer.tick_consumer(&mut decoder);
        assert!(report.resolved.is_empty());
        assert!(report.unmapped.is_empty());
        assert_eq!(consumer.store.get(DestinationId(7)), None);
        assert_eq!(producer.prepare_next_frame.transfers.len(), 1);
        acknowledged = report.unmapped;
    }

    // The fourth cycle: the source is there, the transfer is prepared. The
    // consumer side of the same cycle ran before the map completed.
    resources.upload(1, 10, 4);
    let report = consumer.tick_consumer(&mut decoder);
    assert!(report.resolved.is_empty());
    let tick = producer.tick_producer(&resources, &acknowledged);
    assert_eq!(tick.prepared.len(), 1);
    assert_eq!(tick.prepared[0].0.destination, DestinationId(7));
    assert_eq!(tick.prepared[0].1.source, BufferRef(10));
    assert_eq!(tick.prepared[0].1.size, 4);
    assert!(producer.in_flight.contains(BufferRef(20)));
    assert!(producer.prepare_next_frame.transfers.is_empty());
    assert_eq!(consumer.store.get(DestinationId(7)), None);
    device.run(&tick, &sender);

    // The fifth cycle: the completion has arrived and is resolved.
    let report = consumer.tick_consumer(&mut decoder);
    assert_eq!(report.resolved, vec![DestinationId(7)]);
    assert_eq!(report.unmapped, vec![BufferRef(20)]);
    assert!(report.failed.is_empty());
    assert_eq!(consumer.store.get(DestinationId(7)), Some(&vec![1, 2, 3, 4]));
    let tick = producer.tick_producer(&resources, &report.unmapped);
    assert!(tick.prepared.is_empty());
    assert!(!producer.in_flight.contains(BufferRef(20)));
}

#[test]
fn two_requests_share_one_staging_buffer() {
    let (sender, receiver) = create_transfer_channels();
    let mut producer = Producer::new();
    let mut consumer: Consumer<Vec<u8>> = Consumer::new(receiver);
    let mut resources = Resources::new();
    let mut device = Device::new();
    let mut decoder = Bytes::ready();
    device.fill(10, &[1, 1]);
    device.fill(11, &[2, 2]);
    resources.upload(1, 10, 2);
    resources.upload(2, 11, 2);
    consumer.store.register(DestinationId(1));
    consumer.store.register(DestinationId(2));

    producer.submit_transfer(SourceRef(1), DestinationId(1), BufferRef(20));
    producer.submit_transfer(SourceRef(2), DestinationId(2), BufferRef(20));

    // Cycle 1: exactly one of the two is prepared.
    let tick = producer.tick_producer(&resources, &Vec::new());
    assert_eq!(tick.prepared.len(), 1);
    assert_eq!(tick.prepared[0].0.destination, DestinationId(1));
    assert_eq!(producer.prepare_next_frame.transfers.len(), 1);
    device.run(&tick, &sender);

    // Cycle 2: the buffer is still mapped, the second request waits. The
    // consumer side resolves the first and unmaps the buffer.
    let tick = producer.tick_producer(&resources, &Vec::new());
    assert!(tick.prepared.is_empty());
    device.run(&tick, &sender);
    let report = consumer.tick_consumer(&mut decoder);
    assert_eq!(report.unmapped, vec![BufferRef(20)]);
    assert_eq!(consumer.store.get(DestinationId(1)), Some(&vec![1, 1]));

    // Cycle 3: the release reaches the producer side. The buffer is not used
    // again within the cycle that released it.
    let tick = producer.tick_producer(&resources, &report.unmapped);
    assert!(tick.prepared.is_empty());
    assert!(!producer.in_flight.contains(BufferRef(20)));
    device.run(&tick, &sender);

    // Cycle 4: the second request is prepared.
    let tick = producer.tick_producer(&resources, &Vec::new());
    assert_eq!(tick.prepared.len(), 1);
    assert_eq!(tick.prepared[0].0.destination, DestinationId(2));
    device.run(&tick, &sender);
    let report = consumer.tick_consumer(&mut decoder);
    assert_eq!(report.resolved, vec![DestinationId(2)]);
    assert_eq!(consumer.store.get(DestinationId(2)), Some(&vec![2, 2]));
    assert_eq!(device.maps_issued, vec![20, 20]);
}

#[test]
fn decoder_retries_twice_then_succeeds() {
    let (sender, receiver) = create_transfer_channels();
    let mut producer = Producer::new();
    let mut consumer: Consumer<Vec<u8>> = Consumer::new(receiver);
    let mut resources = Resources::new();
    let mut device = Device::new();
    let mut decoder = Bytes::after(2);
    device.fill(10, &[9, 8, 7]);
    resources.upload(1, 10, 3);
    consumer.store.register(DestinationId(5));

    producer.submit_transfer(SourceRef(1), DestinationId(5), BufferRef(20));
    let tick = producer.tick_producer(&resources, &Vec::new());
    device.run(&tick, &sender);

    let first = consumer.tick_consumer(&mut decoder);
    assert!(first.unmapped.is_empty());
    assert_eq!(consumer.store.get(DestinationId(5)), None);
    assert_eq!(consumer.resolve_next_frame.transfers.len(), 1);

    let second = consumer.tick_consumer(&mut decoder);
    assert!(second.unmapped.is_empty());
    assert_eq!(consumer.store.get(DestinationId(5)), None);
    assert_eq!(consumer.resolve_next_frame.transfers.len(), 1);

    let third = consumer.tick_consumer(&mut decoder);
    assert_eq!(third.resolved, vec![DestinationId(5)]);
    assert_eq!(third.unmapped, vec![BufferRef(20)]);
    assert_eq!(consumer.store.get(DestinationId(5)), Some(&vec![9, 8, 7]));
    assert!(consumer.resolve_next_frame.transfers.is_empty());

    assert_eq!(decoder.attempts, 3);
    assert_eq!(device.maps_issued, vec![20]);
}

#[test]
fn retried_decoding_gives_the_value_of_a_direct_one() {
    let message = || (DestinationId(3), MappedBuffer { id: BufferRef(20), data: vec![4, 5, 6] });

    let (sender, receiver) = create_transfer_channels();
    let mut retried: Consumer<Vec<u8>> = Consumer::new(receiver);
    retried.store.register(DestinationId(3));
    let mut decoder = Bytes::after(1);
    assert!(sender.send(message()).is_ok());
    let report = retried.tick_consumer(&mut decoder);
    assert!(report.resolved.is_empty());
    assert_eq!(retried.store.get(DestinationId(3)), None);
    let report = retried.tick_consumer(&mut decoder);
    assert_eq!(report.resolved, vec![DestinationId(3)]);

    let (sender, receiver) = create_transfer_channels();
    let mut direct: Consumer<Vec<u8>> = Consumer::new(receiver);
    direct.store.register(DestinationId(3));
    let mut decoder = Bytes::ready();
    assert!(sender.send(message()).is_ok());
    let report = direct.tick_consumer(&mut decoder);
    assert_eq!(report.resolved, vec![DestinationId(3)]);

    assert_eq!(retried.store.get(DestinationId(3)), direct.store.get(DestinationId(3)));
    assert_eq!(direct.store.get(DestinationId(3)), Some(&vec![4, 5, 6]));
}

#[test]
fn fatal_decoding_gives_up_one_transfer_only() {
    let (sender, receiver) = create_transfer_channels();
    let mut consumer: Consumer<Vec<u8>> = Consumer::new(receiver);
    consumer.store.register(DestinationId(1));
    consumer.store.register(DestinationId(2));
    let mut decoder = Bytes::ready();
    assert!(sender.send((DestinationId(1), MappedBuffer { id: BufferRef(20), data: vec![] })).is_ok());
    assert!(sender.send((DestinationId(2), MappedBuffer { id: BufferRef(21), data: vec![7] })).is_ok());

    let report = consumer.tick_consumer(&mut decoder);
    assert_eq!(report.failed, vec![DestinationId(1)]);
    assert_eq!(report.resolved, vec![DestinationId(2)]);
    assert_eq!(report.unmapped, vec![BufferRef(20), BufferRef(21)]);
    assert_eq!(consumer.store.get(DestinationId(1)), None);
    assert_eq!(consumer.store.get(DestinationId(2)), Some(&vec![7]));
    assert!(consumer.resolve_next_frame.transfers.is_empty());
}

#[test]
fn a_dead_destination_swallows_its_value() {
    let (sender, receiver) = create_transfer_channels();
    let mut consumer: Consumer<Vec<u8>> = Consumer::new(receiver);
    consumer.store.register(DestinationId(1));
    consumer.store.retire(DestinationId(1));
    let mut decoder = Bytes::ready();
    assert!(sender.send((DestinationId(1), MappedBuffer { id: BufferRef(20), data: vec![1] })).is_ok());

    let report = consumer.tick_consumer(&mut decoder);
    assert_eq!(report.resolved, vec![DestinationId(1)]);
    assert_eq!(report.unmapped, vec![BufferRef(20)]);
    assert!(report.failed.is_empty());
    assert!(!consumer.store.is_live(DestinationId(1)));
    assert_eq!(consumer.store.get(DestinationId(1)), None);
}

#[test]
fn every_request_is_prepared_or_put_off() {
    let mut producer = Producer::new();
    let mut resources = Resources::new();
    resources.upload(1, 10, 8);
    resources.upload(3, 12, 8);
    producer.submit_transfer(SourceRef(1), DestinationId(1), BufferRef(20));
    producer.submit_transfer(SourceRef(2), DestinationId(2), BufferRef(21));
    producer.submit_transfer(SourceRef(3), DestinationId(3), BufferRef(20));
    producer.submit_transfer(SourceRef(3), DestinationId(4), BufferRef(22));

    let tick = producer.tick_producer(&resources, &Vec::new());
    let prepared: Vec<u64> = tick.prepared.iter().map(|p| p.0.destination.0).collect();
    assert_eq!(prepared, vec![1, 4]);
    assert_eq!(producer.prepare_next_frame.transfers.len(), 2);
    assert!(producer.queue.is_empty());
    assert_eq!(tick.schedule.len(), 5);

    // Those put off come first in the next cycle, in the order they came.
    resources.upload(2, 11, 8);
    let tick = producer.tick_producer(&resources, &vec![BufferRef(20)]);
    let prepared: Vec<u64> = tick.prepared.iter().map(|p| p.0.destination.0).collect();
    assert_eq!(prepared, vec![2]);
    assert_eq!(producer.prepare_next_frame.transfers.len(), 1);

    let tick = producer.tick_producer(&resources, &Vec::new());
    let prepared: Vec<u64> = tick.prepared.iter().map(|p| p.0.destination.0).collect();
    assert_eq!(prepared, vec![3]);
    assert!(producer.prepare_next_frame.transfers.is_empty());
}

#[test]
fn an_acknowledgement_for_an_idle_buffer_releases_nothing() {
    let mut producer = Producer::new();
    let mut resources = Resources::new();
    resources.upload(1, 10, 8);
    producer.submit_transfer(SourceRef(1), DestinationId(1), BufferRef(20));
    let tick = producer.tick_producer(&resources, &vec![BufferRef(20)]);
    assert_eq!(tick.prepared.len(), 1);
    assert!(producer.in_flight.contains(BufferRef(20)));
}

#[test]
fn draining_an_empty_channel_returns_at_once() {
    let (sender, receiver) = create_transfer_channels();
    assert!(receiver.drain().is_empty());
    let other = sender.clone();
    assert!(sender.send((DestinationId(1), MappedBuffer { id: BufferRef(1), data: vec![1] })).is_ok());
    assert!(other.send((DestinationId(2), MappedBuffer { id: BufferRef(2), data: vec![2] })).is_ok());
    let arrived = receiver.drain();
    assert_eq!(arrived.len(), 2);
    assert_eq!(arrived[0], (DestinationId(1), MappedBuffer { id: BufferRef(1), data: vec![1] }));
    assert_eq!(arrived[1], (DestinationId(2), MappedBuffer { id: BufferRef(2), data: vec![2] }));
    assert!(receiver.drain().is_empty());
}

#[test]
fn a_message_that_cannot_be_sent_comes_back() {
    let (sender, receiver) = create_transfer_channels();
    drop(receiver);
    let returned = sender.send((DestinationId(1), MappedBuffer { id: BufferRef(1), data: vec![1, 2] }));
    assert_eq!(returned, Err((DestinationId(1), MappedBuffer { id: BufferRef(1), data: vec![1, 2] })));
}
