use sound_flow::{
    capture, chunk_samples, describe, fill_output, ingest, list_devices, relay_step,
    select_device, Broadcaster, DeviceEntry, IngestOutcome, RelayQueue, SetDeviceError,
    BROADCAST_CAPACITY, PACKAGE_SIZE, QUEUE_CAPACITY,
};

fn samples(n: usize, x: f32) -> Vec<u32> {
    vec![x.to_bits(); n]
}

fn as_floats(v: &[u32]) -> Vec<f32> {
    v.iter().map(|b| f32::from_bits(*b)).collect()
}

fn numbered(n: u32) -> Vec<u32> {
    (0..n).collect()
}

#[test]
fn fifo_order_and_content() {
    let mut q = RelayQueue::new(4);
    let a = numbered(3);
    let b = samples(5, 0.25);
    let c: Vec<u32> = Vec::new();
    assert!(q.push(a.clone()));
    assert!(q.push(b.clone()));
    assert!(q.push(c.clone()));
    assert_eq!(q.pop(), Some(a));
    assert_eq!(q.pop(), Some(b));
    assert_eq!(q.pop(), Some(c));
    assert_eq!(q.pop(), None);
}

#[test]
fn full_queue_drops_incoming_only() {
    let mut q = RelayQueue::new(2);
    assert!(q.push(vec![1]));
    assert!(q.push(vec![2]));
    assert!(!q.push(vec![3]));
    assert_eq!(q.pop(), Some(vec![1]));
    assert_eq!(q.pop(), Some(vec![2]));
    assert_eq!(q.pop(), None);
}

#[test]
fn full_default_queue_holds_its_capacity() {
    let mut q = RelayQueue::new(QUEUE_CAPACITY);
    for i in 0..QUEUE_CAPACITY {
        assert!(q.push(vec![i as u32]));
    }
    assert!(!q.push(vec![9999]));
    for i in 0..QUEUE_CAPACITY {
        assert_eq!(q.pop(), Some(vec![i as u32]));
    }
    assert_eq!(q.pop(), None);
}

#[test]
fn chunking_2500_samples() {
    let data = samples(2500, 0.1);
    let pieces = chunk_samples(&data, PACKAGE_SIZE);
    let lens: Vec<usize> = pieces.iter().map(|p| p.len()).collect();
    assert_eq!(lens, vec![1000, 1000, 500]);
}

#[test]
fn chunking_keeps_order_and_edges() {
    let data = numbered(7);
    let pieces = chunk_samples(&data, 3);
    assert_eq!(pieces, vec![vec![0, 1, 2], vec![3, 4, 5], vec![6]]);
    assert_eq!(chunk_samples(&Vec::new(), 3), Vec::<Vec<u32>>::new());
    assert_eq!(chunk_samples(&numbered(6), 3), vec![vec![0, 1, 2], vec![3, 4, 5]]);
}

#[test]
fn capture_pushes_packets_and_counts_drops() {
    let mut q = RelayQueue::new(2);
    let dropped = capture(&mut q, &samples(2500, 0.5), PACKAGE_SIZE);
    assert_eq!(dropped, 1);
    assert_eq!(q.pop().map(|p| p.len()), Some(1000));
    assert_eq!(q.pop().map(|p| p.len()), Some(1000));
    assert_eq!(q.pop(), None);
}

#[test]
fn capture_of_empty_buffer_pushes_nothing() {
    let mut q = RelayQueue::new(2);
    assert_eq!(capture(&mut q, &Vec::new(), PACKAGE_SIZE), 0);
    assert_eq!(q.pop(), None);
}

#[test]
fn playback_copies_min_prefix() {
    let mut q = RelayQueue::new(4);
    q.push(vec![7, 8]);
    let mut out = vec![1, 1, 1, 1, 1];
    fill_output(&mut q, &mut out, 5);
    assert_eq!(out, vec![7, 8, 1, 1, 1]);

    q.push(vec![4, 5, 6, 7, 8, 9]);
    let mut out = vec![0, 0, 0];
    fill_output(&mut q, &mut out, 5);
    assert_eq!(out, vec![4, 5, 6]);
    assert_eq!(q.pop(), None);
}

#[test]
fn playback_underrun_is_silence() {
    let mut q = RelayQueue::new(4);
    let mut out = samples(6, 0.75);
    fill_output(&mut q, &mut out, 4);
    assert_eq!(as_floats(&out), vec![0.0; 6]);
}

#[test]
fn playback_segments_take_one_packet_each() {
    let mut q = RelayQueue::new(4);
    q.push(vec![5, 5]);
    let mut out = vec![9; 7];
    fill_output(&mut q, &mut out, 3);
    assert_eq!(out, vec![5, 5, 9, 0, 0, 0, 0]);
}

#[test]
fn end_to_end_two_pulls() {
    let mut q = RelayQueue::new(QUEUE_CAPACITY);
    assert_eq!(ingest(&mut q, Some(samples(500, 1.0)), PACKAGE_SIZE), IngestOutcome::Queued);
    assert_eq!(ingest(&mut q, Some(samples(1000, 0.5)), PACKAGE_SIZE), IngestOutcome::Queued);
    let mut out = vec![0u32; 1000];

    fill_output(&mut q, &mut out, PACKAGE_SIZE);
    let mut expected = vec![1.0f32; 500];
    expected.extend(vec![0.0f32; 500]);
    assert_eq!(as_floats(&out), expected);

    fill_output(&mut q, &mut out, PACKAGE_SIZE);
    assert_eq!(as_floats(&out), vec![0.5f32; 1000]);

    fill_output(&mut q, &mut out, PACKAGE_SIZE);
    assert_eq!(as_floats(&out), vec![0.0f32; 1000]);
}

#[test]
fn ingest_skips_errors_and_oversized_packets() {
    let mut q = RelayQueue::new(1);
    assert_eq!(ingest(&mut q, None, PACKAGE_SIZE), IngestOutcome::Skipped);
    assert_eq!(ingest(&mut q, Some(samples(1001, 0.5)), PACKAGE_SIZE), IngestOutcome::Skipped);
    assert_eq!(ingest(&mut q, Some(vec![1]), PACKAGE_SIZE), IngestOutcome::Queued);
    assert_eq!(ingest(&mut q, Some(vec![2]), PACKAGE_SIZE), IngestOutcome::Dropped);
    assert_eq!(q.pop(), Some(vec![1]));
    assert_eq!(q.pop(), None);
}

#[test]
fn slow_subscriber_does_not_hold_back_fast_one() {
    let mut bc = Broadcaster::new(3);
    let fast = bc.subscribe();
    let slow = bc.subscribe();
    let mut got = Vec::new();
    for i in 0..10u32 {
        bc.publish(&vec![i]);
        got.push(bc.recv(fast).unwrap());
    }
    assert_eq!(got, (0..10u32).map(|i| vec![i]).collect::<Vec<_>>());
    assert_eq!(bc.recv(slow), Some(vec![7]));
    assert_eq!(bc.recv(slow), Some(vec![8]));
    assert_eq!(bc.recv(slow), Some(vec![9]));
    assert_eq!(bc.recv(slow), None);
    assert_eq!(bc.recv(fast), None);
}

#[test]
fn unsubscribed_and_unknown_ids_get_nothing() {
    let mut bc = Broadcaster::new(BROADCAST_CAPACITY);
    let a = bc.subscribe();
    let b = bc.subscribe();
    bc.unsubscribe(a);
    bc.publish(&vec![3]);
    assert_eq!(bc.recv(a), None);
    assert_eq!(bc.recv(b), Some(vec![3]));
    assert_eq!(bc.recv(42), None);
}

#[test]
fn relay_step_moves_one_packet() {
    let mut q = RelayQueue::new(4);
    let mut bc = Broadcaster::new(4);
    let s = bc.subscribe();
    assert!(!relay_step(&mut q, &mut bc));
    q.push(vec![1, 2]);
    q.push(vec![3]);
    assert!(relay_step(&mut q, &mut bc));
    assert_eq!(bc.recv(s), Some(vec![1, 2]));
    assert_eq!(bc.recv(s), None);
    assert!(relay_step(&mut q, &mut bc));
    assert!(!relay_step(&mut q, &mut bc));
    assert_eq!(bc.recv(s), Some(vec![3]));
}

fn entry(index: u32, name: Option<&str>, description: Option<&str>) -> DeviceEntry {
    DeviceEntry {
        index,
        name: name.map(|s| s.to_string()),
        description: description.map(|s| s.to_string()),
    }
}

#[test]
fn listing_uses_description_or_unknown() {
    let entries = vec![
        entry(3, Some("alsa_output.pci"), Some("Built-in Audio")),
        entry(7, Some("bluez_sink"), None),
    ];
    let shown = list_devices(&entries);
    assert_eq!(shown.len(), 2);
    assert_eq!(shown[0].id, 3);
    assert_eq!(shown[0].name, "Built-in Audio");
    assert_eq!(shown[1].id, 7);
    assert_eq!(shown[1].name, "Unknown");
    assert_eq!(describe(&entries[1]).name, "Unknown");
}

#[test]
fn select_device_finds_by_index() {
    let entries = vec![
        entry(3, Some("alsa_output.pci"), Some("Built-in Audio")),
        entry(7, Some("bluez_sink"), None),
        entry(9, None, Some("Nameless")),
    ];
    assert_eq!(select_device(&entries, 7), Ok("bluez_sink".to_string()));
    assert_eq!(select_device(&entries, 3), Ok("alsa_output.pci".to_string()));
    assert_eq!(select_device(&entries, 9), Err(SetDeviceError::Unnamed));
}

#[test]
fn select_absent_device_is_not_found() {
    let entries = vec![entry(3, Some("alsa_output.pci"), None)];
    assert_eq!(select_device(&entries, 4), Err(SetDeviceError::NotFound));
    assert_eq!(select_device(&Vec::new(), 0), Err(SetDeviceError::NotFound));
    assert_eq!(entries[0].name.as_deref(), Some("alsa_output.pci"));
}
