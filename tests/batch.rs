use flowlog::batch::{batch, BatchInput, Batcher};
use flowlog::packet::{DecodeError, FlowLog, IpAddress};
use flowlog::storage::Config;

const MS: u128 = 1_000_000;

fn record(port: u16) -> FlowLog {
    FlowLog {
        src: IpAddress::V4([10, 0, 0, 1]),
        src_port: Some(port),
        dst: IpAddress::V4([10, 0, 0, 2]),
        dst_port: Some(53),
        l3_protocol: 17,
        size: 64,
        timestamp: 0,
        dns: None,
    }
}

fn ports(b: &[FlowLog]) -> Vec<u16> {
    b.iter().map(|f| f.src_port.unwrap()).collect()
}

#[test]
fn count_bound_closes_batch_at_once() {
    let config = Config { max_packets_per_log: 3, packet_log_interval: 100 * MS };
    let mut b = Batcher::new(&config);
    let s1 = b.push(Ok(record(1)), 0);
    assert!(s1.batch.is_none() && s1.error.is_none());
    let s2 = b.push(Ok(record(2)), 0);
    assert!(s2.batch.is_none());
    let s3 = b.push(Ok(record(3)), 0);
    assert_eq!(ports(&s3.batch.unwrap()), vec![1, 2, 3]);
    assert!(b.open.is_empty());
    assert_eq!(b.deadline(), None);
    assert_eq!(b.finish(), None);
}

#[test]
fn interval_closes_batch_of_two() {
    let config = Config { max_packets_per_log: 1000, packet_log_interval: 100 * MS };
    let mut b = Batcher::new(&config);
    assert!(b.push(Ok(record(1)), 0).batch.is_none());
    assert!(b.push(Ok(record(2)), 10 * MS).batch.is_none());
    assert_eq!(b.deadline(), Some(100 * MS));
    assert_eq!(b.tick(50 * MS), None);
    assert_eq!(ports(&b.tick(150 * MS).unwrap()), vec![1, 2]);
    assert_eq!(b.deadline(), None);
    assert_eq!(b.tick(300 * MS), None);
}

#[test]
fn batches_keep_arrival_order() {
    let inputs: Vec<BatchInput> = (1..=7u16).map(|p| BatchInput::Packet(p as u128, Ok(record(p)))).collect();
    let run = batch(inputs, 3, 100 * MS);
    let got: Vec<Vec<u16>> = run.batches.iter().map(|b| ports(b)).collect();
    assert_eq!(got, vec![vec![1, 2, 3], vec![4, 5, 6], vec![7]]);
    assert!(run.errors.is_empty());
}

#[test]
fn malformed_packet_between_valid_ones_is_reported_not_batched() {
    let inputs = vec![
        BatchInput::Packet(0, Ok(record(1))),
        BatchInput::Packet(1, Err(DecodeError::UnsupportedOrMalformed)),
        BatchInput::Packet(2, Ok(record(2))),
        BatchInput::Tick(200 * MS),
    ];
    let run = batch(inputs, 3, 100 * MS);
    assert_eq!(run.batches.len(), 1);
    assert_eq!(ports(&run.batches[0]), vec![1, 2]);
    assert_eq!(run.errors, vec![DecodeError::UnsupportedOrMalformed]);
}

#[test]
fn failure_starts_the_clock_and_empty_flush_emits_nothing() {
    let config = Config { max_packets_per_log: 5, packet_log_interval: 100 * MS };
    let mut b = Batcher::new(&config);
    let s = b.push(Err(DecodeError::UnsupportedOrMalformed), 10 * MS);
    assert_eq!(s.error, Some(DecodeError::UnsupportedOrMalformed));
    assert!(s.batch.is_none());
    assert_eq!(b.deadline(), Some(110 * MS));
    assert_eq!(b.tick(110 * MS), None);
    assert_eq!(b.deadline(), None);
    b.push(Ok(record(9)), 120 * MS);
    assert_eq!(b.deadline(), Some(220 * MS));
    assert_eq!(ports(&b.finish().unwrap()), vec![9]);
}

#[test]
fn count_bound_of_one_gives_single_record_batches() {
    let inputs = vec![BatchInput::Packet(0, Ok(record(1))), BatchInput::Packet(0, Ok(record(2)))];
    let run = batch(inputs, 1, 0);
    assert_eq!(run.batches.len(), 2);
    assert_eq!(ports(&run.batches[1]), vec![2]);
}

#[test]
fn empty_stream_gives_no_batch() {
    let run = batch(vec![BatchInput::Tick(5)], 2, 1);
    assert!(run.batches.is_empty());
    assert!(run.errors.is_empty());
}

#[test]
fn deadline_saturates_at_the_largest_time() {
    let config = Config { max_packets_per_log: 2, packet_log_interval: u128::MAX };
    let mut b = Batcher::new(&config);
    b.push(Ok(record(1)), 5);
    assert_eq!(b.deadline(), Some(u128::MAX));
    assert_eq!(b.tick(u128::MAX), None);
}
