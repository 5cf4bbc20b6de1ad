use candid::Nat;
use ic_asset::chunks::MAX_CHUNK_SIZE;
use ic_asset::semaphores::Semaphore;
use ic_asset::upload::ChunkUpload;

fn payload(len: usize) -> Vec<u8> {
    (0..len).map(|at| (at % 251) as u8).collect()
}

fn id(value: u64) -> Nat {
    Nat::from(value)
}

#[test]
fn upload_of_an_empty_payload_has_one_chunk_of_no_bytes() {
    let upload = ChunkUpload::new(Vec::new(), vec![9; 32]);
    assert_eq!(upload.chunk_count(), 1);
    assert_eq!(upload.chunk(0), Some(&[][..]));
    assert_eq!(upload.chunk(1), None);
    assert_eq!(upload.in_flight(), 0);
    assert!(!upload.is_complete());
    assert!(!upload.has_failed());
    assert_eq!(upload.sha256(), &[9; 32][..]);
}

#[test]
fn calls_are_started_by_ascending_offset() {
    let mut network = Semaphore::new(10);
    let mut upload = ChunkUpload::new(payload(2 * MAX_CHUNK_SIZE + 1), Vec::new());
    assert_eq!(upload.chunk_count(), 3);
    assert_eq!(upload.start_next(&mut network), Some(0));
    assert_eq!(upload.start_next(&mut network), Some(1));
    assert_eq!(upload.start_next(&mut network), Some(2));
    assert_eq!(upload.start_next(&mut network), None);
    assert_eq!(upload.in_flight(), 3);
    assert_eq!(network.held(), 3);
}

#[test]
fn calls_in_flight_are_bounded_by_the_network_budget() {
    let mut network = Semaphore::new(2);
    let mut upload = ChunkUpload::new(payload(3 * MAX_CHUNK_SIZE), Vec::new());
    assert_eq!(upload.start_next(&mut network), Some(0));
    assert_eq!(upload.start_next(&mut network), Some(1));
    assert_eq!(upload.start_next(&mut network), None);
    assert_eq!(network.held(), 2);
    assert!(upload.record(&mut network, 0, Some(id(10))));
    assert_eq!(network.held(), 1);
    assert_eq!(upload.in_flight(), 1);
    assert_eq!(upload.start_next(&mut network), Some(2));
    assert_eq!(network.held(), 2);
    assert!(network.held() <= network.capacity());
}

#[test]
fn two_uploads_share_one_network_budget() {
    let mut network = Semaphore::new(3);
    let mut first = ChunkUpload::new(payload(2 * MAX_CHUNK_SIZE), Vec::new());
    let mut second = ChunkUpload::new(payload(2 * MAX_CHUNK_SIZE), Vec::new());
    assert_eq!(first.start_next(&mut network), Some(0));
    assert_eq!(second.start_next(&mut network), Some(0));
    assert_eq!(first.start_next(&mut network), Some(1));
    assert_eq!(second.start_next(&mut network), None);
    assert_eq!(first.in_flight() + second.in_flight(), network.held());
    assert!(first.record(&mut network, 1, Some(id(1))));
    assert_eq!(second.start_next(&mut network), Some(1));
    assert_eq!(first.in_flight() + second.in_flight(), network.held());
}

#[test]
fn identifiers_are_gathered_by_position_not_by_completion() {
    let mut network = Semaphore::new(10);
    let data = payload(2 * MAX_CHUNK_SIZE + 5);
    let mut upload = ChunkUpload::new(data.clone(), vec![1, 2, 3]);
    while upload.start_next(&mut network).is_some() {}
    assert!(upload.record(&mut network, 2, Some(id(102))));
    assert!(!upload.is_complete());
    assert!(upload.record(&mut network, 0, Some(id(100))));
    assert!(upload.record(&mut network, 1, Some(id(101))));
    assert!(upload.is_complete());
    assert_eq!(network.held(), 0);
    let mut sent = Vec::new();
    for index in 0..upload.chunk_count() {
        sent.extend_from_slice(upload.chunk(index).unwrap());
    }
    assert_eq!(sent, data);
    let (chunk_ids, sha256) = upload.finish().ok().unwrap();
    assert_eq!(chunk_ids, vec![id(100), id(101), id(102)]);
    assert_eq!(sha256, vec![1, 2, 3]);
}

#[test]
fn either_order_of_completion_gives_the_same_identifiers() {
    let mut network = Semaphore::new(10);
    let mut forward = ChunkUpload::new(payload(MAX_CHUNK_SIZE + 1), Vec::new());
    let mut backward = ChunkUpload::new(payload(MAX_CHUNK_SIZE + 1), Vec::new());
    while forward.start_next(&mut network).is_some() {}
    while backward.start_next(&mut network).is_some() {}
    assert!(forward.record(&mut network, 0, Some(id(7))));
    assert!(forward.record(&mut network, 1, Some(id(8))));
    assert!(backward.record(&mut network, 1, Some(id(8))));
    assert!(backward.record(&mut network, 0, Some(id(7))));
    assert_eq!(
        forward.finish().ok().unwrap().0,
        backward.finish().ok().unwrap().0
    );
}

#[test]
fn a_report_is_accepted_only_for_a_call_in_flight() {
    let mut network = Semaphore::new(10);
    let mut upload = ChunkUpload::new(payload(MAX_CHUNK_SIZE + 1), Vec::new());
    assert!(!upload.record(&mut network, 0, Some(id(1))));
    assert_eq!(upload.start_next(&mut network), Some(0));
    assert!(!upload.record(&mut network, 1, Some(id(1))));
    assert!(!upload.record(&mut network, 2, Some(id(1))));
    assert!(upload.record(&mut network, 0, Some(id(1))));
    assert!(!upload.record(&mut network, 0, Some(id(2))));
    assert_eq!(network.held(), 0);
    assert_eq!(upload.in_flight(), 0);
}

#[test]
fn a_report_without_a_permit_to_return_is_refused() {
    let mut network = Semaphore::new(1);
    let mut other = Semaphore::new(1);
    let mut upload = ChunkUpload::new(vec![1], Vec::new());
    assert_eq!(upload.start_next(&mut network), Some(0));
    assert!(!upload.record(&mut other, 0, Some(id(1))));
    assert_eq!(upload.in_flight(), 1);
    assert!(upload.record(&mut network, 0, Some(id(1))));
}

#[test]
fn no_call_is_started_after_a_failure() {
    let mut network = Semaphore::new(1);
    let mut upload = ChunkUpload::new(payload(2 * MAX_CHUNK_SIZE), Vec::new());
    assert_eq!(upload.start_next(&mut network), Some(0));
    assert!(upload.record(&mut network, 0, None));
    assert!(upload.has_failed());
    assert_eq!(network.held(), 0);
    assert_eq!(upload.start_next(&mut network), None);
    assert!(!upload.is_complete());
    assert!(upload.finish().is_err());
}

#[test]
fn an_upload_with_chunks_left_is_handed_back() {
    let mut network = Semaphore::new(10);
    let mut upload = ChunkUpload::new(payload(MAX_CHUNK_SIZE + 1), vec![5]);
    assert_eq!(upload.start_next(&mut network), Some(0));
    assert!(upload.record(&mut network, 0, Some(id(1))));
    let mut upload = upload.finish().err().unwrap();
    assert_eq!(upload.chunk_count(), 2);
    assert_eq!(upload.start_next(&mut network), Some(1));
    assert!(upload.record(&mut network, 1, Some(id(2))));
    let (chunk_ids, sha256) = upload.finish().ok().unwrap();
    assert_eq!(chunk_ids, vec![id(1), id(2)]);
    assert_eq!(sha256, vec![5]);
}

#[test]
fn abandoning_gives_up_every_call_in_flight() {
    let mut network = Semaphore::new(10);
    let mut upload = ChunkUpload::new(payload(3 * MAX_CHUNK_SIZE), Vec::new());
    assert_eq!(upload.start_next(&mut network), Some(0));
    assert_eq!(upload.start_next(&mut network), Some(1));
    assert!(upload.record(&mut network, 0, Some(id(1))));
    assert_eq!(upload.abandon(&mut network), 1);
    assert_eq!(upload.in_flight(), 0);
    assert_eq!(network.held(), 0);
    assert!(upload.has_failed());
    assert_eq!(upload.start_next(&mut network), None);
    assert!(!upload.record(&mut network, 1, Some(id(2))));
    assert!(upload.finish().is_err());
}

#[test]
fn abandoning_with_nothing_in_flight_changes_nothing() {
    let mut network = Semaphore::new(10);
    assert!(network.try_acquire(4));
    let mut upload = ChunkUpload::new(payload(10), Vec::new());
    assert_eq!(upload.abandon(&mut network), 0);
    assert!(!upload.has_failed());
    assert_eq!(network.held(), 4);
    assert_eq!(upload.start_next(&mut network), Some(0));
    assert!(upload.record(&mut network, 0, Some(id(3))));
    assert!(upload.is_complete());
}

#[test]
fn abandoning_returns_no_more_permits_than_are_out() {
    let mut network = Semaphore::new(10);
    let mut other = Semaphore::new(10);
    let mut upload = ChunkUpload::new(payload(2 * MAX_CHUNK_SIZE), Vec::new());
    assert_eq!(upload.start_next(&mut network), Some(0));
    assert_eq!(upload.start_next(&mut network), Some(1));
    assert!(other.try_acquire(1));
    assert_eq!(upload.abandon(&mut other), 2);
    assert_eq!(other.held(), 0);
    assert_eq!(network.held(), 2);
}
