use server_framework::connection_task::{on_connection_event, ConnectionAction, ConnectionEvent};
use server_framework::incremental_read::{FillStep, IncrementalReadStorage, ReadOutcome};
use server_framework::stream_serialization::encode_frame;

#[test]
fn fresh_storage_wants_header() {
    let storage = IncrementalReadStorage::default();
    assert!(!storage.is_initialized());
    assert!(!storage.is_full());
    assert!(matches!(storage.next_step(), FillStep::ReadHeader));
    assert!(storage.buffer().is_empty());
}

#[test]
fn storage_fills_in_chunks() {
    let mut storage = IncrementalReadStorage::default();
    assert!(storage.begin_message(5));
    assert!(storage.is_initialized());
    assert!(matches!(storage.next_step(), FillStep::ReadBody { max: 5 }));
    assert_eq!(storage.accept_bytes(&[1, 2]), ReadOutcome::Progressed);
    assert!(!storage.is_full());
    assert_eq!(storage.remaining(), 3);
    assert!(matches!(storage.next_step(), FillStep::ReadBody { max: 3 }));
    assert_eq!(storage.accept_bytes(&[3, 4, 5]), ReadOutcome::Progressed);
    assert!(storage.is_full());
    assert!(matches!(storage.next_step(), FillStep::Complete));
    assert_eq!(storage.buffer(), &[1, 2, 3, 4, 5]);
    storage.reset();
    assert!(!storage.is_initialized());
    assert!(storage.buffer().is_empty());
}

#[test]
fn empty_message_is_full_at_once() {
    let mut storage = IncrementalReadStorage::default();
    assert!(storage.begin_message(0));
    assert!(storage.is_full());
    assert!(matches!(storage.next_step(), FillStep::Complete));
    assert_eq!(storage.accept_bytes(&[]), ReadOutcome::Progressed);
    assert_eq!(storage.remaining(), 0);
}

#[test]
fn reader_receives_a_frame_in_any_pieces() {
    let payload = b"hello, framework".to_vec();
    let frame = encode_frame(&payload);
    for piece in 1..=payload.len() {
        let mut storage = IncrementalReadStorage::default();
        let header = u64::from_be_bytes(frame[..8].try_into().unwrap());
        storage.begin_message(header);
        for chunk in frame[8..].chunks(piece) {
            storage.accept_bytes(chunk);
        }
        assert!(storage.is_full());
        assert_eq!(storage.buffer(), &payload[..]);
    }
}

#[test]
fn connection_delivers_whole_message_and_resets() {
    let mut storage = IncrementalReadStorage::default();
    storage.begin_message(3);
    storage.accept_bytes(&[7, 8]);
    assert!(matches!(
        on_connection_event(&mut storage, ConnectionEvent::ReadProgressed),
        ConnectionAction::Continue
    ));
    assert_eq!(storage.remaining(), 1);
    storage.accept_bytes(&[9]);
    match on_connection_event(&mut storage, ConnectionEvent::ReadProgressed) {
        ConnectionAction::Deliver(message) => assert_eq!(message, vec![7, 8, 9]),
        _ => panic!("expected a delivered message"),
    }
    assert!(!storage.is_initialized());
}

#[test]
fn connection_frames_responses() {
    let mut storage = IncrementalReadStorage::default();
    match on_connection_event(&mut storage, ConnectionEvent::Response(vec![4, 2])) {
        ConnectionAction::Transmit(bytes) => {
            assert_eq!(bytes, vec![0, 0, 0, 0, 0, 0, 0, 2, 4, 2])
        }
        _ => panic!("expected a frame to send"),
    }
}

#[test]
fn connection_closes() {
    let mut storage = IncrementalReadStorage::default();
    assert!(matches!(
        on_connection_event(&mut storage, ConnectionEvent::ReadFailed),
        ConnectionAction::Close { socket_closed: true }
    ));
    assert!(matches!(
        on_connection_event(&mut storage, ConnectionEvent::Idle),
        ConnectionAction::Close { socket_closed: false }
    ));
}

#[test]
fn oversized_announcement_is_refused() {
    let mut storage = IncrementalReadStorage::default();
    assert!(!storage.begin_message(u64::MAX));
    assert!(!storage.is_initialized());
    assert!(!storage.begin_message(isize::MAX as u64 + 1));
    assert!(matches!(storage.next_step(), FillStep::ReadHeader));
}

#[test]
fn empty_read_means_stream_ended() {
    let mut storage = IncrementalReadStorage::default();
    assert!(storage.begin_message(4));
    assert_eq!(storage.accept_bytes(&[1]), ReadOutcome::Progressed);
    assert_eq!(storage.accept_bytes(&[]), ReadOutcome::StreamEnded);
    assert_eq!(storage.remaining(), 3);
    assert_eq!(storage.buffer(), &[1]);
}
