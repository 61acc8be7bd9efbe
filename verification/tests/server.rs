use server_framework::manage_connection::{
    make_shutdown_response, on_connection_end, on_writer_event, Closing, ConnectionEnd,
    ServerError, WriterAction, WriterEvent,
};
use server_framework::request_processing::{
    convert_int_to_string, IntToStringConverter, RequestProcessor,
};
use server_framework::server_runner::{AcceptOutcome, ConnectionRegistry, JOB_POOL_THREADS};
use server_framework::shutdown::{ListenStep, ShutdownListener};
use std::sync::Arc;

#[test]
fn number_sentences() {
    assert_eq!(convert_int_to_string(&42), "The number is: 42");
    assert_eq!(convert_int_to_string(&0), "The number is: 0");
    assert_eq!(convert_int_to_string(&10), "The number is: 10");
    assert_eq!(convert_int_to_string(&u32::MAX), "The number is: 4294967295");
}

#[test]
fn number_sentences_match_format() {
    for i in [1u32, 9, 99, 100, 12345, 1_000_000_007] {
        assert_eq!(convert_int_to_string(&i), format!("The number is: {}", i));
    }
}

#[test]
fn converter_processes_through_any_handle() {
    let converter = IntToStringConverter::new();
    assert_eq!(converter.process(&7), "The number is: 7");
    assert_eq!((&converter).process(&8), "The number is: 8");
    assert_eq!(Box::new(IntToStringConverter::new()).process(&9), "The number is: 9");
    assert_eq!(Arc::new(IntToStringConverter::new()).process(&11), "The number is: 11");
}

#[test]
fn shutdown_response_is_an_error() {
    assert_eq!(make_shutdown_response::<String>(), Err(ServerError::ShuttingDown));
}

#[test]
fn writer_sends_answers_and_notices() {
    assert!(matches!(on_writer_event::<u32>(WriterEvent::Dispatched), WriterAction::Track));
    assert!(matches!(on_writer_event(WriterEvent::Answered(5u32)), WriterAction::SendAnswer(5)));
    assert!(matches!(
        on_writer_event::<u32>(WriterEvent::Notice(make_shutdown_response())),
        WriterAction::SendNotice(Err(ServerError::ShuttingDown))
    ));
    assert!(matches!(on_writer_event::<u32>(WriterEvent::Exhausted), WriterAction::Finish));
}

#[test]
fn connection_end_decisions() {
    assert!(matches!(
        on_connection_end::<String>(ConnectionEnd::ShutdownRequested),
        Closing::NotifyClient(Err(ServerError::ShuttingDown))
    ));
    assert!(matches!(
        on_connection_end::<String>(ConnectionEnd::ClientDisconnected),
        Closing::ReportDisconnect
    ));
}

#[test]
fn registry_keeps_accepted_connections_in_order() {
    let mut registry = ConnectionRegistry::new();
    assert!(matches!(registry.on_connection_attempt(Some("a")), AcceptOutcome::Registered));
    assert!(matches!(registry.on_connection_attempt(None), AcceptOutcome::Failed));
    assert!(matches!(registry.on_connection_attempt(Some("b")), AcceptOutcome::Registered));
    assert_eq!(registry.into_connection_tasks(), vec!["a", "b"]);
    assert_eq!(JOB_POOL_THREADS, 8);
}

#[test]
fn shutdown_listener_records_signal() {
    let (_tx, rx) = tokio::sync::watch::channel(());
    let mut listener = ShutdownListener::new(rx);
    assert!(!listener.is_shutting_down());
    assert_eq!(listener.listen_step(), ListenStep::AwaitSignal);
    let copy = listener.clone();
    let _receiver = listener.notification_receiver();
    assert!(!listener.is_shutting_down());
    listener.record_shutdown_signal();
    assert!(listener.is_shutting_down());
    assert_eq!(listener.listen_step(), ListenStep::AlreadyHeard);
    assert!(!copy.is_shutting_down());
    assert!(listener.clone().is_shutting_down());
}
