use server_framework::client_tasks::{answer_for, continue_after_send};
use server_framework::client_session::{
    process_response_from_server, ClientAction, ClientSession, ResponseReport, REQUEST_COUNT,
};
use server_framework::manage_connection::{make_shutdown_response, ServerError};

#[test]
fn responses_keep_client_going_errors_stop_it() {
    let ok: Result<String, ServerError> = Ok("The number is: 1".to_string());
    assert_eq!(process_response_from_server(&ok), ClientAction::Continue);
    let err: Result<String, ServerError> = Err(ServerError::ShuttingDown);
    assert_eq!(process_response_from_server(&err), ClientAction::Stop);
}

#[test]
fn session_asks_zero_to_nine() {
    let mut session = ClientSession::new();
    let mut asked = Vec::new();
    while let Some(i) = session.next_request() {
        let response: Result<String, ServerError> = Ok(format!("{}", i));
        assert_eq!(session.on_response(Some(&response)), ResponseReport::Handled(ClientAction::Continue));
        asked.push(i);
    }
    assert_eq!(asked, (0..10).collect::<Vec<u32>>());
    assert_eq!(REQUEST_COUNT, 10);
    assert_eq!(session.next_request(), None);
}

#[test]
fn unreadable_response_does_not_stop() {
    let mut session = ClientSession::new();
    assert_eq!(session.next_request(), Some(0));
    assert_eq!(session.on_response::<String, ServerError>(None), ResponseReport::Unreadable);
    assert_eq!(session.next_request(), Some(1));
}

#[test]
fn shutdown_response_stops_the_session() {
    let mut session = ClientSession::new();
    assert_eq!(session.next_request(), Some(0));
    let first: Result<String, ServerError> = Ok("The number is: 0".to_string());
    assert_eq!(session.on_response(Some(&first)), ResponseReport::Handled(ClientAction::Continue));
    assert_eq!(session.next_request(), Some(1));
    let response = make_shutdown_response::<String>();
    assert_eq!(session.on_response(Some(&response)), ResponseReport::Handled(ClientAction::Stop));
    assert_eq!(session.next_request(), None);
}

#[test]
fn cyclic_manager_answers() {
    assert_eq!(answer_for::<u32, String>(Ok(3)), Some(3));
    assert_eq!(answer_for::<u32, String>(Err("unreadable".to_string())), None);
    assert!(continue_after_send(true));
    assert!(!continue_after_send(false));
}
