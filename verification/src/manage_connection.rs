//! The decisions of a server connection: what its writer sends, and how the
//! connection ends.
use vstd::prelude::*;

verus! {

/// Why the server could not answer a request.
#[derive(Debug, Clone, Copy, PartialEq, Eq, Structural)]
pub enum ServerError {
    /// The server is shutting down.
    ShuttingDown,
}

/// The answer that a server sends when it shuts down.
pub open spec fn shutdown_response<Resp>() -> Result<Resp, ServerError> {
    Err(ServerError::ShuttingDown)
}

/// The response that tells a client that the server is shutting down.
///
/// This fills in what was left unfinished: the notice used to be a bare
/// `Resp` built by a stub that always panicked, which no generic `Resp` can
/// be. It is now a `Result<Resp, ServerError>` whose `Err` says why no answer
/// follows, the form in which the client reads the server's replies.
pub fn make_shutdown_response<Resp>() -> (response: Result<Resp, ServerError>)
    ensures
        response == shutdown_response::<Resp>(),
{
    Err(ServerError::ShuttingDown)
}

/// What the writer of a connection was woken by.
pub enum WriterEvent<Resp> {
    /// A request was dispatched; its answer will come later.
    Dispatched,
    /// The answer to a dispatched request arrived.
    Answered(Resp),
    /// A message from the connection itself (such as the shutdown notice).
    Notice(Result<Resp, ServerError>),
    /// No source can deliver anything any more.
    Exhausted,
}

/// What the writer does.
pub enum WriterAction<Resp> {
    /// Keep waiting for the answer of the new request.
    Track,
    /// Send this answer to the client, as it came.
    SendAnswer(Resp),
    /// Send this notice to the client.
    SendNotice(Result<Resp, ServerError>),
    /// Stop writing.
    Finish,
}

/// The writer's decision: answers and notices go out as they came.
pub fn on_writer_event<Resp>(event: WriterEvent<Resp>) -> (action: WriterAction<Resp>)
    ensures
        match event {
            WriterEvent::Dispatched => action is Track,
            WriterEvent::Answered(r) => action == WriterAction::SendAnswer(r),
            WriterEvent::Notice(m) => action == WriterAction::SendNotice(m),
            WriterEvent::Exhausted => action is Finish,
        },
{
    match event {
        WriterEvent::Dispatched => WriterAction::Track,
        WriterEvent::Answered(r) => WriterAction::SendAnswer(r),
        WriterEvent::Notice(m) => WriterAction::SendNotice(m),
        WriterEvent::Exhausted => WriterAction::Finish,
    }
}

/// How a connection ended.
pub enum ConnectionEnd {
    /// The server is shutting down.
    ShutdownRequested,
    /// The client went away: reading and writing both finished.
    ClientDisconnected,
}

/// What to do as a connection ends.
pub enum Closing<Resp> {
    /// Tell the client, through the writer, with this message.
    NotifyClient(Result<Resp, ServerError>),
    /// Report that the client disconnected.
    ReportDisconnect,
}

/// On shutdown the client is told so; a client that left is reported.
pub fn on_connection_end<Resp>(end: ConnectionEnd) -> (closing: Closing<Resp>)
    ensures
        match end {
            ConnectionEnd::ShutdownRequested => closing == Closing::NotifyClient(
                shutdown_response::<Resp>(),
            ),
            ConnectionEnd::ClientDisconnected => closing is ReportDisconnect,
        },
{
    match end {
        ConnectionEnd::ShutdownRequested => Closing::NotifyClient(make_shutdown_response()),
        ConnectionEnd::ClientDisconnected => Closing::ReportDisconnect,
    }
}

} // verus!
