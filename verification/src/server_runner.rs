//! The bookkeeping of the server's accept loop and of its job pool.
use vstd::prelude::*;

verus! {

/// Threads in the pool that runs the request processor.
pub const JOB_POOL_THREADS: usize = 8;

/// Requests the dispatcher may hold before the connections wait.
pub const JOBS_BUFFER_SIZE: usize = 10;

/// Messages a connection's reader may hand its writer before it waits.
pub const READ_WRITE_BUFFER_SIZE: usize = 10;

/// Notices (such as the shutdown response) a writer may hold.
pub const NOTICE_BUFFER_SIZE: usize = 147;

/// Whether an attempt to accept a client succeeded.
pub enum AcceptOutcome {
    Registered,
    Failed,
}

/// The tasks of the connections accepted so far, in the order of their
/// arrival.
pub struct ConnectionRegistry<H> {
    connection_tasks: Vec<H>,
}

impl<H> View for ConnectionRegistry<H> {
    type V = Seq<H>;

    closed spec fn view(&self) -> Seq<H> {
        self.connection_tasks@
    }
}

impl<H> ConnectionRegistry<H> {
    pub fn new() -> (registry: Self)
        ensures
            registry@ == Seq::<H>::empty(),
    {
        ConnectionRegistry { connection_tasks: Vec::new() }
    }

    /// Keeps the task of an accepted connection; a failed attempt changes
    /// nothing.
    pub fn on_connection_attempt(&mut self, attempt: Option<H>) -> (outcome: AcceptOutcome)
        ensures
            match attempt {
                Some(task) => outcome is Registered && final(self)@ == old(self)@.push(task),
                None => outcome is Failed && final(self)@ == old(self)@,
            },
    {
        match attempt {
            Some(task) => {
                self.connection_tasks.push(task);
                AcceptOutcome::Registered
            },
            None => AcceptOutcome::Failed,
        }
    }

    /// All tasks, to be awaited when the loop ends.
    pub fn into_connection_tasks(self) -> (tasks: Vec<H>)
        ensures
            tasks@ == self@,
    {
        self.connection_tasks
    }
}

} // verus!
