//! Remembers whether the shutdown signal has arrived. Waiting for the
//! signal is asynchronous and happens outside; this type holds the receiver
//! it is awaited on and the flag that records that it came.
use tokio::sync::watch;
use vstd::prelude::*;

verus! {

/// `tokio::sync::watch::Receiver`, opaque to Verus.
#[verifier::external_type_specification]
#[verifier::external_body]
#[verifier::reject_recursive_types(T)]
pub struct ExWatchReceiver<T>(watch::Receiver<T>);

/// `<watch::Receiver<()> as Clone>::clone`: another receiver of the same
/// channel. Nothing about it is stated.
#[verifier::external_body]
fn clone_receiver(receiver: &watch::Receiver<()>) -> (copy: watch::Receiver<()>) {
    receiver.clone()
}

/// The steps a listener can take: hearing the signal, handing out its
/// receiver to await on, and being cloned.
pub enum ListenerStep {
    HearSignal,
    AwaitOnReceiver,
    CloneFrom,
}

/// Whether the signal counts as heard after `step`, given whether it did before.
pub open spec fn flag_after_step(heard: bool, step: ListenerStep) -> bool {
    match step {
        ListenerStep::HearSignal => true,
        _ => heard,
    }
}

/// Whether the signal counts as heard after `steps`, in order.
pub open spec fn flag_after(heard: bool, steps: Seq<ListenerStep>) -> bool
    decreases steps.len(),
{
    if steps.len() == 0 {
        heard
    } else {
        flag_after(flag_after_step(heard, steps[0]), steps.drop_first())
    }
}

/// What listening for the signal takes.
#[derive(Debug, Clone, Copy, PartialEq, Eq, Structural)]
pub enum ListenStep {
    /// The signal was heard before: return at once.
    AlreadyHeard,
    /// Await the signal on the receiver, then record it.
    AwaitSignal,
}

pub struct ShutdownListener {
    shutting_down: bool,
    shutdown_notification_receiver: watch::Receiver<()>,
}

impl ShutdownListener {
    /// The signal has arrived.
    pub closed spec fn shut_down(&self) -> bool {
        self.shutting_down
    }

    /// The receiver that the signal is awaited on.
    pub closed spec fn receiver(&self) -> watch::Receiver<()> {
        self.shutdown_notification_receiver
    }

    /// A listener that has not yet heard the signal.
    pub fn new(shutdown_signal_receiver: watch::Receiver<()>) -> (listener: Self)
        ensures
            !listener.shut_down(),
            listener.receiver() == shutdown_signal_receiver,
    {
        Self { shutting_down: false, shutdown_notification_receiver: shutdown_signal_receiver }
    }

    /// Whether the signal has arrived.
    pub fn is_shutting_down(&self) -> (shutting_down: bool)
        ensures
            shutting_down == self.shut_down(),
    {
        self.shutting_down
    }

    /// The first step of listening: nothing to wait for once the signal was
    /// heard.
    pub fn listen_step(&self) -> (step: ListenStep)
        ensures
            step == (if self.shut_down() {
                ListenStep::AlreadyHeard
            } else {
                ListenStep::AwaitSignal
            }),
    {
        if self.shutting_down {
            ListenStep::AlreadyHeard
        } else {
            ListenStep::AwaitSignal
        }
    }

    /// Records that the signal arrived (or that its sender is gone).
    pub fn record_shutdown_signal(&mut self)
        ensures
            final(self).shut_down(),
            final(self).shut_down() == flag_after_step(old(self).shut_down(), ListenerStep::HearSignal),
            final(self).receiver() == old(self).receiver(),
    {
        self.shutting_down = true;
    }

    /// The receiver to await the signal on. Awaiting it does not change what
    /// the listener has recorded.
    pub fn notification_receiver(&mut self) -> (receiver: &mut watch::Receiver<()>)
        ensures
            *receiver == old(self).receiver(),
            final(self).receiver() == *final(receiver),
            final(self).shut_down() == old(self).shut_down(),
            final(self).shut_down() == flag_after_step(
                old(self).shut_down(),
                ListenerStep::AwaitOnReceiver,
            ),
    {
        &mut self.shutdown_notification_receiver
    }
}

impl Clone for ShutdownListener {
    fn clone(&self) -> (copy: Self)
        ensures
            copy.shut_down() == self.shut_down(),
            copy.shut_down() == flag_after_step(self.shut_down(), ListenerStep::CloneFrom),
    {
        ShutdownListener {
            shutting_down: self.shutting_down,
            shutdown_notification_receiver: clone_receiver(&self.shutdown_notification_receiver),
        }
    }
}

/// The shutdown flag never goes back: a listener (or a clone of it) that
/// heard the signal has heard it after any further steps, and one created
/// unaware has heard it exactly when some step heard it.
pub proof fn lemma_shutdown_flag_is_permanent(heard: bool, steps: Seq<ListenerStep>)
    ensures
        heard ==> flag_after(heard, steps),
        !heard ==> (flag_after(heard, steps) <==> exists|i: int|
            0 <= i < steps.len() && #[trigger] steps[i] is HearSignal),
    decreases steps.len(),
{
    if steps.len() > 0 {
        let rest = steps.drop_first();
        lemma_shutdown_flag_is_permanent(flag_after_step(heard, steps[0]), rest);
        if !heard {
            if !(steps[0] is HearSignal) {
                assert forall|i: int| 0 <= i < rest.len() && #[trigger] rest[i] is HearSignal
                    implies (exists|j: int| 0 <= j < steps.len() && #[trigger] steps[j] is HearSignal) by {
                    assert(steps[i + 1] is HearSignal);
                }
                assert forall|j: int| 0 <= j < steps.len() && #[trigger] steps[j] is HearSignal
                    implies (exists|i: int| 0 <= i < rest.len() && #[trigger] rest[i] is HearSignal) by {
                    assert(j > 0);
                    assert(rest[j - 1] is HearSignal);
                }
            }
        }
    }
}

} // verus!
