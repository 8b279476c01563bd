//! Aliveness pairs whose tracker can be shared and asked whether its flag
//! still lives.
use std::sync::mpsc::Receiver;
use std::sync::Arc;
use vstd::prelude::*;
use crate::alive::{clone_sender, unit_channel, wait_on};

verus! {

/// What a look into a channel found.
#[derive(Clone, Copy, Debug, PartialEq, Eq)]
pub enum ChannelState {
    /// A message was waiting.
    Message,
    /// No message, and some sender lives.
    Empty,
    /// No message, and every sender is gone.
    Disconnected,
}

/// Calls `Receiver::try_recv` and tells its outcome apart; which outcome
/// comes depends on other threads, so no clause states it.
#[verifier::external_body]
fn look_into(receiver: &Receiver<()>) -> (r: ChannelState) {
    match receiver.try_recv() {
        Ok(()) => ChannelState::Message,
        Err(std::sync::mpsc::TryRecvError::Empty) => ChannelState::Empty,
        Err(std::sync::mpsc::TryRecvError::Disconnected) => ChannelState::Disconnected,
    }
}

/// A copy of the flag keeps its trackers reporting it alive.
pub struct AliveFlag(std::sync::mpsc::Sender<()>);

impl Clone for AliveFlag {
    fn clone(&self) -> (r: Self) {
        AliveFlag(clone_sender(&self.0))
    }
}

/// Watches a flag; copies watch the same flag.
#[derive(Clone)]
pub struct AliveTracker(Arc<Receiver<()>>);

/// Whether a flag lives, given what a look into its channel found: it is
/// gone exactly when every sender is.
pub open spec fn alive_after(state: ChannelState) -> bool {
    state != ChannelState::Disconnected
}

/// What `is_alive` reports for a look's outcome. No flag ever sends, so a
/// message never arrives; were one found, the flag would still be there.
pub fn alive_from(state: ChannelState) -> (r: bool)
    ensures
        r == alive_after(state),
{
    match state {
        ChannelState::Message => true,
        ChannelState::Empty => true,
        ChannelState::Disconnected => false,
    }
}

impl AliveTracker {
    /// Whether some copy of the flag still exists.
    pub fn is_alive(&self) -> (r: bool) {
        let state = look_into(&self.0);
        alive_from(state)
    }

    /// Blocks until every copy of the flag is gone.
    pub fn wait_for_death(&self) {
        wait_on(&self.0);
    }
}

/// A flag and a tracker that watches it.
pub fn aliveness_pair() -> (r: (AliveFlag, AliveTracker)) {
    let (sender, receiver) = unit_channel();
    (AliveFlag(sender), AliveTracker(Arc::new(receiver)))
}

} // verus!
