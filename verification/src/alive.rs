//! Aliveness pairs: a flag whose holders keep a tracker's owner waiting;
//! when the last copy of the flag is dropped, the tracker sees its death.
use std::sync::atomic::AtomicBool;
use std::sync::atomic::Ordering;
use std::sync::mpsc::{Receiver, Sender};
use vstd::prelude::*;

verus! {

#[verifier::external_type_specification]
#[verifier::external_body]
#[verifier::reject_recursive_types(T)]
pub struct ExSender<T>(std::sync::mpsc::Sender<T>);

#[verifier::external_type_specification]
#[verifier::external_body]
#[verifier::reject_recursive_types(T)]
pub struct ExReceiver<T>(std::sync::mpsc::Receiver<T>);

/// Calls `std::sync::mpsc::channel`: a fresh channel's two ends.
#[verifier::external_body]
pub(crate) fn unit_channel() -> (r: (Sender<()>, Receiver<()>)) {
    std::sync::mpsc::channel()
}

/// Calls `Receiver::recv`, which blocks until a message arrives or every
/// sender is gone; what it gave is dropped.
#[verifier::external_body]
pub(crate) fn wait_on(receiver: &Receiver<()>) {
    let _ = receiver.recv();
}

/// Calls `Sender::clone`: another sender into the same channel.
#[verifier::external_body]
pub(crate) fn clone_sender(sender: &Sender<()>) -> (r: Sender<()>) {
    sender.clone()
}

/// A copy of the flag keeps its tracker's owner waiting.
pub struct AliveFlag(Sender<()>);

impl Clone for AliveFlag {
    fn clone(&self) -> (r: Self) {
        AliveFlag(clone_sender(&self.0))
    }
}

/// Sees when the last copy of its flag is dropped; remembers having seen it.
pub struct AliveTracker(Receiver<()>, AtomicBool);

impl AliveTracker {
    /// Blocks until the flag is gone; returns at once once it has been
    /// seen gone.
    pub fn wait_for_death(&self) {
        if !self.1.load(Ordering::Acquire) {
            wait_on(&self.0);
            self.1.store(true, Ordering::Release);
        }
    }
}

/// A flag and the tracker that watches it.
pub fn aliveness_pair() -> (r: (AliveFlag, AliveTracker)) {
    let (sender, receiver) = unit_channel();
    (AliveFlag(sender), AliveTracker(receiver, AtomicBool::new(false)))
}

} // verus!
