//! Lifecycle events that the pipeline reports to its observer.

use vstd::prelude::*;

use crate::install::stage::Stage;

verus! {

#[derive(Debug, Clone, Copy, PartialEq, Eq, Structural)]
pub enum MessageType {
    Info,
}

#[derive(Debug)]
pub enum Event {
    EnterStage(Stage),
    ExitStage(Stage),
    Message(MessageType, String),
}

} // verus!
