use vstd::prelude::*;

verus! {

/// What the event loop should do after one event has been handled.
#[derive(Clone, Copy, Debug, PartialEq, Eq, Structural)]
pub enum EventLoopAction {
    ContinueLoop,
    QuitLoop,
}

} // verus!
