//! What a task or a sink answers when it is asked whether it can go on.

use vstd::prelude::*;

verus! {

/// The answer of something that may not be finished yet.
#[derive(Debug, PartialEq, Eq)]
pub enum Async<T> {
    /// It is finished, with this value.
    Ready(T),
    /// It is not finished; whoever asked will be woken.
    NotReady,
}

/// The answer of a sink that was offered an item.
#[derive(Debug, PartialEq, Eq)]
pub enum AsyncSink<T> {
    /// The sink took the item.
    Ready,
    /// The sink is full; what it handed back.
    NotReady(T),
}

} // verus!
