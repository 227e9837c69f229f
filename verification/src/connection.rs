//! The life of one subscriber connection.
//!
//! A connection runs two loops: the outbound one drains the hub to the
//! wire, the inbound one reads control frames. The connection is closed the
//! moment either loop ends, and the other loop must then be cancelled, not
//! left running: the connection is done only when both have ended.

use vstd::prelude::*;

verus! {

/// One of the two loops of a connection.
#[derive(Debug, Clone, Copy, PartialEq, Eq, Structural)]
pub enum Loop {
    /// Drains the hub to the wire.
    Outbound,
    /// Reads control frames from the wire.
    Inbound,
}

impl Loop {
    /// The other loop of the connection.
    pub open spec fn spec_other(self) -> Loop {
        match self {
            Loop::Outbound => Loop::Inbound,
            Loop::Inbound => Loop::Outbound,
        }
    }

    /// The other loop of the connection.
    pub fn other(self) -> (r: Loop)
        ensures
            r == self.spec_other(),
    {
        match self {
            Loop::Outbound => Loop::Inbound,
            Loop::Inbound => Loop::Outbound,
        }
    }
}

/// Where a connection stands.
#[derive(Debug, Clone, Copy, PartialEq, Eq, Structural)]
pub enum ConnectionState {
    /// Both loops run.
    Open,
    /// One loop has ended; the other, named here, was told to stop and has
    /// not ended yet.
    Closing(Loop),
    /// Both loops have ended.
    Closed,
}

/// What the owner of a connection has to do after a loop has ended.
#[derive(Debug, Clone, Copy, PartialEq, Eq, Structural)]
pub enum ConnectionAction {
    /// Cancel the named loop, which is still running.
    Cancel(Loop),
    /// Both loops are gone: let go of the subscriber.
    Release,
    /// Nothing.
    Nothing,
}

impl ConnectionState {
    /// Whether display clients still count as connected.
    pub open spec fn is_open(self) -> bool {
        self == ConnectionState::Open
    }

    /// The state after the loop `ended` has ended.
    pub open spec fn after_end(self, ended: Loop) -> ConnectionState {
        match self {
            ConnectionState::Open => ConnectionState::Closing(ended.spec_other()),
            ConnectionState::Closing(waiting) => if waiting == ended {
                ConnectionState::Closed
            } else {
                self
            },
            ConnectionState::Closed => ConnectionState::Closed,
        }
    }

    /// What is to be done when the loop `ended` has ended in this state.
    pub open spec fn action_on_end(self, ended: Loop) -> ConnectionAction {
        match self {
            ConnectionState::Open => ConnectionAction::Cancel(ended.spec_other()),
            ConnectionState::Closing(waiting) => if waiting == ended {
                ConnectionAction::Release
            } else {
                ConnectionAction::Nothing
            },
            ConnectionState::Closed => ConnectionAction::Nothing,
        }
    }

    /// A connection whose two loops have just been started.
    pub fn new() -> (r: ConnectionState)
        ensures
            r == ConnectionState::Open,
    {
        ConnectionState::Open
    }

    /// Records that the loop `ended` has ended, and says what to do about
    /// it: cancel the other loop if this was the first to end, release the
    /// subscriber once both are gone.
    pub fn loop_ended(&mut self, ended: Loop) -> (action: ConnectionAction)
        ensures
            *final(self) == old(self).after_end(ended),
            action == old(self).action_on_end(ended),
            !final(self).is_open(),
    {
        match *self {
            ConnectionState::Open => {
                let other = ended.other();
                *self = ConnectionState::Closing(other);
                ConnectionAction::Cancel(other)
            },
            ConnectionState::Closing(waiting) => {
                if waiting == ended {
                    *self = ConnectionState::Closed;
                    ConnectionAction::Release
                } else {
                    ConnectionAction::Nothing
                }
            },
            ConnectionState::Closed => ConnectionAction::Nothing,
        }
    }
}

/// Whichever loop ends first, and in whichever order the two ends are then
/// reported, the other loop is cancelled exactly once and the connection
/// ends up closed.
pub proof fn lemma_either_end_closes_both(first: Loop)
    ensures
        ConnectionState::Open.action_on_end(first) == ConnectionAction::Cancel(first.spec_other()),
        ConnectionState::Open.after_end(first).after_end(first.spec_other())
            == ConnectionState::Closed,
        ConnectionState::Open.after_end(first).action_on_end(first.spec_other())
            == ConnectionAction::Release,
        ConnectionState::Open.after_end(first).action_on_end(first) == ConnectionAction::Nothing,
{
}

} // verus!
