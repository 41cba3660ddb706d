//! When a change of the connection to the server ends a room.

use vstd::prelude::*;

verus! {

/// What to do after a status of the connection was seen.
#[derive(Clone, Copy, Debug, PartialEq, Eq)]
pub enum MonitorStep {
    /// Wait for the next status.
    Wait,
    /// Leave the room; nothing more is to be watched.
    Leave,
    /// Nothing more is to be watched.
    Stop,
}

/// Watches the connection to the server for a room.
///
/// The room is left unless the connection is up at first. It is also left at
/// the first status after that: even if it is up again by then, the connection
/// was lost for a moment.
#[derive(Clone, Copy, Debug, PartialEq, Eq)]
pub enum ConnectionMonitor {
    /// No status has been seen.
    Starting,
    /// The connection was up at first.
    Connected,
    /// There is nothing more to watch.
    Finished,
}

impl ConnectionMonitor {
    /// A monitor that has seen no status.
    pub fn new() -> (monitor: Self)
        ensures
            monitor is Starting,
    {
        ConnectionMonitor::Starting
    }

    /// The monitor after `status`, and what to do then. The status is whether
    /// the connection is up; it is missing where there are no more.
    pub open spec fn after(self, status: Option<bool>) -> (Self, MonitorStep) {
        match self {
            ConnectionMonitor::Starting => if status == Some(true) {
                (ConnectionMonitor::Connected, MonitorStep::Wait)
            } else {
                (ConnectionMonitor::Finished, MonitorStep::Leave)
            },
            ConnectionMonitor::Connected => if status is Some {
                (ConnectionMonitor::Finished, MonitorStep::Leave)
            } else {
                (ConnectionMonitor::Finished, MonitorStep::Stop)
            },
            ConnectionMonitor::Finished => (ConnectionMonitor::Finished, MonitorStep::Stop),
        }
    }

    /// Takes note of a status, and says what to do then.
    pub fn observe(&mut self, status: Option<bool>) -> (step: MonitorStep)
        ensures
            (*final(self), step) == old(self).after(status),
    {
        match *self {
            ConnectionMonitor::Starting => match status {
                Some(true) => {
                    *self = ConnectionMonitor::Connected;
                    MonitorStep::Wait
                },
                _ => {
                    *self = ConnectionMonitor::Finished;
                    MonitorStep::Leave
                },
            },
            ConnectionMonitor::Connected => {
                *self = ConnectionMonitor::Finished;
                if status.is_some() {
                    MonitorStep::Leave
                } else {
                    MonitorStep::Stop
                }
            },
            ConnectionMonitor::Finished => MonitorStep::Stop,
        }
    }

    /// Whether a new monitor asks to leave at some point of these statuses, after
    /// which there are no more.
    pub open spec fn asks_to_leave(self, statuses: Seq<bool>) -> bool
        decreases statuses.len(),
    {
        if statuses.len() == 0 {
            self.after(None).1 is Leave
        } else {
            let (next, step) = self.after(Some(statuses[0]));
            step is Leave || next.asks_to_leave(statuses.drop_first())
        }
    }
}

/// The room is left unless the connection is up at first and then never changes
/// its status.
pub proof fn law_room_is_left_on_disconnection(statuses: Seq<bool>)
    ensures
        ConnectionMonitor::Starting.asks_to_leave(statuses) <==> statuses != seq![true],
{
    reveal_with_fuel(ConnectionMonitor::asks_to_leave, 3);
    if statuses.len() > 0 && statuses[0] {
        if statuses.len() == 1 {
            assert(statuses =~= seq![true]);
            assert(statuses.drop_first().len() == 0);
        } else {
            assert(statuses.drop_first().len() > 0);
            assert(statuses.len() != seq![true].len());
        }
    } else if statuses.len() > 0 {
        assert(statuses[0] != seq![true][0]);
    }
}

} // verus!
