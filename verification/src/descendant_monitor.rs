//! Delivery of a host's descendant events to an observer and to process watches.

use crate::observer::ObserverEventKind;
use vstd::prelude::*;

verus! {

/// Whose stop ends a monitor.
#[derive(Clone, Copy, Debug, PartialEq, Eq, Structural)]
pub enum StopOwner {
    /// The observer's.
    Observer,
    /// The process watches'.
    Watch,
}

/// Decides whether descendants are monitored, and whose stop ends it. With both
/// attached the watches own the monitor: an observer that goes away must not cut
/// their coverage short.
pub fn start(observer_attached: bool, watch_attached: bool) -> (owner: Option<StopOwner>)
    ensures
        owner == monitor_owner(observer_attached, watch_attached),
        owner == (if watch_attached {
            Some(StopOwner::Watch)
        } else if observer_attached {
            Some(StopOwner::Observer)
        } else {
            None
        }),
{
    if watch_attached {
        Some(StopOwner::Watch)
    } else if observer_attached {
        Some(StopOwner::Observer)
    } else {
        None
    }
}

/// What a host reports of the descendants of a process.
#[derive(Clone, Copy, Debug, PartialEq, Eq, Structural)]
pub enum DescendantEvent {
    /// One appeared.
    Started {
        /// Its process.
        pid: u32,
        /// Its parent, if the host knows.
        parent_pid: Option<u32>,
    },
    /// One is gone.
    Exited(u32),
    /// No more will be reported.
    Completed,
}

/// What an observer is told.
#[derive(Clone, Copy, Debug, PartialEq, Eq, Structural)]
pub struct ObserverNotice {
    /// What happened.
    pub kind: ObserverEventKind,
    /// To which process.
    pub pid: u32,
    /// Its parent, if the host knows.
    pub parent_pid: Option<u32>,
}

/// What the process watches are told.
#[derive(Clone, Copy, Debug, PartialEq, Eq, Structural)]
pub enum WatchNotice {
    /// A process appeared or vanished.
    Inferred {
        /// Which.
        pid: u32,
        /// Whether it appeared.
        started: bool,
    },
    /// Delivery is finished.
    FinishDelivery,
}

/// Who is told what of an event.
#[derive(Clone, Copy, Debug, PartialEq, Eq, Structural)]
pub struct Delivery {
    /// What the observer is told.
    pub observer: Option<ObserverNotice>,
    /// What the watches are told.
    pub watch: Option<WatchNotice>,
}

/// Decides who is told what: an attached observer that has not stopped hears of
/// processes, attached watches hear of processes and of the end.
pub fn deliver(event: DescendantEvent, observer_listens: bool, watch_attached: bool) -> (d: Delivery)
    ensures
        d == delivered(event, observer_listens, watch_attached),
        d.observer == (match event {
            DescendantEvent::Started { pid, parent_pid } => if observer_listens {
                Some(
                    ObserverNotice {
                        kind: ObserverEventKind::DescendantStarted,
                        pid,
                        parent_pid,
                    },
                )
            } else {
                None
            },
            DescendantEvent::Exited(pid) => if observer_listens {
                Some(
                    ObserverNotice {
                        kind: ObserverEventKind::DescendantExited,
                        pid,
                        parent_pid: None,
                    },
                )
            } else {
                None
            },
            DescendantEvent::Completed => None,
        }),
        d.watch == (if !watch_attached {
            None
        } else {
            Some(
                match event {
                    DescendantEvent::Started { pid, .. } => WatchNotice::Inferred {
                        pid,
                        started: true,
                    },
                    DescendantEvent::Exited(pid) => WatchNotice::Inferred { pid, started: false },
                    DescendantEvent::Completed => WatchNotice::FinishDelivery,
                },
            )
        }),
{
    let (notice, watch) = match event {
        DescendantEvent::Started { pid, parent_pid } => (
            Some(ObserverNotice { kind: ObserverEventKind::DescendantStarted, pid, parent_pid }),
            WatchNotice::Inferred { pid, started: true },
        ),
        DescendantEvent::Exited(pid) => (
            Some(
                ObserverNotice { kind: ObserverEventKind::DescendantExited, pid, parent_pid: None },
            ),
            WatchNotice::Inferred { pid, started: false },
        ),
        DescendantEvent::Completed => (None, WatchNotice::FinishDelivery),
    };
    Delivery {
        observer: if observer_listens {
            notice
        } else {
            None
        },
        watch: if watch_attached {
            Some(watch)
        } else {
            None
        },
    }
}

/// Whose stop ends the monitor of descendants, if there is one.
pub open spec fn monitor_owner(observer_attached: bool, watch_attached: bool) -> Option<StopOwner> {
    match (observer_attached, watch_attached) {
        (_, true) => Some(StopOwner::Watch),
        (true, false) => Some(StopOwner::Observer),
        (false, false) => None,
    }
}

/// Who is told what of an event.
pub open spec fn delivered(
    event: DescendantEvent,
    observer_listens: bool,
    watch_attached: bool,
) -> Delivery {
    let told = match event {
        DescendantEvent::Started { pid, parent_pid } => Delivery {
            observer: Some(
                ObserverNotice { kind: ObserverEventKind::DescendantStarted, pid, parent_pid },
            ),
            watch: Some(WatchNotice::Inferred { pid, started: true }),
        },
        DescendantEvent::Exited(pid) => Delivery {
            observer: Some(
                ObserverNotice { kind: ObserverEventKind::DescendantExited, pid, parent_pid: None },
            ),
            watch: Some(WatchNotice::Inferred { pid, started: false }),
        },
        DescendantEvent::Completed => Delivery {
            observer: None,
            watch: Some(WatchNotice::FinishDelivery),
        },
    };
    Delivery {
        observer: if observer_listens {
            told.observer
        } else {
            None
        },
        watch: if watch_attached {
            told.watch
        } else {
            None
        },
    }
}

/// Descendants are monitored exactly while somebody is attached, and attached watches
/// keep their coverage whatever the observer does.
pub proof fn law_watches_keep_their_coverage(observer_attached: bool, watch_attached: bool)
    ensures
        monitor_owner(observer_attached, watch_attached) is None <==> !observer_attached
            && !watch_attached,
        watch_attached ==> monitor_owner(observer_attached, watch_attached) == monitor_owner(
            !observer_attached,
            watch_attached,
        ),
        watch_attached ==> monitor_owner(observer_attached, watch_attached) == Some(
            StopOwner::Watch,
        ),
        monitor_owner(true, false) == Some(StopOwner::Observer),
{
}

/// Everybody who listens hears of every process that appears or vanishes, of the same
/// process and the same change; what one of them hears does not depend on the other.
/// The end is told to the watches alone, and nobody else is told anything.
pub proof fn law_listeners_hear_of_every_process(
    event: DescendantEvent,
    observer_listens: bool,
    watch_attached: bool,
)
    ensures
        ({
            let d = delivered(event, observer_listens, watch_attached);
            &&& d.observer is Some <==> observer_listens && !(event is Completed)
            &&& d.watch is Some <==> watch_attached
            &&& d.observer == delivered(event, observer_listens, !watch_attached).observer
            &&& d.watch == delivered(event, !observer_listens, watch_attached).watch
            &&& d.observer is Some ==> match event {
                DescendantEvent::Started { pid, parent_pid } => (d.observer->0).pid == pid && (
                d.observer->0).parent_pid == parent_pid && (d.observer->0).kind
                    == ObserverEventKind::DescendantStarted,
                DescendantEvent::Exited(pid) => (d.observer->0).pid == pid && (
                d.observer->0).parent_pid is None && (d.observer->0).kind
                    == ObserverEventKind::DescendantExited,
                DescendantEvent::Completed => false,
            }
            &&& d.watch is Some ==> match event {
                DescendantEvent::Started { pid, .. } => d.watch->0 == (WatchNotice::Inferred {
                    pid,
                    started: true,
                }),
                DescendantEvent::Exited(pid) => d.watch->0 == (WatchNotice::Inferred {
                    pid,
                    started: false,
                }),
                DescendantEvent::Completed => d.watch->0 == WatchNotice::FinishDelivery,
            }
        }),
{
}

} // verus!
