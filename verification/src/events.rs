//! Event delivery to subscribed sinks.
use std::io::Write;
use std::sync::Arc;

use vstd::prelude::*;
use vstd::rwlock::{RwLock, RwLockPredicate};

use crate::proto::{EventView, LimesEvent};

verus! {

/// A receiver of backend events, implemented by frontends and loggers.
pub trait EventSink {
    /// Whether `event` counts as delivered to this sink once its `emit` was
    /// called with it; a sink that states nothing counts every event.
    closed spec fn delivered(&self, event: EventView) -> bool {
        true
    }

    fn emit(&self, event: &LimesEvent)
        ensures
            self.delivered(event@),
    ;
}

/// Writes one event line to standard error (std's `writeln!` on
/// `std::io::stderr()`); a failed write is ignored.
#[verifier::external_body]
fn write_event_line(event: &LimesEvent) {
    let _ = writeln!(std::io::stderr(), "limes event: {:?}", event);
}

/// A sink that logs every event to standard error.
#[derive(Debug, Clone, Copy, Default)]
pub struct StderrEventSink;

impl EventSink for StderrEventSink {
    open spec fn delivered(&self, event: EventView) -> bool {
        true
    }

    fn emit(&self, event: &LimesEvent) {
        write_event_line(event);
    }
}

/// Admits every list of sinks: a bus's list holds whatever was subscribed
/// through it or through any of its copies.
pub struct AnySinks;

impl<S> RwLockPredicate<Vec<S>> for AnySinks {
    open spec fn inv(self, sinks: Vec<S>) -> bool {
        true
    }
}

/// Delivers each emitted event to every subscribed sink, in subscription
/// order. The list of sinks is shared: a copy made with `duplicate` delivers
/// to the same list, and a sink subscribed through any copy receives what
/// every copy emits from then on. Each copy keeps the record of the events
/// emitted through it.
pub struct EventBus<S> {
    sinks: Arc<RwLock<Vec<S>, AnySinks>>,
    history: Ghost<Seq<EventView>>,
}

/// Hands `event` to every one of `sinks`, once each, in their order.
pub fn deliver<S: EventSink>(sinks: &Vec<S>, event: &LimesEvent)
    ensures
        forall|i: int| 0 <= i < sinks@.len() ==> (#[trigger] sinks@[i]).delivered(event@),
{
    let mut i: usize = 0;
    while i < sinks.len()
        invariant
            i <= sinks@.len(),
            forall|j: int| 0 <= j < i ==> (#[trigger] sinks@[j]).delivered(event@),
        decreases sinks@.len() - i,
    {
        sinks[i].emit(event);
        i = i + 1;
    }
}

impl<S: EventSink + Clone> EventBus<S> {
    /// The events emitted through this copy of the bus, oldest first.
    pub closed spec fn history(&self) -> Seq<EventView> {
        self.history@
    }

    /// The sink list this bus delivers to, shared with its copies.
    pub closed spec fn shared(&self) -> RwLock<Vec<S>, AnySinks> {
        *self.sinks
    }

    /// A bus with no sinks and no events.
    pub fn new() -> (bus: Self)
        ensures
            bus.history() == Seq::<EventView>::empty(),
    {
        EventBus { sinks: Arc::new(RwLock::new(Vec::new(), Ghost(AnySinks))), history: Ghost(Seq::empty()) }
    }

    /// Adds `sink` after the sinks already subscribed to the shared list.
    pub fn subscribe(&self, sink: S) {
        let (mut sinks, handle) = self.sinks.acquire_write();
        sinks.push(sink);
        handle.release_write(sinks);
    }

    /// Delivers `event` to every sink of the shared list as it stands, once
    /// each, in subscription order (see `deliver`), and records it.
    pub fn emit(&mut self, event: LimesEvent)
        ensures
            final(self).history() == old(self).history().push(event@),
            final(self).shared() == old(self).shared(),
    {
        let handle = self.sinks.acquire_read();
        let sinks = handle.borrow().clone();
        handle.release_read();
        deliver(&sinks, &event);
        self.history = Ghost(self.history@.push(event@));
    }

    /// A copy of this bus that delivers to the same sink list, with no events
    /// recorded yet.
    pub fn duplicate(&self) -> (bus: Self)
        ensures
            bus.history() == Seq::<EventView>::empty(),
            bus.shared() == self.shared(),
    {
        EventBus { sinks: self.sinks.clone(), history: Ghost(Seq::empty()) }
    }
}

} // verus!
