//! The port watcher: which ports are of interest, which of them have
//! already been reported in the running aggregation window, and when that
//! window began.
//!
//! The watcher owns no socket and reads no clock. Whoever drives it hands it
//! what happened on the capture socket together with a reading of a
//! monotonic clock in milliseconds, and learns which port, if any, is to be
//! announced.

use crate::frame::{decode, spec_decode};
use crate::port::PortInfo;
use crate::port_set::PortSet;
use vstd::prelude::*;

verus! {

/// The aggregation window of a new watcher, in milliseconds.
pub const DEFAULT_WINDOW_MILLIS: u64 = 5000;

/// What one wait on the capture socket ended with.
#[derive(Debug)]
pub enum CaptureEvent {
    /// One frame was received.
    Frame(Vec<u8>),
    /// The socket was reported readable, but held no data.
    SpuriousWake,
    /// Reading the socket failed.
    ReadFailed,
    /// The wait ran into its time limit.
    TimerElapsed,
}

/// The watcher as the contracts see it.
pub struct WatcherState {
    /// The ports of interest.
    pub watch: Set<PortInfo>,
    /// The ports announced since the window began.
    pub reported: Set<PortInfo>,
    /// When the window began.
    pub timestamp: u64,
    /// How long a window lasts.
    pub window: u64,
}

impl WatcherState {
    /// The port that a frame makes the watcher announce: its destination
    /// port, if that is watched and has not been reported in this window.
    pub open spec fn announces(self, frame: Seq<u8>) -> Option<PortInfo> {
        match spec_decode(frame) {
            Some(port) => if self.watch.contains(port) && !self.reported.contains(port) {
                Some(port)
            } else {
                None
            },
            None => None,
        }
    }

    /// The state after a frame: an announced port counts as reported.
    pub open spec fn observe(self, frame: Seq<u8>) -> WatcherState {
        match self.announces(frame) {
            Some(port) => WatcherState { reported: self.reported.insert(port), ..self },
            None => self,
        }
    }

    /// The time since the window began. A clock reading from before that
    /// counts as no time at all.
    pub open spec fn elapsed(self, now: u64) -> int {
        if now >= self.timestamp {
            now - self.timestamp
        } else {
            0
        }
    }

    /// Whether the window has run its full length at `now`.
    pub open spec fn window_over(self, now: u64) -> bool {
        self.elapsed(now) >= self.window
    }

    /// The state after the rollover check at `now`: once the window is over,
    /// nothing counts as reported and a new window begins at `now`.
    pub open spec fn roll(self, now: u64) -> WatcherState {
        if self.window_over(now) {
            WatcherState { reported: Set::empty(), timestamp: now, ..self }
        } else {
            self
        }
    }

    /// The port that an event makes the watcher announce.
    pub open spec fn step_output(self, event: CaptureEvent) -> Option<PortInfo> {
        match event {
            CaptureEvent::Frame(bytes) => self.announces(bytes@),
            _ => None,
        }
    }

    /// The state after an event at `now`. A frame is looked at first, and
    /// the rollover check follows; a timer expiry is followed by the check
    /// alone; a wake without data and a failed read change nothing.
    pub open spec fn step(self, event: CaptureEvent, now: u64) -> WatcherState {
        match event {
            CaptureEvent::Frame(bytes) => self.observe(bytes@).roll(now),
            CaptureEvent::TimerElapsed => self.roll(now),
            _ => self,
        }
    }

    /// How long to wait at `now` before the window is over.
    pub open spec fn remaining(self, now: u64) -> int {
        if self.window_over(now) {
            0
        } else {
            self.window - self.elapsed(now)
        }
    }
}

/// Watches a set of ports on one network interface.
pub struct PortWatcher {
    interface: String,
    watch: PortSet,
    reported: PortSet,
    timestamp: u64,
    aggregate_window: u64,
}

impl PortWatcher {
    /// Both port sets span the whole port space.
    pub closed spec fn wf(&self) -> bool {
        &&& self.watch.wf()
        &&& self.reported.wf()
    }

    /// The watcher's state.
    pub closed spec fn view(&self) -> WatcherState {
        WatcherState {
            watch: self.watch@,
            reported: self.reported@,
            timestamp: self.timestamp,
            window: self.aggregate_window,
        }
    }

    /// The name of the interface, as a sequence of characters.
    pub closed spec fn interface_name(&self) -> Seq<char> {
        self.interface@
    }

    /// A watcher for `iface` that watches no port yet. Its first window
    /// begins at clock reading 0 and lasts
    /// [`DEFAULT_WINDOW_MILLIS`].
    pub fn new(iface: String) -> (r: PortWatcher)
        ensures
            r.wf(),
            r.interface_name() == iface@,
            r@ == (WatcherState {
                watch: Set::empty(),
                reported: Set::empty(),
                timestamp: 0,
                window: DEFAULT_WINDOW_MILLIS,
            }),
    {
        PortWatcher {
            interface: iface,
            watch: PortSet::new(),
            reported: PortSet::new(),
            timestamp: 0,
            aggregate_window: DEFAULT_WINDOW_MILLIS,
        }
    }

    /// The name of the interface.
    pub fn interface(&self) -> (r: &str)
        ensures
            r@ == self.interface_name(),
    {
        self.interface.as_str()
    }

    /// The length of the aggregation window, in milliseconds.
    pub fn aggregate_window(&self) -> (r: u64)
        ensures
            r == self@.window,
    {
        self.aggregate_window
    }

    /// Sets the length of the aggregation window, in milliseconds. The
    /// running window keeps its beginning.
    pub fn set_aggregate_window(&mut self, millis: u64)
        ensures
            final(self).wf() == old(self).wf(),
            final(self).interface_name() == old(self).interface_name(),
            final(self)@ == (WatcherState { window: millis, ..old(self)@ }),
    {
        self.aggregate_window = millis;
    }

    /// Adds `port` to the ports of interest.
    pub fn watch(&mut self, port: PortInfo)
        requires
            old(self).wf(),
        ensures
            final(self).wf(),
            final(self).interface_name() == old(self).interface_name(),
            final(self)@ == (WatcherState { watch: old(self)@.watch.insert(port), ..old(self)@ }),
    {
        self.watch.set(port, true);
    }

    /// Takes `port` out of the ports of interest. Whether it counts as
    /// reported in the running window stays as it is.
    pub fn unwatch(&mut self, port: PortInfo)
        requires
            old(self).wf(),
        ensures
            final(self).wf(),
            final(self).interface_name() == old(self).interface_name(),
            final(self)@ == (WatcherState { watch: old(self)@.watch.remove(port), ..old(self)@ }),
    {
        self.watch.set(port, false);
    }

    /// Whether `port` is among the ports of interest.
    pub fn is_watched(&self, port: PortInfo) -> (r: bool)
        requires
            self.wf(),
        ensures
            r == self@.watch.contains(port),
    {
        self.watch.test(port)
    }

    /// Looks at one captured frame. Returns its destination port if that is
    /// watched and has not been reported in this window, and counts it as
    /// reported from now on.
    pub fn process_packet(&mut self, packet: &[u8]) -> (r: Option<PortInfo>)
        requires
            old(self).wf(),
        ensures
            final(self).wf(),
            final(self).interface_name() == old(self).interface_name(),
            r == old(self)@.announces(packet@),
            final(self)@ == old(self)@.observe(packet@),
    {
        match decode(packet) {
            Some(port) => {
                if self.watch.test(port) && !self.reported.test(port) {
                    self.reported.set(port, true);
                    Some(port)
                } else {
                    None
                }
            },
            None => None,
        }
    }

    /// The rollover check: if the window has run its full length at `now`,
    /// no port counts as reported any more and a new window begins at `now`.
    /// Returns whether that happened.
    pub fn roll_over(&mut self, now: u64) -> (r: bool)
        requires
            old(self).wf(),
        ensures
            final(self).wf(),
            final(self).interface_name() == old(self).interface_name(),
            r == old(self)@.window_over(now),
            final(self)@ == old(self)@.roll(now),
    {
        let elapsed: u64 = if now >= self.timestamp {
            now - self.timestamp
        } else {
            0
        };
        if elapsed >= self.aggregate_window {
            self.reported.reset();
            self.timestamp = now;
            true
        } else {
            false
        }
    }

    /// How many milliseconds a wait that begins at `now` may last before
    /// the rollover check is due.
    pub fn time_to_rollover(&self, now: u64) -> (r: u64)
        ensures
            r == self@.remaining(now),
    {
        let elapsed: u64 = if now >= self.timestamp {
            now - self.timestamp
        } else {
            0
        };
        if elapsed >= self.aggregate_window {
            0
        } else {
            self.aggregate_window - elapsed
        }
    }

    /// One turn of the capture loop: takes what the wait on the socket
    /// ended with and the clock reading `now`, and returns the port to
    /// announce, if any.
    pub fn step(&mut self, event: &CaptureEvent, now: u64) -> (r: Option<PortInfo>)
        requires
            old(self).wf(),
        ensures
            final(self).wf(),
            final(self).interface_name() == old(self).interface_name(),
            r == old(self)@.step_output(*event),
            final(self)@ == old(self)@.step(*event, now),
    {
        match event {
            CaptureEvent::Frame(bytes) => {
                let r = self.process_packet(bytes.as_slice());
                self.roll_over(now);
                r
            },
            CaptureEvent::TimerElapsed => {
                self.roll_over(now);
                None
            },
            CaptureEvent::SpuriousWake => None,
            CaptureEvent::ReadFailed => None,
        }
    }
}

} // verus!
