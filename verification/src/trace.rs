//! What a watcher announces over a whole sequence of events, and what holds
//! of it: a port is announced at most once per window, again after a
//! rollover, and never while it is not watched.

use crate::frame::spec_decode;
use crate::port::PortInfo;
use crate::watcher::{CaptureEvent, WatcherState};
use vstd::prelude::*;

verus! {

/// An event together with the clock reading at which it is handled.
pub type TimedEvent = (CaptureEvent, u64);

/// The state after a sequence of events, handled in order.
pub open spec fn run_state(s: WatcherState, events: Seq<TimedEvent>) -> WatcherState
    decreases events.len(),
{
    if events.len() == 0 {
        s
    } else {
        run_state(s, events.drop_last()).step(events.last().0, events.last().1)
    }
}

/// The ports announced over a sequence of events, in order.
pub open spec fn run_output(s: WatcherState, events: Seq<TimedEvent>) -> Seq<PortInfo>
    decreases events.len(),
{
    if events.len() == 0 {
        Seq::empty()
    } else {
        let before = run_output(s, events.drop_last());
        match run_state(s, events.drop_last()).step_output(events.last().0) {
            Some(port) => before.push(port),
            None => before,
        }
    }
}

/// Every event is a frame whose destination is `port`.
pub open spec fn all_frames_for(events: Seq<TimedEvent>, port: PortInfo) -> bool {
    forall|i: int|
        0 <= i < events.len() ==> match (#[trigger] events[i]).0 {
            CaptureEvent::Frame(bytes) => spec_decode(bytes@) == Some(port),
            _ => false,
        }
}

/// Every event is handled before the window of `s` is over.
pub open spec fn all_within_window(s: WatcherState, events: Seq<TimedEvent>) -> bool {
    forall|i: int| 0 <= i < events.len() ==> !s.window_over((#[trigger] events[i]).1)
}

/// Handling two sequences of events one after the other is handling their
/// concatenation.
pub proof fn lemma_run_concat(s: WatcherState, a: Seq<TimedEvent>, b: Seq<TimedEvent>)
    ensures
        run_state(s, a + b) == run_state(run_state(s, a), b),
        run_output(s, a + b) == run_output(s, a) + run_output(run_state(s, a), b),
    decreases b.len(),
{
    if b.len() == 0 {
        assert(a + b =~= a);
        assert(run_output(s, a) + Seq::<PortInfo>::empty() =~= run_output(s, a));
    } else {
        lemma_run_concat(s, a, b.drop_last());
        assert((a + b).drop_last() =~= a + b.drop_last());
        assert((a + b).last() == b.last());
        let mid = run_state(run_state(s, a), b.drop_last());
        match mid.step_output(b.last().0) {
            Some(port) => {
                assert((run_output(s, a) + run_output(run_state(s, a), b.drop_last())).push(port)
                    =~= run_output(s, a) + run_output(run_state(s, a), b.drop_last()).push(
                    port,
                ));
            },
            None => {},
        }
    }
}

/// Handling a single event is one step.
pub proof fn lemma_run_single(s: WatcherState, event: CaptureEvent, now: u64)
    ensures
        run_state(s, seq![(event, now)]) == s.step(event, now),
        run_output(s, seq![(event, now)]) == match s.step_output(event) {
            Some(port) => seq![port],
            None => Seq::<PortInfo>::empty(),
        },
{
    let one = seq![(event, now)];
    assert(one.drop_last() =~= Seq::<TimedEvent>::empty());
    assert(one.last() == (event, now));
    assert(run_state(s, one.drop_last()) == s);
    assert(run_output(s, one.drop_last()) =~= Seq::<PortInfo>::empty());
    match s.step_output(event) {
        Some(port) => {
            assert(Seq::<PortInfo>::empty().push(port) =~= seq![port]);
        },
        None => {},
    }
}

/// No event changes which ports are watched or how long a window lasts.
pub proof fn lemma_run_keeps_configuration(s: WatcherState, events: Seq<TimedEvent>)
    ensures
        run_state(s, events).watch == s.watch,
        run_state(s, events).window == s.window,
    decreases events.len(),
{
    if events.len() > 0 {
        lemma_run_keeps_configuration(s, events.drop_last());
    }
}

/// A port that is not watched is never announced, whatever arrives and
/// whenever.
pub proof fn lemma_unwatched_never_announced(
    s: WatcherState,
    events: Seq<TimedEvent>,
    port: PortInfo,
)
    requires
        !s.watch.contains(port),
    ensures
        !run_output(s, events).contains(port),
    decreases events.len(),
{
    if events.len() > 0 {
        lemma_unwatched_never_announced(s, events.drop_last(), port);
        lemma_run_keeps_configuration(s, events.drop_last());
        let before = run_output(s, events.drop_last());
        let out = run_output(s, events);
        assert forall|i: int| 0 <= i < out.len() implies out[i] != port by {
            if i < before.len() {
                assert(before[i] == out[i]);
                assert(before.contains(before[i]));
            }
        }
    }
}

/// Every announced port is watched.
pub proof fn lemma_announced_are_watched(s: WatcherState, events: Seq<TimedEvent>, i: int)
    requires
        0 <= i < run_output(s, events).len(),
    ensures
        s.watch.contains(run_output(s, events)[i]),
{
    let port = run_output(s, events)[i];
    if !s.watch.contains(port) {
        lemma_unwatched_never_announced(s, events, port);
        assert(run_output(s, events).contains(port));
    }
}

/// While the window is not over, the ports announced are ports that did
/// not count as reported before, they count as reported afterwards, and the
/// window keeps its beginning.
pub proof fn lemma_run_within_window(s: WatcherState, events: Seq<TimedEvent>)
    requires
        all_within_window(s, events),
    ensures
        run_state(s, events).timestamp == s.timestamp,
        run_state(s, events).reported == s.reported.union(run_output(s, events).to_set()),
        run_output(s, events).no_duplicates(),
        forall|i: int|
            0 <= i < run_output(s, events).len() ==> !s.reported.contains(
                #[trigger] run_output(s, events)[i],
            ),
    decreases events.len(),
{
    let out = run_output(s, events);
    if events.len() == 0 {
        assert(out.to_set() =~= Set::<PortInfo>::empty());
        assert(s.reported.union(out.to_set()) =~= s.reported);
    } else {
        let head = events.drop_last();
        let last = events.last();
        assert(all_within_window(s, head)) by {
            assert forall|i: int| 0 <= i < head.len() implies !s.window_over(
                (#[trigger] head[i]).1,
            ) by {
                assert(head[i] == events[i]);
            }
        }
        lemma_run_within_window(s, head);
        lemma_run_keeps_configuration(s, head);
        let mid = run_state(s, head);
        let before = run_output(s, head);
        assert(!s.window_over(last.1)) by {
            assert(events[events.len() - 1] == last);
        }
        assert(mid.window_over(last.1) == s.window_over(last.1));
        match mid.step_output(last.0) {
            Some(port) => {
                assert(!mid.reported.contains(port));
                assert(!before.to_set().contains(port));
                assert(!before.contains(port));
                assert(out =~= before.push(port));
                assert(out.to_set() =~= before.to_set().insert(port)) by {
                    assert forall|p: PortInfo| out.to_set().contains(p) implies before.to_set().insert(
                        port,
                    ).contains(p) by {
                        let i = choose|i: int| 0 <= i < out.len() && out[i] == p;
                        if i < before.len() {
                            assert(before[i] == p);
                        }
                    }
                    assert forall|p: PortInfo| before.to_set().insert(port).contains(
                        p,
                    ) implies out.to_set().contains(p) by {
                        if p == port {
                            assert(out[out.len() - 1] == port);
                        } else {
                            let i = choose|i: int| 0 <= i < before.len() && before[i] == p;
                            assert(out[i] == p);
                        }
                    }
                }
                assert(run_state(s, events).reported =~= s.reported.union(out.to_set()));
                assert forall|i: int, j: int|
                    0 <= i < out.len() && 0 <= j < out.len() && i != j implies out[i] != out[j] by {
                    if i < before.len() {
                        assert(before.contains(before[i]));
                    }
                    if j < before.len() {
                        assert(before.contains(before[j]));
                    }
                }
                assert forall|i: int| 0 <= i < out.len() implies !s.reported.contains(
                    #[trigger] out[i],
                ) by {
                    if i < before.len() {
                        assert(out[i] == before[i]);
                    }
                }
            },
            None => {
                assert(out =~= before);
                assert(run_state(s, events).reported == mid.reported);
            },
        }
    }
}

/// Frames for one watched port within one window: the port counts as
/// reported after the first of them, and it is announced exactly once if it
/// did not count as reported before, and not at all if it did.
pub proof fn lemma_one_announcement_per_window(
    s: WatcherState,
    events: Seq<TimedEvent>,
    port: PortInfo,
)
    requires
        s.watch.contains(port),
        events.len() > 0,
        all_frames_for(events, port),
        all_within_window(s, events),
    ensures
        run_output(s, events) == if s.reported.contains(port) {
            Seq::<PortInfo>::empty()
        } else {
            seq![port]
        },
        run_state(s, events) == (WatcherState { reported: s.reported.insert(port), ..s }),
    decreases events.len(),
{
    let head = events.drop_last();
    let last = events.last();
    assert(events[events.len() - 1] == last);
    assert(!s.window_over(last.1));
    if head.len() == 0 {
        assert(run_state(s, head) == s);
        assert(run_output(s, head) =~= Seq::<PortInfo>::empty());
        if s.reported.contains(port) {
            assert(s.reported.insert(port) =~= s.reported);
        } else {
            assert(Seq::<PortInfo>::empty().push(port) =~= seq![port]);
        }
    } else {
        assert(all_frames_for(head, port)) by {
            assert forall|i: int| 0 <= i < head.len() implies match (#[trigger] head[i]).0 {
                CaptureEvent::Frame(bytes) => spec_decode(bytes@) == Some(port),
                _ => false,
            } by {
                assert(head[i] == events[i]);
            }
        }
        assert(all_within_window(s, head)) by {
            assert forall|i: int| 0 <= i < head.len() implies !s.window_over(
                (#[trigger] head[i]).1,
            ) by {
                assert(head[i] == events[i]);
            }
        }
        lemma_one_announcement_per_window(s, head, port);
        let mid = run_state(s, head);
        assert(mid.reported.contains(port));
        assert(mid.reported.insert(port) =~= mid.reported);
    }
}

/// Frames for one watched port over two windows: some within the running
/// window, then a timer expiry at which the window is over, then some
/// within the window that begins there. The port is announced exactly
/// twice, once in each window.
pub proof fn lemma_announced_again_after_rollover(
    s: WatcherState,
    first: Seq<TimedEvent>,
    expiry: u64,
    second: Seq<TimedEvent>,
    port: PortInfo,
)
    requires
        s.watch.contains(port),
        !s.reported.contains(port),
        first.len() > 0,
        all_frames_for(first, port),
        all_within_window(s, first),
        s.window_over(expiry),
        second.len() > 0,
        all_frames_for(second, port),
        all_within_window(s.roll(expiry), second),
    ensures
        run_output(s, first + seq![(CaptureEvent::TimerElapsed, expiry)] + second) == seq![
            port,
            port,
        ],
{
    let tick = seq![(CaptureEvent::TimerElapsed, expiry)];
    let s1 = run_state(s, first);
    lemma_one_announcement_per_window(s, first, port);
    lemma_run_single(s1, CaptureEvent::TimerElapsed, expiry);
    let s2 = s1.roll(expiry);
    assert(s2 == s.roll(expiry));
    lemma_one_announcement_per_window(s2, second, port);
    lemma_run_concat(s, first, tick);
    lemma_run_concat(s, first + tick, second);
    assert(seq![port] + Seq::<PortInfo>::empty() + seq![port] =~= seq![port, port]);
}

} // verus!
