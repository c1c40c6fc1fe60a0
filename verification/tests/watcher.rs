use arkade::{CaptureEvent, PortInfo, PortWatcher};

fn frame_for(port: PortInfo) -> Vec<u8> {
    let (protocol, number, transport_len) = match port {
        PortInfo::TCP(n) => (6u8, n, 20u16),
        PortInfo::UDP(n) => (17u8, n, 8u16),
    };
    let mut frame = vec![0u8; 12];
    frame.extend_from_slice(&[0x08, 0x00]);
    frame.extend_from_slice(&[0x45, 0]);
    frame.extend_from_slice(&(20 + transport_len).to_be_bytes());
    frame.extend_from_slice(&[0, 0, 0, 0, 64, protocol, 0, 0]);
    frame.extend_from_slice(&[10, 0, 0, 1, 10, 0, 0, 2]);
    frame.extend_from_slice(&[0xc7, 0x38]);
    frame.extend_from_slice(&number.to_be_bytes());
    frame.resize(14 + 20 + transport_len as usize, 0);
    frame
}

fn watcher(ports: &[PortInfo], window: u64) -> PortWatcher {
    let mut w = PortWatcher::new(String::from("eth0"));
    w.set_aggregate_window(window);
    for p in ports {
        w.watch(*p);
    }
    w
}

#[test]
fn new_watcher_watches_nothing() {
    let mut w = PortWatcher::new(String::from("enp3s0"));
    assert_eq!(w.interface(), "enp3s0");
    assert_eq!(w.aggregate_window(), 5000);
    assert!(!w.is_watched(PortInfo::TCP(25565)));
    assert_eq!(w.process_packet(&frame_for(PortInfo::TCP(25565))), None);
    assert_eq!(w.time_to_rollover(0), 5000);
}

#[test]
fn watch_and_unwatch() {
    let mut w = PortWatcher::new(String::from("eth0"));
    w.watch(PortInfo::TCP(25565));
    assert!(w.is_watched(PortInfo::TCP(25565)));
    assert!(!w.is_watched(PortInfo::UDP(25565)));
    w.watch(PortInfo::UDP(34197));
    w.unwatch(PortInfo::TCP(25565));
    assert!(!w.is_watched(PortInfo::TCP(25565)));
    assert!(w.is_watched(PortInfo::UDP(34197)));
    w.unwatch(PortInfo::TCP(1));
    assert!(w.is_watched(PortInfo::UDP(34197)));
}

#[test]
fn watched_port_is_announced_once() {
    let port = PortInfo::UDP(34197);
    let mut w = watcher(&[port], 5000);
    assert_eq!(w.process_packet(&frame_for(port)), Some(port));
    for _ in 0..100 {
        assert_eq!(w.process_packet(&frame_for(port)), None);
    }
}

#[test]
fn protocols_are_told_apart() {
    let mut w = watcher(&[PortInfo::TCP(80)], 5000);
    assert_eq!(w.process_packet(&frame_for(PortInfo::UDP(80))), None);
    assert_eq!(w.process_packet(&frame_for(PortInfo::TCP(80))), Some(PortInfo::TCP(80)));
    w.watch(PortInfo::UDP(80));
    assert_eq!(w.process_packet(&frame_for(PortInfo::UDP(80))), Some(PortInfo::UDP(80)));
    assert_eq!(w.process_packet(&frame_for(PortInfo::TCP(80))), None);
}

#[test]
fn one_event_per_window_and_one_more_after_rollover() {
    let port = PortInfo::TCP(25565);
    let mut w = watcher(&[port], 5000);
    let mut events = Vec::new();
    for t in [10u64, 20, 1000, 2500, 4999] {
        if let Some(p) = w.step(&CaptureEvent::Frame(frame_for(port)), t) {
            events.push(p);
        }
    }
    assert_eq!(events, vec![port]);
    assert_eq!(w.step(&CaptureEvent::TimerElapsed, 5000), None);
    for t in [5001u64, 5002, 7000, 9999] {
        if let Some(p) = w.step(&CaptureEvent::Frame(frame_for(port)), t) {
            events.push(p);
        }
    }
    assert_eq!(events, vec![port, port]);
}

#[test]
fn unwatched_port_is_never_announced() {
    let mut w = watcher(&[PortInfo::TCP(25565)], 10);
    let other = [PortInfo::TCP(25564), PortInfo::TCP(25566), PortInfo::UDP(25565), PortInfo::UDP(0)];
    for t in 0..500u64 {
        for p in other {
            assert_eq!(w.step(&CaptureEvent::Frame(frame_for(p)), t), None);
        }
        if t % 7 == 0 {
            assert_eq!(w.step(&CaptureEvent::TimerElapsed, t), None);
        }
    }
    let mut fresh = PortWatcher::new(String::from("eth0"));
    for t in 0..100u64 {
        assert_eq!(fresh.step(&CaptureEvent::Frame(frame_for(PortInfo::UDP(53))), t * 1000), None);
    }
}

#[test]
fn window_of_one_second() {
    let port = PortInfo::UDP(34197);

    let mut w = watcher(&[port], 1000);
    assert_eq!(w.step(&CaptureEvent::Frame(frame_for(port)), 100), Some(port));
    assert_eq!(w.step(&CaptureEvent::Frame(frame_for(port)), 900), None);

    let mut w = watcher(&[port], 1000);
    assert_eq!(w.step(&CaptureEvent::Frame(frame_for(port)), 100), Some(port));
    assert_eq!(w.time_to_rollover(100), 900);
    assert_eq!(w.step(&CaptureEvent::TimerElapsed, 1000), None);
    assert_eq!(w.step(&CaptureEvent::Frame(frame_for(port)), 1100), Some(port));
    assert_eq!(w.step(&CaptureEvent::Frame(frame_for(port)), 1900), None);
    assert_eq!(w.time_to_rollover(1900), 100);
}

#[test]
fn rollover_comes_when_the_window_is_reached() {
    let port = PortInfo::TCP(22);
    let mut w = watcher(&[port], 1000);
    assert_eq!(w.process_packet(&frame_for(port)), Some(port));
    assert!(!w.roll_over(999));
    assert_eq!(w.process_packet(&frame_for(port)), None);
    assert!(w.roll_over(1000));
    assert_eq!(w.process_packet(&frame_for(port)), Some(port));
    assert!(!w.roll_over(1999));
    assert!(w.roll_over(2000));
    assert!(!w.roll_over(2500));
    assert!(w.roll_over(4000));
    assert_eq!(w.time_to_rollover(4000), 1000);
    assert_eq!(w.time_to_rollover(4001), 999);
    assert_eq!(w.time_to_rollover(5000), 0);
    assert_eq!(w.time_to_rollover(9000), 0);
}

#[test]
fn frame_is_looked_at_before_the_rollover_check() {
    let port = PortInfo::TCP(22);
    let mut w = watcher(&[port], 1000);
    assert_eq!(w.step(&CaptureEvent::Frame(frame_for(port)), 100), Some(port));
    assert_eq!(w.step(&CaptureEvent::Frame(frame_for(port)), 1100), None);
    assert_eq!(w.step(&CaptureEvent::Frame(frame_for(port)), 1200), Some(port));
    assert_eq!(w.time_to_rollover(1200), 900);
}

#[test]
fn clock_reading_before_the_window_began_counts_as_no_time() {
    let port = PortInfo::TCP(22);
    let mut w = watcher(&[port], 1000);
    assert!(w.roll_over(5000));
    assert!(!w.roll_over(4000));
    assert!(!w.roll_over(0));
    assert_eq!(w.time_to_rollover(0), 1000);
    assert_eq!(w.time_to_rollover(4999), 1000);
    assert!(w.roll_over(6000));
}

#[test]
fn rollover_keeps_the_watched_ports() {
    let port = PortInfo::UDP(53);
    let mut w = watcher(&[port], 100);
    assert!(w.roll_over(100));
    assert!(w.is_watched(port));
    assert_eq!(w.step(&CaptureEvent::TimerElapsed, 1000), None);
    assert!(w.is_watched(port));
    assert_eq!(w.process_packet(&frame_for(port)), Some(port));
}

#[test]
fn wake_without_data_and_failed_read_change_nothing() {
    let port = PortInfo::UDP(53);
    let mut w = watcher(&[port], 1000);
    assert_eq!(w.step(&CaptureEvent::Frame(frame_for(port)), 10), Some(port));
    assert_eq!(w.step(&CaptureEvent::SpuriousWake, 5000), None);
    assert_eq!(w.step(&CaptureEvent::ReadFailed, 6000), None);
    assert_eq!(w.time_to_rollover(10), 990);
    assert_eq!(w.process_packet(&frame_for(port)), None);
}

#[test]
fn frames_that_decode_to_nothing_are_ignored() {
    let port = PortInfo::UDP(53);
    let mut w = watcher(&[port], 1000);
    assert_eq!(w.step(&CaptureEvent::Frame(Vec::new()), 1), None);
    assert_eq!(w.step(&CaptureEvent::Frame(vec![0u8; 64]), 2), None);
    let mut arp = frame_for(port);
    arp[12] = 0x08;
    arp[13] = 0x06;
    assert_eq!(w.step(&CaptureEvent::Frame(arp), 3), None);
    assert_eq!(w.step(&CaptureEvent::Frame(frame_for(port)), 4), Some(port));
}

#[test]
fn unwatching_leaves_the_reported_mark_until_rollover() {
    let port = PortInfo::TCP(25565);
    let mut w = watcher(&[port], 1000);
    assert_eq!(w.process_packet(&frame_for(port)), Some(port));
    w.unwatch(port);
    assert_eq!(w.process_packet(&frame_for(port)), None);
    w.watch(port);
    assert_eq!(w.process_packet(&frame_for(port)), None);
    assert!(w.roll_over(1000));
    assert_eq!(w.process_packet(&frame_for(port)), Some(port));
}

#[test]
fn each_watched_port_has_its_own_event() {
    let a = PortInfo::TCP(25565);
    let b = PortInfo::UDP(34197);
    let mut w = watcher(&[a, b], 1000);
    assert_eq!(w.step(&CaptureEvent::Frame(frame_for(a)), 1), Some(a));
    assert_eq!(w.step(&CaptureEvent::Frame(frame_for(b)), 2), Some(b));
    assert_eq!(w.step(&CaptureEvent::Frame(frame_for(a)), 3), None);
    assert_eq!(w.step(&CaptureEvent::Frame(frame_for(b)), 4), None);
}

#[test]
fn window_of_no_length_announces_every_frame_handled_by_step() {
    let port = PortInfo::TCP(80);
    let mut w = watcher(&[port], 0);
    assert_eq!(w.time_to_rollover(0), 0);
    for t in 0..10u64 {
        assert_eq!(w.step(&CaptureEvent::Frame(frame_for(port)), t), Some(port));
    }
}

#[test]
fn window_can_be_set() {
    let mut w = PortWatcher::new(String::from("eth0"));
    w.set_aggregate_window(250);
    assert_eq!(w.aggregate_window(), 250);
    assert_eq!(w.time_to_rollover(50), 200);
    assert!(!w.roll_over(249));
    assert!(w.roll_over(250));
    w.set_aggregate_window(u64::MAX);
    assert!(!w.roll_over(u64::MAX));
    assert_eq!(w.time_to_rollover(250), u64::MAX);
}
