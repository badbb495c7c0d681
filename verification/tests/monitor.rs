use ioblink::config::{Config, CountMode};
use ioblink::diskstats::parse_diskstats;
use ioblink::error::Error;
use ioblink::led::{Led, LedStep, SysfsReply};
use ioblink::monitor::{detect_activity, Action, Event, Monitor, Phase};

fn acquire(dir: &str) -> Led {
    let LedStep::Pending(t) = Led::acquire(dir.to_string()) else { panic!() };
    let LedStep::Pending(t) = t.resume(SysfsReply::Exists(true)) else { panic!() };
    let LedStep::Pending(t) = t.resume(SysfsReply::Read(Ok("[kbd-scrolllock]".to_string()))) else { panic!() };
    let LedStep::Pending(t) = t.resume(SysfsReply::Written(Ok(()))) else { panic!() };
    let LedStep::Acquired(led) = t.resume(SysfsReply::Read(Ok("[none] kbd-scrolllock\n".to_string()))) else { panic!() };
    led
}

/// Milliseconds as nanoseconds.
fn ms(x: u64) -> u64 {
    x * 1_000_000
}

fn stats(read: u64, written: u64) -> ioblink::diskstats::DiskStats {
    parse_diskstats(&format!("259 0 nvme0n1 1 0 {read} 0 1 0 {written} 0 0 0 0\n"))
}

fn config(invert: bool, count: CountMode) -> Config {
    let mut c = Config::default();
    c.watch.invert = invert;
    c.watch.count = count;
    c
}

fn start(invert: bool, count: CountMode) -> Monitor {
    let c = config(invert, count);
    let (mut m, a) = Monitor::new(&c, vec!["nvme0n1".to_string()], acquire("/l"), Some(stats(10, 10)));
    match a {
        Action::SetLed(l, on) => {
            assert_eq!(l.path(), "/l");
            assert_eq!(on, invert);
        }
        other => panic!("unexpected {other:?}"),
    }
    assert!(matches!(m.step(Event::LedWritten { written: Ok(()), now_ns: ms(0) }), Action::CheckExit));
    m
}

/// Runs one tick up to the read of /proc/diskstats and returns the action after it.
fn tick(m: &mut Monitor, now: u64, read: u64, written: u64) -> Action {
    assert!(matches!(m.step(Event::ExitFlag(false)), Action::Sleep(50)));
    assert!(matches!(m.step(Event::Woke { resync: false, now_ns: ms(now) }), Action::ReadStats));
    m.step(Event::Stats { sample: Ok(stats(read, written)), now_ns: ms(now) })
}

#[test]
fn activity_turns_led_on_and_min_on_time_holds_it() {
    let mut m = start(false, CountMode::Both);
    assert!(matches!(tick(&mut m, 100, 10, 10), Action::CheckExit));
    match tick(&mut m, 150, 20, 10) {
        Action::SetLed(_, true) => {}
        other => panic!("unexpected {other:?}"),
    }
    assert!(matches!(m.step(Event::LedWritten { written: Ok(()), now_ns: ms(150) }), Action::CheckExit));
    assert!(m.displayed());
    // Idle 10 ms later: still within the 30 ms minimum on-time.
    assert!(matches!(tick(&mut m, 160, 20, 10), Action::CheckExit));
    // Idle 30 ms after the activity: back to idle.
    match tick(&mut m, 180, 20, 10) {
        Action::SetLed(_, false) => {}
        other => panic!("unexpected {other:?}"),
    }
    assert!(matches!(m.step(Event::LedWritten { written: Ok(()), now_ns: ms(180) }), Action::CheckExit));
    assert!(!m.displayed());
}

#[test]
fn inverted_led_is_on_at_idle_and_off_during_activity() {
    let mut m = start(true, CountMode::Both);
    assert!(m.displayed());
    match tick(&mut m, 50, 10, 11) {
        Action::SetLed(_, false) => {}
        other => panic!("unexpected {other:?}"),
    }
    assert!(matches!(m.step(Event::LedWritten { written: Ok(()), now_ns: ms(50) }), Action::CheckExit));
    match tick(&mut m, 200, 10, 11) {
        Action::SetLed(_, true) => {}
        other => panic!("unexpected {other:?}"),
    }
}

#[test]
fn count_mode_selects_counters() {
    let devs = vec!["nvme0n1".to_string()];
    assert!(!detect_activity(&devs, &stats(1, 1), &stats(1, 2), CountMode::Read));
    assert!(detect_activity(&devs, &stats(1, 1), &stats(2, 1), CountMode::Read));
    assert!(detect_activity(&devs, &stats(1, 1), &stats(1, 2), CountMode::Write));
    assert!(!detect_activity(&devs, &stats(1, 1), &stats(2, 1), CountMode::Write));
    assert!(detect_activity(&devs, &stats(1, 1), &stats(1, 2), CountMode::Both));
    assert!(!detect_activity(&devs, &stats(5, 5), &stats(4, 4), CountMode::Both));
    let other = vec!["sda".to_string()];
    assert!(!detect_activity(&other, &stats(1, 1), &stats(9, 9), CountMode::Both));
}

#[test]
fn failed_stats_read_skips_tick() {
    let mut m = start(false, CountMode::Both);
    assert!(matches!(m.step(Event::ExitFlag(false)), Action::Sleep(50)));
    assert!(matches!(m.step(Event::Woke { resync: false, now_ns: ms(5) }), Action::ReadStats));
    let err = Error::Io { path: "/proc/diskstats".to_string(), source: "x".to_string() };
    assert!(matches!(m.step(Event::Stats { sample: Err(err), now_ns: ms(5) }), Action::CheckExit));
    // The previous sample is kept: the same counters show no activity.
    assert!(matches!(tick(&mut m, 10, 10, 10), Action::CheckExit));
}

#[test]
fn vanished_led_is_retried_each_second() {
    let mut m = start(false, CountMode::Both);
    assert!(matches!(tick(&mut m, 100, 11, 10), Action::SetLed(_, true)));
    let gone = Error::LedNodeNotWritable { path: "/l/brightness".to_string(), source: "x".to_string() };
    assert!(matches!(m.step(Event::LedWritten { written: Err(gone), now_ns: ms(100) }), Action::CheckExit));
    assert!(!m.holds_led());
    assert!(!m.displayed());
    // Polling continues without the LED, and no retry before a second has passed.
    assert!(matches!(tick(&mut m, 600, 12, 10), Action::CheckExit));
    assert!(matches!(m.step(Event::ExitFlag(false)), Action::Sleep(50)));
    assert!(matches!(m.step(Event::Woke { resync: true, now_ns: ms(1100) }), Action::Reacquire));
    let err = Error::LedNodeMissing("/l".to_string());
    assert!(matches!(m.step(Event::Reacquired { acquired: Err(err), now_ns: ms(1100) }), Action::ReadStats));
    assert!(matches!(m.step(Event::Stats { sample: Ok(stats(12, 10)), now_ns: ms(1100) }), Action::CheckExit));
    assert!(matches!(m.step(Event::ExitFlag(false)), Action::Sleep(50)));
    assert!(matches!(m.step(Event::Woke { resync: false, now_ns: ms(2000) }), Action::ReadStats));
    assert!(matches!(m.step(Event::Stats { sample: Ok(stats(12, 10)), now_ns: ms(2000) }), Action::CheckExit));
    assert!(matches!(m.step(Event::ExitFlag(false)), Action::Sleep(50)));
    assert!(matches!(m.step(Event::Woke { resync: false, now_ns: ms(2100) }), Action::Reacquire));
    match m.step(Event::Reacquired { acquired: Ok(acquire("/l2")), now_ns: ms(2100) }) {
        Action::SetLed(l, false) => assert_eq!(l.path(), "/l2"),
        other => panic!("unexpected {other:?}"),
    }
    assert!(matches!(m.step(Event::LedWritten { written: Ok(()), now_ns: ms(2100) }), Action::ReadStats));
    assert!(m.holds_led());
}

#[test]
fn other_write_errors_keep_the_led() {
    let mut m = start(false, CountMode::Both);
    assert!(matches!(tick(&mut m, 100, 11, 10), Action::SetLed(_, true)));
    let err = Error::WriteVerifyMismatch { path: "/l/brightness".to_string(), wrote: "1".to_string(), read_back: "0".to_string() };
    assert!(matches!(m.step(Event::LedWritten { written: Err(err), now_ns: ms(100) }), Action::CheckExit));
    assert!(m.holds_led());
    assert!(!m.displayed());
    // The next activity writes again since the LED still is not shown on.
    assert!(matches!(tick(&mut m, 150, 12, 10), Action::SetLed(_, true)));
}

#[test]
fn resync_reasserts_held_led() {
    let mut m = start(false, CountMode::Both);
    assert!(matches!(m.step(Event::ExitFlag(false)), Action::Sleep(50)));
    match m.step(Event::Woke { resync: true, now_ns: ms(10) }) {
        Action::Reassert(l) => assert_eq!(l.path(), "/l"),
        other => panic!("unexpected {other:?}"),
    }
    assert_eq!(m.phase(), Phase::Reasserting);
    assert!(matches!(m.step(Event::Reasserted { outcome: Ok(()), now_ns: ms(10) }), Action::ReadStats));
}

#[test]
fn shutdown_hands_back_the_led() {
    let mut m = start(false, CountMode::Both);
    match m.step(Event::ExitFlag(true)) {
        Action::Finish(Some(l)) => {
            assert_eq!(l.path(), "/l");
            assert_eq!(l.original_trigger(), "kbd-scrolllock");
        }
        other => panic!("unexpected {other:?}"),
    }
    assert_eq!(m.phase(), Phase::Finished);
}

#[test]
fn unexpected_event_repeats_pending_action() {
    let mut m = start(false, CountMode::Both);
    assert!(matches!(m.step(Event::Woke { resync: false, now_ns: ms(0) }), Action::CheckExit));
    assert_eq!(m.phase(), Phase::ExitCheck);
}

#[test]
fn unwatched_counters_make_no_difference() {
    // Two runs whose samples differ only in written sectors (not watched in
    // read mode) and in an unwatched device make the same LED calls.
    let run = |extra_written: u64| {
        let c = config(false, CountMode::Read);
        let first = parse_diskstats(&format!(
            "259 0 nvme0n1 1 0 10 0 1 0 {} 0 0 0 0\n8 0 sda 1 0 {} 0 1 0 5 0\n",
            10 + extra_written,
            extra_written
        ));
        let (mut m, mut a) = Monitor::new(&c, vec!["nvme0n1".to_string()], acquire("/l"), Some(first));
        let mut log = vec![format!("{a:?}")];
        let reads = [10u64, 12, 12, 12, 15];
        let mut t = 0;
        for r in reads {
            a = m.step(Event::LedWritten { written: Ok(()), now_ns: ms(t) });
            log.push(format!("{a:?}"));
            a = m.step(Event::ExitFlag(false));
            log.push(format!("{a:?}"));
            t += 20;
            a = m.step(Event::Woke { resync: false, now_ns: ms(t) });
            log.push(format!("{a:?}"));
            let sample = parse_diskstats(&format!(
                "259 0 nvme0n1 1 0 {r} 0 1 0 {} 0 0 0 0\n8 0 sda 1 0 {} 0 1 0 5 0\n",
                r * extra_written,
                t * extra_written
            ));
            a = m.step(Event::Stats { sample: Ok(sample), now_ns: ms(t) });
            log.push(format!("{a:?}"));
        }
        log
    };
    assert_eq!(run(0), run(7));
}

#[test]
fn minimum_on_time_is_exact_below_a_millisecond() {
    let mut m = start(false, CountMode::Both);
    assert!(matches!(tick(&mut m, 100, 11, 10), Action::SetLed(_, true)));
    assert!(matches!(m.step(Event::LedWritten { written: Ok(()), now_ns: ms(100) }), Action::CheckExit));
    // One nanosecond short of the 30 ms minimum on-time: the LED stays on.
    assert!(matches!(m.step(Event::ExitFlag(false)), Action::Sleep(50)));
    let t = ms(130) - 1;
    assert!(matches!(m.step(Event::Woke { resync: false, now_ns: t }), Action::ReadStats));
    assert!(matches!(m.step(Event::Stats { sample: Ok(stats(11, 10)), now_ns: t }), Action::CheckExit));
    // Exactly 30 ms after the activity: back to idle.
    assert!(matches!(m.step(Event::ExitFlag(false)), Action::Sleep(50)));
    assert!(matches!(m.step(Event::Woke { resync: false, now_ns: ms(130) }), Action::ReadStats));
    assert!(matches!(
        m.step(Event::Stats { sample: Ok(stats(11, 10)), now_ns: ms(130) }),
        Action::SetLed(_, false)
    ));
}
