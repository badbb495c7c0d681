use ioblink::error::Error;
use ioblink::led::{Led, LedStep, SysfsReply};
use ioblink::startup::{Startup, StartupAction, StartupEvent, StartupStep, ACQUIRE_MAX_ATTEMPTS};

fn acquire(dir: &str) -> Led {
    let LedStep::Pending(t) = Led::acquire(dir.to_string()) else { panic!() };
    let LedStep::Pending(t) = t.resume(SysfsReply::Exists(true)) else { panic!() };
    let LedStep::Pending(t) = t.resume(SysfsReply::Read(Ok("[none]".to_string()))) else { panic!() };
    let LedStep::Pending(t) = t.resume(SysfsReply::Written(Ok(()))) else { panic!() };
    let LedStep::Acquired(led) = t.resume(SysfsReply::Read(Ok("[none] kbd-scrolllock\n".to_string()))) else { panic!() };
    led
}

fn missing(n: u32) -> Error {
    Error::LedNodeMissing(format!("/l{n}"))
}

#[test]
fn gives_up_after_thirty_failures_with_last_error() {
    let (mut s, a) = Startup::start();
    assert_eq!(a, StartupAction::Attempt);
    let mut attempts = 0;
    loop {
        attempts += 1;
        match s.step(StartupEvent::Attempted(Err(missing(attempts)))) {
            StartupStep::Next(t, StartupAction::Wait { ms, first_failure }) => {
                assert_eq!(ms, 1000);
                assert_eq!(first_failure, attempts == 1);
                s = t;
            }
            other => panic!("unexpected {other:?}"),
        }
        match s.step(StartupEvent::Waited) {
            StartupStep::Next(t, StartupAction::Attempt) => s = t,
            StartupStep::Finished(Err(Error::LedNodeMissing(p))) => {
                assert_eq!(p, "/l30");
                break;
            }
            other => panic!("unexpected {other:?}"),
        }
    }
    assert_eq!(attempts, ACQUIRE_MAX_ATTEMPTS);
}

#[test]
fn success_ends_startup() {
    let (s, _) = Startup::start();
    let StartupStep::Next(s, _) = s.step(StartupEvent::Attempted(Err(missing(1)))) else { panic!() };
    let StartupStep::Next(s, StartupAction::Attempt) = s.step(StartupEvent::Waited) else { panic!() };
    match s.step(StartupEvent::Attempted(Ok(acquire("/ok")))) {
        StartupStep::Finished(Ok(l)) => assert_eq!(l.path(), "/ok"),
        other => panic!("unexpected {other:?}"),
    }
}
