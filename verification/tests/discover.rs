use ioblink::discover::{
    best_candidate, event_device, input_name, is_input_dir_name, is_yes, lock_name_of, parse_pid,
    select_lock_leds, CandidateInfo, DiscoverAction, DiscoverEvent, Discovery, Report,
};
use ioblink::error::Error;
use ioblink::led::{Led, LedStep, SysfsReply};

fn strings(v: &[&str]) -> Vec<String> {
    v.iter().map(|s| s.to_string()).collect()
}

fn acquire(dir: &str) -> Led {
    let LedStep::Pending(t) = Led::acquire(dir.to_string()) else { panic!() };
    let LedStep::Pending(t) = t.resume(SysfsReply::Exists(true)) else { panic!() };
    let LedStep::Pending(t) = t.resume(SysfsReply::Read(Ok("[none]".to_string()))) else { panic!() };
    let LedStep::Pending(t) = t.resume(SysfsReply::Written(Ok(()))) else { panic!() };
    let LedStep::Acquired(led) = t.resume(SysfsReply::Read(Ok("[none] kbd-scrolllock\n".to_string()))) else { panic!() };
    led
}

#[test]
fn lock_leds_selected_and_sorted() {
    let names = strings(&["input9::numlock", "input3::scrolllock", "phy0-led", "input3::capslock", "input3::kana"]);
    assert_eq!(select_lock_leds(&names), vec!["input3::capslock", "input3::scrolllock", "input9::numlock"]);
    assert_eq!(lock_name_of(&"input3::capslock".to_string()).as_deref(), Some("capslock"));
    assert_eq!(lock_name_of(&"input3::kana".to_string()), None);
}

#[test]
fn yes_answers() {
    for s in ["y\n", "Y", " yes ", "YES\r\n", "yEs"] {
        assert!(is_yes(&s.to_string()), "{s:?}");
    }
    for s in ["", "n", "no", "ye", "yes please", "\n"] {
        assert!(!is_yes(&s.to_string()), "{s:?}");
    }
}

#[test]
fn best_prefers_scrolllock_then_numlock_then_capslock() {
    assert_eq!(best_candidate(&strings(&["capslock", "numlock", "scrolllock", "scrolllock"])), Some(2));
    assert_eq!(best_candidate(&strings(&["capslock", "numlock", "numlock"])), Some(1));
    assert_eq!(best_candidate(&strings(&["capslock"])), Some(0));
    assert_eq!(best_candidate(&strings(&["other"])), Some(0));
    assert_eq!(best_candidate(&Vec::new()), None);
}

#[test]
fn event_node_and_input_dir() {
    assert_eq!(event_device(&strings(&["name", "capabilities", "event7", "event8"])).as_deref(), Some("/dev/input/event7"));
    assert_eq!(event_device(&strings(&["name", "mouse0"])), None);
    assert!(is_input_dir_name(&"input4".to_string()));
    assert!(!is_input_dir_name(&"0003:03F0:344A.0001".to_string()));
}

#[test]
fn pids_parse_like_u32() {
    assert_eq!(parse_pid(&"1234".to_string()), Some(1234));
    assert_eq!(parse_pid(&"4294967295".to_string()), Some(u32::MAX));
    assert_eq!(parse_pid(&"4294967296".to_string()), None);
    assert_eq!(parse_pid(&"self".to_string()), None);
}

#[test]
fn input_names_trimmed_or_unknown() {
    assert_eq!(input_name(Some("HP USB Keyboard\n".to_string())), "HP USB Keyboard");
    assert_eq!(input_name(None), "unknown input device");
}

#[test]
fn session_skips_grabbed_and_confirms_lit() {
    let cands = vec![
        CandidateInfo { lock: "capslock".to_string(), has_event_device: true },
        CandidateInfo { lock: "numlock".to_string(), has_event_device: false },
        CandidateInfo { lock: "scrolllock".to_string(), has_event_device: true },
        CandidateInfo { lock: "capslock".to_string(), has_event_device: false },
    ];
    let (mut d, a) = Discovery::new(cands);
    assert!(matches!(a, DiscoverAction::CheckGrab(0)));
    let (r, a) = d.step(DiscoverEvent::Grabbed(true));
    assert!(matches!(r, Some(Report::Grabbed(0))));
    assert!(matches!(a, DiscoverAction::Acquire(1)));
    let (r, a) = d.step(DiscoverEvent::Acquired(Ok(acquire("/n"))));
    assert!(r.is_none());
    assert!(matches!(a, DiscoverAction::Prompt(1)));
    let (_, a) = d.step(DiscoverEvent::Entered(true));
    assert!(matches!(a, DiscoverAction::Blink(_)));
    let (_, a) = d.step(DiscoverEvent::Blinked);
    assert!(matches!(a, DiscoverAction::Ask(1)));
    let (_, a) = d.step(DiscoverEvent::Answered(Some("y\n".to_string())));
    assert!(matches!(a, DiscoverAction::Restore(_)));
    let (r, a) = d.step(DiscoverEvent::Restored);
    assert!(matches!(r, Some(Report::Lit(1))));
    assert!(matches!(a, DiscoverAction::CheckGrab(2)));
    let (_, a) = d.step(DiscoverEvent::Grabbed(false));
    assert!(matches!(a, DiscoverAction::Acquire(2)));
    let (_, _) = d.step(DiscoverEvent::Acquired(Ok(acquire("/s"))));
    let (_, _) = d.step(DiscoverEvent::Entered(true));
    let (_, _) = d.step(DiscoverEvent::Blinked);
    let (_, _) = d.step(DiscoverEvent::Answered(Some("yes".to_string())));
    let (r, a) = d.step(DiscoverEvent::Restored);
    assert!(matches!(r, Some(Report::Lit(2))));
    assert!(matches!(a, DiscoverAction::Acquire(3)));
    let err = Error::LedNodeMissing("/c".to_string());
    let (r, a) = d.step(DiscoverEvent::Acquired(Err(err)));
    assert!(matches!(r, Some(Report::Unavailable(3, _))));
    match a {
        DiscoverAction::Summary { confirmed, grabbed, best } => {
            assert_eq!(confirmed, vec![1, 2]);
            assert_eq!(grabbed, vec![0]);
            assert_eq!(best, Some(1));
        }
        other => panic!("unexpected {other:?}"),
    }
}

#[test]
fn session_answer_no_and_terminal_failure() {
    let cands = vec![
        CandidateInfo { lock: "numlock".to_string(), has_event_device: false },
        CandidateInfo { lock: "capslock".to_string(), has_event_device: false },
    ];
    let (mut d, _) = Discovery::new(cands);
    d.step(DiscoverEvent::Acquired(Ok(acquire("/n"))));
    d.step(DiscoverEvent::Entered(true));
    d.step(DiscoverEvent::Blinked);
    d.step(DiscoverEvent::Answered(Some("\n".to_string())));
    let (r, a) = d.step(DiscoverEvent::Restored);
    assert!(matches!(r, Some(Report::Unlit(0))));
    assert!(matches!(a, DiscoverAction::Acquire(1)));
    d.step(DiscoverEvent::Acquired(Ok(acquire("/c"))));
    let (_, a) = d.step(DiscoverEvent::Entered(false));
    assert!(matches!(a, DiscoverAction::Abort));
}

#[test]
fn no_candidates_summarizes_at_once() {
    let (_, a) = Discovery::new(Vec::new());
    match a {
        DiscoverAction::Summary { confirmed, grabbed, best } => {
            assert!(confirmed.is_empty() && grabbed.is_empty() && best.is_none());
        }
        other => panic!("unexpected {other:?}"),
    }
}
