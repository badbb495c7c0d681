use ioblink::config::LedSelector;
use ioblink::error::Error;
use ioblink::led::{
    device_matches, is_led_named, parse_active_trigger, resolve_by_selector, Led, LedEntry, LedStep,
    SysfsReply, SysfsRequest, UsbIds,
};

fn acquire(dir: &str, trigger_text: &str) -> Led {
    let LedStep::Pending(t) = Led::acquire(dir.to_string()) else { panic!() };
    let LedStep::Pending(t) = t.resume(SysfsReply::Exists(true)) else { panic!() };
    let LedStep::Pending(t) = t.resume(SysfsReply::Read(Ok(trigger_text.to_string()))) else { panic!() };
    let LedStep::Pending(t) = t.resume(SysfsReply::Written(Ok(()))) else { panic!() };
    let LedStep::Acquired(led) = t.resume(SysfsReply::Read(Ok("[none] kbd-scrolllock\n".to_string()))) else { panic!() };
    led
}

#[test]
fn active_trigger_is_the_bracketed_word() {
    assert_eq!(parse_active_trigger("none kbd-scrolllock [input4-scrolllock] rfkill0\n"), "input4-scrolllock");
    assert_eq!(parse_active_trigger("[none] kbd-scrolllock"), "none");
    assert_eq!(parse_active_trigger("none kbd-scrolllock"), "none");
    assert_eq!(parse_active_trigger(""), "none");
    assert_eq!(parse_active_trigger("[ a [] [b]"), "");
    assert_eq!(parse_active_trigger("[x] [y]"), "x");
}

#[test]
fn acquire_checks_reads_and_detaches() {
    let LedStep::Pending(t) = Led::acquire("/sys/class/leds/input4::scrolllock".to_string()) else { panic!() };
    match t.request() {
        SysfsRequest::Exists { path } => assert_eq!(path, "/sys/class/leds/input4::scrolllock/brightness"),
        other => panic!("unexpected {other:?}"),
    }
    let LedStep::Pending(t) = t.resume(SysfsReply::Exists(true)) else { panic!() };
    match t.request() {
        SysfsRequest::Read { path } => assert_eq!(path, "/sys/class/leds/input4::scrolllock/trigger"),
        other => panic!("unexpected {other:?}"),
    }
    let LedStep::Pending(t) = t.resume(SysfsReply::Read(Ok("none [kbd-scrolllock]\n".to_string()))) else { panic!() };
    match t.request() {
        SysfsRequest::Write { path, value } => {
            assert_eq!(path, "/sys/class/leds/input4::scrolllock/trigger");
            assert_eq!(value, "none");
        }
        other => panic!("unexpected {other:?}"),
    }
    let LedStep::Pending(t) = t.resume(SysfsReply::Written(Ok(()))) else { panic!() };
    match t.request() {
        SysfsRequest::Read { path } => assert_eq!(path, "/sys/class/leds/input4::scrolllock/trigger"),
        other => panic!("unexpected {other:?}"),
    }
    let LedStep::Acquired(led) = t.resume(SysfsReply::Read(Ok("[none] kbd-scrolllock\n".to_string()))) else { panic!() };
    assert_eq!(led.path(), "/sys/class/leds/input4::scrolllock");
    assert_eq!(led.original_trigger(), "kbd-scrolllock");
}

#[test]
fn acquire_of_missing_node_fails() {
    let LedStep::Pending(t) = Led::acquire("/x".to_string()) else { panic!() };
    match t.resume(SysfsReply::Exists(false)) {
        LedStep::Failed(Error::LedNodeMissing(p)) => assert_eq!(p, "/x"),
        other => panic!("unexpected {other:?}"),
    }
}

#[test]
fn acquire_read_and_write_failures() {
    let LedStep::Pending(t) = Led::acquire("/x".to_string()) else { panic!() };
    let LedStep::Pending(t) = t.resume(SysfsReply::Exists(true)) else { panic!() };
    match t.resume(SysfsReply::Read(Err("denied".to_string()))) {
        LedStep::Failed(Error::Io { path, source }) => {
            assert_eq!(path, "/x/trigger");
            assert_eq!(source, "denied");
        }
        other => panic!("unexpected {other:?}"),
    }
    let LedStep::Pending(t) = Led::acquire("/x".to_string()) else { panic!() };
    let LedStep::Pending(t) = t.resume(SysfsReply::Exists(true)) else { panic!() };
    let LedStep::Pending(t) = t.resume(SysfsReply::Read(Ok("[a]".to_string()))) else { panic!() };
    match t.resume(SysfsReply::Written(Err("ro".to_string()))) {
        LedStep::Failed(Error::LedNodeNotWritable { path, source }) => {
            assert_eq!(path, "/x/trigger");
            assert_eq!(source, "ro");
        }
        other => panic!("unexpected {other:?}"),
    }
}

#[test]
fn wrong_reply_keeps_task_waiting() {
    let LedStep::Pending(t) = Led::acquire("/x".to_string()) else { panic!() };
    let LedStep::Pending(t) = t.resume(SysfsReply::Written(Ok(()))) else { panic!() };
    assert!(matches!(t.request(), SysfsRequest::Exists { .. }));
}

#[test]
fn set_on_writes_and_verifies() {
    let led = acquire("/l", "[none]");
    let LedStep::Pending(t) = led.set_on(true) else { panic!() };
    match t.request() {
        SysfsRequest::Write { path, value } => {
            assert_eq!(path, "/l/brightness");
            assert_eq!(value, "1");
        }
        other => panic!("unexpected {other:?}"),
    }
    let LedStep::Pending(t) = t.resume(SysfsReply::Written(Ok(()))) else { panic!() };
    assert!(matches!(t.request(), SysfsRequest::Read { .. }));
    assert!(matches!(t.resume(SysfsReply::Read(Ok("1\n".to_string()))), LedStep::Done));
}

#[test]
fn set_on_reports_silent_no_op_write() {
    let led = acquire("/l", "[none]");
    let LedStep::Pending(t) = led.set_on(false) else { panic!() };
    let LedStep::Pending(t) = t.resume(SysfsReply::Written(Ok(()))) else { panic!() };
    match t.resume(SysfsReply::Read(Ok("1\n".to_string()))) {
        LedStep::Failed(Error::WriteVerifyMismatch { path, wrote, read_back }) => {
            assert_eq!(path, "/l/brightness");
            assert_eq!(wrote, "0");
            assert_eq!(read_back, "1");
        }
        other => panic!("unexpected {other:?}"),
    }
}

#[test]
fn set_on_write_failure_means_not_writable() {
    let led = acquire("/l", "[none]");
    let LedStep::Pending(t) = led.set_on(true) else { panic!() };
    assert!(matches!(
        t.resume(SysfsReply::Written(Err("gone".to_string()))),
        LedStep::Failed(Error::LedNodeNotWritable { .. })
    ));
}

#[test]
fn restore_writes_back_the_original_trigger() {
    let led = acquire("/l", "none [kbd-numlock] x");
    let LedStep::Pending(t) = led.restore() else { panic!() };
    match t.request() {
        SysfsRequest::Write { path, value } => {
            assert_eq!(path, "/l/trigger");
            assert_eq!(value, "kbd-numlock");
        }
        other => panic!("unexpected {other:?}"),
    }
    let LedStep::Pending(t) = t.resume(SysfsReply::Written(Ok(()))) else { panic!() };
    match t.request() {
        SysfsRequest::Read { path } => assert_eq!(path, "/l/trigger"),
        other => panic!("unexpected {other:?}"),
    }
    assert!(matches!(t.resume(SysfsReply::Read(Ok("none [kbd-numlock]".to_string()))), LedStep::Done));
}

#[test]
fn restore_that_did_not_take_is_reported() {
    let led = acquire("/l", "none [kbd-numlock] x");
    let LedStep::Pending(t) = led.restore() else { panic!() };
    let LedStep::Pending(t) = t.resume(SysfsReply::Written(Ok(()))) else { panic!() };
    match t.resume(SysfsReply::Read(Ok("[none] kbd-numlock".to_string()))) {
        LedStep::Failed(Error::WriteVerifyMismatch { path, wrote, read_back }) => {
            assert_eq!(path, "/l/trigger");
            assert_eq!(wrote, "kbd-numlock");
            assert_eq!(read_back, "none");
        }
        other => panic!("unexpected {other:?}"),
    }
}

#[test]
fn detach_that_did_not_take_fails_acquisition() {
    let LedStep::Pending(t) = Led::acquire("/x".to_string()) else { panic!() };
    let LedStep::Pending(t) = t.resume(SysfsReply::Exists(true)) else { panic!() };
    let LedStep::Pending(t) = t.resume(SysfsReply::Read(Ok("none [kbd-capslock]".to_string()))) else { panic!() };
    let LedStep::Pending(t) = t.resume(SysfsReply::Written(Ok(()))) else { panic!() };
    match t.resume(SysfsReply::Read(Ok("none [kbd-capslock]".to_string()))) {
        LedStep::Failed(Error::WriteVerifyMismatch { path, wrote, read_back }) => {
            assert_eq!(path, "/x/trigger");
            assert_eq!(wrote, "none");
            assert_eq!(read_back, "kbd-capslock");
        }
        other => panic!("unexpected {other:?}"),
    }
    let LedStep::Pending(t) = Led::acquire("/x".to_string()) else { panic!() };
    let LedStep::Pending(t) = t.resume(SysfsReply::Exists(true)) else { panic!() };
    let LedStep::Pending(t) = t.resume(SysfsReply::Read(Ok("[a]".to_string()))) else { panic!() };
    let LedStep::Pending(t) = t.resume(SysfsReply::Written(Ok(()))) else { panic!() };
    assert!(matches!(t.resume(SysfsReply::Read(Err("eio".to_string()))), LedStep::Failed(Error::Io { .. })));
}

#[test]
fn reassert_detaches_only_a_drifted_trigger() {
    let led = acquire("/l", "[kbd-capslock]");
    let LedStep::Pending(t) = led.reassert() else { panic!() };
    assert!(matches!(t.resume(SysfsReply::Read(Ok("[none] kbd-capslock".to_string()))), LedStep::Done));
    let LedStep::Pending(t) = led.reassert() else { panic!() };
    let LedStep::Pending(t) = t.resume(SysfsReply::Read(Ok("none [kbd-capslock]".to_string()))) else { panic!() };
    match t.request() {
        SysfsRequest::Write { path, value } => {
            assert_eq!(path, "/l/trigger");
            assert_eq!(value, "none");
        }
        other => panic!("unexpected {other:?}"),
    }
    let LedStep::Pending(t) = t.resume(SysfsReply::Written(Ok(()))) else { panic!() };
    assert!(matches!(t.request(), SysfsRequest::Read { .. }));
    assert!(matches!(t.resume(SysfsReply::Read(Ok("[none]".to_string()))), LedStep::Done));
    assert_eq!(led.original_trigger(), "kbd-capslock");
    let LedStep::Pending(t) = led.reassert() else { panic!() };
    let LedStep::Pending(t) = t.resume(SysfsReply::Read(Ok("[x]".to_string()))) else { panic!() };
    let LedStep::Pending(t) = t.resume(SysfsReply::Written(Ok(()))) else { panic!() };
    assert!(matches!(
        t.resume(SysfsReply::Read(Ok("[x]".to_string()))),
        LedStep::Failed(Error::WriteVerifyMismatch { .. })
    ));
}

fn ids(v: &str, p: &str) -> Option<UsbIds> {
    Some(UsbIds { vendor: v.to_string(), product: p.to_string() })
}

#[test]
fn device_ids_match_ignoring_case_and_white_space() {
    assert!(device_matches(&ids("03F0\n", " 344A "), &"03f0".to_string(), &"344a".to_string()));
    assert!(!device_matches(&ids("03f0", "344b"), &"03f0".to_string(), &"344a".to_string()));
    assert!(!device_matches(&None, &"03f0".to_string(), &"344a".to_string()));
    assert!(is_led_named(&"input4::scrolllock".to_string(), &"scrolllock".to_string()));
    assert!(!is_led_named(&"input4:scrolllock".to_string(), &"scrolllock".to_string()));
}

#[test]
fn selector_picks_first_matching_entry() {
    let sel = LedSelector { vendor: "03f0".to_string(), product: "344a".to_string(), name: "scrolllock".to_string() };
    let entry = |name: &str, i: Option<UsbIds>| LedEntry {
        name: name.to_string(),
        path: format!("/sys/class/leds/{name}"),
        ids: i,
    };
    let entries = vec![
        entry("input3::scrolllock", ids("1111", "2222")),
        entry("input4::numlock", ids("03f0", "344a")),
        entry("input5::scrolllock", None),
        entry("input6::scrolllock", ids("03F0", "344A\n")),
        entry("input7::scrolllock", ids("03f0", "344a")),
    ];
    assert_eq!(resolve_by_selector(&sel, &entries).unwrap(), "/sys/class/leds/input6::scrolllock");
    match resolve_by_selector(&sel, &entries[..3].iter().map(|e| entry(&e.name, None)).collect()) {
        Err(Error::LedSelectorNotFound { vendor, product, name }) => {
            assert_eq!((vendor.as_str(), product.as_str(), name.as_str()), ("03f0", "344a", "scrolllock"))
        }
        other => panic!("unexpected {other:?}"),
    }
}

fn ancestor(name: &str, vendor: bool, product: bool, name_file: bool) -> ioblink::led::Ancestor {
    ioblink::led::Ancestor {
        name: name.to_string(),
        has_id_vendor: vendor,
        has_id_product: product,
        has_name_file: name_file,
    }
}

#[test]
fn usb_level_is_nearest_with_both_ids() {
    let levels = vec![
        ancestor("input4", false, false, true),
        ancestor("0003:03F0:344A.0001", false, false, false),
        ancestor("1-2:1.0", false, true, false),
        ancestor("1-2", true, true, false),
        ancestor("usb1", true, true, false),
    ];
    assert_eq!(ioblink::led::usb_device_level(&levels), Some(3));
    assert_eq!(ioblink::led::usb_device_level(&levels[..3].iter().map(|a| ancestor(&a.name, a.has_id_vendor, a.has_id_product, a.has_name_file)).collect()), None);
    assert_eq!(ioblink::discover::input_device_level(&levels), Some(0));
    let no_name = vec![ancestor("input4", false, false, false), ancestor("input", false, false, true)];
    assert_eq!(ioblink::discover::input_device_level(&no_name), Some(1));
    assert_eq!(ioblink::discover::input_device_level(&vec![ancestor("", false, false, true)]), None);
}
