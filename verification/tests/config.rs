use ioblink::config::{
    default_min_on_time_ms, default_poll_interval_ms, needs_autodetect, resolve_devices,
    resolve_led_path, Config, CountMode, LedSelector, LedSource, TimingConfig,
};
use ioblink::error::Error;

fn selector() -> LedSelector {
    LedSelector { vendor: "03f0".to_string(), product: "344a".to_string(), name: "scrolllock".to_string() }
}

#[test]
fn defaults_match_documentation() {
    assert_eq!(default_poll_interval_ms(), 50);
    assert_eq!(default_min_on_time_ms(), 30);
    let t = TimingConfig::default();
    assert_eq!((t.poll_interval_ms, t.min_on_time_ms), (50, 30));
    let c = Config::default();
    assert!(c.led.path.is_none() && c.led.selector.is_none());
    assert!(c.watch.devices.is_empty());
    assert_eq!(c.watch.count, CountMode::Both);
    assert!(!c.watch.invert);
    assert_eq!(CountMode::default(), CountMode::Both);
}

#[test]
fn path_takes_precedence_over_selector() {
    let mut c = Config::default();
    c.led.path = Some("/sys/class/leds/input4::scrolllock".to_string());
    c.led.selector = Some(selector());
    match resolve_led_path(&c) {
        Ok(LedSource::Path(p)) => assert_eq!(p, "/sys/class/leds/input4::scrolllock"),
        other => panic!("unexpected {other:?}"),
    }
}

#[test]
fn selector_used_without_path() {
    let mut c = Config::default();
    c.led.selector = Some(selector());
    match resolve_led_path(&c) {
        Ok(LedSource::Selector(s)) => {
            assert_eq!((s.vendor.as_str(), s.product.as_str(), s.name.as_str()), ("03f0", "344a", "scrolllock"))
        }
        other => panic!("unexpected {other:?}"),
    }
}

#[test]
fn neither_path_nor_selector_is_a_config_error() {
    match resolve_led_path(&Config::default()) {
        Err(Error::Config { path, source }) => {
            assert_eq!(path, "<config>");
            assert_eq!(source, "config.led must set either `path` or `selector`");
        }
        other => panic!("unexpected {other:?}"),
    }
}

#[test]
fn configured_devices_win_over_autodetection() {
    let mut c = Config::default();
    c.watch.devices = vec!["sda".to_string()];
    assert!(!needs_autodetect(&c));
    let got = resolve_devices(&c, vec!["nvme0n1".to_string()]).unwrap();
    assert_eq!(got, vec!["sda"]);
}

#[test]
fn autodetected_devices_used_when_none_configured() {
    let c = Config::default();
    assert!(needs_autodetect(&c));
    let got = resolve_devices(&c, vec!["nvme0n1".to_string()]).unwrap();
    assert_eq!(got, vec!["nvme0n1"]);
}

#[test]
fn no_devices_at_all_is_an_error() {
    match resolve_devices(&Config::default(), Vec::new()) {
        Err(Error::NoBlockDevicesFound { configured }) => assert!(configured.is_empty()),
        other => panic!("unexpected {other:?}"),
    }
}
