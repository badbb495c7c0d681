//! The configuration: which LED, which devices, which counters, what timing.
use crate::error::Error;
use crate::text::{copy_names, views};
use vstd::prelude::*;

verus! {

/// Which sector counters count as activity.
#[derive(Clone, Copy, Debug, PartialEq, Eq, Structural)]
pub enum CountMode {
    Read,
    Write,
    Both,
}

impl Default for CountMode {
    fn default() -> (r: Self)
        ensures
            r == CountMode::Both,
    {
        CountMode::Both
    }
}

/// Picks the LED by the USB device behind it and the LED's name.
#[derive(Clone, Debug)]
pub struct LedSelector {
    /// USB idVendor, hex, no 0x prefix (e.g. "03f0").
    pub vendor: String,
    /// USB idProduct, hex, no 0x prefix (e.g. "344a").
    pub product: String,
    /// LED name suffix as it appears after `::` in /sys/class/leds
    /// (e.g. "scrolllock", "numlock", "capslock").
    pub name: String,
}

impl LedSelector {
    /// A copy of the selector.
    pub fn copy(&self) -> (r: LedSelector)
        ensures
            r == *self,
    {
        LedSelector {
            vendor: self.vendor.clone(),
            product: self.product.clone(),
            name: self.name.clone(),
        }
    }
}

/// Where the LED is.
#[derive(Clone, Debug)]
pub struct LedConfig {
    /// Exact sysfs LED directory, e.g. /sys/class/leds/input4::scrolllock.
    /// Takes precedence over `selector` when set. Not recommended as the
    /// sole configuration: the `inputN` numbering is not stable across
    /// reboots or USB re-enumeration.
    pub path: Option<String>,
    /// Resolve the LED dynamically by walking /sys/class/leds and matching
    /// the backing USB device's vendor/product ID. Survives renumbering.
    pub selector: Option<LedSelector>,
}

impl Default for LedConfig {
    fn default() -> (r: Self)
        ensures
            r.path is None,
            r.selector is None,
    {
        LedConfig { path: None, selector: None }
    }
}

/// The default poll period, in milliseconds.
pub fn default_poll_interval_ms() -> (r: u64)
    ensures
        r == 50,
{
    50
}

/// The default minimum time the LED shows activity, in milliseconds.
pub fn default_min_on_time_ms() -> (r: u64)
    ensures
        r == 30,
{
    30
}

/// How often to poll, and how long a burst stays visible.
#[derive(Clone, Debug)]
pub struct TimingConfig {
    pub poll_interval_ms: u64,
    pub min_on_time_ms: u64,
}

impl Default for TimingConfig {
    fn default() -> (r: Self)
        ensures
            r.poll_interval_ms == 50,
            r.min_on_time_ms == 30,
    {
        TimingConfig {
            poll_interval_ms: default_poll_interval_ms(),
            min_on_time_ms: default_min_on_time_ms(),
        }
    }
}

/// What to watch.
#[derive(Clone, Debug)]
pub struct WatchConfig {
    /// Explicit block devices to watch, e.g. ["nvme0n1"]. Empty means
    /// autodetect every nvme*n* whole disk present at startup.
    pub devices: Vec<String>,
    pub count: CountMode,
    /// false (default): LED off at idle, on during activity (classic HDD
    /// LED behavior). true: LED on at idle, off during activity.
    pub invert: bool,
}

impl Default for WatchConfig {
    fn default() -> (r: Self)
        ensures
            r.devices@.len() == 0,
            r.count == CountMode::Both,
            r.invert == false,
    {
        WatchConfig { devices: Vec::new(), count: CountMode::Both, invert: false }
    }
}

/// The whole configuration.
#[derive(Clone, Debug)]
pub struct Config {
    pub led: LedConfig,
    pub watch: WatchConfig,
    pub timing: TimingConfig,
}

impl Default for Config {
    fn default() -> (r: Self)
        ensures
            r.led.path is None,
            r.led.selector is None,
            r.watch.devices@.len() == 0,
            r.watch.count == CountMode::Both,
            r.watch.invert == false,
            r.timing.poll_interval_ms == 50,
            r.timing.min_on_time_ms == 30,
    {
        Config {
            led: LedConfig::default(),
            watch: WatchConfig::default(),
            timing: TimingConfig::default(),
        }
    }
}

/// How the configuration names the LED.
#[derive(Debug)]
pub enum LedSource {
    /// An exact sysfs directory.
    Path(String),
    /// A selector to resolve against /sys/class/leds.
    Selector(LedSelector),
}

/// Where to find the LED: the exact path when one is set, else the
/// selector; a configuration with neither is invalid.
pub fn resolve_led_path(config: &Config) -> (r: Result<LedSource, Error>)
    ensures
        match config.led.path {
            Some(p) => r matches Ok(LedSource::Path(q)) && q@ == p@,
            None => match config.led.selector {
                Some(s) => r matches Ok(LedSource::Selector(t)) && t == s,
                None => r matches Err(Error::Config { path, source }) && path@ == "<config>"@
                    && source@ == "config.led must set either `path` or `selector`"@,
            },
        },
{
    if let Some(path) = &config.led.path {
        return Ok(LedSource::Path(path.clone()));
    }
    if let Some(selector) = &config.led.selector {
        return Ok(LedSource::Selector(selector.copy()));
    }
    Err(
        Error::Config {
            path: "<config>".to_owned(),
            source: "config.led must set either `path` or `selector`".to_owned(),
        },
    )
}

/// Whether the devices to watch have to be autodetected (none configured).
pub fn needs_autodetect(config: &Config) -> (r: bool)
    ensures
        r == (config.watch.devices@.len() == 0),
{
    config.watch.devices.len() == 0
}

/// The devices to watch: the configured ones when there are any, else the
/// autodetected ones (`detected`, which is not looked at otherwise); none
/// at all is an error.
pub fn resolve_devices(config: &Config, detected: Vec<String>) -> (r: Result<Vec<String>, Error>)
    ensures
        config.watch.devices@.len() > 0 ==> (r matches Ok(v) && views(v@) == views(
            config.watch.devices@,
        )),
        config.watch.devices@.len() == 0 && detected@.len() > 0 ==> (r matches Ok(v) && views(
            v@,
        ) == views(detected@)),
        config.watch.devices@.len() == 0 && detected@.len() == 0 ==> (r matches Err(
            Error::NoBlockDevicesFound { configured },
        ) && configured@.len() == 0),
{
    if config.watch.devices.len() > 0 {
        return Ok(copy_names(&config.watch.devices));
    }
    if detected.len() == 0 {
        return Err(Error::NoBlockDevicesFound { configured: Vec::new() });
    }
    Ok(detected)
}

} // verus!
