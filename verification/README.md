# ioblink

Blink a keyboard LED in response to block device (NVMe/SATA) read and write
activity. The decisions are a Verus-verified library; the program around it
does the I/O.

## Layout

- `src/` — the verified library (`ioblink`):
  - `text.rs`: white space, splitting, trimming, decimal numbers, the order
    of names, path joining.
  - `diskstats.rs`: parsing `/proc/diskstats`, the NVMe whole-disk test and
    the sorted selection of devices to watch.
  - `config.rs`: the configuration, its defaults, where the LED is and which
    devices to watch.
  - `error.rs`: the errors.
  - `led.rs`: the active trigger of a sysfs `trigger` file, LED selection by
    USB ids, and the sysfs protocols to acquire, set (with read-back
    verification), restore and re-detach an LED.
  - `monitor.rs`: the poll loop as a state machine (activity, minimum
    on-time, inversion, unplug and replug, resync, shutdown).
  - `startup.rs`: acquisition at startup with bounded retries.
  - `discover.rs`: the interactive discovery session and its recommendation.
- `app/` — the program: command line, signals, configuration file, sysfs and
  `/proc` access, the terminal, and the loops that perform the library's
  actions.
- `tests/` — tests of the library on concrete inputs.
