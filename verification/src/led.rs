//! The sysfs LED: finding it by selector, reading its trigger, and the small
//! I/O protocols by which it is acquired, set, restored and re-detached.
//!
//! Each operation is a `LedTask`: the task names the sysfs request it
//! needs next (`request`), and `resume` takes the reply and gives the next
//! step. The caller performs the requests; every decision is made here.
use crate::config::LedSelector;
use crate::error::{Error, ErrorView};
use crate::text::{
    ascii_lower, chars_of, eq_ignore_ascii_case, has_suffix, join_path, path_join, range_ends_with,
    range_texts, ranges_eq_ignore_ascii_case, ranges_within, trim, trim_range, word_ranges, words,
};
use vstd::prelude::*;
use vstd::string::*;

verus! {

broadcast use vstd::string::group_string_axioms;

/// The trigger name that means "no trigger".
pub open spec fn none_trigger() -> Seq<char> {
    seq!['n', 'o', 'n', 'e']
}

/// A word of the trigger file that marks the active trigger: `[name]`.
pub open spec fn bracketed(w: Seq<char>) -> bool {
    w.len() >= 2 && w[0] == '[' && w.last() == ']'
}

/// The name inside the first bracketed word.
pub open spec fn first_bracketed(ws: Seq<Seq<char>>) -> Option<Seq<char>>
    decreases ws.len(),
{
    if ws.len() == 0 {
        None
    } else if bracketed(ws[0]) {
        Some(ws[0].subrange(1, ws[0].len() - 1))
    } else {
        first_bracketed(ws.drop_first())
    }
}

/// The active trigger that a sysfs `trigger` file names: the first word in
/// brackets, without them; `none` where no word is bracketed.
pub open spec fn active_trigger(content: Seq<char>) -> Seq<char> {
    match first_bracketed(words(content)) {
        Some(t) => t,
        None => none_trigger(),
    }
}

/// Reads the active trigger out of the text of a sysfs `trigger` file,
/// e.g. `none kbd-scrolllock [input4-scrolllock]` gives `input4-scrolllock`.
pub fn parse_active_trigger(content: &str) -> (r: String)
    ensures
        r@ == active_trigger(content@),
{
    let chars = chars_of(content);
    let n = chars.len();
    let ws = word_ranges(&chars, 0, n);
    let ghost wt = words(content@);
    assert(chars@.subrange(0, n as int) == content@);
    let mut i: usize = 0;
    assert(wt.skip(0) == wt);
    while i < ws.len()
        invariant
            i <= ws.len(),
            chars@ == content@,
            n == chars.len(),
            ranges_within(ws@, 0, n as int),
            range_texts(chars@, ws@) == wt,
            wt == words(content@),
            first_bracketed(wt) == first_bracketed(wt.skip(i as int)),
        decreases ws.len() - i,
    {
        let (a, b) = ws[i];
        assert(ws@[i as int] == (a, b));
        let ghost w = chars@.subrange(a as int, b as int);
        assert(wt[i as int] == w);
        assert(wt.skip(i as int)[0] == w);
        if b - a >= 2 && chars[a] == '[' && chars[b - 1] == ']' {
            assert(w.subrange(1, w.len() - 1) == chars@.subrange(a + 1, b - 1));
            assert(bracketed(w));
            return content.substring_char(a + 1, b - 1).to_owned();
        }
        assert(wt.skip(i as int).drop_first() == wt.skip(i + 1));
        i = i + 1;
    }
    proof {
        reveal_strlit("none");
        assert(wt.skip(ws.len() as int).len() == 0);
    }
    "none".to_owned()
}

/// Whether a /sys/class/leds entry is the LED `name` of some device: its
/// name ends with `::name`.
pub open spec fn led_name_matches(entry: Seq<char>, name: Seq<char>) -> bool {
    has_suffix(entry, seq![':', ':'] + name)
}

/// The text of the `idVendor` and `idProduct` files of the first ancestor of
/// an LED's sysfs directory that has both (the USB device level).
#[derive(Debug)]
pub struct UsbIds {
    pub vendor: String,
    pub product: String,
}

/// Whether the ids read from sysfs are `vendor` and `product`: white space
/// around the file contents is ignored, and so is ASCII case.
pub open spec fn ids_match(ids: UsbIds, vendor: Seq<char>, product: Seq<char>) -> bool {
    eq_ignore_ascii_case(trim(ids.vendor@), vendor) && eq_ignore_ascii_case(
        trim(ids.product@),
        product,
    )
}

/// Whether the device behind an LED is the selected one; an LED with no USB
/// device level above it is not.
pub open spec fn device_matches_spec(ids: Option<UsbIds>, vendor: Seq<char>, product: Seq<char>) -> bool {
    match ids {
        Some(i) => ids_match(i, vendor, product),
        None => false,
    }
}

fn text_matches(text: &String, want: &String) -> (r: bool)
    ensures
        r == eq_ignore_ascii_case(trim(text@), want@),
{
    let t = chars_of(text.as_str());
    let w = chars_of(want.as_str());
    let (a, b) = trim_range(&t, 0, t.len());
    assert(t@.subrange(0, t.len() as int) == t@);
    assert(w@.subrange(0, w.len() as int) == w@);
    ranges_eq_ignore_ascii_case(&t, a, b, &w, 0, w.len())
}

/// Whether the LED whose USB ids (if any) are `ids` belongs to the device
/// `vendor`:`product`.
pub fn device_matches(ids: &Option<UsbIds>, vendor: &String, product: &String) -> (r: bool)
    ensures
        r == device_matches_spec(*ids, vendor@, product@),
{
    match ids {
        Some(i) => text_matches(&i.vendor, vendor) && text_matches(&i.product, product),
        None => false,
    }
}

impl UsbIds {
    /// The ids with the white space of the files trimmed.
    pub fn trimmed(&self) -> (r: UsbIds)
        ensures
            r.vendor@ == trim(self.vendor@),
            r.product@ == trim(self.product@),
    {
        UsbIds { vendor: trimmed_text(&self.vendor), product: trimmed_text(&self.product) }
    }
}

/// `s` without white space at either end.
pub fn trimmed_text(s: &String) -> (r: String)
    ensures
        r@ == trim(s@),
{
    let t = chars_of(s.as_str());
    let (a, b) = trim_range(&t, 0, t.len());
    assert(t@.subrange(0, t.len() as int) == t@);
    s.as_str().substring_char(a, b).to_owned()
}

/// Whether the entry `entry` of /sys/class/leds is the LED `name`.
pub fn is_led_named(entry: &String, name: &String) -> (r: bool)
    ensures
        r == led_name_matches(entry@, name@),
{
    proof {
        reveal_strlit("::");
    }
    let suffix = "::".to_owned().concat(name.as_str());
    let e = chars_of(entry.as_str());
    let s = chars_of(suffix.as_str());
    assert(suffix@ == seq![':', ':'] + name@);
    assert(e@.subrange(0, e.len() as int) == e@);
    range_ends_with(&e, 0, e.len(), &s)
}

/// A directory above an LED's canonical sysfs path, as the caller found it.
#[derive(Debug)]
pub struct Ancestor {
    /// The directory's own name (empty for the root).
    pub name: String,
    /// Whether it has an `idVendor` file.
    pub has_id_vendor: bool,
    /// Whether it has an `idProduct` file.
    pub has_id_product: bool,
    /// Whether it has a `name` file.
    pub has_name_file: bool,
}

/// The USB device level: a directory with both `idVendor` and `idProduct`
/// (the HID and input levels below it have neither).
pub open spec fn is_usb_level(a: Ancestor) -> bool {
    a.has_id_vendor && a.has_id_product
}

/// Which of the ancestors of an LED (nearest first) is its USB device: the
/// nearest that has both id files, if any.
pub fn usb_device_level(ancestors: &Vec<Ancestor>) -> (r: Option<usize>)
    ensures
        match r {
            Some(i) => i < ancestors@.len() && is_usb_level(ancestors@[i as int]) && forall|j: int|
                0 <= j < i ==> !is_usb_level(#[trigger] ancestors@[j]),
            None => forall|j: int| 0 <= j < ancestors@.len() ==> !is_usb_level(#[trigger] ancestors@[j]),
        },
{
    let mut i: usize = 0;
    while i < ancestors.len()
        invariant
            i <= ancestors@.len(),
            forall|j: int| 0 <= j < i ==> !is_usb_level(#[trigger] ancestors@[j]),
        decreases ancestors.len() - i,
    {
        if ancestors[i].has_id_vendor && ancestors[i].has_id_product {
            return Some(i);
        }
        i = i + 1;
    }
    None
}

/// An entry of /sys/class/leds as the caller found it.
#[derive(Debug)]
pub struct LedEntry {
    /// The entry's file name, e.g. `input4::scrolllock`.
    pub name: String,
    /// The entry's path, e.g. `/sys/class/leds/input4::scrolllock`.
    pub path: String,
    /// The USB ids above the entry's canonical path; `None` where there is
    /// no USB device level or the path could not be canonicalized.
    pub ids: Option<UsbIds>,
}

/// Whether `e` is the LED that `s` selects.
pub open spec fn selects(s: LedSelector, e: LedEntry) -> bool {
    led_name_matches(e.name@, s.name@) && device_matches_spec(e.ids, s.vendor@, s.product@)
}

/// Resolves an LED's sysfs directory among the entries of /sys/class/leds,
/// in the order they were listed: the path of the first entry whose name
/// ends with `::name` and whose backing USB device has the selector's vendor
/// and product ids. Matching by vendor/product (rather than trusting a
/// fixed `inputN::name` path) survives USB re-enumeration.
pub fn resolve_by_selector(selector: &LedSelector, entries: &Vec<LedEntry>) -> (r: Result<
    String,
    Error,
>)
    ensures
        match r {
            Ok(p) => exists|i: int|
                0 <= i < entries@.len() && selects(*selector, #[trigger] entries@[i]) && p@
                    == entries@[i].path@ && forall|j: int|
                    0 <= j < i ==> !selects(*selector, #[trigger] entries@[j]),
            Err(e) => (forall|i: int|
                0 <= i < entries@.len() ==> !selects(*selector, #[trigger] entries@[i])) && e@
                == (ErrorView::LedSelectorNotFound {
                vendor: selector.vendor@,
                product: selector.product@,
                name: selector.name@,
            }),
        },
{
    let mut i: usize = 0;
    while i < entries.len()
        invariant
            i <= entries.len(),
            forall|j: int| 0 <= j < i ==> !selects(*selector, #[trigger] entries@[j]),
        decreases entries.len() - i,
    {
        let e = &entries[i];
        if is_led_named(&e.name, &selector.name) && device_matches(
            &e.ids,
            &selector.vendor,
            &selector.product,
        ) {
            assert(selects(*selector, entries@[i as int]));
            return Ok(e.path.clone());
        }
        i = i + 1;
    }
    Err(
        Error::LedSelectorNotFound {
            vendor: selector.vendor.clone(),
            product: selector.product.clone(),
            name: selector.name.clone(),
        },
    )
}


/// The path of the LED's `brightness` attribute.
pub open spec fn brightness_path(dir: Seq<char>) -> Seq<char> {
    path_join(dir, "brightness"@)
}

/// The path of the LED's `trigger` attribute.
pub open spec fn trigger_path(dir: Seq<char>) -> Seq<char> {
    path_join(dir, "trigger"@)
}

/// What is written to `brightness` to turn the LED on or off.
pub open spec fn brightness_value(on: bool) -> Seq<char> {
    if on {
        "1"@
    } else {
        "0"@
    }
}

/// An LED that this process drives: its sysfs directory, and the kernel
/// trigger that drove it before, to be restored on shutdown.
#[derive(Debug)]
pub struct Led {
    dir: String,
    original_trigger: String,
}

pub struct LedView {
    pub dir: Seq<char>,
    pub original_trigger: Seq<char>,
}

impl View for Led {
    type V = LedView;

    closed spec fn view(&self) -> LedView {
        LedView { dir: self.dir@, original_trigger: self.original_trigger@ }
    }
}

/// A request to the sysfs file system.
#[derive(Debug)]
pub enum SysfsRequest {
    /// Whether the file `path` exists.
    Exists { path: String },
    /// The whole text of the file `path`.
    Read { path: String },
    /// Replace the contents of `path` with `value`.
    Write { path: String, value: String },
}

pub enum SysfsRequestView {
    Exists { path: Seq<char> },
    Read { path: Seq<char> },
    Write { path: Seq<char>, value: Seq<char> },
}

impl View for SysfsRequest {
    type V = SysfsRequestView;

    open spec fn view(&self) -> SysfsRequestView {
        match self {
            SysfsRequest::Exists { path } => SysfsRequestView::Exists { path: path@ },
            SysfsRequest::Read { path } => SysfsRequestView::Read { path: path@ },
            SysfsRequest::Write { path, value } => SysfsRequestView::Write {
                path: path@,
                value: value@,
            },
        }
    }
}

/// The outcome of a `SysfsRequest`; a failure carries the text of the error.
#[derive(Debug)]
pub enum SysfsReply {
    Exists(bool),
    Read(Result<String, String>),
    Written(Result<(), String>),
}

pub enum SysfsReplyView {
    Exists(bool),
    Read(Result<Seq<char>, Seq<char>>),
    Written(Result<(), Seq<char>>),
}

impl View for SysfsReply {
    type V = SysfsReplyView;

    open spec fn view(&self) -> SysfsReplyView {
        match self {
            SysfsReply::Exists(b) => SysfsReplyView::Exists(*b),
            SysfsReply::Read(Ok(t)) => SysfsReplyView::Read(Ok(t@)),
            SysfsReply::Read(Err(m)) => SysfsReplyView::Read(Err(m@)),
            SysfsReply::Written(Ok(())) => SysfsReplyView::Written(Ok(())),
            SysfsReply::Written(Err(m)) => SysfsReplyView::Written(Err(m@)),
        }
    }
}

/// An LED operation in progress, waiting for the reply to its request.
#[derive(Debug)]
pub enum LedTask {
    /// Acquiring: does `brightness` exist?
    AcquireCheck { dir: String },
    /// Acquiring: what trigger drives the LED now?
    AcquireRead { dir: String },
    /// Acquiring: detaching the trigger, having saved `original`.
    AcquireDetach { dir: String, original: String },
    /// Acquiring: reading the trigger back to see that the detach took effect.
    AcquireVerify { dir: String, original: String },
    /// Setting the brightness.
    SetWrite { dir: String, on: bool },
    /// Reading the brightness back to see that the write took effect.
    SetVerify { dir: String, on: bool },
    /// Writing the original trigger back.
    Restore { dir: String, original: String },
    /// Reading the trigger back to see that the restore took effect.
    RestoreVerify { dir: String, original: String },
    /// Re-detaching: what trigger drives the LED now?
    ReassertRead { dir: String },
    /// Re-detaching: writing `none`.
    ReassertWrite { dir: String },
    /// Re-detaching: reading the trigger back to see that it took effect.
    ReassertVerify { dir: String },
}

pub enum LedTaskView {
    AcquireCheck { dir: Seq<char> },
    AcquireRead { dir: Seq<char> },
    AcquireDetach { dir: Seq<char>, original: Seq<char> },
    AcquireVerify { dir: Seq<char>, original: Seq<char> },
    SetWrite { dir: Seq<char>, on: bool },
    SetVerify { dir: Seq<char>, on: bool },
    Restore { dir: Seq<char>, original: Seq<char> },
    RestoreVerify { dir: Seq<char>, original: Seq<char> },
    ReassertRead { dir: Seq<char> },
    ReassertWrite { dir: Seq<char> },
    ReassertVerify { dir: Seq<char> },
}

impl View for LedTask {
    type V = LedTaskView;

    open spec fn view(&self) -> LedTaskView {
        match self {
            LedTask::AcquireCheck { dir } => LedTaskView::AcquireCheck { dir: dir@ },
            LedTask::AcquireRead { dir } => LedTaskView::AcquireRead { dir: dir@ },
            LedTask::AcquireDetach { dir, original } => LedTaskView::AcquireDetach {
                dir: dir@,
                original: original@,
            },
            LedTask::SetWrite { dir, on } => LedTaskView::SetWrite { dir: dir@, on: *on },
            LedTask::SetVerify { dir, on } => LedTaskView::SetVerify { dir: dir@, on: *on },
            LedTask::Restore { dir, original } => LedTaskView::Restore {
                dir: dir@,
                original: original@,
            },
            LedTask::ReassertRead { dir } => LedTaskView::ReassertRead { dir: dir@ },
            LedTask::ReassertWrite { dir } => LedTaskView::ReassertWrite { dir: dir@ },
            LedTask::AcquireVerify { dir, original } => LedTaskView::AcquireVerify {
                dir: dir@,
                original: original@,
            },
            LedTask::RestoreVerify { dir, original } => LedTaskView::RestoreVerify {
                dir: dir@,
                original: original@,
            },
            LedTask::ReassertVerify { dir } => LedTaskView::ReassertVerify { dir: dir@ },
        }
    }
}

/// Where an LED operation stands after a step.
#[derive(Debug)]
pub enum LedStep {
    /// Waiting for the reply to the task's request.
    Pending(LedTask),
    /// Acquisition succeeded.
    Acquired(Led),
    /// The operation succeeded.
    Done,
    /// The operation failed.
    Failed(Error),
}

pub enum LedStepView {
    Pending(LedTaskView),
    Acquired(LedView),
    Done,
    Failed(ErrorView),
}

impl View for LedStep {
    type V = LedStepView;

    open spec fn view(&self) -> LedStepView {
        match self {
            LedStep::Pending(t) => LedStepView::Pending(t@),
            LedStep::Acquired(l) => LedStepView::Acquired(l@),
            LedStep::Done => LedStepView::Done,
            LedStep::Failed(e) => LedStepView::Failed(e@),
        }
    }
}

/// The request that a task waits on.
pub open spec fn task_request(t: LedTaskView) -> SysfsRequestView {
    match t {
        LedTaskView::AcquireCheck { dir } => SysfsRequestView::Exists { path: brightness_path(dir) },
        LedTaskView::AcquireRead { dir } => SysfsRequestView::Read { path: trigger_path(dir) },
        LedTaskView::AcquireDetach { dir, original } => SysfsRequestView::Write {
            path: trigger_path(dir),
            value: none_trigger(),
        },
        LedTaskView::SetWrite { dir, on } => SysfsRequestView::Write {
            path: brightness_path(dir),
            value: brightness_value(on),
        },
        LedTaskView::SetVerify { dir, on } => SysfsRequestView::Read { path: brightness_path(dir) },
        LedTaskView::Restore { dir, original } => SysfsRequestView::Write {
            path: trigger_path(dir),
            value: original,
        },
        LedTaskView::ReassertRead { dir } => SysfsRequestView::Read { path: trigger_path(dir) },
        LedTaskView::ReassertWrite { dir } => SysfsRequestView::Write {
            path: trigger_path(dir),
            value: none_trigger(),
        },
        LedTaskView::AcquireVerify { dir, .. } => SysfsRequestView::Read { path: trigger_path(dir) },
        LedTaskView::RestoreVerify { dir, .. } => SysfsRequestView::Read { path: trigger_path(dir) },
        LedTaskView::ReassertVerify { dir } => SysfsRequestView::Read { path: trigger_path(dir) },
    }
}

/// The result of reading back a trigger written with `wrote`: success
/// (`ok`) where the active trigger is now `wrote`, else the mismatch.
pub open spec fn trigger_checked(
    dir: Seq<char>,
    wrote: Seq<char>,
    text: Seq<char>,
    ok: LedStepView,
) -> LedStepView {
    if active_trigger(text) == wrote {
        ok
    } else {
        LedStepView::Failed(
            ErrorView::WriteVerifyMismatch {
                path: trigger_path(dir),
                wrote,
                read_back: active_trigger(text),
            },
        )
    }
}

/// The step that `reply` leads the task `t` to. A reply of the wrong kind
/// for the task's request leaves the task waiting.
pub open spec fn task_resume(t: LedTaskView, reply: SysfsReplyView) -> LedStepView {
    match (t, reply) {
        (LedTaskView::AcquireCheck { dir }, SysfsReplyView::Exists(exists)) => if exists {
            LedStepView::Pending(LedTaskView::AcquireRead { dir })
        } else {
            LedStepView::Failed(ErrorView::LedNodeMissing(dir))
        },
        (LedTaskView::AcquireRead { dir }, SysfsReplyView::Read(res)) => match res {
            Ok(text) => LedStepView::Pending(
                LedTaskView::AcquireDetach { dir, original: active_trigger(text) },
            ),
            Err(m) => LedStepView::Failed(ErrorView::Io { path: trigger_path(dir), source: m }),
        },
        (LedTaskView::AcquireDetach { dir, original }, SysfsReplyView::Written(res)) => match res {
            Ok(_) => LedStepView::Pending(LedTaskView::AcquireVerify { dir, original }),
            Err(m) => LedStepView::Failed(
                ErrorView::LedNodeNotWritable { path: trigger_path(dir), source: m },
            ),
        },
        (LedTaskView::SetWrite { dir, on }, SysfsReplyView::Written(res)) => match res {
            Ok(_) => LedStepView::Pending(LedTaskView::SetVerify { dir, on }),
            Err(m) => LedStepView::Failed(
                ErrorView::LedNodeNotWritable { path: brightness_path(dir), source: m },
            ),
        },
        (LedTaskView::SetVerify { dir, on }, SysfsReplyView::Read(res)) => match res {
            Ok(text) => if trim(text) == brightness_value(on) {
                LedStepView::Done
            } else {
                LedStepView::Failed(
                    ErrorView::WriteVerifyMismatch {
                        path: brightness_path(dir),
                        wrote: brightness_value(on),
                        read_back: trim(text),
                    },
                )
            },
            Err(m) => LedStepView::Failed(ErrorView::Io { path: brightness_path(dir), source: m }),
        },
        (LedTaskView::Restore { dir, original }, SysfsReplyView::Written(res)) => match res {
            Ok(_) => LedStepView::Pending(LedTaskView::RestoreVerify { dir, original }),
            Err(m) => LedStepView::Failed(
                ErrorView::LedNodeNotWritable { path: trigger_path(dir), source: m },
            ),
        },
        (LedTaskView::ReassertRead { dir }, SysfsReplyView::Read(res)) => match res {
            Ok(text) => if active_trigger(text) != none_trigger() {
                LedStepView::Pending(LedTaskView::ReassertWrite { dir })
            } else {
                LedStepView::Done
            },
            Err(m) => LedStepView::Failed(ErrorView::Io { path: trigger_path(dir), source: m }),
        },
        (LedTaskView::ReassertWrite { dir }, SysfsReplyView::Written(res)) => match res {
            Ok(_) => LedStepView::Pending(LedTaskView::ReassertVerify { dir }),
            Err(m) => LedStepView::Failed(
                ErrorView::LedNodeNotWritable { path: trigger_path(dir), source: m },
            ),
        },
        (LedTaskView::AcquireVerify { dir, original }, SysfsReplyView::Read(res)) => match res {
            Ok(text) => trigger_checked(
                dir,
                none_trigger(),
                text,
                LedStepView::Acquired(LedView { dir, original_trigger: original }),
            ),
            Err(m) => LedStepView::Failed(ErrorView::Io { path: trigger_path(dir), source: m }),
        },
        (LedTaskView::RestoreVerify { dir, original }, SysfsReplyView::Read(res)) => match res {
            Ok(text) => trigger_checked(dir, original, text, LedStepView::Done),
            Err(m) => LedStepView::Failed(ErrorView::Io { path: trigger_path(dir), source: m }),
        },
        (LedTaskView::ReassertVerify { dir }, SysfsReplyView::Read(res)) => match res {
            Ok(text) => trigger_checked(dir, none_trigger(), text, LedStepView::Done),
            Err(m) => LedStepView::Failed(ErrorView::Io { path: trigger_path(dir), source: m }),
        },
        _ => LedStepView::Pending(t),
    }
}

fn brightness_of(dir: &String) -> (r: String)
    ensures
        r@ == brightness_path(dir@),
{
    join_path(dir, "brightness")
}

fn trigger_of(dir: &String) -> (r: String)
    ensures
        r@ == trigger_path(dir@),
{
    join_path(dir, "trigger")
}

fn none_text() -> (r: String)
    ensures
        r@ == none_trigger(),
{
    proof {
        reveal_strlit("none");
    }
    "none".to_owned()
}

fn value_text(on: bool) -> (r: String)
    ensures
        r@ == brightness_value(on),
{
    if on {
        "1".to_owned()
    } else {
        "0".to_owned()
    }
}

impl LedTask {
    /// The sysfs request that the task waits on.
    pub fn request(&self) -> (r: SysfsRequest)
        ensures
            r@ == task_request(self@),
    {
        match self {
            LedTask::AcquireCheck { dir } => SysfsRequest::Exists { path: brightness_of(dir) },
            LedTask::AcquireRead { dir } => SysfsRequest::Read { path: trigger_of(dir) },
            LedTask::AcquireDetach { dir, .. } => SysfsRequest::Write {
                path: trigger_of(dir),
                value: none_text(),
            },
            LedTask::SetWrite { dir, on } => SysfsRequest::Write {
                path: brightness_of(dir),
                value: value_text(*on),
            },
            LedTask::SetVerify { dir, .. } => SysfsRequest::Read { path: brightness_of(dir) },
            LedTask::Restore { dir, original } => SysfsRequest::Write {
                path: trigger_of(dir),
                value: original.clone(),
            },
            LedTask::ReassertRead { dir } => SysfsRequest::Read { path: trigger_of(dir) },
            LedTask::ReassertWrite { dir } => SysfsRequest::Write {
                path: trigger_of(dir),
                value: none_text(),
            },
            LedTask::AcquireVerify { dir, .. } => SysfsRequest::Read { path: trigger_of(dir) },
            LedTask::RestoreVerify { dir, .. } => SysfsRequest::Read { path: trigger_of(dir) },
            LedTask::ReassertVerify { dir } => SysfsRequest::Read { path: trigger_of(dir) },
        }
    }

    /// Takes the reply to the task's request and decides the next step.
    pub fn resume(self, reply: SysfsReply) -> (r: LedStep)
        ensures
            r@ == task_resume(self@, reply@),
    {
        match (self, reply) {
            (LedTask::AcquireCheck { dir }, SysfsReply::Exists(exists)) => {
                if exists {
                    LedStep::Pending(LedTask::AcquireRead { dir })
                } else {
                    LedStep::Failed(Error::LedNodeMissing(dir))
                }
            },
            (LedTask::AcquireRead { dir }, SysfsReply::Read(res)) => match res {
                Ok(text) => {
                    let original = parse_active_trigger(text.as_str());
                    LedStep::Pending(LedTask::AcquireDetach { dir, original })
                },
                Err(m) => LedStep::Failed(Error::Io { path: trigger_of(&dir), source: m }),
            },
            (LedTask::AcquireDetach { dir, original }, SysfsReply::Written(res)) => match res {
                Ok(_) => LedStep::Pending(LedTask::AcquireVerify { dir, original }),
                Err(m) => LedStep::Failed(
                    Error::LedNodeNotWritable { path: trigger_of(&dir), source: m },
                ),
            },
            (LedTask::SetWrite { dir, on }, SysfsReply::Written(res)) => match res {
                Ok(_) => LedStep::Pending(LedTask::SetVerify { dir, on }),
                Err(m) => LedStep::Failed(
                    Error::LedNodeNotWritable { path: brightness_of(&dir), source: m },
                ),
            },
            (LedTask::SetVerify { dir, on }, SysfsReply::Read(res)) => match res {
                Ok(text) => {
                    let read_back = trimmed_text(&text);
                    let wrote = value_text(on);
                    if read_back == wrote {
                        LedStep::Done
                    } else {
                        LedStep::Failed(
                            Error::WriteVerifyMismatch {
                                path: brightness_of(&dir),
                                wrote,
                                read_back,
                            },
                        )
                    }
                },
                Err(m) => LedStep::Failed(Error::Io { path: brightness_of(&dir), source: m }),
            },
            (LedTask::Restore { dir, original }, SysfsReply::Written(res)) => match res {
                Ok(_) => LedStep::Pending(LedTask::RestoreVerify { dir, original }),
                Err(m) => LedStep::Failed(
                    Error::LedNodeNotWritable { path: trigger_of(&dir), source: m },
                ),
            },
            (LedTask::ReassertRead { dir }, SysfsReply::Read(res)) => match res {
                Ok(text) => {
                    let current = parse_active_trigger(text.as_str());
                    if current != none_text() {
                        LedStep::Pending(LedTask::ReassertWrite { dir })
                    } else {
                        LedStep::Done
                    }
                },
                Err(m) => LedStep::Failed(Error::Io { path: trigger_of(&dir), source: m }),
            },
            (LedTask::ReassertWrite { dir }, SysfsReply::Written(res)) => match res {
                Ok(_) => LedStep::Pending(LedTask::ReassertVerify { dir }),
                Err(m) => LedStep::Failed(
                    Error::LedNodeNotWritable { path: trigger_of(&dir), source: m },
                ),
            },
            (LedTask::AcquireVerify { dir, original }, SysfsReply::Read(res)) => match res {
                Ok(text) => {
                    let active = parse_active_trigger(text.as_str());
                    let wrote = none_text();
                    if active == wrote {
                        LedStep::Acquired(Led { dir, original_trigger: original })
                    } else {
                        LedStep::Failed(
                            Error::WriteVerifyMismatch {
                                path: trigger_of(&dir),
                                wrote,
                                read_back: active,
                            },
                        )
                    }
                },
                Err(m) => LedStep::Failed(Error::Io { path: trigger_of(&dir), source: m }),
            },
            (LedTask::RestoreVerify { dir, original }, SysfsReply::Read(res)) => match res {
                Ok(text) => {
                    let active = parse_active_trigger(text.as_str());
                    if active == original {
                        LedStep::Done
                    } else {
                        LedStep::Failed(
                            Error::WriteVerifyMismatch {
                                path: trigger_of(&dir),
                                wrote: original,
                                read_back: active,
                            },
                        )
                    }
                },
                Err(m) => LedStep::Failed(Error::Io { path: trigger_of(&dir), source: m }),
            },
            (LedTask::ReassertVerify { dir }, SysfsReply::Read(res)) => match res {
                Ok(text) => {
                    let active = parse_active_trigger(text.as_str());
                    let wrote = none_text();
                    if active == wrote {
                        LedStep::Done
                    } else {
                        LedStep::Failed(
                            Error::WriteVerifyMismatch {
                                path: trigger_of(&dir),
                                wrote,
                                read_back: active,
                            },
                        )
                    }
                },
                Err(m) => LedStep::Failed(Error::Io { path: trigger_of(&dir), source: m }),
            },
            (t, _) => LedStep::Pending(t),
        }
    }
}

impl Led {
    /// Take control of the LED at `dir`: check that it has a `brightness`
    /// attribute, save the trigger that drives it now, and detach it (write
    /// `none`) so that `brightness` can be driven directly.
    pub fn acquire(dir: String) -> (r: LedStep)
        ensures
            r@ == LedStepView::Pending(LedTaskView::AcquireCheck { dir: dir@ }),
    {
        LedStep::Pending(LedTask::AcquireCheck { dir })
    }

    /// The LED's sysfs directory.
    pub fn path(&self) -> (r: &String)
        ensures
            r@ == self@.dir,
    {
        &self.dir
    }

    /// The trigger that drove the LED before it was acquired.
    pub fn original_trigger(&self) -> (r: &String)
        ensures
            r@ == self@.original_trigger,
    {
        &self.original_trigger
    }

    /// Set the brightness and verify that the write took effect. A silent
    /// no-op write (reports success, value doesn't change) is what happens
    /// when another process holds an exclusive EVIOCGRAB on the backing
    /// input device: it fails with `WriteVerifyMismatch`.
    pub fn set_on(&self, on: bool) -> (r: LedStep)
        ensures
            r@ == LedStepView::Pending(LedTaskView::SetWrite { dir: self@.dir, on }),
    {
        LedStep::Pending(LedTask::SetWrite { dir: self.dir.clone(), on })
    }

    /// Restore the original kernel trigger so the key behaves normally
    /// again.
    pub fn restore(&self) -> (r: LedStep)
        ensures
            r@ == LedStepView::Pending(
                LedTaskView::Restore { dir: self@.dir, original: self@.original_trigger },
            ),
    {
        LedStep::Pending(
            LedTask::Restore { dir: self.dir.clone(), original: self.original_trigger.clone() },
        )
    }

    /// Re-detach the trigger (after a suspend/resume cycle or a replug)
    /// without forgetting the originally saved one: `none` is written only
    /// where another trigger is active.
    pub fn reassert(&self) -> (r: LedStep)
        ensures
            r@ == LedStepView::Pending(LedTaskView::ReassertRead { dir: self@.dir }),
    {
        LedStep::Pending(LedTask::ReassertRead { dir: self.dir.clone() })
    }

    /// A copy of the handle.
    pub fn copy(&self) -> (r: Led)
        ensures
            r@ == self@,
    {
        Led { dir: self.dir.clone(), original_trigger: self.original_trigger.clone() }
    }
}


/// Acquiring checks `brightness`, reads `trigger`, writes `none` to it and
/// reads it back; it fails at the first step that fails, fails with a
/// mismatch where the detach did not take, and otherwise succeeds with the
/// trigger that was active saved as the original.
pub proof fn law_acquire_protocol(
    dir: Seq<char>,
    text: Seq<char>,
    after: Seq<char>,
    read_err: Seq<char>,
    write_err: Seq<char>,
)
    ensures
        task_request(LedTaskView::AcquireCheck { dir }) == (SysfsRequestView::Exists {
            path: brightness_path(dir),
        }),
        task_resume(LedTaskView::AcquireCheck { dir }, SysfsReplyView::Exists(false))
            == LedStepView::Failed(ErrorView::LedNodeMissing(dir)),
        task_resume(LedTaskView::AcquireCheck { dir }, SysfsReplyView::Exists(true))
            == LedStepView::Pending(LedTaskView::AcquireRead { dir }),
        task_request(LedTaskView::AcquireRead { dir }) == (SysfsRequestView::Read {
            path: trigger_path(dir),
        }),
        task_resume(LedTaskView::AcquireRead { dir }, SysfsReplyView::Read(Err(read_err)))
            == LedStepView::Failed(ErrorView::Io { path: trigger_path(dir), source: read_err }),
        task_resume(LedTaskView::AcquireRead { dir }, SysfsReplyView::Read(Ok(text)))
            == LedStepView::Pending(
            LedTaskView::AcquireDetach { dir, original: active_trigger(text) },
        ),
        task_request(LedTaskView::AcquireDetach { dir, original: active_trigger(text) }) == (
        SysfsRequestView::Write { path: trigger_path(dir), value: none_trigger() }),
        task_resume(
            LedTaskView::AcquireDetach { dir, original: active_trigger(text) },
            SysfsReplyView::Written(Err(write_err)),
        ) == LedStepView::Failed(
            ErrorView::LedNodeNotWritable { path: trigger_path(dir), source: write_err },
        ),
        task_resume(
            LedTaskView::AcquireDetach { dir, original: active_trigger(text) },
            SysfsReplyView::Written(Ok(())),
        ) == LedStepView::Pending(
            LedTaskView::AcquireVerify { dir, original: active_trigger(text) },
        ),
        task_request(LedTaskView::AcquireVerify { dir, original: active_trigger(text) }) == (
        SysfsRequestView::Read { path: trigger_path(dir) }),
        task_resume(
            LedTaskView::AcquireVerify { dir, original: active_trigger(text) },
            SysfsReplyView::Read(Ok(after)),
        ) == if active_trigger(after) == none_trigger() {
            LedStepView::Acquired(LedView { dir, original_trigger: active_trigger(text) })
        } else {
            LedStepView::Failed(
                ErrorView::WriteVerifyMismatch {
                    path: trigger_path(dir),
                    wrote: none_trigger(),
                    read_back: active_trigger(after),
                },
            )
        },
{
}

/// What shutdown restores is what was active when the LED was acquired:
/// the LED that acquisition gives back, restored, writes the trigger read
/// at acquisition back to its `trigger` file, and succeeds once reading the
/// file back shows that trigger active.
pub proof fn law_restore_brings_back_original(dir: Seq<char>, text: Seq<char>, after: Seq<char>)
    requires
        active_trigger(after) == none_trigger(),
    ensures
        ({
            let acquired = task_resume(
                LedTaskView::AcquireVerify { dir, original: active_trigger(text) },
                SysfsReplyView::Read(Ok(after)),
            );
            &&& acquired is Acquired
            &&& ({
                let l = acquired->Acquired_0;
                task_request(LedTaskView::Restore { dir: l.dir, original: l.original_trigger }) == (
                SysfsRequestView::Write { path: trigger_path(dir), value: active_trigger(text) })
            })
        }),
        task_resume(
            LedTaskView::Restore { dir, original: active_trigger(text) },
            SysfsReplyView::Written(Ok(())),
        ) == LedStepView::Pending(
            LedTaskView::RestoreVerify { dir, original: active_trigger(text) },
        ),
{
}

/// Every brightness write is read back and verified: setting the LED
/// writes `1` or `0`, reads the file back, and succeeds exactly when the
/// trimmed read-back is what was written; otherwise the mismatch is
/// reported with both values.
pub proof fn law_set_on_verified(dir: Seq<char>, on: bool, text: Seq<char>)
    ensures
        task_request(LedTaskView::SetWrite { dir, on }) == (SysfsRequestView::Write {
            path: brightness_path(dir),
            value: brightness_value(on),
        }),
        task_resume(LedTaskView::SetWrite { dir, on }, SysfsReplyView::Written(Ok(())))
            == LedStepView::Pending(LedTaskView::SetVerify { dir, on }),
        task_request(LedTaskView::SetVerify { dir, on }) == (SysfsRequestView::Read {
            path: brightness_path(dir),
        }),
        (task_resume(LedTaskView::SetVerify { dir, on }, SysfsReplyView::Read(Ok(text)))
            == LedStepView::Done) == (trim(text) == brightness_value(on)),
        trim(text) != brightness_value(on) ==> task_resume(
            LedTaskView::SetVerify { dir, on },
            SysfsReplyView::Read(Ok(text)),
        ) == LedStepView::Failed(
            ErrorView::WriteVerifyMismatch {
                path: brightness_path(dir),
                wrote: brightness_value(on),
                read_back: trim(text),
            },
        ),
{
}

/// Re-detaching writes `none` exactly when another trigger is active, and
/// then reads the trigger back: it succeeds where `none` is active, and
/// fails with a mismatch otherwise.
pub proof fn law_reassert_detaches(dir: Seq<char>, text: Seq<char>, after: Seq<char>)
    ensures
        task_request(LedTaskView::ReassertRead { dir }) == (SysfsRequestView::Read {
            path: trigger_path(dir),
        }),
        (task_resume(LedTaskView::ReassertRead { dir }, SysfsReplyView::Read(Ok(text)))
            == LedStepView::Done) == (active_trigger(text) == none_trigger()),
        active_trigger(text) != none_trigger() ==> task_resume(
            LedTaskView::ReassertRead { dir },
            SysfsReplyView::Read(Ok(text)),
        ) == LedStepView::Pending(LedTaskView::ReassertWrite { dir }),
        task_request(LedTaskView::ReassertWrite { dir }) == (SysfsRequestView::Write {
            path: trigger_path(dir),
            value: none_trigger(),
        }),
        task_resume(LedTaskView::ReassertWrite { dir }, SysfsReplyView::Written(Ok(())))
            == LedStepView::Pending(LedTaskView::ReassertVerify { dir }),
        (task_resume(LedTaskView::ReassertVerify { dir }, SysfsReplyView::Read(Ok(after)))
            == LedStepView::Done) == (active_trigger(after) == none_trigger()),
{
}

/// What reading a file back gives to compare with what was written to it:
/// the trimmed text of `brightness`, the active trigger of `trigger`.
pub open spec fn read_back(t: LedTaskView, text: Seq<char>) -> Seq<char> {
    match t {
        LedTaskView::SetVerify { .. } => trim(text),
        _ => active_trigger(text),
    }
}

/// Every write is read back and verified: after any task's write succeeds,
/// the next request reads the same file; the operation goes on (to success)
/// exactly when what is read back is what was written, and otherwise
/// fails with a `WriteVerifyMismatch` that names the file, the value
/// written and the value read back.
pub proof fn law_every_write_read_back(
    t: LedTaskView,
    path: Seq<char>,
    value: Seq<char>,
    text: Seq<char>,
)
    requires
        task_request(t) == (SysfsRequestView::Write { path, value }),
    ensures
        ({
            let s = task_resume(t, SysfsReplyView::Written(Ok(())));
            &&& s is Pending
            &&& task_request(s->Pending_0) == (SysfsRequestView::Read { path })
            &&& ({
                let f = task_resume(s->Pending_0, SysfsReplyView::Read(Ok(text)));
                let rb = read_back(s->Pending_0, text);
                if rb == value {
                    f is Done || f is Acquired
                } else {
                    f == LedStepView::Failed(
                        ErrorView::WriteVerifyMismatch { path, wrote: value, read_back: rb },
                    )
                }
            })
        }),
{
}

/// A character's code with ASCII upper-case letters folded to lower case.
pub open spec fn folded(c: char) -> u32 {
    if 65 <= (c as u32) <= 90 {
        (c as u32 + 32) as u32
    } else {
        c as u32
    }
}

/// Whether two texts are equal once ASCII letters are folded.
pub open spec fn same_folded(a: Seq<char>, b: Seq<char>) -> bool {
    a.len() == b.len() && forall|j: int| 0 <= j < a.len() ==> #[trigger] folded(a[j]) == folded(b[j])
}

/// The device behind an LED matches a selector exactly when the trimmed
/// contents of its `idVendor` and `idProduct` files equal the selector's
/// vendor and product up to ASCII case (so `03F0` in the configuration
/// matches `03f0` in sysfs, and the other way round).
pub proof fn law_ids_match_ignoring_case(ids: UsbIds, vendor: Seq<char>, product: Seq<char>)
    ensures
        device_matches_spec(Some(ids), vendor, product) <==> (same_folded(
            trim(ids.vendor@),
            vendor,
        ) && same_folded(trim(ids.product@), product)),
{
    lemma_fold_agrees(trim(ids.vendor@), vendor);
    lemma_fold_agrees(trim(ids.product@), product);
}

proof fn lemma_fold_agrees(a: Seq<char>, b: Seq<char>)
    ensures
        eq_ignore_ascii_case(a, b) == same_folded(a, b),
{
    if eq_ignore_ascii_case(a, b) {
        assert forall|j: int| 0 <= j < a.len() implies #[trigger] folded(a[j]) == folded(b[j]) by {
            assert(ascii_lower(a[j]) == ascii_lower(b[j]));
        }
    }
    if same_folded(a, b) {
        assert forall|j: int| 0 <= j < a.len() implies #[trigger] ascii_lower(a[j]) == ascii_lower(
            b[j],
        ) by {
            assert(folded(a[j]) == folded(b[j]));
        }
    }
}

/// The tasks of an acquisition.
pub open spec fn is_acquire_task(t: LedTaskView) -> bool {
    ||| t is AcquireCheck
    ||| t is AcquireRead
    ||| t is AcquireDetach
    ||| t is AcquireVerify
}

/// An acquisition ends only with the LED or with an error: from any of its
/// tasks, every reply leads to another acquisition task, to `Acquired` or
/// to `Failed`, never to `Done`; and `Led::acquire` starts one.
pub proof fn law_acquire_ends_acquired_or_failed(t: LedTaskView, reply: SysfsReplyView, dir: Seq<char>)
    requires
        is_acquire_task(t),
    ensures
        ({
            let s = task_resume(t, reply);
            ||| s matches LedStepView::Pending(u) && is_acquire_task(u)
            ||| s is Acquired
            ||| s is Failed
        }),
        is_acquire_task(LedTaskView::AcquireCheck { dir }),
{
}

/// A reply of the wrong kind leaves a task waiting on the same request.
pub proof fn law_task_waits_for_its_reply(t: LedTaskView, reply: SysfsReplyView)
    requires
        !reply_fits(t, reply),
    ensures
        task_resume(t, reply) == LedStepView::Pending(t),
{
}

/// Whether `reply` answers the request of `t`.
pub open spec fn reply_fits(t: LedTaskView, reply: SysfsReplyView) -> bool {
    match task_request(t) {
        SysfsRequestView::Exists { .. } => reply is Exists,
        SysfsRequestView::Read { .. } => reply is Read,
        SysfsRequestView::Write { .. } => reply is Written,
    }
}

} // verus!
