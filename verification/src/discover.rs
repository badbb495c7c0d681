//! Interactive discovery of which keyboard LED has a physical lamp: the
//! candidates, the walk through them (a state machine driven by the
//! caller, who does the prompting and blinking), and the recommendation.
use crate::diskstats::sort_names;
use crate::error::{Error, ErrorView};
use crate::led::{led_name_matches, is_led_named, Ancestor, Led, LedView};
use crate::text::{
    all_digits, chars_of, decimal_value, eq_ignore_ascii_case, has_prefix, join_path,
    name_order, parse_u64, path_join, range_starts_with, ranges_eq_ignore_ascii_case, trim,
    trim_range, trimmed_or, unsigned_digits, views,
};
use vstd::prelude::*;

verus! {

broadcast use vstd::string::group_string_axioms;

/// The lock LED that an entry of /sys/class/leds is, by the order
/// capslock, numlock, scrolllock.
pub open spec fn lock_of(entry: Seq<char>) -> Option<Seq<char>> {
    if led_name_matches(entry, "capslock"@) {
        Some("capslock"@)
    } else if led_name_matches(entry, "numlock"@) {
        Some("numlock"@)
    } else if led_name_matches(entry, "scrolllock"@) {
        Some("scrolllock"@)
    } else {
        None
    }
}

/// The lock LED (`capslock`, `numlock` or `scrolllock`) that the entry
/// `entry` of /sys/class/leds is, if any.
pub fn lock_name_of(entry: &String) -> (r: Option<String>)
    ensures
        match r {
            Some(n) => lock_of(entry@) == Some(n@),
            None => lock_of(entry@) is None,
        },
{
    let caps = "capslock".to_owned();
    if is_led_named(entry, &caps) {
        return Some(caps);
    }
    let num = "numlock".to_owned();
    if is_led_named(entry, &num) {
        return Some(num);
    }
    let scroll = "scrolllock".to_owned();
    if is_led_named(entry, &scroll) {
        return Some(scroll);
    }
    None
}

/// Whether `e` ends with `::` followed by `n`.
pub open spec fn ends_with_lock(e: Seq<char>, n: Seq<char>) -> bool {
    e.len() >= n.len() + 2 && e.subrange(e.len() - n.len() - 2, e.len() as int) == seq![':', ':']
        + n
}

/// The lock name of an entry is the one its name ends with: whatever comes
/// before, `…::capslock`, `…::numlock` and `…::scrolllock` are the caps,
/// num and scroll lock LEDs; and whatever lock name an entry gets, the
/// entry ends with `::` and that name.
pub proof fn law_lock_name_is_suffix(prefix: Seq<char>, e: Seq<char>)
    ensures
        lock_of(prefix + seq![':', ':'] + "capslock"@) == Some("capslock"@),
        lock_of(prefix + seq![':', ':'] + "numlock"@) == Some("numlock"@),
        lock_of(prefix + seq![':', ':'] + "scrolllock"@) == Some("scrolllock"@),
        lock_of(e) matches Some(n) ==> ends_with_lock(e, n),
{
    reveal_strlit("capslock");
    reveal_strlit("numlock");
    reveal_strlit("scrolllock");
    let caps = seq![':', ':'] + "capslock"@;
    let num = seq![':', ':'] + "numlock"@;
    let scroll = seq![':', ':'] + "scrolllock"@;
    let ec = prefix + caps;
    assert(prefix + seq![':', ':'] + "capslock"@ == ec);
    assert(ec.subrange(ec.len() - 10, ec.len() as int) == caps);
    let en = prefix + num;
    assert(prefix + seq![':', ':'] + "numlock"@ == en);
    assert(en.subrange(en.len() - 9, en.len() as int) == num);
    if en.len() >= 10 {
        assert(en.subrange(en.len() - 10, en.len() as int)[2] == ':');
        assert(caps[2] == 'c');
    }
    let es = prefix + scroll;
    assert(prefix + seq![':', ':'] + "scrolllock"@ == es);
    assert(es.subrange(es.len() - 12, es.len() as int) == scroll);
    assert(es.subrange(es.len() - 10, es.len() as int)[0] == 's');
    assert(caps[0] == ':');
    assert(es.subrange(es.len() - 9, es.len() as int)[0] == 'c');
    assert(num[0] == ':');
}

/// The lock LEDs among the entries of /sys/class/leds, in the order of
/// their paths (all in the same directory, so the order of their names).
pub open spec fn lock_leds(names: Seq<Seq<char>>) -> Seq<Seq<char>> {
    names.filter(|n: Seq<char>| lock_of(n) is Some).sort_by(name_order())
}

/// Selects and sorts the candidate LEDs among the entries of
/// /sys/class/leds.
pub fn select_lock_leds(names: &Vec<String>) -> (r: Vec<String>)
    ensures
        views(r@) == lock_leds(views(names@)),
{
    let ghost all = views(names@);
    let ghost pred = |n: Seq<char>| lock_of(n) is Some;
    let mut kept: Vec<String> = Vec::new();
    let mut i: usize = 0;
    assert(all.take(0) == Seq::<Seq<char>>::empty());
    assert(views(kept@) == Seq::<Seq<char>>::empty());
    while i < names.len()
        invariant
            i <= names.len(),
            all == views(names@),
            pred == (|n: Seq<char>| lock_of(n) is Some),
            views(kept@) == all.take(i as int).filter(pred),
        decreases names.len() - i,
    {
        let ghost prev = all.take(i as int);
        assert(all.take(i + 1) == prev.push(names@[i as int]@));
        proof {
            prev.lemma_filter_push(names@[i as int]@, pred);
        }
        let keep = lock_name_of(&names[i]).is_some();
        assert(keep == pred(names@[i as int]@));
        if keep {
            let ghost before = views(kept@);
            kept.push(names[i].clone());
            assert(views(kept@) == before.push(names@[i as int]@));
        }
        i = i + 1;
    }
    assert(all.take(names.len() as int) == all);
    sort_names(&kept)
}

/// An answer to a yes/no question means yes: `y` or `yes` in any case,
/// with white space around it ignored.
pub open spec fn answer_is_yes(line: Seq<char>) -> bool {
    eq_ignore_ascii_case(trim(line), "y"@) || eq_ignore_ascii_case(trim(line), "yes"@)
}

/// Whether the typed answer `line` is yes (the default is no).
pub fn is_yes(line: &String) -> (r: bool)
    ensures
        r == answer_is_yes(line@),
{
    let t = chars_of(line.as_str());
    let (a, b) = trim_range(&t, 0, t.len());
    assert(t@.subrange(0, t.len() as int) == t@);
    let y = chars_of("y");
    let yes = chars_of("yes");
    assert(y@.subrange(0, y.len() as int) == y@);
    assert(yes@.subrange(0, yes.len() as int) == yes@);
    ranges_eq_ignore_ascii_case(&t, a, b, &y, 0, y.len()) || ranges_eq_ignore_ascii_case(
        &t,
        a,
        b,
        &yes,
        0,
        yes.len(),
    )
}

/// The index of the first of `names` equal to `n`.
pub open spec fn first_named(names: Seq<Seq<char>>, n: Seq<char>) -> Option<int>
    decreases names.len(),
{
    if names.len() == 0 {
        None
    } else if names.last() == n {
        match first_named(names.drop_last(), n) {
            Some(i) => Some(i),
            None => Some(names.len() - 1),
        }
    } else {
        first_named(names.drop_last(), n)
    }
}

/// The LED to recommend among the confirmed ones (given by their lock
/// names, in order): the first scrolllock (nothing else uses it), else the
/// first numlock, else the first capslock, else the first confirmed one.
pub open spec fn best_choice(locks: Seq<Seq<char>>) -> Option<int> {
    if locks.len() == 0 {
        None
    } else {
        match first_named(locks, "scrolllock"@) {
            Some(i) => Some(i),
            None => match first_named(locks, "numlock"@) {
                Some(i) => Some(i),
                None => match first_named(locks, "capslock"@) {
                    Some(i) => Some(i),
                    None => Some(0),
                },
            },
        }
    }
}

fn find_named(names: &Vec<String>, n: &String) -> (r: Option<usize>)
    ensures
        match r {
            Some(i) => first_named(views(names@), n@) == Some(i as int),
            None => first_named(views(names@), n@) is None,
        },
{
    let ghost all = views(names@);
    let mut i: usize = 0;
    let mut found: Option<usize> = None;
    assert(all.take(0) == Seq::<Seq<char>>::empty());
    while i < names.len()
        invariant
            i <= names.len(),
            all == views(names@),
            match found {
                Some(j) => first_named(all.take(i as int), n@) == Some(j as int),
                None => first_named(all.take(i as int), n@) is None,
            },
        decreases names.len() - i,
    {
        assert(all.take(i + 1).drop_last() == all.take(i as int));
        assert(all.take(i + 1).last() == names@[i as int]@);
        if found.is_none() && names[i] == *n {
            found = Some(i);
        }
        i = i + 1;
    }
    assert(all.take(names.len() as int) == all);
    found
}

/// Picks the LED to recommend among the confirmed ones, given their lock
/// names in order.
pub fn best_candidate(locks: &Vec<String>) -> (r: Option<usize>)
    ensures
        match r {
            Some(i) => best_choice(views(locks@)) == Some(i as int),
            None => best_choice(views(locks@)) is None,
        },
{
    if locks.len() == 0 {
        return None;
    }
    if let Some(i) = find_named(locks, &"scrolllock".to_owned()) {
        return Some(i);
    }
    if let Some(i) = find_named(locks, &"numlock".to_owned()) {
        return Some(i);
    }
    if let Some(i) = find_named(locks, &"capslock".to_owned()) {
        return Some(i);
    }
    Some(0)
}

/// The device node of the first `event*` entry of an input device's sysfs
/// directory, in the order listed.
pub open spec fn event_node(entries: Seq<Seq<char>>) -> Option<Seq<char>>
    decreases entries.len(),
{
    if entries.len() == 0 {
        None
    } else if has_prefix(entries[0], "event"@) {
        Some(path_join("/dev/input"@, entries[0]))
    } else {
        event_node(entries.drop_first())
    }
}

fn name_starts_with(name: &String, prefix: &str) -> (r: bool)
    ensures
        r == has_prefix(name@, prefix@),
{
    let c = chars_of(name.as_str());
    let p = chars_of(prefix);
    assert(c@.subrange(0, c.len() as int) == c@);
    range_starts_with(&c, 0, c.len(), &p)
}

/// Finds the /dev/input/eventN node among the entries of an inputN sysfs
/// directory.
pub fn event_device(entries: &Vec<String>) -> (r: Option<String>)
    ensures
        match r {
            Some(p) => event_node(views(entries@)) == Some(p@),
            None => event_node(views(entries@)) is None,
        },
{
    let ghost all = views(entries@);
    let mut i: usize = 0;
    assert(all.skip(0) == all);
    while i < entries.len()
        invariant
            i <= entries.len(),
            all == views(entries@),
            event_node(all) == event_node(all.skip(i as int)),
        decreases entries.len() - i,
    {
        assert(all.skip(i as int)[0] == entries@[i as int]@);
        if name_starts_with(&entries[i], "event") {
            return Some(join_path(&"/dev/input".to_owned(), entries[i].as_str()));
        }
        assert(all.skip(i as int).drop_first() == all.skip(i + 1));
        i = i + 1;
    }
    None
}

/// Whether a directory above an LED is its input device (`inputN`).
pub fn is_input_dir_name(name: &String) -> (r: bool)
    ensures
        r == has_prefix(name@, "input"@),
{
    name_starts_with(name, "input")
}

/// The input device level: a directory named `input…` that has a `name`
/// file.
pub open spec fn is_input_level(a: Ancestor) -> bool {
    has_prefix(a.name@, "input"@) && a.has_name_file
}

/// Which of the ancestors of an LED (nearest first) is its input device
/// (`inputN`): the nearest input level, if any.
pub fn input_device_level(ancestors: &Vec<Ancestor>) -> (r: Option<usize>)
    ensures
        match r {
            Some(i) => i < ancestors@.len() && is_input_level(ancestors@[i as int]) && forall|j: int|
                0 <= j < i ==> !is_input_level(#[trigger] ancestors@[j]),
            None => forall|j: int|
                0 <= j < ancestors@.len() ==> !is_input_level(#[trigger] ancestors@[j]),
        },
{
    let mut i: usize = 0;
    while i < ancestors.len()
        invariant
            i <= ancestors@.len(),
            forall|j: int| 0 <= j < i ==> !is_input_level(#[trigger] ancestors@[j]),
        decreases ancestors.len() - i,
    {
        if is_input_dir_name(&ancestors[i].name) && ancestors[i].has_name_file {
            return Some(i);
        }
        i = i + 1;
    }
    None
}

/// What `str::parse::<u32>` gives: an optional `+`, then one or more ASCII
/// digits whose value fits in a `u32`.
pub open spec fn parse_u32_spec(s: Seq<char>) -> Option<u32> {
    let d = unsigned_digits(s);
    if d.len() > 0 && all_digits(d) && decimal_value(d) <= u32::MAX {
        Some(decimal_value(d) as u32)
    } else {
        None
    }
}

/// The process id that an entry of /proc names, if it is one.
pub fn parse_pid(name: &String) -> (r: Option<u32>)
    ensures
        r == parse_u32_spec(name@),
{
    let c = chars_of(name.as_str());
    assert(c@.subrange(0, c.len() as int) == c@);
    match parse_u64(&c, 0, c.len()) {
        Some(v) => if v <= 0xffff_ffff {
            Some(v as u32)
        } else {
            None
        },
        None => None,
    }
}

/// The name of an input device as its `name` file gives it (`None` where
/// it could not be read): trimmed, or "unknown input device".
pub open spec fn input_device_name(text: Option<Seq<char>>) -> Seq<char> {
    match text {
        Some(t) => trim(t),
        None => "unknown input device"@,
    }
}

/// The name to show for an input device.
pub fn input_name(text: Option<String>) -> (r: String)
    ensures
        r@ == input_device_name(
            match text {
                Some(t) => Some(t@),
                None => None,
            },
        ),
{
    trimmed_or(text, "unknown input device")
}


/// What discovery knows of a candidate LED before testing it.
#[derive(Debug)]
pub struct CandidateInfo {
    /// `capslock`, `numlock` or `scrolllock`.
    pub lock: String,
    /// Whether its input device has a /dev/input/eventN node (which may be
    /// held by an exclusive grab).
    pub has_event_device: bool,
}

/// Which outcome discovery waits for.
#[derive(Clone, Copy, Debug, PartialEq, Eq, Structural)]
pub enum DiscoverPhase {
    /// Whether the current candidate's event node is grabbed.
    GrabCheck,
    /// Taking control of the current candidate's LED.
    Acquiring,
    /// The user pressing Enter once watching the keyboard.
    Prompting,
    /// The three blinks.
    Blinking,
    /// The user's answer: did a lamp blink?
    Asking,
    /// Restoring the LED's trigger; `lit` is the answer.
    Restoring { lit: bool },
    /// All candidates are done.
    Finished,
    /// Reading from or writing to the terminal failed.
    Aborted,
}

/// What became of a candidate, to be told to the user.
#[derive(Debug)]
pub enum Report {
    /// Skipped: its event node is held by an exclusive grab.
    Grabbed(usize),
    /// Skipped: the LED could not be taken control of.
    Unavailable(usize, Error),
    /// Tested: the user saw it blink.
    Lit(usize),
    /// Tested: no light.
    Unlit(usize),
}

pub enum ReportView {
    Grabbed(usize),
    Unavailable(usize, ErrorView),
    Lit(usize),
    Unlit(usize),
}

impl View for Report {
    type V = ReportView;

    open spec fn view(&self) -> ReportView {
        match self {
            Report::Grabbed(i) => ReportView::Grabbed(*i),
            Report::Unavailable(i, e) => ReportView::Unavailable(*i, e@),
            Report::Lit(i) => ReportView::Lit(*i),
            Report::Unlit(i) => ReportView::Unlit(*i),
        }
    }
}

/// The outcome of a discovery action.
#[derive(Debug)]
pub enum DiscoverEvent {
    Grabbed(bool),
    Acquired(Result<Led, Error>),
    /// Enter was read (`false`: the terminal failed).
    Entered(bool),
    Blinked,
    /// The answer line (`None`: the terminal failed).
    Answered(Option<String>),
    Restored,
}

pub enum DiscoverEventView {
    Grabbed(bool),
    Acquired(Result<LedView, ErrorView>),
    Entered(bool),
    Blinked,
    Answered(Option<Seq<char>>),
    Restored,
}

impl View for DiscoverEvent {
    type V = DiscoverEventView;

    open spec fn view(&self) -> DiscoverEventView {
        match self {
            DiscoverEvent::Grabbed(b) => DiscoverEventView::Grabbed(*b),
            DiscoverEvent::Acquired(Ok(l)) => DiscoverEventView::Acquired(Ok(l@)),
            DiscoverEvent::Acquired(Err(e)) => DiscoverEventView::Acquired(Err(e@)),
            DiscoverEvent::Entered(b) => DiscoverEventView::Entered(*b),
            DiscoverEvent::Blinked => DiscoverEventView::Blinked,
            DiscoverEvent::Answered(Some(l)) => DiscoverEventView::Answered(Some(l@)),
            DiscoverEvent::Answered(None) => DiscoverEventView::Answered(None),
            DiscoverEvent::Restored => DiscoverEventView::Restored,
        }
    }
}

/// What the caller does next.
#[derive(Debug)]
pub enum DiscoverAction {
    /// Test the candidate's event node for an exclusive grab.
    CheckGrab(usize),
    /// Take control of the candidate's LED (`Led::acquire`).
    Acquire(usize),
    /// Ask the user to watch the keyboard and press Enter.
    Prompt(usize),
    /// Blink the LED three times (errors are ignored).
    Blink(Led),
    /// Ask whether a lamp blinked.
    Ask(usize),
    /// Restore the LED's trigger (errors are ignored).
    Restore(Led),
    /// Print the summary: the confirmed candidates, the skipped grabbed
    /// ones, and the recommended one (an index into `confirmed`).
    Summary { confirmed: Vec<usize>, grabbed: Vec<usize>, best: Option<usize> },
    /// Stop with an error of the terminal.
    Abort,
}

pub enum DiscoverActionView {
    CheckGrab(usize),
    Acquire(usize),
    Prompt(usize),
    Blink(LedView),
    Ask(usize),
    Restore(LedView),
    Summary { confirmed: Seq<usize>, grabbed: Seq<usize>, best: Option<int> },
    Abort,
}

impl View for DiscoverAction {
    type V = DiscoverActionView;

    open spec fn view(&self) -> DiscoverActionView {
        match self {
            DiscoverAction::CheckGrab(i) => DiscoverActionView::CheckGrab(*i),
            DiscoverAction::Acquire(i) => DiscoverActionView::Acquire(*i),
            DiscoverAction::Prompt(i) => DiscoverActionView::Prompt(*i),
            DiscoverAction::Blink(l) => DiscoverActionView::Blink(l@),
            DiscoverAction::Ask(i) => DiscoverActionView::Ask(*i),
            DiscoverAction::Restore(l) => DiscoverActionView::Restore(l@),
            DiscoverAction::Summary { confirmed, grabbed, best } => DiscoverActionView::Summary {
                confirmed: confirmed@,
                grabbed: grabbed@,
                best: match best {
                    Some(b) => Some(*b as int),
                    None => None,
                },
            },
            DiscoverAction::Abort => DiscoverActionView::Abort,
        }
    }
}

/// A discovery session.
#[derive(Debug)]
pub struct Discovery {
    candidates: Vec<CandidateInfo>,
    index: usize,
    phase: DiscoverPhase,
    led: Option<Led>,
    confirmed: Vec<usize>,
    confirmed_locks: Vec<String>,
    grabbed: Vec<usize>,
}

pub struct DiscoveryView {
    /// Each candidate's lock name and whether it has an event node.
    pub candidates: Seq<(Seq<char>, bool)>,
    /// The candidate under test.
    pub index: usize,
    pub phase: DiscoverPhase,
    /// The LED under test, once acquired.
    pub led: Option<LedView>,
    /// The candidates that lit up, in order.
    pub confirmed: Seq<usize>,
    /// Their lock names.
    pub confirmed_locks: Seq<Seq<char>>,
    /// The candidates skipped for a grab, in order.
    pub grabbed: Seq<usize>,
}

impl View for Discovery {
    type V = DiscoveryView;

    closed spec fn view(&self) -> DiscoveryView {
        DiscoveryView {
            candidates: self.candidates@.map_values(
                |c: CandidateInfo| (c.lock@, c.has_event_device),
            ),
            index: self.index,
            phase: self.phase,
            led: match self.led {
                Some(l) => Some(l@),
                None => None,
            },
            confirmed: self.confirmed@,
            confirmed_locks: views(self.confirmed_locks@),
            grabbed: self.grabbed@,
        }
    }
}

/// The action that the session waits on the outcome of.
pub open spec fn discover_pending(s: DiscoveryView) -> DiscoverActionView {
    match s.phase {
        DiscoverPhase::GrabCheck => DiscoverActionView::CheckGrab(s.index),
        DiscoverPhase::Acquiring => DiscoverActionView::Acquire(s.index),
        DiscoverPhase::Prompting => DiscoverActionView::Prompt(s.index),
        DiscoverPhase::Blinking => match s.led {
            Some(l) => DiscoverActionView::Blink(l),
            None => DiscoverActionView::Abort,
        },
        DiscoverPhase::Asking => DiscoverActionView::Ask(s.index),
        DiscoverPhase::Restoring { .. } => match s.led {
            Some(l) => DiscoverActionView::Restore(l),
            None => DiscoverActionView::Abort,
        },
        DiscoverPhase::Finished => DiscoverActionView::Summary {
            confirmed: s.confirmed,
            grabbed: s.grabbed,
            best: best_choice(s.confirmed_locks),
        },
        DiscoverPhase::Aborted => DiscoverActionView::Abort,
    }
}

/// Moves on to candidate `i`: its grab check where it has an event node,
/// else its acquisition; the summary once all are done.
pub open spec fn discover_advance(s: DiscoveryView, i: usize) -> DiscoveryView {
    let phase = if i >= s.candidates.len() {
        DiscoverPhase::Finished
    } else if s.candidates[i as int].1 {
        DiscoverPhase::GrabCheck
    } else {
        DiscoverPhase::Acquiring
    };
    DiscoveryView { index: i, phase, ..s }
}

/// The candidate after the current one.
pub open spec fn next_index(s: DiscoveryView) -> usize {
    if s.index < s.candidates.len() {
        (s.index + 1) as usize
    } else {
        s.index
    }
}

/// What an event does to the session: the next state, what to tell the
/// user about a finished candidate, and the next action. An event that is
/// not the outcome the session waits on changes nothing.
pub open spec fn discover_step(s: DiscoveryView, e: DiscoverEventView) -> (
    DiscoveryView,
    Option<ReportView>,
    DiscoverActionView,
) {
    let (t, r) = match (s.phase, e) {
        (DiscoverPhase::GrabCheck, DiscoverEventView::Grabbed(true)) => (
            discover_advance(DiscoveryView { grabbed: s.grabbed.push(s.index), ..s }, next_index(s)),
            Some(ReportView::Grabbed(s.index)),
        ),
        (DiscoverPhase::GrabCheck, DiscoverEventView::Grabbed(false)) => (
            DiscoveryView { phase: DiscoverPhase::Acquiring, ..s },
            None,
        ),
        (DiscoverPhase::Acquiring, DiscoverEventView::Acquired(Ok(l))) => (
            DiscoveryView { phase: DiscoverPhase::Prompting, led: Some(l), ..s },
            None,
        ),
        (DiscoverPhase::Acquiring, DiscoverEventView::Acquired(Err(err))) => (
            discover_advance(s, next_index(s)),
            Some(ReportView::Unavailable(s.index, err)),
        ),
        (DiscoverPhase::Prompting, DiscoverEventView::Entered(ok)) => (
            DiscoveryView {
                phase: if ok {
                    DiscoverPhase::Blinking
                } else {
                    DiscoverPhase::Aborted
                },
                ..s
            },
            None,
        ),
        (DiscoverPhase::Blinking, DiscoverEventView::Blinked) => (
            DiscoveryView { phase: DiscoverPhase::Asking, ..s },
            None,
        ),
        (DiscoverPhase::Asking, DiscoverEventView::Answered(answer)) => (
            DiscoveryView {
                phase: match answer {
                    Some(line) => DiscoverPhase::Restoring { lit: answer_is_yes(line) },
                    None => DiscoverPhase::Aborted,
                },
                ..s
            },
            None,
        ),
        (DiscoverPhase::Restoring { lit }, DiscoverEventView::Restored) => if lit {
            (
                discover_advance(
                    DiscoveryView {
                        led: None,
                        confirmed: s.confirmed.push(s.index),
                        confirmed_locks: s.confirmed_locks.push(lock_at(s, s.index)),
                        ..s
                    },
                    next_index(s),
                ),
                Some(ReportView::Lit(s.index)),
            )
        } else {
            (
                discover_advance(DiscoveryView { led: None, ..s }, next_index(s)),
                Some(ReportView::Unlit(s.index)),
            )
        },
        _ => (s, None),
    };
    (t, r, discover_pending(t))
}

/// The lock name of candidate `i` (empty where there is none).
pub open spec fn lock_at(s: DiscoveryView, i: usize) -> Seq<char> {
    if i < s.candidates.len() {
        s.candidates[i as int].0
    } else {
        Seq::empty()
    }
}


/// The view of an optional report.
pub open spec fn report_view(r: Option<Report>) -> Option<ReportView> {
    match r {
        Some(x) => Some(x@),
        None => None,
    }
}

impl Discovery {
    /// Starts a session over the candidates, in order; the first action
    /// concerns the first candidate (or is the summary where there is none).
    pub fn new(candidates: Vec<CandidateInfo>) -> (r: (Discovery, DiscoverAction))
        ensures
            r.0@ == discover_advance(
                DiscoveryView {
                    candidates: candidates@.map_values(
                        |c: CandidateInfo| (c.lock@, c.has_event_device),
                    ),
                    index: 0,
                    phase: DiscoverPhase::Finished,
                    led: None,
                    confirmed: Seq::empty(),
                    confirmed_locks: Seq::empty(),
                    grabbed: Seq::empty(),
                },
                0,
            ),
            r.1@ == discover_pending(r.0@),
    {
        let mut d = Discovery {
            candidates,
            index: 0,
            phase: DiscoverPhase::Finished,
            led: None,
            confirmed: Vec::new(),
            confirmed_locks: Vec::new(),
            grabbed: Vec::new(),
        };
        assert(views(d.confirmed_locks@) == Seq::<Seq<char>>::empty());
        d.advance(0);
        let a = d.pending();
        (d, a)
    }

    fn advance(&mut self, i: usize)
        ensures
            final(self)@ == discover_advance(old(self)@, i),
    {
        self.index = i;
        if i >= self.candidates.len() {
            self.phase = DiscoverPhase::Finished;
        } else if self.candidates[i].has_event_device {
            self.phase = DiscoverPhase::GrabCheck;
        } else {
            self.phase = DiscoverPhase::Acquiring;
        }
    }

    fn next(&self) -> (r: usize)
        ensures
            r == next_index(self@),
    {
        if self.index < self.candidates.len() {
            self.index + 1
        } else {
            self.index
        }
    }

    /// The action that the session waits on the outcome of.
    pub fn pending(&self) -> (r: DiscoverAction)
        ensures
            r@ == discover_pending(self@),
    {
        match self.phase {
            DiscoverPhase::GrabCheck => DiscoverAction::CheckGrab(self.index),
            DiscoverPhase::Acquiring => DiscoverAction::Acquire(self.index),
            DiscoverPhase::Prompting => DiscoverAction::Prompt(self.index),
            DiscoverPhase::Blinking => match &self.led {
                Some(l) => DiscoverAction::Blink(l.copy()),
                None => DiscoverAction::Abort,
            },
            DiscoverPhase::Asking => DiscoverAction::Ask(self.index),
            DiscoverPhase::Restoring { .. } => match &self.led {
                Some(l) => DiscoverAction::Restore(l.copy()),
                None => DiscoverAction::Abort,
            },
            DiscoverPhase::Finished => {
                let best = best_candidate(&self.confirmed_locks);
                DiscoverAction::Summary {
                    confirmed: self.confirmed.clone(),
                    grabbed: self.grabbed.clone(),
                    best,
                }
            },
            DiscoverPhase::Aborted => DiscoverAction::Abort,
        }
    }

    fn lock_at(&self, i: usize) -> (r: String)
        ensures
            r@ == lock_at(self@, i),
    {
        if i < self.candidates.len() {
            self.candidates[i].lock.clone()
        } else {
            String::new()
        }
    }

    /// Takes the outcome of the pending action: what to tell the user about
    /// a finished candidate, and the next action.
    pub fn step(&mut self, e: DiscoverEvent) -> (r: (Option<Report>, DiscoverAction))
        ensures
            (final(self)@, report_view(r.0), r.1@) == discover_step(old(self)@, e@),
    {
        let report = match (self.phase, e) {
            (DiscoverPhase::GrabCheck, DiscoverEvent::Grabbed(grabbed)) => {
                if grabbed {
                    let i = self.index;
                    self.grabbed.push(i);
                    let n = self.next();
                    self.advance(n);
                    Some(Report::Grabbed(i))
                } else {
                    self.phase = DiscoverPhase::Acquiring;
                    None
                }
            },
            (DiscoverPhase::Acquiring, DiscoverEvent::Acquired(res)) => match res {
                Ok(l) => {
                    self.led = Some(l);
                    self.phase = DiscoverPhase::Prompting;
                    None
                },
                Err(err) => {
                    let i = self.index;
                    let n = self.next();
                    self.advance(n);
                    Some(Report::Unavailable(i, err))
                },
            },
            (DiscoverPhase::Prompting, DiscoverEvent::Entered(ok)) => {
                self.phase = if ok {
                    DiscoverPhase::Blinking
                } else {
                    DiscoverPhase::Aborted
                };
                None
            },
            (DiscoverPhase::Blinking, DiscoverEvent::Blinked) => {
                self.phase = DiscoverPhase::Asking;
                None
            },
            (DiscoverPhase::Asking, DiscoverEvent::Answered(answer)) => {
                self.phase = match answer {
                    Some(line) => DiscoverPhase::Restoring { lit: is_yes(&line) },
                    None => DiscoverPhase::Aborted,
                };
                None
            },
            (DiscoverPhase::Restoring { lit }, DiscoverEvent::Restored) => {
                let i = self.index;
                let n = self.next();
                self.led = None;
                if lit {
                    let lock = self.lock_at(i);
                    let ghost before = views(self.confirmed_locks@);
                    self.confirmed.push(i);
                    self.confirmed_locks.push(lock);
                    assert(views(self.confirmed_locks@) == before.push(lock_at(old(self)@, i)));
                    self.advance(n);
                    Some(Report::Lit(i))
                } else {
                    self.advance(n);
                    Some(Report::Unlit(i))
                }
            },
            (_, _) => None,
        };
        let a = self.pending();
        (report, a)
    }
}

/// The recommendation: the summary names a confirmed candidate whenever
/// any lit up, preferring scrolllock, then numlock, then capslock.
pub proof fn law_summary_prefers_scrolllock(s: DiscoveryView)
    requires
        s.phase == DiscoverPhase::Finished,
    ensures
        discover_pending(s) matches DiscoverActionView::Summary { confirmed, grabbed, best }
            && confirmed == s.confirmed && grabbed == s.grabbed && best == best_choice(
            s.confirmed_locks,
        ),
        (best_choice(s.confirmed_locks) is None) == (s.confirmed_locks.len() == 0),
        first_named(s.confirmed_locks, "scrolllock"@) matches Some(i) ==> best_choice(
            s.confirmed_locks,
        ) == Some(i),
{
}

/// A candidate is confirmed only after the user answered yes, and a
/// grabbed candidate is never blinked: it is skipped straight away.
pub proof fn law_confirm_needs_yes(s: DiscoveryView, e: DiscoverEventView)
    ensures
        ({
            let (t, r, a) = discover_step(s, e);
            &&& t.confirmed.len() > s.confirmed.len() ==> (s.phase == (DiscoverPhase::Restoring {
                lit: true,
            }) && e is Restored)
            &&& (s.phase == DiscoverPhase::GrabCheck && e == DiscoverEventView::Grabbed(true))
                ==> (r == Some(ReportView::Grabbed(s.index)) && t.led == s.led && !(a is Blink))
        }),
{
}

/// Answering yes or no decides the report: `y`/`yes` confirms the LED,
/// anything else does not.
pub proof fn law_answer_decides(s: DiscoveryView, line: Seq<char>)
    requires
        s.phase == DiscoverPhase::Asking,
    ensures
        discover_step(s, DiscoverEventView::Answered(Some(line))).0.phase == (
        DiscoverPhase::Restoring { lit: answer_is_yes(line) }),
        discover_step(s, DiscoverEventView::Answered(None)).2 == DiscoverActionView::Abort,
{
}

} // verus!
