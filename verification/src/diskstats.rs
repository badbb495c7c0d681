//! Sector counters of block devices, parsed from the text of `/proc/diskstats`,
//! and the choice of the NVMe whole disks to watch.
use crate::text::{
    all_digits, chars_of, is_digit, is_separator, is_white, lemma_split_by_nonempty, split_by, lemma_name_order_total, lex_le, lex_le_chars, lines, name_order,
    parse_u64, parse_u64_spec, range_all_digits, range_texts, ranges_within, split_ranges, views,
    word_ranges, words, Separator,
};
use vstd::relations::{sorted_by, total_ordering};
use vstd::prelude::*;
use vstd::string::*;

verus! {

broadcast use vstd::string::group_string_axioms;

/// Sector counters for one block device, as read from /proc/diskstats.
///
/// /proc/diskstats fields are documented in
/// Documentation/admin-guide/iostats.rst, numbered starting after
/// major/minor/name. Field 3 is sectors read, field 7 is sectors written.
#[derive(Clone, Copy, Debug, PartialEq, Eq, Structural)]
pub struct Counters {
    pub sectors_read: u64,
    pub sectors_written: u64,
}

/// Both counters at zero.
pub open spec fn zero_counters() -> Counters {
    Counters { sectors_read: 0, sectors_written: 0 }
}

impl Default for Counters {
    fn default() -> (r: Self)
        ensures
            r == zero_counters(),
    {
        Counters { sectors_read: 0, sectors_written: 0 }
    }
}

/// The map that inserting `es` in order into an empty map gives: a later
/// entry for a name replaces an earlier one.
pub open spec fn entries_map(es: Seq<(String, Counters)>) -> Map<Seq<char>, Counters>
    decreases es.len(),
{
    if es.len() == 0 {
        Map::empty()
    } else {
        entries_map(es.drop_last()).insert(es.last().0@, es.last().1)
    }
}

/// The counters of `name` in `m`, zero where `m` has none.
pub open spec fn counters_in(m: Map<Seq<char>, Counters>, name: Seq<char>) -> Counters {
    if m.contains_key(name) {
        m[name]
    } else {
        zero_counters()
    }
}

/// Counters by device name, as one read of /proc/diskstats gives them.
#[derive(Debug)]
pub struct DiskStats {
    entries: Vec<(String, Counters)>,
}

impl View for DiskStats {
    type V = Map<Seq<char>, Counters>;

    closed spec fn view(&self) -> Map<Seq<char>, Counters> {
        entries_map(self.entries@)
    }
}

proof fn lemma_entries_map_tail(es: Seq<(String, Counters)>, i: int, k: Seq<char>)
    requires
        0 <= i <= es.len(),
        forall|j: int| i <= j < es.len() ==> (#[trigger] es[j]).0@ != k,
    ensures
        entries_map(es).contains_key(k) == entries_map(es.take(i)).contains_key(k),
        entries_map(es).contains_key(k) ==> entries_map(es)[k] == entries_map(es.take(i))[k],
    decreases es.len(),
{
    if i == es.len() {
        assert(es.take(i) == es);
    } else {
        assert(es[es.len() - 1].0@ != k);
        lemma_entries_map_tail(es.drop_last(), i, k);
        assert(es.drop_last().take(i) == es.take(i));
    }
}

impl DiskStats {
    /// No device.
    pub fn new() -> (r: Self)
        ensures
            r@ == Map::<Seq<char>, Counters>::empty(),
    {
        DiskStats { entries: Vec::new() }
    }

    /// Records `c` as the counters of `name`, replacing what it had.
    pub fn insert(&mut self, name: String, c: Counters)
        ensures
            final(self)@ == old(self)@.insert(name@, c),
    {
        let ghost prev = self.entries@;
        self.entries.push((name, c));
        assert(self.entries@.drop_last() == prev);
    }

    /// The counters of `name`, if it has any.
    pub fn get(&self, name: &String) -> (r: Option<Counters>)
        ensures
            r == (if self@.contains_key(name@) {
                Some(self@[name@])
            } else {
                None
            }),
    {
        let ghost es = self.entries@;
        let mut i: usize = self.entries.len();
        assert(es.take(i as int) == es);
        while i > 0
            invariant
                i <= es.len(),
                es == self.entries@,
                forall|j: int| i <= j < es.len() ==> (#[trigger] es[j]).0@ != name@,
            decreases i,
        {
            if self.entries[i - 1].0 == *name {
                proof {
                    lemma_entries_map_tail(es, i as int, name@);
                    assert(es.take(i as int).drop_last() == es.take(i - 1));
                }
                return Some(self.entries[i - 1].1);
            }
            i = i - 1;
        }
        proof {
            lemma_entries_map_tail(es, 0, name@);
            assert(es.take(0) == Seq::<(String, Counters)>::empty());
        }
        None
    }

    /// The counters of `name`, zero where it has none (a device that
    /// /proc/diskstats does not list counts as idle).
    pub fn counters_of(&self, name: &String) -> (r: Counters)
        ensures
            r == counters_in(self@, name@),
    {
        match self.get(name) {
            Some(c) => c,
            None => Counters { sectors_read: 0, sectors_written: 0 },
        }
    }
}

/// A counter field: its number, or zero where it is not one.
pub open spec fn count_field(w: Seq<char>) -> u64 {
    match parse_u64_spec(w) {
        Some(v) => v,
        None => 0,
    }
}

/// The device and counters of a line with the words `ws`: lines with fewer
/// than ten words carry none; the name is the third word, sectors read the
/// sixth and sectors written the tenth.
pub open spec fn record_of(ws: Seq<Seq<char>>) -> Option<(Seq<char>, Counters)> {
    if ws.len() >= 10 {
        Some(
            (
                ws[2],
                Counters { sectors_read: count_field(ws[5]), sectors_written: count_field(ws[9]) },
            ),
        )
    } else {
        None
    }
}

/// The records of `ls`, inserted in order.
pub open spec fn stats_of_lines(ls: Seq<Seq<char>>) -> Map<Seq<char>, Counters>
    decreases ls.len(),
{
    if ls.len() == 0 {
        Map::empty()
    } else {
        let m = stats_of_lines(ls.drop_last());
        match record_of(words(ls.last())) {
            Some(r) => m.insert(r.0, r.1),
            None => m,
        }
    }
}

/// What the text of /proc/diskstats says of each device.
pub open spec fn diskstats_of(text: Seq<char>) -> Map<Seq<char>, Counters> {
    stats_of_lines(lines(text))
}

fn count_at(chars: &Vec<char>, lo: usize, hi: usize) -> (r: u64)
    requires
        lo <= hi <= chars.len(),
    ensures
        r == count_field(chars@.subrange(lo as int, hi as int)),
{
    match parse_u64(chars, lo, hi) {
        Some(v) => v,
        None => 0,
    }
}

/// Parses the text of /proc/diskstats: for each line of ten or more words,
/// the device named by the third word gets the sectors read (sixth word) and
/// written (tenth word), zero where a word is no number; a later line for a
/// device replaces an earlier one; shorter lines are skipped.
pub fn parse_diskstats(content: &str) -> (r: DiskStats)
    ensures
        r@ == diskstats_of(content@),
{
    let chars = chars_of(content);
    let n = chars.len();
    let line_rs = split_ranges(&chars, 0, n, Separator::Newline);
    let ghost ls = lines(content@);
    assert(chars@.subrange(0, n as int) == content@);
    let mut stats = DiskStats::new();
    let mut i: usize = 0;
    assert(ls.take(0) == Seq::<Seq<char>>::empty());
    while i < line_rs.len()
        invariant
            i <= line_rs.len(),
            chars@ == content@,
            n == chars.len(),
            ranges_within(line_rs@, 0, n as int),
            range_texts(chars@, line_rs@) == ls,
            stats@ == stats_of_lines(ls.take(i as int)),
        decreases line_rs.len() - i,
    {
        let (a, b) = line_rs[i];
        assert(line_rs@[i as int] == (a, b));
        assert(ls[i as int] == chars@.subrange(a as int, b as int));
        assert(ls.take(i + 1).drop_last() == ls.take(i as int));
        assert(ls.take(i + 1).last() == ls[i as int]);
        let ws = word_ranges(&chars, a, b);
        let ghost wt = words(chars@.subrange(a as int, b as int));
        if ws.len() >= 10 {
            let (na, nb) = ws[2];
            let (ra, rb) = ws[5];
            let (wa, wb) = ws[9];
            assert(ws@[2] == (na, nb) && ws@[5] == (ra, rb) && ws@[9] == (wa, wb));
            assert(wt[2] == chars@.subrange(na as int, nb as int));
            assert(wt[5] == chars@.subrange(ra as int, rb as int));
            assert(wt[9] == chars@.subrange(wa as int, wb as int));
            let name = content.substring_char(na, nb).to_owned();
            let c = Counters { sectors_read: count_at(&chars, ra, rb), sectors_written: count_at(&chars, wa, wb) };
            stats.insert(name, c);
        }
        i = i + 1;
    }
    assert(ls.take(line_rs.len() as int) == ls);
    stats
}


/// The characters of `nvme`.
pub open spec fn nvme_prefix() -> Seq<char> {
    seq!['n', 'v', 'm', 'e']
}

/// A whole NVMe disk, `nvme<ctrl>n<ns>` with both numbers made of one or
/// more ASCII digits (partitions such as `nvme0n1p1` are not).
pub open spec fn nvme_whole_disk(name: Seq<char>) -> bool {
    &&& name.len() >= 4
    &&& name.subrange(0, 4) == nvme_prefix()
    &&& exists|k: int|
        4 < k < name.len() - 1 && #[trigger] name[k] == 'n' && all_digits(name.subrange(4, k))
            && all_digits(name.subrange(k + 1, name.len() as int))
}

/// Whether `name` is a whole NVMe disk (`nvme0n1`), not a partition or
/// another kind of device.
pub fn is_nvme_whole_disk(name: &str) -> (r: bool)
    ensures
        r == nvme_whole_disk(name@),
{
    let cs = chars_of(name);
    let n = cs.len();
    if n < 4 || cs[0] != 'n' || cs[1] != 'v' || cs[2] != 'm' || cs[3] != 'e' {
        proof {
            if n >= 4 {
                assert(cs@.subrange(0, 4)[0] == cs@[0]);
                assert(cs@.subrange(0, 4)[1] == cs@[1]);
                assert(cs@.subrange(0, 4)[2] == cs@[2]);
                assert(cs@.subrange(0, 4)[3] == cs@[3]);
            }
        }
        return false;
    }
    assert(cs@.subrange(0, 4) == nvme_prefix());
    let mut k: usize = 4;
    while k < n && cs[k] != 'n'
        invariant
            4 <= k <= n == cs.len(),
            forall|j: int| 4 <= j < k ==> cs@[j] != 'n',
        decreases n - k,
    {
        k = k + 1;
    }
    let ok = k < n && k > 4 && k + 1 < n && range_all_digits(&cs, 4, k) && range_all_digits(
        &cs,
        k + 1,
        n,
    );
    proof {
        if ok {
            assert(cs@[k as int] == 'n');
        } else {
            assert forall|k2: int|
                4 < k2 < n - 1 && #[trigger] cs@[k2] == 'n' && all_digits(cs@.subrange(4, k2))
                    implies !all_digits(cs@.subrange(k2 + 1, n as int)) by {
                if k2 > k {
                    assert(cs@.subrange(4, k2)[k - 4] == 'n');
                    assert(!is_digit(cs@.subrange(4, k2)[k - 4]));
                } else if k2 == k {
                } else {
                    assert(cs@[k2] != 'n');
                }
            }
        }
    }
    ok
}

/// The NVMe whole disks among `names`, in the order of names (`String`'s
/// `Ord`).
pub open spec fn nvme_disks(names: Seq<Seq<char>>) -> Seq<Seq<char>> {
    names.filter(|n: Seq<char>| nvme_whole_disk(n)).sort_by(name_order())
}

fn insert_sorted(out: &mut Vec<String>, e: String)
    requires
        sorted_by(views(old(out)@), name_order()),
    ensures
        sorted_by(views(final(out)@), name_order()),
        views(final(out)@).to_multiset() == views(old(out)@).to_multiset().insert(e@),
{
    broadcast use vstd::seq_lib::group_to_multiset_ensures;
    broadcast use vstd::multiset::group_multiset_axioms;

    proof {
        lemma_name_order_total();
    }
    let ghost before = views(out@);
    let ec = chars_of(e.as_str());
    let mut j: usize = 0;
    while j < out.len()
        invariant
            j <= out.len(),
            views(out@) == before,
            ec@ == e@,
            forall|k: int| 0 <= k < j ==> lex_le(#[trigger] before[k], e@),
        ensures
            j <= out.len(),
            views(out@) == before,
            forall|k: int| 0 <= k < j ==> lex_le(#[trigger] before[k], e@),
            j < out.len() ==> !lex_le(before[j as int], e@),
        decreases out.len() - j,
    {
        let oc = chars_of(out[j].as_str());
        assert(before[j as int] == out@[j as int]@);
        if !lex_le_chars(&oc, &ec) {
            break;
        }
        j = j + 1;
    }
    assert(j < out.len() ==> !lex_le(before[j as int], e@));
    out.insert(j, e);
    let ghost after = views(out@);
    assert(after == before.insert(j as int, e@));
    proof {
        let r = name_order();
        assert(total_ordering(r));
        assert forall|a: int, b: int| 0 <= a < b < after.len() implies #[trigger] r(
            after[a],
            after[b],
        ) by {
            if b < j {
                assert(r(before[a], before[b]));
            } else if b == j {
                assert(lex_le(before[a], e@));
            } else if a == j {
                assert(!lex_le(before[j as int], e@));
                assert(!r(before[j as int], e@));
                assert(r(e@, before[j as int]));
                if b - 1 > j {
                    assert(r(before[j as int], before[b - 1]));
                }
            } else if a < j {
                assert(r(before[a], before[b - 1]));
            } else {
                assert(r(before[a - 1], before[b - 1]));
            }
        }
        assert(after.remove(j as int) == before);
        assert(after[j as int] == e@);
        assert(before.to_multiset() == after.to_multiset().remove(e@));
        assert(after.to_multiset().count(e@) > 0);
    }
}

/// `names` in the order of names (`String`'s `Ord`), as `sort` leaves them.
pub fn sort_names(names: &Vec<String>) -> (r: Vec<String>)
    ensures
        views(r@) == views(names@).sort_by(name_order()),
{
    broadcast use vstd::seq_lib::group_to_multiset_ensures;

    let ghost all = views(names@);
    let mut out: Vec<String> = Vec::new();
    let mut i: usize = 0;
    assert(all.take(0) == Seq::<Seq<char>>::empty());
    assert(views(out@) == Seq::<Seq<char>>::empty());
    while i < names.len()
        invariant
            i <= names.len(),
            all == views(names@),
            sorted_by(views(out@), name_order()),
            views(out@).to_multiset() == all.take(i as int).to_multiset(),
        decreases names.len() - i,
    {
        let ghost prev = all.take(i as int);
        assert(all.take(i + 1) == prev.push(names@[i as int]@));
        proof {
            prev.to_multiset_ensures();
        }
        let e = names[i].clone();
        insert_sorted(&mut out, e);
        i = i + 1;
    }
    proof {
        assert(all.take(names.len() as int) == all);
        lemma_name_order_total();
        all.lemma_sort_by_ensures(name_order());
        vstd::seq_lib::lemma_sorted_unique(views(out@), all.sort_by(name_order()), name_order());
    }
    out
}

/// The whole NVMe disks among the entries of /sys/block, sorted.
pub fn select_nvme_devices(names: &Vec<String>) -> (r: Vec<String>)
    ensures
        views(r@) == nvme_disks(views(names@)),
{
    let ghost all = views(names@);
    let ghost pred = |n: Seq<char>| nvme_whole_disk(n);
    let mut kept: Vec<String> = Vec::new();
    let mut i: usize = 0;
    assert(all.take(0) == Seq::<Seq<char>>::empty());
    assert(views(kept@) == Seq::<Seq<char>>::empty());
    while i < names.len()
        invariant
            i <= names.len(),
            all == views(names@),
            pred == (|n: Seq<char>| nvme_whole_disk(n)),
            views(kept@) == all.take(i as int).filter(pred),
        decreases names.len() - i,
    {
        let ghost prev = all.take(i as int);
        assert(all.take(i + 1) == prev.push(names@[i as int]@));
        proof {
            prev.lemma_filter_push(names@[i as int]@, pred);
        }
        let keep = is_nvme_whole_disk(names[i].as_str());
        assert(keep == pred(names@[i as int]@));
        if keep {
            let ghost before = views(kept@);
            kept.push(names[i].clone());
            assert(views(kept@) == before.push(names@[i as int]@));
        }
        i = i + 1;
    }
    assert(all.take(names.len() as int) == all);
    sort_names(&kept)
}


/// Partitions are not whole disks: a whole disk's name followed by `p` and
/// a partition number (`nvme0n1` + `p1`) never is one.
pub proof fn law_partitions_rejected(disk: Seq<char>, part: Seq<char>)
    requires
        nvme_whole_disk(disk),
        all_digits(part),
    ensures
        !nvme_whole_disk(disk + seq!['p'] + part),
{
    let name = disk + seq!['p'] + part;
    let d = disk.len() as int;
    assert(name.subrange(0, 4) == disk.subrange(0, 4));
    if nvme_whole_disk(name) {
        let k = choose|k: int|
            4 < k < name.len() - 1 && #[trigger] name[k] == 'n' && all_digits(name.subrange(4, k))
                && all_digits(name.subrange(k + 1, name.len() as int));
        if k > d {
            assert(name[k] == part[k - d - 1]);
            assert(is_digit(part[k - d - 1]));
        }
        assert(k < d);
        let tail = name.subrange(k + 1, name.len() as int);
        assert(tail[d - k - 1] == 'p');
        assert(!is_digit(tail[d - k - 1]));
    }
}


proof fn lemma_split_by_concat(a: Seq<char>, c: char, b: Seq<char>, k: Separator)
    requires
        is_separator(k, c),
    ensures
        split_by(a + seq![c] + b, k) == split_by(a, k) + split_by(b, k),
    decreases b.len(),
{
    let s = a + seq![c] + b;
    if b.len() == 0 {
        assert(s == a + seq![c]);
        assert(s.drop_last() == a);
        assert(split_by(b, k) == seq![Seq::<char>::empty()]);
    } else {
        lemma_split_by_concat(a, c, b.drop_last(), k);
        assert(s.drop_last() == a + seq![c] + b.drop_last());
        assert(s.last() == b.last());
        let x = split_by(a, k);
        let y = split_by(b.drop_last(), k);
        lemma_split_by_nonempty(b.drop_last(), k);
        if is_separator(k, b.last()) {
            assert((x + y).push(Seq::<char>::empty()) == x + y.push(Seq::<char>::empty()));
        } else {
            assert((x + y).update(
                (x + y).len() - 1,
                (x + y).last().push(b.last()),
            ) == x + y.update(y.len() - 1, y.last().push(b.last())));
        }
    }
}

proof fn lemma_stats_of_lines_concat(xs: Seq<Seq<char>>, ys: Seq<Seq<char>>)
    ensures
        stats_of_lines(xs + ys) == stats_of_lines(xs).union_prefer_right(stats_of_lines(ys)),
    decreases ys.len(),
{
    if ys.len() == 0 {
        assert(xs + ys == xs);
        assert(stats_of_lines(xs).union_prefer_right(Map::empty()) == stats_of_lines(xs));
    } else {
        lemma_stats_of_lines_concat(xs, ys.drop_last());
        assert((xs + ys).drop_last() == xs + ys.drop_last());
        assert((xs + ys).last() == ys.last());
        let a = stats_of_lines(xs);
        let b = stats_of_lines(ys.drop_last());
        match record_of(words(ys.last())) {
            Some(r) => {
                assert(a.union_prefer_right(b).insert(r.0, r.1) == a.union_prefer_right(
                    b.insert(r.0, r.1),
                ));
            },
            None => {},
        }
    }
}

/// Reading is line by line and a later line wins: the devices of two texts
/// joined by a line feed are those of the first, updated by those of the
/// second.
pub proof fn law_later_lines_win(first: Seq<char>, second: Seq<char>)
    ensures
        diskstats_of(first + seq!['\n'] + second) == diskstats_of(first).union_prefer_right(
            diskstats_of(second),
        ),
{
    lemma_split_by_concat(first, '\n', second, Separator::Newline);
    lemma_stats_of_lines_concat(lines(first), lines(second));
}


/// Words joined by single spaces, as one line of text.
pub open spec fn join_words(ws: Seq<Seq<char>>) -> Seq<char>
    decreases ws.len(),
{
    if ws.len() == 0 {
        Seq::empty()
    } else if ws.len() == 1 {
        ws[0]
    } else {
        join_words(ws.drop_last()) + seq![' '] + ws.last()
    }
}

/// A word of printable ASCII characters other than the space.
pub open spec fn plain_word(w: Seq<char>) -> bool {
    w.len() > 0 && forall|j: int| 0 <= j < w.len() ==> 33 <= (#[trigger] w[j]) as u32 <= 126
}

proof fn lemma_split_no_separator(w: Seq<char>, k: Separator)
    requires
        forall|j: int| 0 <= j < w.len() ==> !is_separator(k, #[trigger] w[j]),
    ensures
        split_by(w, k) == seq![w],
    decreases w.len(),
{
    if w.len() > 0 {
        lemma_split_no_separator(w.drop_last(), k);
        assert(!is_separator(k, w[w.len() - 1]));
        assert(w.drop_last().push(w.last()) == w);
    } else {
        assert(w == Seq::<char>::empty());
    }
}

proof fn lemma_join_chars(ws: Seq<Seq<char>>)
    requires
        forall|i: int| 0 <= i < ws.len() ==> plain_word(#[trigger] ws[i]),
    ensures
        forall|j: int|
            0 <= j < join_words(ws).len() ==> 33 <= (#[trigger] join_words(ws)[j]) as u32 <= 126
                || join_words(ws)[j] == ' ',
    decreases ws.len(),
{
    if ws.len() == 1 {
        assert(plain_word(ws[0]));
    } else if ws.len() > 1 {
        let d = ws.drop_last();
        assert forall|i: int| 0 <= i < d.len() implies plain_word(#[trigger] d[i]) by {
            assert(plain_word(ws[i]));
        }
        lemma_join_chars(d);
        let jd = join_words(d);
        let last = ws.last();
        assert(plain_word(ws[ws.len() - 1]));
        assert forall|j: int| 0 <= j < join_words(ws).len() implies 33 <= (#[trigger] join_words(
            ws,
        )[j]) as u32 <= 126 || join_words(ws)[j] == ' ' by {
            if j < jd.len() {
                assert(join_words(ws)[j] == jd[j]);
            } else if j > jd.len() {
                assert(join_words(ws)[j] == last[j - jd.len() - 1]);
            }
        }
    }
}

proof fn lemma_split_join(ws: Seq<Seq<char>>)
    requires
        ws.len() >= 1,
        forall|i: int| 0 <= i < ws.len() ==> plain_word(#[trigger] ws[i]),
    ensures
        split_by(join_words(ws), Separator::Whitespace) == ws,
    decreases ws.len(),
{
    let last = ws.last();
    assert(plain_word(ws[ws.len() - 1]));
    assert forall|j: int| 0 <= j < last.len() implies !is_separator(
        Separator::Whitespace,
        #[trigger] last[j],
    ) by {
        assert(33 <= last[j] as u32 <= 126);
    }
    lemma_split_no_separator(last, Separator::Whitespace);
    if ws.len() == 1 {
        assert(ws == seq![last]);
    } else {
        let d = ws.drop_last();
        assert forall|i: int| 0 <= i < d.len() implies plain_word(#[trigger] d[i]) by {
            assert(plain_word(ws[i]));
        }
        lemma_split_join(d);
        lemma_split_by_concat(join_words(d), ' ', last, Separator::Whitespace);
        assert(d + seq![last] == ws);
    }
}

proof fn lemma_filter_keeps_nonempty(ws: Seq<Seq<char>>)
    requires
        forall|i: int| 0 <= i < ws.len() ==> (#[trigger] ws[i]).len() > 0,
    ensures
        ws.filter(|w: Seq<char>| w.len() > 0) == ws,
    decreases ws.len(),
{
    if ws.len() > 0 {
        let d = ws.drop_last();
        assert forall|i: int| 0 <= i < d.len() implies (#[trigger] d[i]).len() > 0 by {
            assert(ws[i].len() > 0);
        }
        lemma_filter_keeps_nonempty(d);
        let p = |w: Seq<char>| w.len() > 0;
        assert(ws[ws.len() - 1].len() > 0);
        assert(p(ws.last()));
        assert(d.push(ws.last()) == ws);
        d.lemma_filter_push(ws.last(), p);
    }
}

/// A line's counters come from fixed words, however long the line is: a
/// line of ten or more words (of printable ASCII, separated by spaces)
/// gives exactly one device, named by its third word, whose sectors read
/// are the number in its sixth word and whose sectors written are the
/// number in its tenth word (zero where the word is no number). Words
/// after the tenth, as the 14, 18 and 20 fields of newer kernels, change
/// nothing.
pub proof fn law_line_counters(ws: Seq<Seq<char>>)
    requires
        ws.len() >= 10,
        forall|i: int| 0 <= i < ws.len() ==> plain_word(#[trigger] ws[i]),
    ensures
        diskstats_of(join_words(ws)) == Map::<Seq<char>, Counters>::empty().insert(
            ws[2],
            Counters {
                sectors_read: match parse_u64_spec(ws[5]) {
                    Some(v) => v,
                    None => 0,
                },
                sectors_written: match parse_u64_spec(ws[9]) {
                    Some(v) => v,
                    None => 0,
                },
            },
        ),
{
    let line = join_words(ws);
    lemma_join_chars(ws);
    assert forall|j: int| 0 <= j < line.len() implies !is_separator(
        Separator::Newline,
        #[trigger] line[j],
    ) by {}
    lemma_split_no_separator(line, Separator::Newline);
    assert(lines(line) == seq![line]);
    lemma_split_join(ws);
    assert forall|i: int| 0 <= i < ws.len() implies (#[trigger] ws[i]).len() > 0 by {
        assert(plain_word(ws[i]));
    }
    lemma_filter_keeps_nonempty(ws);
    assert(words(line) == ws);
    assert(seq![line].drop_last() == Seq::<Seq<char>>::empty());
    assert(seq![line].last() == line);
    assert(stats_of_lines(Seq::<Seq<char>>::empty()) == Map::<Seq<char>, Counters>::empty());
    assert(record_of(ws) is Some);
    assert(diskstats_of(line) == stats_of_lines(seq![line]));
}

} // verus!
