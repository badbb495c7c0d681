//! Character-level helpers shared by the parsers: whitespace, splitting,
//! trimming, decimal numbers and the lexicographic order of names.
use vstd::prelude::*;
use vstd::relations::*;
use vstd::string::*;

verus! {

broadcast use vstd::string::group_string_axioms;

/// The characters of `s`, in order.
pub fn chars_of(s: &str) -> (r: Vec<char>)
    ensures
        r@ == s@,
{
    let mut r: Vec<char> = Vec::new();
    for c in it: s.chars()
        invariant
            r@ == it.seq().take(it.index() as int),
            it.seq() == s@,
    {
        r.push(c);
    }
    r
}

/// Unicode `White_Space`, the set that `char::is_whitespace` tests.
pub open spec fn is_white(c: char) -> bool {
    let v = c as u32;
    ||| 0x9 <= v <= 0xD
    ||| v == 0x20
    ||| v == 0x85
    ||| v == 0xA0
    ||| v == 0x1680
    ||| 0x2000 <= v <= 0x200A
    ||| v == 0x2028
    ||| v == 0x2029
    ||| v == 0x202F
    ||| v == 0x205F
    ||| v == 0x3000
}

pub fn is_white_char(c: char) -> (r: bool)
    ensures
        r == is_white(c),
{
    let v: u32 = c as u32;
    (0x9 <= v && v <= 0xD) || v == 0x20 || v == 0x85 || v == 0xA0 || v == 0x1680 || (0x2000 <= v
        && v <= 0x200A) || v == 0x2028 || v == 0x2029 || v == 0x202F || v == 0x205F || v == 0x3000
}

/// What separates the pieces of a text.
#[derive(Clone, Copy, PartialEq, Eq, Debug)]
pub enum Separator {
    /// A line feed: the pieces are lines.
    Newline,
    /// Any white space character: the pieces are words and empty gaps.
    Whitespace,
}

pub open spec fn is_separator(k: Separator, c: char) -> bool {
    match k {
        Separator::Newline => c == '\n',
        Separator::Whitespace => is_white(c),
    }
}

/// `s` cut at every separator character, separators dropped, empty pieces
/// kept: a text with `n` separators has `n + 1` pieces.
pub open spec fn split_by(s: Seq<char>, k: Separator) -> Seq<Seq<char>>
    decreases s.len(),
{
    if s.len() == 0 {
        seq![Seq::<char>::empty()]
    } else {
        let parts = split_by(s.drop_last(), k);
        let c = s.last();
        if is_separator(k, c) {
            parts.push(Seq::<char>::empty())
        } else {
            parts.update(parts.len() - 1, parts.last().push(c))
        }
    }
}

/// The lines of `s` (the pieces between line feeds).
pub open spec fn lines(s: Seq<char>) -> Seq<Seq<char>> {
    split_by(s, Separator::Newline)
}

/// The white-space separated words of `s`, as `str::split_whitespace` gives them.
pub open spec fn words(s: Seq<char>) -> Seq<Seq<char>> {
    split_by(s, Separator::Whitespace).filter(|w: Seq<char>| w.len() > 0)
}

pub proof fn lemma_split_by_nonempty(s: Seq<char>, k: Separator)
    ensures
        split_by(s, k).len() >= 1,
    decreases s.len(),
{
    if s.len() > 0 {
        lemma_split_by_nonempty(s.drop_last(), k);
    }
}

/// The texts that index ranges pick out of `chars`.
pub open spec fn range_texts(chars: Seq<char>, rs: Seq<(usize, usize)>) -> Seq<Seq<char>> {
    rs.map_values(|r: (usize, usize)| chars.subrange(r.0 as int, r.1 as int))
}

pub open spec fn ranges_within(rs: Seq<(usize, usize)>, lo: int, hi: int) -> bool {
    forall|i: int| 0 <= i < rs.len() ==> lo <= (#[trigger] rs[i]).0 <= rs[i].1 <= hi
}

fn is_separator_char(k: Separator, c: char) -> (r: bool)
    ensures
        r == is_separator(k, c),
{
    match k {
        Separator::Newline => c == '\n',
        Separator::Whitespace => is_white_char(c),
    }
}

/// The index ranges of the pieces of `chars[lo..hi]` cut at `k`.
pub fn split_ranges(chars: &Vec<char>, lo: usize, hi: usize, k: Separator) -> (r: Vec<(usize, usize)>)
    requires
        lo <= hi <= chars.len(),
    ensures
        ranges_within(r@, lo as int, hi as int),
        range_texts(chars@, r@) == split_by(chars@.subrange(lo as int, hi as int), k),
{
    let mut r: Vec<(usize, usize)> = Vec::new();
    let mut start: usize = lo;
    let mut j: usize = lo;
    assert(chars@.subrange(lo as int, lo as int) == Seq::<char>::empty());
    assert(range_texts(chars@, r@) == Seq::<Seq<char>>::empty());
    assert(split_by(chars@.subrange(lo as int, lo as int), k) == range_texts(chars@, r@).push(
        chars@.subrange(start as int, lo as int),
    ));
    while j < hi
        invariant
            lo <= start <= j <= hi <= chars.len(),
            ranges_within(r@, lo as int, j as int),
            split_by(chars@.subrange(lo as int, j as int), k) == range_texts(chars@, r@).push(
                chars@.subrange(start as int, j as int),
            ),
        decreases hi - j,
    {
        let c = chars[j];
        let ghost prev = chars@.subrange(lo as int, j as int);
        assert(chars@.subrange(lo as int, j + 1).drop_last() == prev);
        assert(chars@.subrange(lo as int, j + 1).last() == c);
        if is_separator_char(k, c) {
            r.push((start, j));
            assert(range_texts(chars@, r@) == range_texts(chars@, r@.drop_last()).push(
                chars@.subrange(start as int, j as int),
            ));
            start = j + 1;
            assert(chars@.subrange(start as int, j + 1) == Seq::<char>::empty());
        } else {
            assert(chars@.subrange(start as int, j + 1) == chars@.subrange(
                start as int,
                j as int,
            ).push(c));
        }
        j = j + 1;
    }
    r.push((start, hi));
    assert(range_texts(chars@, r@) == range_texts(chars@, r@.drop_last()).push(
        chars@.subrange(start as int, hi as int),
    ));
    r
}


/// The index ranges of the words of `chars[lo..hi]`.
pub fn word_ranges(chars: &Vec<char>, lo: usize, hi: usize) -> (r: Vec<(usize, usize)>)
    requires
        lo <= hi <= chars.len(),
    ensures
        ranges_within(r@, lo as int, hi as int),
        range_texts(chars@, r@) == words(chars@.subrange(lo as int, hi as int)),
{
    let pieces = split_ranges(chars, lo, hi, Separator::Whitespace);
    let ghost parts = split_by(chars@.subrange(lo as int, hi as int), Separator::Whitespace);
    let ghost nonempty = |w: Seq<char>| w.len() > 0;
    let mut r: Vec<(usize, usize)> = Vec::new();
    let mut i: usize = 0;
    assert(parts.take(0) == Seq::<Seq<char>>::empty());
    assert(range_texts(chars@, r@) == Seq::<Seq<char>>::empty());
    while i < pieces.len()
        invariant
            i <= pieces.len(),
            lo <= hi <= chars.len(),
            ranges_within(pieces@, lo as int, hi as int),
            range_texts(chars@, pieces@) == parts,
            nonempty == (|w: Seq<char>| w.len() > 0),
            ranges_within(r@, lo as int, hi as int),
            range_texts(chars@, r@) == parts.take(i as int).filter(nonempty),
        decreases pieces.len() - i,
    {
        let (a, b) = pieces[i];
        assert(pieces@[i as int] == (a, b));
        assert(lo <= a <= b <= hi);
        assert(parts[i as int] == chars@.subrange(a as int, b as int));
        assert(parts.take(i + 1) == parts.take(i as int).push(parts[i as int]));
        assert(parts[i as int].len() == b - a);
        assert(nonempty(parts[i as int]) == (a < b));
        proof { parts.take(i as int).lemma_filter_push(parts[i as int], nonempty); }
        if a < b {
            r.push((a, b));
            assert(range_texts(chars@, r@) == range_texts(chars@, r@.drop_last()).push(
                chars@.subrange(a as int, b as int),
            ));
        }
        i = i + 1;
    }
    assert(parts.take(pieces.len() as int) == parts);
    assert(words(chars@.subrange(lo as int, hi as int)) == parts.filter(nonempty));
    r
}

/// `s` with leading white space removed.
pub open spec fn trim_start(s: Seq<char>) -> Seq<char>
    decreases s.len(),
{
    if s.len() > 0 && is_white(s[0]) {
        trim_start(s.drop_first())
    } else {
        s
    }
}

/// `s` with trailing white space removed.
pub open spec fn trim_end(s: Seq<char>) -> Seq<char>
    decreases s.len(),
{
    if s.len() > 0 && is_white(s.last()) {
        trim_end(s.drop_last())
    } else {
        s
    }
}

/// `s` with white space removed at both ends, as `str::trim` gives it.
pub open spec fn trim(s: Seq<char>) -> Seq<char> {
    trim_end(trim_start(s))
}

/// The index range of `chars[lo..hi]` with white space trimmed at both ends.
pub fn trim_range(chars: &Vec<char>, lo: usize, hi: usize) -> (r: (usize, usize))
    requires
        lo <= hi <= chars.len(),
    ensures
        lo <= r.0 <= r.1 <= hi,
        chars@.subrange(r.0 as int, r.1 as int) == trim(chars@.subrange(lo as int, hi as int)),
{
    let mut a: usize = lo;
    while a < hi && is_white_char(chars[a])
        invariant
            lo <= a <= hi <= chars.len(),
            trim_start(chars@.subrange(lo as int, hi as int)) == trim_start(
                chars@.subrange(a as int, hi as int),
            ),
        decreases hi - a,
    {
        assert(chars@.subrange(a as int, hi as int).drop_first() == chars@.subrange(
            a + 1,
            hi as int,
        ));
        a = a + 1;
    }
    assert(trim_start(chars@.subrange(a as int, hi as int)) == chars@.subrange(a as int, hi as int));
    let mut b: usize = hi;
    while b > a && is_white_char(chars[b - 1])
        invariant
            lo <= a <= b <= hi <= chars.len(),
            trim_end(chars@.subrange(a as int, hi as int)) == trim_end(
                chars@.subrange(a as int, b as int),
            ),
        decreases b - a,
    {
        assert(chars@.subrange(a as int, b as int).drop_last() == chars@.subrange(
            a as int,
            b - 1,
        ));
        b = b - 1;
    }
    (a, b)
}

/// An ASCII decimal digit.
pub open spec fn is_digit(c: char) -> bool {
    48 <= (c as u32) <= 57
}

pub open spec fn all_digits(s: Seq<char>) -> bool {
    forall|i: int| 0 <= i < s.len() ==> #[trigger] is_digit(s[i])
}

/// The number that the decimal digits `s` write.
pub open spec fn decimal_value(s: Seq<char>) -> nat
    decreases s.len(),
{
    if s.len() == 0 {
        0
    } else {
        decimal_value(s.drop_last()) * 10 + ((s.last() as u32) - 48) as nat
    }
}

/// The digits of an unsigned number: `s` without one leading `+`.
pub open spec fn unsigned_digits(s: Seq<char>) -> Seq<char> {
    if s.len() > 0 && s[0] == '+' {
        s.drop_first()
    } else {
        s
    }
}

/// What `str::parse::<u64>` gives: an optional `+`, then one or more ASCII
/// digits whose value fits in a `u64`; anything else is refused.
pub open spec fn parse_u64_spec(s: Seq<char>) -> Option<u64> {
    let d = unsigned_digits(s);
    if d.len() > 0 && all_digits(d) && decimal_value(d) <= u64::MAX {
        Some(decimal_value(d) as u64)
    } else {
        None
    }
}

proof fn lemma_decimal_monotone(s: Seq<char>, i: int)
    requires
        0 <= i <= s.len(),
        all_digits(s),
    ensures
        decimal_value(s.take(i)) <= decimal_value(s),
    decreases s.len() - i,
{
    if i < s.len() {
        lemma_decimal_monotone(s, i + 1);
        assert(s.take(i + 1).drop_last() == s.take(i));
        assert(is_digit(s[i]));
    } else {
        assert(s.take(i) == s);
    }
}

/// Parses `chars[lo..hi]` as an unsigned 64-bit decimal number.
pub fn parse_u64(chars: &Vec<char>, lo: usize, hi: usize) -> (r: Option<u64>)
    requires
        lo <= hi <= chars.len(),
    ensures
        r == parse_u64_spec(chars@.subrange(lo as int, hi as int)),
{
    let ghost s = chars@.subrange(lo as int, hi as int);
    let mut start: usize = lo;
    if lo < hi && chars[lo] == '+' {
        start = lo + 1;
    }
    let ghost d = chars@.subrange(start as int, hi as int);
    assert(d == unsigned_digits(s));
    if start == hi {
        return None;
    }
    let mut value: u64 = 0;
    let mut i: usize = start;
    while i < hi
        invariant
            lo <= start <= i <= hi <= chars.len(),
            d == chars@.subrange(start as int, hi as int),
            d == unsigned_digits(chars@.subrange(lo as int, hi as int)),
            d.len() > 0,
            all_digits(d.take(i - start)),
            value as nat == decimal_value(d.take(i - start)),
        decreases hi - i,
    {
        let c = chars[i];
        let v: u32 = c as u32;
        assert(d.take(i - start + 1).drop_last() == d.take(i - start));
        assert(d.take(i - start + 1).last() == c);
        if v < 48 || v > 57 {
            assert(!is_digit(d[i - start]));
            return None;
        }
        let digit: u64 = (v - 48) as u64;
        if value > (u64::MAX - digit) / 10 {
            assert(value * 10 + digit > u64::MAX) by (nonlinear_arith)
                requires
                    value > (u64::MAX - digit) / 10,
                    digit <= 9,
            ;
            proof {
                assert(all_digits(d.take(i - start + 1)));
                if all_digits(d) {
                    lemma_decimal_monotone(d, i - start + 1);
                }
            }
            return None;
        }
        assert(value * 10 + digit <= u64::MAX) by (nonlinear_arith)
            requires
                value <= (u64::MAX - digit) / 10,
                digit <= 9,
        ;
        value = value * 10 + digit;
        i = i + 1;
    }
    assert(d.take(hi - start) == d);
    Some(value)
}

/// `c` as `u8::to_ascii_lowercase` and `char::to_ascii_lowercase` map it, by code.
pub open spec fn ascii_lower(c: char) -> u32 {
    let v = c as u32;
    if 65 <= v <= 90 {
        (v + 32) as u32
    } else {
        v
    }
}

/// `str::eq_ignore_ascii_case`: equal once ASCII letters are folded to lower case.
pub open spec fn eq_ignore_ascii_case(a: Seq<char>, b: Seq<char>) -> bool {
    &&& a.len() == b.len()
    &&& forall|i: int| 0 <= i < a.len() ==> #[trigger] ascii_lower(a[i]) == ascii_lower(b[i])
}

fn ascii_lower_char(c: char) -> (r: u32)
    ensures
        r == ascii_lower(c),
{
    let v: u32 = c as u32;
    if 65 <= v && v <= 90 {
        v + 32
    } else {
        v
    }
}

/// Compares `a[alo..ahi]` and `b[blo..bhi]` without regard to ASCII case.
pub fn ranges_eq_ignore_ascii_case(
    a: &Vec<char>,
    alo: usize,
    ahi: usize,
    b: &Vec<char>,
    blo: usize,
    bhi: usize,
) -> (r: bool)
    requires
        alo <= ahi <= a.len(),
        blo <= bhi <= b.len(),
    ensures
        r == eq_ignore_ascii_case(
            a@.subrange(alo as int, ahi as int),
            b@.subrange(blo as int, bhi as int),
        ),
{
    let ghost sa = a@.subrange(alo as int, ahi as int);
    let ghost sb = b@.subrange(blo as int, bhi as int);
    if ahi - alo != bhi - blo {
        return false;
    }
    let n = ahi - alo;
    let mut i: usize = 0;
    while i < n
        invariant
            n == ahi - alo == bhi - blo,
            alo <= ahi <= a.len(),
            blo <= bhi <= b.len(),
            i <= n,
            sa == a@.subrange(alo as int, ahi as int),
            sb == b@.subrange(blo as int, bhi as int),
            forall|j: int| 0 <= j < i ==> #[trigger] ascii_lower(sa[j]) == ascii_lower(sb[j]),
        decreases n - i,
    {
        if ascii_lower_char(a[alo + i]) != ascii_lower_char(b[blo + i]) {
            assert(ascii_lower(sa[i as int]) != ascii_lower(sb[i as int]));
            return false;
        }
        i = i + 1;
    }
    true
}

/// Whether `s` begins with `p`.
pub open spec fn has_prefix(s: Seq<char>, p: Seq<char>) -> bool {
    p.len() <= s.len() && s.subrange(0, p.len() as int) == p
}

/// Whether `s` ends with `p`.
pub open spec fn has_suffix(s: Seq<char>, p: Seq<char>) -> bool {
    p.len() <= s.len() && s.subrange(s.len() - p.len(), s.len() as int) == p
}

/// Whether `s[lo..hi]` begins with `p`.
pub fn range_starts_with(s: &Vec<char>, lo: usize, hi: usize, p: &Vec<char>) -> (r: bool)
    requires
        lo <= hi <= s.len(),
    ensures
        r == has_prefix(s@.subrange(lo as int, hi as int), p@),
{
    let ghost t = s@.subrange(lo as int, hi as int);
    if p.len() > hi - lo {
        return false;
    }
    let mut i: usize = 0;
    while i < p.len()
        invariant
            p.len() <= hi - lo,
            lo <= hi <= s.len(),
            i <= p.len(),
            t == s@.subrange(lo as int, hi as int),
            forall|j: int| 0 <= j < i ==> #[trigger] t[j] == p@[j],
        decreases p.len() - i,
    {
        if s[lo + i] != p[i] {
            assert(t.subrange(0, p.len() as int)[i as int] != p@[i as int]);
            return false;
        }
        i = i + 1;
    }
    assert(t.subrange(0, p.len() as int) == p@);
    true
}

/// Whether `s[lo..hi]` ends with `p`.
pub fn range_ends_with(s: &Vec<char>, lo: usize, hi: usize, p: &Vec<char>) -> (r: bool)
    requires
        lo <= hi <= s.len(),
    ensures
        r == has_suffix(s@.subrange(lo as int, hi as int), p@),
{
    let ghost t = s@.subrange(lo as int, hi as int);
    if p.len() > hi - lo {
        return false;
    }
    let off: usize = hi - p.len();
    let mut i: usize = 0;
    while i < p.len()
        invariant
            p.len() <= hi - lo,
            lo <= off <= hi <= s.len(),
            off == hi - p.len(),
            i <= p.len(),
            t == s@.subrange(lo as int, hi as int),
            forall|j: int| 0 <= j < i ==> #[trigger] s@[off + j] == p@[j],
        decreases p.len() - i,
    {
        if s[off + i] != p[i] {
            assert(t.subrange(t.len() - p.len(), t.len() as int)[i as int] != p@[i as int]);
            return false;
        }
        i = i + 1;
    }
    assert forall|j: int| 0 <= j < p.len() implies #[trigger] t.subrange(
        t.len() - p.len(),
        t.len() as int,
    )[j] == p@[j] by {
        assert(s@[off + j] == p@[j]);
    }
    assert(t.subrange(t.len() - p.len(), t.len() as int) == p@);
    true
}


/// The order of `String`'s `Ord`: lexicographic by character code (UTF-8
/// keeps the order of code points, so this is also the byte order).
pub open spec fn lex_le(a: Seq<char>, b: Seq<char>) -> bool
    decreases a.len(),
{
    if a.len() == 0 {
        true
    } else if b.len() == 0 {
        false
    } else if a[0] != b[0] {
        a[0] < b[0]
    } else {
        lex_le(a.drop_first(), b.drop_first())
    }
}

/// `lex_le` as a relation.
pub open spec fn name_order() -> spec_fn(Seq<char>, Seq<char>) -> bool {
    |a: Seq<char>, b: Seq<char>| lex_le(a, b)
}

proof fn lemma_lex_reflexive(a: Seq<char>)
    ensures
        lex_le(a, a),
    decreases a.len(),
{
    if a.len() > 0 {
        lemma_lex_reflexive(a.drop_first());
    }
}

proof fn lemma_lex_antisymmetric(a: Seq<char>, b: Seq<char>)
    requires
        lex_le(a, b),
        lex_le(b, a),
    ensures
        a == b,
    decreases a.len(),
{
    if a.len() > 0 && b.len() > 0 {
        if a[0] == b[0] {
            lemma_lex_antisymmetric(a.drop_first(), b.drop_first());
            assert(a == seq![a[0]] + a.drop_first());
            assert(b == seq![b[0]] + b.drop_first());
        }
    }
}

proof fn lemma_lex_transitive(a: Seq<char>, b: Seq<char>, c: Seq<char>)
    requires
        lex_le(a, b),
        lex_le(b, c),
    ensures
        lex_le(a, c),
    decreases a.len(),
{
    if a.len() > 0 && b.len() > 0 && c.len() > 0 {
        if a[0] == b[0] && b[0] == c[0] {
            lemma_lex_transitive(a.drop_first(), b.drop_first(), c.drop_first());
        }
    }
}

proof fn lemma_lex_connected(a: Seq<char>, b: Seq<char>)
    ensures
        lex_le(a, b) || lex_le(b, a),
    decreases a.len(),
{
    if a.len() > 0 && b.len() > 0 {
        if a[0] == b[0] {
            lemma_lex_connected(a.drop_first(), b.drop_first());
        }
    }
}

/// `lex_le` is a total order, so sorting by it has one result.
pub proof fn lemma_name_order_total()
    ensures
        total_ordering(name_order()),
{
    let r = name_order();
    assert forall|x: Seq<char>| #[trigger] r(x, x) by {
        lemma_lex_reflexive(x);
    }
    assert forall|x: Seq<char>, y: Seq<char>| #[trigger] r(x, y) && #[trigger] r(y, x) implies x
        == y by {
        lemma_lex_antisymmetric(x, y);
    }
    assert forall|x: Seq<char>, y: Seq<char>, z: Seq<char>| #[trigger] r(x, y) && #[trigger] r(
        y,
        z,
    ) implies r(x, z) by {
        lemma_lex_transitive(x, y, z);
    }
    assert forall|x: Seq<char>, y: Seq<char>| #[trigger] r(x, y) || #[trigger] r(y, x) by {
        lemma_lex_connected(x, y);
    }
}

/// Whether `a` comes before `b` or equals it in the order of names.
pub fn lex_le_chars(a: &Vec<char>, b: &Vec<char>) -> (r: bool)
    ensures
        r == lex_le(a@, b@),
{
    let mut i: usize = 0;
    assert(a@.skip(0) == a@ && b@.skip(0) == b@);
    while i < a.len() && i < b.len() && a[i] == b[i]
        invariant
            i <= a.len(),
            i <= b.len(),
            lex_le(a@, b@) == lex_le(a@.skip(i as int), b@.skip(i as int)),
        decreases a.len() - i,
    {
        assert(a@.skip(i as int).drop_first() == a@.skip(i + 1));
        assert(b@.skip(i as int).drop_first() == b@.skip(i + 1));
        i = i + 1;
    }
    if i == a.len() {
        true
    } else if i == b.len() {
        false
    } else {
        a[i] < b[i]
    }
}


/// Whether `chars[lo..hi]` is all ASCII digits.
pub fn range_all_digits(chars: &Vec<char>, lo: usize, hi: usize) -> (r: bool)
    requires
        lo <= hi <= chars.len(),
    ensures
        r == all_digits(chars@.subrange(lo as int, hi as int)),
{
    let ghost t = chars@.subrange(lo as int, hi as int);
    let mut i: usize = lo;
    while i < hi
        invariant
            lo <= i <= hi <= chars.len(),
            t == chars@.subrange(lo as int, hi as int),
            forall|j: int| 0 <= j < i - lo ==> #[trigger] is_digit(t[j]),
        decreases hi - i,
    {
        let v: u32 = chars[i] as u32;
        if v < 48 || v > 57 {
            assert(!is_digit(t[i - lo]));
            return false;
        }
        i = i + 1;
    }
    true
}

/// The views of a sequence of strings.
pub open spec fn views(s: Seq<String>) -> Seq<Seq<char>> {
    s.map_values(|x: String| x@)
}


/// A copy of a list of names.
pub fn copy_names(v: &Vec<String>) -> (r: Vec<String>)
    ensures
        views(r@) == views(v@),
{
    let mut r: Vec<String> = Vec::new();
    let mut i: usize = 0;
    while i < v.len()
        invariant
            i <= v.len(),
            views(r@) == views(v@).take(i as int),
        decreases v.len() - i,
    {
        r.push(v[i].clone());
        assert(views(v@).take(i + 1) == views(v@).take(i as int).push(v@[i as int]@));
        i = i + 1;
    }
    assert(views(v@).take(v.len() as int) == views(v@));
    r
}

/// `Path::join` of a relative file name: a `/` goes between the two unless
/// the directory is empty or already ends with one.
pub open spec fn path_join(dir: Seq<char>, name: Seq<char>) -> Seq<char> {
    if dir.len() == 0 {
        name
    } else if dir.last() == '/' {
        dir + name
    } else {
        dir + seq!['/'] + name
    }
}

/// The path of the entry `name` in the directory `dir`.
pub fn join_path(dir: &String, name: &str) -> (r: String)
    ensures
        r@ == path_join(dir@, name@),
{
    let d = chars_of(dir.as_str());
    if d.len() == 0 {
        name.to_owned()
    } else if d[d.len() - 1] == '/' {
        dir.clone().concat(name)
    } else {
        proof {
            reveal_strlit("/");
        }
        dir.clone().concat("/").concat(name)
    }
}


/// `text` trimmed, or `default` where there is none.
pub fn trimmed_or(text: Option<String>, default: &str) -> (r: String)
    ensures
        r@ == match text {
            Some(t) => trim(t@),
            None => default@,
        },
{
    match text {
        Some(t) => {
            let c = chars_of(t.as_str());
            let (a, b) = trim_range(&c, 0, c.len());
            assert(c@.subrange(0, c.len() as int) == c@);
            t.as_str().substring_char(a, b).to_owned()
        },
        None => default.to_owned(),
    }
}


/// `u64` parsing read digit by digit: nothing and a lone `+` are refused;
/// a single digit is its value; a leading `+` (once) changes nothing; a
/// digit appended to a number multiplies it by ten and adds the digit,
/// refused where that passes `u64::MAX`; any other character appended, or
/// anything appended to a refused text (other than a lone `+`), is refused.
pub proof fn law_parse_u64_digit_by_digit(s: Seq<char>, c: char)
    ensures
        parse_u64_spec(Seq::empty()) is None,
        parse_u64_spec(seq!['+']) is None,
        48 <= (c as u32) <= 57 ==> parse_u64_spec(seq![c]) == Some(((c as u32) - 48) as u64),
        (s.len() == 0 || s[0] != '+') ==> parse_u64_spec(seq!['+'] + s) == parse_u64_spec(s),
        48 <= (c as u32) <= 57 ==> (parse_u64_spec(s) matches Some(v) ==> parse_u64_spec(s.push(c))
            == if v * 10 + ((c as u32) - 48) <= u64::MAX {
            Some((v * 10 + ((c as u32) - 48)) as u64)
        } else {
            None
        }),
        !(48 <= (c as u32) <= 57) && s.len() > 0 ==> parse_u64_spec(s.push(c)) is None,
        (parse_u64_spec(s) is None && s.len() > 0 && s != seq!['+']) ==> parse_u64_spec(s.push(c))
            is None,
{
    let e = Seq::<char>::empty();
    assert(seq![c].drop_last() == e);
    assert(seq!['+'].drop_first() == e);
    if s.len() == 0 || s[0] != '+' {
        assert((seq!['+'] + s)[0] == '+');
        assert((seq!['+'] + s).drop_first() == s);
    }
    if s.len() > 0 {
        let d = unsigned_digits(s);
        let t = s.push(c);
        assert(t[0] == s[0]);
        if s[0] == '+' {
            assert(t.drop_first() == d.push(c));
        } else {
            assert(t == d.push(c));
        }
        assert(unsigned_digits(t) == d.push(c));
        assert(d.push(c).drop_last() == d);
        assert(d.push(c).last() == c);
        if !(48 <= (c as u32) <= 57) {
            assert(!is_digit(d.push(c)[d.len() as int]));
        }
        if parse_u64_spec(s) is None && s != seq!['+'] && 48 <= (c as u32) <= 57 {
            if d.len() == 0 {
                assert(s == seq!['+']);
            } else if !all_digits(d) {
                let j = choose|j: int| 0 <= j < d.len() && !#[trigger] is_digit(d[j]);
                assert(d.push(c)[j] == d[j]);
            } else {
                assert(decimal_value(d.push(c)) >= decimal_value(d));
            }
        }
    }
}

/// Trimming keeps a run of `s` and drops only white space: the result is
/// `s[a..b]` for some `a <= b`, every character before `a` or from `b` on
/// is white space, and a non-empty result starts and ends with a character
/// that is not.
pub proof fn law_trim_drops_only_white_space(s: Seq<char>)
    ensures
        exists|a: int, b: int|
            #![trigger s.subrange(a, b)]
            0 <= a <= b <= s.len() && trim(s) == s.subrange(a, b) && (forall|j: int|
                0 <= j < a ==> is_white(#[trigger] s[j])) && (forall|j: int|
                b <= j < s.len() ==> is_white(#[trigger] s[j])) && (b > a ==> !is_white(s[a])
                && !is_white(s[b - 1])),
{
    let (a, b) = lemma_trim_bounds(s);
    assert(trim(s) == s.subrange(a, b));
}

proof fn lemma_trim_start_bounds(s: Seq<char>) -> (a: int)
    ensures
        0 <= a <= s.len(),
        trim_start(s) == s.subrange(a, s.len() as int),
        forall|j: int| 0 <= j < a ==> is_white(#[trigger] s[j]),
        a < s.len() ==> !is_white(s[a]),
    decreases s.len(),
{
    if s.len() > 0 && is_white(s[0]) {
        let a1 = lemma_trim_start_bounds(s.drop_first());
        assert(s.drop_first().subrange(a1, s.len() - 1) == s.subrange(a1 + 1, s.len() as int));
        assert forall|j: int| 0 <= j < a1 + 1 implies is_white(#[trigger] s[j]) by {
            if j > 0 {
                assert(s[j] == s.drop_first()[j - 1]);
            }
        }
        a1 + 1
    } else {
        assert(s.subrange(0, s.len() as int) == s);
        0
    }
}

proof fn lemma_trim_end_bounds(s: Seq<char>) -> (b: int)
    ensures
        0 <= b <= s.len(),
        trim_end(s) == s.subrange(0, b),
        forall|j: int| b <= j < s.len() ==> is_white(#[trigger] s[j]),
        b > 0 ==> !is_white(s[b - 1]),
    decreases s.len(),
{
    if s.len() > 0 && is_white(s.last()) {
        let b1 = lemma_trim_end_bounds(s.drop_last());
        assert(s.drop_last().subrange(0, b1) == s.subrange(0, b1));
        assert forall|j: int| b1 <= j < s.len() implies is_white(#[trigger] s[j]) by {
            if j < s.len() - 1 {
                assert(s[j] == s.drop_last()[j]);
            }
        }
        b1
    } else {
        assert(s.subrange(0, s.len() as int) == s);
        s.len() as int
    }
}

proof fn lemma_trim_bounds(s: Seq<char>) -> (r: (int, int))
    ensures
        0 <= r.0 <= r.1 <= s.len(),
        trim(s) == s.subrange(r.0, r.1),
        forall|j: int| 0 <= j < r.0 ==> is_white(#[trigger] s[j]),
        forall|j: int| r.1 <= j < s.len() ==> is_white(#[trigger] s[j]),
        r.1 > r.0 ==> !is_white(s[r.0]) && !is_white(s[r.1 - 1]),
{
    let a = lemma_trim_start_bounds(s);
    let t = s.subrange(a, s.len() as int);
    let b = lemma_trim_end_bounds(t);
    assert(t.subrange(0, b) == s.subrange(a, a + b));
    assert forall|j: int| a + b <= j < s.len() implies is_white(#[trigger] s[j]) by {
        assert(s[j] == t[j - a]);
    }
    if b > 0 {
        assert(s[a + b - 1] == t[b - 1]);
        assert(s[a] == t[0]);
        if a == s.len() {
        }
    }
    (a, a + b)
}

} // verus!
