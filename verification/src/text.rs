//! Text as sequences of characters: trimming, words, joining, ordering and
//! decimal numbers.

use vstd::prelude::*;
use vstd::string::*;

verus! {

/// `String::push` appends the character to the end of the string.
pub assume_specification[ String::push ](s: &mut String, c: char)
    ensures
        final(s)@ == old(s)@.push(c),
;

/// Whether a character has the Unicode `White_Space` property.
pub open spec fn is_space(c: char) -> bool {
    let n = c as u32;
    ||| 0x09 <= n <= 0x0d
    ||| n == 0x20
    ||| n == 0x85
    ||| n == 0xa0
    ||| n == 0x1680
    ||| 0x2000 <= n <= 0x200a
    ||| n == 0x2028
    ||| n == 0x2029
    ||| n == 0x202f
    ||| n == 0x205f
    ||| n == 0x3000
}

pub fn is_white(c: char) -> (yes: bool)
    ensures
        yes == is_space(c),
{
    let n: u32 = c as u32;
    (0x09 <= n && n <= 0x0d) || n == 0x20 || n == 0x85 || n == 0xa0 || n == 0x1680 || (0x2000 <= n
        && n <= 0x200a) || n == 0x2028 || n == 0x2029 || n == 0x202f || n == 0x205f || n == 0x3000
}

/// `s` without the white space it starts with.
pub open spec fn trim_start(s: Seq<char>) -> Seq<char>
    decreases s.len(),
{
    if s.len() > 0 && is_space(s[0]) {
        trim_start(s.skip(1))
    } else {
        s
    }
}

/// `s` without the white space it ends with.
pub open spec fn trim_end(s: Seq<char>) -> Seq<char>
    decreases s.len(),
{
    if s.len() > 0 && is_space(s.last()) {
        trim_end(s.drop_last())
    } else {
        s
    }
}

/// `s` without white space at either end.
pub open spec fn trim(s: Seq<char>) -> Seq<char> {
    trim_end(trim_start(s))
}

/// The first `n` characters of `s`, or all of them where there are fewer.
pub open spec fn first_chars(s: Seq<char>, n: nat) -> Seq<char> {
    if n < s.len() {
        s.take(n as int)
    } else {
        s
    }
}

/// The number of characters in front of the first white space.
pub open spec fn word_len(s: Seq<char>) -> nat
    decreases s.len(),
{
    if s.len() == 0 || is_space(s[0]) {
        0
    } else {
        1 + word_len(s.skip(1))
    }
}

/// The words of `s`: its longest runs without white space, in order.
pub open spec fn words(s: Seq<char>) -> Seq<Seq<char>>
    decreases s.len(),
{
    if s.len() == 0 {
        Seq::empty()
    } else if is_space(s[0]) {
        words(s.skip(1))
    } else {
        let n = word_len(s) as int;
        if 0 < n <= s.len() {
            seq![s.take(n)] + words(s.skip(n))
        } else {
            Seq::empty()
        }
    }
}

/// The parts in order, with `sep` between each two neighbours.
pub open spec fn join(parts: Seq<Seq<char>>, sep: Seq<char>) -> Seq<char>
    decreases parts.len(),
{
    if parts.len() == 0 {
        Seq::empty()
    } else if parts.len() == 1 {
        parts[0]
    } else {
        join(parts.drop_last(), sep) + sep + parts.last()
    }
}

/// `s` with each run of white space between words made one space, and none
/// at the ends.
pub open spec fn collapse(s: Seq<char>) -> Seq<char> {
    join(words(s), seq![' '])
}

/// Whether `needle` occurs in `s` at position `at`.
pub open spec fn occurs_at(s: Seq<char>, needle: Seq<char>, at: int) -> bool {
    0 <= at && at + needle.len() <= s.len() && s.subrange(at, at + needle.len()) == needle
}

/// Whether `needle` occurs somewhere in `s`.
pub open spec fn occurs_in(s: Seq<char>, needle: Seq<char>) -> bool {
    exists|at: int| occurs_at(s, needle, at)
}

/// An ASCII upper-case letter made lower-case; any other character as it is.
pub open spec fn ascii_lower(c: char) -> char {
    if 'A' <= c && c <= 'Z' {
        (c as u32 + 32) as char
    } else {
        c
    }
}

/// An ASCII lower-case letter made upper-case; any other character as it is.
pub open spec fn ascii_upper(c: char) -> char {
    if 'a' <= c && c <= 'z' {
        (c as u32 - 32) as char
    } else {
        c
    }
}

pub open spec fn ascii_lower_all(s: Seq<char>) -> Seq<char> {
    Seq::new(s.len(), |i: int| ascii_lower(s[i]))
}

pub open spec fn digit_char(d: nat) -> char {
    ('0' as u32 + d) as char
}

/// The decimal digits of `n`, without leading zeros.
pub open spec fn decimal(n: nat) -> Seq<char>
    decreases n,
{
    if n < 10 {
        seq![digit_char(n)]
    } else {
        decimal(n / 10).push(digit_char(n % 10))
    }
}

/// The decimal form of `n`, with a minus sign in front of a negative number.
pub open spec fn signed_decimal(n: int) -> Seq<char> {
    if n < 0 {
        seq!['-'] + decimal((-n) as nat)
    } else {
        decimal(n as nat)
    }
}

/// Lexicographic order by code point.
pub open spec fn precedes(a: Seq<char>, b: Seq<char>) -> bool
    decreases a.len(),
{
    if b.len() == 0 {
        false
    } else if a.len() == 0 {
        true
    } else if a[0] != b[0] {
        a[0] < b[0]
    } else {
        precedes(a.skip(1), b.skip(1))
    }
}

/// `x` put into its place in an ascending list, unless it is there already.
pub open spec fn insert_sorted(sorted: Seq<Seq<char>>, x: Seq<char>) -> Seq<Seq<char>>
    decreases sorted.len(),
{
    if sorted.len() == 0 {
        seq![x]
    } else if x == sorted[0] {
        sorted
    } else if precedes(x, sorted[0]) {
        seq![x] + sorted
    } else {
        seq![sorted[0]] + insert_sorted(sorted.skip(1), x)
    }
}

/// The different texts of a list, in ascending order.
pub open spec fn sorted_set(items: Seq<Seq<char>>) -> Seq<Seq<char>>
    decreases items.len(),
{
    if items.len() == 0 {
        Seq::empty()
    } else {
        insert_sorted(sorted_set(items.drop_last()), items.last())
    }
}

/// Whether each text of a list comes before every later one.
pub open spec fn ascending(s: Seq<Seq<char>>) -> bool {
    forall|i: int, j: int| 0 <= i < j < s.len() ==> precedes(#[trigger] s[i], #[trigger] s[j])
}

pub open spec fn is_digit(c: char) -> bool {
    '0' <= c && c <= '9'
}

pub open spec fn all_digits(s: Seq<char>) -> bool {
    forall|i: int| 0 <= i < s.len() ==> is_digit(#[trigger] s[i])
}

/// The number that a string of decimal digits stands for.
pub open spec fn digits_value(s: Seq<char>) -> nat
    decreases s.len(),
{
    if s.len() == 0 {
        0
    } else {
        digits_value(s.drop_last()) * 10 + (s.last() as u32 - '0' as u32) as nat
    }
}

/// The number that a non-empty string of decimal digits stands for.
pub open spec fn parse_nat(s: Seq<char>) -> Option<nat> {
    if s.len() > 0 && all_digits(s) {
        Some(digits_value(s))
    } else {
        None
    }
}

/// The number that decimal digits with an optional sign in front stand for.
pub open spec fn parse_int(s: Seq<char>) -> Option<int> {
    if s.len() > 0 && (s[0] == '-' || s[0] == '+') {
        match parse_nat(s.skip(1)) {
            Some(n) => if s[0] == '-' {
                Some(-(n as int))
            } else {
                Some(n as int)
            },
            None => None,
        }
    } else {
        match parse_nat(s) {
            Some(n) => Some(n as int),
            None => None,
        }
    }
}

/// The position of the first `c` in `s` from `from` on, or the length of `s`.
pub open spec fn find_char(s: Seq<char>, c: char, from: int) -> int
    decreases s.len() - from,
{
    if from < 0 || from >= s.len() {
        s.len() as int
    } else if s[from] == c {
        from
    } else {
        find_char(s, c, from + 1)
    }
}

/// The parts of `s` in front of and behind its first `sep`.
pub open spec fn split_first(s: Seq<char>, sep: char) -> Option<(Seq<char>, Seq<char>)> {
    let at = find_char(s, sep, 0);
    if 0 <= at < s.len() {
        Some((s.take(at), s.skip(at + 1)))
    } else {
        None
    }
}

/// The parts of `s` between its `sep`s. There is one more part than there are
/// separators.
pub open spec fn split_all(s: Seq<char>, sep: char) -> Seq<Seq<char>>
    decreases s.len(),
{
    match split_first(s, sep) {
        Some((head, tail)) => if tail.len() < s.len() {
            seq![head] + split_all(tail, sep)
        } else {
            seq![s]
        },
        None => seq![s],
    }
}

/// `s` without any number of `suffix`es at its end.
pub open spec fn strip_suffixes(s: Seq<char>, suffix: Seq<char>) -> Seq<char>
    decreases s.len(),
{
    if suffix.len() > 0 && occurs_at(s, suffix, s.len() - suffix.len()) {
        strip_suffixes(s.take(s.len() - suffix.len()), suffix)
    } else {
        s
    }
}

/// `s` without its last character.
pub open spec fn without_last(s: Seq<char>) -> Seq<char> {
    if s.len() == 0 {
        s
    } else {
        s.drop_last()
    }
}

/// `s` with spaces behind it until it is `n` characters long.
pub open spec fn padded(s: Seq<char>, n: nat) -> Seq<char> {
    if s.len() < n {
        s + Seq::new((n - s.len()) as nat, |i: int| ' ')
    } else {
        s
    }
}

/// `s` cut to `max` characters, the last of them an ellipsis where anything
/// was cut off.
pub open spec fn ellipsized(s: Seq<char>, max: nat) -> Seq<char> {
    if s.len() <= max {
        s
    } else if max == 0 {
        Seq::empty()
    } else {
        s.take(max - 1).push('…')
    }
}

/// The views of a list of strings.
pub open spec fn views(v: Seq<String>) -> Seq<Seq<char>> {
    Seq::new(v.len(), |i: int| v[i]@)
}

pub open spec fn opt_view(o: Option<String>) -> Option<Seq<char>> {
    match o {
        Some(s) => Some(s@),
        None => None,
    }
}

pub fn chars_of(s: &str) -> (out: Vec<char>)
    ensures
        out@ == s@,
{
    let mut out: Vec<char> = Vec::new();
    for c in it: s.chars()
        invariant
            out@ == it.seq().take(it.index() as int),
            it.seq() == s@,
    {
        out.push(c);
    }
    out
}

pub fn string_of_range(chars: &Vec<char>, from: usize, to: usize) -> (s: String)
    requires
        from <= to <= chars@.len(),
    ensures
        s@ == chars@.subrange(from as int, to as int),
{
    let mut s = String::new();
    let mut i: usize = from;
    while i < to
        invariant
            from <= i <= to <= chars@.len(),
            s@ == chars@.subrange(from as int, i as int),
        decreases to - i,
    {
        s.push(chars[i]);
        i += 1;
        assert(s@ =~= chars@.subrange(from as int, i as int));
    }
    s
}

pub fn string_of(chars: &Vec<char>) -> (s: String)
    ensures
        s@ == chars@,
{
    let s = string_of_range(chars, 0, chars.len());
    assert(s@ =~= chars@);
    s
}

/// Whether two texts are the same.
pub fn same_text(a: &str, b: &str) -> (yes: bool)
    ensures
        yes == (a@ == b@),
{
    let x = chars_of(a);
    let y = chars_of(b);
    if x.len() != y.len() {
        return false;
    }
    let mut i: usize = 0;
    while i < x.len()
        invariant
            i <= x@.len(),
            x@.len() == y@.len(),
            x@ == a@,
            y@ == b@,
            forall|k: int| 0 <= k < i ==> x@[k] == y@[k],
        decreases x@.len() - i,
    {
        if x[i] != y[i] {
            assert(a@[i as int] != b@[i as int]);
            return false;
        }
        i += 1;
    }
    assert(a@ =~= b@);
    true
}

/// Whether an optional text is present and the same as `b`.
pub fn is_some_text(a: &Option<String>, b: &str) -> (yes: bool)
    ensures
        yes == (opt_view(*a) == Some(b@)),
{
    match a {
        Some(s) => same_text(s.as_str(), b),
        None => false,
    }
}

/// Whether two optional texts are the same.
pub fn same_option(a: &Option<String>, b: &Option<String>) -> (yes: bool)
    ensures
        yes == (opt_view(*a) == opt_view(*b)),
{
    match b {
        Some(s) => is_some_text(a, s.as_str()),
        None => a.is_none(),
    }
}

pub fn clone_option(a: &Option<String>) -> (b: Option<String>)
    ensures
        b == *a,
{
    match a {
        Some(s) => Some(s.clone()),
        None => None,
    }
}

/// The first `n` characters of a text.
pub fn take_chars(s: &str, n: usize) -> (head: String)
    ensures
        head@ == first_chars(s@, n as nat),
{
    let chars = chars_of(s);
    let len: usize = chars.len();
    let end: usize = if n < len {
        n
    } else {
        len
    };
    let head = string_of_range(&chars, 0, end);
    assert(head@ =~= first_chars(s@, n as nat));
    head
}

pub fn is_empty(s: &str) -> (yes: bool)
    ensures
        yes == (s@.len() == 0),
{
    s.unicode_len() == 0
}

/// A text without its last character.
pub fn drop_last_char(s: &str) -> (out: String)
    ensures
        out@ == without_last(s@),
{
    let chars = chars_of(s);
    if chars.len() == 0 {
        return String::new();
    }
    let out = string_of_range(&chars, 0, chars.len() - 1);
    assert(out@ =~= s@.drop_last());
    out
}

/// A text with spaces behind it until it is `n` characters long.
pub fn pad_right(s: &str, n: usize) -> (out: String)
    ensures
        out@ == padded(s@, n as nat),
{
    let mut out = s.to_owned();
    let mut len: usize = s.unicode_len();
    let ghost blanks = |k: int| Seq::new(k as nat, |i: int| ' ');
    assert(out@ =~= s@ + blanks(0));
    while len < n
        invariant
            s@.len() <= len,
            len <= n || len == s@.len(),
            blanks == (|k: int| Seq::new(k as nat, |i: int| ' ')),
            out@ == s@ + blanks(len - s@.len()),
        decreases n - len,
    {
        out.push(' ');
        len += 1;
        assert(out@ =~= s@ + blanks(len - s@.len()));
    }
    assert(out@ =~= padded(s@, n as nat));
    out
}

/// A text cut to `max` characters, the last of them an ellipsis where
/// anything was cut off.
pub fn ellipsize(s: &str, max: usize) -> (out: String)
    ensures
        out@ == ellipsized(s@, max as nat),
{
    let chars = chars_of(s);
    if chars.len() <= max {
        return s.to_owned();
    }
    if max == 0 {
        return String::new();
    }
    let mut out = string_of_range(&chars, 0, max - 1);
    out.push('…');
    assert(out@ =~= ellipsized(s@, max as nat));
    out
}

/// Where the white space at the start ends, and where that at the end starts.
fn trim_bounds(chars: &Vec<char>) -> (bounds: (usize, usize))
    ensures
        bounds.0 <= bounds.1 <= chars@.len(),
        trim_start(chars@) == chars@.skip(bounds.0 as int),
        trim(chars@) == chars@.subrange(bounds.0 as int, bounds.1 as int),
{
    let mut from: usize = 0;
    assert(chars@.skip(0) =~= chars@);
    while from < chars.len() && is_white(chars[from])
        invariant
            from <= chars@.len(),
            trim_start(chars@) == trim_start(chars@.skip(from as int)),
        decreases chars@.len() - from,
    {
        assert(chars@.skip(from as int).skip(1) =~= chars@.skip(from + 1));
        from += 1;
    }
    let mut to: usize = chars.len();
    assert(chars@.subrange(from as int, to as int) =~= chars@.skip(from as int));
    while from < to && is_white(chars[to - 1])
        invariant
            from <= to <= chars@.len(),
            trim(chars@) == trim_end(chars@.subrange(from as int, to as int)),
        decreases to,
    {
        assert(chars@.subrange(from as int, to as int).drop_last() =~= chars@.subrange(
            from as int,
            to - 1,
        ));
        to -= 1;
    }
    (from, to)
}

/// A text without white space at either end.
pub fn trimmed(s: &str) -> (out: String)
    ensures
        out@ == trim(s@),
{
    let chars = chars_of(s);
    let (from, to) = trim_bounds(&chars);
    string_of_range(&chars, from, to)
}

/// Whether a text holds nothing but white space.
pub fn is_blank(s: &str) -> (yes: bool)
    ensures
        yes == (trim(s@).len() == 0),
{
    let chars = chars_of(s);
    let (from, to) = trim_bounds(&chars);
    from == to
}

/// A text without the white space it ends with.
pub fn trimmed_end(s: &str) -> (out: String)
    ensures
        out@ == trim_end(s@),
{
    let chars = chars_of(s);
    let mut to: usize = chars.len();
    assert(chars@.take(to as int) =~= chars@);
    while 0 < to && is_white(chars[to - 1])
        invariant
            to <= chars@.len(),
            trim_end(chars@) == trim_end(chars@.take(to as int)),
        decreases to,
    {
        assert(chars@.take(to as int).drop_last() =~= chars@.take(to - 1));
        to -= 1;
    }
    assert(chars@.take(to as int) =~= chars@.subrange(0, to as int));
    string_of_range(&chars, 0, to)
}

proof fn word_len_bound(s: Seq<char>)
    ensures
        word_len(s) <= s.len(),
        s.len() > 0 && !is_space(s[0]) ==> word_len(s) > 0,
    decreases s.len(),
{
    if s.len() > 0 && !is_space(s[0]) {
        word_len_bound(s.skip(1));
    }
}

/// The words of a text.
pub fn split_words(s: &str) -> (out: Vec<String>)
    ensures
        views(out@) == words(s@),
{
    let chars = chars_of(s);
    let mut out: Vec<String> = Vec::new();
    let mut i: usize = 0;
    assert(chars@.skip(0) =~= chars@);
    assert(views(out@) + words(chars@) =~= words(chars@));
    while i < chars.len()
        invariant
            i <= chars@.len(),
            words(chars@) == views(out@) + words(chars@.skip(i as int)),
        decreases chars@.len() - i,
    {
        if is_white(chars[i]) {
            assert(chars@.skip(i as int).skip(1) =~= chars@.skip(i + 1));
            i += 1;
        } else {
            let ghost rest = chars@.skip(i as int);
            proof {
                word_len_bound(rest);
            }
            let mut end: usize = i;
            while end < chars.len() && !is_white(chars[end])
                invariant
                    i <= end <= chars@.len(),
                    rest == chars@.skip(i as int),
                    word_len(rest) == (end - i) + word_len(chars@.skip(end as int)),
                decreases chars@.len() - end,
            {
                assert(chars@.skip(end as int).skip(1) =~= chars@.skip(end + 1));
                end += 1;
            }
            assert(word_len(chars@.skip(end as int)) == 0);
            let word = string_of_range(&chars, i, end);
            let ghost before = views(out@);
            assert(word@ =~= rest.take(end - i));
            assert(rest.skip(end - i) =~= chars@.skip(end as int));
            out.push(word);
            assert(views(out@) =~= before.push(word@));
            assert(before + words(rest) =~= views(out@) + words(chars@.skip(end as int)));
            i = end;
        }
    }
    assert(words(chars@.skip(i as int)) =~= Seq::empty());
    assert(views(out@) + Seq::<Seq<char>>::empty() =~= views(out@));
    out
}

/// The parts in order, with `sep` between each two neighbours.
pub fn join_texts(parts: &Vec<String>, sep: &str) -> (out: String)
    ensures
        out@ == join(views(parts@), sep@),
{
    let mut out = String::new();
    let mut i: usize = 0;
    let ghost all = views(parts@);
    while i < parts.len()
        invariant
            i <= parts@.len(),
            all == views(parts@),
            out@ == join(all.take(i as int), sep@),
        decreases parts@.len() - i,
    {
        if i > 0 {
            out.append(sep);
        }
        out.append(parts[i].as_str());
        proof {
            let longer = all.take(i + 1);
            assert(longer.drop_last() =~= all.take(i as int));
            assert(longer.last() == parts@[i as int]@);
            if i == 0 {
                assert(out@ =~= longer[0]);
            }
        }
        i += 1;
    }
    assert(all.take(i as int) =~= all);
    out
}

/// A text with each run of white space between words made one space.
pub fn collapse_whitespace(s: &str) -> (out: String)
    ensures
        out@ == collapse(s@),
{
    let parts = split_words(s);
    proof {
        reveal_strlit(" ");
        assert(" "@ =~= seq![' ']);
    }
    join_texts(&parts, " ")
}

pub(crate) fn matches_at(chars: &Vec<char>, needle: &Vec<char>, at: usize) -> (yes: bool)
    requires
        at + needle@.len() <= chars@.len(),
    ensures
        yes == occurs_at(chars@, needle@, at as int),
{
    let mut i: usize = 0;
    let total: usize = chars.len();
    while i < needle.len()
        invariant
            i <= needle@.len(),
            at + needle@.len() <= chars@.len(),
            total == chars@.len(),
            forall|k: int| 0 <= k < i ==> chars@[at + k] == needle@[k],
        decreases needle@.len() - i,
    {
        if chars[at + i] != needle[i] {
            assert(chars@.subrange(at as int, at + needle@.len())[i as int] != needle@[i as int]);
            return false;
        }
        i += 1;
    }
    assert(chars@.subrange(at as int, at + needle@.len()) =~= needle@);
    true
}

/// Whether a text starts with `prefix`.
pub fn has_prefix(s: &str, prefix: &str) -> (yes: bool)
    ensures
        yes == occurs_at(s@, prefix@, 0),
{
    let chars = chars_of(s);
    let needle = chars_of(prefix);
    needle.len() <= chars.len() && matches_at(&chars, &needle, 0)
}

/// Whether `needle` occurs somewhere in a text.
pub fn has_text(s: &str, needle: &str) -> (yes: bool)
    ensures
        yes == occurs_in(s@, needle@),
{
    let chars = chars_of(s);
    let pattern = chars_of(needle);
    if pattern.len() > chars.len() {
        return false;
    }
    let last: usize = chars.len() - pattern.len();
    let mut at: usize = 0;
    while at <= last
        invariant
            chars@ == s@,
            pattern@ == needle@,
            last == chars@.len() - pattern@.len(),
            at <= last + 1,
            forall|k: int| 0 <= k < at ==> !occurs_at(chars@, pattern@, k),
        decreases last + 1 - at,
    {
        if matches_at(&chars, &pattern, at) {
            return true;
        }
        if at == last {
            return false;
        }
        at += 1;
    }
    false
}

/// A text with its ASCII letters made lower-case.
pub fn to_ascii_lower(s: &str) -> (out: String)
    ensures
        out@ == ascii_lower_all(s@),
{
    let chars = chars_of(s);
    let mut out = String::new();
    let mut i: usize = 0;
    while i < chars.len()
        invariant
            i <= chars@.len(),
            chars@ == s@,
            out@ == ascii_lower_all(s@).take(i as int),
        decreases chars@.len() - i,
    {
        out.push(lower_char(chars[i]));
        i += 1;
        assert(out@ =~= ascii_lower_all(s@).take(i as int));
    }
    assert(out@ =~= ascii_lower_all(s@));
    out
}

pub fn lower_char(c: char) -> (out: char)
    ensures
        out == ascii_lower(c),
{
    if 'A' <= c && c <= 'Z' {
        (c as u8 + 32) as char
    } else {
        c
    }
}

pub fn upper_char(c: char) -> (out: char)
    ensures
        out == ascii_upper(c),
{
    if 'a' <= c && c <= 'z' {
        (c as u8 - 32) as char
    } else {
        c
    }
}

pub fn push_decimal(out: &mut String, n: u64)
    ensures
        final(out)@ == old(out)@ + decimal(n as nat),
    decreases n,
{
    if n >= 10 {
        push_decimal(out, n / 10);
    }
    let d: u8 = (n % 10) as u8;
    out.push((48u8 + d) as char);
    proof {
        if n < 10 {
            assert(decimal(n as nat) =~= seq![digit_char(n as nat)]);
        }
        assert(out@ =~= old(out)@ + decimal(n as nat));
    }
}

/// The decimal form of a number.
pub fn decimal_of(n: u64) -> (out: String)
    ensures
        out@ == decimal(n as nat),
{
    let mut out = String::new();
    push_decimal(&mut out, n);
    assert(out@ =~= decimal(n as nat));
    out
}

pub fn push_signed(out: &mut String, n: i64)
    ensures
        final(out)@ == old(out)@ + signed_decimal(n as int),
{
    if n < 0 {
        out.push('-');
        let m: u64 = ((-(n + 1)) as u64) + 1;
        push_decimal(out, m);
        assert(out@ =~= old(out)@ + signed_decimal(n as int));
    } else {
        push_decimal(out, n as u64);
    }
}

/// Whether `a` comes before `b` in lexicographic order.
pub fn comes_before(a: &str, b: &str) -> (yes: bool)
    ensures
        yes == precedes(a@, b@),
{
    let x = chars_of(a);
    let y = chars_of(b);
    let mut i: usize = 0;
    assert(x@.skip(0) =~= x@);
    assert(y@.skip(0) =~= y@);
    while i < x.len() && i < y.len()
        invariant
            i <= x@.len(),
            i <= y@.len(),
            x@ == a@,
            y@ == b@,
            precedes(a@, b@) == precedes(x@.skip(i as int), y@.skip(i as int)),
        decreases x@.len() - i,
    {
        if x[i] != y[i] {
            return x[i] < y[i];
        }
        assert(x@.skip(i as int).skip(1) =~= x@.skip(i + 1));
        assert(y@.skip(i as int).skip(1) =~= y@.skip(i + 1));
        i += 1;
    }
    i < y.len()
}

/// The different texts of a list, in ascending order.
pub fn sort_and_dedup(items: &Vec<String>) -> (out: Vec<String>)
    ensures
        views(out@) == sorted_set(views(items@)),
{
    let mut out: Vec<String> = Vec::new();
    let mut i: usize = 0;
    let ghost all = views(items@);
    assert(views(out@) =~= sorted_set(all.take(0)));
    while i < items.len()
        invariant
            i <= items@.len(),
            all == views(items@),
            views(out@) == sorted_set(all.take(i as int)),
        decreases items@.len() - i,
    {
        let ghost longer = all.take(i + 1);
        assert(longer.drop_last() =~= all.take(i as int));
        assert(longer.last() == items@[i as int]@);
        insert_text(&mut out, &items[i]);
        i += 1;
    }
    assert(all.take(i as int) =~= all);
    out
}

/// Puts a text into its place in an ascending list, unless it is there already.
pub fn insert_text(out: &mut Vec<String>, x: &String)
    ensures
        views(final(out)@) == insert_sorted(views(old(out)@), x@),
{
    let mut at: usize = 0;
    let ghost before = views(out@);
    assert(before.skip(0) =~= before);
    assert(before.take(0) + insert_sorted(before, x@) =~= insert_sorted(before, x@));
    while at < out.len()
        invariant
            at <= out@.len(),
            *out == *old(out),
            before == views(out@),
            insert_sorted(before, x@) == before.take(at as int) + insert_sorted(
                before.skip(at as int),
                x@,
            ),
        decreases out@.len() - at,
    {
        if same_text(x.as_str(), out[at].as_str()) {
            assert(before.take(at as int) + before.skip(at as int) =~= before);
            return;
        }
        if comes_before(x.as_str(), out[at].as_str()) {
            out.insert(at, x.clone());
            assert(views(out@) =~= before.take(at as int) + (seq![x@] + before.skip(at as int)));
            return;
        }
        assert(before.skip(at as int).skip(1) =~= before.skip(at + 1));
        assert(before.take(at as int) + (seq![before[at as int]] + insert_sorted(
            before.skip(at + 1),
            x@,
        )) =~= before.take(at + 1) + insert_sorted(before.skip(at + 1), x@));
        at += 1;
    }
    out.push(x.clone());
    assert(views(out@) =~= before.take(at as int) + seq![x@]);
}

fn parse_nat_range(chars: &Vec<char>, from: usize, to: usize) -> (out: Option<u64>)
    requires
        from <= to <= chars@.len(),
    ensures
        out == match parse_nat(chars@.subrange(from as int, to as int)) {
            Some(n) => if n <= u64::MAX {
                Some(n as u64)
            } else {
                None
            },
            None => None,
        },
{
    let ghost s = chars@.subrange(from as int, to as int);
    if from == to {
        return None;
    }
    let mut i: usize = from;
    while i < to
        invariant
            from <= i <= to <= chars@.len(),
            s == chars@.subrange(from as int, to as int),
            forall|k: int| from <= k < i ==> is_digit(#[trigger] chars@[k]),
        decreases to - i,
    {
        if !('0' <= chars[i] && chars[i] <= '9') {
            assert(!is_digit(s[i - from]));
            return None;
        }
        i += 1;
    }
    assert(all_digits(s));
    let mut value: u64 = 0;
    let mut j: usize = from;
    while j < to
        invariant
            from <= j <= to <= chars@.len(),
            s == chars@.subrange(from as int, to as int),
            all_digits(s),
            s.len() > 0,
            value == digits_value(s.take(j - from)),
        decreases to - j,
    {
        assert(is_digit(s[j - from]));
        let d: u64 = (chars[j] as u32 - 48) as u64;
        proof {
            let longer = s.take(j + 1 - from);
            assert(longer.drop_last() =~= s.take(j - from));
            assert(longer.last() == chars@[j as int]);
            digits_value_grows(s, j + 1 - from);
        }
        if value > 1844674407370955161 || value * 10 > 18446744073709551615 - d {
            return None;
        }
        value = value * 10 + d;
        j += 1;
    }
    assert(s.take(j - from) =~= s);
    Some(value)
}

proof fn digits_value_grows(s: Seq<char>, n: int)
    requires
        0 <= n <= s.len(),
        all_digits(s),
    ensures
        digits_value(s.take(n)) <= digits_value(s),
    decreases s.len(),
{
    if n == s.len() {
        assert(s.take(n) =~= s);
    } else {
        let shorter = s.drop_last();
        assert(all_digits(shorter));
        assert(shorter.take(n) =~= s.take(n));
        digits_value_grows(shorter, n);
        assert(is_digit(s.last()));
    }
}

/// The number that a range of decimal digits stands for, where there is one
/// and it fits.
pub fn parse_usize_range(chars: &Vec<char>, from: usize, to: usize) -> (out: Option<usize>)
    requires
        from <= to <= chars@.len(),
    ensures
        out == match parse_nat(chars@.subrange(from as int, to as int)) {
            Some(n) => if n <= usize::MAX {
                Some(n as usize)
            } else {
                None
            },
            None => None,
        },
{
    match parse_nat_range(chars, from, to) {
        Some(n) => {
            if n <= usize::MAX as u64 {
                Some(n as usize)
            } else {
                None
            }
        },
        None => None,
    }
}

/// The number that a range of decimal digits with an optional sign stands
/// for, where there is one and it fits.
pub fn parse_i64_range(chars: &Vec<char>, from: usize, to: usize) -> (out: Option<i64>)
    requires
        from <= to <= chars@.len(),
    ensures
        out == match parse_int(chars@.subrange(from as int, to as int)) {
            Some(n) => if i64::MIN <= n <= i64::MAX {
                Some(n as i64)
            } else {
                None
            },
            None => None,
        },
{
    let ghost s = chars@.subrange(from as int, to as int);
    if from < to && (chars[from] == '-' || chars[from] == '+') {
        assert(s.skip(1) =~= chars@.subrange(from + 1, to as int));
        match parse_nat_range(chars, from + 1, to) {
            Some(n) => {
                if chars[from] == '-' {
                    if n <= 9223372036854775807 {
                        Some(-(n as i64))
                    } else if n == 9223372036854775808 {
                        Some(-9223372036854775807 - 1)
                    } else {
                        None
                    }
                } else if n <= 9223372036854775807 {
                    Some(n as i64)
                } else {
                    None
                }
            },
            None => None,
        }
    } else {
        match parse_nat_range(chars, from, to) {
            Some(n) => {
                if n <= 9223372036854775807 {
                    Some(n as i64)
                } else {
                    None
                }
            },
            None => None,
        }
    }
}

fn find_in(chars: &Vec<char>, c: char, from: usize) -> (at: usize)
    requires
        from <= chars@.len(),
    ensures
        at == find_char(chars@, c, from as int),
        from <= at <= chars@.len(),
{
    let mut i: usize = from;
    while i < chars.len()
        invariant
            from <= i <= chars@.len(),
            find_char(chars@, c, from as int) == find_char(chars@, c, i as int),
        decreases chars@.len() - i,
    {
        if chars[i] == c {
            return i;
        }
        i += 1;
    }
    i
}

/// A copy of the characters in a range.
pub fn slice_chars(chars: &Vec<char>, from: usize, to: usize) -> (out: Vec<char>)
    requires
        from <= to <= chars@.len(),
    ensures
        out@ == chars@.subrange(from as int, to as int),
{
    let mut out: Vec<char> = Vec::new();
    let mut i: usize = from;
    while i < to
        invariant
            from <= i <= to <= chars@.len(),
            out@ == chars@.subrange(from as int, i as int),
        decreases to - i,
    {
        out.push(chars[i]);
        i += 1;
        assert(out@ =~= chars@.subrange(from as int, i as int));
    }
    out
}

pub open spec fn pair_view(p: Option<(Vec<char>, Vec<char>)>) -> Option<(Seq<char>, Seq<char>)> {
    match p {
        Some((a, b)) => Some((a@, b@)),
        None => None,
    }
}

/// The parts in front of and behind the first `sep`.
pub fn split_once(chars: &Vec<char>, sep: char) -> (parts: Option<(Vec<char>, Vec<char>)>)
    ensures
        pair_view(parts) == split_first(chars@, sep),
{
    let at: usize = find_in(chars, sep, 0);
    if at < chars.len() {
        let head = slice_chars(chars, 0, at);
        let tail = slice_chars(chars, at + 1, chars.len());
        assert(head@ =~= chars@.take(at as int));
        assert(tail@ =~= chars@.skip(at + 1));
        Some((head, tail))
    } else {
        None
    }
}

pub open spec fn pieces_view(v: Seq<Vec<char>>) -> Seq<Seq<char>> {
    Seq::new(v.len(), |i: int| v[i]@)
}

/// The parts between all separators.
pub fn split_on(chars: &Vec<char>, sep: char) -> (parts: Vec<Vec<char>>)
    ensures
        pieces_view(parts@) == split_all(chars@, sep),
        parts@.len() == split_all(chars@, sep).len(),
    decreases chars@.len(),
{
    let mut parts: Vec<Vec<char>> = Vec::new();
    match split_once(chars, sep) {
        Some((head, tail)) => {
            proof {
                found_char(chars@, sep, 0);
            }
            let mut rest = split_on(&tail, sep);
            let ghost before = pieces_view(rest@);
            parts.push(head);
            parts.append(&mut rest);
            assert(pieces_view(parts@) =~= seq![head@] + before);
            assert(parts@.len() == pieces_view(parts@).len());
            parts
        },
        None => {
            let whole = slice_chars(chars, 0, chars.len());
            assert(whole@ =~= chars@);
            parts.push(whole);
            assert(pieces_view(parts@) =~= seq![chars@]);
            parts
        },
    }
}

proof fn found_char(s: Seq<char>, c: char, from: int)
    requires
        0 <= from <= s.len(),
    ensures
        from <= find_char(s, c, from) <= s.len(),
        find_char(s, c, from) < s.len() ==> s[find_char(s, c, from)] == c,
    decreases s.len() - from,
{
    if from < s.len() && s[from] != c {
        found_char(s, c, from + 1);
    }
}

/// The characters without any number of `suffix`es at their end.
pub fn without_suffixes(chars: &Vec<char>, suffix: &str) -> (out: Vec<char>)
    requires
        suffix@.len() > 0,
    ensures
        out@ == strip_suffixes(chars@, suffix@),
{
    let pattern = chars_of(suffix);
    let n: usize = pattern.len();
    let mut end: usize = chars.len();
    assert(chars@.take(end as int) =~= chars@);
    while n <= end && matches_at_end(chars, end, &pattern)
        invariant
            pattern@ == suffix@,
            n == pattern@.len(),
            n > 0,
            end <= chars@.len(),
            strip_suffixes(chars@, suffix@) == strip_suffixes(chars@.take(end as int), suffix@),
        decreases end,
    {
        assert(chars@.take(end as int).take(end - n) =~= chars@.take(end - n));
        end = end - n;
    }
    let out = slice_chars(chars, 0, end);
    assert(out@ =~= chars@.take(end as int));
    out
}

fn matches_at_end(chars: &Vec<char>, end: usize, pattern: &Vec<char>) -> (yes: bool)
    requires
        pattern@.len() <= end <= chars@.len(),
    ensures
        yes == occurs_at(chars@.take(end as int), pattern@, end - pattern@.len()),
{
    let at: usize = end - pattern.len();
    assert(chars@.take(end as int).subrange(at as int, end as int) =~= chars@.subrange(
        at as int,
        end as int,
    ));
    matches_at(chars, pattern, at)
}

/// The number that decimal digits with an optional sign stand for, where there
/// is one and it fits.
pub fn parse_i64(chars: &Vec<char>) -> (out: Option<i64>)
    ensures
        out == match parse_int(chars@) {
            Some(n) => if i64::MIN <= n <= i64::MAX {
                Some(n as i64)
            } else {
                None
            },
            None => None,
        },
{
    assert(chars@.subrange(0, chars@.len() as int) =~= chars@);
    parse_i64_range(chars, 0, chars.len())
}

proof fn precedes_irreflexive(a: Seq<char>)
    ensures
        !precedes(a, a),
    decreases a.len(),
{
    if a.len() > 0 {
        precedes_irreflexive(a.skip(1));
    }
}

proof fn precedes_transitive(a: Seq<char>, b: Seq<char>, c: Seq<char>)
    requires
        precedes(a, b),
        precedes(b, c),
    ensures
        precedes(a, c),
    decreases a.len(),
{
    if a.len() > 0 && a[0] == b[0] && b[0] == c[0] {
        precedes_transitive(a.skip(1), b.skip(1), c.skip(1));
    }
}

proof fn precedes_total(a: Seq<char>, b: Seq<char>)
    ensures
        precedes(a, b) || precedes(b, a) || a == b,
    decreases a.len(),
{
    if a.len() == 0 || b.len() == 0 {
        if a.len() == b.len() {
            assert(a =~= b);
        }
    } else if a[0] == b[0] {
        precedes_total(a.skip(1), b.skip(1));
        if a.skip(1) == b.skip(1) {
            assert(a =~= seq![a[0]] + a.skip(1));
            assert(b =~= seq![b[0]] + b.skip(1));
        }
    }
}

/// Lexicographic order is a strict total order: no text comes before itself,
/// the order carries over a middle text, and of two different texts one comes
/// before the other.
pub proof fn order_is_total(a: Seq<char>, b: Seq<char>, c: Seq<char>)
    ensures
        !precedes(a, a),
        precedes(a, b) && precedes(b, c) ==> precedes(a, c),
        precedes(a, b) || precedes(b, a) || a == b,
{
    precedes_irreflexive(a);
    if precedes(a, b) && precedes(b, c) {
        precedes_transitive(a, b, c);
    }
    precedes_total(a, b);
}

proof fn insert_sorted_facts(s: Seq<Seq<char>>, x: Seq<char>)
    requires
        ascending(s),
    ensures
        ascending(insert_sorted(s, x)),
        forall|y: Seq<char>| #[trigger]
            insert_sorted(s, x).contains(y) <==> (s.contains(y) || y == x),
    decreases s.len(),
{
    let r = insert_sorted(s, x);
    if s.len() == 0 {
        assert(r[0] == x);
    } else if x == s[0] {
    } else if precedes(x, s[0]) {
        assert(r =~= seq![x] + s);
        assert forall|i: int, j: int| 0 <= i < j < r.len() implies precedes(
            #[trigger] r[i],
            #[trigger] r[j],
        ) by {
            assert(r[j] == s[j - 1]);
            if i == 0 {
                if j > 1 {
                    precedes_transitive(x, s[0], s[j - 1]);
                }
            } else {
                assert(r[i] == s[i - 1]);
            }
        }
        assert forall|y: Seq<char>| r.contains(y) <==> (s.contains(y) || y == x) by {
            if s.contains(y) {
                let k = s.index_of(y);
                assert(r[k + 1] == y);
            }
            if r.contains(y) && y != x {
                let k = r.index_of(y);
                assert(s[k - 1] == y);
            }
            assert(r[0] == x);
        }
    } else {
        let tail = s.skip(1);
        assert(ascending(tail)) by {
            assert forall|i: int, j: int| 0 <= i < j < tail.len() implies precedes(
                #[trigger] tail[i],
                #[trigger] tail[j],
            ) by {
                assert(precedes(s[i + 1], s[j + 1]));
            }
        }
        insert_sorted_facts(tail, x);
        let rest = insert_sorted(tail, x);
        assert(r =~= seq![s[0]] + rest);
        precedes_total(s[0], x);
        assert forall|i: int, j: int| 0 <= i < j < r.len() implies precedes(
            #[trigger] r[i],
            #[trigger] r[j],
        ) by {
            assert(r[j] == rest[j - 1]);
            if i == 0 {
                assert(rest.contains(rest[j - 1]));
                if rest[j - 1] != x {
                    assert(tail.contains(rest[j - 1]));
                    let k = tail.index_of(rest[j - 1]);
                    assert(precedes(s[0], s[k + 1]));
                }
            } else {
                assert(r[i] == rest[i - 1]);
            }
        }
        assert forall|y: Seq<char>| r.contains(y) <==> (s.contains(y) || y == x) by {
            assert(r[0] == s[0]);
            if r.contains(y) && y != s[0] {
                let k = r.index_of(y);
                assert(rest[k - 1] == y);
                assert(rest.contains(y));
                if tail.contains(y) {
                    assert(s[tail.index_of(y) + 1] == y);
                }
            }
            if s.contains(y) && y != s[0] {
                let k = s.index_of(y);
                assert(tail[k - 1] == y);
                assert(tail.contains(y));
                assert(rest.contains(y));
                assert(r[rest.index_of(y) + 1] == y);
            }
            if y == x {
                assert(rest.contains(y));
                assert(r[rest.index_of(y) + 1] == y);
            }
        }
    }
}

/// `sorted_set` keeps exactly the texts of the list, each once, in ascending
/// order.
pub proof fn sorted_set_holds_each_once(items: Seq<Seq<char>>)
    ensures
        ascending(sorted_set(items)),
        forall|y: Seq<char>| sorted_set(items).contains(y) <==> items.contains(y),
    decreases items.len(),
{
    if items.len() > 0 {
        let shorter = items.drop_last();
        sorted_set_holds_each_once(shorter);
        insert_sorted_facts(sorted_set(shorter), items.last());
        assert forall|y: Seq<char>| sorted_set(items).contains(y) <==> items.contains(y) by {
            if items.contains(y) && y != items.last() {
                assert(shorter[items.index_of(y)] == y);
            }
            if shorter.contains(y) {
                assert(items[shorter.index_of(y)] == y);
            }
            assert(items[items.len() - 1] == items.last());
        }
    }
}

/// Two ascending lists with the same texts are the same list.
pub proof fn ascending_lists_agree(a: Seq<Seq<char>>, b: Seq<Seq<char>>)
    requires
        ascending(a),
        ascending(b),
        forall|y: Seq<char>| a.contains(y) <==> b.contains(y),
    ensures
        a == b,
    decreases a.len(),
{
    if a.len() == 0 {
        if b.len() > 0 {
            assert(b.contains(b[0]));
        }
        assert(a =~= b);
    } else {
        assert(a.contains(a[0]));
        assert(b.len() > 0);
        assert(b.contains(b[0]));
        let i = b.index_of(a[0]);
        let j = a.index_of(b[0]);
        precedes_irreflexive(a[0]);
        if i > 0 {
            assert(precedes(b[0], b[i]));
            if j > 0 {
                assert(precedes(a[0], a[j]));
                precedes_transitive(a[0], b[0], a[0]);
            }
        }
        assert(a[0] == b[0]);
        let x = a.skip(1);
        let y = b.skip(1);
        assert(ascending(x)) by {
            assert forall|p: int, q: int| 0 <= p < q < x.len() implies precedes(
                #[trigger] x[p],
                #[trigger] x[q],
            ) by {
                assert(precedes(a[p + 1], a[q + 1]));
            }
        }
        assert(ascending(y)) by {
            assert forall|p: int, q: int| 0 <= p < q < y.len() implies precedes(
                #[trigger] y[p],
                #[trigger] y[q],
            ) by {
                assert(precedes(b[p + 1], b[q + 1]));
            }
        }
        assert forall|z: Seq<char>| x.contains(z) <==> y.contains(z) by {
            if x.contains(z) {
                let k = x.index_of(z);
                assert(a[k + 1] == z);
                assert(precedes(a[0], a[k + 1]));
                assert(b.contains(z));
                let m = b.index_of(z);
                assert(m > 0);
                assert(y[m - 1] == z);
            }
            if y.contains(z) {
                let k = y.index_of(z);
                assert(b[k + 1] == z);
                assert(precedes(b[0], b[k + 1]));
                assert(a.contains(z));
                let m = a.index_of(z);
                assert(m > 0);
                assert(x[m - 1] == z);
            }
        }
        ascending_lists_agree(x, y);
        assert(a =~= seq![a[0]] + x);
        assert(b =~= seq![b[0]] + y);
    }
}

proof fn words_hold_no_space(s: Seq<char>)
    ensures
        forall|w: int, i: int|
            0 <= w < words(s).len() && 0 <= i < words(s)[w].len() ==> !is_space(
                #[trigger] words(s)[w][i],
            ),
    decreases s.len(),
{
    if s.len() > 0 {
        if is_space(s[0]) {
            words_hold_no_space(s.skip(1));
            assert(words(s) == words(s.skip(1)));
        } else {
            let n = word_len(s) as int;
            word_holds_no_space(s);
            if 0 < n <= s.len() {
                words_hold_no_space(s.skip(n));
                let rest = words(s.skip(n));
                assert forall|w: int, i: int|
                    0 <= w < words(s).len() && 0 <= i < words(s)[w].len() implies !is_space(
                    #[trigger] words(s)[w][i],
                ) by {
                    if w == 0 {
                        assert(words(s)[w][i] == s[i]);
                    } else {
                        assert(words(s)[w] == rest[w - 1]);
                        assert(!is_space(rest[w - 1][i]));
                    }
                }
            }
        }
    }
}

proof fn word_holds_no_space(s: Seq<char>)
    ensures
        forall|i: int| 0 <= i < word_len(s) && i < s.len() ==> !is_space(#[trigger] s[i]),
    decreases s.len(),
{
    if s.len() > 0 && !is_space(s[0]) {
        word_holds_no_space(s.skip(1));
        assert forall|i: int| 0 <= i < word_len(s) && i < s.len() implies !is_space(
            #[trigger] s[i],
        ) by {
            if i > 0 {
                assert(s[i] == s.skip(1)[i - 1]);
            }
        }
    }
}

proof fn joined_words_hold_only_spaces(parts: Seq<Seq<char>>)
    requires
        forall|w: int, i: int|
            0 <= w < parts.len() && 0 <= i < parts[w].len() ==> !is_space(#[trigger] parts[w][i]),
    ensures
        forall|i: int|
            0 <= i < join(parts, seq![' ']).len() && is_space(
                #[trigger] join(parts, seq![' '])[i],
            ) ==> join(parts, seq![' '])[i] == ' ',
    decreases parts.len(),
{
    if parts.len() == 1 {
        assert(forall|i: int| 0 <= i < parts[0].len() ==> !is_space(#[trigger] parts[0][i]));
    } else if parts.len() > 1 {
        let shorter = parts.drop_last();
        let head = join(shorter, seq![' ']);
        let whole = join(parts, seq![' ']);
        assert forall|w: int, i: int|
            0 <= w < shorter.len() && 0 <= i < shorter[w].len() implies !is_space(
            #[trigger] shorter[w][i],
        ) by {
            assert(!is_space(parts[w][i]));
        }
        joined_words_hold_only_spaces(shorter);
        assert forall|i: int| 0 <= i < whole.len() && is_space(#[trigger] whole[i]) implies whole[i]
            == ' ' by {
            if i < head.len() {
                assert(whole[i] == head[i]);
            } else if i > head.len() {
                assert(whole[i] == parts[parts.len() - 1][i - head.len() - 1]);
            }
        }
    }
}

/// Once its white space is collapsed, a text holds no white space but spaces.
pub proof fn collapsed_texts_hold_only_spaces(s: Seq<char>)
    ensures
        forall|i: int|
            0 <= i < collapse(s).len() && is_space(#[trigger] collapse(s)[i]) ==> collapse(s)[i]
                == ' ',
{
    words_hold_no_space(s);
    joined_words_hold_only_spaces(words(s));
}

/// A list is joined from its front as well: the first part, the separator, and
/// the other parts joined.
pub proof fn join_from_the_front(parts: Seq<Seq<char>>, sep: Seq<char>)
    requires
        parts.len() > 0,
    ensures
        parts.len() == 1 ==> join(parts, sep) == parts[0],
        parts.len() > 1 ==> join(parts, sep) == parts[0] + sep + join(parts.skip(1), sep),
    decreases parts.len(),
{
    if parts.len() == 2 {
        assert(parts.drop_last() =~= seq![parts[0]]);
        assert(parts.skip(1) =~= seq![parts[1]]);
        assert(join(parts.drop_last(), sep) == parts[0]);
        assert(join(parts.skip(1), sep) == parts[1]);
        assert(parts.last() == parts[1]);
    } else if parts.len() > 2 {
        let shorter = parts.drop_last();
        let rest = parts.skip(1);
        join_from_the_front(shorter, sep);
        assert(shorter.skip(1) =~= rest.drop_last());
        assert(rest.last() == parts.last());
        assert(join(parts, sep) =~= parts[0] + sep + (join(rest.drop_last(), sep) + sep
            + rest.last()));
    }
}

proof fn find_behind(a: Seq<char>, c: char, b: Seq<char>, from: int)
    requires
        !a.contains(c),
        0 <= from <= a.len(),
    ensures
        find_char(a + seq![c] + b, c, from) == a.len(),
    decreases a.len() - from,
{
    let s = a + seq![c] + b;
    if from < a.len() {
        assert(s[from] == a[from]);
        assert(a.contains(a[from]));
        find_behind(a, c, b, from + 1);
    } else {
        assert(s[from] == c);
    }
}

proof fn find_nowhere(a: Seq<char>, c: char, from: int)
    requires
        !a.contains(c),
        0 <= from <= a.len(),
    ensures
        find_char(a, c, from) == a.len(),
    decreases a.len() - from,
{
    if from < a.len() {
        assert(a.contains(a[from]));
        find_nowhere(a, c, from + 1);
    }
}

/// Parts that were joined come apart again at their separator, where none of
/// them holds it.
pub proof fn joined_parts_come_apart(parts: Seq<Seq<char>>, sep: char)
    requires
        parts.len() > 0,
        forall|i: int| 0 <= i < parts.len() ==> !(#[trigger] parts[i]).contains(sep),
    ensures
        split_all(join(parts, seq![sep]), sep) == parts,
    decreases parts.len(),
{
    let whole = join(parts, seq![sep]);
    join_from_the_front(parts, seq![sep]);
    assert(!parts[0].contains(sep));
    if parts.len() == 1 {
        find_nowhere(parts[0], sep, 0);
        assert(split_all(whole, sep) =~= parts);
    } else {
        let rest = parts.skip(1);
        assert forall|i: int| 0 <= i < rest.len() implies !(#[trigger] rest[i]).contains(sep) by {
            assert(!parts[i + 1].contains(sep));
        }
        joined_parts_come_apart(rest, sep);
        let tail = join(rest, seq![sep]);
        find_behind(parts[0], sep, tail, 0);
        assert(whole == parts[0] + seq![sep] + tail);
        assert(whole.take(parts[0].len() as int) =~= parts[0]);
        assert(whole.skip((parts[0].len() + 1) as int) =~= tail);
        assert(split_all(whole, sep) =~= seq![parts[0]] + rest);
        assert(seq![parts[0]] + rest =~= parts);
    }
}

proof fn trim_start_keeps_out(s: Seq<char>, c: char)
    requires
        !s.contains(c),
    ensures
        !trim_start(s).contains(c),
    decreases s.len(),
{
    if s.len() > 0 && is_space(s[0]) {
        assert forall|i: int| 0 <= i < s.skip(1).len() implies s.skip(1)[i] != c by {
            assert(s.contains(s[i + 1]));
        }
        trim_start_keeps_out(s.skip(1), c);
    }
}

proof fn trim_end_keeps_out(s: Seq<char>, c: char)
    requires
        !s.contains(c),
    ensures
        !trim_end(s).contains(c),
    decreases s.len(),
{
    if s.len() > 0 && is_space(s.last()) {
        assert forall|i: int| 0 <= i < s.drop_last().len() implies s.drop_last()[i] != c by {
            assert(s.contains(s[i]));
        }
        trim_end_keeps_out(s.drop_last(), c);
    }
}

/// Trimming adds no character.
pub proof fn trimming_keeps_out(s: Seq<char>, c: char)
    requires
        !s.contains(c),
    ensures
        !trim(s).contains(c),
{
    trim_start_keeps_out(s, c);
    trim_end_keeps_out(trim_start(s), c);
}

/// Whether the only white space of a text is single spaces between words.
pub open spec fn is_tidy(s: Seq<char>) -> bool {
    forall|i: int|
        0 <= i < s.len() && is_space(#[trigger] s[i]) ==> s[i] == ' ' && 0 < i && i + 1 < s.len()
            && !is_space(s[i + 1])
}

proof fn words_are_not_empty(s: Seq<char>)
    ensures
        forall|w: int| 0 <= w < words(s).len() ==> (#[trigger] words(s)[w]).len() > 0,
    decreases s.len(),
{
    if s.len() > 0 {
        if is_space(s[0]) {
            words_are_not_empty(s.skip(1));
            assert(words(s) == words(s.skip(1)));
        } else {
            let n = word_len(s) as int;
            if 0 < n <= s.len() {
                words_are_not_empty(s.skip(n));
                let rest = words(s.skip(n));
                assert forall|w: int| 0 <= w < words(s).len() implies (
                #[trigger] words(s)[w]).len() > 0 by {
                    if w > 0 {
                        assert(words(s)[w] == rest[w - 1]);
                    }
                }
            }
        }
    }
}

proof fn joined_words_are_tidy(parts: Seq<Seq<char>>)
    requires
        forall|w: int| 0 <= w < parts.len() ==> (#[trigger] parts[w]).len() > 0,
        forall|w: int, i: int|
            0 <= w < parts.len() && 0 <= i < parts[w].len() ==> !is_space(#[trigger] parts[w][i]),
    ensures
        is_tidy(join(parts, seq![' '])),
        parts.len() > 0 ==> join(parts, seq![' ']).len() > 0 && !is_space(
            join(parts, seq![' ']).last(),
        ),
    decreases parts.len(),
{
    let whole = join(parts, seq![' ']);
    if parts.len() == 1 {
        assert forall|i: int| 0 <= i < whole.len() implies !is_space(#[trigger] whole[i]) by {
            assert(!is_space(parts[0][i]));
        }
        assert(parts[0].len() > 0);
    } else if parts.len() > 1 {
        let shorter = parts.drop_last();
        let last = parts.last();
        assert forall|w: int| 0 <= w < shorter.len() implies (#[trigger] shorter[w]).len() > 0 by {
            assert(parts[w].len() > 0);
        }
        assert forall|w: int, i: int|
            0 <= w < shorter.len() && 0 <= i < shorter[w].len() implies !is_space(
            #[trigger] shorter[w][i],
        ) by {
            assert(!is_space(parts[w][i]));
        }
        joined_words_are_tidy(shorter);
        let head = join(shorter, seq![' ']);
        assert(whole == head + seq![' '] + last);
        assert(parts[parts.len() - 1].len() > 0);
        assert forall|i: int| 0 <= i < last.len() implies !is_space(#[trigger] last[i]) by {
            assert(!is_space(parts[parts.len() - 1][i]));
        }
        assert forall|i: int| 0 <= i < whole.len() && is_space(#[trigger] whole[i]) implies whole[i]
            == ' ' && 0 < i && i + 1 < whole.len() && !is_space(whole[i + 1]) by {
            if i < head.len() {
                assert(whole[i] == head[i]);
                assert(i + 1 < head.len());
                assert(whole[i + 1] == head[i + 1]);
            } else if i == head.len() {
                assert(whole[i + 1] == last[0]);
            } else {
                assert(whole[i] == last[i - head.len() - 1]);
            }
        }
        assert(whole.last() == last[last.len() - 1]);
    }
}

/// Once its white space is collapsed, a text is tidy.
pub proof fn collapsed_texts_are_tidy(s: Seq<char>)
    ensures
        is_tidy(collapse(s)),
{
    words_hold_no_space(s);
    words_are_not_empty(s);
    joined_words_are_tidy(words(s));
}

proof fn word_len_stops(s: Seq<char>)
    ensures
        word_len(s) <= s.len(),
        word_len(s) < s.len() ==> is_space(s[word_len(s) as int]),
    decreases s.len(),
{
    if s.len() > 0 && !is_space(s[0]) {
        word_len_stops(s.skip(1));
    }
}

/// Collapsing the white space of a tidy text changes nothing.
pub proof fn tidy_texts_stay(s: Seq<char>)
    requires
        is_tidy(s),
    ensures
        collapse(s) == s,
        s.len() > 0 ==> words(s).len() > 0,
    decreases s.len(),
{
    if s.len() == 0 {
        assert(collapse(s) =~= s);
    } else {
        assert(!is_space(s[0]));
        let n = word_len(s) as int;
        word_len_stops(s);
        assert(n > 0);
        if n == s.len() {
            assert(s.take(n) =~= s);
            assert(words(s.skip(n)) =~= Seq::empty());
            assert(words(s) =~= seq![s]);
        } else {
            let gap = s.skip(n);
            let rest = s.skip(n + 1);
            assert(is_space(s[n]));
            assert(gap[0] == s[n]);
            assert(gap.skip(1) =~= rest);
            assert(words(gap) == words(rest));
            assert forall|i: int| 0 <= i < rest.len() && is_space(#[trigger] rest[i]) implies rest[i]
                == ' ' && 0 < i && i + 1 < rest.len() && !is_space(rest[i + 1]) by {
                assert(rest[i] == s[n + 1 + i]);
                assert(!is_space(s[n + 1]));
                assert(rest[i + 1] == s[n + 2 + i]);
            }
            tidy_texts_stay(rest);
            let parts = words(s);
            assert(parts =~= seq![s.take(n)] + words(rest));
            assert(rest.len() > 0);
            join_from_the_front(parts, seq![' ']);
            assert(parts.skip(1) =~= words(rest));
            assert(s.take(n) + seq![' '] + rest =~= s);
        }
    }
}

/// The decimal form of a number is digits, at least one, and reads back as the
/// number.
pub proof fn decimals_read_back(n: nat)
    ensures
        decimal(n).len() > 0,
        all_digits(decimal(n)),
        digits_value(decimal(n)) == n,
    decreases n,
{
    let digit = digit_char(n % 10);
    assert(is_digit(digit) && digit as u32 - '0' as u32 == n % 10);
    if n < 10 {
        assert(decimal(n) =~= seq![digit]);
        assert(decimal(n).drop_last() =~= Seq::empty());
        assert(digits_value(decimal(n).drop_last()) == 0);
    } else {
        decimals_read_back(n / 10);
        assert(decimal(n).drop_last() =~= decimal(n / 10));
        assert(n == (n / 10) * 10 + n % 10);
    }
    assert(decimal(n).last() == digit);
}

/// The decimal form of a number is digits, at least one, and tells the number.
pub proof fn decimals_tell_numbers(a: nat, b: nat)
    ensures
        decimal(a).len() > 0,
        all_digits(decimal(a)),
        decimal(a) == decimal(b) ==> a == b,
{
    decimals_read_back(a);
    decimals_read_back(b);
}

/// Whether the parts stand in a text at the given positions, one behind the
/// other.
pub open spec fn placed(whole: Seq<char>, parts: Seq<Seq<char>>, at: Seq<int>) -> bool {
    &&& at.len() == parts.len()
    &&& forall|i: int| 0 <= i < parts.len() ==> occurs_at(whole, #[trigger] parts[i], at[i])
    &&& forall|i: int, j: int|
        0 <= i < j < parts.len() ==> at[i] + (#[trigger] parts[i]).len() <= #[trigger] at[j]
}

/// Whether a text holds the parts in this order, each behind the one before.
pub open spec fn in_order(whole: Seq<char>, parts: Seq<Seq<char>>) -> bool {
    exists|at: Seq<int>| placed(whole, parts, at)
}

proof fn still_occurs(s: Seq<char>, needle: Seq<char>, at: int, behind: Seq<char>)
    requires
        occurs_at(s, needle, at),
    ensures
        occurs_at(s + behind, needle, at),
{
    assert((s + behind).subrange(at, at + needle.len()) =~= s.subrange(at, at + needle.len()));
}

/// A text that is followed by `gap` and `part` holds `part` behind all that it
/// held before.
pub proof fn order_appends(whole: Seq<char>, parts: Seq<Seq<char>>, gap: Seq<char>, part: Seq<char>)
    requires
        in_order(whole, parts),
    ensures
        in_order(whole + gap + part, parts.push(part)),
        in_order(whole + gap, parts),
        in_order(whole + part, parts.push(part)),
{
    let at = choose|at: Seq<int>| placed(whole, parts, at);
    let (a, b, c) = (whole + gap + part, whole + gap, whole + part);
    assert forall|i: int| 0 <= i < parts.len() implies occurs_at(b, #[trigger] parts[i], at[i])
        && occurs_at(a, parts[i], at[i]) && occurs_at(c, parts[i], at[i]) by {
        still_occurs(whole, parts[i], at[i], gap);
        still_occurs(b, parts[i], at[i], part);
        still_occurs(whole, parts[i], at[i], part);
    }
    let at_a = at.push((whole.len() + gap.len()) as int);
    let at_c = at.push(whole.len() as int);
    let more = parts.push(part);
    assert(a.subrange(at_a.last(), at_a.last() + part.len()) =~= part);
    assert(c.subrange(at_c.last(), at_c.last() + part.len()) =~= part);
    assert forall|i: int| 0 <= i < more.len() implies occurs_at(a, #[trigger] more[i], at_a[i])
        && occurs_at(c, more[i], at_c[i]) by {
        if i < parts.len() {
            assert(more[i] == parts[i]);
        }
    }
    assert forall|i: int, j: int| 0 <= i < j < more.len() implies at_a[i] + (
    #[trigger] more[i]).len() <= #[trigger] at_a[j] by {
        assert(more[i] == parts[i]);
        assert(occurs_at(whole, parts[i], at[i]));
        if j < parts.len() {
            assert(at_a[j] == at[j]);
        }
    }
    assert forall|i: int, j: int| 0 <= i < j < more.len() implies at_c[i] + (
    #[trigger] more[i]).len() <= #[trigger] at_c[j] by {
        assert(more[i] == parts[i]);
        assert(occurs_at(whole, parts[i], at[i]));
        if j < parts.len() {
            assert(at_c[j] == at[j]);
        }
    }
    assert(placed(a, more, at_a));
    assert(placed(c, more, at_c));
    assert(placed(b, parts, at));
}

/// Every text holds nothing in order.
pub proof fn order_begins(whole: Seq<char>)
    ensures
        in_order(whole, Seq::empty()),
{
    assert(placed(whole, Seq::empty(), Seq::empty()));
}

/// A text holds what its front holds in order, and then what its back holds in
/// order.
pub proof fn orders_chain(a: Seq<char>, p: Seq<Seq<char>>, b: Seq<char>, q: Seq<Seq<char>>)
    requires
        in_order(a, p),
        in_order(b, q),
    ensures
        in_order(a + b, p + q),
{
    let at = choose|at: Seq<int>| placed(a, p, at);
    let to = choose|to: Seq<int>| placed(b, q, to);
    let all = at + Seq::new(q.len(), |i: int| a.len() + to[i]);
    let more = p + q;
    assert forall|i: int| 0 <= i < more.len() implies occurs_at(a + b, #[trigger] more[i], all[i]) by {
        if i < p.len() {
            assert(more[i] == p[i]);
            still_occurs(a, p[i], at[i], b);
        } else {
            let k = i - p.len();
            assert(more[i] == q[k]);
            assert(occurs_at(b, q[k], to[k]));
            assert((a + b).subrange(a.len() + to[k], a.len() + to[k] + q[k].len()) =~= b.subrange(
                to[k],
                to[k] + q[k].len(),
            ));
        }
    }
    assert forall|i: int, j: int| 0 <= i < j < more.len() implies all[i] + (
    #[trigger] more[i]).len() <= #[trigger] all[j] by {
        if j < p.len() {
            assert(more[i] == p[i] && all[j] == at[j]);
        } else if i < p.len() {
            assert(more[i] == p[i]);
            assert(occurs_at(a, p[i], at[i]));
            assert(occurs_at(b, q[j - p.len()], to[j - p.len()]));
        } else {
            assert(more[i] == q[i - p.len()]);
            assert(to[j - p.len()] + a.len() == all[j]);
        }
    }
    assert(placed(a + b, more, all));
}

/// A text made of 1 part and what stands around it holds the part.
pub proof fn holds_one(g0: Seq<char>, p1: Seq<char>, g1: Seq<char>)
    ensures
        in_order(g0 + p1 + g1, seq![p1]),
{
    order_begins(g0);
    let q0 = Seq::<Seq<char>>::empty();
    let w0 = g0;
    order_appends(w0, q0, g0, p1);
    let q1 = q0.push(p1);
    order_appends(w0 + p1, q1, g1, g0);
    let w1 = w0 + p1 + g1;
    assert(q1 =~= seq![p1]);
}

/// A text made of 2 parts and what stands around them holds the parts in order.
pub proof fn holds_two(g0: Seq<char>, p1: Seq<char>, g1: Seq<char>, p2: Seq<char>, g2: Seq<char>)
    ensures
        in_order(g0 + p1 + g1 + p2 + g2, seq![p1, p2]),
{
    order_begins(g0);
    let q0 = Seq::<Seq<char>>::empty();
    let w0 = g0;
    order_appends(w0, q0, g0, p1);
    let q1 = q0.push(p1);
    order_appends(w0 + p1, q1, g1, g0);
    let w1 = w0 + p1 + g1;
    order_appends(w1, q1, g0, p2);
    let q2 = q1.push(p2);
    order_appends(w1 + p2, q2, g2, g0);
    let w2 = w1 + p2 + g2;
    assert(q2 =~= seq![p1, p2]);
}

/// A text made of 3 parts and what stands around them holds the parts in order.
pub proof fn holds_three(g0: Seq<char>, p1: Seq<char>, g1: Seq<char>, p2: Seq<char>, g2: Seq<char>, p3: Seq<char>, g3: Seq<char>)
    ensures
        in_order(g0 + p1 + g1 + p2 + g2 + p3 + g3, seq![p1, p2, p3]),
{
    order_begins(g0);
    let q0 = Seq::<Seq<char>>::empty();
    let w0 = g0;
    order_appends(w0, q0, g0, p1);
    let q1 = q0.push(p1);
    order_appends(w0 + p1, q1, g1, g0);
    let w1 = w0 + p1 + g1;
    order_appends(w1, q1, g0, p2);
    let q2 = q1.push(p2);
    order_appends(w1 + p2, q2, g2, g0);
    let w2 = w1 + p2 + g2;
    order_appends(w2, q2, g0, p3);
    let q3 = q2.push(p3);
    order_appends(w2 + p3, q3, g3, g0);
    let w3 = w2 + p3 + g3;
    assert(q3 =~= seq![p1, p2, p3]);
}

/// A text made of 4 parts and what stands around them holds the parts in order.
pub proof fn holds_four(g0: Seq<char>, p1: Seq<char>, g1: Seq<char>, p2: Seq<char>, g2: Seq<char>, p3: Seq<char>, g3: Seq<char>, p4: Seq<char>, g4: Seq<char>)
    ensures
        in_order(g0 + p1 + g1 + p2 + g2 + p3 + g3 + p4 + g4, seq![p1, p2, p3, p4]),
{
    order_begins(g0);
    let q0 = Seq::<Seq<char>>::empty();
    let w0 = g0;
    order_appends(w0, q0, g0, p1);
    let q1 = q0.push(p1);
    order_appends(w0 + p1, q1, g1, g0);
    let w1 = w0 + p1 + g1;
    order_appends(w1, q1, g0, p2);
    let q2 = q1.push(p2);
    order_appends(w1 + p2, q2, g2, g0);
    let w2 = w1 + p2 + g2;
    order_appends(w2, q2, g0, p3);
    let q3 = q2.push(p3);
    order_appends(w2 + p3, q3, g3, g0);
    let w3 = w2 + p3 + g3;
    order_appends(w3, q3, g0, p4);
    let q4 = q3.push(p4);
    order_appends(w3 + p4, q4, g4, g0);
    let w4 = w3 + p4 + g4;
    assert(q4 =~= seq![p1, p2, p3, p4]);
}

/// A text made of 5 parts and what stands around them holds the parts in order.
pub proof fn holds_five(g0: Seq<char>, p1: Seq<char>, g1: Seq<char>, p2: Seq<char>, g2: Seq<char>, p3: Seq<char>, g3: Seq<char>, p4: Seq<char>, g4: Seq<char>, p5: Seq<char>, g5: Seq<char>)
    ensures
        in_order(g0 + p1 + g1 + p2 + g2 + p3 + g3 + p4 + g4 + p5 + g5, seq![p1, p2, p3, p4, p5]),
{
    order_begins(g0);
    let q0 = Seq::<Seq<char>>::empty();
    let w0 = g0;
    order_appends(w0, q0, g0, p1);
    let q1 = q0.push(p1);
    order_appends(w0 + p1, q1, g1, g0);
    let w1 = w0 + p1 + g1;
    order_appends(w1, q1, g0, p2);
    let q2 = q1.push(p2);
    order_appends(w1 + p2, q2, g2, g0);
    let w2 = w1 + p2 + g2;
    order_appends(w2, q2, g0, p3);
    let q3 = q2.push(p3);
    order_appends(w2 + p3, q3, g3, g0);
    let w3 = w2 + p3 + g3;
    order_appends(w3, q3, g0, p4);
    let q4 = q3.push(p4);
    order_appends(w3 + p4, q4, g4, g0);
    let w4 = w3 + p4 + g4;
    order_appends(w4, q4, g0, p5);
    let q5 = q4.push(p5);
    order_appends(w4 + p5, q5, g5, g0);
    let w5 = w4 + p5 + g5;
    assert(q5 =~= seq![p1, p2, p3, p4, p5]);
}

/// A text made of 6 parts and what stands around them holds the parts in order.
pub proof fn holds_six(g0: Seq<char>, p1: Seq<char>, g1: Seq<char>, p2: Seq<char>, g2: Seq<char>, p3: Seq<char>, g3: Seq<char>, p4: Seq<char>, g4: Seq<char>, p5: Seq<char>, g5: Seq<char>, p6: Seq<char>, g6: Seq<char>)
    ensures
        in_order(g0 + p1 + g1 + p2 + g2 + p3 + g3 + p4 + g4 + p5 + g5 + p6 + g6, seq![p1, p2, p3, p4, p5, p6]),
{
    order_begins(g0);
    let q0 = Seq::<Seq<char>>::empty();
    let w0 = g0;
    order_appends(w0, q0, g0, p1);
    let q1 = q0.push(p1);
    order_appends(w0 + p1, q1, g1, g0);
    let w1 = w0 + p1 + g1;
    order_appends(w1, q1, g0, p2);
    let q2 = q1.push(p2);
    order_appends(w1 + p2, q2, g2, g0);
    let w2 = w1 + p2 + g2;
    order_appends(w2, q2, g0, p3);
    let q3 = q2.push(p3);
    order_appends(w2 + p3, q3, g3, g0);
    let w3 = w2 + p3 + g3;
    order_appends(w3, q3, g0, p4);
    let q4 = q3.push(p4);
    order_appends(w3 + p4, q4, g4, g0);
    let w4 = w3 + p4 + g4;
    order_appends(w4, q4, g0, p5);
    let q5 = q4.push(p5);
    order_appends(w4 + p5, q5, g5, g0);
    let w5 = w4 + p5 + g5;
    order_appends(w5, q5, g0, p6);
    let q6 = q5.push(p6);
    order_appends(w5 + p6, q6, g6, g0);
    let w6 = w5 + p6 + g6;
    assert(q6 =~= seq![p1, p2, p3, p4, p5, p6]);
}

/// A text made of 7 parts and what stands around them holds the parts in order.
pub proof fn holds_seven(g0: Seq<char>, p1: Seq<char>, g1: Seq<char>, p2: Seq<char>, g2: Seq<char>, p3: Seq<char>, g3: Seq<char>, p4: Seq<char>, g4: Seq<char>, p5: Seq<char>, g5: Seq<char>, p6: Seq<char>, g6: Seq<char>, p7: Seq<char>, g7: Seq<char>)
    ensures
        in_order(g0 + p1 + g1 + p2 + g2 + p3 + g3 + p4 + g4 + p5 + g5 + p6 + g6 + p7 + g7, seq![p1, p2, p3, p4, p5, p6, p7]),
{
    order_begins(g0);
    let q0 = Seq::<Seq<char>>::empty();
    let w0 = g0;
    order_appends(w0, q0, g0, p1);
    let q1 = q0.push(p1);
    order_appends(w0 + p1, q1, g1, g0);
    let w1 = w0 + p1 + g1;
    order_appends(w1, q1, g0, p2);
    let q2 = q1.push(p2);
    order_appends(w1 + p2, q2, g2, g0);
    let w2 = w1 + p2 + g2;
    order_appends(w2, q2, g0, p3);
    let q3 = q2.push(p3);
    order_appends(w2 + p3, q3, g3, g0);
    let w3 = w2 + p3 + g3;
    order_appends(w3, q3, g0, p4);
    let q4 = q3.push(p4);
    order_appends(w3 + p4, q4, g4, g0);
    let w4 = w3 + p4 + g4;
    order_appends(w4, q4, g0, p5);
    let q5 = q4.push(p5);
    order_appends(w4 + p5, q5, g5, g0);
    let w5 = w4 + p5 + g5;
    order_appends(w5, q5, g0, p6);
    let q6 = q5.push(p6);
    order_appends(w5 + p6, q6, g6, g0);
    let w6 = w5 + p6 + g6;
    order_appends(w6, q6, g0, p7);
    let q7 = q6.push(p7);
    order_appends(w6 + p7, q7, g7, g0);
    let w7 = w6 + p7 + g7;
    assert(q7 =~= seq![p1, p2, p3, p4, p5, p6, p7]);
}

proof fn trim_start_drops_space(s: Seq<char>) -> (a: int)
    ensures
        0 <= a <= s.len(),
        trim_start(s) == s.skip(a),
        forall|i: int| 0 <= i < a ==> is_space(#[trigger] s[i]),
        a < s.len() ==> !is_space(s[a]),
    decreases s.len(),
{
    if s.len() > 0 && is_space(s[0]) {
        let b = trim_start_drops_space(s.skip(1));
        assert(s.skip(1).skip(b) =~= s.skip(b + 1));
        assert forall|i: int| 0 <= i < b + 1 implies is_space(#[trigger] s[i]) by {
            if i > 0 {
                assert(s.skip(1)[i - 1] == s[i]);
            }
        }
        b + 1
    } else {
        assert(s.skip(0) =~= s);
        0
    }
}

proof fn trim_end_drops_space(s: Seq<char>) -> (b: int)
    ensures
        0 <= b <= s.len(),
        trim_end(s) == s.take(b),
        forall|i: int| b <= i < s.len() ==> is_space(#[trigger] s[i]),
        b > 0 ==> !is_space(s[b - 1]),
    decreases s.len(),
{
    if s.len() > 0 && is_space(s.last()) {
        let b = trim_end_drops_space(s.drop_last());
        assert(s.drop_last().take(b) =~= s.take(b));
        assert forall|i: int| b <= i < s.len() implies is_space(#[trigger] s[i]) by {
            if i < s.len() - 1 {
                assert(s.drop_last()[i] == s[i]);
            }
        }
        b
    } else {
        assert(s.take(s.len() as int) =~= s);
        s.len() as int
    }
}

/// Trimming takes away white space at the two ends and nothing else, and leaves
/// none there.
pub proof fn trimming_drops_the_ends(s: Seq<char>)
    ensures
        exists|a: int, b: int|
            0 <= a <= b <= s.len() && #[trigger] s.subrange(a, b) == trim(s) && (forall|i: int|
                0 <= i < a || b <= i < s.len() ==> is_space(#[trigger] s[i])),
        trim(s).len() > 0 ==> !is_space(trim(s)[0]) && !is_space(trim(s).last()),
{
    let a = trim_start_drops_space(s);
    let rest = s.skip(a);
    let b = trim_end_drops_space(rest);
    assert(rest.take(b) =~= s.subrange(a, a + b));
    assert forall|i: int| 0 <= i < a || a + b <= i < s.len() implies is_space(#[trigger] s[i]) by {
        if i >= a + b {
            assert(rest[i - a] == s[i]);
        }
    }
    if b > 0 {
        assert(rest[b - 1] == s[a + b - 1]);
    }
}

/// What is cut from the end of a text without white space at its end is
/// nothing, and white space behind a text does not matter.
pub proof fn trailing_space_goes(s: Seq<char>, c: char)
    requires
        is_space(c),
    ensures
        trim_end(s.push(c)) == trim_end(s),
        s.len() > 0 && !is_space(s.last()) ==> trim_end(s) == s,
{
    assert(s.push(c).drop_last() =~= s);
}

/// The first characters of a text are a prefix of it, as long as was asked for
/// or as the text is.
pub proof fn first_chars_are_a_prefix(s: Seq<char>, n: nat)
    ensures
        first_chars(s, n).is_prefix_of(s),
        s.len() >= n ==> first_chars(s, n).len() == n,
        s.len() < n ==> first_chars(s, n) == s,
{
    assert(s.take(s.len() as int) =~= s);
}

/// Padding puts spaces behind a text up to the width, and cuts nothing off.
pub proof fn padding_only_adds_spaces(s: Seq<char>, n: nat)
    ensures
        s.is_prefix_of(padded(s, n)),
        s.len() <= n ==> padded(s, n).len() == n,
        s.len() > n ==> padded(s, n) == s,
        forall|i: int| s.len() <= i < padded(s, n).len() ==> #[trigger] padded(s, n)[i] == ' ',
{
    assert(padded(s, n).take(s.len() as int) =~= s);
}

/// A text that fits is kept; another is cut to the width, and only its last
/// cell tells so.
pub proof fn cutting_keeps_the_front(s: Seq<char>, max: nat)
    ensures
        s.len() <= max ==> ellipsized(s, max) == s,
        s.len() > max ==> ellipsized(s, max).len() == max,
        s.len() > max > 0 ==> ellipsized(s, max).last() == '…' && forall|i: int|
            0 <= i < max - 1 ==> #[trigger] ellipsized(s, max)[i] == s[i],
{
}

proof fn found_first(s: Seq<char>, c: char, from: int)
    requires
        0 <= from <= s.len(),
    ensures
        from <= find_char(s, c, from) <= s.len(),
        find_char(s, c, from) < s.len() ==> s[find_char(s, c, from)] == c,
        forall|i: int| from <= i < find_char(s, c, from) ==> #[trigger] s[i] != c,
    decreases s.len() - from,
{
    if from < s.len() && s[from] != c {
        found_first(s, c, from + 1);
    }
}

/// A text is split at the first separator: what is in front of it does not hold
/// one, and the parts and the separator make up the text. Without a separator
/// it is not split.
pub proof fn splits_at_the_first(s: Seq<char>, sep: char)
    ensures
        split_first(s, sep) is Some <==> s.contains(sep),
        split_first(s, sep) matches Some((a, b)) ==> s == a + seq![sep] + b && !a.contains(sep),
{
    found_first(s, sep, 0);
    let at = find_char(s, sep, 0);
    if at < s.len() {
        assert(s =~= s.take(at) + seq![sep] + s.skip(at + 1));
        assert(s.contains(s[at]));
    }
}

/// Splitting at every separator loses nothing: the parts joined with it are the
/// text, and no part holds it.
pub proof fn splits_join_again(s: Seq<char>, sep: char)
    ensures
        join(split_all(s, sep), seq![sep]) == s,
        split_all(s, sep).len() > 0,
        forall|i: int|
            0 <= i < split_all(s, sep).len() ==> !(#[trigger] split_all(s, sep)[i]).contains(sep),
    decreases s.len(),
{
    splits_at_the_first(s, sep);
    if let Some((head, tail)) = split_first(s, sep) {
        splits_join_again(tail, sep);
        let parts = split_all(s, sep);
        assert(parts == seq![head] + split_all(tail, sep));
        join_from_the_front(parts, seq![sep]);
        assert(parts.skip(1) =~= split_all(tail, sep));
    }
}

/// Stripping leaves no suffix at the end, takes nothing else away, and takes
/// one more away of a text with one more behind it.
pub proof fn stripping_leaves_no_suffix(s: Seq<char>, suffix: Seq<char>)
    requires
        suffix.len() > 0,
    ensures
        !occurs_at(strip_suffixes(s, suffix), suffix, strip_suffixes(s, suffix).len() - suffix.len()),
        strip_suffixes(s, suffix).is_prefix_of(s),
        strip_suffixes(s + suffix, suffix) == strip_suffixes(s, suffix),
        !occurs_at(s, suffix, s.len() - suffix.len()) ==> strip_suffixes(s, suffix) == s,
    decreases s.len(),
{
    let more = s + suffix;
    assert(more.subrange(s.len() as int, more.len() as int) =~= suffix);
    assert(more.take(s.len() as int) =~= s);
    if occurs_at(s, suffix, s.len() - suffix.len()) {
        let shorter = s.take(s.len() - suffix.len());
        stripping_leaves_no_suffix(shorter, suffix);
        let rest = strip_suffixes(s, suffix);
        assert(s.take(rest.len() as int) =~= shorter.take(rest.len() as int));
    } else {
        assert(s.take(s.len() as int) =~= s);
    }
}

/// A number in decimal form, negative or not, reads back as the number.
pub proof fn signed_decimals_read_back(n: int)
    ensures
        parse_int(signed_decimal(n)) == Some(n),
        n >= 0 ==> parse_nat(signed_decimal(n)) == Some(n as nat),
{
    let d = decimal(if n < 0 {
        (-n) as nat
    } else {
        n as nat
    });
    decimals_read_back(if n < 0 {
        (-n) as nat
    } else {
        n as nat
    });
    assert(is_digit(d[0]));
    if n < 0 {
        assert((seq!['-'] + d).skip(1) =~= d);
    }
}

/// The characters of a text that are not white space.
pub open spec fn solid(s: Seq<char>) -> Seq<char>
    decreases s.len(),
{
    if s.len() == 0 {
        s
    } else if is_space(s.last()) {
        solid(s.drop_last())
    } else {
        solid(s.drop_last()).push(s.last())
    }
}

proof fn solid_of_both(a: Seq<char>, b: Seq<char>)
    ensures
        solid(a + b) == solid(a) + solid(b),
    decreases b.len(),
{
    if b.len() == 0 {
        assert(a + b =~= a);
        assert(solid(a) + solid(b) =~= solid(a));
    } else {
        assert((a + b).drop_last() =~= a + b.drop_last());
        solid_of_both(a, b.drop_last());
        assert(solid(a + b) =~= solid(a) + solid(b));
    }
}

proof fn solid_of_solid(s: Seq<char>)
    requires
        forall|i: int| 0 <= i < s.len() ==> !is_space(#[trigger] s[i]),
    ensures
        solid(s) == s,
    decreases s.len(),
{
    if s.len() > 0 {
        assert forall|i: int| 0 <= i < s.drop_last().len() implies !is_space(
            #[trigger] s.drop_last()[i],
        ) by {
            assert(s.drop_last()[i] == s[i]);
        }
        solid_of_solid(s.drop_last());
        assert(s.drop_last().push(s.last()) =~= s);
    }
}

proof fn solid_of_joined(parts: Seq<Seq<char>>)
    ensures
        parts.len() > 1 ==> solid(join(parts, seq![' '])) == solid(parts[0]) + solid(
            join(parts.skip(1), seq![' ']),
        ),
{
    if parts.len() > 1 {
        join_from_the_front(parts, seq![' ']);
        let rest = join(parts.skip(1), seq![' ']);
        assert(parts[0] + seq![' '] + rest =~= parts[0] + (seq![' '] + rest));
        solid_of_both(parts[0], seq![' '] + rest);
        solid_of_both(seq![' '], rest);
        reveal_with_fuel(solid, 3);
        assert(is_space(' '));
        assert(seq![' '].drop_last() =~= Seq::<char>::empty());
        assert(solid(seq![' ']) =~= Seq::<char>::empty());
        assert(Seq::<char>::empty() + solid(rest) =~= solid(rest));
    }
}

/// Collapsing the white space of a text keeps every other character, in order.
pub proof fn collapsing_keeps_the_rest(s: Seq<char>)
    ensures
        solid(collapse(s)) == solid(s),
    decreases s.len(),
{
    if s.len() > 0 {
        if is_space(s[0]) {
            collapsing_keeps_the_rest(s.skip(1));
            assert(s =~= seq![s[0]] + s.skip(1));
            solid_of_both(seq![s[0]], s.skip(1));
            reveal_with_fuel(solid, 3);
            assert(seq![s[0]].drop_last() =~= Seq::<char>::empty());
            assert(solid(seq![s[0]]) =~= Seq::<char>::empty());
            assert(Seq::<char>::empty() + solid(s.skip(1)) =~= solid(s.skip(1)));
        } else {
            let n = word_len(s) as int;
            word_len_bound(s);
            word_holds_no_space(s);
            let (word, rest) = (s.take(n), s.skip(n));
            collapsing_keeps_the_rest(rest);
            assert(s =~= word + rest);
            solid_of_both(word, rest);
            solid_of_solid(word);
            let parts = words(s);
            assert(parts == seq![word] + words(rest));
            assert(parts.skip(1) =~= words(rest));
            if words(rest).len() == 0 {
                assert(parts =~= seq![word]);
                assert(collapse(rest) =~= Seq::<char>::empty());
                assert(solid(word) + solid(rest) =~= word);
            } else {
                solid_of_joined(parts);
            }
        }
    }
}

/// The order of two texts is that of the first characters in which they differ,
/// by code point; a text comes before every longer one that starts with it.
pub proof fn order_goes_by_the_first_difference(
    front: Seq<char>,
    x: char,
    y: char,
    a: Seq<char>,
    b: Seq<char>,
)
    requires
        x < y,
    ensures
        precedes(front.push(x) + a, front.push(y) + b),
        precedes(front, front.push(x) + a),
    decreases front.len(),
{
    let (s, t) = (front.push(x) + a, front.push(y) + b);
    if front.len() == 0 {
        assert(s[0] == x && t[0] == y);
    } else {
        let rest = front.skip(1);
        order_goes_by_the_first_difference(rest, x, y, a, b);
        assert(s[0] == front[0] && t[0] == front[0]);
        assert(s.skip(1) =~= rest.push(x) + a);
        assert(t.skip(1) =~= rest.push(y) + b);
    }
}

} // verus!
