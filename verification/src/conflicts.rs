//! Conflicts between sessions: their keys, their times, and the rows that the
//! conflict viewer lists.

use vstd::prelude::*;
use vstd::string::*;

use crate::text;

verus! {

/// The references that are not blank, without white space at either end.
pub open spec fn trimmed_refs(refs: Seq<Seq<char>>) -> Seq<Seq<char>>
    decreases refs.len(),
{
    if refs.len() == 0 {
        Seq::empty()
    } else {
        let before = trimmed_refs(refs.drop_last());
        let last = text::trim(refs.last());
        if last.len() == 0 {
            before
        } else {
            before.push(last)
        }
    }
}

/// The key of a conflict: its references trimmed, without blank ones, each
/// once, in ascending order, with the unit separator between them.
pub open spec fn refs_key(refs: Seq<Seq<char>>) -> Seq<char> {
    text::join(text::sorted_set(trimmed_refs(refs)), "\u{1f}"@)
}

/// The key of a conflict: its references trimmed, without blank ones, each
/// once, in ascending order, with the unit separator between them.
pub fn normalize_conflict_refs(refs: &Vec<String>) -> (key: String)
    ensures
        key@ == refs_key(text::views(refs@)),
{
    let mut canon: Vec<String> = Vec::new();
    let ghost all = text::views(refs@);
    let mut i: usize = 0;
    assert(text::views(canon@) =~= trimmed_refs(all.take(0)));
    while i < refs.len()
        invariant
            i <= refs@.len(),
            all == text::views(refs@),
            text::views(canon@) == trimmed_refs(all.take(i as int)),
        decreases refs@.len() - i,
    {
        let ghost longer = all.take(i + 1);
        let ghost before = text::views(canon@);
        assert(longer.drop_last() =~= all.take(i as int));
        assert(longer.last() == refs@[i as int]@);
        let entry = text::trimmed(refs[i].as_str());
        if !text::is_empty(entry.as_str()) {
            canon.push(entry);
            assert(text::views(canon@) =~= before.push(entry@));
        }
        i += 1;
    }
    assert(all.take(i as int) =~= all);
    let sorted = text::sort_and_dedup(&canon);
    text::join_texts(&sorted, "\u{1f}")
}

proof fn trimmed_refs_members(refs: Seq<Seq<char>>, y: Seq<char>)
    ensures
        trimmed_refs(refs).contains(y) <==> (y.len() > 0 && exists|i: int|
            0 <= i < refs.len() && text::trim(#[trigger] refs[i]) == y),
    decreases refs.len(),
{
    if refs.len() > 0 {
        let shorter = refs.drop_last();
        trimmed_refs_members(shorter, y);
        let before = trimmed_refs(shorter);
        let last = text::trim(refs.last());
        let all = trimmed_refs(refs);
        if y.len() > 0 && exists|i: int| 0 <= i < refs.len() && text::trim(#[trigger] refs[i]) == y {
            let i = choose|i: int| 0 <= i < refs.len() && text::trim(#[trigger] refs[i]) == y;
            if i < shorter.len() {
                assert(text::trim(shorter[i]) == y);
                assert(before.contains(y));
                assert(all[before.index_of(y)] == y);
            } else {
                assert(all[before.len() as int] == y);
            }
        }
        if all.contains(y) {
            let k = all.index_of(y);
            if k < before.len() {
                assert(before[k] == y);
                assert(before.contains(y));
                let i = choose|i: int|
                    0 <= i < shorter.len() && text::trim(#[trigger] shorter[i]) == y;
                assert(text::trim(refs[i]) == y);
            } else {
                assert(text::trim(refs[refs.len() - 1]) == y);
            }
        }
    }
}

/// Whether `y` is one of the references, apart from white space around it.
pub open spec fn names(refs: Seq<Seq<char>>, y: Seq<char>) -> bool {
    exists|i: int| 0 <= i < refs.len() && text::trim(#[trigger] refs[i]) == y
}

/// Whether two lists name the same references, apart from blank ones.
pub open spec fn same_refs(a: Seq<Seq<char>>, b: Seq<Seq<char>>) -> bool {
    forall|y: Seq<char>| y.len() > 0 ==> (#[trigger] names(a, y) <==> names(b, y))
}

/// Whether no reference holds the unit separator.
pub open spec fn separable(refs: Seq<Seq<char>>) -> bool {
    forall|i: int| 0 <= i < refs.len() ==> !(#[trigger] refs[i]).contains('\u{1f}')
}

proof fn sorted_refs_are_separable(refs: Seq<Seq<char>>)
    requires
        separable(refs),
    ensures
        forall|k: int|
            0 <= k < text::sorted_set(trimmed_refs(refs)).len() ==> !(
            #[trigger] text::sorted_set(trimmed_refs(refs))[k]).contains('\u{1f}') && text::sorted_set(
                trimmed_refs(refs),
            )[k].len() > 0,
{
    let sorted = text::sorted_set(trimmed_refs(refs));
    text::sorted_set_holds_each_once(trimmed_refs(refs));
    assert forall|k: int| 0 <= k < sorted.len() implies !(#[trigger] sorted[k]).contains('\u{1f}')
        && sorted[k].len() > 0 by {
        assert(sorted.contains(sorted[k]));
        trimmed_refs_members(refs, sorted[k]);
        let i = choose|i: int| 0 <= i < refs.len() && text::trim(#[trigger] refs[i]) == sorted[k];
        text::trimming_keeps_out(refs[i], '\u{1f}');
    }
}

/// Neither the order nor the repetition of references, nor blank ones, nor
/// white space around them, changes a conflict's key.
pub proof fn key_depends_on_the_set(a: Seq<Seq<char>>, b: Seq<Seq<char>>)
    requires
        same_refs(a, b),
    ensures
        refs_key(a) == refs_key(b),
{
    let (x, y) = (trimmed_refs(a), trimmed_refs(b));
    text::sorted_set_holds_each_once(x);
    text::sorted_set_holds_each_once(y);
    assert forall|z: Seq<char>|
        text::sorted_set(x).contains(z) <==> text::sorted_set(y).contains(z) by {
        trimmed_refs_members(a, z);
        trimmed_refs_members(b, z);
        assert(z.len() > 0 ==> (names(a, z) <==> names(b, z)));
    }
    text::ascending_lists_agree(text::sorted_set(x), text::sorted_set(y));
}

/// A conflict's key stands for the set of its references: the key is the same
/// exactly where the trimmed references that are not blank are. Order,
/// repetition, blank references and white space around them do not matter.
pub proof fn keys_stand_for_sets(a: Seq<Seq<char>>, b: Seq<Seq<char>>)
    requires
        separable(a),
        separable(b),
    ensures
        refs_key(a) == refs_key(b) <==> same_refs(a, b),
{
    let (x, y) = (trimmed_refs(a), trimmed_refs(b));
    let (p, q) = (text::sorted_set(x), text::sorted_set(y));
    text::sorted_set_holds_each_once(x);
    text::sorted_set_holds_each_once(y);
    if same_refs(a, b) {
        key_depends_on_the_set(a, b);
    }
    if refs_key(a) == refs_key(b) {
        key_splits_into_refs(a);
        key_splits_into_refs(b);
        assert(p == q);
        assert forall|z: Seq<char>| z.len() > 0 implies (#[trigger] names(a, z) <==> names(
            b,
            z,
        )) by {
            trimmed_refs_members(a, z);
            trimmed_refs_members(b, z);
            assert(p.contains(z) <==> q.contains(z));
        }
    }
}

/// A conflict's key taken apart at the unit separators is the references that
/// are not blank, trimmed, each once, in strictly ascending order. Without
/// any the key is empty.
pub proof fn key_splits_into_refs(refs: Seq<Seq<char>>)
    requires
        separable(refs),
    ensures
        ({
            let sorted = text::sorted_set(trimmed_refs(refs));
            &&& text::ascending(sorted)
            &&& forall|y: Seq<char>| #[trigger]
                sorted.contains(y) <==> y.len() > 0 && names(refs, y)
            &&& sorted.len() == 0 <==> refs_key(refs).len() == 0
            &&& sorted.len() > 0 ==> text::split_all(refs_key(refs), '\u{1f}') == sorted
        }),
{
    let sorted = text::sorted_set(trimmed_refs(refs));
    text::sorted_set_holds_each_once(trimmed_refs(refs));
    sorted_refs_are_separable(refs);
    assert forall|y: Seq<char>| #[trigger] sorted.contains(y) <==> y.len() > 0 && names(
        refs,
        y,
    ) by {
        trimmed_refs_members(refs, y);
    }
    reveal_strlit("\u{1f}");
    assert("\u{1f}"@ =~= seq!['\u{1f}']);
    if sorted.len() > 0 {
        text::joined_parts_come_apart(sorted, '\u{1f}');
        text::join_from_the_front(sorted, seq!['\u{1f}']);
        assert(sorted[0].len() > 0);
    }
}

/// Division that drops the fraction, towards zero.
pub open spec fn truncated_div(a: int, b: int) -> int {
    if a >= 0 {
        a / b
    } else {
        -((-a) / b)
    }
}

/// The days from the first of January 1970 to a date of the Gregorian calendar.
/// Years start in March here, so that a leap day comes last.
pub open spec fn days_since_epoch(year: int, month: int, day: int) -> int {
    let y = if month <= 2 {
        year - 1
    } else {
        year
    };
    let era = y / 400;
    let year_of_era = y - era * 400;
    let month_from_march = if month > 2 {
        month - 3
    } else {
        month + 9
    };
    let day_of_year = truncated_div(153 * month_from_march + 2, 5) + day - 1;
    let day_of_era = year_of_era * 365 + year_of_era / 4 - year_of_era / 100 + day_of_year;
    era * 146097 + day_of_era - 719468
}

/// The seconds from the start of 1970 to a date and time.
pub open spec fn epoch_seconds(
    year: int,
    month: int,
    day: int,
    hour: int,
    minute: int,
    second: int,
) -> int {
    days_since_epoch(year, month, day) * 86400 + hour * 3600 + minute * 60 + second
}

/// The number that a field of a timestamp holds.
pub open spec fn field(s: Seq<char>) -> Option<int> {
    match text::parse_int(s) {
        Some(n) => if i64::MIN <= n <= i64::MAX {
            Some(n)
        } else {
            None
        },
        None => None,
    }
}

/// Whether `s` can stand behind the point of the seconds: digits, at least one.
pub open spec fn is_fraction(s: Seq<char>) -> bool {
    s.len() > 0 && text::all_digits(s)
}

/// A point in time: whole seconds since the start of 1970, and the digits
/// behind the point of the seconds.
#[derive(Debug, Clone, PartialEq, Eq)]
pub struct Timestamp {
    pub seconds: i128,
    pub fraction: String,
}

#[verifier::ext_equal]
pub struct TimeModel {
    pub seconds: int,
    pub fraction: Seq<char>,
}

impl View for Timestamp {
    type V = TimeModel;

    open spec fn view(&self) -> TimeModel {
        TimeModel { seconds: self.seconds as int, fraction: self.fraction@ }
    }
}

pub open spec fn time_view(t: Option<Timestamp>) -> Option<TimeModel> {
    match t {
        Some(x) => Some(x@),
        None => None,
    }
}

/// The timestamp without a `Z` or an offset of zero at its end.
pub open spec fn local_part(ts: Seq<char>) -> Seq<char> {
    text::strip_suffixes(
        text::strip_suffixes(text::strip_suffixes(ts, "Z"@), "+00:00"@),
        "-00:00"@,
    )
}

/// Whether a year of the Gregorian calendar has a leap day.
pub open spec fn is_leap(year: int) -> bool {
    year % 4 == 0 && (year % 100 != 0 || year % 400 == 0)
}

/// The days of a month.
pub open spec fn month_length(year: int, month: int) -> int {
    if month == 2 {
        if is_leap(year) {
            29
        } else {
            28
        }
    } else if month == 4 || month == 6 || month == 9 || month == 11 {
        30
    } else {
        31
    }
}

/// The year, month and day of a date with hyphens between them. None where a
/// field is missing or not in the calendar.
pub open spec fn date_fields(date: Seq<char>) -> Option<(int, int, int)> {
    let parts = text::split_all(date, '-');
    if parts.len() != 3 {
        None
    } else {
        match (field(parts[0]), field(parts[1]), field(parts[2])) {
            (Some(y), Some(m), Some(d)) => if 1 <= m <= 12 && 1 <= d <= month_length(y, m) {
                Some((y, m, d))
            } else {
                None
            },
            _ => None,
        }
    }
}

/// Whether there is such a time of day. A minute can have a leap second, and a
/// day ends at 24:00:00.
pub open spec fn on_the_clock(hour: int, minute: int, second: int) -> bool {
    ||| 0 <= hour <= 23 && 0 <= minute <= 59 && 0 <= second <= 60
    ||| hour == 24 && minute == 0 && second == 0
}

/// The hour, minute and second of a time with colons between them. Seconds may
/// be left out. None where another field is missing or one is not on the clock.
pub open spec fn time_fields(hms: Seq<char>) -> Option<(int, int, int)> {
    let parts = text::split_all(hms, ':');
    if parts.len() < 2 || parts.len() > 3 {
        None
    } else {
        let second = if parts.len() < 3 {
            Some(0int)
        } else {
            field(parts[2])
        };
        match (field(parts[0]), field(parts[1]), second) {
            (Some(h), Some(m), Some(s)) => if on_the_clock(h, m, s) {
                Some((h, m, s))
            } else {
                None
            },
            _ => None,
        }
    }
}

/// The point in time that `YYYY-MM-DDTHH:MM:SS[.fff]Z` names. None where the
/// text has another shape or names a day or a time that there is not.
pub open spec fn time_of(ts: Seq<char>) -> Option<TimeModel> {
    match text::split_first(local_part(ts), 'T') {
        None => None,
        Some((date, time)) => {
            let (hms, fraction) = match text::split_first(time, '.') {
                Some(parts) => parts,
                None => (time, "0"@),
            };
            match (date_fields(date), time_fields(hms)) {
                (Some((year, month, day)), Some((hour, minute, second))) => if is_fraction(
                    fraction,
                ) {
                    Some(
                        TimeModel {
                            seconds: epoch_seconds(year, month, day, hour, minute, second),
                            fraction,
                        },
                    )
                } else {
                    None
                },
                _ => None,
            }
        },
    }
}

fn fraction_is_valid(s: &Vec<char>) -> (yes: bool)
    ensures
        yes == is_fraction(s@),
{
    let mut i: usize = 0;
    while i < s.len()
        invariant
            i <= s@.len(),
            forall|k: int| 0 <= k < i ==> text::is_digit(#[trigger] s@[k]),
        decreases s@.len() - i,
    {
        if !('0' <= s[i] && s[i] <= '9') {
            assert(!text::is_digit(s@[i as int]));
            return false;
        }
        i += 1;
    }
    s.len() > 0
}

/// The 400-year era of a year, and the year in it.
fn era_of(y: i128) -> (out: (i128, i128))
    requires
        -0x1_0000_0000_0000_0000 <= y <= 0x1_0000_0000_0000_0000,
    ensures
        out.0 == y as int / 400,
        out.1 == y - (y as int / 400) * 400,
        0 <= out.1 < 400,
{
    let era: i128 = if y >= 0 {
        y / 400
    } else {
        -((399 - y) / 400)
    };
    (era, y - era * 400)
}

fn month_days(m: i128) -> (out: i128)
    requires
        -0x1_0000_0000_0000_0000 <= m <= 0x1_0000_0000_0000_0000,
    ensures
        out == truncated_div(153 * m + 2, 5),
        -0x40_0000_0000_0000_0000 <= out <= 0x40_0000_0000_0000_0000,
{
    let scaled: i128 = 153 * m + 2;
    if scaled >= 0 {
        scaled / 5
    } else {
        -((-scaled) / 5)
    }
}

fn days_of(year: i64, month: i64, day: i64) -> (out: i128)
    ensures
        out == days_since_epoch(year as int, month as int, day as int),
        -0x100_0000_0000_0000_0000_0000 <= out <= 0x100_0000_0000_0000_0000_0000,
{
    let y: i128 = if month <= 2 {
        year as i128 - 1
    } else {
        year as i128
    };
    let (era, yoe) = era_of(y);
    let m: i128 = if month > 2 {
        month as i128 - 3
    } else {
        month as i128 + 9
    };
    let doy: i128 = month_days(m) + day as i128 - 1;
    let doe: i128 = yoe * 365 + yoe / 4 - yoe / 100 + doy;
    era * 146097 + doe - 719468
}

fn seconds_of(year: i64, month: i64, day: i64, hour: i64, minute: i64, second: i64) -> (out: i128)
    ensures
        out == epoch_seconds(
            year as int,
            month as int,
            day as int,
            hour as int,
            minute as int,
            second as int,
        ),
{
    days_of(year, month, day) * 86400 + hour as i128 * 3600 + minute as i128 * 60 + second as i128
}

fn read_fields(parts: &Vec<Vec<char>>, at: usize) -> (out: Option<i64>)
    requires
        at < parts@.len(),
    ensures
        match out {
            Some(n) => field(parts@[at as int]@) == Some(n as int),
            None => field(parts@[at as int]@) is None,
        },
{
    text::parse_i64(&parts[at])
}

/// How many days a month has.
fn days_in_month(year: i64, month: i64) -> (days: i64)
    ensures
        days == month_length(year as int, month as int),
{
    if month == 2 {
        // A whole number of eras on, so that the year is not negative.
        let shifted: i128 = year as i128 + 9223372036854776000;
        proof {
            let e: int = 23058430092136940;
            assert(shifted == 400 * e + year);
            vstd::arithmetic::div_mod::lemma_mod_multiples_vanish(100 * e, year as int, 4);
            vstd::arithmetic::div_mod::lemma_mod_multiples_vanish(4 * e, year as int, 100);
            vstd::arithmetic::div_mod::lemma_mod_multiples_vanish(e, year as int, 400);
        }
        if shifted % 4 == 0 && (shifted % 100 != 0 || shifted % 400 == 0) {
            29
        } else {
            28
        }
    } else if month == 4 || month == 6 || month == 9 || month == 11 {
        30
    } else {
        31
    }
}

/// The point in time that `YYYY-MM-DDTHH:MM:SS[.fff]Z` names, or none where
/// the text has another shape or names a day or a time that there is not.
pub fn parse_iso8601(ts: &str) -> (time: Option<Timestamp>)
    ensures
        time_view(time) == time_of(ts@),
{
    proof {
        reveal_strlit("Z");
        reveal_strlit("+00:00");
        reveal_strlit("-00:00");
    }
    let whole = text::chars_of(ts);
    let no_z = text::without_suffixes(&whole, "Z");
    let no_plus = text::without_suffixes(&no_z, "+00:00");
    let core = text::without_suffixes(&no_plus, "-00:00");
    let (date, time) = match text::split_once(&core, 'T') {
        Some(parts) => parts,
        None => {
            return None;
        },
    };
    let (hms, fraction) = match text::split_once(&time, '.') {
        Some(parts) => parts,
        None => (time, text::chars_of("0")),
    };
    let dp = text::split_on(&date, '-');
    let tp = text::split_on(&hms, ':');
    proof {
        assert forall|i: int| 0 <= i < dp@.len() implies (#[trigger] dp@[i])@
            == text::split_all(date@, '-')[i] by {
            assert(text::pieces_view(dp@)[i] == dp@[i]@);
        }
        assert forall|i: int| 0 <= i < tp@.len() implies (#[trigger] tp@[i])@
            == text::split_all(hms@, ':')[i] by {
            assert(text::pieces_view(tp@)[i] == tp@[i]@);
        }
    }
    if dp.len() != 3 || tp.len() < 2 || tp.len() > 3 || !fraction_is_valid(&fraction) {
        return None;
    }
    let year = read_fields(&dp, 0);
    let month = read_fields(&dp, 1);
    let day = read_fields(&dp, 2);
    let hour = read_fields(&tp, 0);
    let minute = read_fields(&tp, 1);
    let second = if tp.len() < 3 {
        Some(0)
    } else {
        read_fields(&tp, 2)
    };
    match (year, month, day, hour, minute, second) {
        (Some(y), Some(mo), Some(d), Some(h), Some(mi), Some(s)) => {
            if !(1 <= mo && mo <= 12 && 1 <= d && d <= days_in_month(y, mo)) {
                return None;
            }
            let in_the_day = 0 <= h && h <= 23 && 0 <= mi && mi <= 59 && 0 <= s && s <= 60;
            if !in_the_day && !(h == 24 && mi == 0 && s == 0) {
                return None;
            }
            let fraction = text::string_of(&fraction);
            Some(Timestamp { seconds: seconds_of(y, mo, d, h, mi, s), fraction })
        },
        _ => None,
    }
}

/// The days from a fixed point to the first of March of a year.
spec fn days_to_march(y: int) -> int {
    (y / 400) * 146097 + (y % 400) * 365 + (y % 400) / 4 - (y % 400) / 100
}

proof fn same_remainders(e: int, k: int)
    ensures
        (400 * e + k) % 4 == k % 4,
        (400 * e + k) % 100 == k % 100,
        0 <= k < 400 ==> (400 * e + k) % 400 == k && (400 * e + k) / 400 == e,
{
    vstd::arithmetic::div_mod::lemma_mod_multiples_vanish(100 * e, k, 4);
    vstd::arithmetic::div_mod::lemma_mod_multiples_vanish(4 * e, k, 100);
    if 0 <= k < 400 {
        vstd::arithmetic::div_mod::lemma_fundamental_div_mod_converse(400 * e + k, 400, e, k);
    }
}

proof fn quotients_step(r: int)
    requires
        0 <= r < 399,
    ensures
        (r + 1) / 4 == r / 4 + if (r + 1) % 4 == 0 {
            1int
        } else {
            0
        },
        (r + 1) / 100 == r / 100 + if (r + 1) % 100 == 0 {
            1int
        } else {
            0
        },
{
}

proof fn march_to_march(y: int)
    ensures
        days_to_march(y + 1) == days_to_march(y) + if is_leap(y + 1) {
            366int
        } else {
            365
        },
{
    let (e, r) = (y / 400, y % 400);
    same_remainders(e, r);
    if r == 399 {
        same_remainders(e + 1, 0);
        assert(y + 1 == 400 * (e + 1) + 0);
    } else {
        same_remainders(e, r + 1);
        assert(y + 1 == 400 * e + (r + 1));
        quotients_step(r);
        assert((r + 1) % 100 == 0 ==> (r + 1) % 4 == 0);
    }
}

proof fn days_by_march(year: int, month: int, day: int)
    requires
        1 <= month <= 12,
    ensures
        days_since_epoch(year, month, day) == days_to_march(
            if month <= 2 {
                year - 1
            } else {
                year
            },
        ) + (if month == 1 {
            306int
        } else if month == 2 {
            337
        } else if month == 3 {
            0
        } else if month == 4 {
            31
        } else if month == 5 {
            61
        } else if month == 6 {
            92
        } else if month == 7 {
            122
        } else if month == 8 {
            153
        } else if month == 9 {
            184
        } else if month == 10 {
            214
        } else if month == 11 {
            245
        } else {
            275
        }) + day - 1 - 719468,
{
    let y = if month <= 2 {
        year - 1
    } else {
        year
    };
    assert(y - (y / 400) * 400 == y % 400);
}

/// Days are counted as the calendar runs: from zero at the first of January
/// 1970, one per day, a month's length from each first of a month to the next,
/// and from December to January of the next year.
pub proof fn days_follow_the_calendar(year: int, month: int, day: int)
    requires
        1 <= month <= 12,
    ensures
        days_since_epoch(1970, 1, 1) == 0,
        days_since_epoch(year, month, day + 1) == days_since_epoch(year, month, day) + 1,
        month < 12 ==> days_since_epoch(year, month + 1, 1) == days_since_epoch(year, month, 1)
            + month_length(year, month),
        month == 12 ==> days_since_epoch(year + 1, 1, 1) == days_since_epoch(year, month, 1)
            + month_length(year, month),
{
    days_by_march(1970, 1, 1);
    days_by_march(year, month, day);
    days_by_march(year, month, day + 1);
    days_by_march(year, month, 1);
    if month < 12 {
        days_by_march(year, month + 1, 1);
        march_to_march(year - 1);
    } else {
        days_by_march(year + 1, 1, 1);
    }
}

proof fn strip_suffixes_shrinks(s: Seq<char>, suffix: Seq<char>)
    ensures
        text::strip_suffixes(s, suffix).len() <= s.len(),
        text::strip_suffixes(s, suffix).len() == s.len() ==> text::strip_suffixes(s, suffix) == s,
    decreases s.len(),
{
    if suffix.len() > 0 && text::occurs_at(s, suffix, s.len() - suffix.len()) {
        strip_suffixes_shrinks(s.take(s.len() - suffix.len()), suffix);
    }
}

proof fn strip_appended(s: Seq<char>, suffix: Seq<char>)
    requires
        suffix.len() > 0,
    ensures
        text::strip_suffixes(s + suffix, suffix) == text::strip_suffixes(s, suffix),
{
    let t = s + suffix;
    assert(t.subrange(s.len() as int, t.len() as int) =~= suffix);
    assert(text::occurs_at(t, suffix, t.len() - suffix.len()));
    assert(t.take(t.len() - suffix.len()) =~= s);
}

proof fn other_ending_stays(s: Seq<char>, suffix: Seq<char>, i: int)
    requires
        0 <= i < suffix.len() <= s.len(),
        s[s.len() - suffix.len() + i] != suffix[i],
    ensures
        text::strip_suffixes(s, suffix) == s,
{
    assert(s.subrange(s.len() - suffix.len(), s.len() as int)[i] != suffix[i]);
}

/// A timestamp in UTC means the same with `Z`, with an offset of zero, or with
/// neither behind it.
pub proof fn utc_marks_do_not_matter(ts: Seq<char>)
    requires
        local_part(ts) == ts,
    ensures
        time_of(ts + "Z"@) == time_of(ts),
        time_of(ts + "+00:00"@) == time_of(ts),
        time_of(ts + "-00:00"@) == time_of(ts),
{
    reveal_strlit("Z");
    reveal_strlit("+00:00");
    reveal_strlit("-00:00");
    let (z, p, m) = ("Z"@, "+00:00"@, "-00:00"@);
    let a = text::strip_suffixes(ts, z);
    let b = text::strip_suffixes(a, p);
    strip_suffixes_shrinks(ts, z);
    strip_suffixes_shrinks(a, p);
    strip_suffixes_shrinks(b, m);
    assert(a == ts && b == ts);
    strip_appended(ts, z);
    strip_appended(ts, p);
    strip_appended(ts, m);
    let (tp, tm) = (ts + p, ts + m);
    assert(tp[tp.len() - 1] == p[5]);
    assert(tm[tm.len() - 1] == m[5]);
    assert(tm[tm.len() - 6] == m[0]);
    other_ending_stays(tp, z, 0);
    other_ending_stays(tm, z, 0);
    other_ending_stays(tm, p, 0);
}

/// One entry of a session's observations.
#[derive(Debug, Clone)]
pub enum Observation {
    /// The session contradicts the sessions in `refs` on `topic`.
    Conflict { refs: Vec<String>, topic: String, ts: String, text: Option<String> },
    Other,
}

pub enum ObservationModel {
    Conflict { refs: Seq<Seq<char>>, topic: Seq<char>, ts: Seq<char>, text: Option<Seq<char>> },
    Other,
}

impl View for Observation {
    type V = ObservationModel;

    open spec fn view(&self) -> ObservationModel {
        match *self {
            Observation::Conflict { refs, topic, ts, text } => ObservationModel::Conflict {
                refs: text::views(refs@),
                topic: topic@,
                ts: ts@,
                text: text::opt_view(text),
            },
            Observation::Other => ObservationModel::Other,
        }
    }
}

pub open spec fn observations_view(v: Seq<Observation>) -> Seq<ObservationModel> {
    Seq::new(v.len(), |i: int| v[i]@)
}

/// A conflict that was marked as reviewed.
#[derive(Debug, Clone)]
pub struct Review {
    pub session_id: String,
    pub refs_key: String,
    pub topic: String,
}

pub open spec fn is_review(r: Review, id: Seq<char>, key: Seq<char>, topic: Seq<char>) -> bool {
    r.session_id@ == id && r.refs_key@ == key && r.topic@ == topic
}

/// Whether a conflict is among the reviewed ones.
pub open spec fn is_reviewed(
    reviews: Seq<Review>,
    id: Seq<char>,
    key: Seq<char>,
    topic: Seq<char>,
) -> bool {
    exists|i: int| 0 <= i < reviews.len() && is_review(#[trigger] reviews[i], id, key, topic)
}

/// One row of the conflict viewer.
#[derive(Debug, Clone)]
pub struct ConflictRow {
    pub id: i64,
    pub text: String,
    /// The session that noted the conflict, and then those it refers to.
    pub session_ids: Vec<String>,
    pub timestamp: Timestamp,
    pub reviewed: bool,
}

/// What a conflict row holds.
#[verifier::ext_equal]
pub struct ConflictModel {
    pub id: i64,
    pub text: Seq<char>,
    pub session_ids: Seq<Seq<char>>,
    pub timestamp: TimeModel,
    pub reviewed: bool,
}

impl View for ConflictRow {
    type V = ConflictModel;

    open spec fn view(&self) -> ConflictModel {
        ConflictModel {
            id: self.id,
            text: self.text@,
            session_ids: text::views(self.session_ids@),
            timestamp: self.timestamp@,
            reviewed: self.reviewed,
        }
    }
}

pub open spec fn conflicts_view(v: Seq<ConflictRow>) -> Seq<ConflictModel> {
    Seq::new(v.len(), |i: int| v[i]@)
}

/// How many conflicts of a session are not reviewed.
#[derive(Debug, Clone)]
pub struct ConflictCount {
    pub session_id: String,
    pub count: u32,
}

#[verifier::ext_equal]
pub struct CountModel {
    pub session_id: Seq<char>,
    pub count: u32,
}

impl View for ConflictCount {
    type V = CountModel;

    open spec fn view(&self) -> CountModel {
        CountModel { session_id: self.session_id@, count: self.count }
    }
}

pub open spec fn counts_view(v: Seq<ConflictCount>) -> Seq<CountModel> {
    Seq::new(v.len(), |i: int| v[i]@)
}

/// The position of a session's count from `from` on, or the number of counts.
pub open spec fn find_count(counts: Seq<CountModel>, id: Seq<char>, from: int) -> int
    decreases counts.len() - from,
{
    if from < 0 || from >= counts.len() {
        counts.len() as int
    } else if counts[from].session_id == id {
        from
    } else {
        find_count(counts, id, from + 1)
    }
}

/// The count of a session, zero where it has none.
pub open spec fn count_of(counts: Seq<CountModel>, id: Seq<char>) -> u32 {
    let at = find_count(counts, id, 0);
    if 0 <= at < counts.len() {
        counts[at].count
    } else {
        0
    }
}

/// The counts with one more for a session.
pub open spec fn counted(counts: Seq<CountModel>, id: Seq<char>) -> Seq<CountModel> {
    let at = find_count(counts, id, 0);
    if 0 <= at < counts.len() {
        counts.update(
            at,
            CountModel { count: (counts[at].count + 1) as u32, ..counts[at] },
        )
    } else {
        counts.push(CountModel { session_id: id, count: 1 })
    }
}

/// A number below 2^61 that stands for a text.
pub open spec fn fingerprint(s: Seq<char>) -> nat
    decreases s.len(),
{
    if s.len() == 0 {
        0
    } else {
        (fingerprint(s.drop_last()) * 1000003 + s.last() as u32 + 1) as nat % 2305843009213693951
    }
}

/// The id of a conflict. It depends on the session that noted the conflict, on
/// the sessions it refers to and on its topic, and on nothing else.
pub open spec fn conflict_id(origin: Seq<char>, refs: Seq<Seq<char>>, topic: Seq<char>) -> i64 {
    (fingerprint(origin + "\u{1f}"@ + refs_key(refs) + "\u{1f}"@ + topic) + 1) as i64
}

/// The row of a conflict.
pub open spec fn row_of(
    origin: Seq<char>,
    observation: ObservationModel,
    reviews: Seq<Review>,
) -> ConflictModel {
    let refs = observation->refs;
    let topic = observation->topic;
    ConflictModel {
        id: conflict_id(origin, refs, topic),
        text: match observation->text {
            Some(words) => words,
            None => topic,
        },
        session_ids: seq![origin] + refs,
        timestamp: match time_of(observation->ts) {
            Some(time) => time,
            None => TimeModel { seconds: 0, fraction: "0"@ },
        },
        reviewed: is_reviewed(reviews, origin, refs_key(refs), topic),
    }
}

/// The rows and counts so far.
#[verifier::ext_equal]
pub struct Gathered {
    pub rows: Seq<ConflictModel>,
    pub counts: Seq<CountModel>,
}

pub open spec fn with_observation(
    g: Gathered,
    origin: Seq<char>,
    observation: ObservationModel,
    reviews: Seq<Review>,
) -> Gathered {
    if observation is Conflict {
        let row = row_of(origin, observation, reviews);
        Gathered {
            rows: g.rows.push(row),
            counts: if row.reviewed {
                g.counts
            } else {
                counted(g.counts, origin)
            },
        }
    } else {
        g
    }
}

pub open spec fn with_observations(
    g: Gathered,
    origin: Seq<char>,
    observations: Seq<ObservationModel>,
    reviews: Seq<Review>,
) -> Gathered
    decreases observations.len(),
{
    if observations.len() == 0 {
        g
    } else {
        with_observation(
            with_observations(g, origin, observations.drop_last(), reviews),
            origin,
            observations.last(),
            reviews,
        )
    }
}

/// What a session's observations were read as: nothing where they could not be
/// read.
pub open spec fn read_as(entries: Seq<Option<Vec<Observation>>>, i: int) -> Seq<ObservationModel> {
    if 0 <= i < entries.len() && entries[i] is Some {
        observations_view(entries[i].unwrap()@)
    } else {
        Seq::empty()
    }
}

/// The conflicts of the first `n` sessions, in order.
pub open spec fn gathered(
    sessions: Seq<Seq<char>>,
    entries: Seq<Option<Vec<Observation>>>,
    reviews: Seq<Review>,
    n: int,
) -> Gathered
    decreases n,
{
    if n <= 0 {
        Gathered { rows: Seq::empty(), counts: Seq::empty() }
    } else {
        with_observations(
            gathered(sessions, entries, reviews, n - 1),
            sessions[n - 1],
            read_as(entries, n - 1),
            reviews,
        )
    }
}

/// Whether no session has more conflicts that are not reviewed than can be
/// counted.
pub open spec fn countable(
    sessions: Seq<Seq<char>>,
    entries: Seq<Option<Vec<Observation>>>,
    reviews: Seq<Review>,
    n: int,
) -> bool {
    forall|id: Seq<char>| #[trigger]
        unresolved(gathered(sessions, entries, reviews, n).rows, id) <= u32::MAX
}

fn reviewed_before(reviews: &Vec<Review>, id: &str, key: &str, topic: &str) -> (yes: bool)
    ensures
        yes == is_reviewed(reviews@, id@, key@, topic@),
{
    let mut i: usize = 0;
    while i < reviews.len()
        invariant
            i <= reviews@.len(),
            forall|k: int| 0 <= k < i ==> !is_review(#[trigger] reviews@[k], id@, key@, topic@),
        decreases reviews@.len() - i,
    {
        if text::same_text(reviews[i].session_id.as_str(), id) && text::same_text(
            reviews[i].refs_key.as_str(),
            key,
        ) && text::same_text(reviews[i].topic.as_str(), topic) {
            assert(is_review(reviews@[i as int], id@, key@, topic@));
            return true;
        }
        i += 1;
    }
    false
}

proof fn found_count(counts: Seq<CountModel>, id: Seq<char>, from: int)
    requires
        0 <= from <= counts.len(),
    ensures
        from <= find_count(counts, id, from) <= counts.len(),
        find_count(counts, id, from) < counts.len() ==> counts[find_count(
            counts,
            id,
            from,
        )].session_id == id,
        forall|k: int|
            from <= k < find_count(counts, id, from) ==> (#[trigger] counts[k]).session_id != id,
    decreases counts.len() - from,
{
    if from < counts.len() && counts[from].session_id != id {
        found_count(counts, id, from + 1);
    }
}

fn position_of_count(counts: &Vec<ConflictCount>, id: &str) -> (at: usize)
    ensures
        at == find_count(counts_view(counts@), id@, 0),
        at <= counts@.len(),
{
    let mut i: usize = 0;
    while i < counts.len()
        invariant
            i <= counts@.len(),
            find_count(counts_view(counts@), id@, 0) == find_count(
                counts_view(counts@),
                id@,
                i as int,
            ),
        decreases counts@.len() - i,
    {
        if text::same_text(counts[i].session_id.as_str(), id) {
            return i;
        }
        i += 1;
    }
    i
}

/// The count of a session, zero where it has none.
pub fn count_for(counts: &Vec<ConflictCount>, id: &str) -> (count: u32)
    ensures
        count == count_of(counts_view(counts@), id@),
{
    let at: usize = position_of_count(counts, id);
    if at < counts.len() {
        counts[at].count
    } else {
        0
    }
}

fn add_count(counts: &mut Vec<ConflictCount>, id: &str)
    requires
        count_of(counts_view(old(counts)@), id@) < u32::MAX,
    ensures
        counts_view(final(counts)@) == counted(counts_view(old(counts)@), id@),
{
    let at: usize = position_of_count(counts, id);
    let ghost before = counts_view(counts@);
    if at < counts.len() {
        assert(before[at as int] == counts@[at as int]@);
        counts[at].count = counts[at].count + 1;
        assert(counts_view(counts@) =~= counted(before, id@));
    } else {
        counts.push(ConflictCount { session_id: id.to_owned(), count: 1 });
        assert(counts_view(counts@) =~= counted(before, id@));
    }
}

fn fingerprint_of(s: &str) -> (out: u64)
    ensures
        out == fingerprint(s@),
        out < 2305843009213693951,
{
    let chars = text::chars_of(s);
    let mut out: u64 = 0;
    let mut i: usize = 0;
    while i < chars.len()
        invariant
            i <= chars@.len(),
            out == fingerprint(chars@.take(i as int)),
            out < 2305843009213693951,
        decreases chars@.len() - i,
    {
        assert(chars@.take(i + 1).drop_last() =~= chars@.take(i as int));
        let sum: u128 = out as u128 * 1000003 + chars[i] as u32 as u128 + 1;
        out = (sum % 2305843009213693951) as u64;
        i += 1;
    }
    assert(chars@.take(i as int) =~= chars@);
    out
}

fn id_of(origin: &str, key: &str, topic: &str) -> (id: i64)
    ensures
        id == fingerprint(origin@ + "\u{1f}"@ + key@ + "\u{1f}"@ + topic@) + 1,
{
    let mut whole = origin.to_owned();
    whole.append("\u{1f}");
    whole.append(key);
    whole.append("\u{1f}");
    whole.append(topic);
    fingerprint_of(whole.as_str()) as i64 + 1
}

fn row_for(origin: &str, observation: &Observation, reviews: &Vec<Review>) -> (row: Option<
    ConflictRow,
>)
    ensures
        match row {
            Some(r) => observation@ is Conflict && r@ == row_of(origin@, observation@, reviews@),
            None => !(observation@ is Conflict),
        },
{
    match observation {
        Observation::Conflict { refs, topic, ts, text } => {
            let key = normalize_conflict_refs(refs);
            let reviewed = reviewed_before(reviews, origin, key.as_str(), topic.as_str());
            let mut session_ids: Vec<String> = Vec::new();
            session_ids.push(origin.to_owned());
            let mut i: usize = 0;
            let ghost all = text::views(refs@);
            assert(text::views(session_ids@) =~= seq![origin@] + all.take(0));
            while i < refs.len()
                invariant
                    i <= refs@.len(),
                    all == text::views(refs@),
                    text::views(session_ids@) == seq![origin@] + all.take(i as int),
                decreases refs@.len() - i,
            {
                let ghost before = text::views(session_ids@);
                session_ids.push(refs[i].clone());
                assert(text::views(session_ids@) =~= before.push(all[i as int]));
                assert(before.push(all[i as int]) =~= seq![origin@] + all.take(i + 1));
                i += 1;
            }
            assert(all.take(i as int) =~= all);
            let words = match text {
                Some(w) => w.clone(),
                None => topic.clone(),
            };
            let timestamp = match parse_iso8601(ts.as_str()) {
                Some(time) => time,
                None => Timestamp { seconds: 0, fraction: "0".to_owned() },
            };
            Some(
                ConflictRow {
                    id: id_of(origin, key.as_str(), topic.as_str()),
                    text: words,
                    session_ids,
                    timestamp,
                    reviewed,
                },
            )
        },
        Observation::Other => None,
    }
}

/// The rows of a session that are not reviewed.
pub open spec fn unresolved(rows: Seq<ConflictModel>, id: Seq<char>) -> nat
    decreases rows.len(),
{
    if rows.len() == 0 {
        0
    } else {
        let last = rows.last();
        unresolved(rows.drop_last(), id) + if !last.reviewed && last.session_ids[0] == id {
            1nat
        } else {
            0
        }
    }
}

proof fn observation_adds_unresolved(
    g: Gathered,
    origin: Seq<char>,
    observation: ObservationModel,
    reviews: Seq<Review>,
    id: Seq<char>,
)
    ensures
        unresolved(g.rows, id) <= unresolved(
            with_observation(g, origin, observation, reviews).rows,
            id,
        ),
{
    let after = with_observation(g, origin, observation, reviews);
    if observation is Conflict {
        assert(after.rows.drop_last() =~= g.rows);
    }
}

proof fn observations_add_unresolved(
    g: Gathered,
    origin: Seq<char>,
    observations: Seq<ObservationModel>,
    reviews: Seq<Review>,
    k: int,
    id: Seq<char>,
)
    requires
        0 <= k <= observations.len(),
    ensures
        unresolved(
            with_observations(g, origin, observations.take(k), reviews).rows,
            id,
        ) <= unresolved(with_observations(g, origin, observations, reviews).rows, id),
    decreases observations.len(),
{
    if k == observations.len() {
        assert(observations.take(k) =~= observations);
    } else {
        let shorter = observations.drop_last();
        observations_add_unresolved(g, origin, shorter, reviews, k, id);
        assert(shorter.take(k) =~= observations.take(k));
        observation_adds_unresolved(
            with_observations(g, origin, shorter, reviews),
            origin,
            observations.last(),
            reviews,
            id,
        );
    }
}

proof fn sessions_add_unresolved(
    sessions: Seq<Seq<char>>,
    entries: Seq<Option<Vec<Observation>>>,
    reviews: Seq<Review>,
    a: int,
    b: int,
    id: Seq<char>,
)
    requires
        0 <= a <= b,
    ensures
        unresolved(gathered(sessions, entries, reviews, a).rows, id) <= unresolved(
            gathered(sessions, entries, reviews, b).rows,
            id,
        ),
    decreases b - a,
{
    if a < b {
        sessions_add_unresolved(sessions, entries, reviews, a, b - 1, id);
        let before = gathered(sessions, entries, reviews, b - 1);
        let here = read_as(entries, b - 1);
        observations_add_unresolved(before, sessions[b - 1], here, reviews, 0, id);
        assert(here.take(0) =~= Seq::empty());
    }
}

proof fn fewer_sessions_are_countable(
    sessions: Seq<Seq<char>>,
    entries: Seq<Option<Vec<Observation>>>,
    reviews: Seq<Review>,
    a: int,
    b: int,
)
    requires
        0 <= a <= b,
        countable(sessions, entries, reviews, b),
    ensures
        countable(sessions, entries, reviews, a),
{
    assert forall|id: Seq<char>| #[trigger]
        unresolved(gathered(sessions, entries, reviews, a).rows, id) <= u32::MAX by {
        sessions_add_unresolved(sessions, entries, reviews, a, b, id);
    }
}

/// Whether every session's count is the number of its rows that are not
/// reviewed.
pub open spec fn sums_up(g: Gathered) -> bool {
    forall|id: Seq<char>| #[trigger] count_of(g.counts, id) == unresolved(g.rows, id)
}

proof fn counted_adds_one(counts: Seq<CountModel>, id: Seq<char>, other: Seq<char>)
    requires
        count_of(counts, id) < u32::MAX,
    ensures
        count_of(counted(counts, id), other) == count_of(counts, other) + if other == id {
            1int
        } else {
            0
        },
{
    let after = counted(counts, id);
    found_count(counts, id, 0);
    found_count(counts, other, 0);
    found_count(after, other, 0);
    let at = find_count(counts, id, 0);
    let o = find_count(counts, other, 0);
    let p = find_count(after, other, 0);
    if at < counts.len() {
        assert(forall|k: int|
            0 <= k < counts.len() ==> (#[trigger] after[k]).session_id == counts[k].session_id);
        if p < o {
            assert(after[p].session_id == counts[p].session_id);
        }
        if o < p && o < counts.len() {
            assert(after[o].session_id == counts[o].session_id);
        }
        assert(p == o);
    } else {
        assert(forall|k: int| 0 <= k < counts.len() ==> #[trigger] after[k] == counts[k]);
        assert(after[counts.len() as int].session_id == id);
        if other == id {
            assert(o == counts.len());
            if p < counts.len() {
                assert(after[p].session_id == counts[p].session_id);
            }
        } else if o < counts.len() {
            if p < o {
                assert(after[p].session_id == counts[p].session_id);
            }
            if o < p {
                assert(after[o].session_id == counts[o].session_id);
            }
        } else if p < counts.len() {
            assert(after[p].session_id == counts[p].session_id);
        }
    }
}

proof fn observation_keeps_sums(
    g: Gathered,
    origin: Seq<char>,
    observation: ObservationModel,
    reviews: Seq<Review>,
)
    requires
        sums_up(g),
        unresolved(with_observation(g, origin, observation, reviews).rows, origin) <= u32::MAX,
    ensures
        sums_up(with_observation(g, origin, observation, reviews)),
{
    let after = with_observation(g, origin, observation, reviews);
    if observation is Conflict {
        let row = row_of(origin, observation, reviews);
        assert(row.session_ids[0] == origin);
        assert(after.rows.drop_last() =~= g.rows);
        assert(count_of(g.counts, origin) == unresolved(g.rows, origin));
        assert forall|id: Seq<char>| #[trigger] count_of(after.counts, id) == unresolved(
            after.rows,
            id,
        ) by {
            assert(count_of(g.counts, id) == unresolved(g.rows, id));
            if !row.reviewed {
                counted_adds_one(g.counts, origin, id);
            }
        }
    }
}

proof fn observations_keep_sums(
    g: Gathered,
    origin: Seq<char>,
    observations: Seq<ObservationModel>,
    reviews: Seq<Review>,
)
    requires
        sums_up(g),
        unresolved(with_observations(g, origin, observations, reviews).rows, origin) <= u32::MAX,
    ensures
        sums_up(with_observations(g, origin, observations, reviews)),
    decreases observations.len(),
{
    if observations.len() > 0 {
        let shorter = observations.drop_last();
        let before = with_observations(g, origin, shorter, reviews);
        observation_adds_unresolved(before, origin, observations.last(), reviews, origin);
        observations_keep_sums(g, origin, shorter, reviews);
        observation_keeps_sums(before, origin, observations.last(), reviews);
    }
}

/// A session's count is the number of its conflicts that are not reviewed.
pub proof fn counts_are_the_unresolved_rows(
    sessions: Seq<Seq<char>>,
    entries: Seq<Option<Vec<Observation>>>,
    reviews: Seq<Review>,
    n: int,
)
    requires
        countable(sessions, entries, reviews, n),
    ensures
        sums_up(gathered(sessions, entries, reviews, n)),
    decreases n,
{
    if n > 0 {
        fewer_sessions_are_countable(sessions, entries, reviews, n - 1, n);
        counts_are_the_unresolved_rows(sessions, entries, reviews, n - 1);
        assert(unresolved(gathered(sessions, entries, reviews, n).rows, sessions[n - 1])
            <= u32::MAX);
        observations_keep_sums(
            gathered(sessions, entries, reviews, n - 1),
            sessions[n - 1],
            read_as(entries, n - 1),
            reviews,
        );
    } else {
        assert forall|id: Seq<char>| #[trigger] count_of(Seq::empty(), id) == unresolved(
            Seq::empty(),
            id,
        ) by {}
    }
}

/// The rows of the conflict viewer, and how many of them each session has that
/// are not reviewed. `entries` holds the observations of each session, or
/// nothing where they could not be read.
pub fn collect_conflicts(
    sessions: &Vec<String>,
    entries: &Vec<Option<Vec<Observation>>>,
    reviews: &Vec<Review>,
) -> (out: (Vec<ConflictRow>, Vec<ConflictCount>))
    requires
        countable(text::views(sessions@), entries@, reviews@, sessions@.len() as int),
    ensures
        (Gathered { rows: conflicts_view(out.0@), counts: counts_view(out.1@) }) == gathered(
            text::views(sessions@),
            entries@,
            reviews@,
            sessions@.len() as int,
        ),
{
    let mut rows: Vec<ConflictRow> = Vec::new();
    let mut counts: Vec<ConflictCount> = Vec::new();
    let ghost ids = text::views(sessions@);
    let mut i: usize = 0;
    assert(conflicts_view(rows@) =~= Seq::empty());
    assert(counts_view(counts@) =~= Seq::empty());
    while i < sessions.len()
        invariant
            i <= sessions@.len(),
            ids == text::views(sessions@),
            countable(ids, entries@, reviews@, sessions@.len() as int),
            (Gathered { rows: conflicts_view(rows@), counts: counts_view(counts@) }) == gathered(
                ids,
                entries@,
                reviews@,
                i as int,
            ),
        decreases sessions@.len() - i,
    {
        let ghost g = gathered(ids, entries@, reviews@, i as int);
        proof {
            fewer_sessions_are_countable(
                ids,
                entries@,
                reviews@,
                i as int,
                sessions@.len() as int,
            );
            fewer_sessions_are_countable(ids, entries@, reviews@, i + 1, sessions@.len() as int);
            counts_are_the_unresolved_rows(ids, entries@, reviews@, i as int);
        }
        if i < entries.len() {
            if let Some(list) = &entries[i] {
                let ghost all = observations_view(list@);
                let ghost origin = ids[i as int];
                let mut j: usize = 0;
                assert(all.take(0) =~= Seq::empty());
                assert(read_as(entries@, i as int) == all);
                assert(unresolved(gathered(ids, entries@, reviews@, i + 1).rows, origin)
                    <= u32::MAX);
                while j < list.len()
                    invariant
                        i < sessions@.len(),
                        j <= list@.len(),
                        all == observations_view(list@),
                        ids == text::views(sessions@),
                        origin == ids[i as int],
                        sums_up(g),
                        unresolved(with_observations(g, origin, all, reviews@).rows, origin)
                            <= u32::MAX,
                        (Gathered { rows: conflicts_view(rows@), counts: counts_view(counts@) })
                            == with_observations(g, origin, all.take(j as int), reviews@),
                    decreases list@.len() - j,
                {
                    let ghost now = with_observations(g, origin, all.take(j as int), reviews@);
                    let ghost longer = all.take(j + 1);
                    proof {
                        assert(longer.drop_last() =~= all.take(j as int));
                        assert(longer.last() == list@[j as int]@);
                        observations_add_unresolved(g, origin, all, reviews@, j as int, origin);
                        observations_add_unresolved(g, origin, all, reviews@, j + 1, origin);
                        observations_keep_sums(g, origin, all.take(j as int), reviews@);
                        observations_keep_sums(g, origin, longer, reviews@);
                        assert(count_of(now.counts, origin) == unresolved(now.rows, origin));
                    }
                    match row_for(sessions[i].as_str(), &list[j], reviews) {
                        Some(row) => {
                            assert(now.rows.push(row@).drop_last() =~= now.rows);
                            if !row.reviewed {
                                add_count(&mut counts, sessions[i].as_str());
                            }
                            rows.push(row);
                            assert(conflicts_view(rows@) =~= now.rows.push(row@));
                        },
                        None => {},
                    }
                    j += 1;
                }
                assert(all.take(j as int) =~= all);
            }
        }
        i += 1;
    }
    (rows, counts)
}

proof fn rows_are_kept(
    g: Gathered,
    origin: Seq<char>,
    observations: Seq<ObservationModel>,
    reviews: Seq<Review>,
)
    ensures
        g.rows.len() <= with_observations(g, origin, observations, reviews).rows.len(),
        forall|i: int|
            0 <= i < g.rows.len() ==> #[trigger] with_observations(
                g,
                origin,
                observations,
                reviews,
            ).rows[i] == g.rows[i],
    decreases observations.len(),
{
    if observations.len() > 0 {
        rows_are_kept(g, origin, observations.drop_last(), reviews);
    }
}

proof fn observation_has_its_row(
    g: Gathered,
    origin: Seq<char>,
    observations: Seq<ObservationModel>,
    reviews: Seq<Review>,
    k: int,
)
    requires
        0 <= k < observations.len(),
        observations[k] is Conflict,
    ensures
        with_observations(g, origin, observations, reviews).rows.contains(
            row_of(origin, observations[k], reviews),
        ),
    decreases observations.len(),
{
    let row = row_of(origin, observations[k], reviews);
    let before = with_observations(g, origin, observations.drop_last(), reviews);
    let after = with_observations(g, origin, observations, reviews);
    if k == observations.len() - 1 {
        assert(after.rows[before.rows.len() as int] == row);
    } else {
        observation_has_its_row(g, origin, observations.drop_last(), reviews, k);
        assert(after.rows[before.rows.index_of(row)] == row);
    }
}

/// Every conflict that was read has its row.
pub proof fn every_conflict_has_its_row(
    sessions: Seq<Seq<char>>,
    entries: Seq<Option<Vec<Observation>>>,
    reviews: Seq<Review>,
    n: int,
    s: int,
    k: int,
)
    requires
        0 <= s < n,
        0 <= k < read_as(entries, s).len(),
        read_as(entries, s)[k] is Conflict,
    ensures
        gathered(sessions, entries, reviews, n).rows.contains(
            row_of(sessions[s], read_as(entries, s)[k], reviews),
        ),
    decreases n,
{
    let before = gathered(sessions, entries, reviews, n - 1);
    let here = read_as(entries, n - 1);
    if s == n - 1 {
        observation_has_its_row(before, sessions[s], here, reviews, k);
    } else {
        every_conflict_has_its_row(sessions, entries, reviews, n - 1, s, k);
        rows_are_kept(before, sessions[n - 1], here, reviews);
        let row = row_of(sessions[s], read_as(entries, s)[k], reviews);
        let at = before.rows.index_of(row);
        assert(gathered(sessions, entries, reviews, n).rows[at] == row);
    }
}

/// A conflict keeps its id: wherever the same session contradicts the same
/// sessions on the same topic, the row has the same id, whatever else was
/// noted or reviewed in the meantime.
pub proof fn conflicts_keep_their_id(
    origin: Seq<char>,
    a: ObservationModel,
    b: ObservationModel,
    reviews_a: Seq<Review>,
    reviews_b: Seq<Review>,
)
    requires
        a is Conflict,
        b is Conflict,
        refs_key(a->refs) == refs_key(b->refs),
        a->topic == b->topic,
    ensures
        row_of(origin, a, reviews_a).id == row_of(origin, b, reviews_b).id,
{
}

/// A conflict's row names the session that noted it first and then those it
/// refers to, shows its words or else its topic, has its time, or the start of
/// 1970 where that cannot be read, and is reviewed exactly where a review names
/// its session, its references and its topic.
pub proof fn rows_show_their_conflict(
    origin: Seq<char>,
    refs: Seq<Seq<char>>,
    topic: Seq<char>,
    ts: Seq<char>,
    words: Option<Seq<char>>,
    reviews: Seq<Review>,
)
    ensures
        ({
            let row = row_of(
                origin,
                ObservationModel::Conflict { refs, topic, ts, text: words },
                reviews,
            );
            &&& row.session_ids.len() == refs.len() + 1
            &&& row.session_ids[0] == origin
            &&& forall|i: int| 0 <= i < refs.len() ==> row.session_ids[i + 1] == #[trigger] refs[i]
            &&& words matches Some(w) ==> row.text == w
            &&& words is None ==> row.text == topic
            &&& time_of(ts) matches Some(time) ==> row.timestamp == time
            &&& time_of(ts) is None ==> row.timestamp.seconds == 0
            &&& row.reviewed <==> exists|i: int|
                0 <= i < reviews.len() && (#[trigger] reviews[i]).session_id@ == origin
                    && reviews[i].refs_key@ == refs_key(refs) && reviews[i].topic@ == topic
            &&& row.id > 0
        }),
{
    let row = row_of(
        origin,
        ObservationModel::Conflict { refs, topic, ts, text: words },
        reviews,
    );
    fingerprints_are_small(origin + "\u{1f}"@ + refs_key(refs) + "\u{1f}"@ + topic);
    if exists|i: int|
        0 <= i < reviews.len() && (#[trigger] reviews[i]).session_id@ == origin
            && reviews[i].refs_key@ == refs_key(refs) && reviews[i].topic@ == topic {
        let i = choose|i: int|
            0 <= i < reviews.len() && (#[trigger] reviews[i]).session_id@ == origin
                && reviews[i].refs_key@ == refs_key(refs) && reviews[i].topic@ == topic;
        assert(is_review(reviews[i], origin, refs_key(refs), topic));
    }
    if row.reviewed {
        let i = choose|i: int|
            0 <= i < reviews.len() && is_review(
                #[trigger] reviews[i],
                origin,
                refs_key(refs),
                topic,
            );
        assert(reviews[i].session_id@ == origin);
    }
}

proof fn fingerprints_are_small(s: Seq<char>)
    ensures
        fingerprint(s) < 2305843009213693951,
{
}

/// Conflicts are listed in the order they were noted: what is noted later comes
/// behind what is noted earlier, one row for each conflict and none for
/// anything else.
pub proof fn conflicts_come_in_order(
    g: Gathered,
    origin: Seq<char>,
    a: Seq<ObservationModel>,
    b: Seq<ObservationModel>,
    one: ObservationModel,
    reviews: Seq<Review>,
)
    ensures
        with_observations(g, origin, a + b, reviews) == with_observations(
            with_observations(g, origin, a, reviews),
            origin,
            b,
            reviews,
        ),
        with_observations(g, origin, seq![one], reviews).rows == if one is Conflict {
            g.rows.push(row_of(origin, one, reviews))
        } else {
            g.rows
        },
    decreases b.len(),
{
    reveal_with_fuel(with_observations, 2);
    assert(seq![one].drop_last() =~= Seq::<ObservationModel>::empty());
    if b.len() == 0 {
        assert(a + b =~= a);
    } else {
        conflicts_come_in_order(g, origin, a, b.drop_last(), one, reviews);
        assert((a + b).drop_last() =~= a + b.drop_last());
    }
}

/// A timestamp is read field by field: the days of its date, and the hours,
/// minutes and seconds behind them. A date or a time of day that there is not
/// is no timestamp.
pub proof fn timestamps_read_field_by_field(
    date: (nat, nat, nat),
    clock: (nat, nat, nat),
    fraction: Seq<char>,
)
    requires
        date.0 <= i64::MAX,
        date.1 <= i64::MAX,
        date.2 <= i64::MAX,
        clock.0 <= i64::MAX,
        clock.1 <= i64::MAX,
        clock.2 <= i64::MAX,
        fraction.len() > 0,
        text::all_digits(fraction),
    ensures
        ({
            let ts = text::join(
                seq![text::decimal(date.0), text::decimal(date.1), text::decimal(date.2)],
                seq!['-'],
            ) + seq!['T'] + (text::join(
                seq![text::decimal(clock.0), text::decimal(clock.1), text::decimal(clock.2)],
                seq![':'],
            ) + seq!['.'] + fraction);
            let valid = 1 <= date.1 <= 12 && 1 <= date.2 <= month_length(
                date.0 as int,
                date.1 as int,
            ) && ((clock.0 <= 23 && clock.1 <= 59 && clock.2 <= 60) || (clock.0 == 24 && clock.1
                == 0 && clock.2 == 0));
            &&& valid ==> time_of(ts) == Some(
                TimeModel {
                    seconds: days_since_epoch(date.0 as int, date.1 as int, date.2 as int) * 86400
                        + clock.0 * 3600 + clock.1 * 60 + clock.2,
                    fraction,
                },
            )
            &&& !valid ==> time_of(ts) is None
        }),
{
    let d = seq![text::decimal(date.0), text::decimal(date.1), text::decimal(date.2)];
    let c = seq![text::decimal(clock.0), text::decimal(clock.1), text::decimal(clock.2)];
    numbers_are_fields(date.0);
    numbers_are_fields(date.1);
    numbers_are_fields(date.2);
    numbers_are_fields(clock.0);
    numbers_are_fields(clock.1);
    numbers_are_fields(clock.2);
    let (day, hms) = (text::join(d, seq!['-']), text::join(c, seq![':']));
    let time = hms + seq!['.'] + fraction;
    let ts = day + seq!['T'] + time;
    text::joined_parts_come_apart(d, '-');
    text::joined_parts_come_apart(c, ':');
    three_joined(d, '-');
    three_joined(c, ':');
    assert forall|i: int| 0 <= i < day.len() implies #[trigger] day[i] != 'T' by {
        assert(text::is_digit(day[i]) || day[i] == '-');
    }
    assert forall|i: int| 0 <= i < hms.len() implies #[trigger] hms[i] != '.' by {
        assert(text::is_digit(hms[i]) || hms[i] == ':');
    }
    assert(ts.skip(ts.len() - fraction.len()) =~= fraction);
    ends_with_a_digit(ts, fraction);
    splits_where_it_should(day, 'T', time);
    splits_where_it_should(hms, '.', fraction);
}

proof fn numbers_are_fields(n: nat)
    requires
        n <= i64::MAX,
    ensures
        field(text::decimal(n)) == Some(n as int),
        text::decimal(n).len() > 0,
        forall|i: int|
            0 <= i < text::decimal(n).len() ==> text::is_digit(#[trigger] text::decimal(n)[i]),
        !text::decimal(n).contains('-'),
        !text::decimal(n).contains(':'),
{
    text::signed_decimals_read_back(n as int);
    text::decimals_read_back(n);
}

proof fn three_joined(parts: Seq<Seq<char>>, sep: char)
    requires
        parts.len() == 3,
        forall|k: int, i: int|
            0 <= k < 3 && 0 <= i < parts[k].len() ==> text::is_digit(#[trigger] parts[k][i]),
    ensures
        forall|i: int|
            0 <= i < text::join(parts, seq![sep]).len() ==> text::is_digit(
                #[trigger] text::join(parts, seq![sep])[i],
            ) || text::join(parts, seq![sep])[i] == sep,
{
    text::join_from_the_front(parts, seq![sep]);
    let rest = parts.skip(1);
    text::join_from_the_front(rest, seq![sep]);
    assert(rest.skip(1) =~= seq![parts[2]]);
    text::join_from_the_front(rest.skip(1), seq![sep]);
    let whole = text::join(parts, seq![sep]);
    assert(whole =~= parts[0] + seq![sep] + (parts[1] + seq![sep] + parts[2]));
    assert forall|i: int| 0 <= i < whole.len() implies text::is_digit(#[trigger] whole[i])
        || whole[i] == sep by {
        let (a, b) = (parts[0].len() as int, parts[1].len() as int);
        if i < a {
            assert(whole[i] == parts[0][i]);
        } else if i == a {
        } else if i < a + 1 + b {
            assert(whole[i] == parts[1][i - a - 1]);
        } else if i == a + 1 + b {
        } else {
            assert(whole[i] == parts[2][i - a - b - 2]);
        }
    }
}

proof fn splits_where_it_should(a: Seq<char>, sep: char, b: Seq<char>)
    requires
        forall|i: int| 0 <= i < a.len() ==> #[trigger] a[i] != sep,
    ensures
        text::split_first(a + seq![sep] + b, sep) == Some((a, b)),
{
    let s = a + seq![sep] + b;
    text::splits_at_the_first(s, sep);
    assert(s[a.len() as int] == sep);
    assert(s.contains(sep));
    let (x, y) = text::split_first(s, sep).unwrap();
    assert(s[x.len() as int] == sep);
    if x.len() < a.len() {
        assert(a[x.len() as int] == s[x.len() as int]);
    }
    if x.len() > a.len() {
        assert(x[a.len() as int] == s[a.len() as int]);
    }
    assert(x =~= s.take(x.len() as int) && a =~= s.take(a.len() as int));
    assert(y =~= s.skip((x.len() + 1) as int) && b =~= s.skip((a.len() + 1) as int));
}

proof fn ends_with_a_digit(ts: Seq<char>, fraction: Seq<char>)
    requires
        fraction.len() > 0,
        text::all_digits(fraction),
        ts.len() > fraction.len(),
        ts[ts.len() - fraction.len() - 1] == '.',
        ts.skip(ts.len() - fraction.len()) == fraction,
    ensures
        local_part(ts) == ts,
{
    reveal_strlit("Z");
    reveal_strlit("+00:00");
    reveal_strlit("-00:00");
    let n = ts.len() as int;
    let f = fraction.len() as int;
    assert(ts.skip(n - f)[f - 1] == ts[n - 1]);
    assert(text::is_digit(fraction[f - 1]));
    other_ending_stays(ts, "Z"@, 0);
    if n >= 6 {
        if f >= 3 {
            assert(ts.skip(n - f)[f - 3] == ts[n - 3]);
            assert(text::is_digit(fraction[f - 3]));
        }
        let i: int = if f == 1 {
            4
        } else {
            3
        };
        other_ending_stays(ts, "+00:00"@, i);
        other_ending_stays(ts, "-00:00"@, i);
    }
}

proof fn steps_tell_numbers(x: int, y: int, t: int, u: int)
    requires
        0 <= x < 2305843009213693951,
        0 <= y < 2305843009213693951,
        0 <= t <= 0x11_0000,
        0 <= u <= 0x11_0000,
        (x * 1000003 + t) % 2305843009213693951 == (y * 1000003 + u) % 2305843009213693951,
    ensures
        t == u ==> x == y,
        x == y ==> t == u,
{
    let p: int = 2305843009213693951;
    let (a, b) = (x * 1000003 + t, y * 1000003 + u);
    vstd::arithmetic::div_mod::lemma_fundamental_div_mod(a, p);
    vstd::arithmetic::div_mod::lemma_fundamental_div_mod(b, p);
    let q = a / p - b / p;
    assert(p * (a / p) - p * (b / p) == p * q) by (nonlinear_arith)
        requires
            q == a / p - b / p,
    ;
    assert(a - b == p * q);
    if t == u {
        let d = x - y;
        assert(d * 1000003 == p * q);
        let r = q * 1229363429801019168 - d * 533153;
        assert(d == p * r) by (nonlinear_arith)
            requires
                d * 1000003 == p * q,
                p == 2305843009213693951,
                r == q * 1229363429801019168 - d * 533153,
        ;
        assert(r == 0) by (nonlinear_arith)
            requires
                d == p * r,
                -p < d < p,
                p > 0,
        ;
    }
    if x == y {
        assert(t - u == p * q);
        assert(q == 0) by (nonlinear_arith)
            requires
                t - u == p * q,
                -p < t - u < p,
                p > 0,
        ;
    }
}

/// The number of a text with one more character, from the number of the text.
#[verifier::opaque]
spec fn one_step(x: nat, c: char) -> nat {
    (x * 1000003 + c as u32 + 1) as nat % 2305843009213693951
}

proof fn fingerprint_steps(s: Seq<char>, c: char)
    ensures
        fingerprint(s.push(c)) == one_step(fingerprint(s), c),
        fingerprint(s) < 2305843009213693951,
{
    reveal(one_step);
    assert(s.push(c).drop_last() =~= s);
    fingerprints_are_small(s);
}

proof fn steps_tell(x: nat, y: nat, c: char, d: char)
    requires
        x < 2305843009213693951,
        y < 2305843009213693951,
        one_step(x, c) == one_step(y, d),
    ensures
        c == d ==> x == y,
        x == y ==> c == d,
{
    reveal(one_step);
    steps_tell_numbers(x as int, y as int, c as u32 + 1, d as u32 + 1);
}

proof fn near_texts_differ(front: Seq<char>, a: char, b: char, back: Seq<char>)
    requires
        a != b,
    ensures
        fingerprint(front.push(a) + back) != fingerprint(front.push(b) + back),
    decreases back.len(),
{
    let (s, t) = (front.push(a) + back, front.push(b) + back);
    if back.len() == 0 {
        assert(s =~= front.push(a) && t =~= front.push(b));
        last_characters_differ(front, a, b);
    } else {
        let less = back.drop_last();
        near_texts_differ(front, a, b, less);
        let (x, y) = (front.push(a) + less, front.push(b) + less);
        assert(s =~= x.push(back.last()));
        assert(t =~= y.push(back.last()));
        last_steps_keep_apart(x, y, back.last());
    }
}

proof fn last_characters_differ(front: Seq<char>, a: char, b: char)
    requires
        a != b,
    ensures
        fingerprint(front.push(a)) != fingerprint(front.push(b)),
{
    fingerprint_steps(front, a);
    fingerprint_steps(front, b);
    if one_step(fingerprint(front), a) == one_step(fingerprint(front), b) {
        steps_tell(fingerprint(front), fingerprint(front), a, b);
    }
}

proof fn last_steps_keep_apart(x: Seq<char>, y: Seq<char>, c: char)
    requires
        fingerprint(x) != fingerprint(y),
    ensures
        fingerprint(x.push(c)) != fingerprint(y.push(c)),
{
    fingerprint_steps(x, c);
    fingerprint_steps(y, c);
    if one_step(fingerprint(x), c) == one_step(fingerprint(y), c) {
        steps_tell(fingerprint(x), fingerprint(y), c, c);
    }
}

/// Conflicts with different topics, or noted by different sessions, have
/// different ids where the texts differ in one character.
pub proof fn ids_tell_near_conflicts(
    front: Seq<char>,
    a: char,
    b: char,
    back: Seq<char>,
    other: Seq<char>,
    refs: Seq<Seq<char>>,
)
    requires
        a != b,
    ensures
        conflict_id(other, refs, front.push(a) + back) != conflict_id(
            other,
            refs,
            front.push(b) + back,
        ),
        conflict_id(front.push(a) + back, refs, other) != conflict_id(
            front.push(b) + back,
            refs,
            other,
        ),
{
    let mark = "\u{1f}"@;
    let (x, y) = (front.push(a) + back, front.push(b) + back);
    let head = other + mark + refs_key(refs) + mark;
    near_texts_differ(head + front, a, b, back);
    assert(head + x =~= (head + front).push(a) + back);
    assert(head + y =~= (head + front).push(b) + back);
    let tail = back + mark + refs_key(refs) + mark + other;
    near_texts_differ(front, a, b, tail);
    assert(x + mark + refs_key(refs) + mark + other =~= front.push(a) + tail);
    assert(y + mark + refs_key(refs) + mark + other =~= front.push(b) + tail);
    fingerprints_are_small(head + x);
    fingerprints_are_small(head + y);
    fingerprints_are_small(front.push(a) + tail);
    fingerprints_are_small(front.push(b) + tail);
}

/// The key of a single reference is the reference, without white space at its
/// ends.
pub proof fn single_refs_are_their_key(r: Seq<char>)
    ensures
        refs_key(seq![r]) == text::trim(r),
{
    reveal_with_fuel(trimmed_refs, 2);
    reveal_with_fuel(text::sorted_set, 2);
    let t = text::trim(r);
    let none = Seq::<Seq<char>>::empty();
    assert(seq![r].drop_last() =~= none);
    if t.len() == 0 {
        assert(trimmed_refs(seq![r]) =~= none);
        assert(t =~= Seq::empty());
    } else {
        assert(trimmed_refs(seq![r]) =~= seq![t]);
        assert(seq![t].drop_last() =~= none);
        assert(text::sorted_set(seq![t]) =~= seq![t]);
    }
}

/// Conflicts with different sessions have different ids where the session they
/// refer to differs in one character.
pub proof fn ids_tell_near_refs(
    origin: Seq<char>,
    front: Seq<char>,
    a: char,
    b: char,
    back: Seq<char>,
    topic: Seq<char>,
)
    requires
        a != b,
        text::trim(front.push(a) + back) == front.push(a) + back,
        text::trim(front.push(b) + back) == front.push(b) + back,
    ensures
        conflict_id(origin, seq![front.push(a) + back], topic) != conflict_id(
            origin,
            seq![front.push(b) + back],
            topic,
        ),
{
    let mark = "\u{1f}"@;
    let (x, y) = (front.push(a) + back, front.push(b) + back);
    single_refs_are_their_key(x);
    single_refs_are_their_key(y);
    let head = origin + mark + front;
    let tail = back + mark + topic;
    near_texts_differ(head, a, b, tail);
    assert(origin + mark + x + mark + topic =~= head.push(a) + tail);
    assert(origin + mark + y + mark + topic =~= head.push(b) + tail);
    fingerprints_are_small(head.push(a) + tail);
    fingerprints_are_small(head.push(b) + tail);
}

/// Seconds may be left out, and stand for none; so may the fraction, which is
/// then zero.
pub proof fn seconds_and_fraction_may_be_left_out(date: (nat, nat, nat), clock: (nat, nat))
    requires
        1 <= date.1 <= 12,
        1 <= date.2 <= month_length(date.0 as int, date.1 as int),
        date.0 <= i64::MAX,
        clock.0 <= 23,
        clock.1 <= 59,
    ensures
        ({
            let ts = text::join(
                seq![text::decimal(date.0), text::decimal(date.1), text::decimal(date.2)],
                seq!['-'],
            ) + seq!['T'] + text::join(
                seq![text::decimal(clock.0), text::decimal(clock.1)],
                seq![':'],
            ) + seq!['Z'];
            &&& time_of(ts) is Some
            &&& time_of(ts).unwrap().seconds == days_since_epoch(
                date.0 as int,
                date.1 as int,
                date.2 as int,
            ) * 86400 + clock.0 * 3600 + clock.1 * 60
            &&& time_of(ts).unwrap().fraction == seq!['0']
        }),
{
    reveal_strlit("Z");
    reveal_strlit("0");
    reveal_strlit("+00:00");
    reveal_strlit("-00:00");
    assert("Z"@ =~= seq!['Z']);
    assert("0"@ =~= seq!['0']);
    let d = seq![text::decimal(date.0), text::decimal(date.1), text::decimal(date.2)];
    let c = seq![text::decimal(clock.0), text::decimal(clock.1)];
    numbers_are_fields(date.0);
    numbers_are_fields(date.1);
    numbers_are_fields(date.2);
    numbers_are_fields(clock.0);
    numbers_are_fields(clock.1);
    let (day, hm) = (text::join(d, seq!['-']), text::join(c, seq![':']));
    let local = day + seq!['T'] + hm;
    text::joined_parts_come_apart(d, '-');
    text::joined_parts_come_apart(c, ':');
    three_joined(d, '-');
    text::join_from_the_front(c, seq![':']);
    assert(c.skip(1) =~= seq![c[1]]);
    text::join_from_the_front(c.skip(1), seq![':']);
    assert(hm =~= c[0] + seq![':'] + c[1]);
    assert forall|i: int| 0 <= i < day.len() implies #[trigger] day[i] != 'T' by {
        assert(text::is_digit(day[i]) || day[i] == '-');
    }
    assert forall|i: int| 0 <= i < hm.len() implies #[trigger] hm[i] != '.' && (text::is_digit(hm[i])
        || hm[i] == ':') by {
        if i < c[0].len() {
            assert(hm[i] == c[0][i]);
        } else if i > c[0].len() {
            assert(hm[i] == c[1][i - c[0].len() - 1]);
        }
    }
    text::stripping_leaves_no_suffix(local, "Z"@);
    assert(local + seq!['Z'] =~= local + "Z"@);
    let n = local.len() as int;
    assert(local[n - 1] == c[1].last());
    assert(text::is_digit(c[1][c[1].len() - 1]));
    other_ending_stays(local, "Z"@, 0);
    two_digits_at_most(clock.0);
    two_digits_at_most(clock.1);
    if n >= 6 {
        short_clocks_end_otherwise(local, hm, day);
    }
    splits_where_it_should(day, 'T', hm);
    text::splits_at_the_first(hm, '.');
    if hm.contains('.') {
        let at = hm.index_of('.');
        assert(hm[at] == '.');
    }
}

proof fn two_digits_at_most(n: nat)
    requires
        n < 100,
    ensures
        1 <= text::decimal(n).len() <= 2,
{
    reveal_with_fuel(text::decimal, 3);
}

proof fn short_clocks_end_otherwise(local: Seq<char>, hm: Seq<char>, day: Seq<char>)
    requires
        local == day + seq!['T'] + hm,
        local.len() >= 6,
        hm.len() >= 3,
        hm.len() <= 5,
        forall|i: int| 0 <= i < hm.len() ==> text::is_digit(#[trigger] hm[i]) || hm[i] == ':',
        day.len() > 0,
    ensures
        text::strip_suffixes(local, "+00:00"@) == local,
        text::strip_suffixes(local, "-00:00"@) == local,
{
    reveal_strlit("+00:00");
    reveal_strlit("-00:00");
    let n = local.len() as int;
    let h = hm.len() as int;
    assert(local[n - h - 1] == 'T');
    other_ending_stays(local, "+00:00"@, 6 - h - 1);
    other_ending_stays(local, "-00:00"@, 6 - h - 1);
}

} // verus!
