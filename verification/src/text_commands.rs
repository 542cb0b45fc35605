//! The commands on texts and on structured values: replacing, splitting,
//! matching with regular expressions, reading a date and time, picking an
//! item of an array or a member of an object, comparing versions.

use crate::errors::{failure, CommandError, ErrorKind, ErrorModel};
use crate::functions::{items_or_none, push_entry, texts_in, texts_of};
use crate::json::{entry_trees, lemma_entry_trees, lemma_trees, tree, trees, Json, JsonModel};
use crate::params::{get_required_string, required_string_param};
use crate::pattern::{
    captures, compile, find_all, group_views, is_match, regex_all_matches, regex_compile_error,
    regex_groups, regex_matches,
};
use crate::result::{success_with, CommandResult};
use crate::text::{
    chars_of, concat2, concat3, copy_str, is_digit, is_space, is_space_char, replace,
    replace_all, split, split_on, string_between, trim, trimmed, views,
};
use crate::version::{compare_semver, semver_outcome, version_pattern};
use vstd::prelude::*;
use vstd::string::StringExecFns;

verus! {

/// A text with every pair of `map` applied in turn: each key replaced by its
/// value. `wrap` is put before and after each key first.
pub open spec fn replaced_by(
    text: Seq<char>,
    map: Seq<(Seq<char>, JsonModel)>,
    wrap: Seq<char>,
) -> Result<Seq<char>, ErrorModel>
    decreases map.len(),
{
    if map.len() == 0 {
        Ok(text)
    } else {
        match replaced_by(text, map.drop_last(), wrap) {
            Err(e) => Err(e),
            Ok(t) => match map.last().1 {
                JsonModel::String(v) => Ok(replace_all(t, wrap + map.last().0 + wrap, v)),
                _ => Err(failure(ErrorKind::Param, "map value must be a string"@)),
            },
        }
    }
}

/// What a request to replace asks for: a text and a map from what to find to
/// what to put.
pub open spec fn replace_outcome(params: JsonModel, wrap: Seq<char>) -> Result<
    Seq<char>,
    ErrorModel,
> {
    match params.member("text"@) {
        JsonModel::String(text) => match params.member("map"@) {
            JsonModel::Object(map) => replaced_by(text, map, wrap),
            _ => Err(failure(ErrorKind::Param, "map must be a object"@)),
        },
        _ => Err(failure(ErrorKind::Param, "text must be a string"@)),
    }
}

pub proof fn lemma_replaced_failure_spreads(
    text: Seq<char>,
    map: Seq<(Seq<char>, JsonModel)>,
    wrap: Seq<char>,
    i: int,
)
    requires
        0 <= i < map.len(),
        replaced_by(text, map.take(i + 1), wrap) is Err,
    ensures
        replaced_by(text, map, wrap) == replaced_by(text, map.take(i + 1), wrap),
    decreases map.len() - i,
{
    if i + 1 < map.len() {
        assert(map.take(i + 2).drop_last() =~= map.take(i + 1));
        lemma_replaced_failure_spreads(text, map, wrap, i + 1);
    } else {
        assert(map.take(i + 1) =~= map);
    }
}

#[verifier::loop_isolation(false)]
fn replace_with(params: &Json, wrap: &str) -> (r: Result<CommandResult, CommandError>)
    ensures
        match replace_outcome(params@, wrap@) {
            Ok(t) => r is Ok && r->Ok_0@ == success_with(JsonModel::String(t)),
            Err(e) => r is Err && r->Err_0@ == e,
        },
{
    let text = match params.get_str("text") {
        Some(t) => copy_str(t),
        None => {
            return Err(CommandError::new(ErrorKind::Param, "text must be a string"));
        },
    };
    let map: &Vec<(String, Json)> = match params.get("map") {
        Some(m) => match m.as_object() {
            Some(entries) => entries,
            None => {
                return Err(CommandError::new(ErrorKind::Param, "map must be a object"));
            },
        },
        None => {
            return Err(CommandError::new(ErrorKind::Param, "map must be a object"));
        },
    };
    let ghost start = text@;
    let ghost all = entry_trees(map@);
    let mut current = text;
    let mut i: usize = 0;
    proof {
        lemma_entry_trees(map@);
        assert(all.take(0) =~= Seq::<(Seq<char>, JsonModel)>::empty());
    }
    while i < map.len()
        invariant
            i <= map.len(),
            all == entry_trees(map@),
            all.len() == map@.len(),
            forall|k: int|
                0 <= k < map@.len() ==> (#[trigger] all[k]) == (map@[k].0@, tree(map@[k].1)),
            replaced_by(start, all.take(i as int), wrap@) == Ok::<Seq<char>, ErrorModel>(current@),
        decreases map.len() - i,
    {
        proof {
            assert(all.take(i + 1).drop_last() =~= all.take(i as int));
            assert(all.take(i + 1).last() == all[i as int]);
        }
        let value = match map[i].1.as_str() {
            Some(v) => v,
            None => {
                proof {
                    lemma_replaced_failure_spreads(start, all, wrap@, i as int);
                }
                return Err(CommandError::new(ErrorKind::Param, "map value must be a string"));
            },
        };
        let find = concat3(wrap, map[i].0.as_str(), wrap);
        current = replace(current.as_str(), find.as_str(), value);
        i = i + 1;
    }
    proof {
        assert(all.take(map@.len() as int) =~= all);
    }
    Ok(CommandResult::with_content(Json::String(current)))
}

/// Replaces in the text of the request every key of its map by the value
/// under that key, one pair after the other.
pub fn replace_text(params: &Json) -> (r: Result<CommandResult, CommandError>)
    ensures
        match replace_outcome(params@, Seq::empty()) {
            Ok(t) => r is Ok && r->Ok_0@ == success_with(JsonModel::String(t)),
            Err(e) => r is Err && r->Err_0@ == e,
        },
{
    proof {
        reveal_strlit("");
        assert(""@ =~= Seq::<char>::empty());
    }
    replace_with(params, "")
}

/// Like [`replace_text`], for keys that stand in the text between the marks
/// `\b`.
pub fn replace_words(params: &Json) -> (r: Result<CommandResult, CommandError>)
    ensures
        match replace_outcome(params@, "\\b"@) {
            Ok(t) => r is Ok && r->Ok_0@ == success_with(JsonModel::String(t)),
            Err(e) => r is Err && r->Err_0@ == e,
        },
{
    replace_with(params, "\\b")
}

/// Splits the text of the request at its separator.
pub fn split_text(params: &Json) -> (r: Result<CommandResult, CommandError>)
    ensures
        match params@.member("text"@) {
            JsonModel::String(text) => match params@.member("separator"@) {
                JsonModel::String(sep) => r is Ok && r->Ok_0@ == success_with(
                    JsonModel::of_texts(split_on(text, sep)),
                ),
                _ => r is Err && r->Err_0@ == failure(
                    ErrorKind::Param,
                    "separator must be a string"@,
                ),
            },
            _ => r is Err && r->Err_0@ == failure(ErrorKind::Param, "text must be a string"@),
        },
{
    let text = match params.get_str("text") {
        Some(t) => t,
        None => {
            return Err(CommandError::new(ErrorKind::Param, "text must be a string"));
        },
    };
    let separator = match params.get_str("separator") {
        Some(s) => s,
        None => {
            return Err(CommandError::new(ErrorKind::Param, "separator must be a string"));
        },
    };
    let parts = split(text, separator);
    Ok(CommandResult::with_content(Json::texts(&parts)))
}

/// A date and time taken apart.
pub struct DateTimeParts {
    pub year: Seq<char>,
    pub month: Seq<char>,
    pub day: Seq<char>,
    pub hour: Seq<char>,
    pub minute: Seq<char>,
    pub second: Seq<char>,
    pub timezone: Seq<char>,
}

/// Where the run of digits that begins at `i` ends.
pub open spec fn digits_end(s: Seq<char>, i: int) -> int
    decreases s.len() - i,
{
    if 0 <= i < s.len() && is_digit(s[i]) {
        digits_end(s, i + 1)
    } else {
        i
    }
}

/// Where the run of white space that begins at `i` ends.
pub open spec fn spaces_end(s: Seq<char>, i: int) -> int
    decreases s.len() - i,
{
    if 0 <= i < s.len() && is_space(s[i]) {
        spaces_end(s, i + 1)
    } else {
        i
    }
}

/// The character `c` stands at `i`.
pub open spec fn has_at(s: Seq<char>, i: int, c: char) -> bool {
    0 <= i < s.len() && s[i] == c
}

/// Where the number that begins at `i` ends, where one begins there.
pub open spec fn number_end(s: Seq<char>, i: int) -> Option<int> {
    if digits_end(s, i) > i {
        Some(digits_end(s, i))
    } else {
        None
    }
}

/// Where year, month and day end in a text that begins with a date: three
/// numbers with `-` between them.
pub open spec fn date_ends(s: Seq<char>) -> Option<(int, int, int)> {
    match number_end(s, 0) {
        None => None,
        Some(year) => if !has_at(s, year, '-') {
            None
        } else {
            match number_end(s, year + 1) {
                None => None,
                Some(month) => if !has_at(s, month, '-') {
                    None
                } else {
                    match number_end(s, month + 1) {
                        None => None,
                        Some(day) => Some((year, month, day)),
                    }
                },
            }
        },
    }
}

/// Where the time begins after a date that ends at `i`: after a `T`, or
/// after white space.
pub open spec fn time_start(s: Seq<char>, i: int) -> Option<int> {
    if has_at(s, i, 'T') {
        Some(i + 1)
    } else if spaces_end(s, i) > i {
        Some(spaces_end(s, i))
    } else {
        None
    }
}

/// Where hour, minute and second end in a time that begins at `i`: two
/// numbers with `:` between them, and a third after another `:` where there
/// is one. Without seconds the third place is that of the minute.
pub open spec fn time_ends(s: Seq<char>, i: int) -> Option<(int, int, int)> {
    match number_end(s, i) {
        None => None,
        Some(hour) => if !has_at(s, hour, ':') {
            None
        } else {
            match number_end(s, hour + 1) {
                None => None,
                Some(minute) => if has_at(s, minute, ':') && number_end(s, minute + 1) is Some {
                    Some((hour, minute, number_end(s, minute + 1)->Some_0))
                } else {
                    Some((hour, minute, minute))
                },
            }
        },
    }
}

/// Where the fraction of the seconds ends: after a `.` and a number, where
/// these stand at `i`; else at `i`.
pub open spec fn fraction_end(s: Seq<char>, i: int) -> int {
    if has_at(s, i, '.') && number_end(s, i + 1) is Some {
        number_end(s, i + 1)->Some_0
    } else {
        i
    }
}

/// The time zone that the rest of the text from `i` tells, white space before
/// it passed over: none where the text ends, or ends with `Z`; the offset
/// itself where the rest is a sign, a number, `:` and a number. Any other
/// rest tells no time zone.
pub open spec fn zone_of(s: Seq<char>, i: int) -> Option<Seq<char>> {
    let from = spaces_end(s, i);
    if from >= s.len() {
        Some(Seq::empty())
    } else if s[from] == 'Z' {
        if from + 1 == s.len() {
            Some(Seq::empty())
        } else {
            None
        }
    } else if s[from] == '+' || s[from] == '-' {
        match number_end(s, from + 1) {
            None => None,
            Some(hours) => if !has_at(s, hours, ':') {
                None
            } else {
                match number_end(s, hours + 1) {
                    None => None,
                    Some(minutes) => if minutes == s.len() {
                        Some(s.subrange(from, s.len() as int))
                    } else {
                        None
                    },
                }
            },
        }
    } else {
        None
    }
}

/// A date and time read from a text, white space around it set aside: a
/// date `year-month-day`; then `T` or white space; then a time `hour:minute`
/// or `hour:minute:second`, the seconds being `00` where they are left out;
/// then, each where it is there, a fraction of the seconds after a `.`, which
/// is dropped, and `Z` or an offset `+hours:minutes` or `-hours:minutes`.
/// Every number is a run of digits and is handed on as it stands.
pub open spec fn datetime_of(text: Seq<char>) -> Result<DateTimeParts, ErrorModel> {
    let s = trimmed(text);
    match date_ends(s) {
        None => Err(failure(ErrorKind::Format, "Invalid date format"@)),
        Some(date) => match time_start(s, date.2) {
            None => Err(failure(ErrorKind::Format, "Invalid datetime format"@)),
            Some(start) => match time_ends(s, start) {
                None => Err(failure(ErrorKind::Format, "Invalid time format"@)),
                Some(time) => match zone_of(s, fraction_end(s, time.2)) {
                    None => Err(failure(ErrorKind::Format, "Invalid timezone format"@)),
                    Some(zone) => Ok(
                        DateTimeParts {
                            year: s.subrange(0, date.0),
                            month: s.subrange(date.0 + 1, date.1),
                            day: s.subrange(date.1 + 1, date.2),
                            hour: s.subrange(start, time.0),
                            minute: s.subrange(time.0 + 1, time.1),
                            second: if time.2 > time.1 {
                                s.subrange(time.1 + 1, time.2)
                            } else {
                                "00"@
                            },
                            timezone: zone,
                        },
                    ),
                },
            },
        },
    }
}

/// The parts of a date and time as the user interface receives them.
pub open spec fn datetime_json(p: DateTimeParts) -> JsonModel {
    JsonModel::Object(
        seq![
            ("day"@, JsonModel::String(p.day)),
            ("hour"@, JsonModel::String(p.hour)),
            ("minute"@, JsonModel::String(p.minute)),
            ("month"@, JsonModel::String(p.month)),
            ("second"@, JsonModel::String(p.second)),
            ("timezone"@, JsonModel::String(p.timezone)),
            ("year"@, JsonModel::String(p.year)),
        ],
    )
}

fn is_digit_char(c: char) -> (r: bool)
    ensures
        r == is_digit(c),
{
    let n: u32 = c as u32;
    48 <= n && n <= 57
}

fn scan_digits(s: &Vec<char>, i: usize) -> (r: usize)
    requires
        i <= s.len(),
    ensures
        r == digits_end(s@, i as int),
        i <= r <= s.len(),
{
    let mut k: usize = i;
    while k < s.len() && is_digit_char(s[k])
        invariant
            i <= k <= s.len(),
            digits_end(s@, k as int) == digits_end(s@, i as int),
        decreases s.len() - k,
    {
        k = k + 1;
    }
    k
}

fn scan_spaces(s: &Vec<char>, i: usize) -> (r: usize)
    requires
        i <= s.len(),
    ensures
        r == spaces_end(s@, i as int),
        i <= r <= s.len(),
{
    let mut k: usize = i;
    while k < s.len() && is_space_char(s[k])
        invariant
            i <= k <= s.len(),
            spaces_end(s@, k as int) == spaces_end(s@, i as int),
        decreases s.len() - k,
    {
        k = k + 1;
    }
    k
}

fn stands_at(s: &Vec<char>, i: usize, c: char) -> (r: bool)
    ensures
        r == has_at(s@, i as int, c),
{
    i < s.len() && s[i] == c
}

/// The end of the number that begins at `i`.
fn scan_number(s: &Vec<char>, i: usize) -> (r: Option<usize>)
    ensures
        match r {
            Some(e) => number_end(s@, i as int) == Some(e as int) && i < e <= s.len(),
            None => number_end(s@, i as int) is None,
        },
{
    if i > s.len() {
        return None;
    }
    let e = scan_digits(s, i);
    if e > i {
        Some(e)
    } else {
        None
    }
}

fn scan_date(s: &Vec<char>) -> (r: Option<(usize, usize, usize)>)
    ensures
        match r {
            Some(d) => date_ends(s@) == Some((d.0 as int, d.1 as int, d.2 as int)) && d.0 < d.1
                < d.2 <= s.len(),
            None => date_ends(s@) is None,
        },
{
    let year = match scan_number(s, 0) {
        Some(e) => e,
        None => {
            return None;
        },
    };
    if !stands_at(s, year, '-') {
        return None;
    }
    let month = match scan_number(s, year + 1) {
        Some(e) => e,
        None => {
            return None;
        },
    };
    if !stands_at(s, month, '-') {
        return None;
    }
    match scan_number(s, month + 1) {
        Some(day) => Some((year, month, day)),
        None => None,
    }
}

fn scan_time(s: &Vec<char>, i: usize) -> (r: Option<(usize, usize, usize)>)
    requires
        i <= s.len(),
    ensures
        match r {
            Some(t) => time_ends(s@, i as int) == Some((t.0 as int, t.1 as int, t.2 as int)) && i
                < t.0 < t.1 <= t.2 <= s.len(),
            None => time_ends(s@, i as int) is None,
        },
{
    let hour = match scan_number(s, i) {
        Some(e) => e,
        None => {
            return None;
        },
    };
    if !stands_at(s, hour, ':') {
        return None;
    }
    let minute = match scan_number(s, hour + 1) {
        Some(e) => e,
        None => {
            return None;
        },
    };
    if stands_at(s, minute, ':') {
        match scan_number(s, minute + 1) {
            Some(second) => {
                return Some((hour, minute, second));
            },
            None => {},
        }
    }
    Some((hour, minute, minute))
}

fn scan_fraction(s: &Vec<char>, i: usize) -> (r: usize)
    requires
        i <= s.len(),
    ensures
        r == fraction_end(s@, i as int),
        i <= r <= s.len(),
{
    if stands_at(s, i, '.') {
        match scan_number(s, i + 1) {
            Some(e) => {
                return e;
            },
            None => {},
        }
    }
    i
}

fn scan_zone(s: &Vec<char>, i: usize) -> (r: Option<String>)
    requires
        i <= s.len(),
    ensures
        match r {
            Some(z) => zone_of(s@, i as int) == Some(z@),
            None => zone_of(s@, i as int) is None,
        },
{
    let from = scan_spaces(s, i);
    if from >= s.len() {
        return Some(String::new());
    }
    if s[from] == 'Z' {
        if from + 1 == s.len() {
            return Some(String::new());
        }
        return None;
    }
    if s[from] == '+' || s[from] == '-' {
        let hours = match scan_number(s, from + 1) {
            Some(e) => e,
            None => {
                return None;
            },
        };
        if !stands_at(s, hours, ':') {
            return None;
        }
        let minutes = match scan_number(s, hours + 1) {
            Some(e) => e,
            None => {
                return None;
            },
        };
        if minutes == s.len() {
            return Some(string_between(s, from, s.len()));
        }
        return None;
    }
    None
}

/// Takes the date and time of the request apart.
pub fn datetime_split(parameters: &Json) -> (r: Result<CommandResult, CommandError>)
    ensures
        match parameters@.member("datetime"@) {
            JsonModel::String(text) => match datetime_of(text) {
                Ok(parts) => r is Ok && r->Ok_0@ == success_with(datetime_json(parts)),
                Err(e) => r is Err && r->Err_0@ == e,
            },
            _ => r is Err && r->Err_0@ == failure(
                ErrorKind::Param,
                "Missing `datetime` parameter"@,
            ),
        },
{
    let datetime = match parameters.get_str("datetime") {
        Some(t) => t,
        None => {
            return Err(CommandError::new(ErrorKind::Param, "Missing `datetime` parameter"));
        },
    };
    let text = trim(datetime);
    let s = chars_of(text.as_str());
    let date = match scan_date(&s) {
        Some(d) => d,
        None => {
            return Err(CommandError::new(ErrorKind::Format, "Invalid date format"));
        },
    };
    let start: usize = if stands_at(&s, date.2, 'T') {
        date.2 + 1
    } else {
        let after = scan_spaces(&s, date.2);
        if after > date.2 {
            after
        } else {
            return Err(CommandError::new(ErrorKind::Format, "Invalid datetime format"));
        }
    };
    let time = match scan_time(&s, start) {
        Some(t) => t,
        None => {
            return Err(CommandError::new(ErrorKind::Format, "Invalid time format"));
        },
    };
    let zone = match scan_zone(&s, scan_fraction(&s, time.2)) {
        Some(z) => z,
        None => {
            return Err(CommandError::new(ErrorKind::Format, "Invalid timezone format"));
        },
    };
    let second = if time.2 > time.1 {
        string_between(&s, time.1 + 1, time.2)
    } else {
        String::from_str("00")
    };
    let mut entries: Vec<(String, Json)> = Vec::new();
    proof {
        lemma_entry_trees(entries@);
    }
    push_entry(&mut entries, "day", Json::String(string_between(&s, date.1 + 1, date.2)));
    push_entry(&mut entries, "hour", Json::String(string_between(&s, start, time.0)));
    push_entry(&mut entries, "minute", Json::String(string_between(&s, time.0 + 1, time.1)));
    push_entry(&mut entries, "month", Json::String(string_between(&s, date.0 + 1, date.1)));
    push_entry(&mut entries, "second", Json::String(second));
    push_entry(&mut entries, "timezone", Json::String(zone));
    push_entry(&mut entries, "year", Json::String(string_between(&s, 0, date.0)));
    let content = Json::Object(entries);
    proof {
        assert(content@->Object_0 =~= datetime_json(datetime_of(datetime@)->Ok_0)->Object_0);
    }
    Ok(CommandResult::with_content(content))
}

fn compile_for(pattern: &str) -> (r: Result<regex::Regex, CommandError>)
    ensures
        match r {
            Ok(re) => regex_compile_error(pattern@) is None && crate::pattern::regex_source(re)
                == pattern@,
            Err(e) => regex_compile_error(pattern@) is Some && e@ == failure(
                ErrorKind::Param,
                "pattern error: "@ + regex_compile_error(pattern@)->Some_0,
            ),
        },
{
    match compile(pattern) {
        Ok(re) => Ok(re),
        Err(message) => Err(
            CommandError {
                kind: ErrorKind::Param,
                message: concat2("pattern error: ", message.as_str()),
            },
        ),
    }
}

/// The texts of the capture groups that a request asks for, each without the
/// white space around it.
pub open spec fn extracted(groups: Seq<Option<Seq<char>>>, wanted: Seq<JsonModel>) -> Result<
    Seq<Seq<char>>,
    ErrorModel,
>
    decreases wanted.len(),
{
    if wanted.len() == 0 {
        Ok(Seq::empty())
    } else {
        match extracted(groups, wanted.drop_last()) {
            Err(e) => Err(e),
            Ok(front) => match wanted.last().as_unsigned() {
                None => Err(failure(ErrorKind::Param, "capture index must be a number"@)),
                Some(i) => if i < groups.len() && groups[i as int] is Some {
                    Ok(front.push(trimmed(groups[i as int]->Some_0)))
                } else {
                    Err(failure(ErrorKind::Param, "capture index out of range"@))
                },
            },
        }
    }
}

pub proof fn lemma_extracted_failure_spreads(
    groups: Seq<Option<Seq<char>>>,
    wanted: Seq<JsonModel>,
    i: int,
)
    requires
        0 <= i < wanted.len(),
        extracted(groups, wanted.take(i + 1)) is Err,
    ensures
        extracted(groups, wanted) == extracted(groups, wanted.take(i + 1)),
    decreases wanted.len() - i,
{
    if i + 1 < wanted.len() {
        assert(wanted.take(i + 2).drop_last() =~= wanted.take(i + 1));
        lemma_extracted_failure_spreads(groups, wanted, i + 1);
    } else {
        assert(wanted.take(i + 1) =~= wanted);
    }
}

/// The groups of a match that a request asks for, given the groups of the match.
pub fn extract_groups(groups: &Vec<Option<String>>, wanted: &Vec<Json>) -> (r: Result<
    Vec<String>,
    CommandError,
>)
    ensures
        match r {
            Ok(texts) => extracted(group_views(groups@), trees(wanted@)) == Ok::<
                Seq<Seq<char>>,
                ErrorModel,
            >(views(texts@)),
            Err(e) => extracted(group_views(groups@), trees(wanted@)) == Err::<
                Seq<Seq<char>>,
                ErrorModel,
            >(e@),
        },
{
    let ghost all = trees(wanted@);
    let mut out: Vec<String> = Vec::new();
    let mut i: usize = 0;
    proof {
        lemma_trees(wanted@);
        assert(all.take(0) =~= Seq::<JsonModel>::empty());
        assert(views(out@) =~= Seq::<Seq<char>>::empty());
    }
    while i < wanted.len()
        invariant
            i <= wanted.len(),
            all == trees(wanted@),
            all.len() == wanted@.len(),
            forall|k: int| 0 <= k < wanted@.len() ==> (#[trigger] all[k]) == tree(wanted@[k]),
            extracted(group_views(groups@), all.take(i as int)) == Ok::<
                Seq<Seq<char>>,
                ErrorModel,
            >(views(out@)),
        decreases wanted.len() - i,
    {
        proof {
            assert(all.take(i + 1).drop_last() =~= all.take(i as int));
            assert(all.take(i + 1).last() == all[i as int]);
        }
        let index = match wanted[i].as_u64() {
            Some(n) => n,
            None => {
                proof {
                    lemma_extracted_failure_spreads(group_views(groups@), all, i as int);
                }
                return Err(CommandError::new(ErrorKind::Param, "capture index must be a number"));
            },
        };
        let found: Option<&String> = if index < groups.len() as u64 {
            match &groups[index as usize] {
                Some(t) => Some(t),
                None => None,
            }
        } else {
            None
        };
        match found {
            Some(t) => {
                let piece = trim(t.as_str());
                proof {
                    assert(views(out@.push(piece)) =~= views(out@).push(piece@));
                }
                out.push(piece);
            },
            None => {
                proof {
                    lemma_extracted_failure_spreads(group_views(groups@), all, i as int);
                }
                return Err(CommandError::new(ErrorKind::Param, "capture index out of range"));
            },
        }
        i = i + 1;
    }
    proof {
        assert(all.take(wanted@.len() as int) =~= all);
    }
    Ok(out)
}

/// What a request to extract asks for and gets: the groups of the leftmost
/// match of the pattern in the text.
pub open spec fn extract_outcome(params: JsonModel) -> Result<Seq<Seq<char>>, ErrorModel> {
    match required_string_param(
        params,
        "text"@,
        "`text` is required"@,
        "`text` must be a string"@,
    ) {
        Err(e) => Err(e),
        Ok(text) => match required_string_param(
            params,
            "pattern"@,
            "`pattern` is required"@,
            "`pattern` must be a string"@,
        ) {
            Err(e) => Err(e),
            Ok(pattern) => match params.field("captures"@) {
                None => Err(failure(ErrorKind::Param, "`captures` is required"@)),
                Some(JsonModel::Array(wanted)) => match regex_compile_error(pattern) {
                    Some(m) => Err(failure(ErrorKind::Param, "pattern error: "@ + m)),
                    None => match regex_groups(pattern, text) {
                        None => Err(failure(ErrorKind::NotFound, "pattern not match"@)),
                        Some(groups) => extracted(groups, wanted),
                    },
                },
                Some(_) => Err(failure(ErrorKind::Param, "`captures` must be a array"@)),
            },
        },
    }
}

/// Extracts from the text of the request the capture groups that it asks for.
pub fn regex_extract(params: &Json) -> (r: Result<CommandResult, CommandError>)
    ensures
        match extract_outcome(params@) {
            Ok(texts) => r is Ok && r->Ok_0@ == success_with(JsonModel::of_texts(texts)),
            Err(e) => r is Err && r->Err_0@ == e,
        },
{
    let text = match get_required_string(
        params,
        "text",
        "`text` is required",
        "`text` must be a string",
    ) {
        Ok(t) => t,
        Err(e) => {
            return Err(e);
        },
    };
    let pattern = match get_required_string(
        params,
        "pattern",
        "`pattern` is required",
        "`pattern` must be a string",
    ) {
        Ok(t) => t,
        Err(e) => {
            return Err(e);
        },
    };
    let wanted: &Vec<Json> = match params.get("captures") {
        None => {
            return Err(CommandError::new(ErrorKind::Param, "`captures` is required"));
        },
        Some(v) => match v.as_array() {
            Some(w) => w,
            None => {
                return Err(CommandError::new(ErrorKind::Param, "`captures` must be a array"));
            },
        },
    };
    let re = match compile_for(pattern.as_str()) {
        Ok(re) => re,
        Err(e) => {
            return Err(e);
        },
    };
    let groups = match captures(&re, text.as_str()) {
        Some(g) => g,
        None => {
            return Err(CommandError::new(ErrorKind::NotFound, "pattern not match"));
        },
    };
    match extract_groups(&groups, wanted) {
        Ok(texts) => Ok(CommandResult::with_content(Json::texts(&texts))),
        Err(e) => Err(e),
    }
}

/// Finds every match of the pattern in the text of the request.
pub fn regex_find_all(params: &Json) -> (r: Result<CommandResult, CommandError>)
    ensures
        match required_string_param(
            params@,
            "text"@,
            "`text` is required"@,
            "`text` must be a string"@,
        ) {
            Err(e) => r is Err && r->Err_0@ == e,
            Ok(text) => match required_string_param(
                params@,
                "pattern"@,
                "`pattern` is required"@,
                "`pattern` must be a string"@,
            ) {
                Err(e) => r is Err && r->Err_0@ == e,
                Ok(pattern) => match regex_compile_error(pattern) {
                    Some(m) => r is Err && r->Err_0@ == failure(
                        ErrorKind::Param,
                        "pattern error: "@ + m,
                    ),
                    None => r is Ok && r->Ok_0@ == success_with(
                        JsonModel::of_texts(regex_all_matches(pattern, text)),
                    ),
                },
            },
        },
{
    let text = match get_required_string(
        params,
        "text",
        "`text` is required",
        "`text` must be a string",
    ) {
        Ok(t) => t,
        Err(e) => {
            return Err(e);
        },
    };
    let pattern = match get_required_string(
        params,
        "pattern",
        "`pattern` is required",
        "`pattern` must be a string",
    ) {
        Ok(t) => t,
        Err(e) => {
            return Err(e);
        },
    };
    let re = match compile_for(pattern.as_str()) {
        Ok(re) => re,
        Err(e) => {
            return Err(e);
        },
    };
    let found = find_all(&re, text.as_str());
    Ok(CommandResult::with_content(Json::texts(&found)))
}

/// Whether one of the patterns, tried in their order, matches the text; a
/// pattern that the expression library refuses ends the trial with its
/// message.
pub open spec fn any_matches(patterns: Seq<Seq<char>>, text: Seq<char>, from: int) -> Result<
    bool,
    ErrorModel,
>
    decreases patterns.len() - from,
{
    if from < 0 || from >= patterns.len() {
        Ok(false)
    } else {
        match regex_compile_error(patterns[from]) {
            Some(m) => Err(failure(ErrorKind::Param, "pattern error: "@ + m)),
            None => if regex_matches(patterns[from], text) {
                Ok(true)
            } else {
                any_matches(patterns, text, from + 1)
            },
        }
    }
}

/// Tries the patterns on the text, in their order.
pub fn match_any(patterns: &Vec<String>, text: &str) -> (r: Result<bool, CommandError>)
    ensures
        match r {
            Ok(b) => any_matches(views(patterns@), text@, 0) == Ok::<bool, ErrorModel>(b),
            Err(e) => any_matches(views(patterns@), text@, 0) == Err::<bool, ErrorModel>(e@),
        },
{
    let mut i: usize = 0;
    while i < patterns.len()
        invariant
            i <= patterns.len(),
            any_matches(views(patterns@), text@, i as int) == any_matches(
                views(patterns@),
                text@,
                0,
            ),
        decreases patterns.len() - i,
    {
        proof {
            assert(views(patterns@)[i as int] == patterns@[i as int]@);
        }
        let re = match compile_for(patterns[i].as_str()) {
            Ok(re) => re,
            Err(e) => {
                return Err(e);
            },
        };
        if is_match(&re, text) {
            return Ok(true);
        }
        i = i + 1;
    }
    Ok(false)
}

/// The patterns that a request to match names: those of `patterns`, or the
/// one of `pattern` where `patterns` holds none.
pub open spec fn match_patterns(params: JsonModel) -> Result<Seq<Seq<char>>, ErrorModel> {
    let listed = texts_of(items_or_none(params.member("patterns"@)));
    let single = params.member("pattern"@).text_or_empty();
    if listed.len() == 0 && single.len() == 0 {
        Err(failure(ErrorKind::Param, "Missing `patterns` or `pattern` parameter"@))
    } else if listed.len() == 0 {
        Ok(seq![single])
    } else {
        Ok(listed)
    }
}

/// Says whether one of the patterns of the request matches its text.
pub fn regex_match(parameters: &Json) -> (r: Result<CommandResult, CommandError>)
    ensures
        match parameters@.member("text"@) {
            JsonModel::String(text) => match match_patterns(parameters@) {
                Err(e) => r is Err && r->Err_0@ == e,
                Ok(patterns) => match any_matches(patterns, text, 0) {
                    Ok(b) => r is Ok && r->Ok_0@ == success_with(JsonModel::Bool(b)),
                    Err(e) => r is Err && r->Err_0@ == e,
                },
            },
            _ => r is Err && r->Err_0@ == failure(ErrorKind::Param, "Missing `text` parameter"@),
        },
{
    let text = match parameters.get_str("text") {
        Some(t) => t,
        None => {
            return Err(CommandError::new(ErrorKind::Param, "Missing `text` parameter"));
        },
    };
    let mut patterns = texts_in(parameters.get("patterns"));
    let single = crate::functions::text_member(parameters, "pattern");
    if patterns.len() == 0 {
        proof {
            assert(views(patterns@).len() == 0);
        }
        if single.as_str().is_empty() {
            return Err(
                CommandError::new(ErrorKind::Param, "Missing `patterns` or `pattern` parameter"),
            );
        }
        proof {
            assert(views(patterns@.push(single)) =~= seq![single@]);
        }
        patterns.push(single);
    } else {
        proof {
            assert(views(patterns@).len() > 0);
        }
    }
    match match_any(&patterns, text) {
        Ok(b) => Ok(CommandResult::with_content(Json::Bool(b))),
        Err(e) => Err(e),
    }
}

/// The place in an array of `length` items that an index names: counted from
/// the front where it is not negative, from the back where it is.
pub open spec fn item_place(length: nat, index: i64) -> Option<nat> {
    if index < 0 {
        if -index <= length {
            Some((length + index) as nat)
        } else {
            None
        }
    } else if index < length {
        Some(index as nat)
    } else {
        None
    }
}

/// The item of the array of the request at its index.
pub fn get_item(params: &Json) -> (r: Result<CommandResult, CommandError>)
    ensures
        match params@.field("array"@) {
            None => r is Err && r->Err_0@ == failure(ErrorKind::Param, "`array` is required"@),
            Some(JsonModel::Array(items)) => match params@.field("index"@) {
                None => r is Err && r->Err_0@ == failure(
                    ErrorKind::Param,
                    "`index` is required"@,
                ),
                Some(v) => match v.as_signed() {
                    None => r is Err && r->Err_0@ == failure(
                        ErrorKind::Param,
                        "`index` must be an integer"@,
                    ),
                    Some(index) => match item_place(items.len(), index) {
                        Some(place) => r is Ok && r->Ok_0@ == success_with(items[place as int]),
                        None => r is Err && r->Err_0@ == failure(
                            ErrorKind::Param,
                            "Index out of range"@,
                        ),
                    },
                },
            },
            Some(_) => r is Err && r->Err_0@ == failure(
                ErrorKind::Param,
                "`array` must be an array"@,
            ),
        },
{
    let items: &Vec<Json> = match params.get("array") {
        None => {
            return Err(CommandError::new(ErrorKind::Param, "`array` is required"));
        },
        Some(v) => match v.as_array() {
            Some(items) => items,
            None => {
                return Err(CommandError::new(ErrorKind::Param, "`array` must be an array"));
            },
        },
    };
    let index: i64 = match params.get("index") {
        None => {
            return Err(CommandError::new(ErrorKind::Param, "`index` is required"));
        },
        Some(v) => match v.as_i64() {
            Some(i) => i,
            None => {
                return Err(CommandError::new(ErrorKind::Param, "`index` must be an integer"));
            },
        },
    };
    proof {
        lemma_trees(items@);
    }
    let length = items.len();
    let place: usize = if index < 0 {
        let back: u64 = if index == i64::MIN {
            9223372036854775808u64
        } else {
            (-index) as u64
        };
        if back > length as u64 {
            return Err(CommandError::new(ErrorKind::Param, "Index out of range"));
        }
        length - (back as usize)
    } else {
        if index as u64 >= length as u64 {
            return Err(CommandError::new(ErrorKind::Param, "Index out of range"));
        }
        index as usize
    };
    if place >= length {
        return Err(CommandError::new(ErrorKind::Param, "Index out of range"));
    }
    Ok(CommandResult::with_content(items[place].duplicate()))
}

/// The value found by going from member to member along the keys.
pub open spec fn value_at(value: JsonModel, keys: Seq<Seq<char>>) -> Result<JsonModel, ErrorModel>
    decreases keys.len(),
{
    if keys.len() == 0 {
        Ok(value)
    } else {
        match value_at(value, keys.drop_last()) {
            Err(e) => Err(e),
            Ok(v) => match v.field(keys.last()) {
                Some(m) => Ok(m),
                None => Err(failure(ErrorKind::NotFound, "Key not found: "@ + keys.last())),
            },
        }
    }
}

pub proof fn lemma_value_failure_spreads(value: JsonModel, keys: Seq<Seq<char>>, i: int)
    requires
        0 <= i < keys.len(),
        value_at(value, keys.take(i + 1)) is Err,
    ensures
        value_at(value, keys) == value_at(value, keys.take(i + 1)),
    decreases keys.len() - i,
{
    if i + 1 < keys.len() {
        assert(keys.take(i + 2).drop_last() =~= keys.take(i + 1));
        lemma_value_failure_spreads(value, keys, i + 1);
    } else {
        assert(keys.take(i + 1) =~= keys);
    }
}

/// The value in the object of the request at its path of keys, the keys being
/// separated by dots.
#[verifier::loop_isolation(false)]
pub fn get_value(params: &Json) -> (r: Result<CommandResult, CommandError>)
    ensures
        match params@.field("dict"@) {
            None => r is Err && r->Err_0@ == failure(ErrorKind::Param, "`dict` is required"@),
            Some(JsonModel::Object(entries)) => match required_string_param(
                params@,
                "key_path"@,
                "`key_path` is required"@,
                "`key_path` must be a string"@,
            ) {
                Err(e) => r is Err && r->Err_0@ == e,
                Ok(path) => match value_at(JsonModel::Object(entries), split_on(path, "."@)) {
                    Ok(v) => r is Ok && r->Ok_0@ == success_with(v),
                    Err(e) => r is Err && r->Err_0@ == e,
                },
            },
            Some(_) => r is Err && r->Err_0@ == failure(
                ErrorKind::Param,
                "`dict` must be an object"@,
            ),
        },
{
    let dict: &Json = match params.get("dict") {
        None => {
            return Err(CommandError::new(ErrorKind::Param, "`dict` is required"));
        },
        Some(v) => {
            if v.as_object().is_none() {
                return Err(CommandError::new(ErrorKind::Param, "`dict` must be an object"));
            }
            v
        },
    };
    let key_path = match get_required_string(
        params,
        "key_path",
        "`key_path` is required",
        "`key_path` must be a string",
    ) {
        Ok(p) => p,
        Err(e) => {
            return Err(e);
        },
    };
    let keys = split(key_path.as_str(), ".");
    let ghost all = views(keys@);
    let mut value: &Json = dict;
    let mut i: usize = 0;
    proof {
        assert(all.take(0) =~= Seq::<Seq<char>>::empty());
    }
    while i < keys.len()
        invariant
            i <= keys.len(),
            all == views(keys@),
            value_at(dict@, all.take(i as int)) == Ok::<JsonModel, ErrorModel>(value@),
        decreases keys.len() - i,
    {
        proof {
            assert(all.take(i + 1).drop_last() =~= all.take(i as int));
            assert(all.take(i + 1).last() == keys@[i as int]@);
        }
        value = match value.get(keys[i].as_str()) {
            Some(v) => v,
            None => {
                proof {
                    lemma_value_failure_spreads(dict@, all, i as int);
                }
                return Err(
                    CommandError {
                        kind: ErrorKind::NotFound,
                        message: concat2("Key not found: ", keys[i].as_str()),
                    },
                );
            },
        };
        i = i + 1;
    }
    proof {
        assert(all.take(keys@.len() as int) =~= all);
    }
    Ok(CommandResult::with_content(value.duplicate()))
}

/// Compares the two versions of the request by its operator.
pub fn compare(params: &Json) -> (r: Result<CommandResult, CommandError>)
    ensures
        match required_string_param(
            params@,
            "version1"@,
            "`version1` is required"@,
            "`version1` must be a string"@,
        ) {
            Err(e) => r is Err && r->Err_0@ == e,
            Ok(v1) => match required_string_param(
                params@,
                "version2"@,
                "`version2` is required"@,
                "`version2` must be a string"@,
            ) {
                Err(e) => r is Err && r->Err_0@ == e,
                Ok(v2) => match required_string_param(
                    params@,
                    "operator"@,
                    "`operator` is required"@,
                    "`operator` must be a string"@,
                ) {
                    Err(e) => r is Err && r->Err_0@ == e,
                    Ok(op) => match regex_compile_error(version_pattern()) {
                        Some(m) => r is Err && r->Err_0@ == failure(ErrorKind::Format, m),
                        None => match semver_outcome(
                            regex_groups(version_pattern(), v1),
                            op,
                            regex_groups(version_pattern(), v2),
                        ) {
                            Ok(b) => r is Ok && r->Ok_0@ == success_with(JsonModel::Bool(b)),
                            Err(e) => r is Err && r->Err_0@ == e,
                        },
                    },
                },
            },
        },
{
    let version1 = match get_required_string(
        params,
        "version1",
        "`version1` is required",
        "`version1` must be a string",
    ) {
        Ok(p) => p,
        Err(e) => {
            return Err(e);
        },
    };
    let version2 = match get_required_string(
        params,
        "version2",
        "`version2` is required",
        "`version2` must be a string",
    ) {
        Ok(p) => p,
        Err(e) => {
            return Err(e);
        },
    };
    let operator = match get_required_string(
        params,
        "operator",
        "`operator` is required",
        "`operator` must be a string",
    ) {
        Ok(p) => p,
        Err(e) => {
            return Err(e);
        },
    };
    match compare_semver(version1.as_str(), operator.as_str(), version2.as_str()) {
        Ok(b) => Ok(CommandResult::with_content(Json::Bool(b))),
        Err(e) => Err(e),
    }
}

} // verus!
