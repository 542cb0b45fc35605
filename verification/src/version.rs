//! Version numbers and their comparison.
//!
//! A version is read from the first `major.minor` or `major.minor.patch` in a
//! text; a missing patch is 0. Versions are ordered component by component.

use crate::errors::{failure, CommandError, ErrorKind, ErrorModel};
use crate::pattern::{captures, compile, group_views, regex_compile_error, regex_groups};
use crate::text::{parse_u32, parsed_u32, str_eq};
use vstd::prelude::*;

verus! {

#[derive(Clone, Copy, Debug, PartialEq, Eq, Structural)]
pub struct Version {
    pub major: u32,
    pub minor: u32,
    pub patch: u32,
}

#[derive(Clone, Copy, Debug, PartialEq, Eq, Structural)]
pub enum Comparison {
    Equal,
    NotEqual,
    Greater,
    Less,
    GreaterOrEqual,
    LessOrEqual,
}

/// `a` comes strictly before `b`.
pub open spec fn precedes(a: Version, b: Version) -> bool {
    ||| a.major < b.major
    ||| a.major == b.major && a.minor < b.minor
    ||| a.major == b.major && a.minor == b.minor && a.patch < b.patch
}

/// The relation that an operator stands for.
pub open spec fn holds(op: Comparison, a: Version, b: Version) -> bool {
    match op {
        Comparison::Equal => a == b,
        Comparison::NotEqual => a != b,
        Comparison::Less => precedes(a, b),
        Comparison::Greater => precedes(b, a),
        Comparison::LessOrEqual => precedes(a, b) || a == b,
        Comparison::GreaterOrEqual => precedes(b, a) || a == b,
    }
}

/// The operator that a text names, in symbols or in letters.
pub open spec fn operator_of(op: Seq<char>) -> Option<Comparison> {
    if op == "="@ || op == "eq"@ {
        Some(Comparison::Equal)
    } else if op == "!="@ || op == "ne"@ {
        Some(Comparison::NotEqual)
    } else if op == ">"@ || op == "gt"@ {
        Some(Comparison::Greater)
    } else if op == "<"@ || op == "lt"@ {
        Some(Comparison::Less)
    } else if op == ">="@ || op == "ge"@ {
        Some(Comparison::GreaterOrEqual)
    } else if op == "<="@ || op == "le"@ {
        Some(Comparison::LessOrEqual)
    } else {
        None
    }
}

/// The number in capture group `i`; 0 where the group is absent.
pub open spec fn component(groups: Seq<Option<Seq<char>>>, i: int) -> Option<u32> {
    if 0 <= i < groups.len() && groups[i] is Some {
        parsed_u32(groups[i]->Some_0)
    } else {
        Some(0u32)
    }
}

/// The version that the capture groups of a match denote.
pub open spec fn version_of_groups(groups: Seq<Option<Seq<char>>>) -> Option<Version> {
    if component(groups, 1) is Some && component(groups, 2) is Some && component(groups, 3) is Some {
        Some(
            Version {
                major: component(groups, 1)->Some_0,
                minor: component(groups, 2)->Some_0,
                patch: component(groups, 3)->Some_0,
            },
        )
    } else {
        None
    }
}

/// The version found in a text, given what the version pattern captured in it.
pub open spec fn version_of_match(found: Option<Seq<Option<Seq<char>>>>) -> Result<
    Version,
    ErrorModel,
> {
    match found {
        None => Err(failure(ErrorKind::Format, "Invalid version format"@)),
        Some(groups) => match version_of_groups(groups) {
            Some(v) => Ok(v),
            None => Err(failure(ErrorKind::Format, "Invalid version number"@)),
        },
    }
}

/// What a comparison comes to, given what the version pattern captured in
/// each of the two texts.
pub open spec fn semver_outcome(
    left: Option<Seq<Option<Seq<char>>>>,
    op: Seq<char>,
    right: Option<Seq<Option<Seq<char>>>>,
) -> Result<bool, ErrorModel> {
    match version_of_match(left) {
        Err(e) => Err(e),
        Ok(a) => match version_of_match(right) {
            Err(e) => Err(e),
            Ok(b) => match operator_of(op) {
                None => Err(failure(ErrorKind::Param, "Invalid operator"@)),
                Some(c) => Ok(holds(c, a, b)),
            },
        },
    }
}

/// The pattern by which a version is found in a text.
pub open spec fn version_pattern() -> Seq<char> {
    "(\\d+)\\.(\\d+)(?:\\.(\\d+))?"@
}

pub fn parse_operator(op: &str) -> (r: Option<Comparison>)
    ensures
        r == operator_of(op@),
{
    if str_eq(op, "=") || str_eq(op, "eq") {
        Some(Comparison::Equal)
    } else if str_eq(op, "!=") || str_eq(op, "ne") {
        Some(Comparison::NotEqual)
    } else if str_eq(op, ">") || str_eq(op, "gt") {
        Some(Comparison::Greater)
    } else if str_eq(op, "<") || str_eq(op, "lt") {
        Some(Comparison::Less)
    } else if str_eq(op, ">=") || str_eq(op, "ge") {
        Some(Comparison::GreaterOrEqual)
    } else if str_eq(op, "<=") || str_eq(op, "le") {
        Some(Comparison::LessOrEqual)
    } else {
        None
    }
}

pub fn compare_versions(a: &Version, op: Comparison, b: &Version) -> (r: bool)
    ensures
        r == holds(op, *a, *b),
{
    let same = a.major == b.major && a.minor == b.minor && a.patch == b.patch;
    let before = a.major < b.major || (a.major == b.major && (a.minor < b.minor || (a.minor
        == b.minor && a.patch < b.patch)));
    match op {
        Comparison::Equal => same,
        Comparison::NotEqual => !same,
        Comparison::Less => before,
        Comparison::Greater => !before && !same,
        Comparison::LessOrEqual => before || same,
        Comparison::GreaterOrEqual => !before,
    }
}

fn component_at(groups: &Vec<Option<String>>, i: usize) -> (r: Option<u32>)
    ensures
        r == component(group_views(groups@), i as int),
{
    if i < groups.len() {
        match &groups[i] {
            Some(t) => parse_u32(t.as_str()),
            None => Some(0),
        }
    } else {
        Some(0)
    }
}

/// The version that the capture groups of a match denote: the numbers in the
/// groups 1 to 3, an absent group counting as 0.
pub fn version_from_captures(groups: &Vec<Option<String>>) -> (r: Result<Version, CommandError>)
    ensures
        match r {
            Ok(v) => version_of_match(Some(group_views(groups@))) == Ok::<Version, ErrorModel>(v),
            Err(e) => version_of_match(Some(group_views(groups@))) == Err::<Version, ErrorModel>(
                e@,
            ),
        },
{
    let major = component_at(groups, 1);
    let minor = component_at(groups, 2);
    let patch = component_at(groups, 3);
    match (major, minor, patch) {
        (Some(a), Some(b), Some(c)) => Ok(Version { major: a, minor: b, patch: c }),
        _ => Err(CommandError::new(ErrorKind::Format, "Invalid version number")),
    }
}

/// The result of a comparison on two versions as they were read.
pub fn compare_parsed(
    left: Result<Version, CommandError>,
    operator: &str,
    right: Result<Version, CommandError>,
) -> (r: Result<bool, CommandError>)
    ensures
        match r {
            Ok(b) => left is Ok && right is Ok && operator_of(operator@) is Some && b == holds(
                operator_of(operator@)->Some_0,
                left->Ok_0,
                right->Ok_0,
            ),
            Err(e) => if left is Err {
                e@ == left->Err_0@
            } else if right is Err {
                e@ == right->Err_0@
            } else {
                operator_of(operator@) is None && e@ == failure(
                    ErrorKind::Param,
                    "Invalid operator"@,
                )
            },
        },
{
    match left {
        Err(e) => Err(e),
        Ok(a) => match right {
            Err(e) => Err(e),
            Ok(b) => match parse_operator(operator) {
                None => Err(CommandError::new(ErrorKind::Param, "Invalid operator")),
                Some(c) => Ok(compare_versions(&a, c, &b)),
            },
        },
    }
}

/// Compares the versions found in two texts. The operator is one of `=`, `!=`,
/// `>`, `<`, `>=`, `<=`, or `eq`, `ne`, `gt`, `lt`, `ge`, `le`.
pub fn compare_semver(ver1: &str, operator: &str, ver2: &str) -> (r: Result<bool, CommandError>)
    ensures
        match regex_compile_error(version_pattern()) {
            Some(message) => r is Err && r->Err_0@ == failure(ErrorKind::Format, message),
            None => match r {
                Ok(b) => semver_outcome(
                    regex_groups(version_pattern(), ver1@),
                    operator@,
                    regex_groups(version_pattern(), ver2@),
                ) == Ok::<bool, ErrorModel>(b),
                Err(e) => semver_outcome(
                    regex_groups(version_pattern(), ver1@),
                    operator@,
                    regex_groups(version_pattern(), ver2@),
                ) == Err::<bool, ErrorModel>(e@),
            },
        },
{
    let re = match compile("(\\d+)\\.(\\d+)(?:\\.(\\d+))?") {
        Ok(re) => re,
        Err(message) => {
            return Err(CommandError::new(ErrorKind::Format, message.as_str()));
        },
    };
    let left = match captures(&re, ver1) {
        Some(groups) => version_from_captures(&groups),
        None => Err(CommandError::new(ErrorKind::Format, "Invalid version format")),
    };
    if left.is_err() {
        return left.map(|v: Version| false);
    }
    let right = match captures(&re, ver2) {
        Some(groups) => version_from_captures(&groups),
        None => Err(CommandError::new(ErrorKind::Format, "Invalid version format")),
    };
    compare_parsed(left, operator, right)
}

/// A version equals itself, whatever the operator is written as.
pub proof fn law_version_equals_itself(v: Version)
    ensures
        holds(Comparison::Equal, v, v),
        holds(Comparison::GreaterOrEqual, v, v),
        holds(Comparison::LessOrEqual, v, v),
        !holds(Comparison::NotEqual, v, v),
        !holds(Comparison::Less, v, v),
        !holds(Comparison::Greater, v, v),
{
}

/// A text compared with itself under `=` gives true wherever a version can be
/// read from it.
pub proof fn law_text_equals_itself(found: Option<Seq<Option<Seq<char>>>>)
    requires
        version_of_match(found) is Ok,
    ensures
        semver_outcome(found, "="@, found) == Ok::<bool, ErrorModel>(true),
        semver_outcome(found, "eq"@, found) == Ok::<bool, ErrorModel>(true),
{
    reveal_strlit("=");
    reveal_strlit("eq");
    reveal_strlit("!=");
    reveal_strlit("ne");
}

/// The operators follow the order of versions by major, then minor, then
/// patch: of two versions exactly one of before, equal and after holds, and
/// the other operators are made of these.
pub proof fn law_comparison_follows_order(a: Version, b: Version)
    ensures
        (holds(Comparison::Less, a, b) && !holds(Comparison::Equal, a, b) && !holds(
            Comparison::Greater,
            a,
            b,
        )) || (!holds(Comparison::Less, a, b) && holds(Comparison::Equal, a, b) && !holds(
            Comparison::Greater,
            a,
            b,
        )) || (!holds(Comparison::Less, a, b) && !holds(Comparison::Equal, a, b) && holds(
            Comparison::Greater,
            a,
            b,
        )),
        holds(Comparison::LessOrEqual, a, b) == !holds(Comparison::Greater, a, b),
        holds(Comparison::GreaterOrEqual, a, b) == !holds(Comparison::Less, a, b),
        holds(Comparison::NotEqual, a, b) == !holds(Comparison::Equal, a, b),
        holds(Comparison::Less, a, b) == holds(Comparison::Greater, b, a),
        holds(Comparison::Less, a, b) == ((a.major, a.minor, a.patch) != (
            b.major,
            b.minor,
            b.patch,
        ) && (a.major < b.major || (a.major == b.major && (a.minor < b.minor || (a.minor
            == b.minor && a.patch <= b.patch))))),
{
}

/// The order of versions is transitive.
pub proof fn law_order_is_transitive(a: Version, b: Version, c: Version)
    requires
        holds(Comparison::LessOrEqual, a, b),
        holds(Comparison::LessOrEqual, b, c),
    ensures
        holds(Comparison::LessOrEqual, a, c),
{
}

/// A version without a patch number is the version with patch 0.
pub proof fn law_missing_patch_is_zero(whole: Seq<char>, major: Seq<char>, minor: Seq<char>)
    requires
        parsed_u32(major) is Some,
        parsed_u32(minor) is Some,
    ensures
        version_of_groups(seq![Some(whole), Some(major), Some(minor), None]) == Some(
            Version { major: parsed_u32(major)->Some_0, minor: parsed_u32(minor)->Some_0, patch: 0 },
        ),
{
}

} // verus!
