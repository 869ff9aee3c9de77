//! The radare2 version check: which version the output of `radare2 -V`
//! gives, and whether it is accepted.

use vstd::prelude::*;

use crate::constants::{EXPECTED_RADARE_MAJOR_VERSION, SEMANTIC_VERSIONING_REGEX};
use crate::matching::regex_all_captures;
use crate::text::{chars_of, parse_i8, parse_i8_chars};

verus! {

/// A version of radare2.
#[derive(Debug, Clone, Copy, PartialEq, Eq, Structural)]
pub struct RadareVersion {
    pub major: i8,
    pub minor: i8,
    pub patch: i8,
}

/// What the output of `radare2 -V` says.
#[derive(Debug, Clone, Copy, PartialEq, Eq, Structural)]
pub enum RadareVersionCheck {
    /// radare2 wrote to its error output: the version is not accepted.
    ErrorOutput,
    /// radare2 reported `version`; `expected` tells whether it is accepted.
    Detected { version: RadareVersion, expected: bool },
}

impl RadareVersionCheck {
    /// Whether radare2 is accepted.
    pub fn passes(&self) -> (r: bool)
        ensures
            r == (*self matches RadareVersionCheck::Detected { expected, .. } && expected),
    {
        match self {
            RadareVersionCheck::ErrorOutput => false,
            RadareVersionCheck::Detected { expected, .. } => *expected,
        }
    }
}

/// The group `i` of a match, `None` where the group took no part in it or
/// does not exist (`Captures::get`).
pub open spec fn group(c: Seq<Option<Seq<char>>>, i: int) -> Option<Seq<char>> {
    if 0 <= i < c.len() {
        c[i]
    } else {
        None
    }
}

/// A match of the version pattern that holds major, minor and patch.
pub open spec fn is_full_version(c: Seq<Option<Seq<char>>>) -> bool {
    &&& group(c, 1) is Some
    &&& group(c, 2) is Some
    &&& group(c, 3) is Some
}

/// The first match that holds major, minor and patch.
pub open spec fn first_full_version(caps: Seq<Seq<Option<Seq<char>>>>) -> Option<
    Seq<Option<Seq<char>>>,
>
    decreases caps.len(),
{
    if caps.len() == 0 {
        None
    } else if is_full_version(caps[0]) {
        Some(caps[0])
    } else {
        first_full_version(caps.drop_first())
    }
}

/// The version that the matches of the version pattern give: the numbers of
/// the first match that holds all three, each read as an `i8`. `None` where
/// no match holds all three or one of its numbers is no `i8`.
pub open spec fn version_from_captures(caps: Seq<Seq<Option<Seq<char>>>>) -> Option<RadareVersion> {
    match first_full_version(caps) {
        None => None,
        Some(c) => match (
            parse_i8(group(c, 1)->0),
            parse_i8(group(c, 2)->0),
            parse_i8(group(c, 3)->0),
        ) {
            (Some(major), Some(minor), Some(patch)) => Some(
                RadareVersion { major, minor, patch },
            ),
            _ => None,
        },
    }
}

/// What the dumper concludes from the output of `radare2 -V`: any error
/// output rejects radare2; otherwise the version found by the version
/// pattern decides, accepted from the least major version on. `None` where
/// no version can be read.
pub open spec fn version_check(stdout: Seq<char>, stderr: Seq<char>) -> Option<RadareVersionCheck> {
    if stderr.len() > 0 {
        Some(RadareVersionCheck::ErrorOutput)
    } else {
        match regex_all_captures(SEMANTIC_VERSIONING_REGEX@, stdout) {
            None => None,
            Some(caps) => match version_from_captures(caps) {
                None => None,
                Some(v) => Some(
                    RadareVersionCheck::Detected {
                        version: v,
                        expected: v.major >= EXPECTED_RADARE_MAJOR_VERSION,
                    },
                ),
            },
        }
    }
}

/// The first match of `caps` from position `i` on that holds all three
/// numbers is the first one of `caps[i..]`.
proof fn lemma_first_full_version_step(caps: Seq<Seq<Option<Seq<char>>>>, i: int)
    requires
        0 <= i < caps.len(),
    ensures
        first_full_version(caps.subrange(i, caps.len() as int)) == if is_full_version(caps[i]) {
            Some(caps[i])
        } else {
            first_full_version(caps.subrange(i + 1, caps.len() as int))
        },
{
    let s = caps.subrange(i, caps.len() as int);
    assert(s.drop_first() =~= caps.subrange(i + 1, caps.len() as int));
    assert(s[0] == caps[i]);
}

/// The text of group `i` of `c`, when there is one.
fn group_text(c: &Vec<Option<String>>, i: usize) -> (r: Option<&String>)
    ensures
        r.is_some() == (group(c.deep_view(), i as int) is Some),
        r matches Some(t) ==> t@ == group(c.deep_view(), i as int)->0,
{
    if i < c.len() {
        match &c[i] {
            Some(t) => Some(t),
            None => None,
        }
    } else {
        None
    }
}

/// Computes `version_from_captures` for the matches `caps`.
pub fn version_from_matches(caps: &Vec<Vec<Option<String>>>) -> (r: Option<RadareVersion>)
    ensures
        r == version_from_captures(caps.deep_view()),
{
    let n: usize = caps.len();
    let ghost dv = caps.deep_view();
    let mut i: usize = 0;
    assert(dv.subrange(0, n as int) =~= dv);
    while i < n
        invariant
            n == caps@.len(),
            dv == caps.deep_view(),
            i <= n,
            first_full_version(dv) == first_full_version(dv.subrange(i as int, n as int)),
        decreases n - i,
    {
        proof {
            lemma_first_full_version_step(dv, i as int);
        }
        let c = &caps[i];
        assert(c.deep_view() == dv[i as int]);
        let g1 = group_text(c, 1);
        let g2 = group_text(c, 2);
        let g3 = group_text(c, 3);
        match (g1, g2, g3) {
            (Some(t1), Some(t2), Some(t3)) => {
                let major = parse_i8_chars(chars_of(t1.as_str()).as_slice());
                let minor = parse_i8_chars(chars_of(t2.as_str()).as_slice());
                let patch = parse_i8_chars(chars_of(t3.as_str()).as_slice());
                return match (major, minor, patch) {
                    (Some(major), Some(minor), Some(patch)) => Some(
                        RadareVersion { major, minor, patch },
                    ),
                    _ => None,
                };
            },
            _ => {},
        }
        i = i + 1;
    }
    assert(dv.subrange(n as int, n as int).len() == 0);
    None
}

/// radare2 is accepted exactly when it reports, without error output, a
/// version whose major number is at least the least accepted one.
pub proof fn law_version_acceptance(stdout: Seq<char>, stderr: Seq<char>)
    ensures
        stderr.len() > 0 ==> version_check(stdout, stderr) == Some(RadareVersionCheck::ErrorOutput),
        version_check(stdout, stderr) matches Some(RadareVersionCheck::Detected { version, expected })
            ==> (expected <==> version.major >= EXPECTED_RADARE_MAJOR_VERSION),
{
}

} // verus!
