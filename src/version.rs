//! Semantic versions as read from configuration documents.
//!
//! A version field that is missing or that does not parse reads as `0.0.0`;
//! reading a version never fails.

use vstd::prelude::*;

verus! {

#[verifier::external_type_specification]
#[verifier::external_body]
pub struct ExSemverVersion(semver::Version);

/// Whether `semver::Version::parse` accepts the text.
pub uninterp spec fn semver_accepts(s: Seq<char>) -> bool;

/// Whether the version parsed from `a` is greater than the one parsed from `b`,
/// in the order that `semver::Version` implements.
pub uninterp spec fn semver_greater(a: Seq<char>, b: Seq<char>) -> bool;

/// The text that a version field reads as: its own text where it is present
/// and parses, `0.0.0` otherwise.
pub open spec fn effective_text(field: Option<Seq<char>>) -> Seq<char> {
    match field {
        Some(s) => if semver_accepts(s) { s } else { zero_text() },
        None => zero_text(),
    }
}

pub open spec fn zero_text() -> Seq<char> {
    seq!['0', '.', '0', '.', '0']
}

/// Strict "newer than" between two effective version texts: equal texts are
/// never newer than one another.
pub open spec fn newer(a: Seq<char>, b: Seq<char>) -> bool {
    a != b && semver_greater(a, b)
}

/// A parsed version together with the text it was read from.
pub struct SemVer {
    text: String,
    parsed: semver::Version,
}

/// Relies on `semver::Version::parse`: it succeeds exactly on the texts it accepts.
#[verifier::external_body]
fn parse_semver(s: &str) -> (r: Option<semver::Version>)
    ensures
        r is Some <==> semver_accepts(s@),
{
    semver::Version::parse(s).ok()
}

/// Relies on `semver::Version::new`, which builds a version from its three numbers.
#[verifier::external_body]
fn semver_from_parts(major: u64, minor: u64, patch: u64) -> (r: semver::Version) {
    semver::Version::new(major, minor, patch)
}

/// Relies on the `>` of `semver::Version` (its derived `PartialOrd`).
/// A `SemVer` holds the parse of its own text, or `0.0.0` built from parts
/// under the text `0.0.0`, which parses to the same version.
#[verifier::external_body]
fn semver_gt(a: &SemVer, b: &SemVer) -> (r: bool)
    ensures
        r == semver_greater(a.text@, b.text@),
{
    a.parsed > b.parsed
}

impl SemVer {
    pub closed spec fn view(&self) -> Seq<char> {
        self.text@
    }

    /// `0.0.0`, the version of a missing or unreadable field.
    pub fn zero() -> (r: SemVer)
        ensures
            r@ == zero_text(),
    {
        let text = "0.0.0".to_string();
        proof {
            reveal_strlit("0.0.0");
        }
        assert(text@ =~= zero_text());
        SemVer { text, parsed: semver_from_parts(0, 0, 0) }
    }

    /// Reads a version field; never fails.
    pub fn read(field: Option<&str>) -> (r: SemVer)
        ensures
            r@ == effective_text(
                match field {
                    Some(s) => Some(s@),
                    None => None,
                },
            ),
    {
        match field {
            Some(s) => match parse_semver(s) {
                Some(parsed) => SemVer { text: s.to_string(), parsed },
                None => SemVer::zero(),
            },
            None => SemVer::zero(),
        }
    }

    /// The text of the version.
    pub fn text(&self) -> (r: String)
        ensures
            r@ == self@,
    {
        self.text.clone()
    }

    /// Whether `self` is strictly newer than `other`.
    pub fn is_newer_than(&self, other: &SemVer) -> (r: bool)
        ensures
            r == newer(self@, other@),
    {
        if self.text == other.text {
            false
        } else {
            semver_gt(self, other)
        }
    }
}

} // verus!
