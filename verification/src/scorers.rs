//! Scorers evaluate loaded content against a target byte string and produce
//! a numeric match strength. A score of at least one means the entry passes;
//! a score of zero means it is filtered out.

use vstd::prelude::*;
use vstd::string::StringExecFns;

use crate::bytes::{bytes_eq, contains_bytes, count_bytes, spec_contains, spec_count};

verus! {

/// The closed set of scorer operations.
#[derive(Clone, Copy, Debug, PartialEq, Eq, Structural)]
pub enum ScorerKind {
    /// Passes when content equals the target exactly.
    Is,
    /// Passes when content differs from the target.
    Not,
    /// Passes when content contains the target as a substring.
    Has,
    /// Passes when content does not contain the target.
    Hasnt,
    /// Always passes; scores one plus the occurrence count of the target.
    More,
    /// Always passes with the constant score one.
    Pass,
}

/// The mathematical score of one scorer on prepared content and target.
/// A score of at least one passes; `More` and `Pass` never filter.
pub open spec fn spec_score(kind: ScorerKind, content: Seq<u8>, target: Seq<u8>) -> nat {
    match kind {
        ScorerKind::Is => if content == target {
            1
        } else {
            0
        },
        ScorerKind::Not => if content != target {
            1
        } else {
            0
        },
        ScorerKind::Has => if spec_contains(content, target) {
            1
        } else {
            0
        },
        ScorerKind::Hasnt => if !spec_contains(content, target) {
            1
        } else {
            0
        },
        ScorerKind::More => 1 + spec_count(content, target),
        ScorerKind::Pass => 1,
    }
}

/// The `More` score is one plus the occurrence count, so adding one more
/// copy of the target to the content strictly increases it.
pub proof fn lemma_more_strictly_increases(content: Seq<u8>, target: Seq<u8>)
    requires
        target.len() > 0,
    ensures
        spec_score(ScorerKind::More, content + target, target) > spec_score(
            ScorerKind::More,
            content,
            target,
        ),
{
    crate::bytes::lemma_count_append_target(content, target);
}

/// A natural number clamped to the range of `u64`.
pub open spec fn sat64(n: nat) -> nat {
    if n > u64::MAX {
        u64::MAX as nat
    } else {
        n
    }
}

/// Evaluate one scorer kind on content and target. The result is the exact
/// mathematical score, clamped to `u64` (only a `More` score on content
/// longer than `u64` can count could clamp).
pub fn score_kind(kind: ScorerKind, content: &Vec<u8>, target: &Vec<u8>) -> (r: u64)
    ensures
        r as nat == sat64(spec_score(kind, content@, target@)),
{
    match kind {
        ScorerKind::Is => if bytes_eq(content, target) {
            1
        } else {
            0
        },
        ScorerKind::Not => if bytes_eq(content, target) {
            0
        } else {
            1
        },
        ScorerKind::Has => if contains_bytes(content, target) {
            1
        } else {
            0
        },
        ScorerKind::Hasnt => if contains_bytes(content, target) {
            0
        } else {
            1
        },
        ScorerKind::More => {
            let n = count_bytes(content, target);
            if n as u64 <= u64::MAX - 1 {
                n as u64 + 1
            } else {
                u64::MAX
            }
        },
        ScorerKind::Pass => 1,
    }
}

/// The printable name of a scorer kind.
pub open spec fn spec_scorer_name(kind: ScorerKind) -> Seq<char> {
    match kind {
        ScorerKind::Is => "Is"@,
        ScorerKind::Not => "Not"@,
        ScorerKind::Has => "Has"@,
        ScorerKind::Hasnt => "Hasnt"@,
        ScorerKind::More => "More"@,
        ScorerKind::Pass => "Pass"@,
    }
}

/// The printable name of a scorer kind.
pub fn scorer_name(kind: ScorerKind) -> (r: &'static str)
    ensures
        r@ == spec_scorer_name(kind),
{
    match kind {
        ScorerKind::Is => "Is",
        ScorerKind::Not => "Not",
        ScorerKind::Has => "Has",
        ScorerKind::Hasnt => "Hasnt",
        ScorerKind::More => "More",
        ScorerKind::Pass => "Pass",
    }
}

/// The statistics key of one scorer application: `name(target)`.
pub open spec fn spec_key(name: Seq<char>, target: Seq<char>) -> Seq<char> {
    name + "("@ + target + ")"@
}

/// Build the statistics key `name(target)` for one scorer application.
pub fn create_key(scorer: &String, target: &String) -> (r: String)
    ensures
        r@ == spec_key(scorer@, target@),
{
    let mut r = scorer.clone();
    r.append("(");
    r.append(target.as_str());
    r.append(")");
    r
}

/// A filter decides whether content passes against a target.
pub trait ContentFilter {
    /// What this filter accepts.
    spec fn spec_filter(&self, content: Seq<u8>, target: Seq<u8>) -> bool;

    /// Decide whether the content passes against the target.
    fn filter(&self, content: &Vec<u8>, target: &Vec<u8>) -> (r: bool)
        ensures
            r == self.spec_filter(content@, target@),
    ;
}

/// Exact equality with the target.
pub struct Is {}

/// Anything but exact equality with the target.
pub struct Not {}

/// Containment of the target as a substring.
pub struct Has {}

/// Absence of the target as a substring.
pub struct Hasnt {}

/// One plus the number of non-overlapping occurrences of the target.
pub struct More {}

/// The constant score one; a structural placeholder, never a real operation.
pub struct Pass {}

impl ContentFilter for Is {
    open spec fn spec_filter(&self, content: Seq<u8>, target: Seq<u8>) -> bool {
        content == target
    }

    fn filter(&self, content: &Vec<u8>, target: &Vec<u8>) -> (r: bool)
        ensures
            r == self.spec_filter(content@, target@),
    {
        bytes_eq(content, target)
    }
}

impl ContentFilter for Not {
    open spec fn spec_filter(&self, content: Seq<u8>, target: Seq<u8>) -> bool {
        content != target
    }

    fn filter(&self, content: &Vec<u8>, target: &Vec<u8>) -> (r: bool)
        ensures
            r == self.spec_filter(content@, target@),
    {
        !bytes_eq(content, target)
    }
}

impl ContentFilter for Has {
    open spec fn spec_filter(&self, content: Seq<u8>, target: Seq<u8>) -> bool {
        spec_contains(content, target)
    }

    fn filter(&self, content: &Vec<u8>, target: &Vec<u8>) -> (r: bool)
        ensures
            r == self.spec_filter(content@, target@),
    {
        contains_bytes(content, target)
    }
}

impl ContentFilter for Hasnt {
    open spec fn spec_filter(&self, content: Seq<u8>, target: Seq<u8>) -> bool {
        !spec_contains(content, target)
    }

    fn filter(&self, content: &Vec<u8>, target: &Vec<u8>) -> (r: bool)
        ensures
            r == self.spec_filter(content@, target@),
    {
        !contains_bytes(content, target)
    }
}

impl Is {
    /// Score one if content equals the target, else zero.
    pub fn score(&self, content: &Vec<u8>, target: &Vec<u8>) -> (r: u64)
        ensures
            r as nat == spec_score(ScorerKind::Is, content@, target@),
    {
        score_kind(ScorerKind::Is, content, target)
    }

    /// The printable name of this scorer.
    pub fn get_name(&self) -> (r: &'static str)
        ensures
            r@ == spec_scorer_name(ScorerKind::Is),
    {
        scorer_name(ScorerKind::Is)
    }
}

impl Not {
    /// Score one if content differs from the target, else zero.
    pub fn score(&self, content: &Vec<u8>, target: &Vec<u8>) -> (r: u64)
        ensures
            r as nat == spec_score(ScorerKind::Not, content@, target@),
    {
        score_kind(ScorerKind::Not, content, target)
    }

    /// The printable name of this scorer.
    pub fn get_name(&self) -> (r: &'static str)
        ensures
            r@ == spec_scorer_name(ScorerKind::Not),
    {
        scorer_name(ScorerKind::Not)
    }
}

impl Has {
    /// Score one if content contains the target, else zero.
    pub fn score(&self, content: &Vec<u8>, target: &Vec<u8>) -> (r: u64)
        ensures
            r as nat == spec_score(ScorerKind::Has, content@, target@),
    {
        score_kind(ScorerKind::Has, content, target)
    }

    /// The printable name of this scorer.
    pub fn get_name(&self) -> (r: &'static str)
        ensures
            r@ == spec_scorer_name(ScorerKind::Has),
    {
        scorer_name(ScorerKind::Has)
    }
}

impl Hasnt {
    /// Score one if content does not contain the target, else zero.
    pub fn score(&self, content: &Vec<u8>, target: &Vec<u8>) -> (r: u64)
        ensures
            r as nat == spec_score(ScorerKind::Hasnt, content@, target@),
    {
        score_kind(ScorerKind::Hasnt, content, target)
    }

    /// The printable name of this scorer.
    pub fn get_name(&self) -> (r: &'static str)
        ensures
            r@ == spec_scorer_name(ScorerKind::Hasnt),
    {
        scorer_name(ScorerKind::Hasnt)
    }
}

impl More {
    /// Score one plus the non-overlapping occurrence count of the target;
    /// never below one, so `More` filters nothing out by itself.
    pub fn score(&self, content: &Vec<u8>, target: &Vec<u8>) -> (r: u64)
        ensures
            r as nat == sat64(spec_score(ScorerKind::More, content@, target@)),
            r >= 1,
    {
        score_kind(ScorerKind::More, content, target)
    }

    /// The printable name of this scorer.
    pub fn get_name(&self) -> (r: &'static str)
        ensures
            r@ == spec_scorer_name(ScorerKind::More),
    {
        scorer_name(ScorerKind::More)
    }
}

impl Pass {
    /// The constant score one.
    pub fn score(&self, content: &Vec<u8>, target: &Vec<u8>) -> (r: u64)
        ensures
            r as nat == spec_score(ScorerKind::Pass, content@, target@),
    {
        score_kind(ScorerKind::Pass, content, target)
    }

    /// The printable name of this scorer.
    pub fn get_name(&self) -> (r: &'static str)
        ensures
            r@ == spec_scorer_name(ScorerKind::Pass),
    {
        scorer_name(ScorerKind::Pass)
    }
}

/// Excludes hidden entries (names that start with a dot) unless allowed.
pub struct HiddenFilter {
    pub allow: bool,
}

/// The byte value of an ASCII dot.
pub const DOT: u8 = 46;

impl HiddenFilter {
    /// Build a filter that allows hidden entries iff `allow` is set.
    pub fn _new(allow: bool) -> (r: HiddenFilter)
        ensures
            r.allow == allow,
    {
        HiddenFilter { allow }
    }

    /// Whether the entry with the given file name should be kept.
    pub fn filter(&self, name: &Vec<u8>) -> (r: bool)
        ensures
            r == (self.allow || !(name@.len() > 0 && name@[0] == DOT)),
    {
        if self.allow {
            true
        } else {
            !(name.len() > 0 && name[0] == DOT)
        }
    }
}

} // verus!
