//! Scoring entries by filesystem metadata, and rendering the long-format
//! permission string. Metadata reaches this module as plain values; the
//! caller that owns the filesystem reads them.

use vstd::prelude::*;

use crate::loaders::FileData;
use crate::pipeline::{sort_entries_desc, sorted_desc, ScoredEntry};

verus! {

/// The metadata of one filesystem entry, as plain values.
#[derive(Clone, Copy)]
pub struct FileMeta {
    /// The raw permission mode bits.
    pub mode: u32,
    /// The owning user id.
    pub uid: u32,
    /// The owning group id.
    pub gid: u32,
    /// Seconds since the epoch of the last modification.
    pub modified_secs: u64,
    /// Whether the entry is a directory.
    pub is_dir: bool,
}

/// A scorer over entry metadata rather than content.
pub trait MetadataScorer {
    /// The score this scorer assigns to the given metadata.
    spec fn spec_score(&self, meta: FileMeta) -> nat;

    /// Score the given metadata.
    fn score(&self, meta: &FileMeta) -> (r: u64)
        ensures
            r as nat == self.spec_score(*meta),
    ;
}

/// Passes entries whose mode equals the given permission bits exactly.
pub struct PermissionScoreSpec {
    /// The permission mode bits an entry must carry.
    pub permission: u32,
}

/// Passes entries whose directory flag matches.
pub struct DirScoreSpec {
    /// Whether a directory is wanted.
    pub is_dir: bool,
}

impl MetadataScorer for PermissionScoreSpec {
    open spec fn spec_score(&self, meta: FileMeta) -> nat {
        if meta.mode == self.permission {
            1
        } else {
            0
        }
    }

    fn score(&self, meta: &FileMeta) -> (r: u64)
        ensures
            r as nat == self.spec_score(*meta),
    {
        if meta.mode == self.permission {
            1
        } else {
            0
        }
    }
}

impl MetadataScorer for DirScoreSpec {
    open spec fn spec_score(&self, meta: FileMeta) -> nat {
        if meta.is_dir == self.is_dir {
            1
        } else {
            0
        }
    }

    fn score(&self, meta: &FileMeta) -> (r: u64)
        ensures
            r as nat == self.spec_score(*meta),
    {
        if meta.is_dir == self.is_dir {
            1
        } else {
            0
        }
    }
}

/// What scoring a list of entries with their metadata produces, in input
/// order.
pub open spec fn spec_metadata_scores<S: MetadataScorer>(
    entries: Seq<(FileData, FileMeta)>,
    scorer: S,
) -> Seq<ScoredEntry>
    decreases entries.len(),
{
    if entries.len() == 0 {
        Seq::empty()
    } else {
        seq![
            ScoredEntry {
                score: crate::scorers::sat64(scorer.spec_score(entries[0].1)) as u64,
                entry: entries[0].0,
            },
        ] + spec_metadata_scores(entries.drop_first(), scorer)
    }
}

/// Score every entry by its metadata, in input order.
pub fn metadata_score_files<S: MetadataScorer>(
    entries: Vec<(FileData, FileMeta)>,
    scorer: &S,
) -> (out: Vec<ScoredEntry>)
    ensures
        out@ == spec_metadata_scores(entries@, *scorer),
        out@.len() == entries@.len(),
{
    let ghost orig = entries@;
    let mut entries = entries;
    let mut out: Vec<ScoredEntry> = Vec::new();
    while entries.len() > 0
        invariant
            out@ + spec_metadata_scores(entries@, *scorer) =~= spec_metadata_scores(
                orig,
                *scorer,
            ),
            out@.len() + entries@.len() == orig.len(),
        decreases entries@.len(),
    {
        let ghost pre = entries@;
        let (entry, meta) = entries.remove(0);
        proof {
            assert(entries@ =~= pre.drop_first());
        }
        let s = scorer.score(&meta);
        proof {
            assert(s as nat == crate::scorers::sat64(scorer.spec_score(pre[0].1))) by {
                assert(s <= u64::MAX);
            }
        }
        out.push(ScoredEntry { score: s, entry });
    }
    proof {
        assert(spec_metadata_scores(entries@, *scorer) =~= Seq::<ScoredEntry>::empty());
        assert(out@ =~= spec_metadata_scores(orig, *scorer));
    }
    out
}

/// Score every entry by its metadata and rank the results by descending
/// score.
pub fn metadata_search<S: MetadataScorer>(entries: Vec<(FileData, FileMeta)>, scorer: &S) -> (out:
    Vec<ScoredEntry>)
    ensures
        sorted_desc(out@),
        out@.to_multiset() == spec_metadata_scores(entries@, *scorer).to_multiset(),
        out@.len() == entries@.len(),
{
    let scored = metadata_score_files(entries, scorer);
    sort_entries_desc(scored)
}

/// The byte value of a dash in a permission string.
pub const PERM_DASH: u8 = 45;

/// The byte value of the letter `d`.
pub const PERM_D: u8 = 100;

/// The byte value of the letter `r`.
pub const PERM_R: u8 = 114;

/// The byte value of the letter `w`.
pub const PERM_W: u8 = 119;

/// The byte value of the letter `x`.
pub const PERM_X: u8 = 120;

/// Whether bit `i` of the mode is set, counting from the least significant
/// bit.
pub open spec fn spec_mode_bit(mode: u32, i: u32) -> bool {
    (mode >> i) & 1 == 1
}

/// The permission character rendered for bit `i` of the mode.
pub open spec fn spec_perm_char(mode: u32, i: u32) -> u8 {
    if i % 3 == 0 {
        if spec_mode_bit(mode, i) {
            PERM_DASH
        } else {
            PERM_R
        }
    } else if i % 3 == 1 {
        if spec_mode_bit(mode, i) {
            PERM_W
        } else {
            PERM_DASH
        }
    } else {
        if spec_mode_bit(mode, i) {
            PERM_DASH
        } else {
            PERM_X
        }
    }
}

/// Render the ten-character long-format permission string: a directory
/// marker followed by one character per mode bit, least significant first.
pub fn permission_string(mode: u32, is_dir: bool) -> (r: Vec<u8>)
    ensures
        r@.len() == 10,
        r@[0] == if is_dir {
            PERM_D
        } else {
            PERM_DASH
        },
        forall|i: u32| i < 9 ==> r@[i + 1] == spec_perm_char(mode, i),
{
    let mut r: Vec<u8> = Vec::new();
    if is_dir {
        r.push(PERM_D);
    } else {
        r.push(PERM_DASH);
    }
    let mut i: u32 = 0;
    while i < 9
        invariant
            i <= 9,
            r@.len() == i + 1,
            r@[0] == if is_dir {
                PERM_D
            } else {
                PERM_DASH
            },
            forall|j: u32| j < i ==> r@[j + 1] == spec_perm_char(mode, j),
        decreases 9 - i,
    {
        let bit = (mode >> i) & 1 == 1;
        let c = if i % 3 == 0 {
            if bit {
                PERM_DASH
            } else {
                PERM_R
            }
        } else if i % 3 == 1 {
            if bit {
                PERM_W
            } else {
                PERM_DASH
            }
        } else {
            if bit {
                PERM_DASH
            } else {
                PERM_X
            }
        };
        r.push(c);
        i = i + 1;
    }
    r
}

} // verus!
