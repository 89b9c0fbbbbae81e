//! Migration directory scanner.
//!
//! The filesystem is handed in as plain data: a `DirListing` says what
//! listing the migrations root gave. The scanner keeps the entries that look
//! like migration folders (directories whose name does not start with `'.'`),
//! checks that each carries a usable version, and returns their names in
//! listing order; ordering is left to the builder.

use vstd::prelude::*;
use vstd::utf8::encode_utf8;
use crate::errors::ScanError;
use crate::version::{valid_version, version_of};

verus! {

/// One entry of the migrations root, as the filesystem reported it.
#[derive(Debug)]
pub struct FsEntry {
    /// The entry's file name (not its full path).
    pub name: String,
    /// Whether the entry is a directory.
    pub is_dir: bool,
}

/// What listing the migrations root gave.
#[derive(Debug)]
pub enum DirListing {
    /// The root does not exist or is not a directory.
    NotFound,
    /// The root could not be read; the payload describes the failure.
    Unreadable(String),
    /// The root's immediate children.
    Entries(Vec<FsEntry>),
}

/// An entry counts as a migration folder when it is a directory and its name
/// is not hidden (byte 46 is `'.'`, which in UTF-8 occurs only as that
/// character).
pub open spec fn is_candidate(e: FsEntry) -> bool {
    &&& e.is_dir
    &&& !(encode_utf8(e.name@).len() > 0 && encode_utf8(e.name@)[0] == 46)
}

/// The subsequence of entries that count as migration folders, in listing
/// order.
pub open spec fn candidates(s: Seq<FsEntry>) -> Seq<FsEntry>
    decreases s.len(),
{
    if s.len() == 0 {
        Seq::empty()
    } else if is_candidate(s.last()) {
        candidates(s.drop_last()).push(s.last())
    } else {
        candidates(s.drop_last())
    }
}

/// A prefix of the entries selects a prefix of the candidates.
proof fn lemma_candidates_prefix(s: Seq<FsEntry>, i: int)
    requires
        0 <= i <= s.len(),
    ensures
        candidates(s.take(i)).is_prefix_of(candidates(s)),
    decreases s.len() - i,
{
    if i == s.len() {
        assert(s.take(i) =~= s);
    } else {
        lemma_candidates_prefix(s, i + 1);
        assert(s.take(i + 1).drop_last() =~= s.take(i));
        assert(s.take(i + 1).last() == s[i]);
        assert(candidates(s.take(i)).is_prefix_of(candidates(s.take(i + 1))));
    }
}

/// What `scan` promises about a listing's entries: it succeeds exactly when
/// every candidate carries a usable version, returning the candidates' names
/// in listing order, and otherwise reports the first candidate whose name
/// does not.
pub open spec fn scan_entries_post(es: Seq<FsEntry>, r: Result<Vec<String>, ScanError>) -> bool {
    let c = candidates(es);
    &&& (r is Ok <==> forall|i: int|
        0 <= i < c.len() ==> valid_version(encode_utf8(#[trigger] c[i].name@)))
    &&& (r matches Ok(names) ==> names@.len() == c.len() && forall|i: int|
        0 <= i < c.len() ==> #[trigger] names@[i]@ == c[i].name@)
    &&& (r matches Err(e) ==> exists|i: int|
        {
            &&& 0 <= i < c.len()
            &&& !valid_version(encode_utf8(#[trigger] c[i].name@))
            &&& forall|j: int| 0 <= j < i ==> valid_version(encode_utf8(#[trigger] c[j].name@))
            &&& e matches ScanError::InvalidVersion(n) && n@ == c[i].name@
        })
}

/// Lists the migration folders under the migrations root: every directory
/// entry whose name is not hidden, with its version checked, in listing
/// order. Non-directory entries are ignored, not errors.
pub fn scan(listing: &DirListing) -> (r: Result<Vec<String>, ScanError>)
    ensures
        listing is NotFound ==> r == Err::<Vec<String>, ScanError>(ScanError::DirectoryNotFound),
        listing matches DirListing::Unreadable(m) ==> r matches Err(e) && e matches
            ScanError::IoError(msg) && msg@ == m@,
        listing matches DirListing::Entries(es) ==> scan_entries_post(es@, r),
{
    match listing {
        DirListing::NotFound => Err(ScanError::DirectoryNotFound),
        DirListing::Unreadable(m) => Err(ScanError::IoError(m.clone())),
        DirListing::Entries(es) => scan_entries(es),
    }
}

/// Checks whether the entry counts as a migration folder.
fn is_candidate_entry(e: &FsEntry) -> (r: bool)
    ensures
        r == is_candidate(*e),
{
    let b = e.name.as_str().as_bytes();
    e.is_dir && !(b.len() > 0 && b[0] == 46)
}

fn scan_entries(es: &Vec<FsEntry>) -> (r: Result<Vec<String>, ScanError>)
    ensures
        scan_entries_post(es@, r),
{
    let mut names: Vec<String> = Vec::new();
    let mut i: usize = 0;
    while i < es.len()
        invariant
            i <= es@.len(),
            names@.len() == candidates(es@.take(i as int)).len(),
            forall|k: int|
                0 <= k < names@.len() ==> #[trigger] names@[k]@ == candidates(
                    es@.take(i as int),
                )[k].name@,
            forall|k: int|
                0 <= k < names@.len() ==> valid_version(
                    encode_utf8(#[trigger] candidates(es@.take(i as int))[k].name@),
                ),
        decreases es@.len() - i,
    {
        let ghost prev = candidates(es@.take(i as int));
        proof {
            assert(es@.take(i + 1).drop_last() =~= es@.take(i as int));
            assert(es@.take(i + 1).last() == es@[i as int]);
        }
        let e = &es[i];
        if is_candidate_entry(e) {
            match version_of(e.name.as_str()) {
                Ok(_) => {
                    names.push(e.name.clone());
                },
                Err(err) => {
                    proof {
                        lemma_candidates_prefix(es@, i + 1);
                        let c = candidates(es@);
                        let k = prev.len() as int;
                        assert(candidates(es@.take(i + 1)) == prev.push(es@[i as int]));
                        assert(candidates(es@.take(i + 1)) =~= c.subrange(0, k + 1));
                        assert(c.subrange(0, k + 1)[k] == c[k]);
                        assert(prev.push(es@[i as int])[k] == es@[i as int]);
                        assert(c[k] == es@[i as int]);
                        assert forall|j: int| 0 <= j < k implies c[j] == prev[j] by {
                            assert(c.subrange(0, k + 1)[j] == c[j]);
                            assert(prev.push(es@[i as int])[j] == prev[j]);
                        }
                    }
                    return Err(err);
                },
            }
        }
        i += 1;
    }
    proof {
        assert(es@.take(i as int) =~= es@);
    }
    Ok(names)
}

} // verus!
