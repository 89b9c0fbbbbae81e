//! Migration registry builder.
//!
//! A `DirectoryEntry` pairs a scanned directory name with what was found at
//! `<dir>/up.sql`. The builder sorts the entries by the bytes of their names
//! (the order a path sort gives), derives each entry's version anew through
//! the shared extraction rule, captures the forward SQL verbatim, and either
//! yields the whole ordered registry or fails on the first offending entry:
//! there is never a partial registry.

use vstd::prelude::*;
use vstd::multiset::Multiset;
use vstd::utf8::encode_utf8;
use crate::errors::BuildError;
use crate::lex::{bytes_le, lex_le};
use crate::version::{raw_version_of, valid_version, version_of};

verus! {

/// What was found at a migration directory's `up.sql` path.
#[derive(Debug)]
pub enum UpFile {
    /// No such file.
    Missing,
    /// The file exists but could not be read; the payload describes the
    /// failure.
    Unreadable(String),
    /// The file's full text, captured verbatim.
    Content(String),
}

/// A scanned migration directory together with its forward SQL file.
#[derive(Debug)]
pub struct DirectoryEntry {
    /// The directory's name (not its full path).
    pub name: String,
    /// What was found at `<name>/up.sql`.
    pub up_file: UpFile,
}

/// One migration as the compiled artifact carries it: an immutable pair of
/// version token and forward SQL text.
#[derive(Debug, PartialEq, Eq)]
pub struct EmbeddedMigration {
    /// The version token derived from the directory name.
    pub version: String,
    /// The text of the directory's `up.sql`, byte for byte.
    pub up_sql: String,
}

/// The ordered, immutable table of all embedded migrations.
#[derive(Debug, PartialEq, Eq)]
pub struct MigrationRegistry {
    /// The migrations, in ascending name order of their source directories.
    pub migrations: Vec<EmbeddedMigration>,
}

impl View for MigrationRegistry {
    type V = Seq<EmbeddedMigration>;

    open spec fn view(&self) -> Seq<EmbeddedMigration> {
        self.migrations@
    }
}

/// Entry `a`'s directory name sorts at or before entry `b`'s.
pub open spec fn name_le(a: DirectoryEntry, b: DirectoryEntry) -> bool {
    lex_le(encode_utf8(a.name@), encode_utf8(b.name@))
}

/// The entries stand in ascending order of their directory names.
pub open spec fn sorted_by_name(s: Seq<DirectoryEntry>) -> bool {
    forall|i: int, j: int| 0 <= i <= j < s.len() ==> #[trigger] name_le(s[i], s[j])
}

/// An entry the builder accepts: its name carries a version and its forward
/// SQL was read.
pub open spec fn entry_ok(e: DirectoryEntry) -> bool {
    &&& valid_version(encode_utf8(e.name@))
    &&& e.up_file is Content
}

/// `m` is the embedded form of the directory entry `e`: the version is
/// derived from `e`'s name and the SQL text is `e`'s file content, unchanged.
pub open spec fn migration_of(e: DirectoryEntry, m: EmbeddedMigration) -> bool {
    &&& encode_utf8(m.version@) == raw_version_of(encode_utf8(e.name@))
    &&& e.up_file matches UpFile::Content(s) && m.up_sql@ == s@
}

/// The error the builder reports for the offending entry `e`: a name without
/// a version is reported before a missing or unreadable file.
pub open spec fn build_entry_err(e: DirectoryEntry, err: BuildError) -> bool {
    if !valid_version(encode_utf8(e.name@)) {
        err matches BuildError::InvalidVersion(n) && n@ == e.name@
    } else {
        match e.up_file {
            UpFile::Missing => err matches BuildError::MissingUpFile(n) && n@ == e.name@,
            UpFile::Unreadable(m) => err matches BuildError::IoError(msg) && msg@ == m@,
            UpFile::Content(_) => false,
        }
    }
}

/// What building a given (already ordered) entry sequence yields: the whole
/// registry, entry by entry, or the error of the first offending entry.
pub open spec fn built_from(
    s: Seq<DirectoryEntry>,
    r: Result<MigrationRegistry, BuildError>,
) -> bool {
    &&& (r is Ok <==> forall|i: int| 0 <= i < s.len() ==> entry_ok(#[trigger] s[i]))
    &&& (r matches Ok(reg) ==> reg@.len() == s.len() && forall|i: int|
        0 <= i < s.len() ==> migration_of(s[i], #[trigger] reg@[i]))
    &&& (r matches Err(e) ==> exists|i: int|
        {
            &&& 0 <= i < s.len()
            &&& forall|j: int| 0 <= j < i ==> entry_ok(#[trigger] s[j])
            &&& !entry_ok(s[i])
            &&& build_entry_err(#[trigger] s[i], e)
        })
}

/// What `build` promises, with `s` the name-ordered arrangement of the input
/// that it worked through.
pub open spec fn build_post(
    input: Seq<DirectoryEntry>,
    s: Seq<DirectoryEntry>,
    r: Result<MigrationRegistry, BuildError>,
) -> bool {
    &&& sorted_by_name(s)
    &&& s.to_multiset() == input.to_multiset()
    &&& built_from(s, r)
}

/// Compares two texts by the bytes of their UTF-8 encodings.
fn str_le(a: &str, b: &str) -> (r: bool)
    ensures
        r == lex_le(encode_utf8(a@), encode_utf8(b@)),
{
    bytes_le(a.as_bytes(), b.as_bytes())
}

/// Inserting an element anywhere in a sequence adds exactly it to the
/// sequence's multiset.
proof fn lemma_to_multiset_insert<A>(s: Seq<A>, j: int, e: A)
    requires
        0 <= j <= s.len(),
    ensures
        s.insert(j, e).to_multiset() == s.to_multiset().insert(e),
{
    broadcast use vstd::seq_lib::group_to_multiset_ensures;
    broadcast use vstd::multiset::group_multiset_axioms;

    let t = s.insert(j, e);
    t.insert_ensures(j, e);
    s.insert_ensures(j, e);
    assert(t.remove(j) =~= s);
    assert(t.remove(j).to_multiset() =~= t.to_multiset().remove(t[j]));
    assert(t.contains(e));
    assert(t.to_multiset().count(e) > 0);
    assert(t.to_multiset() =~= s.to_multiset().insert(e)) by {
        assert(forall|x: A|
            s.to_multiset().insert(e).count(x) == s.to_multiset().count(x) + (if x == e {
                1int
            } else {
                0int
            }));
    }
}

/// The position at which `e` belongs in the name-ordered `r`: the first index
/// whose entry does not sort at or before `e`.
fn insert_position(r: &Vec<DirectoryEntry>, e: &DirectoryEntry) -> (j: usize)
    ensures
        j <= r@.len(),
        forall|k: int| 0 <= k < j ==> name_le(#[trigger] r@[k], *e),
        j < r@.len() ==> !name_le(r@[j as int], *e),
{
    let mut j: usize = 0;
    while j < r.len()
        invariant
            j <= r@.len(),
            forall|k: int| 0 <= k < j ==> name_le(#[trigger] r@[k], *e),
        decreases r@.len() - j,
    {
        if !str_le(r[j].name.as_str(), e.name.as_str()) {
            return j;
        }
        j += 1;
    }
    j
}

/// Orders migration directory entries by the bytes of their names, the same
/// order that sorting their full paths gives: the result is a name-ordered
/// arrangement of exactly the given entries.
pub fn sort_entries(entries: Vec<DirectoryEntry>) -> (r: Vec<DirectoryEntry>)
    ensures
        sorted_by_name(r@),
        r@.to_multiset() == entries@.to_multiset(),
{
    broadcast use vstd::seq_lib::group_to_multiset_ensures;

    let mut rest = entries;
    let mut r: Vec<DirectoryEntry> = Vec::new();
    loop
        invariant
            sorted_by_name(r@),
            r@.to_multiset().add(rest@.to_multiset()) == entries@.to_multiset(),
        decreases rest@.len(),
    {
        if rest.len() == 0 {
            proof {
                broadcast use vstd::multiset::group_multiset_axioms;
                broadcast use vstd::seq_lib::group_to_multiset_ensures;
                broadcast use vstd::multiset::lemma_multiset_empty_len;

                assert(rest@.to_multiset().len() == 0);
                assert(rest@.to_multiset() =~= Multiset::<DirectoryEntry>::empty());
                assert(r@.to_multiset().add(Multiset::empty()) =~= r@.to_multiset());
            }
            return r;
        }
        let ghost old_rest = rest@;
        let ghost old_r = r@;
        let e = rest.remove(0);
        proof {
            broadcast use vstd::multiset::group_multiset_axioms;
            broadcast use vstd::seq_lib::group_to_multiset_ensures;

            old_rest.remove_ensures(0);
            assert(old_rest.remove(0).to_multiset() =~= old_rest.to_multiset().remove(e));
            assert(old_rest.contains(e));
            assert(old_rest.to_multiset().count(e) > 0);
            assert(r@.to_multiset().add(rest@.to_multiset()).insert(e) =~= entries@.to_multiset());
        }
        let j = insert_position(&r, &e);
        r.insert(j, e);
        proof {
            broadcast use vstd::multiset::group_multiset_axioms;
            broadcast use vstd::seq_lib::group_to_multiset_ensures;

            old_r.insert_ensures(j as int, e);
            lemma_to_multiset_insert(old_r, j as int, e);
            assert(r@.to_multiset().add(rest@.to_multiset()) =~= old_r.to_multiset().add(
                rest@.to_multiset(),
            ).insert(e));
            assert forall|x: int, y: int| 0 <= x <= y < r@.len() implies #[trigger] name_le(
                r@[x],
                r@[y],
            ) by {
                let ghost jj = j as int;
                if y < jj {
                    assert(r@[x] == old_r[x] && r@[y] == old_r[y]);
                } else if x > jj {
                    assert(r@[x] == old_r[x - 1] && r@[y] == old_r[y - 1]);
                } else if x == jj && y == jj {
                    crate::lex::lemma_lex_le_total(
                        encode_utf8(e.name@),
                        encode_utf8(e.name@),
                    );
                } else if x == jj {
                    // e sits at x; everything at or past j is at or after e
                    assert(r@[y] == old_r[y - 1]);
                    crate::lex::lemma_lex_le_total(
                        encode_utf8(e.name@),
                        encode_utf8(old_r[jj].name@),
                    );
                    assert(name_le(old_r[jj], old_r[y - 1]));
                    crate::lex::lemma_lex_le_transitive(
                        encode_utf8(e.name@),
                        encode_utf8(old_r[jj].name@),
                        encode_utf8(old_r[y - 1].name@),
                    );
                } else if y == jj {
                    // e sits at y; everything before j is at or before e
                    assert(r@[x] == old_r[x]);
                } else {
                    // x < jj < y
                    assert(r@[x] == old_r[x] && r@[y] == old_r[y - 1]);
                }
            }
        }
    }
}

/// Turns one scanned directory into its embedded migration: the version is
/// derived anew from the name by the shared extraction rule, and the SQL text
/// is captured verbatim.
pub fn build_entry(e: &DirectoryEntry) -> (r: Result<EmbeddedMigration, BuildError>)
    ensures
        r is Ok <==> entry_ok(*e),
        r matches Ok(m) ==> migration_of(*e, m),
        r matches Err(err) ==> build_entry_err(*e, err),
{
    let version = match version_of(e.name.as_str()) {
        Ok(v) => v,
        Err(_) => {
            return Err(BuildError::InvalidVersion(e.name.clone()));
        },
    };
    match &e.up_file {
        UpFile::Missing => Err(BuildError::MissingUpFile(e.name.clone())),
        UpFile::Unreadable(m) => Err(BuildError::IoError(m.clone())),
        UpFile::Content(s) => Ok(
            EmbeddedMigration { version, up_sql: s.clone() },
        ),
    }
}

/// Assembles the registry: sorts the entries by name, embeds each in that
/// order, and fails on the first offending entry — on failure no registry
/// exists at all.
#[verifier::loop_isolation(false)]
pub fn build(entries: Vec<DirectoryEntry>) -> (r: Result<MigrationRegistry, BuildError>)
    ensures
        exists|s: Seq<DirectoryEntry>| build_post(entries@, s, r),
{
    let ghost input = entries@;
    let sorted = sort_entries(entries);
    let ghost s = sorted@;
    let mut migrations: Vec<EmbeddedMigration> = Vec::new();
    let mut i: usize = 0;
    while i < sorted.len()
        invariant
            sorted@ == s,
            sorted_by_name(s),
            s.to_multiset() == input.to_multiset(),
            i <= s.len(),
            migrations@.len() == i,
            forall|k: int| 0 <= k < i ==> entry_ok(#[trigger] s[k]),
            forall|k: int| 0 <= k < i ==> migration_of(s[k], #[trigger] migrations@[k]),
        decreases s.len() - i,
    {
        match build_entry(&sorted[i]) {
            Ok(m) => {
                migrations.push(m);
            },
            Err(err) => {
                let r = Err::<MigrationRegistry, BuildError>(err);
                proof {
                    assert(!entry_ok(s[i as int]));
                    assert(build_post(input, s, r));
                }
                return r;
            },
        }
        i += 1;
    }
    let r = Ok::<MigrationRegistry, BuildError>(MigrationRegistry { migrations });
    proof {
        assert(build_post(input, s, r));
    }
    r
}

} // verus!
