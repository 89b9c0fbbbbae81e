//! Laws relating the scanner, the builder, and the registry.
//!
//! The directory naming convention is a contract with whatever tool creates
//! migration directories: names must sort (by bytes) the same way as the
//! versions they carry, and versions must be unique. Under that convention,
//! and only under it, name order is version order; a set such as `1_b`, `12_a`
//! breaks it (`1` comes before `12` as a version, but `1_b` after `12_a` as a
//! name), and then the registry is ordered by name, not by version.

use vstd::prelude::*;
use vstd::utf8::encode_utf8;
use crate::errors::{BuildError, ScanError};
use crate::lex::{lex_le, lex_lt, lemma_lex_le_antisymmetric};
use crate::registry::{
    build_post, migration_of, name_le, sorted_by_name, DirectoryEntry, EmbeddedMigration,
    MigrationRegistry,
};
use crate::scan::{candidates, scan_entries_post, FsEntry};
use crate::version::raw_version_of;

verus! {

/// The version token the entry's directory name carries, as bytes.
pub open spec fn version_bytes(e: DirectoryEntry) -> Seq<u8> {
    raw_version_of(encode_utf8(e.name@))
}

/// The naming convention: across the given entries, name order agrees with
/// version order, and no two entries carry the same version.
pub open spec fn follows_naming_convention(s: Seq<DirectoryEntry>) -> bool {
    &&& forall|i: int, j: int|
        0 <= i < s.len() && 0 <= j < s.len() && name_le(s[i], s[j]) ==> lex_le(
            #[trigger] version_bytes(s[i]),
            #[trigger] version_bytes(s[j]),
        )
    &&& forall|i: int, j: int|
        0 <= i < j < s.len() ==> #[trigger] version_bytes(s[i]) != #[trigger] version_bytes(s[j])
}

/// The registry's entries stand in strictly ascending version order.
pub open spec fn strictly_ascending_versions(reg: Seq<EmbeddedMigration>) -> bool {
    forall|i: int, j: int|
        0 <= i < j < reg.len() ==> lex_lt(
            encode_utf8(#[trigger] reg[i].version@),
            encode_utf8(#[trigger] reg[j].version@),
        )
}

/// Law: a registry built from a scan of a migrations root has exactly one
/// entry per qualifying subdirectory, and, under the naming convention, its
/// versions are strictly ascending — whatever order the filesystem listed the
/// directories in. The hypotheses are what `scan`'s and `build`'s contracts
/// give: `names` is what the scan of `es` returned, `entries` pairs those
/// names with their files, and `s` is the name-ordered arrangement of
/// `entries` that `build` worked through to produce `reg`.
pub proof fn lemma_scan_build_registry(
    es: Seq<FsEntry>,
    names: Seq<String>,
    entries: Seq<DirectoryEntry>,
    s: Seq<DirectoryEntry>,
    reg: Seq<EmbeddedMigration>,
)
    requires
        names.len() == candidates(es).len(),
        forall|i: int| 0 <= i < names.len() ==> #[trigger] names[i]@ == candidates(es)[i].name@,
        entries.len() == names.len(),
        forall|i: int| 0 <= i < entries.len() ==> #[trigger] entries[i].name@ == names[i]@,
        sorted_by_name(s),
        s.to_multiset() == entries.to_multiset(),
        reg.len() == s.len(),
        forall|i: int| 0 <= i < s.len() ==> migration_of(s[i], #[trigger] reg[i]),
        follows_naming_convention(s),
    ensures
        reg.len() == candidates(es).len(),
        strictly_ascending_versions(reg),
{
    broadcast use vstd::seq_lib::group_to_multiset_ensures;

    assert(s.len() == s.to_multiset().len());
    assert(entries.len() == entries.to_multiset().len());
    assert forall|i: int, j: int| 0 <= i < j < reg.len() implies lex_lt(
        encode_utf8(#[trigger] reg[i].version@),
        encode_utf8(#[trigger] reg[j].version@),
    ) by {
        assert(name_le(s[i], s[j]));
        assert(lex_le(version_bytes(s[i]), version_bytes(s[j])));
        assert(encode_utf8(reg[i].version@) == version_bytes(s[i]));
        assert(encode_utf8(reg[j].version@) == version_bytes(s[j]));
        assert(version_bytes(s[i]) != version_bytes(s[j]));
    }
}

/// Law: in a registry whose versions are strictly ascending, the migration
/// with the smaller version always precedes the one with the larger, whatever
/// listing order produced the registry.
pub proof fn lemma_earlier_version_precedes(reg: Seq<EmbeddedMigration>, i: int, j: int)
    requires
        strictly_ascending_versions(reg),
        0 <= i < reg.len(),
        0 <= j < reg.len(),
        lex_lt(encode_utf8(reg[i].version@), encode_utf8(reg[j].version@)),
    ensures
        i < j,
{
    if i == j {
        assert(encode_utf8(reg[i].version@) == encode_utf8(reg[j].version@));
    } else if j < i {
        assert(lex_lt(encode_utf8(reg[j].version@), encode_utf8(reg[i].version@)));
        lemma_lex_le_antisymmetric(encode_utf8(reg[i].version@), encode_utf8(reg[j].version@));
    }
}

/// Law (round trip): every registry entry is the embedded form of one of the
/// directory entries the builder was given — its `up_sql` text is that
/// directory's file content, byte for byte, and its version is derived from
/// that directory's name. `s` is the name-ordered arrangement of `entries`
/// that `build`'s contract provides.
/// Law: a migrations root with no qualifying subdirectories — empty, or
/// holding only files and hidden entries — scans to an empty name list and
/// builds to an empty registry, and both steps succeed. The hypotheses are
/// what `scan`'s and `build`'s contracts give for such a root.
pub proof fn lemma_empty_root_builds_empty_registry(
    es: Seq<FsEntry>,
    r_scan: Result<Vec<String>, ScanError>,
    s: Seq<DirectoryEntry>,
    r_build: Result<MigrationRegistry, BuildError>,
)
    requires
        candidates(es).len() == 0,
        scan_entries_post(es, r_scan),
        build_post(Seq::empty(), s, r_build),
    ensures
        r_scan matches Ok(names) && names@.len() == 0,
        r_build matches Ok(reg) && reg@.len() == 0,
{
    broadcast use vstd::seq_lib::group_to_multiset_ensures;

    assert(Seq::<DirectoryEntry>::empty().to_multiset().len() == 0);
    assert(s.to_multiset().len() == 0);
    assert(s.len() == 0);
}

/// Some directory among `entries` embeds to exactly the migration `m`.
pub open spec fn embeds_some_entry(entries: Seq<DirectoryEntry>, m: EmbeddedMigration) -> bool {
    exists|e: DirectoryEntry| #[trigger] entries.contains(e) && migration_of(e, m)
}

pub proof fn lemma_up_sql_round_trip(
    entries: Seq<DirectoryEntry>,
    s: Seq<DirectoryEntry>,
    reg: Seq<EmbeddedMigration>,
)
    requires
        s.to_multiset() == entries.to_multiset(),
        reg.len() == s.len(),
        forall|i: int| 0 <= i < s.len() ==> migration_of(s[i], #[trigger] reg[i]),
    ensures
        forall|k: int| 0 <= k < reg.len() ==> embeds_some_entry(entries, #[trigger] reg[k]),
{
    broadcast use vstd::seq_lib::group_to_multiset_ensures;

    assert forall|k: int| 0 <= k < reg.len() implies embeds_some_entry(
        entries,
        #[trigger] reg[k],
    ) by {
        let e = s[k];
        assert(s.contains(e));
        assert(s.to_multiset().count(e) > 0);
        assert(entries.to_multiset().count(e) > 0);
        assert(entries.contains(e));
        assert(entries.contains(e) && migration_of(e, reg[k]));
    }
}

} // verus!
