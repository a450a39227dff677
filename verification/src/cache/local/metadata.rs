//! The database of what units there are in the local cache.

use vstd::prelude::*;
use vstd::string::*;

use crate::cargo::glibc;
use crate::cargo::glibc::GLIBCVersion;
use crate::text;

verus! {

/// Creates the tables.
pub const SCHEMA: &'static str =
    "CREATE TABLE IF NOT EXISTS saved_units (unit_hash TEXT PRIMARY KEY, resolved_target TEXT NOT NULL, glibc_major INTEGER, glibc_minor INTEGER, glibc_patch INTEGER, data TEXT NOT NULL); CREATE INDEX IF NOT EXISTS idx_saved_units_target ON saved_units(resolved_target);";

/// Stores a row. A row of the same unit is replaced.
pub const INSERT: &'static str =
    "INSERT OR REPLACE INTO saved_units (unit_hash, resolved_target, glibc_major, glibc_minor, glibc_patch, data) VALUES (?1, ?2, ?3, ?4, ?5, ?6)";

/// Removes all rows.
pub const RESET: &'static str = "DELETE FROM saved_units";

/// Counts the rows.
pub const COUNT: &'static str = "SELECT COUNT(*) FROM saved_units";

/// What the database holds of a unit.
#[derive(Debug)]
pub struct MetadataRow {
    pub unit_hash: String,
    pub resolved_target: String,
    pub glibc_major: Option<u32>,
    pub glibc_minor: Option<u32>,
    pub glibc_patch: Option<u32>,
    /// The unit, as JSON.
    pub data: String,
}

/// The glibc that a row says its unit was built against.
pub open spec fn version_in(row: MetadataRow) -> Option<GLIBCVersion> {
    match (row.glibc_major, row.glibc_minor, row.glibc_patch) {
        (Some(major), Some(minor), Some(patch)) => Some(GLIBCVersion { major, minor, patch }),
        _ => None,
    }
}

/// The unit hashes and the data of the rows whose units can be restored on a host, in
/// order.
pub open spec fn restorable(rows: Seq<MetadataRow>, host: Option<GLIBCVersion>) -> Seq<
    (Seq<char>, Seq<char>),
>
    decreases rows.len(),
{
    if rows.len() == 0 {
        Seq::empty()
    } else {
        let before = restorable(rows.drop_last(), host);
        let row = rows.last();
        if glibc::is_compatible(version_in(row), host) {
            before.push((row.unit_hash@, row.data@))
        } else {
            before
        }
    }
}

/// Pairs of texts in terms of characters.
pub open spec fn pair_views(pairs: Seq<(String, String)>) -> Seq<(Seq<char>, Seq<char>)> {
    Seq::new(pairs.len(), |i: int| (pairs[i].0@, pairs[i].1@))
}

/// A question mark for each of some values.
pub open spec fn question_marks(n: nat) -> Seq<Seq<char>> {
    Seq::new(n, |i: int| "?"@)
}

/// The database of what units there are.
#[derive(Debug)]
pub struct LocalMetadata;

impl LocalMetadata {
    /// The row for a unit.
    pub fn row(
        unit_hash: &str,
        resolved_target: &str,
        glibc_version: Option<GLIBCVersion>,
        data: &str,
    ) -> (r: MetadataRow)
        ensures
            r.unit_hash@ == unit_hash@,
            r.resolved_target@ == resolved_target@,
            r.data@ == data@,
            version_in(r) == glibc_version,
            glibc_version is None ==> r.glibc_major is None && r.glibc_minor is None
                && r.glibc_patch is None,
    {
        let (glibc_major, glibc_minor, glibc_patch) = match glibc_version {
            Some(v) => (Some(v.major), Some(v.minor), Some(v.patch)),
            None => (None, None, None),
        };
        MetadataRow {
            unit_hash: text::copy(unit_hash),
            resolved_target: text::copy(resolved_target),
            glibc_major,
            glibc_minor,
            glibc_patch,
            data: text::copy(data),
        }
    }

    /// The query for the rows of some units, given their number. Nothing is asked
    /// for no units.
    pub fn restore_query(units: usize) -> (r: Option<String>)
        ensures
            match r {
                Some(q) => units > 0 && q@
                    == "SELECT unit_hash, glibc_major, glibc_minor, glibc_patch, data FROM saved_units WHERE unit_hash IN ("@
                    + text::joined(question_marks(units as nat), ", "@) + ")"@,
                None => units == 0,
            },
    {
        if units == 0 {
            return None;
        }
        let mut marks: Vec<String> = Vec::new();
        let mut i: usize = 0;
        while i < units
            invariant
                i <= units,
                text::views(marks@) == question_marks(i as nat),
            decreases units - i,
        {
            let ghost before = text::views(marks@);
            marks.push(text::copy("?"));
            assert(text::views(marks@) =~= before.push("?"@));
            assert(before.push("?"@) =~= question_marks((i + 1) as nat));
            i += 1;
        }
        Some(
            text::concat3(
                "SELECT unit_hash, glibc_major, glibc_minor, glibc_patch, data FROM saved_units WHERE unit_hash IN (",
                text::join(&marks, ", ").as_str(),
                ")",
            ),
        )
    }

    /// The unit hashes and the data of those rows whose units can be restored on a
    /// host: units that were built against a newer glibc are left out.
    pub fn restore(rows: &Vec<MetadataRow>, host: &Option<GLIBCVersion>) -> (r: Vec<
        (String, String),
    >)
        ensures
            pair_views(r@) == restorable(rows@, *host),
    {
        let ghost all = rows@;
        let mut r: Vec<(String, String)> = Vec::new();
        let mut i: usize = 0;
        assert(pair_views(r@) =~= restorable(all.take(0), *host));
        while i < rows.len()
            invariant
                i <= rows.len(),
                all == rows@,
                pair_views(r@) == restorable(all.take(i as int), *host),
            decreases rows.len() - i,
        {
            let ghost before = pair_views(r@);
            proof {
                assert(all.take(i + 1).drop_last() =~= all.take(i as int));
                assert(all.take(i + 1).last() == all[i as int]);
            }
            let row: &MetadataRow = &rows[i];
            let version: Option<GLIBCVersion> = match (
                row.glibc_major,
                row.glibc_minor,
                row.glibc_patch,
            ) {
                (Some(major), Some(minor), Some(patch)) => Some(
                    GLIBCVersion { major, minor, patch },
                ),
                _ => None,
            };
            assert(version == version_in(*row));
            if glibc::compatible(&version, host) {
                r.push((row.unit_hash.clone(), row.data.clone()));
                assert(pair_views(r@) =~= before.push((row.unit_hash@, row.data@)));
            }
            i += 1;
        }
        assert(all.take(rows.len() as int) =~= all);
        r
    }
}

/// A unit that was saved is restored on every host whose glibc is not older than that
/// which it was built against, and on no other.
pub proof fn law_saved_unit_is_restored(row: MetadataRow, host: GLIBCVersion)
    ensures
        ({
            let found = restorable(seq![row], Some(host));
            if version_in(row) is Some && glibc::is_older(host, version_in(row)->0) {
                found.len() == 0
            } else {
                found == seq![(row.unit_hash@, row.data@)]
            }
        }),
{
    let rows = seq![row];
    assert(rows.drop_last() =~= Seq::empty());
    assert(rows.last() == row);
    reveal_with_fuel(restorable, 2);
    assert(Seq::<(Seq<char>, Seq<char>)>::empty().push((row.unit_hash@, row.data@)) =~= seq![
        (row.unit_hash@, row.data@),
    ]);
}

/// Where the glibc of the host is not known, no unit is left out.
pub proof fn law_unknown_host_restores_all(rows: Seq<MetadataRow>)
    ensures
        restorable(rows, None) == Seq::new(
            rows.len(),
            |i: int| (rows[i].unit_hash@, rows[i].data@),
        ),
    decreases rows.len(),
{
    if rows.len() > 0 {
        law_unknown_host_restores_all(rows.drop_last());
    }
    assert(restorable(rows, None) =~= Seq::new(
        rows.len(),
        |i: int| (rows[i].unit_hash@, rows[i].data@),
    ));
}

proof fn lemma_restorable_is_filtered(
    rows: Seq<MetadataRow>,
    host: Option<GLIBCVersion>,
    keep: spec_fn(MetadataRow) -> bool,
    found: spec_fn(MetadataRow) -> (Seq<char>, Seq<char>),
)
    requires
        forall|row: MetadataRow| #[trigger]
            keep(row) == glibc::is_compatible(version_in(row), host),
        forall|row: MetadataRow| #[trigger] found(row) == (row.unit_hash@, row.data@),
    ensures
        restorable(rows, host) == rows.filter(keep).map_values(found),
    decreases rows.len(),
{
    reveal(Seq::filter);
    if rows.len() > 0 {
        let front = rows.drop_last();
        lemma_restorable_is_filtered(front, host, keep, found);
        let row = rows.last();
        if keep(row) {
            assert(front.filter(keep).push(row).map_values(found) =~= front.filter(keep).map_values(
                found,
            ).push(found(row)));
        }
    }
    assert(restorable(rows, host) =~= rows.filter(keep).map_values(found));
}

/// What is restored are the rows, in their order, of units that were built against a
/// glibc that is not newer than that of the host: with a greater major number, or the same
/// and a greater minor number, or both the same and a greater patch, a unit is left out. A
/// row that lacks one of the three numbers says nothing of glibc.
pub proof fn law_rows_for_a_host(rows: Seq<MetadataRow>, host: GLIBCVersion)
    ensures
        restorable(rows, Some(host)) == rows.filter(
            |row: MetadataRow|
                match (row.glibc_major, row.glibc_minor, row.glibc_patch) {
                    (Some(major), Some(minor), Some(patch)) => {
                        ||| major < host.major
                        ||| major == host.major && minor < host.minor
                        ||| major == host.major && minor == host.minor && patch <= host.patch
                    },
                    _ => true,
                },
        ).map_values(|row: MetadataRow| (row.unit_hash@, row.data@)),
{
    lemma_restorable_is_filtered(
        rows,
        Some(host),
        |row: MetadataRow|
            match (row.glibc_major, row.glibc_minor, row.glibc_patch) {
                (Some(major), Some(minor), Some(patch)) => {
                    ||| major < host.major
                    ||| major == host.major && minor < host.minor
                    ||| major == host.major && minor == host.minor && patch <= host.patch
                },
                _ => true,
            },
        |row: MetadataRow| (row.unit_hash@, row.data@),
    );
}

/// A query asks for as many units as there are question marks in it.
pub proof fn law_one_question_mark_for_each_unit(n: nat)
    ensures
        question_marks(n).len() == n,
        forall|i: int| 0 <= i < n ==> #[trigger] question_marks(n)[i] == "?"@,
{
}

} // verus!
