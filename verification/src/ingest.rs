//! Ingestion of raw rows: field parsing and normalization into records,
//! and the keep-first deduplication over the whole input.

use vstd::prelude::*;

use crate::normalize::spec_title_case;
use crate::normalize::title_case;
use crate::numbers::is_decimal;
use crate::numbers::is_decimal_text;
use crate::numbers::parse_u64;
use crate::numbers::spec_dec_value;
use crate::numbers::valid_u64_text;
use crate::record::Record;
use crate::record::RecordModel;
use crate::record::Type;
use crate::text::str_eq;

verus! {

/// One raw row of the source table, by column. Every cell is kept as text;
/// an empty cell of an optional column stands for an absent value.
pub struct RawRow {
    pub zip_code: String,
    pub zip_code_type: String,
    pub city: String,
    pub state: String,
    pub latitude: String,
    pub longitude: String,
    pub location: String,
    pub is_decommissioned: String,
    pub tax_returns_filed: String,
    pub estimated_population: String,
    pub total_wages: String,
}

/// The model of a raw row: each cell as its character sequence.
pub struct RawRowModel {
    pub zip_code: Seq<char>,
    pub zip_code_type: Seq<char>,
    pub city: Seq<char>,
    pub state: Seq<char>,
    pub latitude: Seq<char>,
    pub longitude: Seq<char>,
    pub location: Seq<char>,
    pub is_decommissioned: Seq<char>,
    pub tax_returns_filed: Seq<char>,
    pub estimated_population: Seq<char>,
    pub total_wages: Seq<char>,
}

impl View for RawRow {
    type V = RawRowModel;

    open spec fn view(&self) -> RawRowModel {
        RawRowModel {
            zip_code: self.zip_code@,
            zip_code_type: self.zip_code_type@,
            city: self.city@,
            state: self.state@,
            latitude: self.latitude@,
            longitude: self.longitude@,
            location: self.location@,
            is_decommissioned: self.is_decommissioned@,
            tax_returns_filed: self.tax_returns_filed@,
            estimated_population: self.estimated_population@,
            total_wages: self.total_wages@,
        }
    }
}

/// A fatal fault of the input data: table construction stops on the first
/// one found.
#[derive(Clone, Copy, PartialEq, Eq, Structural, Debug)]
pub enum BuildError {
    /// A non-empty cell of a numeric column that is not a number.
    InvalidNumber,
    /// A ZIP-type token outside the closed enumeration.
    UnrecognizedZipType,
    /// A decommission cell that is neither `true` nor `false`.
    InvalidBoolean,
    /// A line that cannot be split into fields: a quoted field left open,
    /// or a stray character after a closing quote.
    MalformedRow,
    /// A data line with a different number of fields than the header.
    RaggedRow,
    /// A header without one of the required columns.
    MissingColumn,
}

/// The ZIP type of a raw token; tokens outside the closed enumeration
/// have none.
pub open spec fn spec_parse_type(s: Seq<char>) -> Option<Type> {
    if s == "STANDARD"@ {
        Some(Type::Standard)
    } else if s == "PO BOX"@ {
        Some(Type::PoBox)
    } else if s == "UNIQUE"@ {
        Some(Type::Unique)
    } else if s == "MILITARY"@ {
        Some(Type::Military)
    } else {
        None
    }
}

/// Maps a raw ZIP-type token to the closed enumeration; an unrecognized
/// token is a fatal construction error.
pub fn parse_type(s: &str) -> (r: Result<Type, BuildError>)
    ensures
        r matches Ok(t) ==> spec_parse_type(s@) == Some(t),
        r is Err ==> spec_parse_type(s@) is None && r == Err::<Type, BuildError>(
            BuildError::UnrecognizedZipType,
        ),
{
    if str_eq(s, "STANDARD") {
        Ok(Type::Standard)
    } else if str_eq(s, "PO BOX") {
        Ok(Type::PoBox)
    } else if str_eq(s, "UNIQUE") {
        Ok(Type::Unique)
    } else if str_eq(s, "MILITARY") {
        Ok(Type::Military)
    } else {
        Err(BuildError::UnrecognizedZipType)
    }
}

/// True when the cell is acceptable for an optional integer column:
/// empty, or a decimal number that fits in a `u64`.
pub open spec fn ok_opt_u64(s: Seq<char>) -> bool {
    s.len() == 0 || valid_u64_text(s)
}

/// The stored value of an optional integer cell: an empty cell is an
/// absent value, not an error.
pub open spec fn spec_opt_u64(s: Seq<char>) -> Option<u64> {
    if s.len() == 0 {
        None
    } else {
        Some(spec_dec_value(s) as u64)
    }
}

/// Parses an optional integer cell: empty gives an absent value, a decimal
/// number gives its value, anything else is a fatal construction error.
pub fn parse_opt_u64(s: &str) -> (r: Result<Option<u64>, BuildError>)
    ensures
        r matches Ok(v) ==> ok_opt_u64(s@) && v == spec_opt_u64(s@),
        r is Err ==> !ok_opt_u64(s@) && r == Err::<Option<u64>, BuildError>(
            BuildError::InvalidNumber,
        ),
{
    if s.is_empty() {
        Ok(None)
    } else {
        match parse_u64(s) {
            Some(v) => Ok(Some(v)),
            None => Err(BuildError::InvalidNumber),
        }
    }
}

/// True when the cell is acceptable for an optional coordinate column:
/// empty, or shaped as a signed decimal number.
pub open spec fn ok_coordinate(s: Seq<char>) -> bool {
    s.len() == 0 || is_decimal_text(s)
}

/// Checks an optional coordinate cell; a non-empty cell that is not a
/// decimal number is a fatal construction error.
pub fn check_coordinate(s: &str) -> (r: Result<(), BuildError>)
    ensures
        r is Ok <==> ok_coordinate(s@),
        r is Err ==> r == Err::<(), BuildError>(BuildError::InvalidNumber),
{
    if s.is_empty() || is_decimal(s) {
        Ok(())
    } else {
        Err(BuildError::InvalidNumber)
    }
}

/// The record a raw row yields, or the first fault found in it. The cells
/// are examined in this order: the numeric columns (latitude, longitude,
/// the three integer columns), the ZIP-type token, the decommission flag.
pub open spec fn spec_parse_row(r: RawRowModel) -> Result<RecordModel, BuildError> {
    if !ok_coordinate(r.latitude) {
        Err(BuildError::InvalidNumber)
    } else if !ok_coordinate(r.longitude) {
        Err(BuildError::InvalidNumber)
    } else if !ok_opt_u64(r.tax_returns_filed) {
        Err(BuildError::InvalidNumber)
    } else if !ok_opt_u64(r.estimated_population) {
        Err(BuildError::InvalidNumber)
    } else if !ok_opt_u64(r.total_wages) {
        Err(BuildError::InvalidNumber)
    } else if spec_parse_type(r.zip_code_type) is None {
        Err(BuildError::UnrecognizedZipType)
    } else if r.is_decommissioned != "true"@ && r.is_decommissioned != "false"@ {
        Err(BuildError::InvalidBoolean)
    } else {
        Ok(
            RecordModel {
                zip_code: r.zip_code,
                zip_code_type: spec_parse_type(r.zip_code_type)->Some_0,
                city: spec_title_case(r.city),
                state: r.state,
                coordinates: if r.latitude.len() > 0 && r.longitude.len() > 0 {
                    Some((r.latitude, r.longitude))
                } else {
                    None
                },
                is_decommissioned: r.is_decommissioned == "true"@,
                tax_returns_filed: spec_opt_u64(r.tax_returns_filed),
                estimated_population: spec_opt_u64(r.estimated_population),
                total_wages: spec_opt_u64(r.total_wages),
            },
        )
    }
}

/// Normalizes and validates one raw row into a record: the city is
/// title-cased, the ZIP type classified, numeric cells parsed with empty
/// cells as absent values, and the coordinates kept only when both cells
/// are present.
pub fn parse_row(row: &RawRow) -> (r: Result<Record, BuildError>)
    ensures
        r matches Ok(rec) ==> spec_parse_row(row@) == Ok::<RecordModel, BuildError>(rec@),
        r matches Err(e) ==> spec_parse_row(row@) == Err::<RecordModel, BuildError>(e),
{
    check_coordinate(row.latitude.as_str())?;
    check_coordinate(row.longitude.as_str())?;
    let tax_returns_filed = parse_opt_u64(row.tax_returns_filed.as_str())?;
    let estimated_population = parse_opt_u64(row.estimated_population.as_str())?;
    let total_wages = parse_opt_u64(row.total_wages.as_str())?;
    let zip_code_type = parse_type(row.zip_code_type.as_str())?;
    let is_decommissioned = if str_eq(row.is_decommissioned.as_str(), "true") {
        true
    } else if str_eq(row.is_decommissioned.as_str(), "false") {
        false
    } else {
        return Err(BuildError::InvalidBoolean);
    };
    let coordinates = if !row.latitude.as_str().is_empty() && !row.longitude.as_str().is_empty() {
        Some((row.latitude.clone(), row.longitude.clone()))
    } else {
        None
    };
    Ok(
        Record {
            zip_code: row.zip_code.clone(),
            zip_code_type,
            city: title_case(row.city.as_str()),
            state: row.state.clone(),
            coordinates,
            is_decommissioned,
            tax_returns_filed,
            estimated_population,
            total_wages,
        },
    )
}

/// The models of a sequence of raw rows.
pub open spec fn rows_model(rows: Seq<RawRow>) -> Seq<RawRowModel> {
    rows.map_values(|r: RawRow| r@)
}

/// True when some record of the sequence carries the given ZIP code.
pub open spec fn has_zip(recs: Seq<RecordModel>, z: Seq<char>) -> bool {
    exists|i: int| 0 <= i < recs.len() && (#[trigger] recs[i]).zip_code == z
}

/// The deduplicated record sequence of the input rows, or the first fault.
/// Rows are parsed in order; a row whose ZIP code was already accepted is
/// discarded in full, so the first row seen for a ZIP code is
/// authoritative.
pub open spec fn spec_ingest(rows: Seq<RawRowModel>) -> Result<Seq<RecordModel>, BuildError>
    decreases rows.len(),
{
    if rows.len() == 0 {
        Ok(Seq::empty())
    } else {
        match spec_ingest(rows.drop_last()) {
            Ok(recs) => match spec_parse_row(rows.last()) {
                Ok(rec) => if has_zip(recs, rec.zip_code) {
                    Ok(recs)
                } else {
                    Ok(recs.push(rec))
                },
                Err(e) => Err(e),
            },
            Err(e) => Err(e),
        }
    }
}

/// The primary map of a record sequence: each record keyed by its ZIP code.
pub open spec fn spec_zip_map(recs: Seq<RecordModel>) -> Map<Seq<char>, RecordModel>
    decreases recs.len(),
{
    if recs.len() == 0 {
        Map::empty()
    } else {
        spec_zip_map(recs.drop_last()).insert(recs.last().zip_code, recs.last())
    }
}

/// A ZIP code is a key of the primary map exactly when some record
/// carries it.
pub proof fn lemma_zip_map_domain(recs: Seq<RecordModel>, z: Seq<char>)
    ensures
        spec_zip_map(recs).contains_key(z) <==> has_zip(recs, z),
    decreases recs.len(),
{
    if recs.len() == 0 {
    } else {
        let d = recs.drop_last();
        lemma_zip_map_domain(d, z);
        if has_zip(d, z) {
            let i = choose|i: int| 0 <= i < d.len() && (#[trigger] d[i]).zip_code == z;
            assert(recs[i].zip_code == z);
        }
        if recs.last().zip_code == z {
            assert(recs[recs.len() - 1].zip_code == z);
        }
        if has_zip(recs, z) {
            let i = choose|i: int| 0 <= i < recs.len() && (#[trigger] recs[i]).zip_code == z;
            if i < recs.len() - 1 {
                assert(d[i].zip_code == z);
            }
        }
    }
}

/// No two records of the sequence share a ZIP code.
pub open spec fn unique_zips(recs: Seq<RecordModel>) -> bool {
    forall|i: int, j: int|
        0 <= i < j < recs.len() ==> (#[trigger] recs[i]).zip_code != (#[trigger] recs[j]).zip_code
}

/// Exactly one record per distinct ZIP code: the keep-first policy leaves
/// no two accepted records sharing one.
pub proof fn lemma_ingest_unique(rows: Seq<RawRowModel>)
    requires
        spec_ingest(rows) is Ok,
    ensures
        unique_zips(spec_ingest(rows)->Ok_0),
    decreases rows.len(),
{
    if rows.len() == 0 {
    } else {
        let d = rows.drop_last();
        lemma_ingest_unique(d);
        let prefix = spec_ingest(d)->Ok_0;
        let rec = spec_parse_row(rows.last())->Ok_0;
        let recs = spec_ingest(rows)->Ok_0;
        if !has_zip(prefix, rec.zip_code) {
            assert(recs == prefix.push(rec));
            assert forall|i: int, j: int| 0 <= i < j < recs.len() implies (#[trigger] recs[i]).zip_code
                != (#[trigger] recs[j]).zip_code by {
                assert(recs[i] == prefix[i]);
                if j == recs.len() - 1 {
                    assert(!(0 <= i < prefix.len() && prefix[i].zip_code == rec.zip_code));
                } else {
                    assert(recs[j] == prefix[j]);
                }
            }
        } else {
            assert(recs == prefix);
        }
    }
}

/// The primary map stores every record under its own ZIP code.
pub proof fn lemma_zip_map_self_keyed(recs: Seq<RecordModel>, z: Seq<char>)
    requires
        spec_zip_map(recs).contains_key(z),
    ensures
        spec_zip_map(recs)[z].zip_code == z,
    decreases recs.len(),
{
    if recs.len() == 0 {
    } else {
        if recs.last().zip_code != z {
            lemma_zip_map_self_keyed(recs.drop_last(), z);
        }
    }
}

/// Every accepted record comes from some input row, whose ZIP cell it
/// carries.
pub proof fn lemma_ingest_zips_from_rows(rows: Seq<RawRowModel>, z: Seq<char>)
    requires
        spec_ingest(rows) is Ok,
        has_zip(spec_ingest(rows)->Ok_0, z),
    ensures
        exists|j: int| 0 <= j < rows.len() && (#[trigger] rows[j]).zip_code == z,
    decreases rows.len(),
{
    let recs = spec_ingest(rows)->Ok_0;
    if rows.len() == 0 {
    } else {
        let d = rows.drop_last();
        let prefix = spec_ingest(d)->Ok_0;
        let rec = spec_parse_row(rows.last())->Ok_0;
        assert(rec.zip_code == rows.last().zip_code);
        if has_zip(prefix, z) {
            lemma_ingest_zips_from_rows(d, z);
            let j = choose|j: int| 0 <= j < d.len() && (#[trigger] d[j]).zip_code == z;
            assert(rows[j].zip_code == z);
        } else {
            // the witness can only be the pushed record of the last row
            let i = choose|i: int| 0 <= i < recs.len() && (#[trigger] recs[i]).zip_code == z;
            if recs == prefix.push(rec) && i == recs.len() - 1 {
                assert(rows[rows.len() - 1].zip_code == z);
            } else {
                assert(prefix[i].zip_code == z);
            }
        }
    }
}

/// The first row seen for a ZIP code is authoritative: when no earlier row
/// carries the same ZIP code, the primary map holds exactly that row's
/// parsed record under it, whatever later rows hold.
pub proof fn lemma_first_row_wins(rows: Seq<RawRowModel>, i: int)
    requires
        spec_ingest(rows) is Ok,
        0 <= i < rows.len(),
        forall|j: int| 0 <= j < i ==> (#[trigger] rows[j]).zip_code != rows[i].zip_code,
    ensures
        spec_parse_row(rows[i]) is Ok,
        spec_zip_map(spec_ingest(rows)->Ok_0).contains_key(rows[i].zip_code),
        spec_zip_map(spec_ingest(rows)->Ok_0)[rows[i].zip_code] == spec_parse_row(rows[i])->Ok_0,
    decreases rows.len(),
{
    let recs = spec_ingest(rows)->Ok_0;
    let z = rows[i].zip_code;
    let d = rows.drop_last();
    let prefix = spec_ingest(d)->Ok_0;
    let rec = spec_parse_row(rows.last())->Ok_0;
    assert(rec.zip_code == rows.last().zip_code);
    if i == rows.len() - 1 {
        // no earlier row carries this ZIP code, so no accepted record does
        if has_zip(prefix, z) {
            lemma_ingest_zips_from_rows(d, z);
            let j = choose|j: int| 0 <= j < d.len() && (#[trigger] d[j]).zip_code == z;
            assert(rows[j].zip_code == z);
            assert(false);
        }
        assert(recs == prefix.push(rec));
        assert(recs.drop_last() =~= prefix);
        assert(recs.last() == rec);
        assert(spec_zip_map(recs) == spec_zip_map(prefix).insert(z, rec));
    } else {
        assert(d[i] == rows[i]);
        lemma_first_row_wins(d, i);
        if !has_zip(prefix, rec.zip_code) {
            // the last row appends a record of a different ZIP code
            lemma_zip_map_domain(prefix, z);
            assert(rec.zip_code != z);
            assert(recs == prefix.push(rec));
            assert(recs.drop_last() =~= prefix);
            assert(recs.last() == rec);
            assert(spec_zip_map(recs) == spec_zip_map(prefix).insert(rec.zip_code, rec));
        } else {
            assert(recs == prefix);
        }
    }
}

/// A later duplicate is invisible: appending a row whose ZIP code was
/// already accepted leaves the record set unchanged, even where its other
/// cells disagree with the accepted ones.
pub proof fn lemma_duplicate_invisible(rows: Seq<RawRowModel>, extra: RawRowModel)
    requires
        spec_ingest(rows) is Ok,
        spec_parse_row(extra) is Ok,
        has_zip(spec_ingest(rows)->Ok_0, extra.zip_code),
    ensures
        spec_ingest(rows.push(extra)) == spec_ingest(rows),
{
    assert(rows.push(extra).drop_last() =~= rows);
    assert(rows.push(extra).last() == extra);
    assert(spec_parse_row(extra)->Ok_0.zip_code == extra.zip_code);
}

} // verus!
