//! The delimited tabular input: comma-separated lines with double-quoted
//! fields, a header row naming the columns, and one raw row per data line.

use vstd::prelude::*;

use crate::ingest::BuildError;
use crate::ingest::RawRow;
use crate::ingest::RawRowModel;
use crate::ingest::rows_model;
use crate::text::push_char;
use crate::text::str_eq;

verus! {

/// Where the field splitter stands within a line.
#[derive(Clone, Copy, PartialEq, Eq, Structural, Debug)]
pub enum SplitMode {
    /// In a plain field, or before its first character.
    Plain,
    /// Inside a double-quoted field.
    Quoted,
    /// Just past the closing quote of a quoted field.
    Closed,
    /// The line cannot be split: a stray character after a closing quote.
    Bad,
}

/// The state of the field splitter: the fields already ended, the field
/// being collected, and where the splitter stands.
pub struct SplitState {
    pub fields: Seq<Seq<char>>,
    pub cur: Seq<char>,
    pub mode: SplitMode,
}

/// The splitter's state at the start of a line.
pub open spec fn split_init() -> SplitState {
    SplitState { fields: Seq::empty(), cur: Seq::empty(), mode: SplitMode::Plain }
}

/// One step of the field splitter. A comma ends a field; a double quote
/// opening an empty field starts a quoted field, inside which `""` spells
/// one quote; anything but a comma or a quote after a closing quote
/// spoils the line.
pub open spec fn split_step(st: SplitState, c: char) -> SplitState {
    match st.mode {
        SplitMode::Plain => if c == ',' {
            SplitState { fields: st.fields.push(st.cur), cur: Seq::empty(), mode: SplitMode::Plain }
        } else if c == '"' && st.cur.len() == 0 {
            SplitState { fields: st.fields, cur: st.cur, mode: SplitMode::Quoted }
        } else {
            SplitState { fields: st.fields, cur: st.cur.push(c), mode: SplitMode::Plain }
        },
        SplitMode::Quoted => if c == '"' {
            SplitState { fields: st.fields, cur: st.cur, mode: SplitMode::Closed }
        } else {
            SplitState { fields: st.fields, cur: st.cur.push(c), mode: SplitMode::Quoted }
        },
        SplitMode::Closed => if c == ',' {
            SplitState { fields: st.fields.push(st.cur), cur: Seq::empty(), mode: SplitMode::Plain }
        } else if c == '"' {
            SplitState { fields: st.fields, cur: st.cur.push('"'), mode: SplitMode::Quoted }
        } else {
            SplitState { fields: st.fields, cur: st.cur, mode: SplitMode::Bad }
        },
        SplitMode::Bad => st,
    }
}

/// The splitter's state after reading the whole line.
pub open spec fn split_fold(s: Seq<char>) -> SplitState
    decreases s.len(),
{
    if s.len() == 0 {
        split_init()
    } else {
        split_step(split_fold(s.drop_last()), s.last())
    }
}

/// The fields of one line, or nothing where the line is malformed: a
/// quoted field left open, or a stray character after a closing quote.
pub open spec fn spec_split_line(s: Seq<char>) -> Option<Seq<Seq<char>>> {
    match split_fold(s).mode {
        SplitMode::Plain => Some(split_fold(s).fields.push(split_fold(s).cur)),
        SplitMode::Closed => Some(split_fold(s).fields.push(split_fold(s).cur)),
        _ => None,
    }
}

/// A spoiled line stays spoiled: once the splitter is stuck on a prefix,
/// the whole line splits to nothing.
proof fn lemma_split_bad_persists(s: Seq<char>, i: int)
    requires
        0 <= i <= s.len(),
        split_fold(s.subrange(0, i)).mode == SplitMode::Bad,
    ensures
        split_fold(s).mode == SplitMode::Bad,
    decreases s.len() - i,
{
    if i == s.len() {
        assert(s.subrange(0, i) =~= s);
    } else {
        assert(s.subrange(0, i + 1).drop_last() =~= s.subrange(0, i));
        lemma_split_bad_persists(s, i + 1);
    }
}

/// Splits one line into its comma-separated fields, honouring double
/// quotes; a malformed line is rejected.
pub fn split_line(s: &str) -> (r: Option<Vec<String>>)
    ensures
        match r {
            Some(v) => spec_split_line(s@) == Some(v@.map_values(|t: String| t@)),
            None => spec_split_line(s@) is None,
        },
{
    let n = s.unicode_len();
    let mut fields: Vec<String> = Vec::new();
    let mut cur = String::new();
    let mut mode = SplitMode::Plain;
    let mut i: usize = 0;
    proof {
        assert(s@.subrange(0, 0) =~= Seq::<char>::empty());
        assert(fields@.map_values(|t: String| t@) =~= Seq::<Seq<char>>::empty());
    }
    while i < n
        invariant
            i <= n,
            n == s@.len(),
            mode != SplitMode::Bad,
            split_fold(s@.subrange(0, i as int)) == (SplitState {
                fields: fields@.map_values(|t: String| t@),
                cur: cur@,
                mode: mode,
            }),
        decreases n - i,
    {
        let c = s.get_char(i);
        let ghost pre = split_fold(s@.subrange(0, i as int));
        proof {
            assert(s@.subrange(0, i as int + 1).drop_last() =~= s@.subrange(0, i as int));
            assert(s@.subrange(0, i as int + 1).last() == s@[i as int]);
        }
        match mode {
            SplitMode::Plain => {
                if c == ',' {
                    fields.push(cur);
                    cur = String::new();
                    proof {
                        assert(fields@.map_values(|t: String| t@) =~= pre.fields.push(pre.cur));
                    }
                } else if c == '"' && cur.as_str().is_empty() {
                    mode = SplitMode::Quoted;
                } else {
                    push_char(&mut cur, c);
                }
            },
            SplitMode::Quoted => {
                if c == '"' {
                    mode = SplitMode::Closed;
                } else {
                    push_char(&mut cur, c);
                }
            },
            _ => {
                if c == ',' {
                    fields.push(cur);
                    cur = String::new();
                    mode = SplitMode::Plain;
                    proof {
                        assert(fields@.map_values(|t: String| t@) =~= pre.fields.push(pre.cur));
                    }
                } else if c == '"' {
                    push_char(&mut cur, '"');
                    mode = SplitMode::Quoted;
                } else {
                    proof {
                        assert(split_fold(s@.subrange(0, i as int + 1)).mode == SplitMode::Bad);
                        lemma_split_bad_persists(s@, i as int + 1);
                    }
                    return None;
                }
            },
        }
        i = i + 1;
    }
    proof {
        assert(s@.subrange(0, n as int) =~= s@);
    }
    match mode {
        SplitMode::Quoted => None,
        _ => {
            fields.push(cur);
            proof {
                assert(fields@.map_values(|t: String| t@) =~= split_fold(s@).fields.push(
                    split_fold(s@).cur,
                ));
            }
            Some(fields)
        },
    }
}

/// The position of the first header field spelling the name, looking from
/// the given one on.
pub open spec fn spec_find_from(hs: Seq<Seq<char>>, name: Seq<char>, i: int) -> Option<int>
    decreases hs.len() - i,
{
    if i < 0 || i >= hs.len() {
        None
    } else if hs[i] == name {
        Some(i)
    } else {
        spec_find_from(hs, name, i + 1)
    }
}

/// The position of the column with the given name: the first header field
/// spelling it.
pub open spec fn spec_find_col(hs: Seq<Seq<char>>, name: Seq<char>) -> Option<int> {
    spec_find_from(hs, name, 0)
}

/// Finds the column with the given name among the header fields.
pub fn find_col(headers: &Vec<String>, name: &str) -> (r: Option<usize>)
    ensures
        match r {
            Some(i) => i < headers@.len() && spec_find_col(
                headers@.map_values(|t: String| t@),
                name@,
            ) == Some(i as int),
            None => spec_find_col(headers@.map_values(|t: String| t@), name@) is None,
        },
{
    let ghost hs = headers@.map_values(|t: String| t@);
    let n = headers.len();
    let mut i: usize = 0;
    while i < n
        invariant
            i <= n,
            n == headers@.len(),
            hs == headers@.map_values(|t: String| t@),
            spec_find_from(hs, name@, 0) == spec_find_from(hs, name@, i as int),
        decreases n - i,
    {
        if str_eq(headers[i].as_str(), name) {
            return Some(i);
        }
        i = i + 1;
    }
    None
}

/// The field of the named column in one split row.
pub open spec fn col_field(fs: Seq<Seq<char>>, hs: Seq<Seq<char>>, name: Seq<char>) -> Seq<char> {
    fs[spec_find_col(hs, name)->Some_0]
}

/// True when the header names every required column.
pub open spec fn cols_present(hs: Seq<Seq<char>>) -> bool {
    &&& spec_find_col(hs, "Zipcode"@) is Some
    &&& spec_find_col(hs, "ZipCodeType"@) is Some
    &&& spec_find_col(hs, "City"@) is Some
    &&& spec_find_col(hs, "State"@) is Some
    &&& spec_find_col(hs, "Lat"@) is Some
    &&& spec_find_col(hs, "Long"@) is Some
    &&& spec_find_col(hs, "Location"@) is Some
    &&& spec_find_col(hs, "Decommisioned"@) is Some
    &&& spec_find_col(hs, "TaxReturnsFiled"@) is Some
    &&& spec_find_col(hs, "EstimatedPopulation"@) is Some
    &&& spec_find_col(hs, "TotalWages"@) is Some
}

/// The raw row spelled by one split data line, each cell taken from the
/// column the header names for it.
pub open spec fn row_from_fields(fs: Seq<Seq<char>>, hs: Seq<Seq<char>>) -> RawRowModel {
    RawRowModel {
        zip_code: col_field(fs, hs, "Zipcode"@),
        zip_code_type: col_field(fs, hs, "ZipCodeType"@),
        city: col_field(fs, hs, "City"@),
        state: col_field(fs, hs, "State"@),
        latitude: col_field(fs, hs, "Lat"@),
        longitude: col_field(fs, hs, "Long"@),
        location: col_field(fs, hs, "Location"@),
        is_decommissioned: col_field(fs, hs, "Decommisioned"@),
        tax_returns_filed: col_field(fs, hs, "TaxReturnsFiled"@),
        estimated_population: col_field(fs, hs, "EstimatedPopulation"@),
        total_wages: col_field(fs, hs, "TotalWages"@),
    }
}

/// The raw rows of the data lines from the given one on, or the first
/// fault: a line that cannot be split, or one whose field count differs
/// from the header's.
pub open spec fn spec_parse_body(lines: Seq<Seq<char>>, hs: Seq<Seq<char>>, t: int) -> Result<
    Seq<RawRowModel>,
    BuildError,
>
    decreases lines.len() - t,
{
    if t < 1 || t >= lines.len() {
        Ok(Seq::empty())
    } else {
        match spec_split_line(lines[t]) {
            None => Err(BuildError::MalformedRow),
            Some(fs) => if fs.len() != hs.len() {
                Err(BuildError::RaggedRow)
            } else {
                match spec_parse_body(lines, hs, t + 1) {
                    Err(e) => Err(e),
                    Ok(rest) => Ok(seq![row_from_fields(fs, hs)] + rest),
                }
            },
        }
    }
}

/// The raw rows of a whole input: the first line is the header, which must
/// name every required column; each further line is one raw row. Column
/// order is irrelevant and extra columns are ignored. An input without
/// lines has no rows.
pub open spec fn spec_parse_table(lines: Seq<Seq<char>>) -> Result<Seq<RawRowModel>, BuildError> {
    if lines.len() == 0 {
        Ok(Seq::empty())
    } else {
        match spec_split_line(lines[0]) {
            None => Err(BuildError::MalformedRow),
            Some(hs) => if !cols_present(hs) {
                Err(BuildError::MissingColumn)
            } else {
                spec_parse_body(lines, hs, 1)
            },
        }
    }
}

/// Reads the whole delimited input into raw rows: the first line names the
/// columns, every further line yields one row, cells taken by column name.
pub fn parse_table(lines: &Vec<String>) -> (r: Result<Vec<RawRow>, BuildError>)
    ensures
        match r {
            Ok(rows) => spec_parse_table(lines@.map_values(|l: String| l@)) == Ok::<
                Seq<RawRowModel>,
                BuildError,
            >(rows_model(rows@)),
            Err(e) => spec_parse_table(lines@.map_values(|l: String| l@)) == Err::<
                Seq<RawRowModel>,
                BuildError,
            >(e),
        },
{
    let ghost lm = lines@.map_values(|l: String| l@);
    if lines.len() == 0 {
        let rows: Vec<RawRow> = Vec::new();
        proof {
            assert(rows_model(rows@) =~= Seq::<RawRowModel>::empty());
        }
        return Ok(rows);
    }
    let headers = match split_line(lines[0].as_str()) {
        Some(h) => h,
        None => {
            return Err(BuildError::MalformedRow);
        },
    };
    let ghost hs = headers@.map_values(|t: String| t@);
    let c_zip = find_col(&headers, "Zipcode");
    let c_type = find_col(&headers, "ZipCodeType");
    let c_city = find_col(&headers, "City");
    let c_state = find_col(&headers, "State");
    let c_lat = find_col(&headers, "Lat");
    let c_long = find_col(&headers, "Long");
    let c_loc = find_col(&headers, "Location");
    let c_dec = find_col(&headers, "Decommisioned");
    let c_tax = find_col(&headers, "TaxReturnsFiled");
    let c_pop = find_col(&headers, "EstimatedPopulation");
    let c_wage = find_col(&headers, "TotalWages");
    let (
        i_zip,
        i_type,
        i_city,
        i_state,
        i_lat,
        i_long,
        i_loc,
        i_dec,
        i_tax,
        i_pop,
        i_wage,
    ): (usize, usize, usize, usize, usize, usize, usize, usize, usize, usize, usize) = match (
        c_zip,
        c_type,
        c_city,
        c_state,
        c_lat,
        c_long,
        c_loc,
        c_dec,
        c_tax,
        c_pop,
        c_wage,
    ) {
        (
            Some(a),
            Some(b),
            Some(c),
            Some(d),
            Some(e),
            Some(f),
            Some(g),
            Some(h),
            Some(j),
            Some(k),
            Some(l),
        ) => (a, b, c, d, e, f, g, h, j, k, l),
        _ => {
            return Err(BuildError::MissingColumn);
        },
    };
    let nh = headers.len();
    let mut rows: Vec<RawRow> = Vec::new();
    let n = lines.len();
    let mut t: usize = 1;
    proof {
        assert(rows_model(rows@) =~= Seq::<RawRowModel>::empty());
    }
    while t < n
        invariant
            1 <= t <= n,
            n == lines@.len(),
            lm == lines@.map_values(|l: String| l@),
            lm.len() == n,
            hs == headers@.map_values(|x: String| x@),
            spec_split_line(lm[0]) == Some(hs),
            cols_present(hs),
            nh == hs.len(),
            spec_find_col(hs, "Zipcode"@) == Some(i_zip as int),
            spec_find_col(hs, "ZipCodeType"@) == Some(i_type as int),
            spec_find_col(hs, "City"@) == Some(i_city as int),
            spec_find_col(hs, "State"@) == Some(i_state as int),
            spec_find_col(hs, "Lat"@) == Some(i_lat as int),
            spec_find_col(hs, "Long"@) == Some(i_long as int),
            spec_find_col(hs, "Location"@) == Some(i_loc as int),
            spec_find_col(hs, "Decommisioned"@) == Some(i_dec as int),
            spec_find_col(hs, "TaxReturnsFiled"@) == Some(i_tax as int),
            spec_find_col(hs, "EstimatedPopulation"@) == Some(i_pop as int),
            spec_find_col(hs, "TotalWages"@) == Some(i_wage as int),
            i_zip < nh && i_type < nh && i_city < nh && i_state < nh && i_lat < nh,
            i_long < nh && i_loc < nh && i_dec < nh && i_tax < nh && i_pop < nh && i_wage < nh,
            spec_parse_table(lm) == (match spec_parse_body(lm, hs, t as int) {
                Ok(rest) => Ok::<Seq<RawRowModel>, BuildError>(rows_model(rows@) + rest),
                Err(e) => Err::<Seq<RawRowModel>, BuildError>(e),
            }),
        decreases n - t,
    {
        let fields = match split_line(lines[t].as_str()) {
            Some(f) => f,
            None => {
                return Err(BuildError::MalformedRow);
            },
        };
        let ghost fs = fields@.map_values(|x: String| x@);
        if fields.len() != nh {
            return Err(BuildError::RaggedRow);
        }
        let row = RawRow {
            zip_code: fields[i_zip].clone(),
            zip_code_type: fields[i_type].clone(),
            city: fields[i_city].clone(),
            state: fields[i_state].clone(),
            latitude: fields[i_lat].clone(),
            longitude: fields[i_long].clone(),
            location: fields[i_loc].clone(),
            is_decommissioned: fields[i_dec].clone(),
            tax_returns_filed: fields[i_tax].clone(),
            estimated_population: fields[i_pop].clone(),
            total_wages: fields[i_wage].clone(),
        };
        proof {
            assert(row@ == row_from_fields(fs, hs));
        }
        let ghost rows0 = rows_model(rows@);
        rows.push(row);
        proof {
            assert(rows_model(rows@) =~= rows0.push(row_from_fields(fs, hs)));
            let rest = spec_parse_body(lm, hs, t as int + 1);
            if rest is Ok {
                assert(rows0.push(row_from_fields(fs, hs)) + rest->Ok_0 =~= rows0 + (seq![
                    row_from_fields(fs, hs),
                ] + rest->Ok_0));
            }
        }
        t = t + 1;
    }
    Ok(rows)
}

} // verus!
