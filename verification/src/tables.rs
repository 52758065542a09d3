//! The compiled tables: the primary ZIP-code table and the city reverse
//! index, built once from the raw rows and queried read-only thereafter.

use vstd::prelude::*;

use crate::ingest::lemma_ingest_unique;
use crate::ingest::unique_zips;
use crate::ingest::parse_row;
use crate::ingest::rows_model;
use crate::ingest::spec_ingest;
use crate::ingest::spec_parse_row;
use crate::ingest::spec_zip_map;
use crate::ingest::lemma_first_row_wins;
use crate::ingest::lemma_zip_map_domain;
use crate::ingest::BuildError;
use crate::ingest::RawRow;
use crate::ingest::RawRowModel;
use crate::record::Record;
use crate::record::RecordModel;
use crate::tabular::parse_table;
use crate::tabular::spec_parse_table;
use vstd::hash_map::StringHashMap;
use vstd::pervasive::unreached;

verus! {

/// The reverse index of a record sequence: each record's ZIP code appended,
/// in order, to the bucket of its "City, State" key.
pub open spec fn spec_city_index(recs: Seq<RecordModel>) -> Map<Seq<char>, Seq<Seq<char>>>
    decreases recs.len(),
{
    if recs.len() == 0 {
        Map::empty()
    } else {
        spec_city_index(recs.drop_last()).insert(
            recs.last().city + ", "@ + recs.last().state,
            old_bucket(spec_city_index(recs.drop_last()), recs.last().city + ", "@ + recs.last().state).push(
                recs.last().zip_code,
            ),
        )
    }
}

/// The bucket of a key so far: its sequence in the map, or empty where the
/// key is new.
pub open spec fn old_bucket(m: Map<Seq<char>, Seq<Seq<char>>>, k: Seq<char>) -> Seq<Seq<char>> {
    if m.contains_key(k) {
        m[k]
    } else {
        Seq::empty()
    }
}

/// The executable primary table models the given map: same keys, and each
/// stored record's model is the mapped one.
pub open spec fn zips_model_ok(m: Map<Seq<char>, Record>, sm: Map<Seq<char>, RecordModel>) -> bool {
    &&& m.dom() == sm.dom()
    &&& forall|k: Seq<char>| m.contains_key(k) ==> (#[trigger] m[k])@ == sm[k]
}

/// The executable reverse index models the given map: same keys, and each
/// stored bucket spells the mapped sequence of ZIP codes.
pub open spec fn buckets_model_ok(
    m: Map<Seq<char>, Vec<String>>,
    sm: Map<Seq<char>, Seq<Seq<char>>>,
) -> bool {
    &&& m.dom() == sm.dom()
    &&& forall|k: Seq<char>| m.contains_key(k) ==> (#[trigger] m[k])@.map_values(|s: String| s@)
        == sm[k]
}

/// The primary table stores every record under the record's own ZIP code.
pub open spec fn self_keyed(zm: Map<Seq<char>, Record>) -> bool {
    forall|z: Seq<char>| zm.contains_key(z) ==> (#[trigger] zm[z])@.zip_code == z
}

/// Cross-consistency of the two maps: every ZIP code of every bucket is a
/// key of the primary table, and its record's city and state spell the
/// bucket's key.
pub open spec fn maps_wf(zm: Map<Seq<char>, Record>, cm: Map<Seq<char>, Vec<String>>) -> bool {
    forall|k: Seq<char>, i: int|
        cm.contains_key(k) && 0 <= i < cm[k]@.len() ==> {
            &&& zm.contains_key((#[trigger] cm[k]@[i])@)
            &&& zm[cm[k]@[i]@]@.city + ", "@ + zm[cm[k]@[i]@]@.state == k
        }
}

/// The two compiled tables. Both are built exactly once, by
/// [`build_tables`], and never mutated afterwards.
pub struct Tables {
    /// The primary table: one record per unique ZIP code.
    pub zip_map: StringHashMap<Record>,
    /// The reverse index: the ZIP codes of each "City, State" key, in
    /// first-seen order.
    pub city_map: StringHashMap<Vec<String>>,
    /// Every ZIP code of the primary table, in first-seen order: the
    /// primary table cannot be walked, this can.
    pub zip_list: Vec<String>,
}

/// The listing spells the accepted records' ZIP codes, in order.
pub open spec fn zip_list_ok(l: Seq<String>, recs: Seq<RecordModel>) -> bool {
    &&& l.len() == recs.len()
    &&& forall|j: int| 0 <= j < l.len() ==> (#[trigger] l[j])@ == recs[j].zip_code
}

impl Tables {
    /// Consistency of the tables: the primary table keys every record by
    /// the record's own ZIP code, and every ZIP code reachable through the
    /// reverse index resolves in the primary table, to a record whose own
    /// city and state spell the bucket's key. [`build_tables`] establishes
    /// this for every value it returns.
    pub open spec fn wf(self) -> bool {
        &&& self_keyed(self.zip_map@)
        &&& maps_wf(self.zip_map@, self.city_map@)
    }

    /// Returns a reference to the primary lookup table of all records.
    pub fn map(&self) -> (r: &StringHashMap<Record>)
        ensures
            r@ == self.zip_map@,
    {
        &self.zip_map
    }

    /// Returns every ZIP code of the primary table, in first-seen order,
    /// for exhaustive iteration.
    pub fn zip_codes(&self) -> (r: &Vec<String>)
        ensures
            r@ == self.zip_list@,
    {
        &self.zip_list
    }

    /// Looks one record up by the exact ZIP code string; no normalization
    /// is applied to the argument.
    pub fn lookup_by_zip<'a>(&'a self, zip: &str) -> (r: Option<&'a Record>)
        ensures
            match r {
                Some(rec) => self.zip_map@.contains_key(zip@) && *rec == self.zip_map@[zip@],
                None => !self.zip_map@.contains_key(zip@),
            },
    {
        self.zip_map.get(zip)
    }

    /// Looks up the records of an exact "City, State" key: the key's ZIP
    /// codes in first-seen order, each resolved through the primary table.
    /// An unmatched key gives an absent result, never an empty sequence.
    pub fn by_city<'a>(&'a self, city: &str) -> (r: Option<Vec<&'a Record>>)
        requires
            self.wf(),
        ensures
            match r {
                Some(v) => {
                    &&& self.city_map@.contains_key(city@)
                    &&& v@.len() == self.city_map@[city@]@.len()
                    &&& forall|i: int|
                        0 <= i < v@.len() ==> {
                            &&& self.zip_map@.contains_key(self.city_map@[city@]@[i]@)
                            &&& *(#[trigger] v@[i]) == self.zip_map@[self.city_map@[city@]@[i]@]
                            &&& v@[i]@.zip_code == self.city_map@[city@]@[i]@
                            &&& v@[i]@.city + ", "@ + v@[i]@.state == city@
                        }
                },
                None => !self.city_map@.contains_key(city@),
            },
    {
        match self.city_map.get(city) {
            None => None,
            Some(bucket) => {
                let mut out: Vec<&Record> = Vec::new();
                let n = bucket.len();
                let mut i: usize = 0;
                while i < n
                    invariant
                        self.wf(),
                        self.city_map@.contains_key(city@),
                        bucket == self.city_map@[city@],
                        n == bucket@.len(),
                        i <= n,
                        out@.len() == i,
                        forall|j: int|
                            0 <= j < i ==> {
                                &&& self.zip_map@.contains_key(self.city_map@[city@]@[j]@)
                                &&& *(#[trigger] out@[j]) == self.zip_map@[self.city_map@[city@]@[j]@]
                                &&& out@[j]@.zip_code == self.city_map@[city@]@[j]@
                                &&& out@[j]@.city + ", "@ + out@[j]@.state == city@
                            },
                    decreases n - i,
                {
                    let zip: &String = &bucket[i];
                    match self.zip_map.get(zip.as_str()) {
                        Some(rec) => {
                            out.push(rec);
                        },
                        None => {
                            // impossible: wf says every bucket entry resolves
                            assert(false);
                            return unreached();
                        },
                    }
                    i = i + 1;
                }
                Some(out)
            },
        }
    }
}

/// No dangling reference: every ZIP code of every reverse-index bucket is
/// a key of the primary table, and the record found there names the city
/// and state the bucket is keyed by.
pub proof fn lemma_no_dangling_zip(t: Tables, k: Seq<char>, i: int)
    requires
        t.wf(),
        t.city_map@.contains_key(k),
        0 <= i < t.city_map@[k]@.len(),
    ensures
        t.zip_map@.contains_key(t.city_map@[k]@[i]@),
        t.zip_map@[t.city_map@[k]@[i]@]@.zip_code == t.city_map@[k]@[i]@,
        t.zip_map@[t.city_map@[k]@[i]@]@.city + ", "@ + t.zip_map@[t.city_map@[k]@[i]@]@.state
            == k,
{
}

/// In the model of any record sequence without shared ZIP codes, every
/// ZIP code of every reverse-index bucket is a key of the primary map, and
/// the record found there spells the bucket's key.
pub proof fn lemma_city_index_resolves(recs: Seq<RecordModel>, k: Seq<char>, j: int)
    requires
        unique_zips(recs),
        spec_city_index(recs).contains_key(k),
        0 <= j < spec_city_index(recs)[k].len(),
    ensures
        spec_zip_map(recs).contains_key(spec_city_index(recs)[k][j]),
        spec_zip_map(recs)[spec_city_index(recs)[k][j]].city + ", "@ + spec_zip_map(recs)[spec_city_index(recs)[k][j]].state == k,
    decreases recs.len(),
{
    let z = spec_city_index(recs)[k][j];
    if recs.len() > 0 {
        let d = recs.drop_last();
        let r = recs.last();
        let kk = r.city + ", "@ + r.state;
        assert(unique_zips(d)) by {
            assert forall|a: int, b: int| 0 <= a < b < d.len() implies (#[trigger] d[a]).zip_code
                != (#[trigger] d[b]).zip_code by {
                assert(d[a] == recs[a]);
                assert(d[b] == recs[b]);
            }
        }
        let last_of_bucket = k == kk && j == spec_city_index(recs)[k].len() - 1;
        if !last_of_bucket {
            // the entry stood in the index already; it resolves there, and
            // the last record's ZIP code differs from it
            lemma_city_index_resolves(d, k, j);
            let zd = spec_city_index(d)[k][j];
            lemma_zip_map_domain(d, zd);
            let w = choose|w: int| 0 <= w < d.len() && (#[trigger] d[w]).zip_code == zd;
            assert(recs[w] == d[w]);
            assert(recs[w].zip_code != r.zip_code);
        }
    }
}

/// No dangling reference in the model of any successful ingestion: the
/// reverse index resolves, bucket by bucket, in the primary map.
pub proof fn lemma_ingest_no_dangling(rows: Seq<RawRowModel>, k: Seq<char>, j: int)
    requires
        spec_ingest(rows) is Ok,
        spec_city_index(spec_ingest(rows)->Ok_0).contains_key(k),
        0 <= j < spec_city_index(spec_ingest(rows)->Ok_0)[k].len(),
    ensures
        spec_zip_map(spec_ingest(rows)->Ok_0).contains_key(
            spec_city_index(spec_ingest(rows)->Ok_0)[k][j],
        ),
{
    lemma_ingest_unique(rows);
    lemma_city_index_resolves(spec_ingest(rows)->Ok_0, k, j);
}

/// What the primary table answers for a ZIP code is the parse of the
/// first input row that carried it: rows after the first never affect
/// lookup results.
pub proof fn lemma_table_first_row_wins(t: Tables, rows: Seq<RawRowModel>, i: int)
    requires
        spec_ingest(rows) is Ok,
        zips_model_ok(t.zip_map@, spec_zip_map(spec_ingest(rows)->Ok_0)),
        0 <= i < rows.len(),
        forall|j: int| 0 <= j < i ==> (#[trigger] rows[j]).zip_code != rows[i].zip_code,
    ensures
        spec_parse_row(rows[i]) is Ok,
        t.zip_map@.contains_key(rows[i].zip_code),
        t.zip_map@[rows[i].zip_code]@ == spec_parse_row(rows[i])->Ok_0,
{
    lemma_first_row_wins(rows, i);
}

/// Copies a vector of strings.
fn clone_string_vec(v: &Vec<String>) -> (r: Vec<String>)
    ensures
        r@ == v@,
{
    let mut r: Vec<String> = Vec::new();
    let n = v.len();
    let mut i: usize = 0;
    while i < n
        invariant
            i <= n,
            n == v@.len(),
            r@ == v@.subrange(0, i as int),
        decreases n - i,
    {
        r.push(v[i].clone());
        proof {
            assert(r@ =~= v@.subrange(0, i as int + 1));
        }
        i = i + 1;
    }
    proof {
        assert(r@ =~= v@);
    }
    r
}

/// Once an ingestion prefix has failed, every longer prefix fails the same
/// way: the first fault is the one reported.
proof fn lemma_ingest_err_extends(rows: Seq<RawRowModel>, i: int)
    requires
        0 <= i <= rows.len(),
        spec_ingest(rows.subrange(0, i)) is Err,
    ensures
        spec_ingest(rows) == spec_ingest(rows.subrange(0, i)),
    decreases rows.len() - i,
{
    if i == rows.len() {
        assert(rows.subrange(0, i) =~= rows);
    } else {
        assert(rows.subrange(0, i + 1).drop_last() =~= rows.subrange(0, i));
        lemma_ingest_err_extends(rows, i + 1);
    }
}

/// Ingests the raw rows and compiles both tables: the primary table holds
/// the first-seen record of every ZIP code, and the reverse index the ZIP
/// codes of every "City, State" key in first-seen order. The first faulty
/// row aborts construction with its fault.
pub fn build_tables(rows: &Vec<RawRow>) -> (r: Result<Tables, BuildError>)
    ensures
        match r {
            Ok(t) => {
                &&& spec_ingest(rows_model(rows@)) is Ok
                &&& t.wf()
                &&& zips_model_ok(t.zip_map@, spec_zip_map(spec_ingest(rows_model(rows@))->Ok_0))
                &&& buckets_model_ok(
                    t.city_map@,
                    spec_city_index(spec_ingest(rows_model(rows@))->Ok_0),
                )
                &&& zip_list_ok(t.zip_list@, spec_ingest(rows_model(rows@))->Ok_0)
                &&& forall|j: int|
                    0 <= j < t.zip_list@.len() ==> t.zip_map@.contains_key(
                        (#[trigger] t.zip_list@[j])@,
                    )
            },
            Err(e) => spec_ingest(rows_model(rows@)) == Err::<Seq<RecordModel>, BuildError>(e),
        },
{
    let ghost rm = rows_model(rows@);
    let mut zip_map: StringHashMap<Record> = StringHashMap::new();
    let mut city_map: StringHashMap<Vec<String>> = StringHashMap::new();
    let mut zip_list: Vec<String> = Vec::new();
    let n = rows.len();
    let mut i: usize = 0;
    proof {
        assert(rm.subrange(0, 0) =~= Seq::<RawRowModel>::empty());
    }
    while i < n
        invariant
            i <= n,
            n == rows@.len(),
            rm == rows_model(rows@),
            rm.len() == rows@.len(),
            spec_ingest(rm.subrange(0, i as int)) is Ok,
            zips_model_ok(zip_map@, spec_zip_map(spec_ingest(rm.subrange(0, i as int))->Ok_0)),
            buckets_model_ok(
                city_map@,
                spec_city_index(spec_ingest(rm.subrange(0, i as int))->Ok_0),
            ),
            self_keyed(zip_map@),
            maps_wf(zip_map@, city_map@),
            zip_list_ok(zip_list@, spec_ingest(rm.subrange(0, i as int))->Ok_0),
            forall|j: int|
                0 <= j < zip_list@.len() ==> zip_map@.contains_key((#[trigger] zip_list@[j])@),
        decreases n - i,
    {
        let ghost cur = spec_ingest(rm.subrange(0, i as int))->Ok_0;
        proof {
            assert(rm.subrange(0, i as int + 1).drop_last() =~= rm.subrange(0, i as int));
            assert(rm.subrange(0, i as int + 1).last() == rm[i as int]);
            assert(rm[i as int] == rows@[i as int]@);
        }
        let row = &rows[i];
        let rec = match parse_row(row) {
            Ok(rec) => rec,
            Err(e) => {
                proof {
                    assert(spec_ingest(rm.subrange(0, i as int + 1)) == Err::<
                        Seq<RecordModel>,
                        BuildError,
                    >(e));
                    lemma_ingest_err_extends(rm, i as int + 1);
                }
                return Err(e);
            },
        };
        proof {
            lemma_zip_map_domain(cur, rec@.zip_code);
        }
        if !zip_map.contains_key(rec.zip_code.as_str()) {
            let ghost recm = rec@;
            let ghost z = rec@.zip_code;
            let zip_for_bucket = rec.zip_code.clone();
            zip_list.push(rec.zip_code.clone());
            let mut key = rec.city.clone();
            key.append(", ");
            key.append(rec.state.as_str());
            let ghost k = recm.city + ", "@ + recm.state;
            assert(key@ == k);
            let ghost zm0 = zip_map@;
            let ghost cm0 = city_map@;
            zip_map.insert(rec.zip_code.clone(), rec);
            let mut bucket: Vec<String> = match city_map.get(key.as_str()) {
                Some(b) => clone_string_vec(b),
                None => Vec::new(),
            };
            let ghost ob = bucket@;
            bucket.push(zip_for_bucket);
            let ghost bv = bucket@;
            city_map.insert(key, bucket);
            proof {
                let next = spec_ingest(rm.subrange(0, i as int + 1))->Ok_0;
                assert(next == cur.push(recm));
                assert(next.drop_last() =~= cur);
                assert(next.last() == recm);
                let smz0 = spec_zip_map(cur);
                let smz = spec_zip_map(next);
                assert(smz == smz0.insert(z, recm));
                assert(zip_map@ == zm0.insert(z, zip_map@[z]));
                assert(zip_map@[z]@ == recm);
                // the primary table still models the primary map
                assert(zip_map@.dom() =~= smz.dom());
                assert forall|kk: Seq<char>| zip_map@.contains_key(kk) implies (#[trigger] zip_map@[kk])@ == smz[kk] by {
                    if kk != z {
                        assert(zip_map@[kk] == zm0[kk]);
                    }
                }
                // the reverse index still models the city index
                let smc0 = spec_city_index(cur);
                let smc = spec_city_index(next);
                assert(smc == smc0.insert(k, old_bucket(smc0, k).push(z)));
                assert(bv == ob.push(bv.last()));
                assert(bv.last()@ == z);
                assert(ob.map_values(|s: String| s@) == old_bucket(smc0, k));
                assert(city_map@.dom() =~= smc.dom());
                assert forall|kk: Seq<char>| city_map@.contains_key(kk) implies (#[trigger] city_map@[kk])@.map_values(|s: String| s@) == smc[kk] by {
                    if kk == k {
                        assert(city_map@[kk]@ == bv);
                        assert(bv.map_values(|s: String| s@) =~= ob.map_values(|s: String| s@).push(
                            z,
                        ));
                    } else {
                        assert(city_map@[kk] == cm0[kk]);
                    }
                }
                // cross-consistency is preserved
                assert forall|kk: Seq<char>, j: int|
                    city_map@.contains_key(kk) && 0 <= j < city_map@[kk]@.len() implies {
                        &&& zip_map@.contains_key((#[trigger] city_map@[kk]@[j])@)
                        &&& zip_map@[city_map@[kk]@[j]@]@.city + ", "@ + zip_map@[city_map@[kk]@[j]@]@.state == kk
                    } by {
                    if kk == k {
                        assert(city_map@[kk]@ == bv);
                        if j == bv.len() - 1 {
                            assert(bv[j]@ == z);
                        } else {
                            assert(bv[j] == ob[j]);
                            assert(cm0.contains_key(k));
                            assert(cm0[k]@ == ob);
                            assert(zm0.contains_key(ob[j]@));
                            assert(zip_map@[ob[j]@] == zm0[ob[j]@]);
                        }
                    } else {
                        assert(city_map@[kk] == cm0[kk]);
                        assert(zm0.contains_key(cm0[kk]@[j]@));
                        assert(zip_map@[cm0[kk]@[j]@] == zm0[cm0[kk]@[j]@]);
                    }
                }
            }
        } else {
            proof {
                assert(spec_ingest(rm.subrange(0, i as int + 1)) == Ok::<
                    Seq<RecordModel>,
                    BuildError,
                >(cur));
            }
        }
        i = i + 1;
    }
    proof {
        assert(rm.subrange(0, n as int) =~= rm);
    }
    Ok(Tables { zip_map, city_map, zip_list })
}

/// Builds both tables straight from the delimited input lines: the header
/// line, then one line per raw row. The first fault of either stage aborts
/// construction with its fault.
pub fn build_from_lines(lines: &Vec<String>) -> (r: Result<Tables, BuildError>)
    ensures
        match r {
            Ok(t) => {
                &&& spec_parse_table(lines@.map_values(|l: String| l@)) is Ok
                &&& spec_ingest(spec_parse_table(lines@.map_values(|l: String| l@))->Ok_0) is Ok
                &&& t.wf()
                &&& zips_model_ok(
                    t.zip_map@,
                    spec_zip_map(
                        spec_ingest(
                            spec_parse_table(lines@.map_values(|l: String| l@))->Ok_0,
                        )->Ok_0,
                    ),
                )
                &&& buckets_model_ok(
                    t.city_map@,
                    spec_city_index(
                        spec_ingest(
                            spec_parse_table(lines@.map_values(|l: String| l@))->Ok_0,
                        )->Ok_0,
                    ),
                )
                &&& zip_list_ok(
                    t.zip_list@,
                    spec_ingest(spec_parse_table(lines@.map_values(|l: String| l@))->Ok_0)->Ok_0,
                )
                &&& forall|j: int|
                    0 <= j < t.zip_list@.len() ==> t.zip_map@.contains_key(
                        (#[trigger] t.zip_list@[j])@,
                    )
            },
            Err(e) => spec_parse_table(lines@.map_values(|l: String| l@)) == Err::<
                Seq<RawRowModel>,
                BuildError,
            >(e) || (spec_parse_table(lines@.map_values(|l: String| l@)) is Ok && spec_ingest(
                spec_parse_table(lines@.map_values(|l: String| l@))->Ok_0,
            ) == Err::<Seq<RecordModel>, BuildError>(e)),
        },
{
    let rows = match parse_table(lines) {
        Ok(rows) => rows,
        Err(e) => {
            return Err(e);
        },
    };
    build_tables(&rows)
}

} // verus!
