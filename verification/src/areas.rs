//! The regional-division lookup table: provinces, cities and districts
//! loaded from CSV text, with code lookups, grouped listings and random
//! picks. The caller supplies the CSV text and keeps the loaded cache;
//! there is no hidden process-wide state.

use vstd::prelude::*;
use vstd::string::*;

use crate::rng::random_below;
use crate::text::str_equal;

verus! {

/// A district-level division: its code, name, and the codes of the city
/// and province above it.
#[derive(Debug)]
pub struct Area {
    pub code: String,
    pub name: String,
    pub city_code: String,
    pub province_code: String,
}

/// A city-level division: its code, name, and its province's code.
#[derive(Debug)]
pub struct City {
    pub code: String,
    pub name: String,
    pub province_code: String,
}

/// A province-level division: its code and name.
#[derive(Debug)]
pub struct Province {
    pub code: String,
    pub name: String,
}

impl Clone for Province {
    fn clone(&self) -> (r: Self)
        ensures
            r == *self,
    {
        Province { code: self.code.clone(), name: self.name.clone() }
    }
}

impl Clone for City {
    fn clone(&self) -> (r: Self)
        ensures
            r == *self,
    {
        City {
            code: self.code.clone(),
            name: self.name.clone(),
            province_code: self.province_code.clone(),
        }
    }
}

impl Clone for Area {
    fn clone(&self) -> (r: Self)
        ensures
            r == *self,
    {
        Area {
            code: self.code.clone(),
            name: self.name.clone(),
            city_code: self.city_code.clone(),
            province_code: self.province_code.clone(),
        }
    }
}

/// A division of any of the three levels.
#[derive(Debug, Clone)]
pub enum AreaType {
    Province(Province),
    City(City),
    Region(Area),
}

/// The errors of loading the tables.
#[derive(Debug)]
pub enum RegionError {
    /// The CSV reader failed; carries its description.
    Csv(String),
    /// The record at this position does not have its table's field count.
    BadRecord(usize),
}

#[verifier::external_type_specification]
#[verifier::external_body]
pub struct ExCsvError(csv::Error);

/// The records that the CSV reader yields for a text: a function of the
/// text alone.
pub uninterp spec fn csv_rows(text: Seq<char>) -> Seq<Seq<Seq<char>>>;

/// Relies on `csv::Reader::from_reader` over the text's bytes: yields
/// the comma-separated records after the header line, each a list of
/// fields, depending on the text alone.
#[verifier::external_body]
fn read_csv_records(text: &str) -> (r: Result<Vec<Vec<String>>, csv::Error>)
    ensures
        r matches Ok(rows) ==> rows.deep_view() == csv_rows(text@),
{
    let mut rdr = csv::Reader::from_reader(text.as_bytes());
    let mut rows: Vec<Vec<String>> = Vec::new();
    for rec in rdr.records() {
        let rec = rec?;
        rows.push(rec.iter().map(|f| f.to_string()).collect());
    }
    Ok(rows)
}

/// Relies on `csv::Error`'s `Display` implementation for a description
/// of the failure.
#[verifier::external_body]
fn csv_error_text(e: &csv::Error) -> String {
    format!("{}", e)
}

/// Every record has the province table's two fields: code, name.
pub open spec fn province_rows_ok(rows: Seq<Seq<Seq<char>>>) -> bool {
    forall|i: int| 0 <= i < rows.len() ==> (#[trigger] rows[i]).len() == 2
}

/// Every record has the city table's three fields: code, name,
/// province code.
pub open spec fn city_rows_ok(rows: Seq<Seq<Seq<char>>>) -> bool {
    forall|i: int| 0 <= i < rows.len() ==> (#[trigger] rows[i]).len() == 3
}

/// Every record has the district table's four fields: code, name,
/// city code, province code.
pub open spec fn area_rows_ok(rows: Seq<Seq<Seq<char>>>) -> bool {
    forall|i: int| 0 <= i < rows.len() ==> (#[trigger] rows[i]).len() == 4
}

/// `ps` holds exactly the records of `rows`, field by field, in order.
pub open spec fn provinces_match(ps: Seq<Province>, rows: Seq<Seq<Seq<char>>>) -> bool {
    &&& ps.len() == rows.len()
    &&& forall|i: int| 0 <= i < ps.len() ==> (#[trigger] ps[i]).code@ == rows[i][0] && ps[i].name@
        == rows[i][1]
}

/// `cs` holds exactly the records of `rows`, field by field, in order.
pub open spec fn cities_match(cs: Seq<City>, rows: Seq<Seq<Seq<char>>>) -> bool {
    &&& cs.len() == rows.len()
    &&& forall|i: int| 0 <= i < cs.len() ==> (#[trigger] cs[i]).code@ == rows[i][0] && cs[i].name@
        == rows[i][1] && cs[i].province_code@ == rows[i][2]
}

/// `ds` holds exactly the records of `rows`, field by field, in order.
pub open spec fn areas_match(ds: Seq<Area>, rows: Seq<Seq<Seq<char>>>) -> bool {
    &&& ds.len() == rows.len()
    &&& forall|i: int| 0 <= i < ds.len() ==> (#[trigger] ds[i]).code@ == rows[i][0] && ds[i].name@
        == rows[i][1] && ds[i].city_code@ == rows[i][2] && ds[i].province_code@ == rows[i][3]
}

/// Builds the province list from CSV records. Succeeds exactly when
/// every record has the table's two fields; otherwise names the first
/// record that does not.
pub fn provinces_from_rows(rows: &Vec<Vec<String>>) -> (r: Result<Vec<Province>, RegionError>)
    ensures
        r is Ok <==> province_rows_ok(rows.deep_view()),
        r matches Ok(ps) ==> provinces_match(ps@, rows.deep_view()),
        r matches Err(e) ==> (e matches RegionError::BadRecord(k) && k < rows.deep_view().len()
            && rows.deep_view()[k as int].len() != 2 && forall|j: int|
            0 <= j < k ==> (#[trigger] rows.deep_view()[j]).len() == 2),
{
    let ghost dv = rows.deep_view();
    let mut ps: Vec<Province> = Vec::new();
    let n = rows.len();
    let mut i: usize = 0;
    while i < n
        invariant
            0 <= i <= n,
            n == rows@.len(),
            dv == rows.deep_view(),
            dv.len() == n,
            ps@.len() == i,
            forall|j: int| 0 <= j < i ==> (#[trigger] dv[j]).len() == 2,
            forall|j: int| 0 <= j < i ==> (#[trigger] ps@[j]).code@ == dv[j][0] && ps@[j].name@
                == dv[j][1],
        decreases n - i,
    {
        let row = &rows[i];
        proof {
            assert(dv[i as int] == rows@[i as int].deep_view());
            assert(dv[i as int].len() == rows@[i as int]@.len());
        }
        if row.len() != 2 {
            return Err(RegionError::BadRecord(i));
        }
        ps.push(Province { code: row[0].clone(), name: row[1].clone() });
        i = i + 1;
    }
    Ok(ps)
}

/// Builds the city list from CSV records. Succeeds exactly when every
/// record has the table's three fields; otherwise names the first
/// record that does not.
pub fn cities_from_rows(rows: &Vec<Vec<String>>) -> (r: Result<Vec<City>, RegionError>)
    ensures
        r is Ok <==> city_rows_ok(rows.deep_view()),
        r matches Ok(cs) ==> cities_match(cs@, rows.deep_view()),
        r matches Err(e) ==> (e matches RegionError::BadRecord(k) && k < rows.deep_view().len()
            && rows.deep_view()[k as int].len() != 3 && forall|j: int|
            0 <= j < k ==> (#[trigger] rows.deep_view()[j]).len() == 3),
{
    let ghost dv = rows.deep_view();
    let mut cs: Vec<City> = Vec::new();
    let n = rows.len();
    let mut i: usize = 0;
    while i < n
        invariant
            0 <= i <= n,
            n == rows@.len(),
            dv == rows.deep_view(),
            dv.len() == n,
            cs@.len() == i,
            forall|j: int| 0 <= j < i ==> (#[trigger] dv[j]).len() == 3,
            forall|j: int| 0 <= j < i ==> (#[trigger] cs@[j]).code@ == dv[j][0] && cs@[j].name@
                == dv[j][1] && cs@[j].province_code@ == dv[j][2],
        decreases n - i,
    {
        let row = &rows[i];
        proof {
            assert(dv[i as int] == rows@[i as int].deep_view());
            assert(dv[i as int].len() == rows@[i as int]@.len());
        }
        if row.len() != 3 {
            return Err(RegionError::BadRecord(i));
        }
        cs.push(
            City { code: row[0].clone(), name: row[1].clone(), province_code: row[2].clone() },
        );
        i = i + 1;
    }
    Ok(cs)
}

/// Builds the district list from CSV records. Succeeds exactly when
/// every record has the table's four fields; otherwise names the first
/// record that does not.
pub fn areas_from_rows(rows: &Vec<Vec<String>>) -> (r: Result<Vec<Area>, RegionError>)
    ensures
        r is Ok <==> area_rows_ok(rows.deep_view()),
        r matches Ok(ds) ==> areas_match(ds@, rows.deep_view()),
        r matches Err(e) ==> (e matches RegionError::BadRecord(k) && k < rows.deep_view().len()
            && rows.deep_view()[k as int].len() != 4 && forall|j: int|
            0 <= j < k ==> (#[trigger] rows.deep_view()[j]).len() == 4),
{
    let ghost dv = rows.deep_view();
    let mut ds: Vec<Area> = Vec::new();
    let n = rows.len();
    let mut i: usize = 0;
    while i < n
        invariant
            0 <= i <= n,
            n == rows@.len(),
            dv == rows.deep_view(),
            dv.len() == n,
            ds@.len() == i,
            forall|j: int| 0 <= j < i ==> (#[trigger] dv[j]).len() == 4,
            forall|j: int| 0 <= j < i ==> (#[trigger] ds@[j]).code@ == dv[j][0] && ds@[j].name@
                == dv[j][1] && ds@[j].city_code@ == dv[j][2] && ds@[j].province_code@ == dv[j][3],
        decreases n - i,
    {
        let row = &rows[i];
        proof {
            assert(dv[i as int] == rows@[i as int].deep_view());
            assert(dv[i as int].len() == rows@[i as int]@.len());
        }
        if row.len() != 4 {
            return Err(RegionError::BadRecord(i));
        }
        ds.push(
            Area {
                code: row[0].clone(),
                name: row[1].clone(),
                city_code: row[2].clone(),
                province_code: row[3].clone(),
            },
        );
        i = i + 1;
    }
    Ok(ds)
}

/// The loaded division tables, in their tables' record order.
#[derive(Debug)]
pub struct RegionCache {
    pub provinces: Vec<Province>,
    pub cities: Vec<City>,
    pub areas: Vec<Area>,
}

/// `i` is the position of the first province with this code.
pub open spec fn province_at(s: Seq<Province>, code: Seq<char>, i: int) -> bool {
    &&& 0 <= i < s.len()
    &&& s[i].code@ == code
    &&& forall|j: int| 0 <= j < i ==> (#[trigger] s[j]).code@ != code
}

/// `i` is the position of the first city with this code.
pub open spec fn city_at(s: Seq<City>, code: Seq<char>, i: int) -> bool {
    &&& 0 <= i < s.len()
    &&& s[i].code@ == code
    &&& forall|j: int| 0 <= j < i ==> (#[trigger] s[j]).code@ != code
}

/// `i` is the position of the first district with this code.
pub open spec fn area_at(s: Seq<Area>, code: Seq<char>, i: int) -> bool {
    &&& 0 <= i < s.len()
    &&& s[i].code@ == code
    &&& forall|j: int| 0 <= j < i ==> (#[trigger] s[j]).code@ != code
}

/// The cities whose province code is `code`, in table order.
pub open spec fn cities_in_province(s: Seq<City>, code: Seq<char>) -> Seq<City>
    decreases s.len(),
{
    if s.len() <= 0 {
        Seq::empty()
    } else {
        let pre = cities_in_province(s.drop_last(), code);
        if s.last().province_code@ == code {
            pre.push(s.last())
        } else {
            pre
        }
    }
}

/// The districts whose city code is `code`, in table order.
pub open spec fn areas_in_city(s: Seq<Area>, code: Seq<char>) -> Seq<Area>
    decreases s.len(),
{
    if s.len() <= 0 {
        Seq::empty()
    } else {
        let pre = areas_in_city(s.drop_last(), code);
        if s.last().city_code@ == code {
            pre.push(s.last())
        } else {
            pre
        }
    }
}

/// The districts whose province code is `code`, in table order.
pub open spec fn areas_in_province(s: Seq<Area>, code: Seq<char>) -> Seq<Area>
    decreases s.len(),
{
    if s.len() <= 0 {
        Seq::empty()
    } else {
        let pre = areas_in_province(s.drop_last(), code);
        if s.last().province_code@ == code {
            pre.push(s.last())
        } else {
            pre
        }
    }
}

/// Every city listed for a province carries that province's code and
/// comes from the table.
pub proof fn lemma_cities_in_province(s: Seq<City>, code: Seq<char>, i: int)
    requires
        0 <= i < cities_in_province(s, code).len(),
    ensures
        cities_in_province(s, code)[i].province_code@ == code,
        exists|j: int| 0 <= j < s.len() && cities_in_province(s, code)[i] == s[j],
    decreases s.len(),
{
    let pre = cities_in_province(s.drop_last(), code);
    if s.last().province_code@ == code && i == pre.len() {
        assert(cities_in_province(s, code)[i] == s[s.len() - 1]);
    } else {
        lemma_cities_in_province(s.drop_last(), code, i);
        let j = choose|j: int|
            0 <= j < s.drop_last().len() && cities_in_province(s.drop_last(), code)[i]
                == s.drop_last()[j];
        assert(s.drop_last()[j] == s[j]);
    }
}

/// Every district listed for a city carries that city's code and comes
/// from the table.
pub proof fn lemma_areas_in_city(s: Seq<Area>, code: Seq<char>, i: int)
    requires
        0 <= i < areas_in_city(s, code).len(),
    ensures
        areas_in_city(s, code)[i].city_code@ == code,
        exists|j: int| 0 <= j < s.len() && areas_in_city(s, code)[i] == s[j],
    decreases s.len(),
{
    let pre = areas_in_city(s.drop_last(), code);
    if s.last().city_code@ == code && i == pre.len() {
        assert(areas_in_city(s, code)[i] == s[s.len() - 1]);
    } else {
        lemma_areas_in_city(s.drop_last(), code, i);
        let j = choose|j: int|
            0 <= j < s.drop_last().len() && areas_in_city(s.drop_last(), code)[i]
                == s.drop_last()[j];
        assert(s.drop_last()[j] == s[j]);
    }
}

/// Every district listed for a province carries that province's code
/// and comes from the table.
pub proof fn lemma_areas_in_province(s: Seq<Area>, code: Seq<char>, i: int)
    requires
        0 <= i < areas_in_province(s, code).len(),
    ensures
        areas_in_province(s, code)[i].province_code@ == code,
        exists|j: int| 0 <= j < s.len() && areas_in_province(s, code)[i] == s[j],
    decreases s.len(),
{
    let pre = areas_in_province(s.drop_last(), code);
    if s.last().province_code@ == code && i == pre.len() {
        assert(areas_in_province(s, code)[i] == s[s.len() - 1]);
    } else {
        lemma_areas_in_province(s.drop_last(), code, i);
        let j = choose|j: int|
            0 <= j < s.drop_last().len() && areas_in_province(s.drop_last(), code)[i]
                == s.drop_last()[j];
        assert(s.drop_last()[j] == s[j]);
    }
}

impl RegionCache {
    /// Loads the three tables from CSV text. Succeeds exactly when the
    /// reader accepts each text and every record has its table's field
    /// count; the loaded lists mirror the records in order.
    pub fn new(provinces_csv: &str, cities_csv: &str, areas_csv: &str) -> (r: Result<
        RegionCache,
        RegionError,
    >)
        ensures
            r matches Ok(c) ==> province_rows_ok(csv_rows(provinces_csv@)) && provinces_match(
                c.provinces@,
                csv_rows(provinces_csv@),
            ) && city_rows_ok(csv_rows(cities_csv@)) && cities_match(
                c.cities@,
                csv_rows(cities_csv@),
            ) && area_rows_ok(csv_rows(areas_csv@)) && areas_match(c.areas@, csv_rows(areas_csv@)),
            r matches Err(RegionError::BadRecord(_)) ==> !(province_rows_ok(
                csv_rows(provinces_csv@),
            ) && city_rows_ok(csv_rows(cities_csv@)) && area_rows_ok(csv_rows(areas_csv@))),
    {
        let prows = match read_csv_records(provinces_csv) {
            Ok(rows) => rows,
            Err(e) => {
                return Err(RegionError::Csv(csv_error_text(&e)));
            },
        };
        let crows = match read_csv_records(cities_csv) {
            Ok(rows) => rows,
            Err(e) => {
                return Err(RegionError::Csv(csv_error_text(&e)));
            },
        };
        let arows = match read_csv_records(areas_csv) {
            Ok(rows) => rows,
            Err(e) => {
                return Err(RegionError::Csv(csv_error_text(&e)));
            },
        };
        let provinces = match provinces_from_rows(&prows) {
            Ok(ps) => ps,
            Err(e) => {
                return Err(e);
            },
        };
        let cities = match cities_from_rows(&crows) {
            Ok(cs) => cs,
            Err(e) => {
                return Err(e);
            },
        };
        let areas = match areas_from_rows(&arows) {
            Ok(ds) => ds,
            Err(e) => {
                return Err(e);
            },
        };
        Ok(RegionCache { provinces, cities, areas })
    }

    /// All provinces, in table order.
    pub fn get_provinces(&self) -> (r: &[Province])
        ensures
            r@ == self.provinces@,
    {
        self.provinces.as_slice()
    }

    /// All cities, in table order.
    pub fn get_cities(&self) -> (r: &[City])
        ensures
            r@ == self.cities@,
    {
        self.cities.as_slice()
    }

    /// All districts, in table order.
    pub fn get_areas(&self) -> (r: &[Area])
        ensures
            r@ == self.areas@,
    {
        self.areas.as_slice()
    }

    /// The first province with this code, if any.
    pub fn get_province(&self, code: &str) -> (r: Option<&Province>)
        ensures
            r is Some <==> exists|i: int|
                0 <= i < self.provinces@.len() && (#[trigger] self.provinces@[i]).code@ == code@,
            r matches Some(p) ==> exists|i: int|
                province_at(self.provinces@, code@, i) && *p == self.provinces@[i],
    {
        let n = self.provinces.len();
        let mut i: usize = 0;
        while i < n
            invariant
                0 <= i <= n,
                n == self.provinces@.len(),
                forall|j: int| 0 <= j < i ==> (#[trigger] self.provinces@[j]).code@ != code@,
            decreases n - i,
        {
            if str_equal(self.provinces[i].code.as_str(), code) {
                return Some(&self.provinces[i]);
            }
            i = i + 1;
        }
        None
    }

    /// The first city with this code, if any.
    pub fn get_city(&self, code: &str) -> (r: Option<&City>)
        ensures
            r is Some <==> exists|i: int|
                0 <= i < self.cities@.len() && (#[trigger] self.cities@[i]).code@ == code@,
            r matches Some(c) ==> exists|i: int|
                city_at(self.cities@, code@, i) && *c == self.cities@[i],
    {
        let n = self.cities.len();
        let mut i: usize = 0;
        while i < n
            invariant
                0 <= i <= n,
                n == self.cities@.len(),
                forall|j: int| 0 <= j < i ==> (#[trigger] self.cities@[j]).code@ != code@,
            decreases n - i,
        {
            if str_equal(self.cities[i].code.as_str(), code) {
                return Some(&self.cities[i]);
            }
            i = i + 1;
        }
        None
    }

    /// The first district with this code, if any.
    pub fn get_region(&self, code: &str) -> (r: Option<&Area>)
        ensures
            r is Some <==> exists|i: int|
                0 <= i < self.areas@.len() && (#[trigger] self.areas@[i]).code@ == code@,
            r matches Some(a) ==> exists|i: int|
                area_at(self.areas@, code@, i) && *a == self.areas@[i],
    {
        let n = self.areas.len();
        let mut i: usize = 0;
        while i < n
            invariant
                0 <= i <= n,
                n == self.areas@.len(),
                forall|j: int| 0 <= j < i ==> (#[trigger] self.areas@[j]).code@ != code@,
            decreases n - i,
        {
            if str_equal(self.areas[i].code.as_str(), code) {
                return Some(&self.areas[i]);
            }
            i = i + 1;
        }
        None
    }

    /// All cities of a province, in table order.
    pub fn get_cities_by_province(&self, province_code: &str) -> (r: Vec<City>)
        ensures
            r@ == cities_in_province(self.cities@, province_code@),
    {
        let mut out: Vec<City> = Vec::new();
        let n = self.cities.len();
        let mut i: usize = 0;
        while i < n
            invariant
                0 <= i <= n,
                n == self.cities@.len(),
                out@ == cities_in_province(self.cities@.take(i as int), province_code@),
            decreases n - i,
        {
            proof {
                assert(self.cities@.take(i + 1).drop_last() =~= self.cities@.take(i as int));
            }
            if str_equal(self.cities[i].province_code.as_str(), province_code) {
                out.push(self.cities[i].clone());
            }
            i = i + 1;
        }
        proof {
            assert(self.cities@.take(n as int) =~= self.cities@);
        }
        out
    }

    /// All districts of a city, in table order.
    pub fn get_regions_by_city(&self, city_code: &str) -> (r: Vec<Area>)
        ensures
            r@ == areas_in_city(self.areas@, city_code@),
    {
        let mut out: Vec<Area> = Vec::new();
        let n = self.areas.len();
        let mut i: usize = 0;
        while i < n
            invariant
                0 <= i <= n,
                n == self.areas@.len(),
                out@ == areas_in_city(self.areas@.take(i as int), city_code@),
            decreases n - i,
        {
            proof {
                assert(self.areas@.take(i + 1).drop_last() =~= self.areas@.take(i as int));
            }
            if str_equal(self.areas[i].city_code.as_str(), city_code) {
                out.push(self.areas[i].clone());
            }
            i = i + 1;
        }
        proof {
            assert(self.areas@.take(n as int) =~= self.areas@);
        }
        out
    }

    /// All districts of a province, in table order.
    pub fn get_regions_by_province(&self, province_code: &str) -> (r: Vec<Area>)
        ensures
            r@ == areas_in_province(self.areas@, province_code@),
    {
        let mut out: Vec<Area> = Vec::new();
        let n = self.areas.len();
        let mut i: usize = 0;
        while i < n
            invariant
                0 <= i <= n,
                n == self.areas@.len(),
                out@ == areas_in_province(self.areas@.take(i as int), province_code@),
            decreases n - i,
        {
            proof {
                assert(self.areas@.take(i + 1).drop_last() =~= self.areas@.take(i as int));
            }
            if str_equal(self.areas[i].province_code.as_str(), province_code) {
                out.push(self.areas[i].clone());
            }
            i = i + 1;
        }
        proof {
            assert(self.areas@.take(n as int) =~= self.areas@);
        }
        out
    }

    /// Some province of the table, when it has any.
    pub fn random_province(&self) -> (r: Option<&Province>)
        ensures
            r is Some <==> self.provinces@.len() > 0,
            r matches Some(p) ==> exists|i: int|
                0 <= i < self.provinces@.len() && *p == self.provinces@[i],
    {
        if self.provinces.len() == 0 {
            return None;
        }
        let idx = random_below(self.provinces.len());
        Some(&self.provinces[idx])
    }

    /// Some city of the table, when it has any.
    pub fn random_city(&self) -> (r: Option<&City>)
        ensures
            r is Some <==> self.cities@.len() > 0,
            r matches Some(c) ==> exists|i: int|
                0 <= i < self.cities@.len() && *c == self.cities@[i],
    {
        if self.cities.len() == 0 {
            return None;
        }
        let idx = random_below(self.cities.len());
        Some(&self.cities[idx])
    }

    /// Some district of the table, when it has any.
    pub fn random_region(&self) -> (r: Option<&Area>)
        ensures
            r is Some <==> self.areas@.len() > 0,
            r matches Some(a) ==> exists|i: int|
                0 <= i < self.areas@.len() && *a == self.areas@[i],
    {
        if self.areas.len() == 0 {
            return None;
        }
        let idx = random_below(self.areas.len());
        Some(&self.areas[idx])
    }

    /// Some city of the given province, when it has any.
    pub fn random_city_in_province(&self, province_code: &str) -> (r: Option<City>)
        ensures
            r is Some <==> cities_in_province(self.cities@, province_code@).len() > 0,
            r matches Some(c) ==> exists|i: int|
                0 <= i < cities_in_province(self.cities@, province_code@).len() && c
                    == cities_in_province(self.cities@, province_code@)[i],
    {
        let cities = self.get_cities_by_province(province_code);
        if cities.len() == 0 {
            return None;
        }
        let idx = random_below(cities.len());
        Some(cities[idx].clone())
    }

    /// Some district of the given city, when it has any.
    pub fn random_region_in_city(&self, city_code: &str) -> (r: Option<Area>)
        ensures
            r is Some <==> areas_in_city(self.areas@, city_code@).len() > 0,
            r matches Some(a) ==> exists|i: int|
                0 <= i < areas_in_city(self.areas@, city_code@).len() && a == areas_in_city(
                    self.areas@,
                    city_code@,
                )[i],
    {
        let regions = self.get_regions_by_city(city_code);
        if regions.len() == 0 {
            return None;
        }
        let idx = random_below(regions.len());
        Some(regions[idx].clone())
    }

    /// Some district of the given province, when it has any.
    pub fn random_region_in_province(&self, province_code: &str) -> (r: Option<Area>)
        ensures
            r is Some <==> areas_in_province(self.areas@, province_code@).len() > 0,
            r matches Some(a) ==> exists|i: int|
                0 <= i < areas_in_province(self.areas@, province_code@).len() && a
                    == areas_in_province(self.areas@, province_code@)[i],
    {
        let regions = self.get_regions_by_province(province_code);
        if regions.len() == 0 {
            return None;
        }
        let idx = random_below(regions.len());
        Some(regions[idx].clone())
    }

    /// The district with this code together with its city and province,
    /// owed exactly when the district exists and both parents resolve.
    pub fn get_full_area_chain(&self, region_code: &str) -> (r: Option<(&Province, &City, &Area)>)
        ensures
            r is Some <==> exists|i: int|
                area_at(self.areas@, region_code@, i) && (exists|j: int|
                    city_at(self.cities@, (#[trigger] self.areas@[i]).city_code@, j)) && (
                exists|k: int|
                    province_at(self.provinces@, self.areas@[i].province_code@, k)),
            r matches Some(t) ==> exists|i: int, j: int, k: int|
                area_at(self.areas@, region_code@, i) && *t.2 == self.areas@[i] && city_at(
                    self.cities@,
                    self.areas@[i].city_code@,
                    j,
                ) && *t.1 == self.cities@[j] && province_at(
                    self.provinces@,
                    self.areas@[i].province_code@,
                    k,
                ) && *t.0 == self.provinces@[k],
    {
        let region = match self.get_region(region_code) {
            Some(a) => a,
            None => {
                return None;
            },
        };
        let ghost gi = choose|i: int|
            area_at(self.areas@, region_code@, i) && *region == self.areas@[i];
        let city = match self.get_city(region.city_code.as_str()) {
            Some(c) => c,
            None => {
                proof {
                    assert(forall|i: int|
                        area_at(self.areas@, region_code@, i) ==> i == gi) by {
                        assert forall|i: int|
                            area_at(self.areas@, region_code@, i) implies i == gi by {
                            if i < gi {
                                assert(self.areas@[i].code@ == region_code@);
                            }
                            if gi < i {
                                assert(self.areas@[gi].code@ == region_code@);
                            }
                        }
                    }
                }
                return None;
            },
        };
        let province = match self.get_province(region.province_code.as_str()) {
            Some(p) => p,
            None => {
                proof {
                    assert(forall|i: int|
                        area_at(self.areas@, region_code@, i) ==> i == gi) by {
                        assert forall|i: int|
                            area_at(self.areas@, region_code@, i) implies i == gi by {
                            if i < gi {
                                assert(self.areas@[i].code@ == region_code@);
                            }
                            if gi < i {
                                assert(self.areas@[gi].code@ == region_code@);
                            }
                        }
                    }
                }
                return None;
            },
        };
        Some((province, city, region))
    }
}

/// Loads a fresh cache from the three CSV texts.
pub fn init_region_cache(provinces_csv: &str, cities_csv: &str, areas_csv: &str) -> (r: Result<
    RegionCache,
    RegionError,
>)
    ensures
        r matches Ok(c) ==> province_rows_ok(csv_rows(provinces_csv@)) && provinces_match(
            c.provinces@,
            csv_rows(provinces_csv@),
        ) && city_rows_ok(csv_rows(cities_csv@)) && cities_match(c.cities@, csv_rows(cities_csv@))
            && area_rows_ok(csv_rows(areas_csv@)) && areas_match(c.areas@, csv_rows(areas_csv@)),
{
    RegionCache::new(provinces_csv, cities_csv, areas_csv)
}

/// The code of some district of the table, or the capital's first
/// district code when the table is empty.
pub fn random_area(cache: &RegionCache) -> (r: String)
    ensures
        cache.areas@.len() == 0 ==> r@ == "110101"@,
        cache.areas@.len() > 0 ==> exists|i: int|
            0 <= i < cache.areas@.len() && r@ == (#[trigger] cache.areas@[i]).code@,
{
    match cache.random_region() {
        Some(a) => a.code.clone(),
        None => String::from_str("110101"),
    }
}

/// Some province of the table, cloned out of it.
pub fn random_province(cache: &RegionCache) -> (r: Option<Province>)
    ensures
        r is Some <==> cache.provinces@.len() > 0,
        r matches Some(p) ==> exists|i: int|
            0 <= i < cache.provinces@.len() && p == cache.provinces@[i],
{
    match cache.random_province() {
        Some(p) => Some(p.clone()),
        None => None,
    }
}

/// Some city of the table, cloned out of it.
pub fn random_city(cache: &RegionCache) -> (r: Option<City>)
    ensures
        r is Some <==> cache.cities@.len() > 0,
        r matches Some(c) ==> exists|i: int|
            0 <= i < cache.cities@.len() && c == cache.cities@[i],
{
    match cache.random_city() {
        Some(c) => Some(c.clone()),
        None => None,
    }
}

/// Some district of the table with all its fields, or the capital's
/// first district when the table is empty.
pub fn random_region_full(cache: &RegionCache) -> (r: Area)
    ensures
        cache.areas@.len() > 0 ==> exists|i: int|
            0 <= i < cache.areas@.len() && r == cache.areas@[i],
        cache.areas@.len() == 0 ==> r.code@ == "110101"@ && r.city_code@ == "1101"@
            && r.province_code@ == "11"@,
{
    match cache.random_region() {
        Some(a) => a.clone(),
        None => Area {
            code: String::from_str("110101"),
            name: String::from_str("DongCheng"),
            city_code: String::from_str("1101"),
            province_code: String::from_str("11"),
        },
    }
}

/// The name of the district with this code, if any.
pub fn get_region_name(cache: &RegionCache, code: &str) -> (r: Option<String>)
    ensures
        r is Some <==> exists|i: int|
            0 <= i < cache.areas@.len() && (#[trigger] cache.areas@[i]).code@ == code@,
        r matches Some(nm) ==> exists|i: int|
            area_at(cache.areas@, code@, i) && nm@ == cache.areas@[i].name@,
{
    match cache.get_region(code) {
        Some(a) => Some(a.name.clone()),
        None => None,
    }
}

/// How many districts the table holds.
pub fn region_count(cache: &RegionCache) -> (n: usize)
    ensures
        n == cache.areas@.len(),
{
    cache.areas.len()
}

/// The district with this code together with its city and province,
/// cloned out of the table.
pub fn get_full_area_info(cache: &RegionCache, region_code: &str) -> (r: Option<
    (Province, City, Area),
>)
    ensures
        r is Some <==> exists|i: int|
            area_at(cache.areas@, region_code@, i) && (exists|j: int|
                city_at(cache.cities@, (#[trigger] cache.areas@[i]).city_code@, j)) && (
            exists|k: int|
                province_at(cache.provinces@, cache.areas@[i].province_code@, k)),
        r matches Some(t) ==> exists|i: int, j: int, k: int|
            area_at(cache.areas@, region_code@, i) && t.2 == cache.areas@[i] && city_at(
                cache.cities@,
                cache.areas@[i].city_code@,
                j,
            ) && t.1 == cache.cities@[j] && province_at(
                cache.provinces@,
                cache.areas@[i].province_code@,
                k,
            ) && t.0 == cache.provinces@[k],
{
    match cache.get_full_area_chain(region_code) {
        Some((p, c, a)) => Some((p.clone(), c.clone(), a.clone())),
        None => None,
    }
}

/// The concatenated province, city and district names for a district
/// code, if the whole chain resolves.
pub fn get_full_area_info_str(cache: &RegionCache, region_code: &str) -> (r: Option<String>)
    ensures
        r is Some <==> exists|i: int|
            area_at(cache.areas@, region_code@, i) && (exists|j: int|
                city_at(cache.cities@, (#[trigger] cache.areas@[i]).city_code@, j)) && (
            exists|k: int|
                province_at(cache.provinces@, cache.areas@[i].province_code@, k)),
        r matches Some(s) ==> exists|i: int, j: int, k: int|
            area_at(cache.areas@, region_code@, i) && city_at(
                cache.cities@,
                cache.areas@[i].city_code@,
                j,
            ) && province_at(cache.provinces@, cache.areas@[i].province_code@, k) && s@
                == cache.provinces@[k].name@ + cache.cities@[j].name@ + cache.areas@[i].name@,
{
    match cache.get_full_area_chain(region_code) {
        Some((p, c, a)) => {
            let mut s = p.name.clone();
            s.append(c.name.as_str());
            s.append(a.name.as_str());
            Some(s)
        },
        None => None,
    }
}

/// All cities of a province, cloned out of the table.
pub fn get_cities_by_province(cache: &RegionCache, province_code: &str) -> (r: Vec<City>)
    ensures
        r@ == cities_in_province(cache.cities@, province_code@),
{
    cache.get_cities_by_province(province_code)
}

/// All districts of a city, cloned out of the table.
pub fn get_regions_by_city(cache: &RegionCache, city_code: &str) -> (r: Vec<Area>)
    ensures
        r@ == areas_in_city(cache.areas@, city_code@),
{
    cache.get_regions_by_city(city_code)
}

} // verus!
