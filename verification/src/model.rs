//! What is scraped: stations, their records, and the report of one station.

use std::hash::Hash;
use std::hash::Hasher;
use vstd::prelude::*;
use vstd::string::*;

verus! {

/// One monitored installation.
///
/// A station is known by its `id`: two stations with the same `id` are the
/// same station, whatever their names say.
#[derive(Debug, Eq)]
pub struct Station {
    pub id: String,
    pub name: String,
}

/// A station as contracts see it.
pub struct StationView {
    pub id: Seq<char>,
    pub name: Seq<char>,
}

impl View for Station {
    type V = StationView;

    open spec fn view(&self) -> StationView {
        StationView { id: self.id@, name: self.name@ }
    }
}

impl Clone for Station {
    fn clone(&self) -> (r: Self)
        ensures
            r == *self,
    {
        Station { id: self.id.clone(), name: self.name.clone() }
    }
}

impl PartialEq for Station {
    fn eq(&self, other: &Self) -> (r: bool) {
        self.id == other.id
    }
}

impl vstd::std_specs::cmp::PartialEqSpecImpl for Station {
    open spec fn obeys_eq_spec() -> bool {
        true
    }

    open spec fn eq_spec(&self, other: &Self) -> bool {
        self.id@ == other.id@
    }
}

/// `Hash::hash` of `String`, which feeds a text to a hasher. Nothing is
/// claimed of what the hasher makes of it.
pub assume_specification<H: Hasher>[ <String as Hash>::hash ](text: &String, state: &mut H);

impl Hash for Station {
    /// Feeds the `id` alone to the hasher, so that equal stations hash alike.
    fn hash<H: Hasher>(&self, state: &mut H) {
        self.id.hash(state)
    }
}

impl Station {
    /// The station as it is shown: its name.
    pub fn to_string(&self) -> (r: String)
        ensures
            r@ == self.name@,
    {
        self.name.clone()
    }
}

/// One row of a station's table: a date and the yield measured on it.
///
/// The yield is kept as the numeral it is written with. A cell that held no
/// number gives `None`, which is not the same as a yield of zero; only when a
/// record is written out does a missing yield read `0`.
#[derive(Debug, PartialEq)]
pub struct Record {
    pub date: String,
    pub pv_yield: Option<String>,
}

/// A record as contracts see it.
pub struct RecordView {
    pub date: Seq<char>,
    pub pv_yield: Option<Seq<char>>,
}

impl RecordView {
    /// The yield as it is written out: the numeral, or `0` where there is none.
    pub open spec fn value(self) -> Seq<char> {
        match self.pv_yield {
            Some(v) => v,
            None => seq!['0'],
        }
    }

    /// The record as a line of separated values: the date, `"; "`, the yield.
    pub open spec fn csv(self) -> Seq<char> {
        self.date + seq![';', ' '] + self.value()
    }

    /// The record as a line of a log: `"["`, the date, `"]: "`, the yield.
    pub open spec fn log(self) -> Seq<char> {
        seq!['['] + self.date + seq![']', ':', ' '] + self.value()
    }
}

impl View for Record {
    type V = RecordView;

    open spec fn view(&self) -> RecordView {
        RecordView {
            date: self.date@,
            pv_yield: match self.pv_yield {
                Some(v) => Some(v@),
                None => None,
            },
        }
    }
}

impl Clone for Record {
    fn clone(&self) -> (r: Self)
        ensures
            r == *self,
    {
        let pv_yield = match &self.pv_yield {
            Some(v) => Some(v.clone()),
            None => None,
        };
        Record { date: self.date.clone(), pv_yield }
    }
}

impl Record {
    /// The yield alone.
    pub fn to_value(&self) -> (r: String)
        ensures
            r@ == self@.value(),
    {
        match &self.pv_yield {
            Some(v) => v.clone(),
            None => {
                proof {
                    reveal_strlit("0");
                }
                let r = "0".to_owned();
                assert(r@ =~= seq!['0']);
                r
            },
        }
    }

    /// The date and the yield, separated by `"; "`.
    pub fn to_csv(&self) -> (r: String)
        ensures
            r@ == self@.csv(),
    {
        proof {
            reveal_strlit("; ");
        }
        let value = self.to_value();
        let r = self.date.clone().concat("; ").concat(value.as_str());
        assert("; "@ =~= seq![';', ' ']);
        r
    }

    /// The date in square brackets, a colon, and the yield.
    pub fn to_string(&self) -> (r: String)
        ensures
            r@ == self@.log(),
    {
        proof {
            reveal_strlit("[");
            reveal_strlit("]: ");
        }
        let value = self.to_value();
        let r = "[".to_owned().concat(self.date.as_str()).concat("]: ").concat(value.as_str());
        assert("["@ =~= seq!['[']);
        assert("]: "@ =~= seq![']', ':', ' ']);
        r
    }
}

/// The views of a sequence of records, in the same order.
pub open spec fn record_views(records: Seq<Record>) -> Seq<RecordView> {
    records.map_values(|r: Record| r@)
}

/// All that was read of one station: its records in the order of the table's
/// rows.
#[derive(Debug, PartialEq)]
pub struct Report {
    pub station: Station,
    pub records: Vec<Record>,
}

/// A report as contracts see it.
pub struct ReportView {
    pub station: StationView,
    pub records: Seq<RecordView>,
}

impl Clone for Report {
    fn clone(&self) -> (r: Self)
        ensures
            r.station == self.station,
            r.records@ == self.records@,
    {
        let mut records: Vec<Record> = Vec::new();
        let mut i: usize = 0;
        while i < self.records.len()
            invariant
                i <= self.records.len(),
                records@ == self.records@.take(i as int),
            decreases self.records.len() - i,
        {
            records.push(self.records[i].clone());
            proof {
                assert(records@ =~= self.records@.take(i + 1));
            }
            i += 1;
        }
        proof {
            assert(self.records@.take(self.records.len() as int) =~= self.records@);
        }
        Report { station: self.station.clone(), records }
    }
}

impl View for Report {
    type V = ReportView;

    open spec fn view(&self) -> ReportView {
        ReportView { station: self.station@, records: record_views(self.records@) }
    }
}

} // verus!
