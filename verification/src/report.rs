//! The scan report: aggregate totals over the ordered result list, and the
//! flat exchange form whose fields are plain JSON-compatible values.
//!
//! `ScanRecord` is the report a completed job hands to output and storage.
//! `FlatRecord` is its flat form: port numbers, status names and totals as
//! plain integers and strings. Rendering to the flat form and parsing it
//! back are verified inverses on the totals and the ordered results.

use vstd::prelude::*;
use crate::orchestrator::{
    aggregate_results, lemma_filter_take_step, retained_seq, sorted_by_port,
};
use crate::port::{port_valid, Port};
use crate::result::{PortResult, PortStatus, ScanType};
use crate::scan_id::ScanId;

verus! {

/// Whether a result counts as open in the report totals; the ambiguous
/// open-or-filtered status counts as open.
pub open spec fn spec_counts_open(r: PortResult) -> bool {
    r.status is Open || r.status is OpenFiltered
}

/// How many results count as open.
pub open spec fn count_open(s: Seq<PortResult>) -> int {
    s.filter(|r: PortResult| spec_counts_open(r)).len() as int
}

/// How many results are closed.
pub open spec fn count_closed(s: Seq<PortResult>) -> int {
    s.filter(|r: PortResult| r.status is Closed).len() as int
}

/// How many results are filtered.
pub open spec fn count_filtered(s: Seq<PortResult>) -> int {
    s.filter(|r: PortResult| r.status is Filtered).len() as int
}

/// Relies on chrono::Utc::now for the current wall-clock time, as
/// milliseconds since the epoch.
#[verifier::external_body]
fn now_millis() -> i64 {
    chrono::Utc::now().timestamp_millis()
}

/// A completed scan report.
#[derive(Debug, Clone)]
pub struct ScanRecord {
    /// Unique identifier for this scan.
    pub id: ScanId,
    /// When the scan started, in milliseconds since the epoch.
    pub started_at_ms: i64,
    /// When the scan completed, in milliseconds since the epoch.
    pub completed_at_ms: i64,
    /// Target as the user named it (hostname or address).
    pub target: String,
    /// Resolved address.
    pub ip_address: String,
    /// The technique, rendered as text.
    pub scan_type: String,
    /// How many results the report holds.
    pub ports_scanned: usize,
    /// How many results count as open.
    pub open_ports: usize,
    /// How many results are closed.
    pub closed_ports: usize,
    /// How many results are filtered.
    pub filtered_ports: usize,
    /// Total scan duration in milliseconds.
    pub duration_ms: u64,
    /// Per-port results, ascending by port.
    pub results: Vec<PortResult>,
}

impl ScanRecord {
    /// Create an empty record for a scan that is starting now.
    pub fn new(target: &str, ip: &str, scan_type: ScanType) -> (r: ScanRecord)
        ensures
            r.target@ == target@,
            r.ip_address@ == ip@,
            r.scan_type@ == scan_type.spec_name(),
            r.ports_scanned == 0,
            r.open_ports == 0,
            r.closed_ports == 0,
            r.filtered_ports == 0,
            r.duration_ms == 0,
            r.results@ == Seq::<PortResult>::empty(),
    {
        let now = now_millis();
        ScanRecord {
            id: ScanId::new(),
            started_at_ms: now,
            completed_at_ms: now,
            target: target.to_owned(),
            ip_address: ip.to_owned(),
            scan_type: scan_type.as_str().to_owned(),
            ports_scanned: 0,
            open_ports: 0,
            closed_ports: 0,
            filtered_ports: 0,
            duration_ms: 0,
            results: Vec::new(),
        }
    }

    /// Fill the record with the final results and duration; the totals are
    /// exactly the counts over the result list.
    pub fn finalize(self, results: Vec<PortResult>, duration_ms: u64) -> (r: ScanRecord)
        ensures
            r.ports_scanned == results@.len(),
            r.open_ports == count_open(results@),
            r.closed_ports == count_closed(results@),
            r.filtered_ports == count_filtered(results@),
            r.duration_ms == duration_ms,
            r.results@ == results@,
            r.id == self.id,
            r.started_at_ms == self.started_at_ms,
            r.target@ == self.target@,
            r.ip_address@ == self.ip_address@,
            r.scan_type@ == self.scan_type@,
    {
        let ghost all = results@;
        let ghost open_pred = |x: PortResult| spec_counts_open(x);
        let ghost closed_pred = |x: PortResult| x.status is Closed;
        let ghost filtered_pred = |x: PortResult| x.status is Filtered;
        let mut open: usize = 0;
        let mut closed: usize = 0;
        let mut filtered: usize = 0;
        let mut i: usize = 0;
        proof {
            reveal(Seq::filter);
            assert(all.take(0) =~= Seq::<PortResult>::empty());
        }
        while i < results.len()
            invariant
                i <= all.len(),
                results@ == all,
                open == all.take(i as int).filter(open_pred).len(),
                closed == all.take(i as int).filter(closed_pred).len(),
                filtered == all.take(i as int).filter(filtered_pred).len(),
                open + closed + filtered <= i,
                open_pred == |x: PortResult| spec_counts_open(x),
                closed_pred == |x: PortResult| x.status is Closed,
                filtered_pred == |x: PortResult| x.status is Filtered,
            decreases all.len() - i,
        {
            proof {
                lemma_filter_take_step(all, open_pred, i as int);
                lemma_filter_take_step(all, closed_pred, i as int);
                lemma_filter_take_step(all, filtered_pred, i as int);
            }
            match results[i].status {
                PortStatus::Open | PortStatus::OpenFiltered => {
                    open = open + 1;
                },
                PortStatus::Closed => {
                    closed = closed + 1;
                },
                PortStatus::Filtered => {
                    filtered = filtered + 1;
                },
            }
            i = i + 1;
        }
        proof {
            assert(all.take(all.len() as int) =~= all);
        }
        let count = results.len();
        ScanRecord {
            completed_at_ms: now_millis(),
            ports_scanned: count,
            open_ports: open,
            closed_ports: closed,
            filtered_ports: filtered,
            duration_ms,
            results,
            ..self
        }
    }
}

/// The verified core of a scan job's completion: filter and sort the raw
/// per-port results, then wrap them into a report whose totals are the
/// counts over the final list.
pub fn build_report(
    target: &str,
    ip: &str,
    scan_type: ScanType,
    raw_results: Vec<PortResult>,
    show_closed: bool,
    duration_ms: u64,
) -> (r: ScanRecord)
    ensures
        sorted_by_port(r.results@),
        r.results@.to_multiset() == retained_seq(raw_results@, show_closed).to_multiset(),
        r.ports_scanned == retained_seq(raw_results@, show_closed).len(),
        r.open_ports == count_open(r.results@),
        r.closed_ports == count_closed(r.results@),
        r.filtered_ports == count_filtered(r.results@),
        r.duration_ms == duration_ms,
        r.target@ == target@,
        r.ip_address@ == ip@,
        r.scan_type@ == scan_type.spec_name(),
{
    let aggregated = aggregate_results(raw_results, show_closed);
    ScanRecord::new(target, ip, scan_type).finalize(aggregated, duration_ms)
}

/// One port result in the flat exchange form: plain values only.
#[derive(Debug, Clone, PartialEq)]
pub struct FlatPortResult {
    /// The scanned port number.
    pub port: u16,
    /// The status name: "open", "closed", "filtered" or "open|filtered".
    pub status: String,
    /// The service name.
    pub service: String,
    /// The captured banner, if any.
    pub banner: Option<String>,
    /// The response time in milliseconds, if measured.
    pub response_time_ms: Option<u64>,
}

/// A report in the flat exchange form: job-level totals and duration plus
/// the ordered rows, every field a plain JSON-compatible value.
#[derive(Debug, Clone, PartialEq)]
pub struct FlatRecord {
    /// Target as the user named it.
    pub target: String,
    /// Resolved address.
    pub ip_address: String,
    /// The technique, rendered as text.
    pub scan_type: String,
    /// How many results the report holds.
    pub ports_scanned: u64,
    /// How many results count as open.
    pub open_ports: u64,
    /// How many results are closed.
    pub closed_ports: u64,
    /// How many results are filtered.
    pub filtered_ports: u64,
    /// Total scan duration in milliseconds.
    pub duration_ms: u64,
    /// Per-port rows, in report order.
    pub results: Vec<FlatPortResult>,
}

/// Error raised when a flat record does not describe a report.
#[derive(Debug, Clone)]
pub enum RecordError {
    /// A row names a port outside 1..=65535.
    InvalidPort(u16),
    /// A row's status is not one of the four status names.
    InvalidStatus(String),
    /// A total does not fit this platform's counters.
    CountTooLarge(u64),
}

/// A flat row faithfully renders a port result.
pub open spec fn flat_result_abstracts(f: FlatPortResult, r: PortResult) -> bool {
    &&& f.port == r.port@
    &&& f.status@ == r.status.spec_name()
    &&& f.service@ == r.service@
    &&& (f.banner is Some <==> r.banner is Some)
    &&& (f.banner is Some ==> f.banner.unwrap()@ == r.banner.unwrap()@)
    &&& f.response_time_ms == r.response_time_ms
}

/// A flat record faithfully renders a report: same identity text, same
/// totals, and row for row the same ordered results.
pub open spec fn flat_abstracts(f: FlatRecord, r: ScanRecord) -> bool {
    &&& f.target@ == r.target@
    &&& f.ip_address@ == r.ip_address@
    &&& f.scan_type@ == r.scan_type@
    &&& f.ports_scanned == r.ports_scanned as u64
    &&& f.open_ports == r.open_ports as u64
    &&& f.closed_ports == r.closed_ports as u64
    &&& f.filtered_ports == r.filtered_ports as u64
    &&& f.duration_ms == r.duration_ms
    &&& f.results@.len() == r.results@.len()
    &&& forall|i: int|
        0 <= i < f.results@.len() ==> flat_result_abstracts(
            #[trigger] f.results@[i],
            r.results@[i],
        )
}

/// A flat record that parses back into a report: ports in range, statuses
/// among the four names, totals within this platform's counters.
pub open spec fn flat_wf(f: FlatRecord) -> bool {
    &&& f.ports_scanned <= usize::MAX as u64
    &&& f.open_ports <= usize::MAX as u64
    &&& f.closed_ports <= usize::MAX as u64
    &&& f.filtered_ports <= usize::MAX as u64
    &&& forall|i: int|
        0 <= i < f.results@.len() ==> port_valid(#[trigger] f.results@[i].port)
            && PortStatus::spec_of_name(f.results@[i].status@) is Some
}

impl ScanRecord {
    /// Render the report in the flat exchange form. The rendering is
    /// faithful and always parses back.
    pub fn to_flat(&self) -> (f: FlatRecord)
        ensures
            flat_abstracts(f, *self),
            flat_wf(f),
    {
        let mut rows: Vec<FlatPortResult> = Vec::new();
        let mut i: usize = 0;
        while i < self.results.len()
            invariant
                i <= self.results@.len(),
                rows@.len() == i,
                forall|k: int|
                    0 <= k < i ==> flat_result_abstracts(
                        #[trigger] rows@[k],
                        self.results@[k],
                    ),
                forall|k: int|
                    0 <= k < i ==> port_valid(#[trigger] rows@[k].port)
                        && PortStatus::spec_of_name(rows@[k].status@) is Some,
            decreases self.results@.len() - i,
        {
            let res = &self.results[i];
            proof {
                use_type_invariant(res.port);
                res.status.lemma_name_round_trip();
            }
            let banner: Option<String> = match &res.banner {
                Some(b) => Some(b.clone()),
                None => None,
            };
            rows.push(
                FlatPortResult {
                    port: res.port.as_u16(),
                    status: res.status.as_str().to_owned(),
                    service: res.service.clone(),
                    banner,
                    response_time_ms: res.response_time_ms,
                },
            );
            i = i + 1;
        }
        FlatRecord {
            target: self.target.clone(),
            ip_address: self.ip_address.clone(),
            scan_type: self.scan_type.clone(),
            ports_scanned: self.ports_scanned as u64,
            open_ports: self.open_ports as u64,
            closed_ports: self.closed_ports as u64,
            filtered_ports: self.filtered_ports as u64,
            duration_ms: self.duration_ms,
            results: rows,
        }
    }
}

impl FlatRecord {
    /// Parse the flat form back into a report. Succeeds exactly on
    /// well-formed flat records and reproduces the totals and the ordered
    /// results; the identity and the timestamps are the storage layer's and
    /// are passed in.
    pub fn parse(
        &self,
        id: ScanId,
        started_at_ms: i64,
        completed_at_ms: i64,
    ) -> (r: Result<ScanRecord, RecordError>)
        ensures
            r is Ok <==> flat_wf(*self),
            r is Ok ==> flat_abstracts(*self, r.unwrap()),
            r is Ok ==> r.unwrap().id == id && r.unwrap().started_at_ms == started_at_ms
                && r.unwrap().completed_at_ms == completed_at_ms,
    {
        if self.ports_scanned > usize::MAX as u64 {
            return Err(RecordError::CountTooLarge(self.ports_scanned));
        }
        if self.open_ports > usize::MAX as u64 {
            return Err(RecordError::CountTooLarge(self.open_ports));
        }
        if self.closed_ports > usize::MAX as u64 {
            return Err(RecordError::CountTooLarge(self.closed_ports));
        }
        if self.filtered_ports > usize::MAX as u64 {
            return Err(RecordError::CountTooLarge(self.filtered_ports));
        }
        let mut results: Vec<PortResult> = Vec::new();
        let mut i: usize = 0;
        while i < self.results.len()
            invariant
                i <= self.results@.len(),
                results@.len() == i,
                forall|k: int|
                    0 <= k < i ==> flat_result_abstracts(
                        #[trigger] self.results@[k],
                        results@[k],
                    ),
                forall|k: int|
                    0 <= k < i ==> port_valid(#[trigger] self.results@[k].port)
                        && PortStatus::spec_of_name(self.results@[k].status@) is Some,
            decreases self.results@.len() - i,
        {
            let row = &self.results[i];
            let port = match Port::new(row.port) {
                Some(p) => p,
                None => {
                    return Err(RecordError::InvalidPort(row.port));
                },
            };
            let status = match PortStatus::parse(row.status.as_str()) {
                Some(s) => s,
                None => {
                    return Err(RecordError::InvalidStatus(row.status.clone()));
                },
            };
            let banner: Option<String> = match &row.banner {
                Some(b) => Some(b.clone()),
                None => None,
            };
            results.push(
                PortResult {
                    port,
                    status,
                    service: row.service.clone(),
                    banner,
                    response_time_ms: row.response_time_ms,
                },
            );
            i = i + 1;
        }
        Ok(
            ScanRecord {
                id,
                started_at_ms,
                completed_at_ms,
                target: self.target.clone(),
                ip_address: self.ip_address.clone(),
                scan_type: self.scan_type.clone(),
                ports_scanned: self.ports_scanned as usize,
                open_ports: self.open_ports as usize,
                closed_ports: self.closed_ports as usize,
                filtered_ports: self.filtered_ports as usize,
                duration_ms: self.duration_ms,
                results,
            },
        )
    }
}

/// Round trip through the flat form: the flat record determines the report.
/// Rendering a report and parsing the rendering back reproduces the totals
/// and, row for row, the ordered results: any two reports that the same
/// flat record renders agree on all of them.
pub proof fn lemma_flat_round_trip(f: FlatRecord, a: ScanRecord, b: ScanRecord)
    requires
        flat_abstracts(f, a),
        flat_abstracts(f, b),
    ensures
        a.target@ == b.target@,
        a.ip_address@ == b.ip_address@,
        a.scan_type@ == b.scan_type@,
        a.ports_scanned == b.ports_scanned,
        a.open_ports == b.open_ports,
        a.closed_ports == b.closed_ports,
        a.filtered_ports == b.filtered_ports,
        a.duration_ms == b.duration_ms,
        a.results@.len() == b.results@.len(),
        forall|i: int|
            0 <= i < a.results@.len() ==> {
                let x = #[trigger] a.results@[i];
                let y = b.results@[i];
                x.port@ == y.port@ && x.status == y.status && x.service@ == y.service@ && (
                x.banner is Some <==> y.banner is Some) && (x.banner is Some
                    ==> x.banner.unwrap()@ == y.banner.unwrap()@) && x.response_time_ms
                    == y.response_time_ms
            },
{
    assert forall|i: int| 0 <= i < a.results@.len() implies {
        let x = #[trigger] a.results@[i];
        let y = b.results@[i];
        x.port@ == y.port@ && x.status == y.status && x.service@ == y.service@ && (
        x.banner is Some <==> y.banner is Some) && (x.banner is Some ==> x.banner.unwrap()@
            == y.banner.unwrap()@) && x.response_time_ms == y.response_time_ms
    } by {
        let x = a.results@[i];
        let y = b.results@[i];
        assert(flat_result_abstracts(f.results@[i], x));
        assert(flat_result_abstracts(f.results@[i], y));
        x.status.lemma_name_round_trip();
        y.status.lemma_name_round_trip();
    }
}

} // verus!
