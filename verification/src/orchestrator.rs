//! Scan job configuration, the concurrency gate, and result aggregation.
//!
//! The orchestrator's verified core: a job's settings, the counter that
//! bounds how many probes are in flight at once, and the aggregation that
//! filters and sorts per-port results before they enter the report.

use vstd::prelude::*;
use crate::port::Port;
use crate::result::{PortResult, PortStatus};

verus! {

broadcast use {vstd::seq_lib::group_to_multiset_ensures, vstd::multiset::group_multiset_axioms};

/// Configuration for a complete scan job.
#[derive(Debug, Clone)]
pub struct ScanJobConfig {
    /// Ports to scan.
    pub ports: Vec<Port>,
    /// Maximum concurrent probes.
    pub concurrency: usize,
    /// Whether to report progress while scanning.
    pub verbose: bool,
    /// Whether closed ports stay in the report.
    pub show_closed: bool,
    /// Rate limit in probes per second; zero means unlimited.
    pub rate_limit: u32,
}

impl Default for ScanJobConfig {
    /// The default job: no ports, 500-way concurrency, quiet, closed ports
    /// dropped, no rate limit.
    fn default() -> (r: ScanJobConfig)
        ensures
            r.ports@ == Seq::<Port>::empty(),
            r.concurrency == 500,
            !r.verbose,
            !r.show_closed,
            r.rate_limit == 0,
    {
        ScanJobConfig {
            ports: Vec::new(),
            concurrency: 500,
            verbose: false,
            show_closed: false,
            rate_limit: 0,
        }
    }
}

impl ScanJobConfig {
    /// A job over the given ports, with every other setting at its default.
    pub fn new(ports: Vec<Port>) -> (r: ScanJobConfig)
        ensures
            r.ports@ == ports@,
            r.concurrency == 500,
            !r.verbose,
            !r.show_closed,
            r.rate_limit == 0,
    {
        ScanJobConfig { ports, concurrency: 500, verbose: false, show_closed: false, rate_limit: 0 }
    }

    /// Set the concurrency cap.
    pub fn with_concurrency(self, concurrency: usize) -> (r: ScanJobConfig)
        ensures
            r == (ScanJobConfig { concurrency, ..self }),
    {
        ScanJobConfig { concurrency, ..self }
    }

    /// Enable progress reporting.
    pub fn with_verbose(self) -> (r: ScanJobConfig)
        ensures
            r == (ScanJobConfig { verbose: true, ..self }),
    {
        ScanJobConfig { verbose: true, ..self }
    }

    /// Keep closed ports in the report.
    pub fn with_closed(self) -> (r: ScanJobConfig)
        ensures
            r == (ScanJobConfig { show_closed: true, ..self }),
    {
        ScanJobConfig { show_closed: true, ..self }
    }

    /// Set the rate limit.
    pub fn with_rate_limit(self, rate: u32) -> (r: ScanJobConfig)
        ensures
            r == (ScanJobConfig { rate_limit: rate, ..self }),
    {
        ScanJobConfig { rate_limit: rate, ..self }
    }
}

/// The counter that enforces the concurrency cap: every probe takes a slot
/// before it runs and hands it back when it finishes. Well-formedness says
/// the probes in flight never exceed the cap.
pub struct ConcurrencyGate {
    cap: usize,
    in_flight: usize,
}

impl ConcurrencyGate {
    /// The configured cap.
    pub closed spec fn spec_cap(self) -> usize {
        self.cap
    }

    /// How many probes hold a slot right now.
    pub closed spec fn spec_in_flight(self) -> usize {
        self.in_flight
    }

    /// Well-formedness: a positive cap that the probes in flight never
    /// exceed.
    pub open spec fn wf(self) -> bool {
        &&& self.spec_cap() >= 1
        &&& self.spec_in_flight() <= self.spec_cap()
    }

    /// Create a gate for at most `cap` concurrent probes.
    pub fn new(cap: usize) -> (r: ConcurrencyGate)
        requires
            cap >= 1,
        ensures
            r.wf(),
            r.spec_cap() == cap,
            r.spec_in_flight() == 0,
    {
        ConcurrencyGate { cap, in_flight: 0 }
    }

    /// Take a slot if one is free; a probe may only run after this
    /// returns true.
    pub fn try_start(&mut self) -> (r: bool)
        requires
            old(self).wf(),
        ensures
            final(self).wf(),
            final(self).spec_cap() == old(self).spec_cap(),
            r == (old(self).spec_in_flight() < old(self).spec_cap()),
            r ==> final(self).spec_in_flight() == old(self).spec_in_flight() + 1,
            !r ==> final(self).spec_in_flight() == old(self).spec_in_flight(),
    {
        if self.in_flight < self.cap {
            self.in_flight = self.in_flight + 1;
            true
        } else {
            false
        }
    }

    /// The configured cap.
    pub fn cap(&self) -> (r: usize)
        ensures
            r == self.spec_cap(),
    {
        self.cap
    }

    /// How many probes hold a slot right now.
    pub fn in_flight(&self) -> (r: usize)
        ensures
            r == self.spec_in_flight(),
    {
        self.in_flight
    }

    /// Hand a slot back when a probe finishes, whatever its outcome.
    pub fn finish(&mut self)
        requires
            old(self).wf(),
            old(self).spec_in_flight() >= 1,
        ensures
            final(self).wf(),
            final(self).spec_cap() == old(self).spec_cap(),
            final(self).spec_in_flight() == old(self).spec_in_flight() - 1,
    {
        self.in_flight = self.in_flight - 1;
    }
}

/// The concurrency cap holds at every moment: a well-formed gate never has
/// more probes in flight than its cap, so a scan of any number of ports
/// driven through `try_start` and `finish` never exceeds the configured
/// concurrency.
pub proof fn lemma_concurrency_cap(gate: ConcurrencyGate)
    requires
        gate.wf(),
    ensures
        gate.spec_in_flight() <= gate.spec_cap(),
{
}

/// Whether a result stays in the report: closed ports are dropped unless
/// the caller asked to retain them.
pub open spec fn spec_retained(x: PortResult, show_closed: bool) -> bool {
    show_closed || !(x.status is Closed)
}

/// The results that stay in the report, in scan order.
pub open spec fn retained_seq(s: Seq<PortResult>, show_closed: bool) -> Seq<PortResult> {
    s.filter(|x: PortResult| spec_retained(x, show_closed))
}

/// The port values of a sequence of results.
pub open spec fn ports_of(s: Seq<PortResult>) -> Seq<u16> {
    s.map_values(|r: PortResult| r.port@)
}

/// Results ordered by ascending port number.
pub open spec fn sorted_by_port(s: Seq<PortResult>) -> bool {
    forall|i: int, j: int| 0 <= i < j < s.len() ==> s[i].port@ <= s[j].port@
}

/// Filtering one more element extends the kept sequence exactly when the
/// element is retained.
pub(crate) proof fn lemma_filter_take_step(s: Seq<PortResult>, pred: spec_fn(PortResult) -> bool, i: int)
    requires
        0 <= i < s.len(),
    ensures
        s.take(i + 1).filter(pred) == (if pred(s[i]) {
            s.take(i).filter(pred).push(s[i])
        } else {
            s.take(i).filter(pred)
        }),
{
    reveal(Seq::filter);
    assert(s.take(i + 1).drop_last() =~= s.take(i));
    assert(s.take(i + 1).last() == s[i]);
}

/// Insert a result into a port-sorted vector, keeping it sorted.
fn insert_by_port(v: &mut Vec<PortResult>, x: PortResult)
    requires
        sorted_by_port(old(v)@),
    ensures
        sorted_by_port(final(v)@),
        final(v)@.to_multiset() == old(v)@.to_multiset().insert(x),
        ports_of(final(v)@).to_multiset() == ports_of(old(v)@).to_multiset().insert(x.port@),
        final(v)@.len() == old(v)@.len() + 1,
{
    let n = v.len();
    let xp = x.port.as_u16();
    let mut idx: usize = 0;
    while idx < n && v[idx].port.as_u16() <= xp
        invariant
            idx <= n,
            n == v@.len(),
            sorted_by_port(v@),
            xp == x.port@,
            forall|k: int| 0 <= k < idx ==> v@[k].port@ <= x.port@,
        decreases n - idx,
    {
        idx = idx + 1;
    }
    let ghost prev = v@;
    v.insert(idx, x);
    proof {
        assert forall|i: int, j: int|
            0 <= i < j < final(v)@.len() implies final(v)@[i].port@ <= final(v)@[j].port@ by {
            let s = final(v)@;
            if i < idx && j == idx {
                assert(s[i] == prev[i]);
            } else if i == idx && j > idx {
                assert(s[j] == prev[j - 1]);
                assert(prev[idx as int].port@ > x.port@);
            } else if i < idx && j > idx {
                assert(s[i] == prev[i] && s[j] == prev[j - 1]);
            } else if i < idx && j < idx {
                assert(s[i] == prev[i] && s[j] == prev[j]);
            } else {
                assert(s[i] == prev[i - 1] && s[j] == prev[j - 1]);
            }
        }
        assert(ports_of(final(v)@) =~= ports_of(prev).insert(idx as int, x.port@));
    }
}

/// Filter and order the raw per-port results for the report: closed ports
/// are dropped unless retained, and what stays is sorted ascending by port.
/// The output is exactly the retained results, rearranged.
pub fn aggregate_results(results: Vec<PortResult>, show_closed: bool) -> (r: Vec<PortResult>)
    ensures
        sorted_by_port(r@),
        r@.to_multiset() == retained_seq(results@, show_closed).to_multiset(),
        ports_of(r@).to_multiset() == ports_of(retained_seq(results@, show_closed)).to_multiset(),
        r@.len() == retained_seq(results@, show_closed).len(),
{
    let ghost orig = results@;
    let ghost pred = |x: PortResult| spec_retained(x, show_closed);
    let mut rest = results;
    let mut out: Vec<PortResult> = Vec::new();
    proof {
        assert(orig.take(0).filter(pred) =~= Seq::<PortResult>::empty());
        assert(orig.take(0) =~= Seq::<PortResult>::empty());
        reveal(Seq::filter);
        assert(out@ =~= orig.take(0).filter(pred));
        assert(ports_of(out@) =~= ports_of(orig.take(0).filter(pred)));
    }
    while rest.len() > 0
        invariant
            rest@.len() <= orig.len(),
            rest@ == orig.skip(orig.len() - rest@.len()),
            sorted_by_port(out@),
            out@.to_multiset() == orig.take(orig.len() - rest@.len()).filter(pred).to_multiset(),
            ports_of(out@).to_multiset() == ports_of(
                orig.take(orig.len() - rest@.len()).filter(pred),
            ).to_multiset(),
            out@.len() == orig.take(orig.len() - rest@.len()).filter(pred).len(),
            pred == |x: PortResult| spec_retained(x, show_closed),
        decreases rest@.len(),
    {
        let ghost k = orig.len() - rest@.len();
        let ghost old_rest = rest@;
        let x = rest.remove(0);
        proof {
            assert(old_rest == orig.skip(k));
            assert(orig.skip(k)[0] == orig[k]);
            assert(x == orig[k]);
            assert forall|i: int| 0 <= i < rest@.len() implies rest@[i] == orig.skip(k + 1)[i] by {
                assert(rest@[i] == old_rest[i + 1]);
                assert(orig.skip(k)[i + 1] == orig[k + 1 + i]);
                assert(orig.skip(k + 1)[i] == orig[k + 1 + i]);
            }
            assert(rest@ =~= orig.skip(k + 1));
            lemma_filter_take_step(orig, pred, k);
        }
        let keep = match x.status {
            PortStatus::Closed => show_closed,
            _ => true,
        };
        if keep {
            let ghost old_out = out@;
            insert_by_port(&mut out, x);
            proof {
                let kept = orig.take(k).filter(pred);
                assert(orig.take(k + 1).filter(pred) == kept.push(x));
                assert(kept.push(x).to_multiset() == kept.to_multiset().insert(x));
                assert(ports_of(kept.push(x)) =~= ports_of(kept).push(x.port@));
            }
        }
    }
    proof {
        assert(orig.take(orig.len() - rest@.len()) =~= orig);
        assert(retained_seq(orig, show_closed) == orig.filter(pred)) by {
            assert(pred =~= |x: PortResult| spec_retained(x, show_closed));
        }
    }
    out
}

/// Every element of a filtered sequence occurs in the unfiltered one.
proof fn lemma_filter_element_of(s: Seq<PortResult>, pred: spec_fn(PortResult) -> bool, x: PortResult)
    requires
        s.filter(pred).contains(x),
    ensures
        s.contains(x),
    decreases s.len(),
{
    reveal(Seq::filter);
    if s.len() > 0 {
        if pred(s.last()) && x == s.last() {
            assert(s[s.len() - 1] == x);
        } else {
            lemma_filter_element_of(s.drop_last(), pred, x);
            let i = choose|i: int| 0 <= i < s.drop_last().len() && s.drop_last()[i] == x;
            assert(s[i] == x);
        }
    }
}

/// A filter keeps every retained element, so a sequence where every element
/// is retained passes through unchanged.
proof fn lemma_filter_all(s: Seq<PortResult>, pred: spec_fn(PortResult) -> bool)
    requires
        forall|i: int| 0 <= i < s.len() ==> pred(#[trigger] s[i]),
    ensures
        s.filter(pred) == s,
    decreases s.len(),
{
    reveal(Seq::filter);
    if s.len() > 0 {
        lemma_filter_all(s.drop_last(), pred);
        assert(s.drop_last().push(s.last()) =~= s);
    }
}

/// A port value occurs in a filtered sequence at most as often as in the
/// unfiltered one.
proof fn lemma_filter_port_count(s: Seq<PortResult>, pred: spec_fn(PortResult) -> bool, p: u16)
    ensures
        ports_of(s.filter(pred)).to_multiset().count(p) <= ports_of(s).to_multiset().count(p),
    decreases s.len(),
{
    reveal(Seq::filter);
    if s.len() > 0 {
        let t = s.drop_last();
        lemma_filter_port_count(t, pred, p);
        assert(ports_of(s) =~= ports_of(t).push(s.last().port@));
        if pred(s.last()) {
            assert(ports_of(s.filter(pred)) =~= ports_of(t.filter(pred)).push(s.last().port@));
        }
    }
}

/// The report never grows beyond one entry per scanned port: with closed
/// ports retained, the aggregated list is exactly as long as the raw result
/// list (one result per scanned port); without them, it is never longer.
pub proof fn lemma_report_length(results: Seq<PortResult>, show_closed: bool)
    ensures
        show_closed ==> retained_seq(results, show_closed).len() == results.len(),
        retained_seq(results, show_closed).len() <= results.len(),
{
    broadcast use vstd::seq_lib::group_filter_ensures;

    let pred = |x: PortResult| spec_retained(x, show_closed);
    if show_closed {
        lemma_filter_all(results, pred);
    }
}

/// The report lists each port once, in ascending order: when the raw
/// results hold one entry per distinct port, the aggregated list is
/// strictly ascending by port, so no port appears twice.
pub proof fn lemma_report_sorted_distinct(
    results: Seq<PortResult>,
    out: Seq<PortResult>,
    show_closed: bool,
)
    requires
        forall|i: int, j: int|
            0 <= i < j < results.len() ==> results[i].port@ != results[j].port@,
        sorted_by_port(out),
        ports_of(out).to_multiset() == ports_of(retained_seq(results, show_closed)).to_multiset(),
    ensures
        forall|i: int, j: int| 0 <= i < j < out.len() ==> out[i].port@ < out[j].port@,
{
    let pred = |x: PortResult| spec_retained(x, show_closed);
    let out_ports = ports_of(out);
    assert(ports_of(results).no_duplicates()) by {
        assert forall|i: int, j: int|
            0 <= i < ports_of(results).len() && 0 <= j < ports_of(results).len() && i
                != j implies ports_of(results)[i] != ports_of(results)[j] by {
            if i < j {
                assert(results[i].port@ != results[j].port@);
            } else {
                assert(results[j].port@ != results[i].port@);
            }
        }
    }
    ports_of(results).lemma_multiset_has_no_duplicates();
    assert forall|p: u16| out_ports.to_multiset().contains(p) implies out_ports.to_multiset().count(
        p,
    ) == 1 by {
        lemma_filter_port_count(results, pred, p);
        assert(out_ports.to_multiset().count(p) <= ports_of(results).to_multiset().count(p));
        assert(ports_of(results).to_multiset().count(p) >= 1);
        assert(ports_of(results).to_multiset().contains(p));
    }
    out_ports.lemma_multiset_has_no_duplicates_conv();
    assert forall|i: int, j: int| 0 <= i < j < out.len() implies out[i].port@ < out[j].port@ by {
        assert(out_ports[i] != out_ports[j]);
        assert(out_ports[i] == out[i].port@ && out_ports[j] == out[j].port@);
        assert(out[i].port@ <= out[j].port@);
    }
}

/// A status absent from the raw results is absent from the report: in
/// particular, a technique that never produces an ambiguous open-or-filtered
/// status never shows one in its aggregated report.
pub proof fn lemma_no_open_filtered(
    results: Seq<PortResult>,
    out: Seq<PortResult>,
    show_closed: bool,
)
    requires
        forall|i: int| 0 <= i < results.len() ==> !(#[trigger] results[i].status is OpenFiltered),
        out.to_multiset() == retained_seq(results, show_closed).to_multiset(),
    ensures
        forall|i: int| 0 <= i < out.len() ==> !(#[trigger] out[i].status is OpenFiltered),
{
    let retained = retained_seq(results, show_closed);
    let pred = |x: PortResult| spec_retained(x, show_closed);
    assert forall|i: int| 0 <= i < out.len() implies !(#[trigger] out[i].status is OpenFiltered) by {
        let x = out[i];
        assert(out.contains(x));
        assert(out.to_multiset().count(x) > 0);
        assert(retained.to_multiset().count(x) > 0);
        assert(retained.contains(x));
        lemma_filter_element_of(results, pred, x);
        let k = choose|k: int| 0 <= k < results.len() && results[k] == x;
        assert(!(results[k].status is OpenFiltered));
    }
}

} // verus!
