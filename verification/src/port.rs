//! Validated port numbers and port specifications.
//!
//! A `Port` is always in the range 1..=65535; invalid values are
//! unrepresentable. `PortRange` is an inclusive, non-empty range of ports,
//! and `PortSpec` collects ranges and expands them into a sorted,
//! deduplicated port list.

use vstd::prelude::*;

verus! {

/// The range of values a `Port` may hold.
pub open spec fn port_valid(v: u16) -> bool {
    1 <= v <= 65535
}

/// A strictly ascending sequence of port values: sorted, no duplicates.
pub open spec fn strictly_sorted_u16(s: Seq<u16>) -> bool {
    forall|i: int, j: int| 0 <= i < j < s.len() ==> s[i] < s[j]
}

/// The raw values of a sequence of ports.
pub open spec fn port_values(s: Seq<Port>) -> Seq<u16> {
    s.map_values(|p: Port| p@)
}

/// A validated network port number (1-65535).
#[derive(Debug, Clone, Copy, PartialEq, Eq, Structural)]
pub struct Port {
    value: u16,
}

impl View for Port {
    type V = u16;

    closed spec fn view(&self) -> u16 {
        self.value
    }
}

impl Port {
    /// Invariant: the held value is always a valid port number.
    #[verifier::type_invariant]
    pub open spec fn inv(self) -> bool {
        port_valid(self@)
    }

    /// Create a new `Port` from a `u16`, returning `None` if out of range.
    pub fn new(port: u16) -> (r: Option<Port>)
        ensures
            port_valid(port) <==> r is Some,
            r is Some ==> r.unwrap()@ == port,
    {
        if 1 <= port {
            Some(Port { value: port })
        } else {
            None
        }
    }

    /// Create a `Port` from a value the caller knows to be valid.
    pub fn new_unchecked(port: u16) -> (r: Port)
        requires
            port_valid(port),
        ensures
            r@ == port,
    {
        Port { value: port }
    }

    /// The raw port number.
    pub fn as_u16(self) -> (r: u16)
        ensures
            r == self@,
    {
        self.value
    }

    /// Whether this is a privileged port (below 1024).
    pub fn is_privileged(self) -> (r: bool)
        ensures
            r == (self@ < 1024),
    {
        self.value < 1024
    }

    /// Whether this is an ephemeral port (49152 and above).
    pub fn is_ephemeral(self) -> (r: bool)
        ensures
            r == (self@ >= 49152),
    {
        self.value >= 49152
    }
}

/// Error raised by port parsing and validation.
#[derive(Debug, Clone)]
pub enum PortError {
    /// A number outside 1..=65535.
    OutOfRange(u16),
    /// Text that is not a port number or range.
    InvalidFormat(String),
    /// A range whose start exceeds its end.
    InvalidRange(u16, u16),
    /// An empty specification.
    Empty,
}

/// An inclusive, non-empty range of ports.
#[derive(Debug, Clone, Copy)]
pub struct PortRange {
    start: Port,
    end: Port,
}

impl PortRange {
    /// Invariant: bounds are valid ports and ordered.
    #[verifier::type_invariant]
    pub open spec fn inv(self) -> bool {
        &&& port_valid(self.spec_start())
        &&& port_valid(self.spec_end())
        &&& self.spec_start() <= self.spec_end()
    }

    /// First port of the range.
    pub closed spec fn spec_start(self) -> u16 {
        self.start@
    }

    /// Last port of the range.
    pub closed spec fn spec_end(self) -> u16 {
        self.end@
    }

    /// Whether the range covers the value `v`.
    pub open spec fn spec_contains(self, v: u16) -> bool {
        self.spec_start() <= v <= self.spec_end()
    }

    /// Create a new port range; rejects a start above the end.
    pub fn new(start: Port, end: Port) -> (r: Result<PortRange, PortError>)
        ensures
            r is Ok <==> start@ <= end@,
            r is Ok ==> r.unwrap().spec_start() == start@ && r.unwrap().spec_end() == end@,
            r is Err ==> r == Err::<PortRange, PortError>(PortError::InvalidRange(start@, end@)),
    {
        proof {
            use_type_invariant(start);
            use_type_invariant(end);
        }
        if start.as_u16() > end.as_u16() {
            Err(PortError::InvalidRange(start.as_u16(), end.as_u16()))
        } else {
            Ok(PortRange { start, end })
        }
    }

    /// Create a range containing a single port.
    pub fn single(port: Port) -> (r: PortRange)
        ensures
            r.spec_start() == port@,
            r.spec_end() == port@,
    {
        proof {
            use_type_invariant(port);
        }
        PortRange { start: port, end: port }
    }

    /// The number of ports in this range.
    pub fn len(&self) -> (r: usize)
        ensures
            r == self.spec_end() - self.spec_start() + 1,
    {
        proof {
            use_type_invariant(*self);
        }
        (self.end.as_u16() - self.start.as_u16() + 1) as usize
    }

    /// A valid range always holds at least one port.
    pub fn is_empty(&self) -> (r: bool)
        ensures
            !r,
    {
        false
    }

    /// All ports in this range, in ascending order.
    pub fn iter(&self) -> (r: Vec<Port>)
        ensures
            port_values(r@) == Seq::new(
                (self.spec_end() - self.spec_start() + 1) as nat,
                |i: int| (self.spec_start() + i) as u16,
            ),
    {
        proof {
            use_type_invariant(*self);
        }
        let start: u16 = self.start.as_u16();
        let end: u16 = self.end.as_u16();
        let mut out: Vec<Port> = Vec::new();
        let mut v: u32 = start as u32;
        while v <= end as u32
            invariant
                start <= v <= end + 1,
                port_valid(start),
                port_valid(end),
                start <= end,
                out@.len() == v - start,
                forall|i: int| 0 <= i < out@.len() ==> out@[i]@ == start + i,
            decreases end + 1 - v,
        {
            out.push(Port::new_unchecked(v as u16));
            v = v + 1;
        }
        proof {
            assert(port_values(out@) =~= Seq::new(
                (self.spec_end() - self.spec_start() + 1) as nat,
                |i: int| (self.spec_start() + i) as u16,
            ));
        }
        out
    }
}

/// A complete port specification: a list of ranges that expands to a
/// sorted, deduplicated port list.
#[derive(Debug, Clone)]
pub struct PortSpec {
    ranges: Vec<PortRange>,
}

impl PortSpec {
    /// The ranges this specification holds, in insertion order.
    pub closed spec fn spec_ranges(self) -> Seq<PortRange> {
        self.ranges@
    }

    /// Whether some range of the specification covers the value `v`.
    pub open spec fn spec_covers(self, v: u16) -> bool {
        exists|i: int|
            0 <= i < self.spec_ranges().len() && #[trigger] self.spec_ranges()[i].spec_contains(v)
    }

    /// The set of distinct port values the specification covers.
    pub open spec fn spec_port_set(self) -> Set<u16> {
        Set::new(|v: u16| self.spec_covers(v))
    }

    /// Create an empty port specification.
    pub fn new() -> (r: PortSpec)
        ensures
            r.spec_ranges() == Seq::<PortRange>::empty(),
    {
        PortSpec { ranges: Vec::new() }
    }

    /// Add a port range to the specification.
    pub fn add_range(&mut self, range: PortRange)
        ensures
            final(self).spec_ranges() == old(self).spec_ranges().push(range),
    {
        self.ranges.push(range);
    }

    /// Add a single port to the specification.
    pub fn add_port(&mut self, port: Port)
        ensures
            final(self).spec_ranges().len() == old(self).spec_ranges().len() + 1,
            final(self).spec_ranges().last().spec_start() == port@,
            final(self).spec_ranges().last().spec_end() == port@,
            forall|i: int|
                0 <= i < old(self).spec_ranges().len() ==> final(self).spec_ranges()[i] == old(self).spec_ranges()[i],
    {
        self.ranges.push(PortRange::single(port));
    }

    /// Whether the specification holds no ranges at all.
    pub fn is_empty(&self) -> (r: bool)
        ensures
            r == (self.spec_ranges().len() == 0),
    {
        self.ranges.len() == 0
    }

    /// All covered ports as a sorted, deduplicated vector.
    pub fn to_ports(&self) -> (r: Vec<Port>)
        ensures
            strictly_sorted_u16(port_values(r@)),
            forall|v: u16| #[trigger] port_values(r@).contains(v) <==> self.spec_covers(v),
    {
        let mut values: Vec<u16> = Vec::new();
        let mut i: usize = 0;
        while i < self.ranges.len()
            invariant
                i <= self.ranges.len(),
                strictly_sorted_u16(values@),
                forall|v: u16| #[trigger]
                    values@.contains(v) <==> exists|k: int|
                        0 <= k < i && #[trigger] self.spec_ranges()[k].spec_contains(v),
                forall|j: int| 0 <= j < values@.len() ==> port_valid(#[trigger] values@[j]),
            decreases self.ranges.len() - i,
        {
            let range = self.ranges[i];
            proof {
                use_type_invariant(range);
            }
            let start: u16 = range.start.as_u16();
            let end: u16 = range.end.as_u16();
            let ghost entry_values = values@;
            let mut v: u32 = start as u32;
            while v <= end as u32
                invariant
                    start <= v <= end + 1,
                    port_valid(start),
                    port_valid(end),
                    start <= end,
                    strictly_sorted_u16(values@),
                    forall|w: u16| #[trigger]
                        values@.contains(w) <==> (entry_values.contains(w) || (start <= w < v)),
                    forall|j: int| 0 <= j < values@.len() ==> port_valid(#[trigger] values@[j]),
                decreases end + 1 - v,
            {
                insert_unique_sorted(&mut values, v as u16);
                v = v + 1;
            }
            proof {
                assert forall|w: u16| #[trigger] values@.contains(w) implies (exists|k: int|
                    0 <= k < i + 1 && #[trigger] self.spec_ranges()[k].spec_contains(w)) by {
                    if entry_values.contains(w) {
                        let k = choose|k: int|
                            0 <= k < i && #[trigger] self.spec_ranges()[k].spec_contains(w);
                        assert(self.spec_ranges()[k].spec_contains(w));
                    } else {
                        assert(self.spec_ranges()[i as int].spec_contains(w));
                    }
                }
                assert forall|w: u16|
                    (exists|k: int|
                        0 <= k < i + 1 && #[trigger] self.spec_ranges()[k].spec_contains(
                            w,
                        )) implies #[trigger] values@.contains(w) by {
                    let k = choose|k: int|
                        0 <= k < i + 1 && #[trigger] self.spec_ranges()[k].spec_contains(w);
                    if k < i {
                        assert(entry_values.contains(w));
                    }
                }
            }
            i = i + 1;
        }
        let mut out: Vec<Port> = Vec::new();
        let mut j: usize = 0;
        while j < values.len()
            invariant
                j <= values.len(),
                out@.len() == j,
                forall|k: int| 0 <= k < values@.len() ==> port_valid(#[trigger] values@[k]),
                forall|k: int| 0 <= k < j ==> out@[k]@ == values@[k],
            decreases values.len() - j,
        {
            out.push(Port::new_unchecked(values[j]));
            j = j + 1;
        }
        proof {
            assert(port_values(out@) =~= values@);
        }
        out
    }

    /// The hundred most commonly scanned ports.
    pub open spec fn top_100_values() -> Seq<u16> {
        seq![7u16, 9, 13, 21, 22, 23, 25, 26, 37, 53, 79, 80, 81, 88, 106, 110, 111, 113, 119, 135, 139, 143, 144, 179, 199, 389, 427, 443, 444, 445, 465, 513, 514, 515, 543, 544, 548, 554, 587, 631, 646, 873, 990, 993, 995, 1025, 1026, 1027, 1028, 1029, 1110, 1433, 1720, 1723, 1755, 1900, 2000, 2001, 2049, 2121, 2717, 3000, 3128, 3306, 3389, 3986, 4899, 5000, 5009, 5051, 5060, 5101, 5190, 5357, 5432, 5631, 5666, 5800, 5900, 6000, 6001, 6646, 7070, 8000, 8008, 8009, 8080, 8081, 8443, 8888, 9100, 9999, 10000, 32768, 49152, 49153, 49154, 49155, 49156, 49157]
    }

    /// A specification covering the hundred most common ports.
    pub fn top_100() -> (r: PortSpec)
        ensures
            forall|v: u16| #[trigger]
                r.spec_covers(v) <==> (PortSpec::top_100_values().contains(v) && port_valid(v)),
    {
        let values: Vec<u16> = vec![7, 9, 13, 21, 22, 23, 25, 26, 37, 53, 79, 80, 81, 88, 106, 110, 111, 113, 119, 135, 139, 143, 144, 179, 199, 389, 427, 443, 444, 445, 465, 513, 514, 515, 543, 544, 548, 554, 587, 631, 646, 873, 990, 993, 995, 1025, 1026, 1027, 1028, 1029, 1110, 1433, 1720, 1723, 1755, 1900, 2000, 2001, 2049, 2121, 2717, 3000, 3128, 3306, 3389, 3986, 4899, 5000, 5009, 5051, 5060, 5101, 5190, 5357, 5432, 5631, 5666, 5800, 5900, 6000, 6001, 6646, 7070, 8000, 8008, 8009, 8080, 8081, 8443, 8888, 9100, 9999, 10000, 32768, 49152, 49153, 49154, 49155, 49156, 49157];
        proof {
            assert(values@ =~= PortSpec::top_100_values());
        }
        let mut spec = PortSpec::new();
        let mut i: usize = 0;
        while i < values.len()
            invariant
                i <= values@.len(),
                values@ == PortSpec::top_100_values(),
                forall|v: u16| #[trigger]
                    spec.spec_covers(v) <==> exists|k: int|
                        0 <= k < i && values@[k] == v && port_valid(#[trigger] values@[k]),
            decreases values@.len() - i,
        {
            let ghost before = spec;
            match Port::new(values[i]) {
                Some(port) => {
                    spec.add_port(port);
                    proof {
                        assert forall|v: u16| #[trigger] spec.spec_covers(v) implies (exists|k: int|
                            0 <= k < i + 1 && values@[k] == v && port_valid(
                                #[trigger] values@[k],
                            )) by {
                            let j = choose|j: int|
                                0 <= j < spec.spec_ranges().len() && #[trigger] spec.spec_ranges()[j].spec_contains(v);
                            if j < before.spec_ranges().len() {
                                assert(before.spec_ranges()[j].spec_contains(v));
                                assert(before.spec_covers(v));
                            } else {
                                assert(values@[i as int] == v);
                            }
                        }
                        assert forall|v: u16|
                            (exists|k: int|
                                0 <= k < i + 1 && values@[k] == v && port_valid(
                                    #[trigger] values@[k],
                                )) implies #[trigger] spec.spec_covers(v) by {
                            let k = choose|k: int|
                                0 <= k < i + 1 && values@[k] == v && port_valid(
                                    #[trigger] values@[k],
                                );
                            if k < i {
                                assert(before.spec_covers(v));
                                let j = choose|j: int|
                                    0 <= j < before.spec_ranges().len() && #[trigger] before.spec_ranges()[j].spec_contains(v);
                                assert(spec.spec_ranges()[j].spec_contains(v));
                            } else {
                                assert(spec.spec_ranges().last().spec_contains(v));
                            }
                        }
                    }
                },
                None => {
                },
            }
            i = i + 1;
        }
        proof {
            assert forall|v: u16| #[trigger]
                spec.spec_covers(v) <==> (PortSpec::top_100_values().contains(v) && port_valid(
                v,
            )) by {
                if PortSpec::top_100_values().contains(v) && port_valid(v) {
                    let k = choose|k: int|
                        0 <= k < values@.len() && values@[k] == v;
                    assert(values@[k] == v && port_valid(values@[k]));
                }
            }
        }
        spec
    }

    /// A specification covering the full port range.
    pub fn full() -> (r: PortSpec)
        ensures
            forall|v: u16| #[trigger] r.spec_covers(v) <==> port_valid(v),
    {
        let mut spec = PortSpec::new();
        let start = Port::new_unchecked(1);
        let end = Port::new_unchecked(65535);
        match PortRange::new(start, end) {
            Ok(range) => {
                spec.add_range(range);
                proof {
                    assert forall|v: u16| #[trigger] spec.spec_covers(v) <==> port_valid(v) by {
                        if port_valid(v) {
                            assert(spec.spec_ranges()[0].spec_contains(v));
                        }
                    }
                }
            },
            Err(_) => {
                proof {
                    assert(false);
                }
            },
        }
        spec
    }

    /// The total number of distinct covered ports.
    pub fn count(&self) -> (r: usize)
        ensures
            r == self.spec_port_set().len(),
    {
        let ports = self.to_ports();
        proof {
            let vals = port_values(ports@);
            assert(vals.no_duplicates()) by {
                assert(forall|i: int, j: int|
                    0 <= i < j < vals.len() ==> vals[i] != vals[j]);
            }
            vals.unique_seq_to_set();
            assert(vals.to_set() =~= self.spec_port_set());
        }
        ports.len()
    }
}

/// Insert `x` into a strictly sorted vector, keeping it strictly sorted;
/// a duplicate is dropped.
pub(crate) fn insert_unique_sorted(r: &mut Vec<u16>, x: u16)
    requires
        strictly_sorted_u16(old(r)@),
    ensures
        strictly_sorted_u16(final(r)@),
        forall|v: u16| #[trigger]
            final(r)@.contains(v) <==> (old(r)@.contains(v) || v == x),
        forall|v: u16|
            final(r)@.contains(v) ==> (old(r)@.contains(v) || v == x || port_valid(v)),
{
    let n = r.len();
    if n == 0 || r[n - 1] < x {
        r.push(x);
        proof {
            assert forall|v: u16| #[trigger] final(r)@.contains(v) implies (old(r)@.contains(v)
                || v == x) by {
                let k = choose|k: int| 0 <= k < final(r)@.len() && final(r)@[k] == v;
                if k < old(r)@.len() {
                    assert(old(r)@[k] == v);
                }
            }
            assert forall|v: u16| old(r)@.contains(v) || v == x implies #[trigger] final(r)@.contains(v) by {
                if old(r)@.contains(v) {
                    let k = choose|k: int| 0 <= k < old(r)@.len() && old(r)@[k] == v;
                    assert(final(r)@[k] == v);
                } else {
                    assert(final(r)@.last() == x);
                }
            }
        }
        return ;
    }
    let mut idx: usize = 0;
    while idx < n && r[idx] < x
        invariant
            idx <= n,
            n == r@.len(),
            strictly_sorted_u16(r@),
            forall|k: int| 0 <= k < idx ==> r@[k] < x,
        decreases n - idx,
    {
        idx = idx + 1;
    }
    proof {
        assert(r@[n - 1] >= x);
        if idx == n {
            assert(r@[n - 1] < x);
        }
    }
    if r[idx] == x {
        proof {
            assert(r@.contains(x)) by {
                assert(r@[idx as int] == x);
            }
        }
        return ;
    }
    let ghost prev = r@;
    r.insert(idx, x);
    proof {
        assert(final(r)@ == prev.insert(idx as int, x));
        assert forall|i: int, j: int|
            0 <= i < j < final(r)@.len() implies final(r)@[i] < final(r)@[j] by {
            let s = final(r)@;
            if i < idx {
                assert(s[i] == prev[i]);
            } else if i == idx {
                assert(s[i] == x);
            } else {
                assert(s[i] == prev[i - 1]);
            }
            if j < idx {
                assert(s[j] == prev[j]);
            } else if j == idx {
                assert(s[j] == x);
            } else {
                assert(s[j] == prev[j - 1]);
            }
            assert(prev[idx as int] > x);
        }
        assert forall|v: u16| #[trigger] final(r)@.contains(v) implies (prev.contains(v) || v
            == x) by {
            let k = choose|k: int| 0 <= k < final(r)@.len() && final(r)@[k] == v;
            if k < idx {
                assert(prev[k] == v);
            } else if k > idx {
                assert(prev[k - 1] == v);
            }
        }
        assert forall|v: u16| prev.contains(v) || v == x implies #[trigger] final(r)@.contains(v) by {
            if prev.contains(v) {
                let k = choose|k: int| 0 <= k < prev.len() && prev[k] == v;
                if k < idx {
                    assert(final(r)@[k] == v);
                } else {
                    assert(final(r)@[k + 1] == v);
                }
            } else {
                assert(final(r)@[idx as int] == v);
            }
        }
    }
}

} // verus!
