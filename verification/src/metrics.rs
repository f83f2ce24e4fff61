//! Normalization of metric streams: counters are forced to be
//! incremental, gauges absolute, before they are handed to the metrics
//! endpoint.  Metric sample values are carried as fixed-point integers in
//! millionths, so the arithmetic of normalization is exact.

use vstd::prelude::*;

use crate::text::str_eq;

verus! {

/// Whether a metric sample carries a running total or a delta.
#[derive(Clone, Copy, PartialEq, Eq, Structural, Debug)]
pub enum MetricKind {
    Absolute,
    Incremental,
}

/// The value of one metric sample.  Numeric values are fixed-point
/// integers in millionths of a unit.
#[derive(Clone, PartialEq, Eq, Debug)]
pub enum MetricValue {
    Counter { value: i64 },
    Gauge { value: i64 },
    SetValue { values: Vec<String> },
    Sketch { samples: Vec<i64> },
}

/// The ghost image of a metric value.
pub enum MetricValueV {
    Counter { value: int },
    Gauge { value: int },
    SetValue { values: Seq<Seq<char>> },
    Sketch { samples: Seq<int> },
}

impl View for MetricValue {
    type V = MetricValueV;

    open spec fn view(&self) -> MetricValueV {
        match self {
            MetricValue::Counter { value } => MetricValueV::Counter { value: *value as int },
            MetricValue::Gauge { value } => MetricValueV::Gauge { value: *value as int },
            MetricValue::SetValue { values } => MetricValueV::SetValue {
                values: values.deep_view(),
            },
            MetricValue::Sketch { samples } => MetricValueV::Sketch {
                samples: samples@.map_values(|s: i64| s as int),
            },
        }
    }
}

/// One metric sample.
#[derive(Clone, PartialEq, Eq, Debug)]
pub struct Metric {
    pub name: String,
    pub kind: MetricKind,
    pub value: MetricValue,
}

/// The ghost image of a metric sample.
pub struct MetricV {
    pub name: Seq<char>,
    pub kind: MetricKind,
    pub value: MetricValueV,
}

impl View for Metric {
    type V = MetricV;

    open spec fn view(&self) -> MetricV {
        MetricV { name: self.name@, kind: self.kind, value: self.value@ }
    }
}

impl Metric {
    /// A metric sample with the given series name.
    pub fn new(name: &str, kind: MetricKind, value: MetricValue) -> (m: Metric)
        ensures
            m@.name == name@,
            m.kind == kind,
            m.value == value,
    {
        Metric { name: name.to_owned(), kind, value }
    }

    /// The sample's value.
    pub fn value(&self) -> (v: &MetricValue)
        ensures
            v == &self.value,
    {
        &self.value
    }

    /// The same sample, marked incremental.
    pub fn into_incremental(self) -> (m: Metric)
        ensures
            m@.name == self@.name,
            m.kind is Incremental,
            m.value == self.value,
    {
        Metric { name: self.name, kind: MetricKind::Incremental, value: self.value }
    }

    /// The same sample, marked absolute.
    pub fn into_absolute(self) -> (m: Metric)
        ensures
            m@.name == self@.name,
            m.kind is Absolute,
            m.value == self.value,
    {
        Metric { name: self.name, kind: MetricKind::Absolute, value: self.value }
    }
}

/// The elements of `new` that are not in `old`, in order.
pub open spec fn spec_set_difference(new: Seq<Seq<char>>, old: Seq<Seq<char>>) -> Seq<Seq<char>>
    decreases new.len(),
{
    if new.len() == 0 {
        Seq::empty()
    } else {
        let head = if old.contains(new[0]) {
            Seq::empty()
        } else {
            seq![new[0]]
        };
        head + spec_set_difference(new.drop_first(), old)
    }
}

/// The result of subtracting an earlier reference value from a new
/// absolute value: the increment the new value represents.  A counter
/// that went backwards was reset, so it has no increment; values of
/// different shapes have none either.  Set values subtract as sets.
pub open spec fn spec_subtract(new: MetricValueV, old: MetricValueV) -> Option<MetricValueV> {
    match (new, old) {
        (MetricValueV::Counter { value: n }, MetricValueV::Counter { value: o }) => {
            if n >= o && n - o <= i64::MAX as int {
                Some(MetricValueV::Counter { value: n - o })
            } else {
                None
            }
        },
        (MetricValueV::Gauge { value: n }, MetricValueV::Gauge { value: o }) => {
            if i64::MIN as int <= n - o <= i64::MAX as int {
                Some(MetricValueV::Gauge { value: n - o })
            } else {
                None
            }
        },
        (MetricValueV::SetValue { values: n }, MetricValueV::SetValue { values: o }) => Some(
            MetricValueV::SetValue { values: spec_set_difference(n, o) },
        ),
        _ => None,
    }
}

/// The result of adding an increment onto an absolute reference value.
pub open spec fn spec_add(acc: MetricValueV, inc: MetricValueV) -> Option<MetricValueV> {
    match (acc, inc) {
        (MetricValueV::Counter { value: a }, MetricValueV::Counter { value: b }) => {
            if i64::MIN as int <= a + b <= i64::MAX as int {
                Some(MetricValueV::Counter { value: a + b })
            } else {
                None
            }
        },
        (MetricValueV::Gauge { value: a }, MetricValueV::Gauge { value: b }) => {
            if i64::MIN as int <= a + b <= i64::MAX as int {
                Some(MetricValueV::Gauge { value: a + b })
            } else {
                None
            }
        },
        (MetricValueV::SetValue { values: a }, MetricValueV::SetValue { values: b }) => Some(
            MetricValueV::SetValue { values: a + spec_set_difference(b, a) },
        ),
        _ => None,
    }
}

/// First stored metric for a series name.
pub open spec fn spec_entries_get(es: Seq<(Seq<char>, MetricV)>, name: Seq<char>) -> Option<
    MetricV,
>
    decreases es.len(),
{
    if es.len() == 0 {
        None
    } else if es[0].0 == name {
        Some(es[0].1)
    } else {
        spec_entries_get(es.drop_first(), name)
    }
}

/// Replace the first entry of a series, or append a new one.
pub open spec fn spec_entries_insert(
    es: Seq<(Seq<char>, MetricV)>,
    name: Seq<char>,
    m: MetricV,
) -> Seq<(Seq<char>, MetricV)>
    decreases es.len(),
{
    if es.len() == 0 {
        seq![(name, m)]
    } else if es[0].0 == name {
        seq![(name, m)] + es.drop_first()
    } else {
        seq![es[0]] + spec_entries_insert(es.drop_first(), name, m)
    }
}

/// The stored reference state of a metric stream, one absolute reference
/// value per series name.
pub struct MetricSet {
    entries: Vec<(String, Metric)>,
}

impl View for MetricSet {
    type V = Seq<(Seq<char>, MetricV)>;

    closed spec fn view(&self) -> Seq<(Seq<char>, MetricV)> {
        self.entries@.map_values(|p: (String, Metric)| (p.0@, p.1@))
    }
}

impl Default for MetricSet {
    /// An empty reference state.
    fn default() -> (s: MetricSet)
        ensures
            s@ =~= Seq::<(Seq<char>, MetricV)>::empty(),
    {
        MetricSet { entries: Vec::new() }
    }
}

/// The exact increment-and-store outcome of handing one absolute sample
/// to `make_incremental`: the state always remembers the new sample; the
/// increment against the old reference comes out where one exists.
pub open spec fn spec_absolute_to_incremental(
    es: Seq<(Seq<char>, MetricV)>,
    m: MetricV,
) -> (Seq<(Seq<char>, MetricV)>, Option<MetricV>) {
    let stored = spec_entries_insert(es, m.name, m);
    match spec_entries_get(es, m.name) {
        Some(reference) => match spec_subtract(m.value, reference.value) {
            Some(diff) => (
                stored,
                Some(MetricV { name: m.name, kind: MetricKind::Incremental, value: diff }),
            ),
            None => (stored, None),
        },
        None => (stored, None),
    }
}

/// The exact accumulate-and-store outcome of handing one incremental
/// sample to `make_absolute`.
pub open spec fn spec_incremental_to_absolute(
    es: Seq<(Seq<char>, MetricV)>,
    m: MetricV,
) -> (Seq<(Seq<char>, MetricV)>, Option<MetricV>) {
    let absolute = MetricV { name: m.name, kind: MetricKind::Absolute, value: m.value };
    match spec_entries_get(es, m.name) {
        Some(reference) => match spec_add(reference.value, m.value) {
            Some(sum) => {
                let acc = MetricV { name: m.name, kind: MetricKind::Absolute, value: sum };
                (spec_entries_insert(es, m.name, acc), Some(acc))
            },
            None => (spec_entries_insert(es, m.name, absolute), Some(absolute)),
        },
        None => (spec_entries_insert(es, m.name, absolute), Some(absolute)),
    }
}

impl MetricSet {
    /// The stored reference for a series.
    fn get(&self, name: &str) -> (r: Option<&Metric>)
        ensures
            match r {
                Some(m) => spec_entries_get(self@, name@) == Some(m@),
                None => spec_entries_get(self@, name@) is None,
            },
    {
        let ghost es = self@;
        let n = self.entries.len();
        let mut i: usize = 0;
        proof {
            assert(es.skip(0) =~= es);
        }
        while i < n
            invariant
                i <= n,
                n == self.entries.len(),
                es == self@,
                n == es.len(),
                spec_entries_get(es, name@) == spec_entries_get(es.skip(i as int), name@),
            decreases n - i,
        {
            proof {
                assert(es.skip(i as int)[0] == es[i as int]);
                assert(es.skip(i as int).drop_first() =~= es.skip(i as int + 1));
            }
            if str_eq(self.entries[i].0.as_str(), name) {
                return Some(&self.entries[i].1);
            }
            i = i + 1;
        }
        proof {
            assert(es.skip(n as int).len() == 0);
        }
        None
    }

    /// Store `m` as the reference for its series.
    fn insert(&mut self, m: Metric)
        ensures
            final(self)@ == spec_entries_insert(old(self)@, m@.name, m@),
    {
        let ghost es0 = self@;
        let ghost mv = m@;
        let n = self.entries.len();
        let mut i: usize = 0;
        while i < n
            invariant
                i <= n,
                n == self.entries.len(),
                es0 == old(self)@,
                self@ == es0,
                n == es0.len(),
                mv == m@,
                forall|k: int| 0 <= k < i ==> #[trigger] es0[k].0 != mv.name,
            decreases n - i,
        {
            if str_eq(self.entries[i].0.as_str(), m.name.as_str()) {
                let name = m.name.clone();
                self.entries[i] = (name, m);
                proof {
                    lemma_entries_insert_skip(es0, mv.name, mv, i as int);
                    assert(spec_entries_insert(es0.skip(i as int), mv.name, mv) =~= seq![
                        (mv.name, mv),
                    ] + es0.skip(i as int).drop_first());
                    assert(es0.skip(i as int).drop_first() =~= es0.skip(i as int + 1));
                    assert(self@ =~= spec_entries_insert(es0, mv.name, mv));
                }
                return ;
            }
            i = i + 1;
        }
        let name = m.name.clone();
        self.entries.push((name, m));
        proof {
            lemma_entries_insert_skip(es0, mv.name, mv, n as int);
            assert(spec_entries_insert(es0.skip(n as int), mv.name, mv) =~= seq![(mv.name, mv)]);
            assert(self@ =~= spec_entries_insert(es0, mv.name, mv));
        }
    }

    /// Force a sample to be incremental.  An incremental sample passes
    /// through untouched; an absolute one is stored as the new reference
    /// and the increment against the previous reference comes out, or
    /// nothing on the first sight of a series or after a counter reset.
    pub fn make_incremental(&mut self, metric: Metric) -> (r: Option<Metric>)
        ensures
            metric.kind is Incremental ==> final(self)@ == old(self)@ && r == Some(metric),
            metric.kind is Absolute ==> {
                let (stored, out) = spec_absolute_to_incremental(old(self)@, metric@);
                &&& final(self)@ == stored
                &&& (match (r, out) {
                    (Some(rm), Some(om)) => rm@ == om,
                    (None, None) => true,
                    _ => false,
                })
            },
    {
        match metric.kind {
            MetricKind::Incremental => Some(metric),
            MetricKind::Absolute => {
                let diff = match self.get(metric.name.as_str()) {
                    Some(reference) => subtract_values(&metric.value, &reference.value),
                    None => None,
                };
                let ghost es0 = self@;
                let name = metric.name.clone();
                self.insert(metric);
                match diff {
                    Some(value) => Some(
                        Metric { name, kind: MetricKind::Incremental, value },
                    ),
                    None => None,
                }
            },
        }
    }

    /// Force a sample to be absolute.  An absolute sample is stored as
    /// the reference and passes through; an incremental one is added onto
    /// the stored reference, which starts from the sample itself when the
    /// series is new.
    pub fn make_absolute(&mut self, metric: Metric) -> (r: Option<Metric>)
        ensures
            metric.kind is Absolute ==> final(self)@ == spec_entries_insert(
                old(self)@,
                metric@.name,
                metric@,
            ) && r == Some(metric),
            metric.kind is Incremental ==> {
                let (stored, out) = spec_incremental_to_absolute(old(self)@, metric@);
                &&& final(self)@ == stored
                &&& (match (r, out) {
                    (Some(rm), Some(om)) => rm@ == om,
                    _ => false,
                })
            },
    {
        match metric.kind {
            MetricKind::Absolute => {
                let copy = Metric {
                    name: metric.name.clone(),
                    kind: metric.kind,
                    value: clone_value(&metric.value),
                };
                self.insert(copy);
                Some(metric)
            },
            MetricKind::Incremental => {
                let sum = match self.get(metric.name.as_str()) {
                    Some(reference) => add_values(&reference.value, &metric.value),
                    None => None,
                };
                let name = metric.name.clone();
                match sum {
                    Some(value) => {
                        let acc = Metric { name, kind: MetricKind::Absolute, value };
                        let copy = Metric {
                            name: acc.name.clone(),
                            kind: acc.kind,
                            value: clone_value(&acc.value),
                        };
                        self.insert(copy);
                        Some(acc)
                    },
                    None => {
                        let absolute = metric.into_absolute();
                        let copy = Metric {
                            name: absolute.name.clone(),
                            kind: absolute.kind,
                            value: clone_value(&absolute.value),
                        };
                        self.insert(copy);
                        Some(absolute)
                    },
                }
            },
        }
    }
}

proof fn lemma_entries_insert_skip(
    es: Seq<(Seq<char>, MetricV)>,
    name: Seq<char>,
    m: MetricV,
    j: int,
)
    requires
        0 <= j <= es.len(),
        forall|i: int| 0 <= i < j ==> es[i].0 != name,
    ensures
        spec_entries_insert(es, name, m) =~= es.take(j) + spec_entries_insert(
            es.skip(j),
            name,
            m,
        ),
    decreases j,
{
    if j == 0 {
        assert(es.take(0) =~= Seq::empty());
        assert(es.skip(0) =~= es);
    } else {
        lemma_entries_insert_skip(es.drop_first(), name, m, j - 1);
        assert(es.drop_first().take(j - 1) =~= es.take(j).drop_first());
        assert(es.drop_first().skip(j - 1) =~= es.skip(j));
        assert(spec_entries_insert(es, name, m) =~= seq![es[0]] + spec_entries_insert(
            es.drop_first(),
            name,
            m,
        ));
    }
}

/// An exact copy of a metric value.
fn clone_value(v: &MetricValue) -> (r: MetricValue)
    ensures
        r@ == v@,
{
    match v {
        MetricValue::Counter { value } => MetricValue::Counter { value: *value },
        MetricValue::Gauge { value } => MetricValue::Gauge { value: *value },
        MetricValue::SetValue { values } => {
            let mut out: Vec<String> = Vec::new();
            let n = values.len();
            let mut i: usize = 0;
            while i < n
                invariant
                    i <= n,
                    n == values@.len(),
                    out@.len() == i,
                    forall|k: int| 0 <= k < i ==> #[trigger] out@[k]@ == values@[k]@,
                decreases n - i,
            {
                out.push(values[i].clone());
                i = i + 1;
            }
            proof {
                assert(out.deep_view() =~= values.deep_view());
            }
            MetricValue::SetValue { values: out }
        },
        MetricValue::Sketch { samples } => {
            let mut out: Vec<i64> = Vec::new();
            let n = samples.len();
            let mut i: usize = 0;
            while i < n
                invariant
                    i <= n,
                    n == samples@.len(),
                    out@.len() == i,
                    forall|k: int| 0 <= k < i ==> #[trigger] out@[k] == samples@[k],
                decreases n - i,
            {
                out.push(samples[i]);
                i = i + 1;
            }
            proof {
                assert(out@.map_values(|s: i64| s as int) =~= samples@.map_values(
                    |s: i64| s as int,
                ));
            }
            MetricValue::Sketch { samples: out }
        },
    }
}

/// Whether a string list holds the given string.
fn list_contains(values: &Vec<String>, s: &str) -> (r: bool)
    ensures
        r == values.deep_view().contains(s@),
{
    let n = values.len();
    let mut i: usize = 0;
    while i < n
        invariant
            i <= n,
            n == values@.len(),
            forall|k: int| 0 <= k < i ==> #[trigger] values.deep_view()[k] != s@,
        decreases n - i,
    {
        if str_eq(values[i].as_str(), s) {
            proof {
                assert(values.deep_view()[i as int] == s@);
            }
            return true;
        }
        i = i + 1;
    }
    proof {
        assert(forall|k: int| 0 <= k < n ==> #[trigger] values.deep_view()[k] != s@);
    }
    false
}

/// The increment `new` represents over the reference `old`, where one
/// exists: counters must not go backwards, gauges subtract freely, sets
/// subtract as sets, everything else has no increment.
fn subtract_values(new: &MetricValue, old_v: &MetricValue) -> (r: Option<MetricValue>)
    ensures
        match r {
            Some(v) => spec_subtract(new@, old_v@) == Some(v@),
            None => spec_subtract(new@, old_v@) is None,
        },
{
    match (new, old_v) {
        (MetricValue::Counter { value: n }, MetricValue::Counter { value: o }) => {
            if *n >= *o {
                match n.checked_sub(*o) {
                    Some(d) => Some(MetricValue::Counter { value: d }),
                    None => None,
                }
            } else {
                None
            }
        },
        (MetricValue::Gauge { value: n }, MetricValue::Gauge { value: o }) => {
            match n.checked_sub(*o) {
                Some(d) => Some(MetricValue::Gauge { value: d }),
                None => None,
            }
        },
        (MetricValue::SetValue { values: n }, MetricValue::SetValue { values: o }) => {
            let ghost nv = n.deep_view();
            let ghost ov = o.deep_view();
            let mut out: Vec<String> = Vec::new();
            let len = n.len();
            let mut i: usize = 0;
            proof {
                assert(nv.skip(0) =~= nv);
            }
            while i < len
                invariant
                    i <= len,
                    len == n@.len(),
                    nv == n.deep_view(),
                    ov == o.deep_view(),
                    len == nv.len(),
                    spec_set_difference(nv, ov) =~= out.deep_view() + spec_set_difference(
                        nv.skip(i as int),
                        ov,
                    ),
                decreases len - i,
            {
                proof {
                    assert(nv.skip(i as int)[0] == nv[i as int]);
                    assert(nv.skip(i as int).drop_first() =~= nv.skip(i as int + 1));
                }
                if !list_contains(o, n[i].as_str()) {
                    out.push(n[i].clone());
                }
                i = i + 1;
            }
            proof {
                assert(spec_set_difference(nv.skip(len as int), ov) =~= Seq::<Seq<char>>::empty());
                assert(out.deep_view() =~= spec_set_difference(nv, ov));
            }
            Some(MetricValue::SetValue { values: out })
        },
        _ => None,
    }
}

/// The reference `acc` advanced by the increment `inc`, where the two
/// have the same shape.
fn add_values(acc: &MetricValue, inc: &MetricValue) -> (r: Option<MetricValue>)
    ensures
        match r {
            Some(v) => spec_add(acc@, inc@) == Some(v@),
            None => spec_add(acc@, inc@) is None,
        },
{
    match (acc, inc) {
        (MetricValue::Counter { value: a }, MetricValue::Counter { value: b }) => {
            match a.checked_add(*b) {
                Some(s) => Some(MetricValue::Counter { value: s }),
                None => None,
            }
        },
        (MetricValue::Gauge { value: a }, MetricValue::Gauge { value: b }) => {
            match a.checked_add(*b) {
                Some(s) => Some(MetricValue::Gauge { value: s }),
                None => None,
            }
        },
        (MetricValue::SetValue { values: a }, MetricValue::SetValue { values: b }) => {
            let ghost av = a.deep_view();
            let ghost bv = b.deep_view();
            let mut out: Vec<String> = Vec::new();
            let alen = a.len();
            let mut i: usize = 0;
            while i < alen
                invariant
                    i <= alen,
                    alen == a@.len(),
                    av == a.deep_view(),
                    out@.len() == i,
                    forall|k: int| 0 <= k < i ==> #[trigger] out@[k]@ == av[k],
                decreases alen - i,
            {
                out.push(a[i].clone());
                i = i + 1;
            }
            proof {
                assert(out.deep_view() =~= av);
            }
            let ghost out0 = out.deep_view();
            let blen = b.len();
            let mut j: usize = 0;
            proof {
                assert(bv.skip(0) =~= bv);
            }
            while j < blen
                invariant
                    j <= blen,
                    blen == b@.len(),
                    av == a.deep_view(),
                    bv == b.deep_view(),
                    blen == bv.len(),
                    out0 == av,
                    spec_set_difference(bv, av) =~= out.deep_view().skip(av.len() as int)
                        + spec_set_difference(bv.skip(j as int), av),
                    out.deep_view().take(av.len() as int) =~= av,
                    out.deep_view().len() >= av.len(),
                decreases blen - j,
            {
                proof {
                    assert(bv.skip(j as int)[0] == bv[j as int]);
                    assert(bv.skip(j as int).drop_first() =~= bv.skip(j as int + 1));
                }
                if !list_contains(a, b[j].as_str()) {
                    out.push(b[j].clone());
                }
                proof {
                    assert(out.deep_view().take(av.len() as int) =~= av);
                    assert(spec_set_difference(bv, av) =~= out.deep_view().skip(av.len() as int)
                        + spec_set_difference(bv.skip(j as int + 1), av));
                }
                j = j + 1;
            }
            proof {
                assert(spec_set_difference(bv.skip(blen as int), av) =~= Seq::<Seq<char>>::empty());
                assert(out.deep_view() =~= av + spec_set_difference(bv, av));
            }
            Some(MetricValue::SetValue { values: out })
        },
        _ => None,
    }
}

/// The metric samples observed for one transform, as the metrics API
/// exposes them.
#[derive(Clone, Debug)]
pub struct GenericTransformMetrics(pub Vec<Metric>);

impl GenericTransformMetrics {
    /// Wrap the samples observed for one transform.
    pub fn new(metrics: Vec<Metric>) -> (r: GenericTransformMetrics)
        ensures
            r.0 == metrics,
    {
        GenericTransformMetrics(metrics)
    }
}

/// The metrics-endpoint normalizer: counters and sets are sent as
/// increments, gauges as running totals, and sketches are implicitly
/// incremental.
pub struct DatadogMetricsNormalizer;

impl DatadogMetricsNormalizer {
    /// Normalize one sample against the stored reference state.
    ///
    /// A counter or set sample is forced incremental, a gauge absolute;
    /// a sketch only has its kind set to incremental.
    pub fn apply_state(state: &mut MetricSet, metric: Metric) -> (r: Option<Metric>)
        ensures
            (metric.value is Counter || metric.value is SetValue) && metric.kind is Incremental
                ==> final(state)@ == old(state)@ && r == Some(metric),
            (metric.value is Counter || metric.value is SetValue) && metric.kind is Absolute ==> {
                &&& final(state)@ == spec_absolute_to_incremental(old(state)@, metric@).0
                &&& (match (r, spec_absolute_to_incremental(old(state)@, metric@).1) {
                    (Some(rm), Some(om)) => rm@ == om,
                    (None, None) => true,
                    _ => false,
                })
            },
            metric.value is Gauge && metric.kind is Absolute ==> final(state)@
                == spec_entries_insert(old(state)@, metric@.name, metric@) && r == Some(metric),
            metric.value is Gauge && metric.kind is Incremental ==> {
                &&& final(state)@ == spec_incremental_to_absolute(old(state)@, metric@).0
                &&& (match (r, spec_incremental_to_absolute(old(state)@, metric@).1) {
                    (Some(rm), Some(om)) => rm@ == om,
                    _ => false,
                })
            },
            metric.value is Sketch ==> final(state)@ == old(state)@ && (match r {
                Some(m) => m@.name == metric@.name && m.kind is Incremental && m@.value
                    == metric@.value,
                None => false,
            }),
    {
        match &metric.value {
            MetricValue::Counter { .. } => state.make_incremental(metric),
            MetricValue::Gauge { .. } => state.make_absolute(metric),
            MetricValue::SetValue { .. } => state.make_incremental(metric),
            MetricValue::Sketch { .. } => Some(metric.into_incremental()),
        }
    }
}

} // verus!
