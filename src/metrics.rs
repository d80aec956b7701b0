//! A registry of named metrics and the reports it makes of them.

pub use ::metrics::metrics::{Counter, StdCounter};
use vstd::prelude::*;

use crate::keyed::{distinct_names, keyed, lemma_distinct_same_names, lemma_keyed_map_values, names_of};
use crate::report::{encode_int_object, int_object_json, ApiResponse};

verus! {

/// A point-in-time reading of one metric.
#[derive(Clone, Copy, Debug, PartialEq, Eq, Structural)]
pub enum MetricReading {
    /// The value of a counter.
    Counter(usize),
    /// The value of a gauge.
    Gauge(isize),
    /// The count of events a meter has seen.
    Meter(i64),
    /// A histogram, which reports no single number.
    Histogram,
}

/// The number that reports a reading: the value of a counter or gauge, the
/// count of a meter, and -1 for a histogram.
pub open spec fn reading_value(r: MetricReading) -> i64 {
    match r {
        MetricReading::Counter(v) => v as i64,
        MetricReading::Gauge(v) => v as i64,
        MetricReading::Meter(c) => c,
        MetricReading::Histogram => -1i64,
    }
}

impl MetricReading {
    /// The number that reports this reading.
    pub fn value(&self) -> (r: i64)
        ensures
            r == reading_value(*self),
    {
        match self {
            MetricReading::Counter(v) => *v as i64,
            MetricReading::Gauge(v) => *v as i64,
            MetricReading::Meter(c) => *c,
            MetricReading::Histogram => -1i64,
        }
    }
}

/// Relies on `snapshot()` of the metrics crate's `Counter`, `Gauge` and
/// `Meter` traits, one per variant of `Metric`. The values change as the
/// service updates its metrics, so nothing is promised of them.
#[verifier::external_body]
fn read_metric(m: &::metrics::metrics::Metric) -> MetricReading {
    match m {
        ::metrics::metrics::Metric::Counter(c) => MetricReading::Counter(c.snapshot().value),
        ::metrics::metrics::Metric::Gauge(g) => MetricReading::Gauge(g.snapshot().value),
        ::metrics::metrics::Metric::Meter(x) => MetricReading::Meter(x.snapshot().count),
        ::metrics::metrics::Metric::Histogram(_) => MetricReading::Histogram,
    }
}

/// Whether `r` reports the readings `m`: status 200 with the JSON object
/// from each name to its number.
pub open spec fn reports_metrics(r: ApiResponse, m: Map<Seq<char>, MetricReading>) -> bool {
    &&& r.status == 200
    &&& r.body@ == int_object_json(m.map_values(|v: MetricReading| reading_value(v)))
}

/// The number of each reading, under the same names.
pub fn report_values(readings: &Vec<(String, MetricReading)>) -> (r: Vec<(String, i64)>)
    ensures
        r@.len() == readings@.len(),
        forall|j: int| 0 <= j < r@.len() ==> #[trigger] r@[j].0@ == readings@[j].0@ && r@[j].1 == reading_value(readings@[j].1),
{
    let n = readings.len();
    let mut out: Vec<(String, i64)> = Vec::new();
    let mut i: usize = 0;
    while i < n
        invariant
            n == readings@.len(),
            i <= n,
            out@.len() == i,
            forall|j: int| 0 <= j < i ==> #[trigger] out@[j].0@ == readings@[j].0@ && out@[j].1 == reading_value(readings@[j].1),
        decreases n - i,
    {
        let name = readings[i].0.clone();
        let value = readings[i].1.value();
        out.push((name, value));
        i = i + 1;
    }
    out
}

/// Encodes readings as a reply: status 200 with a JSON object from each name
/// to its number.
pub fn metrics_response(readings: &Vec<(String, MetricReading)>) -> (r: ApiResponse)
    requires
        distinct_names(readings@),
    ensures
        reports_metrics(r, keyed(readings@)),
{
    let values = report_values(readings);
    proof {
        lemma_distinct_same_names(readings@, values@);
        lemma_keyed_map_values(readings@, values@, |v: MetricReading| reading_value(v), |x: i64| x);
        assert(keyed(values@).map_values(|x: i64| x) =~= keyed(values@));
    }
    let encoded = encode_int_object(&values);
    ApiResponse::from_encoded(encoded, 200)
}

/// A named collection of metrics that reports them all at once.
pub struct MetricsService {
    metrics: Vec<(String, ::metrics::metrics::Metric)>,
    reporter_name: String,
}

impl MetricsService {
    /// Each name is registered once.
    pub closed spec fn wf(&self) -> bool {
        distinct_names(self.metrics@)
    }

    /// The registered names, in registration order.
    pub closed spec fn names(&self) -> Seq<Seq<char>> {
        names_of(self.metrics@)
    }

    /// The registered metrics, in registration order.
    pub closed spec fn entries(&self) -> Seq<(String, ::metrics::metrics::Metric)> {
        self.metrics@
    }

    /// The name of this reporter.
    pub closed spec fn reporter(&self) -> Seq<char> {
        self.reporter_name@
    }

    /// The name this reporter was made with.
    pub fn get_name(&self) -> (r: &str)
        ensures
            r@ == self.reporter(),
    {
        self.reporter_name.as_str()
    }

    /// A reporter with no metrics yet.
    pub fn new(reporter_name: &str) -> (r: MetricsService)
        ensures
            r.wf(),
            r.entries().len() == 0,
            r.reporter() == reporter_name@,
    {
        MetricsService { metrics: Vec::new(), reporter_name: String::from_str(reporter_name) }
    }

    /// Registers `metric` under `name`. A name that is already registered is
    /// refused and nothing changes.
    pub fn add(&mut self, name: &str, metric: ::metrics::metrics::Metric) -> (r: Result<(), String>)
        requires
            old(self).wf(),
        ensures
            final(self).wf(),
            final(self).reporter() == old(self).reporter(),
            old(self).names().contains(name@) ==> r is Err && final(self).entries() == old(self).entries(),
            !old(self).names().contains(name@) ==> r is Ok && final(self).entries().len() == old(self).entries().len() + 1
                && final(self).entries().drop_last() == old(self).entries()
                && final(self).entries().last().0@ == name@
                && final(self).entries().last().1 == metric,
            r matches Err(e) ==> e@ == "metric already registered: "@ + name@,
    {
        let key = String::from_str(name);
        let n = self.metrics.len();
        let mut i: usize = 0;
        while i < n
            invariant
                n == self.metrics@.len(),
                i <= n,
                key@ == name@,
                self.metrics@ == old(self).metrics@,
                self.reporter_name == old(self).reporter_name,
                distinct_names(self.metrics@),
                forall|j: int| 0 <= j < i ==> self.metrics@[j].0@ != name@,
            decreases n - i,
        {
            if self.metrics[i].0 == key {
                proof {
                    assert(self.names()[i as int] == name@);
                }
                let message = String::from_str("metric already registered: ").concat(name);
                return Err(message);
            }
            i = i + 1;
        }
        proof {
            assert forall|j: int| 0 <= j < self.names().len() implies self.names()[j] != name@ by {
                assert(self.names()[j] == self.metrics@[j].0@);
            }
        }
        self.metrics.push((key, metric));
        proof {
            assert(self.metrics@.drop_last() =~= old(self).metrics@);
        }
        Ok(())
    }

    /// Reads every metric once, in registration order.
    pub fn snapshot(&self) -> (r: Vec<(String, MetricReading)>)
        ensures
            r@.len() == self.entries().len(),
            forall|j: int| 0 <= j < r@.len() ==> #[trigger] r@[j].0@ == self.entries()[j].0@,
    {
        let n = self.metrics.len();
        let mut out: Vec<(String, MetricReading)> = Vec::new();
        let mut i: usize = 0;
        while i < n
            invariant
                n == self.metrics@.len(),
                i <= n,
                out@.len() == i,
                forall|j: int| 0 <= j < i ==> #[trigger] out@[j].0@ == self.metrics@[j].0@,
            decreases n - i,
        {
            let name = self.metrics[i].0.clone();
            let reading = read_metric(&self.metrics[i].1);
            out.push((name, reading));
            i = i + 1;
        }
        out
    }

    /// Reads every metric and encodes the readings as a reply: status 200
    /// with a JSON object from each name to its number.
    pub fn report(&self) -> (r: ApiResponse)
        requires
            self.wf(),
        ensures
            exists|readings: Seq<(String, MetricReading)>|
                readings.len() == self.entries().len()
                && (forall|j: int| 0 <= j < readings.len() ==> #[trigger] readings[j].0@ == self.entries()[j].0@)
                && #[trigger] reports_metrics(r, keyed(readings)),
    {
        let readings = self.snapshot();
        proof {
            lemma_distinct_same_names(self.metrics@, readings@);
        }
        let r = metrics_response(&readings);
        assert(reports_metrics(r, keyed(readings@)));
        r
    }
}

/// The name of the last metric added is registered, so adding that name a
/// second time is refused and leaves every registered metric in place.
pub proof fn lemma_added_name_is_registered(s: MetricsService)
    requires
        s.entries().len() > 0,
    ensures
        s.names().contains(s.entries().last().0@),
{
    assert(s.names()[s.entries().len() - 1] == s.entries().last().0@);
}

} // verus!
