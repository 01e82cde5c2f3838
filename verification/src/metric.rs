//! Metric kinds and per-metric metadata.

use vstd::hash_map::StringHashMap;
use vstd::prelude::*;

verus! {

/// Kind of a metric, as announced in its `# TYPE` line.
#[derive(Debug, Clone, Copy, PartialEq, Eq, Structural)]
pub enum MetricType {
    /// No declared kind.
    Untyped,
    /// Monotonically increasing value.
    Counter,
    /// Value that may go up and down.
    Gauge,
    /// Bucketed observations.
    Histogram,
    /// Quantile observations.
    Summary,
}

impl MetricType {
    /// Lowercase name of the kind, as it is written after `# TYPE <name> `.
    pub open spec fn name(self) -> Seq<char> {
        match self {
            MetricType::Untyped => "untyped"@,
            MetricType::Counter => "counter"@,
            MetricType::Gauge => "gauge"@,
            MetricType::Histogram => "histogram"@,
            MetricType::Summary => "summary"@,
        }
    }

    /// Lowercase name of the kind.
    pub fn as_str(&self) -> (s: &'static str)
        ensures
            s@ == self.name(),
    {
        match self {
            MetricType::Untyped => "untyped",
            MetricType::Counter => "counter",
            MetricType::Gauge => "gauge",
            MetricType::Histogram => "histogram",
            MetricType::Summary => "summary",
        }
    }
}

impl Default for MetricType {
    fn default() -> (t: Self)
        ensures
            t == MetricType::Untyped,
    {
        MetricType::Untyped
    }
}

/// Metadata of one metric: its kind, help text, static labels and an optional
/// name under which it is published instead of its path-derived name.
#[derive(Debug)]
pub struct MetricDescriptor<'s> {
    /// Kind announced in the `# TYPE` line.
    pub metric_type: MetricType,
    /// Text of the `# HELP` line; no such line is written when it is empty.
    pub help: &'s str,
    /// Static labels attached to every sample of the metric, as (key, value) pairs.
    pub labels: Vec<(&'s str, &'s str)>,
    /// Name that replaces the path-derived metric name.
    pub rename: Option<&'s str>,
}

/// What a [`MetricDescriptor`] says, as plain values.
pub struct DescriptorView {
    pub metric_type: MetricType,
    pub help: Seq<char>,
    pub labels: Seq<(Seq<char>, Seq<char>)>,
    pub rename: Option<Seq<char>>,
}

impl DescriptorView {
    /// The descriptor of a metric without metadata: untyped, no help, no labels, no rename.
    pub open spec fn plain() -> DescriptorView {
        DescriptorView {
            metric_type: MetricType::Untyped,
            help: Seq::empty(),
            labels: Seq::empty(),
            rename: None,
        }
    }
}

impl<'s> View for MetricDescriptor<'s> {
    type V = DescriptorView;

    open spec fn view(&self) -> DescriptorView {
        DescriptorView {
            metric_type: self.metric_type,
            help: self.help@,
            labels: self.labels.deep_view(),
            rename: match self.rename {
                Some(r) => Some(r@),
                None => None,
            },
        }
    }
}

impl<'s> Default for MetricDescriptor<'s> {
    fn default() -> (d: Self)
        ensures
            d@ == DescriptorView::plain(),
    {
        let d = MetricDescriptor {
            metric_type: MetricType::Untyped,
            help: "",
            labels: Vec::new(),
            rename: None,
        };
        proof {
            reveal_strlit("");
            assert(d.help@ =~= Seq::<char>::empty());
            assert(d.labels.deep_view() =~= Seq::<(Seq<char>, Seq<char>)>::empty());
        }
        d
    }
}

/// Read-only lookup table from metric name to [`MetricDescriptor`].
pub struct MetricTable<'s> {
    entries: StringHashMap<MetricDescriptor<'s>>,
}

impl<'s> View for MetricTable<'s> {
    type V = Map<Seq<char>, DescriptorView>;

    closed spec fn view(&self) -> Map<Seq<char>, DescriptorView> {
        self.entries@.map_values(|d: MetricDescriptor<'s>| d@)
    }
}

impl<'s> MetricTable<'s> {
    /// A table without entries.
    pub fn new() -> (table: Self)
        ensures
            table@ == Map::<Seq<char>, DescriptorView>::empty(),
    {
        MetricTable { entries: StringHashMap::new() }
    }

    /// Sets the descriptor of the metric called `name`, replacing an earlier one.
    pub fn insert(&mut self, name: &str, descriptor: MetricDescriptor<'s>)
        ensures
            final(self)@ == old(self)@.insert(name@, descriptor@),
    {
        self.entries.insert(name.to_owned(), descriptor);
    }

    /// The descriptor stored for exactly `name`, if there is one.
    pub fn get(&self, name: &str) -> (found: Option<&MetricDescriptor<'s>>)
        ensures
            match found {
                Some(d) => self@.contains_key(name@) && d@ == self@[name@],
                None => !self@.contains_key(name@),
            },
    {
        self.entries.get(name)
    }
}

} // verus!
