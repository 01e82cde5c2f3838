//! The serializer: walks a structured value, derives a metric name for every scalar
//! it meets and records the sample under the family of that name.

use crate::emit::{
    chunks, concat, exposition, lemma_chunks_text, lemma_concat_first, Emitter, Step,
};
use crate::error::PrometheusError;
use crate::family::{well_grouped, Families, FamilyView};
use crate::labels::{compose, compose_labels, render_sample_key, sample_key_text};
use crate::metric::{DescriptorView, MetricDescriptor, MetricTable};
use crate::model::{
    join_path, lemma_record_all_concat, lemma_record_all_one, record_all, record_leaf, Leaf,
    Settings,
};
use crate::text::{decimal_text, format_signed, format_unsigned, push_text};
use crate::value::{bool_text, field_leaves, item_leaves, leaves, Value};
use vstd::prelude::*;

verus! {

/// The text of an optional string.
pub open spec fn optional_text(s: Option<&str>) -> Option<Seq<char>> {
    match s {
        Some(text) => Some(text@),
        None => None,
    }
}

/// Flattens structured values into Prometheus samples, grouped into metric families.
pub struct PrometheusSerializer<'s> {
    /// Path name of the value being visited; fields below it append `_` and their name.
    current_prefix: String,
    /// Metadata by metric name.
    metadata: &'s MetricTable<'s>,
    /// Prefix of every published metric name.
    namespace: Option<String>,
    /// Labels of every sample.
    common_labels: Vec<(&'s str, &'s str)>,
    /// Labels of every sample of the current call.
    current_labels: Vec<(String, String)>,
    /// The families gathered so far.
    families: Families,
}

/// Picks the descriptor that applies at `path`.
///
/// `namespaced_path` is the path name with the namespace before it; where no namespace
/// is set it is not looked at.
fn resolve_descriptor<'a>(
    table: &'a MetricTable<'a>,
    fallback: &'a MetricDescriptor<'a>,
    has_namespace: bool,
    path: &str,
    namespaced_path: &str,
) -> (descriptor: &'a MetricDescriptor<'a>)
    ensures
        descriptor@ == (if table@.contains_key(path@) {
            table@[path@]
        } else if has_namespace && table@.contains_key(namespaced_path@) {
            table@[namespaced_path@]
        } else {
            fallback@
        }),
{
    match table.get(path) {
        Some(found) => found,
        None => {
            if has_namespace {
                match table.get(namespaced_path) {
                    Some(found) => found,
                    None => fallback,
                }
            } else {
                fallback
            }
        },
    }
}

/// Puts the namespace, if any, and `_` before a name.
fn with_namespace(namespace: &Option<String>, name: &str) -> (full: String)
    ensures
        full@ == (match *namespace {
            Some(ns) => ns@ + "_"@ + name@,
            None => name@,
        }),
{
    match namespace {
        Some(ns) => {
            let mut full = ns.clone();
            push_text(&mut full, "_");
            push_text(&mut full, name);
            full
        },
        None => name.to_owned(),
    }
}

impl<'s> PrometheusSerializer<'s> {
    /// Path name of the value being visited.
    pub closed spec fn prefix(&self) -> Seq<char> {
        self.current_prefix@
    }

    /// Namespace, metadata and labels in force.
    pub closed spec fn settings(&self) -> Settings {
        Settings {
            namespace: match self.namespace {
                Some(ns) => Some(ns@),
                None => None,
            },
            table: self.metadata@,
            common: self.common_labels.deep_view(),
            current: self.current_labels.deep_view(),
        }
    }

    /// The families gathered so far.
    pub closed spec fn families(&self) -> Seq<FamilyView> {
        self.families@
    }

    /// A serializer at the top of a value, with no families and no call-scoped labels.
    pub fn new(
        namespace: Option<&str>,
        metadata: &'s MetricTable<'s>,
        common_labels: Vec<(&'s str, &'s str)>,
    ) -> (serializer: Self)
        ensures
            serializer.prefix().len() == 0,
            serializer.families().len() == 0,
            serializer.settings() == (Settings {
                namespace: optional_text(namespace),
                table: metadata@,
                common: common_labels.deep_view(),
                current: Seq::empty(),
            }),
    {
        let owned_namespace = match namespace {
            Some(ns) => Some(ns.to_owned()),
            None => None,
        };
        let serializer = PrometheusSerializer {
            current_prefix: String::new(),
            metadata,
            namespace: owned_namespace,
            common_labels,
            current_labels: Vec::new(),
            families: Families::new(),
        };
        assert(serializer.current_labels.deep_view() =~= Seq::<(Seq<char>, Seq<char>)>::empty());
        serializer
    }

    /// Replaces the labels that are attached to every sample of the current call.
    pub fn set_current_labels(&mut self, labels: Vec<(String, String)>)
        ensures
            final(self).prefix() == old(self).prefix(),
            final(self).families() == old(self).families(),
            final(self).settings() == (Settings {
                current: labels.deep_view(),
                ..old(self).settings()
            }),
    {
        self.current_labels = labels;
    }

    /// Moves the path to the field `field_name` below the current one and returns the
    /// path to go back to.
    pub fn enter(&mut self, field_name: &str) -> (restore: String)
        ensures
            restore@ == old(self).prefix(),
            final(self).prefix() == join_path(old(self).prefix(), field_name@),
            final(self).settings() == old(self).settings(),
            final(self).families() == old(self).families(),
    {
        let restore = self.current_prefix.clone();
        if !self.current_prefix.as_str().is_empty() {
            push_text(&mut self.current_prefix, "_");
        }
        push_text(&mut self.current_prefix, field_name);
        restore
    }

    /// Moves the path back to where it was before the matching `enter`.
    pub fn leave(&mut self, restore: String)
        ensures
            final(self).prefix() == restore@,
            final(self).settings() == old(self).settings(),
            final(self).families() == old(self).families(),
    {
        self.current_prefix = restore;
    }

    /// Key of a sample of the metric `metric_name`: the name and, in braces, the labels
    /// of the current call, the common labels and the static labels of `descriptor`.
    pub fn sample_key(&self, metric_name: &str, descriptor: &MetricDescriptor<'_>) -> (key: String)
        ensures
            key@ == sample_key_text(
                metric_name@,
                compose(self.settings().current, self.settings().common, descriptor@.labels),
            ),
    {
        let labels = compose_labels(&self.current_labels, &self.common_labels, &descriptor.labels);
        render_sample_key(metric_name, &labels)
    }

    /// Records a sample with the value text `value` for the metric at the current path.
    pub fn write_metric(&mut self, value: &str)
        ensures
            final(self).prefix() == old(self).prefix(),
            final(self).settings() == old(self).settings(),
            well_grouped(final(self).families()),
            final(self).families() == record_leaf(
                old(self).settings(),
                old(self).families(),
                Leaf { path: old(self).prefix(), text: value@ },
            ),
    {
        let fallback = MetricDescriptor::default();
        let namespaced_path = with_namespace(&self.namespace, self.current_prefix.as_str());
        let descriptor = resolve_descriptor(
            self.metadata,
            &fallback,
            self.namespace.is_some(),
            self.current_prefix.as_str(),
            namespaced_path.as_str(),
        );
        let metric_name = match descriptor.rename {
            Some(target) => with_namespace(&self.namespace, target),
            None => namespaced_path,
        };
        let sample_key = self.sample_key(metric_name.as_str(), descriptor);
        self.families.record(metric_name.as_str(), sample_key, value, descriptor);
    }

    /// Records a truth value as `1` or `0`.
    pub fn serialize_bool(&mut self, v: bool)
        ensures
            final(self).prefix() == old(self).prefix(),
            final(self).settings() == old(self).settings(),
            well_grouped(final(self).families()),
            final(self).families() == record_leaf(
                old(self).settings(),
                old(self).families(),
                Leaf { path: old(self).prefix(), text: bool_text(v) },
            ),
    {
        if v {
            self.write_metric("1");
        } else {
            self.write_metric("0");
        }
    }

    /// Records a signed integer as its decimal text.
    pub fn serialize_i64(&mut self, v: i64)
        ensures
            final(self).prefix() == old(self).prefix(),
            final(self).settings() == old(self).settings(),
            well_grouped(final(self).families()),
            final(self).families() == record_leaf(
                old(self).settings(),
                old(self).families(),
                Leaf { path: old(self).prefix(), text: decimal_text(v as int) },
            ),
    {
        let text = format_signed(v);
        self.write_metric(text.as_str());
    }

    /// Records an unsigned integer as its decimal text.
    pub fn serialize_u64(&mut self, v: u64)
        ensures
            final(self).prefix() == old(self).prefix(),
            final(self).settings() == old(self).settings(),
            well_grouped(final(self).families()),
            final(self).families() == record_leaf(
                old(self).settings(),
                old(self).families(),
                Leaf { path: old(self).prefix(), text: decimal_text(v as int) },
            ),
    {
        let text = format_unsigned(v);
        self.write_metric(text.as_str());
    }

    /// Records a 8-bit signed integer as its decimal text.
    pub fn serialize_i8(&mut self, v: i8)
        ensures
            final(self).prefix() == old(self).prefix(),
            final(self).settings() == old(self).settings(),
            well_grouped(final(self).families()),
            final(self).families() == record_leaf(
                old(self).settings(),
                old(self).families(),
                Leaf { path: old(self).prefix(), text: decimal_text(v as int) },
            ),
    {
        self.serialize_i64(v as i64);
    }

    /// Records a 16-bit signed integer as its decimal text.
    pub fn serialize_i16(&mut self, v: i16)
        ensures
            final(self).prefix() == old(self).prefix(),
            final(self).settings() == old(self).settings(),
            well_grouped(final(self).families()),
            final(self).families() == record_leaf(
                old(self).settings(),
                old(self).families(),
                Leaf { path: old(self).prefix(), text: decimal_text(v as int) },
            ),
    {
        self.serialize_i64(v as i64);
    }

    /// Records a 32-bit signed integer as its decimal text.
    pub fn serialize_i32(&mut self, v: i32)
        ensures
            final(self).prefix() == old(self).prefix(),
            final(self).settings() == old(self).settings(),
            well_grouped(final(self).families()),
            final(self).families() == record_leaf(
                old(self).settings(),
                old(self).families(),
                Leaf { path: old(self).prefix(), text: decimal_text(v as int) },
            ),
    {
        self.serialize_i64(v as i64);
    }

    /// Records a 8-bit unsigned integer as its decimal text.
    pub fn serialize_u8(&mut self, v: u8)
        ensures
            final(self).prefix() == old(self).prefix(),
            final(self).settings() == old(self).settings(),
            well_grouped(final(self).families()),
            final(self).families() == record_leaf(
                old(self).settings(),
                old(self).families(),
                Leaf { path: old(self).prefix(), text: decimal_text(v as int) },
            ),
    {
        self.serialize_u64(v as u64);
    }

    /// Records a 16-bit unsigned integer as its decimal text.
    pub fn serialize_u16(&mut self, v: u16)
        ensures
            final(self).prefix() == old(self).prefix(),
            final(self).settings() == old(self).settings(),
            well_grouped(final(self).families()),
            final(self).families() == record_leaf(
                old(self).settings(),
                old(self).families(),
                Leaf { path: old(self).prefix(), text: decimal_text(v as int) },
            ),
    {
        self.serialize_u64(v as u64);
    }

    /// Records a 32-bit unsigned integer as its decimal text.
    pub fn serialize_u32(&mut self, v: u32)
        ensures
            final(self).prefix() == old(self).prefix(),
            final(self).settings() == old(self).settings(),
            well_grouped(final(self).families()),
            final(self).families() == record_leaf(
                old(self).settings(),
                old(self).families(),
                Leaf { path: old(self).prefix(), text: decimal_text(v as int) },
            ),
    {
        self.serialize_u64(v as u64);
    }

    /// Ends the pass and hands the gathered families over for emission.
    ///
    /// The emitter hands out the pieces of the exposition text in the order in which
    /// they are to be written: families in first-seen order, an empty line between
    /// two families, each family as its header block followed by its sample lines.
    pub fn finish(self) -> (emitter: Emitter)
        ensures
            emitter.pending() == chunks(self.families()),
    {
        Emitter::new(&self.families)
    }

    /// Visits the field `field_name` of a record: the value is walked one level below
    /// the current path, and the path is back where it was afterwards.
    pub fn serialize_field(&mut self, field_name: &str, value: &Value)
        ensures
            final(self).prefix() == old(self).prefix(),
            final(self).settings() == old(self).settings(),
            well_grouped(final(self).families()),
            final(self).families() == record_all(
                old(self).settings(),
                old(self).families(),
                leaves(join_path(old(self).prefix(), field_name@), *value),
            ),
        decreases *value, 1int,
    {
        let restore = self.enter(field_name);
        self.serialize_value(value);
        self.leave(restore);
    }

    /// Walks `value` at the current path and records a sample for every scalar leaf,
    /// in traversal order.
    ///
    /// Truth values and numbers are leaves. Text, bytes, markers, mappings, variant
    /// payloads and empty optionals are passed over. A present optional is walked in
    /// place, the fields of a record one level down under their names, the elements
    /// of a sequence in place.
    #[verifier::loop_isolation(false)]
    pub fn serialize_value(&mut self, value: &Value)
        ensures
            final(self).prefix() == old(self).prefix(),
            final(self).settings() == old(self).settings(),
            well_grouped(final(self).families()),
            final(self).families() == record_all(
                old(self).settings(),
                old(self).families(),
                leaves(old(self).prefix(), *value),
            ),
        decreases *value, 0int,
    {
        let ghost cfg = self.settings();
        let ghost start = self.families();
        let ghost prefix = self.prefix();
        proof {
            use_type_invariant(&self.families);
            self.families.lemma_well_grouped();
        }
        match value {
            Value::Bool(b) => {
                self.serialize_bool(*b);
                proof {
                    lemma_record_all_one(cfg, start, Leaf { path: prefix, text: bool_text(*b) });
                }
            },
            Value::Int(i) => {
                self.serialize_i64(*i);
                proof {
                    lemma_record_all_one(
                        cfg,
                        start,
                        Leaf { path: prefix, text: decimal_text(*i as int) },
                    );
                }
            },
            Value::UInt(u) => {
                self.serialize_u64(*u);
                proof {
                    lemma_record_all_one(
                        cfg,
                        start,
                        Leaf { path: prefix, text: decimal_text(*u as int) },
                    );
                }
            },
            Value::Float(text) => {
                self.write_metric(text.as_str());
                proof {
                    lemma_record_all_one(cfg, start, Leaf { path: prefix, text: text@ });
                }
            },
            Value::Text(_) => {},
            Value::Bytes(_) => {},
            Value::Unit => {},
            Value::Optional(None) => {},
            Value::Optional(Some(inner)) => {
                self.serialize_value(inner);
            },
            Value::Record(fields) => {
                let mut i: usize = 0;
                while i < fields.len()
                    invariant
                        i <= fields.len(),
                        self.prefix() == prefix,
                        self.settings() == cfg,
                        well_grouped(self.families()),
                        self.families() == record_all(
                            cfg,
                            start,
                            field_leaves(prefix, fields@, i as nat),
                        ),
                    decreases fields.len() - i,
                {
                    proof {
                        lemma_record_all_concat(
                            cfg,
                            start,
                            field_leaves(prefix, fields@, i as nat),
                            leaves(join_path(prefix, fields@[i as int].0@), fields@[i as int].1),
                        );
                    }
                    self.serialize_field(fields[i].0.as_str(), &fields[i].1);
                    i = i + 1;
                }
            },
            Value::Sequence(items) => {
                let mut i: usize = 0;
                while i < items.len()
                    invariant
                        i <= items.len(),
                        self.prefix() == prefix,
                        self.settings() == cfg,
                        well_grouped(self.families()),
                        self.families() == record_all(
                            cfg,
                            start,
                            item_leaves(prefix, items@, i as nat),
                        ),
                    decreases items.len() - i,
                {
                    proof {
                        lemma_record_all_concat(
                            cfg,
                            start,
                            item_leaves(prefix, items@, i as nat),
                            leaves(prefix, items@[i as int]),
                        );
                    }
                    self.serialize_value(&items[i]);
                    i = i + 1;
                }
            },
            Value::Mapping(_) => {},
            Value::EnumVariant(_) => {},
        }
    }
}

/// The settings of one call.
pub open spec fn call_settings(
    namespace: Option<&str>,
    table: Map<Seq<char>, DescriptorView>,
    common: Seq<(Seq<char>, Seq<char>)>,
    current: Seq<(Seq<char>, Seq<char>)>,
) -> Settings {
    Settings { namespace: optional_text(namespace), table, common, current }
}

/// The families that encoding `value` from the top gives under the given settings.
pub open spec fn encoded_families(cfg: Settings, value: Value) -> Seq<FamilyView> {
    record_all(cfg, Seq::empty(), leaves(Seq::empty(), value))
}

/// The exposition text is a function of the value and the settings: equal values
/// encoded under equal settings give equal texts.
pub proof fn lemma_deterministic(one: Settings, other: Settings, value: Value, again: Value)
    requires
        one == other,
        value == again,
    ensures
        exposition(encoded_families(one, value)) == exposition(encoded_families(other, again)),
{
}

/// Walks `value` from the top with a fresh serializer and hands the families over for
/// emission.
pub fn encode_to_sink<'s>(
    value: &Value,
    namespace: Option<&str>,
    metadata: &'s MetricTable<'s>,
    common_labels: Vec<(&'s str, &'s str)>,
    current_labels: Vec<(String, String)>,
) -> (emitter: Emitter)
    ensures
        emitter.pending() == chunks(
            encoded_families(
                call_settings(
                    namespace,
                    metadata@,
                    common_labels.deep_view(),
                    current_labels.deep_view(),
                ),
                *value,
            ),
        ),
{
    let mut serializer = PrometheusSerializer::new(namespace, metadata, common_labels);
    serializer.set_current_labels(current_labels);
    assert(serializer.families() =~= Seq::<FamilyView>::empty());
    assert(serializer.prefix() =~= Seq::<char>::empty());
    serializer.serialize_value(value);
    serializer.finish()
}

/// Encodes `value` as Prometheus exposition text, with labels for this call.
///
/// Every scalar leaf of the value becomes a sample of the metric named after its path;
/// samples are grouped into families in the order in which their names are first seen.
/// The call always succeeds: a structured value has no shape that cannot be walked,
/// and nothing is written that could be rejected.
pub fn encode_to_text<'s>(
    value: &Value,
    namespace: Option<&str>,
    metadata: &'s MetricTable<'s>,
    common_labels: Vec<(&'s str, &'s str)>,
    current_labels: Vec<(String, String)>,
) -> (result: Result<String, PrometheusError>)
    ensures
        result matches Ok(text) && text@ == exposition(
            encoded_families(
                call_settings(
                    namespace,
                    metadata@,
                    common_labels.deep_view(),
                    current_labels.deep_view(),
                ),
                *value,
            ),
        ),
{
    let ghost fs = encoded_families(
        call_settings(namespace, metadata@, common_labels.deep_view(), current_labels.deep_view()),
        *value,
    );
    let mut emitter = encode_to_sink(value, namespace, metadata, common_labels, current_labels);
    let mut text = String::new();
    proof {
        lemma_chunks_text(fs);
        assert(text@ + concat(emitter.pending()) =~= exposition(fs));
    }
    loop
        invariant
            text@ + concat(emitter.pending()) == exposition(fs),
            fs == encoded_families(
                call_settings(
                    namespace,
                    metadata@,
                    common_labels.deep_view(),
                    current_labels.deep_view(),
                ),
                *value,
            ),
        decreases emitter.pending().len(),
    {
        let ghost pending = emitter.pending();
        match emitter.step(Ok(())) {
            Step::Write(piece, rest) => {
                proof {
                    lemma_concat_first(pending);
                    assert(text@ + piece@ + concat(rest.pending()) =~= text@ + concat(pending));
                }
                text.append(piece.as_str());
                emitter = rest;
            },
            Step::Done => {
                assert(concat(pending) =~= Seq::<char>::empty());
                return Ok(text);
            },
            Step::Fail(error) => {
                return Err(error);
            },
        }
    }
}

/// Encodes `value` as Prometheus exposition text.
///
/// This is [`encode_to_text`] without labels for the call.
pub fn to_prometheus_text<'s>(
    value: &Value,
    namespace: Option<&str>,
    metadata: &'s MetricTable<'s>,
    common_labels: Vec<(&'s str, &'s str)>,
) -> (result: Result<String, PrometheusError>)
    ensures
        result matches Ok(text) && text@ == exposition(
            encoded_families(
                call_settings(namespace, metadata@, common_labels.deep_view(), Seq::empty()),
                *value,
            ),
        ),
{
    let current_labels: Vec<(String, String)> = Vec::new();
    assert(current_labels.deep_view() =~= Seq::<(Seq<char>, Seq<char>)>::empty());
    encode_to_text(value, namespace, metadata, common_labels, current_labels)
}

/// Encodes `value` for writing to an output.
///
/// The emitter that comes back hands out the exposition text piece by piece; the
/// caller writes each piece to its output and passes on the outcome of the write.
/// This is [`encode_to_sink`] without labels for the call.
pub fn write_prometheus_text<'s>(
    value: &Value,
    namespace: Option<&str>,
    metadata: &'s MetricTable<'s>,
    common_labels: Vec<(&'s str, &'s str)>,
) -> (emitter: Emitter)
    ensures
        emitter.pending() == chunks(
            encoded_families(
                call_settings(namespace, metadata@, common_labels.deep_view(), Seq::empty()),
                *value,
            ),
        ),
{
    let current_labels: Vec<(String, String)> = Vec::new();
    assert(current_labels.deep_view() =~= Seq::<(Seq<char>, Seq<char>)>::empty());
    encode_to_sink(value, namespace, metadata, common_labels, current_labels)
}

} // verus!
