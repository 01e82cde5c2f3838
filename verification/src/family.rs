//! Metric families: one header block per published metric name, followed by the
//! samples recorded under that name.

use crate::metric::{MetricDescriptor, MetricType};
use crate::ordered::{
    distinct_keys, entries, has_key, key_index, lemma_key_index, lemma_upsert, map_entry, map_find,
    map_len, map_set, new_map, upsert,
};
use crate::text::push_text;
use indexmap::IndexMap;
use vstd::prelude::*;

verus! {

/// A metric family as plain values.
#[verifier::ext_equal]
pub struct FamilyView {
    /// Published name shared by all samples of the family.
    pub name: Seq<char>,
    /// The `# HELP` / `# TYPE` block, without a final line feed.
    pub header: Seq<char>,
    /// Sample key and value text of each sample, in first-seen order.
    pub samples: Seq<(Seq<char>, Seq<char>)>,
}

/// Name and header of each family, in order.
pub open spec fn heads(fs: Seq<FamilyView>) -> Seq<(Seq<char>, Seq<char>)> {
    Seq::new(fs.len(), |i: int| (fs[i].name, fs[i].header))
}

/// No two families share a name, and no two samples of a family share a key.
pub open spec fn well_grouped(fs: Seq<FamilyView>) -> bool {
    &&& distinct_keys(heads(fs))
    &&& forall|i: int| 0 <= i < fs.len() ==> distinct_keys(#[trigger] fs[i].samples)
}

/// Header block of a family: a `# HELP` line unless the help text is empty, then the
/// `# TYPE` line.
pub open spec fn header_text(name: Seq<char>, help: Seq<char>, metric_type: MetricType) -> Seq<
    char,
> {
    let help_line = if help.len() == 0 {
        Seq::<char>::empty()
    } else {
        "# HELP "@ + name + " "@ + help + "\n"@
    };
    help_line + "# TYPE "@ + name + " "@ + metric_type.name()
}

/// The families after one sample has been recorded under `name`.
///
/// A family of that name takes the sample: its header stays as it is, and the sample
/// replaces the value of an earlier sample with the same key or is added last. Where no
/// family has the name yet, a new last family is made of `header` and the one sample.
pub open spec fn record(
    fs: Seq<FamilyView>,
    name: Seq<char>,
    header: Seq<char>,
    key: Seq<char>,
    value: Seq<char>,
) -> Seq<FamilyView> {
    let i = key_index(heads(fs), name);
    if i < fs.len() {
        fs.update(
            i,
            FamilyView {
                name: fs[i].name,
                header: fs[i].header,
                samples: upsert(fs[i].samples, key, value),
            },
        )
    } else {
        fs.push(FamilyView { name, header, samples: seq![(key, value)] })
    }
}

/// Samples of the family called `name`; none where no family has that name.
pub open spec fn samples_named(fs: Seq<FamilyView>, name: Seq<char>) -> Seq<
    (Seq<char>, Seq<char>),
> {
    let i = key_index(heads(fs), name);
    if i < fs.len() {
        fs[i].samples
    } else {
        Seq::empty()
    }
}

/// Recording a sample keeps names and sample keys distinct, leaves every family of
/// another name as it was, and adds at most one sample to the family of `name`.
pub proof fn lemma_record(
    fs: Seq<FamilyView>,
    name: Seq<char>,
    header: Seq<char>,
    key: Seq<char>,
    value: Seq<char>,
)
    requires
        well_grouped(fs),
    ensures
        well_grouped(record(fs, name, header, key, value)),
        has_key(heads(record(fs, name, header, key, value)), name),
        samples_named(record(fs, name, header, key, value), name) == upsert(
            samples_named(fs, name),
            key,
            value,
        ),
        forall|other: Seq<char>|
            other != name ==> #[trigger] samples_named(record(fs, name, header, key, value), other)
                == samples_named(fs, other),
        forall|i: int|
            0 <= i < fs.len() ==> (#[trigger] heads(record(fs, name, header, key, value))[i])
                == heads(fs)[i],
        fs.len() <= record(fs, name, header, key, value).len() <= fs.len() + 1,
        record(fs, name, header, key, value).len() == fs.len() <==> has_key(heads(fs), name),
{
    let out = record(fs, name, header, key, value);
    let i = key_index(heads(fs), name);
    lemma_key_index(heads(fs), name);
    if i < fs.len() {
        assert(heads(out) =~= heads(fs));
        lemma_upsert(fs[i].samples, key, value);
        assert forall|j: int| 0 <= j < out.len() implies distinct_keys(
            #[trigger] out[j].samples,
        ) by {
            assert(j != i ==> out[j].samples == fs[j].samples);
        }
        assert forall|other: Seq<char>| other != name implies #[trigger] samples_named(out, other)
            == samples_named(fs, other) by {
            lemma_key_index(heads(fs), other);
        }
    } else {
        assert(heads(out) =~= heads(fs).push((name, header)));
        assert forall|j: int| 0 <= j < out.len() implies distinct_keys(
            #[trigger] out[j].samples,
        ) by {
            assert(j < fs.len() ==> out[j].samples == fs[j].samples);
        }
        lemma_key_index(heads(out), name);
        lemma_key_index_after_push(heads(fs), (name, header), name);
        assert forall|other: Seq<char>| other != name implies #[trigger] samples_named(out, other)
            == samples_named(fs, other) by {
            lemma_key_index(heads(fs), other);
            lemma_key_index_after_push(heads(fs), (name, header), other);
        }
    }
}

/// Position of a key after one entry has been added at the end.
pub proof fn lemma_key_index_after_push(
    s: Seq<(Seq<char>, Seq<char>)>,
    last: (Seq<char>, Seq<char>),
    key: Seq<char>,
)
    ensures
        key_index(s, key) < s.len() ==> key_index(s.push(last), key) == key_index(s, key),
        key_index(s, key) == s.len() && last.0 == key ==> key_index(s.push(last), key) == s.len(),
        key_index(s, key) == s.len() && last.0 != key ==> key_index(s.push(last), key) == s.len()
            + 1,
    decreases s.len(),
{
    lemma_key_index(s, key);
    if s.len() == 0 {
        assert(s.push(last).drop_first() =~= s);
    } else if s[0].0 != key {
        assert(s.push(last).drop_first() =~= s.drop_first().push(last));
        lemma_key_index_after_push(s.drop_first(), last, key);
    }
}

/// Builds the header block of the family called `name`.
pub fn family_header(name: &str, descriptor: &MetricDescriptor) -> (header: String)
    ensures
        header@ == header_text(name@, descriptor@.help, descriptor@.metric_type),
{
    let mut header = String::new();
    if !descriptor.help.is_empty() {
        push_text(&mut header, "# HELP ");
        push_text(&mut header, name);
        push_text(&mut header, " ");
        push_text(&mut header, descriptor.help);
        push_text(&mut header, "\n");
    }
    push_text(&mut header, "# TYPE ");
    push_text(&mut header, name);
    push_text(&mut header, " ");
    push_text(&mut header, descriptor.metric_type.as_str());
    header
}

/// The families gathered during one encoding pass, in the order in which their names
/// were first seen.
pub struct Families {
    /// Family name to header block.
    headers: IndexMap<String, String>,
    /// Sample key to value text; one map per family, in the order of `headers`.
    samples: Vec<IndexMap<String, String>>,
}

impl View for Families {
    type V = Seq<FamilyView>;

    closed spec fn view(&self) -> Seq<FamilyView> {
        Seq::new(
            entries(self.headers).len(),
            |i: int|
                FamilyView {
                    name: entries(self.headers)[i].0,
                    header: entries(self.headers)[i].1,
                    samples: entries(self.samples[i]),
                },
        )
    }
}

impl Families {
    /// Every family has its sample map, and names and sample keys are distinct.
    #[verifier::type_invariant]
    pub closed spec fn valid(&self) -> bool {
        &&& entries(self.headers).len() == self.samples.len()
        &&& distinct_keys(entries(self.headers))
        &&& forall|i: int|
            0 <= i < self.samples.len() ==> distinct_keys(entries(#[trigger] self.samples[i]))
    }

    /// The families that a valid aggregator holds are well grouped.
    pub proof fn lemma_well_grouped(&self)
        requires
            self.valid(),
        ensures
            well_grouped(self@),
    {
    }

    /// No families.
    pub fn new() -> (families: Self)
        ensures
            families@.len() == 0,
    {
        Families { headers: new_map(), samples: Vec::new() }
    }

    /// Number of families.
    pub fn len(&self) -> (n: usize)
        ensures
            n == self@.len(),
    {
        map_len(&self.headers)
    }

    /// Records one sample under the family called `metric_name`.
    ///
    /// The first sample of a name creates the family, with a header built from
    /// `descriptor`; later samples leave the header alone. A sample whose key the
    /// family already holds replaces the value of that sample.
    pub fn record(
        &mut self,
        metric_name: &str,
        sample_key: String,
        value: &str,
        descriptor: &MetricDescriptor,
    )
        ensures
            well_grouped(final(self)@),
            final(self)@ == record(
                old(self)@,
                metric_name@,
                header_text(metric_name@, descriptor@.help, descriptor@.metric_type),
                sample_key@,
                value@,
            ),
    {
        let ghost before = self@;
        let ghost header = header_text(metric_name@, descriptor@.help, descriptor@.metric_type);
        proof {
            use_type_invariant(&*self);
            self.lemma_well_grouped();
            assert(heads(before) =~= entries(self.headers));
            lemma_record(before, metric_name@, header, sample_key@, value@);
            lemma_key_index(heads(before), metric_name@);
        }
        // The two collections are taken out, changed, and put back as one value.
        let mut taken = Families::new();
        std::mem::swap(self, &mut taken);
        let Families { mut headers, mut samples } = taken;
        let index = match map_find(&headers, metric_name) {
            Some(i) => i,
            None => {
                let block = family_header(metric_name, descriptor);
                samples.push(new_map());
                map_set(&mut headers, metric_name.to_owned(), block)
            },
        };
        map_set(&mut samples[index], sample_key, value.to_owned());
        *self = Families { headers, samples };
        proof {
            let after = record(before, metric_name@, header, sample_key@, value@);
            assert forall|j: int| 0 <= j < after.len() implies self@[j] =~= after[j] by {}
            assert(self@ =~= after);
        }
    }

    /// Name of the family at position `index`.
    pub fn name(&self, index: usize) -> (name: &str)
        requires
            index < self@.len(),
        ensures
            name@ == self@[index as int].name,
    {
        match map_entry(&self.headers, index) {
            Some((name, _)) => name.as_str(),
            None => "",
        }
    }

    /// Header block of the family at position `index`.
    pub fn header(&self, index: usize) -> (header: &str)
        requires
            index < self@.len(),
        ensures
            header@ == self@[index as int].header,
    {
        match map_entry(&self.headers, index) {
            Some((_, header)) => header.as_str(),
            None => "",
        }
    }

    /// Number of samples of the family at position `index`.
    pub fn sample_count(&self, index: usize) -> (n: usize)
        requires
            index < self@.len(),
        ensures
            n == self@[index as int].samples.len(),
    {
        proof {
            use_type_invariant(self);
        }
        map_len(&self.samples[index])
    }

    /// Key and value text of one sample of the family at position `index`.
    pub fn sample(&self, index: usize, position: usize) -> (sample: (&str, &str))
        requires
            index < self@.len(),
            position < self@[index as int].samples.len(),
        ensures
            (sample.0@, sample.1@) == self@[index as int].samples[position as int],
    {
        proof {
            use_type_invariant(self);
        }
        match map_entry(&self.samples[index], position) {
            Some((key, value)) => (key.as_str(), value.as_str()),
            None => ("", ""),
        }
    }
}

} // verus!
