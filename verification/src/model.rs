//! The encoding as a function on plain values: how a metric name is derived, which
//! descriptor applies to it, and what recording a run of scalar leaves does to the
//! families gathered so far.

use crate::family::{
    header_text, heads, lemma_record, record, samples_named, well_grouped, FamilyView,
};
use crate::labels::{compose, sample_key_text};
use crate::metric::DescriptorView;
use crate::ordered::{distinct_keys, has_key, key_index, lemma_key_index, lemma_key_index_at, lemma_upsert};
use vstd::prelude::*;

verus! {

/// What stays fixed during one encoding pass.
pub struct Settings {
    /// Prefix put before every published metric name, joined with `_`.
    pub namespace: Option<Seq<char>>,
    /// Metadata by metric name.
    pub table: Map<Seq<char>, DescriptorView>,
    /// Labels attached to every sample of every call.
    pub common: Seq<(Seq<char>, Seq<char>)>,
    /// Labels attached to every sample of this call.
    pub current: Seq<(Seq<char>, Seq<char>)>,
}

/// A scalar reached by the traversal: the path name at which it stands and the text of
/// its value.
pub struct Leaf {
    pub path: Seq<char>,
    pub text: Seq<char>,
}

/// Path name of a field below `prefix`: the field's name at the top, otherwise the
/// prefix, `_` and the field's name.
pub open spec fn join_path(prefix: Seq<char>, field: Seq<char>) -> Seq<char> {
    if prefix.len() == 0 {
        field
    } else {
        prefix + "_"@ + field
    }
}

/// A name with the namespace, if there is one, and `_` put before it.
pub open spec fn namespaced(namespace: Option<Seq<char>>, name: Seq<char>) -> Seq<char> {
    match namespace {
        Some(ns) => ns + "_"@ + name,
        None => name,
    }
}

/// The descriptor that applies at a path: the entry for the bare path name; failing
/// that, with a namespace set, the entry for the namespaced path name; failing that,
/// the plain descriptor.
pub open spec fn resolve(
    table: Map<Seq<char>, DescriptorView>,
    namespace: Option<Seq<char>>,
    path: Seq<char>,
) -> DescriptorView {
    if table.contains_key(path) {
        table[path]
    } else if namespace is Some && table.contains_key(namespaced(namespace, path)) {
        table[namespaced(namespace, path)]
    } else {
        DescriptorView::plain()
    }
}

/// Name under which the metric at `path` is published: the rename target of its
/// descriptor if it has one, else the path name; namespaced either way.
pub open spec fn published_name(
    namespace: Option<Seq<char>>,
    path: Seq<char>,
    descriptor: DescriptorView,
) -> Seq<char> {
    match descriptor.rename {
        Some(target) => namespaced(namespace, target),
        None => namespaced(namespace, path),
    }
}

/// Published name of the metric at `path` under the given settings.
pub open spec fn leaf_name(cfg: Settings, path: Seq<char>) -> Seq<char> {
    published_name(cfg.namespace, path, resolve(cfg.table, cfg.namespace, path))
}

/// Sample key of the metric at `path` under the given settings.
pub open spec fn leaf_key(cfg: Settings, path: Seq<char>) -> Seq<char> {
    let descriptor = resolve(cfg.table, cfg.namespace, path);
    sample_key_text(leaf_name(cfg, path), compose(cfg.current, cfg.common, descriptor.labels))
}

/// The families after the sample of one leaf has been recorded.
pub open spec fn record_leaf(cfg: Settings, fs: Seq<FamilyView>, leaf: Leaf) -> Seq<FamilyView> {
    let descriptor = resolve(cfg.table, cfg.namespace, leaf.path);
    let name = leaf_name(cfg, leaf.path);
    record(
        fs,
        name,
        header_text(name, descriptor.help, descriptor.metric_type),
        leaf_key(cfg, leaf.path),
        leaf.text,
    )
}

/// The families after the samples of a run of leaves have been recorded in order.
pub open spec fn record_all(cfg: Settings, fs: Seq<FamilyView>, leaves: Seq<Leaf>) -> Seq<
    FamilyView,
>
    decreases leaves.len(),
{
    if leaves.len() == 0 {
        fs
    } else {
        record_leaf(cfg, record_all(cfg, fs, leaves.drop_last()), leaves.last())
    }
}

/// Recording two runs one after the other is recording their concatenation.
pub proof fn lemma_record_all_concat(
    cfg: Settings,
    fs: Seq<FamilyView>,
    first: Seq<Leaf>,
    second: Seq<Leaf>,
)
    ensures
        record_all(cfg, fs, first + second) == record_all(cfg, record_all(cfg, fs, first), second),
    decreases second.len(),
{
    if second.len() == 0 {
        assert(first + second =~= first);
    } else {
        assert((first + second).drop_last() =~= first + second.drop_last());
        lemma_record_all_concat(cfg, fs, first, second.drop_last());
    }
}

/// Recording a run of one leaf is recording that leaf.
pub proof fn lemma_record_all_one(cfg: Settings, fs: Seq<FamilyView>, leaf: Leaf)
    ensures
        record_all(cfg, fs, seq![leaf]) == record_leaf(cfg, fs, leaf),
{
    let one = seq![leaf];
    assert(one.drop_last() =~= Seq::<Leaf>::empty());
    assert(record_all(cfg, fs, one.drop_last()) == fs);
}

/// Number of leaves of a run that are published under `name`.
pub open spec fn occurrences(cfg: Settings, leaves: Seq<Leaf>, name: Seq<char>) -> nat
    decreases leaves.len(),
{
    if leaves.len() == 0 {
        0
    } else {
        occurrences(cfg, leaves.drop_last(), name) + if leaf_name(cfg, leaves.last().path)
            == name {
            1nat
        } else {
            0nat
        }
    }
}

/// The leaves of two runs that are published under a name are counted run by run.
pub proof fn lemma_occurrences_concat(
    cfg: Settings,
    first: Seq<Leaf>,
    second: Seq<Leaf>,
    name: Seq<char>,
)
    ensures
        occurrences(cfg, first + second, name) == occurrences(cfg, first, name) + occurrences(
            cfg,
            second,
            name,
        ),
    decreases second.len(),
{
    if second.len() == 0 {
        assert(first + second =~= first);
    } else {
        assert((first + second).drop_last() =~= first + second.drop_last());
        lemma_occurrences_concat(cfg, first, second.drop_last(), name);
    }
}

/// A run has a leaf published under `name` exactly when it counts at least one.
pub proof fn lemma_occurrences_positive(cfg: Settings, leaves: Seq<Leaf>, name: Seq<char>)
    ensures
        occurrences(cfg, leaves, name) > 0 <==> exists|k: int|
            0 <= k < leaves.len() && leaf_name(cfg, #[trigger] leaves[k].path) == name,
    decreases leaves.len(),
{
    if leaves.len() > 0 {
        let init = leaves.drop_last();
        lemma_occurrences_positive(cfg, init, name);
        if occurrences(cfg, leaves, name) > 0 {
            if leaf_name(cfg, leaves.last().path) == name {
                assert(leaf_name(cfg, leaves[leaves.len() - 1].path) == name);
            } else {
                let k = choose|k: int|
                    0 <= k < init.len() && leaf_name(cfg, #[trigger] init[k].path) == name;
                assert(leaf_name(cfg, leaves[k].path) == name);
            }
        }
        if exists|k: int|
            0 <= k < leaves.len() && leaf_name(cfg, #[trigger] leaves[k].path) == name {
            let k = choose|k: int|
                0 <= k < leaves.len() && leaf_name(cfg, #[trigger] leaves[k].path) == name;
            if k < init.len() {
                assert(leaf_name(cfg, init[k].path) == name);
            }
        }
    }
}

/// However many leaves are recorded, and wherever they stand, the samples published
/// under one name end up in one family: names stay distinct, so each name has one
/// header block; sample keys stay distinct, so a repeated sample replaces the earlier
/// one; and the family of a name grows by at most one sample for each leaf published
/// under that name. A name has a family exactly if it had one before or some leaf is
/// published under it.
pub proof fn lemma_family_grouping(
    cfg: Settings,
    fs: Seq<FamilyView>,
    leaves: Seq<Leaf>,
    name: Seq<char>,
)
    requires
        well_grouped(fs),
    ensures
        well_grouped(record_all(cfg, fs, leaves)),
        samples_named(fs, name).len() <= samples_named(record_all(cfg, fs, leaves), name).len()
            <= samples_named(fs, name).len() + occurrences(cfg, leaves, name),
        has_key(heads(record_all(cfg, fs, leaves)), name) <==> has_key(heads(fs), name)
            || occurrences(cfg, leaves, name) > 0,
        occurrences(cfg, leaves, name) > 0 ==> samples_named(record_all(cfg, fs, leaves), name).len()
            > 0,
    decreases leaves.len(),
{
    if leaves.len() > 0 {
        let init = leaves.drop_last();
        let last = leaves.last();
        let mid = record_all(cfg, fs, init);
        lemma_family_grouping(cfg, fs, init, name);
        let descriptor = resolve(cfg.table, cfg.namespace, last.path);
        let target = leaf_name(cfg, last.path);
        let header = header_text(target, descriptor.help, descriptor.metric_type);
        let key = leaf_key(cfg, last.path);
        let out = record(mid, target, header, key, last.text);
        lemma_record(mid, target, header, key, last.text);
        lemma_key_index(heads(mid), name);
        lemma_key_index(heads(out), name);
        lemma_key_index(heads(mid), target);
        if target == name {
            assert(distinct_keys(samples_named(mid, name))) by {
                if key_index(heads(mid), name) < mid.len() {
                    assert(distinct_keys(mid[key_index(heads(mid), name)].samples));
                }
            }
            lemma_upsert(samples_named(mid, name), key, last.text);
        } else {
            lemma_has_family_kept(mid, target, header, key, last.text, name);
        }
    }
}

/// Recording a sample under one name neither makes nor removes a family of
/// another name.
pub proof fn lemma_has_family_kept(
    fs: Seq<FamilyView>,
    target: Seq<char>,
    header: Seq<char>,
    key: Seq<char>,
    value: Seq<char>,
    name: Seq<char>,
)
    requires
        well_grouped(fs),
        target != name,
    ensures
        has_key(heads(record(fs, target, header, key, value)), name) <==> has_key(heads(fs), name),
{
    let out = record(fs, target, header, key, value);
    lemma_record(fs, target, header, key, value);
    lemma_key_index(heads(fs), target);
    if has_key(heads(fs), name) {
        let j = choose|j: int| 0 <= j < heads(fs).len() && #[trigger] heads(fs)[j].0 == name;
        assert(heads(out)[j] == heads(fs)[j]);
    }
    if has_key(heads(out), name) {
        let j = choose|j: int| 0 <= j < heads(out).len() && #[trigger] heads(out)[j].0 == name;
        if j < fs.len() {
            assert(heads(out)[j] == heads(fs)[j]);
        } else {
            assert(out[j].name == target);
        }
    }
}

/// After any run of leaves has been recorded into families that were empty at the
/// start, every name under which a leaf of the run is published has exactly one
/// family, and the header of that family is the one built from the descriptor that
/// applies at the first leaf published under the name.
pub proof fn lemma_header_once(cfg: Settings, leaves: Seq<Leaf>, first: int)
    requires
        0 <= first < leaves.len(),
        forall|k: int| 0 <= k < first ==> leaf_name(cfg, #[trigger] leaves[k].path) != leaf_name(
            cfg,
            leaves[first].path,
        ),
    ensures
        ({
            let out = record_all(cfg, Seq::empty(), leaves);
            let name = leaf_name(cfg, leaves[first].path);
            let descriptor = resolve(cfg.table, cfg.namespace, leaves[first].path);
            let at = key_index(heads(out), name);
            &&& 0 <= at < out.len()
            &&& out[at].name == name
            &&& out[at].header == header_text(name, descriptor.help, descriptor.metric_type)
            &&& forall|j: int| 0 <= j < out.len() && #[trigger] out[j].name == name ==> j == at
        }),
    decreases leaves.len(),
{
    let empty = Seq::<FamilyView>::empty();
    let name = leaf_name(cfg, leaves[first].path);
    let init = leaves.drop_last();
    let last = leaves.last();
    let mid = record_all(cfg, empty, init);
    let out = record_all(cfg, empty, leaves);
    let descriptor = resolve(cfg.table, cfg.namespace, last.path);
    let target = leaf_name(cfg, last.path);
    let header = header_text(target, descriptor.help, descriptor.metric_type);
    let key = leaf_key(cfg, last.path);
    lemma_family_grouping(cfg, empty, init, name);
    lemma_family_grouping(cfg, empty, leaves, name);
    lemma_record(mid, target, header, key, last.text);
    lemma_key_index(heads(mid), name);
    lemma_key_index(heads(out), name);
    lemma_key_index(heads(mid), target);
    let at = key_index(heads(out), name);
    if first < init.len() {
        assert forall|k: int| 0 <= k < first implies leaf_name(cfg, #[trigger] init[k].path)
            != leaf_name(cfg, init[first].path) by {
            assert(init[k] == leaves[k]);
        }
        lemma_header_once(cfg, init, first);
        let before = key_index(heads(mid), name);
        assert(heads(out)[before] == heads(mid)[before]);
        lemma_key_index_at(heads(out), before);
    } else {
        lemma_occurrences_positive(cfg, init, name);
        assert(occurrences(cfg, init, name) == 0) by {
            if occurrences(cfg, init, name) > 0 {
                let k = choose|k: int|
                    0 <= k < init.len() && leaf_name(cfg, #[trigger] init[k].path) == name;
                assert(init[k] == leaves[k]);
            }
        }
        assert(key_index(heads(mid), name) == mid.len());
        assert(out[at].header == header);
    }
    assert forall|j: int| 0 <= j < out.len() && #[trigger] out[j].name == name implies j == at by {
        assert(heads(out)[j].0 == name);
        lemma_key_index_at(heads(out), j);
    }
}

/// Where the descriptor that applies at a path names a rename target, the sample of
/// a leaf at that path is recorded under the namespaced target: the family of that
/// name holds the sample, with a key that starts with that name, and the samples of
/// every other name, the path-derived one among them, are as before.
pub proof fn lemma_rename(cfg: Settings, fs: Seq<FamilyView>, leaf: Leaf, target: Seq<char>)
    requires
        well_grouped(fs),
        resolve(cfg.table, cfg.namespace, leaf.path).rename == Some(target),
    ensures
        ({
            let out = record_leaf(cfg, fs, leaf);
            let name = namespaced(cfg.namespace, target);
            let labels = compose(
                cfg.current,
                cfg.common,
                resolve(cfg.table, cfg.namespace, leaf.path).labels,
            );
            let at = key_index(samples_named(fs, name), sample_key_text(name, labels));
            &&& leaf_name(cfg, leaf.path) == name
            &&& has_key(heads(out), name)
            &&& 0 <= at < samples_named(out, name).len()
            &&& samples_named(out, name)[at] == (sample_key_text(name, labels), leaf.text)
            &&& name.is_prefix_of(sample_key_text(name, labels))
            &&& forall|other: Seq<char>|
                other != name ==> #[trigger] samples_named(out, other) == samples_named(fs, other)
        }),
{
    let descriptor = resolve(cfg.table, cfg.namespace, leaf.path);
    let name = namespaced(cfg.namespace, target);
    let labels = compose(cfg.current, cfg.common, descriptor.labels);
    let header = header_text(name, descriptor.help, descriptor.metric_type);
    let key = sample_key_text(name, labels);
    lemma_record(fs, name, header, key, leaf.text);
    lemma_key_index(heads(fs), name);
    assert(distinct_keys(samples_named(fs, name))) by {
        if key_index(heads(fs), name) < fs.len() {
            assert(distinct_keys(fs[key_index(heads(fs), name)].samples));
        }
    }
    lemma_upsert(samples_named(fs, name), key, leaf.text);
    lemma_key_index(samples_named(fs, name), key);
}

} // verus!
