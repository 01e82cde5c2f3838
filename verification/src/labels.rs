//! Label sets of samples: how labels from several sources are put together and how a
//! label set is written after a metric name.

use crate::text::{escape, escape_label_value, push_text};
use vstd::prelude::*;

verus! {

/// One label as it is written between braces: `key="escaped value"`.
pub open spec fn label_text(label: (Seq<char>, Seq<char>)) -> Seq<char> {
    label.0 + "=\""@ + escape(label.1) + "\""@
}

/// Labels written one after the other, separated by commas.
pub open spec fn labels_text(labels: Seq<(Seq<char>, Seq<char>)>) -> Seq<char>
    decreases labels.len(),
{
    if labels.len() == 0 {
        Seq::empty()
    } else if labels.len() == 1 {
        label_text(labels[0])
    } else {
        labels_text(labels.drop_last()) + ","@ + label_text(labels.last())
    }
}

/// The label set of a sample: the labels of the current call, then the common labels,
/// then the static labels of the metric. A key that several sources give occurs once
/// for each of them.
pub open spec fn compose(
    current: Seq<(Seq<char>, Seq<char>)>,
    common: Seq<(Seq<char>, Seq<char>)>,
    fixed: Seq<(Seq<char>, Seq<char>)>,
) -> Seq<(Seq<char>, Seq<char>)> {
    current + common + fixed
}

/// Key of a sample: the metric name, followed by the label set in braces unless the
/// set is empty.
pub open spec fn sample_key_text(name: Seq<char>, labels: Seq<(Seq<char>, Seq<char>)>) -> Seq<
    char,
> {
    if labels.len() == 0 {
        name
    } else {
        name + "{"@ + labels_text(labels) + "}"@
    }
}

/// Puts three label lists into one, in the order [`compose`] gives.
pub fn compose_labels<'a>(
    current: &'a Vec<(String, String)>,
    common: &'a Vec<(&'a str, &'a str)>,
    fixed: &'a Vec<(&'a str, &'a str)>,
) -> (all: Vec<(&'a str, &'a str)>)
    ensures
        all.deep_view() == compose(current.deep_view(), common.deep_view(), fixed.deep_view()),
{
    let mut all: Vec<(&'a str, &'a str)> = Vec::new();
    let mut i: usize = 0;
    while i < current.len()
        invariant
            i <= current.len(),
            all.deep_view() == current.deep_view().take(i as int),
        decreases current.len() - i,
    {
        let ghost before = all.deep_view();
        all.push((current[i].0.as_str(), current[i].1.as_str()));
        assert(all.deep_view() =~= before.push(current.deep_view()[i as int]));
        i = i + 1;
    }
    let mut j: usize = 0;
    while j < common.len()
        invariant
            j <= common.len(),
            all.deep_view() == current.deep_view() + common.deep_view().take(j as int),
        decreases common.len() - j,
    {
        let ghost before = all.deep_view();
        all.push(common[j]);
        assert(all.deep_view() =~= before.push(common.deep_view()[j as int]));
        j = j + 1;
    }
    let mut k: usize = 0;
    while k < fixed.len()
        invariant
            k <= fixed.len(),
            all.deep_view() == current.deep_view() + common.deep_view() + fixed.deep_view().take(
                k as int,
            ),
        decreases fixed.len() - k,
    {
        let ghost before = all.deep_view();
        all.push(fixed[k]);
        assert(all.deep_view() =~= before.push(fixed.deep_view()[k as int]));
        k = k + 1;
    }
    all
}

/// Writes the key of a sample of the metric `name` with the given label set.
pub fn render_sample_key(name: &str, labels: &Vec<(&str, &str)>) -> (key: String)
    ensures
        key@ == sample_key_text(name@, labels.deep_view()),
{
    let mut key = name.to_owned();
    if labels.len() > 0 {
        push_text(&mut key, "{");
        let ghost all = labels.deep_view();
        let mut i: usize = 0;
        while i < labels.len()
            invariant
                i <= labels.len(),
                all == labels.deep_view(),
                key@ == name@ + "{"@ + labels_text(all.take(i as int)),
            decreases labels.len() - i,
        {
            if i > 0 {
                push_text(&mut key, ",");
            }
            let (k, v) = labels[i];
            let escaped = escape_label_value(v);
            push_text(&mut key, k);
            push_text(&mut key, "=\"");
            push_text(&mut key, escaped.as_str());
            push_text(&mut key, "\"");
            assert(all.take(i + 1).drop_last() =~= all.take(i as int));
            i = i + 1;
        }
        assert(all.take(i as int) =~= all);
        push_text(&mut key, "}");
    }
    key
}

} // verus!
