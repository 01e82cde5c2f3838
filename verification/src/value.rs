//! Structured values and the scalar leaves that an encoding pass finds in them.

use crate::family::{samples_named, well_grouped, FamilyView};
use crate::model::{
    join_path, lemma_family_grouping, lemma_occurrences_concat, occurrences, record_all, Leaf,
    Settings,
};
use crate::text::decimal_text;
use vstd::prelude::*;

verus! {

/// A structured value of any shape.
#[derive(Debug, PartialEq)]
pub enum Value {
    /// A truth value; sampled as `1` or `0`.
    Bool(bool),
    /// A signed integer; sampled as its decimal text.
    Int(i64),
    /// An unsigned integer; sampled as its decimal text.
    UInt(u64),
    /// A floating-point number, held as its shortest decimal text that reads back to
    /// the same number; sampled as that text.
    Float(String),
    /// Text or a single character; never sampled.
    Text(String),
    /// A byte string; never sampled.
    Bytes(Vec<u8>),
    /// A marker without content; never sampled.
    Unit,
    /// An optional value: nothing, or a value that stands at the same path.
    Optional(Option<Box<Value>>),
    /// Named fields in declaration order; each field extends the path by its name.
    Record(Vec<(String, Value)>),
    /// Positional elements; each element stands at the path of the sequence.
    Sequence(Vec<Value>),
    /// Key-value pairs; never sampled.
    Mapping(Vec<(Value, Value)>),
    /// An enumeration variant with a payload; the payload is never sampled.
    EnumVariant(Box<Value>),
}

/// Sample text of a truth value.
pub open spec fn bool_text(b: bool) -> Seq<char> {
    if b {
        "1"@
    } else {
        "0"@
    }
}

/// The scalar leaves of `value`, in traversal order, when the value stands at the
/// path name `prefix`.
pub open spec fn leaves(prefix: Seq<char>, value: Value) -> Seq<Leaf>
    decreases value,
{
    match value {
        Value::Bool(b) => seq![Leaf { path: prefix, text: bool_text(b) }],
        Value::Int(i) => seq![Leaf { path: prefix, text: decimal_text(i as int) }],
        Value::UInt(u) => seq![Leaf { path: prefix, text: decimal_text(u as int) }],
        Value::Float(text) => seq![Leaf { path: prefix, text: text@ }],
        Value::Text(_) => Seq::empty(),
        Value::Bytes(_) => Seq::empty(),
        Value::Unit => Seq::empty(),
        Value::Optional(None) => Seq::empty(),
        Value::Optional(Some(inner)) => leaves(prefix, *inner),
        Value::Record(fields) => field_leaves(prefix, fields@, fields@.len()),
        Value::Sequence(items) => item_leaves(prefix, items@, items@.len()),
        Value::Mapping(_) => Seq::empty(),
        Value::EnumVariant(_) => Seq::empty(),
    }
}

/// The leaves of the first `count` fields of a record that stands at `prefix`.
pub open spec fn field_leaves(prefix: Seq<char>, fields: Seq<(String, Value)>, count: nat) -> Seq<
    Leaf,
>
    decreases fields, count,
{
    if count == 0 || count > fields.len() {
        Seq::empty()
    } else {
        field_leaves(prefix, fields, (count - 1) as nat) + leaves(
            join_path(prefix, fields[count - 1].0@),
            fields[count - 1].1,
        )
    }
}

/// The leaves of the first `count` elements of a sequence that stands at `prefix`.
pub open spec fn item_leaves(prefix: Seq<char>, items: Seq<Value>, count: nat) -> Seq<Leaf>
    decreases items, count,
{
    if count == 0 || count > items.len() {
        Seq::empty()
    } else {
        item_leaves(prefix, items, (count - 1) as nat) + leaves(prefix, items[count - 1])
    }
}

/// The kinds of value that an encoding pass passes over: text, bytes, markers,
/// mappings, variant payloads and empty optionals.
pub open spec fn is_skipped(value: Value) -> bool {
    match value {
        Value::Text(_) => true,
        Value::Bytes(_) => true,
        Value::Unit => true,
        Value::Optional(None) => true,
        Value::Mapping(_) => true,
        Value::EnumVariant(_) => true,
        _ => false,
    }
}

/// A value of a skipped kind holds no leaf at any path, so walking it records nothing,
/// whatever the metadata says of that path.
pub proof fn lemma_skipped(cfg: Settings, fs: Seq<FamilyView>, prefix: Seq<char>, value: Value)
    requires
        is_skipped(value),
    ensures
        leaves(prefix, value).len() == 0,
        record_all(cfg, fs, leaves(prefix, value)) == fs,
{
}

/// A field of a skipped kind adds no leaf to those of the fields before it.
pub proof fn lemma_skipped_field(prefix: Seq<char>, fields: Seq<(String, Value)>, count: nat)
    requires
        0 < count <= fields.len(),
        is_skipped(fields[count - 1].1),
    ensures
        field_leaves(prefix, fields, count) == field_leaves(prefix, fields, (count - 1) as nat),
{
    let before = field_leaves(prefix, fields, (count - 1) as nat);
    let added = leaves(join_path(prefix, fields[count - 1].0@), fields[count - 1].1);
    assert(added.len() == 0);
    assert(before + added =~= before);
}

/// Where every element of a sequence holds `each` leaves published under `name`,
/// encoding the sequence leaves names and sample keys distinct and adds at most `each`
/// samples per element to the family of that name.
pub proof fn lemma_sequence_grouping(
    cfg: Settings,
    fs: Seq<FamilyView>,
    prefix: Seq<char>,
    items: Vec<Value>,
    name: Seq<char>,
    each: nat,
)
    requires
        well_grouped(fs),
        forall|i: int|
            0 <= i < items@.len() ==> occurrences(cfg, leaves(prefix, #[trigger] items@[i]), name)
                == each,
    ensures
        well_grouped(record_all(cfg, fs, leaves(prefix, Value::Sequence(items)))),
        samples_named(record_all(cfg, fs, leaves(prefix, Value::Sequence(items))), name).len()
            <= samples_named(fs, name).len() + items@.len() * each,
{
    lemma_item_occurrences(cfg, prefix, items@, items@.len(), name, each);
    lemma_family_grouping(cfg, fs, leaves(prefix, Value::Sequence(items)), name);
}

/// The leaves published under `name` among the first `count` elements of a sequence
/// whose elements hold `each` such leaves.
pub proof fn lemma_item_occurrences(
    cfg: Settings,
    prefix: Seq<char>,
    items: Seq<Value>,
    count: nat,
    name: Seq<char>,
    each: nat,
)
    requires
        count <= items.len(),
        forall|i: int|
            0 <= i < items.len() ==> occurrences(cfg, leaves(prefix, #[trigger] items[i]), name)
                == each,
    ensures
        occurrences(cfg, item_leaves(prefix, items, count), name) == count * each,
    decreases count,
{
    if count > 0 {
        lemma_item_occurrences(cfg, prefix, items, (count - 1) as nat, name, each);
        lemma_occurrences_concat(
            cfg,
            item_leaves(prefix, items, (count - 1) as nat),
            leaves(prefix, items[count - 1]),
            name,
        );
        assert((count - 1) * each + each == count * each) by (nonlinear_arith);
    } else {
        assert(count * each == 0) by (nonlinear_arith)
            requires
                count == 0,
        ;
    }
}

} // verus!
