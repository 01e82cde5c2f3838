use prometheus_encoder::text::escape_label_value;
use prometheus_encoder::{
    to_prometheus_text, write_prometheus_text, Emitter, MetricDescriptor, MetricTable, MetricType,
    PrometheusError, PrometheusSerializer, Step, Value,
};

fn field(name: &str, value: Value) -> (String, Value) {
    (name.to_string(), value)
}

fn descriptor<'s>(
    metric_type: MetricType,
    help: &'s str,
    labels: Vec<(&'s str, &'s str)>,
    rename: Option<&'s str>,
) -> MetricDescriptor<'s> {
    MetricDescriptor { metric_type, help, labels, rename }
}

/// Drives an emitter against an output that accepts `accepted` writes and rejects the
/// next one; returns what was handed to the output and how the emission ended.
fn drive(emitter: Emitter, accepted: usize) -> (Vec<String>, Result<(), PrometheusError>) {
    let mut seen = Vec::new();
    let mut last: Result<(), std::io::Error> = Ok(());
    let mut machine = emitter;
    loop {
        match machine.step(last) {
            Step::Write(piece, rest) => {
                seen.push(piece);
                last = if seen.len() > accepted {
                    Err(std::io::Error::new(std::io::ErrorKind::BrokenPipe, "pipe closed"))
                } else {
                    Ok(())
                };
                machine = rest;
            }
            Step::Done => return (seen, Ok(())),
            Step::Fail(error) => return (seen, Err(error)),
        }
    }
}

fn unescape(text: &str) -> String {
    let chars: Vec<char> = text.chars().collect();
    let mut out = String::new();
    let mut i = 0;
    while i < chars.len() {
        if chars[i] == '\\' && i + 1 < chars.len() {
            match chars[i + 1] {
                '\\' => {
                    out.push('\\');
                    i += 2;
                    continue;
                }
                '"' => {
                    out.push('"');
                    i += 2;
                    continue;
                }
                'n' => {
                    out.push('\n');
                    i += 2;
                    continue;
                }
                _ => {}
            }
        }
        out.push(chars[i]);
        i += 1;
    }
    out
}

#[test]
fn encoding_twice_gives_the_same_bytes() {
    let mut meta = MetricTable::new();
    meta.insert("a", descriptor(MetricType::Gauge, "A", vec![("k", "v")], None));
    meta.insert("b_c", descriptor(MetricType::Counter, "", vec![], Some("total")));
    let value = Value::Record(vec![
        field("a", Value::Int(-3)),
        field("b", Value::Record(vec![field("c", Value::Bool(true))])),
        field("a", Value::UInt(9)),
    ]);
    let first = to_prometheus_text(&value, Some("ns"), &meta, vec![("x", "y")]).unwrap();
    let second = to_prometheus_text(&value, Some("ns"), &meta, vec![("x", "y")]).unwrap();
    assert_eq!(first.as_bytes(), second.as_bytes());
    assert_eq!(
        first,
        "# HELP ns_a A\n# TYPE ns_a gauge\nns_a{x=\"y\",k=\"v\"} 9\n\n# TYPE ns_total counter\nns_total{x=\"y\"} 1\n"
    );
}

#[test]
fn sequence_of_records_forms_one_family_per_name() {
    let meta = MetricTable::new();
    let record = |n: u64| Value::Record(vec![field("hits", Value::UInt(n))]);
    let value = Value::Sequence(vec![record(1), record(2), record(3), record(4)]);
    let text = to_prometheus_text(&value, None, &meta, vec![]).unwrap();
    assert_eq!(text.matches("# TYPE hits ").count(), 1);
    let samples = text.lines().filter(|line| line.starts_with("hits")).count();
    assert!(samples <= 4);
    // The four elements share one label set, so each sample replaces the one before.
    assert_eq!(text, "# TYPE hits untyped\nhits 4\n");
}

#[test]
fn sequence_elements_with_their_own_labels_keep_their_samples() {
    let meta = MetricTable::new();
    let mut serializer = PrometheusSerializer::new(None, &meta, vec![("app", "a")]);
    for n in 1..=3u64 {
        serializer.set_current_labels(vec![("shard".to_string(), n.to_string())]);
        serializer.serialize_value(&Value::Record(vec![field("hits", Value::UInt(n * 10))]));
    }
    let (pieces, outcome) = drive(serializer.finish(), usize::MAX);
    assert!(outcome.is_ok());
    assert_eq!(
        pieces.concat(),
        "# TYPE hits untyped\n\
hits{shard=\"1\",app=\"a\"} 10\n\
hits{shard=\"2\",app=\"a\"} 20\n\
hits{shard=\"3\",app=\"a\"} 30\n"
    );
}

#[test]
fn header_is_written_once_and_comes_from_the_first_descriptor() {
    let mut meta = MetricTable::new();
    meta.insert("first", descriptor(MetricType::Counter, "From first", vec![("via", "first")], Some("shared")));
    meta.insert("second", descriptor(MetricType::Gauge, "From second", vec![("via", "second")], Some("shared")));
    let value = Value::Record(vec![
        field("first", Value::UInt(1)),
        field("other", Value::UInt(5)),
        field("second", Value::UInt(2)),
    ]);
    let text = to_prometheus_text(&value, None, &meta, vec![]).unwrap();
    assert_eq!(
        text,
        "# HELP shared From first\n\
# TYPE shared counter\n\
shared{via=\"first\"} 1\n\
shared{via=\"second\"} 2\n\
\n\
# TYPE other untyped\n\
other 5\n"
    );
    assert_eq!(text.matches("# HELP shared").count(), 1);
    assert_eq!(text.matches("# TYPE shared").count(), 1);
}

#[test]
fn renamed_metric_never_uses_its_path_name() {
    let mut meta = MetricTable::new();
    meta.insert("one", descriptor(MetricType::Counter, "First one", vec![], Some("one_total")));
    let value = Value::Sequence(vec![
        Value::Record(vec![field("one", Value::Int(1))]),
        Value::Record(vec![field("one", Value::Int(4))]),
    ]);
    let bare = to_prometheus_text(&value, None, &meta, vec![]).unwrap();
    assert_eq!(bare, "# HELP one_total First one\n# TYPE one_total counter\none_total 4\n");
    let spaced = to_prometheus_text(&value, Some("my"), &meta, vec![]).unwrap();
    assert_eq!(
        spaced,
        "# HELP my_one_total First one\n# TYPE my_one_total counter\nmy_one_total 4\n"
    );
    assert!(spaced.lines().all(|line| !line.starts_with("my_one ")));
    assert!(bare.lines().all(|line| !line.starts_with("one ")));
}

#[test]
fn escaped_label_values_read_back() {
    for raw in [
        "",
        "plain",
        "back\\slash",
        "quo\"te",
        "line\nfeed",
        "\\\\\"\"\n\n",
        "\\n",
        "tail\\",
        "mixed \\\" \n \\n \"\\",
        "unicode é ü 漢字 \\ \"",
    ] {
        let escaped = escape_label_value(raw);
        assert!(!escaped.contains('\n'));
        assert_eq!(unescape(&escaped), raw);
    }
    assert_eq!(escape_label_value("a\\b\"c\nd"), "a\\\\b\\\"c\\nd");
    // Already escaped text is escaped once more, character by character.
    assert_eq!(escape_label_value("\\\""), "\\\\\\\"");
}

#[test]
fn escaped_label_values_appear_in_sample_keys() {
    let meta = MetricTable::new();
    let text =
        to_prometheus_text(&Value::Record(vec![field("m", Value::UInt(1))]), None, &meta, vec![(
            "path",
            "C:\\dir \"x\"\nend",
        )])
        .unwrap();
    assert_eq!(text, "# TYPE m untyped\nm{path=\"C:\\\\dir \\\"x\\\"\\nend\"} 1\n");
}

#[test]
fn skipped_kinds_give_no_samples_even_with_metadata() {
    let mut meta = MetricTable::new();
    for name in ["text", "bytes", "none", "unit", "map", "variant", "ns_text"] {
        meta.insert(name, descriptor(MetricType::Gauge, "listed", vec![("l", "v")], None));
    }
    let value = Value::Record(vec![
        field("text", Value::Text("12".to_string())),
        field("bytes", Value::Bytes(vec![1, 2, 3])),
        field("none", Value::Optional(None)),
        field("unit", Value::Unit),
        field("map", Value::Mapping(vec![(Value::Text("k".to_string()), Value::UInt(1))])),
        field("variant", Value::EnumVariant(Box::new(Value::UInt(7)))),
    ]);
    assert_eq!(to_prometheus_text(&value, None, &meta, vec![]).unwrap(), "");
    assert_eq!(to_prometheus_text(&value, Some("ns"), &meta, vec![("a", "b")]).unwrap(), "");
    for skipped in [
        Value::Text("1".to_string()),
        Value::Bytes(vec![0x31]),
        Value::Optional(None),
    ] {
        assert_eq!(to_prometheus_text(&skipped, None, &meta, vec![]).unwrap(), "");
    }
}

#[test]
fn rejected_write_ends_the_emission() {
    let meta = MetricTable::new();
    let value = Value::Record(vec![
        field("a", Value::UInt(1)),
        field("b", Value::UInt(2)),
    ]);
    let all = [
        "# TYPE a untyped", "\n", "a", " ", "1", "\n", "\n", "# TYPE b untyped", "\n", "b", " ",
        "2", "\n",
    ];
    let (pieces, outcome) = drive(write_prometheus_text(&value, None, &meta, vec![]), usize::MAX);
    assert!(outcome.is_ok());
    assert_eq!(pieces, all);
    for accepted in 0..all.len() {
        let emitter = write_prometheus_text(&value, None, &meta, vec![]);
        let (pieces, outcome) = drive(emitter, accepted);
        // The rejected write is the last one that was attempted.
        assert_eq!(pieces, all[..accepted + 1]);
        match outcome {
            Err(PrometheusError::Write(cause)) => {
                assert_eq!(cause.kind(), std::io::ErrorKind::BrokenPipe);
            }
            other => panic!("unexpected outcome: {other:?}"),
        }
    }
}

#[test]
fn rejected_first_report_writes_nothing() {
    let meta = MetricTable::new();
    let emitter = write_prometheus_text(&Value::UInt(1), None, &meta, vec![]);
    let cause = std::io::Error::new(std::io::ErrorKind::Other, "closed");
    match emitter.step(Err(cause)) {
        Step::Fail(PrometheusError::Write(cause)) => assert_eq!(cause.to_string(), "closed"),
        _ => panic!("a rejected write must end the emission"),
    }
}
