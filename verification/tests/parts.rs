use prometheus_encoder::family::{family_header, Families};
use prometheus_encoder::labels::{compose_labels, render_sample_key};
use prometheus_encoder::text::{escape_label_value, format_signed, format_unsigned};
use prometheus_encoder::{
    encode_to_sink, encode_to_text, to_prometheus_text, write_prometheus_text, Emitter,
    MetricDescriptor, MetricTable, MetricType, PrometheusError, PrometheusSerializer, Step, Value,
};

fn field(name: &str, value: Value) -> (String, Value) {
    (name.to_string(), value)
}

fn plain<'s>() -> MetricDescriptor<'s> {
    MetricDescriptor::default()
}

fn text_of(serializer: PrometheusSerializer<'_>) -> String {
    written_by(serializer.finish())
}

fn written_by(emitter: Emitter) -> String {
    let mut text = String::new();
    let mut machine = emitter;
    loop {
        match machine.step(Ok(())) {
            Step::Write(piece, rest) => {
                text.push_str(&piece);
                machine = rest;
            }
            Step::Done => return text,
            Step::Fail(error) => panic!("no write was rejected: {error:?}"),
        }
    }
}

#[test]
fn scenario_four_families_in_field_order() {
    let value = Value::Record(vec![
        field("requests", Value::UInt(1024)),
        field("errors", Value::UInt(4)),
        field(
            "inner",
            Value::Record(vec![
                field("value", Value::Float(3.42f64.to_string())),
                field("unknown", Value::UInt(55)),
            ]),
        ),
    ]);
    let mut meta = MetricTable::new();
    meta.insert(
        "requests",
        MetricDescriptor { metric_type: MetricType::Counter, help: "help", labels: vec![], rename: None },
    );
    meta.insert(
        "my_errors",
        MetricDescriptor {
            metric_type: MetricType::Counter,
            help: "help",
            labels: vec![("endpoint", "login")],
            rename: None,
        },
    );
    let text = to_prometheus_text(&value, Some("my"), &meta, vec![("app", "myapp")]).unwrap();
    assert_eq!(
        text,
        "# HELP my_requests help\n\
# TYPE my_requests counter\n\
my_requests{app=\"myapp\"} 1024\n\
\n\
# HELP my_errors help\n\
# TYPE my_errors counter\n\
my_errors{app=\"myapp\",endpoint=\"login\"} 4\n\
\n\
# TYPE my_inner_value untyped\n\
my_inner_value{app=\"myapp\"} 3.42\n\
\n\
# TYPE my_inner_unknown untyped\n\
my_inner_unknown{app=\"myapp\"} 55\n"
    );
    let families: Vec<&str> = text.split("\n\n").collect();
    assert_eq!(families.len(), 4);
    assert!(text.contains("\nmy_errors{app=\"myapp\",endpoint=\"login\"} 4\n"));
    assert!(!text.contains("# HELP my_inner_unknown"));
}

#[test]
fn integers_are_written_in_decimal() {
    assert_eq!(format_unsigned(0), "0");
    assert_eq!(format_unsigned(7), "7");
    assert_eq!(format_unsigned(10), "10");
    assert_eq!(format_unsigned(1024), "1024");
    assert_eq!(format_unsigned(u64::MAX), "18446744073709551615");
    assert_eq!(format_signed(0), "0");
    assert_eq!(format_signed(-1), "-1");
    assert_eq!(format_signed(42), "42");
    assert_eq!(format_signed(-1090), "-1090");
    assert_eq!(format_signed(i64::MAX), "9223372036854775807");
    assert_eq!(format_signed(i64::MIN), "-9223372036854775808");
    for v in [1u64, 9, 11, 99, 100, 101, 999_999, 1_000_000, 12_345_678_901_234_567] {
        assert_eq!(format_unsigned(v), v.to_string());
        assert_eq!(format_signed(-(v as i64)), (-(v as i64)).to_string());
    }
}

#[test]
fn scalars_become_samples() {
    let meta = MetricTable::new();
    let value = Value::Record(vec![
        field("yes", Value::Bool(true)),
        field("no", Value::Bool(false)),
        field("neg", Value::Int(-12)),
        field("pos", Value::UInt(34)),
        field("ratio", Value::Float(0.5f64.to_string())),
        field("small", Value::Float(1.5e-7f64.to_string())),
        field("single", Value::Float(3.42f32.to_string())),
    ]);
    assert_eq!(
        to_prometheus_text(&value, None, &meta, vec![]).unwrap(),
        "# TYPE yes untyped\nyes 1\n\n\
# TYPE no untyped\nno 0\n\n\
# TYPE neg untyped\nneg -12\n\n\
# TYPE pos untyped\npos 34\n\n\
# TYPE ratio untyped\nratio 0.5\n\n\
# TYPE small untyped\nsmall 0.00000015\n\n\
# TYPE single untyped\nsingle 3.42\n"
    );
}

#[test]
fn narrow_integers_are_recorded_like_wide_ones() {
    let meta = MetricTable::new();
    let mut serializer = PrometheusSerializer::new(None, &meta, vec![]);
    let back = serializer.enter("a");
    serializer.serialize_i8(-128);
    serializer.leave(back);
    let back = serializer.enter("b");
    serializer.serialize_i16(-32768);
    serializer.leave(back);
    let back = serializer.enter("c");
    serializer.serialize_i32(i32::MIN);
    serializer.leave(back);
    let back = serializer.enter("d");
    serializer.serialize_u8(255);
    serializer.leave(back);
    let back = serializer.enter("e");
    serializer.serialize_u16(65535);
    serializer.leave(back);
    let back = serializer.enter("f");
    serializer.serialize_u32(u32::MAX);
    serializer.leave(back);
    let back = serializer.enter("g");
    serializer.serialize_i64(i64::MIN);
    serializer.leave(back);
    let back = serializer.enter("h");
    serializer.serialize_u64(u64::MAX);
    serializer.leave(back);
    let back = serializer.enter("i");
    serializer.serialize_bool(true);
    serializer.leave(back);
    assert_eq!(
        text_of(serializer),
        "# TYPE a untyped\na -128\n\n\
# TYPE b untyped\nb -32768\n\n\
# TYPE c untyped\nc -2147483648\n\n\
# TYPE d untyped\nd 255\n\n\
# TYPE e untyped\ne 65535\n\n\
# TYPE f untyped\nf 4294967295\n\n\
# TYPE g untyped\ng -9223372036854775808\n\n\
# TYPE h untyped\nh 18446744073709551615\n\n\
# TYPE i untyped\ni 1\n"
    );
}

#[test]
fn path_is_joined_with_underscores_and_restored() {
    let meta = MetricTable::new();
    let mut serializer = PrometheusSerializer::new(None, &meta, vec![]);
    let top = serializer.enter("outer");
    assert_eq!(top, "");
    let outer = serializer.enter("inner");
    assert_eq!(outer, "outer");
    serializer.write_metric("1");
    serializer.leave(outer);
    serializer.write_metric("2");
    serializer.leave(top);
    serializer.serialize_field("sibling", &Value::Record(vec![field("leaf", Value::UInt(3))]));
    serializer.write_metric("4");
    assert_eq!(
        text_of(serializer),
        "# TYPE outer_inner untyped\nouter_inner 1\n\n\
# TYPE outer untyped\nouter 2\n\n\
# TYPE sibling_leaf untyped\nsibling_leaf 3\n\n\
# TYPE  untyped\n 4\n"
    );
}

#[test]
fn optional_and_sequence_values_stay_at_their_path() {
    let meta = MetricTable::new();
    let value = Value::Record(vec![
        field("maybe", Value::Optional(Some(Box::new(Value::UInt(5))))),
        field(
            "list",
            Value::Sequence(vec![
                Value::UInt(1),
                Value::Text("skipped".to_string()),
                Value::Optional(Some(Box::new(Value::Record(vec![field("x", Value::Int(-2))])))),
                Value::UInt(3),
            ]),
        ),
        field("empty", Value::Sequence(vec![])),
        field("hollow", Value::Record(vec![])),
    ]);
    assert_eq!(
        to_prometheus_text(&value, None, &meta, vec![]).unwrap(),
        "# TYPE maybe untyped\nmaybe 5\n\n\
# TYPE list untyped\nlist 3\n\n\
# TYPE list_x untyped\nlist_x -2\n"
    );
}

#[test]
fn descriptor_lookup_prefers_the_bare_name() {
    let mut meta = MetricTable::new();
    meta.insert(
        "m",
        MetricDescriptor { metric_type: MetricType::Counter, help: "bare", labels: vec![], rename: None },
    );
    meta.insert(
        "ns_m",
        MetricDescriptor { metric_type: MetricType::Gauge, help: "spaced", labels: vec![], rename: None },
    );
    meta.insert(
        "ns_n",
        MetricDescriptor {
            metric_type: MetricType::Histogram,
            help: "only spaced",
            labels: vec![],
            rename: None,
        },
    );
    let value = Value::Record(vec![
        field("m", Value::UInt(1)),
        field("n", Value::UInt(2)),
        field("o", Value::UInt(3)),
    ]);
    assert_eq!(
        to_prometheus_text(&value, Some("ns"), &meta, vec![]).unwrap(),
        "# HELP ns_m bare\n# TYPE ns_m counter\nns_m 1\n\n\
# HELP ns_n only spaced\n# TYPE ns_n histogram\nns_n 2\n\n\
# TYPE ns_o untyped\nns_o 3\n"
    );
    // Without a namespace the namespaced entries are never looked at.
    let mut other = MetricTable::new();
    other.insert(
        "_m",
        MetricDescriptor { metric_type: MetricType::Summary, help: "odd", labels: vec![], rename: None },
    );
    assert_eq!(
        to_prometheus_text(&Value::Record(vec![field("m", Value::UInt(1))]), None, &other, vec![])
            .unwrap(),
        "# TYPE m untyped\nm 1\n"
    );
}

#[test]
fn later_table_entry_replaces_earlier_one() {
    let mut meta = MetricTable::new();
    meta.insert(
        "m",
        MetricDescriptor { metric_type: MetricType::Counter, help: "old", labels: vec![], rename: None },
    );
    meta.insert(
        "m",
        MetricDescriptor { metric_type: MetricType::Summary, help: "new", labels: vec![], rename: None },
    );
    assert_eq!(meta.get("m").map(|d| d.help), Some("new"));
    assert!(meta.get("absent").is_none());
    assert_eq!(
        to_prometheus_text(&Value::Record(vec![field("m", Value::UInt(1))]), None, &meta, vec![])
            .unwrap(),
        "# HELP m new\n# TYPE m summary\nm 1\n"
    );
}

#[test]
fn labels_come_in_call_common_static_order() {
    let mut meta = MetricTable::new();
    meta.insert(
        "m",
        MetricDescriptor {
            metric_type: MetricType::Gauge,
            help: "",
            labels: vec![("k", "static"), ("s", "3")],
            rename: None,
        },
    );
    let mut serializer = PrometheusSerializer::new(None, &meta, vec![("k", "common"), ("c", "2")]);
    serializer.set_current_labels(vec![
        ("k".to_string(), "call".to_string()),
        ("a".to_string(), "1".to_string()),
    ]);
    let key = serializer.sample_key("name", &plain());
    assert_eq!(key, "name{k=\"call\",a=\"1\",k=\"common\",c=\"2\"}");
    serializer.serialize_value(&Value::Record(vec![field("m", Value::UInt(1))]));
    assert_eq!(
        text_of(serializer),
        "# TYPE m gauge\nm{k=\"call\",a=\"1\",k=\"common\",c=\"2\",k=\"static\",s=\"3\"} 1\n"
    );
}

#[test]
fn sample_keys_have_braces_only_with_labels() {
    let none: Vec<(&str, &str)> = vec![];
    assert_eq!(render_sample_key("m", &none), "m");
    assert_eq!(render_sample_key("m", &vec![("a", "1")]), "m{a=\"1\"}");
    assert_eq!(render_sample_key("m", &vec![("a", "1"), ("b", "x\"y")]), "m{a=\"1\",b=\"x\\\"y\"}");
    let current = vec![("c".to_string(), "1".to_string())];
    let common = vec![("d", "2")];
    let fixed = vec![("e", "3"), ("c", "4")];
    assert_eq!(
        compose_labels(&current, &common, &fixed),
        vec![("c", "1"), ("d", "2"), ("e", "3"), ("c", "4")]
    );
    assert_eq!(escape_label_value("é\"\\"), "é\\\"\\\\");
}

#[test]
fn header_has_a_help_line_only_for_help_text() {
    let with_help =
        MetricDescriptor { metric_type: MetricType::Histogram, help: "h", labels: vec![], rename: None };
    assert_eq!(family_header("m", &with_help), "# HELP m h\n# TYPE m histogram");
    assert_eq!(family_header("m", &plain()), "# TYPE m untyped");
    for (kind, name) in [
        (MetricType::Untyped, "untyped"),
        (MetricType::Counter, "counter"),
        (MetricType::Gauge, "gauge"),
        (MetricType::Histogram, "histogram"),
        (MetricType::Summary, "summary"),
    ] {
        assert_eq!(kind.as_str(), name);
    }
    assert_eq!(MetricType::default(), MetricType::Untyped);
    assert_eq!(plain().help, "");
    assert!(plain().labels.is_empty());
    assert!(plain().rename.is_none());
}

#[test]
fn families_keep_first_seen_order_and_replace_repeated_samples() {
    let mut families = Families::new();
    assert_eq!(families.len(), 0);
    let counter =
        MetricDescriptor { metric_type: MetricType::Counter, help: "c", labels: vec![], rename: None };
    families.record("b", "b{x=\"1\"}".to_string(), "1", &counter);
    families.record("a", "a".to_string(), "2", &plain());
    families.record("b", "b{x=\"2\"}".to_string(), "3", &plain());
    families.record("b", "b{x=\"1\"}".to_string(), "4", &plain());
    assert_eq!(families.len(), 2);
    assert_eq!(families.name(0), "b");
    assert_eq!(families.header(0), "# HELP b c\n# TYPE b counter");
    assert_eq!(families.sample_count(0), 2);
    assert_eq!(families.sample(0, 0), ("b{x=\"1\"}", "4"));
    assert_eq!(families.sample(0, 1), ("b{x=\"2\"}", "3"));
    assert_eq!(families.name(1), "a");
    assert_eq!(families.header(1), "# TYPE a untyped");
    assert_eq!(families.sample_count(1), 1);
    assert_eq!(families.sample(1, 0), ("a", "2"));
}

#[test]
fn same_key_in_different_families_is_kept_apart() {
    let mut meta = MetricTable::new();
    meta.insert(
        "plain",
        MetricDescriptor {
            metric_type: MetricType::Untyped,
            help: "",
            labels: vec![],
            rename: Some("m{a=\"1\"}"),
        },
    );
    meta.insert(
        "m",
        MetricDescriptor { metric_type: MetricType::Untyped, help: "", labels: vec![("a", "1")], rename: None },
    );
    let value = Value::Record(vec![field("m", Value::UInt(1)), field("plain", Value::UInt(2))]);
    assert_eq!(
        to_prometheus_text(&value, None, &meta, vec![]).unwrap(),
        "# TYPE m untyped\nm{a=\"1\"} 1\n\n# TYPE m{a=\"1\"} untyped\nm{a=\"1\"} 2\n"
    );
}

#[test]
fn errors_say_what_failed() {
    let custom = PrometheusError::custom("bad value");
    match &custom {
        PrometheusError::Custom(text) => assert_eq!(text, "bad value"),
        PrometheusError::Write(_) => panic!("a custom failure is no rejected write"),
    }
    assert_eq!(custom.message(), "serde internal error: bad value");
    let write = PrometheusError::from(std::io::Error::new(std::io::ErrorKind::Other, "disk full"));
    assert!(matches!(write, PrometheusError::Write(_)));
    assert_eq!(write.message(), "failed to write to output: disk full");
}

#[test]
fn nothing_to_write_for_a_value_without_scalars() {
    let meta = MetricTable::new();
    let emitter = write_prometheus_text(&Value::Unit, Some("ns"), &meta, vec![("a", "b")]);
    assert!(matches!(emitter.step(Ok(())), Step::Done));
}

#[test]
fn call_labels_come_first_in_every_sample() {
    let mut meta = MetricTable::new();
    meta.insert(
        "b",
        MetricDescriptor {
            metric_type: MetricType::Gauge,
            help: "B",
            labels: vec![("unit", "s")],
            rename: None,
        },
    );
    let value = Value::Record(vec![field("a", Value::UInt(1)), field("b", Value::Int(-2))]);
    let current = vec![("call".to_string(), "7".to_string())];
    let expected = "# TYPE ns_a untyped\n\
ns_a{call=\"7\",app=\"x\"} 1\n\
\n\
# HELP ns_b B\n\
# TYPE ns_b gauge\n\
ns_b{call=\"7\",app=\"x\",unit=\"s\"} -2\n";
    let text =
        encode_to_text(&value, Some("ns"), &meta, vec![("app", "x")], current.clone()).unwrap();
    assert_eq!(text, expected);
    let emitter = encode_to_sink(&value, Some("ns"), &meta, vec![("app", "x")], current);
    assert_eq!(written_by(emitter), expected);
    // Without call labels the two entry points agree with the plain ones.
    assert_eq!(
        encode_to_text(&value, None, &meta, vec![], vec![]).unwrap(),
        to_prometheus_text(&value, None, &meta, vec![]).unwrap()
    );
    assert_eq!(
        written_by(encode_to_sink(&value, None, &meta, vec![], vec![])),
        written_by(write_prometheus_text(&value, None, &meta, vec![]))
    );
}

#[test]
fn many_families_keep_their_order_and_their_samples() {
    let mut families = Families::new();
    let names: Vec<String> = (0..300).map(|n| format!("metric_{}", (n * 7919) % 1000)).collect();
    for round in 0..3 {
        for (position, name) in names.iter().enumerate() {
            let key = format!("{name}{{round=\"{}\"}}", round % 2);
            let value = format!("{}", round * 1000 + position);
            families.record(name, key, &value, &plain());
        }
    }
    assert_eq!(families.len(), names.len());
    for (position, name) in names.iter().enumerate() {
        assert_eq!(families.name(position), name);
        assert_eq!(families.header(position), format!("# TYPE {name} untyped"));
        assert_eq!(families.sample_count(position), 2);
        let (first_key, first_value) = families.sample(position, 0);
        assert_eq!(first_key, format!("{name}{{round=\"0\"}}"));
        assert_eq!(first_value, format!("{}", 2000 + position));
        let (second_key, second_value) = families.sample(position, 1);
        assert_eq!(second_key, format!("{name}{{round=\"1\"}}"));
        assert_eq!(second_value, format!("{}", 1000 + position));
    }
}
