use openmetrics_parser::prometheus::parse_prometheus;
use prometheus_encoder::{to_prometheus_text, MetricDescriptor, MetricTable, MetricType, Value};

fn field(name: &str, value: Value) -> (String, Value) {
    (name.to_string(), value)
}

#[test]
fn serialize_nested() {
    let my_metrics = Value::Record(vec![
        field("requests", Value::UInt(1024)),
        field("errors", Value::UInt(4)),
        field("status", Value::Text("OK".to_string())),
        field(
            "inner",
            Value::Record(vec![
                field("value", Value::Float(3.42f64.to_string())),
                field("threshold", Value::UInt(100)),
                field("unknown", Value::UInt(55)),
                field("note", Value::Text("important".to_string())),
            ]),
        ),
    ]);

    let mut meta = MetricTable::new();
    meta.insert(
        "requests",
        MetricDescriptor {
            metric_type: MetricType::Counter,
            help: "Total number of requests processed",
            labels: vec![],
            rename: None,
        },
    );
    meta.insert(
        "my_errors",
        MetricDescriptor {
            metric_type: MetricType::Counter,
            help: "Total number of errors",
            labels: vec![("endpoint", "login")],
            rename: None,
        },
    );
    meta.insert(
        "inner_value",
        MetricDescriptor {
            metric_type: MetricType::Gauge,
            help: "Current value from inner struct",
            labels: vec![],
            rename: None,
        },
    );
    meta.insert(
        "inner_threshold",
        MetricDescriptor {
            metric_type: MetricType::Gauge,
            help: "Threshold value from inner struct",
            labels: vec![],
            rename: None,
        },
    );

    let expected = "# HELP my_requests Total number of requests processed\n\
# TYPE my_requests counter\n\
my_requests{app=\"myapp\"} 1024\n\
\n\
# HELP my_errors Total number of errors\n\
# TYPE my_errors counter\n\
my_errors{app=\"myapp\",endpoint=\"login\"} 4\n\
\n\
# HELP my_inner_value Current value from inner struct\n\
# TYPE my_inner_value gauge\n\
my_inner_value{app=\"myapp\"} 3.42\n\
\n\
# HELP my_inner_threshold Threshold value from inner struct\n\
# TYPE my_inner_threshold gauge\n\
my_inner_threshold{app=\"myapp\"} 100\n\
\n\
# TYPE my_inner_unknown untyped\n\
my_inner_unknown{app=\"myapp\"} 55\n";

    let labels = vec![("app", "myapp")];
    let output = to_prometheus_text(&my_metrics, Some("my"), &meta, labels).unwrap();
    assert_eq!(output, expected);
}

fn data(one: i64, two: i64, three: i64, a: i64, b: i64) -> Value {
    Value::Record(vec![
        field("one", Value::Int(one)),
        field("two", Value::Int(two)),
        field("three", Value::Int(three)),
        field("sub", Value::Record(vec![field("a", Value::Int(a)), field("b", Value::Int(b))])),
    ])
}

#[test]
fn test_parse_simple() {
    let mut meta = MetricTable::new();
    meta.insert(
        "one",
        MetricDescriptor {
            metric_type: MetricType::Counter,
            help: "First one",
            labels: vec![],
            rename: Some("one_total"),
        },
    );
    meta.insert(
        "two",
        MetricDescriptor {
            metric_type: MetricType::Counter,
            help: "Second one",
            labels: vec![("thing", "stuff")],
            rename: Some("two_total"),
        },
    );
    meta.insert(
        "three",
        MetricDescriptor {
            metric_type: MetricType::Counter,
            help: "Third one",
            labels: vec![],
            rename: Some("three_total"),
        },
    );
    meta.insert(
        "sub_a",
        MetricDescriptor {
            metric_type: MetricType::Gauge,
            help: "Sub A",
            labels: vec![],
            rename: None,
        },
    );
    meta.insert(
        "sub_b",
        MetricDescriptor {
            metric_type: MetricType::Gauge,
            help: "Sub B",
            labels: vec![],
            rename: None,
        },
    );

    let inputs = Value::Sequence(vec![
        data(1, 2, 3, 4, 5),
        data(4, 5, 6, 5, 6),
        data(7, 8, 9, 8, 9),
    ]);

    let labels: Vec<(&str, &str)> = vec![];
    let output = to_prometheus_text(&inputs, Some("my"), &meta, labels).unwrap();
    println!("output:\n{output}");
    let _parsed = parse_prometheus(&output).unwrap();
}
