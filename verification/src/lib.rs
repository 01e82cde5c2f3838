//! Encoding of structured values into the Prometheus text exposition format.
//!
//! A structured value is walked once. Every truth value and number in it becomes a
//! sample of the metric that is named after the path of field names leading to it.
//! Samples of one name form a metric family with one `# HELP` / `# TYPE` header, and
//! families are written in the order in which their names are first seen.

pub mod emit;
pub mod error;
pub mod family;
pub mod labels;
pub mod metric;
pub mod model;
pub mod ordered;
pub mod ser;
pub mod text;
pub mod value;

pub use emit::{Emitter, Step};
pub use error::PrometheusError;
pub use metric::{MetricDescriptor, MetricTable, MetricType};
pub use ser::{
    encode_to_sink, encode_to_text, to_prometheus_text, write_prometheus_text, PrometheusSerializer,
};
pub use value::Value;
