use goodmetrics::bus::{send_outcome, ErrorCode, MetricsSendQueue, MetricsSink};
use goodmetrics::config::Options;
use goodmetrics::errors::{PostgresFailure, SinkError};
use goodmetrics::model::{
    Datum, Dimension, DimensionValue, Histogram, Measurement, MeasurementValue, MetricsRequest,
    StatisticSet, TDigest,
};
use goodmetrics::order::text_less;
use goodmetrics::otlp::{
    attributes_of, batch_metrics, export_request, histogram_data_point, int_data_point, summary_data_point,
    AttributeValue, MetricData, NumberValue, QUANTILE_MAX_BITS, QUANTILE_MIN_BITS,
};
use goodmetrics::receiver::{
    authorize, extend_dimensions, merge_shared_dimensions, reply_for, AuthHeader,
    GoodMetricsServer, MetricsReply, StatusCode,
};
use goodmetrics::registry::{after_create, bootstrap_step, probe_statement, Bootstrap, Probe};

fn dimension(name: &str, value: DimensionValue) -> (String, Dimension) {
    (name.to_string(), Dimension { value: Some(value) })
}

fn text_dim(name: &str, value: &str) -> (String, Dimension) {
    dimension(name, DimensionValue::String(value.to_string()))
}

fn observation(metric: &str, unix_nanos: u64) -> Datum {
    Datum { metric: metric.to_string(), unix_nanos, dimensions: vec![], measurements: vec![] }
}

fn label(dims: &[(String, Dimension)], name: &str) -> Option<String> {
    dims.iter().rev().find(|(n, _)| n == name).map(|(_, d)| match &d.value {
        Some(DimensionValue::String(s)) => s.clone(),
        Some(DimensionValue::Number(n)) => n.to_string(),
        Some(DimensionValue::Boolean(b)) => b.to_string(),
        None => "<none>".to_string(),
    })
}

#[test]
fn backpressure_when_the_queue_is_full() {
    let (queue, mut receiver) = MetricsSendQueue::with_capacity(1);
    let server = GoodMetricsServer { metrics_sink: queue };
    let request = || MetricsRequest { shared_dimensions: vec![], metrics: vec![observation("a", 1)] };
    assert!(matches!(server.send_metrics(request()), Ok(MetricsReply {})));
    match server.send_metrics(request()) {
        Err(status) => {
            assert_eq!(status.code, StatusCode::ResourceExhausted);
            assert_eq!(status.message, "No space left in the send buffer");
        }
        Ok(_) => panic!("the full queue accepted a batch"),
    }
    let drained = receiver.rx.try_recv().expect("one batch is queued");
    assert_eq!(drained.len(), 1);
    assert!(server.send_metrics(request()).is_ok());
}

#[test]
fn no_subscriber_refuses_every_send() {
    let (queue, receiver) = MetricsSendQueue::with_capacity(4);
    drop(receiver);
    assert_eq!(queue.drain(vec![observation("a", 1)]), Err(ErrorCode::QueueFull));
    let empty = MetricsSendQueue { subscribers: vec![], capacity: 4 };
    assert_eq!(empty.send_batch(vec![]), Err(ErrorCode::QueueFull));
}

#[test]
fn every_subscriber_sees_each_batch() {
    let (mut queue, mut first) = MetricsSendQueue::new();
    let mut second = queue.subscribe();
    assert_eq!(queue.drain(vec![observation("a", 1)]), Ok("collected".to_string()));
    assert_eq!(first.rx.try_recv().unwrap()[0].metric, "a");
    assert_eq!(second.rx.try_recv().unwrap()[0].unix_nanos, 1);
}

#[test]
fn send_outcomes() {
    assert!(send_outcome(&vec![false, true]).is_ok());
    assert_eq!(send_outcome(&vec![false, false]), Err(ErrorCode::QueueFull));
    assert_eq!(send_outcome(&vec![]), Err(ErrorCode::QueueFull));
    assert!(reply_for(Ok("collected".to_string())).is_ok());
    assert_eq!(reply_for(Err(ErrorCode::QueueFull)).unwrap_err().code, StatusCode::ResourceExhausted);
}

#[test]
fn shared_dimensions_extend_each_datum() {
    let mut d = observation("m", 1);
    d.dimensions.push(text_dim("host", "own"));
    d.dimensions.push(text_dim("only_own", "x"));
    let request = MetricsRequest {
        shared_dimensions: vec![text_dim("host", "shared"), dimension("region", DimensionValue::Number(4))],
        metrics: vec![d, observation("n", 2)],
    };
    let merged = merge_shared_dimensions(request);
    assert_eq!(merged.len(), 2);
    assert_eq!(label(&merged[0].dimensions, "host").as_deref(), Some("shared"));
    assert_eq!(label(&merged[0].dimensions, "only_own").as_deref(), Some("x"));
    assert_eq!(label(&merged[0].dimensions, "region").as_deref(), Some("4"));
    assert_eq!(merged[0].dimensions.len(), 3);
    assert_eq!(label(&merged[1].dimensions, "host").as_deref(), Some("shared"));
    assert_eq!(merged[1].metric, "n");
    assert!(extend_dimensions(&vec![], &vec![]).is_empty());
}

#[test]
fn authorization() {
    let keys = vec!["k1".to_string(), "k2".to_string()];
    assert!(authorize(&vec![], &AuthHeader::Missing).is_ok());
    assert!(authorize(&keys, &AuthHeader::Value("k2".to_string())).is_ok());
    assert_eq!(
        authorize(&keys, &AuthHeader::Value("Bearer k2".to_string())).unwrap_err().code,
        StatusCode::Unauthenticated
    );
    assert_eq!(authorize(&keys, &AuthHeader::Missing).unwrap_err().code, StatusCode::Unauthenticated);
    assert_eq!(authorize(&keys, &AuthHeader::Malformed).unwrap_err().code, StatusCode::InvalidArgument);
}

fn options(api_keys: Vec<&str>) -> Options {
    Options {
        listen_socket_address: "0.0.0.0:9573".to_string(),
        max_threads: 4,
        log_level: "info".to_string(),
        tokio_console: false,
        cert_private_key: String::new(),
        cert: "cert.pem".to_string(),
        self_signed_hostname: "localhost".to_string(),
        api_keys: api_keys.into_iter().map(|k| k.to_string()).collect(),
        default_retention_seconds: 604800,
        connection_string: None,
        otlp_remote: Some("https://otel:4317".to_string()),
        otlp_insecure: false,
    }
}

#[test]
fn configured_keys_are_trimmed_and_deduplicated() {
    let o = options(vec![" k1 ", "", "k2", "k1", "   "]);
    assert_eq!(o.api_key_set(), vec!["k1".to_string(), "k2".to_string()]);
    assert!(o.has_remote());
    assert_eq!(o.server_threads(2), 2);
    assert_eq!(o.server_threads(16), 4);
    assert!(o.use_self_signed());
    let mut none = options(vec![]);
    none.otlp_remote = None;
    assert!(!none.has_remote());
    assert!(none.api_key_set().is_empty());
}

#[test]
fn bootstrap_decisions() {
    assert!(matches!(bootstrap_step(Probe::Found(77)), Bootstrap::Use(77)));
    let undefined = PostgresFailure::Db { code: "42704".to_string(), message: "type".to_string() };
    assert!(matches!(bootstrap_step(Probe::Failed(undefined)), Bootstrap::Create));
    let other = PostgresFailure::Db { code: "08006".to_string(), message: "gone".to_string() };
    assert!(matches!(bootstrap_step(Probe::Failed(other)), Bootstrap::Fail(SinkError::Postgres(_))));
    assert!(matches!(
        bootstrap_step(Probe::Failed(PostgresFailure::Client { message: "x".to_string() })),
        Bootstrap::Fail(_)
    ));
    assert_eq!(after_create(Probe::Found(5)).unwrap(), 5);
    assert!(after_create(Probe::Failed(PostgresFailure::WrongType)).is_err());
    assert_eq!(probe_statement("statistic_set"), "SELECT $1::statistic_set");
}

#[test]
fn summary_mapping() {
    let attrs = attributes_of(&vec![text_dim("host", "h1")]);
    let ss = StatisticSet {
        minimum: 1.0f64.to_bits(),
        maximum: 9.0f64.to_bits(),
        samplesum: 25.0f64.to_bits(),
        samplecount: 5,
    };
    let p = summary_data_point(ss, 99, &attrs);
    assert_eq!(p.count, 5);
    assert_eq!(f64::from_bits(p.sum), 25.0);
    assert_eq!(p.time_unix_nano, 99);
    assert_eq!(p.quantile_values.len(), 2);
    assert_eq!(f64::from_bits(p.quantile_values[0].quantile), 0.0);
    assert_eq!(f64::from_bits(p.quantile_values[0].value), 1.0);
    assert_eq!(f64::from_bits(p.quantile_values[1].quantile), 1.0);
    assert_eq!(f64::from_bits(p.quantile_values[1].value), 9.0);
    assert_eq!(QUANTILE_MIN_BITS, 0.0f64.to_bits());
    assert_eq!(QUANTILE_MAX_BITS, 1.0f64.to_bits());
    assert_eq!(p.attributes.len(), 1);
}

#[test]
fn histogram_mapping() {
    let h = Histogram { buckets: vec![(100, 5), (1, 2), (10, 3)] };
    let p = histogram_data_point(&h, 7, &vec![]);
    assert_eq!(p.bucket_counts, vec![2, 3, 5]);
    assert_eq!(p.explicit_bounds, vec![1, 10, 100]);
    assert_eq!(p.explicit_bounds.iter().map(|b| *b as f64).collect::<Vec<_>>(), vec![1.0, 10.0, 100.0]);
    assert_eq!(p.count, 10);
    assert_eq!(p.sum, 532);
    assert_eq!(p.time_unix_nano, 7);
}

#[test]
fn histogram_mapping_saturates_and_dedups() {
    let h = Histogram { buckets: vec![(5, u64::MAX), (5, 1), (-3, u64::MAX)] };
    let p = histogram_data_point(&h, 0, &vec![]);
    assert_eq!(p.explicit_bounds, vec![-3, 5]);
    assert_eq!(p.bucket_counts, vec![u64::MAX, 1]);
    assert_eq!(p.count, u64::MAX);
    assert_eq!(p.sum, -3 * (u64::MAX as i128) + 5);
}

#[test]
fn otlp_batch_mapping() {
    let mut d = observation("svc", 1234);
    d.dimensions.push(text_dim("host", "h1"));
    d.dimensions.push(dimension("shard", DimensionValue::Number(3)));
    d.dimensions.push(("unset".to_string(), Dimension { value: None }));
    d.measurements.push(("count".to_string(), Measurement { value: Some(MeasurementValue::I32(4)) }));
    d.measurements.push((
        "digest".to_string(),
        Measurement {
            value: Some(MeasurementValue::TDigest(TDigest { count: 1, sum: 0, min: 0, max: 0, centroids: vec![] })),
        },
    ));
    d.measurements.push(("empty".to_string(), Measurement { value: None }));
    d.measurements.push(("lat".to_string(), Measurement { value: Some(MeasurementValue::F64(2.5f64.to_bits())) }));
    d.measurements.push(("small".to_string(), Measurement { value: Some(MeasurementValue::F32(0.5f32.to_bits())) }));
    let metrics = batch_metrics(&vec![d, observation("other", 5)]);
    assert_eq!(metrics.iter().map(|m| m.name.as_str()).collect::<Vec<_>>(), vec!["svc_count", "svc_lat", "svc_small"]);
    assert_eq!(metrics[0].description, "goodmetrics compatibility conversion");
    assert_eq!(metrics[0].unit, "1");
    match &metrics[0].data {
        MetricData::Gauge(p) => {
            assert_eq!(p.value, NumberValue::AsInt(4));
            assert_eq!(p.time_unix_nano, 1234);
            let keys: Vec<&str> = p.attributes.iter().map(|a| a.key.as_str()).collect();
            assert_eq!(keys, vec!["host", "shard", "unset"]);
            assert!(matches!(p.attributes[1].value, AttributeValue::Int(3)));
            assert!(matches!(p.attributes[2].value, AttributeValue::Empty));
        }
        other => panic!("unexpected {:?}", other),
    }
    match &metrics[1].data {
        MetricData::Gauge(p) => assert_eq!(p.value, NumberValue::AsDouble(2.5f64.to_bits())),
        other => panic!("unexpected {:?}", other),
    }
    match &metrics[2].data {
        MetricData::Gauge(p) => assert_eq!(p.value, NumberValue::AsSingle(0.5f32.to_bits())),
        other => panic!("unexpected {:?}", other),
    }
    let point = int_data_point(-1, 3, &vec![]);
    assert_eq!(point.value, NumberValue::AsInt(-1));
}

#[test]
fn text_order() {
    assert!(text_less("a", "b"));
    assert!(text_less("a", "ab"));
    assert!(!text_less("ab", "a"));
    assert!(!text_less("same", "same"));
    assert!(text_less("Z", "a"));
    assert!(text_less("z", "é"));
}

#[test]
fn repeated_attribute_names_take_the_last_pair() {
    let attrs = attributes_of(&vec![
        text_dim("host", "first"),
        text_dim("zone", "z"),
        text_dim("host", "second"),
        text_dim("gone", "x"),
        ("gone".to_string(), Dimension { value: None }),
    ]);
    let keys: Vec<&str> = attrs.iter().map(|a| a.key.as_str()).collect();
    assert_eq!(keys, vec!["zone", "host", "gone"]);
    assert!(matches!(&attrs[1].value, AttributeValue::String(s) if s == "second"));
    assert!(matches!(attrs[2].value, AttributeValue::Empty));
}

#[test]
fn export_envelope() {
    let mut d = observation("svc", 1);
    d.measurements.push(("n".to_string(), Measurement { value: Some(MeasurementValue::I64(2)) }));
    let request = export_request(&vec![d]);
    assert_eq!(request.library_name, "goodmetrics");
    assert_eq!(request.library_version, "42");
    assert_eq!(request.metrics.len(), 1);
    assert_eq!(request.metrics[0].name, "svc_n");
}
