use home_metrics::exposition::{encode_samples, escape_description, http_response};
use home_metrics::ingest::EventOutcome;
use home_metrics::registry::{is_valid_metric, Metrics, Sample, DEFAULT_VALUE};
use home_metrics::sensors::{sensor_metrics, sensor_topics};
use home_metrics::topic::{metric_name_of_topic, topic_for};

fn value_texts(samples: &Vec<Sample>) -> Vec<String> {
    samples
        .iter()
        .map(|s| format!("{}", f64::from_bits(s.value)))
        .collect()
}

fn snapshot(m: &Metrics) -> String {
    let samples = m.get_metrics();
    let texts = value_texts(&samples);
    encode_samples(&samples, &texts)
}

fn value_of(m: &Metrics, name: &str) -> Option<f64> {
    m.get_metrics()
        .iter()
        .find(|s| s.name == name)
        .map(|s| f64::from_bits(s.value))
}

#[test]
fn registered_metric_reads_default() {
    let mut m = Metrics::new();
    m.register_metric("smoke", "Smoke level");
    let samples = m.get_metrics();
    assert_eq!(samples.len(), 1);
    assert_eq!(samples[0].name, "smoke");
    assert_eq!(samples[0].description, "Smoke level");
    assert_eq!(samples[0].value, DEFAULT_VALUE);
    assert_eq!(f64::from_bits(DEFAULT_VALUE), 0.0);
}

#[test]
fn set_value_reads_back() {
    let mut m = Metrics::new();
    m.register_metric("pressure", "Pressure");
    m.set_metric("pressure", 1013.25f64.to_bits());
    assert_eq!(value_of(&m, "pressure"), Some(1013.25));
    m.set_metric("pressure", (-4.5f64).to_bits());
    assert_eq!(value_of(&m, "pressure"), Some(-4.5));
}

#[test]
fn set_unknown_name_changes_nothing() {
    let mut m = Metrics::new();
    m.register_metric("humidity", "Hum");
    let before = snapshot(&m);
    m.set_metric("unknown", 5.0f64.to_bits());
    assert_eq!(m.len(), 1);
    assert!(!m.is_registered("unknown"));
    assert_eq!(snapshot(&m), before);
}

#[test]
fn updates_of_two_gauges_in_either_order_agree() {
    let mut a = sensor_metrics();
    let mut b = sensor_metrics();
    a.set_metric("smoke", 3.0f64.to_bits());
    a.set_metric("propane", 4.0f64.to_bits());
    b.set_metric("propane", 4.0f64.to_bits());
    b.set_metric("smoke", 3.0f64.to_bits());
    assert_eq!(snapshot(&a), snapshot(&b));
    assert_eq!(value_of(&a, "smoke"), Some(3.0));
    assert_eq!(value_of(&a, "propane"), Some(4.0));
}

#[test]
fn two_metrics_scenario() {
    let mut m = Metrics::new();
    m.register_metric("temperature", "Temp");
    m.register_metric("humidity", "Hum");
    let first = snapshot(&m);
    assert_eq!(
        first,
        "# HELP temperature Temp\n# TYPE temperature gauge\ntemperature 0\n\
         # HELP humidity Hum\n# TYPE humidity gauge\nhumidity 0\n"
    );
    m.set_metric("temperature", 21.5f64.to_bits());
    let second = snapshot(&m);
    assert_eq!(
        second,
        "# HELP temperature Temp\n# TYPE temperature gauge\ntemperature 21.5\n\
         # HELP humidity Hum\n# TYPE humidity gauge\nhumidity 0\n"
    );
    assert_eq!(value_of(&m, "humidity"), Some(0.0));
}

#[test]
fn reregistration_resets_value_in_place() {
    let mut m = Metrics::new();
    m.register_metric("smoke", "Smoke");
    m.register_metric("methane", "Methane");
    m.set_metric("smoke", 7.0f64.to_bits());
    m.register_metric("smoke", "Smoke again");
    let samples = m.get_metrics();
    assert_eq!(samples.len(), 2);
    assert_eq!(samples[0].name, "smoke");
    assert_eq!(samples[0].description, "Smoke again");
    assert_eq!(samples[0].value, DEFAULT_VALUE);
    assert_eq!(samples[1].name, "methane");
}

#[test]
fn empty_registry_has_empty_snapshot() {
    let m = Metrics::new();
    assert_eq!(m.len(), 0);
    assert_eq!(snapshot(&m), "");
}

#[test]
fn ingestion_scenario() {
    let mut m = sensor_metrics();
    let reading = "23.1".parse::<f64>().ok().map(f64::to_bits);
    assert_eq!(m.handle_message("metrics/temperature", reading), EventOutcome::Updated);
    assert_eq!(value_of(&m, "temperature"), Some(23.1));

    let before = snapshot(&m);
    let reading = "5".parse::<f64>().ok().map(f64::to_bits);
    assert_eq!(m.handle_message("metrics/unknown", reading), EventOutcome::UnknownMetric);
    assert_eq!(snapshot(&m), before);

    let reading = "not-a-number".parse::<f64>().ok().map(f64::to_bits);
    assert_eq!(reading, None);
    assert_eq!(m.handle_message("metrics/humidity", reading), EventOutcome::MalformedPayload);
    assert_eq!(snapshot(&m), before);
}

#[test]
fn malformed_topics_are_dropped() {
    let mut m = sensor_metrics();
    let before = snapshot(&m);
    let v = Some(1.0f64.to_bits());
    assert_eq!(m.handle_message("other/temperature", v), EventOutcome::MalformedTopic);
    assert_eq!(m.handle_message("metrics/", v), EventOutcome::MalformedTopic);
    assert_eq!(m.handle_message("metrics/smoke/extra", v), EventOutcome::MalformedTopic);
    assert_eq!(m.handle_message("metrics", v), EventOutcome::MalformedTopic);
    assert_eq!(snapshot(&m), before);
}

#[test]
fn topic_names() {
    assert_eq!(metric_name_of_topic("metrics/temperature"), Some("temperature".to_string()));
    assert_eq!(metric_name_of_topic("metrics/m\u{e9}thane"), Some("m\u{e9}thane".to_string()));
    assert_eq!(metric_name_of_topic("metricz/temperature"), None);
    assert_eq!(metric_name_of_topic(""), None);
    assert_eq!(metric_name_of_topic("metrics/a/b"), None);
    assert_eq!(topic_for("smoke"), "metrics/smoke");
    assert_eq!(metric_name_of_topic(&topic_for("propane")), Some("propane".to_string()));
}

#[test]
fn sensor_set_and_its_topics() {
    let m = sensor_metrics();
    let names: Vec<String> = m.get_metrics().into_iter().map(|s| s.name).collect();
    assert_eq!(
        names,
        vec!["temperature", "pressure", "humidity", "smoke", "propane", "methane"]
    );
    assert!(m.get_metrics().iter().all(|s| s.value == DEFAULT_VALUE));
    assert_eq!(m.get_metrics()[1].description, "Atmosphere pressure");
    let topics = sensor_topics();
    assert_eq!(
        topics,
        vec![
            "metrics/temperature",
            "metrics/humidity",
            "metrics/pressure",
            "metrics/smoke",
            "metrics/propane",
            "metrics/methane"
        ]
    );
}

#[test]
fn response_ends_with_snapshot() {
    let mut m = sensor_metrics();
    m.set_metric("methane", 0.25f64.to_bits());
    let body = snapshot(&m);
    let response = http_response(&body);
    assert!(response.starts_with("HTTP/1.1 200 OK\r\n\r\n"));
    assert!(response.ends_with(&body));
    assert_eq!(response.len(), "HTTP/1.1 200 OK\r\n\r\n".len() + body.len());
    assert_eq!(http_response(""), "HTTP/1.1 200 OK\r\n\r\n");
}

#[test]
fn encode_writes_given_value_texts() {
    let samples = vec![Sample {
        name: "x".to_string(),
        description: "An x".to_string(),
        value: 0,
    }];
    let texts = vec!["NaN".to_string()];
    assert_eq!(
        encode_samples(&samples, &texts),
        "# HELP x An x\n# TYPE x gauge\nx NaN\n"
    );
}

#[test]
fn registration_names_are_checked() {
    assert!(is_valid_metric("temperature", "Temperature in room"));
    assert!(is_valid_metric("_a:b9", "x"));
    assert!(is_valid_metric("Z", "x"));
    assert!(!is_valid_metric("", "x"));
    assert!(!is_valid_metric("1x", "x"));
    assert!(!is_valid_metric("a-b", "x"));
    assert!(!is_valid_metric("a/b", "x"));
    assert!(!is_valid_metric("temperature", ""));
}

#[test]
fn descriptions_are_escaped() {
    assert_eq!(escape_description("plain"), "plain");
    assert_eq!(escape_description("a\\b\nc"), "a\\\\b\\nc");
    assert_eq!(escape_description(""), "");
    let mut m = Metrics::new();
    m.register_metric("x", "two\nlines");
    assert_eq!(
        snapshot(&m),
        "# HELP x two\\nlines\n# TYPE x gauge\nx 0\n"
    );
}
