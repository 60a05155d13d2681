use benchmarks::health::{Health, State};
use benchmarks::output::{FormatError, GraphFormat};
use benchmarks::row::{decimal_text, encode_result, name_lt, result_row, sort_by_name, MetricSample};
use benchmarks::sweep::{ArgOverride, GraphParams, GraphRun, IncompleteGraphParams};

fn strings(v: &[&str]) -> Vec<String> {
    v.iter().map(|s| s.to_string()).collect()
}

fn sample(name: &str, samples: u64, min: u64, max: u64, mean: &str, quantiles: &[u64]) -> MetricSample {
    MetricSample {
        name: name.to_string(),
        samples,
        min,
        max,
        mean: mean.to_string(),
        quantiles: quantiles.to_vec(),
    }
}

fn params(values: &[&str], datagen: bool) -> GraphParams {
    GraphParams::new(
        true,
        Some("target-qps".to_string()),
        Some(strings(values)),
        datagen,
        Some("out.csv".to_string()),
    )
    .unwrap()
}

#[test]
fn runs_follow_values_in_order() {
    let p = params(&["100", "500", "1000"], false);
    let runs = p.runs();
    assert_eq!(runs.len(), 3);
    let values: Vec<&str> = runs.iter().map(|r| r.x_value()).collect();
    assert_eq!(values, vec!["100", "500", "1000"]);
}

#[test]
fn runs_are_restartable() {
    let p = params(&["1", "2"], true);
    let first: Vec<String> = p.runs().iter().map(|r| r.x_value().to_string()).collect();
    let second: Vec<String> = p.runs().iter().map(|r| r.x_value().to_string()).collect();
    assert_eq!(first, second);
}

#[test]
fn runs_carry_axis_and_kind() {
    let p = params(&["7"], true);
    let runs = p.runs();
    match runs[0].as_args() {
        ArgOverride::Json(v) => assert_eq!(v.get("target-qps").and_then(|x| x.as_str()), Some("7")),
        ArgOverride::CliArgs(_) => panic!("expected a structured patch"),
    }
}

#[test]
fn partial_config_is_refused() {
    let r = GraphParams::new(true, Some("target-qps".to_string()), None, false, None);
    assert!(matches!(r, Err(IncompleteGraphParams)));
    let r = GraphParams::new(false, None, Some(strings(&["1"])), false, None);
    assert!(matches!(r, Err(IncompleteGraphParams)));
}

#[test]
fn empty_config_is_disabled() {
    let p = GraphParams::new(false, None, None, false, None).unwrap();
    assert!(!p.graph());
    assert!(!p.x_axis_is_datagen_var());
}

#[test]
fn enabled_config_keeps_path() {
    let p = params(&["1"], false);
    assert!(p.graph());
    assert_eq!(p.graph_results_path(), "out.csv");
}

#[test]
fn results_format_follows_path() {
    assert_eq!(params(&["1"], false).results_format(), Ok(GraphFormat::Csv));
    let p = GraphParams::new(
        true,
        Some("target-qps".to_string()),
        Some(strings(&["1"])),
        false,
        Some("plot.png".to_string()),
    )
    .unwrap();
    assert_eq!(p.results_format(), Err(FormatError::PngNotImplemented));
}

#[test]
fn encode_cli_tokens() {
    let run = GraphRun::new("target-qps".to_string(), "500".to_string(), false);
    match run.as_args() {
        ArgOverride::CliArgs(args) => assert_eq!(args, strings(&["benchmarks", "--target-qps", "500"])),
        ArgOverride::Json(_) => panic!("expected command-line tokens"),
    }
}

#[test]
fn encode_structured_patch() {
    let run = GraphRun::new("row_count".to_string(), "1000".to_string(), true);
    let mut expected = serde_json::Map::new();
    expected.insert("row_count".to_string(), serde_json::Value::String("1000".to_string()));
    match run.as_args() {
        ArgOverride::Json(v) => assert_eq!(v, serde_json::Value::Object(expected)),
        ArgOverride::CliArgs(_) => panic!("expected a structured patch"),
    }
}

#[test]
fn encode_is_repeatable() {
    let a = GraphRun::new("target-qps".to_string(), "500".to_string(), false);
    let b = GraphRun::new("target-qps".to_string(), "500".to_string(), false);
    assert_eq!(format!("{:?}", a.as_args()), format!("{:?}", b.as_args()));
    let c = GraphRun::new("row_count".to_string(), "9".to_string(), true);
    assert_eq!(format!("{:?}", c.as_args()), format!("{:?}", c.as_args()));
}

#[test]
fn format_from_path() {
    assert_eq!(GraphFormat::from_path("out.csv"), Ok(GraphFormat::Csv));
    assert_eq!(GraphFormat::from_path("dir/results.csv"), Ok(GraphFormat::Csv));
    assert_eq!(GraphFormat::from_path("out.png"), Err(FormatError::PngNotImplemented));
    assert_eq!(
        GraphFormat::from_path("out.dat"),
        Err(FormatError::UnsupportedExtension("dat".to_string()))
    );
    assert_eq!(GraphFormat::from_path("out"), Err(FormatError::UnknownFormat));
}

#[test]
fn format_error_messages() {
    assert_eq!(FormatError::PngNotImplemented.message(), "PNG output not yet implemented");
    assert_eq!(
        FormatError::UnsupportedExtension("dat".to_string()).message(),
        "Unsupported extension for --graph-results-path: .dat"
    );
    assert_eq!(
        FormatError::UnknownFormat.message(),
        "Could not determine output file format from --graph-results-path"
    );
}

#[test]
fn names_order_bytewise() {
    assert!(name_lt(&"a".to_string(), &"b".to_string()));
    assert!(!name_lt(&"b".to_string(), &"a".to_string()));
    assert!(name_lt(&"ab".to_string(), &"abc".to_string()));
    assert!(!name_lt(&"abc".to_string(), &"abc".to_string()));
    assert!(name_lt(&"Z".to_string(), &"a".to_string()));
}

#[test]
fn metrics_sorted_by_name() {
    let sorted = sort_by_name(vec![
        sample("c", 1, 1, 1, "1", &[]),
        sample("a", 2, 2, 2, "2", &[]),
        sample("b", 3, 3, 3, "3", &[]),
    ]);
    let names: Vec<&str> = sorted.iter().map(|m| m.name.as_str()).collect();
    assert_eq!(names, vec!["a", "b", "c"]);
}

#[test]
fn row_orders_metrics_by_name() {
    let b_then_a = result_row(
        "x",
        vec![sample("b", 2, 20, 30, "25", &[22]), sample("a", 1, 5, 5, "5", &[5])],
    );
    let a_then_b = result_row(
        "x",
        vec![sample("a", 1, 5, 5, "5", &[5]), sample("b", 2, 20, 30, "25", &[22])],
    );
    let expected = strings(&["x", "1", "5", "5", "5", "5", "2", "20", "30", "25", "22"]);
    assert_eq!(b_then_a, expected);
    assert_eq!(a_then_b, expected);
}

#[test]
fn row_has_seven_columns_for_one_metric_and_two_quantiles() {
    let row = result_row("500", vec![sample("latency", 100, 3, 250, "41.5", &[40, 240])]);
    assert_eq!(row.len(), 7);
    assert_eq!(row, strings(&["500", "100", "3", "250", "41.5", "40", "240"]));
}

#[test]
fn row_without_metrics_is_axis_value_only() {
    assert_eq!(result_row("42", vec![]), strings(&["42"]));
}

#[test]
fn large_numbers_are_written_in_decimal() {
    let row = result_row("v", vec![sample("m", u64::MAX, 0, 10, "0", &[1000000])]);
    assert_eq!(row, strings(&["v", "18446744073709551615", "0", "10", "0", "1000000"]));
}

#[test]
fn encoded_record_is_one_csv_line() {
    let bytes = encode_result("500", vec![sample("latency", 100, 3, 250, "41.5", &[40, 240])]);
    assert_eq!(String::from_utf8(bytes).unwrap(), "500,100,3,250,41.5,40,240\n");
}

#[test]
fn encoded_record_quotes_axis_value() {
    let bytes = encode_result("a,b", vec![]);
    assert_eq!(String::from_utf8(bytes).unwrap(), "\"a,b\"\n");
}

#[test]
fn successive_records_append_in_sweep_order() {
    let mut out: Vec<u8> = Vec::new();
    let mut lines_after_each = Vec::new();
    for (i, v) in ["1", "2", "3"].iter().enumerate() {
        let rec = encode_result(v, vec![sample("m", i as u64, 0, 0, "0", &[])]);
        out.extend_from_slice(&rec);
        lines_after_each.push(String::from_utf8(out.clone()).unwrap().lines().count());
    }
    assert_eq!(lines_after_each, vec![1, 2, 3]);
    assert_eq!(String::from_utf8(out).unwrap(), "1,0,0,0,0\n2,1,0,0,0\n3,2,0,0,0\n");
}

#[test]
fn state_text() {
    assert_eq!(State::Healthy.to_string(), "healthy");
    assert_eq!(State::Unhealthy.to_string(), "unhealthy");
    assert_eq!(State::ShuttingDown.to_string(), "shutting down");
    assert_eq!(State::Unknown.to_string(), "unknown");
}

#[test]
fn health_changes_state_with_new_time() {
    let h = Health::new(State::Unhealthy, 10);
    let next = h.after(State::Healthy, 20);
    assert_eq!(next.state, State::Healthy);
    assert_eq!(next.transition_time, 20);
}

#[test]
fn health_same_state_keeps_time() {
    let h = Health::new(State::Healthy, 10);
    let next = h.after(State::Healthy, 99);
    assert_eq!(next, h);
}

#[test]
fn decimal_text_values() {
    assert_eq!(decimal_text(0), "0");
    assert_eq!(decimal_text(7), "7");
    assert_eq!(decimal_text(10), "10");
    assert_eq!(decimal_text(1000), "1000");
    assert_eq!(decimal_text(u64::MAX), "18446744073709551615");
}

#[test]
fn structured_patch_is_an_object_of_one_string() {
    let run = GraphRun::new("row_count".to_string(), "1000".to_string(), true);
    match run.as_args() {
        ArgOverride::Json(v) => {
            let fields = v.as_object().unwrap();
            assert_eq!(fields.len(), 1);
            assert!(fields["row_count"].is_string());
        }
        ArgOverride::CliArgs(_) => panic!("expected a structured patch"),
    }
}
