//! Request validation, chart configuration, chart text, and the small
//! date and text helpers.

use star_tracker::chart::{generate_empty_chart, get_y_axis_description, ChartConfig};
use star_tracker::daily_graph::{
    build_chart_config, metric_type_name, validate_read_daily_graph_request, ChartConfigRequest,
    HandlerError, RepoStarsReadDailyGraphRequestBody, RepositorySpec,
};
use star_tracker::dates::day_of_timestamp;
use star_tracker::series::MetricType;
use star_tracker::text::{i64_to_string, u64_to_string};

fn spec(owner: &str, name: &str) -> RepositorySpec {
    RepositorySpec { owner: owner.to_string(), name: name.to_string() }
}

fn body(repos: Vec<RepositorySpec>, metrics: Vec<&str>) -> RepoStarsReadDailyGraphRequestBody {
    RepoStarsReadDailyGraphRequestBody {
        repositories: repos,
        metric_types: metrics.into_iter().map(|m| m.to_string()).collect(),
        relative_x_axis: false,
        chart_config: None,
    }
}

#[test]
fn request_without_repositories_is_rejected() {
    let err = validate_read_daily_graph_request(&body(vec![], vec!["position"])).unwrap_err();
    assert_eq!(
        err,
        HandlerError::InvalidRequest {
            message: "At least one repository must be specified".to_string(),
        }
    );
    assert_eq!(err.message(), "Invalid request: At least one repository must be specified");
}

#[test]
fn request_with_too_many_repositories_is_rejected() {
    let repos: Vec<RepositorySpec> =
        (0..11).map(|i| spec("alice", &format!("repo{}", i))).collect();
    let err = validate_read_daily_graph_request(&body(repos, vec![])).unwrap_err();
    assert_eq!(
        err,
        HandlerError::InvalidRequest {
            message: "Maximum 10 repositories allowed per request".to_string(),
        }
    );
}

#[test]
fn request_metrics_are_parsed_and_defaulted() {
    let ok = validate_read_daily_graph_request(&body(
        vec![spec("alice", "one")],
        vec!["Speed", "acceleration"],
    ))
    .unwrap();
    assert_eq!(ok, vec![MetricType::Speed, MetricType::Acceleration]);
    let defaulted =
        validate_read_daily_graph_request(&body(vec![spec("alice", "one")], vec![])).unwrap();
    assert_eq!(defaulted, vec![MetricType::Position]);
    let err = validate_read_daily_graph_request(&body(vec![spec("alice", "one")], vec!["warp"]))
        .unwrap_err();
    assert_eq!(
        err,
        HandlerError::InvalidRequest {
            message: "Invalid metric type: 'warp'. Valid types are: position, speed, acceleration"
                .to_string(),
        }
    );
}

#[test]
fn handler_errors_render_their_messages() {
    let not_found =
        HandlerError::RepositoryNotFound { owner: "alice".to_string(), name: "one".to_string() };
    assert_eq!(not_found.message(), "Repository alice/one not found in database");
    let processing = HandlerError::DataProcessing { message: "broken".to_string() };
    assert_eq!(processing.message(), "Data processing failed: broken");
    let chart = HandlerError::ChartGeneration { message: "broken".to_string() };
    assert_eq!(chart.message(), "Chart generation failed: broken");
}

#[test]
fn metric_names_round_trip() {
    assert_eq!(metric_type_name(&MetricType::Position), "position");
    assert_eq!(metric_type_name(&MetricType::Speed), "speed");
    assert_eq!(metric_type_name(&MetricType::Acceleration), "acceleration");
}

#[test]
fn default_chart_config() {
    let config = ChartConfig::default();
    assert_eq!(config.width, 800);
    assert_eq!(config.height, 400);
    assert_eq!(config.title, "Repository Star Metrics");
    assert!(config.show_legend);
    assert_eq!(config.colors.len(), 8);
    assert_eq!((config.colors[0].r, config.colors[0].g, config.colors[0].b), (0, 0, 255));
}

#[test]
fn derived_chart_title_names_the_single_repository() {
    let config = build_chart_config(&body(vec![spec("alice", "one")], vec![]), &MetricType::Speed);
    assert_eq!(config.title, "alice/one - Daily Star Count");
    let multi = build_chart_config(
        &body(vec![spec("alice", "one"), spec("bob", "two")], vec![]),
        &MetricType::Position,
    );
    assert_eq!(multi.title, "Multi-Repository Cumulative Stars Comparison");
}

#[test]
fn requested_chart_overrides_win() {
    let mut input = body(vec![spec("alice", "one")], vec![]);
    input.chart_config = Some(ChartConfigRequest {
        width: Some(1000),
        height: None,
        title: Some("My dashboard".to_string()),
        show_legend: Some(false),
    });
    let config = build_chart_config(&input, &MetricType::Acceleration);
    assert_eq!(config.width, 1000);
    assert_eq!(config.height, 400);
    assert_eq!(config.title, "My dashboard");
    assert!(!config.show_legend);
}

#[test]
fn y_axis_descriptions() {
    assert_eq!(get_y_axis_description(&MetricType::Position), "Total Stars");
    assert_eq!(get_y_axis_description(&MetricType::Speed), "Daily Stars");
    assert_eq!(get_y_axis_description(&MetricType::Acceleration), "Star Acceleration");
}

#[test]
fn empty_chart_is_exact_svg_text() {
    let svg = generate_empty_chart("alice/one - Daily Star Count", 800, 400);
    assert_eq!(
        svg,
        "<svg width=\"800\" height=\"400\" xmlns=\"http://www.w3.org/2000/svg\">\
         <rect width=\"100%\" height=\"100%\" fill=\"white\"/>\
         <text x=\"400\" y=\"200\" text-anchor=\"middle\" font-family=\"Arial\" \
         font-size=\"18\" fill=\"#666666\">No data available for: \
         alice/one - Daily Star Count</text></svg>"
    );
}

#[test]
fn day_numbers_floor_toward_negative_infinity() {
    assert_eq!(day_of_timestamp(0), 0);
    assert_eq!(day_of_timestamp(86399), 0);
    assert_eq!(day_of_timestamp(86400), 1);
    assert_eq!(day_of_timestamp(-1), -1);
    assert_eq!(day_of_timestamp(-86400), -1);
    assert_eq!(day_of_timestamp(-86401), -2);
}

#[test]
fn decimal_rendering() {
    assert_eq!(u64_to_string(0), "0");
    assert_eq!(u64_to_string(105), "105");
    assert_eq!(u64_to_string(u64::MAX), "18446744073709551615");
    assert_eq!(i64_to_string(-42), "-42");
    assert_eq!(i64_to_string(i64::MIN), "-9223372036854775808");
}
