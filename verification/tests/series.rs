//! Time-series derivation: gap filling, the three metrics, the relative
//! axis, and metric-name parsing.

use star_tracker::series::{
    calculate_acceleration_data, calculate_position_data, calculate_speed_data,
    calculate_time_axis, default_metric_types, fill_missing_days, format_relative_time_label,
    parse_metric_types, process_multi_repo_data, process_single_repo_data, DataPoint, MetricType,
    RepositoryData, TimeAxis,
};

#[test]
fn gap_filling_inserts_zero_days() {
    // Daily counts {day1: 3, day4: 2}: the speed series must contain four
    // points day1=3, day2=0, day3=0, day4=2.
    let counts = vec![(1i64, 3i64), (4, 2)];
    let speed = calculate_speed_data(&counts);
    assert_eq!(speed.len(), 4);
    assert_eq!((speed[0].date, speed[0].value), (1, 3));
    assert_eq!((speed[1].date, speed[1].value), (2, 0));
    assert_eq!((speed[2].date, speed[2].value), (3, 0));
    assert_eq!((speed[3].date, speed[3].value), (4, 2));
    assert!(speed.iter().all(|p| p.relative_days.is_none()));
}

#[test]
fn fill_missing_days_keeps_present_counts() {
    let counts = vec![(10i64, 7i64), (12, 1), (13, 4)];
    let filled = fill_missing_days(&counts);
    assert_eq!(filled, vec![(10, 7), (11, 0), (12, 1), (13, 4)]);
    assert_eq!(fill_missing_days(&vec![]), vec![]);
    assert_eq!(fill_missing_days(&vec![(5, 2)]), vec![(5, 2)]);
}

#[test]
fn acceleration_is_second_difference() {
    // Filled counts [2,2,5] on consecutive days: acceleration [0, 0, 3].
    let counts = vec![(1i64, 2i64), (2, 2), (3, 5)];
    let accel = calculate_acceleration_data(&counts);
    assert_eq!(accel.len(), 3);
    assert_eq!(accel[0].value, 0);
    assert_eq!(accel[1].value, 0);
    assert_eq!(accel[2].value, 3);
}

#[test]
fn acceleration_sees_gap_days() {
    // {day1: 3, day3: 1}: filled [3, 0, 1], acceleration [0, -3, 1].
    let counts = vec![(1i64, 3i64), (3, 1)];
    let accel = calculate_acceleration_data(&counts);
    assert_eq!(accel.len(), 3);
    assert_eq!(accel[0].value, 0);
    assert_eq!(accel[1].value, -3);
    assert_eq!(accel[2].value, 1);
}

#[test]
fn acceleration_of_single_day_is_zero() {
    let accel = calculate_acceleration_data(&vec![(9i64, 42i64)]);
    assert_eq!(accel.len(), 1);
    assert_eq!((accel[0].date, accel[0].value), (9, 0));
}

#[test]
fn position_is_running_sum_without_gap_filling() {
    // {day1: 3, day3: 2}: position [(day1, 3), (day3, 5)], two points only.
    let counts = vec![(1i64, 3i64), (3, 2)];
    let position = calculate_position_data(&counts);
    assert_eq!(position.len(), 2);
    assert_eq!((position[0].date, position[0].value), (1, 3));
    assert_eq!((position[1].date, position[1].value), (3, 5));
}

#[test]
fn empty_input_yields_empty_series_for_every_metric() {
    let empty: Vec<(i64, i64)> = Vec::new();
    assert!(calculate_position_data(&empty).is_empty());
    assert!(calculate_speed_data(&empty).is_empty());
    assert!(calculate_acceleration_data(&empty).is_empty());
    let processed = process_single_repo_data(&empty, &MetricType::Speed, None).unwrap();
    assert!(processed.is_empty());
}

#[test]
fn relative_axis_is_shared_across_repositories() {
    // Repositories starting on day10 and day15: in relative mode both
    // report days_since_start measured from day10.
    let repo_data = vec![
        ("alice".to_string(), "one".to_string(), vec![(10i64, 1i64), (12, 2)]),
        ("bob".to_string(), "two".to_string(), vec![(15i64, 4i64)]),
    ];
    let blocks = process_multi_repo_data(repo_data, &vec![MetricType::Position], true).unwrap();
    assert_eq!(blocks.len(), 1);
    let block = &blocks[0];
    assert_eq!(block.start_date, Some(10));
    let first = &block.repositories[0].data_points;
    assert_eq!(first[0].relative_days, Some(0));
    assert_eq!(first[1].relative_days, Some(2));
    let second = &block.repositories[1].data_points;
    assert_eq!(second[0].relative_days, Some(5));
    match block.time_axis {
        TimeAxis::Relative { max_days, start_date } => {
            assert_eq!(start_date, 10);
            assert_eq!(max_days, 5);
        }
        TimeAxis::Absolute { .. } => panic!("expected a relative axis"),
    }
}

#[test]
fn absolute_axis_covers_full_date_range() {
    let repos = vec![RepositoryData {
        owner: "alice".to_string(),
        name: "one".to_string(),
        data_points: vec![
            DataPoint { date: 3, value: 1, relative_days: None },
            DataPoint { date: 8, value: 2, relative_days: None },
        ],
    }];
    match calculate_time_axis(&repos, false).unwrap() {
        TimeAxis::Absolute { min_date, max_date } => {
            assert_eq!((min_date, max_date), (3, 8));
        }
        TimeAxis::Relative { .. } => panic!("expected an absolute axis"),
    }
}

#[test]
fn time_axis_errors_without_data() {
    let none: Vec<RepositoryData> = Vec::new();
    assert_eq!(
        calculate_time_axis(&none, false).unwrap_err(),
        "No repository data provided".to_string()
    );
    let empty_repo = vec![RepositoryData {
        owner: "alice".to_string(),
        name: "one".to_string(),
        data_points: vec![],
    }];
    assert_eq!(
        calculate_time_axis(&empty_repo, true).unwrap_err(),
        "No data points found".to_string()
    );
}

#[test]
fn multi_repo_processing_covers_each_metric() {
    let repo_data = vec![("alice".to_string(), "one".to_string(), vec![(1i64, 3i64), (4, 2)])];
    let metrics = vec![MetricType::Position, MetricType::Speed, MetricType::Acceleration];
    let blocks = process_multi_repo_data(repo_data, &metrics, false).unwrap();
    assert_eq!(blocks.len(), 3);
    assert_eq!(blocks[0].metric_type, MetricType::Position);
    assert_eq!(blocks[0].repositories[0].data_points.len(), 2);
    assert_eq!(blocks[1].metric_type, MetricType::Speed);
    assert_eq!(blocks[1].repositories[0].data_points.len(), 4);
    assert_eq!(blocks[2].metric_type, MetricType::Acceleration);
    assert_eq!(blocks[2].repositories[0].data_points.len(), 4);
    assert_eq!(blocks[0].start_date, None);
}

#[test]
fn multi_repo_processing_of_empty_batch_and_empty_data() {
    let no_repos: Vec<(String, String, Vec<(i64, i64)>)> = Vec::new();
    assert!(process_multi_repo_data(no_repos, &vec![MetricType::Position], false)
        .unwrap()
        .is_empty());
    let all_empty = vec![("alice".to_string(), "one".to_string(), vec![])];
    assert_eq!(
        process_multi_repo_data(all_empty, &vec![MetricType::Position], false).unwrap_err(),
        "No data points found".to_string()
    );
}

#[test]
fn metric_names_parse_case_insensitively() {
    let names = vec!["PoSiTiOn".to_string(), "SPEED".to_string(), "acceleration".to_string()];
    let parsed = parse_metric_types(&names).unwrap();
    assert_eq!(
        parsed,
        vec![MetricType::Position, MetricType::Speed, MetricType::Acceleration]
    );
}

#[test]
fn metric_names_deduplicate_in_first_occurrence_order() {
    let names = vec![
        "speed".to_string(),
        "position".to_string(),
        "Speed".to_string(),
        "position".to_string(),
    ];
    let parsed = parse_metric_types(&names).unwrap();
    assert_eq!(parsed, vec![MetricType::Speed, MetricType::Position]);
}

#[test]
fn unknown_metric_name_is_rejected_with_its_name() {
    let names = vec!["position".to_string(), "velocity".to_string()];
    let err = parse_metric_types(&names).unwrap_err();
    assert_eq!(
        err,
        "Invalid metric type: 'velocity'. Valid types are: position, speed, acceleration"
            .to_string()
    );
}

#[test]
fn empty_metric_list_defaults_to_position() {
    assert_eq!(parse_metric_types(&vec![]).unwrap(), vec![MetricType::Position]);
    assert_eq!(default_metric_types(), vec!["position".to_string()]);
}

#[test]
fn relative_time_labels() {
    assert_eq!(format_relative_time_label(0), "0d");
    assert_eq!(format_relative_time_label(29), "29d");
    assert_eq!(format_relative_time_label(30), "1m");
    assert_eq!(format_relative_time_label(364), "12m");
    assert_eq!(format_relative_time_label(365), "1y");
    assert_eq!(format_relative_time_label(1000), "2y");
    assert_eq!(format_relative_time_label(-5), "-5d");
}
