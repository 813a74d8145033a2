use core_to_core_latency::config::{
    check_core_count, parse_benches, select_cores, BenchKind, CliArgs, ConfigError, Count,
    DEFAULT_NUM_ITERATIONS_PER_SAMPLE, DEFAULT_NUM_SAMPLES,
};
use core_to_core_latency::schedule::{cell_kind, pair_schedule, CellKind};
use core_to_core_latency::summary::{cell_position, csv_line, max_cell, min_cell};
use core_to_core_latency::tensor::LatencyTensor;

#[test]
fn symmetric_schedule_is_strict_lower_triangle() {
    for n in 2..8usize {
        let s = pair_schedule(n, true);
        assert_eq!(s.len(), n * (n - 1) / 2);
        assert!(s.iter().all(|&(i, j)| i > j && i < n));
    }
    assert_eq!(pair_schedule(3, true), vec![(1, 0), (2, 0), (2, 1)]);
}

#[test]
fn asymmetric_schedule_covers_every_off_diagonal_pair() {
    for n in 2..8usize {
        let s = pair_schedule(n, false);
        assert_eq!(s.len(), n * (n - 1));
        for i in 0..n {
            for j in 0..n {
                assert_eq!(s.contains(&(i, j)), i != j);
            }
        }
    }
    assert_eq!(pair_schedule(2, false), vec![(0, 1), (1, 0)]);
}

#[test]
fn schedule_of_fewer_than_two_cores_is_empty() {
    assert!(pair_schedule(0, true).is_empty());
    assert!(pair_schedule(1, false).is_empty());
}

#[test]
fn cell_kinds() {
    assert_eq!(cell_kind(true, 1, 0), CellKind::Measured);
    assert_eq!(cell_kind(true, 0, 1), CellKind::Omitted);
    assert_eq!(cell_kind(true, 2, 2), CellKind::Omitted);
    assert_eq!(cell_kind(false, 2, 2), CellKind::Blank);
    assert_eq!(cell_kind(false, 0, 1), CellKind::Measured);
    assert_eq!(cell_kind(false, 1, 0), CellKind::Measured);
}

#[test]
fn only_the_message_passing_pattern_is_asymmetric() {
    assert!(BenchKind::Cas.is_symmetric());
    assert!(BenchKind::ReadWrite.is_symmetric());
    assert!(!BenchKind::MsgPassing.is_symmetric());
}

#[test]
fn record_drops_the_warm_up_sample() {
    let mut t: LatencyTensor<f64> = LatencyTensor::new(2, 3, true);
    assert_eq!(t.samples(1, 0), None);
    t.record(1, 0, vec![1000.0, 10.0, 11.0, 12.0]);
    assert_eq!(t.samples(1, 0), Some(&vec![10.0, 11.0, 12.0]));
    assert_eq!(t.samples(0, 1), None);
    assert_eq!(t.samples(0, 0), None);
    assert_eq!(t.populated_samples(), vec![10.0, 11.0, 12.0]);
    assert_eq!(t.n(), 2);
    assert_eq!(t.num_samples(), 3);
}

#[test]
fn populated_samples_go_row_by_row() {
    let mut t: LatencyTensor<u32> = LatencyTensor::new(2, 2, false);
    t.record(1, 0, vec![99, 3, 4]);
    t.record(0, 1, vec![98, 1, 2]);
    assert_eq!(t.populated_samples(), vec![1, 2, 3, 4]);
    let empty: LatencyTensor<u32> = LatencyTensor::new(3, 5, false);
    assert!(empty.populated_samples().is_empty());
}

#[test]
fn min_and_max_of_a_two_by_two_grid() {
    // Diagonal not applicable, cell (0,1) = 50, cell (1,0) = 80.
    let keys = vec![None, Some(50), Some(80), None];
    let lo = min_cell(&keys).unwrap();
    let hi = max_cell(&keys).unwrap();
    assert_eq!(cell_position(2, lo), (0, 1));
    assert_eq!(cell_position(2, hi), (1, 0));
    assert_eq!(keys[lo], Some(50));
    assert_eq!(keys[hi], Some(80));
}

#[test]
fn ties_go_to_the_first_cell() {
    let keys = vec![None, Some(7), Some(3), Some(7), Some(3), None];
    assert_eq!(min_cell(&keys), Some(2));
    assert_eq!(max_cell(&keys), Some(1));
}

#[test]
fn no_applicable_cell_has_no_min_or_max() {
    let keys: Vec<Option<u64>> = vec![None, None, None, None];
    assert_eq!(min_cell(&keys), None);
    assert_eq!(max_cell(&keys), None);
    assert_eq!(min_cell(&Vec::new()), None);
}

#[test]
fn summarising_twice_gives_the_same_result() {
    let keys = vec![None, Some(12), Some(9), None, Some(9), Some(40), None, Some(40), None];
    assert_eq!(min_cell(&keys), min_cell(&keys));
    assert_eq!(max_cell(&keys), max_cell(&keys));
    let row = vec![None, Some("1.5".to_string()), Some("2".to_string())];
    assert_eq!(csv_line(&row), csv_line(&row));
}

#[test]
fn cell_positions() {
    assert_eq!(cell_position(3, 0), (0, 0));
    assert_eq!(cell_position(3, 5), (1, 2));
    assert_eq!(cell_position(3, 7), (2, 1));
}

#[test]
fn csv_leaves_inapplicable_cells_empty() {
    let row = vec![None, Some("50".to_string())];
    assert_eq!(csv_line(&row), ",50");
    let row = vec![Some("80".to_string()), None];
    assert_eq!(csv_line(&row), "80,");
    let row = vec![None, Some("12.5".to_string()), None, Some("7".to_string())];
    assert_eq!(csv_line(&row), ",12.5,,7");
    assert_eq!(csv_line(&vec![None, None, None]), ",,");
    assert_eq!(csv_line(&Vec::new()), "");
}

#[test]
fn bench_numbers() {
    assert_eq!(BenchKind::from_id(1), Ok(BenchKind::Cas));
    assert_eq!(BenchKind::from_id(2), Ok(BenchKind::ReadWrite));
    assert_eq!(BenchKind::from_id(3), Ok(BenchKind::MsgPassing));
    assert_eq!(BenchKind::from_id(0), Err(ConfigError::UnknownBench(0)));
    assert_eq!(BenchKind::from_id(4), Err(ConfigError::UnknownBench(4)));
}

#[test]
fn bench_lists_are_checked_before_any_run() {
    assert_eq!(
        parse_benches(&vec![1, 3]),
        Ok(vec![BenchKind::Cas, BenchKind::MsgPassing])
    );
    assert_eq!(parse_benches(&vec![1, 5, 2, 9]), Err(ConfigError::UnknownBench(5)));
    assert_eq!(parse_benches(&Vec::new()), Ok(Vec::new()));
}

#[test]
fn core_selection() {
    let available = vec![0, 1, 2, 3, 8];
    assert_eq!(select_cores(&available, &Vec::new()), Ok(vec![0, 1, 2, 3, 4]));
    assert_eq!(select_cores(&available, &vec![8, 2]), Ok(vec![4, 2]));
    assert_eq!(
        select_cores(&available, &vec![2, 5, 6]),
        Err(ConfigError::CoreNotFound(5))
    );
}

#[test]
fn at_least_two_cores() {
    assert_eq!(check_core_count(0), Err(ConfigError::TooFewCores(0)));
    assert_eq!(check_core_count(1), Err(ConfigError::TooFewCores(1)));
    assert_eq!(check_core_count(2), Ok(()));
    assert_eq!(check_core_count(64), Ok(()));
}

#[test]
fn default_options() {
    let args = CliArgs {
        num_iterations: DEFAULT_NUM_ITERATIONS_PER_SAMPLE,
        num_samples: DEFAULT_NUM_SAMPLES,
        csv: false,
        bench: vec![1],
        cores: Vec::new(),
    };
    let n: Count = args.clone().num_samples;
    assert_eq!(n, 300);
    assert_eq!(args.num_iterations, 1000);
}
