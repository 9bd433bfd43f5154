use cli_testing_specialist::error::CliTestError;
use cli_testing_specialist::types::TestCategory;
use cli_testing_specialist::utils::parallel::{
    choose_strategy, estimate_tests_per_category, ParallelStrategy, Workload,
};
use cli_testing_specialist::utils::resource_limits::{ResourceLimits, NO_ARGS_PROBE_TIMEOUT_MS};
use cli_testing_specialist::utils::safe_deserialize::{
    depth_exceeds_limit, payload_too_large, MAX_DESERIALIZE_SIZE,
};
use cli_testing_specialist::utils::validator::{binary_path_verdict, select_probe_output};

fn create_test_workload(
    num_categories: usize,
    num_global_options: usize,
    num_subcommands: usize,
) -> Workload {
    let categories: Vec<TestCategory> = (0..num_categories)
        .map(|i| match i % 3 {
            0 => TestCategory::Basic,
            1 => TestCategory::Security,
            _ => TestCategory::Help,
        })
        .collect();

    Workload::new(&categories, num_global_options, num_subcommands)
}

#[test]
fn test_choose_strategy_sequential_small_workload() {
    // 1 category, 5 options -> ~10 tests
    let workload = create_test_workload(1, 5, 0);
    assert_eq!(choose_strategy(&workload), ParallelStrategy::Sequential);
}

#[test]
fn test_choose_strategy_sequential_single_category() {
    // 1 category, even with many options -> Sequential
    let workload = create_test_workload(1, 50, 10);
    assert_eq!(choose_strategy(&workload), ParallelStrategy::Sequential);
}

#[test]
fn test_choose_strategy_category_level_medium_workload() {
    // 3 categories, 10 options -> ~60 tests
    let workload = create_test_workload(3, 10, 5);
    assert_eq!(choose_strategy(&workload), ParallelStrategy::CategoryLevel);
}

#[test]
fn test_choose_strategy_test_level_large_workload() {
    // 6 categories, 30 options, 50 subcommands -> ~160 tests
    let workload = create_test_workload(6, 30, 50);
    let total_tests = workload.total_estimated_tests();

    // Verify workload is large enough
    assert!(
        total_tests >= 100,
        "Expected large workload (>=100 tests), got {}",
        total_tests
    );

    let strategy = choose_strategy(&workload);

    // Result depends on CPU count
    if workload.num_cpus >= 4 {
        assert_eq!(
            strategy,
            ParallelStrategy::TestLevel,
            "Expected TestLevel with {} CPUs and {} tests",
            workload.num_cpus,
            total_tests
        );
    } else {
        assert_eq!(
            strategy,
            ParallelStrategy::CategoryLevel,
            "Expected CategoryLevel with {} CPUs and {} tests",
            workload.num_cpus,
            total_tests
        );
    }
}

#[test]
fn test_workload_reads_machine_cpu_count() {
    // The CPU count comes from the machine and is documented to be at
    // least one; a workload that merely echoed a field back could not
    // guarantee that.
    let workload = create_test_workload(2, 3, 1);
    assert!(workload.num_cpus >= 1);
}

#[test]
fn test_estimate_tests_per_category() {
    // 10 options, 5 subcommands, 3 categories
    // complexity score 15, twice that spread over 3 categories: 10
    let result = estimate_tests_per_category(10, 5, 3);
    assert_eq!(result, 10);
}

#[test]
fn test_estimate_tests_per_category_clamping() {
    // Very small complexity -> clamp to 5
    let result = estimate_tests_per_category(1, 0, 5);
    assert_eq!(result, 5);

    // Very large complexity -> clamp to 50
    let result = estimate_tests_per_category(100, 50, 1);
    assert_eq!(result, 50);
}

#[test]
fn test_workload_total_estimated_tests() {
    let workload = create_test_workload(4, 10, 5);
    let total = workload.total_estimated_tests();

    // 4 categories * estimated_tests_per_category
    assert!(total > 0);
    assert!(total <= 200); // Sanity check
}

#[test]
fn test_default_limits() {
    let limits = ResourceLimits::default();

    assert_eq!(limits.max_memory_bytes, 500 * 1024 * 1024);
    assert_eq!(limits.max_file_descriptors, 1024);
    assert_eq!(limits.max_processes, 100);
    assert_eq!(limits.execution_timeout_ms, 300 * 1000);
}

#[test]
fn test_custom_limits() {
    let limits = ResourceLimits::new(100 * 1024 * 1024, 512, 50, 60 * 1000);

    assert_eq!(limits.max_memory_bytes, 100 * 1024 * 1024);
    assert_eq!(limits.max_file_descriptors, 512);
    assert_eq!(limits.max_processes, 50);
    assert_eq!(limits.execution_timeout_ms, 60 * 1000);
}

#[test]
fn test_timeout_accessor() {
    let limits = ResourceLimits::default();
    assert_eq!(limits.timeout(), 300 * 1000);
    assert_eq!(NO_ARGS_PROBE_TIMEOUT_MS, 1000);
}

#[test]
fn test_max_deserialize_size_constant_value() {
    // The size limit is exactly 10 MB.
    assert_eq!(MAX_DESERIALIZE_SIZE, 10485760);

    assert_ne!(MAX_DESERIALIZE_SIZE, 1048586);

    assert_ne!(MAX_DESERIALIZE_SIZE, 11264);
}

#[test]
fn test_deserialize_gates() {
    assert!(!payload_too_large(MAX_DESERIALIZE_SIZE));
    assert!(payload_too_large(MAX_DESERIALIZE_SIZE + 1));
    assert!(!depth_exceeds_limit(16));
    assert!(depth_exceeds_limit(17));
}

#[test]
fn test_binary_path_verdict() {
    assert!(binary_path_verdict("/bin/ls", true, true, true).is_ok());
    assert!(matches!(
        binary_path_verdict("/nope", false, false, false),
        Err(CliTestError::BinaryNotFound(_))
    ));
    assert!(matches!(
        binary_path_verdict("/tmp", true, false, true),
        Err(CliTestError::BinaryNotFound(_))
    ));
    assert!(matches!(
        binary_path_verdict("/etc/hosts", true, true, false),
        Err(CliTestError::BinaryNotExecutable(_))
    ));
}

#[test]
fn test_select_probe_output() {
    assert_eq!(
        select_probe_output("out".to_string(), "err".to_string()),
        "out"
    );
    assert_eq!(
        select_probe_output(String::new(), "err".to_string()),
        "err"
    );
}
