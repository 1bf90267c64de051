use saveconfig::performance::{
    calculate_optimal_workers, check_memory_limit, estimate_memory_usage, MemoryOperation,
    PerformanceConfig, PerformanceMetrics, WorkComplexity,
};

#[test]
fn test_auto_detect_config() {
    let config = PerformanceConfig::auto_detect();
    assert!(config.thread_count > 0);
    assert!(config.max_memory_mb >= 512);
    assert!(config.compression_level >= 1 && config.compression_level <= 22);
    assert!(config.validate().is_ok());
}

#[test]
fn test_adaptive_compression() {
    let config = PerformanceConfig::balanced();

    let small_file_level = config.get_adaptive_compression_level(500000);
    let large_file_level = config.get_adaptive_compression_level(200000000);

    assert!(large_file_level <= small_file_level);
}

#[test]
fn test_performance_metrics() {
    let mut metrics = PerformanceMetrics::new();

    metrics.add_file_processed();
    metrics.add_bytes_compressed(1024);
    metrics.add_cache_hit();

    let stats = metrics.get_stats();
    assert_eq!(stats.files_processed, 1);
    assert_eq!(stats.bytes_compressed, 1024);
    assert_eq!(stats.cache_hits, 1);
}

#[test]
fn test_memory_estimation() {
    let data_size = 1024 * 1024;
    let compression_memory = estimate_memory_usage(data_size, MemoryOperation::Compression);
    let hash_memory = estimate_memory_usage(data_size, MemoryOperation::Hashing);

    assert!(compression_memory > data_size);
    assert!(hash_memory < data_size);
}

#[test]
fn test_adaptive_bands_exact() {
    let config = PerformanceConfig::custom(Some(2), Some(1024), Some(19));
    assert!(config.adaptive_compression);
    assert_eq!(config.get_adaptive_compression_level(512000), 19);
    assert_eq!(config.get_adaptive_compression_level(5 * 1024 * 1024), 17);
    assert_eq!(config.get_adaptive_compression_level(50 * 1024 * 1024), 15);
    assert_eq!(config.get_adaptive_compression_level(200 * 1024 * 1024), 6);
}

#[test]
fn test_validate_rejections() {
    let mut config = PerformanceConfig::custom(Some(4), Some(1024), Some(19));
    assert!(config.validate().is_ok());

    config.thread_count = 0;
    assert!(config.validate().is_err());
    config.thread_count = 4;

    config.max_memory_mb = 64;
    assert!(config.validate().is_err());
    config.max_memory_mb = 1024;

    config.compression_level = 23;
    assert!(config.validate().is_err());
    config.compression_level = 19;

    config.io_buffer_size = 512;
    assert!(config.validate().is_err());
}

#[test]
fn test_metrics_reset() {
    let mut metrics = PerformanceMetrics::new();
    metrics.add_dedup_save();
    metrics.add_cache_miss();
    metrics.add_compression_time(25);
    metrics.reset();
    let stats = metrics.get_stats();
    assert_eq!(stats.dedup_saves, 0);
    assert_eq!(stats.cache_misses, 0);
    assert_eq!(stats.compression_time_ms, 0);
}

#[test]
fn test_worker_and_memory_helpers() {
    let config = PerformanceConfig::custom(Some(10), Some(1024), Some(19));
    let workers = calculate_optimal_workers(&config, 4, WorkComplexity::Medium);
    assert!(workers >= 1 && workers <= 4);
    assert!(check_memory_limit(&config, 1024));
    assert!(!check_memory_limit(&config, usize::MAX));
}

#[test]
fn test_presets() {
    let fast = PerformanceConfig::fast();
    assert_eq!(fast.compression_level, 6);
    assert!(fast.parallel_dedup);

    let max = PerformanceConfig::max_compression();
    assert_eq!(max.compression_level, 22);
    assert!(!max.adaptive_compression);
}

#[test]
fn test_zero_work_items_take_zero_workers() {
    let config = PerformanceConfig::custom(Some(10), Some(1024), Some(19));
    assert_eq!(
        calculate_optimal_workers(&config, 0, WorkComplexity::Medium),
        0
    );
    // The scaling in tenths: 10 threads at medium complexity give 8.
    assert_eq!(
        calculate_optimal_workers(&config, 100, WorkComplexity::Medium),
        8
    );
    assert_eq!(
        calculate_optimal_workers(&config, 100, WorkComplexity::VeryHigh),
        4
    );
}

#[test]
fn test_auto_detect_from_bands() {
    let low = PerformanceConfig::auto_detect_from(2);
    assert_eq!(low.thread_count, 2);
    assert_eq!(low.compression_level, 15);
    assert_eq!(low.chunk_size, 1048576);
    assert!(!low.parallel_dedup);

    let high = PerformanceConfig::auto_detect_from(8);
    assert_eq!(high.thread_count, 7);
    assert_eq!(high.compression_level, 19);
    assert_eq!(high.io_buffer_size, 1048576);
    assert_eq!(high.max_batch_size, 80);
    assert!(high.parallel_dedup);
}
