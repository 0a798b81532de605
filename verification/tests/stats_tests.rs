use loro::stats::{calculate_stats, LatencyStats, Sample, StatsCollector};

fn ms(v: u64) -> Sample {
    Sample::Finite(v)
}

#[test]
fn test_stats_collector_basic_functionality() {
    let mut collector = StatsCollector::new(100);

    // Initial state
    assert_eq!(collector.get_request_count(), 0);
    assert_eq!(collector.get_avg_first_response_time(), 0);

    // Add some data (durations in milliseconds)
    collector.add_request(ms(1000), ms(2000), Some(ms(500)), Some(ms(1500)));
    assert_eq!(collector.get_request_count(), 1);
    assert_eq!(collector.get_avg_first_response_time(), 1000);

    // Add more data
    collector.add_request(ms(3000), ms(4000), Some(ms(1500)), Some(ms(2500)));
    assert_eq!(collector.get_request_count(), 2);
    assert_eq!(collector.get_avg_first_response_time(), 2000); // (1000 + 3000) / 2
}

#[test]
fn test_stats_collector_memory_management() {
    let mut collector = StatsCollector::new(5); // Small limit for testing

    // Add more entries than the limit
    for i in 0..10u64 {
        collector.add_request(
            ms(i * 1000),
            ms(i * 2000),
            Some(ms(i * 500)),
            Some(ms(i * 1500)),
        );
    }

    // Should have limited the stored entries, but counted every request
    let stats = collector.get_stats();
    assert_eq!(stats.total_requests, 10);
}

#[test]
fn test_stats_collector_reset_functionality() {
    let mut collector = StatsCollector::new(100);

    collector.add_request(ms(1000), ms(2000), Some(ms(500)), Some(ms(1500)));
    collector.add_request(ms(3000), ms(4000), Some(ms(1500)), Some(ms(2500)));

    assert_eq!(collector.get_request_count(), 2);
    assert_ne!(collector.get_avg_first_response_time(), 0);

    collector.reset();

    assert_eq!(collector.get_request_count(), 0);
    assert_eq!(collector.get_avg_first_response_time(), 0);
}

#[test]
fn test_calculate_stats_empty_data() {
    let stats = calculate_stats(&vec![]);

    assert_eq!(stats.avg, 0);
    assert_eq!(stats.min, 0);
    assert_eq!(stats.max, 0);
    assert_eq!(stats.p50, 0);
    assert_eq!(stats.p95, 0);
}

#[test]
fn test_calculate_stats_single_value() {
    let stats = calculate_stats(&vec![ms(5000)]);

    assert_eq!(stats.avg, 5000);
    assert_eq!(stats.min, 5000);
    assert_eq!(stats.max, 5000);
    assert_eq!(stats.p50, 5000);
    assert_eq!(stats.p95, 5000);
}

#[test]
fn test_calculate_stats_multiple_values() {
    let data = vec![ms(1000), ms(2000), ms(3000), ms(4000), ms(5000)];
    let stats = calculate_stats(&data);

    assert_eq!(stats.avg, 3000);
    assert_eq!(stats.min, 1000);
    assert_eq!(stats.max, 5000);
    assert_eq!(stats.p50, 3000); // Middle value
    assert_eq!(stats.p95, 4000); // index floor((5-1) * 0.95) = 3
}

#[test]
fn test_calculate_stats_with_nan_values() {
    let data = vec![
        ms(1000),
        Sample::NonFinite,
        ms(3000),
        Sample::NonFinite,
        ms(5000),
        Sample::NonFinite,
    ];
    let stats = calculate_stats(&data);

    // Non-finite readings are ignored; stats come from [1000, 3000, 5000]
    assert_eq!(stats.avg, 3000);
    assert_eq!(stats.min, 1000);
    assert_eq!(stats.max, 5000);
}

#[test]
fn test_calculate_stats_all_nan() {
    let data = vec![Sample::NonFinite, Sample::NonFinite, Sample::NonFinite];
    let stats = calculate_stats(&data);

    // All-non-finite input reports all-zero statistics
    assert_eq!(stats.avg, 0);
    assert_eq!(stats.min, 0);
    assert_eq!(stats.max, 0);
    assert_eq!(stats.p50, 0);
    assert_eq!(stats.p95, 0);
}

#[test]
fn test_calculate_stats_percentiles() {
    // 100 known values to pin the percentile indexing
    let data: Vec<Sample> = (1..=100u64).map(|i| ms(i * 1000)).collect();
    let stats = calculate_stats(&data);

    assert_eq!(stats.avg, 50500);
    assert_eq!(stats.min, 1000);
    assert_eq!(stats.max, 100000);
    assert_eq!(stats.p50, 50000); // index floor(99 * 0.5) = 49
    assert_eq!(stats.p95, 95000); // index floor(99 * 0.95) = 94
    assert!(stats.p95 >= stats.p50);
}

#[test]
fn test_stats_collector_optional_data() {
    let mut collector = StatsCollector::new(100);

    // Only the required durations, no quick/large phases
    collector.add_request(ms(1000), ms(2000), None, None);

    let stats = collector.get_stats();
    assert_eq!(stats.total_requests, 1);

    // Quick and large stats stay all-zero
    assert_eq!(stats.quick_response_latency.avg, 0);
    assert_eq!(stats.large_model_latency.avg, 0);
}

#[test]
fn test_stats_collector_mixed_optional_data() {
    let mut collector = StatsCollector::new(100);

    collector.add_request(ms(1000), ms(2000), Some(ms(500)), Some(ms(1500)));
    collector.add_request(ms(3000), ms(4000), None, None);
    collector.add_request(ms(5000), ms(6000), Some(ms(2500)), Some(ms(4500)));

    let stats = collector.get_stats();
    assert_eq!(stats.total_requests, 3);

    // Averages come from the two entries that provided optional data
    assert_ne!(stats.quick_response_latency.avg, 0);
    assert_ne!(stats.large_model_latency.avg, 0);
}

#[test]
fn test_stats_collector_edge_case_sizes() {
    // Very small capacity
    let mut small_collector = StatsCollector::new(1);
    small_collector.add_request(ms(1000), ms(2000), Some(ms(500)), Some(ms(1500)));
    small_collector.add_request(ms(3000), ms(4000), Some(ms(1500)), Some(ms(2500)));

    assert!(small_collector.get_request_count() >= 1);

    // Zero capacity
    let mut zero_collector = StatsCollector::new(0);
    zero_collector.add_request(ms(1000), ms(2000), Some(ms(500)), Some(ms(1500)));

    let _stats = zero_collector.get_stats();
}

#[test]
fn test_percentile_ordering_always_holds() {
    // min <= p50 <= p95 <= max, and avg within [min, max]
    let samples = vec![
        vec![ms(7), ms(3), ms(9), ms(1), ms(4), ms(4), ms(8)],
        vec![ms(5)],
        vec![ms(2), ms(2), ms(2)],
        vec![ms(0), ms(u64::MAX)],
        vec![Sample::NonFinite, ms(10), ms(20)],
    ];
    for data in samples {
        let s = calculate_stats(&data);
        assert!(s.min <= s.p50);
        assert!(s.p50 <= s.p95);
        assert!(s.p95 <= s.max);
        assert!(s.min <= s.avg && s.avg <= s.max);
    }
}

#[test]
fn test_reset_then_snapshot_is_all_zero() {
    let mut collector = StatsCollector::new(200);
    for i in 0..50u64 {
        collector.add_request(ms(i + 1), ms(2 * i + 2), Some(ms(i)), Some(ms(i + 2)));
    }
    collector.reset();
    let stats = collector.get_stats();
    let zero = LatencyStats { avg: 0, min: 0, max: 0, p50: 0, p95: 0 };
    assert_eq!(stats.total_requests, 0);
    assert_eq!(stats.first_response_latency, zero);
    assert_eq!(stats.total_response_latency, zero);
    assert_eq!(stats.quick_response_latency, zero);
    assert_eq!(stats.large_model_latency, zero);
}

#[test]
fn test_counter_counts_every_request_exactly_once() {
    let mut collector = StatsCollector::new(10);
    for i in 0..1000u64 {
        collector.add_request(ms(i), ms(i), None, None);
        assert_eq!(collector.get_request_count(), i + 1);
    }
}

#[test]
fn test_capacity_bound_holds_far_over_the_limit() {
    let mut collector = StatsCollector::new(8);
    for i in 0..100u64 {
        collector.add_request(ms(i), ms(i), Some(ms(i)), Some(ms(i)));
        // The engine never errors and keeps serving snapshots
        let _ = collector.get_stats();
    }
    assert_eq!(collector.get_request_count(), 100);
}

#[test]
fn test_eviction_keeps_newest_entries() {
    // Capacity 4: pushing a fifth value evicts down to 3 (75%), oldest first
    let mut collector = StatsCollector::new(4);
    for i in 1..=5u64 {
        collector.add_request(ms(i * 1000), ms(i * 1000), None, None);
    }
    let stats = collector.get_stats();
    // Entries 3000, 4000, 5000 remain
    assert_eq!(stats.first_response_latency.min, 3000);
    assert_eq!(stats.first_response_latency.max, 5000);
    assert_eq!(stats.first_response_latency.avg, 4000);
}
