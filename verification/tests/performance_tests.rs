use ascii_ansi_table::alignment::{Alignment, ColumnConfig};
use ascii_ansi_table::border::BorderChars;
use ascii_ansi_table::padding::Padding;
use ascii_ansi_table::performance::{BatchProcessor, FastTableRenderer, PerformanceConfig, RenderCache, StringPool};
use ascii_ansi_table::renderer::RenderOptions;
use ascii_ansi_table::table_data::TableData;

#[test]
fn test_render_cache() {
    let mut cache = RenderCache::new(10);
    let result1 = cache.get_aligned_text("test", 10, Alignment::Center);
    let result2 = cache.get_aligned_text("test", 10, Alignment::Center);
    assert_eq!(result1, result2);
    assert_eq!(cache.cache_size(), 1);
}

#[test]
fn test_string_pool() {
    let mut pool = StringPool::new(5);
    let s1 = pool.intern("hello");
    let s2 = pool.intern("hello");
    assert_eq!(s1, s2);
    assert_eq!(pool.size(), 1);
}

#[test]
fn test_fast_table_renderer() {
    let config = PerformanceConfig::new().with_caching(true).with_memory_optimization(true);
    let mut renderer = FastTableRenderer::new(config);
    let data = TableData::new(vec![
        vec!["Name".to_string(), "Age".to_string()],
        vec!["Alice".to_string(), "30".to_string()],
        vec!["Bob".to_string(), "25".to_string()],
    ]);
    let column_configs = vec![ColumnConfig::new().with_width(8), ColumnConfig::new().with_width(5)];
    let result = renderer
        .render_table(&data, &BorderChars::default(), &RenderOptions::default(), &column_configs)
        .unwrap();
    assert!(result.contains("Name"));
    assert!(result.contains("Alice"));
    assert!(result.contains("Bob"));
    let (cache_size, _) = renderer.cache_stats();
    assert!(cache_size > 0);
}

#[test]
fn test_performance_config() {
    let config = PerformanceConfig::new()
        .with_caching(false)
        .with_cache_limit(500)
        .with_string_pool(false)
        .with_memory_optimization(false);
    assert!(!config.enable_caching);
    assert_eq!(config.cache_size_limit, 500);
    assert!(!config.use_string_pool);
    assert!(!config.optimize_memory);
}

#[test]
fn test_batch_processor() {
    let processor = BatchProcessor::new(2);
    let data = TableData::new(vec![
        vec!["A".to_string(), "B".to_string()],
        vec!["1".to_string(), "2".to_string()],
        vec!["3".to_string(), "4".to_string()],
        vec!["5".to_string(), "6".to_string()],
    ]);
    let results = processor.process_in_batches(&data, |batch| Ok(format!("Batch size: {}", batch.len()))).unwrap();
    assert_eq!(results.len(), 2);
    assert_eq!(results[0], "Batch size: 2");
    assert_eq!(results[1], "Batch size: 2");
}

#[test]
fn test_memory_estimation() {
    let processor = BatchProcessor::new(10);
    let data = TableData::new(vec![
        vec!["Hello".to_string(), "World".to_string()],
        vec!["Test".to_string(), "Data".to_string()],
    ]);
    let estimated = processor.estimate_memory_usage(&data);
    assert!(estimated > 0);
    let content_size = "HelloWorldTestData".len();
    assert!(estimated >= content_size);
}

#[test]
fn test_cache_size_limit() {
    let mut cache = RenderCache::new(2);
    cache.get_aligned_text("test1", 10, Alignment::Left);
    cache.get_aligned_text("test2", 10, Alignment::Left);
    assert_eq!(cache.cache_size(), 2);
    cache.get_aligned_text("test3", 10, Alignment::Left);
    assert_eq!(cache.cache_size(), 2);
}

#[test]
fn test_fast_column_width_calculation() {
    let config = PerformanceConfig::new().with_memory_optimization(true);
    let renderer = FastTableRenderer::new(config);
    let data = TableData::new(vec![
        vec!["Short".to_string(), "Very Long Text".to_string()],
        vec!["A".to_string(), "B".to_string()],
    ]);
    let widths = renderer.calculate_column_widths_fast(&data);
    assert_eq!(widths[0], 5);
    assert_eq!(widths[1], 14);
}

#[test]
fn cached_results_equal_the_direct_computation() {
    let mut cache = RenderCache::new(4);
    assert_eq!(cache.get_padded_text("x", Padding::new(2, 1)), "  x ");
    assert_eq!(cache.get_padded_text("x", Padding::new(2, 1)), "  x ");
    assert_eq!(cache.get_truncated_text("abcdefghij", 6, "..."), "abc...");
    assert_eq!(cache.get_truncated_text("abcdefghij", 6, "..."), "abc...");
    assert_eq!(cache.cache_size(), 2);
    cache.clear();
    assert_eq!(cache.cache_size(), 0);
}

#[test]
fn batches_cover_a_partial_last_batch() {
    let processor = BatchProcessor::new(2);
    let data = TableData::new(vec![vec!["1".to_string()], vec!["2".to_string()], vec!["3".to_string()]]);
    let results = processor.process_in_batches(&data, |batch| Ok(format!("{}", batch.len()))).unwrap();
    assert_eq!(results, vec!["2".to_string(), "1".to_string()]);
}
