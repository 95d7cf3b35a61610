use dataflare_wasm::marketplace::quality_scorer::PluginQualityScorer;
use dataflare_wasm::marketplace::search::PluginSearchEngine;
use dataflare_wasm::marketplace::registry::RegistryEntry;
use dataflare_wasm::marketplace::types::{
    LicenseInfo, Pagination, PluginMetadata, PublishStatus, RecommendationType, SearchConfig, SearchQuery, SecurityRating,
    SortBy,
};

fn metadata(id: &str, name: &str) -> PluginMetadata {
    PluginMetadata {
        id: id.to_string(),
        name: name.to_string(),
        description: "Fast CSV reader".to_string(),
        author: "Ann".to_string(),
        author_email: None,
        homepage: None,
        repository: None,
        documentation: None,
        keywords: vec!["csv".to_string()],
        categories: vec!["source".to_string()],
        created_at: 0,
        updated_at: 0,
    }
}

#[test]
fn test_search_engine() {
    let engine = PluginSearchEngine::new(SearchConfig::default()).unwrap();
    assert_eq!(engine.tokenize("Hello, World! (test)"), vec!["hello", "world", "test"]);
    assert!(engine.tokenize("  ...  ").is_empty());
}

#[test]
fn edit_distance_of_words() {
    let engine = PluginSearchEngine::new(SearchConfig::default()).unwrap();
    assert_eq!(engine.levenshtein_distance("kitten", "sitting"), 3);
    assert_eq!(engine.levenshtein_distance("", "abc"), 3);
    assert_eq!(engine.levenshtein_distance("abc", ""), 3);
    assert_eq!(engine.levenshtein_distance("same", "same"), 0);
    assert_eq!(engine.levenshtein_distance("", "é"), 1);
    assert_eq!(engine.levenshtein_distance("é", "e"), 1);
    assert!(engine.term_matches("reader", "reader"));
}

#[test]
fn indexing_and_removing_a_plugin() {
    let mut engine = PluginSearchEngine::new(SearchConfig::default()).unwrap();
    engine.index_plugin(&metadata("p1", "CSV Source")).unwrap();
    engine.index_plugin(&metadata("p2", "Other")).unwrap();
    let ids = engine.index().name_index.get("csv").unwrap().clone();
    assert_eq!(ids, vec!["p1".to_string()]);
    let csv = engine.index().keyword_index.get("csv").unwrap().clone();
    assert_eq!(csv, vec!["p1".to_string(), "p2".to_string()]);
    engine.remove_plugin_from_index("p1").unwrap();
    let after = engine.index().keyword_index.get("csv").unwrap().clone();
    assert_eq!(after, vec!["p2".to_string()]);
}

#[test]
fn recommendation_types_by_component() {
    let scorer = PluginQualityScorer::new().unwrap();
    assert_eq!(scorer.get_recommendation_type("performance"), RecommendationType::Performance);
    assert_eq!(scorer.get_recommendation_type("code_quality"), RecommendationType::CodeQuality);
}

fn engine_entry(id: &str, name: &str, downloads: u64, rating: u32, license: &str) -> RegistryEntry {
    let mut m = metadata(id, name);
    m.keywords = vec!["csv".to_string(), id.to_string()];
    RegistryEntry {
        metadata: m,
        versions: vec![],
        download_count: downloads,
        active_installs: 0,
        review_count: 0,
        rating,
        security_rating: SecurityRating::Safe,
        license: LicenseInfo {
            license_type: license.to_string(),
            license_text: None,
            is_open_source: true,
            allows_commercial_use: true,
        },
        dependencies: vec![],
        status: PublishStatus::Published,
    }
}

fn engine_query(sort_by: SortBy) -> SearchQuery {
    SearchQuery {
        query: None,
        categories: vec![],
        tags: vec![],
        author: None,
        license: None,
        min_rating: None,
        sort_by,
        pagination: Pagination { page: 0, page_size: 20 },
    }
}

#[test]
fn engine_filters_by_tag_licence_and_rating() {
    let engine = PluginSearchEngine::new(SearchConfig::default()).unwrap();
    let plugins = vec![
        engine_entry("a", "Alpha", 10, 450, "MIT"),
        engine_entry("b", "Beta", 30, 300, "Apache-2.0"),
        engine_entry("c", "Gamma", 20, 480, "MIT"),
    ];
    let results = vec![("c".to_string(), 3.0), ("x".to_string(), 9.0), ("a".to_string(), 2.0), ("b".to_string(), 1.0)];
    let mut q = engine_query(SortBy::Relevance);
    q.license = Some("MIT".to_string());
    let kept = engine.apply_filters(&results, &q, &plugins).unwrap();
    assert_eq!(kept, vec![("c".to_string(), 3.0), ("a".to_string(), 2.0)]);
    q.min_rating = Some(460);
    assert_eq!(engine.apply_filters(&results, &q, &plugins).unwrap(), vec![("c".to_string(), 3.0)]);
    let mut q = engine_query(SortBy::Relevance);
    q.tags = vec!["b".to_string()];
    assert_eq!(engine.apply_filters(&results, &q, &plugins).unwrap(), vec![("b".to_string(), 1.0)]);
}

#[test]
fn engine_sorts_results_stably() {
    let engine = PluginSearchEngine::new(SearchConfig::default()).unwrap();
    let plugins = vec![
        engine_entry("a", "Alpha", 20, 450, "MIT"),
        engine_entry("b", "Beta", 30, 300, "MIT"),
        engine_entry("c", "Gamma", 20, 480, "MIT"),
    ];
    let results = vec![("c".to_string(), 1u8), ("zz".to_string(), 2u8), ("a".to_string(), 3u8), ("b".to_string(), 4u8)];
    let ids = |v: Vec<(String, u8)>| v.into_iter().map(|p| p.0).collect::<Vec<_>>();
    let by_downloads = engine.sort_results(results.clone(), &engine_query(SortBy::Downloads), &plugins).unwrap();
    assert_eq!(ids(by_downloads), vec!["b", "c", "a", "zz"]);
    let by_name = engine.sort_results(results.clone(), &engine_query(SortBy::Name), &plugins).unwrap();
    assert_eq!(ids(by_name), vec!["a", "b", "c", "zz"]);
    let as_found = engine.sort_results(results.clone(), &engine_query(SortBy::Relevance), &plugins).unwrap();
    assert_eq!(ids(as_found), vec!["c", "zz", "a", "b"]);
    let summaries = engine.convert_to_summaries(&results, &plugins).unwrap();
    let listed: Vec<String> = summaries.iter().map(|s| s.id.clone()).collect();
    assert_eq!(listed, vec!["c", "a", "b"]);
    assert_eq!(summaries[0].rating, 480);
}

#[test]
fn engine_search_pages_scored_results() {
    let engine = PluginSearchEngine::new(SearchConfig::default()).unwrap();
    let plugins = vec![
        engine_entry("a", "Alpha", 20, 450, "MIT"),
        engine_entry("b", "Beta", 30, 300, "Apache-2.0"),
        engine_entry("c", "Gamma", 10, 480, "MIT"),
    ];
    let scored = vec![("a".to_string(), 0.5), ("b".to_string(), 0.9), ("c".to_string(), 0.7), ("x".to_string(), 1.0)];
    let mut q = engine_query(SortBy::Downloads);
    q.license = Some("MIT".to_string());
    q.pagination = Pagination { page: 0, page_size: 1 };
    let r = engine.search_scored(scored.clone(), &q, &plugins, 7).unwrap();
    assert_eq!(r.total_count, 2);
    assert_eq!(r.total_pages, 2);
    assert_eq!(r.current_page, 0);
    assert_eq!(r.search_time_ms, 7);
    assert_eq!(r.plugins.len(), 1);
    assert_eq!(r.plugins[0].id, "a");
    q.pagination = Pagination { page: 1, page_size: 1 };
    let r = engine.search_scored(scored.clone(), &q, &plugins, 7).unwrap();
    assert_eq!(r.plugins[0].id, "c");
    q.pagination = Pagination { page: 5, page_size: 1 };
    let r = engine.search_scored(scored, &q, &plugins, 7).unwrap();
    assert!(r.plugins.is_empty());
    assert_eq!(r.total_pages, 2);
}
