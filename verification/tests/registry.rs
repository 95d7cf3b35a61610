use dataflare_wasm::marketplace::registry::{sort_by_count_desc, validate_plugin_metadata, PluginRegistry, RegistryEntry};
use dataflare_wasm::marketplace::types::{
    LicenseInfo, Pagination, PluginMetadata, PublishStatus, SearchQuery, SecurityRating, SortBy,
};
use dataflare_wasm::wasm_error::WasmError;

fn metadata(id: &str, name: &str, categories: &[&str], created_at: i64) -> PluginMetadata {
    PluginMetadata {
        id: id.to_string(),
        name: name.to_string(),
        description: "A test plugin".to_string(),
        author: "Test Author".to_string(),
        author_email: Some("test@example.com".to_string()),
        homepage: None,
        repository: None,
        documentation: None,
        keywords: vec!["test".to_string()],
        categories: categories.iter().map(|c| c.to_string()).collect(),
        created_at,
        updated_at: created_at,
    }
}

fn entry(metadata: PluginMetadata, downloads: u64) -> RegistryEntry {
    RegistryEntry {
        metadata,
        versions: vec![],
        download_count: downloads,
        active_installs: 0,
        review_count: 0,
        rating: 0,
        security_rating: SecurityRating::Safe,
        license: LicenseInfo {
            license_type: "MIT".to_string(),
            license_text: None,
            is_open_source: true,
            allows_commercial_use: true,
        },
        dependencies: vec![],
        status: PublishStatus::Published,
    }
}

fn message(e: WasmError) -> String {
    match e {
        WasmError::PluginExecution(m) => m,
        other => panic!("unexpected error {:?}", other),
    }
}

#[test]
fn test_plugin_registry() {
    let mut registry = PluginRegistry::new();
    let e = entry(metadata("test-plugin", "Test Plugin", &["testing"], 0), 0);

    registry.register_plugin(e).unwrap();

    let retrieved = registry.get_plugin("test-plugin");
    assert!(retrieved.is_some());

    let plugins = registry.list_plugins();
    assert_eq!(plugins.len(), 1);
    assert_eq!(plugins[0].name, "Test Plugin");
}

#[test]
fn test_plugin_summary_defaults_to_zero_version() {
    let mut registry = PluginRegistry::new();
    registry.register_plugin(entry(metadata("p", "P", &[], 5), 12)).unwrap();
    let plugins = registry.list_plugins();
    assert_eq!(plugins[0].latest_version, "0.0.0");
    assert_eq!(plugins[0].download_count, 12);
    assert_eq!(plugins[0].keywords, vec!["test".to_string()]);
}

#[test]
fn test_metadata_checks_in_order() {
    let mut m = metadata("ok-id_1", "", &[], 0);
    m.description = String::new();
    assert_eq!(message(validate_plugin_metadata(&m).unwrap_err()), "插件名称不能为空");
    m.name = "n".to_string();
    assert_eq!(message(validate_plugin_metadata(&m).unwrap_err()), "插件描述不能为空");
    m.description = "d".to_string();
    m.author = String::new();
    assert_eq!(message(validate_plugin_metadata(&m).unwrap_err()), "插件作者不能为空");
    m.author = "a".to_string();
    assert!(validate_plugin_metadata(&m).is_ok());
    m.id = "bad id".to_string();
    assert_eq!(
        message(validate_plugin_metadata(&m).unwrap_err()),
        "插件ID只能包含字母、数字、连字符和下划线"
    );
}

#[test]
fn test_register_refuses_taken_identifier() {
    let mut registry = PluginRegistry::new();
    registry.register_plugin(entry(metadata("dup", "First", &[], 0), 0)).unwrap();
    let err = registry.register_plugin(entry(metadata("dup", "Second", &[], 0), 0)).unwrap_err();
    assert_eq!(message(err), "插件ID dup 已存在");
    assert_eq!(registry.get_plugin("dup").unwrap().metadata.name, "First");
}

#[test]
fn test_register_refuses_bad_metadata() {
    let mut registry = PluginRegistry::new();
    let err = registry.register_plugin(entry(metadata("a b", "X", &[], 0), 0)).unwrap_err();
    assert_eq!(message(err), "插件ID只能包含字母、数字、连字符和下划线");
    assert!(registry.get_plugin("a b").is_none());
}

#[test]
fn test_update_and_delete_missing_plugin() {
    let mut registry = PluginRegistry::new();
    let err = registry.update_plugin("ghost", entry(metadata("ghost", "G", &[], 0), 0)).unwrap_err();
    assert_eq!(message(err), "插件 ghost 不存在");
    let err = registry.delete_plugin("ghost").unwrap_err();
    assert_eq!(message(err), "插件 ghost 不存在");
}

#[test]
fn test_update_then_delete() {
    let mut registry = PluginRegistry::new();
    registry.register_plugin(entry(metadata("p1", "Old", &[], 0), 0)).unwrap();
    registry.update_plugin("p1", entry(metadata("p1", "New", &[], 0), 3)).unwrap();
    assert_eq!(registry.get_plugin("p1").unwrap().metadata.name, "New");
    registry.delete_plugin("p1").unwrap();
    assert!(registry.get_plugin("p1").is_none());
    assert!(registry.list_plugin_ids().is_empty());
}

#[test]
fn test_registry_stats() {
    let mut registry = PluginRegistry::new();
    registry.register_plugin(entry(metadata("a", "A", &["etl", "ml"], 100), 10)).unwrap();
    registry.register_plugin(entry(metadata("b", "B", &["ml"], 50), 5)).unwrap();
    registry.register_plugin(entry(metadata("c", "C", &["io", "ml", "etl"], 200), 1)).unwrap();
    let stats = registry.stats_at(100);
    assert_eq!(stats.total_plugins, 3);
    assert_eq!(stats.total_downloads, 16);
    assert_eq!(stats.new_plugins_this_month, 2);
    assert_eq!(
        stats.top_categories,
        vec![("ml".to_string(), 3), ("etl".to_string(), 2), ("io".to_string(), 1)]
    );
}

#[test]
fn test_top_categories_keep_five() {
    let mut registry = PluginRegistry::new();
    registry
        .register_plugin(entry(metadata("a", "A", &["c1", "c2", "c3", "c4", "c5", "c6", "c6"], 0), 0))
        .unwrap();
    let stats = registry.stats_at(0);
    assert_eq!(stats.top_categories.len(), 5);
    assert_eq!(stats.top_categories[0], ("c6".to_string(), 2));
    assert_eq!(stats.top_categories[1], ("c1".to_string(), 1));
}

#[test]
fn test_sort_by_count_is_stable() {
    let sorted = sort_by_count_desc(vec![
        ("x".to_string(), 1),
        ("y".to_string(), 3),
        ("z".to_string(), 1),
        ("w".to_string(), 3),
    ]);
    assert_eq!(
        sorted,
        vec![("y".to_string(), 3), ("w".to_string(), 3), ("x".to_string(), 1), ("z".to_string(), 1)]
    );
}

fn search_registry() -> PluginRegistry {
    let mut registry = PluginRegistry::new();
    let mut a = entry(metadata("csv-reader", "CSV Reader", &["io"], 10), 50);
    a.rating = 420;
    a.metadata.description = "Reads csv files".to_string();
    let mut b = entry(metadata("json-tools", "Json Tools", &["format"], 30), 500);
    b.rating = 380;
    b.metadata.keywords = vec!["CSV".to_string()];
    b.metadata.updated_at = 5;
    let mut c = entry(metadata("alpha-sink", "Alpha Sink", &["io", "sink"], 20), 50);
    c.rating = 490;
    c.metadata.author = "Someone Else".to_string();
    registry.register_plugin(a).unwrap();
    registry.register_plugin(b).unwrap();
    registry.register_plugin(c).unwrap();
    registry
}

fn query(sort_by: SortBy) -> SearchQuery {
    SearchQuery {
        query: None,
        categories: vec![],
        tags: vec![],
        author: None,
        license: None,
        min_rating: None,
        sort_by,
        pagination: Pagination { page: 0, page_size: 10 },
    }
}

fn ids(r: &[dataflare_wasm::marketplace::registry::PluginSummary]) -> Vec<String> {
    r.iter().map(|s| s.id.clone()).collect()
}

#[test]
fn search_matches_words_in_any_case() {
    let registry = search_registry();
    let mut q = query(SortBy::Relevance);
    q.query = Some("CSV".to_string());
    let r = registry.search_plugins(&q).unwrap();
    // Only the name of csv-reader holds the words, so it goes first.
    assert_eq!(ids(&r), vec!["csv-reader", "json-tools"]);
    assert_eq!(r[0].rating, 420);
}

#[test]
fn search_relevance_without_words_keeps_order() {
    let registry = search_registry();
    let r = registry.search_plugins(&query(SortBy::Relevance)).unwrap();
    assert_eq!(ids(&r), vec!["csv-reader", "json-tools", "alpha-sink"]);
}

#[test]
fn search_filters_category_author_and_rating() {
    let registry = search_registry();
    let mut q = query(SortBy::Name);
    q.categories = vec!["io".to_string()];
    assert_eq!(ids(&registry.search_plugins(&q).unwrap()), vec!["alpha-sink", "csv-reader"]);
    q.author = Some("Test Author".to_string());
    assert_eq!(ids(&registry.search_plugins(&q).unwrap()), vec!["csv-reader"]);
    let mut q = query(SortBy::Rating);
    q.min_rating = Some(400);
    assert_eq!(ids(&registry.search_plugins(&q).unwrap()), vec!["alpha-sink", "csv-reader"]);
}

#[test]
fn search_sorts_stably() {
    let registry = search_registry();
    let r = registry.search_plugins(&query(SortBy::Downloads)).unwrap();
    assert_eq!(ids(&r), vec!["json-tools", "csv-reader", "alpha-sink"]);
    let r = registry.search_plugins(&query(SortBy::Created)).unwrap();
    assert_eq!(ids(&r), vec!["json-tools", "alpha-sink", "csv-reader"]);
    let r = registry.search_plugins(&query(SortBy::Updated)).unwrap();
    assert_eq!(ids(&r), vec!["alpha-sink", "csv-reader", "json-tools"]);
}

#[test]
fn search_pages() {
    let registry = search_registry();
    let mut q = query(SortBy::Name);
    q.pagination = Pagination { page: 1, page_size: 2 };
    assert_eq!(ids(&registry.search_plugins(&q).unwrap()), vec!["json-tools"]);
    q.pagination = Pagination { page: 2, page_size: 2 };
    assert!(registry.search_plugins(&q).unwrap().is_empty());
}
