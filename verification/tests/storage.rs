use dataflare_wasm::keyed::KeyedList;
use dataflare_wasm::marketplace::registry::RegistryEntry;
use dataflare_wasm::marketplace::storage::{choose_storage, package_key, FileStorage, MemoryStorage, StorageChoice};
use dataflare_wasm::marketplace::types::{
    CompatibilityInfo, LicenseInfo, Pagination, PluginMetadata, PluginPackage, PluginReview, PluginVersion, PublishStatus, SecurityRating, StorageConfig,
    StorageType,
};

fn review(id: &str) -> PluginReview {
    PluginReview {
        id: id.to_string(),
        user_id: "u".to_string(),
        username: "n".to_string(),
        rating: 5,
        comment: "c".to_string(),
        created_at: 0,
        verified_purchase: false,
    }
}

fn package(v: &str) -> PluginPackage {
    PluginPackage {
        metadata: PluginMetadata {
            id: "p".to_string(),
            name: "p".to_string(),
            description: String::new(),
            author: String::new(),
            author_email: None,
            homepage: None,
            repository: None,
            documentation: None,
            keywords: vec![],
            categories: vec![],
            created_at: 0,
            updated_at: 0,
        },
        version: PluginVersion {
            version: v.to_string(),
            published_at: 0,
            download_url: String::new(),
            checksum: String::new(),
            file_size: 0,
            compatibility: CompatibilityInfo {
                min_dataflare_version: String::new(),
                max_dataflare_version: None,
                platforms: vec![],
                architectures: vec![],
            },
            changelog: String::new(),
            prerelease: false,
            deprecated: false,
        },
        wasm_binary: vec![1],
        config_file: None,
        readme: None,
        license_file: None,
        additional_files: KeyedList::new(),
    }
}

#[test]
fn memory_storage_reads_back_what_it_saved() {
    let mut store = MemoryStorage::new();
    store.save_plugin_package("p", "1.0.0", package("1.0.0")).unwrap();
    store.save_plugin_package("p", "2.0.0", package("2.0.0")).unwrap();
    assert_eq!(store.get_plugin_package("p", "1.0.0").unwrap().version.version, "1.0.0");
    store.delete_plugin_package("p", "1.0.0").unwrap();
    assert!(store.get_plugin_package("p", "1.0.0").is_none());
    assert!(store.get_plugin_package("p", "2.0.0").is_some());
    assert_eq!(package_key("p", "2.0.0"), "p:2.0.0");
}

#[test]
fn memory_storage_pages_reviews() {
    let mut store = MemoryStorage::new();
    for i in 0..5 {
        store.save_review("p", &review(&format!("r{}", i))).unwrap();
    }
    let page = store.get_reviews("p", &Pagination { page: 1, page_size: 2 }).unwrap();
    let ids: Vec<String> = page.iter().map(|r| r.id.clone()).collect();
    assert_eq!(ids, vec!["r2".to_string(), "r3".to_string()]);
    let last = store.get_reviews("p", &Pagination { page: 2, page_size: 2 }).unwrap();
    assert_eq!(last.len(), 1);
    assert!(store.get_reviews("p", &Pagination { page: 9, page_size: 2 }).unwrap().is_empty());
    assert!(store.get_reviews("q", &Pagination { page: 0, page_size: 2 }).unwrap().is_empty());
}

#[test]
fn memory_storage_keeps_users_plugins_in_order() {
    let mut store = MemoryStorage::new();
    store.save_user_plugin("u", "a").unwrap();
    store.save_user_plugin("u", "b").unwrap();
    assert_eq!(store.get_user_plugins("u").unwrap(), vec!["a".to_string(), "b".to_string()]);
    assert!(store.get_user_plugins("v").unwrap().is_empty());
}

#[test]
fn file_storage_layout() {
    let files = FileStorage::new("data".to_string());
    assert_eq!(files.plugin_path("x"), "data/plugins/x.json");
    assert_eq!(files.package_path("x", "1.0.0"), "data/packages/x_1.0.0.json");
    assert_eq!(
        files.directories(),
        vec!["data", "data/plugins", "data/packages", "data/reviews", "data/users"]
    );
}

#[test]
fn storage_is_chosen_by_type() {
    let mut config = StorageConfig::default();
    assert!(matches!(choose_storage(&config), Ok(StorageChoice::Memory)));
    config.storage_type = StorageType::File;
    config.connection_string = "dir".to_string();
    match choose_storage(&config) {
        Ok(StorageChoice::File(f)) => assert_eq!(f.plugin_path("a"), "dir/plugins/a.json"),
        _ => panic!("expected a file store"),
    }
    config.storage_type = StorageType::Database;
    assert!(choose_storage(&config).is_err());
}

fn entry(id: &str) -> RegistryEntry {
    let mut metadata = package("1.0.0").metadata;
    metadata.id = id.to_string();
    RegistryEntry {
        metadata,
        versions: vec![],
        download_count: 0,
        active_installs: 0,
        review_count: 0,
        rating: 0,
        security_rating: SecurityRating::Safe,
        license: LicenseInfo {
            license_type: "MIT".to_string(),
            license_text: None,
            is_open_source: true,
            allows_commercial_use: true,
        },
        dependencies: vec![],
        status: PublishStatus::Published,
    }
}

#[test]
fn memory_storage_keeps_plugin_entries() {
    let mut s = MemoryStorage::new();
    s.save_plugin(entry("a")).unwrap();
    s.save_plugin(entry("b")).unwrap();
    assert_eq!(s.list_all_plugins().len(), 2);
    s.increment_download_count("a").unwrap();
    s.increment_download_count("a").unwrap();
    s.increment_download_count("missing").unwrap();
    assert_eq!(s.get_plugin("a").unwrap().download_count, 2);
    assert_eq!(s.get_plugin("b").unwrap().download_count, 0);
    s.delete_plugin("a").unwrap();
    assert!(s.get_plugin("a").is_none());
    let listed: Vec<String> = s.list_all_plugins().iter().map(|e| e.metadata.id.clone()).collect();
    assert_eq!(listed, vec!["b".to_string()]);
}

#[test]
fn memory_storage_deletes_a_review_everywhere() {
    let mut s = MemoryStorage::new();
    s.save_review("p", &review("r1")).unwrap();
    s.save_review("p", &review("r2")).unwrap();
    s.save_review("q", &review("r1")).unwrap();
    s.delete_review("r1").unwrap();
    let page = Pagination { page: 0, page_size: 10 };
    let ids: Vec<String> = s.get_reviews("p", &page).unwrap().into_iter().map(|r| r.id).collect();
    assert_eq!(ids, vec!["r2".to_string()]);
    assert!(s.get_reviews("q", &page).unwrap().is_empty());
}
