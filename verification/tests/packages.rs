use dataflare_wasm::keyed::KeyedList;
use dataflare_wasm::marketplace::package_manager::{
    sort_strings, str_less, DependencyTree, PackageError, PluginPackageManager, PluginSpec,
};
use dataflare_wasm::marketplace::types::{CompatibilityInfo, PluginMetadata, PluginPackage, PluginVersion, StorageConfig};
use dataflare_wasm::wasm_error::WasmError;

fn package(name: &str, binary: Vec<u8>) -> PluginPackage {
    PluginPackage {
        metadata: PluginMetadata {
            id: "p".to_string(),
            name: name.to_string(),
            description: "d".to_string(),
            author: "a".to_string(),
            author_email: None,
            homepage: None,
            repository: None,
            documentation: None,
            keywords: vec![],
            categories: vec![],
            created_at: 0,
            updated_at: 0,
        },
        version: PluginVersion {
            version: "1.0.0".to_string(),
            published_at: 0,
            download_url: String::new(),
            checksum: String::new(),
            file_size: 0,
            compatibility: CompatibilityInfo {
                min_dataflare_version: "0.1.0".to_string(),
                max_dataflare_version: None,
                platforms: vec![],
                architectures: vec![],
            },
            changelog: String::new(),
            prerelease: false,
            deprecated: false,
        },
        wasm_binary: binary,
        config_file: None,
        readme: None,
        license_file: None,
        additional_files: KeyedList::new(),
    }
}

#[test]
fn test_package_manager() {
    let manager = PluginPackageManager::new(StorageConfig::default());
    assert_eq!(manager.list_installed_plugins().len(), 0);
    assert_eq!(manager.check_updates().unwrap().len(), 0);
}

#[test]
fn test_package_manager_enhancements() {
    let mut manager = PluginPackageManager::new(StorageConfig::default());
    for id in ["plugin-1", "plugin-2"] {
        let spec = PluginSpec::new(id, "1.0.0");
        assert!(manager.needs_install(&spec));
        manager.install_downloaded(&spec, Ok(Some(package(id, vec![0, 0x61, 0x73, 0x6D]))), 0).unwrap();
    }
    assert_eq!(manager.list_installed_plugins().len(), 2);
    let tree = manager.get_dependency_tree("plugin-1").unwrap();
    assert_eq!(tree.root, "plugin-1");
    assert!(tree.get_all_dependencies().is_empty());
    let integrity = manager.verify_plugin_integrity("plugin-1").unwrap();
    assert!(!integrity);
}

#[test]
fn install_reports_download_and_package_failures() {
    let mut manager = PluginPackageManager::new(StorageConfig::default());
    let spec = PluginSpec::new("p", "2.0.0");
    assert_eq!(
        manager.install_downloaded(&spec, Ok(None), 0),
        Err(PackageError::DownloadFailed("插件包不存在: p:2.0.0".to_string()))
    );
    assert_eq!(
        manager.install_downloaded(&spec, Err(WasmError::Runtime("offline".to_string())), 0),
        Err(PackageError::DownloadFailed("下载失败: offline".to_string()))
    );
    assert_eq!(
        manager.install_downloaded(&spec, Ok(Some(package("n", vec![]))), 0),
        Err(PackageError::InstallFailed("WASM二进制文件为空".to_string()))
    );
    assert_eq!(
        manager.install_downloaded(&spec, Ok(Some(package("", vec![1]))), 0),
        Err(PackageError::InstallFailed("插件名称为空".to_string()))
    );
    assert!(manager.list_installed_plugins().is_empty());
}

#[test]
fn installed_version_satisfies_and_uninstall_forgets() {
    let mut manager = PluginPackageManager::new(StorageConfig::default());
    let spec = PluginSpec::new("p", "0.9.0");
    manager.install_downloaded(&spec, Ok(Some(package("n", vec![1]))), 5).unwrap();
    assert!(!manager.needs_install(&spec));
    assert!(manager.needs_install(&PluginSpec::new("p", "1.0.0")));
    let listed = manager.list_installed_plugins();
    assert_eq!(listed[0].install_path, "plugins/p");
    assert_eq!(listed[0].installed_at, 5);
    assert!(listed[0].enabled);

    let plan = manager.update_plan("p").unwrap().unwrap();
    assert_eq!(plan.version_requirement, "1.0.0");
    let updates = manager.check_updates().unwrap();
    assert_eq!(updates.len(), 1);
    assert_eq!(updates[0].current_version, "0.9.0");
    assert_eq!(updates[0].latest_version, "1.0.0");
    assert_eq!(updates[0].changelog, "更新日志");

    assert_eq!(manager.repair_plan("p").unwrap().version_requirement, "0.9.0");
    manager.uninstall_plugin("p").unwrap();
    assert!(manager.needs_install(&spec));
    assert!(matches!(manager.update_plan("p"), Err(PackageError::PluginNotInstalled(id)) if id == "p"));
}

#[test]
fn rollback_needs_an_offered_version() {
    let manager = PluginPackageManager::new(StorageConfig::default());
    assert_eq!(manager.rollback_plan("p", "1.1.0").unwrap().version_requirement, "1.1.0");
    assert_eq!(manager.rollback_plan("p", "3.0.0").unwrap_err(), PackageError::VersionNotFound("3.0.0".to_string()));
}

#[test]
fn newer_versions_compare_as_strings() {
    let manager = PluginPackageManager::new(StorageConfig::default());
    assert!(manager.is_newer_version("1.0.1", "1.0.0"));
    assert!(!manager.is_newer_version("1.0.0", "1.0.0"));
    assert!(manager.is_newer_version("9.0.0", "10.0.0"));
    assert!(manager.version_matches("1.0.0", "1.0.0"));
    assert!(!manager.version_matches("1.0.0", "1.0"));
    assert!(str_less("", "a"));
    assert!(!str_less("b", "a"));
}

#[test]
fn dependencies_are_everything_reachable_sorted_once() {
    let mut tree = DependencyTree::new("root".to_string());
    tree.add_dependency("root", "b");
    tree.add_dependency("root", "a");
    tree.add_dependency("b", "c");
    tree.add_dependency("c", "b");
    tree.add_dependency("c", "a");
    tree.add_dependency("x", "y");
    assert_eq!(
        tree.get_all_dependencies(),
        vec!["a".to_string(), "b".to_string(), "c".to_string()]
    );
}

#[test]
fn dependency_cycles_through_the_root_include_it() {
    let mut tree = DependencyTree::new("r".to_string());
    tree.add_dependency("r", "s");
    tree.add_dependency("s", "r");
    assert_eq!(tree.get_all_dependencies(), vec!["r".to_string(), "s".to_string()]);
}

#[test]
fn strings_sort_lexicographically() {
    let sorted = sort_strings(vec!["b".to_string(), "ab".to_string(), "a".to_string(), "B".to_string()]);
    assert_eq!(sorted, vec!["B".to_string(), "a".to_string(), "ab".to_string(), "b".to_string()]);
}
